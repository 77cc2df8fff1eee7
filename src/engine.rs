//! The simulation context: the player, the input of the current tick and
//! the trigonometry table, with one tick of movement and one frame of
//! rendering.

use vstd::prelude::*;
use vstd::arithmetic::div_mod::lemma_small_mod;
use crate::arith::{div_toward_zero, lemma_trunc_div_bound};
use crate::player::{advance, Keys, Player, CLIMB, STEP, TURN};
use crate::projection::{camera_quad, project_spec, project_wall, NEAR};
use crate::raster::{
    draw_wall, on_screen, palette, palette_spec, wall_covers, Framebuffer, Rgba, BACKGROUND_COLOR,
    WALL_COLOR,
};
use crate::trig::{TrigTable, TRIG_ONE};

verus! {

/// Starting `x` of the player.
pub const START_X: i32 = 70;

/// Starting `y` of the player.
pub const START_Y: i32 = -110;

/// Starting height of the player.
pub const START_Z: i32 = 20;

/// The colour of pixel `(col, row)` in the frame rendered for player `p`:
/// the wall's colour where the projected wall covers it, the background
/// elsewhere.
pub open spec fn frame_pixel(p: Player, t: TrigTable, col: int, row: int) -> Rgba {
    match project_spec(p, t) {
        None => palette_spec(BACKGROUND_COLOR as int),
        Some(q) => if wall_covers(
            q.bottom_left.x as int,
            q.bottom_right.x as int,
            q.bottom_left.y as int,
            q.bottom_right.y as int,
            q.top_left.y as int,
            q.top_right.y as int,
            col,
            row,
        ) {
            palette_spec(WALL_COLOR as int)
        } else {
            palette_spec(BACKGROUND_COLOR as int)
        },
    }
}

/// The player, the keys held in the current tick and the table that both
/// movement and rendering read.
pub struct Engine {
    pub keys: Keys,
    pub trig: TrigTable,
    pub player: Player,
}

impl Engine {
    /// A well-formed table and a heading within `[0, 360)`.
    pub open spec fn wf(&self) -> bool {
        self.trig.wf() && self.player.wf()
    }

    /// The engine at the start: the player at `(70, -110)`, height 20,
    /// heading 0 and no lean, with no key held.
    pub fn init(trig: TrigTable) -> (r: Engine)
        requires
            trig.wf(),
        ensures
            r.wf(),
            r.trig == trig,
            r.player == (Player { x: START_X, y: START_Y, z: START_Z, heading: 0, lean: 0 }),
            r.keys == (Keys {
                forward: false,
                backward: false,
                turn_left: false,
                turn_right: false,
                strafe_left: false,
                strafe_right: false,
                modifier: false,
            }),
    {
        let keys = Keys {
            forward: false,
            backward: false,
            turn_left: false,
            turn_right: false,
            strafe_left: false,
            strafe_right: false,
            modifier: false,
        };
        let player = Player { x: START_X, y: START_Y, z: START_Z, heading: 0, lean: 0 };
        Engine { keys, trig, player }
    }

    /// Runs one tick of movement with the keys held (see [`advance`]).
    pub fn move_player(&mut self)
        requires
            old(self).wf(),
            old(self).player.has_room_spec(),
        ensures
            final(self).wf(),
            final(self).player@ == advance(old(self).player@, old(self).keys, old(self).trig),
            final(self).keys == old(self).keys,
            final(self).trig == old(self).trig,
    {
        let (c, s) = self.trig.lookup(self.player.heading);
        let dx: i32 = div_toward_zero(s as i128 * STEP as i128, TRIG_ONE as i128) as i32;
        let dy: i32 = div_toward_zero(c as i128 * STEP as i128, TRIG_ONE as i128) as i32;
        proof {
            lemma_trunc_div_bound(s * STEP, TRIG_ONE as int, STEP as int);
            lemma_trunc_div_bound(c * STEP, TRIG_ONE as int, STEP as int);
        }
        let k = self.keys;
        let ghost p0 = self.player@;
        let mut p = self.player;
        if !k.modifier {
            if k.turn_left {
                p.heading = p.heading - TURN;
                if p.heading < 0 {
                    p.heading = p.heading + 360;
                }
            }
            if k.turn_right {
                p.heading = p.heading + TURN;
                if p.heading > 359 {
                    p.heading = p.heading - 360;
                }
            }
            if k.forward {
                p.x = p.x + dx;
                p.y = p.y + dy;
            }
            if k.backward {
                p.x = p.x - dx;
                p.y = p.y - dy;
            }
            proof {
                let h = p0.heading;
                if k.turn_left && k.turn_right {
                    lemma_small_mod(h as nat, 360);
                } else if k.turn_left {
                    if h >= 4 {
                        lemma_small_mod((h - 4) as nat, 360);
                    } else {
                        assert((h - 4) % 360 == h + 356);
                    }
                } else if k.turn_right {
                    if h < 356 {
                        lemma_small_mod((h + 4) as nat, 360);
                    } else {
                        assert((h + 4) % 360 == h - 356);
                    }
                } else {
                    lemma_small_mod(h as nat, 360);
                }
            }
        } else {
            if k.turn_left {
                p.lean = p.lean - 1;
            }
            if k.turn_right {
                p.lean = p.lean + 1;
            }
            if k.forward {
                p.z = p.z - CLIMB;
            }
            if k.backward {
                p.z = p.z + CLIMB;
            }
        }
        if k.strafe_right {
            p.x = p.x + dy;
            p.y = p.y - dx;
        }
        if k.strafe_left {
            p.x = p.x - dy;
            p.y = p.y + dx;
        }
        self.player = p;
    }

    /// Renders one frame into `fb`: the background everywhere, then the wall
    /// where it is visible. The result depends on the player and the table
    /// alone, not on what `fb` held before.
    pub fn draw(&self, fb: &mut Framebuffer)
        requires
            self.wf(),
            old(fb).wf(),
        ensures
            final(fb).wf(),
            forall|col: int, row: int| on_screen(col, row) ==>
                #[trigger] final(fb).px(col, row) == frame_pixel(self.player, self.trig, col, row),
    {
        fb.clear(palette(BACKGROUND_COLOR));
        match project_wall(&self.player, &self.trig) {
            None => {},
            Some(q) => {
                draw_wall(
                    q.bottom_left.x,
                    q.bottom_right.x,
                    q.bottom_left.y,
                    q.bottom_right.y,
                    q.top_left.y,
                    q.top_right.y,
                    fb,
                );
            },
        }
    }
}

/// A wall whose two edges both lie behind the near plane is not projected,
/// and the frame is the background everywhere.
pub proof fn lemma_hidden_wall_blank(p: Player, t: TrigTable)
    requires
        camera_quad(p, t).bottom_left.wy < NEAR,
        camera_quad(p, t).bottom_right.wy < NEAR,
    ensures
        project_spec(p, t) is None,
        forall|col: int, row: int| on_screen(col, row) ==>
            #[trigger] frame_pixel(p, t, col, row) == palette_spec(BACKGROUND_COLOR as int),
{
}

/// Two frames rendered for the same player and table agree pixel for
/// pixel, whatever the buffers held before.
pub proof fn lemma_frame_deterministic(p: Player, t: TrigTable, a: Framebuffer, b: Framebuffer)
    requires
        forall|col: int, row: int| on_screen(col, row) ==> #[trigger] a.px(col, row) == frame_pixel(p, t, col, row),
        forall|col: int, row: int| on_screen(col, row) ==> #[trigger] b.px(col, row) == frame_pixel(p, t, col, row),
    ensures
        forall|col: int, row: int| on_screen(col, row) ==> #[trigger] a.px(col, row) == b.px(col, row),
{
}

} // verus!
