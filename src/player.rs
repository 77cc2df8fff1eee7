//! The player's state, the input of one tick and the movement model that
//! turns one into the next.

use vstd::prelude::*;
use vstd::arithmetic::div_mod::{lemma_add_mod_noop_right, lemma_div_by_multiple};
use crate::arith::trunc_div;
use crate::trig::{TrigTable, TRIG_ONE};

verus! {

/// World units travelled in one tick.
pub const STEP: i32 = 10;

/// Degrees turned in one tick.
pub const TURN: i32 = 4;

/// Height units climbed or descended in one tick.
pub const CLIMB: i32 = 4;

/// Position, height, heading and lean of the player.
#[derive(Clone, Copy, Debug, PartialEq, Eq)]
pub struct Player {
    pub x: i32,
    pub y: i32,
    pub z: i32,
    /// Facing direction in degrees, within `[0, 360)`.
    pub heading: i32,
    /// Vertical shear: how much the depth of a point lifts it on screen.
    pub lean: i32,
}

/// The input intents held during one tick.
#[derive(Clone, Copy, Debug, Default, PartialEq, Eq)]
pub struct Keys {
    pub forward: bool,
    pub backward: bool,
    pub turn_left: bool,
    pub turn_right: bool,
    pub strafe_left: bool,
    pub strafe_right: bool,
    /// Turns the turn keys into lean and forward/backward into height.
    pub modifier: bool,
}

/// The player's state as mathematical integers.
pub struct PlayerModel {
    pub x: int,
    pub y: int,
    pub z: int,
    pub heading: int,
    pub lean: int,
}

impl View for Player {
    type V = PlayerModel;

    open spec fn view(&self) -> PlayerModel {
        PlayerModel {
            x: self.x as int,
            y: self.y as int,
            z: self.z as int,
            heading: self.heading as int,
            lean: self.lean as int,
        }
    }
}

impl Player {
    /// The heading is a degree of the table.
    pub open spec fn wf(&self) -> bool {
        0 <= self.heading < 360
    }

    /// Every field is far enough from the limits of `i32` for one more tick
    /// of movement: position by two steps, height by one climb, lean by one.
    pub open spec fn has_room_spec(&self) -> bool {
        &&& i32::MIN + 2 * STEP <= self.x <= i32::MAX - 2 * STEP
        &&& i32::MIN + 2 * STEP <= self.y <= i32::MAX - 2 * STEP
        &&& i32::MIN + CLIMB <= self.z <= i32::MAX - CLIMB
        &&& i32::MIN + 1 <= self.lean <= i32::MAX - 1
    }

    /// Whether one more tick of movement stays within `i32`.
    pub fn has_room(&self) -> (r: bool)
        ensures
            r == self.has_room_spec(),
    {
        i32::MIN + 2 * STEP <= self.x && self.x <= i32::MAX - 2 * STEP
            && i32::MIN + 2 * STEP <= self.y && self.y <= i32::MAX - 2 * STEP
            && i32::MIN + CLIMB <= self.z && self.z <= i32::MAX - CLIMB
            && i32::MIN + 1 <= self.lean && self.lean <= i32::MAX - 1
    }
}

/// The sideways component of one step along heading `h`: `sin(h) * STEP`,
/// rounded toward zero.
pub open spec fn step_dx(t: TrigTable, h: int) -> int {
    trunc_div(t.sin_at(h) * STEP, TRIG_ONE as int)
}

/// The forward component of one step along heading `h`: `cos(h) * STEP`,
/// rounded toward zero.
pub open spec fn step_dy(t: TrigTable, h: int) -> int {
    trunc_div(t.cos_at(h) * STEP, TRIG_ONE as int)
}

/// `v` when `b` holds, else `0`.
pub open spec fn when(b: bool, v: int) -> int {
    if b { v } else { 0 }
}

/// The heading `h` turned by `delta` degrees, wrapped into `[0, 360)`.
pub open spec fn turned(h: int, delta: int) -> int {
    (h + delta) % 360
}

/// The state after one tick with keys `k`, where `(dx, dy)` is the step
/// vector of the heading at the start of the tick.
///
/// Without the modifier the turn keys turn by [`TURN`] degrees and
/// forward/backward walk along `(dx, dy)`; with it the turn keys change the
/// lean by one and forward/backward lower/raise the height by [`CLIMB`].
/// Strafing moves along `(dy, -dx)` in both modes.
pub open spec fn advance_by(p: PlayerModel, k: Keys, dx: int, dy: int) -> PlayerModel {
    let side_x = when(k.strafe_right, dy) - when(k.strafe_left, dy);
    let side_y = when(k.strafe_left, dx) - when(k.strafe_right, dx);
    if !k.modifier {
        PlayerModel {
            x: p.x + when(k.forward, dx) - when(k.backward, dx) + side_x,
            y: p.y + when(k.forward, dy) - when(k.backward, dy) + side_y,
            z: p.z,
            heading: turned(p.heading, when(k.turn_right, TURN as int) - when(k.turn_left, TURN as int)),
            lean: p.lean,
        }
    } else {
        PlayerModel {
            x: p.x + side_x,
            y: p.y + side_y,
            z: p.z - when(k.forward, CLIMB as int) + when(k.backward, CLIMB as int),
            heading: p.heading,
            lean: p.lean - when(k.turn_left, 1) + when(k.turn_right, 1),
        }
    }
}

/// The state after one tick with keys `k`, using the table `t`.
pub open spec fn advance(p: PlayerModel, k: Keys, t: TrigTable) -> PlayerModel {
    advance_by(p, k, step_dx(t, p.heading), step_dy(t, p.heading))
}

/// Keys that only turn: right when `right`, left otherwise.
pub open spec fn turning(right: bool) -> Keys {
    Keys {
        forward: false,
        backward: false,
        turn_left: !right,
        turn_right: right,
        strafe_left: false,
        strafe_right: false,
        modifier: false,
    }
}

/// Keys that only walk forward.
pub open spec fn walking() -> Keys {
    Keys {
        forward: true,
        backward: false,
        turn_left: false,
        turn_right: false,
        strafe_left: false,
        strafe_right: false,
        modifier: false,
    }
}

/// The state after `n` ticks, all with keys `k`.
pub open spec fn advance_times(p: PlayerModel, k: Keys, t: TrigTable, n: nat) -> PlayerModel
    decreases n,
{
    if n == 0 {
        p
    } else {
        advance(advance_times(p, k, t, (n - 1) as nat), k, t)
    }
}

/// The state after `n` ticks that each turn right and then turn left.
pub open spec fn sway_times(p: PlayerModel, t: TrigTable, n: nat) -> PlayerModel
    decreases n,
{
    if n == 0 {
        p
    } else {
        advance(advance(sway_times(p, t, (n - 1) as nat), turning(true), t), turning(false), t)
    }
}

/// `n` ticks of turning by `delta` degrees change the heading alone, to
/// `heading + n * delta` wrapped into `[0, 360)`.
pub proof fn lemma_turn_times(p: PlayerModel, right: bool, t: TrigTable, n: nat)
    requires
        0 <= p.heading < 360,
    ensures
        advance_times(p, turning(right), t, n) == (PlayerModel {
            heading: (p.heading + n * (if right { TURN as int } else { -TURN })) % 360,
            ..p
        }),
    decreases n,
{
    let d: int = if right { TURN as int } else { -TURN };
    if n == 0 {
        assert(p.heading % 360 == p.heading);
    } else {
        lemma_turn_times(p, right, t, (n - 1) as nat);
        lemma_add_mod_noop_right(d, p.heading + (n - 1) * d, 360);
        assert(d + (p.heading + (n - 1) * d) == p.heading + n * d) by (nonlinear_arith);
    }
}

/// Turning right for `n` ticks and then left for `n` ticks brings the
/// player back to where it started, for every heading in `[0, 360)`.
pub proof fn lemma_turn_round_trip(p: PlayerModel, t: TrigTable, n: nat)
    requires
        0 <= p.heading < 360,
    ensures
        advance_times(advance_times(p, turning(true), t, n), turning(false), t, n) == p,
{
    lemma_turn_times(p, true, t, n);
    let q = advance_times(p, turning(true), t, n);
    lemma_turn_times(q, false, t, n);
    lemma_add_mod_noop_right(-(n * TURN), p.heading + n * TURN, 360);
    assert(-(n * TURN) + (p.heading + n * TURN) == p.heading);
    assert(p.heading % 360 == p.heading);
    assert(q.heading + n * -TURN == -(n * TURN) + q.heading) by (nonlinear_arith);
}

/// Turning right and then left, `n` times over, brings the player back to
/// where it started, for every heading in `[0, 360)`.
pub proof fn lemma_sway_round_trip(p: PlayerModel, t: TrigTable, n: nat)
    requires
        0 <= p.heading < 360,
    ensures
        sway_times(p, t, n) == p,
    decreases n,
{
    if n > 0 {
        lemma_sway_round_trip(p, t, (n - 1) as nat);
        lemma_turn_round_trip(p, t, 1);
        assert(advance_times(p, turning(true), t, 0) == p);
        assert(advance_times(p, turning(true), t, 1) == advance(p, turning(true), t));
        let q = advance(p, turning(true), t);
        assert(advance_times(q, turning(false), t, 0) == q);
        assert(advance_times(q, turning(false), t, 1) == advance(q, turning(false), t));
    }
}

/// Walking forward one tick at heading 0 moves the player by [`STEP`] along
/// `y`; at heading 90 it moves it by [`STEP`] along `x`. Nothing else
/// changes.
pub proof fn lemma_forward_along_axes(p: PlayerModel, t: TrigTable)
    requires
        t.wf(),
    ensures
        p.heading == 0 ==> advance(p, walking(), t) == (PlayerModel { y: p.y + STEP, ..p }),
        p.heading == 90 ==> advance(p, walking(), t) == (PlayerModel { x: p.x + STEP, ..p }),
{
    t.lemma_entries();
    assert(trunc_div(0, TRIG_ONE as int) == 0);
    lemma_div_by_multiple(STEP as int, TRIG_ONE as int);
    assert(trunc_div(TRIG_ONE * STEP, TRIG_ONE as int) == STEP);
    assert(0int % 360 == 0 && 90int % 360 == 90);
}

} // verus!
