//! The projection pipeline: the wall's corners from world space into camera
//! space, clipped against the near plane, then divided into screen space.

use vstd::prelude::*;
use crate::arith::{
    clamp, clamp_i128, div_toward_zero, lemma_fraction_between, lemma_trunc_div_bound,
    lemma_trunc_div_shrinks, magnitude, trunc_div,
};
use crate::player::Player;
use crate::raster::{HEIGHT, WIDTH};
use crate::trig::{TrigTable, TRIG_ONE};

verus! {

/// World `x` of the wall's two bottom corners.
pub const WALL_X: i32 = 40;

/// World `y` of the wall's left bottom corner.
pub const WALL_LEFT_Y: i32 = 10;

/// World `y` of the wall's right bottom corner.
pub const WALL_RIGHT_Y: i32 = 290;

/// How far the top corners stand above the bottom ones.
pub const WALL_HEIGHT: i32 = 40;

/// Distance of the projection plane: screen units per unit of lateral
/// offset at depth one.
pub const FOCAL: i32 = 200;

/// Depths below this lie behind the near plane.
pub const NEAR: i32 = 1;

/// Divisor that turns lean times depth into a height offset.
pub const LEAN_DIVISOR: i32 = 32;

/// Largest magnitude of a camera coordinate that [`clip_behind_player`]
/// accepts.
pub const CAMERA_LIMIT: i128 = 0x4000_0000_0000_0000;

/// A corner in camera space, as mathematical integers.
pub struct CameraPoint {
    /// Lateral offset, to the right of the view axis.
    pub wx: int,
    /// Depth, along the view axis.
    pub wy: int,
    /// Height relative to the eye.
    pub wz: int,
}

/// A corner in camera space.
#[derive(Clone, Copy, Debug, PartialEq, Eq)]
pub struct CameraVertex {
    pub wx: i128,
    pub wy: i128,
    pub wz: i128,
}

impl View for CameraVertex {
    type V = CameraPoint;

    open spec fn view(&self) -> CameraPoint {
        CameraPoint { wx: self.wx as int, wy: self.wy as int, wz: self.wz as int }
    }
}

/// Whether every coordinate of `v` lies within [`CAMERA_LIMIT`].
pub open spec fn in_camera_range(v: CameraPoint) -> bool {
    &&& magnitude(v.wx) <= CAMERA_LIMIT
    &&& magnitude(v.wy) <= CAMERA_LIMIT
    &&& magnitude(v.wz) <= CAMERA_LIMIT
}

/// One coordinate moved from `c` toward `c_to` by the fraction
/// `wy / (wy - wy_to)`, which puts a point of depth `wy` on the plane of
/// depth zero along the segment to a point of depth `wy_to`. A zero
/// denominator is taken as one.
pub open spec fn clip_coord(c: int, c_to: int, wy: int, wy_to: int) -> int {
    let den = if wy - wy_to == 0 { 1 } else { wy - wy_to };
    c + trunc_div(wy * (c_to - c), den)
}

/// The corner `a` clipped against the near plane along its edge toward
/// `b`. A corner at or beyond the near plane stays as it is; any other moves
/// to where the edge crosses the plane, and its depth is then held at no
/// less than [`NEAR`].
pub open spec fn clipped(a: CameraPoint, b: CameraPoint) -> CameraPoint {
    if a.wy >= NEAR {
        a
    } else {
        let y = clip_coord(a.wy, b.wy, a.wy, b.wy);
        CameraPoint {
            wx: clip_coord(a.wx, b.wx, a.wy, b.wy),
            wy: if y < NEAR { NEAR as int } else { y },
            wz: clip_coord(a.wz, b.wz, a.wy, b.wy),
        }
    }
}

/// Computes [`clip_coord`].
fn clip_coord_exec(c: i128, c_to: i128, wy: i128, wy_to: i128) -> (r: i128)
    requires
        magnitude(c as int) <= CAMERA_LIMIT,
        magnitude(c_to as int) <= CAMERA_LIMIT,
        magnitude(wy as int) <= CAMERA_LIMIT,
        magnitude(wy_to as int) <= CAMERA_LIMIT,
    ensures
        r == clip_coord(c as int, c_to as int, wy as int, wy_to as int),
{
    let den: i128 = if wy - wy_to == 0 { 1 } else { wy - wy_to };
    let d: i128 = c_to - c;
    assert(magnitude(wy * d) <= CAMERA_LIMIT * (2 * CAMERA_LIMIT)) by (nonlinear_arith)
        requires
            magnitude(wy as int) <= CAMERA_LIMIT,
            magnitude(d as int) <= 2 * CAMERA_LIMIT;
    let q = div_toward_zero(wy * d, den);
    proof {
        lemma_trunc_div_shrinks((wy * d) as int, den as int);
    }
    c + q
}

/// Clips `corner` against the near plane along its edge toward `partner`
/// (see [`clipped`]).
pub fn clip_behind_player(corner: CameraVertex, partner: CameraVertex) -> (r: CameraVertex)
    requires
        in_camera_range(corner@),
        in_camera_range(partner@),
    ensures
        r@ == clipped(corner@, partner@),
        corner.wy >= NEAR ==> r == corner,
        r.wy >= NEAR,
{
    if corner.wy >= NEAR as i128 {
        return corner;
    }
    let wx = clip_coord_exec(corner.wx, partner.wx, corner.wy, partner.wy);
    let y = clip_coord_exec(corner.wy, partner.wy, corner.wy, partner.wy);
    let wz = clip_coord_exec(corner.wz, partner.wz, corner.wy, partner.wy);
    CameraVertex { wx, wy: if y < NEAR as i128 { NEAR as i128 } else { y }, wz }
}

/// A point behind the near plane clipped toward one at or beyond it lands
/// between the two, coordinate by coordinate.
pub proof fn lemma_clip_between(a: CameraPoint, b: CameraPoint)
    requires
        a.wy < NEAR <= b.wy,
    ensures
        magnitude(clipped(a, b).wx) <= magnitude(a.wx) + magnitude(b.wx),
        magnitude(clipped(a, b).wz) <= magnitude(a.wz) + magnitude(b.wz),
        NEAR <= clipped(a, b).wy <= magnitude(a.wy) + magnitude(b.wy) + 1,
{
    let n = -a.wy;
    let m = b.wy - a.wy;
    assert forall|c: int, c_to: int| true implies {
        let v = #[trigger] clip_coord(c, c_to, a.wy, b.wy);
        (c <= c_to ==> c <= v <= c_to) && (c_to < c ==> c_to <= v <= c)
    } by {
        let d = c_to - c;
        assert(a.wy * d == -(n * d)) by (nonlinear_arith)
            requires n == -a.wy;
        assert(trunc_div(a.wy * d, a.wy - b.wy) == trunc_div(n * d, m));
        lemma_fraction_between(n, m, d);
    }
}

/// A point of the screen, in pixels; row 0 at the bottom.
#[derive(Clone, Copy, Debug, PartialEq, Eq)]
pub struct ScreenPoint {
    pub x: i32,
    pub y: i32,
}

/// The wall's four corners on screen.
#[derive(Clone, Copy, Debug, PartialEq, Eq)]
pub struct ScreenQuad {
    pub bottom_left: ScreenPoint,
    pub bottom_right: ScreenPoint,
    pub top_left: ScreenPoint,
    pub top_right: ScreenPoint,
}

/// The wall's four corners in camera space.
pub struct CameraQuad {
    pub bottom_left: CameraPoint,
    pub bottom_right: CameraPoint,
    pub top_left: CameraPoint,
    pub top_right: CameraPoint,
}

/// The world point `(cx, cy)`, `lift` above the floor, seen by player `p`
/// whose heading has scaled cosine `c` and sine `s`: translated by the
/// player's position, rotated by the inverse of the heading, and its height
/// taken relative to the eye and sheared by the lean.
pub open spec fn camera_point(p: Player, c: int, s: int, cx: int, cy: int, lift: int) -> CameraPoint {
    let dx = cx - p.x;
    let dy = cy - p.y;
    let wy = trunc_div(dy * c + dx * s, TRIG_ONE as int);
    CameraPoint {
        wx: trunc_div(dx * c - dy * s, TRIG_ONE as int),
        wy,
        wz: -p.z + trunc_div(p.lean * wy, LEAN_DIVISOR as int) + lift,
    }
}

/// The wall's corners in camera space, before clipping.
pub open spec fn camera_quad(p: Player, t: TrigTable) -> CameraQuad {
    let c = t.cos_at(p.heading as int);
    let s = t.sin_at(p.heading as int);
    CameraQuad {
        bottom_left: camera_point(p, c, s, WALL_X as int, WALL_LEFT_Y as int, 0),
        bottom_right: camera_point(p, c, s, WALL_X as int, WALL_RIGHT_Y as int, 0),
        top_left: camera_point(p, c, s, WALL_X as int, WALL_LEFT_Y as int, WALL_HEIGHT as int),
        top_right: camera_point(p, c, s, WALL_X as int, WALL_RIGHT_Y as int, WALL_HEIGHT as int),
    }
}

/// Whether some edge of the wall reaches the near plane.
pub open spec fn wall_visible(q: CameraQuad) -> bool {
    q.bottom_left.wy >= NEAR || q.bottom_right.wy >= NEAR
}

/// The quad clipped against the near plane: first the left edge toward the
/// right one, then the right edge toward the (clipped) left one; each top
/// corner toward the top corner of the other edge.
pub open spec fn clipped_quad(q: CameraQuad) -> CameraQuad {
    let bl = clipped(q.bottom_left, q.bottom_right);
    let tl = clipped(q.top_left, q.top_right);
    CameraQuad {
        bottom_left: bl,
        bottom_right: clipped(q.bottom_right, bl),
        top_left: tl,
        top_right: clipped(q.top_right, tl),
    }
}

/// `v` held within the range of `i32`.
pub open spec fn saturate(v: int) -> int {
    clamp(v, i32::MIN as int, i32::MAX as int)
}

/// The perspective divide and viewport transform of one coordinate:
/// `c * FOCAL / wy + half`, rounded toward zero.
pub open spec fn screen_coord(c: int, wy: int, half: int) -> int {
    saturate(trunc_div(c * FOCAL, wy) + half)
}

/// A camera-space point on screen.
pub open spec fn screen_point(v: CameraPoint) -> ScreenPoint {
    ScreenPoint {
        x: screen_coord(v.wx, v.wy, (WIDTH / 2) as int) as i32,
        y: screen_coord(v.wz, v.wy, (HEIGHT / 2) as int) as i32,
    }
}

/// The wall on screen for player `p`, or `None` where both of its edges lie
/// behind the near plane.
pub open spec fn project_spec(p: Player, t: TrigTable) -> Option<ScreenQuad> {
    let q = camera_quad(p, t);
    if !wall_visible(q) {
        None
    } else {
        let k = clipped_quad(q);
        Some(
            ScreenQuad {
                bottom_left: screen_point(k.bottom_left),
                bottom_right: screen_point(k.bottom_right),
                top_left: screen_point(k.top_left),
                top_right: screen_point(k.top_right),
            },
        )
    }
}

/// Largest magnitude of the camera coordinates of an unclipped corner.
pub const CORNER_LIMIT: i128 = 0x1000_0000_0000_0000;

/// Computes [`camera_point`].
fn camera_point_exec(p: &Player, c: i32, s: i32, cx: i32, cy: i32, lift: i32) -> (r: CameraVertex)
    requires
        -TRIG_ONE <= c <= TRIG_ONE,
        -TRIG_ONE <= s <= TRIG_ONE,
        0 <= lift <= WALL_HEIGHT,
        0 <= cx <= WALL_X,
        0 <= cy <= WALL_RIGHT_Y,
    ensures
        r@ == camera_point(*p, c as int, s as int, cx as int, cy as int, lift as int),
        magnitude(r.wx as int) <= CORNER_LIMIT,
        magnitude(r.wy as int) <= 0x2_0000_0000,
        magnitude(r.wz as int) <= CORNER_LIMIT,
{
    let dx: i128 = cx as i128 - p.x as i128;
    let dy: i128 = cy as i128 - p.y as i128;
    let c: i128 = c as i128;
    let s: i128 = s as i128;
    let one: i128 = TRIG_ONE as i128;
    assert(magnitude(dy * c) <= 0x1_0000_0000 * one && magnitude(dx * s) <= 0x1_0000_0000 * one
        && magnitude(dx * c) <= 0x1_0000_0000 * one && magnitude(dy * s) <= 0x1_0000_0000 * one)
        by (nonlinear_arith)
        requires
            magnitude(dx as int) <= 0x1_0000_0000,
            magnitude(dy as int) <= 0x1_0000_0000,
            magnitude(c as int) <= one,
            magnitude(s as int) <= one,
            one == 65536;
    let wy = div_toward_zero(dy * c + dx * s, one);
    let wx = div_toward_zero(dx * c - dy * s, one);
    proof {
        lemma_trunc_div_bound((dy * c + dx * s) as int, one as int, 0x2_0000_0000);
        lemma_trunc_div_bound((dx * c - dy * s) as int, one as int, 0x2_0000_0000);
    }
    let lean: i128 = p.lean as i128;
    assert(magnitude(lean * wy) <= 0x8000_0000 * 0x2_0000_0000) by (nonlinear_arith)
        requires
            magnitude(lean as int) <= 0x8000_0000,
            magnitude(wy as int) <= 0x2_0000_0000;
    let shear = div_toward_zero(lean * wy, LEAN_DIVISOR as i128);
    proof {
        lemma_trunc_div_bound((lean * wy) as int, LEAN_DIVISOR as int, 0x0800_0000_0000_0000int);
    }
    CameraVertex { wx, wy, wz: -(p.z as i128) + shear + lift as i128 }
}

/// Computes [`screen_coord`].
fn screen_coord_exec(c: i128, wy: i128, half: i32) -> (r: i32)
    requires
        magnitude(c as int) <= CAMERA_LIMIT,
        NEAR <= wy <= CAMERA_LIMIT,
        0 <= half <= WIDTH,
    ensures
        r == screen_coord(c as int, wy as int, half as int),
{
    assert(magnitude(c * FOCAL) <= CAMERA_LIMIT * 200) by (nonlinear_arith)
        requires magnitude(c as int) <= CAMERA_LIMIT;
    let q = div_toward_zero(c * FOCAL as i128, wy);
    proof {
        lemma_trunc_div_shrinks((c * FOCAL) as int, wy as int);
    }
    clamp_i128(q + half as i128, i32::MIN as i128, i32::MAX as i128) as i32
}

/// Computes [`screen_point`].
fn screen_point_exec(v: CameraVertex) -> (r: ScreenPoint)
    requires
        in_camera_range(v@),
        v.wy >= NEAR,
    ensures
        r == screen_point(v@),
{
    ScreenPoint { x: screen_coord_exec(v.wx, v.wy, WIDTH / 2), y: screen_coord_exec(v.wz, v.wy, HEIGHT / 2) }
}

/// Projects the wall for player `p`: its corners in camera space, clipped
/// against the near plane, then on screen. `None` where the wall lies wholly
/// behind the near plane.
pub fn project_wall(p: &Player, t: &TrigTable) -> (r: Option<ScreenQuad>)
    requires
        p.wf(),
        t.wf(),
    ensures
        r == project_spec(*p, *t),
{
    proof {
        t.lemma_entries();
    }
    let (c, s) = t.lookup(p.heading);
    let bl = camera_point_exec(p, c, s, WALL_X, WALL_LEFT_Y, 0);
    let br = camera_point_exec(p, c, s, WALL_X, WALL_RIGHT_Y, 0);
    let tl = camera_point_exec(p, c, s, WALL_X, WALL_LEFT_Y, WALL_HEIGHT);
    let tr = camera_point_exec(p, c, s, WALL_X, WALL_RIGHT_Y, WALL_HEIGHT);
    if bl.wy < NEAR as i128 && br.wy < NEAR as i128 {
        return None;
    }
    let bl2 = clip_behind_player(bl, br);
    let tl2 = clip_behind_player(tl, tr);
    proof {
        if bl.wy < NEAR {
            lemma_clip_between(bl@, br@);
            lemma_clip_between(tl@, tr@);
        }
    }
    let br2 = clip_behind_player(br, bl2);
    let tr2 = clip_behind_player(tr, tl2);
    proof {
        if br.wy < NEAR {
            lemma_clip_between(br@, bl2@);
            lemma_clip_between(tr@, tl2@);
        }
    }
    Some(
        ScreenQuad {
            bottom_left: screen_point_exec(bl2),
            bottom_right: screen_point_exec(br2),
            top_left: screen_point_exec(tl2),
            top_right: screen_point_exec(tr2),
        },
    )
}

} // verus!
