use wall_render::engine::Engine;
use wall_render::player::{Keys, Player};
use wall_render::projection::{clip_behind_player, project_wall, CameraVertex, ScreenPoint, ScreenQuad};
use wall_render::raster::{draw_wall, palette, Framebuffer, Rgba, BACKGROUND_COLOR, HEIGHT, WALL_COLOR, WIDTH};
use wall_render::trig::{TrigTable, TRIG_ONE};

fn scaled_tables() -> (Vec<i32>, Vec<i32>) {
    let mut cos = Vec::new();
    let mut sin = Vec::new();
    for d in 0..360 {
        let a = (d as f64).to_radians();
        cos.push((a.cos() * TRIG_ONE as f64).round() as i32);
        sin.push((a.sin() * TRIG_ONE as f64).round() as i32);
    }
    (cos, sin)
}

fn table() -> TrigTable {
    let (cos, sin) = scaled_tables();
    TrigTable::from_scaled(cos, sin).expect("a valid table")
}

fn engine_with(player: Player, keys: Keys) -> Engine {
    let mut e = Engine::init(table());
    e.player = player;
    e.keys = keys;
    e
}

fn start() -> Player {
    Player { x: 70, y: -110, z: 20, heading: 0, lean: 0 }
}

fn wall() -> Rgba {
    palette(WALL_COLOR)
}

fn background() -> Rgba {
    palette(BACKGROUND_COLOR)
}

fn render(e: &Engine) -> Framebuffer {
    let mut fb = Framebuffer::new(Rgba { r: 1, g: 2, b: 3, a: 4 });
    e.draw(&mut fb);
    fb
}

#[test]
fn table_lookup_gives_scaled_values() {
    let t = table();
    assert_eq!(t.lookup(0), (TRIG_ONE, 0));
    assert_eq!(t.lookup(90), (0, TRIG_ONE));
    assert_eq!(t.lookup(180), (-TRIG_ONE, 0));
    assert_eq!(t.lookup(270), (0, -TRIG_ONE));
    assert_eq!(t.lookup(30).1, 32768);
}

#[test]
fn table_refuses_bad_entries() {
    let (cos, sin) = scaled_tables();
    assert!(TrigTable::from_scaled(cos[..359].to_vec(), sin.clone()).is_none());
    let mut big = cos.clone();
    big[10] = TRIG_ONE + 1;
    assert!(TrigTable::from_scaled(big, sin.clone()).is_none());
    let mut off = sin.clone();
    off[90] = TRIG_ONE - 1;
    assert!(TrigTable::from_scaled(cos, off).is_none());
}

#[test]
fn init_places_player_at_start() {
    let e = Engine::init(table());
    assert_eq!(e.player, start());
    assert_eq!(e.keys, Keys::default());
}

#[test]
fn turning_right_then_left_restores_heading() {
    for h in [0, 1, 3, 4, 100, 355, 356, 359] {
        for n in [1, 5, 90, 91, 200] {
            let mut e = engine_with(Player { heading: h, ..start() }, Keys { turn_right: true, ..Keys::default() });
            for _ in 0..n {
                e.move_player();
            }
            e.keys = Keys { turn_left: true, ..Keys::default() };
            for _ in 0..n {
                e.move_player();
            }
            assert_eq!(e.player, Player { heading: h, ..start() });
        }
    }
}

#[test]
fn turning_wraps_heading() {
    let mut e = engine_with(Player { heading: 358, ..start() }, Keys { turn_right: true, ..Keys::default() });
    e.move_player();
    assert_eq!(e.player.heading, 2);
    e.keys = Keys { turn_left: true, ..Keys::default() };
    e.move_player();
    e.move_player();
    assert_eq!(e.player.heading, 354);
}

#[test]
fn forward_at_heading_zero_moves_along_y() {
    let mut e = engine_with(start(), Keys { forward: true, ..Keys::default() });
    e.move_player();
    assert_eq!(e.player, Player { y: -100, ..start() });
}

#[test]
fn forward_at_heading_ninety_moves_along_x() {
    let mut e = engine_with(Player { heading: 90, ..start() }, Keys { forward: true, ..Keys::default() });
    e.move_player();
    assert_eq!(e.player, Player { x: 80, heading: 90, ..start() });
}

#[test]
fn forward_step_truncates_toward_zero() {
    // sin 45 and cos 45 scaled by ten are 7.07..., which truncate to 7.
    let mut e = engine_with(Player { heading: 45, ..start() }, Keys { forward: true, ..Keys::default() });
    e.move_player();
    assert_eq!(e.player, Player { x: 77, y: -103, heading: 45, ..start() });
    // At 225 degrees both components are -7.07..., which truncate to -7.
    let mut e = engine_with(Player { heading: 225, ..start() }, Keys { backward: true, ..Keys::default() });
    e.move_player();
    assert_eq!(e.player, Player { x: 77, y: -103, heading: 225, ..start() });
}

#[test]
fn strafe_moves_sideways_in_both_modes() {
    let mut e = engine_with(start(), Keys { strafe_right: true, ..Keys::default() });
    e.move_player();
    assert_eq!(e.player, Player { x: 80, ..start() });
    e.keys = Keys { strafe_left: true, modifier: true, ..Keys::default() };
    e.move_player();
    e.move_player();
    assert_eq!(e.player, Player { x: 60, ..start() });
}

#[test]
fn modifier_changes_lean_and_height() {
    let mut e = engine_with(start(), Keys { modifier: true, turn_right: true, forward: true, ..Keys::default() });
    e.move_player();
    assert_eq!(e.player, Player { z: 16, lean: 1, ..start() });
    e.keys = Keys { modifier: true, turn_left: true, backward: true, ..Keys::default() };
    e.move_player();
    e.move_player();
    assert_eq!(e.player, Player { z: 24, lean: -1, ..start() });
}

#[test]
fn room_to_move_is_checked() {
    assert!(start().has_room());
    assert!(!Player { x: i32::MAX - 5, ..start() }.has_room());
    assert!(!Player { lean: i32::MIN, ..start() }.has_room());
}

#[test]
fn clip_leaves_corner_on_near_plane() {
    let corner = CameraVertex { wx: -17, wy: 1, wz: 23 };
    let partner = CameraVertex { wx: 40, wy: 5, wz: -60 };
    assert_eq!(clip_behind_player(corner, partner), corner);
}

#[test]
fn clip_moves_corner_behind_to_the_plane() {
    // Half way from depth -10 to depth 10.
    let corner = CameraVertex { wx: -30, wy: -10, wz: 7 };
    let partner = CameraVertex { wx: 10, wy: 10, wz: -13 };
    assert_eq!(clip_behind_player(corner, partner), CameraVertex { wx: -10, wy: 1, wz: -3 });
    // A third of the way, rounded toward zero.
    let corner = CameraVertex { wx: 0, wy: -1, wz: 0 };
    let partner = CameraVertex { wx: 10, wy: 2, wz: -10 };
    assert_eq!(clip_behind_player(corner, partner), CameraVertex { wx: 3, wy: 1, wz: -3 });
}

#[test]
fn clip_with_equal_depths_divides_by_one() {
    let corner = CameraVertex { wx: 5, wy: -2, wz: 1 };
    let partner = CameraVertex { wx: 8, wy: -2, wz: 4 };
    assert_eq!(clip_behind_player(corner, partner), CameraVertex { wx: -1, wy: 1, wz: -5 });
}

#[test]
fn start_projects_to_known_corners() {
    let q = project_wall(&start(), &table());
    assert_eq!(
        q,
        Some(ScreenQuad {
            bottom_left: ScreenPoint { x: 30, y: 27 },
            bottom_right: ScreenPoint { x: 65, y: 50 },
            top_left: ScreenPoint { x: 30, y: 93 },
            top_right: ScreenPoint { x: 65, y: 70 },
        })
    );
}

#[test]
fn start_frame_holds_wall_inside_quad_only() {
    let fb = render(&Engine::init(table()));
    let mut painted = 0;
    for y in 0..HEIGHT {
        for x in 0..WIDTH {
            let inside = if (30..65).contains(&x) {
                let t = (x - 30) as f32 + 0.5;
                let bottom = (23.0 * t / 35.0) as i32 + 27;
                let top = (-23.0 * t / 35.0) as i32 + 93;
                y >= bottom && y < top
            } else {
                false
            };
            let expected = if inside { wall() } else { background() };
            assert_eq!(fb.pixel(x, y), expected, "pixel ({}, {})", x, y);
            if inside {
                painted += 1;
            }
        }
    }
    assert!(painted > 0);
}

#[test]
fn wall_behind_player_draws_nothing() {
    let p = Player { heading: 180, ..start() };
    assert_eq!(project_wall(&p, &table()), None);
    let fb = render(&engine_with(p, Keys::default()));
    for y in 0..HEIGHT {
        for x in 0..WIDTH {
            assert_eq!(fb.pixel(x, y), background());
        }
    }
}

#[test]
fn wall_partly_behind_is_clipped() {
    // Standing beside the wall, facing along it: the near end is behind.
    let p = Player { x: 50, y: 100, z: 20, heading: 0, lean: 0 };
    let q = project_wall(&p, &table());
    assert_eq!(
        q,
        Some(ScreenQuad {
            bottom_left: ScreenPoint { x: -1920, y: -3940 },
            bottom_right: ScreenPoint { x: 70, y: 39 },
            top_left: ScreenPoint { x: -1920, y: 4060 },
            top_right: ScreenPoint { x: 70, y: 81 },
        })
    );
    let fb = render(&engine_with(p, Keys::default()));
    assert_eq!(fb.pixel(1, 1), wall());
    assert_eq!(fb.pixel(69, 50), wall());
    assert_eq!(fb.pixel(70, 50), background());
    let bytes = fb.to_rgba_bytes();
    assert!(bytes.chunks(4).any(|c| c == [255, 255, 0, 255]));
}

#[test]
fn rendering_twice_gives_identical_bytes() {
    let e = engine_with(Player { x: 20, y: -40, z: 10, heading: 30, lean: 3 }, Keys::default());
    let mut fb = Framebuffer::new(background());
    e.draw(&mut fb);
    let first = fb.to_rgba_bytes();
    e.draw(&mut fb);
    assert_eq!(first, fb.to_rgba_bytes());
    assert_eq!(first, render(&e).to_rgba_bytes());
}

#[test]
fn zero_span_draws_one_column() {
    let mut fb = Framebuffer::new(background());
    draw_wall(50, 50, 10, 10, 30, 30, &mut fb);
    for y in 0..HEIGHT {
        for x in 0..WIDTH {
            let inside = x == 50 && (10..30).contains(&y);
            assert_eq!(fb.pixel(x, y), if inside { wall() } else { background() });
        }
    }
}

#[test]
fn zero_span_off_screen_draws_edge_column() {
    let mut fb = Framebuffer::new(background());
    draw_wall(400, 400, 10, 10, 30, 30, &mut fb);
    assert_eq!(fb.pixel(WIDTH - 1, 20), wall());
    assert_eq!(fb.pixel(WIDTH - 2, 20), background());
}

#[test]
fn draw_wall_clamps_columns_and_rows() {
    let mut fb = Framebuffer::new(background());
    draw_wall(-100, 1000, -50, -50, 500, 500, &mut fb);
    for y in 0..HEIGHT {
        for x in 0..WIDTH {
            let inside = (1..WIDTH - 1).contains(&x) && (1..HEIGHT - 1).contains(&y);
            assert_eq!(fb.pixel(x, y), if inside { wall() } else { background() });
        }
    }
}

#[test]
fn draw_wall_interpolates_edges() {
    let mut fb = Framebuffer::new(background());
    draw_wall(10, 20, 10, 20, 50, 40, &mut fb);
    // Column 10: bottom 10 + trunc(10 * 0.5 / 10) = 10, top 50 - 0 = 50.
    assert_eq!(fb.pixel(10, 10), wall());
    assert_eq!(fb.pixel(10, 9), background());
    assert_eq!(fb.pixel(10, 49), wall());
    assert_eq!(fb.pixel(10, 50), background());
    // Column 19: bottom 10 + trunc(10 * 9.5 / 10) = 19, top 50 - 9 = 41.
    assert_eq!(fb.pixel(19, 18), background());
    assert_eq!(fb.pixel(19, 19), wall());
    assert_eq!(fb.pixel(19, 40), wall());
    assert_eq!(fb.pixel(19, 41), background());
    // The right end is excluded.
    assert_eq!(fb.pixel(20, 30), background());
}

#[test]
fn reversed_span_draws_nothing() {
    let mut fb = Framebuffer::new(background());
    draw_wall(60, 20, 10, 10, 30, 30, &mut fb);
    for y in 0..HEIGHT {
        for x in 0..WIDTH {
            assert_eq!(fb.pixel(x, y), background());
        }
    }
}

#[test]
fn set_pixel_and_clear() {
    let mut fb = Framebuffer::new(background());
    fb.set_pixel(3, 4, wall());
    assert_eq!(fb.pixel(3, 4), wall());
    assert_eq!(fb.pixel(4, 3), background());
    fb.clear(palette(2));
    assert_eq!(fb.pixel(3, 4), Rgba { r: 0, g: 255, b: 0, a: 255 });
}

#[test]
fn bytes_are_rgba_row_by_row() {
    let mut fb = Framebuffer::new(background());
    fb.set_pixel(1, 2, wall());
    let bytes = fb.to_rgba_bytes();
    assert_eq!(bytes.len(), (4 * WIDTH * HEIGHT) as usize);
    let k = (4 * (2 * WIDTH + 1)) as usize;
    assert_eq!(&bytes[k..k + 4], &[255, 255, 0, 255]);
    assert_eq!(&bytes[0..4], &[0, 60, 130, 255]);
}

#[test]
fn palette_holds_nine_colours() {
    assert_eq!(palette(0), Rgba { r: 255, g: 255, b: 0, a: 255 });
    assert_eq!(palette(6), Rgba { r: 160, g: 100, b: 0, a: 255 });
    assert_eq!(palette(8), Rgba { r: 0, g: 60, b: 130, a: 255 });
}
