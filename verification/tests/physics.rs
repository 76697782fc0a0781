use coupled_explorers::colour::Colour;
use coupled_explorers::geometry::{Rect, Vec2};
use coupled_explorers::physics::{
    collision_update, limit, momentum, resolve_x, resolve_y, LastUpdate, Phys, PhysRect, STEP_X, STEP_Y,
};
use coupled_explorers::world::{GravObs, StaticObs};

fn body(x: i32, y: i32, w: i32, h: i32) -> PhysRect {
    PhysRect::new_from_rect(Rect::new(x, y, w, h))
}

#[test]
fn a_new_body_rests_on_its_rect() {
    let pr = PhysRect::new(Rect::new(3_000, 4_000, 5_000, 6_000), Vec2::new(150_000, 800_000));
    assert_eq!(pr.rect, Rect::new(3_000, 4_000, 5_000, 6_000));
    assert_eq!(pr.s, Vec2::new(3_000, 4_000));
    assert_eq!(pr.prev_s, Vec2::new(3_000, 4_000));
    assert_eq!(pr.v, Vec2::new(0, 0));
    assert_eq!(pr.a, Vec2::new(0, 0));
    assert_eq!(pr.max_v, Vec2::new(150_000, 800_000));
    assert_eq!(pr.last_update, LastUpdate::X);
    assert_eq!(pr.weight, 1_000);
    assert_eq!(pr.friction, 1_000);
    assert!(!pr.x_collision);
    assert!(!pr.y_collision);
    assert_eq!(pr.colour, Colour::black());
    assert_eq!(PhysRect::new_from_rect(pr.rect).max_v, Vec2::new(0, 0));
}

#[test]
fn limit_holds_a_speed_to_its_maximum() {
    let mut v: i32 = 10_500;
    limit(&mut v, 8_000);
    assert_eq!(v, 8_000);
    let mut v: i32 = -10_500;
    limit(&mut v, 8_000);
    assert_eq!(v, -8_000);
    let mut v: i32 = 7_999;
    limit(&mut v, 8_000);
    assert_eq!(v, 7_999);
}

#[test]
fn a_zero_maximum_limits_nothing() {
    let mut v: i32 = i32::MAX;
    limit(&mut v, 0);
    assert_eq!(v, i32::MAX);
    let mut v: i32 = i32::MIN;
    limit(&mut v, 0);
    assert_eq!(v, i32::MIN);
}

#[test]
fn limit_saturates_at_the_lowest_speed() {
    let mut v: i32 = i32::MIN;
    limit(&mut v, i32::MAX);
    assert_eq!(v, -i32::MAX);
}

#[test]
fn horizontal_step_applies_friction_impulse_and_limit() {
    let mut pr = body(1_000, 2_000, 10_000, 10_000);
    pr.v.x = 10_000;
    pr.friction = 950;
    pr.a.x = 2_000;
    pr.update_x(&500);
    assert_eq!(pr.v.x, 10_500);
    assert_eq!(pr.a.x, 0);
    assert_eq!(pr.prev_s.x, 1_000);
    assert_eq!(pr.s.x, 6_250);
    assert_eq!(pr.rect.x, 6_250);
    assert_eq!(pr.last_update, LastUpdate::X);
    assert!(!pr.x_collision);
    assert_eq!(pr.s.y, 2_000);
    assert_eq!(pr.rect.y, 2_000);
}

#[test]
fn horizontal_step_clamps_the_velocity() {
    let mut pr = body(0, 0, 10_000, 10_000);
    pr.v.x = 10_000;
    pr.friction = 950;
    pr.a.x = 2_000;
    pr.max_v.x = 8_000;
    pr.update_x(&500);
    assert_eq!(pr.v.x, 8_000);
    assert_eq!(pr.s.x, 4_000);
    let mut pr = body(0, 0, 10_000, 10_000);
    pr.v.x = -10_000;
    pr.max_v.x = 8_000;
    pr.update_x(&500);
    assert_eq!(pr.v.x, -8_000);
    assert_eq!(pr.s.x, -4_000);
}

#[test]
fn no_friction_after_a_horizontal_collision() {
    let mut pr = body(0, 0, 10_000, 10_000);
    pr.v.x = 10_000;
    pr.friction = 950;
    pr.x_collision = true;
    pr.update_x(&1_000);
    assert_eq!(pr.v.x, 10_000);
    assert!(!pr.x_collision);
    pr.update_x(&1_000);
    assert_eq!(pr.v.x, 9_500);
}

#[test]
fn vertical_step_keeps_the_acceleration_and_knows_no_friction() {
    let mut pr = body(0, 0, 10_000, 10_000);
    pr.a.y = 100_000;
    pr.friction = 500;
    pr.max_v.y = 400_000;
    pr.update_y(&16);
    assert_eq!(pr.v.y, 1_600);
    assert_eq!(pr.a.y, 100_000);
    assert_eq!(pr.s.y, 25);
    assert_eq!(pr.rect.y, 25);
    assert_eq!(pr.prev_s.y, 0);
    assert_eq!(pr.last_update, LastUpdate::Y);
    pr.update_y(&16);
    assert_eq!(pr.v.y, 3_200);
    assert_eq!(pr.s.y, 76);
    assert_eq!(pr.prev_s.y, 25);
}

#[test]
fn velocity_stays_within_the_maximum_over_many_frames() {
    let mut pr = body(0, 0, 10_000, 10_000);
    pr.a.y = 100_000;
    pr.max_v = Vec2::new(3_000, 400_000);
    let mut frame: i32 = 0;
    while frame < 2_000 {
        pr.a.x = if frame % 2 == 0 { 900_000 } else { -2_000_000 };
        pr.update_x(&16);
        pr.update_y(&16);
        assert!(pr.v.x.abs() <= 3_000);
        assert!(pr.v.y.abs() <= 400_000);
        frame += 1;
    }
    assert_eq!(pr.v.y, 400_000);
}

#[test]
fn pixel_correct_rect_rounds_the_position_only() {
    let mut pr = body(1_499, -2_500, 3_300, 4_400);
    assert_eq!(pr.get_pixel_correct_rect(), Rect::new(1_000, -3_000, 3_300, 4_400));
    pr.rect.x = 1_500;
    assert_eq!(pr.get_pixel_correct_rect(), Rect::new(2_000, -3_000, 3_300, 4_400));
    assert_eq!(pr.rect.x, 1_500);
}

#[test]
fn equal_weights_swap_velocities() {
    assert_eq!(momentum(10_000, 2_000, 0, 2_000), 0);
    assert_eq!(momentum(0, 2_000, 10_000, 2_000), 10_000);
}

#[test]
fn momentum_follows_the_elastic_formula() {
    assert_eq!(momentum(1_000, 3_000, -500, 1_000), 250);
    assert_eq!(momentum(-500, 1_000, 1_000, 3_000), 1_750);
    assert_eq!(momentum(1, 1, 0, 2), 0);
    assert_eq!(momentum(4, 1, 0, 2), -1);
    assert_eq!(momentum(7, 5, 0, 2), 3);
}

#[test]
fn momentum_is_conserved() {
    let (u1, m1, u2, m2): (i32, i32, i32, i32) = (1_000, 3_000, -500, 1_000);
    let v1 = momentum(u1, m1, u2, m2);
    let v2 = momentum(u2, m2, u1, m1);
    assert_eq!(m1 as i64 * v1 as i64 + m2 as i64 * v2 as i64, m1 as i64 * u1 as i64 + m2 as i64 * u2 as i64);
    assert_eq!(v1 - v2, -(u1 - u2));
    let (u1, m1, u2, m2): (i32, i32, i32, i32) = (12_345, 700, -9_871, 1_300);
    let v1 = momentum(u1, m1, u2, m2);
    let v2 = momentum(u2, m2, u1, m1);
    let before = m1 as i64 * u1 as i64 + m2 as i64 * u2 as i64;
    let after = m1 as i64 * v1 as i64 + m2 as i64 * v2 as i64;
    assert!((after - before).abs() < (m1 + m2) as i64);
    assert!((v1 - v2 + (u1 - u2)).abs() <= 1);
}

#[test]
fn an_immovable_or_cancelling_partner_stops_the_body() {
    assert_eq!(momentum(10_000, 2_000, 5_000, 0), 0);
    assert_eq!(momentum(10_000, 2_000, 5_000, -2_000), 0);
    assert_eq!(momentum(10_000, 0, 5_000, 0), 0);
}

#[test]
fn momentum_saturates() {
    assert_eq!(momentum(0, 1, i32::MAX, i32::MAX), i32::MAX);
    assert_eq!(momentum(0, 1, i32::MIN, i32::MAX), i32::MIN);
}

#[test]
fn steps_of_the_searches() {
    assert_eq!(STEP_X, 500);
    assert_eq!(STEP_Y, 200);
}

#[test]
fn resolve_x_steps_back_by_halves() {
    let a = Rect::new(10_000, 0, 10_000, 10_000);
    let b = Rect::new(18_000, 0, 10_000, 10_000);
    assert_eq!(resolve_x(5_000, a, &b), 8_000);
    assert!(!Rect::new(8_000, 0, 10_000, 10_000).colliding(&b));
    assert!(Rect::new(8_500, 0, 10_000, 10_000).colliding(&b));
}

#[test]
fn resolve_x_steps_forward_when_it_came_from_the_right() {
    let a = Rect::new(10_000, 0, 10_000, 10_000);
    let b = Rect::new(0, 0, 12_000, 10_000);
    assert_eq!(resolve_x(15_000, a, &b), 12_000);
}

#[test]
fn resolve_x_falls_back_to_the_previous_position() {
    let a = Rect::new(10_000, 0, 10_000, 10_000);
    let wall = Rect::new(0, 0, 100_000, 10_000);
    assert_eq!(resolve_x(5_000, a, &wall), 5_000);
    assert_eq!(resolve_x(15_000, a, &wall), 15_000);
}

#[test]
fn resolve_x_does_not_pass_the_previous_position() {
    let a = Rect::new(10_000, 0, 10_000, 10_000);
    let b = Rect::new(0, 0, 10_400, 10_000);
    assert_eq!(resolve_x(10_300, a, &b), 10_300);
    assert_eq!(resolve_x(10_500, a, &b), 10_500);
    assert_eq!(resolve_x(10_000, a, &b), 10_000);
}

#[test]
fn resolve_y_steps_back_by_fifths() {
    let a = Rect::new(0, 100_000, 10_000, 10_000);
    let b = Rect::new(0, 105_000, 10_000, 10_000);
    assert_eq!(resolve_y(0, a, &b), 95_000);
    assert!(Rect::new(0, 95_200, 10_000, 10_000).colliding(&b));
}

#[test]
fn resolve_y_searches_the_whole_way_back() {
    let a = Rect::new(0, 10_000, 10_000, 10_000);
    let b = Rect::new(0, 0, 10_000, 10_350);
    assert_eq!(resolve_y(10_300, a, &b), 10_400);
    assert_eq!(resolve_y(10_000, a, &b), 10_000);
    let c = Rect::new(0, 0, 10_000, 10_200);
    assert_eq!(resolve_y(10_000, a, &c), 10_200);
}

#[test]
fn resolve_y_falls_back_to_the_previous_position() {
    let a = Rect::new(0, 10_000, 10_000, 10_000);
    let wall = Rect::new(0, -100_000, 10_000, 300_000);
    assert_eq!(resolve_y(5_000, a, &wall), 5_000);
    assert_eq!(resolve_y(12_000, a, &wall), 12_000);
}

#[test]
fn resolve_y_stays_inside_the_representable_range() {
    let a = Rect::new(0, i32::MAX - 100, 10, 10);
    let wall = Rect::new(0, 0, 10, i32::MAX);
    assert_eq!(resolve_y(i32::MAX, a, &wall), i32::MAX);
    let low = Rect::new(0, i32::MIN + 100, 10, 10);
    let under = Rect::new(0, i32::MIN, 10, i32::MAX);
    assert_eq!(resolve_y(i32::MIN, low, &under), i32::MIN);
}

#[test]
fn horizontal_resolution_moves_back_and_exchanges_momentum() {
    let mut a = body(10_000, 0, 10_000, 10_000);
    a.prev_s.x = 5_000;
    a.v.x = 10_000;
    a.weight = 2_000;
    let mut b = body(18_000, 0, 10_000, 10_000);
    b.weight = 2_000;
    a.resolve(&b);
    assert!(a.x_collision);
    assert!(!a.y_collision);
    assert_eq!(a.s.x, 8_000);
    assert_eq!(a.rect.x, 8_000);
    assert_eq!(a.v.x, 0);
    assert!(!a.rect.colliding(&b.rect));
}

#[test]
fn vertical_resolution_moves_back_and_stops() {
    let mut a = body(0, 100_000, 10_000, 10_000);
    a.last_update = LastUpdate::Y;
    a.prev_s.y = 0;
    a.v = Vec2::new(7_000, 100_000);
    let mut b = body(0, 105_000, 10_000, 10_000);
    b.v.y = -50_000;
    a.resolve(&b);
    assert!(a.y_collision);
    assert!(!a.x_collision);
    assert_eq!(a.s.y, 95_000);
    assert_eq!(a.rect.y, 95_000);
    assert_eq!(a.v, Vec2::new(7_000, 0));
    assert!(!a.rect.colliding(&b.rect));
}

#[test]
fn collision_update_leaves_apart_bodies_alone() {
    let mut a = GravObs::new(Rect::new(0, 0, 10_000, 10_000), 10_000);
    let mut b = GravObs::new(Rect::new(10_000, 0, 10_000, 10_000), 10_000);
    let (a0, b0) = (a, b);
    collision_update(&mut a, &mut b);
    assert_eq!(a, a0);
    assert_eq!(b, b0);
}

#[test]
fn collision_update_resolves_both_against_the_state_before() {
    let mut a = GravObs::new(Rect::new(10_000, 0, 10_000, 10_000), 2_000);
    a.pr.prev_s.x = 5_000;
    a.pr.v.x = 10_000;
    let mut b = GravObs::new(Rect::new(18_000, 0, 10_000, 10_000), 2_000);
    b.pr.prev_s.x = 20_000;
    b.pr.v.x = -4_000;
    collision_update(&mut a, &mut b);
    assert_eq!(a.pr.rect.x, 8_000);
    assert_eq!(a.pr.v.x, -4_000);
    assert_eq!(b.pr.rect.x, 20_000);
    assert_eq!(b.pr.v.x, 10_000);
    assert!(a.pr.x_collision && b.pr.x_collision);
}

#[test]
fn collision_update_is_the_same_in_either_order() {
    let mut a = GravObs::new(Rect::new(10_000, 0, 10_000, 10_000), 3_000);
    a.pr.prev_s.x = 5_000;
    a.pr.v.x = 10_000;
    let mut b = GravObs::new(Rect::new(18_000, 0, 10_000, 10_000), 1_000);
    b.pr.prev_s.x = 20_000;
    b.pr.v.x = -4_000;
    let (mut a2, mut b2) = (a, b);
    collision_update(&mut a, &mut b);
    collision_update(&mut b2, &mut a2);
    assert_eq!(a, a2);
    assert_eq!(b, b2);
}

#[test]
fn a_static_obstacle_ignores_collisions() {
    let mut wall = StaticObs::new(Rect::new(0, 0, 10_000, 10_000));
    let before = wall;
    let mut other = body(5_000, 5_000, 10_000, 10_000);
    other.v = Vec2::new(-50_000, -50_000);
    wall.collision(&other);
    assert_eq!(wall, before);
    wall.pr.last_update = LastUpdate::Y;
    let before = wall;
    wall.collision(&other);
    assert_eq!(wall, before);
}

#[test]
fn default_hooks_integrate_the_body() {
    let mut o = GravObs::new(Rect::new(0, 0, 10_000, 10_000), 10_000);
    let mut pr = o.pr;
    o.pre_physics();
    assert_eq!(o.pr, pr);
    o.phys_x(&16);
    pr.update_x(&16);
    assert_eq!(o.pr, pr);
    o.phys_y(&16);
    pr.update_y(&16);
    assert_eq!(o.pr, pr);
    o.post_physics();
    assert_eq!(o.pr, pr);
    assert_eq!(*o.pr_im(), pr);
    o.pr().v.x = 77;
    assert_eq!(o.pr.v.x, 77);
}

#[test]
fn a_falling_body_lands_on_the_first_clear_step() {
    let mut a = body(0, 100_000, 10_000, 10_000);
    a.last_update = LastUpdate::Y;
    a.prev_s.y = 94_950;
    a.v = Vec2::new(7_000, 100_000);
    a.a = Vec2::new(0, 100_000);
    let b = body(0, 105_000, 10_000, 10_000);
    a.resolve(&b);
    assert_eq!(a.rect.y, 95_000);
    assert_eq!(a.s.y, 95_000);
    assert_eq!(a.v, Vec2::new(7_000, 0));
    assert_eq!(a.a, Vec2::new(0, 100_000));
    assert!(94_950 - 200 < a.rect.y && a.rect.y < 100_000);
    let mut c = body(0, 100_000, 10_000, 10_000);
    c.last_update = LastUpdate::Y;
    c.prev_s.y = 94_950;
    let d = body(0, 104_950, 10_000, 10_000);
    c.resolve(&d);
    assert_eq!(c.rect.y, 94_800);
}
