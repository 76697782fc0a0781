use coupled_explorers::geometry::{Rect, Vec2};
use coupled_explorers::scalar::{
    from_units, fx_add, fx_ceil, fx_div, fx_floor, fx_half, fx_mul, fx_neg, fx_round, fx_sub, narrow, quot_wide,
    sign_of_diff, within, HALF, SCALE,
};

#[test]
fn one_unit_is_a_thousand_raw() {
    assert_eq!(SCALE, 1000);
    assert_eq!(HALF, 500);
    assert_eq!(from_units(3), 3000);
    assert_eq!(from_units(-7), -7000);
    assert_eq!(from_units(i32::MAX), i32::MAX);
    assert_eq!(from_units(i32::MIN), i32::MIN);
}

#[test]
fn sums_saturate() {
    assert_eq!(fx_add(1500, 2500), 4000);
    assert_eq!(fx_add(i32::MAX, 1), i32::MAX);
    assert_eq!(fx_sub(i32::MIN, 1), i32::MIN);
    assert_eq!(fx_sub(1000, 2500), -1500);
    assert_eq!(fx_neg(i32::MIN), i32::MAX);
    assert_eq!(fx_neg(250), -250);
}

#[test]
fn products_round_toward_zero() {
    assert_eq!(fx_mul(1500, 2000), 3000);
    assert_eq!(fx_mul(1, 950), 0);
    assert_eq!(fx_mul(-1, 950), 0);
    assert_eq!(fx_mul(-1999, 500), -999);
    assert_eq!(fx_mul(1999, 500), 999);
    assert_eq!(fx_mul(i32::MAX, i32::MAX), i32::MAX);
    assert_eq!(fx_mul(i32::MAX, i32::MIN), i32::MIN);
}

#[test]
fn ratios_round_toward_zero() {
    assert_eq!(fx_div(3000, 2000), 1500);
    assert_eq!(fx_div(1000, 3000), 333);
    assert_eq!(fx_div(-1000, 3000), -333);
    assert_eq!(fx_div(1000, -3000), -333);
    assert_eq!(fx_div(-1000, -3000), 333);
}

#[test]
fn division_by_zero_saturates() {
    assert_eq!(fx_div(1, 0), i32::MAX);
    assert_eq!(fx_div(-1, 0), i32::MIN);
    assert_eq!(fx_div(0, 0), 0);
}

#[test]
fn halves_round_toward_zero() {
    assert_eq!(fx_half(3), 1);
    assert_eq!(fx_half(-3), -1);
    assert_eq!(fx_half(160_000), 80_000);
}

#[test]
fn floor_ceil_and_round() {
    assert_eq!(fx_floor(1999), 1000);
    assert_eq!(fx_floor(-1), -1000);
    assert_eq!(fx_floor(-1000), -1000);
    assert_eq!(fx_floor(2000), 2000);
    assert_eq!(fx_ceil(1001), 2000);
    assert_eq!(fx_ceil(-1999), -1000);
    assert_eq!(fx_ceil(3000), 3000);
    assert_eq!(fx_round(1499), 1000);
    assert_eq!(fx_round(1500), 2000);
    assert_eq!(fx_round(-1500), -2000);
    assert_eq!(fx_round(-1499), -1000);
    assert_eq!(fx_floor(i32::MIN), i32::MIN);
    assert_eq!(fx_ceil(i32::MAX), i32::MAX);
}

#[test]
fn narrowing_and_wide_quotients() {
    assert_eq!(narrow(5_000_000_000), i32::MAX);
    assert_eq!(narrow(-5_000_000_000), i32::MIN);
    assert_eq!(narrow(-12), -12);
    assert_eq!(quot_wide(7, 2), 3);
    assert_eq!(quot_wide(-7, 2), -3);
    assert_eq!(quot_wide(7, -2), -3);
    assert_eq!(quot_wide(-7, -2), 3);
}

#[test]
fn sign_of_zero_is_positive() {
    assert_eq!(sign_of_diff(5, 5), 1);
    assert_eq!(sign_of_diff(6, 5), 1);
    assert_eq!(sign_of_diff(4, 5), -1);
    assert_eq!(sign_of_diff(i32::MIN, i32::MAX), -1);
}

#[test]
fn within_compares_magnitudes() {
    assert!(within(499, HALF));
    assert!(within(-499, HALF));
    assert!(!within(500, HALF));
    assert!(!within(-500, HALF));
    assert!(!within(i32::MIN, i32::MAX));
}

#[test]
fn vector_arithmetic() {
    let a = Vec2::new(1000, 2000);
    let b = Vec2::new(500, -500);
    assert_eq!(a.plus(b), Vec2::new(1500, 1500));
    assert_eq!(a.minus(b), Vec2::new(500, 2500));
    assert_eq!(a.times(2000), Vec2::new(2000, 4000));
    assert_eq!(a.over(2000), Vec2::new(500, 1000));
    let mut c = a;
    c.add_assign(b);
    assert_eq!(c, Vec2::new(1500, 1500));
}

#[test]
fn rect_constructors() {
    assert_eq!(Rect::blank(), Rect::new(0, 0, 0, 0));
    let r = Rect::new_from_vec2s(&Vec2::new(5000, 1000), &Vec2::new(2000, 4000));
    assert_eq!(r, Rect::new(2000, 1000, 3000, 3000));
    let r = Rect::new_from_vec2s(&Vec2::new(2000, 4000), &Vec2::new(5000, 1000));
    assert_eq!(r, Rect::new(2000, 1000, 3000, 3000));
}

#[test]
fn rect_corners() {
    let r = Rect::new(1000, 2000, 3000, 5000);
    assert_eq!(r.top_left(), Vec2::new(1000, 2000));
    assert_eq!(r.centre(), Vec2::new(2500, 4500));
}

#[test]
fn rects_that_touch_do_not_collide() {
    let a = Rect::new(0, 0, 10_000, 10_000);
    assert!(a.colliding(&Rect::new(9_999, 9_999, 5_000, 5_000)));
    assert!(!a.colliding(&Rect::new(10_000, 0, 5_000, 5_000)));
    assert!(!a.colliding(&Rect::new(0, 10_000, 5_000, 5_000)));
    assert!(!a.colliding(&Rect::new(-5_000, 0, 5_000, 5_000)));
    assert!(a.colliding(&Rect::new(2_000, 2_000, 1_000, 1_000)));
}

#[test]
fn colliding_is_symmetric() {
    let a = Rect::new(0, 0, 10_000, 10_000);
    let b = Rect::new(5_000, -3_000, 7_000, 4_000);
    assert_eq!(a.colliding(&b), b.colliding(&a));
    let c = Rect::new(20_000, 0, 1_000, 1_000);
    assert_eq!(a.colliding(&c), c.colliding(&a));
}

#[test]
fn colliding_does_not_overflow_at_the_ends() {
    let a = Rect::new(i32::MAX, i32::MAX, i32::MAX, i32::MAX);
    let b = Rect::new(i32::MIN, i32::MIN, i32::MAX, i32::MAX);
    assert!(!a.colliding(&b));
    assert!(a.colliding(&a));
}

#[test]
fn contains_is_strict() {
    let r = Rect::new(0, 0, 10_000, 10_000);
    assert!(r.contains(&Vec2::new(1, 1)));
    assert!(!r.contains(&Vec2::new(0, 5_000)));
    assert!(!r.contains(&Vec2::new(10_000, 5_000)));
    assert!(r.contains(&Vec2::new(9_999, 9_999)));
}

#[test]
fn rect_moves_and_rounds() {
    let mut r = Rect::new(1_400, 2_600, 3_300, 4_700);
    assert_eq!(r.floor(), Rect::new(1_000, 2_000, 3_000, 4_000));
    assert_eq!(r.round_pos(), Rect::new(1_000, 3_000, 3_300, 4_700));
    r.set_pos(&Vec2::new(-500, 7_000));
    assert_eq!(r, Rect::new(-500, 7_000, 3_300, 4_700));
    r.add_assign(Vec2::new(500, -7_000));
    assert_eq!(r, Rect::new(0, 0, 3_300, 4_700));
}
