//! Kinematic state of a body, its per-axis integrator, and the resolution of
//! an overlap against another body.

use vstd::prelude::*;
use crate::colour::Colour;
use crate::geometry::{Rect, Vec2};
use crate::scalar::{clamp, magnitude, prod, quot, sign, sum, SCALE};
use crate::scalar::{fx_add, fx_mul, fx_round, lemma_product_bound, narrow, quot_wide, sign_of_diff};

verus! {

/// Length of one backward step of the horizontal search.
pub const STEP_X: i32 = 500;

/// Length of one backward step of the vertical search.
pub const STEP_Y: i32 = 200;

/// The weight that stands for an immovable body.
pub const IMMOVABLE: i32 = 0;

/// The axis that was integrated last.
#[derive(Clone, Copy, PartialEq, Eq, Structural, Debug)]
pub enum LastUpdate {
    X,
    Y,
}

/// Kinematic state of one body.
#[derive(Clone, Copy, PartialEq, Eq, Structural, Debug)]
pub struct PhysRect {
    /// Collision and display rectangle.
    pub rect: Rect,
    /// Position.
    pub s: Vec2,
    /// Velocity.
    pub v: Vec2,
    /// Acceleration.
    pub a: Vec2,
    /// Largest speed per axis; zero leaves the axis unclamped.
    pub max_v: Vec2,
    /// Position before the last integration of each axis.
    pub prev_s: Vec2,
    pub last_update: LastUpdate,
    /// Weight; zero stands for an immovable body.
    pub weight: i32,
    pub x_collision: bool,
    pub y_collision: bool,
    /// Factor applied to the horizontal velocity while nothing is touched.
    pub friction: i32,
    pub colour: Colour,
}

/// A speed held to a maximum; a zero maximum holds nothing.
pub open spec fn limited(n: int, max: int) -> int {
    if magnitude(n) > max && max != 0 {
        clamp(sign(n) * max)
    } else {
        n
    }
}

/// Velocity of a body of weight `m1` and velocity `u1` after an elastic
/// impact with a body of weight `m2` and velocity `u2`, before rounding:
/// this value divided by `m1 + m2`.
pub open spec fn exchange_numerator(u1: int, m1: int, u2: int, m2: int) -> int {
    (m1 - m2) * u1 + 2 * m2 * u2
}

/// Velocity after the impact. Against a weightless partner, or where the two
/// weights cancel, the body stops.
pub open spec fn exchanged(u1: int, m1: int, u2: int, m2: int) -> int {
    if m2 == 0 || m1 + m2 == 0 {
        0
    } else {
        clamp(quot(exchange_numerator(u1, m1, u2, m2), m1 + m2))
    }
}

/// The `k`-th position of a search that leaves `start` in direction `dir`.
pub open spec fn probe(start: int, dir: int, step: int, k: int) -> int {
    if dir >= 0 { start + k * step } else { start - k * step }
}

/// Whether the horizontal search from `start` back toward `prev` tries its
/// `k`-th position. A search to the right tries the positions up to `prev`,
/// `prev` itself included; a search to the left tries those above `prev`,
/// and not `prev` itself, which is where it ends if none is clear.
pub open spec fn x_tried(prev: int, start: int, k: int) -> bool {
    let dir = sign(prev - start);
    k >= 1 && sign(prev - probe(start, dir, STEP_X as int, k)) == dir
}

/// Whether the vertical search from `start` back toward `prev` tries its
/// `k`-th position: it does while the position before it has not passed
/// `prev`, and the position itself can be represented.
pub open spec fn y_tried(prev: int, start: int, k: int) -> bool {
    let dir = sign(prev - start);
    &&& k >= 1
    &&& sign(prev - probe(start, dir, STEP_Y as int, k - 1)) == dir
    &&& i32::MIN <= probe(start, dir, STEP_Y as int, k) <= i32::MAX
}

/// The `k`-th horizontal position is the first at which `a` is clear of `b`.
pub open spec fn x_first_clear(prev: int, a: Rect, b: Rect, k: int) -> bool {
    let dir = sign(prev - a.x);
    &&& x_tried(prev, a.x as int, k)
    &&& !a.at_x(probe(a.x as int, dir, STEP_X as int, k)).overlaps(b)
    &&& forall|j: int| 1 <= j < k ==> #[trigger] a.at_x(probe(a.x as int, dir, STEP_X as int, j)).overlaps(b)
}

/// The `k`-th vertical position is the first at which `a` is clear of `b`.
pub open spec fn y_first_clear(prev: int, a: Rect, b: Rect, k: int) -> bool {
    let dir = sign(prev - a.y);
    &&& y_tried(prev, a.y as int, k)
    &&& !a.at_y(probe(a.y as int, dir, STEP_Y as int, k)).overlaps(b)
    &&& forall|j: int| 1 <= j < k ==> #[trigger] a.at_y(probe(a.y as int, dir, STEP_Y as int, j)).overlaps(b)
}

/// Whether the horizontal search finds a position clear of `b`.
pub open spec fn x_clearable(prev: int, a: Rect, b: Rect) -> bool {
    exists|k: int| x_first_clear(prev, a, b, k)
}

/// Whether the vertical search finds a position clear of `b`.
pub open spec fn y_clearable(prev: int, a: Rect, b: Rect) -> bool {
    exists|k: int| y_first_clear(prev, a, b, k)
}

/// Where the horizontal search puts the left edge of `a`: the first tried
/// position clear of `b`, or `prev` where there is none.
pub open spec fn x_resolution(prev: int, a: Rect, b: Rect) -> int {
    if x_clearable(prev, a, b) {
        probe(a.x as int, sign(prev - a.x), STEP_X as int, choose|k: int| x_first_clear(prev, a, b, k))
    } else {
        prev
    }
}

/// Where the vertical search puts the top edge of `a`: the first tried
/// position clear of `b`, or `prev` where there is none.
pub open spec fn y_resolution(prev: int, a: Rect, b: Rect) -> int {
    if y_clearable(prev, a, b) {
        probe(a.y as int, sign(prev - a.y), STEP_Y as int, choose|k: int| y_first_clear(prev, a, b, k))
    } else {
        prev
    }
}

/// Two first clear positions of one horizontal search are the same.
pub proof fn lemma_x_first_clear_unique(prev: int, a: Rect, b: Rect, j: int, k: int)
    requires
        x_first_clear(prev, a, b, j),
        x_first_clear(prev, a, b, k),
    ensures
        j == k,
{
    let dir = sign(prev - a.x);
    if j < k {
        assert(a.at_x(probe(a.x as int, dir, STEP_X as int, j)).overlaps(b));
    } else if k < j {
        assert(a.at_x(probe(a.x as int, dir, STEP_X as int, k)).overlaps(b));
    }
}

/// Two first clear positions of one vertical search are the same.
pub proof fn lemma_y_first_clear_unique(prev: int, a: Rect, b: Rect, j: int, k: int)
    requires
        y_first_clear(prev, a, b, j),
        y_first_clear(prev, a, b, k),
    ensures
        j == k,
{
    let dir = sign(prev - a.y);
    if j < k {
        assert(a.at_y(probe(a.y as int, dir, STEP_Y as int, j)).overlaps(b));
    } else if k < j {
        assert(a.at_y(probe(a.y as int, dir, STEP_Y as int, k)).overlaps(b));
    }
}

/// Holds `n` to `max`.
pub fn limit(n: &mut i32, max: i32)
    ensures
        *final(n) == limited(*old(n) as int, max as int),
{
    let wide: i64 = *n as i64;
    let m: i64 = if wide >= 0 { wide } else { -wide };
    if m > max as i64 && max != 0 {
        *n = if wide >= 0 { max } else { narrow(-(max as i128)) };
    }
}

/// Velocity after an elastic impact.
pub fn momentum(u1: i32, m1: i32, u2: i32, m2: i32) -> (r: i32)
    ensures
        r == exchanged(u1 as int, m1 as int, u2 as int, m2 as int),
{
    if m2 == 0 {
        return 0;
    }
    let tm: i128 = m1 as i128 + m2 as i128;
    if tm == 0 {
        return 0;
    }
    proof {
        lemma_product_bound(m1 - m2, u1 as int);
        lemma_product_bound(2 * m2, u2 as int);
    }
    let own: i128 = (m1 as i128 - m2 as i128) * u1 as i128;
    let other: i128 = (2 * m2 as i128) * u2 as i128;
    narrow(quot_wide(own + other, tm))
}

/// Moves `a` horizontally back toward `v`, half a unit at a time, and
/// returns the first left edge at which it is clear of `b`; `v` itself where
/// no such position lies before `v`.
pub fn resolve_x(v: i32, a: Rect, b: &Rect) -> (r: i32)
    ensures
        r == x_resolution(v as int, a, *b),
{
    let dir: i32 = sign_of_diff(v, a.x);
    let mut x: i32 = a.x;
    let ghost mut k: int = 0;
    loop
        invariant
            dir == sign(v - a.x),
            k >= 0,
            x == probe(a.x as int, dir as int, STEP_X as int, k),
            dir == 1 ==> a.x <= x <= v,
            dir == -1 ==> v < x <= a.x,
            forall|j: int| 1 <= j <= k ==> #[trigger] a.at_x(probe(a.x as int, dir as int, STEP_X as int, j)).overlaps(*b),
        decreases magnitude(v - x),
    {
        let next: i64 = if dir == 1 { x as i64 + STEP_X as i64 } else { x as i64 - STEP_X as i64 };
        assert(next == probe(a.x as int, dir as int, STEP_X as int, k + 1));
        let passes: bool = if dir == 1 { next > v as i64 } else { next <= v as i64 };
        if passes {
            proof {
                assert forall|j: int| !x_first_clear(v as int, a, *b, j) by {
                    if x_first_clear(v as int, a, *b, j) {
                        assert(x_tried(v as int, a.x as int, j));
                        assert(j <= k);
                        assert(a.at_x(probe(a.x as int, dir as int, STEP_X as int, j)).overlaps(*b));
                    }
                }
            }
            return v;
        }
        let moved = Rect { x: next as i32, y: a.y, w: a.w, h: a.h };
        assert(moved == a.at_x(next as int));
        if !moved.colliding(b) {
            proof {
                assert(x_first_clear(v as int, a, *b, k + 1));
                let c = choose|j: int| x_first_clear(v as int, a, *b, j);
                lemma_x_first_clear_unique(v as int, a, *b, c, k + 1);
            }
            return next as i32;
        }
        x = next as i32;
        proof {
            k = k + 1;
        }
    }
}

/// Moves `a` vertically back toward `v`, a fifth of a unit at a time, and
/// returns the first top edge at which it is clear of `b`; `v` itself where
/// the search reaches `v` without finding one.
pub fn resolve_y(v: i32, a: Rect, b: &Rect) -> (r: i32)
    ensures
        r == y_resolution(v as int, a, *b),
{
    let dir: i32 = sign_of_diff(v, a.y);
    let mut y: i32 = a.y;
    let ghost mut k: int = 0;
    loop
        invariant
            dir == sign(v - a.y),
            k >= 0,
            y == probe(a.y as int, dir as int, STEP_Y as int, k),
            forall|j: int| 1 <= j <= k ==> #[trigger] a.at_y(probe(a.y as int, dir as int, STEP_Y as int, j)).overlaps(*b),
            forall|j: int| 1 <= j <= k ==> y_tried(v as int, a.y as int, j),
        decreases (if dir == 1 { v - y } else { y - v }) + STEP_Y,
    {
        let next: i64 = if dir == 1 { y as i64 + STEP_Y as i64 } else { y as i64 - STEP_Y as i64 };
        assert(next == probe(a.y as int, dir as int, STEP_Y as int, k + 1));
        let matches_dir: bool = sign_of_diff(v, y) == dir;
        if !matches_dir || next < i32::MIN as i64 || next > i32::MAX as i64 {
            proof {
                assert forall|j: int| !y_first_clear(v as int, a, *b, j) by {
                    if y_first_clear(v as int, a, *b, j) {
                        assert(y_tried(v as int, a.y as int, j));
                        assert(j <= k);
                        assert(a.at_y(probe(a.y as int, dir as int, STEP_Y as int, j)).overlaps(*b));
                    }
                }
            }
            return v;
        }
        let moved = Rect { x: a.x, y: next as i32, w: a.w, h: a.h };
        assert(moved == a.at_y(next as int));
        assert(y_tried(v as int, a.y as int, k + 1));
        if !moved.colliding(b) {
            proof {
                assert(y_first_clear(v as int, a, *b, k + 1));
                let c = choose|j: int| y_first_clear(v as int, a, *b, j);
                lemma_y_first_clear_unique(v as int, a, *b, c, k + 1);
            }
            return next as i32;
        }
        y = next as i32;
        proof {
            k = k + 1;
        }
    }
}

impl PhysRect {
    /// The body after one horizontal integration step of length `dt`.
    pub open spec fn stepped_x(self, dt: int) -> PhysRect {
        let eased = if self.x_collision { self.v.x as int } else { prod(self.v.x as int, self.friction as int) };
        let pushed = sum(eased, prod(self.a.x as int, dt));
        let vx = limited(pushed, self.max_v.x as int);
        let sx = sum(self.s.x as int, prod(vx, dt));
        PhysRect {
            x_collision: false,
            prev_s: Vec2 { x: self.s.x, y: self.prev_s.y },
            last_update: LastUpdate::X,
            v: Vec2 { x: vx as i32, y: self.v.y },
            a: Vec2 { x: 0, y: self.a.y },
            s: Vec2 { x: sx as i32, y: self.s.y },
            rect: self.rect.at_x(sx),
            ..self
        }
    }

    /// The body after one vertical integration step of length `dt`.
    pub open spec fn stepped_y(self, dt: int) -> PhysRect {
        let pushed = sum(self.v.y as int, prod(self.a.y as int, dt));
        let vy = limited(pushed, self.max_v.y as int);
        let sy = sum(self.s.y as int, prod(vy, dt));
        PhysRect {
            y_collision: false,
            prev_s: Vec2 { x: self.prev_s.x, y: self.s.y },
            last_update: LastUpdate::Y,
            v: Vec2 { x: self.v.x, y: vy as i32 },
            s: Vec2 { x: self.s.x, y: sy as i32 },
            rect: self.rect.at_y(sy),
            ..self
        }
    }

    /// The body after its overlap with `other` is resolved along the axis
    /// that was integrated last. Horizontally the body is moved back and
    /// exchanges momentum; vertically it is moved back and stopped.
    pub open spec fn collided(self, other: PhysRect) -> PhysRect {
        match self.last_update {
            LastUpdate::X => {
                let x = x_resolution(self.prev_s.x as int, self.rect, other.rect);
                PhysRect {
                    x_collision: true,
                    s: Vec2 { x: x as i32, y: self.s.y },
                    rect: self.rect.at_x(x),
                    v: Vec2 {
                        x: exchanged(
                            self.v.x as int,
                            self.weight as int,
                            other.v.x as int,
                            other.weight as int,
                        ) as i32,
                        y: self.v.y,
                    },
                    ..self
                }
            },
            LastUpdate::Y => {
                let y = y_resolution(self.prev_s.y as int, self.rect, other.rect);
                PhysRect {
                    y_collision: true,
                    s: Vec2 { x: self.s.x, y: y as i32 },
                    rect: self.rect.at_y(y),
                    v: Vec2 { x: self.v.x, y: 0 },
                    ..self
                }
            },
        }
    }

    /// A body at rest on `rect`, of unit weight and without friction.
    pub open spec fn resting(rect: Rect, max_v: Vec2) -> PhysRect {
        PhysRect {
            rect,
            s: Vec2 { x: rect.x, y: rect.y },
            v: Vec2 { x: 0, y: 0 },
            a: Vec2 { x: 0, y: 0 },
            max_v,
            prev_s: Vec2 { x: rect.x, y: rect.y },
            last_update: LastUpdate::X,
            weight: SCALE,
            x_collision: false,
            y_collision: false,
            friction: SCALE,
            colour: Colour { r: 0, g: 0, b: 0, a: 255 },
        }
    }

    pub fn new(rect: Rect, max_v: Vec2) -> (pr: PhysRect)
        ensures
            pr == PhysRect::resting(rect, max_v),
    {
        PhysRect {
            rect,
            s: Vec2::new(rect.x, rect.y),
            v: Vec2::new(0, 0),
            a: Vec2::new(0, 0),
            max_v,
            prev_s: Vec2::new(rect.x, rect.y),
            last_update: LastUpdate::X,
            weight: SCALE,
            x_collision: false,
            y_collision: false,
            friction: SCALE,
            colour: Colour::black(),
        }
    }

    pub fn new_from_rect(rect: Rect) -> (pr: PhysRect)
        ensures
            pr == PhysRect::resting(rect, Vec2 { x: 0, y: 0 }),
    {
        PhysRect::new(rect, Vec2::new(0, 0))
    }

    /// Integrates the horizontal axis over `time`. The velocity that comes
    /// out is within the body's maximum, where that is positive.
    pub fn update_x(&mut self, time: &i32)
        ensures
            *final(self) == old(self).stepped_x(*time as int),
            final(self).max_v.x > 0 ==> magnitude(final(self).v.x as int) <= final(self).max_v.x,
    {
        if !self.x_collision {
            self.v.x = fx_mul(self.v.x, self.friction);
        }
        self.x_collision = false;
        self.prev_s.x = self.s.x;
        self.last_update = LastUpdate::X;
        self.v.x = fx_add(self.v.x, fx_mul(self.a.x, *time));
        self.a.x = 0;
        limit(&mut self.v.x, self.max_v.x);
        self.s.x = fx_add(self.s.x, fx_mul(self.v.x, *time));
        self.rect.x = self.s.x;
    }

    /// Integrates the vertical axis over `time`. The velocity that comes out
    /// is within the body's maximum, where that is positive.
    pub fn update_y(&mut self, time: &i32)
        ensures
            *final(self) == old(self).stepped_y(*time as int),
            final(self).max_v.y > 0 ==> magnitude(final(self).v.y as int) <= final(self).max_v.y,
    {
        self.y_collision = false;
        self.prev_s.y = self.s.y;
        self.last_update = LastUpdate::Y;
        self.v.y = fx_add(self.v.y, fx_mul(self.a.y, *time));
        limit(&mut self.v.y, self.max_v.y);
        self.s.y = fx_add(self.s.y, fx_mul(self.v.y, *time));
        self.rect.y = self.s.y;
    }

    /// The rectangle with its position rounded to whole units.
    pub fn get_pixel_correct_rect(&self) -> (r: Rect)
        ensures
            r == self.rect.round_pos_spec(),
    {
        Rect::new(fx_round(self.rect.x), fx_round(self.rect.y), self.rect.w, self.rect.h)
    }

    /// Resolves the overlap with `other` along the axis integrated last.
    pub fn resolve(&mut self, other: &PhysRect)
        ensures
            *final(self) == old(self).collided(*other),
    {
        match self.last_update {
            LastUpdate::X => {
                self.x_collision = true;
                self.s.x = resolve_x(self.prev_s.x, self.rect, &other.rect);
                self.rect.x = self.s.x;
                self.v.x = momentum(self.v.x, self.weight, other.v.x, other.weight);
            },
            LastUpdate::Y => {
                self.y_collision = true;
                self.s.y = resolve_y(self.prev_s.y, self.rect, &other.rect);
                self.rect.y = self.s.y;
                self.v.y = 0;
            },
        }
    }
}

/// Behaviour of a body in the simulation. The integration hooks have a
/// default. The effect of the other hooks is described by `prepared`, `struck`
/// and `finished`, whose defaults are: nothing, the resolution of the overlap,
/// nothing. A kind of body that differs overrides the description.
pub trait Phys: Sized {
    /// The kinematic state.
    spec fn body(&self) -> PhysRect;

    /// The same value around another kinematic state.
    spec fn with_body(self, pr: PhysRect) -> Self;

    /// The value after `pre_physics`.
    open spec fn prepared(self) -> Self {
        self
    }

    /// The value after `collision` with `other`.
    open spec fn struck(self, other: PhysRect) -> Self {
        self.with_body(self.body().collided(other))
    }

    /// The value after `post_physics`.
    open spec fn finished(self) -> Self {
        self
    }

    fn pr(&mut self) -> (pr: &mut PhysRect)
        ensures
            *pr == old(self).body(),
            *final(self) == old(self).with_body(*final(pr)),
    ;

    fn pr_im(&self) -> (pr: &PhysRect)
        ensures
            *pr == self.body(),
    ;

    fn pre_physics(&mut self)
        ensures
            *final(self) == old(self).prepared(),
    ;

    fn phys_x(&mut self, time: &i32)
        ensures
            *final(self) == old(self).with_body(old(self).body().stepped_x(*time as int)),
    {
        self.pr().update_x(time);
    }

    fn phys_y(&mut self, time: &i32)
        ensures
            *final(self) == old(self).with_body(old(self).body().stepped_y(*time as int)),
    {
        self.pr().update_y(time);
    }

    fn collision(&mut self, other: &PhysRect)
        ensures
            *final(self) == old(self).struck(*other),
    ;

    fn post_physics(&mut self)
        ensures
            *final(self) == old(self).finished(),
    ;
}

/// Two bodies after they have met: where they overlap, each has resolved the
/// overlap against the state that the other had before either moved; where
/// they do not, both are as they were.
pub open spec fn meet<A: Phys, B: Phys>(a: A, b: B) -> (A, B) {
    if a.body().rect.overlaps(b.body().rect) {
        (a.struck(b.body()), b.struck(a.body()))
    } else {
        (a, b)
    }
}

/// Lets two bodies meet.
pub fn collision_update<A: Phys, B: Phys>(a: &mut A, b: &mut B)
    ensures
        (*final(a), *final(b)) == meet(*old(a), *old(b)),
{
    let a_phys: PhysRect = *a.pr_im();
    let b_phys: PhysRect = *b.pr_im();
    if a_phys.rect.colliding(&b_phys.rect) {
        a.collision(&b_phys);
        b.collision(&a_phys);
    }
}

/// A quotient rounded toward zero differs from the exact quotient by less
/// than one: what is left over is smaller than the divisor.
pub proof fn lemma_quot_remainder(n: int, d: int)
    requires
        d != 0,
    ensures
        magnitude(n - quot(n, d) * d) < magnitude(d),
{
    let pn = magnitude(n);
    let pd = magnitude(d);
    vstd::arithmetic::div_mod::lemma_fundamental_div_mod(pn, pd);
    vstd::arithmetic::div_mod::lemma_mod_bound(pn, pd);
    let q = pn / pd;
    assert(pn == pd * q + pn % pd);
    if d > 0 {
        if n >= 0 {
        } else {
            assert(quot(n, d) == -q);
            assert((-q) * d == -(pd * q)) by (nonlinear_arith)
                requires
                    pd == d,
            ;
        }
    } else {
        if n >= 0 {
            assert(quot(n, d) == -q);
            assert((-q) * d == pd * q) by (nonlinear_arith)
                requires
                    pd == -d,
            ;
        } else {
            assert(quot(n, d) == q);
            assert(q * d == -(pd * q)) by (nonlinear_arith)
                requires
                    pd == -d,
            ;
        }
    }
}

/// The two numerators of an exchange carry the momentum of the two bodies
/// and their relative velocity reversed, each times the sum of the weights.
proof fn lemma_exchange_algebra(u1: int, m1: int, u2: int, m2: int)
    ensures
        m1 * exchange_numerator(u1, m1, u2, m2) + m2 * exchange_numerator(u2, m2, u1, m1) == (m1 + m2)
            * (m1 * u1 + m2 * u2),
        exchange_numerator(u1, m1, u2, m2) - exchange_numerator(u2, m2, u1, m1) == (m1 + m2) * (u2 - u1),
{
    let n1 = exchange_numerator(u1, m1, u2, m2);
    let n2 = exchange_numerator(u2, m2, u1, m1);
    let x1 = m1 * u1;
    let x2 = m2 * u2;
    let y1 = m2 * u1;
    let y2 = m1 * u2;
    vstd::arithmetic::mul::lemma_mul_is_distributive_sub_other_way(u1, m1, m2);
    vstd::arithmetic::mul::lemma_mul_is_distributive_sub_other_way(u2, m2, m1);
    vstd::arithmetic::mul::lemma_mul_is_associative(2, m2, u2);
    vstd::arithmetic::mul::lemma_mul_is_associative(2, m1, u1);
    assert(n1 == x1 - y1 + 2 * x2);
    assert(n2 == x2 - y2 + 2 * x1);
    vstd::arithmetic::mul::lemma_mul_is_distributive_add(m1, x1 - y1, 2 * x2);
    vstd::arithmetic::mul::lemma_mul_is_distributive_sub(m1, x1, y1);
    vstd::arithmetic::mul::lemma_mul_is_associative(m1, 2, x2);
    vstd::arithmetic::mul::lemma_mul_is_associative(2, m1, x2);
    assert(m1 * n1 == m1 * x1 - m1 * y1 + 2 * (m1 * x2));
    vstd::arithmetic::mul::lemma_mul_is_distributive_add(m2, x2 - y2, 2 * x1);
    vstd::arithmetic::mul::lemma_mul_is_distributive_sub(m2, x2, y2);
    vstd::arithmetic::mul::lemma_mul_is_associative(m2, 2, x1);
    vstd::arithmetic::mul::lemma_mul_is_associative(2, m2, x1);
    assert(m2 * n2 == m2 * x2 - m2 * y2 + 2 * (m2 * x1));
    vstd::arithmetic::mul::lemma_mul_is_associative(m1, m2, u1);
    vstd::arithmetic::mul::lemma_mul_is_associative(m2, m1, u1);
    assert(m1 * y1 == m2 * x1);
    vstd::arithmetic::mul::lemma_mul_is_associative(m2, m1, u2);
    vstd::arithmetic::mul::lemma_mul_is_associative(m1, m2, u2);
    assert(m2 * y2 == m1 * x2);
    vstd::arithmetic::mul::lemma_mul_is_distributive_add_other_way(x1 + x2, m1, m2);
    vstd::arithmetic::mul::lemma_mul_is_distributive_add(m1, x1, x2);
    vstd::arithmetic::mul::lemma_mul_is_distributive_add(m2, x1, x2);
    vstd::arithmetic::mul::lemma_mul_is_distributive_add_other_way(u2 - u1, m1, m2);
    vstd::arithmetic::mul::lemma_mul_is_distributive_sub(m1, u2, u1);
    vstd::arithmetic::mul::lemma_mul_is_distributive_sub(m2, u2, u1);
}

/// What the rounding of two quotients changes in a weighted sum of them:
/// the weighted sum of what the divisions leave over.
proof fn lemma_rounded_gap(m1: int, m2: int, q1: int, q2: int, e1: int, e2: int, tm: int, p: int)
    requires
        m1 * (q1 * tm + e1) + m2 * (q2 * tm + e2) == tm * p,
    ensures
        (m1 * q1 + m2 * q2 - p) * tm == -(m1 * e1 + m2 * e2),
{
    vstd::arithmetic::mul::lemma_mul_is_distributive_add(m1, q1 * tm, e1);
    vstd::arithmetic::mul::lemma_mul_is_distributive_add(m2, q2 * tm, e2);
    vstd::arithmetic::mul::lemma_mul_is_associative(m1, q1, tm);
    vstd::arithmetic::mul::lemma_mul_is_associative(m2, q2, tm);
    vstd::arithmetic::mul::lemma_mul_is_distributive_sub_other_way(tm, m1 * q1 + m2 * q2, p);
    vstd::arithmetic::mul::lemma_mul_is_distributive_add_other_way(tm, m1 * q1, m2 * q2);
    vstd::arithmetic::mul::lemma_mul_is_commutative(p, tm);
}

/// A number whose product with a nonzero number is smaller in magnitude than
/// `bound` times that number is smaller in magnitude than `bound`.
proof fn lemma_magnitude_cancel(g: int, tm: int, bound: int)
    requires
        tm != 0,
        magnitude(g * tm) < bound * magnitude(tm),
    ensures
        magnitude(g) < bound,
{
    lemma_magnitude_of_product(g, tm, magnitude(tm));
    let a = magnitude(g);
    let t = magnitude(tm);
    assert(a < bound) by (nonlinear_arith)
        requires
            a * t < bound * t,
            t > 0,
    ;
}

/// The elastic exchange conserves momentum and reverses the relative
/// velocity. For two bodies of nonzero weights `m1` and `m2` that do not
/// cancel, the velocities after the impact are the two numerators over
/// `m1 + m2`. Before rounding they carry exactly the momentum
/// `m1 * u1 + m2 * u2` that the bodies had, and differ by exactly the
/// difference of the velocities before, reversed. So where both quotients
/// are exact, momentum is conserved exactly and the relative velocity is
/// reversed exactly. In general each quotient is rounded toward zero by less
/// than one raw unit: the momentum then differs by less than `|m1| + |m2|`,
/// and the relative velocity by at most one raw unit. All of this holds of
/// the velocities that `momentum` returns wherever they are not saturated.
pub proof fn lemma_exchange_conserves_momentum(u1: int, m1: int, u2: int, m2: int)
    requires
        m1 != 0,
        m2 != 0,
        m1 + m2 != 0,
    ensures
        ({
            let tm = m1 + m2;
            let n1 = exchange_numerator(u1, m1, u2, m2);
            let n2 = exchange_numerator(u2, m2, u1, m1);
            let v1 = quot(n1, tm);
            let v2 = quot(n2, tm);
            let before = m1 * u1 + m2 * u2;
            &&& m1 * n1 + m2 * n2 == tm * before
            &&& n1 - n2 == tm * (u2 - u1)
            &&& (v1 * tm == n1 && v2 * tm == n2) ==> {
                &&& m1 * v1 + m2 * v2 == before
                &&& v1 - v2 == -(u1 - u2)
            }
            &&& magnitude(m1 * v1 + m2 * v2 - before) < magnitude(m1) + magnitude(m2)
            &&& magnitude(v1 - v2 + (u1 - u2)) <= 1
            &&& (i32::MIN <= v1 <= i32::MAX && i32::MIN <= v2 <= i32::MAX) ==> {
                &&& exchanged(u1, m1, u2, m2) == v1
                &&& exchanged(u2, m2, u1, m1) == v2
            }
        }),
{
    let tm = m1 + m2;
    let n1 = exchange_numerator(u1, m1, u2, m2);
    let n2 = exchange_numerator(u2, m2, u1, m1);
    let p = m1 * u1 + m2 * u2;
    lemma_exchange_algebra(u1, m1, u2, m2);
    let q1 = quot(n1, tm);
    let q2 = quot(n2, tm);
    lemma_quot_remainder(n1, tm);
    lemma_quot_remainder(n2, tm);
    let e1 = n1 - q1 * tm;
    let e2 = n2 - q2 * tm;
    let t = magnitude(tm);
    let gap = m1 * q1 + m2 * q2 - p;
    lemma_rounded_gap(m1, m2, q1, q2, e1, e2, tm, p);
    lemma_magnitude_of_product(m1, e1, t - 1);
    lemma_magnitude_of_product(m2, e2, t - 1);
    let s = magnitude(m1) + magnitude(m2);
    vstd::arithmetic::mul::lemma_mul_is_distributive_add_other_way(t - 1, magnitude(m1), magnitude(m2));
    assert(magnitude(gap * tm) <= s * (t - 1));
    vstd::arithmetic::mul::lemma_mul_is_distributive_sub(s, t, 1);
    assert(magnitude(gap * tm) < s * t);
    lemma_magnitude_cancel(gap, tm, s);
    let turn = q1 - q2 + (u1 - u2);
    assert(turn * tm == -(e1 - e2)) by {
        vstd::arithmetic::mul::lemma_mul_is_distributive_add_other_way(tm, q1 - q2, u1 - u2);
        vstd::arithmetic::mul::lemma_mul_is_distributive_sub_other_way(tm, q1, q2);
        vstd::arithmetic::mul::lemma_mul_is_distributive_sub(tm, u2, u1);
        vstd::arithmetic::mul::lemma_mul_is_commutative(tm, u2 - u1);
        vstd::arithmetic::mul::lemma_mul_is_distributive_sub_other_way(tm, u2, u1);
        vstd::arithmetic::mul::lemma_mul_is_distributive_sub_other_way(tm, u1, u2);
    }
    assert(magnitude(turn * tm) < 2 * t);
    lemma_magnitude_cancel(turn, tm, 2);
    if q1 * tm == n1 && q2 * tm == n2 {
        assert(m1 * e1 == 0 && m2 * e2 == 0) by (nonlinear_arith)
            requires
                e1 == 0,
                e2 == 0,
        ;
        assert(gap * tm == 0);
        assert(turn * tm == 0);
        lemma_magnitude_cancel(gap, tm, 1);
        lemma_magnitude_cancel(turn, tm, 1);
    }
}

/// The magnitude of a product is the product of the magnitudes, and grows
/// with the magnitude of a factor.
proof fn lemma_magnitude_of_product(x: int, y: int, bound: int)
    requires
        magnitude(y) <= bound,
    ensures
        magnitude(x * y) == magnitude(x) * magnitude(y),
        magnitude(x * y) <= magnitude(x) * bound,
{
    let ax = magnitude(x);
    let ay = magnitude(y);
    assert(magnitude(x * y) == ax * ay) by (nonlinear_arith)
        requires
            ax == magnitude(x),
            ay == magnitude(y),
    ;
    assert(ax * ay <= ax * bound) by (nonlinear_arith)
        requires
            ax >= 0,
            ay <= bound,
    ;
}

/// A resolved horizontal overlap is gone: where the search finds a clear
/// position, the rectangle at the resolved position does not overlap the
/// other one.
pub proof fn lemma_x_resolution_separates(prev: int, a: Rect, b: Rect)
    requires
        x_clearable(prev, a, b),
    ensures
        !a.at_x(x_resolution(prev, a, b)).overlaps(b),
{
}

/// A resolved vertical overlap is gone: where the search finds a clear
/// position, the rectangle at the resolved position does not overlap the
/// other one.
pub proof fn lemma_y_resolution_separates(prev: int, a: Rect, b: Rect)
    requires
        y_clearable(prev, a, b),
    ensures
        !a.at_y(y_resolution(prev, a, b)).overlaps(b),
{
}

/// After a body has resolved its overlap with another along the axis that it
/// moved on last, the two no longer overlap, unless no clear position lay on
/// the way back to where the body came from.
pub proof fn lemma_collided_separates(body: PhysRect, other: PhysRect)
    requires
        match body.last_update {
            LastUpdate::X => x_clearable(body.prev_s.x as int, body.rect, other.rect),
            LastUpdate::Y => y_clearable(body.prev_s.y as int, body.rect, other.rect),
        },
    ensures
        !body.collided(other).rect.overlaps(other.rect),
{
}

/// Whether `p` lies on the way between `from` and `to`, the ends included.
pub open spec fn on_the_way(from: int, to: int, p: int) -> bool {
    (from <= p <= to) || (to <= p <= from)
}

/// A horizontal overlap outlasts its resolution only if the rectangle
/// overlapped the other one all the way back: at every position between
/// where it is and where it came from.
pub proof fn lemma_x_overlap_left_only_if_blocked(prev: int, a: Rect, b: Rect)
    requires
        a.overlaps(b),
        i32::MIN <= prev <= i32::MAX,
        a.at_x(x_resolution(prev, a, b)).overlaps(b),
    ensures
        !x_clearable(prev, a, b),
        x_resolution(prev, a, b) == prev,
        forall|p: int| on_the_way(a.x as int, prev, p) ==> #[trigger] a.at_x(p).overlaps(b),
{
    assert(a.at_x(a.x as int) == a);
}

/// A vertical overlap outlasts its resolution only if the rectangle
/// overlapped the other one all the way back: at every position between
/// where it is and where it came from.
pub proof fn lemma_y_overlap_left_only_if_blocked(prev: int, a: Rect, b: Rect)
    requires
        a.overlaps(b),
        i32::MIN <= prev <= i32::MAX,
        a.at_y(y_resolution(prev, a, b)).overlaps(b),
    ensures
        !y_clearable(prev, a, b),
        y_resolution(prev, a, b) == prev,
        forall|p: int| on_the_way(a.y as int, prev, p) ==> #[trigger] a.at_y(p).overlaps(b),
{
    assert(a.at_y(a.y as int) == a);
}

/// Resolution leaves no two rectangles overlapping that it could have
/// parted. If a body that overlapped another still overlaps it after it has
/// resolved the overlap, then no position on its way back, along the axis
/// that it moved on last, was clear of the other.
pub proof fn lemma_collided_overlap_only_if_blocked(body: PhysRect, other: PhysRect)
    requires
        body.rect.overlaps(other.rect),
        body.collided(other).rect.overlaps(other.rect),
    ensures
        match body.last_update {
            LastUpdate::X => forall|p: int|
                on_the_way(body.rect.x as int, body.prev_s.x as int, p) ==> #[trigger] body.rect.at_x(p).overlaps(
                    other.rect,
                ),
            LastUpdate::Y => forall|p: int|
                on_the_way(body.rect.y as int, body.prev_s.y as int, p) ==> #[trigger] body.rect.at_y(p).overlaps(
                    other.rect,
                ),
        },
{
    match body.last_update {
        LastUpdate::X => {
            lemma_x_overlap_left_only_if_blocked(body.prev_s.x as int, body.rect, other.rect);
        },
        LastUpdate::Y => {
            lemma_y_overlap_left_only_if_blocked(body.prev_s.y as int, body.rect, other.rect);
        },
    }
}

/// After two overlapping bodies have met, of which the first resolves its
/// overlaps and the second holds its place, the two no longer overlap,
/// unless no clear position lay on the first one's way back.
pub proof fn lemma_meeting_separates<A: Phys, B: Phys>(a: A, b: B)
    requires
        a.body().rect.overlaps(b.body().rect),
        a.struck(b.body()).body() == a.body().collided(b.body()),
        b.struck(a.body()).body().rect == b.body().rect,
        match a.body().last_update {
            LastUpdate::X => x_clearable(a.body().prev_s.x as int, a.body().rect, b.body().rect),
            LastUpdate::Y => y_clearable(a.body().prev_s.y as int, a.body().rect, b.body().rect),
        },
    ensures
        !meet(a, b).0.body().rect.overlaps(meet(a, b).1.body().rect),
{
    lemma_collided_separates(a.body(), b.body());
}

/// Two overlapping bodies that both resolve their overlaps, after a
/// horizontal step: each leaves with the velocity that the exchange gives it
/// from the velocities and weights that the two had, and keeps its weight and
/// its vertical velocity. With `lemma_exchange_conserves_momentum` the sum
/// of weight times velocity is kept, exactly where no quotient is rounded.
pub proof fn lemma_meeting_exchanges_momentum<A: Phys, B: Phys>(a: A, b: B)
    requires
        a.body().rect.overlaps(b.body().rect),
        a.struck(b.body()).body() == a.body().collided(b.body()),
        b.struck(a.body()).body() == b.body().collided(a.body()),
        a.body().last_update == LastUpdate::X,
        b.body().last_update == LastUpdate::X,
    ensures
        ({
            let (u1, m1) = (a.body().v.x as int, a.body().weight as int);
            let (u2, m2) = (b.body().v.x as int, b.body().weight as int);
            let after_a = meet(a, b).0.body();
            let after_b = meet(a, b).1.body();
            &&& after_a.v.x == exchanged(u1, m1, u2, m2)
            &&& after_b.v.x == exchanged(u2, m2, u1, m1)
            &&& after_a.v.y == a.body().v.y
            &&& after_b.v.y == b.body().v.y
            &&& after_a.weight == m1
            &&& after_b.weight == m2
            &&& (m1 != 0 && m2 != 0 && m1 + m2 != 0 && i32::MIN <= quot(exchange_numerator(u1, m1, u2, m2), m1 + m2)
                <= i32::MAX && i32::MIN <= quot(exchange_numerator(u2, m2, u1, m1), m1 + m2) <= i32::MAX) ==> {
                &&& magnitude(m1 * after_a.v.x + m2 * after_b.v.x - (m1 * u1 + m2 * u2)) < magnitude(m1)
                    + magnitude(m2)
                &&& (after_a.v.x * (m1 + m2) == exchange_numerator(u1, m1, u2, m2) && after_b.v.x * (m1 + m2)
                    == exchange_numerator(u2, m2, u1, m1)) ==> m1 * after_a.v.x + m2 * after_b.v.x == m1 * u1 + m2
                    * u2
            }
        }),
{
    let (u1, m1) = (a.body().v.x as int, a.body().weight as int);
    let (u2, m2) = (b.body().v.x as int, b.body().weight as int);
    if m1 != 0 && m2 != 0 && m1 + m2 != 0 {
        lemma_exchange_conserves_momentum(u1, m1, u2, m2);
    }
}

/// A falling body lands. A body that has moved down into another one from
/// a position clear of it is stopped and put at the first step back up, a
/// fifth of a unit at a time, at which it is clear again: below everything
/// that it overlapped on the way, and less than one step above where it
/// came from. Its horizontal velocity and its acceleration stay as they
/// are. The position that it came from is taken to lie at least one step
/// inside the representable range.
pub proof fn lemma_falling_body_lands(body: PhysRect, other: PhysRect) -> (k: int)
    requires
        body.last_update == LastUpdate::Y,
        body.prev_s.y < body.rect.y,
        body.rect.overlaps(other.rect),
        !body.rect.at_y(body.prev_s.y as int).overlaps(other.rect),
        body.prev_s.y >= i32::MIN + STEP_Y,
    ensures
        k >= 1,
        y_first_clear(body.prev_s.y as int, body.rect, other.rect, k),
        body.collided(other).rect.y == body.rect.y - k * STEP_Y,
        body.collided(other).s.y == body.collided(other).rect.y,
        body.prev_s.y - STEP_Y < body.collided(other).rect.y < body.rect.y,
        !body.collided(other).rect.overlaps(other.rect),
        body.collided(other).v.y == 0,
        body.collided(other).v.x == body.v.x,
        body.collided(other).a == body.a,
        body.collided(other).y_collision,
{
    let prev = body.prev_s.y as int;
    let a = body.rect;
    let b = other.rect;
    let y = a.y as int;
    let clear_from = b.y - a.h;
    assert(a.at_y(y) == a);
    assert(prev <= clear_from);
    let k = (y - clear_from + (STEP_Y - 1)) / (STEP_Y as int);
    assert(probe(y, -1, STEP_Y as int, k) <= clear_from < probe(y, -1, STEP_Y as int, k - 1));
    assert(y_tried(prev, y, k));
    assert forall|j: int| 1 <= j < k implies #[trigger] a.at_y(probe(y, -1, STEP_Y as int, j)).overlaps(b) by {
        assert(clear_from < probe(y, -1, STEP_Y as int, j) < y);
    }
    assert(y_first_clear(prev, a, b, k));
    let c = choose|j: int| y_first_clear(prev, a, b, j);
    lemma_y_first_clear_unique(prev, a, b, c, k);
    k
}

/// A body that resolves a horizontal overlap with an immovable partner
/// stops; its vertical velocity stays as it is.
pub proof fn lemma_immovable_partner_stops(body: PhysRect, other: PhysRect)
    requires
        body.last_update == LastUpdate::X,
        other.weight == IMMOVABLE,
    ensures
        body.collided(other).v.x == 0,
        body.collided(other).v.y == body.v.y,
{
}

/// A vertical resolution stops the body and leaves its horizontal velocity
/// alone: no momentum is exchanged along the vertical axis.
pub proof fn lemma_vertical_collision_stops(body: PhysRect, other: PhysRect)
    requires
        body.last_update == LastUpdate::Y,
    ensures
        body.collided(other).v.y == 0,
        body.collided(other).v.x == body.v.x,
{
}

/// A speed held to a positive maximum is within it.
pub proof fn lemma_limited_within(n: int, max: int)
    requires
        0 < max <= i32::MAX,
    ensures
        magnitude(limited(n, max)) <= max,
{
}

/// An integration step leaves the velocity of its axis within the body's
/// maximum, where that is positive.
pub proof fn lemma_step_limits_velocity(body: PhysRect, dt: int)
    ensures
        body.max_v.x > 0 ==> magnitude(body.stepped_x(dt).v.x as int) <= body.max_v.x,
        body.max_v.y > 0 ==> magnitude(body.stepped_y(dt).v.y as int) <= body.max_v.y,
        body.stepped_x(dt).max_v == body.max_v,
        body.stepped_y(dt).max_v == body.max_v,
{
    if body.max_v.x > 0 {
        let eased = if body.x_collision {
            body.v.x as int
        } else {
            prod(body.v.x as int, body.friction as int)
        };
        lemma_limited_within(sum(eased, prod(body.a.x as int, dt)), body.max_v.x as int);
    }
    if body.max_v.y > 0 {
        lemma_limited_within(sum(body.v.y as int, prod(body.a.y as int, dt)), body.max_v.y as int);
    }
}

} // verus!
