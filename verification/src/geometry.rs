//! Two-dimensional vectors and axis-aligned rectangles over fixed-point
//! scalars.

use vstd::prelude::*;
use crate::scalar::{
    clamp, sum, diff, prod, ratio, halved, floor_units, round_units,
    fx_add, fx_sub, fx_mul, fx_div, fx_half, fx_floor, fx_round,
};

verus! {

/// A 2D vector.
#[derive(Clone, Copy, PartialEq, Eq, Structural, Debug)]
pub struct Vec2 {
    pub x: i32,
    pub y: i32,
}

/// A rectangle whose `x`, `y` is the upper left corner.
#[derive(Clone, Copy, PartialEq, Eq, Structural, Debug)]
pub struct Rect {
    pub x: i32,
    pub y: i32,
    pub w: i32,
    pub h: i32,
}

impl Vec2 {
    /// Componentwise saturated sum.
    pub open spec fn plus_spec(self, other: Vec2) -> Vec2 {
        Vec2 { x: sum(self.x as int, other.x as int) as i32, y: sum(self.y as int, other.y as int) as i32 }
    }

    /// Componentwise saturated difference.
    pub open spec fn minus_spec(self, other: Vec2) -> Vec2 {
        Vec2 {
            x: diff(self.x as int, other.x as int) as i32,
            y: diff(self.y as int, other.y as int) as i32,
        }
    }

    /// Both components multiplied by a scalar.
    pub open spec fn times_spec(self, k: i32) -> Vec2 {
        Vec2 { x: prod(self.x as int, k as int) as i32, y: prod(self.y as int, k as int) as i32 }
    }

    /// Both components divided by a scalar.
    pub open spec fn over_spec(self, k: i32) -> Vec2 {
        Vec2 { x: ratio(self.x as int, k as int) as i32, y: ratio(self.y as int, k as int) as i32 }
    }

    pub fn new(x: i32, y: i32) -> (v: Vec2)
        ensures
            v == (Vec2 { x, y }),
    {
        Vec2 { x, y }
    }

    /// `self + other`.
    pub fn plus(self, other: Vec2) -> (v: Vec2)
        ensures
            v == self.plus_spec(other),
    {
        Vec2::new(fx_add(self.x, other.x), fx_add(self.y, other.y))
    }

    /// `self += other`.
    pub fn add_assign(&mut self, other: Vec2)
        ensures
            *final(self) == old(self).plus_spec(other),
    {
        self.x = fx_add(self.x, other.x);
        self.y = fx_add(self.y, other.y);
    }

    /// `self - other`.
    pub fn minus(self, other: Vec2) -> (v: Vec2)
        ensures
            v == self.minus_spec(other),
    {
        Vec2::new(fx_sub(self.x, other.x), fx_sub(self.y, other.y))
    }

    /// `self * k`.
    pub fn times(self, k: i32) -> (v: Vec2)
        ensures
            v == self.times_spec(k),
    {
        Vec2::new(fx_mul(self.x, k), fx_mul(self.y, k))
    }

    /// `self / k`.
    pub fn over(self, k: i32) -> (v: Vec2)
        ensures
            v == self.over_spec(k),
    {
        Vec2::new(fx_div(self.x, k), fx_div(self.y, k))
    }
}

impl Rect {
    /// The right edge, `x + w`, as an exact integer.
    pub open spec fn right(self) -> int {
        self.x + self.w
    }

    /// The bottom edge, `y + h`, as an exact integer.
    pub open spec fn bottom(self) -> int {
        self.y + self.h
    }

    /// Whether the interiors of the two rectangles intersect.
    pub open spec fn overlaps(self, other: Rect) -> bool {
        &&& self.x < other.right()
        &&& self.right() > other.x
        &&& self.y < other.bottom()
        &&& self.bottom() > other.y
    }

    /// Whether the point lies strictly inside the rectangle.
    pub open spec fn encloses(self, p: Vec2) -> bool {
        &&& self.x < p.x
        &&& self.right() > p.x
        &&& self.y < p.y
        &&& self.bottom() > p.y
    }

    /// The rectangle moved so that its left edge is at `x`.
    pub open spec fn at_x(self, x: int) -> Rect {
        Rect { x: x as i32, ..self }
    }

    /// The rectangle moved so that its top edge is at `y`.
    pub open spec fn at_y(self, y: int) -> Rect {
        Rect { y: y as i32, ..self }
    }

    /// The rectangle spanned by two opposite corners.
    pub open spec fn spanning(a: Vec2, b: Vec2) -> Rect {
        Rect {
            x: if a.x > b.x { b.x } else { a.x },
            y: if a.y > b.y { b.y } else { a.y },
            w: (if a.x > b.x { diff(a.x as int, b.x as int) } else { diff(b.x as int, a.x as int) }) as i32,
            h: (if a.y > b.y { diff(a.y as int, b.y as int) } else { diff(b.y as int, a.y as int) }) as i32,
        }
    }

    /// The upper left corner.
    pub open spec fn top_left_spec(self) -> Vec2 {
        Vec2 { x: self.x, y: self.y }
    }

    /// The middle of the rectangle.
    pub open spec fn centre_spec(self) -> Vec2 {
        Vec2 {
            x: sum(self.x as int, halved(self.w as int)) as i32,
            y: sum(self.y as int, halved(self.h as int)) as i32,
        }
    }

    /// Position and size each rounded down to whole units.
    pub open spec fn floor_spec(self) -> Rect {
        Rect {
            x: clamp(floor_units(self.x as int)) as i32,
            y: clamp(floor_units(self.y as int)) as i32,
            w: clamp(floor_units(self.w as int)) as i32,
            h: clamp(floor_units(self.h as int)) as i32,
        }
    }

    /// Position rounded to the nearest whole units, size kept.
    pub open spec fn round_pos_spec(self) -> Rect {
        Rect {
            x: clamp(round_units(self.x as int)) as i32,
            y: clamp(round_units(self.y as int)) as i32,
            w: self.w,
            h: self.h,
        }
    }

    /// The rectangle moved by a vector.
    pub open spec fn moved_by(self, v: Vec2) -> Rect {
        Rect {
            x: sum(self.x as int, v.x as int) as i32,
            y: sum(self.y as int, v.y as int) as i32,
            w: self.w,
            h: self.h,
        }
    }

    pub fn new(x: i32, y: i32, w: i32, h: i32) -> (r: Rect)
        ensures
            r == (Rect { x, y, w, h }),
    {
        Rect { x, y, w, h }
    }

    pub fn blank() -> (r: Rect)
        ensures
            r == (Rect { x: 0, y: 0, w: 0, h: 0 }),
    {
        Rect::new(0, 0, 0, 0)
    }

    pub fn new_from_vec2s(v1: &Vec2, v2: &Vec2) -> (r: Rect)
        ensures
            r == Rect::spanning(*v1, *v2),
    {
        let mut smallest: Vec2 = *v1;
        let mut dim = Vec2::new(0, 0);
        if smallest.x > v2.x {
            smallest.x = v2.x;
            dim.x = fx_sub(v1.x, v2.x);
        } else {
            dim.x = fx_sub(v2.x, v1.x);
        }
        if smallest.y > v2.y {
            smallest.y = v2.y;
            dim.y = fx_sub(v1.y, v2.y);
        } else {
            dim.y = fx_sub(v2.y, v1.y);
        }
        Rect { x: smallest.x, y: smallest.y, w: dim.x, h: dim.y }
    }

    pub fn top_left(&self) -> (v: Vec2)
        ensures
            v == self.top_left_spec(),
    {
        Vec2::new(self.x, self.y)
    }

    pub fn centre(&self) -> (v: Vec2)
        ensures
            v == self.centre_spec(),
    {
        Vec2::new(fx_add(self.x, fx_half(self.w)), fx_add(self.y, fx_half(self.h)))
    }

    pub fn colliding(&self, rect: &Rect) -> (hit: bool)
        ensures
            hit == self.overlaps(*rect),
    {
        (self.x as i64) < rect.x as i64 + rect.w as i64
            && self.x as i64 + self.w as i64 > rect.x as i64
            && (self.y as i64) < rect.y as i64 + rect.h as i64
            && self.y as i64 + self.h as i64 > rect.y as i64
    }

    pub fn contains(&self, vec: &Vec2) -> (inside: bool)
        ensures
            inside == self.encloses(*vec),
    {
        self.x < vec.x
            && self.x as i64 + self.w as i64 > vec.x as i64
            && self.y < vec.y
            && self.y as i64 + self.h as i64 > vec.y as i64
    }

    pub fn set_pos(&mut self, vec: &Vec2)
        ensures
            *final(self) == (Rect { x: vec.x, y: vec.y, ..*old(self) }),
    {
        self.x = vec.x;
        self.y = vec.y;
    }

    pub fn floor(&self) -> (r: Rect)
        ensures
            r == self.floor_spec(),
    {
        Rect::new(fx_floor(self.x), fx_floor(self.y), fx_floor(self.w), fx_floor(self.h))
    }

    pub fn round_pos(&self) -> (r: Rect)
        ensures
            r == self.round_pos_spec(),
    {
        Rect::new(fx_round(self.x), fx_round(self.y), self.w, self.h)
    }

    /// `self += other`: moves the rectangle by a vector.
    pub fn add_assign(&mut self, other: Vec2)
        ensures
            *final(self) == old(self).moved_by(other),
    {
        self.x = fx_add(self.x, other.x);
        self.y = fx_add(self.y, other.y);
    }
}

/// Overlap is symmetric.
pub proof fn lemma_overlap_symmetric(a: Rect, b: Rect)
    ensures
        a.overlaps(b) == b.overlaps(a),
{
}

} // verus!
