//! The kinds of obstacle, and terrain that breaks into pieces where it is
//! struck.

use vstd::prelude::*;
use crate::colour::Colour;
use crate::geometry::{Rect, Vec2};
use crate::physics::{LastUpdate, Phys, PhysRect, IMMOVABLE};
use crate::scalar::{clamp, ceil_units, floor_units, fx_ceil, fx_floor, fx_sub, narrow, SCALE};
use crate::scalar::{lemma_ceil_units, lemma_floor_units};
use crate::physics::lemma_immovable_partner_stops;

verus! {

/// Width of one fragment of broken terrain: three units.
pub const FRAGMENT_WIDTH: i32 = 3000;

/// Downward acceleration of a pushable obstacle.
pub const GRAVITY: i32 = 100_000;

/// Largest falling speed of a pushable obstacle.
pub const TERMINAL_SPEED: i32 = 400_000;

/// Friction of every obstacle that moves.
pub const OBSTACLE_FRICTION: i32 = 950;

/// Downward acceleration of a fragment.
pub const FRAGMENT_GRAVITY: i32 = 10_000;

/// Weight of a platform that gives way.
pub const PLATFORM_WEIGHT: i32 = 50;

/// Speed at which a platform that gives way sinks under a load.
pub const SINK_SPEED: i32 = 160_000;

/// Tint of terrain and of its fragments.
pub open spec fn terrain_colour() -> Colour {
    Colour { r: 91, g: 88, b: 24, a: 255 }
}

/// An obstacle that never moves.
#[derive(Clone, Copy, PartialEq, Eq, Structural, Debug)]
pub struct StaticObs {
    pub pr: PhysRect,
}

/// An obstacle that falls and can be pushed.
#[derive(Clone, Copy, PartialEq, Eq, Structural, Debug)]
pub struct GravObs {
    pub pr: PhysRect,
}

/// A fragment of broken terrain.
#[derive(Clone, Copy, PartialEq, Eq, Structural, Debug)]
pub struct BrittleObs {
    pub pr: PhysRect,
}

/// A platform that holds a load for a moment and then sinks under it.
#[derive(Clone, Copy, PartialEq, Eq, Structural, Debug)]
pub struct DownObs {
    pub pr: PhysRect,
}

/// Terrain that breaks where it is struck.
#[derive(Clone, Copy, PartialEq, Eq, Structural, Debug)]
pub struct Nested {
    pub pr: PhysRect,
    /// The rectangle that struck the terrain since the last fracture.
    pub col: Option<Rect>,
}

/// Any obstacle.
#[derive(Clone, Copy, PartialEq, Eq, Structural, Debug)]
pub enum Obstacle {
    Static(StaticObs),
    Grav(GravObs),
    Brittle(BrittleObs),
    Down(DownObs),
}

impl StaticObs {
    /// A static obstacle on `r`: at rest, without gravity, and immovable,
    /// so that whatever runs into it from the side stops.
    pub open spec fn fresh(r: Rect) -> StaticObs {
        StaticObs {
            pr: PhysRect {
                weight: IMMOVABLE,
                colour: Colour { r: 30, g: 50, b: 30, a: 255 },
                ..PhysRect::resting(r, Vec2 { x: 0, y: 0 })
            },
        }
    }

    pub fn new(r: Rect) -> (o: StaticObs)
        ensures
            o == StaticObs::fresh(r),
    {
        let mut pr = PhysRect::new_from_rect(r);
        pr.weight = IMMOVABLE;
        pr.colour = Colour::new(30, 50, 30, 255);
        StaticObs { pr }
    }
}

impl Phys for StaticObs {
    open spec fn body(&self) -> PhysRect {
        self.pr
    }

    open spec fn with_body(self, pr: PhysRect) -> Self {
        StaticObs { pr }
    }

    /// Nothing moves a static obstacle.
    open spec fn struck(self, other: PhysRect) -> Self {
        self
    }

    fn pr(&mut self) -> (pr: &mut PhysRect) {
        &mut self.pr
    }

    fn pr_im(&self) -> (pr: &PhysRect) {
        &self.pr
    }

    fn pre_physics(&mut self) {
    }

    fn collision(&mut self, other: &PhysRect) {
    }

    fn post_physics(&mut self) {
    }
}

impl GravObs {
    pub open spec fn fresh(r: Rect, w: i32) -> GravObs {
        GravObs {
            pr: PhysRect {
                a: Vec2 { x: 0, y: GRAVITY },
                max_v: Vec2 { x: 0, y: TERMINAL_SPEED },
                weight: w,
                friction: OBSTACLE_FRICTION,
                colour: Colour { r: 50, g: 30, b: 30, a: 255 },
                ..PhysRect::resting(r, Vec2 { x: 0, y: 0 })
            },
        }
    }

    pub fn new(r: Rect, w: i32) -> (o: GravObs)
        ensures
            o == GravObs::fresh(r, w),
    {
        let mut phys = PhysRect::new_from_rect(r);
        phys.a.y = GRAVITY;
        phys.max_v.y = TERMINAL_SPEED;
        phys.weight = w;
        phys.friction = OBSTACLE_FRICTION;
        phys.colour = Colour::new(50, 30, 30, 255);
        GravObs { pr: phys }
    }
}

impl Phys for GravObs {
    open spec fn body(&self) -> PhysRect {
        self.pr
    }

    open spec fn with_body(self, pr: PhysRect) -> Self {
        GravObs { pr }
    }

    fn pr(&mut self) -> (pr: &mut PhysRect) {
        &mut self.pr
    }

    fn pr_im(&self) -> (pr: &PhysRect) {
        &self.pr
    }

    fn pre_physics(&mut self) {
    }

    fn collision(&mut self, other: &PhysRect) {
        self.pr.resolve(other);
    }

    fn post_physics(&mut self) {
    }
}

impl BrittleObs {
    pub open spec fn fresh(rect: Rect) -> BrittleObs {
        BrittleObs {
            pr: PhysRect {
                a: Vec2 { x: 0, y: FRAGMENT_GRAVITY },
                weight: SCALE,
                friction: OBSTACLE_FRICTION,
                colour: terrain_colour(),
                ..PhysRect::resting(rect, Vec2 { x: 0, y: 0 })
            },
        }
    }

    pub fn new(rect: Rect) -> (o: BrittleObs)
        ensures
            o == BrittleObs::fresh(rect),
    {
        let mut phys = PhysRect::new_from_rect(rect);
        phys.weight = SCALE;
        phys.friction = OBSTACLE_FRICTION;
        phys.a.y = FRAGMENT_GRAVITY;
        phys.colour = Colour::new(91, 88, 24, 255);
        BrittleObs { pr: phys }
    }
}

impl Phys for BrittleObs {
    open spec fn body(&self) -> PhysRect {
        self.pr
    }

    open spec fn with_body(self, pr: PhysRect) -> Self {
        BrittleObs { pr }
    }

    fn pr(&mut self) -> (pr: &mut PhysRect) {
        &mut self.pr
    }

    fn pr_im(&self) -> (pr: &PhysRect) {
        &self.pr
    }

    fn pre_physics(&mut self) {
    }

    fn collision(&mut self, other: &PhysRect) {
        self.pr.resolve(other);
    }

    fn post_physics(&mut self) {
    }
}

impl DownObs {
    pub open spec fn fresh(r: Rect) -> DownObs {
        DownObs {
            pr: PhysRect {
                weight: PLATFORM_WEIGHT,
                friction: OBSTACLE_FRICTION,
                ..PhysRect::resting(r, Vec2 { x: 0, y: 0 })
            },
        }
    }

    pub fn new(r: Rect) -> (o: DownObs)
        ensures
            o == DownObs::fresh(r),
    {
        let mut phys = PhysRect::new_from_rect(r);
        phys.weight = PLATFORM_WEIGHT;
        phys.friction = OBSTACLE_FRICTION;
        DownObs { pr: phys }
    }
}

impl Phys for DownObs {
    open spec fn body(&self) -> PhysRect {
        self.pr
    }

    open spec fn with_body(self, pr: PhysRect) -> Self {
        DownObs { pr }
    }

    /// A platform that was stood on in the last frame sinks; any other
    /// stays where it is.
    open spec fn prepared(self) -> Self {
        DownObs {
            pr: PhysRect {
                v: Vec2 { x: self.pr.v.x, y: if self.pr.y_collision { SINK_SPEED } else { 0 } },
                ..self.pr
            },
        }
    }

    /// A vertical contact marks the platform as stood on and moves nothing.
    open spec fn struck(self, other: PhysRect) -> Self {
        if self.pr.last_update == LastUpdate::Y {
            DownObs { pr: PhysRect { y_collision: true, ..self.pr } }
        } else {
            self
        }
    }

    fn pr(&mut self) -> (pr: &mut PhysRect) {
        &mut self.pr
    }

    fn pr_im(&self) -> (pr: &PhysRect) {
        &self.pr
    }

    fn pre_physics(&mut self) {
        self.pr.v.y = if self.pr.y_collision { SINK_SPEED } else { 0 };
    }

    fn collision(&mut self, other: &PhysRect) {
        if self.pr.last_update == LastUpdate::Y {
            self.pr.y_collision = true;
        }
    }

    fn post_physics(&mut self) {
    }
}

impl Phys for Obstacle {
    open spec fn body(&self) -> PhysRect {
        match *self {
            Obstacle::Static(o) => o.pr,
            Obstacle::Grav(o) => o.pr,
            Obstacle::Brittle(o) => o.pr,
            Obstacle::Down(o) => o.pr,
        }
    }

    open spec fn with_body(self, pr: PhysRect) -> Self {
        match self {
            Obstacle::Static(_) => Obstacle::Static(StaticObs { pr }),
            Obstacle::Grav(_) => Obstacle::Grav(GravObs { pr }),
            Obstacle::Brittle(_) => Obstacle::Brittle(BrittleObs { pr }),
            Obstacle::Down(_) => Obstacle::Down(DownObs { pr }),
        }
    }

    open spec fn prepared(self) -> Self {
        match self {
            Obstacle::Static(o) => Obstacle::Static(o.prepared()),
            Obstacle::Grav(o) => Obstacle::Grav(o.prepared()),
            Obstacle::Brittle(o) => Obstacle::Brittle(o.prepared()),
            Obstacle::Down(o) => Obstacle::Down(o.prepared()),
        }
    }

    open spec fn struck(self, other: PhysRect) -> Self {
        match self {
            Obstacle::Static(o) => Obstacle::Static(o.struck(other)),
            Obstacle::Grav(o) => Obstacle::Grav(o.struck(other)),
            Obstacle::Brittle(o) => Obstacle::Brittle(o.struck(other)),
            Obstacle::Down(o) => Obstacle::Down(o.struck(other)),
        }
    }

    open spec fn finished(self) -> Self {
        match self {
            Obstacle::Static(o) => Obstacle::Static(o.finished()),
            Obstacle::Grav(o) => Obstacle::Grav(o.finished()),
            Obstacle::Brittle(o) => Obstacle::Brittle(o.finished()),
            Obstacle::Down(o) => Obstacle::Down(o.finished()),
        }
    }

    fn pr(&mut self) -> (pr: &mut PhysRect) {
        match self {
            Obstacle::Static(o) => &mut o.pr,
            Obstacle::Grav(o) => &mut o.pr,
            Obstacle::Brittle(o) => &mut o.pr,
            Obstacle::Down(o) => &mut o.pr,
        }
    }

    fn pr_im(&self) -> (pr: &PhysRect) {
        match self {
            Obstacle::Static(o) => &o.pr,
            Obstacle::Grav(o) => &o.pr,
            Obstacle::Brittle(o) => &o.pr,
            Obstacle::Down(o) => &o.pr,
        }
    }

    fn pre_physics(&mut self) {
        match self {
            Obstacle::Static(o) => o.pre_physics(),
            Obstacle::Grav(o) => o.pre_physics(),
            Obstacle::Brittle(o) => o.pre_physics(),
            Obstacle::Down(o) => o.pre_physics(),
        }
    }

    fn collision(&mut self, other: &PhysRect) {
        match self {
            Obstacle::Static(o) => o.collision(other),
            Obstacle::Grav(o) => o.collision(other),
            Obstacle::Brittle(o) => o.collision(other),
            Obstacle::Down(o) => o.collision(other),
        }
    }

    fn post_physics(&mut self) {
        match self {
            Obstacle::Static(o) => o.post_physics(),
            Obstacle::Grav(o) => o.post_physics(),
            Obstacle::Brittle(o) => o.post_physics(),
            Obstacle::Down(o) => o.post_physics(),
        }
    }
}

/// The right edge of a strip, held to the representable range.
pub open spec fn strip_end(rect: Rect) -> int {
    clamp(rect.x + rect.w)
}

/// How many fragments of full width a strip is cut into: as many as start
/// more than one fragment's width before the strip's end.
pub open spec fn full_fragments(rect: Rect) -> int {
    let span = strip_end(rect) - rect.x;
    if span > FRAGMENT_WIDTH {
        (span - 1) / (FRAGMENT_WIDTH as int)
    } else {
        0
    }
}

/// The `i`-th fragment of a strip. The fragments of full width come first,
/// side by side from the strip's left edge; the last one takes what is left.
pub open spec fn fragment(rect: Rect, i: int) -> Rect {
    let x = rect.x + i * FRAGMENT_WIDTH;
    Rect {
        x: x as i32,
        y: rect.y,
        w: if i < full_fragments(rect) { FRAGMENT_WIDTH } else { clamp(strip_end(rect) - x) as i32 },
        h: rect.h,
    }
}

/// The fragments of a strip, from left to right.
pub open spec fn fragments(rect: Rect) -> Seq<Rect> {
    Seq::new((full_fragments(rect) + 1) as nat, |i: int| fragment(rect, i))
}

/// The sum of the widths of some rectangles.
pub open spec fn total_width(rects: Seq<Rect>) -> int
    decreases rects.len(),
{
    if rects.len() == 0 {
        0
    } else {
        total_width(rects.drop_last()) + rects.last().w
    }
}

/// Cuts a strip into fragments three units wide, the last one taking what
/// is left.
pub fn get_brittle(rect: Rect) -> (obs: Vec<BrittleObs>)
    ensures
        obs@ == fragments(rect).map_values(|r: Rect| BrittleObs::fresh(r)),
{
    let mut obs: Vec<BrittleObs> = Vec::new();
    let end: i32 = narrow(rect.x as i128 + rect.w as i128);
    let mut x: i32 = rect.x;
    let ghost n = full_fragments(rect);
    while (x as i64) < end as i64 - FRAGMENT_WIDTH as i64
        invariant
            end == strip_end(rect),
            n == full_fragments(rect),
            0 <= obs@.len() <= n,
            x == rect.x + obs@.len() * FRAGMENT_WIDTH,
            forall|j: int| 0 <= j < obs@.len() ==> obs@[j] == BrittleObs::fresh(fragment(rect, j)),
        decreases end - x,
    {
        obs.push(BrittleObs::new(Rect::new(x, rect.y, FRAGMENT_WIDTH, rect.h)));
        x = x + FRAGMENT_WIDTH;
    }
    obs.push(BrittleObs::new(Rect::new(x, rect.y, fx_sub(end, x), rect.h)));
    assert(obs@ =~= fragments(rect).map_values(|r: Rect| BrittleObs::fresh(r)));
    obs
}

impl Nested {
    /// A segment of terrain on `rect`: at rest, immovable like a static
    /// obstacle, and not struck.
    pub open spec fn fresh(rect: Rect) -> Nested {
        Nested {
            pr: PhysRect {
                weight: IMMOVABLE,
                colour: terrain_colour(),
                ..PhysRect::resting(rect, Vec2 { x: 0, y: 0 })
            },
            col: None,
        }
    }

    /// The strip that a strike breaks out of a segment: the part of the
    /// segment over the striking rectangle, its left edge moved down and its
    /// right edge moved up to whole units.
    pub open spec fn strip(rect: Rect, col: Rect) -> Rect {
        let x = clamp(floor_units(if col.x > rect.x { col.x as int } else { rect.x as int }));
        let end = if rect.right() > col.right() { col.right() } else { rect.right() };
        Rect { x: x as i32, y: rect.y, w: clamp(ceil_units(clamp(end - x))) as i32, h: rect.h }
    }

    /// What is left of the segment on the left of the strip.
    pub open spec fn left_rest(rect: Rect, col: Rect) -> Option<Rect> {
        let strip = Nested::strip(rect, col);
        if strip.x > rect.x {
            Some(Rect { x: rect.x, y: rect.y, w: clamp(strip.x - rect.x) as i32, h: rect.h })
        } else {
            None
        }
    }

    /// What is left of the segment on the right of the strip.
    pub open spec fn right_rest(rect: Rect, col: Rect) -> Option<Rect> {
        let strip = Nested::strip(rect, col);
        if strip.right() < rect.right() {
            Some(
                Rect {
                    x: clamp(strip.right()) as i32,
                    y: rect.y,
                    w: clamp(rect.right() - strip.right()) as i32,
                    h: rect.h,
                },
            )
        } else {
            None
        }
    }

    /// The fragments that the strike sets free, from left to right.
    pub open spec fn debris(rect: Rect, col: Rect) -> Seq<Obstacle> {
        fragments(Nested::strip(rect, col)).map_values(|r: Rect| Obstacle::Brittle(BrittleObs::fresh(r)))
    }

    /// The segments that stay: the left rest, then the right rest.
    pub open spec fn rests(rect: Rect, col: Rect) -> Seq<Nested> {
        let left = match Nested::left_rest(rect, col) {
            Some(r) => seq![Nested::fresh(r)],
            None => Seq::<Nested>::empty(),
        };
        match Nested::right_rest(rect, col) {
            Some(r) => left.push(Nested::fresh(r)),
            None => left,
        }
    }

    pub fn new(rect: Rect) -> (n: Nested)
        ensures
            n == Nested::fresh(rect),
    {
        let mut pr = PhysRect::new_from_rect(rect);
        pr.weight = IMMOVABLE;
        pr.colour = Colour::new(91, 88, 24, 255);
        Nested { pr, col: None }
    }

    /// Whether the segment has been struck and is waiting to be broken.
    pub fn had_col(&self) -> (struck: bool)
        ensures
            struck == self.col.is_some(),
    {
        self.col.is_some()
    }

    /// Breaks a struck segment: its fragments join `objs`, and what is left
    /// of it on either side joins `nested`.
    pub fn add(segment: Nested, objs: &mut Vec<Obstacle>, nested: &mut Vec<Nested>)
        requires
            segment.col.is_some(),
        ensures
            final(objs)@ == old(objs)@ + Nested::debris(segment.pr.rect, segment.col.unwrap()),
            final(nested)@ == old(nested)@ + Nested::rests(segment.pr.rect, segment.col.unwrap()),
    {
        let col: Rect = segment.col.unwrap();
        let rect: Rect = segment.pr.rect;
        let x: i32 = fx_floor(if col.x > rect.x { col.x } else { rect.x });
        let rect_end: i64 = rect.x as i64 + rect.w as i64;
        let col_end: i64 = col.x as i64 + col.w as i64;
        let end: i64 = if rect_end > col_end { col_end } else { rect_end };
        let w: i32 = fx_ceil(narrow(end as i128 - x as i128));
        let brittle = Rect::new(x, rect.y, w, rect.h);
        assert(brittle == Nested::strip(rect, col));
        let pieces: Vec<BrittleObs> = get_brittle(brittle);
        let ghost before = objs@;
        let mut i: usize = 0;
        while i < pieces.len()
            invariant
                0 <= i <= pieces.len(),
                pieces@ == fragments(brittle).map_values(|r: Rect| BrittleObs::fresh(r)),
                objs@ == before + Nested::debris(rect, col).take(i as int),
                brittle == Nested::strip(rect, col),
            decreases pieces.len() - i,
        {
            objs.push(Obstacle::Brittle(pieces[i]));
            i = i + 1;
            assert(objs@ =~= before + Nested::debris(rect, col).take(i as int));
        }
        assert(Nested::debris(rect, col).take(i as int) =~= Nested::debris(rect, col));
        let ghost terrain = nested@;
        if x > rect.x {
            nested.push(Nested::new(Rect::new(rect.x, rect.y, fx_sub(x, rect.x), rect.h)));
        }
        let strip_end: i64 = x as i64 + w as i64;
        if strip_end < rect_end {
            nested.push(
                Nested::new(
                    Rect::new(narrow(strip_end as i128), rect.y, narrow(rect_end as i128 - strip_end as i128), rect.h),
                ),
            );
        }
        assert(nested@ =~= terrain + Nested::rests(rect, col));
    }
}

impl Phys for Nested {
    open spec fn body(&self) -> PhysRect {
        self.pr
    }

    open spec fn with_body(self, pr: PhysRect) -> Self {
        Nested { pr, col: self.col }
    }

    /// Terrain does not move. A body that it meets during the vertical pass
    /// while its own position is below the body's, which is the greater one
    /// as the vertical axis points down, is remembered as the strike, unless
    /// one is remembered already.
    open spec fn struck(self, other: PhysRect) -> Self {
        if self.pr.last_update == LastUpdate::Y && self.pr.s.y > other.s.y && self.col.is_none() {
            Nested { pr: self.pr, col: Some(other.rect) }
        } else {
            self
        }
    }

    fn pr(&mut self) -> (pr: &mut PhysRect) {
        &mut self.pr
    }

    fn pr_im(&self) -> (pr: &PhysRect) {
        &self.pr
    }

    fn pre_physics(&mut self) {
    }

    fn collision(&mut self, other: &PhysRect) {
        if self.pr.last_update == LastUpdate::Y && self.pr.s.y > other.s.y && self.col.is_none() {
            self.col = Some(other.rect);
        }
    }

    fn post_physics(&mut self) {
    }
}

/// The first `k` fragments of a strip, all of full width, are `k` fragment
/// widths wide together.
proof fn lemma_full_fragments_width(rect: Rect, k: int)
    requires
        0 <= k <= full_fragments(rect),
    ensures
        total_width(fragments(rect).take(k)) == k * FRAGMENT_WIDTH,
    decreases k,
{
    let head = fragments(rect).take(k);
    if k > 0 {
        lemma_full_fragments_width(rect, k - 1);
        assert(head.drop_last() =~= fragments(rect).take(k - 1));
        assert(head.last() == fragment(rect, k - 1));
    }
}

/// A strip is cut into at least one fragment. The fragments lie side by
/// side from its left edge to its right edge, at its height and as high as
/// it is, each but the last three units wide, the last one not empty if the
/// strip is not, and their widths add up to the width of the strip.
pub proof fn lemma_fragments_cover(rect: Rect)
    requires
        i32::MIN <= rect.x + rect.w <= i32::MAX,
    ensures
        fragments(rect).len() >= 1,
        total_width(fragments(rect)) == rect.w,
        fragments(rect).first().x == rect.x,
        fragments(rect).last().right() == rect.right(),
        forall|i: int|
            0 <= i < fragments(rect).len() - 1 ==> {
                &&& (#[trigger] fragments(rect)[i]).w == FRAGMENT_WIDTH
                &&& fragments(rect)[i + 1].x == fragments(rect)[i].x + fragments(rect)[i].w
            },
        forall|i: int|
            0 <= i < fragments(rect).len() ==> {
                &&& (#[trigger] fragments(rect)[i]).y == rect.y
                &&& fragments(rect)[i].h == rect.h
            },
        rect.w > 0 ==> 0 < fragments(rect).last().w <= FRAGMENT_WIDTH,
{
    let n = full_fragments(rect);
    let all = fragments(rect);
    lemma_full_fragments_width(rect, n);
    assert(all.drop_last() =~= all.take(n));
    assert(all.last() == fragment(rect, n));
    assert forall|i: int| 0 <= i < all.len() - 1 implies {
        &&& (#[trigger] all[i]).w == FRAGMENT_WIDTH
        &&& all[i + 1].x == all[i].x + all[i].w
    } by {
        assert(all[i] == fragment(rect, i));
        assert(all[i + 1] == fragment(rect, i + 1));
    }
    assert forall|i: int| 0 <= i < all.len() implies {
        &&& (#[trigger] all[i]).y == rect.y
        &&& all[i].h == rect.h
    } by {
        assert(all[i] == fragment(rect, i));
    }
}

/// The widths of what lies left of a cut at `x`, between the cuts, and right
/// of a cut at `e`, for a segment from `left` to `right`, where each cut is
/// less than a unit outside the segment: together they cover the segment
/// and at most the overhang of the cuts.
proof fn lemma_cut_widths(left: int, right: int, x: int, e: int)
    requires
        left <= right,
        left - SCALE < x <= right,
        left <= e < right + SCALE,
        x <= e,
    ensures
        ({
            let before = if x > left { x - left } else { 0 };
            let after = if e < right { right - e } else { 0 };
            let covered = before + (e - x) + after;
            &&& right - left <= covered < right - left + 2 * SCALE
            &&& (x > left || e < right) ==> covered < right - left + SCALE
            &&& (x > left && e < right) ==> covered == right - left
            &&& (x >= left && e <= right) ==> covered == right - left
            &&& (x >= left || e <= right) ==> covered < right - left + SCALE
        }),
{
}

/// Width of a rest of a segment; nothing where there is no rest.
pub open spec fn rest_width(rest: Option<Rect>) -> int {
    match rest {
        Some(r) => r.w as int,
        None => 0,
    }
}

/// A fracture neither loses nor doubles terrain. For a segment struck by a
/// rectangle that overlaps it horizontally, the left rest, the strip and the
/// right rest lie side by side, and their widths add up to the width of the
/// segment, but for the rounding of the two cuts to whole units: each cut
/// that falls outside the segment adds less than one unit. So the sum is
/// less than two units over in any case, less than one unit over where a
/// rest exists or the segment's left edge lies on a whole unit, and exact
/// where both rests exist or both edges of the segment lie on whole units.
/// The strip's fragments add up to the strip exactly. The segment is taken
/// to lie at least one unit inside the representable range, so that no cut
/// saturates.
pub proof fn lemma_fracture_covers(rect: Rect, col: Rect)
    requires
        0 <= rect.w <= i32::MAX - 2 * SCALE,
        0 <= col.w,
        i32::MIN + SCALE <= rect.x,
        rect.x + rect.w <= i32::MAX - SCALE,
        col.x < rect.right(),
        col.right() > rect.x,
    ensures
        ({
            let strip = Nested::strip(rect, col);
            let left = Nested::left_rest(rect, col);
            let right = Nested::right_rest(rect, col);
            let covered = rest_width(left) + strip.w + rest_width(right);
            &&& rect.w <= covered < rect.w + 2 * SCALE
            &&& (left.is_some() || right.is_some()) ==> covered < rect.w + SCALE
            &&& (left.is_some() && right.is_some()) ==> covered == rect.w
            &&& (rect.x as int) % (SCALE as int) == 0 ==> covered < rect.w + SCALE
            &&& ((rect.x as int) % (SCALE as int) == 0 && (rect.w as int) % (SCALE as int) == 0) ==> covered
                == rect.w
            &&& left.is_some() ==> left.unwrap().x == rect.x && left.unwrap().right() == strip.x
            &&& right.is_some() ==> right.unwrap().x == strip.right() && right.unwrap().right() == rect.right()
            &&& total_width(fragments(strip)) == strip.w
        }),
{
    let strip = Nested::strip(rect, col);
    let from = if col.x > rect.x { col.x as int } else { rect.x as int };
    let end = if rect.right() > col.right() { col.right() } else { rect.right() };
    let x = floor_units(from);
    let e = ceil_units(end);
    let whole_left = (rect.x as int) % (SCALE as int) == 0;
    let whole_width = (rect.w as int) % (SCALE as int) == 0;
    assert(x <= from < x + SCALE && e - SCALE < end <= e && ceil_units(end - x) == e - x) by {
        lemma_floor_units(from, 0);
        lemma_ceil_units(end, x);
    }
    assert(whole_left ==> rect.x <= x) by {
        if whole_left {
            lemma_floor_units(from, rect.x as int);
        }
    }
    assert((whole_left && whole_width) ==> e <= rect.right()) by {
        if whole_left && whole_width {
            lemma_ceil_units(end, rect.right());
        }
    }
    assert(strip.x == x && strip.w == e - x) by {
        assert(clamp(x) == x);
        assert(clamp(end - x) == end - x);
        assert(clamp(e - x) == e - x);
    }
    lemma_cut_widths(rect.x as int, rect.right(), x, e);
    lemma_fragments_cover(strip);
}

/// The sum of the widths of some bodies.
pub open spec fn bodies_width<T: Phys>(items: Seq<T>) -> int
    decreases items.len(),
{
    if items.len() == 0 {
        0
    } else {
        bodies_width(items.drop_last()) + items.last().body().rect.w
    }
}

/// Fragments are as wide together as the rectangles that they are made on.
proof fn lemma_debris_width(rects: Seq<Rect>)
    ensures
        bodies_width(rects.map_values(|r: Rect| Obstacle::Brittle(BrittleObs::fresh(r)))) == total_width(rects),
    decreases rects.len(),
{
    let made = rects.map_values(|r: Rect| Obstacle::Brittle(BrittleObs::fresh(r)));
    if rects.len() > 0 {
        lemma_debris_width(rects.drop_last());
        assert(made.drop_last() =~= rects.drop_last().map_values(
            |r: Rect| Obstacle::Brittle(BrittleObs::fresh(r)),
        ));
    }
}

/// What breaking a struck segment adds to the scene covers the segment:
/// the fragments that join the obstacles and the rests that join the
/// terrain are together as wide as the segment, but for the rounding of the
/// two cuts. For a segment whose left edge lies on a whole unit they are
/// less than one unit wider, and exactly as wide if its width is whole too.
pub proof fn lemma_add_covers(rect: Rect, col: Rect)
    requires
        0 <= rect.w <= i32::MAX - 2 * SCALE,
        0 <= col.w,
        i32::MIN + SCALE <= rect.x,
        rect.x + rect.w <= i32::MAX - SCALE,
        col.x < rect.right(),
        col.right() > rect.x,
    ensures
        ({
            let added = bodies_width(Nested::debris(rect, col)) + bodies_width(Nested::rests(rect, col));
            &&& rect.w <= added < rect.w + 2 * SCALE
            &&& (rect.x as int) % (SCALE as int) == 0 ==> added < rect.w + SCALE
            &&& ((rect.x as int) % (SCALE as int) == 0 && (rect.w as int) % (SCALE as int) == 0) ==> added == rect.w
        }),
{
    lemma_fracture_covers(rect, col);
    lemma_debris_width(fragments(Nested::strip(rect, col)));
    let left = Nested::left_rest(rect, col);
    let right = Nested::right_rest(rect, col);
    let rests = Nested::rests(rect, col);
    let first = match left {
        Some(r) => seq![Nested::fresh(r)],
        None => Seq::<Nested>::empty(),
    };
    assert(bodies_width(first) == rest_width(left)) by {
        if left.is_some() {
            assert(first.drop_last() =~= Seq::<Nested>::empty());
            assert(bodies_width(first.drop_last()) == 0);
        }
    }
    assert(bodies_width(rests) == rest_width(left) + rest_width(right)) by {
        if right.is_some() {
            assert(rests.drop_last() =~= first);
        }
    }
}

/// Static obstacles and terrain are immovable: a body that resolves a
/// horizontal overlap with one of them stops, whatever its own weight and
/// velocity, and neither of them is moved by any body.
pub proof fn lemma_walls_are_immovable(body: PhysRect, r: Rect, wall: StaticObs, segment: Nested)
    requires
        body.last_update == LastUpdate::X,
    ensures
        body.collided(StaticObs::fresh(r).pr).v.x == 0,
        body.collided(Nested::fresh(r).pr).v.x == 0,
        wall.struck(body) == wall,
        segment.struck(body).pr == segment.pr,
{
    lemma_immovable_partner_stops(body, StaticObs::fresh(r).pr);
    lemma_immovable_partner_stops(body, Nested::fresh(r).pr);
}

} // verus!
