//! The camera: a view onto the world that eases toward a target, stays
//! inside given bounds, and turns world rectangles into screen rectangles.

use vstd::prelude::*;
use crate::colour::Colour;
use crate::geometry::{Rect, Vec2};
use crate::scalar::{clamp, diff, halved, magnitude, prod, quot, ratio, round_units, sum, HALF, SCALE};
use crate::scalar::{fx_add, fx_div, fx_half, fx_mul, fx_sub, within};
use crate::sprite::{GameObject, TextureDraw};

verus! {

/// Easing rate of a new camera: six times the remaining distance per unit
/// of time.
pub const EASING_SPEED: i32 = 6000;

/// Raw value of two.
pub const DOUBLE: i32 = 2000;

/// A command to fill a rectangle of the screen.
#[derive(Clone, Copy, PartialEq, Eq, Structural, Debug)]
pub struct RectDraw {
    pub rect: Rect,
    pub colour: Colour,
}

/// A draw command, in screen space.
#[derive(Clone, Copy, PartialEq, Eq, Structural, Debug)]
pub enum CamDraw {
    Rect(RectDraw),
    Tex(TextureDraw),
}

pub struct Camera {
    /// Where the upper left corner of the view is to go.
    pub target: Vec2,
    /// The view, its position on whole units; all drawing goes by it.
    pub rect: Rect,
    /// The view as it eases toward the target.
    pub true_rect: Rect,
    pub window_size: Vec2,
    /// Size of the view over size of the window, per axis.
    pub size_ratio: Vec2,
    /// The draw commands of the current frame, in the order they were given.
    pub draws: Vec<CamDraw>,
    pub speed: i32,
    /// Whether the view has arrived at the target.
    pub done: bool,
}

/// A value held between two bounds, the lower one first.
pub open spec fn held_between(v: int, low: int, high: int) -> int {
    if v < low {
        low
    } else if v > high {
        high
    } else {
        v
    }
}

/// The offset of a view of extent `view` along one axis that puts `point`
/// in its middle, as far as the bounds from `low` over `extent` allow. A view
/// larger than the bounds is put at half the bounds' extent less half its
/// own. Otherwise the middle is held inside the bounds by half the view on
/// either side.
pub open spec fn centred_offset(view: int, point: int, low: int, extent: int) -> int {
    let half = halved(view);
    if view > extent {
        diff(halved(extent), half)
    } else {
        diff(held_between(point, sum(low, half), diff(sum(low, extent), half)), half)
    }
}

/// A world coordinate seen from a camera at `offset` that is followed by the
/// factor `parallax`, scaled into the window.
pub open spec fn on_screen(world: int, offset: int, parallax: int, scale: int) -> int {
    ratio(diff(world, prod(offset, parallax)), scale)
}

/// The command that draws a textured object as `cam` sees it.
pub open spec fn sprite_of(go: GameObject, cam: &Camera) -> CamDraw {
    CamDraw::Tex(
        TextureDraw {
            tex: go.texture,
            draw_rect: cam.to_screen(go.rect, go.parallax),
            tex_rect: go.tex_rect,
            colour: go.colour,
        },
    )
}

/// The command that fills a rectangle of the world as `cam` sees it.
pub open spec fn fill_of(rect: Rect, colour: Colour, cam: &Camera) -> CamDraw {
    CamDraw::Rect(RectDraw { rect: cam.to_screen(rect, Vec2 { x: SCALE, y: SCALE }), colour })
}

/// The command that fills a rectangle given in view coordinates.
pub open spec fn static_fill_of(rect: Rect, colour: Colour, cam: &Camera) -> CamDraw {
    CamDraw::Rect(RectDraw { rect: cam.to_screen_static(rect), colour })
}

impl Camera {
    /// The size ratio agrees with the sizes of the view and of the window.
    pub open spec fn wf(&self) -> bool {
        self.size_ratio == (Vec2 {
            x: ratio(self.rect.w as int, self.window_size.x as int) as i32,
            y: ratio(self.rect.h as int, self.window_size.y as int) as i32,
        })
    }

    /// Whether the view is within half a unit of its target on both axes.
    pub open spec fn near_target(&self) -> bool {
        &&& magnitude(diff(self.target.x as int, self.true_rect.x as int)) < HALF
        &&& magnitude(diff(self.target.y as int, self.true_rect.y as int)) < HALF
    }

    /// How far the view moves along one axis in a step of length `dt`, with
    /// `delta` left to go.
    pub open spec fn pace(&self, delta: int, dt: int) -> int {
        prod(prod(delta, self.speed as int), dt)
    }

    /// The eased view after a step of length `dt`: on the target if it was
    /// near, else moved toward it by the pace of each axis.
    pub open spec fn eased_rect(&self, dt: int) -> Rect {
        if self.near_target() {
            Rect { x: self.target.x, y: self.target.y, ..self.true_rect }
        } else {
            Rect {
                x: sum(
                    self.true_rect.x as int,
                    self.pace(diff(self.target.x as int, self.true_rect.x as int), dt),
                ) as i32,
                y: sum(
                    self.true_rect.y as int,
                    self.pace(diff(self.target.y as int, self.true_rect.y as int), dt),
                ) as i32,
                ..self.true_rect
            }
        }
    }

    /// The camera after a step of length `dt`.
    pub open spec fn eased(self, dt: int) -> Camera {
        Camera {
            done: self.near_target(),
            true_rect: self.eased_rect(dt),
            rect: self.eased_rect(dt).round_pos_spec(),
            ..self
        }
    }

    /// The camera after `n` steps of length `dt`.
    pub open spec fn eased_often(self, dt: int, n: nat) -> Camera
        decreases n,
    {
        if n == 0 {
            self
        } else {
            self.eased(dt).eased_often(dt, (n - 1) as nat)
        }
    }

    /// How far the view is from its target, both axes together.
    pub open spec fn distance(&self) -> int {
        magnitude(self.target.x - self.true_rect.x) + magnitude(self.target.y - self.true_rect.y)
    }

    /// Steps of length `dt` bring the view to its target. The easing factor
    /// `speed * dt` is less than two, so that a step covers less than twice
    /// what is left to go and a view that passes its target ends nearer to
    /// it than it was; and a step covers at least one raw unit at half a
    /// unit from the target.
    pub open spec fn reaches_target(&self, dt: int) -> bool {
        &&& 0 <= self.speed
        &&& 0 <= dt
        &&& self.speed * dt < 2 * SCALE * SCALE
        &&& self.pace(HALF as int, dt) >= 1
        &&& magnitude(self.target.x - self.true_rect.x) <= i32::MAX
        &&& magnitude(self.target.y - self.true_rect.y) <= i32::MAX
    }

    /// The offset that centres the view on `p` inside `lim`.
    pub open spec fn centred_on(&self, p: Vec2, lim: Rect) -> Vec2 {
        Vec2 {
            x: centred_offset(self.rect.w as int, p.x as int, lim.x as int, lim.w as int) as i32,
            y: centred_offset(self.rect.h as int, p.y as int, lim.y as int, lim.h as int) as i32,
        }
    }

    /// A world rectangle in screen space, for an object that follows the
    /// camera by `parallax`.
    pub open spec fn to_screen(&self, world: Rect, parallax: Vec2) -> Rect {
        Rect {
            x: on_screen(world.x as int, self.rect.x as int, parallax.x as int, self.size_ratio.x as int) as i32,
            y: on_screen(world.y as int, self.rect.y as int, parallax.y as int, self.size_ratio.y as int) as i32,
            w: ratio(world.w as int, self.size_ratio.x as int) as i32,
            h: ratio(world.h as int, self.size_ratio.y as int) as i32,
        }
    }

    /// A rectangle given in view coordinates in screen space: scaled into
    /// the window, wherever the camera is.
    pub open spec fn to_screen_static(&self, rect: Rect) -> Rect {
        Rect {
            x: ratio(rect.x as int, self.size_ratio.x as int) as i32,
            y: ratio(rect.y as int, self.size_ratio.y as int) as i32,
            w: ratio(rect.w as int, self.size_ratio.x as int) as i32,
            h: ratio(rect.h as int, self.size_ratio.y as int) as i32,
        }
    }

    pub fn new(rect: Rect, window_size: Vec2) -> (cam: Camera)
        ensures
            cam.wf(),
            cam.rect == rect,
            cam.true_rect == rect,
            cam.target == rect.top_left_spec(),
            cam.window_size == window_size,
            cam.draws@.len() == 0,
            cam.speed == EASING_SPEED,
            cam.done,
    {
        let mut cam = Camera {
            rect,
            target: Vec2::new(rect.x, rect.y),
            window_size,
            draws: Vec::new(),
            size_ratio: Vec2::new(0, 0),
            speed: EASING_SPEED,
            true_rect: rect,
            done: true,
        };
        cam.update_size_ratio();
        cam
    }

    /// Whether the view has arrived at its target.
    pub fn done(&self) -> (arrived: bool)
        ensures
            arrived == self.done,
    {
        self.done
    }

    /// Moves the view for a step of length `time`. Within half a unit of the
    /// target on both axes the view is put on the target and has arrived.
    /// Otherwise it moves toward the target by `speed * time` times what is
    /// left to go. The view used for drawing is the eased view with its
    /// position rounded to whole units.
    pub fn update(&mut self, time: &i32)
        ensures
            *final(self) == old(self).eased(*time as int),
    {
        let vec_to_target = self.target.minus(self.true_rect.top_left());
        let change = vec_to_target.times(self.speed).times(*time);
        if within(vec_to_target.x, HALF) && within(vec_to_target.y, HALF) {
            self.true_rect.x = self.target.x;
            self.true_rect.y = self.target.y;
            self.done = true;
        } else {
            self.done = false;
            self.true_rect.add_assign(change);
        }
        self.rect = self.true_rect.round_pos();
    }

    /// Hands out the draw commands of the frame, in order, and forgets them.
    pub fn drain_draws(&mut self) -> (drained: Vec<CamDraw>)
        ensures
            drained@ == old(self).draws@,
            final(self).draws@.len() == 0,
            final(self).target == old(self).target,
            final(self).rect == old(self).rect,
            final(self).true_rect == old(self).true_rect,
            final(self).window_size == old(self).window_size,
            final(self).size_ratio == old(self).size_ratio,
            final(self).speed == old(self).speed,
            final(self).done == old(self).done,
    {
        let mut drained: Vec<CamDraw> = Vec::new();
        core::mem::swap(&mut self.draws, &mut drained);
        drained
    }

    /// Adds the command that draws a textured object.
    pub fn draw(&mut self, game_obj: &GameObject)
        ensures
            final(self).draws@ == old(self).draws@.push(sprite_of(*game_obj, old(self))),
            final(self).same_view(old(self)),
    {
        let dest = Rect::new(
            fx_div(fx_sub(game_obj.rect.x, fx_mul(self.rect.x, game_obj.parallax.x)), self.size_ratio.x),
            fx_div(fx_sub(game_obj.rect.y, fx_mul(self.rect.y, game_obj.parallax.y)), self.size_ratio.y),
            fx_div(game_obj.rect.w, self.size_ratio.x),
            fx_div(game_obj.rect.h, self.size_ratio.y),
        );
        self.draws.push(
            CamDraw::Tex(TextureDraw::new(game_obj.texture, dest, game_obj.tex_rect, game_obj.colour)),
        );
    }

    /// Adds the command that fills a rectangle of the world.
    pub fn draw_rect(&mut self, rect: Rect, colour: Colour)
        ensures
            final(self).draws@ == old(self).draws@.push(fill_of(rect, colour, old(self))),
            final(self).same_view(old(self)),
    {
        proof {
            lemma_prod_by_one(self.rect.x as int);
            lemma_prod_by_one(self.rect.y as int);
        }
        let dest = Rect::new(
            fx_div(fx_sub(rect.x, self.rect.x), self.size_ratio.x),
            fx_div(fx_sub(rect.y, self.rect.y), self.size_ratio.y),
            fx_div(rect.w, self.size_ratio.x),
            fx_div(rect.h, self.size_ratio.y),
        );
        self.draws.push(CamDraw::Rect(RectDraw { rect: dest, colour }));
    }

    /// Adds the command that fills a rectangle given in view coordinates,
    /// which does not move with the camera.
    pub fn draw_rect_static(&mut self, rect: Rect, colour: Colour)
        ensures
            final(self).draws@ == old(self).draws@.push(static_fill_of(rect, colour, old(self))),
            final(self).same_view(old(self)),
    {
        let dest = Rect::new(
            fx_div(rect.x, self.size_ratio.x),
            fx_div(rect.y, self.size_ratio.y),
            fx_div(rect.w, self.size_ratio.x),
            fx_div(rect.h, self.size_ratio.y),
        );
        self.draws.push(CamDraw::Rect(RectDraw { rect: dest, colour }));
    }

    /// Everything but the draw commands is as in `other`.
    pub open spec fn same_view(&self, other: &Camera) -> bool {
        &&& self.target == other.target
        &&& self.rect == other.rect
        &&& self.true_rect == other.true_rect
        &&& self.window_size == other.window_size
        &&& self.size_ratio == other.size_ratio
        &&& self.speed == other.speed
        &&& self.done == other.done
    }

    pub fn get_offset(&self) -> (offset: Vec2)
        ensures
            offset == self.rect.top_left_spec(),
    {
        Vec2::new(self.rect.x, self.rect.y)
    }

    pub fn set_offset(&mut self, offset: Vec2)
        ensures
            final(self).rect == (Rect { x: offset.x, y: offset.y, ..old(self).rect }),
            final(self).target == old(self).target,
            final(self).true_rect == old(self).true_rect,
            final(self).window_size == old(self).window_size,
            final(self).size_ratio == old(self).size_ratio,
            final(self).speed == old(self).speed,
            final(self).done == old(self).done,
            final(self).draws == old(self).draws,
    {
        self.rect.x = offset.x;
        self.rect.y = offset.y;
    }

    /// The offset along one axis that centres a view of extent `cam` on
    /// `point` inside the bounds from `low` over `extent`.
    pub fn calc_offset(cam: i32, point: i32, low: i32, extent: i32) -> (offset: i32)
        ensures
            offset == centred_offset(cam as int, point as int, low as int, extent as int),
    {
        let half: i32 = fx_half(cam);
        if cam > extent {
            return fx_sub(fx_half(extent), half);
        }
        let least: i32 = fx_add(low, half);
        let most: i32 = fx_sub(fx_add(low, extent), half);
        let middle: i32 = if point < least {
            least
        } else if point > most {
            most
        } else {
            point
        };
        fx_sub(middle, half)
    }

    /// The offset that centres the view on `p` inside `lim`.
    pub fn calc_vec2_off(&self, p: Vec2, lim: Rect) -> (offset: Vec2)
        ensures
            offset == self.centred_on(p, lim),
    {
        Vec2::new(
            Camera::calc_offset(self.rect.w, p.x, lim.x, lim.w),
            Camera::calc_offset(self.rect.h, p.y, lim.y, lim.h),
        )
    }

    /// Puts the view at once where `p` is centred inside `lim`, and makes
    /// that the target.
    pub fn centre_on_pos(&mut self, p: Vec2, lim: Rect)
        ensures
            final(self).target == old(self).centred_on(p, lim),
            final(self).rect == (Rect {
                x: old(self).centred_on(p, lim).x,
                y: old(self).centred_on(p, lim).y,
                ..old(self).rect
            }),
            final(self).true_rect == old(self).true_rect,
            final(self).window_size == old(self).window_size,
            final(self).size_ratio == old(self).size_ratio,
            final(self).speed == old(self).speed,
            final(self).done == old(self).done,
            final(self).draws == old(self).draws,
    {
        let v = self.calc_vec2_off(p, lim);
        self.rect.x = v.x;
        self.rect.y = v.y;
        self.target.x = v.x;
        self.target.y = v.y;
    }

    /// Makes the place where `p` is centred inside `lim` the target, toward
    /// which the view then eases.
    pub fn target_centre_pos(&mut self, p: Vec2, lim: Rect)
        ensures
            final(self).target == old(self).centred_on(p, lim),
            final(self).rect == old(self).rect,
            final(self).true_rect == old(self).true_rect,
            final(self).window_size == old(self).window_size,
            final(self).size_ratio == old(self).size_ratio,
            final(self).speed == old(self).speed,
            final(self).done == old(self).done,
            final(self).draws == old(self).draws,
    {
        let v = self.calc_vec2_off(p, lim);
        self.target.x = v.x;
        self.target.y = v.y;
    }

    pub fn get_window_size(&self) -> (size: Vec2)
        ensures
            size == self.window_size,
    {
        self.window_size
    }

    pub fn set_window_size(&mut self, size: Vec2)
        ensures
            final(self).wf(),
            final(self).window_size == size,
            final(self).target == old(self).target,
            final(self).rect == old(self).rect,
            final(self).true_rect == old(self).true_rect,
            final(self).speed == old(self).speed,
            final(self).done == old(self).done,
            final(self).draws == old(self).draws,
    {
        self.window_size = size;
        self.update_size_ratio();
    }

    pub fn get_view_size(&self) -> (size: Vec2)
        ensures
            size == (Vec2 { x: self.rect.w, y: self.rect.h }),
    {
        Vec2::new(self.rect.w, self.rect.h)
    }

    pub fn set_view_size(&mut self, view: Vec2)
        ensures
            final(self).wf(),
            final(self).rect == (Rect { w: view.x, h: view.y, ..old(self).rect }),
            final(self).window_size == old(self).window_size,
            final(self).target == old(self).target,
            final(self).true_rect == old(self).true_rect,
            final(self).speed == old(self).speed,
            final(self).done == old(self).done,
            final(self).draws == old(self).draws,
    {
        self.rect.w = view.x;
        self.rect.h = view.y;
        self.update_size_ratio();
    }

    /// The window one step larger: doubled while it is smaller than the
    /// view, then larger by the size of the view.
    pub open spec fn larger_window(&self) -> Vec2 {
        if self.window_size.x < self.rect.w {
            self.window_size.times_spec(DOUBLE)
        } else {
            self.window_size.plus_spec(Vec2 { x: self.rect.w, y: self.rect.h })
        }
    }

    /// The window one step smaller: smaller by the size of the view while
    /// it is larger than the view, then halved.
    pub open spec fn smaller_window(&self) -> Vec2 {
        if self.window_size.x <= self.rect.w {
            self.window_size.over_spec(DOUBLE)
        } else {
            self.window_size.minus_spec(Vec2 { x: self.rect.w, y: self.rect.h })
        }
    }

    /// The size of the window after zooming in by one step.
    pub fn zoom_in(&self) -> (size: Vec2)
        ensures
            size == self.larger_window(),
    {
        if self.window_size.x < self.rect.w {
            self.window_size.times(DOUBLE)
        } else {
            self.window_size.plus(self.get_view_size())
        }
    }

    /// The size of the window after zooming out by one step.
    pub fn zoom_out(&self) -> (size: Vec2)
        ensures
            size == self.smaller_window(),
    {
        if self.window_size.x <= self.rect.w {
            self.window_size.over(DOUBLE)
        } else {
            self.window_size.minus(self.get_view_size())
        }
    }

    /// Width of the view over its height.
    pub fn aspect_ratio(&self) -> (r: i32)
        ensures
            r == ratio(self.rect.w as int, self.rect.h as int),
    {
        fx_div(self.rect.w, self.rect.h)
    }

    fn update_size_ratio(&mut self)
        ensures
            final(self).wf(),
            final(self).window_size == old(self).window_size,
            final(self).target == old(self).target,
            final(self).rect == old(self).rect,
            final(self).true_rect == old(self).true_rect,
            final(self).speed == old(self).speed,
            final(self).done == old(self).done,
            final(self).draws == old(self).draws,
    {
        self.size_ratio = Vec2::new(
            fx_div(self.rect.w, self.window_size.x),
            fx_div(self.rect.h, self.window_size.y),
        );
    }
}

/// A factor of one changes nothing.
pub proof fn lemma_prod_by_one(a: int)
    requires
        i32::MIN <= a <= i32::MAX,
    ensures
        prod(a, SCALE as int) == a,
{
    assert(a * 1000 / 1000 == a);
    assert((-(a * 1000)) / 1000 == -a);
}

/// A step of the view along one axis goes toward the target. With an
/// easing factor `speed * dt` below two it covers less than twice what is
/// left to go, and with a factor of at most one it does not pass the target.
pub proof fn lemma_stride_toward(d: int, speed: int, dt: int)
    requires
        0 <= speed,
        0 <= dt,
        speed * dt < 2 * SCALE * SCALE,
    ensures
        d > 0 ==> 0 <= prod(prod(d, speed), dt) < 2 * d,
        d == 0 ==> prod(prod(d, speed), dt) == 0,
        d < 0 ==> 2 * d < prod(prod(d, speed), dt) <= 0,
        speed * dt <= SCALE * SCALE ==> {
            &&& d >= 0 ==> prod(prod(d, speed), dt) <= d
            &&& d <= 0 ==> d <= prod(prod(d, speed), dt)
        },
{
    let m = if d >= 0 { d } else { -d };
    let n = m * speed;
    assert(n >= 0) by (nonlinear_arith)
        requires
            n == m * speed,
            m >= 0,
            speed >= 0,
    ;
    let a = n / 1000;
    let held = if d >= 0 { clamp(a) } else { -clamp(-a) };
    assert(0 <= held <= a);
    let n2 = held * dt;
    assert(0 <= n2 <= a * dt) by (nonlinear_arith)
        requires
            n2 == held * dt,
            0 <= held <= a,
            dt >= 0,
    ;
    let b = n2 / 1000;
    assert(1000 * (a * dt) <= n * dt) by (nonlinear_arith)
        requires
            1000 * a <= n,
            dt >= 0,
    ;
    assert(n * dt == m * (speed * dt)) by (nonlinear_arith)
        requires
            n == m * speed,
    ;
    let factor = speed * dt;
    assert(m * factor <= m * 1_999_999) by (nonlinear_arith)
        requires
            m >= 0,
            factor <= 1_999_999,
    ;
    assert(1_000_000 * b <= 1_999_999 * m);
    if factor <= 1_000_000 {
        assert(m * factor <= m * 1_000_000) by (nonlinear_arith)
            requires
                m >= 0,
                factor <= 1_000_000,
        ;
        assert(b <= m);
    }
    if d >= 0 {
        assert(d * speed == n);
        assert(quot(d * speed, 1000) == a);
        assert(prod(d, speed) == held);
        assert(quot(held * dt, 1000) == b);
    } else {
        assert(d * speed == -n) by (nonlinear_arith)
            requires
                n == m * speed,
                m == -d,
        ;
        assert(quot(d * speed, 1000) == -a);
        assert(prod(d, speed) == -held);
        assert((-held) * dt == -n2) by (nonlinear_arith)
            requires
                n2 == held * dt,
        ;
        assert(quot((-held) * dt, 1000) == -b);
    }
}

/// A longer way to go makes no shorter step.
pub proof fn lemma_stride_monotone(d1: int, d2: int, speed: int, dt: int)
    requires
        0 <= speed,
        0 <= dt,
        d1 <= d2,
    ensures
        prod(prod(d1, speed), dt) <= prod(prod(d2, speed), dt),
{
    assert(d1 * speed <= d2 * speed) by (nonlinear_arith)
        requires
            d1 <= d2,
            speed >= 0,
    ;
    let a1 = prod(d1, speed);
    let a2 = prod(d2, speed);
    assert(a1 <= a2);
    assert(a1 * dt <= a2 * dt) by (nonlinear_arith)
        requires
            a1 <= a2,
            dt >= 0,
    ;
}

/// Half a unit before the target and half a unit behind it, the steps are
/// alike.
pub proof fn lemma_stride_at_tolerance(speed: int, dt: int)
    requires
        0 <= speed <= i32::MAX,
        0 <= dt,
        speed * dt < 2 * SCALE * SCALE,
    ensures
        prod(prod(-HALF, speed), dt) == -prod(prod(HALF as int, speed), dt),
{
    lemma_stride_toward(HALF as int, speed, dt);
    lemma_stride_toward(-HALF, speed, dt);
    let a = prod(HALF as int, speed);
    assert(a == (500 * speed) / 1000);
    assert((-500) * speed == -(500 * speed));
    assert(prod(-HALF, speed) == -a);
    assert(a >= 0);
    let n = a * dt;
    assert(n >= 0) by (nonlinear_arith)
        requires
            n == a * dt,
            a >= 0,
            dt >= 0,
    ;
    assert((-a) * dt == -n) by (nonlinear_arith)
        requires
            n == a * dt,
    ;
}

impl Camera {
    /// Once the view has arrived it stays: a step from the target leaves
    /// the view arrived, on the target, and the view used for drawing on the
    /// target rounded to whole units.
    pub proof fn lemma_arrived_stays(self, dt: int)
        requires
            self.true_rect.x == self.target.x,
            self.true_rect.y == self.target.y,
        ensures
            self.eased(dt).done,
            self.eased(dt).true_rect == self.true_rect,
            self.eased(dt).target == self.target,
            self.eased(dt).rect == self.true_rect.round_pos_spec(),
            self.eased(dt).rect.x == clamp(round_units(self.target.x as int)),
            self.eased(dt).rect.y == clamp(round_units(self.target.y as int)),
    {
    }

    /// A step that reports arrival has put the view on its target.
    pub proof fn lemma_done_is_on_target(self, dt: int)
        requires
            self.eased(dt).done,
        ensures
            self.eased(dt).true_rect.x == self.target.x,
            self.eased(dt).true_rect.y == self.target.y,
            self.eased(dt).target == self.target,
    {
    }

    /// A step before arrival brings the view nearer to its target, also
    /// where it carries the view past the target.
    pub proof fn lemma_step_approaches(self, dt: int)
        requires
            self.reaches_target(dt),
            !self.near_target(),
        ensures
            self.eased(dt).reaches_target(dt),
            self.eased(dt).distance() < self.distance(),
    {
        let dx = self.target.x - self.true_rect.x;
        let dy = self.target.y - self.true_rect.y;
        let speed = self.speed as int;
        assert(diff(self.target.x as int, self.true_rect.x as int) == dx);
        assert(diff(self.target.y as int, self.true_rect.y as int) == dy);
        lemma_stride_toward(dx, speed, dt);
        lemma_stride_toward(dy, speed, dt);
        lemma_stride_at_tolerance(speed, dt);
        if dx >= HALF {
            lemma_stride_monotone(HALF as int, dx, speed, dt);
        }
        if dx <= -HALF {
            lemma_stride_monotone(dx, -HALF, speed, dt);
        }
        if dy >= HALF {
            lemma_stride_monotone(HALF as int, dy, speed, dt);
        }
        if dy <= -HALF {
            lemma_stride_monotone(dy, -HALF, speed, dt);
        }
        let px = self.pace(dx, dt);
        let py = self.pace(dy, dt);
        let after = self.eased(dt).true_rect;
        assert(after.x == clamp(self.true_rect.x + px));
        assert(after.y == clamp(self.true_rect.y + py));
        assert(magnitude(self.target.x - after.x) <= magnitude(dx));
        assert(magnitude(self.target.y - after.y) <= magnitude(dy));
        assert(px != 0 ==> magnitude(self.target.x - after.x) < magnitude(dx));
        assert(py != 0 ==> magnitude(self.target.y - after.y) < magnitude(dy));
    }

    /// The view settles: if steps of length `dt` bring it to its target,
    /// then after some number of them it reports that it has arrived. This
    /// covers every easing factor below two, those above one included, with
    /// which the view swings past its target and back.
    pub proof fn lemma_settles(self, dt: int) -> (n: nat)
        requires
            self.reaches_target(dt),
        ensures
            self.eased_often(dt, n).done,
            n >= 1,
        decreases self.distance(),
    {
        if self.near_target() {
            assert(self.eased_often(dt, 1) == self.eased(dt).eased_often(dt, 0));
            1
        } else {
            self.lemma_step_approaches(dt);
            let rest = self.eased(dt).lemma_settles(dt);
            (rest + 1) as nat
        }
    }

    /// After the view has settled it stays settled, and the view used for
    /// drawing stays where it is: on the target rounded to whole units.
    pub proof fn lemma_settled_stays(self, dt: int, n: nat)
        requires
            self.done,
            self.true_rect.x == self.target.x,
            self.true_rect.y == self.target.y,
            n >= 1,
        ensures
            self.eased_often(dt, n).done,
            self.eased_often(dt, n).target == self.target,
            self.eased_often(dt, n).true_rect == self.true_rect,
            self.eased_often(dt, n).rect == self.true_rect.round_pos_spec(),
        decreases n,
    {
        self.lemma_arrived_stays(dt);
        if n > 1 {
            self.eased(dt).lemma_settled_stays(dt, (n - 1) as nat);
        } else {
            assert(self.eased_often(dt, 1) == self.eased(dt).eased_often(dt, 0));
        }
    }
}

} // verus!
