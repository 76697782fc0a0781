//! A body that is steered by the player's intents.

use vstd::prelude::*;
use crate::camera::{sprite_of, CamDraw, Camera};
use crate::geometry::{Rect, Vec2};
use crate::input::Input;
use crate::physics::{Phys, PhysRect};
use crate::scalar::{clamp, diff, fx_add, fx_mul, fx_neg, fx_sub, prod, sum};
use crate::sprite::{GameObject, Texture};

verus! {

/// How strongly a player that is not steered is slowed down: ten times its
/// speed, against its movement.
pub const BRAKING: i32 = 10_000;

#[derive(Clone, Copy, PartialEq, Eq, Structural, Debug)]
pub struct Player {
    pub go: GameObject,
    pub pr: PhysRect,
    /// Acceleration when steered, and gravity.
    pub acc: Vec2,
    /// Vertical velocity of a jump.
    pub jump: i32,
    /// Factor on gravity while rising with the jump released.
    pub frict: i32,
    /// Whether the player jumped in the last update.
    pub jumped: bool,
}

impl Player {
    pub open spec fn fresh(tex: Texture, acc: Vec2, jump: i32, frict: i32, max_v: Vec2, weight: i32) -> Player {
        Player {
            go: GameObject::plain(tex),
            pr: PhysRect { weight, ..PhysRect::resting(tex.extent(), max_v) },
            acc,
            jump,
            frict,
            jumped: false,
        }
    }

    /// The horizontal acceleration and velocity, and the width of the shown
    /// part of the texture, after steering. Steering to a side accelerates
    /// to that side and turns the texture to it; a player that turns starts
    /// from rest. Steering to neither or to both sides brakes.
    pub open spec fn steered_x(self, input: Input) -> (int, int, int) {
        let (a0, v0, w0) = (0int, self.pr.v.x as int, self.go.tex_rect.w as int);
        let (a1, v1, w1) = if input.left {
            (diff(a0, self.acc.x as int), if w0 >= 0 { 0 } else { v0 }, clamp(-self.go.texture.extent().w))
        } else {
            (a0, v0, w0)
        };
        let (a2, v2, w2) = if input.right {
            (sum(a1, self.acc.x as int), if w1 < 0 { 0 } else { v1 }, self.go.texture.extent().h as int)
        } else {
            (a1, v1, w1)
        };
        let a3 = if input.left == input.right { prod(clamp(-v2), BRAKING as int) } else { a2 };
        (a3, v2, w2)
    }

    /// The player after its intents are applied. Gravity acts unless the
    /// player jumps, which it can from a standing position; while it rises
    /// with the jump released, gravity is scaled by `frict`.
    #[verifier::opaque]
    pub open spec fn steered(self, input: Input) -> Player {
        let (ax, vx, w) = self.steered_x(input);
        let jumps = input.a && self.pr.y_collision;
        let vy = if jumps { self.jump } else { self.pr.v.y };
        let ay = if jumps { 0 } else { self.acc.y as int };
        let ay = if !input.a && vy < 0 { prod(ay, self.frict as int) } else { ay };
        Player {
            go: GameObject { tex_rect: Rect { w: w as i32, ..self.go.tex_rect }, ..self.go },
            pr: PhysRect { a: Vec2 { x: ax as i32, y: ay as i32 }, v: Vec2 { x: vx as i32, y: vy }, ..self.pr },
            jumped: jumps,
            ..self
        }
    }

    /// The player moved to `pos`, at rest.
    #[verifier::opaque]
    pub open spec fn placed(self, pos: Vec2) -> Player {
        Player {
            pr: PhysRect {
                s: pos,
                prev_s: pos,
                rect: Rect { x: pos.x, y: pos.y, ..self.pr.rect },
                v: Vec2 { x: 0, y: 0 },
                ..self.pr
            },
            ..self
        }.finished()
    }

    /// The command that draws the player.
    pub open spec fn sprite(self, cam: &Camera) -> CamDraw {
        sprite_of(self.go, cam)
    }

    pub fn new(tex: Texture, acc: Vec2, jump: i32, frict: i32, max_v: Vec2, weight: i32) -> (p: Player)
        ensures
            p == Player::fresh(tex, acc, jump, frict, max_v, weight),
    {
        let go = GameObject::new_from_tex(tex);
        let mut pr = PhysRect::new(go.rect, max_v);
        pr.weight = weight;
        Player { go, pr, acc, jump, frict, jumped: false }
    }

    /// Whether the player jumped in the last update.
    pub fn jumped(&self) -> (j: bool)
        ensures
            j == self.jumped,
    {
        self.jumped
    }

    /// Applies the intents of a frame.
    pub fn update(&mut self, time: &i32, input: &Input)
        ensures
            *final(self) == old(self).steered(*input),
    {
        self.controls(input);
    }

    pub fn draw(&self, cam: &mut Camera)
        ensures
            final(cam).draws@ == old(cam).draws@.push(self.sprite(old(cam))),
            final(cam).same_view(old(cam)),
    {
        cam.draw(&self.go);
    }

    /// Puts the player at `pos`, at rest.
    pub fn place(&mut self, pos: Vec2)
        ensures
            *final(self) == old(self).placed(pos),
    {
        proof {
            reveal(Player::placed);
        }
        self.pr.s = pos;
        self.pr.prev_s = pos;
        self.pr.rect.x = pos.x;
        self.pr.rect.y = pos.y;
        self.pr.v = Vec2::new(0, 0);
        self.post_physics();
    }

    fn controls(&mut self, input: &Input)
        ensures
            *final(self) == old(self).steered(*input),
    {
        proof {
            reveal(Player::steered);
        }
        self.pr.a.x = 0;
        self.pr.a.y = self.acc.y;
        let size: Rect = self.go.texture.size();
        if input.left {
            self.pr.a.x = fx_sub(self.pr.a.x, self.acc.x);
            if self.go.tex_rect.w >= 0 {
                self.pr.v.x = 0;
            }
            self.go.tex_rect.w = fx_neg(size.w);
        }
        if input.right {
            self.pr.a.x = fx_add(self.pr.a.x, self.acc.x);
            if self.go.tex_rect.w < 0 {
                self.pr.v.x = 0;
            }
            self.go.tex_rect.w = size.h;
        }
        if (!input.right && !input.left) || (input.right && input.left) {
            self.pr.a.x = fx_mul(fx_neg(self.pr.v.x), BRAKING);
        }
        if input.a && self.pr.y_collision {
            self.pr.a.y = 0;
            self.pr.v.y = self.jump;
            self.jumped = true;
        } else {
            self.jumped = false;
        }
        if !input.a && self.pr.v.y < 0 {
            self.pr.a.y = fx_mul(self.pr.a.y, self.frict);
        }
    }
}

impl Phys for Player {
    open spec fn body(&self) -> PhysRect {
        self.pr
    }

    open spec fn with_body(self, pr: PhysRect) -> Self {
        Player { pr, ..self }
    }

    /// The object that is drawn follows the body, on whole units.
    open spec fn finished(self) -> Self {
        Player { go: GameObject { rect: self.pr.rect.round_pos_spec(), ..self.go }, ..self }
    }

    fn pr(&mut self) -> (pr: &mut PhysRect) {
        &mut self.pr
    }

    fn pr_im(&self) -> (pr: &PhysRect) {
        &self.pr
    }

    fn pre_physics(&mut self) {
    }

    fn collision(&mut self, other: &PhysRect) {
        self.pr.resolve(other);
    }

    fn post_physics(&mut self) {
        self.go.rect = self.pr.get_pixel_correct_rect();
    }
}

} // verus!
