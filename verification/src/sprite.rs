//! What is handed to the renderer: textures by handle, and the objects and
//! draw commands that refer to them.

use vstd::prelude::*;
use crate::colour::Colour;
use crate::geometry::{Rect, Vec2};
use crate::scalar::{clamp, narrow, lemma_product_bound, SCALE};

verus! {

/// A loaded texture: the renderer's handle for it, and its size in pixels.
#[derive(Clone, Copy, PartialEq, Eq, Structural, Debug)]
pub struct Texture {
    pub id: usize,
    pub width: u32,
    pub height: u32,
}

/// A textured object in the world.
#[derive(Clone, Copy, PartialEq, Eq, Structural, Debug)]
pub struct GameObject {
    pub texture: Texture,
    /// Where the object is in the world.
    pub rect: Rect,
    /// The part of the texture that is shown.
    pub tex_rect: Rect,
    /// How much of the camera's movement the object follows, per axis.
    pub parallax: Vec2,
    pub colour: Colour,
}

/// A command to draw part of a texture onto the screen.
#[derive(Clone, Copy, PartialEq, Eq, Structural, Debug)]
pub struct TextureDraw {
    pub tex: Texture,
    /// Where on the screen.
    pub draw_rect: Rect,
    /// Which part of the texture.
    pub tex_rect: Rect,
    pub colour: Colour,
}

impl Texture {
    /// The texture's size in world units, one unit to a pixel.
    pub open spec fn extent(self) -> Rect {
        Rect { x: 0, y: 0, w: clamp(self.width * SCALE) as i32, h: clamp(self.height * SCALE) as i32 }
    }

    pub fn size(&self) -> (r: Rect)
        ensures
            r == self.extent(),
    {
        proof {
            lemma_product_bound(self.width as int, SCALE as int);
            lemma_product_bound(self.height as int, SCALE as int);
        }
        Rect::new(
            0,
            0,
            narrow(self.width as i128 * SCALE as i128),
            narrow(self.height as i128 * SCALE as i128),
        )
    }
}

impl GameObject {
    /// An object at the origin that shows the whole texture at its own
    /// size, untinted, and follows the camera fully.
    pub open spec fn plain(texture: Texture) -> GameObject {
        GameObject {
            texture,
            rect: texture.extent(),
            tex_rect: texture.extent(),
            parallax: Vec2 { x: SCALE, y: SCALE },
            colour: Colour { r: 255, g: 255, b: 255, a: 255 },
        }
    }

    pub fn new_from_tex(texture: Texture) -> (go: GameObject)
        ensures
            go == GameObject::plain(texture),
    {
        let size = texture.size();
        GameObject {
            texture,
            rect: size,
            tex_rect: size,
            parallax: Vec2::new(SCALE, SCALE),
            colour: Colour::white(),
        }
    }
}

impl TextureDraw {
    pub fn new(tex: Texture, draw_rect: Rect, tex_rect: Rect, colour: Colour) -> (d: TextureDraw)
        ensures
            d == (TextureDraw { tex, draw_rect, tex_rect, colour }),
    {
        TextureDraw { tex, draw_rect, tex_rect, colour }
    }
}

} // verus!
