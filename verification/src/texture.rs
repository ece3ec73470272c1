use crate::color::RGBA8;
use crate::frame::Vector3Bits;
use vstd::prelude::*;

verus! {

/// A pair of unsigned 16-bit numbers: a size in pixels.
#[derive(Copy, Clone, Debug, PartialEq, Eq, Structural)]
pub struct Vector2U16 {
    pub x: u16,
    pub y: u16,
}

/// Token to reference a texture with: a rectangle of the texture atlas in UV
/// units, laid out as `x` and `y` for the two horizontal bounds and `z` and
/// `w` for the two vertical ones. A mirrored texture holds a pair of bounds
/// in descending order.
#[derive(Copy, Clone, Debug, PartialEq, Eq, Structural)]
pub struct Texture {
    pub x: u16,
    pub y: u16,
    pub z: u16,
    pub w: u16,
}

/// The message of the error for a sub texture without area.
pub open spec fn empty_size_message() -> Seq<char> {
    "Size must be greater than 0"@
}

/// The message of the error for a sub texture that leaves its source.
pub open spec fn out_of_bounds_message() -> Seq<char> {
    "Requested subtexture is outside the bounds of the source texture."@
}

impl Texture {
    /// The left bound, whatever the mirroring.
    pub open spec fn left(self) -> int {
        if self.x <= self.y {
            self.x as int
        } else {
            self.y as int
        }
    }

    /// The right bound, whatever the mirroring.
    pub open spec fn right(self) -> int {
        if self.x <= self.y {
            self.y as int
        } else {
            self.x as int
        }
    }

    /// The top bound, whatever the mirroring.
    pub open spec fn top(self) -> int {
        if self.z <= self.w {
            self.z as int
        } else {
            self.w as int
        }
    }

    /// The bottom bound, whatever the mirroring.
    pub open spec fn bottom(self) -> int {
        if self.z <= self.w {
            self.w as int
        } else {
            self.z as int
        }
    }

    /// Whether the rectangle of `width` by `height` pixels at pixel
    /// (`minx`, `miny`) of this texture lies inside it, a pixel being
    /// `pixel_size` UV units wide and high.
    pub open spec fn contains_sub(
        self,
        minx: u16,
        miny: u16,
        width: u16,
        height: u16,
        pixel_size: u16,
    ) -> bool {
        &&& self.left() + (minx + width) * pixel_size <= self.right()
        &&& self.top() + (miny + height) * pixel_size <= self.bottom()
    }

    /// The texture of one pixel at the origin of the atlas, which is kept
    /// plain white.
    pub fn white(pixel_size: u16) -> (texture: Texture)
        ensures
            texture == (Texture { x: 0, y: pixel_size, z: 0, w: pixel_size }),
    {
        Texture { x: 0, y: pixel_size, z: 0, w: pixel_size }
    }

    /// Mirrors the texture along the Y axis. Creates a new texture.
    pub fn mirror_y(&self) -> (mirrored: Texture)
        ensures
            mirrored == (Texture { x: self.y, y: self.x, z: self.z, w: self.w }),
    {
        Texture { x: self.y, y: self.x, z: self.z, w: self.w }
    }

    /// Mirrors the texture along the X axis. Creates a new texture.
    pub fn mirror_x(&self) -> (mirrored: Texture)
        ensures
            mirrored == (Texture { x: self.x, y: self.y, z: self.w, w: self.z }),
    {
        Texture { x: self.x, y: self.y, z: self.w, w: self.z }
    }

    /// Returns a sub texture from the given texture. Values are in pixels, a
    /// pixel being `pixel_size` UV units. The top left of the texture has the
    /// coordinates of 0, 0. This ignores any mirroring on the underlying
    /// texture.
    ///
    /// Returns an error if the size is 0, or the bounds of the sub texture
    /// leave the source texture.
    pub fn sub_texture(
        &self,
        minx: u16,
        miny: u16,
        width: u16,
        height: u16,
        pixel_size: u16,
    ) -> (result: Result<Texture, &'static str>)
        ensures
            width == 0 || height == 0 ==> result is Err && result->Err_0@ == empty_size_message(),
            width != 0 && height != 0 && !self.contains_sub(minx, miny, width, height, pixel_size)
                ==> result is Err && result->Err_0@ == out_of_bounds_message(),
            width != 0 && height != 0 && self.contains_sub(minx, miny, width, height, pixel_size)
                ==> result is Ok && result->Ok_0.x == self.left() + minx * pixel_size
                && result->Ok_0.y == self.left() + (minx + width) * pixel_size && result->Ok_0.z
                == self.top() + miny * pixel_size && result->Ok_0.w == self.top() + (miny
                + height) * pixel_size,
    {
        if width == 0 || height == 0 {
            return Err("Size must be greater than 0");
        }
        let left: u64 = (if self.x <= self.y { self.x } else { self.y }) as u64;
        let right: u64 = (if self.x <= self.y { self.y } else { self.x }) as u64;
        let top: u64 = (if self.z <= self.w { self.z } else { self.w }) as u64;
        let bottom: u64 = (if self.z <= self.w { self.w } else { self.z }) as u64;
        let unit: u64 = pixel_size as u64;
        let x0: u64 = minx as u64;
        let x1: u64 = minx as u64 + width as u64;
        let y0: u64 = miny as u64;
        let y1: u64 = miny as u64 + height as u64;
        proof {
            lemma_product_bounds(x0 as int, x1 as int, unit as int);
            lemma_product_bounds(y0 as int, y1 as int, unit as int);
        }
        let sub_left: u64 = left + x0 * unit;
        let sub_right: u64 = left + x1 * unit;
        let sub_top: u64 = top + y0 * unit;
        let sub_bottom: u64 = top + y1 * unit;
        if sub_left > right || sub_right > right || sub_top > bottom || sub_bottom > bottom {
            return Err("Requested subtexture is outside the bounds of the source texture.");
        }
        Ok(
            Texture {
                x: sub_left as u16,
                y: sub_right as u16,
                z: sub_top as u16,
                w: sub_bottom as u16,
            },
        )
    }

    /// The width and height of the texture in pixels, a pixel being
    /// `pixel_size` UV units, rounded down.
    pub fn size(&self, pixel_size: u16) -> (size: Vector2U16)
        requires
            pixel_size > 0,
        ensures
            size.x == (self.right() - self.left()) / (pixel_size as int),
            size.y == (self.bottom() - self.top()) / (pixel_size as int),
    {
        let left: u16 = if self.x <= self.y { self.x } else { self.y };
        let right: u16 = if self.x <= self.y { self.y } else { self.x };
        let top: u16 = if self.z <= self.w { self.z } else { self.w };
        let bottom: u16 = if self.z <= self.w { self.w } else { self.z };
        Vector2U16 { x: (right - left) / pixel_size, y: (bottom - top) / pixel_size }
    }
}

/// Products of small numbers stay small and keep their order.
proof fn lemma_product_bounds(a: int, b: int, unit: int)
    requires
        0 <= a <= b <= 2 * 65535,
        0 <= unit <= 65535,
    ensures
        0 <= a * unit <= b * unit <= 2 * 65535 * 65535,
{
    assert(0 <= a * unit <= b * unit <= 2 * 65535 * 65535) by (nonlinear_arith)
        requires
            0 <= a <= b <= 2 * 65535,
            0 <= unit <= 65535,
    ;
}

/// A sub texture that was cut on whole pixels measures what was asked for.
pub proof fn lemma_sub_texture_size(
    t: Texture,
    minx: u16,
    miny: u16,
    width: u16,
    height: u16,
    pixel_size: u16,
    sub: Texture,
)
    requires
        pixel_size > 0,
        sub.x == t.left() + minx * pixel_size,
        sub.y == t.left() + (minx + width) * pixel_size,
        sub.z == t.top() + miny * pixel_size,
        sub.w == t.top() + (miny + height) * pixel_size,
    ensures
        (sub.right() - sub.left()) / (pixel_size as int) == width,
        (sub.bottom() - sub.top()) / (pixel_size as int) == height,
{
    let p = pixel_size as int;
    assert((minx + width) * p - minx * p == width * p) by (nonlinear_arith);
    assert((miny + height) * p - miny * p == height * p) by (nonlinear_arith);
    assert(0 <= width * p && 0 <= height * p) by (nonlinear_arith)
        requires
            p > 0,
    ;
    assert((width * p) / p == width) by (nonlinear_arith)
        requires
            p > 0,
    ;
    assert((height * p) / p == height) by (nonlinear_arith)
        requires
            p > 0,
    ;
}

/// Configuration settings for a sprite.
#[derive(Copy, Clone, Debug, PartialEq, Eq, Structural)]
pub struct Sprite {
    /// Position of the bottom left corner of the sprite, and its depth, in
    /// pixels, each as the bit pattern of a single-precision number.
    pub pos: Vector3Bits,
    /// Units are measured in pixels.
    pub size: Vector2U16,
    /// Texture to apply to the sprite.
    pub texture: Texture,
    /// Color multiplier to apply to the sprite.
    pub color: RGBA8,
    /// Rotation of the sprite. Units are 1/65536th of a turn.
    pub rotation: u16,
}

impl Sprite {
    /// A white, unrotated sprite of 100 by 100 pixels at the origin, with
    /// the plain white texture, a pixel being `pixel_size` UV units.
    pub fn white(pixel_size: u16) -> (sprite: Sprite)
        ensures
            sprite == (Sprite {
                pos: Vector3Bits { x: 0, y: 0, z: 0 },
                size: Vector2U16 { x: 100, y: 100 },
                texture: Texture { x: 0, y: pixel_size, z: 0, w: pixel_size },
                color: RGBA8 { r: 255, g: 255, b: 255, a: 255 },
                rotation: 0,
            }),
    {
        Sprite {
            pos: Vector3Bits { x: 0, y: 0, z: 0 },
            size: Vector2U16 { x: 100, y: 100 },
            texture: Texture::white(pixel_size),
            color: RGBA8::new_raw(255, 255, 255, 255),
            rotation: 0,
        }
    }

    /// A white, unrotated sprite at the origin that shows the whole texture
    /// at its size in pixels, a pixel being `pixel_size` UV units.
    pub fn from_texture(texture: Texture, pixel_size: u16) -> (sprite: Sprite)
        requires
            pixel_size > 0,
        ensures
            sprite.pos == (Vector3Bits { x: 0, y: 0, z: 0 }),
            sprite.size.x == (texture.right() - texture.left()) / (pixel_size as int),
            sprite.size.y == (texture.bottom() - texture.top()) / (pixel_size as int),
            sprite.texture == texture,
            sprite.color == (RGBA8 { r: 255, g: 255, b: 255, a: 255 }),
            sprite.rotation == 0,
    {
        Sprite {
            pos: Vector3Bits { x: 0, y: 0, z: 0 },
            size: texture.size(pixel_size),
            texture,
            color: RGBA8::new_raw(255, 255, 255, 255),
            rotation: 0,
        }
    }

    /// Creates a new sprite. This does not perform conversions and represents
    /// exactly the members of the sprite type.
    pub fn new_raw(
        pos: Vector3Bits,
        size: Vector2U16,
        texture: Texture,
        color: RGBA8,
        rotation: u16,
    ) -> (sprite: Sprite)
        ensures
            sprite == (Sprite { pos, size, texture, color, rotation }),
    {
        Sprite { pos, size, texture, color, rotation }
    }
}

} // verus!
