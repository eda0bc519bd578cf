use vstd::prelude::*;

verus! {

/// The unit of a scale factor: a factor `f` stands for the ratio `f / SCALE_ONE`.
pub const SCALE_ONE: u32 = 65536;

/// An RGB colour with one byte per channel.
#[derive(Clone, Copy, Debug, PartialEq, Eq, Structural)]
pub struct Color {
    pub r: u8,
    pub g: u8,
    pub b: u8,
}

/// `x` cut down to the largest channel value.
pub open spec fn saturate(x: int) -> int {
    if x > 255 {
        255
    } else {
        x
    }
}

/// A channel multiplied by `factor / SCALE_ONE`, rounded to the nearest
/// integer (halves upward) and saturated.
pub open spec fn scaled_channel(c: int, factor: int) -> int {
    saturate((c * factor + SCALE_ONE / 2) / (SCALE_ONE as int))
}

/// The 24-bit packing `R << 16 | G << 8 | B` of a colour.
pub open spec fn packed(c: Color) -> int {
    c.r * 65536 + c.g * 256 + c.b
}

/// The colour that a packed 24-bit pixel holds.
pub open spec fn unpacked(p: u32) -> Color {
    Color { r: ((p / 65536) % 256) as u8, g: ((p / 256) % 256) as u8, b: (p % 256) as u8 }
}

pub(crate) proof fn lemma_pack(r: u32, g: u32, b: u32)
    requires
        r < 256,
        g < 256,
        b < 256,
    ensures
        (r << 16u32) | (g << 8u32) | b == r * 65536 + g * 256 + b,
{
    assert((r << 16u32) | (g << 8u32) | b == r * 65536 + g * 256 + b) by (bit_vector)
        requires
            r < 256,
            g < 256,
            b < 256,
    ;
}

fn scale_channel(c: u8, factor: u32) -> (r: u8)
    ensures
        r == scaled_channel(c as int, factor as int),
{
    assert((c as int) * (factor as int) <= 255 * 0xffff_ffff) by (nonlinear_arith)
        requires
            c < 256,
            factor <= 0xffff_ffff,
    ;
    let prod: u64 = (c as u64) * (factor as u64);
    let wide: u64 = prod + (SCALE_ONE as u64) / 2;
    let q: u64 = wide / (SCALE_ONE as u64);
    if q > 255 {
        255
    } else {
        q as u8
    }
}

fn add_channel(a: u8, b: u8) -> (r: u8)
    ensures
        r == saturate(a + b),
{
    let s: u16 = a as u16 + b as u16;
    if s > 255 {
        255
    } else {
        s as u8
    }
}

impl Color {
    pub fn new(r: u8, g: u8, b: u8) -> (c: Color)
        ensures
            c == (Color { r, g, b }),
    {
        Color { r, g, b }
    }

    pub fn r(&self) -> (v: u8)
        ensures
            v == self.r,
    {
        self.r
    }

    pub fn g(&self) -> (v: u8)
        ensures
            v == self.g,
    {
        self.g
    }

    pub fn b(&self) -> (v: u8)
        ensures
            v == self.b,
    {
        self.b
    }

    /// Multiplies each channel by `factor / SCALE_ONE`, rounding to the nearest
    /// value and saturating at 255.
    pub fn scale(&self, factor: u32) -> (c: Color)
        ensures
            c.r == scaled_channel(self.r as int, factor as int),
            c.g == scaled_channel(self.g as int, factor as int),
            c.b == scaled_channel(self.b as int, factor as int),
    {
        Color {
            r: scale_channel(self.r, factor),
            g: scale_channel(self.g, factor),
            b: scale_channel(self.b, factor),
        }
    }

    /// Channel-wise sum, saturating at 255.
    pub fn add(self, other: Color) -> (c: Color)
        ensures
            c.r == saturate(self.r + other.r),
            c.g == saturate(self.g + other.g),
            c.b == saturate(self.b + other.b),
    {
        Color {
            r: add_channel(self.r, other.r),
            g: add_channel(self.g, other.g),
            b: add_channel(self.b, other.b),
        }
    }

    /// The 24-bit packing `R << 16 | G << 8 | B`.
    pub fn to_u32(&self) -> (v: u32)
        ensures
            v == packed(*self),
            unpacked(v) == *self,
    {
        let r: u32 = self.r as u32;
        let g: u32 = self.g as u32;
        let b: u32 = self.b as u32;
        proof {
            lemma_pack(r, g, b);
        }
        let v: u32 = (r << 16) | (g << 8) | b;
        assert(unpacked(v) == *self);
        v
    }
}

} // verus!
