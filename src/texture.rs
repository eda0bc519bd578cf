use vstd::prelude::*;
use crate::color::Color;

verus! {

/// The unit of a texture coordinate: `u` stands for `u / UV_ONE`, and
/// coordinates above `UV_ONE` are read as `UV_ONE`.
pub const UV_ONE: u32 = 65536;

/// A decoded image: a row-major grid of colours.
#[derive(Clone, Debug, PartialEq)]
pub struct Texture {
    pub data: Vec<Color>,
    pub width: usize,
    pub height: usize,
}

/// The texel index that coordinate `u` selects along an axis of `n` texels:
/// `floor(u * (n - 1))`, with `u` clamped to one.
pub open spec fn texel(u: int, n: int) -> int {
    let c = if u > UV_ONE { UV_ONE as int } else { u };
    c * (n - 1) / (UV_ONE as int)
}

/// The colour of four RGBA bytes, the alpha byte dropped.
pub open spec fn rgba_color(bytes: Seq<u8>, i: int) -> Color {
    Color { r: bytes[4 * i], g: bytes[4 * i + 1], b: bytes[4 * i + 2] }
}

fn texel_index(u: u32, n: usize) -> (r: usize)
    requires
        n > 0,
    ensures
        r == texel(u as int, n as int),
        r < n,
{
    let c: u32 = if u > UV_ONE {
        UV_ONE
    } else {
        u
    };
    assert((c as int) * (n - 1) <= (UV_ONE as int) * (usize::MAX as int)) by (nonlinear_arith)
        requires
            c <= UV_ONE,
            0 <= n - 1 <= usize::MAX,
    ;
    let p: u128 = (c as u128) * ((n - 1) as u128);
    assert(p <= (UV_ONE as int) * (n - 1)) by (nonlinear_arith)
        requires
            p == c * (n - 1),
            c <= UV_ONE,
            n > 0,
    ;
    assert(p / (UV_ONE as u128) <= n - 1) by (nonlinear_arith)
        requires
            p <= (UV_ONE as int) * (n - 1),
            n > 0,
    ;
    (p / (UV_ONE as u128)) as usize
}

impl Texture {
    /// The grid holds one colour per cell.
    pub open spec fn wf(&self) -> bool {
        &&& self.data@.len() == self.width * self.height
        &&& self.width * self.height <= usize::MAX
    }

    /// The colour that coordinates `(u, v)` select: nearest-lower texel,
    /// no filtering, coordinates clamped to one.
    pub open spec fn color_at(&self, u: int, v: int) -> Color {
        self.data@[texel(v, self.height as int) * self.width + texel(u, self.width as int)]
    }

    /// A texture from decoded RGBA bytes, four per pixel, row by row; the
    /// alpha byte is dropped.
    pub fn from_rgba(width: usize, height: usize, rgba: &Vec<u8>) -> (t: Texture)
        requires
            rgba@.len() == 4 * (width * height),
            4 * (width * height) <= usize::MAX,
        ensures
            t.wf(),
            t.width == width,
            t.height == height,
            forall|i: int| 0 <= i < width * height ==> #[trigger] t.data@[i] == rgba_color(rgba@, i),
    {
        let n: usize = width * height;
        let mut data: Vec<Color> = Vec::new();
        let mut i: usize = 0;
        while i < n
            invariant
                i <= n,
                n == width * height,
                rgba@.len() == 4 * n,
                4 * n <= usize::MAX,
                data@.len() == i,
                forall|k: int| 0 <= k < i ==> #[trigger] data@[k] == rgba_color(rgba@, k),
            decreases n - i,
        {
            let base: usize = 4 * i;
            data.push(Color::new(rgba[base], rgba[base + 1], rgba[base + 2]));
            i = i + 1;
        }
        Texture { data, width, height }
    }

    pub fn width(&self) -> (w: usize)
        ensures
            w == self.width,
    {
        self.width
    }

    pub fn height(&self) -> (h: usize)
        ensures
            h == self.height,
    {
        self.height
    }

    /// The colour in row `y`, column `x`, read as the row-major cell `y * width + x`.
    pub fn get_pixel(&self, x: usize, y: usize) -> (c: Color)
        requires
            self.wf(),
            y * self.width + x < self.data@.len(),
        ensures
            c == self.data@[y * self.width + x],
    {
        self.data[y * self.width + x]
    }

    /// The colour at texture coordinates `(u, v)`, in units of `UV_ONE`.
    pub fn get_color(&self, u: u32, v: u32) -> (c: Color)
        requires
            self.wf(),
            self.width > 0,
            self.height > 0,
        ensures
            c == self.color_at(u as int, v as int),
    {
        let x: usize = texel_index(u, self.width);
        let y: usize = texel_index(v, self.height);
        assert(0 <= y * self.width + x < self.width * self.height) by (nonlinear_arith)
            requires
                x < self.width,
                y < self.height,
        ;
        self.get_pixel(x, y)
    }
}

} // verus!
