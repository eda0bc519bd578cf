use vstd::prelude::*;
use vstd::arithmetic::div_mod::{
    lemma_fundamental_div_mod,
    lemma_fundamental_div_mod_converse,
    lemma_div_multiples_vanish,
};
use crate::color::{Color, packed, unpacked, lemma_pack};

verus! {

/// A row-major grid of packed 24-bit pixels.
pub struct Framebuffer {
    pub width: usize,
    pub height: usize,
    pub buffer: Vec<u32>,
}

/// The index of row `y`, column `x` in a row-major grid `w` wide.
pub open spec fn cell(x: int, y: int, w: int) -> int {
    y * w + x
}

/// The source pixel that nearest-neighbour scaling from `lw`×`lh` to
/// `hw`×`hh` shows at destination `(x, y)`.
pub open spec fn nearest_at(low: Seq<u32>, lw: int, lh: int, hw: int, hh: int, x: int, y: int) -> u32 {
    low[cell(x * lw / hw, y * lh / hh, lw)]
}

/// Nearest-neighbour scaling of a `lw`×`lh` grid to `hw`×`hh`.
pub open spec fn upscaled_nearest(low: Seq<u32>, lw: int, lh: int, hw: int, hh: int) -> Seq<u32> {
    Seq::new((hw * hh) as nat, |i: int| nearest_at(low, lw, lh, hw, hh, i % hw, i / hw))
}

/// The weighted mean of four channel values, truncated: `wx / nw` is the weight
/// of the second column and `wy / nh` that of the second row.
pub open spec fn blend(c11: int, c12: int, c21: int, c22: int, wx: int, wy: int, nw: int, nh: int) -> int {
    (c11 * (nw - wx) * (nh - wy) + c12 * wx * (nh - wy) + c21 * (nw - wx) * wy + c22 * wx * wy) / (nw * nh)
}

/// The four pixels blended channel by channel.
pub open spec fn blend_pixels(c11: u32, c12: u32, c21: u32, c22: u32, wx: int, wy: int, nw: int, nh: int) -> Color {
    let (p, q, s, t) = (unpacked(c11), unpacked(c12), unpacked(c21), unpacked(c22));
    Color {
        r: blend(p.r as int, q.r as int, s.r as int, t.r as int, wx, wy, nw, nh) as u8,
        g: blend(p.g as int, q.g as int, s.g as int, t.g as int, wx, wy, nw, nh) as u8,
        b: blend(p.b as int, q.b as int, s.b as int, t.b as int, wx, wy, nw, nh) as u8,
    }
}

/// The neighbour after `i` along an axis of `n` cells, kept inside it.
pub open spec fn next_index(i: int, n: int) -> int {
    if i + 1 < n {
        i + 1
    } else {
        n - 1
    }
}

/// The pixel that bilinear scaling from `w`×`h` to `nw`×`nh` gives at
/// destination `(x, y)`: the source position is `(x * w / nw, y * h / nh)`,
/// its integer part picks four neighbours and its fraction weighs them.
pub open spec fn bilinear_at(src: Seq<u32>, w: int, h: int, nw: int, nh: int, x: int, y: int) -> u32 {
    let (x1, wx) = (x * w / nw, x * w % nw);
    let (y1, wy) = (y * h / nh, y * h % nh);
    let (x2, y2) = (next_index(x1, w), next_index(y1, h));
    packed(
        blend_pixels(
            src[cell(x1, y1, w)],
            src[cell(x2, y1, w)],
            src[cell(x1, y2, w)],
            src[cell(x2, y2, w)],
            wx,
            wy,
            nw,
            nh,
        ),
    ) as u32
}

/// Bilinear scaling of a `w`×`h` grid to `nw`×`nh`.
pub open spec fn upscaled_bilinear(src: Seq<u32>, w: int, h: int, nw: int, nh: int) -> Seq<u32> {
    Seq::new((nw * nh) as nat, |i: int| bilinear_at(src, w, h, nw, nh, i % nw, i / nw))
}

proof fn lemma_cell_bound(x: int, y: int, w: int, h: int)
    requires
        0 <= x < w,
        0 <= y < h,
    ensures
        0 <= cell(x, y, w) < w * h,
{
    assert(0 <= y * w + x < w * h) by (nonlinear_arith)
        requires
            0 <= x < w,
            0 <= y < h,
    ;
}

/// Cell `k` of a grid `w` wide lies in column `k % w` of row `k / w`.
proof fn lemma_cell_split(k: int, x: int, y: int, w: int)
    requires
        k == cell(x, y, w),
        0 <= x < w,
    ensures
        k % w == x,
        k / w == y,
{
    lemma_fundamental_div_mod_converse(k, w, y, x);
}

/// Scaling a coordinate below `nd` by `ns / nd` stays below `ns`.
proof fn lemma_scaled_index(x: int, nd: int, ns: int)
    requires
        0 <= x < nd,
        0 < ns,
    ensures
        0 <= x * ns / nd < ns,
        0 <= x * ns % nd < nd,
{
    let p = x * ns;
    assert(0 <= p) by (nonlinear_arith)
        requires
            0 <= x,
            0 < ns,
            p == x * ns,
    ;
    lemma_fundamental_div_mod(p, nd);
    let q = p / nd;
    let r = p % nd;
    assert(0 <= q < ns) by (nonlinear_arith)
        requires
            p == nd * q + r,
            0 <= r < nd,
            0 <= x < nd,
            0 < ns,
            p == x * ns,
    ;
}

/// The product of a value below `a` and one at most `b` fits below `a * b`.
proof fn lemma_mul_below(y: int, a: int, b: int)
    requires
        0 <= y < a,
        0 <= b,
    ensures
        0 <= y * b <= a * b,
{
    assert(0 <= y * b <= a * b) by (nonlinear_arith)
        requires
            0 <= y < a,
            0 <= b,
    ;
}

/// Nearest-neighbour scaling of `low`, a `low_width`×`low_height` grid, to
/// `high_width`×`high_height`: destination `(x, y)` shows source
/// `(x * low_width / high_width, y * low_height / high_height)`.
pub fn upscale_framebuffer(
    low_res_buffer: &[u32],
    low_width: usize,
    low_height: usize,
    high_width: usize,
    high_height: usize,
) -> (r: Vec<u32>)
    requires
        low_res_buffer@.len() == low_width * low_height,
        low_width * low_height <= usize::MAX,
        high_width * high_height <= usize::MAX,
        high_width * low_width <= usize::MAX,
        high_height * low_height <= usize::MAX,
        high_width > 0 && high_height > 0 ==> low_width > 0 && low_height > 0,
    ensures
        r@ == upscaled_nearest(
            low_res_buffer@,
            low_width as int,
            low_height as int,
            high_width as int,
            high_height as int,
        ),
{
    let ghost spec_r = upscaled_nearest(
        low_res_buffer@,
        low_width as int,
        low_height as int,
        high_width as int,
        high_height as int,
    );
    let mut out: Vec<u32> = Vec::new();
    let mut y: usize = 0;
    while y < high_height
        invariant
            y <= high_height,
            low_res_buffer@.len() == low_width * low_height,
            low_width * low_height <= usize::MAX,
            high_width * high_height <= usize::MAX,
            high_width * low_width <= usize::MAX,
            high_height * low_height <= usize::MAX,
            high_width > 0 && high_height > 0 ==> low_width > 0 && low_height > 0,
            spec_r.len() == high_width * high_height,
            spec_r == upscaled_nearest(
                low_res_buffer@,
                low_width as int,
                low_height as int,
                high_width as int,
                high_height as int,
            ),
            out@.len() == y * high_width,
            forall|k: int| 0 <= k < out@.len() ==> out@[k] == #[trigger] spec_r[k],
        decreases high_height - y,
    {
        proof {
            lemma_mul_below(y as int, high_height as int, low_height as int);
        }
        let src_y: usize = y * low_height / high_height;
        let mut x: usize = 0;
        while x < high_width
            invariant
                y < high_height,
                x <= high_width,
                low_res_buffer@.len() == low_width * low_height,
                low_width * low_height <= usize::MAX,
                high_width * high_height <= usize::MAX,
                high_width * low_width <= usize::MAX,
                high_width > 0 && high_height > 0 ==> low_width > 0 && low_height > 0,
                src_y == (y * low_height) as int / (high_height as int),
                spec_r.len() == high_width * high_height,
                spec_r == upscaled_nearest(
                    low_res_buffer@,
                    low_width as int,
                    low_height as int,
                    high_width as int,
                    high_height as int,
                ),
                out@.len() == y * high_width + x,
                forall|k: int| 0 <= k < out@.len() ==> out@[k] == #[trigger] spec_r[k],
            decreases high_width - x,
        {
            proof {
                lemma_mul_below(x as int, high_width as int, low_width as int);
                lemma_scaled_index(x as int, high_width as int, low_width as int);
                lemma_scaled_index(y as int, high_height as int, low_height as int);
            }
            let src_x: usize = x * low_width / high_width;
            proof {
                lemma_cell_bound(src_x as int, src_y as int, low_width as int, low_height as int);
                lemma_cell_bound(x as int, y as int, high_width as int, high_height as int);
                lemma_cell_split(out@.len() as int, x as int, y as int, high_width as int);
            }
            let src_index: usize = src_y * low_width + src_x;
            assert(spec_r[out@.len() as int] == low_res_buffer@[src_index as int]);
            out.push(low_res_buffer[src_index]);
            x = x + 1;
        }
        proof {
            assert((y + 1) * high_width == y * high_width + high_width) by (nonlinear_arith);
        }
        y = y + 1;
    }
    assert(high_height * high_width == high_width * high_height) by (nonlinear_arith);
    assert(out@ =~= spec_r);
    out
}

/// The four weights of `blend` sum to the whole.
proof fn lemma_weights_sum(wx: int, wy: int, nw: int, nh: int)
    ensures
        (nw - wx) * (nh - wy) + wx * (nh - wy) + (nw - wx) * wy + wx * wy == nw * nh,
{
    assert((nw - wx) * (nh - wy) + wx * (nh - wy) + (nw - wx) * wy + wx * wy == nw * nh)
        by (nonlinear_arith);
}

/// One weighted term of `blend` lies between 0 and 255 times its weight.
proof fn lemma_term(c: int, p: int, q: int)
    requires
        0 <= c <= 255,
        0 <= p,
        0 <= q,
    ensures
        0 <= c * p <= 255 * p,
        c * p * q == c * (p * q),
        0 <= c * p * q <= 255 * (p * q),
        0 <= p * q,
{
    assert(0 <= c * p <= 255 * p) by (nonlinear_arith)
        requires
            0 <= c <= 255,
            0 <= p,
    ;
    assert(c * p * q == c * (p * q)) by (nonlinear_arith);
    assert(0 <= p * q) by (nonlinear_arith)
        requires
            0 <= p,
            0 <= q,
    ;
    assert(0 <= c * (p * q) <= 255 * (p * q)) by (nonlinear_arith)
        requires
            0 <= c <= 255,
            0 <= p * q,
    ;
}

/// A blend of channel values is a channel value.
proof fn lemma_blend_range(c11: int, c12: int, c21: int, c22: int, wx: int, wy: int, nw: int, nh: int)
    requires
        0 <= c11 <= 255,
        0 <= c12 <= 255,
        0 <= c21 <= 255,
        0 <= c22 <= 255,
        0 <= wx < nw,
        0 <= wy < nh,
    ensures
        0 <= blend(c11, c12, c21, c22, wx, wy, nw, nh) <= 255,
        0 < nw * nh,
        c11 * (nw - wx) * (nh - wy) + c12 * wx * (nh - wy) + c21 * (nw - wx) * wy + c22 * wx * wy
            <= 255 * (nw * nh),
{
    lemma_term(c11, nw - wx, nh - wy);
    lemma_term(c12, wx, nh - wy);
    lemma_term(c21, nw - wx, wy);
    lemma_term(c22, wx, wy);
    lemma_weights_sum(wx, wy, nw, nh);
    assert(0 < nw * nh) by (nonlinear_arith)
        requires
            0 < nw,
            0 < nh,
    ;
    let sum = c11 * (nw - wx) * (nh - wy) + c12 * wx * (nh - wy) + c21 * (nw - wx) * wy + c22 * wx
        * wy;
    let d = nw * nh;
    assert(0 <= sum <= 255 * d);
    lemma_fundamental_div_mod(sum, d);
    assert(0 <= sum / d <= 255) by (nonlinear_arith)
        requires
            0 <= sum <= 255 * d,
            0 < d,
            sum == d * (sum / d) + sum % d,
            0 <= sum % d < d,
    ;
}

/// Blending four equal values gives that value back.
proof fn lemma_blend_uniform(c: int, wx: int, wy: int, nw: int, nh: int)
    requires
        0 <= wx < nw,
        0 <= wy < nh,
    ensures
        blend(c, c, c, c, wx, wy, nw, nh) == c,
{
    lemma_weights_sum(wx, wy, nw, nh);
    let (w1, w2, w3, w4) = ((nw - wx) * (nh - wy), wx * (nh - wy), (nw - wx) * wy, wx * wy);
    assert(c * (nw - wx) * (nh - wy) == c * w1) by (nonlinear_arith)
        requires
            w1 == (nw - wx) * (nh - wy),
    ;
    assert(c * wx * (nh - wy) == c * w2) by (nonlinear_arith)
        requires
            w2 == wx * (nh - wy),
    ;
    assert(c * (nw - wx) * wy == c * w3) by (nonlinear_arith)
        requires
            w3 == (nw - wx) * wy,
    ;
    assert(c * wx * wy == c * w4) by (nonlinear_arith)
        requires
            w4 == wx * wy,
    ;
    assert(c * w1 + c * w2 + c * w3 + c * w4 == (w1 + w2 + w3 + w4) * c) by (nonlinear_arith);
    assert(0 < nw * nh) by (nonlinear_arith)
        requires
            0 < nw,
            0 < nh,
    ;
    lemma_div_multiples_vanish(c, nw * nh);
}

/// A byte of a packed pixel read by shift and mask.
proof fn lemma_channel_bits(p: u32)
    ensures
        (p >> 16u32) & 0xffu32 == (p / 65536) % 256,
        (p >> 8u32) & 0xffu32 == (p / 256) % 256,
        p & 0xffu32 == p % 256,
{
    assert((p >> 16u32) & 0xffu32 == (p / 65536) % 256) by (bit_vector);
    assert((p >> 8u32) & 0xffu32 == (p / 256) % 256) by (bit_vector);
    assert(p & 0xffu32 == p % 256) by (bit_vector);
}

fn blend_channel(
    c11: u32,
    c12: u32,
    c21: u32,
    c22: u32,
    wx: usize,
    wy: usize,
    nw: usize,
    nh: usize,
) -> (r: u32)
    requires
        c11 < 256,
        c12 < 256,
        c21 < 256,
        c22 < 256,
        wx < nw,
        wy < nh,
        nw * nh <= usize::MAX,
    ensures
        r == blend(c11 as int, c12 as int, c21 as int, c22 as int, wx as int, wy as int, nw as int, nh as int),
{
    proof {
        lemma_blend_range(c11 as int, c12 as int, c21 as int, c22 as int, wx as int, wy as int, nw as int, nh as int);
        lemma_term(c11 as int, (nw - wx) as int, (nh - wy) as int);
        lemma_term(c12 as int, wx as int, (nh - wy) as int);
        lemma_term(c21 as int, (nw - wx) as int, wy as int);
        lemma_term(c22 as int, wx as int, wy as int);
        lemma_mul_below((nw - wx) as int, (nw + 1) as int, 255);
    }
    let a: u128 = (nw - wx) as u128;
    let b: u128 = (nh - wy) as u128;
    let x: u128 = wx as u128;
    let y: u128 = wy as u128;
    let t11: u128 = c11 as u128 * a * b;
    let t12: u128 = c12 as u128 * x * b;
    let t21: u128 = c21 as u128 * a * y;
    let t22: u128 = c22 as u128 * x * y;
    let den: u128 = nw as u128 * nh as u128;
    ((t11 + t12 + t21 + t22) / den) as u32
}

/// Nearest-neighbour scaling to the size that a grid already has gives the
/// grid back unchanged.
pub proof fn lemma_upscale_nearest_same_size(buf: Seq<u32>, w: int, h: int)
    requires
        0 <= w,
        0 <= h,
        buf.len() == w * h,
    ensures
        upscaled_nearest(buf, w, h, w, h) == buf,
{
    let r = upscaled_nearest(buf, w, h, w, h);
    assert forall|i: int| 0 <= i < buf.len() implies r[i] == buf[i] by {
        assert(0 < w && 0 < h) by (nonlinear_arith)
            requires
                0 <= i < w * h,
                0 <= w,
                0 <= h,
        ;
        lemma_fundamental_div_mod(i, w);
        let (x, y) = (i % w, i / w);
        assert(0 <= y < h) by (nonlinear_arith)
            requires
                i == w * y + x,
                0 <= x < w,
                0 <= i < w * h,
        ;
        assert(x * w == w * x) by (nonlinear_arith);
        assert(y * h == h * y) by (nonlinear_arith);
        lemma_div_multiples_vanish(x, w);
        lemma_div_multiples_vanish(y, h);
        assert(cell(x, y, w) == i) by (nonlinear_arith)
            requires
                i == w * y + x,
        ;
    }
    assert(r =~= buf);
}

/// A packed 24-bit pixel is the packing of its channels.
proof fn lemma_unpack_pack(p: u32)
    requires
        p < 0x100_0000,
    ensures
        packed(unpacked(p)) == p,
{
    assert(((p / 65536) % 256) * 65536 + ((p / 256) % 256) * 256 + p % 256 == p) by (bit_vector)
        requires
            p < 0x100_0000,
    ;
}

/// Bilinear scaling of a grid whose pixels all hold one 24-bit colour gives
/// that colour at every destination pixel, whatever the two sizes.
pub proof fn lemma_upscale_bilinear_uniform(src: Seq<u32>, w: int, h: int, nw: int, nh: int, p: u32)
    requires
        0 <= w,
        0 <= h,
        0 <= nw,
        0 <= nh,
        nw > 0 && nh > 0 ==> w > 0 && h > 0,
        src.len() == w * h,
        p < 0x100_0000,
        forall|k: int| 0 <= k < src.len() ==> src[k] == p,
    ensures
        upscaled_bilinear(src, w, h, nw, nh) == Seq::new((nw * nh) as nat, |i: int| p),
{
    let r = upscaled_bilinear(src, w, h, nw, nh);
    assert forall|i: int| 0 <= i < nw * nh implies r[i] == p by {
        assert(0 < nw && 0 < nh) by (nonlinear_arith)
            requires
                0 <= i < nw * nh,
                0 <= nw,
                0 <= nh,
        ;
        lemma_fundamental_div_mod(i, nw);
        let (x, y) = (i % nw, i / nw);
        assert(0 <= y < nh) by (nonlinear_arith)
            requires
                i == nw * y + x,
                0 <= x < nw,
                0 <= i < nw * nh,
        ;
        lemma_scaled_index(x, nw, w);
        lemma_scaled_index(y, nh, h);
        let (x1, wx) = (x * w / nw, x * w % nw);
        let (y1, wy) = (y * h / nh, y * h % nh);
        let (x2, y2) = (next_index(x1, w), next_index(y1, h));
        lemma_cell_bound(x1, y1, w, h);
        lemma_cell_bound(x2, y1, w, h);
        lemma_cell_bound(x1, y2, w, h);
        lemma_cell_bound(x2, y2, w, h);
        let c = unpacked(p);
        lemma_blend_uniform(c.r as int, wx, wy, nw, nh);
        lemma_blend_uniform(c.g as int, wx, wy, nw, nh);
        lemma_blend_uniform(c.b as int, wx, wy, nw, nh);
        assert(blend_pixels(p, p, p, p, wx, wy, nw, nh) == c);
        lemma_unpack_pack(p);
    }
    assert(r =~= Seq::new((nw * nh) as nat, |i: int| p));
}

impl Framebuffer {
    /// The grid holds one pixel per cell.
    pub open spec fn wf(&self) -> bool {
        &&& self.buffer@.len() == self.width * self.height
        &&& self.width * self.height <= usize::MAX
    }

    /// A black framebuffer of the given size.
    pub fn new(width: usize, height: usize) -> (fb: Framebuffer)
        requires
            width * height <= usize::MAX,
        ensures
            fb.wf(),
            fb.width == width,
            fb.height == height,
            fb.buffer@ == Seq::new((width * height) as nat, |i: int| 0u32),
    {
        let n: usize = width * height;
        let mut buffer: Vec<u32> = Vec::new();
        while buffer.len() < n
            invariant
                buffer@.len() <= n,
                forall|k: int| 0 <= k < buffer@.len() ==> buffer@[k] == 0u32,
            decreases n - buffer@.len(),
        {
            buffer.push(0);
        }
        assert(buffer@ =~= Seq::new((width * height) as nat, |i: int| 0u32));
        Framebuffer { width, height, buffer }
    }

    /// The pixels, row by row.
    pub fn get_buffer(&self) -> (b: &[u32])
        ensures
            b@ == self.buffer@,
    {
        self.buffer.as_slice()
    }

    /// Bilinear scaling to `new_width`×`new_height`: each destination pixel
    /// blends the four source pixels around its source position
    /// `(x * width / new_width, y * height / new_height)`, weighted by the
    /// fractional part of that position.
    pub fn upscale_bilineal(&self, new_width: usize, new_height: usize) -> (r: Framebuffer)
        requires
            self.wf(),
            new_width * new_height <= usize::MAX,
            new_width * self.width <= usize::MAX,
            new_height * self.height <= usize::MAX,
            new_width > 0 && new_height > 0 ==> self.width > 0 && self.height > 0,
        ensures
            r.wf(),
            r.width == new_width,
            r.height == new_height,
            r.buffer@ == upscaled_bilinear(
                self.buffer@,
                self.width as int,
                self.height as int,
                new_width as int,
                new_height as int,
            ),
    {
        let w: usize = self.width;
        let h: usize = self.height;
        let ghost src = self.buffer@;
        let ghost spec_r = upscaled_bilinear(src, w as int, h as int, new_width as int, new_height as int);
        let mut out: Vec<u32> = Vec::new();
        let mut y: usize = 0;
        while y < new_height
            invariant
                y <= new_height,
                src == self.buffer@,
                src.len() == w * h,
                w * h <= usize::MAX,
                w == self.width,
                h == self.height,
                new_width * new_height <= usize::MAX,
                new_width * w <= usize::MAX,
                new_height * h <= usize::MAX,
                new_width > 0 && new_height > 0 ==> w > 0 && h > 0,
                spec_r == upscaled_bilinear(src, w as int, h as int, new_width as int, new_height as int),
                spec_r.len() == new_width * new_height,
                out@.len() == y * new_width,
                forall|k: int| 0 <= k < out@.len() ==> out@[k] == #[trigger] spec_r[k],
            decreases new_height - y,
        {
            if new_width > 0 {
                proof {
                    lemma_mul_below(y as int, new_height as int, h as int);
                    lemma_scaled_index(y as int, new_height as int, h as int);
                }
                let src_y: usize = y * h;
                let y1: usize = src_y / new_height;
                let weight_y: usize = src_y % new_height;
                let y2: usize = if y1 + 1 < h {
                    y1 + 1
                } else {
                    h - 1
                };
                let mut x: usize = 0;
                while x < new_width
                    invariant
                        y < new_height,
                        x <= new_width,
                        src == self.buffer@,
                        src.len() == w * h,
                        w * h <= usize::MAX,
                        w == self.width,
                        h == self.height,
                        new_width * new_height <= usize::MAX,
                        new_width * w <= usize::MAX,
                        w > 0 && h > 0,
                        y1 == (y * h) as int / (new_height as int),
                        weight_y == (y * h) as int % (new_height as int),
                        y1 < h,
                        weight_y < new_height,
                        y2 == next_index(y1 as int, h as int),
                        spec_r == upscaled_bilinear(src, w as int, h as int, new_width as int, new_height as int),
                        spec_r.len() == new_width * new_height,
                        out@.len() == y * new_width + x,
                        forall|k: int| 0 <= k < out@.len() ==> out@[k] == #[trigger] spec_r[k],
                    decreases new_width - x,
                {
                    proof {
                        lemma_mul_below(x as int, new_width as int, w as int);
                        lemma_scaled_index(x as int, new_width as int, w as int);
                    }
                    let src_x: usize = x * w;
                    let x1: usize = src_x / new_width;
                    let weight_x: usize = src_x % new_width;
                    let x2: usize = if x1 + 1 < w {
                        x1 + 1
                    } else {
                        w - 1
                    };
                    proof {
                        lemma_cell_bound(x1 as int, y1 as int, w as int, h as int);
                        lemma_cell_bound(x2 as int, y1 as int, w as int, h as int);
                        lemma_cell_bound(x1 as int, y2 as int, w as int, h as int);
                        lemma_cell_bound(x2 as int, y2 as int, w as int, h as int);
                        lemma_cell_bound(x as int, y as int, new_width as int, new_height as int);
                        lemma_cell_split(out@.len() as int, x as int, y as int, new_width as int);
                    }
                    let c11: u32 = self.buffer[y1 * w + x1];
                    let c12: u32 = self.buffer[y1 * w + x2];
                    let c21: u32 = self.buffer[y2 * w + x1];
                    let c22: u32 = self.buffer[y2 * w + x2];
                    let color: u32 = Self::bilinear_interpolation(
                        c11,
                        c12,
                        c21,
                        c22,
                        weight_x,
                        weight_y,
                        new_width,
                        new_height,
                    );
                    assert(spec_r[out@.len() as int] == color);
                    out.push(color);
                    x = x + 1;
                }
            }
            proof {
                assert((y + 1) * new_width == y * new_width + new_width) by (nonlinear_arith);
            }
            y = y + 1;
        }
        assert(new_height * new_width == new_width * new_height) by (nonlinear_arith);
        assert(out@ =~= spec_r);
        Framebuffer { width: new_width, height: new_height, buffer: out }
    }

    /// Blends four packed pixels channel by channel, `weight_x / new_width`
    /// toward the second column and `weight_y / new_height` toward the second row.
    fn bilinear_interpolation(
        c11: u32,
        c12: u32,
        c21: u32,
        c22: u32,
        weight_x: usize,
        weight_y: usize,
        new_width: usize,
        new_height: usize,
    ) -> (r: u32)
        requires
            weight_x < new_width,
            weight_y < new_height,
            new_width * new_height <= usize::MAX,
        ensures
            r == packed(
                blend_pixels(c11, c12, c21, c22, weight_x as int, weight_y as int, new_width as int, new_height as int),
            ),
    {
        proof {
            lemma_channel_bits(c11);
            lemma_channel_bits(c12);
            lemma_channel_bits(c21);
            lemma_channel_bits(c22);
        }
        let r11: u32 = (c11 >> 16) & 0xFF;
        let g11: u32 = (c11 >> 8) & 0xFF;
        let b11: u32 = c11 & 0xFF;
        let r12: u32 = (c12 >> 16) & 0xFF;
        let g12: u32 = (c12 >> 8) & 0xFF;
        let b12: u32 = c12 & 0xFF;
        let r21: u32 = (c21 >> 16) & 0xFF;
        let g21: u32 = (c21 >> 8) & 0xFF;
        let b21: u32 = c21 & 0xFF;
        let r22: u32 = (c22 >> 16) & 0xFF;
        let g22: u32 = (c22 >> 8) & 0xFF;
        let b22: u32 = c22 & 0xFF;
        let r: u32 = blend_channel(r11, r12, r21, r22, weight_x, weight_y, new_width, new_height);
        let g: u32 = blend_channel(g11, g12, g21, g22, weight_x, weight_y, new_width, new_height);
        let b: u32 = blend_channel(b11, b12, b21, b22, weight_x, weight_y, new_width, new_height);
        proof {
            lemma_blend_range(r11 as int, r12 as int, r21 as int, r22 as int, weight_x as int, weight_y as int, new_width as int, new_height as int);
            lemma_blend_range(g11 as int, g12 as int, g21 as int, g22 as int, weight_x as int, weight_y as int, new_width as int, new_height as int);
            lemma_blend_range(b11 as int, b12 as int, b21 as int, b22 as int, weight_x as int, weight_y as int, new_width as int, new_height as int);
            lemma_pack(r, g, b);
        }
        (r << 16) | (g << 8) | b
    }
}

} // verus!
