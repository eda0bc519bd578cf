use vstd::prelude::*;
use crate::material::Material;
use crate::texture::UV_ONE;

verus! {

/// Fixed-point units per world unit for positions and directions.
pub const POS_ONE: i64 = 65536;

/// The largest magnitude of a coordinate, edge length or direction component.
pub const COORD_LIMIT: i64 = 0x100_0000_0000;

/// A point or direction in fixed-point world coordinates.
#[derive(Clone, Copy, Debug, PartialEq, Eq, Structural)]
pub struct Point {
    pub x: i64,
    pub y: i64,
    pub z: i64,
}

/// Where a ray meets a cube: at `num / den` times the direction vector from
/// the origin (`den > 0`), on face slot `face`.
#[derive(Clone, Copy, Debug, PartialEq, Eq, Structural)]
pub struct Hit {
    pub num: i128,
    pub den: i128,
    pub face: usize,
}

/// An axis-aligned cube with one material per face, in the face order
/// +X, -X, -Y, +Y, +Z, -Z.
#[derive(Clone, Debug)]
pub struct Cube {
    pub center: Point,
    pub size: i64,
    pub materials: [Material; 6],
}

/// Coordinate `k` (0, 1 or 2 for x, y, z) of a point.
pub open spec fn coord(p: Point, k: int) -> int {
    if k == 0 {
        p.x as int
    } else if k == 1 {
        p.y as int
    } else {
        p.z as int
    }
}

/// Each coordinate is within `COORD_LIMIT`.
pub open spec fn bounded(p: Point) -> bool {
    &&& -COORD_LIMIT <= p.x <= COORD_LIMIT
    &&& -COORD_LIMIT <= p.y <= COORD_LIMIT
    &&& -COORD_LIMIT <= p.z <= COORD_LIMIT
}

/// Twice the lower bound of the cube along axis `k`.
pub open spec fn slab_lo(center: Point, size: int, k: int) -> int {
    2 * coord(center, k) - size
}

/// Twice the upper bound of the cube along axis `k`.
pub open spec fn slab_hi(center: Point, size: int, k: int) -> int {
    2 * coord(center, k) + size
}

/// The common denominator of the two crossings of axis `k`.
pub open spec fn slab_den(d: Point, k: int) -> int {
    if coord(d, k) >= 0 {
        2 * coord(d, k)
    } else {
        -2 * coord(d, k)
    }
}

/// The numerator of the ray parameter at which the ray enters the slab of axis `k`.
pub open spec fn near_num(center: Point, size: int, o: Point, d: Point, k: int) -> int {
    if coord(d, k) > 0 {
        slab_lo(center, size, k) - 2 * coord(o, k)
    } else {
        2 * coord(o, k) - slab_hi(center, size, k)
    }
}

/// The numerator of the ray parameter at which the ray leaves the slab of axis `k`.
pub open spec fn far_num(center: Point, size: int, o: Point, d: Point, k: int) -> int {
    if coord(d, k) > 0 {
        slab_hi(center, size, k) - 2 * coord(o, k)
    } else {
        2 * coord(o, k) - slab_lo(center, size, k)
    }
}

/// A ray parallel to axis `k` runs inside that axis's slab.
pub open spec fn slab_open(center: Point, size: int, o: Point, d: Point, k: int) -> bool {
    coord(d, k) != 0 || slab_lo(center, size, k) <= 2 * coord(o, k) <= slab_hi(center, size, k)
}

/// The parts of a hit's ray parameter are within the range that cube
/// intersection produces.
pub open spec fn hit_bounded(h: Hit) -> bool {
    &&& -0x10_0000_0000_0000 <= h.num <= 0x10_0000_0000_0000
    &&& 0 < h.den <= 0x400_0000_0000
}

/// `a / b < c / e` for positive `b` and `e`.
pub open spec fn less(a: int, b: int, c: int, e: int) -> bool {
    a * e < c * b
}

/// The axis, among the first `n` that the ray is not parallel to, whose slab
/// it enters last; the earliest such axis on ties, -1 if there is none.
pub open spec fn entry_axis(center: Point, size: int, o: Point, d: Point, n: nat) -> int
    decreases n,
{
    if n == 0 {
        -1
    } else {
        let e = entry_axis(center, size, o, d, (n - 1) as nat);
        let k = n - 1;
        if coord(d, k) == 0 {
            e
        } else if e == -1 {
            k
        } else if less(
            near_num(center, size, o, d, e),
            slab_den(d, e),
            near_num(center, size, o, d, k),
            slab_den(d, k),
        ) {
            k
        } else {
            e
        }
    }
}

/// The axis, among the first `n` that the ray is not parallel to, whose slab
/// it leaves first; the earliest such axis on ties, -1 if there is none.
pub open spec fn exit_axis(center: Point, size: int, o: Point, d: Point, n: nat) -> int
    decreases n,
{
    if n == 0 {
        -1
    } else {
        let x = exit_axis(center, size, o, d, (n - 1) as nat);
        let k = n - 1;
        if coord(d, k) == 0 {
            x
        } else if x == -1 {
            k
        } else if less(
            far_num(center, size, o, d, k),
            slab_den(d, k),
            far_num(center, size, o, d, x),
            slab_den(d, x),
        ) {
            k
        } else {
            x
        }
    }
}

/// The face slot of the upper or lower face across axis `k`.
pub open spec fn face_slot(k: int, upper: bool) -> int {
    if k == 0 {
        if upper { 0 } else { 1 }
    } else if k == 1 {
        if upper { 3 } else { 2 }
    } else {
        if upper { 4 } else { 5 }
    }
}

/// Coordinate `k` of the outward unit normal of face slot `face`.
pub open spec fn face_normal(face: int, k: int) -> int {
    if face == 0 && k == 0 {
        1
    } else if face == 1 && k == 0 {
        -1
    } else if face == 2 && k == 1 {
        -1
    } else if face == 3 && k == 1 {
        1
    } else if face == 4 && k == 2 {
        1
    } else if face == 5 && k == 2 {
        -1
    } else {
        0
    }
}

/// Where the ray from `o` along `d` meets the cube, by the slab method:
/// the ray enters the cube where it has entered all three slabs and leaves
/// it where it leaves the first. No hit if it leaves before it enters, or
/// if the cube lies wholly behind the origin. A ray that starts outside
/// reports the entry, on the face across the axis entered last; one that
/// starts inside (or on the surface) reports the exit, on the face across
/// the axis left first.
pub open spec fn box_hit(center: Point, size: int, o: Point, d: Point) -> Option<Hit> {
    let e = entry_axis(center, size, o, d, 3);
    let x = exit_axis(center, size, o, d, 3);
    if e == -1 || !slab_open(center, size, o, d, 0) || !slab_open(center, size, o, d, 1)
        || !slab_open(center, size, o, d, 2) {
        None
    } else {
        let (en, ed) = (near_num(center, size, o, d, e), slab_den(d, e));
        let (xn, xd) = (far_num(center, size, o, d, x), slab_den(d, x));
        if less(xn, xd, en, ed) || xn <= 0 {
            None
        } else if en > 0 {
            Some(Hit { num: en as i128, den: ed as i128, face: face_slot(e, coord(d, e) < 0) as usize })
        } else {
            Some(Hit { num: xn as i128, den: xd as i128, face: face_slot(x, coord(d, x) > 0) as usize })
        }
    }
}

/// `p` moved by `delta` along axis `k`.
pub open spec fn shifted(p: Point, k: int, delta: int) -> Point {
    Point {
        x: if k == 0 { (p.x + delta) as i64 } else { p.x },
        y: if k == 1 { (p.y + delta) as i64 } else { p.y },
        z: if k == 2 { (p.z + delta) as i64 } else { p.z },
    }
}

/// The first `n` axes hold the entry and exit axes, which the ray is not
/// parallel to; there are none only if it is parallel to all of them.
proof fn lemma_axes(center: Point, size: int, o: Point, d: Point, n: nat)
    requires
        n <= 3,
    ensures
        -1 <= entry_axis(center, size, o, d, n) < n,
        -1 <= exit_axis(center, size, o, d, n) < n,
        entry_axis(center, size, o, d, n) != -1 ==> coord(d, entry_axis(center, size, o, d, n)) != 0,
        exit_axis(center, size, o, d, n) != -1 ==> coord(d, exit_axis(center, size, o, d, n)) != 0,
        entry_axis(center, size, o, d, n) == -1 <==> exit_axis(center, size, o, d, n) == -1,
        entry_axis(center, size, o, d, n) == -1 <==> forall|j: int| 0 <= j < n ==> coord(d, j) == 0,
    decreases n,
{
    if n > 0 {
        lemma_axes(center, size, o, d, (n - 1) as nat);
        if entry_axis(center, size, o, d, n) == -1 {
            assert forall|j: int| 0 <= j < n implies coord(d, j) == 0 by {
                if j < n - 1 {
                }
            }
        }
    }
}

/// The position of the hit point along axis `k` across the cube, from its
/// lower face (0) to its upper face (`UV_ONE`), rounded down and clamped:
/// the hit point is `o + d * num / den`.
pub open spec fn span_fraction(center: Point, size: int, o: Point, d: Point, h: Hit, k: int) -> int {
    let n = (2 * coord(o, k) - slab_lo(center, size, k)) * h.den + 2 * coord(d, k) * h.num;
    let q = 2 * size * h.den;
    if n <= 0 {
        0
    } else if n * UV_ONE / q > UV_ONE {
        UV_ONE as int
    } else {
        n * UV_ONE / q
    }
}

/// The texture coordinates of a hit, in units of `UV_ONE`: side faces take
/// `u` across the face and `v` downward, so that no face shows its texture
/// mirrored; the top and bottom faces take `u` along x and `v` along z.
pub open spec fn face_uv(center: Point, size: int, o: Point, d: Point, h: Hit) -> (int, int) {
    let fx = span_fraction(center, size, o, d, h, 0);
    let fy = span_fraction(center, size, o, d, h, 1);
    let fz = span_fraction(center, size, o, d, h, 2);
    let one = UV_ONE as int;
    if h.face == 0 {
        (one - fz, one - fy)
    } else if h.face == 1 {
        (fz, one - fy)
    } else if h.face == 2 {
        (fx, one - fz)
    } else if h.face == 3 {
        (fx, fz)
    } else if h.face == 4 {
        (one - fx, one - fy)
    } else {
        (fx, one - fy)
    }
}

fn span_fraction_exec(center: Point, size: i64, o: Point, d: Point, h: Hit, k: usize) -> (r: u32)
    requires
        k < 3,
        bounded(center),
        0 < size <= COORD_LIMIT,
        bounded(o),
        bounded(d),
        hit_bounded(h),
    ensures
        r == span_fraction(center, size as int, o, d, h, k as int),
        r <= UV_ONE,
{
    let ck: i128 = coord_of(center, k) as i128;
    let ok: i128 = coord_of(o, k) as i128;
    let dk: i128 = coord_of(d, k) as i128;
    let lo: i128 = 2 * ck - size as i128;
    let a: i128 = 2 * ok - lo;
    proof {
        lemma_cross_bound(a as int, h.den as int);
        assert(-0x2_0000_0000_0000_0000_0000_0000 <= 2 * dk * h.num <= 0x2_0000_0000_0000_0000_0000_0000)
            by (nonlinear_arith)
            requires
                -0x100_0000_0000 <= dk <= 0x100_0000_0000,
                -0x10_0000_0000_0000 <= h.num <= 0x10_0000_0000_0000,
        ;
        assert(0 < 2 * size * h.den <= 0x100_0000_0000_0000_0000_0000) by (nonlinear_arith)
            requires
                0 < size <= 0x100_0000_0000,
                0 < h.den <= 0x400_0000_0000,
        ;
    }
    let n: i128 = a * h.den + 2 * dk * h.num;
    let q: i128 = 2 * (size as i128) * h.den;
    if n <= 0 {
        return 0;
    }
    assert(n * 65536 <= 0x8_0000_0000_0000_0000_0000_0000_0000) by (nonlinear_arith)
        requires
            n <= 0x8_0000_0000_0000_0000_0000_0000,
    ;
    let f: i128 = n * (UV_ONE as i128) / q;
    if f > UV_ONE as i128 {
        UV_ONE
    } else {
        f as u32
    }
}

/// Cubes and rays within the coordinate limits give hits within `hit_bounded`.
pub proof fn lemma_hit_bounded(center: Point, size: int, o: Point, d: Point)
    requires
        bounded(center),
        0 < size <= COORD_LIMIT,
        bounded(o),
        bounded(d),
    ensures
        box_hit(center, size, o, d) matches Some(h) ==> hit_bounded(h),
{
    lemma_axes(center, size, o, d, 3);
}

/// A ray aimed perpendicularly at the centre of a face, from `offset` away
/// from the cube's centre along axis `k` on the `upper` side or the lower
/// one, outside the cube, hits that face at ray parameter
/// `(2 * offset - size) / (2 * speed)`: at distance `offset - size / 2` for a
/// direction of length `speed`. The face's outward normal points back along the ray.
pub proof fn lemma_face_center_hit(center: Point, size: int, k: int, upper: bool, offset: int, speed: int)
    requires
        0 <= k < 3,
        bounded(center),
        0 < size <= COORD_LIMIT,
        size < 2 * offset,
        offset <= COORD_LIMIT,
        0 < speed <= COORD_LIMIT,
        bounded(shifted(center, k, if upper { offset } else { -offset })),
    ensures
        ({
            let o = shifted(center, k, if upper { offset } else { -offset });
            let d = shifted(Point { x: 0, y: 0, z: 0 }, k, if upper { -speed } else { speed });
            box_hit(center, size, o, d) == Some(
                Hit {
                    num: (2 * offset - size) as i128,
                    den: (2 * speed) as i128,
                    face: face_slot(k, upper) as usize,
                },
            ) && face_normal(face_slot(k, upper), k) == (if upper { 1int } else { -1int })
        }),
{
    let o = shifted(center, k, if upper { offset } else { -offset });
    let d = shifted(Point { x: 0, y: 0, z: 0 }, k, if upper { -speed } else { speed });
    assert(entry_axis(center, size, o, d, 0) == -1);
    assert(exit_axis(center, size, o, d, 0) == -1);
    assert(entry_axis(center, size, o, d, 1) == if k == 0 { 0 } else { -1 });
    assert(entry_axis(center, size, o, d, 2) == if k <= 1 { k } else { -1 });
    assert(entry_axis(center, size, o, d, 3) == k);
    assert(exit_axis(center, size, o, d, 1) == if k == 0 { 0 } else { -1 });
    assert(exit_axis(center, size, o, d, 2) == if k <= 1 { k } else { -1 });
    assert(exit_axis(center, size, o, d, 3) == k);
    let en = near_num(center, size, o, d, k);
    let xn = far_num(center, size, o, d, k);
    let den = slab_den(d, k);
    assert(en == 2 * offset - size);
    assert(xn == 2 * offset + size);
    assert(den == 2 * speed);
    assert(!less(xn, den, en, den)) by (nonlinear_arith)
        requires
            en < xn,
            0 < den,
    ;
}

/// A ray parallel to axis `k` that runs outside the cube's extent along
/// that axis meets nothing.
pub proof fn lemma_parallel_miss(center: Point, size: int, o: Point, d: Point, k: int)
    requires
        0 <= k < 3,
        coord(d, k) == 0,
        2 * coord(o, k) < slab_lo(center, size, k) || 2 * coord(o, k) > slab_hi(center, size, k),
    ensures
        box_hit(center, size, o, d) is None,
{
}

/// A ray that starts strictly inside the cube, in any direction but none,
/// hits it at a positive distance, on the face where it leaves.
pub proof fn lemma_inside_exit(center: Point, size: int, o: Point, d: Point)
    requires
        bounded(center),
        0 < size <= COORD_LIMIT,
        bounded(o),
        bounded(d),
        forall|k: int| 0 <= k < 3 ==> slab_lo(center, size, k) < 2 * #[trigger] coord(o, k) < slab_hi(center, size, k),
        d != (Point { x: 0, y: 0, z: 0 }),
    ensures
        ({
            let x = exit_axis(center, size, o, d, 3);
            &&& 0 <= x < 3
            &&& box_hit(center, size, o, d) matches Some(h)
            &&& h.num > 0
            &&& h.num == far_num(center, size, o, d, x)
            &&& h.den == slab_den(d, x)
            &&& h.face == face_slot(x, coord(d, x) > 0)
        }),
{
    lemma_axes(center, size, o, d, 3);
    let e = entry_axis(center, size, o, d, 3);
    let x = exit_axis(center, size, o, d, 3);
    if e == -1 {
        assert(coord(d, 0) == 0 && coord(d, 1) == 0 && coord(d, 2) == 0);
        assert(false);
    }
    assert(slab_lo(center, size, e) < 2 * coord(o, e) < slab_hi(center, size, e));
    assert(slab_lo(center, size, x) < 2 * coord(o, x) < slab_hi(center, size, x));
    let (en, ed) = (near_num(center, size, o, d, e), slab_den(d, e));
    let (xn, xd) = (far_num(center, size, o, d, x), slab_den(d, x));
    assert(en < 0 && 0 < ed && 0 < xn && 0 < xd);
    assert(!less(xn, xd, en, ed)) by (nonlinear_arith)
        requires
            en < 0,
            0 < ed,
            0 < xn,
            0 < xd,
    ;
}

fn coord_of(p: Point, k: usize) -> (r: i64)
    requires
        k < 3,
    ensures
        r == coord(p, k as int),
{
    if k == 0 {
        p.x
    } else if k == 1 {
        p.y
    } else {
        p.z
    }
}

/// Products of the slab numerators and denominators fit in an `i128`.
proof fn lemma_cross_bound(a: int, e: int)
    requires
        -0x10_0000_0000_0000 <= a <= 0x10_0000_0000_0000,
        0 <= e <= 0x400_0000_0000,
    ensures
        -0x4000_0000_0000_0000_0000_0000 <= a * e <= 0x4000_0000_0000_0000_0000_0000,
{
    assert(-0x4000_0000_0000_0000_0000_0000 <= a * e <= 0x4000_0000_0000_0000_0000_0000)
        by (nonlinear_arith)
        requires
            -0x10_0000_0000_0000 <= a <= 0x10_0000_0000_0000,
            0 <= e <= 0x400_0000_0000,
    ;
}

/// `a / b < c / e`, computed exactly.
pub(crate) fn less_exec(a: i128, b: i128, c: i128, e: i128) -> (r: bool)
    requires
        -0x10_0000_0000_0000 <= a <= 0x10_0000_0000_0000,
        -0x10_0000_0000_0000 <= c <= 0x10_0000_0000_0000,
        0 <= b <= 0x400_0000_0000,
        0 <= e <= 0x400_0000_0000,
    ensures
        r == less(a as int, b as int, c as int, e as int),
{
    proof {
        lemma_cross_bound(a as int, e as int);
        lemma_cross_bound(c as int, b as int);
    }
    a * e < c * b
}

impl Cube {
    /// The cube has a positive edge and lies within the coordinate limits.
    pub open spec fn wf(&self) -> bool {
        &&& bounded(self.center)
        &&& 0 < self.size <= COORD_LIMIT
    }

    pub fn new(center: Point, size: i64, materials: [Material; 6]) -> (c: Cube)
        ensures
            c.center == center,
            c.size == size,
            c.materials == materials,
    {
        Cube { center, size, materials }
    }

    /// Where the ray from `origin` along `direction` meets the cube, if it does.
    pub fn ray_intersect(&self, origin: Point, direction: Point) -> (r: Option<Hit>)
        requires
            self.wf(),
            bounded(origin),
            bounded(direction),
        ensures
            r == box_hit(self.center, self.size as int, origin, direction),
            r matches Some(h) ==> hit_bounded(h),
    {
        let ghost (c, s, o, d) = (self.center, self.size as int, origin, direction);
        let mut e: i64 = -1;
        let mut x: i64 = -1;
        let mut e_num: i128 = 0;
        let mut e_den: i128 = 0;
        let mut x_num: i128 = 0;
        let mut x_den: i128 = 0;
        let mut k: usize = 0;
        while k < 3
            invariant
                k <= 3,
                c == self.center,
                s == self.size,
                o == origin,
                d == direction,
                bounded(c),
                0 < s <= COORD_LIMIT,
                bounded(o),
                bounded(d),
                e == entry_axis(c, s, o, d, k as nat),
                x == exit_axis(c, s, o, d, k as nat),
                e == -1 <==> x == -1,
                -1 <= e < k,
                -1 <= x < k,
                e != -1 ==> e_num == near_num(c, s, o, d, e as int) && e_den == slab_den(d, e as int),
                x != -1 ==> x_num == far_num(c, s, o, d, x as int) && x_den == slab_den(d, x as int),
                e != -1 ==> 0 < e_den,
                x != -1 ==> 0 < x_den,
                -0x10_0000_0000_0000 <= e_num <= 0x10_0000_0000_0000,
                -0x10_0000_0000_0000 <= x_num <= 0x10_0000_0000_0000,
                0 <= e_den <= 0x400_0000_0000,
                0 <= x_den <= 0x400_0000_0000,
                forall|j: int| 0 <= j < k ==> #[trigger] slab_open(c, s, o, d, j),
            decreases 3 - k,
        {
            let ck: i128 = coord_of(self.center, k) as i128;
            let ok: i128 = coord_of(origin, k) as i128;
            let dk: i128 = coord_of(direction, k) as i128;
            let lo: i128 = 2 * ck - self.size as i128;
            let hi: i128 = 2 * ck + self.size as i128;
            if dk == 0 {
                if 2 * ok < lo || 2 * ok > hi {
                    return None;
                }
            } else {
                let den: i128 = if dk > 0 {
                    2 * dk
                } else {
                    0 - 2 * dk
                };
                let near: i128 = if dk > 0 {
                    lo - 2 * ok
                } else {
                    2 * ok - hi
                };
                let far: i128 = if dk > 0 {
                    hi - 2 * ok
                } else {
                    2 * ok - lo
                };
                if e == -1 || less_exec(e_num, e_den, near, den) {
                    e = k as i64;
                    e_num = near;
                    e_den = den;
                }
                if x == -1 || less_exec(far, den, x_num, x_den) {
                    x = k as i64;
                    x_num = far;
                    x_den = den;
                }
            }
            k = k + 1;
        }
        if e == -1 || less_exec(x_num, x_den, e_num, e_den) || x_num <= 0 {
            return None;
        }
        if e_num > 0 {
            let upper: bool = coord_of(direction, e as usize) < 0;
            Some(Hit { num: e_num, den: e_den, face: face_index(e as usize, upper) })
        } else {
            let upper: bool = coord_of(direction, x as usize) > 0;
            Some(Hit { num: x_num, den: x_den, face: face_index(x as usize, upper) })
        }
    }

    /// The texture coordinates, in units of `UV_ONE`, of a hit of the ray
    /// from `origin` along `direction` on this cube.
    pub fn get_uv(&self, origin: Point, direction: Point, hit: Hit) -> (r: (u32, u32))
        requires
            self.wf(),
            bounded(origin),
            bounded(direction),
            hit_bounded(hit),
        ensures
            (r.0 as int, r.1 as int) == face_uv(self.center, self.size as int, origin, direction, hit),
    {
        let fx: u32 = span_fraction_exec(self.center, self.size, origin, direction, hit, 0);
        let fy: u32 = span_fraction_exec(self.center, self.size, origin, direction, hit, 1);
        let fz: u32 = span_fraction_exec(self.center, self.size, origin, direction, hit, 2);
        if hit.face == 0 {
            (UV_ONE - fz, UV_ONE - fy)
        } else if hit.face == 1 {
            (fz, UV_ONE - fy)
        } else if hit.face == 2 {
            (fx, UV_ONE - fz)
        } else if hit.face == 3 {
            (fx, fz)
        } else if hit.face == 4 {
            (UV_ONE - fx, UV_ONE - fy)
        } else {
            (fx, UV_ONE - fy)
        }
    }
}

/// The outward unit normal of face slot `face`.
pub fn outward_normal(face: usize) -> (n: Point)
    requires
        face < 6,
    ensures
        forall|k: int| 0 <= k < 3 ==> #[trigger] coord(n, k) == face_normal(face as int, k),
{
    if face == 0 {
        Point { x: 1, y: 0, z: 0 }
    } else if face == 1 {
        Point { x: -1, y: 0, z: 0 }
    } else if face == 2 {
        Point { x: 0, y: -1, z: 0 }
    } else if face == 3 {
        Point { x: 0, y: 1, z: 0 }
    } else if face == 4 {
        Point { x: 0, y: 0, z: 1 }
    } else {
        Point { x: 0, y: 0, z: -1 }
    }
}

fn face_index(k: usize, upper: bool) -> (r: usize)
    requires
        k < 3,
    ensures
        r == face_slot(k as int, upper),
        r < 6,
{
    if k == 0 {
        if upper { 0 } else { 1 }
    } else if k == 1 {
        if upper { 3 } else { 2 }
    } else {
        if upper { 4 } else { 5 }
    }
}

} // verus!
