use vstd::prelude::*;
use vstd::arithmetic::div_mod::lemma_div_is_ordered;
use crate::color::{Color, SCALE_ONE, saturate, scaled_channel};
use crate::material::WEIGHT_ONE;
use crate::cube::{Cube, Hit, Point, box_hit, bounded, hit_bounded, less, less_exec, lemma_hit_bounded};

verus! {

/// Rays deeper than this are not traced.
pub const MAX_DEPTH: u32 = 1;

/// How many primitives, from the front of the list, a shadow ray is tested against.
pub const SHADOW_PROBES: usize = 10;

/// The share of the light that an occluder takes, in units of `WEIGHT_ONE`.
pub const SHADOW_FACTOR: u32 = 800;

/// What tracing one ray comes to.
#[derive(Clone, Copy, Debug, PartialEq, Eq, Structural)]
pub enum RayOutcome {
    /// The ray ends with this colour and no shading.
    Done(Color),
    /// The ray is shaded at this hit on the cube with this index.
    Shade(usize, Hit),
}

/// The sky colour that a ray meets when it hits nothing.
pub open spec fn background_color() -> Color {
    Color { r: 4, g: 12, b: 36 }
}

/// Where the ray meets cube `c`.
pub open spec fn hit_of(c: Cube, o: Point, d: Point) -> Option<Hit> {
    box_hit(c.center, c.size as int, o, d)
}

/// Hit `a` lies strictly nearer along the ray than hit `b`.
pub open spec fn closer(a: Hit, b: Hit) -> bool {
    less(a.num as int, a.den as int, b.num as int, b.den as int)
}

/// Every cube is well formed.
pub open spec fn scene_wf(cubes: Seq<Cube>) -> bool {
    forall|i: int| 0 <= i < cubes.len() ==> (#[trigger] cubes[i]).wf()
}

/// The ray meets no cube.
pub open spec fn no_hit(cubes: Seq<Cube>, o: Point, d: Point) -> bool {
    forall|j: int| 0 <= j < cubes.len() ==> hit_of(#[trigger] cubes[j], o, d) is None
}

/// `h`, on cube `i`, is the nearest hit of the ray: no cube is hit nearer,
/// and every earlier cube that is hit is hit farther.
pub open spec fn is_nearest(cubes: Seq<Cube>, o: Point, d: Point, i: int, h: Hit) -> bool {
    &&& 0 <= i < cubes.len()
    &&& hit_of(cubes[i], o, d) == Some(h)
    &&& forall|j: int| 0 <= j < cubes.len() ==> (hit_of(#[trigger] cubes[j], o, d) matches Some(g) ==> !closer(g, h))
    &&& forall|j: int| 0 <= j < i ==> (hit_of(#[trigger] cubes[j], o, d) matches Some(g) ==> closer(h, g))
}

/// The number of cubes that a shadow ray is tested against.
pub open spec fn probe_count(n: int) -> int {
    if n < SHADOW_PROBES {
        n
    } else {
        SHADOW_PROBES as int
    }
}

/// Cube `c` stands between `o` and the light at `o + to_light`.
pub open spec fn blocks(c: Cube, o: Point, to_light: Point) -> bool {
    hit_of(c, o, to_light) matches Some(h) && h.num < h.den
}

/// One of the probed cubes stands between `o` and the light.
pub open spec fn occluded(cubes: Seq<Cube>, o: Point, to_light: Point) -> bool {
    exists|i: int| 0 <= i < probe_count(cubes.len() as int) && blocks(#[trigger] cubes[i], o, to_light)
}

/// The shadow factor at `o`, in units of `WEIGHT_ONE`.
pub open spec fn shadow_of(cubes: Seq<Cube>, o: Point, to_light: Point) -> int {
    if occluded(cubes, o, to_light) {
        SHADOW_FACTOR as int
    } else {
        0
    }
}

/// A light weight with the shadowed share taken out.
pub open spec fn lit_weight(weight: int, shadow: int) -> int {
    weight * (WEIGHT_ONE - shadow) / (WEIGHT_ONE as int)
}

/// A channel of a shaded colour: the diffuse colour and the light's colour,
/// each scaled by its weight with the shadowed share taken out, added with
/// saturation.
pub open spec fn shaded_channel(diffuse: int, diffuse_weight: int, light: int, specular_weight: int, shadow: int) -> int {
    saturate(
        scaled_channel(diffuse, lit_weight(diffuse_weight, shadow))
            + scaled_channel(light, lit_weight(specular_weight, shadow)),
    )
}

/// The sky colour.
pub fn background() -> (c: Color)
    ensures
        c == background_color(),
{
    Color::new(4, 12, 36)
}

/// The cube that the ray from `origin` along `direction` meets first, by a
/// scan of the whole list, and where; the earliest cube in the list wins a tie.
#[verifier::rlimit(40)]
pub fn nearest_hit(cubes: &Vec<Cube>, origin: Point, direction: Point) -> (r: Option<(usize, Hit)>)
    requires
        scene_wf(cubes@),
        bounded(origin),
        bounded(direction),
    ensures
        r is None <==> no_hit(cubes@, origin, direction),
        r matches Some((i, h)) ==> is_nearest(cubes@, origin, direction, i as int, h),
{
    let mut best: Option<(usize, Hit)> = None;
    let mut i: usize = 0;
    while i < cubes.len()
        invariant
            i <= cubes@.len(),
            scene_wf(cubes@),
            bounded(origin),
            bounded(direction),
            best is None <==> forall|j: int| 0 <= j < i ==> hit_of(#[trigger] cubes@[j], origin, direction) is None,
            best matches Some((b, h)) ==> {
                &&& b < i
                &&& hit_of(cubes@[b as int], origin, direction) == Some(h)
                &&& hit_bounded(h)
                &&& forall|j: int| 0 <= j < i ==> (hit_of(#[trigger] cubes@[j], origin, direction) matches Some(g) ==> !closer(g, h))
                &&& forall|j: int| 0 <= j < b ==> (hit_of(#[trigger] cubes@[j], origin, direction) matches Some(g) ==> closer(h, g))
            },
        decreases cubes@.len() - i,
    {
        assert(cubes@[i as int].wf());
        if let Some(g) = cubes[i].ray_intersect(origin, direction) {
            let take: bool = match best {
                None => true,
                Some((_, h)) => less_exec(g.num, g.den, h.num, h.den),
            };
            if take {
                proof {
                    if let Some((b, h)) = best {
                        assert forall|j: int| 0 <= j < i + 1 implies (hit_of(#[trigger] cubes@[j], origin, direction) matches Some(f) ==> !closer(f, g)) by {
                            if let Some(f) = hit_of(cubes@[j], origin, direction) {
                                lemma_hit_bounded(cubes@[j].center, cubes@[j].size as int, origin, direction);
                                if j < i {
                                    lemma_less_trans(f, g, h);
                                }
                            }
                        }
                        assert forall|j: int| 0 <= j < i implies (hit_of(#[trigger] cubes@[j], origin, direction) matches Some(f) ==> closer(g, f)) by {
                            if let Some(f) = hit_of(cubes@[j], origin, direction) {
                                lemma_hit_bounded(cubes@[j].center, cubes@[j].size as int, origin, direction);
                                lemma_less_not(g, h, f);
                            }
                        }
                    }
                }
                best = Some((i, g));
            }
        }
        i = i + 1;
    }
    best
}

/// If `a` is nearer than `b` and `b` is not nearer than `c`, then `a` is nearer than `c`.
proof fn lemma_less_not(a: Hit, b: Hit, c: Hit)
    requires
        hit_bounded(a),
        hit_bounded(b),
        hit_bounded(c),
        closer(a, b),
        !closer(c, b),
    ensures
        closer(a, c),
{
    let (an, ad, bn, bd, cn, cd) = (a.num as int, a.den as int, b.num as int, b.den as int, c.num as int, c.den as int);
    assert(an * cd < cn * ad) by (nonlinear_arith)
        requires
            an * bd < bn * ad,
            bn * cd <= cn * bd,
            0 < ad,
            0 < bd,
            0 < cd,
    ;
}

/// If `f` is not nearer than `h` and `g` is nearer than `h`, `f` is not nearer than `g`.
proof fn lemma_less_trans(f: Hit, g: Hit, h: Hit)
    requires
        hit_bounded(f),
        hit_bounded(g),
        hit_bounded(h),
        !closer(f, h),
        closer(g, h),
    ensures
        !closer(f, g),
{
    let (fn_, fd, gn, gd, hn, hd) = (f.num as int, f.den as int, g.num as int, g.den as int, h.num as int, h.den as int);
    assert(!(fn_ * gd < gn * fd)) by (nonlinear_arith)
        requires
            hn * fd <= fn_ * hd,
            gn * hd < hn * gd,
            0 < fd,
            0 < gd,
            0 < hd,
    ;
}

/// The number of cubes, from the front of a list of `n`, that a shadow ray
/// is tested against.
pub fn shadow_probe_count(n: usize) -> (r: usize)
    ensures
        r == probe_count(n as int),
{
    if n < SHADOW_PROBES {
        n
    } else {
        SHADOW_PROBES
    }
}

/// The shadow factor, in units of `WEIGHT_ONE`, at `origin` for the light at
/// `origin + to_light`: `SHADOW_FACTOR` if one of the first `SHADOW_PROBES`
/// cubes in list order is hit before the light is reached, else none.
pub fn shadow_factor(cubes: &Vec<Cube>, origin: Point, to_light: Point) -> (r: u32)
    requires
        scene_wf(cubes@),
        bounded(origin),
        bounded(to_light),
    ensures
        r == shadow_of(cubes@, origin, to_light),
{
    let n: usize = shadow_probe_count(cubes.len());
    let mut i: usize = 0;
    while i < n
        invariant
            i <= n,
            n == probe_count(cubes@.len() as int),
            n <= cubes@.len(),
            scene_wf(cubes@),
            bounded(origin),
            bounded(to_light),
            forall|j: int| 0 <= j < i ==> !blocks(#[trigger] cubes@[j], origin, to_light),
        decreases n - i,
    {
        assert(cubes@[i as int].wf());
        if let Some(h) = cubes[i].ray_intersect(origin, to_light) {
            if h.num < h.den {
                assert(blocks(cubes@[i as int], origin, to_light));
                return SHADOW_FACTOR;
            }
        }
        i = i + 1;
    }
    0
}

/// What a ray at recursion depth `depth` comes to: black past the depth
/// cap, the sky colour when it meets no cube, else shading at its nearest hit.
pub fn ray_outcome(depth: u32, cubes: &Vec<Cube>, origin: Point, direction: Point) -> (r: RayOutcome)
    requires
        scene_wf(cubes@),
        bounded(origin),
        bounded(direction),
    ensures
        depth > MAX_DEPTH ==> r == RayOutcome::Done(Color { r: 0, g: 0, b: 0 }),
        depth <= MAX_DEPTH && no_hit(cubes@, origin, direction) ==> r == RayOutcome::Done(background_color()),
        depth <= MAX_DEPTH && !no_hit(cubes@, origin, direction) ==> (r matches RayOutcome::Shade(i, h)
            && is_nearest(cubes@, origin, direction, i as int, h)),
{
    if depth > MAX_DEPTH {
        return RayOutcome::Done(Color::new(0, 0, 0));
    }
    match nearest_hit(cubes, origin, direction) {
        None => RayOutcome::Done(background()),
        Some((i, h)) => RayOutcome::Shade(i, h),
    }
}

/// Of two cubes that a ray meets, the one met nearer is the nearest hit
/// whichever of the two comes first in the scene list.
pub proof fn lemma_nearest_either_order(a: Cube, b: Cube, o: Point, d: Point, ha: Hit, hb: Hit)
    requires
        hit_of(a, o, d) == Some(ha),
        hit_of(b, o, d) == Some(hb),
        closer(ha, hb),
    ensures
        forall|i: int, h: Hit| is_nearest(seq![a, b], o, d, i, h) ==> i == 0 && h == ha,
        forall|i: int, h: Hit| is_nearest(seq![b, a], o, d, i, h) ==> i == 1 && h == ha,
{
    assert forall|i: int, h: Hit| is_nearest(seq![a, b], o, d, i, h) implies i == 0 && h == ha by {
        if i == 1 {
            assert(seq![a, b][0] == a);
            assert(false);
        }
    }
    assert forall|i: int, h: Hit| is_nearest(seq![b, a], o, d, i, h) implies i == 1 && h == ha by {
        if i == 0 {
            assert(seq![b, a][1] == a);
            assert(false);
        }
    }
}

/// A cube among the probed ones that stands between a point and the light
/// sets the shadow factor at that point to exactly `SHADOW_FACTOR`.
pub proof fn lemma_occluder_shadows(cubes: Seq<Cube>, o: Point, to_light: Point, i: int)
    requires
        0 <= i < probe_count(cubes.len() as int),
        blocks(cubes[i], o, to_light),
    ensures
        shadow_of(cubes, o, to_light) == SHADOW_FACTOR,
{
    assert(occluded(cubes, o, to_light));
}

/// The shadow leaves a fifth of each light weight, and a shadowed colour is
/// nowhere brighter than the same colour unshadowed.
pub proof fn lemma_shadow_dims(diffuse: Color, diffuse_weight: int, light: Color, specular_weight: int)
    requires
        0 <= diffuse_weight,
        0 <= specular_weight,
    ensures
        lit_weight(diffuse_weight, SHADOW_FACTOR as int) == diffuse_weight / 5,
        lit_weight(specular_weight, SHADOW_FACTOR as int) == specular_weight / 5,
        lit_weight(diffuse_weight, 0) == diffuse_weight,
        shaded_channel(diffuse.r as int, diffuse_weight, light.r as int, specular_weight, SHADOW_FACTOR as int)
            <= shaded_channel(diffuse.r as int, diffuse_weight, light.r as int, specular_weight, 0),
        shaded_channel(diffuse.g as int, diffuse_weight, light.g as int, specular_weight, SHADOW_FACTOR as int)
            <= shaded_channel(diffuse.g as int, diffuse_weight, light.g as int, specular_weight, 0),
        shaded_channel(diffuse.b as int, diffuse_weight, light.b as int, specular_weight, SHADOW_FACTOR as int)
            <= shaded_channel(diffuse.b as int, diffuse_weight, light.b as int, specular_weight, 0),
{
    lemma_scaled_monotone(diffuse.r as int, diffuse_weight / 5, diffuse_weight);
    lemma_scaled_monotone(diffuse.g as int, diffuse_weight / 5, diffuse_weight);
    lemma_scaled_monotone(diffuse.b as int, diffuse_weight / 5, diffuse_weight);
    lemma_scaled_monotone(light.r as int, specular_weight / 5, specular_weight);
    lemma_scaled_monotone(light.g as int, specular_weight / 5, specular_weight);
    lemma_scaled_monotone(light.b as int, specular_weight / 5, specular_weight);
}

/// A larger factor scales a channel to no less.
proof fn lemma_scaled_monotone(c: int, f1: int, f2: int)
    requires
        0 <= c,
        0 <= f1 <= f2,
    ensures
        scaled_channel(c, f1) <= scaled_channel(c, f2),
{
    assert(c * f1 <= c * f2) by (nonlinear_arith)
        requires
            0 <= c,
            f1 <= f2,
    ;
    lemma_div_is_ordered(c * f1 + SCALE_ONE / 2, c * f2 + SCALE_ONE / 2, SCALE_ONE as int);
}

fn lit(weight: u32, shadow: u32) -> (r: u32)
    requires
        shadow <= WEIGHT_ONE,
    ensures
        r == lit_weight(weight as int, shadow as int),
        r <= weight,
{
    let share: u64 = (WEIGHT_ONE - shadow) as u64;
    assert((weight as int) * share <= (weight as int) * 1000) by (nonlinear_arith)
        requires
            share <= 1000,
    ;
    let p: u64 = (weight as u64) * share;
    assert(p / 1000 <= weight) by (nonlinear_arith)
        requires
            p <= (weight as int) * 1000,
    ;
    (p / (WEIGHT_ONE as u64)) as u32
}

/// Shades a hit: the diffuse colour scaled by `diffuse_weight` plus the
/// light's colour scaled by `specular_weight`, both weights (in units of
/// `SCALE_ONE`) reduced by the shadow factor `shadow` (in units of
/// `WEIGHT_ONE`), added with saturation.
pub fn shade(diffuse: Color, diffuse_weight: u32, light: Color, specular_weight: u32, shadow: u32) -> (c: Color)
    requires
        shadow <= WEIGHT_ONE,
    ensures
        c.r == shaded_channel(diffuse.r as int, diffuse_weight as int, light.r as int, specular_weight as int, shadow as int),
        c.g == shaded_channel(diffuse.g as int, diffuse_weight as int, light.g as int, specular_weight as int, shadow as int),
        c.b == shaded_channel(diffuse.b as int, diffuse_weight as int, light.b as int, specular_weight as int, shadow as int),
{
    let d: Color = diffuse.scale(lit(diffuse_weight, shadow));
    let s: Color = light.scale(lit(specular_weight, shadow));
    d.add(s)
}

} // verus!
