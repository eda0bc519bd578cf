use diorama::{
    background, nearest_hit, ray_outcome, shade, shadow_factor, shadow_probe_count, Color, Cube,
    Hit, Material, Point, RayOutcome, POS_ONE, SHADOW_FACTOR, UV_ONE,
};

fn p(x: i64, y: i64, z: i64) -> Point {
    Point { x: x * POS_ONE, y: y * POS_ONE, z: z * POS_ONE }
}

fn flat(c: Color) -> Material {
    Material::new(c, 32, [1000, 100, 0, 0], 1000, false, None)
}

fn unit_cube(center: Point, c: Color) -> Cube {
    let m = flat(c);
    Cube::new(
        center,
        POS_ONE,
        [m.clone(), m.clone(), m.clone(), m.clone(), m.clone(), m],
    )
}

#[test]
fn face_center_hit_from_outside() {
    let cube = unit_cube(p(0, 0, 0), Color::new(1, 1, 1));
    let hit = cube.ray_intersect(p(5, 0, 0), p(-1, 0, 0)).unwrap();
    // 4.5 units: the offset 5 less half the edge.
    assert_eq!(hit.num * 2, 9 * hit.den);
    assert_eq!(hit.face, 0);
}

#[test]
fn face_center_hit_on_each_face() {
    let cube = unit_cube(p(1, 2, 3), Color::new(1, 1, 1));
    let cases = [
        (p(4, 2, 3), p(-1, 0, 0), 0),
        (p(-2, 2, 3), p(1, 0, 0), 1),
        (p(1, -1, 3), p(0, 1, 0), 2),
        (p(1, 5, 3), p(0, -1, 0), 3),
        (p(1, 2, 6), p(0, 0, -1), 4),
        (p(1, 2, 0), p(0, 0, 1), 5),
    ];
    for (origin, dir, face) in cases {
        let hit = cube.ray_intersect(origin, dir).unwrap();
        assert_eq!(hit.num * 2, 5 * hit.den);
        assert_eq!(hit.face, face);
    }
}

#[test]
fn parallel_ray_outside_misses() {
    let cube = unit_cube(p(0, 0, 0), Color::new(1, 1, 1));
    assert_eq!(cube.ray_intersect(p(0, 2, -5), p(0, 0, 1)), None);
    assert_eq!(cube.ray_intersect(p(-3, 0, 0), p(0, 1, 0)), None);
}

#[test]
fn cube_behind_origin_misses() {
    let cube = unit_cube(p(0, 0, 0), Color::new(1, 1, 1));
    assert_eq!(cube.ray_intersect(p(0, 0, -5), p(0, 0, -1)), None);
}

#[test]
fn oblique_ray_past_corner_misses() {
    let cube = unit_cube(p(0, 0, 0), Color::new(1, 1, 1));
    assert_eq!(cube.ray_intersect(p(0, 0, -5), p(1, 0, 1)), None);
}

#[test]
fn inside_ray_hits_exit_face() {
    let cube = unit_cube(p(0, 0, 0), Color::new(1, 1, 1));
    let hit = cube.ray_intersect(p(0, 0, 0), p(1, 0, 0)).unwrap();
    assert!(hit.num > 0);
    assert_eq!(hit.num * 2, hit.den);
    assert_eq!(hit.face, 0);
    let hit = cube.ray_intersect(p(0, 0, 0), p(0, -1, 0)).unwrap();
    assert_eq!(hit.face, 2);
}

#[test]
fn uv_at_face_center_is_half() {
    let cube = unit_cube(p(0, 0, 0), Color::new(1, 1, 1));
    let hit = cube.ray_intersect(p(0, 0, -5), p(0, 0, 1)).unwrap();
    assert_eq!(hit.face, 5);
    assert_eq!(cube.get_uv(p(0, 0, -5), p(0, 0, 1), hit), (UV_ONE / 2, UV_ONE / 2));
}

#[test]
fn uv_off_center_on_top_face() {
    let cube = unit_cube(p(0, 0, 0), Color::new(1, 1, 1));
    let origin = Point { x: POS_ONE / 4, y: 5 * POS_ONE, z: -POS_ONE / 4 };
    let dir = p(0, -1, 0);
    let hit = cube.ray_intersect(origin, dir).unwrap();
    assert_eq!(hit.face, 3);
    assert_eq!(cube.get_uv(origin, dir, hit), (3 * UV_ONE / 4, UV_ONE / 4));
}

#[test]
fn nearest_hit_ignores_list_order() {
    let near = unit_cube(p(0, 0, 3), Color::new(255, 0, 0));
    let far = unit_cube(p(0, 0, 6), Color::new(0, 0, 255));
    let origin = p(0, 0, -5);
    let dir = p(0, 0, 1);
    let front_first = vec![near.clone(), far.clone()];
    let back_first = vec![far, near];
    let (i, h) = nearest_hit(&front_first, origin, dir).unwrap();
    assert_eq!(i, 0);
    assert_eq!(h.num * 2, 15 * h.den);
    let (i, h) = nearest_hit(&back_first, origin, dir).unwrap();
    assert_eq!(i, 1);
    assert_eq!(back_first[i].materials[h.face].diffuse, Color::new(255, 0, 0));
}

#[test]
fn nearest_hit_tie_goes_to_first() {
    let a = unit_cube(p(0, 0, 3), Color::new(1, 0, 0));
    let b = unit_cube(p(0, 0, 3), Color::new(2, 0, 0));
    let (i, _) = nearest_hit(&vec![a, b], p(0, 0, -5), p(0, 0, 1)).unwrap();
    assert_eq!(i, 0);
}

#[test]
fn nothing_hit_gives_background() {
    assert_eq!(background(), Color::new(4, 12, 36));
    let cubes = vec![unit_cube(p(0, 0, 3), Color::new(1, 0, 0))];
    assert_eq!(
        ray_outcome(0, &cubes, p(0, 0, -5), p(0, 1, 0)),
        RayOutcome::Done(Color::new(4, 12, 36))
    );
    assert_eq!(
        ray_outcome(0, &Vec::new(), p(0, 0, -5), p(0, 0, 1)),
        RayOutcome::Done(Color::new(4, 12, 36))
    );
}

#[test]
fn past_depth_cap_is_black() {
    let cubes = vec![unit_cube(p(0, 0, 3), Color::new(1, 0, 0))];
    assert_eq!(
        ray_outcome(2, &cubes, p(0, 0, -5), p(0, 0, 1)),
        RayOutcome::Done(Color::new(0, 0, 0))
    );
    match ray_outcome(1, &cubes, p(0, 0, -5), p(0, 0, 1)) {
        RayOutcome::Shade(0, Hit { face: 5, .. }) => {}
        other => panic!("unexpected outcome {:?}", other),
    }
}

#[test]
fn occluder_between_point_and_light_shadows() {
    let to_light = p(0, 10, 0);
    let occluder = vec![unit_cube(p(0, 5, 0), Color::new(1, 1, 1))];
    assert_eq!(shadow_factor(&occluder, p(0, 0, 0), to_light), SHADOW_FACTOR);
    assert_eq!(SHADOW_FACTOR, 800);
    assert_eq!(shadow_factor(&Vec::new(), p(0, 0, 0), to_light), 0);
}

#[test]
fn occluder_beyond_light_casts_no_shadow() {
    let beyond = vec![unit_cube(p(0, 20, 0), Color::new(1, 1, 1))];
    assert_eq!(shadow_factor(&beyond, p(0, 0, 0), p(0, 10, 0)), 0);
}

#[test]
fn only_first_ten_cubes_cast_shadows() {
    let mut cubes: Vec<Cube> = (0..10).map(|i| unit_cube(p(50, 50, i), Color::new(1, 1, 1))).collect();
    cubes.push(unit_cube(p(0, 5, 0), Color::new(1, 1, 1)));
    assert_eq!(shadow_probe_count(cubes.len()), 10);
    assert_eq!(shadow_probe_count(3), 3);
    assert_eq!(shadow_factor(&cubes, p(0, 0, 0), p(0, 10, 0)), 0);
    cubes.swap(0, 10);
    assert_eq!(shadow_factor(&cubes, p(0, 0, 0), p(0, 10, 0)), SHADOW_FACTOR);
}

#[test]
fn shadow_dims_shading_to_a_fifth() {
    let d = Color::new(200, 100, 50);
    let lit = shade(d, 65536, Color::new(0, 0, 0), 0, 0);
    let dark = shade(d, 65536, Color::new(0, 0, 0), 0, SHADOW_FACTOR);
    assert_eq!(lit, Color::new(200, 100, 50));
    assert_eq!(dark, Color::new(40, 20, 10));
}

#[test]
fn shade_adds_specular_with_saturation() {
    let c = shade(Color::new(200, 10, 0), 65536, Color::new(255, 255, 255), 32768, 0);
    assert_eq!(c, Color::new(255, 138, 128));
}
