use diorama::{Color, Material, Texture, UV_ONE, WEIGHT_ONE};

fn two_by_two() -> Texture {
    let rgba: Vec<u8> = vec![
        1, 2, 3, 255, 4, 5, 6, 255, //
        7, 8, 9, 0, 10, 11, 12, 128,
    ];
    Texture::from_rgba(2, 2, &rgba)
}

#[test]
fn from_rgba_drops_alpha() {
    let t = two_by_two();
    assert_eq!((t.width(), t.height()), (2, 2));
    assert_eq!(t.get_pixel(0, 0), Color::new(1, 2, 3));
    assert_eq!(t.get_pixel(1, 0), Color::new(4, 5, 6));
    assert_eq!(t.get_pixel(0, 1), Color::new(7, 8, 9));
    assert_eq!(t.get_pixel(1, 1), Color::new(10, 11, 12));
}

#[test]
fn get_pixel_reads_row_major_cell() {
    let t = two_by_two();
    assert_eq!(t.get_pixel(2, 0), Color::new(7, 8, 9));
}

#[test]
fn get_color_corners() {
    let t = two_by_two();
    assert_eq!(t.get_color(0, 0), Color::new(1, 2, 3));
    assert_eq!(t.get_color(UV_ONE, 0), Color::new(4, 5, 6));
    assert_eq!(t.get_color(0, UV_ONE), Color::new(7, 8, 9));
    assert_eq!(t.get_color(UV_ONE, UV_ONE), Color::new(10, 11, 12));
}

#[test]
fn get_color_rounds_down() {
    let t = two_by_two();
    assert_eq!(t.get_color(UV_ONE - 1, UV_ONE - 1), Color::new(1, 2, 3));
}

#[test]
fn get_color_clamps_above_one() {
    let t = two_by_two();
    assert_eq!(t.get_color(3 * UV_ONE, u32::MAX), Color::new(10, 11, 12));
}

#[test]
fn get_color_middle_of_three() {
    let rgba: Vec<u8> = vec![0, 0, 0, 0, 50, 50, 50, 0, 99, 99, 99, 0];
    let t = Texture::from_rgba(3, 1, &rgba);
    assert_eq!(t.get_color(UV_ONE / 2, UV_ONE / 2), Color::new(50, 50, 50));
}

#[test]
fn material_black_defaults() {
    let m = Material::black();
    assert_eq!(m.diffuse, Color::new(0, 0, 0));
    assert_eq!(m.albedo, [0, 0, 0, 0]);
    assert_eq!(m.refractive_index, WEIGHT_ONE);
    assert!(!m.has_texture);
    assert!(m.texture.is_none());
}

#[test]
fn material_flat_color_ignores_uv() {
    let m = Material::new(Color::new(9, 8, 7), 32, [900, 100, 0, 0], 1000, false, None);
    assert_eq!(m.get_diffuse_color(UV_ONE, 0), Color::new(9, 8, 7));
}

#[test]
fn material_textured_samples_texture() {
    let m = Material::new(Color::new(255, 255, 255), 32, [1000, 100, 0, 0], 1000, true, Some(two_by_two()));
    assert_eq!(m.get_diffuse_color(UV_ONE, UV_ONE), Color::new(10, 11, 12));
    assert_eq!(m.get_diffuse_color(0, 0), Color::new(1, 2, 3));
}
