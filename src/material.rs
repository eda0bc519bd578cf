use vstd::prelude::*;
use crate::color::Color;
use crate::texture::Texture;

verus! {

/// The unit of albedo weights and refractive indices: a value `a` stands for
/// `a / WEIGHT_ONE`.
pub const WEIGHT_ONE: u32 = 1000;

/// How a surface reflects light: a flat colour or a texture, a specular
/// exponent, the weights `[diffuse, specular, reflective, refractive]` and a
/// refractive index, the last two kinds in units of `WEIGHT_ONE`.
#[derive(Clone, Debug)]
pub struct Material {
    pub diffuse: Color,
    pub specular: u32,
    pub albedo: [u32; 4],
    pub refractive_index: u32,
    pub has_texture: bool,
    pub texture: Option<Texture>,
}

impl Material {
    /// A textured material holds a texture that can be sampled.
    pub open spec fn wf(&self) -> bool {
        self.has_texture ==> match self.texture {
            Some(t) => t.wf() && t.width > 0 && t.height > 0,
            None => false,
        }
    }

    /// The diffuse colour at texture coordinates `(u, v)`.
    pub open spec fn diffuse_at(&self, u: int, v: int) -> Color {
        if self.has_texture {
            self.texture->Some_0.color_at(u, v)
        } else {
            self.diffuse
        }
    }

    pub fn new(
        diffuse: Color,
        specular: u32,
        albedo: [u32; 4],
        refractive_index: u32,
        has_texture: bool,
        texture: Option<Texture>,
    ) -> (m: Material)
        ensures
            m == (Material { diffuse, specular, albedo, refractive_index, has_texture, texture }),
    {
        Material { diffuse, specular, albedo, refractive_index, has_texture, texture }
    }

    /// Black, untextured, with no weight on any term and no bending of light.
    pub fn black() -> (m: Material)
        ensures
            m.wf(),
            m.diffuse == (Color { r: 0, g: 0, b: 0 }),
            m.specular == 0,
            m.albedo@ == seq![0u32, 0u32, 0u32, 0u32],
            m.refractive_index == WEIGHT_ONE,
            !m.has_texture,
            m.texture is None,
    {
        let m = Material {
            diffuse: Color::new(0, 0, 0),
            specular: 0,
            albedo: [0, 0, 0, 0],
            refractive_index: WEIGHT_ONE,
            has_texture: false,
            texture: None,
        };
        assert(m.albedo@ =~= seq![0u32, 0u32, 0u32, 0u32]);
        m
    }

    /// The sampled texture colour if the material is textured, else its flat colour.
    pub fn get_diffuse_color(&self, u: u32, v: u32) -> (c: Color)
        requires
            self.wf(),
        ensures
            c == self.diffuse_at(u as int, v as int),
    {
        if self.has_texture {
            match &self.texture {
                Some(t) => t.get_color(u, v),
                None => self.diffuse,
            }
        } else {
            self.diffuse
        }
    }
}

} // verus!
