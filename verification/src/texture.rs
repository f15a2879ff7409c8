//! Textures: functions from surface coordinates and world position to a
//! colour.

use vstd::prelude::*;
use crate::fx::{fx, sat, sdiv, smul, Fx, FX_SCALE};
use crate::perlin::{perlin_wf, turb_spec, Perlin};
use crate::trig::ssin;
use crate::vec3::{v3, Vec3};

verus! {

/// A constant colour.
pub struct SolidColour {
    pub colour_value: Vec3,
}

/// Two child textures selected by the sign of a product of sine waves.
pub struct CheckerTexture {
    pub odd: Box<Texture>,
    pub even: Box<Texture>,
}

/// Marbled bands of turbulent gradient noise.
pub struct NoiseTexture {
    pub noise: Perlin,
    pub scale: Fx,
}

/// A decoded RGB raster sampled by nearest pixel: `width * height` row-major
/// 8-bit triples.  Decoding happens outside the renderer.
pub struct ImageTexture {
    pub image: Vec<u8>,
    pub width: u32,
    pub height: u32,
}

/// The closed texture type.
pub enum Texture {
    Solid(SolidColour),
    Checker(CheckerTexture),
    Noise(NoiseTexture),
    Image(ImageTexture),
}

/// Well-formedness: noise fields are complete, and a raster holds exactly
/// three bytes per pixel.
pub open spec fn texture_wf(t: Texture) -> bool
    decreases t,
{
    match t {
        Texture::Solid(_) => true,
        Texture::Checker(c) => texture_wf(*c.odd) && texture_wf(*c.even),
        Texture::Noise(n) => perlin_wf(n.noise),
        Texture::Image(im) => im.image@.len() == 3 * (im.width as int) * (im.height as int)
            && im.width >= 1 && im.height >= 1 && 3 * (im.width as int) * (im.height as int)
            <= 0x7fff_ffff,
    }
}

/// The nearest-sample lookup of an image texture: clamp the coordinates,
/// flip `v`, scale to pixel indices, clamp to the raster, and scale the
/// 8-bit channels back to unit range.
pub open spec fn image_value_spec(im: ImageTexture, u: int, v: int) -> Vec3
    recommends
        texture_wf(Texture::Image(im)),
{
    let s = FX_SCALE as int;
    let uc = if u < 0 {
        0
    } else if u > s {
        s
    } else {
        u
    };
    let vc0 = if v < 0 {
        0
    } else if v > s {
        s
    } else {
        v
    };
    let vc = s - vc0;
    let i0 = crate::fx::dfl(smul(uc, sat((im.width as int) * s)), s);
    let j0 = crate::fx::dfl(smul(vc, sat((im.height as int) * s)), s);
    let i = if i0 > im.width as int - 1 {
        im.width as int - 1
    } else {
        i0
    };
    let j = if j0 > im.height as int - 1 {
        im.height as int - 1
    } else {
        j0
    };
    let base = 3 * (j * im.width as int + i);
    let pr = im.image@[base] as int;
    let pg = im.image@[base + 1] as int;
    let pb = im.image@[base + 2] as int;
    v3(sdiv(pr * s, 255 * s), sdiv(pg * s, 255 * s), sdiv(pb * s, 255 * s))
}

/// The colour of a texture at surface coordinates `(u, v)` and world
/// position `p`.
pub open spec fn texture_value_spec(t: Texture, u: int, v: int, p: Vec3) -> Vec3
    recommends
        texture_wf(t),
    decreases t,
{
    match t {
        Texture::Solid(sc) => sc.colour_value,
        Texture::Checker(c) => {
            let sines = smul(
                smul(ssin(sat(10 * p.x@)), ssin(sat(10 * p.y@))),
                ssin(sat(10 * p.z@)),
            );
            if sines < 0 {
                texture_value_spec(*c.odd, u, v, p)
            } else {
                texture_value_spec(*c.even, u, v, p)
            }
        },
        Texture::Noise(n) => {
            let band = sat(smul(n.scale@, p.z@) + sat(10 * turb_spec(n.noise, p)));
            let m = smul(32768, sat(FX_SCALE as int + ssin(band)));
            v3(m, m, m)
        },
        Texture::Image(im) => image_value_spec(im, u, v),
    }
}

impl SolidColour {
    pub fn new(colour_value: Vec3) -> (r: SolidColour)
        ensures
            r == (SolidColour { colour_value }),
    {
        SolidColour { colour_value }
    }
}

impl CheckerTexture {
    /// A checker of two solid colours.
    pub fn new(c1: Vec3, c2: Vec3) -> (r: CheckerTexture)
        ensures
            r.even == Box::new(Texture::Solid(SolidColour { colour_value: c1 })),
            r.odd == Box::new(Texture::Solid(SolidColour { colour_value: c2 })),
    {
        CheckerTexture {
            even: Box::new(Texture::Solid(SolidColour { colour_value: c1 })),
            odd: Box::new(Texture::Solid(SolidColour { colour_value: c2 })),
        }
    }
}

impl NoiseTexture {
    /// A marble texture of the given band scale, with a fresh noise field.
    pub fn new(scale: Fx, rng: &mut crate::rng::Rng) -> (r: NoiseTexture)
        ensures
            perlin_wf(r.noise),
            r.scale == scale,
    {
        NoiseTexture { noise: Perlin::new(rng), scale }
    }
}

impl ImageTexture {
    /// Wrap a decoded raster.
    pub fn new(image: Vec<u8>, width: u32, height: u32) -> (r: ImageTexture)
        requires
            image@.len() == 3 * (width as int) * (height as int),
            width >= 1,
            height >= 1,
            3 * (width as int) * (height as int) <= 0x7fff_ffff,
        ensures
            r == (ImageTexture { image, width, height }),
            texture_wf(Texture::Image(r)),
    {
        let r = ImageTexture { image, width, height };
        r
    }

    /// The nearest-sample lookup.
    pub fn value(&self, u: Fx, v: Fx) -> (res: Vec3)
        requires
            texture_wf(Texture::Image(*self)),
        ensures
            res == image_value_spec(*self, u@, v@),
    {
        let zero = Fx { raw: 0 };
        let one = Fx { raw: FX_SCALE };
        let uc = u.max(zero).min(one);
        let vc = one.sub(v.max(zero).min(one));

        let ws = Fx::from_int(self.width as i64);
        let hs = Fx::from_int(self.height as i64);
        let i0 = uc.mul(ws).floor_units();
        let j0 = vc.mul(hs).floor_units();
        let wm1 = (self.width - 1) as i64;
        let hm1 = (self.height - 1) as i64;
        let i = if i0 > wm1 {
            wm1
        } else {
            i0
        };
        let j = if j0 > hm1 {
            hm1
        } else {
            j0
        };
        proof {
            lemma_pixel_index_bounds(*self, uc@, vc@);
            assert(3 * ((j as int) * (self.width as int) + i as int) + 2 < self.image@.len())
                by (nonlinear_arith)
                requires
                    0 <= i as int <= im_w(*self) - 1,
                    0 <= j as int <= im_h(*self) - 1,
                    self.image@.len() == 3 * im_w(*self) * im_h(*self),
                    im_w(*self) == self.width as int,
                    im_h(*self) == self.height as int,
                    im_w(*self) >= 1,
                    im_h(*self) >= 1,
            ;
        }
        let base: usize = 3 * ((j as usize) * (self.width as usize) + (i as usize));
        let pr = self.image[base];
        let pg = self.image[base + 1];
        let pb = self.image[base + 2];
        let k255 = Fx::from_int(255);
        Vec3 {
            x: Fx::from_int(pr as i64).div(k255),
            y: Fx::from_int(pg as i64).div(k255),
            z: Fx::from_int(pb as i64).div(k255),
        }
    }
}

/// The raster's width as an integer.
pub open spec fn im_w(im: ImageTexture) -> int {
    im.width as int
}

/// The raster's height as an integer.
pub open spec fn im_h(im: ImageTexture) -> int {
    im.height as int
}

/// The clamped pixel indices address a triple inside the raster.
proof fn lemma_pixel_index_bounds(im: ImageTexture, uc: int, vc: int)
    requires
        texture_wf(Texture::Image(im)),
        0 <= uc <= FX_SCALE as int,
        0 <= vc <= FX_SCALE as int,
    ensures
        0 <= crate::fx::dfl(smul(uc, sat((im.width as int) * (FX_SCALE as int))), FX_SCALE as int),
        0 <= crate::fx::dfl(smul(vc, sat((im.height as int) * (FX_SCALE as int))), FX_SCALE as int),
{
    let s = FX_SCALE as int;
    let wprod = sat((im.width as int) * s);
    let hprod = sat((im.height as int) * s);
    assert((im.width as int) * s >= 0) by (nonlinear_arith)
        requires
            im.width as int >= 1,
            s == 65536,
    ;
    assert((im.height as int) * s >= 0) by (nonlinear_arith)
        requires
            im.height as int >= 1,
            s == 65536,
    ;
    assert(uc * wprod >= 0) by (nonlinear_arith)
        requires
            uc >= 0,
            wprod >= 0,
    ;
    assert(vc * hprod >= 0) by (nonlinear_arith)
        requires
            vc >= 0,
            hprod >= 0,
    ;
    vstd::arithmetic::div_mod::lemma_div_pos_is_pos(uc * wprod, s);
    vstd::arithmetic::div_mod::lemma_div_pos_is_pos(vc * hprod, s);
    vstd::arithmetic::div_mod::lemma_div_pos_is_pos(
        if uc * wprod > i64::MAX as int {
            i64::MAX as int
        } else {
            uc * wprod
        },
        s,
    );
    vstd::arithmetic::div_mod::lemma_div_pos_is_pos(
        if vc * hprod > i64::MAX as int {
            i64::MAX as int
        } else {
            vc * hprod
        },
        s,
    );
}

impl Texture {
    /// Decide well-formedness at run time, so an unverified caller can
    /// test it before handing the texture to the renderer.
    pub fn well_formed(&self) -> (r: bool)
        ensures
            r == texture_wf(*self),
        decreases *self,
    {
        match self {
            Texture::Solid(_) => true,
            Texture::Checker(c) => c.odd.well_formed() && c.even.well_formed(),
            Texture::Noise(n) => {
                let pl = &n.noise;
                pl.ranvec.len() == crate::perlin::POINT_COUNT && pl.perm_x.len()
                    == crate::perlin::POINT_COUNT && pl.perm_y.len()
                    == crate::perlin::POINT_COUNT && pl.perm_z.len()
                    == crate::perlin::POINT_COUNT
            },
            Texture::Image(im) => {
                proof {
                    assert(3 * (im.width as int) * (im.height as int) <= 3 * 0x1_0000_0000
                        * 0x1_0000_0000) by (nonlinear_arith)
                        requires
                            0 <= im.width as int,
                            (im.width as int) < 0x1_0000_0000,
                            0 <= im.height as int,
                            (im.height as int) < 0x1_0000_0000,
                    ;
                }
                let bytes: u128 = 3 * (im.width as u128) * (im.height as u128);
                im.width >= 1 && im.height >= 1 && bytes <= 0x7fff_ffff && (im.image.len() as u128)
                    == bytes
            },
        }
    }

    /// The colour at surface coordinates `(u, v)` and world position `p`.
    pub fn value(&self, u: Fx, v: Fx, p: &Vec3) -> (res: Vec3)
        requires
            texture_wf(*self),
        ensures
            res == texture_value_spec(*self, u@, v@, *p),
        decreases *self,
    {
        match self {
            Texture::Solid(sc) => sc.colour_value,
            Texture::Checker(c) => {
                let s1 = crate::trig::sin_fx(p.x.scale_int(10));
                let s2 = crate::trig::sin_fx(p.y.scale_int(10));
                let s3 = crate::trig::sin_fx(p.z.scale_int(10));
                let sines = s1.mul(s2).mul(s3);
                if sines.is_neg() {
                    c.odd.value(u, v, p)
                } else {
                    c.even.value(u, v, p)
                }
            },
            Texture::Noise(n) => {
                let band = n.scale.mul(p.z).add(n.noise.turb(p).scale_int(10));
                let m = Fx { raw: 32768 }.mul(
                    Fx { raw: FX_SCALE }.add(crate::trig::sin_fx(band)),
                );
                Vec3 { x: m, y: m, z: m }
            },
            Texture::Image(im) => im.value(u, v),
        }
    }
}

} // verus!
