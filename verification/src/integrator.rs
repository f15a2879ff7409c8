//! The recursive Monte-Carlo radiance estimator, the configurable
//! background policy, and the gamma-2 channel conversion.

use vstd::prelude::*;
use crate::fx::{dfl, fx, sat, sdiv, smul, ssqrt, Fx, FX_SCALE};
use crate::material::{emitted_spec, material_wf, scatter_spec, Material};
use crate::ray::Ray;
use crate::rng::Rng;
use crate::surface::{scene_mat_wf, surface_hit_spec, Surface};
use crate::vec3::{sadd_v, scomp_mul, sscale_v, sunit_v, v3, Vec3};

verus! {

/// The lower end of every primary intersection interval, a small positive
/// offset that suppresses self-intersection at a scattering point.
pub const RAY_T_MIN_FX: i64 = 66;

/// The background policy: a flat colour, or the classic blue-white sky
/// gradient.
pub enum Background {
    Solid(Vec3),
    Sky,
}

/// The colour a ray that escapes the scene receives.
pub open spec fn background_spec(bg: Background, r: Ray) -> Vec3 {
    match bg {
        Background::Solid(c) => c,
        Background::Sky => {
            let s = FX_SCALE as int;
            let ud = sunit_v(r.direction);
            let t = smul(32768, sat(ud.y@ + s));
            sadd_v(sscale_v(v3(s, s, s), sat(s - t)), sscale_v(v3(32768, 45875, s), t))
        },
    }
}

/// The radiance estimate for one ray: black once the bounce budget is
/// exhausted; the background on a miss; otherwise the hit material's
/// emission plus its attenuation times the recursive estimate along the
/// scattered ray.
pub open spec fn ray_colour_spec(
    r: Ray,
    bg: Background,
    world: Surface,
    materials: Seq<Material>,
    depth: int,
    rs: u64,
) -> (Vec3, u64)
    decreases depth,
{
    if depth <= 0 {
        (v3(0, 0, 0), rs)
    } else {
        let probe = surface_hit_spec(world, r, RAY_T_MIN_FX as int, i64::MAX as int, rs);
        match probe.0 {
            None => (background_spec(bg, r), probe.1),
            Some(rec) => {
                let m = materials[rec.material as int];
                let em = emitted_spec(m, rec.u@, rec.v@, rec.point);
                let sc = scatter_spec(m, r, rec, probe.1);
                match sc.0 {
                    None => (em, sc.1),
                    Some(pair) => {
                        let rc = ray_colour_spec(pair.1, bg, world, materials, depth - 1, sc.1);
                        (sadd_v(em, scomp_mul(pair.0, rc.0)), rc.1)
                    },
                }
            },
        }
    }
}

/// One gamma-2 encoded 8-bit channel: `round(sqrt(x * 255^2 / samples))`,
/// clamped into the byte range.
pub open spec fn rgb_channel_spec(x: int, samples: int) -> int {
    let s = FX_SCALE as int;
    let scale = sdiv(sat(65025 * s), sat(samples * s));
    let y = smul(x, scale);
    let q = dfl(sat(ssqrt(sat(y))) + 32768, s);
    if q < 0 {
        0
    } else if q > 255 {
        255
    } else {
        q
    }
}

impl Background {
    /// The colour of an escaping ray.
    pub fn colour(&self, r: &Ray) -> (res: Vec3)
        ensures
            res == background_spec(*self, *r),
    {
        match self {
            Background::Solid(c) => *c,
            Background::Sky => {
                let one = Fx { raw: FX_SCALE };
                let half = Fx { raw: 32768 };
                let ud = r.direction.unit();
                let t = half.mul(ud.y.add(one));
                let white = Vec3 { x: one, y: one, z: one };
                let blue = Vec3 { x: half, y: Fx { raw: 45875 }, z: one };
                white.scale(one.sub(t)).add(blue.scale(t))
            },
        }
    }
}

/// The radiance estimate for one ray against the scene.
pub fn ray_colour(
    r: &Ray,
    background: &Background,
    world: &Surface,
    materials: &Vec<Material>,
    depth: i32,
    rng: &mut Rng,
) -> (res: Vec3)
    requires
        scene_mat_wf(*world, materials@.len() as int),
        forall|i: int| 0 <= i < materials@.len() ==> material_wf(#[trigger] materials@[i]),
    ensures
        (res, final(rng).state) == ray_colour_spec(
            *r,
            *background,
            *world,
            materials@,
            depth as int,
            old(rng).state,
        ),
    decreases depth,
{
    if depth <= 0 {
        return Vec3 { x: Fx { raw: 0 }, y: Fx { raw: 0 }, z: Fx { raw: 0 } };
    }

    match world.hit(r, Fx { raw: RAY_T_MIN_FX }, Fx { raw: i64::MAX }, rng) {
        None => background.colour(r),
        Some(rec) => {
            proof {
                crate::surface::lemma_hit_material_in_range(
                    *world,
                    *r,
                    RAY_T_MIN_FX as int,
                    i64::MAX as int,
                    old(rng).state,
                    materials@.len() as int,
                );
            }
            let m = &materials[rec.material];
            let emitted = m.emitted(rec.u, rec.v, &rec.point);
            match m.scatter(r, &rec, rng) {
                None => emitted,
                Some((attenuation, scattered)) => {
                    let rc = ray_colour(&scattered, background, world, materials, depth - 1, rng);
                    emitted.add(attenuation.comp_mul(rc))
                },
            }
        },
    }
}

/// One linear colour accumulated over `samples` draws, converted to an
/// 8-bit gamma-2 encoded pixel.
pub fn vector_to_rgb(colour: &Vec3, samples: u32) -> (res: (u8, u8, u8))
    ensures
        res.0 as int == rgb_channel_spec(colour.x@, samples as int),
        res.1 as int == rgb_channel_spec(colour.y@, samples as int),
        res.2 as int == rgb_channel_spec(colour.z@, samples as int),
{
    let scale = Fx::from_int(65025).div(Fx::from_int(samples as i64));
    (
        rgb_channel(colour.x, scale),
        rgb_channel(colour.y, scale),
        rgb_channel(colour.z, scale),
    )
}

/// One channel of the conversion.
fn rgb_channel(x: Fx, scale: Fx) -> (res: u8)
    ensures
        res as int == {
            let q = dfl(sat(ssqrt(smul(x@, scale@))) + 32768, FX_SCALE as int);
            if q < 0 {
                0
            } else if q > 255 {
                255
            } else {
                q
            }
        },
{
    let q = x.mul(scale).sqrt().round_units();
    if q < 0 {
        0
    } else if q > 255 {
        255
    } else {
        q as u8
    }
}

} // verus!
