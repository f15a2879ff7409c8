//! Materials: the scattering model that turns a surface hit into a new ray
//! plus an attenuation, and the emission model for lights.

use vstd::prelude::*;
use crate::fx::{dfl, fx, sat, sdiv, smul, ssqrt, Fx, FX_SCALE};
use crate::hit::HitRecord;
use crate::ray::Ray;
use crate::rng::{rng_next, sphere_draw, unit_draw, unit_vec_draw_of, Rng};
use crate::texture::{texture_value_spec, texture_wf, SolidColour, Texture};
use crate::vec3::{sadd_v, scomp_mul, sdot, sneg_v, snorm, sscale_v, ssub_v, sunit_v, v3, Vec3};

verus! {

/// A diffuse surface parameterized by a texture.
pub struct Lambertian {
    pub albedo: Texture,
}

/// A specular surface with a fuzz radius.
pub struct Metal {
    pub albedo: Vec3,
    pub fuzz: Fx,
}

/// A glass surface with an index of refraction.
pub struct Dielectric {
    pub ir: Fx,
}

/// A surface that only emits.
pub struct DiffuseLight {
    pub emit: Texture,
}

/// The phase function of a constant-density medium: scatters uniformly.
pub struct Isotropic {
    pub albedo: Texture,
}

/// The closed material type.
pub enum Material {
    Lambertian(Lambertian),
    Metal(Metal),
    Dielectric(Dielectric),
    DiffuseLight(DiffuseLight),
    Isotropic(Isotropic),
}

/// Well-formedness: the held textures are well-formed.
pub open spec fn material_wf(m: Material) -> bool {
    match m {
        Material::Lambertian(l) => texture_wf(l.albedo),
        Material::Metal(_) => true,
        Material::Dielectric(_) => true,
        Material::DiffuseLight(d) => texture_wf(d.emit),
        Material::Isotropic(i) => texture_wf(i.albedo),
    }
}

/// Mirror reflection of `v` about `n`: `v - 2 (v . n) n`.
pub open spec fn reflect_spec(v: Vec3, n: Vec3) -> Vec3 {
    ssub_v(v, sscale_v(n, sat(2 * sdot(v, n))))
}

/// Refraction of the unit direction `uv` at a surface of normal `n` with
/// refraction ratio `etai_over_etat`, by the perpendicular/parallel split.
pub open spec fn refract_spec(uv: Vec3, n: Vec3, etai_over_etat: int) -> Vec3 {
    let cos_theta = if sdot(n, sneg_v(uv)) <= FX_SCALE as int {
        sdot(n, sneg_v(uv))
    } else {
        FX_SCALE as int
    };
    let r_out_perp = sscale_v(sadd_v(uv, sscale_v(n, cos_theta)), etai_over_etat);
    let k = sat(FX_SCALE as int - sdot(r_out_perp, r_out_perp));
    let ak = if k >= 0 {
        k
    } else {
        sat(-k)
    };
    let r_out_parallel = sscale_v(n, sat(-sat(ssqrt(ak))));
    sadd_v(r_out_perp, r_out_parallel)
}

/// Schlick's reflectance approximation
/// `r0 + (1 - r0) (1 - cos)^5`, `r0 = ((1 - ir) / (1 + ir))^2`.
pub open spec fn reflectance_spec(cosine: int, ref_idx: int) -> int {
    let s = FX_SCALE as int;
    let r0a = sdiv(sat(s - ref_idx), sat(s + ref_idx));
    let r0 = smul(r0a, r0a);
    let p = sat(s - cosine);
    let p5 = smul(smul(smul(smul(p, p), p), p), p);
    sat(r0 + smul(sat(s - r0), p5))
}

/// What a material does with an incoming ray at a hit: nothing (absorbed),
/// or an attenuation and a scattered ray; paired with the random state left
/// behind.
pub open spec fn scatter_spec(m: Material, r_in: Ray, rec: HitRecord, rs: u64) -> (
    Option<(Vec3, Ray)>,
    u64,
) {
    match m {
        Material::Lambertian(l) => {
            let pr = sphere_draw(rs, 32);
            let dir0 = sadd_v(rec.normal, unit_vec_draw_of(pr.0));
            let dir = if sat(snorm(dir0)) == 0 {
                rec.normal
            } else {
                dir0
            };
            // A diffuse bounce always absorbs a sliver: the attenuation is
            // capped one step below one, so even a pure-white surface under
            // a white background returns strictly less than the background.
            let att0 = texture_value_spec(l.albedo, rec.u@, rec.v@, rec.point);
            let cap = FX_SCALE as int - 1;
            let attenuation = v3(
                crate::aabb::imin(att0.x@, cap),
                crate::aabb::imin(att0.y@, cap),
                crate::aabb::imin(att0.z@, cap),
            );
            (Some((attenuation, Ray { origin: rec.point, direction: dir, time: r_in.time })), pr.1)
        },
        Material::Metal(mt) => {
            let reflected = reflect_spec(sunit_v(r_in.direction), rec.normal);
            let pr = sphere_draw(rs, 32);
            let dir = sadd_v(reflected, sscale_v(pr.0, mt.fuzz@));
            if sdot(dir, rec.normal) > 0 {
                (
                    Some(
                        (mt.albedo, Ray { origin: rec.point, direction: dir, time: r_in.time }),
                    ),
                    pr.1,
                )
            } else {
                (None, pr.1)
            }
        },
        Material::Dielectric(d) => {
            let s = FX_SCALE as int;
            let ratio = if rec.front_face {
                sdiv(s, d.ir@)
            } else {
                d.ir@
            };
            let unit_direction = sunit_v(r_in.direction);
            let cos_theta = if sdot(rec.normal, sneg_v(unit_direction)) <= s {
                sdot(rec.normal, sneg_v(unit_direction))
            } else {
                s
            };
            let sin_theta = sat(ssqrt(sat(s - smul(cos_theta, cos_theta))));
            let cannot_refract = smul(ratio, sin_theta) > s;
            let white = v3(s, s, s);
            if d.ir@ == s {
                // An index of one refracts without bending and without
                // consulting the reflectance draw: glass of the ambient
                // index is a no-op.
                let dir = refract_spec(unit_direction, rec.normal, ratio);
                (
                    Some((white, Ray { origin: rec.point, direction: dir, time: r_in.time })),
                    rs,
                )
            } else if cannot_refract {
                let dir = reflect_spec(unit_direction, rec.normal);
                (
                    Some((white, Ray { origin: rec.point, direction: dir, time: r_in.time })),
                    rs,
                )
            } else {
                let u = unit_draw(rs);
                let rs1 = rng_next(rs);
                let dir = if reflectance_spec(cos_theta, ratio) > u {
                    reflect_spec(unit_direction, rec.normal)
                } else {
                    refract_spec(unit_direction, rec.normal, ratio)
                };
                (
                    Some((white, Ray { origin: rec.point, direction: dir, time: r_in.time })),
                    rs1,
                )
            }
        },
        Material::DiffuseLight(_) => (None, rs),
        Material::Isotropic(i) => {
            let pr = sphere_draw(rs, 32);
            let attenuation = texture_value_spec(i.albedo, rec.u@, rec.v@, rec.point);
            (
                Some(
                    (attenuation, Ray { origin: rec.point, direction: pr.0, time: r_in.time }),
                ),
                pr.1,
            )
        },
    }
}

/// What a material emits at surface coordinates and a point: the light
/// texture's value for an emissive material, black for every other.
pub open spec fn emitted_spec(m: Material, u: int, v: int, p: Vec3) -> Vec3 {
    match m {
        Material::DiffuseLight(d) => texture_value_spec(d.emit, u, v, p),
        _ => v3(0, 0, 0),
    }
}

/// Metal with zero fuzz reproduces an exact mirror reflection about an
/// axis-aligned unit normal: the reflected direction's projection on the
/// normal is exactly the negation of the incoming projection, the reflected
/// direction is by construction the stated combination of the incoming
/// direction and the normal, and the scattered ray (when one is returned)
/// carries exactly that mirror direction.
#[verifier::rlimit(100)]
pub proof fn lemma_metal_mirror(mt: Metal, r_in: Ray, rec: HitRecord, rs: u64)
    requires
        mt.fuzz@ == 0,
        crate::vec3::axis_unit(rec.normal),
        -0x100_0000_0000 <= sunit_v(r_in.direction).x@ <= 0x100_0000_0000,
        -0x100_0000_0000 <= sunit_v(r_in.direction).y@ <= 0x100_0000_0000,
        -0x100_0000_0000 <= sunit_v(r_in.direction).z@ <= 0x100_0000_0000,
    ensures
        ({
            let u = sunit_v(r_in.direction);
            let refl = reflect_spec(u, rec.normal);
            &&& sdot(refl, rec.normal) == -sdot(u, rec.normal)
            &&& refl == ssub_v(u, sscale_v(rec.normal, sat(2 * sdot(u, rec.normal))))
            &&& match scatter_spec(Material::Metal(mt), r_in, rec, rs).0 {
                Some(pair) => pair.1.direction == refl,
                None => true,
            }
        }),
{
    let u = sunit_v(r_in.direction);
    let p = sphere_draw(rs, 32).0;
    crate::fx::lemma_smul_units(u.x@);
    crate::fx::lemma_smul_units(u.y@);
    crate::fx::lemma_smul_units(u.z@);
    crate::fx::lemma_smul_units(sat(2 * u.x@));
    crate::fx::lemma_smul_units(sat(-2 * u.x@));
    crate::fx::lemma_smul_units(sat(2 * u.y@));
    crate::fx::lemma_smul_units(sat(-2 * u.y@));
    crate::fx::lemma_smul_units(sat(2 * u.z@));
    crate::fx::lemma_smul_units(sat(-2 * u.z@));
    crate::fx::lemma_smul_units(p.x@);
    crate::fx::lemma_smul_units(p.y@);
    crate::fx::lemma_smul_units(p.z@);
    let refl = reflect_spec(u, rec.normal);
    crate::fx::lemma_smul_units(refl.x@);
    crate::fx::lemma_smul_units(refl.y@);
    crate::fx::lemma_smul_units(refl.z@);
}

/// Refraction with a ratio of one is the identity on the incoming unit
/// direction, for an axis-aligned unit normal hit front on, whenever the
/// cosine's square is exactly representable and the perpendicular component
/// carries exactly the remaining energy.
#[verifier::rlimit(100)]
pub proof fn lemma_refract_identity(uv: Vec3, n: Vec3)
    requires
        crate::vec3::axis_unit(n),
        -0x100_0000_0000 <= uv.x@ <= 0x100_0000_0000,
        -0x100_0000_0000 <= uv.y@ <= 0x100_0000_0000,
        -0x100_0000_0000 <= uv.z@ <= 0x100_0000_0000,
        0 <= sdot(n, sneg_v(uv)) <= FX_SCALE as int,
        (sdot(n, sneg_v(uv)) * sdot(n, sneg_v(uv))) % (FX_SCALE as int) == 0,
        sdot(
            sadd_v(uv, sscale_v(n, sdot(n, sneg_v(uv)))),
            sadd_v(uv, sscale_v(n, sdot(n, sneg_v(uv)))),
        ) == sat(FX_SCALE as int - smul(sdot(n, sneg_v(uv)), sdot(n, sneg_v(uv)))),
    ensures
        refract_spec(uv, n, FX_SCALE as int) == uv,
{
    let s = FX_SCALE as int;
    let c = sdot(n, sneg_v(uv));
    crate::fx::lemma_smul_units(uv.x@);
    crate::fx::lemma_smul_units(uv.y@);
    crate::fx::lemma_smul_units(uv.z@);
    crate::fx::lemma_smul_units(sat(-uv.x@));
    crate::fx::lemma_smul_units(sat(-uv.y@));
    crate::fx::lemma_smul_units(sat(-uv.z@));
    crate::fx::lemma_smul_units(c);
    crate::fx::lemma_smul_units(sat(-c));
    let inner = sadd_v(uv, sscale_v(n, c));
    crate::fx::lemma_smul_units(inner.x@);
    crate::fx::lemma_smul_units(inner.y@);
    crate::fx::lemma_smul_units(inner.z@);
    assert(smul(c, c) <= s) by {
        if c > 0 {
            vstd::arithmetic::div_mod::lemma_fundamental_div_mod(c * c, s);
            assert(dfl(c * c, s) <= s) by (nonlinear_arith)
                requires
                    c * c == s * (dfl(c * c, s)) + (c * c) % s,
                    0 <= (c * c) % s,
                    0 < c <= s,
                    s == 65536,
            ;
            assert(dfl(c * c, s) >= 0) by (nonlinear_arith)
                requires
                    c * c == s * (dfl(c * c, s)) + (c * c) % s,
                    (c * c) % s < s,
                    c * c >= 0,
                    s == 65536,
            ;
        } else {
            assert(c == 0);
            crate::fx::lemma_smul_units(0);
        }
    }
    if c > 0 {
        crate::fx::lemma_ssqrt_exact_square(c);
    } else {
        assert(c == 0);
        crate::fx::lemma_smul_units(0);
        assert(crate::fx::ssqrt(smul(0, 0)) == 0);
    }
}
/// Glass with an index of one is a no-op.  The scatter never consults the
/// reflectance draw — the random state comes back untouched — and, for an
/// axis-aligned unit normal met front on with an exactly representable
/// cosine, the outgoing direction equals the incoming unit direction.
#[verifier::rlimit(100)]
pub proof fn lemma_dielectric_unit_index_no_op(
    d: Dielectric,
    r_in: Ray,
    rec: HitRecord,
    rs: u64,
)
    requires
        d.ir@ == FX_SCALE as int,
        crate::vec3::axis_unit(rec.normal),
        -0x100_0000_0000 <= sunit_v(r_in.direction).x@ <= 0x100_0000_0000,
        -0x100_0000_0000 <= sunit_v(r_in.direction).y@ <= 0x100_0000_0000,
        -0x100_0000_0000 <= sunit_v(r_in.direction).z@ <= 0x100_0000_0000,
        0 <= sdot(rec.normal, sneg_v(sunit_v(r_in.direction))) <= FX_SCALE as int,
        (sdot(rec.normal, sneg_v(sunit_v(r_in.direction))) * sdot(
            rec.normal,
            sneg_v(sunit_v(r_in.direction)),
        )) % (FX_SCALE as int) == 0,
        sdot(
            sadd_v(
                sunit_v(r_in.direction),
                sscale_v(rec.normal, sdot(rec.normal, sneg_v(sunit_v(r_in.direction)))),
            ),
            sadd_v(
                sunit_v(r_in.direction),
                sscale_v(rec.normal, sdot(rec.normal, sneg_v(sunit_v(r_in.direction)))),
            ),
        ) == sat(
            FX_SCALE as int - smul(
                sdot(rec.normal, sneg_v(sunit_v(r_in.direction))),
                sdot(rec.normal, sneg_v(sunit_v(r_in.direction))),
            ),
        ),
    ensures
        scatter_spec(Material::Dielectric(d), r_in, rec, rs).1 == rs,
        scatter_spec(Material::Dielectric(d), r_in, rec, rs).0 == Some(
            (
                v3(FX_SCALE as int, FX_SCALE as int, FX_SCALE as int),
                Ray {
                    origin: rec.point,
                    direction: sunit_v(r_in.direction),
                    time: r_in.time,
                },
            ),
        ),
{
    let s = FX_SCALE as int;
    vstd::arithmetic::div_mod::lemma_fundamental_div_mod_converse(s * s, s, s, 0);
    assert(s * s == s * s + 0) by (nonlinear_arith);
    assert(sdiv(s, s) == s);
    lemma_refract_identity(sunit_v(r_in.direction), rec.normal);
}

/// A diffuse bounce always scatters and always absorbs: the attenuation is
/// strictly below one in every channel, so a path through Lambertian
/// surfaces can never return the full background energy.
pub proof fn lemma_lambertian_always_absorbs(l: Lambertian, r_in: Ray, rec: HitRecord, rs: u64)
    ensures
        scatter_spec(Material::Lambertian(l), r_in, rec, rs).0 is Some,
        match scatter_spec(Material::Lambertian(l), r_in, rec, rs).0 {
            Some(pair) => pair.0.x@ < FX_SCALE as int && pair.0.y@ < FX_SCALE as int
                && pair.0.z@ < FX_SCALE as int,
            None => true,
        },
{
}

/// Mirror reflection, executable.
pub fn reflect(v: &Vec3, n: &Vec3) -> (r: Vec3)
    ensures
        r == reflect_spec(*v, *n),
{
    v.sub(n.scale(v.dot(*n).scale_int(2)))
}

/// Refraction, executable.
pub fn refract(uv: &Vec3, n: &Vec3, etai_over_etat: Fx) -> (r: Vec3)
    ensures
        r == refract_spec(*uv, *n, etai_over_etat@),
{
    let one = Fx { raw: FX_SCALE };
    let cos_theta = n.dot(uv.neg()).min(one);
    let r_out_perp = uv.add(n.scale(cos_theta)).scale(etai_over_etat);
    let r_out_parallel = n.scale(one.sub(r_out_perp.dot(r_out_perp)).abs().sqrt().neg());
    r_out_perp.add(r_out_parallel)
}

impl Lambertian {
    /// A diffuse material of one solid colour.
    pub fn new(colour: Vec3) -> (r: Lambertian)
        ensures
            r.albedo == Texture::Solid(SolidColour { colour_value: colour }),
    {
        Lambertian { albedo: Texture::Solid(SolidColour { colour_value: colour }) }
    }

    /// A diffuse material reading any texture.
    pub fn new_from_texture(albedo: Texture) -> (r: Lambertian)
        ensures
            r.albedo == albedo,
    {
        Lambertian { albedo }
    }
}

impl Metal {
    pub fn new(albedo: Vec3, fuzz: Fx) -> (r: Metal)
        ensures
            r == (Metal { albedo, fuzz }),
    {
        Metal { albedo, fuzz }
    }
}

impl Dielectric {
    pub fn new(ir: Fx) -> (r: Dielectric)
        ensures
            r == (Dielectric { ir }),
    {
        Dielectric { ir }
    }

    /// Schlick's reflectance approximation, executable.
    pub fn reflectance(cosine: Fx, ref_idx: Fx) -> (r: Fx)
        ensures
            r == fx(reflectance_spec(cosine@, ref_idx@)),
    {
        let one = Fx { raw: FX_SCALE };
        let r0a = one.sub(ref_idx).div(one.add(ref_idx));
        let r0 = r0a.mul(r0a);
        let p = one.sub(cosine);
        let p5 = p.mul(p).mul(p).mul(p).mul(p);
        r0.add(one.sub(r0).mul(p5))
    }
}

impl DiffuseLight {
    /// A light of one solid colour.
    pub fn new(colour: Vec3) -> (r: DiffuseLight)
        ensures
            r.emit == Texture::Solid(SolidColour { colour_value: colour }),
    {
        DiffuseLight { emit: Texture::Solid(SolidColour { colour_value: colour }) }
    }
}

impl Isotropic {
    /// A uniform phase function of one solid colour.
    pub fn new(colour: Vec3) -> (r: Isotropic)
        ensures
            r.albedo == Texture::Solid(SolidColour { colour_value: colour }),
    {
        Isotropic { albedo: Texture::Solid(SolidColour { colour_value: colour }) }
    }
}

impl Material {
    /// Scatter an incoming ray at a hit: nothing when absorbed, or the
    /// attenuation and the outgoing ray.
    #[verifier::rlimit(100)]
    pub fn scatter(&self, r_in: &Ray, rec: &HitRecord, rng: &mut Rng) -> (res: Option<
        (Vec3, Ray),
    >)
        requires
            material_wf(*self),
        ensures
            (res, final(rng).state) == scatter_spec(*self, *r_in, *rec, old(rng).state),
    {
        match self {
            Material::Lambertian(l) => {
                let mut scatter_direction = rec.normal.add(rng.next_unit_vector());
                if scatter_direction.norm().raw == 0 {
                    scatter_direction = rec.normal;
                }
                let att0 = l.albedo.value(rec.u, rec.v, &rec.point);
                let cap = Fx { raw: FX_SCALE - 1 };
                let attenuation = Vec3 {
                    x: att0.x.min(cap),
                    y: att0.y.min(cap),
                    z: att0.z.min(cap),
                };
                let scattered = Ray {
                    origin: rec.point,
                    direction: scatter_direction,
                    time: r_in.time,
                };
                Some((attenuation, scattered))
            },
            Material::Metal(mt) => {
                let reflected = reflect(&r_in.direction.unit(), &rec.normal);
                let dir = reflected.add(rng.next_in_unit_sphere().scale(mt.fuzz));
                let scattered = Ray { origin: rec.point, direction: dir, time: r_in.time };
                if (Fx { raw: 0 }).lt(dir.dot(rec.normal)) {
                    Some((mt.albedo, scattered))
                } else {
                    None
                }
            },
            Material::Dielectric(d) => {
                let one = Fx { raw: FX_SCALE };
                let refraction_ratio = if rec.front_face {
                    one.div(d.ir)
                } else {
                    d.ir
                };
                let unit_direction = r_in.direction.unit();
                let cos_theta = rec.normal.dot(unit_direction.neg()).min(one);
                let sin_theta = one.sub(cos_theta.mul(cos_theta)).sqrt();

                let cannot_refract = one.lt(refraction_ratio.mul(sin_theta));
                let white = Vec3 { x: one, y: one, z: one };
                let direction = if d.ir.raw == FX_SCALE {
                    // An index of one refracts without bending and without
                    // consulting the reflectance draw.
                    refract(&unit_direction, &rec.normal, refraction_ratio)
                } else if cannot_refract {
                    reflect(&unit_direction, &rec.normal)
                } else {
                    let u = rng.next_unit();
                    if u.lt(Dielectric::reflectance(cos_theta, refraction_ratio)) {
                        reflect(&unit_direction, &rec.normal)
                    } else {
                        refract(&unit_direction, &rec.normal, refraction_ratio)
                    }
                };
                let scattered = Ray { origin: rec.point, direction, time: r_in.time };
                Some((white, scattered))
            },
            Material::DiffuseLight(_) => None,
            Material::Isotropic(i) => {
                let dir = rng.next_in_unit_sphere();
                let attenuation = i.albedo.value(rec.u, rec.v, &rec.point);
                Some((attenuation, Ray { origin: rec.point, direction: dir, time: r_in.time }))
            },
        }
    }

    /// Decide well-formedness at run time, so an unverified caller can
    /// test it before building a scene's material table.
    pub fn well_formed(&self) -> (r: bool)
        ensures
            r == material_wf(*self),
    {
        match self {
            Material::Lambertian(l) => l.albedo.well_formed(),
            Material::Metal(_) => true,
            Material::Dielectric(_) => true,
            Material::DiffuseLight(d) => d.emit.well_formed(),
            Material::Isotropic(i) => i.albedo.well_formed(),
        }
    }

    /// What the material emits; black unless it is a light.
    pub fn emitted(&self, u: Fx, v: Fx, p: &Vec3) -> (res: Vec3)
        requires
            material_wf(*self),
        ensures
            res == emitted_spec(*self, u@, v@, *p),
    {
        match self {
            Material::DiffuseLight(d) => d.emit.value(u, v, p),
            _ => Vec3 { x: Fx { raw: 0 }, y: Fx { raw: 0 }, z: Fx { raw: 0 } },
        }
    }
}

} // verus!
