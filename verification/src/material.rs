//! The material model: a closed set of three variants that can scatter an
//! incoming ray at a surface point into an attenuation color and an
//! outgoing ray, or decline (absorb it).

use vstd::prelude::*;
use crate::fx::{Fx, FX_ONE, fx_wf, fx_add_v, fx_sub_v, fx_neg_v, fx_mul_v, fx_div_v, fx_sqrt_v, abs_i};
use crate::vec3::{
    Vec3, V3i, v3i, vwf, vadd_v, vsub_v, vneg_v, vscale_v, dot_v, len2_v, unit_v, near_zero_v,
    color_wf,
};
use crate::fx::lemma_fx_mul_zero;
use crate::ray::{Ray, RayV};
use crate::rng::RandomSource;
use crate::hittable::{HitRecord, HitRecV};

verus! {

/// A surface material: diffuse, reflective with fuzz, or refractive.
#[derive(Clone, Copy, PartialEq, Eq, Structural, Debug)]
pub enum Material {
    Lambertian { albedo: Vec3 },
    Metal { albedo: Vec3, fuzz: Fx },
    Dielectric { ir: Fx },
}

impl Material {
    pub open spec fn wf(self) -> bool {
        match self {
            Material::Lambertian { albedo } => vwf(albedo@) && color_wf(albedo@),
            Material::Metal { albedo, fuzz } => vwf(albedo@) && color_wf(albedo@) && fx_wf(
                fuzz.raw as int,
            ),
            Material::Dielectric { ir } => fx_wf(ir.raw as int) && ir.raw > 0,
        }
    }

    /// A diffuse material with the given albedo, a fractional color with
    /// channels in `[0, 1]`.
    pub fn lambertian(albedo: Vec3) -> (m: Material)
        requires
            albedo.wf(),
            color_wf(albedo@),
        ensures
            m == (Material::Lambertian { albedo }),
            m.wf(),
    {
        Material::Lambertian { albedo }
    }

    /// A reflective material with the given fractional albedo and fuzz.
    pub fn metal(albedo: Vec3, fuzz: Fx) -> (m: Material)
        requires
            albedo.wf(),
            color_wf(albedo@),
            fuzz.wf(),
        ensures
            m == (Material::Metal { albedo, fuzz }),
            m.wf(),
    {
        Material::Metal { albedo, fuzz }
    }

    /// A refractive material with the given (positive) index of refraction.
    pub fn dielectric(ir: Fx) -> (m: Material)
        requires
            ir.wf(),
            ir.raw > 0,
        ensures
            m == (Material::Dielectric { ir }),
            m.wf(),
    {
        Material::Dielectric { ir }
    }
}

/// Mirror reflection of `v` about the normal `n`: `v - 2 (v . n) n`.
pub open spec fn reflect_v(v: V3i, n: V3i) -> V3i {
    vsub_v(v, vscale_v(vscale_v(n, dot_v(v, n)), 2 * FX_ONE))
}

pub fn reflect(v: Vec3, n: Vec3) -> (r: Vec3)
    requires
        v.wf(),
        n.wf(),
    ensures
        r.wf(),
        r@ == reflect_v(v@, n@),
{
    let two = Fx { raw: 2 * FX_ONE };
    v.sub(n.mul_s(crate::vec3::dot(v, n)).mul_s(two))
}

pub open spec fn min_one_v(d: int) -> int {
    if d > FX_ONE {
        FX_ONE as int
    } else {
        d
    }
}

/// Snell's-law transmission of the unit direction `uv` through a surface
/// with normal `n` and relative index `eta`.
pub open spec fn refract_v(uv: V3i, n: V3i, eta: int) -> V3i {
    let cos = min_one_v(dot_v(vneg_v(uv), n));
    let perp = vscale_v(vadd_v(uv, vscale_v(n, cos)), eta);
    let k = fx_sqrt_v(abs_i(fx_sub_v(FX_ONE as int, len2_v(perp))));
    vadd_v(perp, vscale_v(n, fx_neg_v(k)))
}

pub fn refract(uv: Vec3, n: Vec3, etai_over_etat: Fx) -> (r: Vec3)
    requires
        uv.wf(),
        n.wf(),
        etai_over_etat.wf(),
    ensures
        r.wf(),
        r@ == refract_v(uv@, n@, etai_over_etat.raw as int),
{
    let d = crate::vec3::dot(uv.neg(), n);
    let cos = if d.raw > FX_ONE {
        Fx::one()
    } else {
        d
    };
    let perp = uv.add(n.mul_s(cos)).mul_s(etai_over_etat);
    let k = Fx::one().sub(perp.length_squared()).abs().sqrt();
    perp.add(n.mul_s(k.neg()))
}

/// Schlick's approximation of Fresnel reflectance:
/// `r0 + (1 - r0) (1 - cos)^5` with `r0 = ((1 - idx) / (1 + idx))^2`.
pub open spec fn pow5_v(x: int) -> int {
    fx_mul_v(fx_mul_v(fx_mul_v(fx_mul_v(x, x), x), x), x)
}

pub open spec fn reflectance_v(cos: int, idx: int) -> int {
    let r0a = fx_div_v(fx_sub_v(FX_ONE as int, idx), fx_add_v(FX_ONE as int, idx));
    let r0 = fx_mul_v(r0a, r0a);
    fx_add_v(r0, fx_mul_v(fx_sub_v(FX_ONE as int, r0), pow5_v(fx_sub_v(FX_ONE as int, cos))))
}

pub fn reflectance(cosine: Fx, ref_idx: Fx) -> (r: Fx)
    requires
        cosine.wf(),
        ref_idx.wf(),
        ref_idx.raw >= 0,
    ensures
        r.wf(),
        r.raw as int == reflectance_v(cosine.raw as int, ref_idx.raw as int),
{
    let one = Fx::one();
    let r0a = one.sub(ref_idx).div(one.add(ref_idx));
    let r0 = r0a.mul(r0a);
    let omc = one.sub(cosine);
    let p5 = omc.mul(omc).mul(omc).mul(omc).mul(omc);
    r0.add(one.sub(r0).mul(p5))
}

/// The relative refraction ratio a dielectric uses at a hit: entering the
/// medium divides 1 by the index, leaving uses the index itself.
pub open spec fn refraction_ratio_v(ir: int, front_face: bool) -> int {
    if front_face {
        fx_div_v(FX_ONE as int, ir)
    } else {
        ir
    }
}

/// The sine, from a (clamped-to-1) cosine: `sqrt(1 - cos^2)`, with a
/// negative radicand (impossible for true unit directions) clamped to 0.
pub open spec fn sin_from_cos_v(cos: int) -> int {
    let s2 = fx_sub_v(FX_ONE as int, fx_mul_v(cos, cos));
    fx_sqrt_v(
        if s2 < 0 {
            0
        } else {
            s2
        },
    )
}

/// A non-negative over a positive scalar divides to a non-negative one.
proof fn lemma_fx_div_nonneg(a: int, b: int)
    requires
        a >= 0,
        b > 0,
    ensures
        fx_div_v(a, b) >= 0,
{
    assert(abs_i(a) * 65536 >= 0) by (nonlinear_arith)
        requires
            abs_i(a) >= 0,
    ;
    assert(abs_i(a) * 65536 / abs_i(b) >= 0) by (nonlinear_arith)
        requires
            abs_i(a) * 65536 >= 0,
            abs_i(b) > 0,
    ;
}

/// The direction a dielectric picks, as a function of the unit incoming
/// direction, the oriented surface normal, the refraction ratio, and the
/// uniform draw in `[0, 1)` that weighs Schlick reflectance against
/// transmission: the mirror reflection under total internal reflection or
/// when the draw falls below the reflectance, the Snell transmission
/// otherwise.
pub open spec fn dielectric_direction_v(unit: V3i, normal: V3i, ratio: int, draw: int) -> V3i {
    let cos = min_one_v(dot_v(vneg_v(unit), normal));
    let cannot_refract = fx_mul_v(ratio, sin_from_cos_v(cos)) > FX_ONE;
    if cannot_refract || reflectance_v(cos, ratio) > draw {
        reflect_v(unit, normal)
    } else {
        refract_v(unit, normal, ratio)
    }
}

/// The dielectric's reflect-or-refract decision, pinned to
/// `dielectric_direction_v` for every value of the draw.
pub fn dielectric_direction(unit_direction: Vec3, normal: Vec3, ratio: Fx, draw: Fx) -> (d: Vec3)
    requires
        unit_direction.wf(),
        normal.wf(),
        ratio.wf(),
        ratio.raw >= 0,
        draw.wf(),
    ensures
        d.wf(),
        d@ == dielectric_direction_v(unit_direction@, normal@, ratio.raw as int, draw.raw as int),
{
    let one = Fx::one();
    let d0 = crate::vec3::dot(unit_direction.neg(), normal);
    let cos_theta = if d0.raw > FX_ONE {
        one
    } else {
        d0
    };
    let s2 = one.sub(cos_theta.mul(cos_theta));
    let s2c = if s2.raw < 0 {
        Fx::zero()
    } else {
        s2
    };
    let sin_theta = s2c.sqrt();
    let cannot_refract = ratio.mul(sin_theta).raw > FX_ONE;
    if cannot_refract {
        reflect(unit_direction, normal)
    } else {
        let chance = reflectance(cos_theta, ratio);
        if chance.raw > draw.raw {
            reflect(unit_direction, normal)
        } else {
            refract(unit_direction, normal, ratio)
        }
    }
}

/// The outcomes a material may produce at a hit, as one predicate: `None`
/// only where the material may absorb, otherwise the attenuation color and
/// the outgoing direction, each tied to the hit and to some admissible
/// random sample or draw.  `scatter`'s contract returns exactly such an
/// outcome, and the light-transport contract folds over this predicate.
pub open spec fn scatter_outcome(m: Material, in_dir: V3i, rec: HitRecV, out: Option<
    (V3i, V3i),
>) -> bool {
    match m {
        Material::Lambertian { albedo } => match out {
            Some((att, dir)) => att == albedo@ && exists|p: V3i|
                vwf(p) && 6554 <= len2_v(p) <= FX_ONE && dir == (
                if near_zero_v(vadd_v(rec.normal, #[trigger] unit_v(p))) {
                    rec.normal
                } else {
                    vadd_v(rec.normal, unit_v(p))
                }),
            None => false,
        },
        Material::Metal { albedo, fuzz } => {
            let refl = reflect_v(unit_v(in_dir), rec.normal);
            match out {
                Some((att, dir)) => att == albedo@ && dot_v(dir, rec.normal) > 0 && exists|p: V3i|
                    vwf(p) && len2_v(p) < FX_ONE && dir == #[trigger] vadd_v(
                        refl,
                        vscale_v(p, fuzz.raw as int),
                    ),
                None => exists|p: V3i|
                    vwf(p) && len2_v(p) < FX_ONE && dot_v(
                        #[trigger] vadd_v(refl, vscale_v(p, fuzz.raw as int)),
                        rec.normal,
                    ) <= 0,
            }
        },
        Material::Dielectric { ir } => match out {
            Some((att, dir)) => {
                let unit = unit_v(in_dir);
                let ratio = refraction_ratio_v(ir.raw as int, rec.front_face);
                att == v3i(FX_ONE as int, FX_ONE as int, FX_ONE as int) && exists|dr: int|
                    0 <= dr < FX_ONE && dir == #[trigger] dielectric_direction_v(
                        unit,
                        rec.normal,
                        ratio,
                        dr,
                    )
            },
            None => false,
        },
    }
}

impl Material {
    /// Scatter an incoming ray at a hit: produce an attenuation color and
    /// an outgoing ray, or `None` when the ray is absorbed.
    ///
    /// A diffuse surface always scatters its albedo along normal plus a
    /// random unit vector -- the normal alone when that sum cancels to
    /// zero.  A metal mirror-reflects, perturbs by a fuzz-scaled unit-ball
    /// sample, and absorbs exactly when the perturbed direction no longer
    /// points away from the surface.  A dielectric always scatters white,
    /// and its direction is `dielectric_direction_v` of the unit incoming
    /// direction for some uniform draw; under total internal reflection it
    /// is the mirror reflection for certain (and no draw is consumed).
    pub fn scatter(&self, r_in: Ray, rec: &HitRecord, rng: &mut RandomSource) -> (out: Option<
        (Vec3, Ray),
    >)
        requires
            self.wf(),
            r_in.wf(),
            rec.wf(),
            len2_v(r_in@.dir) > 0,
        ensures
            out matches Some((att, sc)) ==> att.wf() && color_wf(att@) && sc.wf() && sc@.orig
                == rec@.p,
            scatter_outcome(
                *self,
                r_in@.dir,
                rec@,
                match out {
                    Some((att, sc)) => Some((att@, sc@.dir)),
                    None => None,
                },
            ),
            self matches Material::Lambertian { .. } ==> out.is_some(),
            self matches Material::Dielectric { .. } ==> out.is_some(),
            self matches Material::Metal { albedo, fuzz } && fuzz.raw == 0 ==> {
                let refl = reflect_v(unit_v(r_in@.dir), rec@.normal);
                &&& (out.is_some() <==> dot_v(refl, rec@.normal) > 0)
                &&& (out matches Some((att, sc)) ==> sc@.dir == refl)
            },
            self matches Material::Dielectric { ir } ==> {
                let unit = unit_v(r_in@.dir);
                let ratio = refraction_ratio_v(ir.raw as int, rec@.front_face);
                let cos = min_one_v(dot_v(vneg_v(unit), rec@.normal));
                fx_mul_v(ratio, sin_from_cos_v(cos)) > FX_ONE ==> out.unwrap().1@.dir
                    == reflect_v(unit, rec@.normal)
            },
    {
        match self {
            Material::Lambertian { albedo } => {
                let rv = Vec3::random_unit_vector(rng);
                let mut direction = rec.normal.add(rv);
                if direction.near_zero() {
                    direction = rec.normal;
                }
                proof {
                    let p = choose|p: V3i|
                        vwf(p) && 6554 <= len2_v(p) <= FX_ONE && rv@ == unit_v(p);
                    assert(direction@ == if near_zero_v(vadd_v(rec@.normal, unit_v(p))) {
                        rec@.normal
                    } else {
                        vadd_v(rec@.normal, unit_v(p))
                    });
                    assert(scatter_outcome(*self, r_in@.dir, rec@, Some((albedo@, direction@))));
                }
                Some((*albedo, Ray::new(rec.p, direction)))
            },
            Material::Metal { albedo, fuzz } => {
                let reflected = reflect(Vec3::unit_vector(r_in.direction), rec.normal);
                let sample = Vec3::random_in_unit_sphere(rng);
                let perturbed = reflected.add(sample.mul_s(*fuzz));
                proof {
                    assert(perturbed@ == vadd_v(reflected@, vscale_v(sample@, fuzz.raw as int)));
                    if fuzz.raw == 0 {
                        lemma_fx_mul_zero(sample@.x);
                        lemma_fx_mul_zero(sample@.y);
                        lemma_fx_mul_zero(sample@.z);
                    }
                }
                let scattered = Ray::new(rec.p, perturbed);
                if crate::vec3::dot(scattered.direction, rec.normal).raw > 0 {
                    proof {
                        assert(scatter_outcome(*self, r_in@.dir, rec@, Some((albedo@, perturbed@))));
                    }
                    Some((*albedo, scattered))
                } else {
                    proof {
                        assert(scatter_outcome(*self, r_in@.dir, rec@, None));
                    }
                    None
                }
            },
            Material::Dielectric { ir } => {
                let one = Fx::one();
                let ratio = if rec.front_face {
                    one.div(*ir)
                } else {
                    *ir
                };
                proof {
                    lemma_fx_div_nonneg(FX_ONE as int, ir.raw as int);
                }
                let unit_direction = Vec3::unit_vector(r_in.direction);
                let d = crate::vec3::dot(unit_direction.neg(), rec.normal);
                let cos_theta = if d.raw > FX_ONE {
                    one
                } else {
                    d
                };
                let s2 = one.sub(cos_theta.mul(cos_theta));
                let s2c = if s2.raw < 0 {
                    Fx::zero()
                } else {
                    s2
                };
                let sin_theta = s2c.sqrt();
                let cannot_refract = ratio.mul(sin_theta).raw > FX_ONE;
                let draw = if cannot_refract {
                    Fx::zero()
                } else {
                    rng.next_unit()
                };
                let direction = dielectric_direction(unit_direction, rec.normal, ratio, draw);
                proof {
                    assert(direction@ == dielectric_direction_v(
                        unit_v(r_in@.dir),
                        rec@.normal,
                        refraction_ratio_v(ir.raw as int, rec@.front_face),
                        draw.raw as int,
                    ));
                    assert(scatter_outcome(
                        *self,
                        r_in@.dir,
                        rec@,
                        Some((v3i(FX_ONE as int, FX_ONE as int, FX_ONE as int), direction@)),
                    ));
                }
                Some((Vec3::new(one, one, one), Ray::new(rec.p, direction)))
            },
        }
    }
}

} // verus!
