//! Dielectric (glass-like) scattering: refraction with total internal
//! reflection and Schlick's angle-dependent reflectance.

use vstd::prelude::*;

use crate::components::ray::{ray_wf, Ray};
use crate::fx::{fxdiv, fxmul, fxsqrt, lemma_fxdiv_bound, lemma_fxmul_bound, Fx, ONE_BITS};
use crate::types::color::{color_white, Color};
use crate::types::hit_record::{hit_wf, HitRecord};
use crate::types::material::{scatter_post, Material};
use crate::types::vec3::{
    dot3, lemma_dot3_bound, lemma_fxsqrt_bound, lensq3, Vec3, Vec3V,
    BOUND_IOR,
};
use crate::utils::config::Config;
use crate::utils::utilities::random_fx;

verus! {

/// Smallest index of refraction the scatter law admits (one quarter).
pub const IOR_MIN_BITS: i128 = 1073741824;

/// Largest index of refraction the scatter law admits (four).
pub const IOR_MAX_BITS: i128 = 17179869184;

/// Index of refraction of air.
pub const IOR_AIR: i128 = 4294967296;

/// Index of refraction of ice (about 1.309).
pub const IOR_ICE: i128 = 5622132259;

/// Index of refraction of water (about 1.325).
pub const IOR_WATER: i128 = 5690831667;

/// Index of refraction of glass (1.5).
pub const IOR_GLASS: i128 = 6442450944;

/// Index of refraction of diamond (about 2.418).
pub const IOR_DIAMOND: i128 = 10385230922;

/// The relative index of refraction at a hit: the reciprocal when entering
/// the medium, the index itself when leaving it.
pub open spec fn dielectric_ratio(ior: int, front_face: bool) -> int {
    if front_face {
        fxdiv(ONE_BITS as int, ior)
    } else {
        ior
    }
}

/// Cosine between the inverted incoming unit direction and the normal,
/// capped at one.
pub open spec fn dielectric_cos(u: Vec3V, n: Vec3V) -> int {
    let d = -dot3(n, u);
    if d <= ONE_BITS as int {
        d
    } else {
        ONE_BITS as int
    }
}

/// Sine from the cosine, with the radicand floored at zero.
pub open spec fn dielectric_sin(cos: int) -> int {
    let k = ONE_BITS as int - fxmul(cos, cos);
    fxsqrt(
        if k >= 0 {
            k
        } else {
            0
        },
    )
}

/// Refraction is impossible (total internal reflection) when
/// `ratio * sin` exceeds one.
pub open spec fn dielectric_cannot_refract(u: Vec3V, n: Vec3V, ratio: int) -> bool {
    fxmul(ratio, dielectric_sin(dielectric_cos(u, n))) > ONE_BITS as int
}

/// Schlick's reflectance approximation:
/// `r0 + (1 - r0) (1 - cos)^5` with `r0 = ((1 - ratio) / (1 + ratio))^2`.
pub open spec fn spec_reflectance(cos: int, ratio: int) -> int {
    let r0 = fxdiv(ONE_BITS as int - ratio, ONE_BITS as int + ratio);
    let r0sq = fxmul(r0, r0);
    let p1 = ONE_BITS as int - cos;
    let p2 = fxmul(p1, p1);
    let p4 = fxmul(p2, p2);
    let p5 = fxmul(p4, p1);
    r0sq + fxmul(ONE_BITS as int - r0sq, p5)
}

/// Transparent material: refracts when Snell's law allows it, reflects on
/// total internal reflection, and otherwise chooses between the two with
/// probability given by Schlick's approximation. It never absorbs and does
/// not tint.
#[derive(Clone, Copy, Debug)]
pub struct DielectricMaterial {
    pub d_ior: Fx,
}

impl DielectricMaterial {
    pub fn new(ior: Fx) -> (r: DielectricMaterial)
        ensures
            r.d_ior@ == ior@,
    {
        DielectricMaterial { d_ior: ior }
    }

    /// Schlick's reflectance approximation, to address varying reflectivity
    /// by ray angle.
    fn reflectance(cos_theta: Fx, relative_ior: Fx) -> (r: Fx)
        requires
            -13 * (ONE_BITS as int) <= cos_theta@ <= ONE_BITS as int,
            0 <= relative_ior@ <= BOUND_IOR as int,
        ensures
            r@ == spec_reflectance(cos_theta@, relative_ior@),
    {
        let one = Fx::one();
        proof {
            lemma_fxdiv_bound(
                (ONE_BITS as int) - relative_ior@,
                (ONE_BITS as int) + relative_ior@,
                4 * ONE_BITS as int,
                ONE_BITS as int,
            );
            lemma_fxmul_bound(
                fxdiv((ONE_BITS as int) - relative_ior@, (ONE_BITS as int) + relative_ior@),
                fxdiv((ONE_BITS as int) - relative_ior@, (ONE_BITS as int) + relative_ior@),
                4 * ONE_BITS as int,
                4 * ONE_BITS as int,
            );
        }
        let r0 = one.sub(relative_ior).div(one.add(relative_ior));
        let r0 = r0.mul(r0);
        let p1 = one.sub(cos_theta);
        proof {
            lemma_fxmul_bound(p1@, p1@, 14 * ONE_BITS as int, 14 * ONE_BITS as int);
            lemma_fxmul_bound(fxmul(p1@, p1@), fxmul(p1@, p1@), 196 * ONE_BITS as int,
                196 * ONE_BITS as int);
            lemma_fxmul_bound(fxmul(fxmul(p1@, p1@), fxmul(p1@, p1@)), p1@,
                38416 * ONE_BITS as int, 14 * ONE_BITS as int);
            lemma_fxmul_bound((ONE_BITS as int) - r0@, fxmul(
                fxmul(fxmul(p1@, p1@), fxmul(p1@, p1@)),
                p1@,
            ), 17 * ONE_BITS as int, 537824 * ONE_BITS as int);
        }
        let p2 = p1.mul(p1);
        let p4 = p2.mul(p2);
        let p5 = p4.mul(p1);
        r0.add(one.sub(r0).mul(p5))
    }

    /// Scatter by refraction or reflection. Always returns a ray; the
    /// attenuation is full-transmission white.
    pub fn scatter(&self, parent_ray: &Ray, hit_record: &HitRecord, _scene_config: &Config) -> (r:
        Option<(Ray, Color)>)
        requires
            hit_wf(hit_record@),
            ray_wf(parent_ray@),
            lensq3(parent_ray@.direction) >= 1,
            IOR_MIN_BITS as int <= self.d_ior@ <= IOR_MAX_BITS as int,
        ensures
            scatter_post(
                Material::Dielectric(*self),
                parent_ray@,
                hit_record@,
                crate::utils::config::spec_diffuse_scatter_mode(_scene_config.rays),
                r,
            ),
    {
        let one = Fx::one();
        proof {
            lemma_fxdiv_bound(ONE_BITS as int, self.d_ior@, ONE_BITS as int,
                IOR_MIN_BITS as int);
        }
        let refraction_ratio = if hit_record.is_front_facing() {
            one.div(self.d_ior)
        } else {
            self.d_ior
        };
        proof {
            assert(0 <= refraction_ratio@ <= BOUND_IOR as int);
        }

        let unit = parent_ray.direction().unit_vector().unwrap();
        proof {
            lemma_dot3_bound(hit_record@.normal, unit@, 2 * ONE_BITS as int, 2 * ONE_BITS as int);
        }
        let cos_theta = hit_record.normal().dot(&unit).neg().min(one);
        proof {
            lemma_fxmul_bound(cos_theta@, cos_theta@, 12 * ONE_BITS as int, 12 * ONE_BITS as int);
        }
        let k = one.sub(cos_theta.mul(cos_theta));
        let kk = if k.bits() < 0 {
            Fx::zero()
        } else {
            k
        };
        let sin_theta = kk.sqrt();
        proof {
            lemma_fxsqrt_bound(kk@, 13 * ONE_BITS as int);
            lemma_fxmul_bound(refraction_ratio@, sin_theta@, BOUND_IOR as int,
                13 * ONE_BITS as int);
        }
        let cannot_refract = Fx::one().lt(refraction_ratio.mul(sin_theta));

        let new_ray_direction: Vec3;

        if cannot_refract || random_fx().lt(
            DielectricMaterial::reflectance(cos_theta, refraction_ratio),
        ) {
            new_ray_direction = unit.reflect(hit_record.normal());
        } else {
            new_ray_direction = unit.refract(hit_record.normal(), refraction_ratio);
        }

        let scattered_ray = Ray::new(hit_record.point(), &new_ray_direction);
        Some((scattered_ray, color_white()))
    }
}

} // verus!
