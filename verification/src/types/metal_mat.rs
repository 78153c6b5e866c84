//! Metallic (mirror) scattering with a roughness perturbation.

use vstd::prelude::*;

use crate::components::ray::{ray_wf, Ray};
use crate::fx::{lemma_fxmul_bound, Fx, ONE_BITS};
use crate::types::color::Color;
use crate::types::hit_record::{hit_wf, HitRecord};
use crate::types::material::{scatter_post, Material};
use crate::types::vec3::{
    addv, lensq3, reflectv, scalev, unitv,
};
use crate::utils::config::Config;
use crate::utils::utilities::{clamp, clamped, random_point_in_unit_sphere};

verus! {

/// Reflective material: mirrors the incoming direction, roughened by a
/// scaled random perturbation. Absorbs rays whose reflection would point
/// into the surface.
#[derive(Clone, Copy, Debug)]
pub struct MetalMaterial {
    pub d_albedo: Color,
    pub d_roughness: Fx,
}

impl MetalMaterial {
    /// Roughness is clamped into `[0, 1]`, never rejected.
    pub fn new(albedo: &Color, roughness: Fx) -> (r: MetalMaterial)
        ensures
            r.d_albedo@ == albedo@,
            r.d_roughness@ == clamped(roughness@, 0, ONE_BITS as int),
    {
        MetalMaterial { d_albedo: *albedo, d_roughness: clamp(roughness, Fx::zero(), Fx::one()) }
    }

    /// Scatter by mirror reflection; accept the result only if it leaves
    /// the surface.
    pub fn scatter(&self, parent_ray: &Ray, hit_record: &HitRecord, _scene_config: &Config) -> (r:
        Option<(Ray, Color)>)
        requires
            hit_wf(hit_record@),
            ray_wf(parent_ray@),
            lensq3(parent_ray@.direction) >= 1,
            0 <= self.d_roughness@ <= ONE_BITS as int,
        ensures
            scatter_post(
                Material::Metal(*self),
                parent_ray@,
                hit_record@,
                crate::utils::config::spec_diffuse_scatter_mode(_scene_config.rays),
                r,
            ),
    {
        let unit = parent_ray.direction().unit_vector().unwrap();
        let reflected_direction = unit.reflect(hit_record.normal());

        let p = random_point_in_unit_sphere();
        proof {
            lemma_fxmul_bound(p@.x, self.d_roughness@, ONE_BITS as int, ONE_BITS as int);
            lemma_fxmul_bound(p@.y, self.d_roughness@, ONE_BITS as int, ONE_BITS as int);
            lemma_fxmul_bound(p@.z, self.d_roughness@, ONE_BITS as int, ONE_BITS as int);
        }
        let perturbation = p.scaled(self.d_roughness);
        let dir = reflected_direction.add(perturbation);
        let scattered_ray = Ray::new(hit_record.point(), &dir);

        if reflected_direction.dot(hit_record.normal()).bits() > 0 {
            proof {
                assert(crate::types::material::in_unit_sphere(p@) && dir@ == addv(
                    reflectv(unitv(parent_ray@.direction), hit_record@.normal),
                    scalev(p@, self.d_roughness@),
                ));
            }
            Some((scattered_ray, self.d_albedo))
        } else {
            None
        }
    }
}

} // verus!
