//! The scattering capability, as a closed sum over the three scatter laws.

use vstd::prelude::*;

use crate::components::ray::{ray_wf, Ray, RayV};
use crate::fx::ONE_BITS;
use crate::types::color::Color;
use crate::types::dielectric_mat::{
    dielectric_cannot_refract, dielectric_ratio, DielectricMaterial,
};
use crate::types::diffuse_mat::{diffuse_dir, valid_diffuse_sample, DiffuseMaterial};
use crate::types::hit_record::{hit_wf, HitRecord, HitRecordV};
use crate::types::metal_mat::MetalMaterial;
use crate::types::vec3::{
    addv, dot3, lensq3, reflectv, refractv, scalev, unitv, Vec3V,
};
use crate::utils::config::Config;

verus! {

/// A material: a scattering law with its parameters.
#[derive(Clone, Copy, Debug)]
pub enum Material {
    Diffuse(DiffuseMaterial),
    Metal(MetalMaterial),
    Dielectric(DielectricMaterial),
}

/// An attenuation color has every channel in `[0, 1]`.
pub open spec fn albedo_wf(c: Vec3V) -> bool {
    &&& 0 <= c.x <= ONE_BITS as int
    &&& 0 <= c.y <= ONE_BITS as int
    &&& 0 <= c.z <= ONE_BITS as int
}

/// Parameters under which a material's scatter law is meaningful: albedos
/// are colors, roughness sits in `[0, 1]`, and an index of refraction sits
/// in `[1/4, 4]`.
pub open spec fn material_wf(m: Material) -> bool {
    match m {
        Material::Diffuse(d) => albedo_wf(d.d_albedo@),
        Material::Metal(mm) => albedo_wf(mm.d_albedo@) && 0 <= mm.d_roughness@ <= ONE_BITS as int,
        Material::Dielectric(dd) => crate::types::dielectric_mat::IOR_MIN_BITS as int <= dd.d_ior@
            <= crate::types::dielectric_mat::IOR_MAX_BITS as int,
    }
}

/// A point strictly inside the unit sphere, away from the origin of the
/// grid.
pub open spec fn in_unit_sphere(p: Vec3V) -> bool {
    0 < lensq3(p) < ONE_BITS as int
}

/// What every scattered ray satisfies: it starts at the hit point and stays
/// within the representable scene box.
pub open spec fn scattered_common(hit: HitRecordV, ray: Ray) -> bool {
    &&& ray@.origin == hit.point
    &&& ray_wf(ray@)
}

/// Everything the scatter laws promise of their result, per variant, for
/// whatever random samples were drawn.
pub open spec fn scatter_post(
    m: Material,
    ray: RayV,
    hit: HitRecordV,
    mode: crate::utils::config::DiffuseScatterMode,
    r: Option<(Ray, Color)>,
) -> bool {
    match m {
        Material::Diffuse(d) => {
            &&& r is Some
            &&& {
                let pair = r->0;
                &&& scattered_common(hit, pair.0)
                &&& pair.1@ == d.d_albedo@
                &&& exists|p: Vec3V|
                    valid_diffuse_sample(mode, hit.normal, p) && pair.0@.direction == diffuse_dir(
                        hit.normal,
                        p,
                    )
            }
        },
        Material::Metal(mm) => {
            &&& (r is Some) == (dot3(reflectv(unitv(ray.direction), hit.normal), hit.normal) > 0)
            &&& r is Some ==> {
                let pair = r->0;
                &&& scattered_common(hit, pair.0)
                &&& pair.1@ == mm.d_albedo@
                &&& exists|p: Vec3V|
                    in_unit_sphere(p) && pair.0@.direction == addv(
                        reflectv(unitv(ray.direction), hit.normal),
                        scalev(p, mm.d_roughness@),
                    )
            }
        },
        Material::Dielectric(dd) => {
            let u = unitv(ray.direction);
            let ratio = dielectric_ratio(dd.d_ior@, hit.front_face);
            let pair = r->0;
            &&& r is Some
            &&& scattered_common(hit, pair.0)
            &&& pair.1@ == (Vec3V { x: ONE_BITS as int, y: ONE_BITS as int, z: ONE_BITS as int })
            &&& (pair.0@.direction == reflectv(u, hit.normal) || pair.0@.direction == refractv(
                u,
                hit.normal,
                ratio,
            ))
            &&& dielectric_cannot_refract(u, hit.normal, ratio) ==> pair.0@.direction == reflectv(
                u,
                hit.normal,
            )
        },
    }
}

impl Material {
    /// Ask this material to scatter the incoming ray at the hit point.
    /// Returning nothing means the ray was absorbed.
    pub fn scatter(&self, parent_ray: &Ray, hit_record: &HitRecord, scene_config: &Config) -> (r:
        Option<(Ray, Color)>)
        requires
            material_wf(*self),
            hit_wf(hit_record@),
            ray_wf(parent_ray@),
            lensq3(parent_ray@.direction) >= 1,
        ensures
            scatter_post(
                *self,
                parent_ray@,
                hit_record@,
                crate::utils::config::spec_diffuse_scatter_mode(scene_config.rays),
                r,
            ),
    {
        match self {
            Material::Diffuse(d) => d.scatter(parent_ray, hit_record, scene_config),
            Material::Metal(mm) => mm.scatter(parent_ray, hit_record, scene_config),
            Material::Dielectric(dd) => dd.scatter(parent_ray, hit_record, scene_config),
        }
    }
}

} // verus!
