//! Diffuse (Lambertian-style) scattering.

use vstd::prelude::*;

use crate::components::ray::Ray;
use crate::fx::ONE_BITS;
use crate::types::color::Color;
use crate::types::hit_record::{hit_wf, HitRecord};
use crate::types::material::{in_unit_sphere, scatter_post, Material};
use crate::types::vec3::{addv, dot3, lensq3, nearly3, unitv, Vec3V};
use crate::utils::config::{Config, DiffuseScatterMode};
use crate::utils::utilities::{
    random_point_in_hemisphere, random_point_in_unit_sphere, random_unit_vector,
};

verus! {

/// A perturbation the configured sampling policy can produce.
pub open spec fn valid_diffuse_sample(mode: DiffuseScatterMode, normal: Vec3V, p: Vec3V) -> bool {
    match mode {
        DiffuseScatterMode::ApproxLambert => in_unit_sphere(p),
        DiffuseScatterMode::TrueLambert => exists|q: Vec3V| in_unit_sphere(q) && p == unitv(q),
        DiffuseScatterMode::Hemispherical => in_unit_sphere(p) && dot3(p, normal) >= 0,
    }
}

/// The scattered direction: the normal plus the perturbation, falling back
/// to the normal itself when the sum nearly vanishes.
pub open spec fn diffuse_dir(normal: Vec3V, p: Vec3V) -> Vec3V {
    if nearly3(addv(normal, p), 0) {
        normal
    } else {
        addv(normal, p)
    }
}

/// Matte material: scatters into a random direction near the normal and
/// attenuates by its albedo. It never absorbs.
#[derive(Clone, Copy, Debug)]
pub struct DiffuseMaterial {
    pub d_albedo: Color,
}

impl DiffuseMaterial {
    pub fn new(albedo: &Color) -> (r: DiffuseMaterial)
        ensures
            r.d_albedo@ == albedo@,
    {
        DiffuseMaterial { d_albedo: *albedo }
    }

    /// Scatter by the configured sampling policy. Always returns a ray.
    pub fn scatter(&self, parent_ray: &Ray, hit_record: &HitRecord, scene_config: &Config) -> (r:
        Option<(Ray, Color)>)
        requires
            hit_wf(hit_record@),
        ensures
            scatter_post(
                Material::Diffuse(*self),
                parent_ray@,
                hit_record@,
                crate::utils::config::spec_diffuse_scatter_mode(scene_config.rays),
                r,
            ),
    {
        let diffuse_scatter_mode = match scene_config.rays_config().diffuse_scatter_mode() {
            DiffuseScatterMode::ApproxLambert => random_point_in_unit_sphere(),
            DiffuseScatterMode::TrueLambert => random_unit_vector(),
            DiffuseScatterMode::Hemispherical => random_point_in_hemisphere(hit_record.normal()),
};
        let ghost s = diffuse_scatter_mode@;

        let mut scatter_direction = (*hit_record.normal()).add(diffuse_scatter_mode);

        if scatter_direction.is_nearly_zero() {
            scatter_direction = *hit_record.normal();
        }

        proof {
            let mode = crate::utils::config::spec_diffuse_scatter_mode(scene_config.rays);
            if mode is TrueLambert {
                let q = choose|q: Vec3V|
                    (0 < lensq3(q) < ONE_BITS as int) && s == unitv(q);
                assert(in_unit_sphere(q) && s == unitv(q));
            }
            assert(valid_diffuse_sample(mode, hit_record@.normal, s));
            assert(scatter_direction@ == diffuse_dir(hit_record@.normal, s));
        }
        Some((Ray::new(hit_record.point(), &scatter_direction), self.d_albedo))
    }
}

} // verus!
