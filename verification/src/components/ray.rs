//! Rays and the recursive color integrator.

use vstd::prelude::*;

use crate::components::traceable::{group_hit, group_wf, TraceableGroup};
use crate::fx::{fxmul, lemma_fxmul_bound, lemma_fxmul_one, Fx, ONE_BITS};
use crate::types::color::{color_white, Color, BOUND_COLOR};
use crate::types::material::material_wf;
use crate::types::vec3::{
    addv, bounded3, dot3, lensq3, reflectv, scalev, unitv, zerov, Vec3, Vec3V,
};
use crate::utils::config::{spec_max_child_rays, Config};

verus! {

/// Magnitude bound on the step counts of a ray origin or a hit point
/// (32768 units).
pub const BOUND_POINT: i128 = 140737488355328;

/// Magnitude bound on the step counts of a ray direction (8192 units).
pub const BOUND_DIR: i128 = 35184372088832;

/// Magnitude bound on the trace parameter (about 16.8 million units);
/// also the upper end of the trace interval used by the integrator.
pub const BOUND_TRACE: i128 = 72057594037927936;

/// Step count of the lower end of the trace interval the integrator uses:
/// a small positive epsilon (about `1e-5`) that suppresses
/// self-intersection at a hit point.
pub const TRACE_EPS_BITS: i128 = 42950;

/// Step count of one half.
pub const HALF_BITS: i128 = 2147483648;

/// Step count of seven tenths, a channel of the zenith color.
pub const ZENITH_G_BITS: i128 = 3006477107;

/// Mathematical image of a ray.
pub ghost struct RayV {
    pub origin: Vec3V,
    pub direction: Vec3V,
}

/// A ray whose origin and direction stay within the representable scene box.
pub open spec fn ray_wf(r: RayV) -> bool {
    &&& bounded3(r.origin, BOUND_POINT as int)
    &&& bounded3(r.direction, BOUND_DIR as int)
}

/// The point reached after `t` direction lengths: `origin + t * direction`.
pub open spec fn ray_at(r: RayV, t: int) -> Vec3V {
    addv(r.origin, scalev(r.direction, t))
}

/// Half line from an origin along a direction.
#[derive(Clone, Copy, Debug)]
pub struct Ray {
    pub d_origin: Vec3,
    pub d_direction: Vec3,
}

impl View for Ray {
    type V = RayV;

    open spec fn view(&self) -> RayV {
        RayV { origin: self.d_origin@, direction: self.d_direction@ }
    }
}

impl Ray {
    pub fn new(origin: &Vec3, direction: &Vec3) -> (r: Ray)
        ensures
            r@ == (RayV { origin: origin@, direction: direction@ }),
    {
        Ray { d_origin: *origin, d_direction: *direction }
    }

    pub fn origin(&self) -> (r: &Vec3)
        ensures
            r@ == self@.origin,
    {
        &self.d_origin
    }

    pub fn direction(&self) -> (r: &Vec3)
        ensures
            r@ == self@.direction,
    {
        &self.d_direction
    }

    /// The point `t` direction lengths along the ray.
    pub fn at(&self, t: Fx) -> (r: Vec3)
        requires
            ray_wf(self@),
            -(BOUND_TRACE as int) <= t@ <= BOUND_TRACE as int,
        ensures
            r@ == ray_at(self@, t@),
    {
        proof {
            crate::fx::lemma_fxmul_bound(self@.direction.x, t@, BOUND_DIR as int,
                BOUND_TRACE as int);
            crate::fx::lemma_fxmul_bound(self@.direction.y, t@, BOUND_DIR as int,
                BOUND_TRACE as int);
            crate::fx::lemma_fxmul_bound(self@.direction.z, t@, BOUND_DIR as int,
                BOUND_TRACE as int);
        }
        self.d_origin.add(self.d_direction.scaled(t))
    }

    /// The radiance along this ray through the scene, bounded by the
    /// configured recursion depth.
    pub fn ray_color(&self, scene_objects: &TraceableGroup, scene_config: &Config) -> (r: Color)
        requires
            ray_wf(self@),
            lensq3(self@.direction) >= 1,
            group_wf(scene_objects@),
        ensures
            spec_max_child_rays(scene_config.rays) == 0 ==> r@ == zerov(),
            spec_max_child_rays(scene_config.rays) > 0 && group_hit(
                scene_objects@,
                self@,
                TRACE_EPS_BITS as int,
                BOUND_TRACE as int,
            ) is None ==> r@ == background_of(self@),
            metal_absorbs(scene_objects@, self@) ==> r@ == zerov(),
            bounded3(r@, BOUND_COLOR as int),
    {
        self.ray_color_internal(
            scene_objects,
            scene_config,
            scene_config.rays_config().max_child_rays(),
        )
    }

    /// One level of the recursive radiance estimate: find the nearest hit
    /// over `[epsilon, far]`, ask its material to scatter, recurse on the
    /// scattered ray and attenuate; with no hit, blend the background
    /// gradient; with no depth left, return black. A scattered direction
    /// that vanishes on the grid counts as absorbed.
    fn ray_color_internal(&self, scene_objects: &TraceableGroup, scene_config: &Config, depth: u64)
        -> (r: Color)
        requires
            ray_wf(self@),
            lensq3(self@.direction) >= 1,
            group_wf(scene_objects@),
        ensures
            depth == 0 ==> r@ == zerov(),
            depth > 0 && group_hit(
                scene_objects@,
                self@,
                TRACE_EPS_BITS as int,
                BOUND_TRACE as int,
            ) is None ==> r@ == background_of(self@),
            metal_absorbs(scene_objects@, self@) ==> r@ == zerov(),
            bounded3(r@, BOUND_COLOR as int),
        decreases depth,
    {
        if depth == 0 {
            return Vec3::zero_vec();
        }

        let hit_record_option = self.hit_scene(scene_objects);
        if let Some(hit_record) = hit_record_option {
            if let Some((scattered_ray, attenuated_color)) = hit_record.material().scatter(
                self,
                &hit_record,
                scene_config,
            ) {
                let ls = scattered_ray.direction().len_squared();
                if ls.bits() == 0 {
                    return Vec3::zero_vec();
                }
                let rec = scattered_ray.ray_color_internal(scene_objects, scene_config, depth - 1);
                proof {
                    lemma_fxmul_bound(rec@.x, attenuated_color@.x, BOUND_COLOR as int,
                        ONE_BITS as int);
                    lemma_fxmul_bound(rec@.y, attenuated_color@.y, BOUND_COLOR as int,
                        ONE_BITS as int);
                    lemma_fxmul_bound(rec@.z, attenuated_color@.z, BOUND_COLOR as int,
                        ONE_BITS as int);
                }
                return rec.mul(attenuated_color);
            } else {
                return Vec3::zero_vec();
            }
        }

        let unit = self.direction().unit_vector().unwrap();
        proof {
            lemma_fxmul_bound(unit@.y + ONE_BITS as int, HALF_BITS as int, 3 * ONE_BITS as int,
                HALF_BITS as int);
        }
        let t = unit.y().add(Fx::one()).mul(Fx::from_bits(HALF_BITS));
        proof {
            lemma_fxmul_one(ONE_BITS as int - t@);
            lemma_fxmul_bound(HALF_BITS as int, t@, ONE_BITS as int, 6442450944);
            lemma_fxmul_bound(ZENITH_G_BITS as int, t@, ONE_BITS as int, 6442450944);
            lemma_fxmul_bound(ONE_BITS as int, t@, ONE_BITS as int, 6442450944);
        }

        let start_blend = color_white();
        let end_blend = Color::new(Fx::from_bits(HALF_BITS), Fx::from_bits(ZENITH_G_BITS), Fx::one());

        start_blend.scaled(Fx::one().sub(t)).add(end_blend.scaled(t))
    }

    /// The nearest hit of this ray in the scene over the integrator's trace
    /// interval.
    fn hit_scene(&self, scene_objects: &TraceableGroup) -> (r: Option<
        crate::types::hit_record::HitRecord,
    >)
        requires
            ray_wf(self@),
            lensq3(self@.direction) >= 1,
            group_wf(scene_objects@),
        ensures
            crate::components::traceable::opt_hit_view(r) == group_hit(
                scene_objects@,
                self@,
                TRACE_EPS_BITS as int,
                BOUND_TRACE as int,
            ),
            r is Some ==> crate::types::hit_record::hit_wf(r->0@) && material_wf(r->0@.material)
                && TRACE_EPS_BITS as int <= r->0@.trace <= BOUND_TRACE as int,
    {
        scene_objects.intersects_ray(
            self,
            Fx::from_bits(TRACE_EPS_BITS),
            Fx::from_bits(BOUND_TRACE),
        )
    }
}

/// The ray's nearest hit is a metal whose mirror reflection would point
/// into the surface: the one deterministic absorption. Whatever the depth
/// and whatever was drawn, the integrator answers black here.
pub open spec fn metal_absorbs(objs: Seq<crate::components::sphere::SphereV>, r: RayV) -> bool {
    let h = group_hit(objs, r, TRACE_EPS_BITS as int, BOUND_TRACE as int);
    &&& h is Some
    &&& h->0.material is Metal
    &&& dot3(reflectv(unitv(r.direction), h->0.normal), h->0.normal) <= 0
}

/// The background gradient: a blend between the horizon white and the
/// zenith blue by the height of the unit direction,
/// `t = (unit.y + 1) / 2`.
pub open spec fn background_of(r: RayV) -> Vec3V {
    let u = unitv(r.direction);
    let t = fxmul(u.y + ONE_BITS as int, HALF_BITS as int);
    addv(
        scalev(Vec3V { x: ONE_BITS as int, y: ONE_BITS as int, z: ONE_BITS as int }, (
        ONE_BITS as int) - t),
        scalev(Vec3V { x: HALF_BITS as int, y: ZENITH_G_BITS as int, z: ONE_BITS as int }, t),
    )
}

} // verus!
