//! The preview-stage ray: shades the first sphere it meets by that
//! sphere's surface normal, with the background gradient behind.

use vstd::prelude::*;

use crate::components::ray::{
    background_of, ray_at, ray_wf, RayV, BOUND_TRACE, HALF_BITS, ZENITH_G_BITS,
};
use crate::fx::{fxmul, lemma_fxmul_bound, lemma_fxmul_one, Fx, ONE_BITS};
use crate::types::color::Color;
use crate::types::component::{bare_sphere_wf, component_hit, BareSphereV, Sphere};
use crate::types::vec3::{
    bounded3, lensq3, scalev, subv, unitv, Vec3, Vec3V,
};

verus! {

/// Magnitude bound on the step counts of a shadeable hit point
/// displacement.
pub const BOUND_SHADE: i128 = 1152921504606846976;

/// The normal-shade of a hit at trace `t`: half of one plus each component
/// of the unit normal. A hit whose geometry leaves the representable range
/// paints black.
pub open spec fn preview_shade(s: BareSphereV, r: RayV, t: int) -> Vec3V {
    let diff = subv(ray_at(r, t), s.center);
    if -(BOUND_TRACE as int) <= t <= BOUND_TRACE as int && bounded3(diff, BOUND_SHADE as int)
        && lensq3(diff) != 0 {
        let n = unitv(diff);
        scalev(
            Vec3V {
                x: ONE_BITS as int + n.x,
                y: ONE_BITS as int + n.y,
                z: ONE_BITS as int + n.z,
            },
            HALF_BITS as int,
        )
    } else {
        Vec3V { x: 0, y: 0, z: 0 }
    }
}

/// The preview color of a ray: the normal-shade of the first member whose
/// line the ray meets, else the background gradient.
pub open spec fn preview_color(objs: Seq<BareSphereV>, r: RayV) -> Vec3V
    decreases objs.len(),
{
    if objs.len() == 0 {
        background_of(r)
    } else {
        match component_hit(objs[0].center, objs[0].radius, r) {
            Some(t) => preview_shade(objs[0], r, t),
            None => preview_color(objs.skip(1), r),
        }
    }
}

/// Every member fits the representable scene box.
pub open spec fn bare_group_wf(objs: Seq<BareSphereV>) -> bool {
    forall|i: int| 0 <= i < objs.len() ==> bare_sphere_wf(#[trigger] objs[i])
}

/// Half line from an origin along a direction, at the preview stage.
#[derive(Clone, Copy, Debug)]
pub struct Ray {
    pub d_origin: Vec3,
    pub d_direction: Vec3,
}

impl View for Ray {
    type V = RayV;

    open spec fn view(&self) -> RayV {
        RayV { origin: self.d_origin@, direction: self.d_direction@ }
    }
}

impl Ray {
    pub fn new(origin: &Vec3, direction: &Vec3) -> (r: Ray)
        ensures
            r@ == (RayV { origin: origin@, direction: direction@ }),
    {
        Ray { d_origin: *origin, d_direction: *direction }
    }

    pub fn origin(&self) -> (r: &Vec3)
        ensures
            r@ == self@.origin,
    {
        &self.d_origin
    }

    pub fn direction(&self) -> (r: &Vec3)
        ensures
            r@ == self@.direction,
    {
        &self.d_direction
    }

    /// The point `t` direction lengths along the ray.
    pub fn at(&self, t: Fx) -> (r: Vec3)
        requires
            ray_wf(self@),
            -(BOUND_TRACE as int) <= t@ <= BOUND_TRACE as int,
        ensures
            r@ == ray_at(self@, t@),
    {
        proof {
            lemma_fxmul_bound(self@.direction.x, t@, crate::components::ray::BOUND_DIR as int,
                BOUND_TRACE as int);
            lemma_fxmul_bound(self@.direction.y, t@, crate::components::ray::BOUND_DIR as int,
                BOUND_TRACE as int);
            lemma_fxmul_bound(self@.direction.z, t@, crate::components::ray::BOUND_DIR as int,
                BOUND_TRACE as int);
        }
        self.d_origin.add(self.d_direction.scaled(t))
    }

    /// The preview color along this ray: the first member hit, shaded by
    /// its normal; the background gradient where nothing is hit.
    pub fn ray_color(&self, components: &Vec<Sphere>) -> (r: Color)
        requires
            ray_wf(self@),
            lensq3(self@.direction) >= 1,
            bare_group_wf(components@.map_values(|s: Sphere| s@)),
        ensures
            r@ == preview_color(components@.map_values(|s: Sphere| s@), self@),
    {
        let ghost objs = components@.map_values(|s: Sphere| s@);
        let probe = crate::components::ray::Ray::new(self.origin(), self.direction());
        let mut i: usize = 0;
        proof {
            assert(objs.skip(0) =~= objs);
        }
        while i < components.len()
            invariant
                0 <= i <= components.len(),
                objs == components@.map_values(|s: Sphere| s@),
                objs.len() == components@.len(),
                ray_wf(self@),
                lensq3(self@.direction) >= 1,
                bare_group_wf(objs),
                probe@ == self@,
                preview_color(objs.skip(i as int), self@) == preview_color(objs, self@),
            decreases components.len() - i,
        {
            let component = &components[i];
            proof {
                assert(objs[i as int] == component@);
                assert(objs.skip(i as int)[0] == objs[i as int]);
                assert(objs.skip(i as int).skip(1) =~= objs.skip(i as int + 1));
            }
            let intersection = component.intersects_ray(&probe);
            if let Some(t) = intersection {
                return self.shade_hit(component, t);
            }
            i = i + 1;
        }

        let unit = self.direction().unit_vector().unwrap();
        proof {
            lemma_fxmul_bound(unit@.y + ONE_BITS as int, HALF_BITS as int, 3 * ONE_BITS as int,
                HALF_BITS as int);
            lemma_fxmul_one(ONE_BITS as int - fxmul(unit@.y + ONE_BITS as int, HALF_BITS as int));
            lemma_fxmul_bound(HALF_BITS as int, fxmul(unit@.y + ONE_BITS as int, HALF_BITS as int),
                ONE_BITS as int, 6442450944);
            lemma_fxmul_bound(ZENITH_G_BITS as int, fxmul(
                unit@.y + ONE_BITS as int,
                HALF_BITS as int,
            ), ONE_BITS as int, 6442450944);
            lemma_fxmul_bound(ONE_BITS as int, fxmul(unit@.y + ONE_BITS as int, HALF_BITS as int),
                ONE_BITS as int, 6442450944);
        }
        let t = unit.y().add(Fx::one()).mul(Fx::from_bits(HALF_BITS));

        let start_blend = crate::types::color::color_white();
        let end_blend = Color::new(Fx::from_bits(HALF_BITS), Fx::from_bits(ZENITH_G_BITS), Fx::one());

        start_blend.scaled(Fx::one().sub(t)).add(end_blend.scaled(t))
    }

    /// Shade one hit by its unit normal; out-of-range geometry paints
    /// black.
    fn shade_hit(&self, component: &Sphere, t: Fx) -> (r: Color)
        requires
            ray_wf(self@),
            bare_sphere_wf(component@),
        ensures
            r@ == preview_shade(component@, self@, t@),
    {
        if t.bits() < -BOUND_TRACE || BOUND_TRACE < t.bits() {
            return Vec3::zero_vec();
        }
        proof {
            lemma_fxmul_bound(self@.direction.x, t@, crate::components::ray::BOUND_DIR as int,
                BOUND_TRACE as int);
            lemma_fxmul_bound(self@.direction.y, t@, crate::components::ray::BOUND_DIR as int,
                BOUND_TRACE as int);
            lemma_fxmul_bound(self@.direction.z, t@, crate::components::ray::BOUND_DIR as int,
                BOUND_TRACE as int);
        }
        let diff = self.at(t).sub(*component.center());
        if !diff.in_bounds(BOUND_SHADE) {
            return Vec3::zero_vec();
        }
        let q = diff.len_squared();
        if q.bits() == 0 {
            return Vec3::zero_vec();
        }
        let normal = match diff.unit_vector() {
            Ok(n) => n,
            Err(_) => {
                return Vec3::zero_vec();
            },
};
        let one = Fx::one();
        proof {
            lemma_fxmul_bound(ONE_BITS as int + unitv(diff@).x, HALF_BITS as int,
                3 * ONE_BITS as int, HALF_BITS as int);
            lemma_fxmul_bound(ONE_BITS as int + unitv(diff@).y, HALF_BITS as int,
                3 * ONE_BITS as int, HALF_BITS as int);
            lemma_fxmul_bound(ONE_BITS as int + unitv(diff@).z, HALF_BITS as int,
                3 * ONE_BITS as int, HALF_BITS as int);
        }
        Color::new(one.add(normal.x()), one.add(normal.y()), one.add(normal.z())).scaled(
            Fx::from_bits(HALF_BITS),
        )
    }
}

} // verus!
