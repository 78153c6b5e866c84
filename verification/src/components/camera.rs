//! The camera: maps normalized image-plane coordinates to world rays.

use vstd::prelude::*;

use crate::components::ray::{ray_wf, Ray};
use crate::components::traceable::{group_wf, TraceableGroup};
use crate::fx::{
    fxdiv, fxmul, lemma_fxdiv_bound, lemma_fxmul_bound, lemma_tdiv_bound, tdiv,
    Fx, ONE_BITS, SCALE,
};
use crate::types::color::{Color, BOUND_COLOR};
use crate::types::hit_record::Point3;
use crate::types::vec3::{
    addv, bounded3, lensq3, scalev, subv, Vec3, Vec3V,
};
use crate::utils::config::{AntialiasingMode, Config};
use crate::utils::utilities::random_fx;

verus! {

/// Magnitude bound on the step counts of the camera origin, focal length
/// and viewport spans (1024 units).
pub const BOUND_CAM: i128 = 4398046511104;

/// Smallest admissible focal length: one grid step of the square-root
/// scale, so that every camera ray has a direction visible on the grid.
pub const MIN_FOCAL_BITS: i128 = 65536;

/// Largest image dimension the sampler accepts.
pub const MAX_IMAGE_DIM: u64 = 1048576;

/// Mathematical image of a camera.
pub ghost struct CameraV {
    pub origin: Vec3V,
    pub lower_left_corner: Vec3V,
    pub horizontal: Vec3V,
    pub vertical: Vec3V,
}

/// A camera whose viewport geometry stays within the representable box,
/// spans the image plane along the axes, and looks down the z axis from at
/// least the minimal focal distance.
pub open spec fn camera_wf(c: CameraV) -> bool {
    &&& bounded3(c.origin, BOUND_CAM as int)
    &&& bounded3(c.lower_left_corner, 3 * BOUND_CAM as int)
    &&& bounded3(c.horizontal, BOUND_CAM as int)
    &&& bounded3(c.vertical, BOUND_CAM as int)
    &&& c.horizontal.y == 0 && c.horizontal.z == 0
    &&& c.vertical.x == 0 && c.vertical.z == 0
    &&& c.origin.z - c.lower_left_corner.z >= MIN_FOCAL_BITS as int
}

/// The viewport geometry derived from origin, viewport spans and focal
/// length: the lower-left corner sits half a span left and down and one
/// focal length ahead.
pub open spec fn camera_new_spec(origin: Vec3V, vw: int, vh: int, focal: int) -> CameraV {
    let h = Vec3V { x: vw * ONE_BITS as int, y: 0, z: 0 };
    let v = Vec3V { x: 0, y: vh * ONE_BITS as int, z: 0 };
    CameraV {
        origin: origin,
        lower_left_corner: subv(
            origin,
            Vec3V {
                x: fxdiv(h.x, 2 * ONE_BITS as int),
                y: fxdiv(v.y, 2 * ONE_BITS as int),
                z: focal,
            },
        ),
        horizontal: h,
        vertical: v,
    }
}

/// The direction of the ray through image-plane coordinates `(u, v)`.
pub open spec fn get_ray_dir(c: CameraV, u: int, v: int) -> Vec3V {
    subv(addv(addv(c.lower_left_corner, scalev(c.horizontal, u)), scalev(c.vertical, v)), c.origin)
}

/// Whether the camera settings of a configuration can build a camera.
pub open spec fn camera_config_wf(c: crate::utils::config::CameraConfig) -> bool {
    &&& c.origin is Some
    &&& bounded3(c.origin->0@, BOUND_CAM as int)
    &&& c.focal_length is Some
    &&& MIN_FOCAL_BITS as int <= c.focal_length->0@ <= BOUND_CAM as int
    &&& c.viewport_width <= 1024
    &&& c.viewport_height <= 1024
}

/// Camera: an origin and the derived viewport geometry, fixed at
/// construction.
#[derive(Clone, Copy, Debug)]
pub struct Camera {
    pub d_origin: Point3,
    pub d_lower_left_corner: Point3,
    pub d_horizontal: Vec3,
    pub d_vertical: Vec3,
}

impl View for Camera {
    type V = CameraV;

    open spec fn view(&self) -> CameraV {
        CameraV {
            origin: self.d_origin@,
            lower_left_corner: self.d_lower_left_corner@,
            horizontal: self.d_horizontal@,
            vertical: self.d_vertical@,
        }
    }
}

impl Camera {
    pub fn new(origin: &Point3, viewport_width: u64, viewport_height: u64, focal_length: Fx) -> (r:
        Camera)
        requires
            bounded3(origin@, BOUND_CAM as int),
            viewport_width <= 1024,
            viewport_height <= 1024,
            MIN_FOCAL_BITS as int <= focal_length@ <= BOUND_CAM as int,
        ensures
            r@ == camera_new_spec(
                origin@,
                viewport_width as int,
                viewport_height as int,
                focal_length@,
            ),
            camera_wf(r@),
    {
        let horizontal = Vec3::new(Fx::from_int(viewport_width as i64), Fx::zero(), Fx::zero());
        let vertical = Vec3::new(Fx::zero(), Fx::from_int(viewport_height as i64), Fx::zero());
        let two = Fx::from_int(2);
        proof {
            lemma_fxdiv_bound(horizontal@.x, 2 * ONE_BITS as int, BOUND_CAM as int,
                2 * ONE_BITS as int);
            lemma_fxdiv_bound(vertical@.y, 2 * ONE_BITS as int, BOUND_CAM as int,
                2 * ONE_BITS as int);
        }
        let corner_shift = Vec3::new(
            horizontal.x().div(two),
            vertical.y().div(two),
            focal_length,
        );

        Camera {
            d_origin: *origin,
            d_lower_left_corner: (*origin).sub(corner_shift),
            d_horizontal: horizontal,
            d_vertical: vertical,
        }
    }

    /// Build the camera from the configuration's camera settings.
    pub fn configure(configuration: &Config) -> (r: Camera)
        requires
            camera_config_wf(configuration.camera),
        ensures
            r@ == camera_new_spec(
                configuration.camera.origin->0@,
                configuration.camera.viewport_width as int,
                configuration.camera.viewport_height as int,
                configuration.camera.focal_length->0@,
            ),
            camera_wf(r@),
    {
        let origin = configuration.camera_config().origin();
        Camera::new(
            &origin,
            configuration.camera_config().viewport_width(),
            configuration.camera_config().viewport_height(),
            configuration.camera_config().focal_length(),
        )
    }

    /// The ray from the camera origin through image-plane coordinates
    /// `(u, v)`, each nominally in `[0, 1]`.
    pub fn get_ray(&self, u: Fx, v: Fx) -> (r: Ray)
        requires
            camera_wf(self@),
            -2 * (ONE_BITS as int) <= u@ <= 2 * ONE_BITS as int,
            -2 * (ONE_BITS as int) <= v@ <= 2 * ONE_BITS as int,
        ensures
            r@.origin == self@.origin,
            r@.direction == get_ray_dir(self@, u@, v@),
            ray_wf(r@),
            lensq3(r@.direction) >= 1,
    {
        proof {
            lemma_fxmul_bound(self@.horizontal.x, u@, BOUND_CAM as int, 2 * ONE_BITS as int);
            lemma_fxmul_bound(self@.horizontal.y, u@, BOUND_CAM as int, 2 * ONE_BITS as int);
            lemma_fxmul_bound(self@.horizontal.z, u@, BOUND_CAM as int, 2 * ONE_BITS as int);
            lemma_fxmul_bound(self@.vertical.x, v@, BOUND_CAM as int, 2 * ONE_BITS as int);
            lemma_fxmul_bound(self@.vertical.y, v@, BOUND_CAM as int, 2 * ONE_BITS as int);
            lemma_fxmul_bound(self@.vertical.z, v@, BOUND_CAM as int, 2 * ONE_BITS as int);
        }
        let direction = self.d_lower_left_corner.add(self.d_horizontal.scaled(u)).add(
            self.d_vertical.scaled(v),
        ).sub(self.d_origin);
        proof {
            let d = get_ray_dir(self@, u@, v@);
            assert(fxmul(self@.horizontal.z, u@) == 0 && fxmul(self@.vertical.z, v@) == 0);
            assert(d.z <= -(MIN_FOCAL_BITS as int));
            assert(d.z * d.z >= (MIN_FOCAL_BITS as int) * (MIN_FOCAL_BITS as int))
                by (nonlinear_arith)
                requires
                    d.z <= -(MIN_FOCAL_BITS as int),
            ;
            lemma_tdiv_bound(d.z * d.z, SCALE as int);
            assert(fxmul(d.z, d.z) >= 1) by (nonlinear_arith)
                requires
                    d.z * d.z >= (MIN_FOCAL_BITS as int) * (MIN_FOCAL_BITS as int),
                    fxmul(d.z, d.z) == tdiv(d.z * d.z, SCALE as int),
                    d.z * d.z < (SCALE as int) * (tdiv(d.z * d.z, SCALE as int) + 1),
            ;
            crate::types::vec3::lemma_square_nonneg(d.x);
            crate::types::vec3::lemma_square_nonneg(d.y);
        }
        Ray::new(&self.d_origin, &direction)
    }

    /// The color of pixel `(i, j)`: the configured number of samples, each
    /// jittered under multisampling, accumulated without averaging.
    pub fn sample_pixel(&self, scene_objects: &TraceableGroup, scene_config: &Config, i: u64, j: u64)
        -> (r: Color)
        requires
            camera_wf(self@),
            group_wf(scene_objects@),
            2 <= scene_config.image.image_width <= MAX_IMAGE_DIM,
            2 <= scene_config.image.image_height <= MAX_IMAGE_DIM,
            i < scene_config.image.image_width,
            j < scene_config.image.image_height,
        ensures
            bounded3(r@, 150 * BOUND_COLOR as int),
    {
        let mut pixel_color = Vec3::zero_vec();
        let samples = scene_config.image_config().samples_per_pixel();
        let msaa = match scene_config.image_config().aa_mode() {
            AntialiasingMode::MSAA => true,
            AntialiasingMode::Off => false,
};
        let aa_multiplier = if msaa {
            Fx::one()
        } else {
            Fx::zero()
        };

        let mut s: u64 = 0;
        while s < samples
            invariant
                camera_wf(self@),
                group_wf(scene_objects@),
                2 <= scene_config.image.image_width <= MAX_IMAGE_DIM,
                2 <= scene_config.image.image_height <= MAX_IMAGE_DIM,
                i < scene_config.image.image_width,
                j < scene_config.image.image_height,
                samples <= 50,
                s <= samples,
                aa_multiplier@ == 0 || aa_multiplier@ == ONE_BITS as int,
                bounded3(pixel_color@, s as int * (3 * ONE_BITS as int)),
            decreases samples - s,
        {
            let u = Camera::plane_coord(i, scene_config.image_config().image_width(), aa_multiplier);
            let v = Camera::plane_coord(
                j,
                scene_config.image_config().image_height(),
                aa_multiplier,
            );

            let ray = self.get_ray(u, v);
            let sample = ray.ray_color(scene_objects, scene_config);
            proof {
                assert((s + 1) as int * (3 * ONE_BITS as int) == s as int * (3 * ONE_BITS as int)
                    + 3 * ONE_BITS as int) by (nonlinear_arith);
            }
            pixel_color.add_assign(sample);
            s = s + 1;
        }
        proof {
            assert(samples as int * (3 * ONE_BITS as int) <= 150 * BOUND_COLOR as int)
                by (nonlinear_arith)
                requires
                    samples <= 50,
            ;
            assert(bounded3(pixel_color@, 150 * BOUND_COLOR as int));
        }
        pixel_color
    }

    /// The normalized image-plane coordinate of index `i` out of `dim`,
    /// jittered by `aa * random` as the antialiasing mode asks:
    /// `(i + jitter) / (dim - 1)`, always within `[0, 2]`.
    fn plane_coord(i: u64, dim: u64, aa_multiplier: Fx) -> (r: Fx)
        requires
            2 <= dim <= MAX_IMAGE_DIM,
            i < dim,
            aa_multiplier@ == 0 || aa_multiplier@ == ONE_BITS as int,
        ensures
            0 <= r@ <= 2 * ONE_BITS as int,
    {
        let rnd = random_fx();
        proof {
            lemma_fxmul_bound(aa_multiplier@, rnd@, ONE_BITS as int, ONE_BITS as int);
            assert(aa_multiplier@ * rnd@ >= 0) by (nonlinear_arith)
                requires
                    aa_multiplier@ >= 0,
                    rnd@ >= 0,
            ;
            lemma_tdiv_bound(aa_multiplier@ * rnd@, SCALE as int);
        }
        let jitter = aa_multiplier.mul(rnd);
        let numerator = Fx::from_int(i as i64).add(jitter);
        let denominator = Fx::from_int((dim - 1) as i64);
        proof {
            lemma_numerator_bound(i as int, dim as int, numerator@, denominator@);
        }
        let r = numerator.div(denominator);
        proof {
            lemma_plane_coord_bound(numerator@, denominator@, dim as int);
        }
        r
    }
}

/// The jittered numerator stays below the image span.
proof fn lemma_numerator_bound(i: int, dim: int, num: int, den: int)
    by (nonlinear_arith)
    requires
        0 <= i < dim,
        2 <= dim <= MAX_IMAGE_DIM as int,
        i * (SCALE as int) <= num <= i * (SCALE as int) + (SCALE as int),
        den == (dim - 1) * (SCALE as int),
    ensures
        0 <= num <= dim * (SCALE as int),
        (SCALE as int) <= den,
        -(i128::MAX as int) <= num * (SCALE as int) <= i128::MAX as int,
{
}

/// Dividing the jittered numerator by the span keeps the coordinate in
/// `[0, 2]`.
proof fn lemma_plane_coord_bound(num: int, den: int, dim: int)
    requires
        2 <= dim <= MAX_IMAGE_DIM as int,
        0 <= num <= dim * (SCALE as int),
        den == (dim - 1) * (SCALE as int),
    ensures
        0 <= fxdiv(num, den) <= 2 * (ONE_BITS as int),
{
    lemma_tdiv_bound(num * (SCALE as int), den);
    crate::fx::lemma_tdiv(num * (SCALE as int), den);
    assert(0 <= tdiv(num * (SCALE as int), den) <= 2 * (ONE_BITS as int)) by (nonlinear_arith)
        requires
            2 <= dim,
            0 <= num <= dim * (SCALE as int),
            den == (dim - 1) * (SCALE as int),
            num * (SCALE as int) >= 0,
            tdiv(num * (SCALE as int), den) >= 0,
            tdiv(num * (SCALE as int), den) * den <= num * (SCALE as int),
            num * (SCALE as int) < den * (tdiv(num * (SCALE as int), den) + 1),
    ;
}

} // verus!
