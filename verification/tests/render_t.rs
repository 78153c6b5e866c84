use rays::components::camera::Camera;
use rays::components::ray::{Ray, BOUND_TRACE, TRACE_EPS_BITS, ZENITH_G_BITS};
use rays::components::sphere::Sphere;
use rays::components::traceable::TraceableGroup;
use rays::fx::Fx;
use rays::types::color::{pixel_triplet, Color};
use rays::types::component::Sphere as BareSphere;
use rays::types::dielectric_mat::{DielectricMaterial, IOR_GLASS};
use rays::types::diffuse_mat::DiffuseMaterial;
use rays::types::hit_record::HitRecord;
use rays::types::material::Material;
use rays::types::metal_mat::MetalMaterial;
use rays::types::vec3::Vec3;
use rays::utils::config::{
    AntialiasingMode, CameraConfig, Config, DiffuseScatterMode, ImageConfig, RaysConfig,
};
use rays::utils::utilities::{
    clamp, degrees_to_radians, random_fx, random_fx_between, random_point_in_hemisphere,
    random_point_in_unit_sphere, PI_BITS,
};

fn fxi(v: i64) -> Fx {
    Fx::from_int(v)
}

fn v3(x: i64, y: i64, z: i64) -> Vec3 {
    Vec3::new(fxi(x), fxi(y), fxi(z))
}

fn half() -> Fx {
    Fx::from_bits(2147483648)
}

fn eps() -> Fx {
    Fx::from_bits(42950)
}

fn far() -> Fx {
    Fx::from_bits(BOUND_TRACE)
}

fn trace_eps() -> Fx {
    Fx::from_bits(TRACE_EPS_BITS)
}

fn gray() -> Color {
    Color::new(half(), half(), half())
}

fn config_with_depth(depth: u64) -> Config {
    Config {
        image: ImageConfig {
            image_width: 4,
            image_height: 4,
            gamma: Some(1),
            aa_mode: Some(AntialiasingMode::Off),
        },
        camera: CameraConfig {
            viewport_width: 2,
            viewport_height: 2,
            origin: Some(Vec3::zero_vec()),
            focal_length: Some(Fx::one()),
        },
        rays: RaysConfig {
            max_child_rays: Some(depth),
            diffuse_scatter_mode: Some(DiffuseScatterMode::TrueLambert),
        },
    }
}

fn two_sphere_scene() -> TraceableGroup {
    let ground = Material::Diffuse(DiffuseMaterial::new(&gray()));
    let center_mat = Material::Diffuse(DiffuseMaterial::new(&gray()));
    let big_center = Vec3::new(fxi(0), Fx::from_bits(-431644213248), fxi(-1));
    TraceableGroup {
        objects: vec![
            Sphere::new(&big_center, fxi(100), ground).unwrap(),
            Sphere::new(&v3(0, 0, -1), half(), center_mat).unwrap(),
        ],
    }
}

#[test]
fn test_unit_vector_norm_within_tolerance() {
    for v in [v3(3, 4, 12), v3(1, 1, 1), v3(-7, 2, 9)] {
        let u = v.unit_vector().unwrap();
        assert!(u.len_squared().sub(fxi(1)).abs().lt(eps()));
    }
}

#[test]
fn test_scaling_linearity_within_one_step() {
    let v = v3(3, -5, 7);
    let a = Fx::from_bits(1288490188);
    let b = Fx::from_bits(1932735283);
    let whole = v.scaled(a.add(b));
    let parts = v.scaled(a).add(v.scaled(b));
    let d = whole.sub(parts);
    let one_step = Fx::from_bits(2);
    assert!(d.x().abs().lt(one_step));
    assert!(d.y().abs().lt(one_step));
    assert!(d.z().abs().lt(one_step));
}

#[test]
fn test_ray_from_center_always_intersects() {
    let center = v3(2, -3, 4);
    let sphere = BareSphere::new(&center, half()).unwrap();
    for dir in [v3(1, 2, 3), v3(0, 0, -1), v3(-5, 1, 2), v3(0, 7, 0)] {
        let ray = Ray::new(&center, &dir);
        assert!(sphere.intersects_ray(&ray).is_some());
    }
}

#[test]
fn test_distant_ray_never_intersects() {
    // closest approach 5, radius 1
    let sphere = BareSphere::new(&v3(0, 1, -2), fxi(1)).unwrap();
    let ray = Ray::new(&v3(5, 1, 10), &v3(0, 0, -1));
    assert!(sphere.intersects_ray(&ray).is_none());
}

#[test]
fn test_tangential_ray_single_root() {
    // closest approach exactly the radius: discriminant zero, both roots
    // coincide at t = 5
    let bare = BareSphere::new(&v3(0, 0, 0), fxi(1)).unwrap();
    let ray = Ray::new(&v3(1, 0, 5), &v3(0, 0, -1));
    let t = bare.intersects_ray(&ray).unwrap();
    assert_eq!(t, fxi(5));

    let mat = Material::Diffuse(DiffuseMaterial::new(&gray()));
    let full = Sphere::new(&v3(0, 0, 0), fxi(1), mat).unwrap();
    let hit = full.intersects_ray(&ray, fxi(0), far()).unwrap();
    assert_eq!(hit.trace(), fxi(5));
}

#[test]
fn test_sphere_zero_radius_rejected() {
    let mat = Material::Diffuse(DiffuseMaterial::new(&gray()));
    assert!(Sphere::new(&v3(0, 0, 0), fxi(0), mat).is_err());
    assert!(Sphere::new(&v3(0, 0, 0), fxi(-1), mat).is_err());
    assert!(BareSphere::new(&v3(0, 0, 0), fxi(0)).is_err());
    assert!(BareSphere::new(&v3(0, 0, 0), Fx::from_bits(-1)).is_err());
}

#[test]
fn test_group_nearest_hit_order_independent() {
    let mat = Material::Diffuse(DiffuseMaterial::new(&gray()));
    let a = Sphere::new(&v3(0, 0, -1), half(), mat).unwrap();
    let b = Sphere::new(&v3(0, 0, -2), half(), mat).unwrap();
    let ray = Ray::new(&v3(0, 0, 0), &v3(0, 0, -1));

    let ta = a.intersects_ray(&ray, fxi(0), far()).unwrap().trace();
    let tb = b.intersects_ray(&ray, fxi(0), far()).unwrap().trace();
    let manual = if ta.le(tb) { ta } else { tb };

    let ab = TraceableGroup { objects: vec![a, b] };
    let ba = TraceableGroup { objects: vec![b, a] };
    assert_eq!(ab.intersects_ray(&ray, fxi(0), far()).unwrap().trace(), manual);
    assert_eq!(ba.intersects_ray(&ray, fxi(0), far()).unwrap().trace(), manual);
    assert_eq!(manual, half());
}

#[test]
fn test_ray_color_depth_zero_is_black() {
    let scene = two_sphere_scene();
    let config = config_with_depth(0);
    for dir in [v3(0, 0, -1), v3(0, 1, 0), v3(3, -2, 1)] {
        let ray = Ray::new(&v3(0, 0, 0), &dir);
        assert_eq!(ray.ray_color(&scene, &config), Vec3::zero_vec());
    }
}

#[test]
fn test_ray_color_miss_is_background_gradient() {
    let scene = two_sphere_scene();
    let config = config_with_depth(50);

    // straight up: unit y is one, the blend lands on the zenith color
    let up = Ray::new(&v3(0, 5, 0), &v3(0, 1, 0));
    let expected = Color::new(half(), Fx::from_bits(ZENITH_G_BITS), fxi(1));
    assert_eq!(up.ray_color(&scene, &config), expected);

    // horizontal: unit y is zero, an even blend of horizon and zenith
    let level = Ray::new(&v3(0, 5, 0), &v3(1, 0, 0));
    let expected = Color::new(
        Fx::from_bits(3221225472),
        Fx::from_bits(3650722201),
        fxi(1),
    );
    assert_eq!(level.ray_color(&scene, &config), expected);
}

#[test]
fn test_diffuse_never_absorbs() {
    let albedo = gray();
    let mat = Material::Diffuse(DiffuseMaterial::new(&albedo));
    let hit = HitRecord::new(fxi(1), v3(0, 0, -1), v3(0, 0, 1), true, &mat);
    let parent = Ray::new(&v3(0, 0, 0), &v3(0, 0, -1));
    for mode in [
        DiffuseScatterMode::ApproxLambert,
        DiffuseScatterMode::TrueLambert,
        DiffuseScatterMode::Hemispherical,
    ] {
        let mut config = config_with_depth(50);
        config.rays.diffuse_scatter_mode = Some(mode);
        let scattered = mat.scatter(&parent, &hit, &config);
        assert!(scattered.is_some());
        let (ray, attenuation) = scattered.unwrap();
        assert_eq!(attenuation, albedo);
        assert_eq!(ray.origin(), &v3(0, 0, -1));
    }
}

#[test]
fn test_metal_absorbs_exactly_on_inward_reflection() {
    let albedo = gray();
    let config = config_with_depth(50);
    let parent = Ray::new(&v3(0, 0, 0), &v3(0, 0, -1));
    let mat = Material::Metal(MetalMaterial::new(&albedo, Fx::zero()));

    // reflection leaves the surface: scatter
    let outward = HitRecord::new(fxi(1), v3(0, 0, -1), v3(0, 0, 1), true, &mat);
    let scattered = mat.scatter(&parent, &outward, &config);
    assert!(scattered.is_some());
    assert_eq!(scattered.unwrap().1, albedo);

    // reflection points into the surface: absorbed
    let inward = HitRecord::new(fxi(1), v3(0, 0, -1), v3(0, 0, -1), false, &mat);
    assert!(mat.scatter(&parent, &inward, &config).is_none());
}

#[test]
fn test_dielectric_always_scatters_untinted() {
    let config = config_with_depth(50);
    let parent = Ray::new(&v3(0, 0, 0), &v3(0, 0, -1));
    let mat = Material::Dielectric(DielectricMaterial::new(Fx::from_bits(IOR_GLASS)));
    for front in [true, false] {
        let hit = HitRecord::new(fxi(1), v3(0, 0, -1), v3(0, 0, 1), front, &mat);
        let scattered = mat.scatter(&parent, &hit, &config);
        assert!(scattered.is_some());
        assert_eq!(scattered.unwrap().1, Color::new(fxi(1), fxi(1), fxi(1)));
    }
}

#[test]
fn test_metal_roughness_clamped_at_construction() {
    let m = MetalMaterial::new(&gray(), fxi(7));
    assert_eq!(m.d_roughness, fxi(1));
    let m = MetalMaterial::new(&gray(), fxi(-3));
    assert_eq!(m.d_roughness, fxi(0));
    let m = MetalMaterial::new(&gray(), half());
    assert_eq!(m.d_roughness, half());
}

#[test]
fn test_center_sphere_hit_before_ground() {
    let scene = two_sphere_scene();
    let ray = Ray::new(&v3(0, 0, 0), &v3(0, 0, -1));
    let hit = scene.intersects_ray(&ray, trace_eps(), far()).unwrap();
    assert_eq!(hit.trace(), half());
    assert!(hit.is_front_facing());
    assert_eq!(hit.normal(), &v3(0, 0, 1));

    // at depth one the single diffuse bounce terminates in black
    let config = config_with_depth(1);
    assert_eq!(ray.ray_color(&scene, &config), Vec3::zero_vec());
}

#[test]
fn test_pixel_triplet_values() {
    // black stays black, white clamps to the ceiling
    assert_eq!(pixel_triplet(&Vec3::zero_vec(), 1, 1), (0, 0, 0));
    assert_eq!(pixel_triplet(&v3(1, 1, 1), 1, 1), (255, 255, 255));

    // averaging over two samples
    assert_eq!(pixel_triplet(&v3(2, 2, 2), 2, 1), (255, 255, 255));
    assert_eq!(pixel_triplet(&v3(1, 1, 1), 2, 1), (128, 128, 128));

    // gamma two takes the square root: 0.25 becomes 0.5
    let quarter = Fx::from_bits(1073741824);
    let c = Color::new(quarter, quarter, quarter);
    assert_eq!(pixel_triplet(&c, 1, 2), (128, 128, 128));

    // channels clamp independently
    let c = Color::new(fxi(-1), half(), fxi(3));
    assert_eq!(pixel_triplet(&c, 1, 1), (0, 128, 255));
}

#[test]
fn test_camera_center_ray() {
    let camera = Camera::new(&v3(0, 0, 0), 2, 2, fxi(1));
    let ray = camera.get_ray(half(), half());
    assert_eq!(ray.origin(), &v3(0, 0, 0));
    assert_eq!(ray.direction(), &v3(0, 0, -1));

    let configured = Camera::configure(&config_with_depth(50));
    let ray2 = configured.get_ray(half(), half());
    assert_eq!(ray2.direction(), &v3(0, 0, -1));
}

#[test]
fn test_config_defaults() {
    let d = Config::default();
    assert_eq!(d.image_config().image_width(), 256);
    assert_eq!(d.image_config().image_height(), 256);
    assert_eq!(d.image_config().gamma(), 1);
    assert_eq!(d.image_config().samples_per_pixel(), 1);
    assert_eq!(d.camera_config().viewport_width(), 2);
    assert_eq!(d.camera_config().viewport_height(), 2);
    assert_eq!(d.camera_config().origin(), Vec3::zero_vec());
    assert_eq!(d.camera_config().focal_length(), fxi(1));
    assert_eq!(d.rays_config().max_child_rays(), 50);

    let sparse = Config {
        image: ImageConfig { image_width: 64, image_height: 32, gamma: None, aa_mode: None },
        camera: CameraConfig {
            viewport_width: 4,
            viewport_height: 4,
            origin: None,
            focal_length: None,
        },
        rays: RaysConfig { max_child_rays: None, diffuse_scatter_mode: None },
    };
    let filled = sparse.with_defaults();
    assert_eq!(filled.image_config().image_width(), 64);
    assert_eq!(filled.image_config().gamma(), 1);
    assert_eq!(filled.camera_config().origin(), Vec3::zero_vec());
    assert_eq!(filled.camera_config().focal_length(), fxi(1));
    assert_eq!(filled.rays_config().max_child_rays(), 50);

    let mut msaa = Config::default();
    msaa.image.aa_mode = Some(AntialiasingMode::MSAA);
    assert_eq!(msaa.image_config().samples_per_pixel(), 50);
}

#[test]
fn test_sample_pixel_in_range() {
    let scene = two_sphere_scene();
    let camera = Camera::configure(&config_with_depth(3));
    let config = config_with_depth(3);
    let c = camera.sample_pixel(&scene, &config, 1, 2);
    let bound = fxi(150);
    assert!(c.x().abs().le(bound));
    assert!(c.y().abs().le(bound));
    assert!(c.z().abs().le(bound));
}

#[test]
fn test_random_ranges() {
    for _ in 0..200 {
        let r = random_fx();
        assert!(fxi(0).le(r) && r.lt(fxi(1)));

        let b = random_fx_between(fxi(-3), fxi(2));
        assert!(fxi(-3).le(b) && b.lt(fxi(2)));

        let p = random_point_in_unit_sphere();
        let q = p.len_squared();
        assert!(fxi(0).lt(q) && q.lt(fxi(1)));

        let n = v3(0, 1, 0);
        let h = random_point_in_hemisphere(&n);
        assert!(fxi(0).le(h.dot(&n)));
    }
}

#[test]
fn test_clamp_and_nearly_zero() {
    assert_eq!(clamp(fxi(5), fxi(0), fxi(1)), fxi(1));
    assert_eq!(clamp(fxi(-5), fxi(0), fxi(1)), fxi(0));
    assert_eq!(clamp(half(), fxi(0), fxi(1)), half());

    // about 1e-9: vanishing
    assert!(Vec3::new(Fx::from_bits(4), Fx::from_bits(-4), Fx::from_bits(0)).is_nearly_zero());
    // about 1e-7: not vanishing
    assert!(!Vec3::new(Fx::from_bits(430), Fx::from_bits(0), Fx::from_bits(0)).is_nearly_zero());
}

#[test]
fn test_degrees_to_radians_half_turn() {
    assert_eq!(degrees_to_radians(fxi(180)), Fx::from_bits(PI_BITS));
    assert_eq!(degrees_to_radians(fxi(0)), fxi(0));
}
