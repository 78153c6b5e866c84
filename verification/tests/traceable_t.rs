use rays::components::ray::{Ray, BOUND_TRACE};
use rays::components::sphere::Sphere;
use rays::fx::Fx;
use rays::types::color::Color;
use rays::types::diffuse_mat::DiffuseMaterial;
use rays::types::material::Material;
use rays::types::vec3::Vec3;

fn fxi(v: i64) -> Fx {
    Fx::from_int(v)
}

fn v3(x: i64, y: i64, z: i64) -> Vec3 {
    Vec3::new(fxi(x), fxi(y), fxi(z))
}

fn fxf(thousandths: i64) -> Fx {
    // value given in thousandths of a unit, rounded to the grid
    Fx::from_bits((thousandths as i128) * 4294967296 / 1000)
}

fn diffuse_mat() -> Material {
    Material::Diffuse(DiffuseMaterial::new(&Color::new(fxf(700), fxf(300), fxf(300))))
}

fn far() -> Fx {
    Fx::from_bits(BOUND_TRACE)
}

#[test]
fn traceable_t_test_instantiation_and_getters() {
    let center = v3(0, 1, -2);

    let sphere = Sphere::new(&center, fxi(1), diffuse_mat());
    assert!(sphere.is_ok());
    assert_eq!(sphere.as_ref().unwrap().radius(), fxi(1));
    assert_eq!(sphere.as_ref().unwrap().center(), &v3(0, 1, -2));

    let sphere = Sphere::new(&center, fxi(-5), diffuse_mat());
    assert!(sphere.is_err());
}

#[test]
fn traceable_t_test_intersects_ray() {
    let center = &v3(0, 1, -2);

    let sphere = Sphere::new(&center, fxi(1), diffuse_mat());
    assert!(sphere.is_ok());

    // Ray inside sphere
    {
        let ray = Ray::new(&center, &v3(0, 0, -1));
        let intersection = sphere.as_ref().unwrap().intersects_ray(&ray, fxi(0), far());
        assert!(intersection.is_some());
    }

    // Ray tangential to sphere
    {
        let ray = Ray::new(&center, &v3(0, 1, 0));
        let intersection = sphere.as_ref().unwrap().intersects_ray(&ray, fxi(0), far());
        assert!(intersection.is_some());
    }

    // Ray through sphere
    {
        let ray = Ray::new(&center, &v3(1, 1, -3));
        assert!(sphere.unwrap().intersects_ray(&ray, fxi(0), far()).is_some());
    }
}

#[test]
fn traceable_t_test_not_intersects_ray() {
    let center = v3(0, 1, -2);

    let sphere = Sphere::new(&center, fxi(1), diffuse_mat());
    assert!(sphere.is_ok());

    // Ray outside and away from sphere
    {
        let ray = Ray::new(&v3(0, 1, -4), &v3(1, 1, -2));
        assert!(sphere.unwrap().intersects_ray(&ray, fxi(0), far()).is_none());
    }
}
