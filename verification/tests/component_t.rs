use rays::components::ray::Ray;
use rays::fx::Fx;
use rays::types::component::Sphere;
use rays::types::vec3::Vec3;

fn fxi(v: i64) -> Fx {
    Fx::from_int(v)
}

fn v3(x: i64, y: i64, z: i64) -> Vec3 {
    Vec3::new(fxi(x), fxi(y), fxi(z))
}

fn eps() -> Fx {
    Fx::from_bits(42950)
}

#[test]
fn component_t_test_instantiation_and_getters() {
    let center = v3(0, 1, -2);
    let sphere = Sphere::new(&center, fxi(1));
    assert!(sphere.is_ok());
    assert_eq!(sphere.as_ref().unwrap().radius(), fxi(1));
    assert_eq!(sphere.as_ref().unwrap().center(), &v3(0, 1, -2));

    let sphere = Sphere::new(&center, fxi(-5));
    assert!(sphere.is_err());
}

#[test]
fn component_t_test_intersects_ray() {
    let center = &v3(0, 1, -2);
    let sphere = Sphere::new(&center, fxi(1));
    assert!(sphere.is_ok());

    // Ray inside sphere
    {
        let ray = Ray::new(&center, &v3(0, 0, -1));
        let intersection = sphere.unwrap().intersects_ray(&ray);
        assert!(intersection.is_some());
        assert!(fxi(-1).sub(intersection.unwrap()).abs().lt(eps()));
    }

    // Ray tangential to sphere
    {
        let ray = Ray::new(&center, &v3(0, 1, 0));
        let intersection = sphere.unwrap().intersects_ray(&ray);
        assert!(intersection.is_some());
        assert!(fxi(-1).sub(intersection.unwrap()).abs().lt(eps()));
    }

    // Ray through sphere
    {
        let ray = Ray::new(&center, &v3(1, 1, -3));
        assert!(sphere.unwrap().intersects_ray(&ray).is_some());
    }
}

#[test]
fn component_t_test_not_intersects_ray() {
    let center = v3(0, 1, -2);
    let sphere = Sphere::new(&center, fxi(1));
    assert!(sphere.is_ok());

    // Ray outside and away from sphere
    {
        let ray = Ray::new(&v3(0, 1, -4), &v3(1, 1, -2));
        assert!(sphere.unwrap().intersects_ray(&ray).is_none());
    }
}
