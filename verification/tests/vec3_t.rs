use rays::fx::Fx;
use rays::types::vec3::Vec3;

fn fxi(v: i64) -> Fx {
    Fx::from_int(v)
}

fn v3(x: i64, y: i64, z: i64) -> Vec3 {
    Vec3::new(fxi(x), fxi(y), fxi(z))
}

fn half() -> Fx {
    Fx::from_bits(2147483648)
}

fn eps() -> Fx {
    // about 1e-5 in grid steps
    Fx::from_bits(42950)
}

#[test]
fn vec3_t_test_instantiation_and_getters() {
    // Instantiation using Vec3::new()
    let new_v = v3(0, 1, -2);
    assert_eq!(new_v.x(), fxi(0));
    assert_eq!(new_v.y(), fxi(1));
    assert_eq!(new_v.z(), fxi(-2));

    // Instantiation using Vec3::copy()
    let copy_v = Vec3::copy(&new_v);
    assert_eq!(new_v, copy_v);

    let zero_v = Vec3::zero_vec();
    assert_eq!(zero_v, v3(0, 0, 0));

    let unit_v = Vec3::ones_vec();
    assert_eq!(unit_v, v3(1, 1, 1));
}

#[test]
fn test_length() {
    let new_v = v3(0, 3, -4);
    assert_eq!(new_v.len_squared(), fxi(25));
    assert_eq!(new_v.len(), fxi(5));
}

#[test]
fn test_scaling() {
    let new_v = v3(0, 1, -2);
    assert_eq!(new_v.scaled(fxi(1)), new_v);
    assert_eq!(new_v.scaled(fxi(0)), v3(0, 0, 0));
    assert_eq!(new_v.scaled(fxi(2)), v3(0, 2, -4));
    assert_eq!(new_v.scaled(fxi(-4)), v3(0, -4, 8));
    assert_eq!(new_v.scaled(half()), Vec3::new(fxi(0), half(), fxi(-1)));

    let mut mut_v = v3(0, 1, -2);
    mut_v.scale(fxi(1));
    assert_eq!(mut_v, v3(0, 1, -2));

    mut_v.scale(fxi(2));
    assert_eq!(mut_v, v3(0, 2, -4));

    mut_v.scale(half());
    assert_eq!(mut_v, v3(0, 1, -2));

    mut_v.scale(fxi(-2));
    assert_eq!(mut_v, v3(0, -2, 4));

    mut_v.scale(fxi(0));
    assert_eq!(mut_v, Vec3::zero_vec());
}

#[test]
fn test_unit_vec() {
    let v1 = v3(2, 0, -4);
    let v1_u = v1.unit_vector();
    assert!(v1_u.is_ok());
    assert!(v1_u.unwrap().len_squared().sub(fxi(1)).abs().lt(eps()));

    let v2 = v3(0, 0, 0);
    let v2_u = v2.unit_vector();
    assert!(v2_u.is_err());
}

#[test]
fn test_dot() {
    let v1 = v3(0, 1, -2);
    assert_eq!(v1.dot(&v1), v1.len_squared());

    {
        let v2 = v3(1, -5, 2);
        assert_eq!(v1.dot(&v2), fxi(-9));
    }

    {
        let v2 = v3(1, 1, 1);
        assert_eq!(v1.dot(&v2), fxi(-1));
    }

    {
        let v2 = v3(0, 0, 0);
        assert_eq!(v1.dot(&v2), fxi(0));
    }
}

#[test]
fn test_cross() {
    let v1 = v3(0, 1, -2);
    assert_eq!(v1.cross(&v1), v3(0, 0, 0));

    {
        let v2 = v3(1, -5, 2);
        assert_eq!(v1.cross(&v2), v3(-8, -2, -1));
    }

    {
        let v2 = v3(1, 1, 1);
        assert_eq!(v1.cross(&v2), v3(3, -2, -1));
    }

    {
        let v2 = v3(0, 0, 0);
        assert_eq!(v1.cross(&v2), Vec3::zero_vec());
    }
}

#[test]
fn test_unary_minus() {
    let v1 = v3(0, 1, -2);
    assert_eq!(v1.neg(), v3(0, -1, 2));
}

#[test]
fn test_add_assign() {
    let mut v1 = v3(0, 1, -2);
    v1.add_assign(Vec3::ones_vec());
    assert_eq!(v1, v3(1, 2, -1));
}

#[test]
fn test_add() {
    let v1 = v3(0, 1, -2);

    {
        let v2 = Vec3::zero_vec();
        assert_eq!(v1.add(v2), v1);
    }

    {
        let v2 = Vec3::ones_vec();
        assert_eq!(v1.add(v2), v3(1, 2, -1));
    }

    {
        let v2 = v3(1, -1, 0);
        assert_eq!(v1.add(v2), v3(1, 0, -2));
    }
}

#[test]
fn test_sub_assign() {
    let mut v1 = v3(0, 1, -2);
    v1.sub_assign(Vec3::ones_vec());
    assert_eq!(v1, v3(-1, 0, -3));
}

#[test]
fn test_sub() {
    let v1 = v3(0, 1, -2);

    {
        let v2 = Vec3::zero_vec();
        assert_eq!(v1.sub(v2), v1);
    }

    {
        let v2 = Vec3::ones_vec();
        assert_eq!(v1.sub(v2), v3(-1, 0, -3));
    }

    {
        let v2 = v3(1, -1, 0);
        assert_eq!(v1.sub(v2), v3(-1, 2, -2));
    }
}
