use raytracer::vec3::{get_cross_prod, get_dot_prod, get_hadamard_prod, Vec3};

#[test]
fn build_vec3() {
    let v3 = Vec3::new(1, 2, 3);
    assert_eq!(v3.x, 1);
    assert_eq!(v3.y, 2);
    assert_eq!(v3.z, 3);
}

#[test]
fn get_negated_vec3() {
    let v3 = Vec3::new(1, 2, 3);
    let neg_v3 = v3.neg();
    assert_eq!(neg_v3.x, -1);
    assert_eq!(neg_v3.y, -2);
    assert_eq!(neg_v3.z, -3);
}

#[test]
fn mut_add_vec3() {
    let mut v3 = Vec3::new(1, 2, 3);
    v3.add_assign(Vec3::new(4, 4, 4));
    assert_eq!(v3.x, 5);
    assert_eq!(v3.y, 6);
    assert_eq!(v3.z, 7);
}

#[test]
fn mut_mul_vec3() {
    let mut v3 = Vec3::new(1, 2, 3);
    v3.mul_assign(3);
    assert_eq!(v3.x, 3);
    assert_eq!(v3.y, 6);
    assert_eq!(v3.z, 9);
}

#[test]
fn index_vec3() {
    let v3 = Vec3::new(1, 2, 3);
    assert_eq!(v3.index(0), 1);
    assert_eq!(v3.index(1), 2);
    assert_eq!(v3.index(2), 3);
}

#[test]
fn vec3_length_squared() {
    let v3 = Vec3::new(0, 3, 4);
    assert_eq!(v3.length_squared(), 25);
}

#[test]
fn vec3_add() {
    let v3_a = Vec3::new(1, 2, 3);
    let v3_b = Vec3::new(4, 5, 6);
    let v3_c = v3_a.add(v3_b);
    assert_eq!(v3_c.x, 5);
    assert_eq!(v3_c.y, 7);
    assert_eq!(v3_c.z, 9);
}

#[test]
fn vec3_mul() {
    let v3 = Vec3::new(1, 2, 3);
    let v3_3 = v3.mul(3);
    assert_eq!(v3_3.x, 3);
    assert_eq!(v3_3.y, 6);
    assert_eq!(v3_3.z, 9);
}

#[test]
fn vec3_sub() {
    let v3_a = Vec3::new(1, 2, 3);
    let v3_b = Vec3::new(4, 5, 6);
    let v3_c = v3_a.sub(v3_b);
    assert_eq!(v3_c.x, -3);
    assert_eq!(v3_c.y, -3);
    assert_eq!(v3_c.z, -3);
}

#[test]
fn vec3_hadamard_prod() {
    let v3_a = Vec3::new(1, 2, 3);
    let v3_b = Vec3::new(4, 5, 6);
    let v3_c = get_hadamard_prod(&v3_a, &v3_b);
    assert_eq!(v3_c.x, 4);
    assert_eq!(v3_c.y, 10);
    assert_eq!(v3_c.z, 18);
    assert_eq!(v3_a.x, 1);
    assert_eq!(v3_a.y, 2);
    assert_eq!(v3_a.z, 3);
    assert_eq!(v3_b.x, 4);
    assert_eq!(v3_b.y, 5);
    assert_eq!(v3_b.z, 6);
}

#[test]
fn vec3_dot_prod() {
    let v3_a = Vec3::new(1, 2, 3);
    let v3_b = Vec3::new(4, 5, 6);
    assert_eq!(get_dot_prod(&v3_a, &v3_b), 32);
    assert_eq!(v3_a.x, 1);
    assert_eq!(v3_a.y, 2);
    assert_eq!(v3_a.z, 3);
    assert_eq!(v3_b.x, 4);
    assert_eq!(v3_b.y, 5);
    assert_eq!(v3_b.z, 6);
}

#[test]
fn vec3_cross_prod() {
    let v3_a = Vec3::new(1, 2, 3);
    let v3_b = Vec3::new(4, 5, 6);
    let v3_c = get_cross_prod(&v3_a, &v3_b);
    assert_eq!(v3_c.x, -3);
    assert_eq!(v3_c.y, 6);
    assert_eq!(v3_c.z, -3);
    assert_eq!(v3_a.x, 1);
    assert_eq!(v3_a.y, 2);
    assert_eq!(v3_a.z, 3);
    assert_eq!(v3_b.x, 4);
    assert_eq!(v3_b.y, 5);
    assert_eq!(v3_b.z, 6);
}

#[test]
fn length_squared_equals_self_dot() {
    for v in [Vec3::new(0, 3, 4), Vec3::new(-7, 2, 11), Vec3::new(0, 0, 0)] {
        assert_eq!(v.length_squared(), get_dot_prod(&v, &v));
    }
    assert_eq!(Vec3::new(-7, 2, 11).length_squared(), 174);
}

#[test]
fn cross_is_anticommutative() {
    let a = Vec3::new(3, -1, 7);
    let b = Vec3::new(-2, 5, 4);
    let ab = get_cross_prod(&a, &b);
    let ba = get_cross_prod(&b, &a);
    assert_eq!(ab, ba.neg());
    assert_eq!(ab, Vec3::new(-39, -26, 13));
}

#[test]
fn dot_is_commutative() {
    let a = Vec3::new(3, -1, 7);
    let b = Vec3::new(-2, 5, 4);
    assert_eq!(get_dot_prod(&a, &b), get_dot_prod(&b, &a));
    assert_eq!(get_dot_prod(&a, &b), 17);
}
