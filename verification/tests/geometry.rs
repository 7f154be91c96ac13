use raytracer::geometry::{Vec3, Vec3i};
use raytracer::shading::{reflect, Albedo, Material};

fn close(a: f64, b: f64) -> bool {
    (a - b).abs() < 1e-12
}

#[test]
fn integer_vectors_multiply_component_wise() {
    let a = Vec3i { x: 5, y: 5, z: 5 };
    let b = Vec3i { x: 2, y: 2, z: 2 };
    assert!(a * b == Vec3i { x: 10, y: 10, z: 10 });
}

#[test]
fn integer_vectors_add_component_wise() {
    let a = Vec3i { x: 5, y: 5, z: 5 };
    let b = Vec3i { x: 2, y: 2, z: 2 };
    assert!(a + b == Vec3i { x: 7, y: 7, z: 7 });
}

#[test]
fn integer_vectors_subtract_component_wise() {
    let a = Vec3i { x: 5, y: 5, z: 5 };
    let b = Vec3i { x: 2, y: 2, z: 2 };
    assert!(a - b == Vec3i { x: 3, y: 3, z: 3 });
}

#[test]
fn operators_keep_components_apart() {
    let a = Vec3i { x: 1, y: 2, z: 3 };
    let b = Vec3i { x: 10, y: 20, z: 30 };
    assert_eq!(a + b, Vec3i { x: 11, y: 22, z: 33 });
    assert_eq!(b - a, Vec3i { x: 9, y: 18, z: 27 });
    assert_eq!(a * b, Vec3i { x: 10, y: 40, z: 90 });
}

#[test]
fn vectors_differ_when_one_component_differs() {
    let a = Vec3i { x: 1, y: 2, z: 3 };
    assert!(a == Vec3i { x: 1, y: 2, z: 3 });
    assert!(a != Vec3i { x: 0, y: 2, z: 3 });
    assert!(a != Vec3i { x: 1, y: 0, z: 3 });
    assert!(a != Vec3i { x: 1, y: 2, z: 0 });
}

#[test]
fn index_selects_x_y_then_z() {
    let v = Vec3i { x: 7, y: 8, z: 9 };
    assert_eq!(v[0], 7);
    assert_eq!(v[1], 8);
    assert_eq!(v[2], 9);
}

#[test]
fn index_past_two_yields_z() {
    let v = Vec3 { x: 0.25, y: 0.5, z: 0.75 };
    assert_eq!(v[3], 0.75);
    assert_eq!(v[usize::MAX], 0.75);
}

#[test]
fn dot_product_of_integers() {
    let a = Vec3i { x: 1, y: 2, z: 3 };
    let b = Vec3i { x: 10, y: 20, z: 30 };
    assert_eq!(a.dot_product(b), 140);
    assert_eq!(b.dot_product(a), 140);
}

#[test]
fn dot_product_of_floats() {
    let a = Vec3 { x: 0.5, y: -2.0, z: 4.0 };
    let b = Vec3 { x: 2.0, y: 0.25, z: -1.0 };
    assert_eq!(a.dot_product(b), -3.5);
}

#[test]
fn dot_with_itself_is_the_squared_norm() {
    let v = Vec3 { x: 3.0, y: 4.0, z: 12.0 };
    let norm = f64::sqrt(v.x * v.x + v.y * v.y + v.z * v.z);
    assert_eq!(norm, 13.0);
    assert!(close(v.dot_product(v), norm * norm));
    let w = Vec3i { x: -3, y: 4, z: -12 };
    assert_eq!(w.dot_product(w), 169);
}

#[test]
fn scale_multiplies_every_component() {
    let v = Vec3 { x: 1.0, y: -2.0, z: 0.5 };
    assert_eq!(v.scale(4.0), Vec3 { x: 4.0, y: -8.0, z: 2.0 });
    assert_eq!(Vec3i { x: 1, y: 2, z: 3 }.scale(-2), Vec3i { x: -2, y: -4, z: -6 });
}

#[test]
fn reflect_flips_the_component_along_the_normal() {
    let i = Vec3i { x: 1, y: -2, z: 3 };
    let n = Vec3i { x: 0, y: 1, z: 0 };
    assert_eq!(reflect(i, n), Vec3i { x: 1, y: 2, z: 3 });
}

#[test]
fn reflect_of_floats_matches_the_formula() {
    let i = Vec3 { x: 0.6, y: -0.8, z: 0.0 };
    let n = Vec3 { x: 0.0, y: 1.0, z: 0.0 };
    let r = reflect(i, n);
    let dot = i.dot_product(n);
    assert_eq!(r.x, i.x - n.x * 2. * dot);
    assert_eq!(r.y, i.y - n.y * 2. * dot);
    assert_eq!(r.z, i.z - n.z * 2. * dot);
    assert!(close(r.x, 0.6) && close(r.y, 0.8) && close(r.z, 0.0));
}

#[test]
fn reflecting_twice_returns_the_direction() {
    let s = f64::sqrt(3.0);
    let n = Vec3 { x: 1.0 / s, y: 1.0 / s, z: 1.0 / s };
    let i = Vec3 { x: 0.3, y: -0.9, z: 0.2 };
    let back = reflect(reflect(i, n), n);
    assert!(close(back.x, i.x) && close(back.y, i.y) && close(back.z, i.z));
    let k = Vec3i { x: 4, y: -7, z: 9 };
    let m = Vec3i { x: 0, y: 0, z: -1 };
    assert_eq!(reflect(reflect(k, m), m), k);
}

#[test]
fn reflecting_twice_at_a_longer_normal_is_off() {
    let k = Vec3i { x: 1, y: 0, z: 0 };
    let m = Vec3i { x: 2, y: 0, z: 0 };
    // i + 4 (i.n) (n.n - 1) n = 1 + 4 * 2 * 3 * 2
    assert_eq!(reflect(reflect(k, m), m), Vec3i { x: 49, y: 0, z: 0 });
}

#[test]
fn blend_sums_the_four_weighted_terms() {
    let m = Material {
        diffuse_color: Vec3 { x: 0.5, y: 0.25, z: 1.0 },
        albedo: Albedo { diffuse: 2.0, specular: 4.0, reflection: 0.5, refraction: 0.25 },
        specular_exponent: 50.0,
        refractive_index: 1.0,
    };
    let reflected = Vec3 { x: 2.0, y: 4.0, z: 8.0 };
    let refracted = Vec3 { x: 16.0, y: 32.0, z: 64.0 };
    let c = m.blend(3.0, 0.125, reflected, refracted);
    // diffuse 3 * 2 = 6, specular 0.125 * 4 = 0.5
    assert_eq!(c, Vec3 { x: 3.0 + 0.5 + 1.0 + 4.0, y: 1.5 + 0.5 + 2.0 + 8.0, z: 6.0 + 0.5 + 4.0 + 16.0 });
}

#[test]
fn blend_is_not_clamped() {
    let m = Material {
        diffuse_color: Vec3 { x: 1, y: 1, z: 1 },
        albedo: Albedo { diffuse: 10, specular: 10, reflection: 0, refraction: 0 },
        specular_exponent: 0,
        refractive_index: 1,
    };
    let none = Vec3i { x: 0, y: 0, z: 0 };
    assert_eq!(m.blend(7, 3, none, none), Vec3i { x: 100, y: 100, z: 100 });
}
