use raytrace::scalar::Scalar;
use raytrace::vec3::black;
use raytrace::vec3::inside_unit_sphere;
use raytrace::vec3::white;
use raytrace::vec3::Vec3;

fn s(x: f32) -> Scalar {
    Scalar::from_bits(x.to_bits())
}

fn v(x: f32, y: f32, z: f32) -> Vec3 {
    Vec3::new(s(x), s(y), s(z))
}

fn reference_near_zero(x: f32, y: f32, z: f32) -> bool {
    let e: f32 = 1e-8;
    x.abs() < e && y.abs() < e && z.abs() < e
}

#[test]
fn new_keeps_the_components() {
    let a = v(1.0, -2.0, 3.5);
    assert_eq!(a.x, s(1.0));
    assert_eq!(a.y, s(-2.0));
    assert_eq!(a.z, s(3.5));
}

#[test]
fn neg_flips_every_component() {
    assert_eq!(v(1.0, -2.0, 0.0).neg(), v(-1.0, 2.0, -0.0));
    assert_eq!(v(0.5, 0.25, -8.0).neg().neg(), v(0.5, 0.25, -8.0));
}

#[test]
fn near_zero_matches_the_hardware() {
    let xs: [f32; 11] = [
        0.0,
        -0.0,
        1e-9,
        -1e-9,
        9.9e-9,
        1e-8,
        -1e-8,
        1.1e-8,
        1.0,
        f32::NAN,
        f32::INFINITY,
    ];
    for &x in &xs {
        for &y in &xs {
            for &z in &xs {
                assert_eq!(v(x, y, z).near_zero(), reference_near_zero(x, y, z), "{:?} {:?} {:?}", x, y, z);
            }
        }
    }
}

#[test]
fn near_zero_needs_every_component_small() {
    assert!(v(0.0, 0.0, 0.0).near_zero());
    assert!(v(5e-9, -5e-9, 0.0).near_zero());
    assert!(!v(5e-9, -5e-9, 2e-8).near_zero());
    assert!(!v(1e-8, 0.0, 0.0).near_zero());
    assert!(!v(0.0, 1.0, 0.0).near_zero());
}

#[test]
fn black_and_white() {
    assert_eq!(black(), v(0.0, 0.0, 0.0));
    assert_eq!(white(), v(1.0, 1.0, 1.0));
}

#[test]
fn rejection_test_keeps_what_lies_inside() {
    assert!(inside_unit_sphere(s(0.0)));
    assert!(inside_unit_sphere(s(0.99999994)));
    assert!(!inside_unit_sphere(s(1.0)));
    assert!(!inside_unit_sphere(s(2.5)));
    assert!(!inside_unit_sphere(s(f32::INFINITY)));
    let xs: [f32; 6] = [0.0, 0.3, 0.99999994, 1.0, 3.0, f32::NAN];
    for &x in &xs {
        assert_eq!(inside_unit_sphere(s(x)), !(x >= 1.0));
    }
}

#[test]
fn rejection_sampling_returns_vectors_inside_the_unit_sphere() {
    let mut state: u32 = 0x9e37_79b9;
    let mut next = move || {
        state ^= state << 13;
        state ^= state >> 17;
        state ^= state << 5;
        ((state >> 8) as f32) * (1.0 / 16_777_216.0) * 2.0 - 1.0
    };
    for _ in 0..10_000 {
        let p = loop {
            let p = [next(), next(), next()];
            let n = p[0] * p[0] + p[1] * p[1] + p[2] * p[2];
            if inside_unit_sphere(s(n)) {
                break p;
            }
        };
        assert!(p[0] * p[0] + p[1] * p[1] + p[2] * p[2] < 1.0);
    }
}
