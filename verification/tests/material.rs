use raytrace::hittable::HitRecord;
use raytrace::material::Bend;
use raytrace::material::Dielectric;
use raytrace::material::Lambertian;
use raytrace::material::Material;
use raytrace::material::Metal;
use raytrace::ray::Ray;
use raytrace::scalar::Scalar;
use raytrace::vec3::white;
use raytrace::vec3::Vec3;

fn s(x: f32) -> Scalar {
    Scalar::from_bits(x.to_bits())
}

fn f(x: Scalar) -> f32 {
    f32::from_bits(x.to_bits())
}

fn v(a: [f32; 3]) -> Vec3 {
    Vec3::new(s(a[0]), s(a[1]), s(a[2]))
}

fn a(x: Vec3) -> [f32; 3] {
    [f(x.x), f(x.y), f(x.z)]
}

fn dot(p: [f32; 3], q: [f32; 3]) -> f32 {
    p[0] * q[0] + p[1] * q[1] + p[2] * q[2]
}

fn scale(k: f32, p: [f32; 3]) -> [f32; 3] {
    [k * p[0], k * p[1], k * p[2]]
}

fn plus(p: [f32; 3], q: [f32; 3]) -> [f32; 3] {
    [p[0] + q[0], p[1] + q[1], p[2] + q[2]]
}

fn unit(p: [f32; 3]) -> [f32; 3] {
    scale(1.0 / dot(p, p).sqrt(), p)
}

fn reflect(p: [f32; 3], n: [f32; 3]) -> [f32; 3] {
    plus(p, scale(-2.0 * dot(p, n), n))
}

fn refract(p: [f32; 3], n: [f32; 3], ratio: f32) -> [f32; 3] {
    let cos_theta = dot(scale(-1.0, p), n).min(1.0);
    let perp = scale(ratio, plus(p, scale(cos_theta, n)));
    let parallel = scale(-((1.0 - dot(perp, perp)).abs().sqrt()), n);
    plus(perp, parallel)
}

fn reflectance(cosine: f32, ratio: f32) -> f32 {
    let r0 = (1.0 - ratio) / (1.0 + ratio);
    let r0 = r0 * r0;
    r0 + (1.0 - r0) * (1.0 - cosine).powi(5)
}

fn record(mat: Material, normal: [f32; 3], front_face: bool) -> HitRecord {
    HitRecord { p: v([1.0, 2.0, 3.0]), normal: v(normal), mat, t: s(4.0), front_face }
}

#[test]
fn lambertian_scatters_along_the_given_direction_with_its_albedo() {
    let m = Lambertian::new(v([0.5, 0.25, 0.125]));
    assert_eq!(m.albedo(), v([0.5, 0.25, 0.125]));
    let rec = record(Material::Lambertian(m), [0.0, 1.0, 0.0], true);
    let out = m.scatter(&rec, v([0.3, 1.2, -0.4]));
    assert_eq!(out, Some((v([0.5, 0.25, 0.125]), Ray::new(v([1.0, 2.0, 3.0]), v([0.3, 1.2, -0.4])))));
}

#[test]
fn lambertian_falls_back_to_the_normal_when_the_direction_vanishes() {
    let m = Lambertian::new(v([0.5, 0.5, 0.5]));
    let rec = record(Material::Lambertian(m), [0.0, 1.0, 0.0], true);
    let out = m.scatter(&rec, v([1e-9, -1e-9, 0.0]));
    assert_eq!(out, Some((v([0.5, 0.5, 0.5]), Ray::new(v([1.0, 2.0, 3.0]), v([0.0, 1.0, 0.0])))));
    let out = m.scatter(&rec, v([1e-9, -1e-7, 0.0]));
    assert_eq!(out, Some((v([0.5, 0.5, 0.5]), Ray::new(v([1.0, 2.0, 3.0]), v([1e-9, -1e-7, 0.0])))));
}

#[test]
fn metal_caps_its_fuzz_at_one() {
    assert_eq!(Metal::new(v([0.7, 0.6, 0.5]), s(0.3)).fuzz(), s(0.3));
    assert_eq!(Metal::new(v([0.7, 0.6, 0.5]), s(0.0)).fuzz(), s(0.0));
    assert_eq!(Metal::new(v([0.7, 0.6, 0.5]), s(1.0)).fuzz(), s(1.0));
    assert_eq!(Metal::new(v([0.7, 0.6, 0.5]), s(1.0000001)).fuzz(), s(1.0));
    assert_eq!(Metal::new(v([0.7, 0.6, 0.5]), s(25.0)).fuzz(), s(1.0));
    assert_eq!(Metal::new(v([0.7, 0.6, 0.5]), s(f32::INFINITY)).fuzz(), s(1.0));
    assert_eq!(Metal::new(v([0.7, 0.6, 0.5]), s(f32::NAN)).fuzz(), s(1.0));
    assert_eq!(Metal::new(v([0.7, 0.6, 0.5]), s(-2.0)).fuzz(), s(-2.0));
    assert_eq!(Metal::new(v([0.7, 0.6, 0.5]), s(0.3)).albedo(), v([0.7, 0.6, 0.5]));
}

#[test]
fn metal_scatters_only_away_from_the_surface() {
    let m = Metal::new(v([0.7, 0.6, 0.5]), s(0.0));
    let rec = record(Material::Metal(m), [0.0, 1.0, 0.0], true);
    let dir = v([0.6, 0.8, 0.0]);
    assert_eq!(
        m.scatter(&rec, dir, s(0.8)),
        Some((v([0.7, 0.6, 0.5]), Ray::new(v([1.0, 2.0, 3.0]), dir)))
    );
    assert_eq!(
        m.scatter(&rec, dir, s(1e-30)),
        Some((v([0.7, 0.6, 0.5]), Ray::new(v([1.0, 2.0, 3.0]), dir)))
    );
    assert_eq!(m.scatter(&rec, dir, s(0.0)), None);
    assert_eq!(m.scatter(&rec, dir, s(-0.0)), None);
    assert_eq!(m.scatter(&rec, dir, s(-0.8)), None);
    assert_eq!(m.scatter(&rec, dir, s(f32::NAN)), None);
}

#[test]
fn metal_reflects_a_ray_off_the_surface() {
    let m = Metal::new(v([0.8, 0.8, 0.8]), s(0.0));
    let normal = [0.0, 1.0, 0.0];
    let rec = record(Material::Metal(m), normal, true);
    let incoming = unit([1.0, -1.0, 0.0]);
    let reflected = reflect(incoming, normal);
    let out = m.scatter(&rec, v(reflected), s(dot(reflected, normal))).expect("scattered");
    assert_eq!(out.0, v([0.8, 0.8, 0.8]));
    let dir = a(out.1.dir);
    assert!((dir[0] - incoming[0]).abs() < 1e-6);
    assert!((dir[1] + incoming[1]).abs() < 1e-6);
    assert!((dot(dir, normal) + dot(incoming, normal)).abs() < 1e-6);
}

#[test]
fn dielectric_picks_its_ratio_by_the_face() {
    let m = Dielectric::new(s(1.5));
    assert_eq!(m.ir(), s(1.5));
    assert_eq!(m.refraction_ratio(true, s(1.0 / 1.5)), s(1.0 / 1.5));
    assert_eq!(m.refraction_ratio(false, s(1.0 / 1.5)), s(1.5));
}

fn bend(steepness: f32, reflectance: f32, draw: f32) -> Bend {
    Bend {
        steepness: s(steepness),
        reflectance: s(reflectance),
        draw: s(draw),
        reflected: v([1.0, 0.0, 0.0]),
        refracted: v([0.0, 0.0, 1.0]),
    }
}

#[test]
fn dielectric_reflects_or_refracts_and_never_absorbs() {
    let m = Dielectric::new(s(1.5));
    let rec = record(Material::Dielectric(m), [0.0, 1.0, 0.0], true);
    let reflected = Some((white(), Ray::new(v([1.0, 2.0, 3.0]), v([1.0, 0.0, 0.0]))));
    let refracted = Some((white(), Ray::new(v([1.0, 2.0, 3.0]), v([0.0, 0.0, 1.0]))));
    assert_eq!(m.scatter(&rec, &bend(1.2, 0.0, 0.9)), reflected);
    assert_eq!(m.scatter(&rec, &bend(1.0000001, 0.0, 0.9)), reflected);
    assert_eq!(m.scatter(&rec, &bend(1.0, 0.0, 0.9)), refracted);
    assert_eq!(m.scatter(&rec, &bend(0.4, 0.5, 0.9)), refracted);
    assert_eq!(m.scatter(&rec, &bend(0.4, 0.5, 0.5)), refracted);
    assert_eq!(m.scatter(&rec, &bend(0.4, 0.5, 0.49)), reflected);
    assert_eq!(m.scatter(&rec, &bend(0.4, 0.0, 0.0)), refracted);
    assert_eq!(m.scatter(&rec, &bend(f32::NAN, f32::NAN, 0.3)), refracted);
}

#[test]
fn dielectric_decision_matches_the_hardware() {
    let m = Dielectric::new(s(1.5));
    let rec = record(Material::Dielectric(m), [0.0, 1.0, 0.0], true);
    let xs: [f32; 8] = [-1.0, 0.0, 0.3, 0.99999994, 1.0, 1.0000001, 4.0, f32::NAN];
    for &steepness in &xs {
        for &reflectance in &xs {
            for &draw in &xs {
                let out = m.scatter(&rec, &bend(steepness, reflectance, draw)).expect("never absorbs");
                let reflects = steepness > 1.0 || reflectance > draw;
                let expected = if reflects { v([1.0, 0.0, 0.0]) } else { v([0.0, 0.0, 1.0]) };
                assert_eq!(out.0, white());
                assert_eq!(out.1, Ray::new(v([1.0, 2.0, 3.0]), expected));
            }
        }
    }
}

fn through_glass(m: &Dielectric, ir: f32, incoming: [f32; 3], normal: [f32; 3], front_face: bool, draw: f32) -> [f32; 3] {
    let rec = record(Material::Dielectric(*m), normal, front_face);
    let ratio = f(m.refraction_ratio(rec.front_face, s(1.0 / ir)));
    let unit_dir = unit(incoming);
    let cos_theta = dot(scale(-1.0, unit_dir), normal).min(1.0);
    let sin_theta = (1.0 - cos_theta * cos_theta).sqrt();
    let b = Bend {
        steepness: s(ratio * sin_theta),
        reflectance: s(reflectance(cos_theta, ratio)),
        draw: s(draw),
        reflected: v(reflect(unit_dir, normal)),
        refracted: v(refract(unit_dir, normal, ratio)),
    };
    let (attenuation, scattered) = m.scatter(&rec, &b).expect("never absorbs");
    assert_eq!(attenuation, white());
    assert_eq!(scattered.origin, rec.p);
    a(scattered.dir)
}

#[test]
fn a_dielectric_of_index_one_does_not_deviate_the_ray() {
    let m = Dielectric::new(s(1.0));
    let incomings: [[f32; 3]; 3] = [[0.0, -1.0, 0.0], [0.3, -1.0, 0.2], [1.0, -1.0, -0.5]];
    for incoming in incomings {
        for front_face in [true, false] {
            let out = through_glass(&m, 1.0, incoming, [0.0, 1.0, 0.0], front_face, 0.99999994);
            let unit_dir = unit(incoming);
            for k in 0..3 {
                assert!((out[k] - unit_dir[k]).abs() < 1e-6, "{:?} against {:?}", out, unit_dir);
            }
        }
    }
}

#[test]
fn glass_bends_a_slanted_ray_towards_the_normal() {
    let m = Dielectric::new(s(1.5));
    let incoming = unit([1.0, -1.0, 0.0]);
    let out = through_glass(&m, 1.5, incoming, [0.0, 1.0, 0.0], true, 0.99999994);
    assert!(out[1] < 0.0);
    assert!(out[0] > 0.0);
    assert!(out[0] / -out[1] < incoming[0] / -incoming[1]);
    let sin_in = incoming[0];
    let sin_out = out[0] / dot(out, out).sqrt();
    assert!((sin_in / sin_out - 1.5).abs() < 1e-5);
}

#[test]
fn glass_reflects_totally_from_inside_at_a_flat_angle() {
    let m = Dielectric::new(s(1.5));
    let incoming = unit([1.0, -0.2, 0.0]);
    let out = through_glass(&m, 1.5, incoming, [0.0, 1.0, 0.0], false, 0.99999994);
    assert!(out[1] > 0.0);
    assert!((out[0] - incoming[0]).abs() < 1e-6);
    assert!((out[1] + incoming[1]).abs() < 1e-6);
}
