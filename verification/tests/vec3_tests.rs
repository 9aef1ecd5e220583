use rtoneweekend::material::Rgb;
use rtoneweekend::ray::Ray;
use rtoneweekend::scalar::Scalar;
use rtoneweekend::vec3::{Point, Vec3};

fn s(x: f64) -> Scalar {
    Scalar::from_bits(x.to_bits())
}

fn v(i: f64, j: f64, k: f64) -> Vec3 {
    Vec3::new(s(i), s(j), s(k))
}

fn f(x: Scalar) -> f64 {
    f64::from_bits(x.to_bits())
}

#[test]
fn test_into() {
    let v1 = v(4.0, 4.0, 7.0);
    let rgb: Rgb = v1.into();

    assert!(f(rgb.r) == 4.0 && f(rgb.g) == 4.0 && f(rgb.b) == 7.0);
}

#[test]
fn new_keeps_the_components_in_order() {
    let a = v(1.0, 2.0, 3.0);
    assert!(f(a.i) == 1.0 && f(a.j) == 2.0 && f(a.k) == 3.0);
}

#[test]
fn default_is_the_origin() {
    let o = Point::default();
    assert_eq!(o.i.to_bits(), 0.0f64.to_bits());
    assert_eq!(o.j.to_bits(), 0.0f64.to_bits());
    assert_eq!(o.k.to_bits(), 0.0f64.to_bits());
}

#[test]
fn neg_flips_every_component() {
    let a = v(1.0, -2.0, 0.0).neg();
    assert_eq!(a.i.to_bits(), (-1.0f64).to_bits());
    assert_eq!(a.j.to_bits(), 2.0f64.to_bits());
    assert_eq!(a.k.to_bits(), (-0.0f64).to_bits());
}

#[test]
fn neg_twice_gives_the_vector_back() {
    let a = v(0.3, -7.25, 1e-300);
    let b = a.neg().neg();
    assert_eq!(a.i.to_bits(), b.i.to_bits());
    assert_eq!(a.j.to_bits(), b.j.to_bits());
    assert_eq!(a.k.to_bits(), b.k.to_bits());
}

#[test]
fn near_zero_tests_each_component() {
    assert!(v(1e-9, 1e-9, 1e-9).near_zero());
    assert!(v(0.0, 0.0, 0.0).near_zero());
    assert!(!v(0.0, 0.0, 5.0).near_zero());
    assert!(!v(5.0, 0.0, 0.0).near_zero());
    assert!(!v(0.0, 5.0, 0.0).near_zero());
    assert!(!v(1e-8, 0.0, 0.0).near_zero());
    assert!(v(9.999e-9, 0.0, 0.0).near_zero());
}

#[test]
fn near_zero_takes_no_absolute_value() {
    assert!(v(-5.0, -1.0, -100.0).near_zero());
    assert!(!v(-5.0, 1.0, -100.0).near_zero());
}

#[test]
fn near_zero_is_false_with_a_nan() {
    assert!(!v(f64::NAN, 0.0, 0.0).near_zero());
    assert!(!v(0.0, 0.0, f64::NAN).near_zero());
}

#[test]
fn near_zero_agrees_with_the_machine() {
    let xs = [0.0, 1e-9, 1e-8, 2e-8, -1.0, 1.0, f64::NAN, -1e-8, f64::INFINITY];
    for a in xs {
        for b in xs {
            for c in xs {
                let want = a < 1e-8 && b < 1e-8 && c < 1e-8;
                assert_eq!(v(a, b, c).near_zero(), want, "{:?} {:?} {:?}", a, b, c);
            }
        }
    }
}

#[test]
fn a_draw_inside_the_unit_ball_is_taken() {
    let unit = v(0.6, 0.0, 0.8);
    let got = Vec3::random_unit_vector(s(0.5), unit);
    assert!(got.is_some());
    let got = got.unwrap();
    assert!(f(got.i) == 0.6 && f(got.j) == 0.0 && f(got.k) == 0.8);
    assert!(Vec3::random_unit_vector(s(1.0), unit).is_some());
}

#[test]
fn a_draw_outside_the_unit_ball_is_made_again() {
    let unit = v(0.6, 0.0, 0.8);
    assert!(Vec3::random_unit_vector(s(1.000_000_1), unit).is_none());
    assert!(Vec3::random_unit_vector(s(1.7), unit).is_none());
    assert!(Vec3::random_unit_vector(s(f64::NAN), unit).is_none());
}

#[test]
fn a_direction_is_turned_to_the_side_of_the_normal() {
    let a = v(0.0, 1.0, 0.0);
    let kept = Vec3::random_unit_on_hemisphere(a, s(0.3));
    assert!(f(kept.j) == 1.0);
    let turned = Vec3::random_unit_on_hemisphere(a, s(-0.3));
    assert!(f(turned.j) == -1.0);
    let flat = Vec3::random_unit_on_hemisphere(a, s(0.0));
    assert!(f(flat.j) == -1.0);
}

#[test]
fn a_ray_keeps_its_origin_and_direction() {
    let r = Ray::new(v(1.0, 2.0, 3.0), v(0.0, 0.0, -1.0));
    assert!(f(r.origin().i) == 1.0 && f(r.origin().j) == 2.0 && f(r.origin().k) == 3.0);
    assert!(f(r.dir().i) == 0.0 && f(r.dir().j) == 0.0 && f(r.dir().k) == -1.0);
}

#[test]
fn a_draw_inside_the_unit_disk_is_taken() {
    let p = v(0.6, -0.3, 0.0);
    let got = Vec3::random_in_unit_circle(s(0.45), p).unwrap();
    assert!(f(got.i) == 0.6 && f(got.j) == -0.3 && f(got.k) == 0.0);
    assert!(Vec3::random_in_unit_circle(s(0.0), p).is_some());
    assert!(Vec3::random_in_unit_circle(s(0.999_999_999_999_999_9), p).is_some());
}

#[test]
fn a_draw_on_or_outside_the_unit_circle_is_made_again() {
    let p = v(0.6, 0.8, 0.0);
    assert!(Vec3::random_in_unit_circle(s(1.0), p).is_none());
    assert!(Vec3::random_in_unit_circle(s(1.3), p).is_none());
    assert!(Vec3::random_in_unit_circle(s(f64::NAN), p).is_none());
}
