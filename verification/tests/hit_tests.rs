use rtoneweekend::hittable::{hit, HitRecord};
use rtoneweekend::scalar::Scalar;
use rtoneweekend::shape::{Roots, Sphere};
use rtoneweekend::vec3::Vec3;

fn s(x: f64) -> Scalar {
    Scalar::from_bits(x.to_bits())
}

fn f(x: Scalar) -> f64 {
    f64::from_bits(x.to_bits())
}

fn v(a: [f64; 3]) -> Vec3 {
    Vec3::new(s(a[0]), s(a[1]), s(a[2]))
}

fn dot(a: [f64; 3], b: [f64; 3]) -> f64 {
    a[0] * b[0] + a[1] * b[1] + a[2] * b[2]
}

fn minus(a: [f64; 3], b: [f64; 3]) -> [f64; 3] {
    [a[0] - b[0], a[1] - b[1], a[2] - b[2]]
}

fn at(origin: [f64; 3], dir: [f64; 3], t: f64) -> [f64; 3] {
    [origin[0] + t * dir[0], origin[1] + t * dir[1], origin[2] + t * dir[2]]
}

/// The discriminant and the two roots of the ray's quadratic for a sphere.
fn roots(origin: [f64; 3], dir: [f64; 3], center: [f64; 3], radius: f64) -> Roots {
    let ac = minus(origin, center);
    let a = dot(dir, dir);
    let b = 2.0 * dot(ac, dir);
    let c = dot(ac, ac) - radius * radius;
    let discriminant = b * b - 4.0 * a * c;
    let near = (-b - discriminant.sqrt()) / (2.0 * a);
    let far = (-b + discriminant.sqrt()) / (2.0 * a);
    Roots::new(s(discriminant), s(near), s(far))
}

/// The record of the hit of a ray on a sphere, if there is one.
fn hit_sphere(
    origin: [f64; 3],
    dir: [f64; 3],
    center: [f64; 3],
    radius: f64,
    tmin: f64,
    tmax: f64,
) -> Option<HitRecord> {
    let t = roots(origin, dir, center, radius).select(s(tmin), s(tmax))?;
    let p = at(origin, dir, f(t));
    let d = minus(p, center);
    let outward = [d[0] / radius, d[1] / radius, d[2] / radius];
    let sphere = Sphere::new(v(center), s(radius), 3);
    Some(sphere.record(t, v(p), v(outward), s(dot(dir, outward))))
}

#[test]
fn a_ray_aimed_at_the_center_hits_in_front() {
    let rec = hit_sphere([0.0, 0.0, 0.0], [0.0, 0.0, -1.0], [0.0, 0.0, -1.0], 0.5, 0.001, f64::INFINITY);
    let rec = rec.unwrap();
    assert!(f(rec.t) > 0.0);
    assert_eq!(f(rec.t), 0.5);
    assert!(f(rec.intersection.i) == 0.0 && f(rec.intersection.j) == 0.0);
    assert_eq!(f(rec.intersection.k), -0.5);
    assert!(rec.out_facing);
    assert!(f(rec.normal.i) == 0.0 && f(rec.normal.j) == 0.0 && f(rec.normal.k) == 1.0);
    assert_eq!(rec.material, 3);
}

#[test]
fn a_ray_aimed_at_the_center_has_a_normal_against_it() {
    let origin = [3.0, -2.0, 5.0];
    let center = [1.0, 1.0, -1.0];
    let dir = minus(center, origin);
    let rec = hit_sphere(origin, dir, center, 2.0, 0.001, f64::INFINITY).unwrap();
    assert!(f(rec.t) > 0.0);
    assert!(rec.out_facing);
    let n = [f(rec.normal.i), f(rec.normal.j), f(rec.normal.k)];
    let len = dot(dir, dir).sqrt();
    let cosine = dot(dir, n) / len;
    assert!((cosine + 1.0).abs() < 1e-12);
    let cross = [
        dir[1] * n[2] - dir[2] * n[1],
        dir[2] * n[0] - dir[0] * n[2],
        dir[0] * n[1] - dir[1] * n[0],
    ];
    assert!(dot(cross, cross).sqrt() < 1e-9);
}

#[test]
fn a_ray_that_passes_beside_the_sphere_misses() {
    let rec = hit_sphere([0.0, 0.6, 0.0], [0.0, 0.0, -1.0], [0.0, 0.0, -1.0], 0.5, 0.001, f64::INFINITY);
    assert!(rec.is_none());
    let rec = hit_sphere([2.0, 0.0, 0.0], [0.0, 0.0, -1.0], [0.0, 0.0, -1.0], 0.5, 0.001, f64::INFINITY);
    assert!(rec.is_none());
}

#[test]
fn a_ray_from_inside_hits_the_far_side_from_within() {
    let rec = hit_sphere([0.0, 0.0, -1.0], [0.0, 0.0, -1.0], [0.0, 0.0, -1.0], 0.5, 0.001, f64::INFINITY);
    let rec = rec.unwrap();
    assert_eq!(f(rec.t), 0.5);
    assert_eq!(f(rec.intersection.k), -1.5);
    assert!(!rec.out_facing);
    assert_eq!(f(rec.normal.k), 1.0);
}

#[test]
fn a_radius_below_zero_turns_the_normal_inward() {
    let rec = hit_sphere([0.0, 0.0, 0.0], [0.0, 0.0, -1.0], [0.0, 0.0, -1.0], -0.5, 0.001, f64::INFINITY);
    let rec = rec.unwrap();
    assert_eq!(f(rec.t), 0.5);
    assert!(!rec.out_facing);
    assert_eq!(f(rec.normal.k), 1.0);
}

#[test]
fn a_sphere_behind_the_ray_is_not_hit() {
    let rec = hit_sphere([0.0, 0.0, 0.0], [0.0, 0.0, 1.0], [0.0, 0.0, -1.0], 0.5, 0.001, f64::INFINITY);
    assert!(rec.is_none());
}

#[test]
fn select_takes_the_near_root_first() {
    let r = Roots::new(s(1.0), s(0.5), s(1.5));
    assert_eq!(f(r.select(s(0.001), s(f64::INFINITY)).unwrap()), 0.5);
}

#[test]
fn select_takes_the_far_root_when_the_near_one_is_kept_out() {
    let r = Roots::new(s(1.0), s(-0.5), s(0.5));
    assert_eq!(f(r.select(s(0.001), s(f64::INFINITY)).unwrap()), 0.5);
    let r = Roots::new(s(1.0), s(0.5), s(1.5));
    assert_eq!(f(r.select(s(0.5), s(f64::INFINITY)).unwrap()), 1.5);
}

#[test]
fn select_finds_nothing_when_both_roots_are_kept_out() {
    let r = Roots::new(s(1.0), s(0.5), s(1.5));
    assert!(r.select(s(2.0), s(f64::INFINITY)).is_none());
    assert!(r.select(s(0.001), s(0.4)).is_none());
    assert!(r.select(s(0.6), s(1.4)).is_none());
}

#[test]
fn select_leaves_out_the_ends_of_the_interval() {
    let r = Roots::new(s(1.0), s(0.5), s(1.5));
    assert!(r.select(s(0.5), s(1.5)).is_none());
    assert_eq!(f(r.select(s(0.001), s(1.5)).unwrap()), 0.5);
    assert!(r.select(s(1.5), s(f64::INFINITY)).is_none());
}

#[test]
fn select_finds_nothing_below_a_zero_discriminant() {
    let r = Roots::new(s(-0.44), s(f64::NAN), s(f64::NAN));
    assert!(r.select(s(0.001), s(f64::INFINITY)).is_none());
    let r = Roots::new(s(-1e-300), s(0.5), s(1.5));
    assert!(r.select(s(0.001), s(f64::INFINITY)).is_none());
}

#[test]
fn select_takes_a_touching_ray() {
    let r = roots([0.0, 0.5, 0.0], [0.0, 0.0, -1.0], [0.0, 0.0, -1.0], 0.5);
    assert_eq!(f(r.discriminant), 0.0);
    assert_eq!(f(r.select(s(0.001), s(f64::INFINITY)).unwrap()), 1.0);
}

#[test]
fn select_does_as_the_machine_does() {
    let xs = [-1.0, 0.0, 0.001, 0.5, 1.5, 2.0, f64::INFINITY, f64::NAN];
    for disc in [-1.0, -0.0, 0.0, 1.0, f64::NAN] {
        for near in xs {
            for far in xs {
                for tmin in [0.0, 0.001, 0.5, 1.0] {
                    for tmax in [0.4, 1.5, f64::INFINITY] {
                        let want = if disc < 0.0 {
                            None
                        } else if tmin < near && near < tmax {
                            Some(near)
                        } else if tmin < far && far < tmax {
                            Some(far)
                        } else {
                            None
                        };
                        let got = Roots::new(s(disc), s(near), s(far)).select(s(tmin), s(tmax));
                        assert_eq!(got.map(|t| t.to_bits()), want.map(|t: f64| t.to_bits()));
                    }
                }
            }
        }
    }
}

#[test]
fn set_outside_normal_keeps_a_normal_that_meets_the_ray() {
    let mut rec = HitRecord {
        intersection: v([1.0, 2.0, 3.0]),
        t: s(4.0),
        normal: v([0.0, 0.0, 0.0]),
        out_facing: false,
        material: 9,
    };
    rec.set_outside_normal(s(-0.25), v([0.0, 1.0, 0.0]));
    assert!(rec.out_facing);
    assert!(f(rec.normal.i) == 0.0 && f(rec.normal.j) == 1.0 && f(rec.normal.k) == 0.0);
    assert!(f(rec.t) == 4.0 && rec.material == 9 && f(rec.intersection.k) == 3.0);
}

#[test]
fn set_outside_normal_turns_a_normal_that_runs_with_the_ray() {
    let mut rec = HitRecord {
        intersection: v([1.0, 2.0, 3.0]),
        t: s(4.0),
        normal: v([0.0, 0.0, 0.0]),
        out_facing: true,
        material: 9,
    };
    rec.set_outside_normal(s(0.25), v([0.0, 1.0, 0.0]));
    assert!(!rec.out_facing);
    assert_eq!(rec.normal.i.to_bits(), (-0.0f64).to_bits());
    assert_eq!(f(rec.normal.j), -1.0);
    assert_eq!(rec.normal.k.to_bits(), (-0.0f64).to_bits());
}

#[test]
fn set_outside_normal_counts_a_grazing_ray_as_outside() {
    let mut rec = HitRecord {
        intersection: v([0.0, 0.0, 0.0]),
        t: s(1.0),
        normal: v([0.0, 0.0, 0.0]),
        out_facing: false,
        material: 0,
    };
    rec.set_outside_normal(s(0.0), v([1.0, 0.0, 0.0]));
    assert!(rec.out_facing);
    assert_eq!(f(rec.normal.i), 1.0);
    rec.set_outside_normal(s(f64::NAN), v([1.0, 0.0, 0.0]));
    assert!(rec.out_facing);
}

#[test]
fn an_empty_scene_is_not_hit() {
    assert!(hit(&Vec::new(), s(0.001), s(f64::INFINITY)).is_none());
}

#[test]
fn a_scene_that_the_ray_misses_is_not_hit() {
    let origin = [0.0, 0.0, 0.0];
    let dir = [0.0, 1.0, 0.0];
    let shapes = vec![
        roots(origin, dir, [0.0, 0.0, -1.0], 0.5),
        roots(origin, dir, [3.0, 0.0, -1.0], 0.5),
    ];
    assert!(hit(&shapes, s(0.001), s(f64::INFINITY)).is_none());
}

#[test]
fn of_two_overlapping_spheres_the_nearer_hit_is_returned() {
    let origin = [0.0, 0.0, 0.0];
    let dir = [0.0, 0.0, -1.0];
    let first = roots(origin, dir, [0.0, 0.0, -1.0], 0.5);
    let second = roots(origin, dir, [0.0, 0.0, -1.25], 0.5);
    let got = hit(&vec![first, second], s(0.001), s(f64::INFINITY)).unwrap();
    assert_eq!(got.index, 0);
    assert_eq!(f(got.t), 0.5);
    let swapped = hit(&vec![second, first], s(0.001), s(f64::INFINITY)).unwrap();
    assert_eq!(swapped.index, 1);
    assert_eq!(swapped.t.to_bits(), got.t.to_bits());
    let p = at(origin, dir, f(got.t));
    let q = at(origin, dir, f(swapped.t));
    assert_eq!(p, q);
    assert_eq!(p, [0.0, 0.0, -0.5]);
}

#[test]
fn the_order_of_many_spheres_does_not_change_the_hit() {
    let origin = [0.1, -0.2, 0.3];
    let dir = [0.05, 0.02, -1.0];
    let centers = [
        [0.0, 0.0, -5.0],
        [0.3, 0.0, -2.0],
        [0.0, 0.1, -3.5],
        [4.0, 4.0, -1.0],
        [0.1, 0.0, -2.4],
    ];
    let mut shapes = Vec::new();
    for c in centers {
        shapes.push(roots(origin, dir, c, 0.7));
    }
    let want = hit(&shapes, s(0.001), s(f64::INFINITY)).unwrap();
    for turn in 0..shapes.len() {
        let mut turned = shapes.clone();
        turned.rotate_left(turn);
        let got = hit(&turned, s(0.001), s(f64::INFINITY)).unwrap();
        assert_eq!(got.t.to_bits(), want.t.to_bits());
        assert_eq!((got.index + turn) % shapes.len(), want.index);
        turned.reverse();
        let got = hit(&turned, s(0.001), s(f64::INFINITY)).unwrap();
        assert_eq!(got.t.to_bits(), want.t.to_bits());
    }
    let mut least = f64::INFINITY;
    for r in &shapes {
        if let Some(t) = r.select(s(0.001), s(f64::INFINITY)) {
            if f(t) < least {
                least = f(t);
            }
        }
    }
    assert_eq!(f(want.t), least);
}

#[test]
fn of_two_equal_hits_the_first_is_kept() {
    let r = Roots::new(s(1.0), s(0.5), s(1.5));
    let got = hit(&vec![r, r, r], s(0.001), s(f64::INFINITY)).unwrap();
    assert_eq!(got.index, 0);
    assert_eq!(f(got.t), 0.5);
}

#[test]
fn a_hit_beyond_the_upper_bound_does_not_count() {
    let r = Roots::new(s(1.0), s(0.5), s(1.5));
    assert!(hit(&vec![r], s(0.001), s(0.5)).is_none());
    assert!(hit(&vec![r], s(0.001), s(0.6)).is_some());
}

#[test]
fn the_search_does_as_a_loop_over_the_shapes_does() {
    let xs = [-1.0, 0.2, 0.5, 0.9, 1.5, f64::NAN];
    let mut shapes = Vec::new();
    for disc in [-1.0, 0.0, 2.0] {
        for near in xs {
            for far in xs {
                shapes.push(Roots::new(s(disc), s(near), s(far)));
            }
        }
    }
    for start in 0..shapes.len() {
        let scene: Vec<Roots> = shapes[start..].to_vec();
        let mut closest = 1.2f64;
        let mut want: Option<(usize, u64)> = None;
        for (i, r) in scene.iter().enumerate() {
            if let Some(t) = r.select(s(0.1), s(closest)) {
                closest = f(t);
                want = Some((i, t.to_bits()));
            }
        }
        let got = hit(&scene, s(0.1), s(1.2)).map(|n| (n.index, n.t.to_bits()));
        assert_eq!(got, want);
    }
}

#[test]
fn a_ray_without_direction_hits_nothing() {
    let r = roots([0.0, 0.0, 0.0], [0.0, 0.0, 0.0], [0.0, 0.0, -1.0], 0.5);
    assert!(!(f(r.discriminant) < 0.0));
    assert!(f(r.near).is_nan() && f(r.far).is_nan());
    assert!(r.select(s(0.001), s(f64::INFINITY)).is_none());
    assert!(r.select(s(-5.0), s(5.0)).is_none());
    let rec = hit_sphere([0.0, 0.0, 0.0], [0.0, 0.0, 0.0], [0.0, 0.0, -1.0], 0.5, 0.001, f64::INFINITY);
    assert!(rec.is_none());
    let rec = hit_sphere([0.0, 0.0, -1.0], [0.0, 0.0, 0.0], [0.0, 0.0, -1.0], 0.5, 0.001, f64::INFINITY);
    assert!(rec.is_none());
    let rec = hit_sphere([3.0, 1.0, 2.0], [0.0, 0.0, 0.0], [0.0, 0.0, -1.0], -2.0, 0.0, 10.0);
    assert!(rec.is_none());
}

#[test]
fn roots_that_are_no_numbers_are_no_hit() {
    let nan = f64::NAN;
    for disc in [0.0, 1.0, nan, f64::INFINITY] {
        let r = Roots::new(s(disc), s(nan), s(nan));
        assert!(r.select(s(0.001), s(f64::INFINITY)).is_none());
    }
    let r = Roots::new(s(1.0), s(nan), s(1.5));
    assert_eq!(f(r.select(s(0.001), s(f64::INFINITY)).unwrap()), 1.5);
    let r = Roots::new(s(1.0), s(0.5), s(nan));
    assert_eq!(f(r.select(s(0.001), s(f64::INFINITY)).unwrap()), 0.5);
    assert!(r.select(s(0.6), s(f64::INFINITY)).is_none());
}

#[test]
fn bounds_that_are_no_numbers_leave_no_hit() {
    let r = Roots::new(s(1.0), s(0.5), s(1.5));
    assert!(r.select(s(f64::NAN), s(f64::INFINITY)).is_none());
    assert!(r.select(s(0.001), s(f64::NAN)).is_none());
    assert!(hit(&vec![r, r], s(0.001), s(f64::NAN)).is_none());
    assert!(hit(&vec![r, r], s(f64::NAN), s(2.0)).is_none());
}

#[test]
fn a_shape_met_by_a_ray_without_direction_does_not_replace_a_hit() {
    let real = Roots::new(s(1.0), s(0.5), s(1.5));
    let none = Roots::new(s(0.0), s(f64::NAN), s(f64::NAN));
    let got = hit(&vec![real, none], s(0.001), s(f64::INFINITY)).unwrap();
    assert_eq!(got.index, 0);
    assert_eq!(f(got.t), 0.5);
    let got = hit(&vec![none, real], s(0.001), s(f64::INFINITY)).unwrap();
    assert_eq!(got.index, 1);
    assert_eq!(f(got.t), 0.5);
    let got = hit(&vec![none, real, none, none], s(0.001), s(f64::INFINITY)).unwrap();
    assert_eq!(got.index, 1);
    assert_eq!(f(got.t), 0.5);
    assert!(hit(&vec![none, none], s(0.001), s(f64::INFINITY)).is_none());
}

#[test]
fn a_scene_met_by_a_ray_without_direction_is_not_hit() {
    let origin = [0.0, 0.0, 0.0];
    let dir = [0.0, 0.0, 0.0];
    let shapes = vec![
        roots(origin, dir, [0.0, 0.0, -1.0], 0.5),
        roots(origin, dir, [0.0, 0.0, 0.0], 2.0),
        roots(origin, dir, [1.0, 0.0, 0.0], 1.0),
    ];
    assert!(hit(&shapes, s(0.001), s(f64::INFINITY)).is_none());
    let ahead = roots(origin, [0.0, 0.0, -1.0], [0.0, 0.0, -1.0], 0.5);
    let got = hit(&vec![ahead, shapes[0], shapes[1]], s(0.001), s(f64::INFINITY)).unwrap();
    assert_eq!(got.index, 0);
    assert_eq!(f(got.t), 0.5);
}

#[test]
fn the_index_of_a_hit_lies_within_the_scene() {
    let xs = [-1.0, 0.2, 0.5, 0.9, 1.5, f64::NAN, f64::INFINITY];
    let mut shapes = Vec::new();
    for disc in [-1.0, 0.0, f64::NAN] {
        for near in xs {
            for far in xs {
                shapes.push(Roots::new(s(disc), s(near), s(far)));
            }
        }
    }
    for start in 0..shapes.len() {
        let scene: Vec<Roots> = shapes[start..].to_vec();
        for (tmin, tmax) in [(0.1, 1.2), (0.1, f64::INFINITY), (f64::NAN, 1.0), (0.0, f64::NAN)] {
            if let Some(n) = hit(&scene, s(tmin), s(tmax)) {
                assert!(n.index < scene.len());
                assert!(tmin < f(n.t) && f(n.t) < tmax);
            }
        }
    }
}
