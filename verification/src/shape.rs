//! The sphere: which root of the ray's quadratic counts as the hit, and the
//! record of that hit.
//!
//! A ray `O + t D` meets the sphere of center `C` and radius `r` where
//! `a t^2 + b t + c = 0`, with `a = D.D`, `b = 2 (O - C).D` and
//! `c = (O - C).(O - C) - r^2`. The caller works out the discriminant
//! `b^2 - 4ac` and the two roots `(-b - sqrt(disc)) / 2a` and
//! `(-b + sqrt(disc)) / 2a`; what is decided on them is decided here.
use crate::hittable::HitRecord;
use crate::scalar::{Scalar, ZERO_BITS};
use crate::vec3::{Point, Vec3};
use vstd::prelude::*;

verus! {

/// A sphere. A radius below zero is allowed: it turns the surface inside out.
#[derive(Clone, Copy, Debug)]
pub struct Sphere {
    pub center: Point,
    pub radius: Scalar,
    /// The place of the sphere's material among the scene's materials.
    pub material: usize,
}

/// The discriminant of a ray's quadratic for one sphere, and its two roots.
#[derive(Clone, Copy, Debug)]
pub struct Roots {
    pub discriminant: Scalar,
    /// The root taken with the minus sign.
    pub near: Scalar,
    /// The root taken with the plus sign.
    pub far: Scalar,
}

/// `t` is a number that lies strictly between `tmin` and `tmax`. This holds
/// of no NaN, and of nothing where a bound is a NaN.
pub open spec fn strictly_between(t: Scalar, tmin: Scalar, tmax: Scalar) -> bool {
    tmin.lt_spec(t) && t.lt_spec(tmax)
}

/// `t` cannot be the parameter of a hit within the open interval from `tmin`
/// to `tmax`: it lies at or beyond an end of it, or is no number at all.
pub open spec fn outside(t: Scalar, tmin: Scalar, tmax: Scalar) -> bool {
    !strictly_between(t, tmin, tmax)
}

impl Roots {
    /// The roots are in order: the far root is not below the near one. Roots
    /// of which one is no number are in order.
    pub open spec fn well_formed(self) -> bool {
        !self.far.lt_spec(self.near)
    }

    /// The root that counts as the hit: none where the discriminant is below
    /// zero, else the near root where it is a number strictly inside the
    /// interval, else the far root where that one is. A ray without
    /// direction, whose roots are no numbers, hits nothing.
    pub open spec fn select_spec(self, tmin: Scalar, tmax: Scalar) -> Option<Scalar> {
        if self.discriminant.lt_spec(Scalar { bits: ZERO_BITS }) {
            None
        } else if !outside(self.near, tmin, tmax) {
            Some(self.near)
        } else if !outside(self.far, tmin, tmax) {
            Some(self.far)
        } else {
            None
        }
    }

    /// The three numbers as one value.
    pub fn new(discriminant: Scalar, near: Scalar, far: Scalar) -> (r: Roots)
        ensures
            r.discriminant == discriminant,
            r.near == near,
            r.far == far,
    {
        Roots { discriminant, near, far }
    }

    /// The parameter at which the ray hits the sphere within the open interval
    /// from `tmin` to `tmax`, if it does.
    pub fn select(&self, tmin: Scalar, tmax: Scalar) -> (r: Option<Scalar>)
        ensures
            r == self.select_spec(tmin, tmax),
            r matches Some(t) ==> strictly_between(t, tmin, tmax),
            self.well_formed() ==> smallest_between(*self, tmin, tmax, r),
    {
        if self.discriminant.lt(Scalar::zero()) {
            return None;
        }
        let mut root = self.near;
        if !(tmin.lt(root) && root.lt(tmax)) {
            root = self.far;
            if !(tmin.lt(root) && root.lt(tmax)) {
                return None;
            }
        }
        Some(root)
    }
}

impl Sphere {
    /// The sphere with the given center, radius and material.
    pub fn new(center: Point, radius: Scalar, material: usize) -> (r: Sphere)
        ensures
            r.center == center,
            r.radius == radius,
            r.material == material,
    {
        Sphere { center, radius, material }
    }

    /// The record of a hit on this sphere at parameter `t`. `intersection` is
    /// the ray's point at `t`, `outward` is `(intersection - center) / radius`,
    /// and `facing` is the dot product of the ray's direction with `outward`.
    pub fn record(&self, t: Scalar, intersection: Point, outward: Vec3, facing: Scalar) -> (r:
        HitRecord)
        ensures
            r.t == t,
            r.intersection == intersection,
            r.material == self.material,
            r.out_facing == !facing.gt_spec(Scalar { bits: ZERO_BITS }),
            r.normal == if r.out_facing {
                outward
            } else {
                outward.neg_spec()
            },
    {
        let mut tmp = HitRecord {
            intersection,
            t,
            normal: Vec3::new(Scalar::zero(), Scalar::zero(), Scalar::zero()),
            out_facing: false,
            material: self.material,
        };
        tmp.set_outside_normal(facing, outward);
        tmp
    }
}

/// `found` is the smallest of the two roots that lies strictly between the
/// bounds, and is none only where the discriminant is below zero or neither
/// root lies there.
pub open spec fn smallest_between(roots: Roots, tmin: Scalar, tmax: Scalar, found: Option<Scalar>) -> bool {
    match found {
        Some(t) => {
            &&& !roots.discriminant.lt_spec(Scalar { bits: ZERO_BITS })
            &&& t == roots.near || t == roots.far
            &&& strictly_between(t, tmin, tmax)
            &&& strictly_between(roots.near, tmin, tmax) ==> t.le_spec(roots.near)
            &&& strictly_between(roots.far, tmin, tmax) ==> t.le_spec(roots.far)
        },
        None => {
            ||| roots.discriminant.lt_spec(Scalar { bits: ZERO_BITS })
            ||| (!strictly_between(roots.near, tmin, tmax) && !strictly_between(
                roots.far,
                tmin,
                tmax,
            ))
        },
    }
}

/// Of roots that are in order, the selected root is the smallest that lies
/// strictly between the bounds, whatever the bounds are.
pub proof fn lemma_select_smallest(roots: Roots, tmin: Scalar, tmax: Scalar)
    requires
        roots.well_formed(),
    ensures
        smallest_between(roots, tmin, tmax, roots.select_spec(tmin, tmax)),
{
}

/// Roots that are no numbers give no hit, whatever the discriminant and the
/// bounds are: a ray without direction hits nothing.
pub proof fn lemma_no_direction_no_hit(roots: Roots, tmin: Scalar, tmax: Scalar)
    requires
        roots.near.is_nan(),
        roots.far.is_nan(),
    ensures
        roots.select_spec(tmin, tmax) is None,
{
}

/// Lowering the upper bound keeps the selected root where it still lies below
/// the new bound, and leaves none where it does not.
pub proof fn lemma_select_under_bound(roots: Roots, tmin: Scalar, bound: Scalar, tmax: Scalar)
    requires
        roots.well_formed(),
        bound == tmax || bound.lt_spec(tmax),
    ensures
        roots.select_spec(tmin, bound) == match roots.select_spec(tmin, tmax) {
            Some(t) => if t.lt_spec(bound) {
                Some(t)
            } else {
                None
            },
            None => None,
        },
{
}

} // verus!
