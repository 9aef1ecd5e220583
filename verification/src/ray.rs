//! A ray: the points `origin + t * direction`.
use crate::vec3::{Point, Vec3};
use vstd::prelude::*;

verus! {

/// A half-line, by where it starts and which way it goes.
#[derive(Clone, Copy, Debug)]
pub struct Ray {
    pub origin: Point,
    pub direction: Vec3,
}

impl Ray {
    /// The ray from `origin` along `direction`.
    pub fn new(origin: Point, direction: Vec3) -> (r: Ray)
        ensures
            r.origin == origin,
            r.direction == direction,
    {
        Ray { origin, direction }
    }

    /// The ray's direction.
    pub fn dir(&self) -> (r: Vec3)
        ensures
            r == self.direction,
    {
        self.direction
    }

    /// The point the ray starts from.
    pub fn origin(&self) -> (r: Point)
        ensures
            r == self.origin,
    {
        self.origin
    }
}

} // verus!
