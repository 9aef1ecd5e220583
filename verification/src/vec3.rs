//! Vectors of three numbers, and the tests the engine makes on them.
use crate::scalar::{Scalar, ONE_BITS, ZERO_BITS};
use vstd::prelude::*;

verus! {

/// The pattern of `1e-8`, below which a component counts as nothing.
pub const NEAR_ZERO_BITS: u64 = 0x3e45_798e_e230_8c3a;

/// A vector of three numbers.
#[derive(Clone, Copy, Debug)]
pub struct Vec3 {
    pub i: Scalar,
    pub j: Scalar,
    pub k: Scalar,
}

/// A vector read as a position.
pub type Point = Vec3;

impl Vec3 {
    /// The vector with each component's sign flipped.
    pub open spec fn neg_spec(self) -> Vec3 {
        Vec3 { i: self.i.neg_spec(), j: self.j.neg_spec(), k: self.k.neg_spec() }
    }

    /// Each component lies below `1e-8`. The three tests are joined by "and",
    /// and none takes an absolute value: a component far below zero passes.
    pub open spec fn near_zero_spec(self) -> bool {
        let s = Scalar { bits: NEAR_ZERO_BITS };
        self.i.lt_spec(s) && self.j.lt_spec(s) && self.k.lt_spec(s)
    }

    /// No component is a NaN.
    pub open spec fn is_number(self) -> bool {
        !self.i.is_nan() && !self.j.is_nan() && !self.k.is_nan()
    }

    /// The vector with the given components.
    pub fn new(i: Scalar, j: Scalar, k: Scalar) -> (r: Vec3)
        ensures
            r.i == i,
            r.j == j,
            r.k == k,
    {
        Vec3 { i, j, k }
    }

    /// The opposite vector.
    pub fn neg(self) -> (r: Vec3)
        ensures
            r == self.neg_spec(),
            r.i.value() == -self.i.value(),
            r.j.value() == -self.j.value(),
            r.k.value() == -self.k.value(),
            r.is_number() == self.is_number(),
    {
        Vec3 { i: self.i.neg(), j: self.j.neg(), k: self.k.neg() }
    }

    /// The outcome of one draw for a random direction. `length` is the length
    /// of a vector drawn from the cube between -1 and 1, and `unit` is that
    /// vector divided by its length. The draw is taken where the vector lies
    /// in the unit ball, and is to be made again where it does not.
    pub fn random_unit_vector(length: Scalar, unit: Vec3) -> (r: Option<Vec3>)
        ensures
            r == if length.le_spec(Scalar { bits: ONE_BITS }) {
                Some(unit)
            } else {
                None
            },
    {
        if length.le(Scalar::one()) {
            Some(unit)
        } else {
            None
        }
    }

    /// The outcome of one draw for a random point of the unit disk. `p` is a
    /// vector drawn from the square between -1 and 1, and `length_pow2` is
    /// its squared length. The draw is taken where the squared length is
    /// below one, and is to be made again where it is not.
    pub fn random_in_unit_circle(length_pow2: Scalar, p: Vec3) -> (r: Option<Vec3>)
        ensures
            r == if length_pow2.lt_spec(Scalar { bits: ONE_BITS }) {
                Some(p)
            } else {
                None
            },
    {
        if length_pow2.lt(Scalar::one()) {
            Some(p)
        } else {
            None
        }
    }

    /// A random direction on the side of a surface that its normal points to.
    /// `v` is a random unit vector and `facing` its dot product with the
    /// normal: `v` is kept where that is above zero, and turned round where
    /// it is not.
    pub fn random_unit_on_hemisphere(v: Vec3, facing: Scalar) -> (r: Vec3)
        ensures
            r == if facing.gt_spec(Scalar { bits: ZERO_BITS }) {
                v
            } else {
                v.neg_spec()
            },
    {
        if facing.gt(Scalar::zero()) {
            v
        } else {
            v.neg()
        }
    }

    /// Whether every component lies below `1e-8`.
    pub fn near_zero(&self) -> (r: bool)
        ensures
            r == self.near_zero_spec(),
    {
        let s = Scalar { bits: NEAR_ZERO_BITS };
        self.i.lt(s) && self.j.lt(s) && self.k.lt(s)
    }
}

impl Default for Vec3 {
    /// The origin.
    fn default() -> (r: Vec3)
        ensures
            r.i.bits == 0,
            r.j.bits == 0,
            r.k.bits == 0,
    {
        Vec3 { i: Scalar::zero(), j: Scalar::zero(), k: Scalar::zero() }
    }
}

} // verus!
