//! Triples of numbers: vectors, points and colours.

use vstd::prelude::*;
use crate::scalar::Scalar;

verus! {

/// Three numbers, one for each axis.
#[derive(Clone, Copy, Debug)]
pub struct Vec3 {
    pub x: Scalar,
    pub y: Scalar,
    pub z: Scalar,
}

/// A position in space.
pub type Point3 = Vec3;

/// Red, green and blue.
pub type Color = Vec3;

impl Vec3 {
    /// The component on an axis: 0 is x, 1 is y, anything else is z.
    pub open spec fn component(self, axis: int) -> Scalar {
        if axis == 0 {
            self.x
        } else if axis == 1 {
            self.y
        } else {
            self.z
        }
    }

    /// The vector with the component on one axis replaced.
    pub open spec fn spec_with(self, axis: int, value: Scalar) -> Vec3 {
        if axis == 0 {
            Vec3 { x: value, y: self.y, z: self.z }
        } else if axis == 1 {
            Vec3 { x: self.x, y: value, z: self.z }
        } else {
            Vec3 { x: self.x, y: self.y, z: value }
        }
    }

    /// Whether no component is a NaN.
    pub open spec fn numeric(self) -> bool {
        !self.x.nan() && !self.y.nan() && !self.z.nan()
    }

    /// Component by component, the negated vector.
    pub open spec fn spec_neg(self) -> Vec3 {
        Vec3 { x: self.x.spec_neg(), y: self.y.spec_neg(), z: self.z.spec_neg() }
    }

    /// Component by component, the smaller of the two.
    pub open spec fn spec_min(self, other: Vec3) -> Vec3 {
        Vec3 {
            x: self.x.spec_min(other.x),
            y: self.y.spec_min(other.y),
            z: self.z.spec_min(other.z),
        }
    }

    /// Component by component, the larger of the two.
    pub open spec fn spec_max(self, other: Vec3) -> Vec3 {
        Vec3 {
            x: self.x.spec_max(other.x),
            y: self.y.spec_max(other.y),
            z: self.z.spec_max(other.z),
        }
    }

    /// Whether every component is at most the other's.
    pub open spec fn all_le(self, other: Vec3) -> bool {
        self.x.spec_le(other.x) && self.y.spec_le(other.y) && self.z.spec_le(other.z)
    }

    /// Whether every component is smaller in absolute value than `eps`.
    pub open spec fn spec_near_zero(self, eps: Scalar) -> bool {
        self.x.spec_abs().spec_lt(eps) && self.y.spec_abs().spec_lt(eps)
            && self.z.spec_abs().spec_lt(eps)
    }

    /// The vector of three zeros.
    pub open spec fn spec_zero() -> Vec3 {
        Vec3 { x: Scalar::spec_zero(), y: Scalar::spec_zero(), z: Scalar::spec_zero() }
    }

    pub fn new(x: Scalar, y: Scalar, z: Scalar) -> (v: Vec3)
        ensures
            v == (Vec3 { x, y, z }),
    {
        Vec3 { x, y, z }
    }

    /// The vector of three zeros: the origin, or black.
    pub fn zero() -> (v: Vec3)
        ensures
            v == Vec3::spec_zero(),
    {
        Vec3 { x: Scalar::zero(), y: Scalar::zero(), z: Scalar::zero() }
    }

    pub fn x(&self) -> (s: Scalar)
        ensures
            s == self.x,
    {
        self.x
    }

    pub fn y(&self) -> (s: Scalar)
        ensures
            s == self.y,
    {
        self.y
    }

    pub fn z(&self) -> (s: Scalar)
        ensures
            s == self.z,
    {
        self.z
    }

    /// The component on an axis.
    pub fn get(&self, axis: usize) -> (s: Scalar)
        requires
            axis < 3,
        ensures
            s == self.component(axis as int),
    {
        if axis == 0 {
            self.x
        } else if axis == 1 {
            self.y
        } else {
            self.z
        }
    }

    /// The vector with one component replaced.
    pub fn with(&self, axis: usize, value: Scalar) -> (v: Vec3)
        requires
            axis < 3,
        ensures
            v == self.spec_with(axis as int, value),
    {
        if axis == 0 {
            Vec3 { x: value, y: self.y, z: self.z }
        } else if axis == 1 {
            Vec3 { x: self.x, y: value, z: self.z }
        } else {
            Vec3 { x: self.x, y: self.y, z: value }
        }
    }

    /// The opposite vector.
    pub fn neg(&self) -> (v: Vec3)
        ensures
            v == self.spec_neg(),
    {
        Vec3 { x: self.x.neg(), y: self.y.neg(), z: self.z.neg() }
    }

    /// Component by component, the smaller of the two.
    pub fn min(&self, other: &Vec3) -> (v: Vec3)
        ensures
            v == self.spec_min(*other),
    {
        Vec3 { x: self.x.min(other.x), y: self.y.min(other.y), z: self.z.min(other.z) }
    }

    /// Component by component, the larger of the two.
    pub fn max(&self, other: &Vec3) -> (v: Vec3)
        ensures
            v == self.spec_max(*other),
    {
        Vec3 { x: self.x.max(other.x), y: self.y.max(other.y), z: self.z.max(other.z) }
    }

    /// Whether the vector is too short to give a direction: every component
    /// is smaller in absolute value than `eps`.
    pub fn near_zero(&self, eps: Scalar) -> (b: bool)
        ensures
            b == self.spec_near_zero(eps),
    {
        self.x.abs().lt(eps) && self.y.abs().lt(eps) && self.z.abs().lt(eps)
    }
}

} // verus!
