//! Rectangles parallel to two axes.

use vstd::prelude::*;
use crate::aabb::AABB;
use crate::scalar::{Scalar, ONE_BITS};
use crate::vec3::{Point3, Vec3};

verus! {

/// The two axes that a rectangle is parallel to.
pub enum PlaneOrientation {
    XY,
    YZ,
    ZX,
}

/// A rectangle at height `k` over the plane of its orientation, reaching
/// from `x0` to `x1` along the first axis of that plane and from `y0` to
/// `y1` along the second. `M` is the handle by which it holds its material.
pub struct Plane<M> {
    pub mat: M,
    pub x0: Scalar,
    pub x1: Scalar,
    pub y0: Scalar,
    pub y1: Scalar,
    pub k: Scalar,
    pub plane: PlaneOrientation,
}

impl PlaneOrientation {
    /// The axis across the plane, then the first and the second axis in it.
    /// The three follow each other in the cycle x, y, z.
    pub open spec fn axes(self) -> (int, int, int) {
        match self {
            PlaneOrientation::XY => (2, 0, 1),
            PlaneOrientation::YZ => (0, 1, 2),
            PlaneOrientation::ZX => (1, 2, 0),
        }
    }
}

impl<M> Plane<M> {
    /// Whether the point `(x, y)` of the plane lies on the rectangle, edges
    /// included. A NaN lies on it: no comparison puts it outside.
    pub open spec fn spec_covers(self, x: Scalar, y: Scalar) -> bool {
        !(x.spec_lt(self.x0) || self.x1.spec_lt(x) || y.spec_lt(self.y0) || self.y1.spec_lt(y))
    }

    /// The unit vector across the plane.
    pub open spec fn spec_outward_normal(self) -> Vec3 {
        let one = Scalar { bits: ONE_BITS };
        let zero = Scalar::spec_zero();
        match self.plane {
            PlaneOrientation::XY => Vec3 { x: zero, y: zero, z: one },
            PlaneOrientation::YZ => Vec3 { x: one, y: zero, z: zero },
            PlaneOrientation::ZX => Vec3 { x: zero, y: one, z: zero },
        }
    }

    pub fn new(
        plane: PlaneOrientation,
        mat: M,
        x0: Scalar,
        x1: Scalar,
        y0: Scalar,
        y1: Scalar,
        k: Scalar,
    ) -> (rect: Self)
        ensures
            rect.mat == mat,
            rect.x0 == x0,
            rect.x1 == x1,
            rect.y0 == y0,
            rect.y1 == y1,
            rect.k == k,
            rect.plane == plane,
    {
        Plane { mat, x0, x1, y0, y1, k, plane }
    }

    /// The axis across the plane, then the first and the second axis in it.
    pub fn get_orientation_axis(&self) -> (axes: (usize, usize, usize))
        ensures
            axes.0 == self.plane.axes().0,
            axes.1 == self.plane.axes().1,
            axes.2 == self.plane.axes().2,
            axes.0 < 3 && axes.1 < 3 && axes.2 < 3,
            axes.1 == (axes.0 + 1) % 3,
            axes.2 == (axes.0 + 2) % 3,
    {
        match self.plane {
            PlaneOrientation::XY => (2, 0, 1),
            PlaneOrientation::YZ => (0, 1, 2),
            PlaneOrientation::ZX => (1, 2, 0),
        }
    }

    /// Whether the point `(x, y)` of the plane lies on the rectangle.
    pub fn covers(&self, x: Scalar, y: Scalar) -> (b: bool)
        ensures
            b == self.spec_covers(x, y),
    {
        !(x.lt(self.x0) || x.gt(self.x1) || y.lt(self.y0) || y.gt(self.y1))
    }

    /// The unit vector across the plane, before it is turned against a ray.
    pub fn outward_normal(&self) -> (n: Vec3)
        ensures
            n == self.spec_outward_normal(),
            n.component(self.plane.axes().0) == (Scalar { bits: ONE_BITS }),
    {
        let (k_axis, _, _) = self.get_orientation_axis();
        Vec3::zero().with(k_axis, Scalar::one())
    }

    /// The box around the rectangle, given the two heights `k_lo` and `k_hi`
    /// just below and above `k` that keep it from being flat: on each axis
    /// of the plane the box has the extent of the rectangle, across the
    /// plane it reaches from `k_lo` to `k_hi`.
    pub fn bounding_box(&self, k_lo: Scalar, k_hi: Scalar) -> (b: AABB)
        ensures
            b.min.component(self.plane.axes().0) == k_lo,
            b.max.component(self.plane.axes().0) == k_hi,
            b.min.component(self.plane.axes().1) == self.x0,
            b.max.component(self.plane.axes().1) == self.x1,
            b.min.component(self.plane.axes().2) == self.y0,
            b.max.component(self.plane.axes().2) == self.y1,
    {
        let (k_axis, x_axis, y_axis) = self.get_orientation_axis();
        let min = Point3::zero().with(k_axis, k_lo).with(x_axis, self.x0).with(y_axis, self.y0);
        let max = Point3::zero().with(k_axis, k_hi).with(x_axis, self.x1).with(y_axis, self.y1);
        AABB::new(min, max)
    }
}

} // verus!
