//! Boxes made of six rectangles.

use vstd::prelude::*;
use crate::aabb::AABB;
use crate::rect::{Plane, PlaneOrientation};
use crate::scalar::Scalar;
use crate::vec3::Point3;

verus! {

/// A box between two corners, with its six sides. `M` is the handle by
/// which each side holds the material.
pub struct Cube<M> {
    pub min: Point3,
    pub max: Point3,
    pub sides: Vec<Plane<M>>,
}

/// Whether `side` is the rectangle with this orientation and these extents,
/// holding a clone of `mat`.
pub open spec fn is_side<M: Clone>(
    side: Plane<M>,
    mat: M,
    plane: PlaneOrientation,
    x0: Scalar,
    x1: Scalar,
    y0: Scalar,
    y1: Scalar,
    k: Scalar,
) -> bool {
    &&& cloned(mat, side.mat)
    &&& side.plane == plane
    &&& side.x0 == x0
    &&& side.x1 == x1
    &&& side.y0 == y0
    &&& side.y1 == y1
    &&& side.k == k
}

impl<M: Clone> Cube<M> {
    /// Whether the sides are those of the box between `low` and `high`: for
    /// each pair of axes the rectangle at the far corner's height and then
    /// the one at the near corner's, each with the box's extent on its two
    /// axes.
    pub open spec fn sides_of(sides: Seq<Plane<M>>, low: Point3, high: Point3, mat: M) -> bool {
        &&& sides.len() == 6
        &&& is_side(sides[0], mat, PlaneOrientation::XY, low.x, high.x, low.y, high.y, high.z)
        &&& is_side(sides[1], mat, PlaneOrientation::XY, low.x, high.x, low.y, high.y, low.z)
        &&& is_side(sides[2], mat, PlaneOrientation::ZX, low.z, high.z, low.x, high.x, high.y)
        &&& is_side(sides[3], mat, PlaneOrientation::ZX, low.z, high.z, low.x, high.x, low.y)
        &&& is_side(sides[4], mat, PlaneOrientation::YZ, low.y, high.y, low.z, high.z, high.x)
        &&& is_side(sides[5], mat, PlaneOrientation::YZ, low.y, high.y, low.z, high.z, low.x)
    }

    /// The box between the corners `low` and `high`, of one material.
    pub fn new(low: Point3, high: Point3, mat: M) -> (cube: Self)
        ensures
            cube.min == low,
            cube.max == high,
            Self::sides_of(cube.sides@, low, high, mat),
    {
        let mut sides: Vec<Plane<M>> = Vec::new();

        sides.push(Plane::new(PlaneOrientation::XY, mat.clone(), low.x(), high.x(), low.y(), high.y(), high.z()));
        sides.push(Plane::new(PlaneOrientation::XY, mat.clone(), low.x(), high.x(), low.y(), high.y(), low.z()));

        sides.push(Plane::new(PlaneOrientation::ZX, mat.clone(), low.z(), high.z(), low.x(), high.x(), high.y()));
        sides.push(Plane::new(PlaneOrientation::ZX, mat.clone(), low.z(), high.z(), low.x(), high.x(), low.y()));

        sides.push(Plane::new(PlaneOrientation::YZ, mat.clone(), low.y(), high.y(), low.z(), high.z(), high.x()));
        sides.push(Plane::new(PlaneOrientation::YZ, mat.clone(), low.y(), high.y(), low.z(), high.z(), low.x()));

        Cube { min: low, max: high, sides }
    }

    /// The box from corner to corner.
    pub fn bounding_box(&self) -> (b: AABB)
        ensures
            b == (AABB { min: self.min, max: self.max }),
    {
        AABB::new(self.min, self.max)
    }
}

} // verus!
