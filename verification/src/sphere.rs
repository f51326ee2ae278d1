//! Where a ray meets a sphere.

use vstd::prelude::*;
use crate::scalar::Scalar;

verus! {

/// The parameter at which a ray meets a sphere within `[t_min, t_max]`,
/// given the discriminant of the quadratic and its two roots, the smaller
/// one first. There is none where the discriminant is negative. Else it is
/// the smaller root unless that lies outside the interval, and then the
/// larger root unless that lies outside too.
pub open spec fn spec_nearest_root(
    discriminant: Scalar,
    near: Scalar,
    far: Scalar,
    t_min: Scalar,
    t_max: Scalar,
) -> Option<Scalar> {
    if discriminant.spec_lt(Scalar::spec_zero()) {
        None
    } else if !near.spec_outside(t_min, t_max) {
        Some(near)
    } else if !far.spec_outside(t_min, t_max) {
        Some(far)
    } else {
        None
    }
}

/// The parameter at which a ray meets a sphere within `[t_min, t_max]`.
pub fn nearest_root(discriminant: Scalar, near: Scalar, far: Scalar, t_min: Scalar, t_max: Scalar) -> (root:
    Option<Scalar>)
    ensures
        root == spec_nearest_root(discriminant, near, far, t_min, t_max),
{
    if discriminant.lt(Scalar::zero()) {
        return None;
    }
    let mut root = near;
    if root.outside(t_min, t_max) {
        root = far;
        if root.outside(t_min, t_max) {
            return None;
        }
    }
    Some(root)
}

/// A root that is found is one of the two, and a number found lies in the
/// interval.
pub proof fn lemma_root_in_range(discriminant: Scalar, near: Scalar, far: Scalar, t_min: Scalar, t_max: Scalar)
    ensures
        spec_nearest_root(discriminant, near, far, t_min, t_max) matches Some(root) ==> {
            &&& root == near || root == far
            &&& !t_min.nan() && !t_max.nan() && !root.nan() ==> t_min.spec_le(root) && root.spec_le(t_max)
        },
{
}

} // verus!
