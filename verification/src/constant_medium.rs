//! The stretch of a ray inside a volume of fog.

use vstd::prelude::*;
use crate::scalar::Scalar;

verus! {

/// The stretch of the ray between `enter` and `exit` that counts for
/// `[t_min, t_max]`. The entry is drawn up to `t_min` and the exit down to
/// `t_max`; nothing is left where the entry then is not before the exit;
/// last, an entry behind the ray's origin is drawn up to the origin.
pub open spec fn spec_clip_span(enter: Scalar, exit: Scalar, t_min: Scalar, t_max: Scalar) -> Option<
    (Scalar, Scalar),
> {
    let from = if enter.spec_lt(t_min) { t_min } else { enter };
    let to = if t_max.spec_lt(exit) { t_max } else { exit };
    if to.spec_le(from) {
        None
    } else if from.spec_lt(Scalar::spec_zero()) {
        Some((Scalar::spec_zero(), to))
    } else {
        Some((from, to))
    }
}

/// The stretch of the ray inside the volume that counts for
/// `[t_min, t_max]`, from the parameters at which the ray enters and leaves
/// the boundary; `None` where nothing is left.
pub fn clip_span(enter: Scalar, exit: Scalar, t_min: Scalar, t_max: Scalar) -> (span: Option<(Scalar, Scalar)>)
    ensures
        span == spec_clip_span(enter, exit, t_min, t_max),
{
    let mut from = enter;
    let mut to = exit;
    if from.lt(t_min) {
        from = t_min;
    }
    if to.gt(t_max) {
        to = t_max;
    }
    if from.ge(to) {
        return None;
    }
    if from.lt(Scalar::zero()) {
        from = Scalar::zero();
    }
    Some((from, to))
}

/// Whether the ray is scattered inside the volume: the distance drawn for
/// it to fly freely is not longer than its way through.
pub fn scatters_within(hit_distance: Scalar, distance_inside_boundary: Scalar) -> (b: bool)
    ensures
        b == !distance_inside_boundary.spec_lt(hit_distance),
{
    !hit_distance.gt(distance_inside_boundary)
}

} // verus!
