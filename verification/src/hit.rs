//! What a ray finds when it meets an object.

use std::sync::Arc;
use vstd::prelude::*;
use crate::aabb::AABB;
use crate::material::Material;
use crate::ray::Ray;
use crate::scalar::Scalar;
use crate::vec3::{Point3, Vec3};

verus! {

/// The place where a ray met a surface: the point, the ray parameter, the
/// normal turned against the ray, whether the ray came from outside, and the
/// surface coordinates.
#[derive(Clone, Copy, Debug)]
pub struct Surface {
    pub p: Point3,
    pub t: Scalar,
    pub normal: Vec3,
    pub front_face: bool,
    pub u: Scalar,
    pub v: Scalar,
}

/// A meeting of a ray and an object: the place, and the material there.
pub struct HitRecord {
    pub p: Point3,
    pub t: Scalar,
    pub mat: Arc<dyn Material>,
    pub normal: Vec3,
    pub front_face: bool,
    pub u: Scalar,
    pub v: Scalar,
}

impl HitRecord {
    /// The place of the hit, without the material.
    pub open spec fn spec_surface(self) -> Surface {
        Surface {
            p: self.p,
            t: self.t,
            normal: self.normal,
            front_face: self.front_face,
            u: self.u,
            v: self.v,
        }
    }

    /// The place of the hit, without the material.
    pub fn surface(&self) -> (s: Surface)
        ensures
            s == self.spec_surface(),
    {
        Surface {
            p: self.p,
            t: self.t,
            normal: self.normal,
            front_face: self.front_face,
            u: self.u,
            v: self.v,
        }
    }

    /// Turns the normal against the ray. `facing` is the dot product of the
    /// ray's direction and `outward_normal`: where it is negative the ray
    /// comes from outside and the normal stays, otherwise the normal is
    /// reversed.
    pub fn set_face_normal(&mut self, facing: Scalar, outward_normal: Vec3)
        ensures
            final(self).front_face == facing.spec_lt(Scalar::spec_zero()),
            final(self).normal == if facing.spec_lt(Scalar::spec_zero()) {
                outward_normal
            } else {
                outward_normal.spec_neg()
            },
            final(self).p == old(self).p,
            final(self).t == old(self).t,
            final(self).mat == old(self).mat,
            final(self).u == old(self).u,
            final(self).v == old(self).v,
    {
        self.front_face = facing.lt(Scalar::zero());
        self.normal = if self.front_face {
            outward_normal
        } else {
            outward_normal.neg()
        };
    }
}

/// Anything in the scene that a ray can meet.
pub trait Hitable: Send + Sync {
    /// Whether `rec` is an answer that the object may give when asked for a
    /// hit of `r` within `[t_min, t_max]`. An object that scatters by chance
    /// admits more than one answer, and one that says nothing of itself
    /// admits every answer.
    open spec fn may_answer(&self, r: Ray, t_min: Scalar, t_max: Scalar, rec: Option<HitRecord>) -> bool {
        true
    }

    /// Whether `b` is what the object may give as the box around it over
    /// the time span. An object that says nothing of itself admits every
    /// box, and none.
    open spec fn may_bound(&self, time0: Scalar, time1: Scalar, b: Option<AABB>) -> bool {
        true
    }

    fn hit(&self, r: &Ray, t_min: Scalar, t_max: Scalar) -> (rec: Option<HitRecord>)
        ensures
            self.may_answer(*r, t_min, t_max, rec),
    ;

    fn bounding_box(&self, time0: Scalar, time1: Scalar) -> (b: Option<AABB>)
        ensures
            self.may_bound(time0, time1, b),
    ;
}

/// The normal that is kept never points along the ray. Negating a vector
/// negates its product with the ray's direction, so that product is
/// `facing` where the normal stays and the negated `facing` where it is
/// reversed: in both cases it is zero or less.
pub proof fn lemma_normal_against_ray(facing: Scalar)
    requires
        !facing.nan(),
    ensures
        facing.spec_lt(Scalar::spec_zero()) ==> facing.spec_le(Scalar::spec_zero()),
        !facing.spec_lt(Scalar::spec_zero()) ==> facing.spec_neg().spec_le(Scalar::spec_zero()),
{
}

} // verus!
