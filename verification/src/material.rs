//! What a surface does to the light that reaches it.

use vstd::prelude::*;
use crate::hit::Surface;
use crate::ray::Ray;
use crate::scalar::{Scalar, ONE_BITS};
use crate::texture::{SolidColor, Texture};
use crate::vec3::{Color, Point3, Vec3};

verus! {

/// The pattern of 1e-8: a direction with every component nearer to zero
/// than this is too short to be used.
pub const NEAR_ZERO_BITS: u64 = 0x3E45_798E_E230_8C3A;

/// The direction in which a matt surface sends a ray on: the candidate, the
/// sum of the normal and a drawn unit vector, unless the two have all but
/// cancelled, and then the normal.
pub fn scatter_direction(candidate: Vec3, normal: Vec3) -> (direction: Vec3)
    ensures
        direction == if candidate.spec_near_zero(Scalar { bits: NEAR_ZERO_BITS }) {
            normal
        } else {
            candidate
        },
{
    if candidate.near_zero(Scalar::from_bits(NEAR_ZERO_BITS)) {
        normal
    } else {
        candidate
    }
}

/// Whether a mirrored ray goes on: it does where it points away from the
/// surface, that is where `facing`, the product of its direction and the
/// normal, is above zero. A ray blurred into the surface is kept.
pub fn leaves_surface(facing: Scalar) -> (b: bool)
    ensures
        b == Scalar::spec_zero().spec_lt(facing),
{
    facing.gt(Scalar::zero())
}

/// Whether glass mirrors a ray rather than bending it: it does where the
/// ray cannot be bent, `bend`, the refraction ratio times the sine of the
/// angle of incidence, being above one, and where `draw` falls below the
/// reflectance.
pub fn reflects(bend: Scalar, draw: Scalar, reflectance: Scalar) -> (b: bool)
    ensures
        b == ((Scalar { bits: ONE_BITS }).spec_lt(bend) || draw.spec_lt(reflectance)),
{
    bend.gt(Scalar::one()) || draw.lt(reflectance)
}

/// A surface either sends a ray on, weakened colour by colour, or keeps it.
pub trait Material: Send + Sync {
    /// Whether `out` is an outcome that the material may give for the ray
    /// `r_in` arriving at `rec`. A material that scatters by chance admits
    /// more than one, and one that says nothing of itself admits every
    /// outcome.
    open spec fn may_scatter(&self, r_in: Ray, rec: Surface, out: Option<(Color, Ray)>) -> bool {
        true
    }

    /// Whether `c` is the light that the material may give off at a point.
    /// A material that says nothing of itself admits every colour.
    open spec fn may_emit(&self, u: Scalar, v: Scalar, point: Point3, c: Color) -> bool {
        true
    }

    /// The attenuation and the ray that goes on, or `None` where the ray
    /// ends.
    fn scatter(&self, r_in: &Ray, rec: &Surface) -> (out: Option<(Color, Ray)>)
        ensures
            self.may_scatter(*r_in, *rec, out),
    ;

    /// The light that the material gives off at a point: black for a
    /// material that does not shine.
    fn emitted(&self, u: Scalar, v: Scalar, point: Point3) -> (c: Color)
        ensures
            self.may_emit(u, v, point, c),
    ;
}

/// A light: it ends every ray and gives off the colour of its texture.
pub struct DiffuseLight<T: Texture> {
    pub emit: T,
}

impl<T: Texture> DiffuseLight<T> {
    pub fn new(emit: T) -> (light: Self)
        ensures
            light.emit == emit,
    {
        Self { emit }
    }
}

impl DiffuseLight<SolidColor> {
    pub fn from_color(color: Color) -> (light: Self)
        ensures
            light.emit.color_value == color,
    {
        Self { emit: SolidColor::new(color) }
    }
}

impl<T: Texture> Material for DiffuseLight<T> {
    open spec fn may_scatter(&self, r_in: Ray, rec: Surface, out: Option<(Color, Ray)>) -> bool {
        out is None
    }

    open spec fn may_emit(&self, u: Scalar, v: Scalar, point: Point3, c: Color) -> bool {
        self.emit.may_color(u, v, point, c)
    }

    fn scatter(&self, r_in: &Ray, rec: &Surface) -> (out: Option<(Color, Ray)>) {
        None
    }

    fn emitted(&self, u: Scalar, v: Scalar, point: Point3) -> (c: Color) {
        self.emit.value(u, v, point)
    }
}

} // verus!
