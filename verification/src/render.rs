//! The path that a ray takes through the scene.

use vstd::prelude::*;
use crate::hit::{HitRecord, Hitable};
use crate::material::Material;
use crate::ray::Ray;
use crate::scalar::{Scalar, INFINITY_BITS};
use crate::vec3::Color;
use crate::world::World;

verus! {

/// The pattern of 0.001, the nearest parameter at which a hit counts: a
/// ray that leaves a surface does not meet that surface again at once.
pub const NEAR_BITS: u64 = 0x3F50_624D_D2F1_A9FC;

/// How a path ends.
pub enum PathEnd {
    /// The path was cut off after the allowed number of bounces. It brings
    /// no light.
    Exhausted,
    /// The last ray left the scene. It brings the light of the background
    /// in its direction.
    Escaped(Ray),
    /// The last surface kept the ray. It brings the light that the surface
    /// gives off.
    Absorbed(Color),
}

/// A path: the attenuations of its bounces, the last bounce first, and its
/// end. The light at the start of the path is the light of its end, weakened
/// by each attenuation in turn.
pub struct Path {
    pub attenuations: Vec<Color>,
    pub end: PathEnd,
}

/// Whether the bounces and the end are a path that the ray `r` may take
/// through `world` with `depth` bounces allowed. With none allowed the path
/// is exhausted. Else the scene is asked for the nearest hit: without one
/// the ray escapes; with one the material there either keeps the ray, and
/// the path ends with what it gives off, or scatters it, and the path goes
/// on with the scattered ray and one bounce fewer.
pub open spec fn path_admits(world: World, r: Ray, depth: nat, bounces: Seq<Color>, end: PathEnd) -> bool
    decreases depth,
{
    if depth == 0 {
        bounces.len() == 0 && end == PathEnd::Exhausted
    } else {
        exists|rec: Option<HitRecord>| #[trigger]
            world.may_answer(r, Scalar { bits: NEAR_BITS }, Scalar { bits: INFINITY_BITS }, rec) && match rec {
                None => bounces.len() == 0 && end == PathEnd::Escaped(r),
                Some(h) => exists|out: Option<(Color, Ray)>| #[trigger]
                    h.mat.may_scatter(r, h.spec_surface(), out) && match out {
                        None => bounces.len() == 0 && exists|c: Color| #[trigger]
                            h.mat.may_emit(h.u, h.v, h.p, c) && end == PathEnd::Absorbed(c),
                        Some((attenuation, scattered)) => bounces.len() > 0 && bounces.last() == attenuation
                            && path_admits(world, scattered, (depth - 1) as nat, bounces.drop_last(), end),
                    },
            }
    }
}

/// Follows the ray through the scene for at most `depth` bounces.
pub fn trace(r: &Ray, world: &World, depth: u64) -> (path: Path)
    ensures
        path_admits(*world, *r, depth as nat, path.attenuations@, path.end),
        path.attenuations@.len() <= depth,
    decreases depth,
{
    if depth == 0 {
        return Path { attenuations: Vec::new(), end: PathEnd::Exhausted };
    }
    let rec = world.hit(r, Scalar::from_bits(NEAR_BITS), Scalar::infinity());
    assert(world.may_answer(*r, Scalar { bits: NEAR_BITS }, Scalar { bits: INFINITY_BITS }, rec));
    match rec {
        None => {
            Path { attenuations: Vec::new(), end: PathEnd::Escaped(*r) }
        },
        Some(h) => {
            let surface = h.surface();
            let out = h.mat.scatter(r, &surface);
            match out {
                None => {
                    let c = h.mat.emitted(h.u, h.v, h.p);
                    let path = Path { attenuations: Vec::new(), end: PathEnd::Absorbed(c) };
                    proof {
                        assert(h.mat.may_scatter(*r, h.spec_surface(), out));
                        assert(path_admits(*world, *r, depth as nat, path.attenuations@, path.end));
                    }
                    path
                },
                Some((attenuation, scattered)) => {
                    let mut path = trace(&scattered, world, depth - 1);
                    let ghost rest = path.attenuations@;
                    path.attenuations.push(attenuation);
                    proof {
                        assert(path.attenuations@.drop_last() =~= rest);
                        assert(h.mat.may_scatter(*r, h.spec_surface(), out));
                        assert(path_admits(*world, *r, depth as nat, path.attenuations@, path.end));
                    }
                    path
                },
            }
        },
    }
}

} // verus!
