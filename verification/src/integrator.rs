//! The decisions of the radiance estimator.
//!
//! A path is followed one ray at a time. For each ray the estimator knows how
//! much depth is left, whether the ray hit the scene, and whether the surface
//! it hit scattered it. From these three it decides how the path goes on. The
//! colours along the path are floating-point work and are no part of this
//! module: the caller traces the ray, asks here what follows, and puts the
//! colour together accordingly.

use vstd::prelude::*;

verus! {

/// What becomes of a path at one ray.
#[derive(Clone, Copy, Debug, PartialEq, Eq, Structural)]
pub enum PathStep {
    /// No depth is left: the path is cut and carries no light.
    Truncated,
    /// The ray left the scene: the path ends in the sky.
    Missed,
    /// The surface did not scatter the ray: the path ends with what the
    /// surface emits.
    Absorbed,
    /// The surface scattered the ray: the path carries what the surface
    /// emits, and goes on along the scattered ray with `depth_left`.
    Bounced { depth_left: i32 },
}

/// The step of a path at a ray with `depth` left, where `hit` says whether
/// the ray hit the scene and `scattered` whether the surface scattered it.
/// Depth is looked at first, then the hit, then the scattering.
pub open spec fn step_of(depth: i32, hit: bool, scattered: bool) -> PathStep {
    if depth <= 0 {
        PathStep::Truncated
    } else if !hit {
        PathStep::Missed
    } else if !scattered {
        PathStep::Absorbed
    } else {
        PathStep::Bounced { depth_left: (depth - 1) as i32 }
    }
}

/// Depth bound: with no depth left the path is cut, whatever the ray and
/// whatever the scene.
pub proof fn lemma_no_depth_no_light(depth: i32, hit: bool, scattered: bool)
    requires
        depth <= 0,
    ensures
        step_of(depth, hit, scattered) == PathStep::Truncated,
{
}

/// What never happened does not matter: a path without depth is cut before
/// its ray is traced, and a ray that hit nothing was scattered by nothing.
/// So a caller may pass `false` for what it did not find out.
pub proof fn lemma_unseen_events(depth: i32, hit: bool, scattered: bool)
    ensures
        depth <= 0 ==> step_of(depth, hit, scattered) == step_of(depth, false, false),
        !hit ==> step_of(depth, hit, scattered) == step_of(depth, false, false),
{
}

/// Decides how a path goes on at a ray with `depth` left.
///
/// A path that bounces has less depth left than before and never less than
/// none, so no path bounces more often than the depth it started with.
pub fn path_step(depth: i32, hit: bool, scattered: bool) -> (step: PathStep)
    ensures
        step == step_of(depth, hit, scattered),
        depth <= 0 ==> step == PathStep::Truncated,
        step matches PathStep::Bounced { depth_left } ==> 0 <= depth_left < depth,
{
    if depth <= 0 {
        PathStep::Truncated
    } else if !hit {
        PathStep::Missed
    } else if !scattered {
        PathStep::Absorbed
    } else {
        PathStep::Bounced { depth_left: depth - 1 }
    }
}

} // verus!
