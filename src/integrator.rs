//! The control of one traced path.
//!
//! A sample follows a ray through the scene: while bounces are left, the
//! scene is queried; a miss ends the path in the sky, a hit whose material
//! absorbs the ray ends it in black, and a hit that scatters goes on with
//! one bounce fewer. The colour of a path is the sky gradient or black at
//! its end, multiplied by the attenuation of every scattering bounce on the
//! way; that arithmetic belongs to the caller, which learns here how many
//! bounces to apply and how the path ended.
use vstd::prelude::*;

verus! {

/// How a path ends.
#[derive(Clone, Copy, Debug, PartialEq, Eq, Structural)]
pub enum PathEnd {
    /// Opaque black: the depth limit was reached or the ray was absorbed.
    Black,
    /// The sky gradient, taken along the last ray's direction.
    Sky,
}

/// What one scene query and the hit material's scatter reported.
#[derive(Clone, Copy, Debug, PartialEq, Eq, Structural)]
pub enum Bounce {
    /// The ray hit nothing in the query window.
    Miss,
    /// The ray hit a surface whose material did not scatter it.
    Absorbed,
    /// The ray hit a surface and was scattered into a new ray.
    Scattered,
}

/// What the caller does next on a path.
#[derive(Clone, Copy, Debug, PartialEq, Eq, Structural)]
pub enum Action {
    /// Query the scene with the current ray and report the outcome.
    Query,
    /// The path is over.
    Finish(PathEnd),
}

/// A path in progress: bounces left before the depth limit, and scattering
/// bounces taken so far.
#[derive(Clone, Copy, Debug, PartialEq, Eq, Structural)]
pub struct PathState {
    pub max_depth: u32,
    pub depth: u32,
    pub bounces: u32,
}

impl PathState {
    /// Every bounce taken used up one unit of depth.
    pub open spec fn wf(self) -> bool {
        self.depth + self.bounces == self.max_depth
    }

    /// A path at the start, with `max_depth` bounces allowed.
    pub fn new(max_depth: u32) -> (r: PathState)
        ensures
            r.wf(),
            r.max_depth == max_depth,
            r.depth == max_depth,
            r.bounces == 0,
    {
        PathState { max_depth, depth: max_depth, bounces: 0 }
    }

    /// With no depth left the path is black, whatever the scene holds;
    /// otherwise the scene must be queried.
    pub fn action(&self) -> (r: Action)
        ensures
            self.depth == 0 ==> r == Action::Finish(PathEnd::Black),
            self.depth > 0 ==> r == Action::Query,
    {
        if self.depth == 0 {
            Action::Finish(PathEnd::Black)
        } else {
            Action::Query
        }
    }

    /// Takes in the outcome of a query. A miss ends the path in the sky, an
    /// absorbed ray ends it in black, and a scattered ray goes on with one
    /// bounce fewer left and one more attenuation to apply.
    pub fn record(&mut self, bounce: Bounce) -> (r: Option<PathEnd>)
        requires
            old(self).wf(),
            old(self).depth > 0,
        ensures
            final(self).wf(),
            final(self).max_depth == old(self).max_depth,
            bounce == Bounce::Miss ==> r == Some(PathEnd::Sky) && *final(self) == *old(self),
            bounce == Bounce::Absorbed ==> r == Some(PathEnd::Black) && *final(self) == *old(
                self,
            ),
            bounce == Bounce::Scattered ==> r is None && final(self).depth == old(self).depth - 1
                && final(self).bounces == old(self).bounces + 1,
    {
        match bounce {
            Bounce::Miss => Some(PathEnd::Sky),
            Bounce::Absorbed => Some(PathEnd::Black),
            Bounce::Scattered => {
                self.depth = self.depth - 1;
                self.bounces = self.bounces + 1;
                None
            },
        }
    }
}

} // verus!
