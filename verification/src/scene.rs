//! The marks of the scene's entities, whether a prop is shown, and where a sound comes from.

use crate::vec3::{Vec3, WORLD_MAX};
use vstd::prelude::*;

verus! {

/// Marks the source of the rain's sound.
#[derive(Clone, Copy, Debug, PartialEq, Eq, Structural)]
pub struct Rain;

/// Marks a mesh on which feet can be placed.
#[derive(Clone, Copy, Debug, PartialEq, Eq, Structural)]
pub struct NavMesh;

/// Marks a mesh that hides the props behind it.
#[derive(Clone, Copy, Debug, PartialEq, Eq, Structural)]
pub struct PropVisibilityBlocker;

/// Marks a prop that is hidden again once it is out of sight.
#[derive(Clone, Copy, Debug, PartialEq, Eq, Structural)]
pub struct Forgettable;

/// Whether a prop has been seen.
#[derive(Clone, Copy, Debug, PartialEq, Eq, Structural)]
pub enum PropVisibility {
    Seen,
    Hidden,
}

impl PropVisibility {
    /// What becomes of a prop when a ray cast at it has hit something: a hidden prop is seen
    /// once the ray hits it; a seen prop is hidden again when the ray hits something else and
    /// the prop can be forgotten; otherwise nothing changes.
    pub open spec fn looked_at(self, hit_prop: bool, forgettable: bool) -> PropVisibility {
        match self {
            PropVisibility::Hidden => if hit_prop {
                PropVisibility::Seen
            } else {
                PropVisibility::Hidden
            },
            PropVisibility::Seen => if !hit_prop && forgettable {
                PropVisibility::Hidden
            } else {
                PropVisibility::Seen
            },
        }
    }

    /// What becomes of a prop when a ray cast at it has hit something. `hit_prop` says whether
    /// the ray hit the prop itself, `forgettable` whether the prop carries that mark.
    pub fn after_ray(&self, hit_prop: bool, forgettable: Option<&Forgettable>) -> (next:
        PropVisibility)
        ensures
            next == self.looked_at(hit_prop, forgettable is Some),
    {
        match (hit_prop, self, forgettable) {
            (true, PropVisibility::Hidden, _) => PropVisibility::Seen,
            (false, PropVisibility::Seen, Some(_)) => PropVisibility::Hidden,
            (_, PropVisibility::Seen, _) => PropVisibility::Seen,
            (_, PropVisibility::Hidden, _) => PropVisibility::Hidden,
        }
    }
}

/// Where a sound comes from: one point, or the points of an area.
#[derive(Debug)]
pub enum SoundSource {
    Point(Vec3),
    Area(Vec<Vec3>),
}

/// `area[i]` is the point of the area that is farthest from the listener, and the last of
/// those that are.
pub open spec fn is_farthest(listener: Vec3, area: Seq<Vec3>, i: int) -> bool {
    &&& 0 <= i < area.len()
    &&& forall|j: int|
        0 <= j < area.len() ==> listener.dist_sq(#[trigger] area[j]) <= listener.dist_sq(area[i])
    &&& forall|j: int|
        i < j < area.len() ==> listener.dist_sq(#[trigger] area[j]) < listener.dist_sq(area[i])
}

impl SoundSource {
    /// The source has a point, and every point lies inside the bounds.
    pub open spec fn wf(&self) -> bool {
        match self {
            SoundSource::Point(pos) => pos.within(WORLD_MAX as int),
            SoundSource::Area(area) => {
                &&& area@.len() > 0
                &&& forall|i: int|
                    0 <= i < area@.len() ==> (#[trigger] area@[i]).within(WORLD_MAX as int)
            },
        }
    }

    /// The point from which the listener hears the sound: the point itself, or the point of
    /// the area that is farthest from the listener, the last of them where several are.
    pub fn source(&self, listener_pos: &Vec3) -> (pos: Vec3)
        requires
            self.wf(),
            listener_pos.within(WORLD_MAX as int),
        ensures
            match self {
                SoundSource::Point(p) => pos == *p,
                SoundSource::Area(area) => exists|i: int|
                    is_farthest(*listener_pos, area@, i) && pos == area@[i],
            },
    {
        match self {
            SoundSource::Point(pos) => *pos,
            SoundSource::Area(area) => {
                let n = area.len();
                let mut best: usize = 0;
                let mut best_sq = listener_pos.distance_squared(&area[0]);
                let mut k: usize = 1;
                while k < n
                    invariant
                        1 <= k <= n == area@.len(),
                        listener_pos.within(WORLD_MAX as int),
                        forall|i: int|
                            0 <= i < area@.len() ==> (#[trigger] area@[i]).within(
                                WORLD_MAX as int,
                            ),
                        0 <= best < k,
                        best_sq == listener_pos.dist_sq(area@[best as int]),
                        forall|j: int|
                            0 <= j < k ==> listener_pos.dist_sq(#[trigger] area@[j]) <= best_sq,
                        forall|j: int|
                            best < j < k ==> listener_pos.dist_sq(#[trigger] area@[j]) < best_sq,
                    decreases n - k,
                {
                    let d = listener_pos.distance_squared(&area[k]);
                    if d >= best_sq {
                        best = k;
                        best_sq = d;
                    }
                    k += 1;
                }
                assert(is_farthest(*listener_pos, area@, best as int));
                area[best]
            },
        }
    }
}

impl Default for SoundSource {
    fn default() -> (r: Self)
        ensures
            r == SoundSource::Point(Vec3::origin()),
    {
        SoundSource::Point(Vec3::new(0, 0, 0))
    }
}

} // verus!
