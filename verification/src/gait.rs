//! The targets of a biped's two feet: one planted, one swinging.

use crate::ik::IKChain;
use crate::vec3::{Vec3, COORD_MAX, FINE, REACH_MAX, WORLD_MAX};
use vstd::prelude::*;

verus! {

/// Where a foot should be, and whether it is planted there or on its way.
#[derive(Clone, Copy, Debug, PartialEq, Eq, Structural)]
pub enum FootTarget {
    /// The foot is planted and stays.
    Locked(Vec3),
    /// The foot swings toward a new place.
    Active(Vec3),
}

impl FootTarget {
    /// The same role at another place.
    pub open spec fn moved(self, new: Vec3) -> FootTarget {
        match self {
            FootTarget::Locked(_) => FootTarget::Locked(new),
            FootTarget::Active(_) => FootTarget::Active(new),
        }
    }

    /// The other role at the same place.
    pub open spec fn swapped(self) -> FootTarget {
        match self {
            FootTarget::Locked(p) => FootTarget::Active(p),
            FootTarget::Active(p) => FootTarget::Locked(p),
        }
    }

    /// Moves the target and keeps its role.
    pub fn map(&mut self, new: Vec3) -> (r: &mut Self)
        ensures
            *r == old(self).moved(new),
            *final(self) == *final(r),
    {
        *self = match *self {
            FootTarget::Locked(_) => FootTarget::Locked(new),
            FootTarget::Active(_) => FootTarget::Active(new),
        };
        self
    }

    /// Changes the role and keeps the place.
    pub fn swap(&mut self) -> (r: &mut Self)
        ensures
            *r == old(self).swapped(),
            *final(self) == *final(r),
    {
        *self = match *self {
            FootTarget::Locked(val) => FootTarget::Active(val),
            FootTarget::Active(val) => FootTarget::Locked(val),
        };
        self
    }
}

/// The body's place in a frame, and the directions that lead down from it and to its sides.
#[derive(Clone, Copy, Debug)]
pub struct BodyFrame {
    pub position: Vec3,
    pub down: Vec3,
    pub left: Vec3,
    pub right: Vec3,
}

impl BodyFrame {
    /// The body and its directions lie inside the bounds.
    pub open spec fn wf(&self) -> bool {
        &&& self.position.within(COORD_MAX as int)
        &&& self.down.within(WORLD_MAX as int)
        &&& self.left.within(WORLD_MAX as int)
        &&& self.right.within(WORLD_MAX as int)
    }

    /// Whether the body and its directions lie inside the bounds: see [`BodyFrame::wf`].
    pub fn is_wf(&self) -> (b: bool)
        ensures
            b == self.wf(),
    {
        self.position.is_within(COORD_MAX) && self.down.is_within(WORLD_MAX) && self.left.is_within(
            WORLD_MAX,
        ) && self.right.is_within(WORLD_MAX)
    }
}

/// The point below `pos` at which a straight leg of length `dist` ends.
pub open spec fn straight_legs(down: Vec3, pos: Vec3, dist: int) -> Vec3 {
    pos.along(down, dist)
}

/// The point below `pos` at which a straight leg of length `dist` ends.
pub fn straight_legs_target(down: Vec3, pos: Vec3, dist: u64) -> (target: Vec3)
    requires
        down.within(WORLD_MAX as int),
        pos.within(WORLD_MAX as int),
        dist <= FINE,
    ensures
        target == straight_legs(down, pos, dist as int),
        target.near(pos, dist as int),
{
    pos.move_along(&down, dist)
}

/// Whether a movement's direction is longer than the dead zone.
pub fn is_moving(direction: &Vec3, deadzone: u64) -> (moving: bool)
    requires
        direction.within(WORLD_MAX as int),
    ensures
        moving == (Vec3::origin().dist_sq(*direction) > deadzone * deadzone),
{
    assert(deadzone * deadzone <= 0xffff_ffff_ffff_ffff * 0xffff_ffff_ffff_ffff)
        by (nonlinear_arith)
        requires
            0 <= deadzone <= 0xffff_ffff_ffff_ffff,
    ;
    let limit: u128 = (deadzone as u128) * (deadzone as u128);
    Vec3::new(0, 0, 0).distance_squared(direction) > limit
}

/// The targets of the two feet of a humanoid, with the chains of its legs.
#[derive(Debug)]
pub struct HumanoidFeetTarget {
    pub left_target: FootTarget,
    pub right_target: FootTarget,
    /// The chain of the left leg.
    pub left_ik: IKChain,
    /// The chain of the right leg.
    pub right_ik: IKChain,
    /// Half the distance between the feet at rest.
    pub leg_offset: u64,
    /// The length of a leg.
    pub leg_length_cache: u64,
}

impl HumanoidFeetTarget {
    /// One foot is planted and the other swings.
    pub open spec fn alternating(&self) -> bool {
        ||| self.left_target is Locked && self.right_target is Active
        ||| self.left_target is Active && self.right_target is Locked
    }

    /// The lengths kept for the rest lie inside the bounds.
    pub open spec fn wf(&self) -> bool {
        &&& self.leg_offset <= FINE
        &&& self.leg_length_cache <= REACH_MAX
    }

    /// The same legs and lengths as `other`.
    pub open spec fn same_legs(&self, other: &Self) -> bool {
        &&& self.leg_offset == other.leg_offset
        &&& self.leg_length_cache == other.leg_length_cache
        &&& self.left_ik@ == other.left_ik@
        &&& self.right_ik@ == other.right_ik@
    }

    /// Whether one foot is planted and the other swings.
    pub fn is_alternating(&self) -> (b: bool)
        ensures
            b == self.alternating(),
    {
        match (self.left_target, self.right_target) {
            (FootTarget::Locked(_), FootTarget::Active(_)) => true,
            (FootTarget::Active(_), FootTarget::Locked(_)) => true,
            _ => false,
        }
    }

    /// Whether the lengths kept for the rest lie inside the bounds: see
    /// [`HumanoidFeetTarget::wf`].
    pub fn is_wf(&self) -> (b: bool)
        ensures
            b == self.wf(),
    {
        self.leg_offset <= FINE && self.leg_length_cache <= REACH_MAX
    }

    /// The targets of two legs whose feet stand at `left_foot` and `right_foot`: the left foot
    /// planted, the right one swinging.
    pub fn new(left_leg: IKChain, right_leg: IKChain, left_foot: Vec3, right_foot: Vec3) -> (t:
        Self)
        requires
            left_leg.wf(),
            left_foot.within(COORD_MAX as int),
            right_foot.within(COORD_MAX as int),
        ensures
            t.left_target == FootTarget::Locked(left_foot),
            t.right_target == FootTarget::Active(right_foot),
            t.leg_offset == left_foot.dist(right_foot) / 2,
            t.leg_length_cache == left_leg.total(),
            t.left_ik@ == left_leg@,
            t.right_ik@ == right_leg@,
            t.alternating(),
            t.wf(),
    {
        let leg_length_cache = left_leg.length();
        let apart = left_foot.distance(&right_foot);
        proof {
            crate::vec3::lemma_dist_bound(left_foot, right_foot, COORD_MAX as int);
        }
        HumanoidFeetTarget {
            leg_length_cache,
            left_target: FootTarget::Locked(left_foot),
            right_target: FootTarget::Active(right_foot),
            left_ik: left_leg,
            right_ik: right_leg,
            leg_offset: apart / 2,
        }
    }

    /// The target of the foot that swings.
    pub fn active_target(&self) -> (target: &FootTarget)
        requires
            self.alternating(),
        ensures
            *target is Active,
            self.left_target is Active ==> *target == self.left_target,
            self.right_target is Active ==> *target == self.right_target,
    {
        match self.left_target {
            FootTarget::Locked(_) => &self.right_target,
            FootTarget::Active(_) => &self.left_target,
        }
    }

    /// The target of the foot that is planted.
    pub fn locked_target(&self) -> (target: &FootTarget)
        requires
            self.alternating(),
        ensures
            *target is Locked,
            self.left_target is Locked ==> *target == self.left_target,
            self.right_target is Locked ==> *target == self.right_target,
    {
        match self.left_target {
            FootTarget::Locked(_) => &self.left_target,
            FootTarget::Active(_) => &self.right_target,
        }
    }

    /// The two feet change roles, each keeping its place.
    pub fn swap(&mut self)
        ensures
            final(self).left_target == old(self).left_target.swapped(),
            final(self).right_target == old(self).right_target.swapped(),
            final(self).same_legs(old(self)),
            old(self).alternating() ==> final(self).alternating(),
    {
        self.left_target.swap();
        self.right_target.swap();
    }

    /// Where the search for the swinging foot's next place starts: beside the body, on the
    /// side of that foot.
    pub open spec fn step_start(&self, body: &BodyFrame) -> Vec3 {
        if self.right_target is Active {
            body.position.along(body.right, self.leg_offset as int)
        } else {
            body.position.along(body.left, self.leg_offset as int)
        }
    }

    /// Where the search for the swinging foot's next place starts.
    pub fn step_origin(&self, body: &BodyFrame) -> (origin: Vec3)
        requires
            self.alternating(),
            self.wf(),
            body.wf(),
        ensures
            origin == self.step_start(body),
    {
        match self.right_target {
            FootTarget::Active(_) => body.position.move_along(&body.right, self.leg_offset),
            FootTarget::Locked(_) => body.position.move_along(&body.left, self.leg_offset),
        }
    }

    /// Both feet go below the body, a straight leg down and half their distance to each side.
    pub fn rest(&mut self, body: &BodyFrame)
        requires
            old(self).wf(),
            body.wf(),
        ensures
            final(self).left_target == old(self).left_target.moved(
                straight_legs(body.down, body.position, old(self).leg_length_cache as int).along(
                    body.left,
                    old(self).leg_offset as int,
                ),
            ),
            final(self).right_target == old(self).right_target.moved(
                straight_legs(body.down, body.position, old(self).leg_length_cache as int).along(
                    body.right,
                    old(self).leg_offset as int,
                ),
            ),
            final(self).same_legs(old(self)),
            old(self).alternating() ==> final(self).alternating(),
    {
        let target = straight_legs_target(body.down, body.position, self.leg_length_cache);
        let left = target.move_along(&body.left, self.leg_offset);
        let right = target.move_along(&body.right, self.leg_offset);
        self.left_target.map(left);
        self.right_target.map(right);
    }

    /// The swinging foot takes the place found for it on the ground, or the end of a straight
    /// leg where none was found. The planted foot stays.
    pub fn new_target(&mut self, body: &BodyFrame, ground: Option<Vec3>)
        requires
            old(self).alternating(),
            old(self).wf(),
            body.wf(),
        ensures
            final(self).alternating(),
            final(self).same_legs(old(self)),
            ({
                let place = match ground {
                    Some(p) => p,
                    None => straight_legs(body.down, body.position, old(self).leg_length_cache as int),
                };
                if old(self).right_target is Active {
                    &&& final(self).right_target == FootTarget::Active(place)
                    &&& final(self).left_target == old(self).left_target
                } else {
                    &&& final(self).left_target == FootTarget::Active(place)
                    &&& final(self).right_target == old(self).right_target
                }
            }),
    {
        let place = match ground {
            Some(p) => p,
            None => straight_legs_target(body.down, body.position, self.leg_length_cache),
        };
        match self.right_target {
            FootTarget::Active(_) => {
                self.right_target.map(place);
            },
            FootTarget::Locked(_) => {
                self.left_target.map(place);
            },
        }
    }
}

/// One frame of the feet: at rest both go below the body; in motion the swinging foot takes
/// its next place.
pub fn update_legs(
    feet: &mut HumanoidFeetTarget,
    direction: &Vec3,
    deadzone: u64,
    body: &BodyFrame,
    ground: Option<Vec3>,
)
    requires
        old(feet).alternating(),
        old(feet).wf(),
        body.wf(),
        direction.within(WORLD_MAX as int),
    ensures
        final(feet).alternating(),
        final(feet).wf(),
        final(feet).same_legs(old(feet)),
        ({
            let place = match ground {
                Some(p) => p,
                None => straight_legs(body.down, body.position, old(feet).leg_length_cache as int),
            };
            let below = straight_legs(body.down, body.position, old(feet).leg_length_cache as int);
            if Vec3::origin().dist_sq(*direction) > deadzone * deadzone {
                if old(feet).right_target is Active {
                    &&& final(feet).right_target == FootTarget::Active(place)
                    &&& final(feet).left_target == old(feet).left_target
                } else {
                    &&& final(feet).left_target == FootTarget::Active(place)
                    &&& final(feet).right_target == old(feet).right_target
                }
            } else {
                &&& final(feet).left_target == old(feet).left_target.moved(
                    below.along(body.left, old(feet).leg_offset as int),
                )
                &&& final(feet).right_target == old(feet).right_target.moved(
                    below.along(body.right, old(feet).leg_offset as int),
                )
            }
        }),
{
    if is_moving(direction, deadzone) {
        feet.new_target(body, ground);
    } else {
        feet.rest(body);
    }
}

} // verus!
