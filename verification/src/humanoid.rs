//! The bones of a humanoid that matter to its movement, and the chains of its limbs.

use crate::ik::{buildable, chain_of, ChainError, IKChain};
use crate::vec3::Vec3;
use vstd::prelude::*;

verus! {

/// The three joints of an arm or a leg, from the body outward.
#[derive(Clone, Copy, Debug, PartialEq, Eq, Structural)]
pub struct Limb(pub u64, pub u64, pub u64);

/// The joints of a limb with their places, from the body outward.
pub open spec fn limb_joints(limb: Limb, places: (Vec3, Vec3, Vec3)) -> Seq<(u64, Vec3)> {
    seq![(limb.0, places.0), (limb.1, places.1), (limb.2, places.2)]
}

impl Limb {
    /// The joints of the limb, from the body outward.
    pub open spec fn joints(&self) -> Seq<u64> {
        seq![self.0, self.1, self.2]
    }

    /// Walks the joints of the limb, from the body outward.
    pub fn iter<'a>(&'a self) -> (it: LimbIterator<'a>)
        ensures
            it.limb() == *self,
            it.taken() == 0,
    {
        LimbIterator { limb: &self, counter: 0 }
    }

    /// The chain of the limb whose joints stand at `places`.
    pub fn chain(&self, places: (Vec3, Vec3, Vec3)) -> (r: Result<IKChain, ChainError>)
        ensures
            match r {
                Ok(chain) => {
                    &&& buildable(limb_joints(*self, places))
                    &&& chain@ == chain_of(limb_joints(*self, places))
                    &&& chain.wf()
                },
                Err(e) => e == ChainError::OutOfRange && !buildable(limb_joints(*self, places)),
            },
    {
        let mut joints: Vec<(u64, Vec3)> = Vec::new();
        joints.push((self.0, places.0));
        joints.push((self.1, places.1));
        joints.push((self.2, places.2));
        assert(joints@ =~= limb_joints(*self, places));
        IKChain::new(&joints)
    }
}

/// A walk over the joints of a limb.
pub struct LimbIterator<'a> {
    limb: &'a Limb,
    counter: usize,
}

impl<'a> LimbIterator<'a> {
    /// The limb that is walked.
    pub closed spec fn limb(&self) -> Limb {
        *self.limb
    }

    /// The number of joints handed out so far.
    pub closed spec fn taken(&self) -> int {
        self.counter as int
    }

    /// The next joint of the limb, while there is one.
    pub fn next(&mut self) -> (r: Option<u64>)
        ensures
            final(self).limb() == old(self).limb(),
            old(self).taken() < 3 ==> final(self).taken() == old(self).taken() + 1 && r == Some(
                old(self).limb().joints()[old(self).taken()],
            ),
            old(self).taken() >= 3 ==> final(self).taken() == old(self).taken() && r is None,
    {
        if self.counter >= 3 {
            return None;
        }
        self.counter += 1;
        match self.counter {
            1 => Some(self.limb.0),
            2 => Some(self.limb.1),
            _ => Some(self.limb.2),
        }
    }
}

/// A limb in the making: the joints found so far.
#[derive(Clone, Copy, Debug, PartialEq, Eq, Structural)]
pub struct LimbBuilder(pub Option<u64>, pub Option<u64>, pub Option<u64>);

impl Default for LimbBuilder {
    fn default() -> (r: Self)
        ensures
            r == LimbBuilder(None, None, None),
    {
        Self(None, None, None)
    }
}

impl LimbBuilder {
    /// The limb, once all three joints are found.
    pub open spec fn finished(self) -> Option<Limb> {
        match self {
            LimbBuilder(Some(a), Some(b), Some(c)) => Some(Limb(a, b, c)),
            _ => None,
        }
    }

    /// The limb, once all three joints are found.
    pub fn limb(&self) -> (r: Option<Limb>)
        ensures
            r == self.finished(),
    {
        match (self.0, self.1, self.2) {
            (Some(a), Some(b), Some(c)) => Some(Limb(a, b, c)),
            _ => None,
        }
    }
}

/// The bones that a humanoid's movement is made with.
#[derive(Clone, Copy, Debug, PartialEq, Eq, Structural)]
pub enum Bone {
    Head,
    Body,
    RightArmUpper,
    RightArmLower,
    RightHand,
    LeftArmUpper,
    LeftArmLower,
    LeftHand,
    RightLegUpper,
    RightLegLower,
    RightFoot,
    LeftLegUpper,
    LeftLegLower,
    LeftFoot,
}

/// The bone that a node of the given name stands for.
pub open spec fn bone_named(name: Seq<char>) -> Option<Bone> {
    if name == "head"@ {
        Some(Bone::Head)
    } else if name == "Spine"@ {
        Some(Bone::Body)
    } else if name == "right.arm.0"@ {
        Some(Bone::RightArmUpper)
    } else if name == "right.arm.1"@ {
        Some(Bone::RightArmLower)
    } else if name == "right.hand"@ {
        Some(Bone::RightHand)
    } else if name == "left.arm.0"@ {
        Some(Bone::LeftArmUpper)
    } else if name == "left.arm.1"@ {
        Some(Bone::LeftArmLower)
    } else if name == "left.hand"@ {
        Some(Bone::LeftHand)
    } else if name == "right.leg.upper"@ {
        Some(Bone::RightLegUpper)
    } else if name == "right.leg.lower"@ {
        Some(Bone::RightLegLower)
    } else if name == "right.foot"@ {
        Some(Bone::RightFoot)
    } else if name == "left.leg.upper"@ {
        Some(Bone::LeftLegUpper)
    } else if name == "left.leg.lower"@ {
        Some(Bone::LeftLegLower)
    } else if name == "left.foot"@ {
        Some(Bone::LeftFoot)
    } else {
        None
    }
}

/// Whether two strings hold the same text.
fn same_text(a: &str, b: &str) -> (same: bool)
    ensures
        same == (a@ == b@),
{
    let a = a.to_owned();
    let b = b.to_owned();
    a == b
}

impl Bone {
    /// The bone that a node of the given name stands for, if it stands for one.
    pub fn from_name(name: &str) -> (r: Option<Bone>)
        ensures
            r == bone_named(name@),
    {
        if same_text(name, "head") {
            Some(Bone::Head)
        } else if same_text(name, "Spine") {
            Some(Bone::Body)
        } else if same_text(name, "right.arm.0") {
            Some(Bone::RightArmUpper)
        } else if same_text(name, "right.arm.1") {
            Some(Bone::RightArmLower)
        } else if same_text(name, "right.hand") {
            Some(Bone::RightHand)
        } else if same_text(name, "left.arm.0") {
            Some(Bone::LeftArmUpper)
        } else if same_text(name, "left.arm.1") {
            Some(Bone::LeftArmLower)
        } else if same_text(name, "left.hand") {
            Some(Bone::LeftHand)
        } else if same_text(name, "right.leg.upper") {
            Some(Bone::RightLegUpper)
        } else if same_text(name, "right.leg.lower") {
            Some(Bone::RightLegLower)
        } else if same_text(name, "right.foot") {
            Some(Bone::RightFoot)
        } else if same_text(name, "left.leg.upper") {
            Some(Bone::LeftLegUpper)
        } else if same_text(name, "left.leg.lower") {
            Some(Bone::LeftLegLower)
        } else if same_text(name, "left.foot") {
            Some(Bone::LeftFoot)
        } else {
            None
        }
    }
}

/// A humanoid: its head, its body and its four limbs.
#[derive(Clone, Copy, Debug, PartialEq, Eq, Structural)]
pub struct Humanoid {
    pub head: u64,
    pub body: u64,
    pub left_arm: Limb,
    pub right_arm: Limb,
    pub left_leg: Limb,
    pub right_leg: Limb,
}

impl Humanoid {
    /// The chain of the left arm, whose joints stand at `places`.
    pub fn left_arm_ik(&self, places: (Vec3, Vec3, Vec3)) -> (r: Result<IKChain, ChainError>)
        ensures
            match r {
                Ok(chain) => {
                    &&& buildable(limb_joints(self.left_arm, places))
                    &&& chain@ == chain_of(limb_joints(self.left_arm, places))
                    &&& chain.wf()
                },
                Err(e) => e == ChainError::OutOfRange && !buildable(
                    limb_joints(self.left_arm, places),
                ),
            },
    {
        self.left_arm.chain(places)
    }

    /// The chain of the right arm, whose joints stand at `places`.
    pub fn right_arm_ik(&self, places: (Vec3, Vec3, Vec3)) -> (r: Result<IKChain, ChainError>)
        ensures
            match r {
                Ok(chain) => {
                    &&& buildable(limb_joints(self.right_arm, places))
                    &&& chain@ == chain_of(limb_joints(self.right_arm, places))
                    &&& chain.wf()
                },
                Err(e) => e == ChainError::OutOfRange && !buildable(
                    limb_joints(self.right_arm, places),
                ),
            },
    {
        self.right_arm.chain(places)
    }

    /// The chain of the left leg, whose joints stand at `places`.
    pub fn left_leg_ik(&self, places: (Vec3, Vec3, Vec3)) -> (r: Result<IKChain, ChainError>)
        ensures
            match r {
                Ok(chain) => {
                    &&& buildable(limb_joints(self.left_leg, places))
                    &&& chain@ == chain_of(limb_joints(self.left_leg, places))
                    &&& chain.wf()
                },
                Err(e) => e == ChainError::OutOfRange && !buildable(
                    limb_joints(self.left_leg, places),
                ),
            },
    {
        self.left_leg.chain(places)
    }

    /// The chain of the right leg, whose joints stand at `places`.
    pub fn right_leg_ik(&self, places: (Vec3, Vec3, Vec3)) -> (r: Result<IKChain, ChainError>)
        ensures
            match r {
                Ok(chain) => {
                    &&& buildable(limb_joints(self.right_leg, places))
                    &&& chain@ == chain_of(limb_joints(self.right_leg, places))
                    &&& chain.wf()
                },
                Err(e) => e == ChainError::OutOfRange && !buildable(
                    limb_joints(self.right_leg, places),
                ),
            },
    {
        self.right_leg.chain(places)
    }

    /// The chains of the four limbs: left arm, right arm, left leg, right leg.
    pub fn get_iks(
        &self,
        left_arm: (Vec3, Vec3, Vec3),
        right_arm: (Vec3, Vec3, Vec3),
        left_leg: (Vec3, Vec3, Vec3),
        right_leg: (Vec3, Vec3, Vec3),
    ) -> (r: Option<(IKChain, IKChain, IKChain, IKChain)>)
        ensures
            match r {
                Some(chains) => {
                    &&& chains.0@ == chain_of(limb_joints(self.left_arm, left_arm))
                    &&& chains.1@ == chain_of(limb_joints(self.right_arm, right_arm))
                    &&& chains.2@ == chain_of(limb_joints(self.left_leg, left_leg))
                    &&& chains.3@ == chain_of(limb_joints(self.right_leg, right_leg))
                    &&& chains.0.wf() && chains.1.wf() && chains.2.wf() && chains.3.wf()
                },
                None => true,
            },
            r is Some <==> {
                &&& buildable(limb_joints(self.left_arm, left_arm))
                &&& buildable(limb_joints(self.right_arm, right_arm))
                &&& buildable(limb_joints(self.left_leg, left_leg))
                &&& buildable(limb_joints(self.right_leg, right_leg))
            },
    {
        let a = self.left_arm_ik(left_arm);
        let b = self.right_arm_ik(right_arm);
        let c = self.left_leg_ik(left_leg);
        let d = self.right_leg_ik(right_leg);
        match (a, b, c, d) {
            (Ok(a), Ok(b), Ok(c), Ok(d)) => Some((a, b, c, d)),
            _ => None,
        }
    }
}

/// A humanoid in the making: the bones found so far.
#[derive(Clone, Copy, Debug, PartialEq, Eq, Structural)]
pub struct HumanoidBuilder {
    pub head: Option<u64>,
    pub body: Option<u64>,
    pub left_arm: LimbBuilder,
    pub right_arm: LimbBuilder,
    pub left_leg: LimbBuilder,
    pub right_leg: LimbBuilder,
}

impl Default for HumanoidBuilder {
    fn default() -> (r: Self)
        ensures
            r == (HumanoidBuilder {
                head: None,
                body: None,
                left_arm: LimbBuilder(None, None, None),
                right_arm: LimbBuilder(None, None, None),
                left_leg: LimbBuilder(None, None, None),
                right_leg: LimbBuilder(None, None, None),
            }),
    {
        Self {
            head: None,
            body: None,
            left_arm: LimbBuilder(None, None, None),
            right_arm: LimbBuilder(None, None, None),
            left_leg: LimbBuilder(None, None, None),
            right_leg: LimbBuilder(None, None, None),
        }
    }
}

impl HumanoidBuilder {
    /// The builder with `joint` taken for `bone`, in place of what stood there.
    pub open spec fn with(self, bone: Bone, joint: u64) -> HumanoidBuilder {
        let j = Some(joint);
        match bone {
            Bone::Head => HumanoidBuilder { head: j, ..self },
            Bone::Body => HumanoidBuilder { body: j, ..self },
            Bone::RightArmUpper => HumanoidBuilder {
                right_arm: LimbBuilder(j, self.right_arm.1, self.right_arm.2),
                ..self
            },
            Bone::RightArmLower => HumanoidBuilder {
                right_arm: LimbBuilder(self.right_arm.0, j, self.right_arm.2),
                ..self
            },
            Bone::RightHand => HumanoidBuilder {
                right_arm: LimbBuilder(self.right_arm.0, self.right_arm.1, j),
                ..self
            },
            Bone::LeftArmUpper => HumanoidBuilder {
                left_arm: LimbBuilder(j, self.left_arm.1, self.left_arm.2),
                ..self
            },
            Bone::LeftArmLower => HumanoidBuilder {
                left_arm: LimbBuilder(self.left_arm.0, j, self.left_arm.2),
                ..self
            },
            Bone::LeftHand => HumanoidBuilder {
                left_arm: LimbBuilder(self.left_arm.0, self.left_arm.1, j),
                ..self
            },
            Bone::RightLegUpper => HumanoidBuilder {
                right_leg: LimbBuilder(j, self.right_leg.1, self.right_leg.2),
                ..self
            },
            Bone::RightLegLower => HumanoidBuilder {
                right_leg: LimbBuilder(self.right_leg.0, j, self.right_leg.2),
                ..self
            },
            Bone::RightFoot => HumanoidBuilder {
                right_leg: LimbBuilder(self.right_leg.0, self.right_leg.1, j),
                ..self
            },
            Bone::LeftLegUpper => HumanoidBuilder {
                left_leg: LimbBuilder(j, self.left_leg.1, self.left_leg.2),
                ..self
            },
            Bone::LeftLegLower => HumanoidBuilder {
                left_leg: LimbBuilder(self.left_leg.0, j, self.left_leg.2),
                ..self
            },
            Bone::LeftFoot => HumanoidBuilder {
                left_leg: LimbBuilder(self.left_leg.0, self.left_leg.1, j),
                ..self
            },
        }
    }

    /// The humanoid, once all its bones are found.
    pub open spec fn finished(self) -> Option<Humanoid> {
        match (
            self.head,
            self.body,
            self.left_arm.finished(),
            self.right_arm.finished(),
            self.left_leg.finished(),
            self.right_leg.finished(),
        ) {
            (
                Some(head),
                Some(body),
                Some(left_arm),
                Some(right_arm),
                Some(left_leg),
                Some(right_leg),
            ) => Some(Humanoid { head, body, left_arm, right_arm, left_leg, right_leg }),
            _ => None,
        }
    }

    /// Takes `joint` for `bone`, in place of what stood there.
    pub fn assign(&mut self, bone: Bone, joint: u64)
        ensures
            *final(self) == old(self).with(bone, joint),
    {
        let j = Some(joint);
        match bone {
            Bone::Head => {
                self.head = j;
            },
            Bone::Body => {
                self.body = j;
            },
            Bone::RightArmUpper => {
                self.right_arm.0 = j;
            },
            Bone::RightArmLower => {
                self.right_arm.1 = j;
            },
            Bone::RightHand => {
                self.right_arm.2 = j;
            },
            Bone::LeftArmUpper => {
                self.left_arm.0 = j;
            },
            Bone::LeftArmLower => {
                self.left_arm.1 = j;
            },
            Bone::LeftHand => {
                self.left_arm.2 = j;
            },
            Bone::RightLegUpper => {
                self.right_leg.0 = j;
            },
            Bone::RightLegLower => {
                self.right_leg.1 = j;
            },
            Bone::RightFoot => {
                self.right_leg.2 = j;
            },
            Bone::LeftLegUpper => {
                self.left_leg.0 = j;
            },
            Bone::LeftLegLower => {
                self.left_leg.1 = j;
            },
            Bone::LeftFoot => {
                self.left_leg.2 = j;
            },
        }
    }

    /// Takes `joint` for the bone of that name, if the name is a bone's; says whether it was.
    pub fn assign_named(&mut self, name: &str, joint: u64) -> (known: bool)
        ensures
            known == (bone_named(name@) is Some),
            match bone_named(name@) {
                Some(bone) => *final(self) == old(self).with(bone, joint),
                None => *final(self) == *old(self),
            },
    {
        match Bone::from_name(name) {
            Some(bone) => {
                self.assign(bone, joint);
                true
            },
            None => false,
        }
    }

    /// The humanoid, once all its bones are found.
    pub fn build(&self) -> (r: Option<Humanoid>)
        ensures
            r == self.finished(),
    {
        match (
            self.head,
            self.body,
            self.left_arm.limb(),
            self.right_arm.limb(),
            self.left_leg.limb(),
            self.right_leg.limb(),
        ) {
            (
                Some(head),
                Some(body),
                Some(left_arm),
                Some(right_arm),
                Some(left_leg),
                Some(right_leg),
            ) => Some(Humanoid { head, body, left_arm, right_arm, left_leg, right_leg }),
            _ => None,
        }
    }
}

} // verus!
