//! What the movement keys ask for.

use vstd::prelude::*;
use vstd::std_specs::convert::FromSpecImpl;

verus! {

/// The direction asked for along one axis.
#[derive(Clone, Copy, Debug, PartialEq, Eq, Structural)]
pub enum Magnitude {
    Positive,
    Negative,
    Zero,
}

impl Magnitude {
    /// The direction as a number: 1, -1 or 0.
    pub open spec fn sign(self) -> int {
        match self {
            Magnitude::Positive => 1,
            Magnitude::Negative => -1,
            Magnitude::Zero => 0,
        }
    }
}

impl From<Magnitude> for i32 {
    fn from(value: Magnitude) -> (r: i32) {
        match value {
            Magnitude::Positive => 1,
            Magnitude::Negative => -1,
            Magnitude::Zero => 0,
        }
    }
}

impl FromSpecImpl<Magnitude> for i32 {
    open spec fn obeys_from_spec() -> bool {
        true
    }

    open spec fn from_spec(v: Magnitude) -> i32 {
        v.sign() as i32
    }
}

/// The movement asked for: forward or back, right or left.
#[derive(Clone, Copy, Debug, PartialEq, Eq, Structural)]
pub struct MovementInput {
    pub forward: Magnitude,
    pub right: Magnitude,
}

impl Default for MovementInput {
    fn default() -> (r: Self)
        ensures
            r == (MovementInput { forward: Magnitude::Zero, right: Magnitude::Zero }),
    {
        Self { forward: Magnitude::Zero, right: Magnitude::Zero }
    }
}

/// What two opposed keys ask for: the side of the one that is down; nothing where neither is;
/// and what was asked before where both are.
pub open spec fn axis(negative: bool, positive: bool, before: Magnitude) -> Magnitude {
    if negative && positive {
        before
    } else if negative {
        Magnitude::Negative
    } else if positive {
        Magnitude::Positive
    } else {
        Magnitude::Zero
    }
}

/// Takes the state of the four movement keys into the movement asked for: `a` and `d` for left
/// and right, `s` and `w` for back and forward.
pub fn key_board_input(w: bool, s: bool, a: bool, d: bool, movement: &mut MovementInput)
    ensures
        final(movement).right == axis(a, d, old(movement).right),
        final(movement).forward == axis(s, w, old(movement).forward),
{
    movement.right =
    match (a, d) {
        (true, true) => movement.right,
        (false, false) => Magnitude::Zero,
        (true, false) => Magnitude::Negative,
        (false, true) => Magnitude::Positive,
    };
    movement.forward =
    match (s, w) {
        (true, true) => movement.forward,
        (false, false) => Magnitude::Zero,
        (true, false) => Magnitude::Negative,
        (false, true) => Magnitude::Positive,
    };
}

} // verus!
