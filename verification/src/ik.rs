//! Kinematic chains and the solver that bends them toward a goal.

use crate::laws::{lemma_backward_joint, lemma_forward_joint, lemma_round, lemma_solved};
use crate::vec3::{on_ray, Vec3, COORD_MAX, REACH_MAX, ROOT_MAX};
use vstd::prelude::*;

verus! {

/// The length of a chain up to its joint `i`: the sum of the segments before that joint.
pub open spec fn reach(chain: Seq<(u64, u64)>, i: int) -> int
    decreases i,
{
    if i <= 0 {
        0
    } else {
        reach(chain, i - 1) + chain[i - 1].1
    }
}

/// The chain that joints at the given places make: each joint with the distance to the next
/// one, rounded down, and the last joint with 0.
pub open spec fn chain_of(joints: Seq<(u64, Vec3)>) -> Seq<(u64, u64)> {
    Seq::new(
        joints.len(),
        |i: int|
            (
                joints[i].0,
                if i + 1 < joints.len() {
                    joints[i].1.dist(joints[i + 1].1) as u64
                } else {
                    0u64
                },
            ),
    )
}

/// The chain has a joint, its tip has no segment, and its length is within `REACH_MAX`.
pub open spec fn well_formed(chain: Seq<(u64, u64)>) -> bool {
    &&& chain.len() >= 1
    &&& chain.last().1 == 0
    &&& reach(chain, chain.len() as int) <= REACH_MAX
}

/// Every joint lies inside the bounds of the solver.
pub open spec fn all_in_range(positions: Seq<Vec3>) -> bool {
    forall|i: int| 0 <= i < positions.len() ==> (#[trigger] positions[i]).within(COORD_MAX as int)
}

/// A chain can be built of the joints: there is one, all lie inside the bounds, and the chain
/// is no longer than `REACH_MAX`.
pub open spec fn buildable(joints: Seq<(u64, Vec3)>) -> bool {
    &&& joints.len() > 0
    &&& all_in_range(joints.map_values(|j: (u64, Vec3)| j.1))
    &&& reach(chain_of(joints), joints.len() as int) <= REACH_MAX
}

/// Why a chain could not be built.
#[derive(Clone, Copy, Debug, PartialEq, Eq, Structural)]
pub enum ChainError {
    /// There is no joint.
    Empty,
    /// A joint lies outside the bounds, or the chain is longer than `REACH_MAX`.
    OutOfRange,
}

/// A kinematic chain from root to tip: each joint's handle with the length of the segment that
/// leads to the next joint.
#[derive(Debug)]
pub struct IKChain(pub Vec<(u64, u64)>);

impl View for IKChain {
    type V = Seq<(u64, u64)>;

    open spec fn view(&self) -> Seq<(u64, u64)> {
        self.0@
    }
}

impl IKChain {
    /// The sum of all segment lengths.
    pub open spec fn total(&self) -> int {
        reach(self@, self@.len() as int)
    }

    /// The chain has a joint, its tip has no segment, and its length is within `REACH_MAX`.
    pub open spec fn wf(&self) -> bool {
        well_formed(self@)
    }

    /// Builds the chain of the joints given from root to tip, each with its handle and its
    /// place.
    pub fn new(joints: &Vec<(u64, Vec3)>) -> (r: Result<IKChain, ChainError>)
        ensures
            match r {
                Ok(chain) => buildable(joints@) && chain@ == chain_of(joints@) && chain.wf(),
                Err(ChainError::Empty) => joints@.len() == 0,
                Err(ChainError::OutOfRange) => joints@.len() > 0 && !buildable(joints@),
            },
    {
        let n = joints.len();
        if n == 0 {
            return Err(ChainError::Empty);
        }
        let ghost places = joints@.map_values(|j: (u64, Vec3)| j.1);
        let mut i: usize = 0;
        while i < n
            invariant
                0 <= i <= n,
                n == joints.len(),
                places == joints@.map_values(|j: (u64, Vec3)| j.1),
                forall|k: int| 0 <= k < i ==> (#[trigger] places[k]).within(COORD_MAX as int),
            decreases n - i,
        {
            if !joints[i].1.is_within(COORD_MAX) {
                assert(!places[i as int].within(COORD_MAX as int));
                return Err(ChainError::OutOfRange);
            }
            i += 1;
        }
        let mut chain: Vec<(u64, u64)> = Vec::new();
        let mut sum: u64 = 0;
        let mut i: usize = 0;
        while i < n
            invariant
                0 <= i <= n,
                1 <= n == joints.len(),
                places == joints@.map_values(|j: (u64, Vec3)| j.1),
                all_in_range(places),
                chain@.len() == i,
                forall|k: int| 0 <= k < i ==> chain@[k] == #[trigger] chain_of(joints@)[k],
                sum == reach(chain_of(joints@), i as int),
                sum <= REACH_MAX,
            decreases n - i,
        {
            let len: u64 = if i + 1 < n {
                assert(places[i as int].within(COORD_MAX as int));
                assert(places[i + 1].within(COORD_MAX as int));
                joints[i].1.distance(&joints[i + 1].1)
            } else {
                0
            };
            assert(len == chain_of(joints@)[i as int].1);
            proof {
                lemma_reach_grows(chain_of(joints@), i as int + 1, n as int);
            }
            if len > REACH_MAX - sum {
                return Err(ChainError::OutOfRange);
            }
            sum = sum + len;
            chain.push((joints[i].0, len));
            i += 1;
        }
        assert(chain@ =~= chain_of(joints@));
        Ok(IKChain(chain))
    }

    /// The sum of all segment lengths.
    pub fn length(&self) -> (len: u64)
        requires
            self.total() <= u64::MAX,
        ensures
            len == self.total(),
    {
        let n = self.0.len();
        let mut sum: u64 = 0;
        let mut i: usize = 0;
        while i < n
            invariant
                0 <= i <= n,
                n == self@.len(),
                sum == reach(self@, i as int),
                self.total() <= u64::MAX,
            decreases n - i,
        {
            proof {
                lemma_reach_grows(self@, i as int + 1, n as int);
            }
            sum = sum + self.0[i].1;
            i += 1;
        }
        sum
    }

    /// Whether the chain is well formed: see [`IKChain::wf`].
    pub fn is_wf(&self) -> (b: bool)
        ensures
            b == self.wf(),
    {
        let n = self.0.len();
        if n == 0 || self.0[n - 1].1 != 0 {
            return false;
        }
        let mut sum: u64 = 0;
        let mut i: usize = 0;
        while i < n
            invariant
                0 <= i <= n,
                n == self@.len(),
                sum == reach(self@, i as int),
                sum <= REACH_MAX,
            decreases n - i,
        {
            proof {
                lemma_reach_grows(self@, i as int + 1, n as int);
            }
            let len = self.0[i].1;
            if len > REACH_MAX - sum {
                return false;
            }
            sum = sum + len;
            i += 1;
        }
        true
    }

    /// The number of joints.
    pub fn len(&self) -> (n: usize)
        ensures
            n == self@.len(),
    {
        self.0.len()
    }

    /// The joint at `index` and the length of its segment, if the chain has that many joints.
    pub fn get(&self, index: usize) -> (r: Option<&(u64, u64)>)
        ensures
            index < self@.len() ==> r == Some(&self@[index as int]),
            index >= self@.len() ==> r is None,
    {
        if index >= self.0.len() {
            return None;
        }
        Some(&self.0[index])
    }

    /// The joint at `index` and the length of its segment, if the chain has that many joints.
    /// The chain is left as it was.
    pub fn get_mut(&mut self, index: usize) -> (r: Option<&(u64, u64)>)
        ensures
            final(self)@ == old(self)@,
            index < old(self)@.len() ==> r == Some(&old(self)@[index as int]),
            index >= old(self)@.len() ==> r is None,
    {
        if index >= self.0.len() {
            return None;
        }
        Some(&self.0[index])
    }

    /// The joints from root to tip, each with the length of its segment.
    pub fn iter(&self) -> (it: std::slice::Iter<'_, (u64, u64)>)
        ensures
            vstd::std_specs::slice::into_iter_elts(it) == self@,
    {
        let joints = self.0.as_slice();
        let it = joints.iter();
        proof {
            vstd::std_specs::slice::axiom_spec_slice_iter(joints);
            assert(joints@.as_ref().unref() =~= joints@);
        }
        it
    }
}

impl std::ops::Index<usize> for IKChain {
    type Output = (u64, u64);

    /// The joint at `index` and the length of its segment.
    fn index(&self, index: usize) -> (r: &(u64, u64))
        ensures
            *r == self@[index as int],
    {
        &self.0[index]
    }
}

impl vstd::std_specs::core::IndexSpecImpl<usize> for IKChain {
    open spec fn index_req(&self, index: &usize) -> bool {
        *index < self@.len()
    }
}

/// A chain's length up to a joint grows with the joint's index.
pub proof fn lemma_reach_grows(chain: Seq<(u64, u64)>, i: int, j: int)
    requires
        i <= j,
    ensures
        reach(chain, i) <= reach(chain, j),
        0 <= reach(chain, i),
    decreases j - i, i,
{
    if i < j {
        lemma_reach_grows(chain, i, j - 1);
    } else if i > 0 {
        lemma_reach_grows(chain, i - 1, i - 1);
    }
}

/// The kinds of joint that a constraint can stand for.
pub enum IKConstraint {
    Unconstrained,
    Pivot,
    Hinge,
    Saddle,
    BallAndSocket,
    CondyLoid,
    Planar,
}

/// One constraint for each joint of a chain.
pub struct IKChainConstrains(pub Vec<IKConstraint>);

/// The place that the tip of a chain should reach.
pub struct IKGoal(pub Vec3);

/// Where joint `i` stands after the pass from the tip to the root: the tip on the goal, every
/// other joint at its segment's length from the joint after it, toward its own old place.
pub open spec fn forward_joint(chain: Seq<(u64, u64)>, pos: Seq<Vec3>, goal: Vec3, i: int) -> Vec3
    decreases pos.len() - i,
{
    if i >= pos.len() - 1 {
        goal
    } else {
        forward_joint(chain, pos, goal, i + 1).toward(pos[i], chain[i].1 as int)
    }
}

/// The joints after the pass from the tip to the root.
pub open spec fn forward(chain: Seq<(u64, u64)>, pos: Seq<Vec3>, goal: Vec3) -> Seq<Vec3> {
    Seq::new(pos.len(), |i: int| forward_joint(chain, pos, goal, i))
}

/// Where joint `i` stands after the pass from the root to the tip: the root on its anchor,
/// every other joint at the length of the segment before it from the joint before it, toward
/// its own old place.
pub open spec fn backward_joint(chain: Seq<(u64, u64)>, pos: Seq<Vec3>, root: Vec3, i: int) -> Vec3
    decreases i,
{
    if i <= 0 {
        root
    } else {
        backward_joint(chain, pos, root, i - 1).toward(pos[i], chain[i - 1].1 as int)
    }
}

/// The joints after the pass from the root to the tip.
pub open spec fn backward(chain: Seq<(u64, u64)>, pos: Seq<Vec3>, root: Vec3) -> Seq<Vec3> {
    Seq::new(pos.len(), |i: int| backward_joint(chain, pos, root, i))
}

/// The tip is closer to the goal than the tolerance.
pub open spec fn reached(tip: Vec3, goal: Vec3, tolerance: int) -> bool {
    tip.dist_sq(goal) < tolerance * tolerance
}

/// The most by which the distance of two neighbouring joints can miss their segment's length.
pub const SLACK: u64 = 3;

/// `p` and `q` are `len` apart, give or take `SLACK`.
pub open spec fn keeps_length(p: Vec3, q: Vec3, len: int) -> bool {
    &&& p.dist_sq(q) <= (len + SLACK) * (len + SLACK)
    &&& len >= SLACK ==> (len - SLACK) * (len - SLACK) <= p.dist_sq(q)
}

/// Every segment of the pose has the chain's length or has collapsed to a point.
pub open spec fn keeps_lengths(chain: Seq<(u64, u64)>, pos: Seq<Vec3>) -> bool {
    forall|i: int|
        0 <= i < pos.len() - 1 ==> #[trigger] keeps_length(pos[i], pos[i + 1], chain[i].1 as int)
            || pos[i] == pos[i + 1]
}

/// The pose needs no round: its tip has reached the goal, and its segments have the chain's
/// lengths.
pub open spec fn settled(chain: Seq<(u64, u64)>, pos: Seq<Vec3>, goal: Vec3, tolerance: int) -> bool {
    reached(pos.last(), goal, tolerance) && keeps_lengths(chain, pos)
}

/// The joints after at most `iterations` rounds of the two passes, none of them begun once the
/// pose is settled.
pub open spec fn fabrik(
    chain: Seq<(u64, u64)>,
    pos: Seq<Vec3>,
    goal: Vec3,
    iterations: nat,
    tolerance: int,
) -> Seq<Vec3>
    decreases iterations,
{
    if iterations == 0 || settled(chain, pos, goal, tolerance) {
        pos
    } else {
        fabrik(
            chain,
            backward(chain, forward(chain, pos, goal), pos[0]),
            goal,
            (iterations - 1) as nat,
            tolerance,
        )
    }
}

/// The goal is no further from the root than the chain is long.
pub open spec fn reachable(chain: Seq<(u64, u64)>, root: Vec3, goal: Vec3) -> bool {
    let total = reach(chain, chain.len() as int);
    root.dist_sq(goal) <= total * total
}

/// The chain laid out straight from the root toward the goal: every joint on that ray, as far
/// from the root as the chain measures up to it.
pub open spec fn stretched(chain: Seq<(u64, u64)>, root: Vec3, goal: Vec3) -> Seq<Vec3> {
    Seq::new(chain.len(), |i: int| root.toward(goal, reach(chain, i)))
}

/// The joints that the solver returns.
pub open spec fn solved(
    chain: Seq<(u64, u64)>,
    pos: Seq<Vec3>,
    goal: Vec3,
    iterations: nat,
    tolerance: int,
) -> Seq<Vec3> {
    if reachable(chain, pos[0], goal) {
        fabrik(chain, pos, goal, iterations, tolerance)
    } else {
        stretched(chain, pos[0], goal)
    }
}

/// The solver can take the chain, the joints and the goal: the chain is well formed, there is
/// a place for each joint, all lie inside the bounds, and the root inside those of a root.
pub open spec fn fits(chain: Seq<(u64, u64)>, positions: Seq<Vec3>, goal: Vec3) -> bool {
    &&& well_formed(chain)
    &&& positions.len() == chain.len()
    &&& all_in_range(positions)
    &&& positions[0].within(ROOT_MAX as int)
    &&& goal.within(COORD_MAX as int)
}

/// Whether every segment of the pose has the chain's length, give or take `SLACK`, or has
/// collapsed to a point.
pub fn has_lengths(chain: &IKChain, positions: &Vec<Vec3>) -> (b: bool)
    requires
        chain.wf(),
        positions@.len() == chain@.len(),
        all_in_range(positions@),
    ensures
        b == keeps_lengths(chain@, positions@),
{
    let n = positions.len();
    let mut i: usize = 0;
    while i + 1 < n
        invariant
            0 <= i < n,
            n == positions@.len() == chain@.len(),
            chain.wf(),
            all_in_range(positions@),
            forall|k: int|
                0 <= k < i ==> #[trigger] keeps_length(
                    positions@[k],
                    positions@[k + 1],
                    chain@[k].1 as int,
                ) || positions@[k] == positions@[k + 1],
        decreases n - i,
    {
        let p = positions[i];
        let q = positions[i + 1];
        let len = chain.0[i].1;
        proof {
            lemma_reach_grows(chain@, i as int + 1, n as int);
            lemma_reach_grows(chain@, i as int, i as int + 1);
            assert(p.within(COORD_MAX as int) && q.within(COORD_MAX as int));
        }
        let d2 = p.distance_squared(&q);
        let above: u128 = (len + SLACK) as u128;
        assert(above * above <= 0x2000_0003 * 0x2000_0003) by (nonlinear_arith)
            requires
                0 <= above <= 0x2000_0003,
        ;
        let long = d2 > above * above;
        let short = if len >= SLACK {
            let below: u128 = (len - SLACK) as u128;
            assert(below * below <= 0x2000_0000 * 0x2000_0000) by (nonlinear_arith)
                requires
                    0 <= below <= 0x2000_0000,
            ;
            d2 < below * below
        } else {
            false
        };
        assert((long || short) == !keeps_length(p, q, len as int));
        if (long || short) && !(p.x == q.x && p.y == q.y && p.z == q.z) {
            assert(!(keeps_length(positions@[i as int], positions@[i + 1], chain@[i as int].1 as int)
                || positions@[i as int] == positions@[i + 1]));
            return false;
        }
        i += 1;
    }
    true
}

/// One round of the two passes, in place: from the tip to the root, then from the root to the
/// tip.
fn round(chain: &IKChain, pos: &mut Vec<Vec3>, goal: Vec3)
    requires
        fits(chain@, old(pos)@, goal),
    ensures
        final(pos)@ == backward(chain@, forward(chain@, old(pos)@, goal), old(pos)@[0]),
{
    let n = pos.len();
    let ghost start = pos@;
    let root = pos[0];
    pos.set(n - 1, goal);
    let mut i: usize = n - 1;
    while i > 0
        invariant
            0 <= i < n,
            n == pos@.len() == start.len(),
            fits(chain@, start, goal),
            forall|k: int| 0 <= k < i ==> pos@[k] == start[k],
            forall|k: int| i <= k < n ==> pos@[k] == forward_joint(chain@, start, goal, k),
        decreases i,
    {
        i -= 1;
        proof {
            lemma_forward_joint(chain@, start, goal, i as int + 1);
            lemma_reach_grows(chain@, i as int + 1, n as int);
            lemma_reach_grows(chain@, i as int, i as int + 1);
            assert(start[i as int].within(COORD_MAX as int));
        }
        let next = pos[i + 1];
        let here = pos[i];
        let p = next.move_toward(&here, chain.0[i].1);
        pos.set(i, p);
    }
    let ghost middle = pos@;
    assert(middle =~= forward(chain@, start, goal));
    pos.set(0, root);
    let mut i: usize = 1;
    while i < n
        invariant
            1 <= i <= n,
            n == pos@.len() == start.len(),
            fits(chain@, start, goal),
            root == start[0],
            middle == forward(chain@, start, goal),
            forall|k: int| i <= k < n ==> pos@[k] == middle[k],
            forall|k: int| 0 <= k < i ==> pos@[k] == backward_joint(chain@, middle, root, k),
        decreases n - i,
    {
        proof {
            lemma_forward_joint(chain@, start, goal, i as int);
            assert(middle[i as int] == forward_joint(chain@, start, goal, i as int));
            lemma_backward_joint(chain@, start, goal, i as int - 1);
            lemma_reach_grows(chain@, i as int, n as int);
            lemma_reach_grows(chain@, i as int - 1, i as int);
        }
        let prev = pos[i - 1];
        let here = pos[i];
        let p = prev.move_toward(&here, chain.0[i - 1].1);
        pos.set(i, p);
        i += 1;
    }
    assert(pos@ =~= backward(chain@, middle, root));
}

/// The chain laid out straight from the root toward a goal that is not the root.
fn stretch(chain: &IKChain, root: Vec3, goal: Vec3) -> (out: Vec<Vec3>)
    requires
        chain.wf(),
        root.within(ROOT_MAX as int),
        goal.within(COORD_MAX as int),
    ensures
        out@ == stretched(chain@, root, goal),
{
    let n = chain.0.len();
    let mut out: Vec<Vec3> = Vec::new();
    let mut cum: u64 = 0;
    let mut i: usize = 0;
    while i < n
        invariant
            0 <= i <= n,
            n == chain@.len(),
            chain.wf(),
            root.within(ROOT_MAX as int),
            goal.within(COORD_MAX as int),
            out@.len() == i,
            cum == reach(chain@, i as int),
            forall|k: int| 0 <= k < i ==> out@[k] == root.toward(goal, reach(chain@, k)),
        decreases n - i,
    {
        proof {
            lemma_reach_grows(chain@, i as int, n as int);
            lemma_reach_grows(chain@, i as int + 1, n as int);
        }
        let p = root.move_toward(&goal, cum);
        out.push(p);
        cum = cum + chain.0[i].1;
        i += 1;
    }
    assert(out@ =~= stretched(chain@, root, goal));
    out
}

/// Bends a chain toward a goal.
///
/// `positions` holds the joints' present places, root first. The root stays where it is. A goal
/// within the chain's length is approached by rounds of two passes, at most `MAX_ITERATION` of
/// them. No round is begun once the pose is settled: the tip is closer to the goal than
/// `tolerance`, and the segments have the chain's lengths. Toward a goal further away the chain
/// is laid out straight. The constraints are not looked at.
///
/// With a round or more allowed, every segment of what comes back has its length, give or take
/// `SLACK`, or has collapsed to a point.
pub fn ik<const MAX_ITERATION: usize>(
    chain: &IKChain,
    _constraints: Option<&IKChainConstrains>,
    positions: &Vec<Vec3>,
    goal: &IKGoal,
    tolerance: u64,
) -> (out: Vec<Vec3>)
    requires
        fits(chain@, positions@, goal.0),
    ensures
        out@ == solved(chain@, positions@, goal.0, MAX_ITERATION as nat, tolerance as int),
        out@.len() == chain@.len(),
        out@[0] == positions@[0],
        all_in_range(out@),
        MAX_ITERATION >= 1 || !reachable(chain@, positions@[0], goal.0) ==> keeps_lengths(
            chain@,
            out@,
        ),
        MAX_ITERATION == 0 && reachable(chain@, positions@[0], goal.0) ==> out@ == positions@,
        !reachable(chain@, positions@[0], goal.0) ==> {
            &&& out@.last() == positions@[0].toward(goal.0, chain.total())
            &&& on_ray(positions@[0], goal.0, out@.last())
            &&& keeps_length(positions@[0], out@.last(), chain.total())
            &&& forall|i: int|
                0 <= i < out@.len() - 1 ==> #[trigger] keeps_length(
                    out@[i],
                    out@[i + 1],
                    chain@[i].1 as int,
                )
        },
{
    proof {
        lemma_solved(chain@, positions@, goal.0, MAX_ITERATION as nat, tolerance as int);
    }
    let n = positions.len();
    let root = positions[0];
    let target = goal.0;
    let total = chain.length();
    assert(total * total <= 0x2000_0000 * 0x2000_0000) by (nonlinear_arith)
        requires
            0 <= total <= 0x2000_0000,
    ;
    let total_sq: u128 = (total as u128) * (total as u128);
    if root.distance_squared(&target) > total_sq {
        return stretch(chain, root, target);
    }
    assert(tolerance * tolerance <= 0xffff_ffff_ffff_ffff * 0xffff_ffff_ffff_ffff)
        by (nonlinear_arith)
        requires
            0 <= tolerance <= 0xffff_ffff_ffff_ffff,
    ;
    let limit: u128 = (tolerance as u128) * (tolerance as u128);
    let mut pos: Vec<Vec3> = Vec::new();
    let mut i: usize = 0;
    while i < n
        invariant
            0 <= i <= n,
            n == positions@.len(),
            pos@.len() == i,
            forall|k: int| 0 <= k < i ==> pos@[k] == positions@[k],
        decreases n - i,
    {
        pos.push(positions[i]);
        i += 1;
    }
    assert(pos@ =~= positions@);
    let mut rounds: usize = 0;
    let mut done = pos[n - 1].distance_squared(&target) < limit && has_lengths(chain, &pos);
    while rounds < MAX_ITERATION && !done
        invariant
            0 <= rounds <= MAX_ITERATION,
            1 <= n == pos@.len(),
            fits(chain@, pos@, target),
            pos@[0] == root,
            limit == tolerance * tolerance,
            done == settled(chain@, pos@, target, tolerance as int),
            fabrik(chain@, positions@, target, MAX_ITERATION as nat, tolerance as int) == fabrik(
                chain@,
                pos@,
                target,
                (MAX_ITERATION - rounds) as nat,
                tolerance as int,
            ),
        decreases MAX_ITERATION - rounds,
    {
        proof {
            lemma_round(chain@, pos@, target);
        }
        round(chain, &mut pos, target);
        rounds += 1;
        done = pos[n - 1].distance_squared(&target) < limit;
    }
    pos
}

/// The solver can take the chain, the joints and the goal: see [`fits`].
pub open spec fn solvable(chain: &IKChain, positions: Seq<Vec3>, goal: Vec3) -> bool {
    fits(chain@, positions, goal)
}

/// Bends a chain toward a goal as [`ik`] does, where the solver can take them, and does
/// nothing where it cannot.
pub fn solve<const MAX_ITERATION: usize>(
    chain: &IKChain,
    constraints: Option<&IKChainConstrains>,
    positions: &Vec<Vec3>,
    goal: &IKGoal,
    tolerance: u64,
) -> (r: Option<Vec<Vec3>>)
    ensures
        r is Some <==> solvable(chain, positions@, goal.0),
        r matches Some(out) ==> {
            &&& out@ == solved(
                chain@,
                positions@,
                goal.0,
                MAX_ITERATION as nat,
                tolerance as int,
            )
            &&& out@.len() == chain@.len()
            &&& out@[0] == positions@[0]
            &&& all_in_range(out@)
            &&& MAX_ITERATION >= 1 || !reachable(chain@, positions@[0], goal.0) ==> keeps_lengths(
                chain@,
                out@,
            )
            &&& MAX_ITERATION == 0 && reachable(chain@, positions@[0], goal.0) ==> out@
                == positions@
        },
{
    if !chain.is_wf() || positions.len() != chain.len() || !goal.0.is_within(COORD_MAX)
        || !positions[0].is_within(ROOT_MAX) {
        return None;
    }
    let n = positions.len();
    let mut i: usize = 0;
    while i < n
        invariant
            0 <= i <= n,
            n == positions@.len(),
            forall|k: int| 0 <= k < i ==> (#[trigger] positions@[k]).within(COORD_MAX as int),
        decreases n - i,
    {
        if !positions[i].is_within(COORD_MAX) {
            return None;
        }
        i += 1;
    }
    Some(ik::<MAX_ITERATION>(chain, constraints, positions, goal, tolerance))
}

} // verus!
