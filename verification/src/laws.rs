//! What holds of every pose that the solver returns.

use crate::ik::{
    all_in_range, backward, backward_joint, fabrik, fits, forward, forward_joint, keeps_length,
    keeps_lengths, lemma_reach_grows, reach, reachable, reached, settled, solved, stretched,
    well_formed, SLACK,
};
use crate::vec3::{
    lemma_ray_step, lemma_toward, lemma_toward_on_ray, on_ray, Vec3, COORD_MAX, REACH_MAX,
    ROOT_MAX, WORLD_MAX,
};
use vstd::prelude::*;

verus! {

/// What the rounding of `toward` leaves of a length lies within `SLACK`.
pub proof fn lemma_slack(len: int, d2: int)
    requires
        0 <= len,
        len * len - 4 * len <= d2 <= len * len + 6 * len + 5,
        len >= 2 ==> 1 <= d2,
    ensures
        d2 <= (len + SLACK) * (len + SLACK),
        len >= SLACK ==> (len - SLACK) * (len - SLACK) <= d2,
{
    assert((len + 3) * (len + 3) == len * len + 6 * len + 9) by (nonlinear_arith);
    assert((len - 3) * (len - 3) == len * len - 6 * len + 9) by (nonlinear_arith);
}

/// In the pass from the tip to the root no joint goes further from the goal than the chain is
/// long from that joint to its tip.
pub proof fn lemma_forward_joint(chain: Seq<(u64, u64)>, pos: Seq<Vec3>, goal: Vec3, i: int)
    requires
        fits(chain, pos, goal),
        0 <= i < pos.len(),
    ensures
        forward_joint(chain, pos, goal, i).near(
            goal,
            reach(chain, chain.len() as int) - reach(chain, i),
        ),
        forward_joint(chain, pos, goal, i).within(COORD_MAX + REACH_MAX),
    decreases pos.len() - i,
{
    let n = pos.len() as int;
    lemma_reach_grows(chain, i, n);
    if i < n - 1 {
        lemma_forward_joint(chain, pos, goal, i + 1);
        lemma_reach_grows(chain, i + 1, n);
        lemma_reach_grows(chain, i, i + 1);
        assert(pos[i].within(COORD_MAX as int));
        lemma_toward(forward_joint(chain, pos, goal, i + 1), pos[i], chain[i].1 as int);
    } else {
        lemma_reach_grows(chain, n - 1, n);
    }
}

/// In the pass from the root to the tip, begun from what the other pass left, no joint goes
/// further from the root than the chain is long up to that joint, and every joint comes to lie
/// at its segment's length from the joint before it, or upon it.
pub proof fn lemma_backward_joint(chain: Seq<(u64, u64)>, pos: Seq<Vec3>, goal: Vec3, i: int)
    requires
        fits(chain, pos, goal),
        0 <= i < pos.len(),
    ensures
        ({
            let fwd = forward(chain, pos, goal);
            let here = backward_joint(chain, fwd, pos[0], i);
            &&& here.near(pos[0], reach(chain, i))
            &&& here.within(COORD_MAX as int)
            &&& i > 0 ==> {
                let prev = backward_joint(chain, fwd, pos[0], i - 1);
                keeps_length(prev, here, chain[i - 1].1 as int) || prev == here
            }
        }),
    decreases i,
{
    let n = pos.len() as int;
    let fwd = forward(chain, pos, goal);
    lemma_reach_grows(chain, i, n);
    if i > 0 {
        lemma_backward_joint(chain, pos, goal, i - 1);
        lemma_forward_joint(chain, pos, goal, i);
        lemma_reach_grows(chain, i - 1, i);
        let prev = backward_joint(chain, fwd, pos[0], i - 1);
        let len = chain[i - 1].1 as int;
        lemma_toward(prev, fwd[i], len);
        if prev != fwd[i] {
            lemma_slack(len, prev.dist_sq(prev.toward(fwd[i], len)));
        }
    }
}

/// One round of the two passes leaves a pose that the solver can take again, with the root
/// where it was and every segment at its length or collapsed.
pub proof fn lemma_round(chain: Seq<(u64, u64)>, pos: Seq<Vec3>, goal: Vec3)
    requires
        fits(chain, pos, goal),
    ensures
        ({
            let next = backward(chain, forward(chain, pos, goal), pos[0]);
            &&& fits(chain, next, goal)
            &&& next[0] == pos[0]
            &&& keeps_lengths(chain, next)
        }),
{
    let next = backward(chain, forward(chain, pos, goal), pos[0]);
    assert forall|i: int| 0 <= i < next.len() implies (#[trigger] next[i]).within(
        COORD_MAX as int,
    ) by {
        lemma_backward_joint(chain, pos, goal, i);
    }
    assert forall|i: int| 0 <= i < next.len() - 1 implies #[trigger] keeps_length(
        next[i],
        next[i + 1],
        chain[i].1 as int,
    ) || next[i] == next[i + 1] by {
        lemma_backward_joint(chain, pos, goal, i + 1);
    }
}

/// The rounds of the two passes return a pose that the solver can take again, with the root
/// where it was; and with a round or more allowed, every segment of it has its length or has
/// collapsed. With no round allowed the pose is the one given.
pub proof fn lemma_fabrik(
    chain: Seq<(u64, u64)>,
    pos: Seq<Vec3>,
    goal: Vec3,
    iterations: nat,
    tolerance: int,
)
    requires
        fits(chain, pos, goal),
    ensures
        ({
            let out = fabrik(chain, pos, goal, iterations, tolerance);
            &&& fits(chain, out, goal)
            &&& out[0] == pos[0]
            &&& iterations >= 1 ==> keeps_lengths(chain, out)
            &&& iterations == 0 ==> out == pos
        }),
    decreases iterations,
{
    if !(iterations == 0 || settled(chain, pos, goal, tolerance)) {
        let next = backward(chain, forward(chain, pos, goal), pos[0]);
        lemma_round(chain, pos, goal);
        lemma_fabrik(chain, next, goal, (iterations - 1) as nat, tolerance);
    }
}

/// A chain laid out straight toward a goal has its root where it was, every joint inside the
/// bounds and every segment at its length; its tip lies on the ray from the root through the
/// goal, as far from the root as the chain is long.
pub proof fn lemma_stretched(chain: Seq<(u64, u64)>, root: Vec3, goal: Vec3)
    requires
        well_formed(chain),
        root.within(ROOT_MAX as int),
        goal.within(COORD_MAX as int),
        root != goal,
    ensures
        ({
            let out = stretched(chain, root, goal);
            let total = reach(chain, chain.len() as int);
            &&& out.len() == chain.len()
            &&& out[0] == root
            &&& all_in_range(out)
            &&& forall|i: int|
                0 <= i < out.len() - 1 ==> #[trigger] keeps_length(
                    out[i],
                    out[i + 1],
                    chain[i].1 as int,
                )
            &&& out.last() == root.toward(goal, total)
            &&& on_ray(root, goal, out.last())
            &&& keeps_length(root, out.last(), total)
        }),
{
    let out = stretched(chain, root, goal);
    let n = chain.len() as int;
    let total = reach(chain, n);
    lemma_reach_grows(chain, 0, n);
    lemma_reach_grows(chain, n - 1, n);
    lemma_toward(root, goal, 0);
    lemma_toward(root, goal, total);
    lemma_toward_on_ray(root, goal, total);
    lemma_slack(total, root.dist_sq(root.toward(goal, total)));
    assert forall|i: int| 0 <= i < out.len() implies (#[trigger] out[i]).within(
        COORD_MAX as int,
    ) by {
        lemma_reach_grows(chain, i, n);
        lemma_toward(root, goal, reach(chain, i));
    }
    assert forall|i: int| 0 <= i < out.len() - 1 implies #[trigger] keeps_length(
        out[i],
        out[i + 1],
        chain[i].1 as int,
    ) by {
        lemma_reach_grows(chain, i, i + 1);
        lemma_reach_grows(chain, i + 1, n);
        lemma_ray_step(root, goal, reach(chain, i), chain[i].1 as int);
        lemma_slack(chain[i].1 as int, out[i].dist_sq(out[i + 1]));
    }
}

/// What the solver returns, whatever it is given that it can take: as many joints as the
/// chain has, all inside the bounds; the root where it was; with a round or more allowed,
/// every segment at its length or collapsed to a point; and toward a goal out of reach a
/// straight chain without a collapsed segment, whose tip lies on the ray from the root through
/// the goal, as far from the root as the chain is long.
pub proof fn lemma_solved(
    chain: Seq<(u64, u64)>,
    pos: Seq<Vec3>,
    goal: Vec3,
    iterations: nat,
    tolerance: int,
)
    requires
        fits(chain, pos, goal),
    ensures
        ({
            let out = solved(chain, pos, goal, iterations, tolerance);
            let total = reach(chain, chain.len() as int);
            &&& out.len() == chain.len()
            &&& out[0] == pos[0]
            &&& all_in_range(out)
            &&& iterations >= 1 || !reachable(chain, pos[0], goal) ==> keeps_lengths(chain, out)
            &&& iterations == 0 && reachable(chain, pos[0], goal) ==> out == pos
            &&& !reachable(chain, pos[0], goal) ==> {
                &&& out.last() == pos[0].toward(goal, total)
                &&& on_ray(pos[0], goal, out.last())
                &&& keeps_length(pos[0], out.last(), total)
                &&& forall|i: int|
                    0 <= i < out.len() - 1 ==> #[trigger] keeps_length(
                        out[i],
                        out[i + 1],
                        chain[i].1 as int,
                    )
            }
        }),
{
    if reachable(chain, pos[0], goal) {
        lemma_fabrik(chain, pos, goal, iterations, tolerance);
    } else {
        if pos[0] == goal {
            let total = reach(chain, chain.len() as int);
            assert(pos[0].dist_sq(goal) == 0) by (nonlinear_arith)
                requires
                    pos[0] == goal,
            ;
            assert(0 <= total * total) by (nonlinear_arith);
        }
        lemma_stretched(chain, pos[0], goal);
    }
}

/// The solver returns as many joints as it was given, the root among them where it was.
pub proof fn lemma_solved_shape(
    chain: Seq<(u64, u64)>,
    pos: Seq<Vec3>,
    goal: Vec3,
    iterations: nat,
    tolerance: int,
)
    requires
        1 <= chain.len() == pos.len(),
        pos[0].within(WORLD_MAX as int),
        goal.within(WORLD_MAX as int),
    ensures
        solved(chain, pos, goal, iterations, tolerance).len() == pos.len(),
        solved(chain, pos, goal, iterations, tolerance)[0] == pos[0],
{
    if reachable(chain, pos[0], goal) {
        lemma_fabrik_shape(chain, pos, goal, iterations, tolerance);
    } else {
        lemma_toward(pos[0], goal, 0);
    }
}

/// The rounds of the two passes leave the number of joints and the root as they were.
pub proof fn lemma_fabrik_shape(
    chain: Seq<(u64, u64)>,
    pos: Seq<Vec3>,
    goal: Vec3,
    iterations: nat,
    tolerance: int,
)
    requires
        1 <= pos.len(),
    ensures
        fabrik(chain, pos, goal, iterations, tolerance).len() == pos.len(),
        fabrik(chain, pos, goal, iterations, tolerance)[0] == pos[0],
    decreases iterations,
{
    if !(iterations == 0 || settled(chain, pos, goal, tolerance)) {
        let next = backward(chain, forward(chain, pos, goal), pos[0]);
        lemma_fabrik_shape(chain, next, goal, (iterations - 1) as nat, tolerance);
    }
}

/// Solving again from what the solver returned after a round or more was allowed, with the
/// goal unchanged, moves no joint: where the goal is out of reach, or where the tip has come
/// within the tolerance of it.
pub proof fn lemma_solved_again(
    chain: Seq<(u64, u64)>,
    pos: Seq<Vec3>,
    goal: Vec3,
    iterations: nat,
    again: nat,
    tolerance: int,
)
    requires
        fits(chain, pos, goal),
        iterations >= 1,
        !reachable(chain, pos[0], goal) || reached(
            solved(chain, pos, goal, iterations, tolerance).last(),
            goal,
            tolerance,
        ),
    ensures
        solved(chain, solved(chain, pos, goal, iterations, tolerance), goal, again, tolerance)
            == solved(chain, pos, goal, iterations, tolerance),
{
    lemma_solved(chain, pos, goal, iterations, tolerance);
}

/// The joints after `count` rounds of the two passes, whatever the tip has reached.
pub open spec fn rounds(chain: Seq<(u64, u64)>, pos: Seq<Vec3>, goal: Vec3, count: nat) -> Seq<
    Vec3,
>
    decreases count,
{
    if count == 0 {
        pos
    } else {
        rounds(
            chain,
            backward(chain, forward(chain, pos, goal), pos[0]),
            goal,
            (count - 1) as nat,
        )
    }
}

/// The solver gives up a goal within reach only after all its rounds: what it returns is
/// settled, with its tip within the tolerance of the goal, or is what all the rounds have
/// made.
pub proof fn lemma_gives_up_last(
    chain: Seq<(u64, u64)>,
    pos: Seq<Vec3>,
    goal: Vec3,
    iterations: nat,
    tolerance: int,
)
    ensures
        settled(chain, fabrik(chain, pos, goal, iterations, tolerance), goal, tolerance) || fabrik(
            chain,
            pos,
            goal,
            iterations,
            tolerance,
        ) == rounds(chain, pos, goal, iterations),
    decreases iterations,
{
    if !(iterations == 0 || settled(chain, pos, goal, tolerance)) {
        let next = backward(chain, forward(chain, pos, goal), pos[0]);
        lemma_gives_up_last(chain, next, goal, (iterations - 1) as nat, tolerance);
    }
}

/// The solver does not pass a settled pose by: where some number of rounds within its
/// allowance makes a settled pose, what it returns is settled, and so has its tip within the
/// tolerance of the goal.
pub proof fn lemma_finds_settled(
    chain: Seq<(u64, u64)>,
    pos: Seq<Vec3>,
    goal: Vec3,
    iterations: nat,
    count: nat,
    tolerance: int,
)
    requires
        count <= iterations,
        settled(chain, rounds(chain, pos, goal, count), goal, tolerance),
    ensures
        settled(chain, fabrik(chain, pos, goal, iterations, tolerance), goal, tolerance),
        reached(fabrik(chain, pos, goal, iterations, tolerance).last(), goal, tolerance),
    decreases iterations,
{
    if !(iterations == 0 || settled(chain, pos, goal, tolerance)) {
        let next = backward(chain, forward(chain, pos, goal), pos[0]);
        lemma_finds_settled(
            chain,
            next,
            goal,
            (iterations - 1) as nat,
            (count - 1) as nat,
            tolerance,
        );
    }
}

} // verus!
