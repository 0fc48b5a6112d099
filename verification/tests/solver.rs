use limb_ik::ik::{has_lengths, ik, IKChain, IKChainConstrains, IKConstraint, IKGoal, SLACK};
use limb_ik::vec3::Vec3;
use limb_ik::vec3::{COORD_MAX, ROOT_MAX};

const UNIT: i64 = 65536;

fn v(x: i64, y: i64, z: i64) -> Vec3 {
    Vec3::new(x, y, z)
}

fn chain_at(places: &[Vec3]) -> (IKChain, Vec<Vec3>) {
    let joints: Vec<(u64, Vec3)> =
        places.iter().enumerate().map(|(i, p)| (10 + i as u64, *p)).collect();
    (IKChain::new(&joints).unwrap(), places.to_vec())
}

fn three_joints() -> (IKChain, Vec<Vec3>) {
    chain_at(&[v(0, 0, 0), v(0, UNIT, 0), v(0, 2 * UNIT, 0)])
}

fn dist_sq(a: &Vec3, b: &Vec3) -> i128 {
    let (dx, dy, dz) = ((a.x - b.x) as i128, (a.y - b.y) as i128, (a.z - b.z) as i128);
    dx * dx + dy * dy + dz * dz
}

/// Each segment is as long as the chain says, give or take the slack.
fn assert_lengths_kept(chain: &IKChain, pose: &[Vec3]) {
    let slack = SLACK as i128;
    for i in 0..pose.len() - 1 {
        let len = chain.0[i].1 as i128;
        let d2 = dist_sq(&pose[i], &pose[i + 1]);
        assert!(d2 <= (len + slack) * (len + slack), "segment {i} too long: {d2}");
        assert!(len < slack || d2 >= (len - slack) * (len - slack), "segment {i} too short: {d2}");
    }
}

#[test]
fn unreachable_goal_stretches_the_chain() {
    let (chain, positions) = three_joints();
    let out = ik::<20>(&chain, None, &positions, &IKGoal(v(10 * UNIT, 0, 0)), 65);
    assert_eq!(out, vec![v(0, 0, 0), v(UNIT, 0, 0), v(2 * UNIT, 0, 0)]);
}

#[test]
fn goal_at_full_reach_is_approached() {
    let (chain, positions) = three_joints();
    let goal = v(2 * UNIT, 0, 0);
    let out = ik::<20>(&chain, None, &positions, &IKGoal(goal), 65);
    assert_eq!(out, vec![v(0, 0, 0), v(65144, 7150, 0), v(130297, 84, 0)]);
    assert_lengths_kept(&chain, &out);
    assert!(dist_sq(&out[2], &goal) < dist_sq(&positions[2], &goal));
}

#[test]
fn goal_at_full_reach_is_reached_with_rounds_enough() {
    let (chain, positions) = three_joints();
    let goal = v(2 * UNIT, 0, 0);
    let out = ik::<1000>(&chain, None, &positions, &IKGoal(goal), 65);
    assert_eq!(out, vec![v(0, 0, 0), v(65504, 2042, 0), v(131008, 2, 0)]);
    assert!(dist_sq(&out[2], &goal) < 65 * 65);
    assert_eq!(out[0], positions[0]);
    assert_lengths_kept(&chain, &out);
}

#[test]
fn goal_within_reach_is_reached() {
    let (chain, positions) = three_joints();
    let goal = v(UNIT, 0, UNIT / 2);
    let out = ik::<50>(&chain, None, &positions, &IKGoal(goal), 65);
    assert_eq!(out, vec![v(0, 0, 0), v(32757, 54347, 16379), v(65529, 11, 32764)]);
    assert!(dist_sq(&out[2], &goal) < 65 * 65);
    assert_lengths_kept(&chain, &out);
}

#[test]
fn root_stays_whatever_the_goal() {
    let (chain, positions) = chain_at(&[v(500, -700, 900), v(500, UNIT, 900), v(UNIT, UNIT, 0)]);
    for goal in [
        v(0, 0, 0),
        v(UNIT, UNIT, UNIT),
        v(-40 * UNIT, 3, 9 * UNIT),
        v(500, -700, 900),
        v(UNIT, UNIT, 0),
    ] {
        let out = ik::<10>(&chain, None, &positions, &IKGoal(goal), 20);
        assert_eq!(out.len(), 3);
        assert_eq!(out[0], positions[0]);
    }
}

#[test]
fn segments_keep_their_lengths() {
    let (chain, positions) = chain_at(&[v(0, 0, 0), v(UNIT, 0, 0), v(UNIT, UNIT, 0), v(UNIT, UNIT, UNIT)]);
    let within = ik::<100>(&chain, None, &positions, &IKGoal(v(-UNIT, UNIT / 2, 2 * UNIT)), 10);
    assert_eq!(
        within,
        vec![
            v(0, 0, 0),
            v(31741, 26272, 50962),
            v(-20622, 45833, 85172),
            v(-65537, 32768, 131073)
        ]
    );
    assert_lengths_kept(&chain, &within);
    let beyond = ik::<100>(&chain, None, &positions, &IKGoal(v(-3 * UNIT, 2 * UNIT, 6 * UNIT)), 10);
    assert_eq!(
        beyond,
        vec![
            v(0, 0, 0),
            v(-28086, 18724, 56173),
            v(-56173, 37449, 112347),
            v(-84260, 56173, 168521)
        ]
    );
    assert_lengths_kept(&chain, &beyond);
}

#[test]
fn unreachable_tip_lies_on_the_ray_at_full_length() {
    let (chain, positions) = three_joints();
    let out = ik::<20>(&chain, None, &positions, &IKGoal(v(3 * UNIT, 4 * UNIT, 0)), 65);
    // Three fifths and four fifths of the chain's length of two units, rounded down.
    assert_eq!(out, vec![v(0, 0, 0), v(39321, 52428, 0), v(78643, 104857, 0)]);
    let total = 2 * UNIT as i128;
    let d2 = dist_sq(&out[0], &out[2]);
    assert!(total * total - 4 * total <= d2 && d2 <= total * total + 2 * total);
    // The tip is aligned with the goal: the cross product is smaller than a coordinate of it.
    let cross = (out[2].x as i128) * (4 * UNIT as i128) - (out[2].y as i128) * (3 * UNIT as i128);
    assert!(cross.abs() <= 4 * UNIT as i128);
}

#[test]
fn unreachable_goal_with_negative_coordinates() {
    let (chain, positions) = three_joints();
    let out = ik::<20>(&chain, None, &positions, &IKGoal(v(-3 * UNIT, 4 * UNIT, -12 * UNIT)), 65);
    assert_eq!(out, vec![v(0, 0, 0), v(-15123, 20164, -60494), v(-30247, 40329, -120989)]);
}

#[test]
fn solving_again_moves_nothing_once_the_goal_is_reached() {
    let (chain, positions) = three_joints();
    let goal = IKGoal(v(UNIT, 0, UNIT / 2));
    let first = ik::<50>(&chain, None, &positions, &goal, 65);
    let second = ik::<50>(&chain, None, &first, &goal, 65);
    assert_eq!(first, second);
}

#[test]
fn solving_again_moves_nothing_when_the_goal_is_out_of_reach() {
    let (chain, positions) = three_joints();
    let goal = IKGoal(v(3 * UNIT, 4 * UNIT, 0));
    let first = ik::<20>(&chain, None, &positions, &goal, 65);
    let second = ik::<3>(&chain, None, &first, &goal, 65);
    assert_eq!(first, second);
}

#[test]
fn solving_again_goes_on_where_the_rounds_ran_out() {
    let (chain, positions) = three_joints();
    let goal = IKGoal(v(2 * UNIT, 0, 0));
    let first = ik::<1>(&chain, None, &positions, &goal, 65);
    assert_eq!(first, vec![v(0, 0, 0), v(60753, 24574, 0), v(122620, 2954, 0)]);
    let second = ik::<1>(&chain, None, &first, &goal, 65);
    assert_ne!(first, second);
}

#[test]
fn tip_on_the_goal_leaves_a_fitting_pose_alone() {
    let (chain, positions) = chain_at(&[v(0, 0, 0), v(UNIT, 0, 0), v(UNIT, UNIT, 0)]);
    let out = ik::<20>(&chain, None, &positions, &IKGoal(v(UNIT, UNIT + 10, 0)), 65);
    assert_eq!(out, positions);
}

#[test]
fn tip_on_the_goal_does_not_excuse_wrong_lengths() {
    // The tip is within the tolerance of the goal, but the joints are not the chain's lengths
    // apart: rounds are made until they are.
    let (chain, _) = three_joints();
    let positions = vec![v(0, 0, 0), v(7, 7, 7), v(UNIT, 0, 0)];
    assert!(!has_lengths(&chain, &positions));
    let goal = v(UNIT, 10, 0);
    let out = ik::<20>(&chain, None, &positions, &IKGoal(goal), 65);
    assert_eq!(out, vec![v(0, 0, 0), v(32738, 40146, 40141), v(65524, 24, 14)]);
    assert_lengths_kept(&chain, &out);
    assert!(has_lengths(&chain, &out));
    assert!(dist_sq(&out[2], &goal) < 65 * 65);
}

#[test]
fn segment_of_the_wrong_length_is_put_right() {
    // One segment of ten units whose joints stand five apart, the goal one unit from the tip.
    let chain = IKChain(vec![(1, 10), (2, 0)]);
    let positions = vec![v(0, 0, 0), v(5, 0, 0)];
    let out = ik::<20>(&chain, None, &positions, &IKGoal(v(6, 0, 0)), 2);
    assert_eq!(out, vec![v(0, 0, 0), v(10, 0, 0)]);
    // Without a round the joints stay where they are.
    assert_eq!(ik::<0>(&chain, None, &positions, &IKGoal(v(6, 0, 0)), 2), positions);
}

#[test]
fn lengths_are_told_within_the_slack() {
    let chain = IKChain(vec![(1, 10), (2, 0)]);
    let apart = |d: i64| has_lengths(&chain, &vec![v(0, 0, 0), v(0, d, 0)]);
    assert!(apart(10));
    assert!(apart(13));
    assert!(!apart(14));
    assert!(apart(7));
    assert!(!apart(6));
    // A segment that has collapsed to a point counts as kept.
    assert!(apart(0));
    let short = IKChain(vec![(1, 2), (2, 0)]);
    assert!(has_lengths(&short, &vec![v(0, 0, 0), v(1, 0, 0)]));
    assert!(has_lengths(&short, &vec![v(0, 0, 0), v(0, 5, 0)]));
    assert!(!has_lengths(&short, &vec![v(0, 0, 0), v(0, 6, 0)]));
    assert!(has_lengths(&IKChain(vec![(1, 0)]), &vec![v(4, 4, 4)]));
    let (three, positions) = three_joints();
    assert!(has_lengths(&three, &positions));
    assert!(!has_lengths(&three, &vec![v(0, 0, 0), v(0, UNIT, 0), v(0, UNIT, 9)]));
}

#[test]
fn tolerance_is_a_strict_bound() {
    let (chain, positions) = chain_at(&[v(0, 0, 0), v(UNIT, 0, 0), v(UNIT, UNIT, 0)]);
    // The tip is ten units from the goal: a tolerance of ten does not stop the solver.
    let goal = IKGoal(v(UNIT - 10, UNIT, 0));
    let stopped = ik::<5>(&chain, None, &positions, &goal, 11);
    assert_eq!(stopped, positions);
    let moved = ik::<5>(&chain, None, &positions, &goal, 10);
    assert_eq!(moved, vec![v(0, 0, 0), v(65535, 1, 0), v(65526, 65536, 0)]);
}

#[test]
fn straight_chain_stays_straight_toward_a_goal_on_its_line() {
    let (chain, positions) = three_joints();
    let out = ik::<5>(&chain, None, &positions, &IKGoal(v(0, 2 * UNIT - 10, 0)), 10);
    assert_eq!(out, positions);
}

#[test]
fn no_rounds_leave_the_pose_alone() {
    let (chain, positions) = three_joints();
    let out = ik::<0>(&chain, None, &positions, &IKGoal(v(UNIT, UNIT, 0)), 65);
    assert_eq!(out, positions);
}

#[test]
fn one_round_can_reach_the_goal() {
    let (chain, positions) = three_joints();
    let out = ik::<20>(&chain, None, &positions, &IKGoal(v(UNIT, UNIT, 0)), 65);
    assert_eq!(out, vec![v(0, 0, 0), v(0, UNIT, 0), v(UNIT, UNIT, 0)]);
}

#[test]
fn joints_that_coincide_are_left_where_they_are() {
    // The goal is where the middle joint stands: the middle joint and the tip fall together.
    let (chain, positions) = three_joints();
    let out = ik::<20>(&chain, None, &positions, &IKGoal(v(0, UNIT, 0)), 65);
    assert_eq!(out, vec![v(0, 0, 0), v(0, UNIT, 0), v(0, UNIT, 0)]);
}

#[test]
fn chain_of_one_joint_stays() {
    let (chain, positions) = chain_at(&[v(5, 6, 7)]);
    assert_eq!(ik::<10>(&chain, None, &positions, &IKGoal(v(100, 0, 0)), 3), positions);
    assert_eq!(ik::<10>(&chain, None, &positions, &IKGoal(v(5, 6, 7)), 3), positions);
}

#[test]
fn constraints_change_nothing() {
    let (chain, positions) = three_joints();
    let goal = IKGoal(v(UNIT, 0, UNIT / 2));
    let constraints =
        IKChainConstrains(vec![IKConstraint::Hinge, IKConstraint::Pivot, IKConstraint::Unconstrained]);
    let with = ik::<50>(&chain, Some(&constraints), &positions, &goal, 65);
    let without = ik::<50>(&chain, None, &positions, &goal, 65);
    assert_eq!(with, without);
}

#[test]
fn solve_gives_what_ik_gives() {
    let (chain, positions) = three_joints();
    let goal = IKGoal(v(UNIT, 0, UNIT / 2));
    assert_eq!(
        limb_ik::ik::solve::<50>(&chain, None, &positions, &goal, 65),
        Some(ik::<50>(&chain, None, &positions, &goal, 65))
    );
}

#[test]
fn solve_refuses_what_ik_cannot_take() {
    let (chain, positions) = three_joints();
    let goal = IKGoal(v(UNIT, 0, 0));
    let solve = limb_ik::ik::solve::<5>;
    // A joint too few, and one too many.
    assert_eq!(solve(&chain, None, &positions[..2].to_vec(), &goal, 65), None);
    let mut more = positions.clone();
    more.push(v(0, 0, 0));
    assert_eq!(solve(&chain, None, &more, &goal, 65), None);
    // A goal, a joint and a root outside their bounds.
    assert_eq!(solve(&chain, None, &positions, &IKGoal(v(COORD_MAX + 1, 0, 0)), 65), None);
    let far = vec![v(0, 0, 0), v(0, UNIT, 0), v(0, 0, -COORD_MAX - 1)];
    assert_eq!(solve(&chain, None, &far, &goal, 65), None);
    let off = vec![v(ROOT_MAX + 1, 0, 0), v(0, UNIT, 0), v(0, 2 * UNIT, 0)];
    assert_eq!(solve(&chain, None, &off, &goal, 65), None);
    // Chains that are not well formed: none, a tip with a segment, one too long.
    assert_eq!(solve(&IKChain(vec![]), None, &vec![], &goal, 65), None);
    assert_eq!(solve(&IKChain(vec![(1, 5), (2, 5), (3, 5)]), None, &positions, &goal, 65), None);
    let long = IKChain(vec![(1, 1 << 29), (2, 1), (3, 0)]);
    assert_eq!(solve(&long, None, &positions, &goal, 65), None);
    // At the bounds themselves the solver works.
    let edge = vec![v(ROOT_MAX, -ROOT_MAX, 0), v(0, UNIT, COORD_MAX), v(-COORD_MAX, 2 * UNIT, 0)];
    assert!(solve(&chain, None, &edge, &IKGoal(v(COORD_MAX, 0, -COORD_MAX)), 65).is_some());
}

#[test]
fn well_formed_chains_are_told_apart() {
    assert!(three_joints().0.is_wf());
    assert!(IKChain(vec![(1, 0)]).is_wf());
    assert!(IKChain(vec![(1, 1 << 29), (2, 0)]).is_wf());
    assert!(!IKChain(vec![]).is_wf());
    assert!(!IKChain(vec![(1, 4)]).is_wf());
    assert!(!IKChain(vec![(1, (1 << 29) + 1), (2, 0)]).is_wf());
    assert!(!IKChain(vec![(1, u64::MAX), (2, u64::MAX), (3, 0)]).is_wf());
}

#[test]
fn short_segments_keep_their_lengths_too() {
    // Segments of one to five units, bent and stretched in every direction of a small cube.
    for len in 1..=5i64 {
        let (chain, positions) = chain_at(&[v(0, 0, 0), v(len, 0, 0), v(len, len, 0)]);
        for x in -3..=3i64 {
            for y in -3..=3i64 {
                for z in -3..=3i64 {
                    let goal = v(x * len, y * len, z * len);
                    let out = ik::<8>(&chain, None, &positions, &IKGoal(goal), 1);
                    assert_eq!(out[0], positions[0]);
                    assert!(has_lengths(&chain, &out), "{len} {goal:?} {out:?}");
                    for i in 0..2 {
                        let l = chain.0[i].1 as i128;
                        let d2 = dist_sq(&out[i], &out[i + 1]);
                        let kept = d2 <= (l + 3) * (l + 3) && (l < 3 || d2 >= (l - 3) * (l - 3));
                        assert!(kept || out[i] == out[i + 1], "{len} {goal:?} {out:?}");
                    }
                }
            }
        }
    }
}
