use limb_ik::gait::{
    is_moving, straight_legs_target, update_legs, BodyFrame, FootTarget, HumanoidFeetTarget,
};
use limb_ik::ik::IKChain;
use limb_ik::vec3::Vec3;
use limb_ik::vec3::{COORD_MAX, FINE, REACH_MAX, WORLD_MAX};

const UNIT: i64 = 65536;

fn v(x: i64, y: i64, z: i64) -> Vec3 {
    Vec3::new(x, y, z)
}

fn leg(hip: Vec3, knee: Vec3, foot: Vec3) -> IKChain {
    IKChain::new(&vec![(1, hip), (2, knee), (3, foot)]).unwrap()
}

fn feet() -> HumanoidFeetTarget {
    let left = leg(v(-16384, 2 * UNIT, 0), v(-16384, UNIT, 0), v(-16384, 0, 0));
    let right = leg(v(16384, 2 * UNIT, 0), v(16384, UNIT, 0), v(16384, 0, 0));
    HumanoidFeetTarget::new(left, right, v(-16384, 0, 0), v(16384, 0, 0))
}

fn body() -> BodyFrame {
    BodyFrame {
        position: v(1000, 200000, -3000),
        down: v(0, -UNIT, 0),
        left: v(-UNIT, 0, 0),
        right: v(UNIT, 0, 0),
    }
}

#[test]
fn foot_target_map_keeps_the_role() {
    let mut locked = FootTarget::Locked(v(1, 2, 3));
    locked.map(v(4, 5, 6));
    assert_eq!(locked, FootTarget::Locked(v(4, 5, 6)));
    let mut active = FootTarget::Active(v(1, 2, 3));
    active.map(v(7, 8, 9)).map(v(0, 0, 1));
    assert_eq!(active, FootTarget::Active(v(0, 0, 1)));
}

#[test]
fn foot_target_swap_keeps_the_place() {
    let mut target = FootTarget::Locked(v(1, 2, 3));
    target.swap();
    assert_eq!(target, FootTarget::Active(v(1, 2, 3)));
    target.swap();
    assert_eq!(target, FootTarget::Locked(v(1, 2, 3)));
    target.swap().swap();
    assert_eq!(target, FootTarget::Locked(v(1, 2, 3)));
}

#[test]
fn new_feet_plant_the_left_foot() {
    let feet = feet();
    assert_eq!(feet.left_target, FootTarget::Locked(v(-16384, 0, 0)));
    assert_eq!(feet.right_target, FootTarget::Active(v(16384, 0, 0)));
    assert_eq!(feet.leg_offset, 16384);
    assert_eq!(feet.leg_length_cache, 2 * UNIT as u64);
    assert_eq!(feet.left_ik.0, vec![(1, UNIT as u64), (2, UNIT as u64), (3, 0)]);
    assert_eq!(*feet.active_target(), FootTarget::Active(v(16384, 0, 0)));
    assert_eq!(*feet.locked_target(), FootTarget::Locked(v(-16384, 0, 0)));
}

#[test]
fn leg_offset_is_half_the_distance_rounded_down() {
    let left = leg(v(0, 10, 0), v(0, 5, 0), v(0, 0, 0));
    let right = leg(v(0, 10, 0), v(0, 5, 0), v(0, 0, 0));
    let feet = HumanoidFeetTarget::new(left, right, v(0, 0, 0), v(3, 4, 12));
    assert_eq!(feet.leg_offset, 6);
    assert_eq!(feet.leg_length_cache, 10);
}

#[test]
fn swapped_feet_change_roles() {
    let mut feet = feet();
    feet.swap();
    assert_eq!(feet.left_target, FootTarget::Active(v(-16384, 0, 0)));
    assert_eq!(feet.right_target, FootTarget::Locked(v(16384, 0, 0)));
    assert_eq!(*feet.active_target(), FootTarget::Active(v(-16384, 0, 0)));
    assert_eq!(*feet.locked_target(), FootTarget::Locked(v(16384, 0, 0)));
    feet.swap();
    assert_eq!(*feet.active_target(), FootTarget::Active(v(16384, 0, 0)));
}

#[test]
fn straight_legs_end_below_the_body() {
    assert_eq!(
        straight_legs_target(v(0, -UNIT, 0), v(1000, 200000, -3000), 131072),
        v(1000, 68928, -3000)
    );
    assert_eq!(straight_legs_target(v(0, 0, 0), v(1, 2, 3), 50), v(1, 2, 3));
}

#[test]
fn resting_feet_stand_below_the_body() {
    let mut feet = feet();
    feet.rest(&body());
    assert_eq!(feet.left_target, FootTarget::Locked(v(-15384, 68928, -3000)));
    assert_eq!(feet.right_target, FootTarget::Active(v(17384, 68928, -3000)));
}

#[test]
fn step_starts_beside_the_body_on_the_swinging_side() {
    let mut feet = feet();
    assert_eq!(feet.step_origin(&body()), v(17384, 200000, -3000));
    feet.swap();
    assert_eq!(feet.step_origin(&body()), v(-15384, 200000, -3000));
}

#[test]
fn swinging_foot_takes_the_place_found() {
    let mut feet = feet();
    feet.new_target(&body(), Some(v(5, 6, 7)));
    assert_eq!(feet.right_target, FootTarget::Active(v(5, 6, 7)));
    assert_eq!(feet.left_target, FootTarget::Locked(v(-16384, 0, 0)));
    feet.swap();
    feet.new_target(&body(), Some(v(8, 9, 10)));
    assert_eq!(feet.left_target, FootTarget::Active(v(8, 9, 10)));
    assert_eq!(feet.right_target, FootTarget::Locked(v(5, 6, 7)));
}

#[test]
fn swinging_foot_straightens_where_no_place_is_found() {
    let mut feet = feet();
    feet.new_target(&body(), None);
    assert_eq!(feet.right_target, FootTarget::Active(v(1000, 68928, -3000)));
    assert_eq!(feet.left_target, FootTarget::Locked(v(-16384, 0, 0)));
}

#[test]
fn dead_zone_is_a_strict_bound() {
    assert!(!is_moving(&v(0, 0, 0), 0));
    assert!(is_moving(&v(1, 0, 0), 0));
    assert!(!is_moving(&v(3, 4, 0), 5));
    assert!(is_moving(&v(3, 4, 1), 5));
    assert!(!is_moving(&v(-600, 0, 200), 655));
}

#[test]
fn update_legs_rests_inside_the_dead_zone() {
    let mut feet = feet();
    update_legs(&mut feet, &v(100, 0, -100), 655, &body(), Some(v(5, 6, 7)));
    assert_eq!(feet.left_target, FootTarget::Locked(v(-15384, 68928, -3000)));
    assert_eq!(feet.right_target, FootTarget::Active(v(17384, 68928, -3000)));
}

#[test]
fn update_legs_steps_outside_the_dead_zone() {
    let mut feet = feet();
    update_legs(&mut feet, &v(UNIT, 0, 0), 655, &body(), Some(v(5, 6, 7)));
    assert_eq!(feet.left_target, FootTarget::Locked(v(-16384, 0, 0)));
    assert_eq!(feet.right_target, FootTarget::Active(v(5, 6, 7)));
    update_legs(&mut feet, &v(0, 0, -UNIT), 655, &body(), None);
    assert_eq!(feet.right_target, FootTarget::Active(v(1000, 68928, -3000)));
}

#[test]
fn one_foot_is_planted_and_one_swings_throughout() {
    let mut feet = feet();
    let one_of_each = |f: &HumanoidFeetTarget| {
        matches!(
            (&f.left_target, &f.right_target),
            (FootTarget::Locked(_), FootTarget::Active(_)) | (FootTarget::Active(_), FootTarget::Locked(_))
        )
    };
    assert!(one_of_each(&feet));
    feet.rest(&body());
    assert!(one_of_each(&feet));
    feet.swap();
    assert!(one_of_each(&feet));
    feet.new_target(&body(), None);
    assert!(one_of_each(&feet));
    update_legs(&mut feet, &v(UNIT, 0, 0), 655, &body(), Some(v(1, 1, 1)));
    assert!(one_of_each(&feet));
}

#[test]
fn feet_and_frames_are_checked() {
    let mut feet = feet();
    assert!(feet.is_alternating());
    assert!(feet.is_wf());
    feet.left_target.swap();
    assert!(!feet.is_alternating());
    feet.right_target.swap();
    assert!(feet.is_alternating());
    feet.right_target.swap();
    assert!(!feet.is_alternating());
    feet.leg_offset = FINE + 1;
    assert!(!feet.is_wf());
    feet.leg_offset = FINE;
    feet.leg_length_cache = REACH_MAX + 1;
    assert!(!feet.is_wf());
    feet.leg_length_cache = REACH_MAX;
    assert!(feet.is_wf());

    assert!(body().is_wf());
    let mut frame = body();
    frame.position = v(COORD_MAX + 1, 0, 0);
    assert!(!frame.is_wf());
    frame.position = v(COORD_MAX, 0, 0);
    frame.down = v(0, -WORLD_MAX - 1, 0);
    assert!(!frame.is_wf());
    frame.down = v(0, -WORLD_MAX, 0);
    assert!(frame.is_wf());
    frame.left = v(0, 0, WORLD_MAX + 1);
    assert!(!frame.is_wf());
    frame.left = v(0, 0, 0);
    frame.right = v(WORLD_MAX + 1, 0, 0);
    assert!(!frame.is_wf());
}
