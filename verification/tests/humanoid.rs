use limb_ik::humanoid::{Bone, Humanoid, HumanoidBuilder, Limb, LimbBuilder};
use limb_ik::ik::ChainError;
use limb_ik::vec3::{Vec3, COORD_MAX};

const NAMES: [(&str, Bone); 14] = [
    ("head", Bone::Head),
    ("Spine", Bone::Body),
    ("right.arm.0", Bone::RightArmUpper),
    ("right.arm.1", Bone::RightArmLower),
    ("right.hand", Bone::RightHand),
    ("left.arm.0", Bone::LeftArmUpper),
    ("left.arm.1", Bone::LeftArmLower),
    ("left.hand", Bone::LeftHand),
    ("right.leg.upper", Bone::RightLegUpper),
    ("right.leg.lower", Bone::RightLegLower),
    ("right.foot", Bone::RightFoot),
    ("left.leg.upper", Bone::LeftLegUpper),
    ("left.leg.lower", Bone::LeftLegLower),
    ("left.foot", Bone::LeftFoot),
];

fn whole() -> Humanoid {
    Humanoid {
        head: 100,
        body: 101,
        right_arm: Limb(102, 103, 104),
        left_arm: Limb(105, 106, 107),
        right_leg: Limb(108, 109, 110),
        left_leg: Limb(111, 112, 113),
    }
}

#[test]
fn bones_are_known_by_their_names() {
    for (name, bone) in NAMES {
        assert_eq!(Bone::from_name(name), Some(bone));
    }
    for name in ["", "Head", "spine", "left.foot ", "left.arm.2", "Cube"] {
        assert_eq!(Bone::from_name(name), None);
    }
}

#[test]
fn builder_finishes_once_every_bone_is_found() {
    let mut builder = HumanoidBuilder::default();
    assert_eq!(builder.build(), None);
    for (i, (name, _)) in NAMES.iter().enumerate() {
        assert_eq!(builder.build(), None);
        assert!(builder.assign_named(name, 100 + i as u64));
    }
    assert_eq!(builder.build(), Some(whole()));
}

#[test]
fn builder_passes_over_other_names() {
    let mut builder = HumanoidBuilder::default();
    assert!(!builder.assign_named("Cube", 5));
    assert_eq!(builder, HumanoidBuilder::default());
}

#[test]
fn builder_takes_the_last_joint_given_for_a_bone() {
    let mut builder = HumanoidBuilder::default();
    builder.assign(Bone::Head, 1);
    builder.assign(Bone::Head, 2);
    builder.assign(Bone::LeftFoot, 3);
    assert_eq!(builder.head, Some(2));
    assert_eq!(builder.left_leg, LimbBuilder(None, None, Some(3)));
    assert_eq!(builder.right_leg, LimbBuilder::default());
}

#[test]
fn limb_builder_needs_all_three_joints() {
    assert_eq!(LimbBuilder::default().limb(), None);
    assert_eq!(LimbBuilder(Some(1), None, Some(3)).limb(), None);
    assert_eq!(LimbBuilder(Some(1), Some(2), Some(3)).limb(), Some(Limb(1, 2, 3)));
}

#[test]
fn limb_iterator_walks_outward() {
    let limb = Limb(7, 8, 9);
    let mut it = limb.iter();
    assert_eq!(it.next(), Some(7));
    assert_eq!(it.next(), Some(8));
    assert_eq!(it.next(), Some(9));
    assert_eq!(it.next(), None);
    assert_eq!(it.next(), None);
}

#[test]
fn limb_chain_measures_the_limb() {
    let places = (Vec3::new(0, 0, 0), Vec3::new(3, 4, 0), Vec3::new(3, 4, 12));
    assert_eq!(Limb(7, 8, 9).chain(places).unwrap().0, vec![(7, 5), (8, 12), (9, 0)]);
    let human = whole();
    assert_eq!(human.left_arm_ik(places).unwrap().0, vec![(105, 5), (106, 12), (107, 0)]);
    assert_eq!(human.right_arm_ik(places).unwrap().0, vec![(102, 5), (103, 12), (104, 0)]);
    assert_eq!(human.left_leg_ik(places).unwrap().0, vec![(111, 5), (112, 12), (113, 0)]);
    assert_eq!(human.right_leg_ik(places).unwrap().0, vec![(108, 5), (109, 12), (110, 0)]);
}

#[test]
fn limb_outside_the_bounds_has_no_chain() {
    let places = (Vec3::new(0, 0, 0), Vec3::new(3, 4, 0), Vec3::new(3, 4, COORD_MAX + 1));
    assert_eq!(Limb(7, 8, 9).chain(places).unwrap_err(), ChainError::OutOfRange);
    let fine = (Vec3::new(0, 0, 0), Vec3::new(3, 4, 0), Vec3::new(3, 4, 12));
    let human = whole();
    assert!(human.get_iks(fine, fine, fine, places).is_none());
    let (left_arm, right_arm, left_leg, right_leg) = human.get_iks(fine, fine, fine, fine).unwrap();
    assert_eq!(left_arm.0[0], (105, 5));
    assert_eq!(right_arm.0[1], (103, 12));
    assert_eq!(left_leg.0[2], (113, 0));
    assert_eq!(right_leg.0[0], (108, 5));
}
