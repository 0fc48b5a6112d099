use limb_ik::controller::{key_board_input, Magnitude, MovementInput};

#[test]
fn magnitude_is_a_sign() {
    assert_eq!(i32::from(Magnitude::Positive), 1);
    assert_eq!(i32::from(Magnitude::Negative), -1);
    assert_eq!(i32::from(Magnitude::Zero), 0);
    let n: i32 = Magnitude::Negative.into();
    assert_eq!(n, -1);
}

#[test]
fn movement_starts_at_rest() {
    let input = MovementInput::default();
    assert_eq!(input, MovementInput { forward: Magnitude::Zero, right: Magnitude::Zero });
}

#[test]
fn one_key_gives_its_side() {
    let mut input = MovementInput::default();
    key_board_input(true, false, false, false, &mut input);
    assert_eq!(input, MovementInput { forward: Magnitude::Positive, right: Magnitude::Zero });
    key_board_input(false, true, false, false, &mut input);
    assert_eq!(input, MovementInput { forward: Magnitude::Negative, right: Magnitude::Zero });
    key_board_input(false, false, true, false, &mut input);
    assert_eq!(input, MovementInput { forward: Magnitude::Zero, right: Magnitude::Negative });
    key_board_input(false, false, false, true, &mut input);
    assert_eq!(input, MovementInput { forward: Magnitude::Zero, right: Magnitude::Positive });
}

#[test]
fn two_opposed_keys_keep_what_was_asked() {
    let mut input = MovementInput { forward: Magnitude::Negative, right: Magnitude::Positive };
    key_board_input(true, true, true, true, &mut input);
    assert_eq!(input, MovementInput { forward: Magnitude::Negative, right: Magnitude::Positive });
    let mut rest = MovementInput::default();
    key_board_input(true, true, false, false, &mut rest);
    assert_eq!(rest, MovementInput::default());
    key_board_input(true, false, true, true, &mut rest);
    assert_eq!(rest, MovementInput { forward: Magnitude::Positive, right: Magnitude::Zero });
}

#[test]
fn no_key_gives_rest() {
    let mut input = MovementInput { forward: Magnitude::Positive, right: Magnitude::Negative };
    key_board_input(false, false, false, false, &mut input);
    assert_eq!(input, MovementInput::default());
}
