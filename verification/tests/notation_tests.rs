use autocuber::moves::Move;
use autocuber::primitives::Axis;
use autocuber::primitives::RotationType;

fn mv(axis: Axis, rotation_type: RotationType, start_depth: usize, end_depth: usize) -> Move {
    Move { axis, rotation_type, start_depth, end_depth }
}

#[test]
fn parsing_face_turns() {
    assert_eq!(Move::parse("F", 3).unwrap(), mv(Axis::FB, RotationType::Normal, 0, 1));
    assert_eq!(Move::parse("R2", 3).unwrap(), mv(Axis::RL, RotationType::Double, 0, 1));
    assert_eq!(Move::parse("U'", 3).unwrap(), mv(Axis::UD, RotationType::Inverse, 0, 1));
}

#[test]
fn parsing_mirrors_back_half_faces() {
    // B, L and D are mirrored into the opposite face's coordinates and the
    // rotation is inverted.
    assert_eq!(Move::parse("B", 3).unwrap(), mv(Axis::FB, RotationType::Inverse, 2, 3));
    assert_eq!(Move::parse("L'", 3).unwrap(), mv(Axis::RL, RotationType::Normal, 2, 3));
    assert_eq!(Move::parse("D2", 3).unwrap(), mv(Axis::UD, RotationType::Double, 2, 3));
    // The mirroring uses the cube's actual layer count.
    assert_eq!(Move::parse("B", 4).unwrap(), mv(Axis::FB, RotationType::Inverse, 3, 4));
    assert_eq!(Move::parse("L'", 5).unwrap(), mv(Axis::RL, RotationType::Normal, 4, 5));
}

#[test]
fn parsing_wide_and_lowercase_moves() {
    assert_eq!(Move::parse("Fw", 3).unwrap(), mv(Axis::FB, RotationType::Normal, 0, 2));
    assert_eq!(Move::parse("f", 3).unwrap(), mv(Axis::FB, RotationType::Normal, 0, 2));
    assert_eq!(Move::parse("r2", 3).unwrap(), mv(Axis::RL, RotationType::Double, 0, 2));
    assert_eq!(Move::parse("Lw2", 3).unwrap(), mv(Axis::RL, RotationType::Double, 1, 3));
    assert_eq!(Move::parse("b'", 4).unwrap(), mv(Axis::FB, RotationType::Normal, 2, 4));
}

#[test]
fn parsing_slice_moves() {
    // M follows the L face's convention, E follows D's, S follows F's.
    assert_eq!(Move::parse("M", 3).unwrap(), mv(Axis::RL, RotationType::Inverse, 1, 2));
    assert_eq!(Move::parse("M'", 3).unwrap(), mv(Axis::RL, RotationType::Normal, 1, 2));
    assert_eq!(Move::parse("E", 3).unwrap(), mv(Axis::UD, RotationType::Inverse, 1, 2));
    assert_eq!(Move::parse("S", 3).unwrap(), mv(Axis::FB, RotationType::Normal, 1, 2));
    assert_eq!(Move::parse("M", 5).unwrap(), mv(Axis::RL, RotationType::Inverse, 3, 4));
}

#[test]
fn trailing_prime_after_two_is_tolerated() {
    assert_eq!(Move::parse("U2'", 3).unwrap(), mv(Axis::UD, RotationType::Double, 0, 1));
    assert_eq!(Move::parse("U'2", 3).unwrap(), mv(Axis::UD, RotationType::Double, 0, 1));
}

#[test]
fn parse_failures() {
    assert!(Move::parse("", 3).is_err());
    assert!(Move::parse("X", 3).is_err());
    assert!(Move::parse("Fx", 3).is_err());
    assert!(Move::parse("F2x", 3).is_err());
    // A token whose depths do not fit the cube is rejected.
    assert!(Move::parse("Fw", 1).is_err());
    assert!(Move::parse("M", 1).is_err());
}

#[test]
fn printing_round_trips_canonical_tokens() {
    // Parsing then printing reproduces the token exactly for every axis
    // and rotation kind in the canonical depth ranges.
    let tokens = [
        "F", "F2", "F'", "R", "R2", "R'", "U", "U2", "U'",
        "B", "B2", "B'", "L", "L2", "L'", "D", "D2", "D'",
        "Fw", "Fw2", "Fw'", "Rw", "Rw2", "Rw'", "Uw", "Uw2", "Uw'",
        "Bw", "Bw2", "Bw'", "Lw", "Lw2", "Lw'", "Dw", "Dw2", "Dw'",
        "S", "S2", "S'", "M", "M2", "M'", "E", "E2", "E'",
    ];
    for tok in tokens {
        let m = Move::parse(tok, 3).unwrap();
        assert_eq!(m.to_notation(3), *tok, "round trip of {tok}");
    }
    for tok in ["B", "Lw2", "M'", "E2"] {
        let m = Move::parse(tok, 5).unwrap();
        assert_eq!(m.to_notation(5), *tok, "round trip of {tok} on 5");
    }
}

#[test]
fn printing_falls_back_to_a_debug_form() {
    let inner = mv(Axis::FB, RotationType::Normal, 2, 5);
    assert_eq!(inner.to_notation(9), "FB[2,5)");
    let inner2 = mv(Axis::UD, RotationType::Inverse, 0, 3);
    assert_eq!(inner2.to_notation(9), "UD[0,3)'");
    let inner3 = mv(Axis::RL, RotationType::Double, 10, 12);
    assert_eq!(inner3.to_notation(30), "RL[10,12)2");
}

#[test]
fn move_validity() {
    assert!(Move::parse("F", 3).unwrap().is_valid_for(3));
    assert!(!mv(Axis::FB, RotationType::Normal, 1, 4).is_valid_for(3));
    assert!(!mv(Axis::FB, RotationType::Normal, 2, 2).is_valid_for(3));
}

#[test]
fn move_inverse_flips_the_rotation_only() {
    let m = Move::parse("Rw", 3).unwrap();
    let i = m.inverse();
    assert_eq!(i, mv(Axis::RL, RotationType::Inverse, 0, 2));
    assert_eq!(i.inverse(), m);
    let d = Move::parse("U2", 3).unwrap();
    assert_eq!(d.inverse(), d);
}
