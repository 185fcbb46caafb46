use autocuber::moves::Move;
use autocuber::primitives::Axis;
use autocuber::primitives::RotationType;
use autocuber::sequence::MoveSequence;

fn mv(axis: Axis, rotation_type: RotationType, start_depth: usize, end_depth: usize) -> Move {
    Move { axis, rotation_type, start_depth, end_depth }
}

fn seq_of(tokens: &[&str], n: usize) -> MoveSequence {
    let mut s = MoveSequence::new();
    for tok in tokens {
        s.push(Move::parse(tok, n).unwrap());
    }
    s
}

fn moves_of(s: &MoveSequence) -> Vec<Move> {
    let mut v = Vec::new();
    for i in 0..s.len() {
        v.push(s.get(i));
    }
    v
}

#[test]
fn op_concatenates_in_application_order() {
    // a.op(b) means "perform b, then a": b's moves come first.
    let a = seq_of(&["F"], 3);
    let b = seq_of(&["R", "U"], 3);
    let c = a.op(b);
    assert_eq!(
        moves_of(&c),
        vec![
            mv(Axis::RL, RotationType::Normal, 0, 1),
            mv(Axis::UD, RotationType::Normal, 0, 1),
            mv(Axis::FB, RotationType::Normal, 0, 1),
        ]
    );
}

#[test]
fn inverse_reverses_and_inverts() {
    let s = seq_of(&["F", "R2", "U'"], 3);
    let i = s.inverse();
    assert_eq!(
        moves_of(&i),
        vec![
            mv(Axis::UD, RotationType::Normal, 0, 1),
            mv(Axis::RL, RotationType::Double, 0, 1),
            mv(Axis::FB, RotationType::Inverse, 0, 1),
        ]
    );
    assert_eq!(moves_of(&i.inverse()), moves_of(&s));
}

#[test]
fn canonicalise_merges_repeated_turns() {
    let s = seq_of(&["R", "R"], 3);
    assert_eq!(moves_of(&s.canonicalise()), vec![mv(Axis::RL, RotationType::Double, 0, 1)]);
    let t = seq_of(&["U", "U", "U"], 3);
    assert_eq!(moves_of(&t.canonicalise()), vec![mv(Axis::UD, RotationType::Inverse, 0, 1)]);
}

#[test]
fn canonicalise_cancels_opposite_turns() {
    let s = seq_of(&["U", "U'"], 3);
    assert_eq!(moves_of(&s.canonicalise()), vec![]);
    let t = seq_of(&["F2", "F2"], 3);
    assert_eq!(moves_of(&t.canonicalise()), vec![]);
}

#[test]
fn canonicalise_coalesces_adjacent_layers() {
    // A face turn next to a slice turn of the same sense becomes one wide
    // move; the layers are visited in ascending depth order.
    let s = MoveSequence::from_moves(vec![
        mv(Axis::RL, RotationType::Normal, 1, 2),
        mv(Axis::RL, RotationType::Normal, 0, 1),
    ]);
    assert_eq!(moves_of(&s.canonicalise()), vec![mv(Axis::RL, RotationType::Normal, 0, 2)]);
}

#[test]
fn canonicalise_splits_layers_with_different_rotations() {
    let s = MoveSequence::from_moves(vec![
        mv(Axis::RL, RotationType::Normal, 0, 2),
        mv(Axis::RL, RotationType::Normal, 1, 2),
    ]);
    assert_eq!(
        moves_of(&s.canonicalise()),
        vec![
            mv(Axis::RL, RotationType::Normal, 0, 1),
            mv(Axis::RL, RotationType::Double, 1, 2),
        ]
    );
}

#[test]
fn canonicalise_keeps_untouched_layers_apart() {
    // Equal net rotations on layers 0 and 2 may not merge across the
    // untouched layer 1.
    let s = MoveSequence::from_moves(vec![
        mv(Axis::UD, RotationType::Normal, 0, 1),
        mv(Axis::UD, RotationType::Normal, 2, 3),
    ]);
    assert_eq!(
        moves_of(&s.canonicalise()),
        vec![
            mv(Axis::UD, RotationType::Normal, 0, 1),
            mv(Axis::UD, RotationType::Normal, 2, 3),
        ]
    );
}

#[test]
fn canonicalise_never_reorders_across_an_axis_change() {
    let s = seq_of(&["F", "R", "F"], 3);
    assert_eq!(
        moves_of(&s.canonicalise()),
        vec![
            mv(Axis::FB, RotationType::Normal, 0, 1),
            mv(Axis::RL, RotationType::Normal, 0, 1),
            mv(Axis::FB, RotationType::Normal, 0, 1),
        ]
    );
}

#[test]
fn canonicalise_is_idempotent_on_surviving_runs() {
    let s = seq_of(&["R", "Rw'", "U2", "U", "F", "S", "D", "E'"], 3);
    let once = s.canonicalise();
    let twice = once.canonicalise();
    assert_eq!(moves_of(&twice), moves_of(&once));
}

#[test]
fn empty_sequence_canonicalises_to_itself() {
    let s = MoveSequence::new();
    assert_eq!(s.len(), 0);
    assert_eq!(moves_of(&s.canonicalise()), vec![]);
}

#[test]
fn sequence_notation_parses_and_prints() {
    let s = MoveSequence::parse("F R U R' U' F'", 3).unwrap();
    assert_eq!(s.len(), 6);
    assert_eq!(s.get(0), mv(Axis::FB, RotationType::Normal, 0, 1));
    assert_eq!(s.get(3), mv(Axis::RL, RotationType::Inverse, 0, 1));
    assert_eq!(s.to_notation(3), "F R U R' U' F'");
    let empty = MoveSequence::parse("", 3).unwrap();
    assert_eq!(empty.len(), 0);
    assert_eq!(empty.to_notation(3), "");
    assert!(MoveSequence::parse("F  R", 3).is_err());
    assert!(MoveSequence::parse("F X", 3).is_err());
    assert!(MoveSequence::parse(" F", 3).is_err());
}

#[test]
fn sequence_validity() {
    let s = seq_of(&["F", "Rw"], 3);
    assert!(s.is_valid_for(3));
    assert!(s.is_valid_for(4));
    assert!(!s.is_valid_for(1));
}
