use autocuber::cube::Cube;
use autocuber::moves::Move;
use autocuber::primitives::Axis;
use autocuber::primitives::Colour;
use autocuber::primitives::FaceType;
use autocuber::primitives::RotationType;
use autocuber::sequence::MoveSequence;

fn parse_sequence(tokens: &[&str], n: usize) -> MoveSequence {
    let mut s = MoveSequence::new();
    for tok in tokens {
        s.push(Move::parse(tok, n).unwrap());
    }
    s
}

#[test]
fn solved_cube_has_uniform_faces() {
    let cube = Cube::new(3);
    assert_eq!(cube.size(), 3);
    assert!(cube.validate());
    let expected = [
        (FaceType::F, Colour::Green),
        (FaceType::R, Colour::Red),
        (FaceType::U, Colour::White),
        (FaceType::B, Colour::Blue),
        (FaceType::L, Colour::Orange),
        (FaceType::D, Colour::Yellow),
    ];
    for (face, colour) in expected {
        for i in 0..3 {
            for j in 0..3 {
                assert_eq!(cube.sticker(face, i, j), colour);
            }
        }
    }
}

#[test]
fn single_front_turn_moves_exactly_the_front_band() {
    // Applying one F to a solved 3x3 changes the Front face (rotated, so
    // still all green), the bottom row of U, the left column of R, the top
    // row of D and the right column of L, and leaves Back untouched.
    let cube = Cube::new(3).perform(Move::parse("F", 3).unwrap());
    for i in 0..3 {
        for j in 0..3 {
            assert_eq!(cube.sticker(FaceType::F, i, j), Colour::Green);
            assert_eq!(cube.sticker(FaceType::B, i, j), Colour::Blue);
        }
    }
    for j in 0..3 {
        // U's bottom row came from L's right column.
        assert_eq!(cube.sticker(FaceType::U, 0, j), Colour::White);
        assert_eq!(cube.sticker(FaceType::U, 1, j), Colour::White);
        assert_eq!(cube.sticker(FaceType::U, 2, j), Colour::Orange);
        // D's top row came from R's left column.
        assert_eq!(cube.sticker(FaceType::D, 0, j), Colour::Red);
        assert_eq!(cube.sticker(FaceType::D, 1, j), Colour::Yellow);
        assert_eq!(cube.sticker(FaceType::D, 2, j), Colour::Yellow);
    }
    for i in 0..3 {
        // R's left column came from U's bottom row.
        assert_eq!(cube.sticker(FaceType::R, i, 0), Colour::White);
        assert_eq!(cube.sticker(FaceType::R, i, 1), Colour::Red);
        assert_eq!(cube.sticker(FaceType::R, i, 2), Colour::Red);
        // L's right column came from D's top row.
        assert_eq!(cube.sticker(FaceType::L, i, 0), Colour::Orange);
        assert_eq!(cube.sticker(FaceType::L, i, 1), Colour::Orange);
        assert_eq!(cube.sticker(FaceType::L, i, 2), Colour::Yellow);
    }
}

#[test]
fn sexy_move_and_its_inverse_restore_the_cube() {
    // End to end: "F R U R' U' F'" followed by its computed inverse
    // returns the solved state exactly.
    let tokens = ["F", "R", "U", "R'", "U'", "F'"];
    let seq = parse_sequence(&tokens, 3);
    let inv = seq.inverse();
    let solved = Cube::new(3);
    let scrambled = Cube::new(3).perform_all(&seq);
    assert!(!scrambled.same_state(&solved));
    let restored = scrambled.perform_all(&inv);
    assert!(restored.same_state(&solved));
}

#[test]
fn move_then_inverse_is_identity_on_a_four_cube() {
    let mv = Move::parse("Rw2", 4).unwrap();
    let solved = Cube::new(4);
    let back = Cube::new(4).perform(mv).perform(mv.inverse());
    assert!(back.same_state(&solved));
}

#[test]
fn canonicalisation_preserves_the_cube_effect() {
    let tokens = ["R", "U", "U2", "Rw'", "M", "F", "S2", "F'", "D", "E'"];
    let seq = parse_sequence(&tokens, 3);
    let canon = seq.canonicalise();
    let direct = Cube::new(3).perform_all(&seq);
    let via_canon = Cube::new(3).perform_all(&canon);
    assert!(direct.same_state(&via_canon));
}

#[test]
fn perform_checked_rejects_out_of_range_moves() {
    let cube = Cube::new(3);
    let bad = Move {
        axis: Axis::RL,
        rotation_type: RotationType::Normal,
        start_depth: 1,
        end_depth: 4,
    };
    assert!(cube.perform_checked(bad).is_none());
    let cube = Cube::new(3);
    let empty = Move {
        axis: Axis::RL,
        rotation_type: RotationType::Normal,
        start_depth: 2,
        end_depth: 2,
    };
    assert!(cube.perform_checked(empty).is_none());
    let cube = Cube::new(3);
    let fine = Move::parse("L2", 3).unwrap();
    assert!(cube.perform_checked(fine).is_some());
}

#[test]
fn render_of_solved_two_cube_is_the_unfolded_cross() {
    let cube = Cube::new(2);
    let expected = "    w w \n    w w \no o g g r r b b \no o g g r r b b \n    y y \n    y y \n";
    assert_eq!(cube.render(), expected);
}

#[test]
fn render_of_solved_one_cube() {
    let cube = Cube::new(1);
    assert_eq!(cube.render(), "  w \no g r b \n  y \n");
}

#[test]
fn render_shows_a_turned_front_row() {
    let cube = Cube::new(2).perform(Move::parse("U", 2).unwrap());
    // The top layer ring shifts one face towards L: the whole U face stays
    // white, every side face's top row comes from the face to its right.
    let expected = "    w w \n    w w \ng g r r b b o o \no o g g r r b b \n    y y \n    y y \n";
    assert_eq!(cube.render(), expected);
}

#[test]
fn wide_and_slice_turns_on_a_five_cube() {
    // A turn of an inner band only: depth range [1, 4) about RL.
    let mv = Move {
        axis: Axis::RL,
        rotation_type: RotationType::Normal,
        start_depth: 1,
        end_depth: 4,
    };
    let cube = Cube::new(5).perform(mv);
    // Outer columns of F untouched, inner columns turned (F gains yellow
    // from D on the RL axis).
    for i in 0..5 {
        assert_eq!(cube.sticker(FaceType::F, i, 0), Colour::Green);
        assert_eq!(cube.sticker(FaceType::F, i, 4), Colour::Green);
        for j in 1..4 {
            assert_eq!(cube.sticker(FaceType::F, i, j), Colour::Yellow);
        }
    }
    // R and L faces are untouched: the range touches neither layer 0 nor 5.
    for i in 0..5 {
        for j in 0..5 {
            assert_eq!(cube.sticker(FaceType::R, i, j), Colour::Red);
            assert_eq!(cube.sticker(FaceType::L, i, j), Colour::Orange);
        }
    }
    let restored = cube.perform(mv.inverse());
    assert!(restored.same_state(&Cube::new(5)));
}
