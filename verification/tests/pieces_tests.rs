use autocuber::algebra::Parity;
use autocuber::pieces::CornerType;
use autocuber::pieces::EdgeType;
use autocuber::primitives::Axis;
use autocuber::primitives::Colour;
use autocuber::primitives::FaceType;
use autocuber::primitives::RotationType;

#[test]
fn edge_from_faces_tracks_parity() {
    // Key-sticker-first gives parity 0; the reversed order flips it.
    assert_eq!(
        EdgeType::from_faces(FaceType::U, FaceType::R),
        Some((EdgeType::UR, Parity::Even))
    );
    assert_eq!(
        EdgeType::from_faces(FaceType::R, FaceType::U),
        Some((EdgeType::UR, Parity::Odd))
    );
    assert_eq!(
        EdgeType::from_faces(FaceType::F, FaceType::L),
        Some((EdgeType::FL, Parity::Even))
    );
    assert_eq!(
        EdgeType::from_faces(FaceType::L, FaceType::B),
        Some((EdgeType::BL, Parity::Odd))
    );
}

#[test]
fn edge_from_faces_rejects_non_intersecting_pairs() {
    assert_eq!(EdgeType::from_faces(FaceType::U, FaceType::U), None);
    assert_eq!(EdgeType::from_faces(FaceType::U, FaceType::D), None);
    assert_eq!(EdgeType::from_faces(FaceType::F, FaceType::B), None);
}

#[test]
fn edge_names_round_trip() {
    assert_eq!(EdgeType::UR.name(), "UR");
    assert_eq!(EdgeType::BL.name(), "BL");
    assert_eq!(EdgeType::from_name("UR"), Ok(EdgeType::UR));
    assert_eq!(EdgeType::from_name("DF"), Ok(EdgeType::DF));
    // Only the canonical key-sticker-first spelling names an edge.
    assert!(EdgeType::from_name("RU").is_err());
    assert!(EdgeType::from_name("UU").is_err());
    assert!(EdgeType::from_name("U").is_err());
}

#[test]
fn corner_names_round_trip() {
    assert_eq!(CornerType::FUR.name(), "FUR");
    assert_eq!(CornerType::BDL.name(), "BDL");
    assert_eq!(CornerType::from_name("FUR"), Ok(CornerType::FUR));
    assert_eq!(CornerType::from_name("BDR"), Ok(CornerType::BDR));
    // The name order is fixed: FB member, UD member, RL member.
    assert!(CornerType::from_name("UFR").is_err());
    assert!(CornerType::from_name("FU").is_err());
}

#[test]
fn corner_faces_follow_the_name_order() {
    assert_eq!(CornerType::FUR.faces(), (FaceType::F, FaceType::U, FaceType::R));
    assert_eq!(CornerType::BDL.faces(), (FaceType::B, FaceType::D, FaceType::L));
}

#[test]
fn parity_is_a_cyclic_group_of_order_two() {
    assert_eq!(Parity::Even.combine(Parity::Even), Parity::Even);
    assert_eq!(Parity::Even.combine(Parity::Odd), Parity::Odd);
    assert_eq!(Parity::Odd.combine(Parity::Even), Parity::Odd);
    assert_eq!(Parity::Odd.combine(Parity::Odd), Parity::Even);
    assert_eq!(Parity::Odd.flip(), Parity::Even);
    assert_eq!(Parity::Even.flip(), Parity::Odd);
}

#[test]
fn rotation_reduction_is_periodic() {
    assert_eq!(RotationType::from_rotations(0), None);
    assert_eq!(RotationType::from_rotations(4), None);
    assert_eq!(RotationType::from_rotations(-4), None);
    assert_eq!(RotationType::from_rotations(1), Some(RotationType::Normal));
    assert_eq!(RotationType::from_rotations(2), Some(RotationType::Double));
    assert_eq!(RotationType::from_rotations(3), Some(RotationType::Inverse));
    assert_eq!(RotationType::from_rotations(-1), Some(RotationType::Inverse));
    assert_eq!(RotationType::from_rotations(-2), Some(RotationType::Double));
    assert_eq!(RotationType::from_rotations(5), Some(RotationType::Normal));
    assert_eq!(RotationType::from_rotations(7), Some(RotationType::Inverse));
    for n in -8i64..8 {
        assert_eq!(
            RotationType::from_rotations(n),
            RotationType::from_rotations(n + 4),
            "period 4 at {n}"
        );
    }
}

#[test]
fn colours_and_faces_correspond() {
    assert_eq!(Colour::Green.letter(), 'g');
    assert_eq!(Colour::Yellow.letter(), 'y');
    let colours = [
        Colour::Green,
        Colour::Red,
        Colour::White,
        Colour::Blue,
        Colour::Orange,
        Colour::Yellow,
    ];
    for c in colours {
        assert_eq!(c.face_type().colour(), c);
    }
    assert_eq!(FaceType::F.colour(), Colour::Green);
    assert_eq!(FaceType::D.colour(), Colour::Yellow);
}

#[test]
fn face_and_axis_names_parse() {
    assert_eq!(FaceType::from_name("F"), Ok(FaceType::F));
    assert_eq!(FaceType::from_name("D"), Ok(FaceType::D));
    assert!(FaceType::from_name("G").is_err());
    assert!(FaceType::from_name("FF").is_err());
    assert_eq!(Axis::from_name("FB"), Ok(Axis::FB));
    assert_eq!(Axis::from_name("RL"), Ok(Axis::RL));
    assert_eq!(Axis::from_name("UD"), Ok(Axis::UD));
    assert!(Axis::from_name("BF").is_err());
    assert!(Axis::from_name("F").is_err());
}

#[test]
fn axes_of_faces() {
    assert_eq!(Axis::of_face(FaceType::F), Axis::FB);
    assert_eq!(Axis::of_face(FaceType::B), Axis::FB);
    assert_eq!(Axis::of_face(FaceType::L), Axis::RL);
    assert_eq!(Axis::of_face(FaceType::D), Axis::UD);
    assert_eq!(Axis::FB.positive_face(), FaceType::F);
    assert_eq!(Axis::UD.negative_face(), FaceType::D);
}
