//! The primitive enumerations of the puzzle: sticker colours, face names,
//! turn axes and rotation kinds, with their string conversions.

use vstd::prelude::*;
use vstd::string::*;

verus! {

/// Parsing a notation token or an identifier failed; the input matched no
/// rule of the grammar.  The caller receives no partial value.
#[derive(Debug, Clone, Copy, PartialEq, Eq, Structural)]
pub struct ParseError;

/// The colour of a sticker.  Colour `i` fills face `i` on a solved cube.
#[derive(Debug, Clone, Copy, PartialEq, Eq, Structural)]
pub enum Colour {
    Green,
    Red,
    White,
    Blue,
    Orange,
    Yellow,
}

/// A fixed geometric face slot, in Singmaster notation, ordered
/// F (front), R (right), U (up), B (back), L (left), D (down).
#[derive(Debug, Clone, Copy, PartialEq, Eq, Structural)]
pub enum FaceType {
    F,
    R,
    U,
    B,
    L,
    D,
}

/// The axis a move turns about.  Each axis is named by its positive face
/// followed by its negative face: layer 0 lies against the positive face.
#[derive(Debug, Clone, Copy, PartialEq, Eq, Structural)]
pub enum Axis {
    FB,
    RL,
    UD,
}

/// How far a layer is turned: +90 degrees viewed from the axis's positive
/// face, 180 degrees, or -90 degrees.
#[derive(Debug, Clone, Copy, PartialEq, Eq, Structural)]
pub enum RotationType {
    Normal,
    Double,
    Inverse,
}

impl Colour {
    /// The single-character display letter of this colour.
    pub open spec fn spec_letter(self) -> char {
        match self {
            Colour::Green => 'g',
            Colour::Red => 'r',
            Colour::White => 'w',
            Colour::Blue => 'b',
            Colour::Orange => 'o',
            Colour::Yellow => 'y',
        }
    }

    /// Gets the letter name of this colour.
    pub fn letter(self) -> (r: char)
        ensures
            r == self.spec_letter(),
    {
        match self {
            Colour::Green => 'g',
            Colour::Red => 'r',
            Colour::White => 'w',
            Colour::Blue => 'b',
            Colour::Orange => 'o',
            Colour::Yellow => 'y',
        }
    }

    /// The letter of this colour followed by one space, as rendered in the
    /// text grid of a cube.
    pub fn letter_pair_str(self) -> (r: &'static str)
        ensures
            r@ == seq![self.spec_letter(), ' '],
    {
        proof {
            reveal_strlit("g ");
            reveal_strlit("r ");
            reveal_strlit("w ");
            reveal_strlit("b ");
            reveal_strlit("o ");
            reveal_strlit("y ");
        }
        let r = match self {
            Colour::Green => "g ",
            Colour::Red => "r ",
            Colour::White => "w ",
            Colour::Blue => "b ",
            Colour::Orange => "o ",
            Colour::Yellow => "y ",
        };
        proof {
            assert(r@ =~= seq![self.spec_letter(), ' ']);
        }
        r
    }

    /// The face slot that this colour fills on a solved cube.
    pub open spec fn spec_face_type(self) -> FaceType {
        match self {
            Colour::Green => FaceType::F,
            Colour::Red => FaceType::R,
            Colour::White => FaceType::U,
            Colour::Blue => FaceType::B,
            Colour::Orange => FaceType::L,
            Colour::Yellow => FaceType::D,
        }
    }

    /// The face slot that this colour fills on a solved cube.
    pub fn face_type(self) -> (r: FaceType)
        ensures
            r == self.spec_face_type(),
            r.spec_colour() == self,
    {
        match self {
            Colour::Green => FaceType::F,
            Colour::Red => FaceType::R,
            Colour::White => FaceType::U,
            Colour::Blue => FaceType::B,
            Colour::Orange => FaceType::L,
            Colour::Yellow => FaceType::D,
        }
    }
}

impl FaceType {
    /// The colour that fills this face on a solved cube.
    pub open spec fn spec_colour(self) -> Colour {
        match self {
            FaceType::F => Colour::Green,
            FaceType::R => Colour::Red,
            FaceType::U => Colour::White,
            FaceType::B => Colour::Blue,
            FaceType::L => Colour::Orange,
            FaceType::D => Colour::Yellow,
        }
    }

    /// The colour that fills this face on a solved cube.
    pub fn colour(self) -> (r: Colour)
        ensures
            r == self.spec_colour(),
            r.spec_face_type() == self,
    {
        match self {
            FaceType::F => Colour::Green,
            FaceType::R => Colour::Red,
            FaceType::U => Colour::White,
            FaceType::B => Colour::Blue,
            FaceType::L => Colour::Orange,
            FaceType::D => Colour::Yellow,
        }
    }

    /// The position of this face in the cube's face order F R U B L D.
    pub open spec fn spec_index(self) -> int {
        match self {
            FaceType::F => 0,
            FaceType::R => 1,
            FaceType::U => 2,
            FaceType::B => 3,
            FaceType::L => 4,
            FaceType::D => 5,
        }
    }

    /// The position of this face in the cube's face order F R U B L D.
    pub fn index(self) -> (r: usize)
        ensures
            r == self.spec_index(),
    {
        match self {
            FaceType::F => 0,
            FaceType::R => 1,
            FaceType::U => 2,
            FaceType::B => 3,
            FaceType::L => 4,
            FaceType::D => 5,
        }
    }

    /// The display letter of this face.
    pub open spec fn spec_letter(self) -> char {
        match self {
            FaceType::F => 'F',
            FaceType::R => 'R',
            FaceType::U => 'U',
            FaceType::B => 'B',
            FaceType::L => 'L',
            FaceType::D => 'D',
        }
    }

    /// The display letter of this face, as a string slice.
    pub fn letter_str(self) -> (r: &'static str)
        ensures
            r@ == seq![self.spec_letter()],
    {
        proof {
            reveal_strlit("F");
            reveal_strlit("R");
            reveal_strlit("U");
            reveal_strlit("B");
            reveal_strlit("L");
            reveal_strlit("D");
        }
        let r = match self {
            FaceType::F => "F",
            FaceType::R => "R",
            FaceType::U => "U",
            FaceType::B => "B",
            FaceType::L => "L",
            FaceType::D => "D",
        };
        proof {
            assert(r@ =~= seq![self.spec_letter()]);
        }
        r
    }

    /// Parses a face name: exactly one of the six face letters.
    pub open spec fn spec_from_name(s: Seq<char>) -> Result<FaceType, ParseError> {
        if s.len() == 1 {
            FaceType::spec_from_letter(s[0])
        } else {
            Err(ParseError)
        }
    }

    /// The face named by a single letter, if any.
    pub open spec fn spec_from_letter(c: char) -> Result<FaceType, ParseError> {
        if c == 'F' {
            Ok(FaceType::F)
        } else if c == 'R' {
            Ok(FaceType::R)
        } else if c == 'U' {
            Ok(FaceType::U)
        } else if c == 'B' {
            Ok(FaceType::B)
        } else if c == 'L' {
            Ok(FaceType::L)
        } else if c == 'D' {
            Ok(FaceType::D)
        } else {
            Err(ParseError)
        }
    }

    /// The face named by a single letter, if any.
    pub fn from_letter(c: char) -> (r: Result<FaceType, ParseError>)
        ensures
            r == FaceType::spec_from_letter(c),
    {
        if c == 'F' {
            Ok(FaceType::F)
        } else if c == 'R' {
            Ok(FaceType::R)
        } else if c == 'U' {
            Ok(FaceType::U)
        } else if c == 'B' {
            Ok(FaceType::B)
        } else if c == 'L' {
            Ok(FaceType::L)
        } else if c == 'D' {
            Ok(FaceType::D)
        } else {
            Err(ParseError)
        }
    }

    /// Parses a face name: exactly one of the six face letters.
    pub fn from_name(s: &str) -> (r: Result<FaceType, ParseError>)
        ensures
            r == FaceType::spec_from_name(s@),
    {
        if s.unicode_len() == 1 {
            FaceType::from_letter(s.get_char(0))
        } else {
            Err(ParseError)
        }
    }
}

impl Axis {
    /// The positive face of this axis: the face that layer 0 lies against.
    pub open spec fn spec_positive_face(self) -> FaceType {
        match self {
            Axis::FB => FaceType::F,
            Axis::RL => FaceType::R,
            Axis::UD => FaceType::U,
        }
    }

    /// The positive face of this axis: the face that layer 0 lies against.
    pub fn positive_face(self) -> (r: FaceType)
        ensures
            r == self.spec_positive_face(),
    {
        match self {
            Axis::FB => FaceType::F,
            Axis::RL => FaceType::R,
            Axis::UD => FaceType::U,
        }
    }

    /// The negative face of this axis: the face that layer n - 1 lies against.
    pub open spec fn spec_negative_face(self) -> FaceType {
        match self {
            Axis::FB => FaceType::B,
            Axis::RL => FaceType::L,
            Axis::UD => FaceType::D,
        }
    }

    /// The negative face of this axis: the face that layer n - 1 lies against.
    pub fn negative_face(self) -> (r: FaceType)
        ensures
            r == self.spec_negative_face(),
    {
        match self {
            Axis::FB => FaceType::B,
            Axis::RL => FaceType::L,
            Axis::UD => FaceType::D,
        }
    }

    /// The axis that turns the given face: F and B turn about FB, and so on.
    pub open spec fn spec_of_face(f: FaceType) -> Axis {
        match f {
            FaceType::F => Axis::FB,
            FaceType::B => Axis::FB,
            FaceType::R => Axis::RL,
            FaceType::L => Axis::RL,
            FaceType::U => Axis::UD,
            FaceType::D => Axis::UD,
        }
    }

    /// The axis that turns the given face: F and B turn about FB, and so on.
    pub fn of_face(f: FaceType) -> (r: Axis)
        ensures
            r == Axis::spec_of_face(f),
    {
        match f {
            FaceType::F => Axis::FB,
            FaceType::B => Axis::FB,
            FaceType::R => Axis::RL,
            FaceType::L => Axis::RL,
            FaceType::U => Axis::UD,
            FaceType::D => Axis::UD,
        }
    }

    /// Parses an axis name: the two face letters of the axis, positive first.
    pub open spec fn spec_from_name(s: Seq<char>) -> Result<Axis, ParseError> {
        if s.len() == 2 && s[0] == 'F' && s[1] == 'B' {
            Ok(Axis::FB)
        } else if s.len() == 2 && s[0] == 'R' && s[1] == 'L' {
            Ok(Axis::RL)
        } else if s.len() == 2 && s[0] == 'U' && s[1] == 'D' {
            Ok(Axis::UD)
        } else {
            Err(ParseError)
        }
    }

    /// Parses an axis name: the two face letters of the axis, positive first.
    pub fn from_name(s: &str) -> (r: Result<Axis, ParseError>)
        ensures
            r == Axis::spec_from_name(s@),
    {
        if s.unicode_len() != 2 {
            Err(ParseError)
        } else {
            let c0 = s.get_char(0);
            let c1 = s.get_char(1);
            if c0 == 'F' && c1 == 'B' {
                Ok(Axis::FB)
            } else if c0 == 'R' && c1 == 'L' {
                Ok(Axis::RL)
            } else if c0 == 'U' && c1 == 'D' {
                Ok(Axis::UD)
            } else {
                Err(ParseError)
            }
        }
    }
}

impl RotationType {
    /// The number of clockwise quarter turns this rotation performs: 1, 2 or 3.
    pub open spec fn spec_quarters(self) -> nat {
        match self {
            RotationType::Normal => 1,
            RotationType::Double => 2,
            RotationType::Inverse => 3,
        }
    }

    /// The number of clockwise quarter turns this rotation performs: 1, 2 or 3.
    pub fn quarters(self) -> (r: u8)
        ensures
            r == self.spec_quarters(),
    {
        match self {
            RotationType::Normal => 1,
            RotationType::Double => 2,
            RotationType::Inverse => 3,
        }
    }

    /// The signed quarter-turn count of this rotation: +1, +2 or -1.
    pub open spec fn spec_signed_quarters(self) -> int {
        match self {
            RotationType::Normal => 1,
            RotationType::Double => 2,
            RotationType::Inverse => -1,
        }
    }

    /// The rotation that undoes this one.
    pub open spec fn spec_inverse(self) -> RotationType {
        match self {
            RotationType::Normal => RotationType::Inverse,
            RotationType::Double => RotationType::Double,
            RotationType::Inverse => RotationType::Normal,
        }
    }

    /// The rotation that undoes this one.
    pub fn inverse(self) -> (r: RotationType)
        ensures
            r == self.spec_inverse(),
            r.spec_quarters() + self.spec_quarters() == 4,
    {
        match self {
            RotationType::Normal => RotationType::Inverse,
            RotationType::Double => RotationType::Double,
            RotationType::Inverse => RotationType::Normal,
        }
    }

    /// The rotation performing `n` net clockwise quarter turns: reduces
    /// `n` modulo 4, giving `None` when the net effect is no turn at all.
    pub open spec fn spec_from_rotations(n: int) -> Option<RotationType> {
        let m = n % 4;
        if m == 0 {
            None
        } else if m == 1 {
            Some(RotationType::Normal)
        } else if m == 2 {
            Some(RotationType::Double)
        } else {
            Some(RotationType::Inverse)
        }
    }

    /// The rotation performing `n` net clockwise quarter turns: reduces
    /// `n` modulo 4, giving `None` when the net effect is no turn at all.
    pub fn from_rotations(n: i64) -> (r: Option<RotationType>)
        ensures
            r == RotationType::spec_from_rotations(n as int),
    {
        let m = n % 4;
        let m = if m < 0 {
            m + 4
        } else {
            m
        };
        if m == 0 {
            None
        } else if m == 1 {
            Some(RotationType::Normal)
        } else if m == 2 {
            Some(RotationType::Double)
        } else {
            Some(RotationType::Inverse)
        }
    }

    /// The notation suffix of this rotation: nothing, `2`, or `'`.
    pub open spec fn spec_suffix(self) -> Seq<char> {
        match self {
            RotationType::Normal => Seq::<char>::empty(),
            RotationType::Double => seq!['2'],
            RotationType::Inverse => seq!['\''],
        }
    }
}

/// `RotationType::from_rotations` is periodic with period 4: adding four
/// quarter turns never changes the reduced rotation.
pub proof fn lemma_from_rotations_periodic(n: int)
    ensures
        RotationType::spec_from_rotations(n + 4) == RotationType::spec_from_rotations(n),
{
    vstd::arithmetic::div_mod::lemma_mod_add_multiples_vanish(n, 4);
}

} // verus!
