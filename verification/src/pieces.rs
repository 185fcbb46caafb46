//! Classification of the cube's pieces: the twelve edge identities and the
//! eight corner identities, each named by the faces the piece touches.

use vstd::prelude::*;
use vstd::string::*;
use crate::algebra::Parity;
use crate::primitives::FaceType;
use crate::primitives::ParseError;

verus! {

/// An edge piece, named by its two intersecting faces.  The first face of
/// the name is the key sticker: U or D where the edge touches one of them,
/// else F or B.
#[derive(Debug, Clone, Copy, PartialEq, Eq, Structural)]
pub enum EdgeType {
    UF,
    UR,
    UB,
    UL,
    DF,
    DR,
    DB,
    DL,
    FR,
    FL,
    BR,
    BL,
}

/// A corner piece, named by its three faces in the fixed order
/// FB-axis member, UD-axis member, RL-axis member.
#[derive(Debug, Clone, Copy, PartialEq, Eq, Structural)]
pub enum CornerType {
    FUR,
    FUL,
    FDR,
    FDL,
    BUR,
    BUL,
    BDR,
    BDL,
}

impl EdgeType {
    /// The two faces this edge touches, key sticker first.
    pub open spec fn spec_faces(self) -> (FaceType, FaceType) {
        match self {
            EdgeType::UF => (FaceType::U, FaceType::F),
            EdgeType::UR => (FaceType::U, FaceType::R),
            EdgeType::UB => (FaceType::U, FaceType::B),
            EdgeType::UL => (FaceType::U, FaceType::L),
            EdgeType::DF => (FaceType::D, FaceType::F),
            EdgeType::DR => (FaceType::D, FaceType::R),
            EdgeType::DB => (FaceType::D, FaceType::B),
            EdgeType::DL => (FaceType::D, FaceType::L),
            EdgeType::FR => (FaceType::F, FaceType::R),
            EdgeType::FL => (FaceType::F, FaceType::L),
            EdgeType::BR => (FaceType::B, FaceType::R),
            EdgeType::BL => (FaceType::B, FaceType::L),
        }
    }

    /// The two faces this edge touches, key sticker first.
    pub fn faces(self) -> (r: (FaceType, FaceType))
        ensures
            r == self.spec_faces(),
    {
        match self {
            EdgeType::UF => (FaceType::U, FaceType::F),
            EdgeType::UR => (FaceType::U, FaceType::R),
            EdgeType::UB => (FaceType::U, FaceType::B),
            EdgeType::UL => (FaceType::U, FaceType::L),
            EdgeType::DF => (FaceType::D, FaceType::F),
            EdgeType::DR => (FaceType::D, FaceType::R),
            EdgeType::DB => (FaceType::D, FaceType::B),
            EdgeType::DL => (FaceType::D, FaceType::L),
            EdgeType::FR => (FaceType::F, FaceType::R),
            EdgeType::FL => (FaceType::F, FaceType::L),
            EdgeType::BR => (FaceType::B, FaceType::R),
            EdgeType::BL => (FaceType::B, FaceType::L),
        }
    }

    /// The edge whose name is exactly the ordered pair `(f1, f2)`.
    pub open spec fn spec_of_pair(f1: FaceType, f2: FaceType) -> Option<EdgeType> {
        match (f1, f2) {
            (FaceType::U, FaceType::F) => Some(EdgeType::UF),
            (FaceType::U, FaceType::R) => Some(EdgeType::UR),
            (FaceType::U, FaceType::B) => Some(EdgeType::UB),
            (FaceType::U, FaceType::L) => Some(EdgeType::UL),
            (FaceType::D, FaceType::F) => Some(EdgeType::DF),
            (FaceType::D, FaceType::R) => Some(EdgeType::DR),
            (FaceType::D, FaceType::B) => Some(EdgeType::DB),
            (FaceType::D, FaceType::L) => Some(EdgeType::DL),
            (FaceType::F, FaceType::R) => Some(EdgeType::FR),
            (FaceType::F, FaceType::L) => Some(EdgeType::FL),
            (FaceType::B, FaceType::R) => Some(EdgeType::BR),
            (FaceType::B, FaceType::L) => Some(EdgeType::BL),
            _ => None,
        }
    }

    /// The canonical identity and parity of the edge touching `f1` and
    /// `f2`: parity even when the pair is given key-sticker first, odd when
    /// it is reversed, and no edge at all when the faces do not intersect.
    pub open spec fn spec_from_faces(f1: FaceType, f2: FaceType) -> Option<(EdgeType, Parity)> {
        if EdgeType::spec_of_pair(f1, f2) is Some {
            Some((EdgeType::spec_of_pair(f1, f2)->Some_0, Parity::Even))
        } else if EdgeType::spec_of_pair(f2, f1) is Some {
            Some((EdgeType::spec_of_pair(f2, f1)->Some_0, Parity::Odd))
        } else {
            None
        }
    }

    /// The canonical identity and parity of the edge touching `f1` and
    /// `f2`; see [`EdgeType::spec_from_faces`].  Reversing the argument
    /// order flips the parity bit.
    pub fn from_faces(f1: FaceType, f2: FaceType) -> (r: Option<(EdgeType, Parity)>)
        ensures
            r == EdgeType::spec_from_faces(f1, f2),
    {
        match EdgeType::of_pair(f1, f2) {
            Some(e) => Some((e, Parity::Even)),
            None => match EdgeType::of_pair(f2, f1) {
                Some(e) => Some((e, Parity::Odd)),
                None => None,
            },
        }
    }

    /// The edge whose name is exactly the ordered pair `(f1, f2)`.
    pub fn of_pair(f1: FaceType, f2: FaceType) -> (r: Option<EdgeType>)
        ensures
            r == EdgeType::spec_of_pair(f1, f2),
    {
        match (f1, f2) {
            (FaceType::U, FaceType::F) => Some(EdgeType::UF),
            (FaceType::U, FaceType::R) => Some(EdgeType::UR),
            (FaceType::U, FaceType::B) => Some(EdgeType::UB),
            (FaceType::U, FaceType::L) => Some(EdgeType::UL),
            (FaceType::D, FaceType::F) => Some(EdgeType::DF),
            (FaceType::D, FaceType::R) => Some(EdgeType::DR),
            (FaceType::D, FaceType::B) => Some(EdgeType::DB),
            (FaceType::D, FaceType::L) => Some(EdgeType::DL),
            (FaceType::F, FaceType::R) => Some(EdgeType::FR),
            (FaceType::F, FaceType::L) => Some(EdgeType::FL),
            (FaceType::B, FaceType::R) => Some(EdgeType::BR),
            (FaceType::B, FaceType::L) => Some(EdgeType::BL),
            _ => None,
        }
    }

    /// The two-letter name of this edge, key sticker first.
    pub fn name(self) -> (r: String)
        ensures
            r@ == seq![
                self.spec_faces().0.spec_letter(),
                self.spec_faces().1.spec_letter(),
            ],
    {
        let (a, b) = self.faces();
        let mut out = String::new();
        out.append(a.letter_str());
        out.append(b.letter_str());
        proof {
            assert(out@ =~= seq![
                self.spec_faces().0.spec_letter(),
                self.spec_faces().1.spec_letter(),
            ]);
        }
        out
    }

    /// Parses an edge name: exactly the two face letters of the edge, key
    /// sticker first.  Any other identifier fails the parse.
    pub fn from_name(s: &str) -> (r: Result<EdgeType, ParseError>)
        ensures
            r == EdgeType::spec_from_name(s@),
    {
        if s.unicode_len() != 2 {
            return Err(ParseError);
        }
        let f1 = match FaceType::from_letter(s.get_char(0)) {
            Ok(f) => f,
            Err(e) => {
                return Err(e);
            },
        };
        let f2 = match FaceType::from_letter(s.get_char(1)) {
            Ok(f) => f,
            Err(e) => {
                return Err(e);
            },
        };
        match EdgeType::of_pair(f1, f2) {
            Some(e) => Ok(e),
            None => Err(ParseError),
        }
    }

    /// The edge named by `s`; see [`EdgeType::from_name`].
    pub open spec fn spec_from_name(s: Seq<char>) -> Result<EdgeType, ParseError> {
        if s.len() != 2 {
            Err(ParseError)
        } else {
            match (FaceType::spec_from_letter(s[0]), FaceType::spec_from_letter(s[1])) {
                (Ok(f1), Ok(f2)) => match EdgeType::spec_of_pair(f1, f2) {
                    Some(e) => Ok(e),
                    None => Err(ParseError),
                },
                _ => Err(ParseError),
            }
        }
    }
}

/// Reversing the face order of an edge query flips the parity bit and
/// nothing else: the two orders name one and the same edge.
pub proof fn lemma_edge_parity_flip(f1: FaceType, f2: FaceType, e: EdgeType, p: Parity)
    ensures
        EdgeType::spec_from_faces(f1, f2) == Some((e, p)) <==> EdgeType::spec_from_faces(f2, f1)
            == Some((e, p.spec_flip())),
{
}

impl CornerType {
    /// The three faces this corner touches: its FB-axis face, its UD-axis
    /// face, then its RL-axis face.
    pub open spec fn spec_faces(self) -> (FaceType, FaceType, FaceType) {
        match self {
            CornerType::FUR => (FaceType::F, FaceType::U, FaceType::R),
            CornerType::FUL => (FaceType::F, FaceType::U, FaceType::L),
            CornerType::FDR => (FaceType::F, FaceType::D, FaceType::R),
            CornerType::FDL => (FaceType::F, FaceType::D, FaceType::L),
            CornerType::BUR => (FaceType::B, FaceType::U, FaceType::R),
            CornerType::BUL => (FaceType::B, FaceType::U, FaceType::L),
            CornerType::BDR => (FaceType::B, FaceType::D, FaceType::R),
            CornerType::BDL => (FaceType::B, FaceType::D, FaceType::L),
        }
    }

    /// The three faces this corner touches, in the fixed name order.
    pub fn faces(self) -> (r: (FaceType, FaceType, FaceType))
        ensures
            r == self.spec_faces(),
    {
        match self {
            CornerType::FUR => (FaceType::F, FaceType::U, FaceType::R),
            CornerType::FUL => (FaceType::F, FaceType::U, FaceType::L),
            CornerType::FDR => (FaceType::F, FaceType::D, FaceType::R),
            CornerType::FDL => (FaceType::F, FaceType::D, FaceType::L),
            CornerType::BUR => (FaceType::B, FaceType::U, FaceType::R),
            CornerType::BUL => (FaceType::B, FaceType::U, FaceType::L),
            CornerType::BDR => (FaceType::B, FaceType::D, FaceType::R),
            CornerType::BDL => (FaceType::B, FaceType::D, FaceType::L),
        }
    }

    /// The corner whose faces are exactly `(f1, f2, f3)` in name order.
    pub open spec fn spec_of_triple(f1: FaceType, f2: FaceType, f3: FaceType) -> Option<
        CornerType,
    > {
        match (f1, f2, f3) {
            (FaceType::F, FaceType::U, FaceType::R) => Some(CornerType::FUR),
            (FaceType::F, FaceType::U, FaceType::L) => Some(CornerType::FUL),
            (FaceType::F, FaceType::D, FaceType::R) => Some(CornerType::FDR),
            (FaceType::F, FaceType::D, FaceType::L) => Some(CornerType::FDL),
            (FaceType::B, FaceType::U, FaceType::R) => Some(CornerType::BUR),
            (FaceType::B, FaceType::U, FaceType::L) => Some(CornerType::BUL),
            (FaceType::B, FaceType::D, FaceType::R) => Some(CornerType::BDR),
            (FaceType::B, FaceType::D, FaceType::L) => Some(CornerType::BDL),
            _ => None,
        }
    }

    /// The corner whose faces are exactly `(f1, f2, f3)` in name order.
    pub fn of_triple(f1: FaceType, f2: FaceType, f3: FaceType) -> (r: Option<CornerType>)
        ensures
            r == CornerType::spec_of_triple(f1, f2, f3),
    {
        match (f1, f2, f3) {
            (FaceType::F, FaceType::U, FaceType::R) => Some(CornerType::FUR),
            (FaceType::F, FaceType::U, FaceType::L) => Some(CornerType::FUL),
            (FaceType::F, FaceType::D, FaceType::R) => Some(CornerType::FDR),
            (FaceType::F, FaceType::D, FaceType::L) => Some(CornerType::FDL),
            (FaceType::B, FaceType::U, FaceType::R) => Some(CornerType::BUR),
            (FaceType::B, FaceType::U, FaceType::L) => Some(CornerType::BUL),
            (FaceType::B, FaceType::D, FaceType::R) => Some(CornerType::BDR),
            (FaceType::B, FaceType::D, FaceType::L) => Some(CornerType::BDL),
            _ => None,
        }
    }

    /// The three-letter name of this corner.
    pub fn name(self) -> (r: String)
        ensures
            r@ == seq![
                self.spec_faces().0.spec_letter(),
                self.spec_faces().1.spec_letter(),
                self.spec_faces().2.spec_letter(),
            ],
    {
        let (a, b, c) = self.faces();
        let mut out = String::new();
        out.append(a.letter_str());
        out.append(b.letter_str());
        out.append(c.letter_str());
        proof {
            assert(out@ =~= seq![
                self.spec_faces().0.spec_letter(),
                self.spec_faces().1.spec_letter(),
                self.spec_faces().2.spec_letter(),
            ]);
        }
        out
    }

    /// Parses a corner name: exactly its three face letters in name order.
    pub fn from_name(s: &str) -> (r: Result<CornerType, ParseError>)
        ensures
            r == CornerType::spec_from_name(s@),
    {
        if s.unicode_len() != 3 {
            return Err(ParseError);
        }
        let f1 = match FaceType::from_letter(s.get_char(0)) {
            Ok(f) => f,
            Err(e) => {
                return Err(e);
            },
        };
        let f2 = match FaceType::from_letter(s.get_char(1)) {
            Ok(f) => f,
            Err(e) => {
                return Err(e);
            },
        };
        let f3 = match FaceType::from_letter(s.get_char(2)) {
            Ok(f) => f,
            Err(e) => {
                return Err(e);
            },
        };
        match CornerType::of_triple(f1, f2, f3) {
            Some(c) => Ok(c),
            None => Err(ParseError),
        }
    }

    /// The corner named by `s`; see [`CornerType::from_name`].
    pub open spec fn spec_from_name(s: Seq<char>) -> Result<CornerType, ParseError> {
        if s.len() != 3 {
            Err(ParseError)
        } else {
            match (
                FaceType::spec_from_letter(s[0]),
                FaceType::spec_from_letter(s[1]),
                FaceType::spec_from_letter(s[2]),
            ) {
                (Ok(f1), Ok(f2), Ok(f3)) => match CornerType::spec_of_triple(f1, f2, f3) {
                    Some(c) => Ok(c),
                    None => Err(ParseError),
                },
                _ => Err(ParseError),
            }
        }
    }
}

} // verus!
