//! A single move: a rotation of a contiguous range of layers about an axis.

use vstd::prelude::*;
use vstd::string::*;
use crate::primitives::Axis;
use crate::primitives::ParseError;
use crate::primitives::RotationType;

verus! {

/// The base reading of a notation letter: the axis it turns, whether the
/// letter follows the axis's negative face (B, L, D and their variants),
/// and the depth range in that face's own coordinates.  Lowercase letters
/// are wide-move shorthand; M, E and S are the slice letters, following
/// the L, D and F face conventions respectively.
pub open spec fn spec_letter_base(c: char) -> Result<(Axis, bool, int, int), ParseError> {
    if c == 'F' {
        Ok((Axis::FB, false, 0, 1))
    } else if c == 'f' {
        Ok((Axis::FB, false, 0, 2))
    } else if c == 'B' {
        Ok((Axis::FB, true, 0, 1))
    } else if c == 'b' {
        Ok((Axis::FB, true, 0, 2))
    } else if c == 'S' {
        Ok((Axis::FB, false, 1, 2))
    } else if c == 'R' {
        Ok((Axis::RL, false, 0, 1))
    } else if c == 'r' {
        Ok((Axis::RL, false, 0, 2))
    } else if c == 'L' {
        Ok((Axis::RL, true, 0, 1))
    } else if c == 'l' {
        Ok((Axis::RL, true, 0, 2))
    } else if c == 'M' {
        Ok((Axis::RL, true, 1, 2))
    } else if c == 'U' {
        Ok((Axis::UD, false, 0, 1))
    } else if c == 'u' {
        Ok((Axis::UD, false, 0, 2))
    } else if c == 'D' {
        Ok((Axis::UD, true, 0, 1))
    } else if c == 'd' {
        Ok((Axis::UD, true, 0, 2))
    } else if c == 'E' {
        Ok((Axis::UD, true, 1, 2))
    } else {
        Err(ParseError)
    }
}

/// The depth range and rotation after the modifiers `t[k..]` are applied,
/// left to right: `w` forces the end depth to 2, `2` sets a double turn,
/// `'` sets an inverse turn unless the turn is already double (so a
/// trailing `'` after `2` is tolerated and ignored).  Any other character
/// fails the parse.
pub open spec fn spec_modifiers(
    t: Seq<char>,
    k: int,
    start: int,
    end: int,
    rot: RotationType,
) -> Result<(int, int, RotationType), ParseError>
    decreases t.len() - k,
{
    if k >= t.len() {
        Ok((start, end, rot))
    } else if t[k] == 'w' {
        spec_modifiers(t, k + 1, start, 2, rot)
    } else if t[k] == '2' {
        spec_modifiers(t, k + 1, start, end, RotationType::Double)
    } else if t[k] == '\'' {
        spec_modifiers(
            t,
            k + 1,
            start,
            end,
            if rot == RotationType::Double {
                RotationType::Double
            } else {
                RotationType::Inverse
            },
        )
    } else {
        Err(ParseError)
    }
}

/// The move denoted by token `t` on a cube of side `n`.  For the letters
/// of the negative faces the rotation is inverted and the depth range is
/// mirrored into the coordinates of the positive face: `start' = n - end`,
/// `end' = n - start`.  A token whose depth range does not fit the cube
/// fails the parse.
pub open spec fn spec_parse(t: Seq<char>, n: int) -> Result<Move, ParseError> {
    if t.len() == 0 {
        Err(ParseError)
    } else {
        match spec_letter_base(t[0]) {
            Err(e) => Err(e),
            Ok(base) => match spec_modifiers(t, 1, base.2, base.3, RotationType::Normal) {
                Err(e) => Err(e),
                Ok(st) => {
                    if st.1 > n {
                        Err(ParseError)
                    } else if base.1 {
                        Ok(
                            Move {
                                axis: base.0,
                                rotation_type: st.2.spec_inverse(),
                                start_depth: (n - st.1) as usize,
                                end_depth: (n - st.0) as usize,
                            },
                        )
                    } else {
                        Ok(
                            Move {
                                axis: base.0,
                                rotation_type: st.2,
                                start_depth: st.0 as usize,
                                end_depth: st.1 as usize,
                            },
                        )
                    }
                },
            },
        }
    }
}

/// The decimal digits of `v`, most significant first.
pub open spec fn spec_decimal(v: nat) -> Seq<char>
    decreases v,
{
    if v < 10 {
        seq![spec_digit_char(v as int)]
    } else {
        spec_decimal(v / 10) + seq![spec_digit_char((v % 10) as int)]
    }
}

/// The character of one decimal digit.
pub open spec fn spec_digit_char(d: int) -> char {
    if d == 0 {
        '0'
    } else if d == 1 {
        '1'
    } else if d == 2 {
        '2'
    } else if d == 3 {
        '3'
    } else if d == 4 {
        '4'
    } else if d == 5 {
        '5'
    } else if d == 6 {
        '6'
    } else if d == 7 {
        '7'
    } else if d == 8 {
        '8'
    } else {
        '9'
    }
}

/// The notation of `m` on a cube of side `n`.  The canonical depth ranges
/// print as face, wide, mirrored-face, mirrored-wide or slice tokens; for
/// the slice letters M and E the rotation suffix is inverted, since those
/// letters follow the negative face's convention.  Any other depth range
/// prints in a debug form naming the axis, the range and the rotation.
pub open spec fn spec_print(m: Move, n: int) -> Seq<char> {
    let s = m.start_depth as int;
    let e = m.end_depth as int;
    let pos = m.axis.spec_positive_face().spec_letter();
    let neg = m.axis.spec_negative_face().spec_letter();
    if s == 0 && e == 1 {
        seq![pos] + m.rotation_type.spec_suffix()
    } else if s == 0 && e == 2 {
        seq![pos, 'w'] + m.rotation_type.spec_suffix()
    } else if s == n - 1 && e == n {
        seq![neg] + m.rotation_type.spec_inverse().spec_suffix()
    } else if s == n - 2 && e == n {
        seq![neg, 'w'] + m.rotation_type.spec_inverse().spec_suffix()
    } else if m.axis == Axis::FB && s == 1 && e == 2 {
        seq!['S'] + m.rotation_type.spec_suffix()
    } else if m.axis != Axis::FB && s == n - 2 && e == n - 1 {
        seq![if m.axis == Axis::RL { 'M' } else { 'E' }]
            + m.rotation_type.spec_inverse().spec_suffix()
    } else {
        spec_axis_name(m.axis) + seq!['['] + spec_decimal(m.start_depth as nat) + seq![',']
            + spec_decimal(m.end_depth as nat) + seq![')'] + m.rotation_type.spec_suffix()
    }
}

/// The two-letter name of an axis, positive face first.
pub open spec fn spec_axis_name(a: Axis) -> Seq<char> {
    seq![a.spec_positive_face().spec_letter(), a.spec_negative_face().spec_letter()]
}

/// Whether the depth range of `m` is one of the canonical notation ranges
/// on a cube of side `n`: a face turn, a wide turn, their mirrored forms,
/// or the slice of `m`'s axis.
pub open spec fn canonical_range(m: Move, n: int) -> bool {
    let s = m.start_depth as int;
    let e = m.end_depth as int;
    ||| (s == 0 && e == 1)
    ||| (s == 0 && e == 2)
    ||| (s == n - 1 && e == n)
    ||| (s == n - 2 && e == n)
    ||| (m.axis == Axis::FB && s == 1 && e == 2)
    ||| (m.axis != Axis::FB && s == n - 2 && e == n - 1)
}

/// A move turns every layer with index in `[start_depth, end_depth)` about
/// `axis` by `rotation_type`.  Layer 0 is the layer against the axis's
/// positive face (F for FB, R for RL, U for UD); layer `n - 1` is against
/// the negative face.
///
/// `start_depth = 0, end_depth = 1` is an ordinary face turn;
/// `1, 2` is a slice turn on a three-layer cube; `0, 2` is a wide turn;
/// `2, 3` on a three-layer cube is a turn expressed relative to the far face.
#[derive(Debug, Clone, Copy, PartialEq, Eq, Structural)]
pub struct Move {
    pub axis: Axis,
    pub rotation_type: RotationType,
    pub start_depth: usize,
    pub end_depth: usize,
}

impl Move {
    /// Whether this move can be performed on a cube of side `n`: the depth
    /// range is non-empty and lies within the cube's layers.
    pub open spec fn spec_valid_for(self, n: int) -> bool {
        self.start_depth < self.end_depth <= n
    }

    /// Whether this move can be performed on a cube of side `n`: the depth
    /// range is non-empty and lies within the cube's layers.  A move that
    /// fails this test must be rejected before it reaches `Cube::perform`.
    pub fn is_valid_for(self, n: usize) -> (r: bool)
        ensures
            r == self.spec_valid_for(n as int),
    {
        self.start_depth < self.end_depth && self.end_depth <= n
    }

    /// The move that undoes this one: the same layers about the same axis,
    /// turned the opposite way.
    pub open spec fn spec_inverse(self) -> Move {
        Move {
            axis: self.axis,
            rotation_type: self.rotation_type.spec_inverse(),
            start_depth: self.start_depth,
            end_depth: self.end_depth,
        }
    }

    /// The move that undoes this one: the same layers about the same axis,
    /// turned the opposite way.
    pub fn inverse(self) -> (r: Move)
        ensures
            r == self.spec_inverse(),
    {
        Move {
            axis: self.axis,
            rotation_type: self.rotation_type.inverse(),
            start_depth: self.start_depth,
            end_depth: self.end_depth,
        }
    }

    /// Parses one notation token for a cube of side `n`.
    pub fn parse(s: &str, n: usize) -> (r: Result<Move, ParseError>)
        ensures
            r == spec_parse(s@, n as int),
    {
        let len = s.unicode_len();
        if len == 0 {
            return Err(ParseError);
        }
        let base = match letter_base(s.get_char(0)) {
            Err(e) => {
                return Err(e);
            },
            Ok(b) => b,
        };
        let (axis, mirrored, base_start, base_end) = base;
        let mut sd: usize = base_start;
        let mut ed: usize = base_end;
        let mut rot = RotationType::Normal;
        let mut k: usize = 1;
        while k < len
            invariant
                1 <= k <= len,
                len == s@.len(),
                0 <= sd <= 2,
                0 <= ed <= 2,
                sd < ed,
                spec_letter_base(s@[0]) == Ok::<(Axis, bool, int, int), ParseError>(
                    (axis, mirrored, base_start as int, base_end as int),
                ),
                spec_modifiers(s@, 1, base_start as int, base_end as int, RotationType::Normal)
                    == spec_modifiers(s@, k as int, sd as int, ed as int, rot),
            decreases len - k,
        {
            let c = s.get_char(k);
            if c == 'w' {
                ed = 2;
            } else if c == '2' {
                rot = RotationType::Double;
            } else if c == '\'' {
                if rot != RotationType::Double {
                    rot = RotationType::Inverse;
                }
            } else {
                return Err(ParseError);
            }
            k = k + 1;
        }
        if ed > n {
            Err(ParseError)
        } else if mirrored {
            Ok(
                Move {
                    axis,
                    rotation_type: rot.inverse(),
                    start_depth: n - ed,
                    end_depth: n - sd,
                },
            )
        } else {
            Ok(Move { axis, rotation_type: rot, start_depth: sd, end_depth: ed })
        }
    }

    /// Prints this move's notation for a cube of side `n`.
    pub fn to_notation(self, n: usize) -> (r: String)
        ensures
            r@ == spec_print(self, n as int),
    {
        let s = self.start_depth;
        let e = self.end_depth;
        let mut out = String::new();
        if s == 0 && e == 1 {
            out.append(face_letter_str(self.axis.positive_face()));
            out.append(suffix_str(self.rotation_type));
        } else if s == 0 && e == 2 {
            out.append(face_letter_str(self.axis.positive_face()));
            out.append(wide_str());
            out.append(suffix_str(self.rotation_type));
        } else if n >= 1 && s == n - 1 && e == n {
            out.append(face_letter_str(self.axis.negative_face()));
            out.append(suffix_str(self.rotation_type.inverse()));
        } else if n >= 2 && s == n - 2 && e == n {
            out.append(face_letter_str(self.axis.negative_face()));
            out.append(wide_str());
            out.append(suffix_str(self.rotation_type.inverse()));
        } else if matches!(self.axis, Axis::FB) && s == 1 && e == 2 {
            out.append(slice_fb_str());
            out.append(suffix_str(self.rotation_type));
        } else if !matches!(self.axis, Axis::FB) && n >= 2 && s == n - 2 && e == n - 1 {
            out.append(
                if matches!(self.axis, Axis::RL) {
                    slice_rl_str()
                } else {
                    slice_ud_str()
                },
            );
            out.append(suffix_str(self.rotation_type.inverse()));
        } else {
            out.append(face_letter_str(self.axis.positive_face()));
            out.append(face_letter_str(self.axis.negative_face()));
            out.append(open_bracket_str());
            let ds = decimal_str(s);
            out.append(ds.as_str());
            out.append(comma_str());
            let de = decimal_str(e);
            out.append(de.as_str());
            out.append(close_bracket_str());
            out.append(suffix_str(self.rotation_type));
            proof {
                assert(out@ =~= spec_print(self, n as int));
            }
        }
        proof {
            assert(out@ =~= spec_print(self, n as int));
        }
        out
    }
}

/// Parsing then printing reproduces a token exactly, for every axis and
/// rotation kind, whenever the move's depth range is canonical notation on
/// a cube of side `n`: printing is the left inverse of parsing there.
pub proof fn lemma_parse_print_roundtrip(m: Move, n: int)
    requires
        m.spec_valid_for(n),
        canonical_range(m, n),
    ensures
        spec_parse(spec_print(m, n), n) == Ok::<Move, ParseError>(m),
{
    reveal_with_fuel(spec_modifiers, 4);
    let t = spec_print(m, n);
    match m.rotation_type {
        RotationType::Normal => {
            assert(spec_parse(t, n) == Ok::<Move, ParseError>(m));
        },
        RotationType::Double => {
            assert(spec_parse(t, n) == Ok::<Move, ParseError>(m));
        },
        RotationType::Inverse => {
            assert(spec_parse(t, n) == Ok::<Move, ParseError>(m));
        },
    }
}

/// The base reading of a notation letter; see [`spec_letter_base`].
fn letter_base(c: char) -> (r: Result<(Axis, bool, usize, usize), ParseError>)
    ensures
        match r {
            Ok(b) => spec_letter_base(c) == Ok::<(Axis, bool, int, int), ParseError>(
                (b.0, b.1, b.2 as int, b.3 as int),
            ) && b.2 <= 2 && b.3 <= 2 && b.2 < b.3,
            Err(e) => spec_letter_base(c) == Err::<(Axis, bool, int, int), ParseError>(e),
        },
{
    if c == 'F' {
        Ok((Axis::FB, false, 0, 1))
    } else if c == 'f' {
        Ok((Axis::FB, false, 0, 2))
    } else if c == 'B' {
        Ok((Axis::FB, true, 0, 1))
    } else if c == 'b' {
        Ok((Axis::FB, true, 0, 2))
    } else if c == 'S' {
        Ok((Axis::FB, false, 1, 2))
    } else if c == 'R' {
        Ok((Axis::RL, false, 0, 1))
    } else if c == 'r' {
        Ok((Axis::RL, false, 0, 2))
    } else if c == 'L' {
        Ok((Axis::RL, true, 0, 1))
    } else if c == 'l' {
        Ok((Axis::RL, true, 0, 2))
    } else if c == 'M' {
        Ok((Axis::RL, true, 1, 2))
    } else if c == 'U' {
        Ok((Axis::UD, false, 0, 1))
    } else if c == 'u' {
        Ok((Axis::UD, false, 0, 2))
    } else if c == 'D' {
        Ok((Axis::UD, true, 0, 1))
    } else if c == 'd' {
        Ok((Axis::UD, true, 0, 2))
    } else if c == 'E' {
        Ok((Axis::UD, true, 1, 2))
    } else {
        Err(ParseError)
    }
}

/// The one-letter name of a face as a string slice.
fn face_letter_str(f: crate::primitives::FaceType) -> (r: &'static str)
    ensures
        r@ == seq![f.spec_letter()],
{
    proof {
        reveal_strlit("F");
        reveal_strlit("R");
        reveal_strlit("U");
        reveal_strlit("B");
        reveal_strlit("L");
        reveal_strlit("D");
    }
    let r = match f {
        crate::primitives::FaceType::F => "F",
        crate::primitives::FaceType::R => "R",
        crate::primitives::FaceType::U => "U",
        crate::primitives::FaceType::B => "B",
        crate::primitives::FaceType::L => "L",
        crate::primitives::FaceType::D => "D",
    };
    proof {
        assert(r@ =~= seq![f.spec_letter()]);
    }
    r
}

/// The notation suffix of a rotation: nothing, `2`, or `'`.
fn suffix_str(rot: RotationType) -> (r: &'static str)
    ensures
        r@ == rot.spec_suffix(),
{
    proof {
        reveal_strlit("");
        reveal_strlit("2");
        reveal_strlit("'");
    }
    let r = match rot {
        RotationType::Normal => "",
        RotationType::Double => "2",
        RotationType::Inverse => "'",
    };
    proof {
        assert(r@ =~= rot.spec_suffix());
    }
    r
}

/// The wide-move marker.
fn wide_str() -> (r: &'static str)
    ensures
        r@ == seq!['w'],
{
    proof {
        reveal_strlit("w");
        assert(("w")@ =~= seq!['w']);
    }
    "w"
}

/// The slice letter of the FB axis.
fn slice_fb_str() -> (r: &'static str)
    ensures
        r@ == seq!['S'],
{
    proof {
        reveal_strlit("S");
        assert(("S")@ =~= seq!['S']);
    }
    "S"
}

/// The slice letter of the RL axis.
fn slice_rl_str() -> (r: &'static str)
    ensures
        r@ == seq!['M'],
{
    proof {
        reveal_strlit("M");
        assert(("M")@ =~= seq!['M']);
    }
    "M"
}

/// The slice letter of the UD axis.
fn slice_ud_str() -> (r: &'static str)
    ensures
        r@ == seq!['E'],
{
    proof {
        reveal_strlit("E");
        assert(("E")@ =~= seq!['E']);
    }
    "E"
}

/// An opening bracket for the debug form.
fn open_bracket_str() -> (r: &'static str)
    ensures
        r@ == seq!['['],
{
    proof {
        reveal_strlit("[");
        assert(("[")@ =~= seq!['[']);
    }
    "["
}

/// A separating comma for the debug form.
fn comma_str() -> (r: &'static str)
    ensures
        r@ == seq![','],
{
    proof {
        reveal_strlit(",");
        assert((",")@ =~= seq![',']);
    }
    ","
}

/// A closing parenthesis for the debug form.
fn close_bracket_str() -> (r: &'static str)
    ensures
        r@ == seq![')'],
{
    proof {
        reveal_strlit(")");
        assert((")")@ =~= seq![')']);
    }
    ")"
}

/// The character of one decimal digit.
fn digit_str(d: usize) -> (r: &'static str)
    requires
        d < 10,
    ensures
        r@ == seq![spec_digit_char(d as int)],
{
    proof {
        reveal_strlit("0");
        reveal_strlit("1");
        reveal_strlit("2");
        reveal_strlit("3");
        reveal_strlit("4");
        reveal_strlit("5");
        reveal_strlit("6");
        reveal_strlit("7");
        reveal_strlit("8");
        reveal_strlit("9");
    }
    let r = if d == 0 {
        "0"
    } else if d == 1 {
        "1"
    } else if d == 2 {
        "2"
    } else if d == 3 {
        "3"
    } else if d == 4 {
        "4"
    } else if d == 5 {
        "5"
    } else if d == 6 {
        "6"
    } else if d == 7 {
        "7"
    } else if d == 8 {
        "8"
    } else {
        "9"
    };
    proof {
        assert(r@ =~= seq![spec_digit_char(d as int)]);
    }
    r
}

/// The decimal rendering of `v`, most significant digit first.
fn decimal_str(v: usize) -> (r: String)
    ensures
        r@ == spec_decimal(v as nat),
    decreases v,
{
    if v < 10 {
        let mut out = String::new();
        out.append(digit_str(v));
        proof {
            assert(out@ =~= spec_decimal(v as nat));
        }
        out
    } else {
        let mut out = decimal_str(v / 10);
        out.append(digit_str(v % 10));
        proof {
            assert(out@ =~= spec_decimal(v as nat));
        }
        out
    }
}

} // verus!
