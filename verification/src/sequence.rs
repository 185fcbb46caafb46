//! Ordered sequences of moves: composition, inversion and canonicalisation.
//!
//! Canonicalisation rewrites a sequence into an equivalent shorter one.
//! Moves that share an axis commute, so each maximal run of consecutive
//! same-axis moves is replaced as a whole: the signed quarter turns applied
//! to each layer are accumulated, reduced modulo 4, and contiguous layer
//! ranges with one and the same net rotation are coalesced into single wide
//! moves, emitted in ascending depth order.  Moves are never reordered
//! across an axis change.

use vstd::prelude::*;
use vstd::string::*;
use vstd::arithmetic::div_mod::lemma_add_mod_noop;
use crate::moves::Move;
use crate::primitives::Axis;
use crate::primitives::ParseError;
use crate::primitives::RotationType;

verus! {

/// The length of the maximal prefix of `s` whose moves all share the axis
/// of `s[0]`.
pub open spec fn run_len(s: Seq<Move>) -> nat
    decreases s.len(),
{
    if s.len() == 0 {
        0
    } else if s.len() == 1 {
        1
    } else if s[1].axis == s[0].axis {
        (1 + run_len(s.skip(1))) as nat
    } else {
        1
    }
}

/// The net signed quarter-turn count that the moves of `s` apply to layer
/// `d` of their axis: +1 for Normal, +2 for Double, -1 for Inverse, for
/// each move whose depth range holds `d`.
pub open spec fn layer_quarters(s: Seq<Move>, d: int) -> int
    decreases s.len(),
{
    if s.len() == 0 {
        0
    } else {
        (if s[0].start_depth <= d < s[0].end_depth {
            s[0].rotation_type.spec_signed_quarters()
        } else {
            0
        }) + layer_quarters(s.skip(1), d)
    }
}

/// The net quarter-turn count on layer `d`, reduced modulo 4: 0 to 3.
pub open spec fn layer_residue(s: Seq<Move>, d: int) -> int {
    layer_quarters(s, d) % 4
}

/// The rotation performing `r` clockwise quarter turns, for `r` in 1 to 3.
pub open spec fn rot_of_residue(r: int) -> RotationType {
    if r == 1 {
        RotationType::Normal
    } else if r == 2 {
        RotationType::Double
    } else {
        RotationType::Inverse
    }
}

/// One past the deepest layer any move of `s` touches.
pub open spec fn max_end(s: Seq<Move>) -> nat
    decreases s.len(),
{
    if s.len() == 0 {
        0
    } else {
        let rest = max_end(s.skip(1));
        if s[0].end_depth >= rest {
            s[0].end_depth as nat
        } else {
            rest
        }
    }
}

/// The end of the group of consecutive layers starting at `d` that share
/// the net rotation of layer `d`: the first index after `d` at which the
/// residue changes, or `hi`.
pub open spec fn group_end(s: Seq<Move>, d: int, hi: int) -> int
    decreases hi - d,
{
    if d + 1 >= hi {
        hi
    } else if layer_residue(s, d + 1) == layer_residue(s, d) {
        group_end(s, d + 1, hi)
    } else {
        d + 1
    }
}

/// The coalesced moves for the layers `[d, hi)` of a same-axis run `s`
/// about `a`: one move per maximal contiguous layer group with one and the
/// same non-zero net rotation, in ascending depth order.
pub open spec fn coalesce(s: Seq<Move>, a: Axis, d: int, hi: int) -> Seq<Move>
    decreases hi - d,
    when d < hi ==> d < group_end(s, d, hi) <= hi
{
    if d >= hi {
        Seq::<Move>::empty()
    } else {
        let r = layer_residue(s, d);
        let e = group_end(s, d, hi);
        if r == 0 {
            coalesce(s, a, e, hi)
        } else {
            seq![
                Move {
                    axis: a,
                    rotation_type: rot_of_residue(r),
                    start_depth: d as usize,
                    end_depth: e as usize,
                },
            ] + coalesce(s, a, e, hi)
        }
    }
}

/// The canonical replacement of one maximal same-axis run.
pub open spec fn canon_run(s: Seq<Move>) -> Seq<Move> {
    if s.len() == 0 {
        Seq::<Move>::empty()
    } else {
        coalesce(s, s[0].axis, 0, max_end(s) as int)
    }
}

/// The canonicalisation of a move sequence: each maximal same-axis run is
/// replaced by its coalesced form, in the original run order.
pub open spec fn spec_canonicalise(s: Seq<Move>) -> Seq<Move>
    decreases s.len(),
    via spec_canonicalise_decreases
{
    if s.len() == 0 {
        Seq::<Move>::empty()
    } else {
        let rl = run_len(s) as int;
        canon_run(s.take(rl)) + spec_canonicalise(s.skip(rl))
    }
}

#[via_fn]
proof fn spec_canonicalise_decreases(s: Seq<Move>) {
    lemma_run_len_bounds(s);
}

/// The inversion of a move sequence: the moves in reverse order, each
/// inverted.
pub open spec fn spec_sequence_inverse(s: Seq<Move>) -> Seq<Move> {
    Seq::new(s.len(), |i: int| s[s.len() - 1 - i].spec_inverse())
}

/// A non-empty sequence has a non-empty maximal run, no longer than the
/// sequence, and every move of the run shares the first move's axis.
pub proof fn lemma_run_len_bounds(s: Seq<Move>)
    ensures
        s.len() > 0 ==> 1 <= run_len(s) <= s.len(),
        forall|i: int| 0 <= i < run_len(s) ==> (#[trigger] s[i]).axis == s[0].axis,
        run_len(s) < s.len() ==> s[run_len(s) as int].axis != s[0].axis,
    decreases s.len(),
{
    if s.len() <= 1 {
    } else if s[1].axis == s[0].axis {
        lemma_run_len_bounds(s.skip(1));
        assert forall|i: int| 0 <= i < run_len(s) implies (#[trigger] s[i]).axis == s[0].axis by {
            if i >= 1 {
                assert(s.skip(1)[i - 1] == s[i]);
            }
        }
        if run_len(s) < s.len() {
            assert(s.skip(1)[run_len(s) - 1] == s[run_len(s) as int]);
        }
    }
}

/// `group_end` lies strictly beyond `d`, at most at `hi`, the residues up
/// to it equal the residue at `d`, and it is maximal with that property.
pub proof fn lemma_group_end_bounds(s: Seq<Move>, d: int, hi: int)
    requires
        d < hi,
    ensures
        d < group_end(s, d, hi) <= hi,
        forall|x: int| d <= x < group_end(s, d, hi) ==> layer_residue(s, x) == layer_residue(s, d),
        group_end(s, d, hi) < hi ==> layer_residue(s, group_end(s, d, hi)) != layer_residue(s, d),
    decreases hi - d,
{
    if d + 1 >= hi {
    } else if layer_residue(s, d + 1) == layer_residue(s, d) {
        lemma_group_end_bounds(s, d + 1, hi);
    }
}

/// The properties of `lemma_group_end_bounds` determine `group_end`.
pub proof fn lemma_group_end_characterize(s: Seq<Move>, d: int, hi: int, e: int)
    requires
        d < e <= hi,
        forall|x: int| d <= x < e ==> layer_residue(s, x) == layer_residue(s, d),
        e < hi ==> layer_residue(s, e) != layer_residue(s, d),
    ensures
        group_end(s, d, hi) == e,
    decreases hi - d,
{
    if d + 1 >= hi {
    } else if layer_residue(s, d + 1) == layer_residue(s, d) {
        assert(e > d + 1) by {
            if e == d + 1 {
                assert(layer_residue(s, d + 1) != layer_residue(s, d));
            }
        }
        lemma_group_end_characterize(s, d + 1, hi, e);
    }
}

/// The properties of `lemma_run_len_bounds` determine `run_len`.
pub proof fn lemma_run_len_characterize(s: Seq<Move>, k: int)
    requires
        1 <= k <= s.len(),
        forall|i: int| 0 <= i < k ==> (#[trigger] s[i]).axis == s[0].axis,
        k < s.len() ==> s[k].axis != s[0].axis,
    ensures
        run_len(s) == k,
    decreases s.len(),
{
    if k == 1 {
        if s.len() > 1 {
            assert(s[1].axis != s[0].axis);
        }
    } else {
        assert(s[1].axis == s[0].axis);
        let t = s.skip(1);
        assert forall|i: int| 0 <= i < k - 1 implies (#[trigger] t[i]).axis == t[0].axis by {
            assert(t[i] == s[i + 1]);
            assert(t[0] == s[1]);
        }
        if k - 1 < t.len() {
            assert(t[k - 1] == s[k]);
        }
        lemma_run_len_characterize(t, k - 1);
    }
}

/// Layer quarter counts add over concatenation.
pub proof fn lemma_layer_quarters_append(s1: Seq<Move>, s2: Seq<Move>, d: int)
    ensures
        layer_quarters(s1 + s2, d) == layer_quarters(s1, d) + layer_quarters(s2, d),
    decreases s1.len(),
{
    if s1.len() == 0 {
        assert(s1 + s2 =~= s2);
    } else {
        assert((s1 + s2).skip(1) =~= s1.skip(1) + s2);
        lemma_layer_quarters_append(s1.skip(1), s2, d);
    }
}

/// The deepest touched layer of a concatenation is the deeper of the two.
pub proof fn lemma_max_end_append(s1: Seq<Move>, s2: Seq<Move>)
    ensures
        max_end(s1 + s2) == if max_end(s1) >= max_end(s2) {
            max_end(s1)
        } else {
            max_end(s2)
        },
    decreases s1.len(),
{
    if s1.len() == 0 {
        assert(s1 + s2 =~= s2);
    } else {
        assert((s1 + s2).skip(1) =~= s1.skip(1) + s2);
        lemma_max_end_append(s1.skip(1), s2);
    }
}

/// No move of `s` reaches past `max_end(s)`.
pub proof fn lemma_max_end_covers(s: Seq<Move>)
    ensures
        forall|k: int| 0 <= k < s.len() ==> (#[trigger] s[k]).end_depth <= max_end(s),
    decreases s.len(),
{
    if s.len() > 0 {
        lemma_max_end_covers(s.skip(1));
        assert forall|k: int| 0 <= k < s.len() implies (#[trigger] s[k]).end_depth <= max_end(
            s,
        ) by {
            if k >= 1 {
                assert(s.skip(1)[k - 1] == s[k]);
            }
        }
    }
}

/// An ordered list of moves, read left to right as application order.
#[derive(Debug, Clone)]
pub struct MoveSequence {
    moves: Vec<Move>,
}

impl View for MoveSequence {
    type V = Seq<Move>;

    closed spec fn view(&self) -> Seq<Move> {
        self.moves@
    }
}

impl MoveSequence {
    /// The empty sequence.
    pub fn new() -> (r: MoveSequence)
        ensures
            r@ == Seq::<Move>::empty(),
    {
        let r = MoveSequence { moves: Vec::new() };
        proof {
            assert(r@ =~= Seq::<Move>::empty());
        }
        r
    }

    /// The sequence holding exactly `moves`, in order.
    pub fn from_moves(moves: Vec<Move>) -> (r: MoveSequence)
        ensures
            r@ == moves@,
    {
        MoveSequence { moves }
    }

    /// The number of moves.
    pub fn len(&self) -> (r: usize)
        ensures
            r == self@.len(),
    {
        self.moves.len()
    }

    /// The move at position `i`.
    pub fn get(&self, i: usize) -> (r: Move)
        requires
            i < self@.len(),
        ensures
            r == self@[i as int],
    {
        self.moves[i]
    }

    /// Appends one move at the end.
    pub fn push(&mut self, m: Move)
        ensures
            final(self)@ == old(self)@.push(m),
    {
        self.moves.push(m);
    }

    /// Composition: `a.op(b)` means "perform `b`, then `a`", so the result
    /// holds `b`'s moves followed by `a`'s.
    pub fn op(self, other: MoveSequence) -> (r: MoveSequence)
        ensures
            r@ == other@ + self@,
    {
        let mut moves = other.moves;
        let mut own = self.moves;
        moves.append(&mut own);
        MoveSequence { moves }
    }

    /// The sequence that undoes this one: the moves in reverse order, each
    /// inverted.
    pub fn inverse(&self) -> (r: MoveSequence)
        ensures
            r@ == spec_sequence_inverse(self@),
    {
        let n = self.moves.len();
        let mut moves: Vec<Move> = Vec::new();
        let mut k: usize = 0;
        while k < n
            invariant
                k <= n,
                n == self@.len(),
                moves@.len() == k,
                forall|i: int| 0 <= i < k ==> moves@[i] == self@[n - 1 - i].spec_inverse(),
            decreases n - k,
        {
            moves.push(self.moves[n - 1 - k].inverse());
            k = k + 1;
        }
        let r = MoveSequence { moves };
        proof {
            assert(r@ =~= spec_sequence_inverse(self@));
        }
        r
    }

    /// Whether every move of the sequence is valid for a cube of side `n`.
    pub open spec fn spec_valid_for(self, n: int) -> bool {
        forall|i: int| 0 <= i < self@.len() ==> (#[trigger] self@[i]).spec_valid_for(n)
    }

    /// Whether every move of the sequence is valid for a cube of side `n`.
    pub fn is_valid_for(&self, n: usize) -> (r: bool)
        ensures
            r == self.spec_valid_for(n as int),
    {
        let mut k: usize = 0;
        let mut ok = true;
        while k < self.moves.len()
            invariant
                k <= self@.len(),
                ok == (forall|i: int| 0 <= i < k ==> (#[trigger] self@[i]).spec_valid_for(n as int)),
            decreases self@.len() - k,
        {
            if !self.moves[k].is_valid_for(n) {
                ok = false;
            }
            k = k + 1;
        }
        ok
    }

    /// Parses a text of move notation tokens separated by single spaces,
    /// for a cube of side `n`.  An empty text parses to the empty
    /// sequence; any bad token fails the whole parse.
    pub fn parse(s: &str, n: usize) -> (r: Result<MoveSequence, ParseError>)
        ensures
            match r {
                Ok(ms) => spec_parse_sequence(s@, n as int) == Ok::<Seq<Move>, ParseError>(ms@),
                Err(e) => spec_parse_sequence(s@, n as int) == Err::<Seq<Move>, ParseError>(e),
            },
    {
        let len = s.unicode_len();
        let mut moves: Vec<Move> = Vec::new();
        let mut pos: usize = 0;
        if len == 0 {
            proof {
                assert(moves@ =~= Seq::<Move>::empty());
            }
            return Ok(MoveSequence { moves });
        }
        proof {
            assert(s@.skip(0) =~= s@);
            match spec_parse_sequence(s@, n as int) {
                Ok(rest) => {
                    assert(moves@ + rest =~= rest);
                },
                Err(_) => {},
            }
        }
        while pos < len
            invariant
                pos <= len,
                len == s@.len(),
                match spec_parse_sequence(s@.skip(pos as int), n as int) {
                    Ok(rest) => spec_parse_sequence(s@, n as int) == Ok::<Seq<Move>, ParseError>(
                        moves@ + rest,
                    ),
                    Err(e) => spec_parse_sequence(s@, n as int) == Err::<Seq<Move>, ParseError>(e),
                },
            decreases len - pos,
        {
            let ghost tail = s@.skip(pos as int);
            let mut k: usize = pos;
            while k < len && s.get_char(k) != ' '
                invariant
                    pos <= k <= len,
                    len == s@.len(),
                    forall|x: int| pos <= x < k ==> s@[x] != ' ',
                decreases len - k,
            {
                k = k + 1;
            }
            proof {
                assert forall|x: int| 0 <= x < k - pos implies tail[x] != ' ' by {
                    assert(tail[x] == s@[pos + x]);
                }
                if k < len {
                    assert(tail[k - pos] == s@[k as int]);
                }
                lemma_first_space_characterize(tail, 0, k - pos);
            }
            let token = s.substring_char(pos, k);
            proof {
                assert(token@ =~= tail.take(k - pos));
            }
            let m = match Move::parse(token, n) {
                Ok(m) => m,
                Err(e) => {
                    return Err(e);
                },
            };
            let ghost before_push = moves@;
            moves.push(m);
            proof {
                assert(moves@ =~= before_push + seq![m]);
            }
            if k == len {
                proof {
                    assert(spec_parse_sequence(tail, n as int) == Ok::<Seq<Move>, ParseError>(
                        seq![m],
                    ));
                    assert(s@.skip(len as int) =~= Seq::<char>::empty());
                    assert(spec_parse_sequence(Seq::<char>::empty(), n as int)
                        == Ok::<Seq<Move>, ParseError>(Seq::<Move>::empty()));
                    assert(before_push + seq![m] =~= moves@ + Seq::<Move>::empty());
                }
                pos = len;
            } else {
                proof {
                    assert(tail.skip(k - pos + 1) =~= s@.skip(k as int + 1));
                    match spec_parse_sequence(s@.skip(k as int + 1), n as int) {
                        Ok(rest) => {
                            assert(spec_parse_sequence(tail, n as int)
                                == Ok::<Seq<Move>, ParseError>(seq![m] + rest));
                            assert(before_push + (seq![m] + rest) =~= moves@ + rest);
                        },
                        Err(_) => {},
                    }
                }
                pos = k + 1;
            }
        }
        proof {
            assert(s@.skip(len as int) =~= Seq::<char>::empty());
            assert(moves@ =~= moves@ + Seq::<Move>::empty());
        }
        Ok(MoveSequence { moves })
    }

    /// Prints the whole sequence's notation for a cube of side `n`, the
    /// tokens separated by single spaces.
    pub fn to_notation(&self, n: usize) -> (r: String)
        ensures
            r@ == spec_print_sequence(self@, n as int),
    {
        let len = self.moves.len();
        let mut out = String::new();
        let mut k: usize = 0;
        proof {
            assert(out@ =~= spec_print_upto(self@, n as int, 0));
        }
        while k < len
            invariant
                k <= len,
                len == self@.len(),
                out@ == spec_print_upto(self@, n as int, k as int),
            decreases len - k,
        {
            if k > 0 {
                out.append(space_str());
            }
            let token = self.moves[k].to_notation(n);
            out.append(token.as_str());
            proof {
                assert(out@ =~= spec_print_upto(self@, n as int, k as int + 1));
            }
            k = k + 1;
        }
        out
    }

    /// The canonical equivalent of this sequence: per maximal same-axis
    /// run, the net per-layer quarter turns are accumulated, reduced
    /// modulo 4, and contiguous layers with one and the same net rotation
    /// are coalesced into single moves, emitted in ascending depth order.
    pub fn canonicalise(&self) -> (r: MoveSequence)
        ensures
            r@ == spec_canonicalise(self@),
    {
        let len = self.moves.len();
        let mut out: Vec<Move> = Vec::new();
        let mut idx: usize = 0;
        proof {
            assert(self@.skip(0) =~= self@);
            assert(Seq::<Move>::empty() + spec_canonicalise(self@) =~= spec_canonicalise(self@));
        }
        while idx < len
            invariant
                idx <= len,
                len == self@.len(),
                spec_canonicalise(self@) == out@ + spec_canonicalise(self@.skip(idx as int)),
            decreases len - idx,
        {
            let a0 = self.moves[idx].axis;
            let mut end_run: usize = idx + 1;
            while end_run < len && self.moves[end_run].axis == a0
                invariant
                    len == self@.len(),
                    idx < end_run <= len,
                    a0 == self@[idx as int].axis,
                    forall|x: int| idx <= x < end_run ==> (#[trigger] self@[x]).axis == a0,
                decreases len - end_run,
            {
                end_run = end_run + 1;
            }
            let mut run: Vec<Move> = Vec::new();
            let mut k: usize = idx;
            while k < end_run
                invariant
                    idx <= k <= end_run <= len,
                    len == self@.len(),
                    run@.len() == k - idx,
                    forall|x: int| 0 <= x < k - idx ==> run@[x] == self@[idx + x],
                decreases end_run - k,
            {
                run.push(self.moves[k]);
                k = k + 1;
            }
            proof {
                let tail = self@.skip(idx as int);
                assert(run@ =~= tail.take(end_run - idx));
                assert forall|i: int| 0 <= i < end_run - idx implies (#[trigger] tail[i]).axis
                    == tail[0].axis by {
                    assert(tail[i] == self@[idx + i]);
                    assert(tail[0] == self@[idx as int]);
                }
                if end_run - idx < tail.len() {
                    assert(tail[end_run - idx] == self@[end_run as int]);
                }
                lemma_run_len_characterize(tail, end_run - idx);
            }
            let cr = canon_run_exec(&run, a0);
            let mut cr2 = cr;
            proof {
                let tail = self@.skip(idx as int);
                let rl = run_len(tail) as int;
                assert(spec_canonicalise(tail) == canon_run(tail.take(rl)) + spec_canonicalise(
                    tail.skip(rl),
                ));
                assert(tail.skip(rl) =~= self@.skip(end_run as int));
                assert(out@ + (cr2@ + spec_canonicalise(self@.skip(end_run as int))) =~= (out@
                    + cr2@) + spec_canonicalise(self@.skip(end_run as int)));
            }
            out.append(&mut cr2);
            idx = end_run;
        }
        proof {
            assert(self@.skip(len as int) =~= Seq::<Move>::empty());
            assert(out@ =~= out@ + spec_canonicalise(self@.skip(len as int)));
        }
        let r = MoveSequence { moves: out };
        r
    }
}

/// The position of the first space at or after `k` in `t`, or `t.len()`.
pub open spec fn first_space(t: Seq<char>, k: int) -> int
    decreases t.len() - k,
{
    if k >= t.len() {
        t.len() as int
    } else if t[k] == ' ' {
        k
    } else {
        first_space(t, k + 1)
    }
}

/// The moves denoted by a text of notation tokens separated by single
/// spaces, for a cube of side `n`.  An empty text denotes no moves; any
/// token that fails the move grammar fails the whole parse.
pub open spec fn spec_parse_sequence(t: Seq<char>, n: int) -> Result<Seq<Move>, ParseError>
    decreases t.len(),
    via spec_parse_sequence_decreases
{
    if t.len() == 0 {
        Ok(Seq::<Move>::empty())
    } else {
        let k = first_space(t, 0);
        match crate::moves::spec_parse(t.take(k), n) {
            Err(e) => Err(e),
            Ok(m) => if k == t.len() {
                Ok(seq![m])
            } else {
                match spec_parse_sequence(t.skip(k + 1), n) {
                    Err(e) => Err(e),
                    Ok(rest) => Ok(seq![m] + rest),
                }
            },
        }
    }
}

#[via_fn]
proof fn spec_parse_sequence_decreases(t: Seq<char>, n: int) {
    lemma_first_space_bounds(t, 0);
}

/// `first_space` lies between `k` and the text's length, everything before
/// it is not a space, and it points at a space unless it is the length.
pub proof fn lemma_first_space_bounds(t: Seq<char>, k: int)
    requires
        0 <= k <= t.len(),
    ensures
        k <= first_space(t, k) <= t.len(),
        forall|x: int| k <= x < first_space(t, k) ==> t[x] != ' ',
        first_space(t, k) < t.len() ==> t[first_space(t, k)] == ' ',
    decreases t.len() - k,
{
    if k >= t.len() {
    } else if t[k] == ' ' {
    } else {
        lemma_first_space_bounds(t, k + 1);
    }
}

/// The properties of `lemma_first_space_bounds` determine `first_space`.
pub proof fn lemma_first_space_characterize(t: Seq<char>, k: int, e: int)
    requires
        0 <= k <= e <= t.len(),
        forall|x: int| k <= x < e ==> t[x] != ' ',
        e < t.len() ==> t[e] == ' ',
    ensures
        first_space(t, k) == e,
    decreases t.len() - k,
{
    if k >= t.len() {
    } else if t[k] == ' ' {
        assert(k == e);
    } else {
        lemma_first_space_characterize(t, k + 1, e);
    }
}

/// The notation of the first `k` moves of `s`, separated by single spaces.
pub open spec fn spec_print_upto(s: Seq<Move>, n: int, k: int) -> Seq<char>
    decreases k,
{
    if k <= 0 {
        Seq::<char>::empty()
    } else if k == 1 {
        crate::moves::spec_print(s[0], n)
    } else {
        spec_print_upto(s, n, k - 1) + seq![' '] + crate::moves::spec_print(s[k - 1], n)
    }
}

/// The notation of a whole move sequence, tokens separated by single
/// spaces.
pub open spec fn spec_print_sequence(s: Seq<Move>, n: int) -> Seq<char> {
    spec_print_upto(s, n, s.len() as int)
}

impl crate::algebra::Magma for MoveSequence {
    fn op(self, other: Self) -> Self {
        MoveSequence::op(self, other)
    }
}

impl crate::algebra::Semigroup for MoveSequence {

}

impl crate::algebra::InverseSemigroup for MoveSequence {
    fn inverse(self) -> Self {
        MoveSequence::inverse(&self)
    }
}

/// Sequence composition is associative: the moves concatenate either way.
pub proof fn lemma_sequence_op_associative(a: Seq<Move>, b: Seq<Move>, c: Seq<Move>)
    ensures
        (a + b) + c == a + (b + c),
{
    assert((a + b) + c =~= a + (b + c));
}

/// Inverting a sequence twice gives the sequence back.
pub proof fn lemma_sequence_inverse_involution(s: Seq<Move>)
    ensures
        spec_sequence_inverse(spec_sequence_inverse(s)) == s,
{
    assert(spec_sequence_inverse(spec_sequence_inverse(s)) =~= s);
}

/// A single separating space of sequence notation.
fn space_str() -> (r: &'static str)
    ensures
        r@ == seq![' '],
{
    proof {
        reveal_strlit(" ");
        assert((" ")@ =~= seq![' ']);
    }
    " "
}

/// The rotation that performs a non-zero residue of quarter turns.
fn rot_of_exec(r: u8) -> (rt: RotationType)
    requires
        1 <= r <= 3,
    ensures
        rt == rot_of_residue(r as int),
{
    if r == 1 {
        RotationType::Normal
    } else if r == 2 {
        RotationType::Double
    } else {
        RotationType::Inverse
    }
}

/// The coalesced replacement of one same-axis run `run` about `a`.
fn canon_run_exec(run: &Vec<Move>, a: Axis) -> (out: Vec<Move>)
    requires
        run@.len() > 0,
        a == run@[0].axis,
    ensures
        out@ == canon_run(run@),
{
    // One past the deepest layer any move touches.
    let mut m: usize = 0;
    let mut k: usize = 0;
    while k < run.len()
        invariant
            k <= run@.len(),
            m == max_end(run@.take(k as int)),
        decreases run@.len() - k,
    {
        proof {
            assert(run@.take(k as int + 1) =~= run@.take(k as int) + seq![run@[k as int]]);
            lemma_max_end_append(run@.take(k as int), seq![run@[k as int]]);
            assert(seq![run@[k as int]].skip(1) =~= Seq::<Move>::empty());
            assert(max_end(Seq::<Move>::empty()) == 0);
            assert(max_end(seq![run@[k as int]]) == run@[k as int].end_depth as nat);
        }
        if run[k].end_depth > m {
            m = run[k].end_depth;
        }
        k = k + 1;
    }
    proof {
        assert(run@.take(run@.len() as int) =~= run@);
    }
    // The net quarter-turn residue of each layer.
    let mut counts: Vec<u8> = Vec::new();
    let mut d: usize = 0;
    while d < m
        invariant
            d <= m,
            counts@.len() == d,
            forall|x: int| 0 <= x < d ==> counts@[x] == 0,
        decreases m - d,
    {
        counts.push(0);
        d = d + 1;
    }
    proof {
        assert forall|x: int| 0 <= x < m implies counts@[x] as int == layer_residue(
            run@.take(0),
            x,
        ) by {
            assert(run@.take(0) =~= Seq::<Move>::empty());
        }
    }
    let mut k: usize = 0;
    while k < run.len()
        invariant
            k <= run@.len(),
            counts@.len() == m,
            max_end(run@) == m,
            forall|x: int| 0 <= x < m ==> 0 <= #[trigger] counts@[x] < 4,
            forall|x: int|
                0 <= x < m ==> counts@[x] as int == layer_residue(run@.take(k as int), x),
        decreases run@.len() - k,
    {
        let mv = run[k];
        proof {
            lemma_max_end_covers(run@);
        }
        let q = mv.rotation_type.quarters();
        let mut d: usize = mv.start_depth;
        while d < mv.end_depth
            invariant
                k < run@.len(),
                mv == run@[k as int],
                mv.start_depth <= d,
                mv.end_depth <= m,
                d <= mv.end_depth || d == mv.start_depth,
                q == mv.rotation_type.spec_quarters(),
                counts@.len() == m,
                max_end(run@) == m,
                forall|x: int| 0 <= x < m ==> 0 <= #[trigger] counts@[x] < 4,
                forall|x: int|
                    0 <= x < m ==> counts@[x] as int == if mv.start_depth <= x < d {
                        layer_residue(run@.take(k as int + 1), x)
                    } else {
                        layer_residue(run@.take(k as int), x)
                    },
            decreases mv.end_depth - d,
        {
            let c = counts[d];
            proof {
                assert(run@.take(k as int + 1) =~= run@.take(k as int) + seq![run@[k as int]]);
                lemma_layer_quarters_append(run@.take(k as int), seq![run@[k as int]], d as int);
                assert(seq![mv].skip(1) =~= Seq::<Move>::empty());
                assert(layer_quarters(Seq::<Move>::empty(), d as int) == 0);
                assert(layer_quarters(seq![mv], d as int) == mv.rotation_type.spec_signed_quarters());
                lemma_add_mod_noop(
                    layer_quarters(run@.take(k as int), d as int),
                    mv.rotation_type.spec_signed_quarters(),
                    4,
                );
                assert(mv.rotation_type.spec_signed_quarters() % 4 == q as int);
            }
            counts[d] = (c + q) % 4;
            d = d + 1;
        }
        proof {
            assert forall|x: int| 0 <= x < m implies counts@[x] as int == layer_residue(
                run@.take(k as int + 1),
                x,
            ) by {
                if !(mv.start_depth <= x < d) {
                    assert(run@.take(k as int + 1) =~= run@.take(k as int) + seq![run@[k as int]]);
                    lemma_layer_quarters_append(run@.take(k as int), seq![run@[k as int]], x);
                    assert(seq![mv].skip(1) =~= Seq::<Move>::empty());
                    assert(layer_quarters(Seq::<Move>::empty(), x) == 0);
                    assert(layer_quarters(seq![mv], x) == 0);
                }
            }
        }
        k = k + 1;
    }
    proof {
        assert(run@.take(run@.len() as int) =~= run@);
    }
    // Coalesce contiguous layers that share a non-zero net rotation.
    let mut outv: Vec<Move> = Vec::new();
    let mut d: usize = 0;
    proof {
        if 0 < m {
            lemma_group_end_bounds(run@, 0, m as int);
        }
        assert(coalesce(run@, a, 0, m as int) =~= Seq::<Move>::empty() + coalesce(
            run@,
            a,
            0,
            m as int,
        ));
    }
    while d < m
        invariant
            d <= m,
            counts@.len() == m,
            forall|x: int| 0 <= x < m ==> 0 <= #[trigger] counts@[x] < 4,
            forall|x: int| 0 <= x < m ==> counts@[x] as int == layer_residue(run@, x),
            coalesce(run@, a, 0, m as int) == outv@ + coalesce(run@, a, d as int, m as int),
        decreases m - d,
    {
        let rc = counts[d];
        let mut e2: usize = d + 1;
        while e2 < m && counts[e2] == rc
            invariant
                d < e2 <= m,
                counts@.len() == m,
                rc == counts@[d as int],
                forall|x: int| 0 <= x < m ==> counts@[x] as int == layer_residue(run@, x),
                forall|x: int| d <= x < e2 ==> layer_residue(run@, x) == layer_residue(
                    run@,
                    d as int,
                ),
            decreases m - e2,
        {
            e2 = e2 + 1;
        }
        proof {
            lemma_group_end_characterize(run@, d as int, m as int, e2 as int);
            lemma_group_end_bounds(run@, d as int, m as int);
            if e2 < m {
                lemma_group_end_bounds(run@, e2 as int, m as int);
            }
        }
        let ghost before = outv@;
        if rc != 0 {
            let rt = rot_of_exec(rc);
            outv.push(
                Move { axis: a, rotation_type: rt, start_depth: d, end_depth: e2 },
            );
        }
        proof {
            let gd = d as int;
            let gm = m as int;
            let grp = coalesce(run@, a, gd, gm);
            let rest = coalesce(run@, a, e2 as int, gm);
            if rc != 0 {
                assert(grp == seq![
                    Move {
                        axis: a,
                        rotation_type: rot_of_residue(layer_residue(run@, gd)),
                        start_depth: gd as usize,
                        end_depth: group_end(run@, gd, gm) as usize,
                    },
                ] + rest);
                assert(outv@ =~= before + seq![
                    Move {
                        axis: a,
                        rotation_type: rot_of_residue(layer_residue(run@, gd)),
                        start_depth: gd as usize,
                        end_depth: group_end(run@, gd, gm) as usize,
                    },
                ]);
            } else {
                assert(grp == rest);
            }
            assert(before + grp =~= outv@ + rest);
        }
        d = e2;
    }
    proof {
        assert(coalesce(run@, a, m as int, m as int) == Seq::<Move>::empty());
        assert(outv@ =~= outv@ + coalesce(run@, a, m as int, m as int));
        assert(canon_run(run@) == coalesce(run@, a, 0, m as int));
    }
    outv
}

} // verus!
