//! The laws that tie the move algebra to the turn geometry: a same-axis
//! run acts on each layer only through its net quarter-turn count modulo 4,
//! and canonicalising a sequence therefore preserves its effect on every
//! cube.

use vstd::prelude::*;
use vstd::arithmetic::div_mod::lemma_add_mod_noop;
use vstd::arithmetic::div_mod::lemma_mod_add_multiples_vanish;
use crate::model::CubeGrid;
use crate::model::axis_layer;
use crate::model::face_of_index;
use crate::model::grid_after_move;
use crate::model::grid_after_moves;
use crate::model::grid_wf;
use crate::model::lemma_after_move_wf;
use crate::model::lemma_after_moves_append;
use crate::model::lemma_face_index_roundtrip;
use crate::model::lemma_grid_quarters_pointwise;
use crate::model::lemma_turn_src_four;
use crate::model::lemma_turn_src_k_add;
use crate::model::lemma_turn_src_k_props;
use crate::model::turn_src_k;
use crate::moves::Move;
use crate::primitives::Axis;
use crate::sequence::canon_run;
use crate::sequence::coalesce;
use crate::sequence::group_end;
use crate::sequence::layer_quarters;
use crate::sequence::layer_residue;
use crate::sequence::lemma_group_end_bounds;
use crate::sequence::lemma_layer_quarters_append;
use crate::sequence::lemma_run_len_bounds;
use crate::sequence::max_end;
use crate::sequence::rot_of_residue;
use crate::sequence::run_len;
use crate::sequence::spec_canonicalise;
use crate::sequence::spec_sequence_inverse;

verus! {

/// Performing a list of moves keeps a grid well formed.
pub proof fn lemma_after_moves_wf(c: CubeGrid, n: int, s: Seq<Move>)
    requires
        grid_wf(c, n),
        n >= 1,
    ensures
        grid_wf(grid_after_moves(c, n, s), n),
    decreases s.len(),
{
    if s.len() > 0 {
        lemma_after_move_wf(c, n, s[0]);
        lemma_after_moves_wf(grid_after_move(c, n, s[0]), n, s.skip(1));
    }
}

/// Iterating the quarter-turn permutation is periodic with period 4.
pub proof fn lemma_turn_src_k_mod(a: Axis, n: int, k: nat, f: crate::primitives::FaceType, i: int, j: int)
    requires
        n >= 1,
        0 <= i < n,
        0 <= j < n,
    ensures
        turn_src_k(a, n, k, f, i, j) == turn_src_k(a, n, (k as int % 4) as nat, f, i, j),
    decreases k,
{
    if k >= 4 {
        lemma_turn_src_four(a, n, f, i, j);
        lemma_turn_src_k_add(a, n, 4, (k - 4) as nat, f, i, j);
        lemma_turn_src_k_mod(a, n, (k - 4) as nat, f, i, j);
        lemma_mod_add_multiples_vanish((k - 4) as int, 4);
    }
}

/// No move of `s` touches a layer at or past `max_end(s)`.
pub proof fn lemma_layer_quarters_beyond(s: Seq<Move>, x: int)
    requires
        x >= max_end(s),
    ensures
        layer_quarters(s, x) == 0,
    decreases s.len(),
{
    if s.len() > 0 {
        lemma_layer_quarters_beyond(s.skip(1), x);
    }
}

/// Every move of a sequence valid for side `n` ends within the cube.
pub proof fn lemma_max_end_le(s: Seq<Move>, n: int)
    requires
        n >= 0,
        forall|t: int| 0 <= t < s.len() ==> (#[trigger] s[t]).spec_valid_for(n),
    ensures
        max_end(s) <= n,
    decreases s.len(),
{
    if s.len() > 0 {
        assert forall|t: int| 0 <= t < s.skip(1).len() implies (#[trigger] s.skip(1)[t])
            .spec_valid_for(n) by {
            assert(s.skip(1)[t] == s[t + 1]);
        }
        lemma_max_end_le(s.skip(1), n);
    }
}

/// Every move that `coalesce` emits turns the given axis, lies within
/// `[d, hi)`, and has a non-empty range.
pub proof fn lemma_coalesce_shape(s: Seq<Move>, a: Axis, d: int, hi: int)
    requires
        0 <= d,
        hi <= usize::MAX,
    ensures
        forall|t: int| #![trigger coalesce(s, a, d, hi)[t]]
            0 <= t < coalesce(s, a, d, hi).len() ==> {
                let mv = coalesce(s, a, d, hi)[t];
                &&& mv.axis == a
                &&& d <= mv.start_depth
                &&& mv.start_depth < mv.end_depth <= hi
            },
    decreases hi - d,
{
    if d >= hi {
    } else {
        lemma_group_end_bounds(s, d, hi);
        let e = group_end(s, d, hi);
        if e < hi {
            lemma_group_end_bounds(s, e, hi);
        }
        lemma_coalesce_shape(s, a, e, hi);
        let r = layer_residue(s, d);
        if r != 0 {
            let head = Move {
                axis: a,
                rotation_type: rot_of_residue(r),
                start_depth: d as usize,
                end_depth: e as usize,
            };
            assert forall|t: int| 0 <= t < coalesce(s, a, d, hi).len() implies {
                let mv = #[trigger] coalesce(s, a, d, hi)[t];
                &&& mv.axis == a
                &&& d <= mv.start_depth
                &&& mv.start_depth < mv.end_depth <= hi
            } by {
                if t == 0 {
                    assert(coalesce(s, a, d, hi)[0] == head);
                } else {
                    assert(coalesce(s, a, d, hi)[t] == coalesce(s, a, e, hi)[t - 1]);
                }
            }
        }
    }
}

/// The moves `coalesce` emits give every layer in `[d, hi)` exactly its
/// original net rotation modulo 4, and the other layers none at all.
pub proof fn lemma_coalesce_counts(s: Seq<Move>, a: Axis, d: int, hi: int, x: int)
    requires
        0 <= d,
        hi <= usize::MAX,
    ensures
        layer_residue(coalesce(s, a, d, hi), x) == if d <= x < hi {
            layer_residue(s, x)
        } else {
            0
        },
    decreases hi - d,
{
    if d >= hi {
        assert(layer_quarters(Seq::<Move>::empty(), x) == 0);
    } else {
        lemma_group_end_bounds(s, d, hi);
        let e = group_end(s, d, hi);
        if e < hi {
            lemma_group_end_bounds(s, e, hi);
        }
        let r = layer_residue(s, d);
        let rest = coalesce(s, a, e, hi);
        lemma_coalesce_counts(s, a, e, hi, x);
        if r == 0 {
            assert(coalesce(s, a, d, hi) == rest);
            if d <= x < e {
                assert(layer_residue(s, x) == 0);
            }
        } else {
            let head = Move {
                axis: a,
                rotation_type: rot_of_residue(r),
                start_depth: d as usize,
                end_depth: e as usize,
            };
            assert(coalesce(s, a, d, hi) == seq![head] + rest);
            lemma_layer_quarters_append(seq![head], rest, x);
            assert(seq![head].skip(1) =~= Seq::<Move>::empty());
            assert(layer_quarters(Seq::<Move>::empty(), x) == 0);
            let head_quarters = if d <= x < e {
                head.rotation_type.spec_signed_quarters()
            } else {
                0
            };
            assert(layer_quarters(seq![head], x) == head_quarters);
            lemma_add_mod_noop(head_quarters, layer_quarters(rest, x), 4);
            if d <= x < e {
                assert(layer_residue(s, x) == r);
                assert(layer_quarters(rest, x) % 4 == 0);
                assert(head_quarters % 4 == r);
            }
        }
    }
}

/// Performing a sequence and then its inversion restores every sticker:
/// the inversion of [`crate::sequence::MoveSequence::inverse`] really
/// undoes the sequence on every cube the moves fit.
pub proof fn lemma_sequence_inverse_effect(c: CubeGrid, n: int, s: Seq<Move>)
    requires
        grid_wf(c, n),
        n >= 1,
        forall|t: int| 0 <= t < s.len() ==> (#[trigger] s[t]).spec_valid_for(n),
    ensures
        grid_after_moves(grid_after_moves(c, n, s), n, spec_sequence_inverse(s)) == c,
    decreases s.len(),
{
    if s.len() == 0 {
    } else {
        let m0 = s[0];
        let rest = s.skip(1);
        let c1 = grid_after_move(c, n, m0);
        lemma_after_move_wf(c, n, m0);
        assert forall|t: int| 0 <= t < rest.len() implies (#[trigger] rest[t]).spec_valid_for(
            n,
        ) by {
            assert(rest[t] == s[t + 1]);
        }
        lemma_sequence_inverse_effect(c1, n, rest);
        assert(spec_sequence_inverse(s) =~= spec_sequence_inverse(rest) + seq![m0.spec_inverse()]);
        let c2 = grid_after_moves(c1, n, rest);
        lemma_after_moves_append(c2, n, spec_sequence_inverse(rest), seq![m0.spec_inverse()]);
        crate::model::lemma_after_moves_one(c1, n, m0.spec_inverse());
        crate::model::lemma_move_then_inverse(c, n, m0);
        assert(grid_after_moves(c, n, s) == c2);
    }
}

/// The deepest touched layer of any sequence fits in a machine word, since
/// every depth is one.
pub proof fn lemma_max_end_usize(s: Seq<Move>)
    ensures
        max_end(s) <= usize::MAX,
    decreases s.len(),
{
    if s.len() > 0 {
        lemma_max_end_usize(s.skip(1));
    }
}

/// `group_end` reads only the layer residues of its sequence.
pub proof fn lemma_group_end_congruence(s1: Seq<Move>, s2: Seq<Move>, d: int, hi: int)
    requires
        d < hi,
        forall|x: int| d <= x < hi ==> layer_residue(s1, x) == layer_residue(s2, x),
    ensures
        group_end(s1, d, hi) == group_end(s2, d, hi),
    decreases hi - d,
{
    if d + 1 >= hi {
    } else if layer_residue(s1, d + 1) == layer_residue(s1, d) {
        lemma_group_end_congruence(s1, s2, d + 1, hi);
    }
}

/// `coalesce` reads only the layer residues of its sequence.
pub proof fn lemma_coalesce_congruence(s1: Seq<Move>, s2: Seq<Move>, a: Axis, d: int, hi: int)
    requires
        0 <= d,
        hi <= usize::MAX,
        forall|x: int| d <= x < hi ==> layer_residue(s1, x) == layer_residue(s2, x),
    ensures
        coalesce(s1, a, d, hi) == coalesce(s2, a, d, hi),
    decreases hi - d,
{
    if d >= hi {
    } else {
        lemma_group_end_bounds(s1, d, hi);
        lemma_group_end_bounds(s2, d, hi);
        lemma_group_end_congruence(s1, s2, d, hi);
        let e = group_end(s1, d, hi);
        if e < hi {
            lemma_group_end_bounds(s1, e, hi);
            lemma_group_end_bounds(s2, e, hi);
        }
        lemma_coalesce_congruence(s1, s2, a, e, hi);
    }
}

/// Layers with no net rotation produce no moves at all.
pub proof fn lemma_coalesce_zero(s: Seq<Move>, a: Axis, d: int, hi: int)
    requires
        0 <= d,
        hi <= usize::MAX,
        forall|x: int| d <= x < hi ==> layer_residue(s, x) == 0,
    ensures
        coalesce(s, a, d, hi) == Seq::<Move>::empty(),
    decreases hi - d,
{
    if d >= hi {
    } else {
        lemma_group_end_bounds(s, d, hi);
        let e = group_end(s, d, hi);
        if e < hi {
            lemma_group_end_bounds(s, e, hi);
        }
        lemma_coalesce_zero(s, a, e, hi);
    }
}

/// Trailing layers without net rotation do not change the coalesced moves.
pub proof fn lemma_coalesce_trailing(s: Seq<Move>, a: Axis, d: int, hi2: int, hi: int)
    requires
        0 <= d <= hi2 <= hi <= usize::MAX,
        forall|x: int| hi2 <= x < hi ==> layer_residue(s, x) == 0,
    ensures
        coalesce(s, a, d, hi) == coalesce(s, a, d, hi2),
    decreases hi - d,
{
    if d >= hi2 {
        lemma_coalesce_zero(s, a, d, hi);
        assert(coalesce(s, a, d, hi2) == Seq::<Move>::empty());
    } else {
        lemma_group_end_bounds(s, d, hi);
        lemma_group_end_bounds(s, d, hi2);
        let e = group_end(s, d, hi);
        let e2 = group_end(s, d, hi2);
        if e < hi {
            lemma_group_end_bounds(s, e, hi);
        }
        if e2 < hi2 {
            lemma_group_end_bounds(s, e2, hi2);
        }
        if layer_residue(s, d) == 0 {
            if e <= hi2 {
                crate::sequence::lemma_group_end_characterize(s, d, hi2, e);
                lemma_coalesce_trailing(s, a, e, hi2, hi);
            } else {
                // The zero group runs past `hi2`: everything left is zero.
                assert(forall|x: int|
                    d <= x < e ==> layer_residue(s, x) == layer_residue(s, d));
                lemma_coalesce_zero(s, a, e, hi);
                lemma_coalesce_zero(s, a, e2, hi2);
                assert(coalesce(s, a, d, hi) == Seq::<Move>::empty());
                assert(coalesce(s, a, d, hi2) == Seq::<Move>::empty());
            }
        } else {
            // A group with net rotation cannot reach into the zero tail.
            assert(e <= hi2) by {
                if e > hi2 {
                    assert(layer_residue(s, hi2) == layer_residue(s, d));
                }
            }
            crate::sequence::lemma_group_end_characterize(s, d, hi2, e);
            if e < hi2 {
                lemma_group_end_bounds(s, e, hi2);
            }
            lemma_coalesce_trailing(s, a, e, hi2, hi);
        }
    }
}

/// Canonicalising a run is idempotent: the coalesced moves of a run are
/// already their own coalesced form.
pub proof fn lemma_canon_run_fixpoint(r: Seq<Move>)
    ensures
        canon_run(canon_run(r)) == canon_run(r),
{
    if r.len() == 0 {
    } else {
        let a = r[0].axis;
        lemma_max_end_usize(r);
        let m = max_end(r) as int;
        if 0 < m {
            lemma_group_end_bounds(r, 0, m);
        }
        let out = canon_run(r);
        lemma_coalesce_shape(r, a, 0, m);
        if out.len() == 0 {
        } else {
            assert(out[0].axis == a);
            assert forall|t: int| 0 <= t < out.len() implies (#[trigger] out[t]).spec_valid_for(
                m,
            ) by {}
            lemma_max_end_le(out, m);
            let m2 = max_end(out) as int;
            assert forall|x: int| 0 <= x < m2 implies layer_residue(out, x) == layer_residue(
                r,
                x,
            ) by {
                lemma_coalesce_counts(r, a, 0, m, x);
            }
            assert forall|x: int| m2 <= x < m implies layer_residue(r, x) == 0 by {
                lemma_layer_quarters_beyond(out, x);
                lemma_coalesce_counts(r, a, 0, m, x);
            }
            if 0 < m2 {
                lemma_group_end_bounds(out, 0, m2);
            }
            lemma_coalesce_congruence(out, r, a, 0, m2);
            lemma_coalesce_trailing(r, a, 0, m2, m);
            assert(canon_run(out) == coalesce(out, a, 0, m2));
        }
    }
}

/// Whether every maximal same-axis run of `s` still produces at least one
/// move after coalescing: no run cancels itself out entirely.
pub open spec fn runs_survive(s: Seq<Move>) -> bool
    decreases s.len(),
    via runs_survive_decreases
{
    if s.len() == 0 {
        true
    } else {
        let rl = run_len(s) as int;
        canon_run(s.take(rl)).len() > 0 && runs_survive(s.skip(rl))
    }
}

#[via_fn]
proof fn runs_survive_decreases(s: Seq<Move>) {
    lemma_run_len_bounds(s);
}

/// A canonicalised sequence with surviving runs is non-empty and starts on
/// the axis of the original's first move.
pub proof fn lemma_canonicalise_head(s: Seq<Move>)
    requires
        s.len() > 0,
        runs_survive(s),
    ensures
        spec_canonicalise(s).len() > 0,
        spec_canonicalise(s)[0].axis == s[0].axis,
{
    lemma_run_len_bounds(s);
    let rl = run_len(s) as int;
    let run = s.take(rl);
    lemma_max_end_usize(run);
    let m = max_end(run) as int;
    if 0 < m {
        lemma_group_end_bounds(run, 0, m);
    }
    lemma_coalesce_shape(run, run[0].axis, 0, m);
    assert(spec_canonicalise(s)[0] == canon_run(run)[0]);
}

/// The maximal run of a same-axis block followed by a block on another
/// axis is exactly the first block.
pub proof fn lemma_run_len_concat(x: Seq<Move>, y: Seq<Move>)
    requires
        x.len() > 0,
        forall|t: int| 0 <= t < x.len() ==> (#[trigger] x[t]).axis == x[0].axis,
        y.len() > 0 ==> y[0].axis != x[0].axis,
    ensures
        run_len(x + y) == x.len(),
{
    let s = x + y;
    assert forall|i: int| 0 <= i < x.len() implies (#[trigger] s[i]).axis == s[0].axis by {
        assert(s[i] == x[i]);
    }
    if x.len() < s.len() {
        assert(s[x.len() as int] == y[0]);
    }
    crate::sequence::lemma_run_len_characterize(s, x.len() as int);
}

/// Canonicalisation is idempotent whenever no maximal same-axis run of the
/// sequence cancels itself out entirely.  (Where a run does cancel, its two
/// neighbouring runs become adjacent in the output and may merge on a
/// second pass, as in `R U U' U2 U2 R`.)
pub proof fn lemma_canonicalise_idempotent(s: Seq<Move>)
    requires
        runs_survive(s),
    ensures
        spec_canonicalise(spec_canonicalise(s)) == spec_canonicalise(s),
    decreases s.len(),
{
    if s.len() == 0 {
    } else {
        lemma_run_len_bounds(s);
        let rl = run_len(s) as int;
        let run = s.take(rl);
        let rest = s.skip(rl);
        let out1 = canon_run(run);
        let outr = spec_canonicalise(rest);
        assert(spec_canonicalise(s) == out1 + outr);
        lemma_max_end_usize(run);
        let m = max_end(run) as int;
        if 0 < m {
            lemma_group_end_bounds(run, 0, m);
        }
        lemma_coalesce_shape(run, run[0].axis, 0, m);
        assert(out1.len() > 0);
        if rest.len() > 0 {
            lemma_canonicalise_head(rest);
            assert(outr[0].axis == rest[0].axis);
            assert(rest[0] == s[rl]);
            assert(rest[0].axis != s[0].axis);
        }
        lemma_run_len_concat(out1, outr);
        let cs = out1 + outr;
        assert(run_len(cs) == out1.len());
        assert(cs.take(out1.len() as int) =~= out1);
        assert(cs.skip(out1.len() as int) =~= outr);
        assert(spec_canonicalise(cs) == canon_run(out1) + spec_canonicalise(outr));
        lemma_canon_run_fixpoint(run);
        assert(canon_run(out1) == out1);
        lemma_canonicalise_idempotent(rest);
    }
}

/// A same-axis run acts on each sticker only through the net quarter-turn
/// count, modulo 4, of the sticker's layer.
pub proof fn lemma_run_effect_pointwise(
    c: CubeGrid,
    n: int,
    a: Axis,
    r: Seq<Move>,
    fi: int,
    i: int,
    j: int,
)
    requires
        grid_wf(c, n),
        n >= 1,
        0 <= fi < 6,
        0 <= i < n,
        0 <= j < n,
        forall|t: int|
            0 <= t < r.len() ==> (#[trigger] r[t]).axis == a && r[t].spec_valid_for(n),
    ensures
        ({
            let f = face_of_index(fi);
            let d = axis_layer(a, n, f, i, j);
            let q = (layer_quarters(r, d) % 4) as nat;
            let p = turn_src_k(a, n, q, f, i, j);
            grid_after_moves(c, n, r)[fi][i][j] == c[p.0.spec_index()][p.1][p.2]
        }),
    decreases r.len(),
{
    let f = face_of_index(fi);
    let d = axis_layer(a, n, f, i, j);
    lemma_face_index_roundtrip(fi);
    if r.len() == 0 {
    } else {
        let m0 = r[0];
        let rest = r.skip(1);
        let c1 = grid_after_move(c, n, m0);
        lemma_after_move_wf(c, n, m0);
        assert forall|t: int| 0 <= t < rest.len() implies (#[trigger] rest[t]).axis == a
            && rest[t].spec_valid_for(n) by {
            assert(rest[t] == r[t + 1]);
        }
        lemma_run_effect_pointwise(c1, n, a, rest, fi, i, j);
        let q1 = (layer_quarters(rest, d) % 4) as nat;
        let p1 = turn_src_k(a, n, q1, f, i, j);
        lemma_turn_src_k_props(a, n, q1, f, i, j);
        lemma_face_index_roundtrip(p1.0.spec_index());
        let k0 = m0.rotation_type.spec_quarters();
        let s0 = m0.start_depth as int;
        let e0 = m0.end_depth as int;
        lemma_grid_quarters_pointwise(c, n, a, s0, e0, k0, p1.0.spec_index(), p1.1, p1.2);
        assert(axis_layer(a, n, p1.0, p1.1, p1.2) == d);
        assert(grid_after_moves(c, n, r) == grid_after_moves(c1, n, rest));
        lemma_layer_quarters_append(seq![m0], rest, d);
        assert(seq![m0] + rest =~= r);
        assert(seq![m0].skip(1) =~= Seq::<Move>::empty());
        assert(layer_quarters(Seq::<Move>::empty(), d) == 0);
        if s0 <= d < e0 {
            assert(layer_quarters(seq![m0], d) == m0.rotation_type.spec_signed_quarters());
            assert(c1[p1.0.spec_index()][p1.1][p1.2] == c[turn_src_k(a, n, k0, p1.0, p1.1, p1.2)
                .0.spec_index()][turn_src_k(a, n, k0, p1.0, p1.1, p1.2).1][turn_src_k(
                a,
                n,
                k0,
                p1.0,
                p1.1,
                p1.2,
            ).2]);
            lemma_turn_src_k_add(a, n, q1, k0, f, i, j);
            assert(turn_src_k(a, n, q1 + k0, f, i, j) == turn_src_k(a, n, k0, p1.0, p1.1, p1.2));
            lemma_turn_src_k_mod(a, n, (q1 + k0) as nat, f, i, j);
            assert(m0.rotation_type.spec_signed_quarters() % 4 == k0 as int);
            lemma_add_mod_noop(
                layer_quarters(rest, d),
                m0.rotation_type.spec_signed_quarters(),
                4,
            );
            lemma_add_mod_noop(q1 as int, k0 as int, 4);
            assert((q1 + k0) as int % 4 == layer_quarters(r, d) % 4) by {
                assert(layer_quarters(r, d) == layer_quarters(rest, d)
                    + m0.rotation_type.spec_signed_quarters());
            }
        } else {
            assert(layer_quarters(seq![m0], d) == 0);
            assert(layer_quarters(r, d) == layer_quarters(rest, d));
            assert(c1[p1.0.spec_index()][p1.1][p1.2] == c[p1.0.spec_index()][p1.1][p1.2]);
        }
    }
}

/// Replacing one maximal same-axis run by its coalesced form leaves the
/// effect on every cube unchanged.
pub proof fn lemma_canon_run_effect(c: CubeGrid, n: int, r: Seq<Move>)
    requires
        grid_wf(c, n),
        1 <= n <= usize::MAX,
        forall|t: int|
            0 <= t < r.len() ==> (#[trigger] r[t]).axis == r[0].axis && r[t].spec_valid_for(n),
    ensures
        grid_after_moves(c, n, canon_run(r)) == grid_after_moves(c, n, r),
{
    if r.len() == 0 {
    } else {
        let a = r[0].axis;
        let m = max_end(r) as int;
        let out = canon_run(r);
        lemma_max_end_le(r, n);
        if 0 < m {
            lemma_group_end_bounds(r, 0, m);
        }
        lemma_coalesce_shape(r, a, 0, m);
        assert forall|t: int| 0 <= t < out.len() implies (#[trigger] out[t]).axis == a
            && out[t].spec_valid_for(n) by {}
        lemma_after_moves_wf(c, n, out);
        lemma_after_moves_wf(c, n, r);
        assert forall|fi: int, i: int, j: int|
            0 <= fi < 6 && 0 <= i < n && 0 <= j < n implies grid_after_moves(c, n, out)[fi][i][j]
            == grid_after_moves(c, n, r)[fi][i][j] by {
            let f = face_of_index(fi);
            let d = axis_layer(a, n, f, i, j);
            lemma_run_effect_pointwise(c, n, a, out, fi, i, j);
            lemma_run_effect_pointwise(c, n, a, r, fi, i, j);
            lemma_coalesce_counts(r, a, 0, m, d);
            if !(0 <= d < m) {
                lemma_layer_quarters_beyond(r, d);
                assert(d >= 0) by {
                    crate::model::lemma_turn_src_step(a, n, f, i, j);
                }
            }
        }
        assert(grid_after_moves(c, n, out) =~~= grid_after_moves(c, n, r));
    }
}

/// Canonicalising a move sequence preserves its net effect: performing the
/// canonical form on any cube of a size all the moves fit gives exactly the
/// cube the original sequence gives.
pub proof fn lemma_canonicalise_preserves_effect(c: CubeGrid, n: int, s: Seq<Move>)
    requires
        grid_wf(c, n),
        1 <= n <= usize::MAX,
        forall|t: int| 0 <= t < s.len() ==> (#[trigger] s[t]).spec_valid_for(n),
    ensures
        grid_after_moves(c, n, spec_canonicalise(s)) == grid_after_moves(c, n, s),
    decreases s.len(),
{
    if s.len() == 0 {
    } else {
        lemma_run_len_bounds(s);
        let rl = run_len(s) as int;
        let run = s.take(rl);
        let rest = s.skip(rl);
        assert(run + rest =~= s);
        lemma_after_moves_append(c, n, run, rest);
        lemma_after_moves_append(c, n, canon_run(run), spec_canonicalise(rest));
        assert forall|t: int| 0 <= t < run.len() implies (#[trigger] run[t]).axis == run[0].axis
            && run[t].spec_valid_for(n) by {
            assert(run[t] == s[t]);
            assert(run[0] == s[0]);
        }
        lemma_canon_run_effect(c, n, run);
        let c1 = grid_after_moves(c, n, run);
        lemma_after_moves_wf(c, n, run);
        assert forall|t: int| 0 <= t < rest.len() implies (#[trigger] rest[t]).spec_valid_for(
            n,
        ) by {
            assert(rest[t] == s[t + rl]);
        }
        lemma_canonicalise_preserves_effect(c1, n, rest);
    }
}

} // verus!
