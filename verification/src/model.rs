//! The mathematical model of a layer turn.
//!
//! A cube state is modelled as a sequence of six faces (ordered F R U B L D),
//! each an `n` by `n` grid of colours.  A clockwise quarter turn of the
//! layers `[s, e)` about an axis moves stickers along a position permutation:
//! `turn_src` names, for each sticker position, the position whose colour
//! arrives there after one quarter turn of the layer holding it.  Everything
//! the executable engine does is specified against this model.

use vstd::prelude::*;
use crate::primitives::Axis;
use crate::primitives::Colour;
use crate::primitives::FaceType;
use crate::moves::Move;

verus! {

/// The sticker state of a cube: six faces, each a square grid of colours.
pub type CubeState = Seq<Seq<Colour>>;

/// The full cube state: the faces in the order F R U B L D.
pub type CubeGrid = Seq<CubeState>;

/// The face in position `fi` of the cube's face order F R U B L D.
pub open spec fn face_of_index(fi: int) -> FaceType {
    if fi == 0 {
        FaceType::F
    } else if fi == 1 {
        FaceType::R
    } else if fi == 2 {
        FaceType::U
    } else if fi == 3 {
        FaceType::B
    } else if fi == 4 {
        FaceType::L
    } else {
        FaceType::D
    }
}

/// Well-formedness of a cube state of side `n`: exactly six faces, each an
/// `n` by `n` grid.
pub open spec fn grid_wf(c: CubeGrid, n: int) -> bool {
    &&& c.len() == 6
    &&& forall|fi: int| 0 <= fi < 6 ==> (#[trigger] c[fi]).len() == n
    &&& forall|fi: int, i: int|
        0 <= fi < 6 && 0 <= i < n ==> (#[trigger] c[fi][i]).len() == n
}

/// The layer index of sticker position `(f, i, j)` with respect to `a` on a
/// cube of side `n`: 0 for a sticker against the axis's positive face,
/// `n - 1` for one against its negative face.
pub open spec fn axis_layer(a: Axis, n: int, f: FaceType, i: int, j: int) -> int {
    match a {
        Axis::FB => match f {
            FaceType::F => 0,
            FaceType::B => n - 1,
            FaceType::R => j,
            FaceType::U => n - 1 - i,
            FaceType::L => n - 1 - j,
            FaceType::D => i,
        },
        Axis::RL => match f {
            FaceType::R => 0,
            FaceType::L => n - 1,
            FaceType::F => n - 1 - j,
            FaceType::U => n - 1 - j,
            FaceType::D => n - 1 - j,
            FaceType::B => j,
        },
        Axis::UD => match f {
            FaceType::U => 0,
            FaceType::D => n - 1,
            FaceType::F => i,
            FaceType::R => i,
            FaceType::B => i,
            FaceType::L => i,
        },
    }
}

/// The position whose colour arrives at `(f, i, j)` after one clockwise
/// quarter turn (viewed from the axis's positive face) of the layer that
/// holds `(f, i, j)`.
pub open spec fn turn_src(a: Axis, n: int, f: FaceType, i: int, j: int) -> (
    FaceType,
    int,
    int,
) {
    match a {
        Axis::FB => match f {
            FaceType::F => (FaceType::F, n - 1 - j, i),
            FaceType::R => (FaceType::U, n - 1 - j, i),
            FaceType::U => (FaceType::L, n - 1 - j, i),
            FaceType::L => (FaceType::D, n - 1 - j, i),
            FaceType::D => (FaceType::R, n - 1 - j, i),
            FaceType::B => (FaceType::B, j, n - 1 - i),
        },
        Axis::RL => match f {
            FaceType::R => (FaceType::R, n - 1 - j, i),
            FaceType::F => (FaceType::D, i, j),
            FaceType::D => (FaceType::B, n - 1 - i, n - 1 - j),
            FaceType::B => (FaceType::U, n - 1 - i, n - 1 - j),
            FaceType::U => (FaceType::F, i, j),
            FaceType::L => (FaceType::L, j, n - 1 - i),
        },
        Axis::UD => match f {
            FaceType::U => (FaceType::U, n - 1 - j, i),
            FaceType::F => (FaceType::R, i, j),
            FaceType::R => (FaceType::B, i, j),
            FaceType::B => (FaceType::L, i, j),
            FaceType::L => (FaceType::F, i, j),
            FaceType::D => (FaceType::D, j, n - 1 - i),
        },
    }
}

/// `turn_src` applied `k` times, innermost application first.
pub open spec fn turn_src_k(a: Axis, n: int, k: nat, f: FaceType, i: int, j: int) -> (
    FaceType,
    int,
    int,
)
    decreases k,
{
    if k == 0 {
        (f, i, j)
    } else {
        let p = turn_src(a, n, f, i, j);
        turn_src_k(a, n, (k - 1) as nat, p.0, p.1, p.2)
    }
}

/// The cube state after one clockwise quarter turn of layers `[s, e)`
/// about `a`: each turned position takes the colour of its `turn_src`;
/// every other sticker keeps its colour.
pub open spec fn grid_quarter(c: CubeGrid, n: int, a: Axis, s: int, e: int) -> CubeGrid {
    Seq::new(
        6,
        |fi: int|
            Seq::new(
                n as nat,
                |i: int|
                    Seq::new(
                        n as nat,
                        |j: int|
                            {
                                let f = face_of_index(fi);
                                let d = axis_layer(a, n, f, i, j);
                                if s <= d < e {
                                    let p = turn_src(a, n, f, i, j);
                                    c[p.0.spec_index()][p.1][p.2]
                                } else {
                                    c[fi][i][j]
                                }
                            },
                    ),
            ),
    )
}

/// `grid_quarter` applied `k` times.
pub open spec fn grid_quarters(c: CubeGrid, n: int, a: Axis, s: int, e: int, k: nat) -> CubeGrid
    decreases k,
{
    if k == 0 {
        c
    } else {
        grid_quarter(grid_quarters(c, n, a, s, e, (k - 1) as nat), n, a, s, e)
    }
}

/// The cube state after `m` is performed on a cube of side `n`.
pub open spec fn grid_after_move(c: CubeGrid, n: int, m: Move) -> CubeGrid {
    grid_quarters(
        c,
        n,
        m.axis,
        m.start_depth as int,
        m.end_depth as int,
        m.rotation_type.spec_quarters(),
    )
}

/// The cube state after the moves of `s` are performed in order.
pub open spec fn grid_after_moves(c: CubeGrid, n: int, s: Seq<Move>) -> CubeGrid
    decreases s.len(),
{
    if s.len() == 0 {
        c
    } else {
        grid_after_moves(grid_after_move(c, n, s[0]), n, s.skip(1))
    }
}

/// Performing a concatenation of move lists is performing one after the
/// other.
pub proof fn lemma_after_moves_append(c: CubeGrid, n: int, s1: Seq<Move>, s2: Seq<Move>)
    ensures
        grid_after_moves(c, n, s1 + s2) == grid_after_moves(grid_after_moves(c, n, s1), n, s2),
    decreases s1.len(),
{
    if s1.len() == 0 {
        assert(s1 + s2 =~= s2);
    } else {
        assert((s1 + s2).skip(1) =~= s1.skip(1) + s2);
        assert((s1 + s2)[0] == s1[0]);
        lemma_after_moves_append(grid_after_move(c, n, s1[0]), n, s1.skip(1), s2);
    }
}

/// Performing a single move as a list is performing the move.
pub proof fn lemma_after_moves_one(c: CubeGrid, n: int, m: Move)
    ensures
        grid_after_moves(c, n, seq![m]) == grid_after_move(c, n, m),
{
    assert(seq![m].skip(1) =~= Seq::<Move>::empty());
    assert(grid_after_moves(grid_after_move(c, n, m), n, Seq::<Move>::empty()) == grid_after_move(
        c,
        n,
        m,
    ));
}

/// Moves of a well-formed grid leave it well formed.
pub proof fn lemma_after_move_wf(c: CubeGrid, n: int, m: Move)
    requires
        grid_wf(c, n),
        n >= 1,
    ensures
        grid_wf(grid_after_move(c, n, m), n),
{
    lemma_grid_quarters_wf(
        c,
        n,
        m.axis,
        m.start_depth as int,
        m.end_depth as int,
        m.rotation_type.spec_quarters(),
    );
}

/// `face_of_index` and `FaceType::spec_index` are mutually inverse.
pub proof fn lemma_face_index_roundtrip(fi: int)
    requires
        0 <= fi < 6,
    ensures
        face_of_index(fi).spec_index() == fi,
{
}

/// One step of `turn_src` stays inside the grid and stays on its layer.
pub proof fn lemma_turn_src_step(a: Axis, n: int, f: FaceType, i: int, j: int)
    requires
        n >= 1,
        0 <= i < n,
        0 <= j < n,
    ensures
        ({
            let p = turn_src(a, n, f, i, j);
            &&& 0 <= p.1 < n
            &&& 0 <= p.2 < n
            &&& axis_layer(a, n, p.0, p.1, p.2) == axis_layer(a, n, f, i, j)
        }),
{
}

/// `turn_src_k` stays inside the grid and stays on its layer.
pub proof fn lemma_turn_src_k_props(a: Axis, n: int, k: nat, f: FaceType, i: int, j: int)
    requires
        n >= 1,
        0 <= i < n,
        0 <= j < n,
    ensures
        ({
            let p = turn_src_k(a, n, k, f, i, j);
            &&& 0 <= p.1 < n
            &&& 0 <= p.2 < n
            &&& axis_layer(a, n, p.0, p.1, p.2) == axis_layer(a, n, f, i, j)
        }),
    decreases k,
{
    if k == 0 {
    } else {
        lemma_turn_src_step(a, n, f, i, j);
        let p = turn_src(a, n, f, i, j);
        lemma_turn_src_k_props(a, n, (k - 1) as nat, p.0, p.1, p.2);
    }
}

/// Applying `turn_src` four times returns every position to itself.
pub proof fn lemma_turn_src_four(a: Axis, n: int, f: FaceType, i: int, j: int)
    requires
        n >= 1,
        0 <= i < n,
        0 <= j < n,
    ensures
        turn_src_k(a, n, 4, f, i, j) == (f, i, j),
{
    reveal_with_fuel(turn_src_k, 5);
}

/// Splitting an iterated `turn_src`: `k1 + k2` steps are `k2` steps after
/// `k1` steps.
pub proof fn lemma_turn_src_k_add(
    a: Axis,
    n: int,
    k1: nat,
    k2: nat,
    f: FaceType,
    i: int,
    j: int,
)
    ensures
        ({
            let p = turn_src_k(a, n, k1, f, i, j);
            turn_src_k(a, n, k1 + k2, f, i, j) == turn_src_k(a, n, k2, p.0, p.1, p.2)
        }),
    decreases k1,
{
    if k1 == 0 {
    } else {
        let q = turn_src(a, n, f, i, j);
        lemma_turn_src_k_add(a, n, (k1 - 1) as nat, k2, q.0, q.1, q.2);
        assert(turn_src_k(a, n, (k1 + k2 - 1) as nat, q.0, q.1, q.2) == turn_src_k(
            a,
            n,
            k1 + k2,
            f,
            i,
            j,
        ));
    }
}

/// A quarter turn of a well-formed grid is well formed.
pub proof fn lemma_grid_quarter_wf(c: CubeGrid, n: int, a: Axis, s: int, e: int)
    requires
        grid_wf(c, n),
        n >= 1,
    ensures
        grid_wf(grid_quarter(c, n, a, s, e), n),
{
}

/// Iterated quarter turns of a well-formed grid are well formed.
pub proof fn lemma_grid_quarters_wf(c: CubeGrid, n: int, a: Axis, s: int, e: int, k: nat)
    requires
        grid_wf(c, n),
        n >= 1,
    ensures
        grid_wf(grid_quarters(c, n, a, s, e, k), n),
    decreases k,
{
    if k == 0 {
    } else {
        lemma_grid_quarters_wf(c, n, a, s, e, (k - 1) as nat);
        lemma_grid_quarter_wf(grid_quarters(c, n, a, s, e, (k - 1) as nat), n, a, s, e);
    }
}

/// Pointwise reading of `k` quarter turns: a turned position holds the
/// colour that sat `k` quarter turns away; every other position is
/// untouched.
pub proof fn lemma_grid_quarters_pointwise(
    c: CubeGrid,
    n: int,
    a: Axis,
    s: int,
    e: int,
    k: nat,
    fi: int,
    i: int,
    j: int,
)
    requires
        grid_wf(c, n),
        n >= 1,
        0 <= fi < 6,
        0 <= i < n,
        0 <= j < n,
    ensures
        ({
            let f = face_of_index(fi);
            let d = axis_layer(a, n, f, i, j);
            grid_quarters(c, n, a, s, e, k)[fi][i][j] == if s <= d < e {
                let p = turn_src_k(a, n, k, f, i, j);
                c[p.0.spec_index()][p.1][p.2]
            } else {
                c[fi][i][j]
            }
        }),
    decreases k,
{
    let f = face_of_index(fi);
    let d = axis_layer(a, n, f, i, j);
    lemma_face_index_roundtrip(fi);
    if k == 0 {
    } else {
        let prev = grid_quarters(c, n, a, s, e, (k - 1) as nat);
        lemma_grid_quarters_wf(c, n, a, s, e, (k - 1) as nat);
        if s <= d < e {
            let p = turn_src(a, n, f, i, j);
            lemma_turn_src_step(a, n, f, i, j);
            lemma_face_index_roundtrip(p.0.spec_index());
            lemma_grid_quarters_pointwise(
                c,
                n,
                a,
                s,
                e,
                (k - 1) as nat,
                p.0.spec_index(),
                p.1,
                p.2,
            );
            assert(grid_quarters(c, n, a, s, e, k)[fi][i][j] == prev[p.0.spec_index()][p.1][p.2]);
        } else {
            lemma_grid_quarters_pointwise(c, n, a, s, e, (k - 1) as nat, fi, i, j);
            assert(grid_quarters(c, n, a, s, e, k)[fi][i][j] == prev[fi][i][j]);
        }
    }
}

/// Performing a move and then its inverse restores every sticker.
pub proof fn lemma_move_then_inverse(c: CubeGrid, n: int, m: Move)
    requires
        grid_wf(c, n),
        n >= 1,
        m.spec_valid_for(n),
    ensures
        grid_after_move(grid_after_move(c, n, m), n, m.spec_inverse()) == c,
{
    let k = m.rotation_type.spec_quarters();
    let ki = m.spec_inverse().rotation_type.spec_quarters();
    let s = m.start_depth as int;
    let e = m.end_depth as int;
    let a = m.axis;
    let c1 = grid_after_move(c, n, m);
    let c2 = grid_after_move(c1, n, m.spec_inverse());
    lemma_grid_quarters_wf(c, n, a, s, e, k);
    assert forall|fi: int, i: int, j: int|
        0 <= fi < 6 && 0 <= i < n && 0 <= j < n implies c2[fi][i][j] == c[fi][i][j] by {
        let f = face_of_index(fi);
        let d = axis_layer(a, n, f, i, j);
        lemma_face_index_roundtrip(fi);
        lemma_grid_quarters_pointwise(c1, n, a, s, e, ki, fi, i, j);
        if s <= d < e {
            let p = turn_src_k(a, n, ki, f, i, j);
            lemma_turn_src_k_props(a, n, ki, f, i, j);
            lemma_face_index_roundtrip(p.0.spec_index());
            lemma_grid_quarters_pointwise(c, n, a, s, e, k, p.0.spec_index(), p.1, p.2);
            lemma_turn_src_k_add(a, n, ki, k, f, i, j);
            assert(ki + k == 4);
            lemma_turn_src_four(a, n, f, i, j);
        } else {
            lemma_grid_quarters_pointwise(c, n, a, s, e, k, fi, i, j);
        }
    }
    lemma_grid_quarters_wf(c1, n, a, s, e, ki);
    assert(c2 =~~= c);
}

} // verus!
