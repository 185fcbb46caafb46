//! The executable cube: six faces, created solved, transformed only by
//! `perform`, which is proved to implement the turn model of [`crate::model`].

use vstd::prelude::*;
use vstd::string::*;
use crate::face::Face;
use crate::face::FaceSegment;
use crate::face::overwrite_spec;
use crate::model::CubeGrid;
use crate::model::face_of_index;
use crate::model::grid_after_move;
use crate::model::grid_quarter;
use crate::model::grid_quarters;
use crate::model::grid_after_moves;
use crate::model::grid_wf;
use crate::model::lemma_after_moves_append;
use crate::model::lemma_after_moves_one;
use crate::moves::Move;
use crate::sequence::MoveSequence;
use crate::primitives::Axis;
use crate::primitives::Colour;
use crate::primitives::FaceType;
use crate::primitives::RotationType;

verus! {


/// One face row as rendered text: each sticker's letter followed by a space.
pub open spec fn spec_row_chars_upto(c: CubeGrid, fi: int, i: int, j: int) -> Seq<char> {
    Seq::new(
        (2 * j) as nat,
        |t: int|
            if t % 2 == 0 {
                c[fi][i][t / 2].spec_letter()
            } else {
                ' '
            },
    )
}

/// The left padding of the unfolded-cross layout: `n` two-character blanks.
pub open spec fn spec_pad(n: int) -> Seq<char> {
    Seq::new((2 * n) as nat, |t: int| ' ')
}

/// One rendered row of the U face, padded to sit above the F face.
pub open spec fn spec_up_line(c: CubeGrid, n: int, i: int) -> Seq<char> {
    spec_pad(n) + spec_row_chars_upto(c, 2, i, n) + seq!['\n']
}

/// One rendered row of the middle band: the L, F, R and B faces side by
/// side.
pub open spec fn spec_mid_line(c: CubeGrid, n: int, i: int) -> Seq<char> {
    spec_row_chars_upto(c, 4, i, n) + spec_row_chars_upto(c, 0, i, n) + spec_row_chars_upto(
        c,
        1,
        i,
        n,
    ) + spec_row_chars_upto(c, 3, i, n) + seq!['\n']
}

/// One rendered row of the D face, padded like the U face.
pub open spec fn spec_down_line(c: CubeGrid, n: int, i: int) -> Seq<char> {
    spec_pad(n) + spec_row_chars_upto(c, 5, i, n) + seq!['\n']
}

/// The first `i` rendered rows of the U block.
pub open spec fn spec_up_lines(c: CubeGrid, n: int, i: int) -> Seq<char>
    decreases i,
{
    if i <= 0 {
        Seq::<char>::empty()
    } else {
        spec_up_lines(c, n, i - 1) + spec_up_line(c, n, i - 1)
    }
}

/// The first `i` rendered rows of the middle band.
pub open spec fn spec_mid_lines(c: CubeGrid, n: int, i: int) -> Seq<char>
    decreases i,
{
    if i <= 0 {
        Seq::<char>::empty()
    } else {
        spec_mid_lines(c, n, i - 1) + spec_mid_line(c, n, i - 1)
    }
}

/// The first `i` rendered rows of the D block.
pub open spec fn spec_down_lines(c: CubeGrid, n: int, i: int) -> Seq<char>
    decreases i,
{
    if i <= 0 {
        Seq::<char>::empty()
    } else {
        spec_down_lines(c, n, i - 1) + spec_down_line(c, n, i - 1)
    }
}

/// The full text rendering of a cube: the fixed unfolded-cross layout with
/// the U face on top, the L F R B band in the middle, and the D face below.
pub open spec fn spec_render(c: CubeGrid, n: int) -> Seq<char> {
    spec_up_lines(c, n, n) + spec_mid_lines(c, n, n) + spec_down_lines(c, n, n)
}

/// A two-character blank of the padding.
fn blank_pair_str() -> (r: &'static str)
    ensures
        r@ == seq![' ', ' '],
{
    proof {
        reveal_strlit("  ");
        assert(("  ")@ =~= seq![' ', ' ']);
    }
    "  "
}

/// A line break of the rendered grid.
fn newline_str() -> (r: &'static str)
    ensures
        r@ == seq!['\n'],
{
    proof {
        reveal_strlit("\n");
        assert(("\n")@ =~= seq!['\n']);
    }
    "\n"
}

/// Appends `n` two-character blanks to `out`.
fn push_pad(out: &mut String, n: usize)
    ensures
        final(out)@ == old(out)@ + spec_pad(n as int),
{
    let ghost base = old(out)@;
    let mut j: usize = 0;
    proof {
        assert(out@ =~= base + Seq::new(0, |t: int| ' '));
    }
    while j < n
        invariant
            j <= n,
            out@ == base + Seq::new((2 * j) as nat, |t: int| ' '),
        decreases n - j,
    {
        out.append(blank_pair_str());
        proof {
            assert(out@ =~= base + Seq::new((2 * (j + 1)) as nat, |t: int| ' '));
        }
        j = j + 1;
    }
}

/// A valid NxN cube: six faces ordered F R U B L D, each an `n` by `n`
/// grid of stickers.  Validity does not say the sticker counts admit a
/// solvable cube; that check is deliberately not performed.
#[derive(Debug, Clone)]
pub struct Cube {
    n: usize,
    faces: Vec<Face>,
}

impl View for Cube {
    type V = CubeGrid;

    closed spec fn view(&self) -> CubeGrid {
        self.faces@.map_values(|f: Face| f@)
    }
}

impl Cube {
    /// The side length of this cube.
    pub closed spec fn spec_size(&self) -> nat {
        self.n as nat
    }

    /// Well-formedness: six faces, each square of the cube's side length.
    pub open spec fn wf(&self) -> bool {
        grid_wf(self@, self.spec_size() as int)
    }

    /// The side length of this cube.
    pub fn size(&self) -> (r: usize)
        ensures
            r == self.spec_size(),
    {
        self.n
    }

    /// A solved cube of side `n`: face `i` is filled with colour `i`.
    pub fn new(n: usize) -> (r: Cube)
        ensures
            r.wf(),
            r.spec_size() == n,
            forall|fi: int, i: int, j: int|
                0 <= fi < 6 && 0 <= i < n && 0 <= j < n
                    ==> #[trigger] r@[fi][i][j] == face_of_index(fi).spec_colour(),
    {
        let mut faces: Vec<Face> = Vec::new();
        faces.push(Face::new(n, FaceType::F));
        faces.push(Face::new(n, FaceType::R));
        faces.push(Face::new(n, FaceType::U));
        faces.push(Face::new(n, FaceType::B));
        faces.push(Face::new(n, FaceType::L));
        faces.push(Face::new(n, FaceType::D));
        let r = Cube { n, faces };
        proof {
            assert forall|fi: int| 0 <= fi < 6 implies r@[fi] == r.faces@[fi]@ by {}
        }
        r
    }

    /// The face in slot `ty`.
    pub fn face(&self, ty: FaceType) -> (r: &Face)
        requires
            self.wf(),
        ensures
            r@ == self@[ty.spec_index()],
            r.wf(),
            r.spec_side() == self.spec_size(),
    {
        let idx = ty.index();
        proof {
            assert(self.faces@.len() == self@.len());
            assert(self@[ty.spec_index()] == self.faces@[ty.spec_index()]@);
        }
        &self.faces[idx]
    }

    /// The colour of the sticker at row `i`, column `j` of face `ty`.
    pub fn sticker(&self, ty: FaceType, i: usize, j: usize) -> (r: Colour)
        requires
            self.wf(),
            i < self.spec_size(),
            j < self.spec_size(),
        ensures
            r == self@[ty.spec_index()][i as int][j as int],
    {
        self.face(ty).get(i, j)
    }

    /// Checks that this cube is valid: six faces, each a square grid of
    /// the cube's side length.
    pub fn validate(&self) -> (r: bool)
        ensures
            r == self.wf(),
    {
        let mut ok = self.faces.len() == 6;
        let mut fi: usize = 0;
        while fi < self.faces.len()
            invariant
                fi <= self.faces@.len(),
                self@.len() == self.faces@.len(),
                forall|a: int| 0 <= a < self@.len() ==> self@[a] == (#[trigger] self.faces@[a])@,
                ok == (self.faces@.len() == 6 && forall|a: int|
                    0 <= a < fi ==> (#[trigger] self@[a]).len() == self.n && forall|i: int|
                        0 <= i < self.n ==> (#[trigger] self@[a][i]).len() == self.n),
            decreases self.faces@.len() - fi,
        {
            let f = &self.faces[fi];
            let good = f.side() == self.n && f.is_square();
            proof {
                assert(self@[fi as int] == self.faces@[fi as int]@);
                if good {
                    assert(self@[fi as int].len() == self.n && forall|i: int|
                        0 <= i < self.n ==> (#[trigger] self@[fi as int][i]).len() == self.n);
                } else {
                    assert(!(self@[fi as int].len() == self.n && forall|i: int|
                        0 <= i < self.n ==> (#[trigger] self@[fi as int][i]).len() == self.n));
                }
            }
            if !good {
                ok = false;
            }
            fi = fi + 1;
        }
        ok
    }


    /// Appends the rendered row `i` of face `ty` to `out`.
    fn push_face_row(&self, out: &mut String, ty: FaceType, i: usize)
        requires
            self.wf(),
            i < self.spec_size(),
        ensures
            final(out)@ == old(out)@ + spec_row_chars_upto(
                self@,
                ty.spec_index(),
                i as int,
                self.spec_size() as int,
            ),
    {
        let n = self.n;
        let ghost base = old(out)@;
        let ghost fi = ty.spec_index();
        let mut j: usize = 0;
        proof {
            assert(out@ =~= base + spec_row_chars_upto(self@, fi, i as int, 0));
        }
        while j < n
            invariant
                self.wf(),
                n == self.spec_size(),
                i < n,
                j <= n,
                fi == ty.spec_index(),
                out@ == base + spec_row_chars_upto(self@, fi, i as int, j as int),
            decreases n - j,
        {
            let colour = self.sticker(ty, i, j);
            out.append(colour.letter_pair_str());
            proof {
                assert(out@ =~= base + spec_row_chars_upto(self@, fi, i as int, j as int + 1));
            }
            j = j + 1;
        }
    }

    /// The text rendering of this cube: the fixed unfolded-cross layout,
    /// each sticker as its colour's letter followed by a space.
    pub fn render(&self) -> (r: String)
        requires
            self.wf(),
        ensures
            r@ == spec_render(self@, self.spec_size() as int),
    {
        let n = self.n;
        let ghost c = self@;
        let ghost gn = n as int;
        let mut out = String::new();
        let mut i: usize = 0;
        proof {
            assert(out@ =~= spec_up_lines(c, gn, 0));
        }
        while i < n
            invariant
                self.wf(),
                n == self.spec_size(),
                c == self@,
                gn == n as int,
                i <= n,
                out@ == spec_up_lines(c, gn, i as int),
            decreases n - i,
        {
            push_pad(&mut out, n);
            self.push_face_row(&mut out, FaceType::U, i);
            out.append(newline_str());
            proof {
                assert(out@ =~= spec_up_lines(c, gn, i as int + 1));
            }
            i = i + 1;
        }
        let ghost after_up = out@;
        let mut i2: usize = 0;
        proof {
            assert(out@ =~= after_up + spec_mid_lines(c, gn, 0));
        }
        while i2 < n
            invariant
                self.wf(),
                n == self.spec_size(),
                c == self@,
                gn == n as int,
                i2 <= n,
                out@ == after_up + spec_mid_lines(c, gn, i2 as int),
            decreases n - i2,
        {
            self.push_face_row(&mut out, FaceType::L, i2);
            self.push_face_row(&mut out, FaceType::F, i2);
            self.push_face_row(&mut out, FaceType::R, i2);
            self.push_face_row(&mut out, FaceType::B, i2);
            out.append(newline_str());
            proof {
                assert(out@ =~= after_up + spec_mid_lines(c, gn, i2 as int + 1));
            }
            i2 = i2 + 1;
        }
        let ghost after_mid = out@;
        let mut i3: usize = 0;
        proof {
            assert(out@ =~= after_mid + spec_down_lines(c, gn, 0));
        }
        while i3 < n
            invariant
                self.wf(),
                n == self.spec_size(),
                c == self@,
                gn == n as int,
                i3 <= n,
                out@ == after_mid + spec_down_lines(c, gn, i3 as int),
            decreases n - i3,
        {
            push_pad(&mut out, n);
            self.push_face_row(&mut out, FaceType::D, i3);
            out.append(newline_str());
            proof {
                assert(out@ =~= after_mid + spec_down_lines(c, gn, i3 as int + 1));
            }
            i3 = i3 + 1;
        }
        proof {
            assert(out@ =~= spec_render(c, gn));
        }
        out
    }

    /// Whether this cube and `other` have the same size and hold the same
    /// colour in every sticker position.
    pub fn same_state(&self, other: &Cube) -> (r: bool)
        requires
            self.wf(),
            other.wf(),
        ensures
            r == (self.spec_size() == other.spec_size() && self@ =~~= other@),
    {
        let n = self.n;
        if other.n != n {
            proof {
                assert(!(self@ =~~= other@) || self.spec_size() != other.spec_size());
            }
            return false;
        }
        let mut fi: usize = 0;
        let mut ok = true;
        while fi < 6
            invariant
                self.wf(),
                other.wf(),
                n == self.spec_size(),
                n == other.spec_size(),
                fi <= 6,
                ok == (forall|a: int, i: int, j: int|
                    0 <= a < fi && 0 <= i < n && 0 <= j < n ==> #[trigger] self@[a][i][j]
                        == other@[a][i][j]),
            decreases 6 - fi,
        {
            let ghost ok_before = ok;
            let mut i: usize = 0;
            while i < n
                invariant
                    self.wf(),
                    other.wf(),
                    n == self.spec_size(),
                    n == other.spec_size(),
                    fi < 6,
                    i <= n,
                    ok == (ok_before && forall|b: int, j: int|
                        0 <= b < i && 0 <= j < n ==> #[trigger] self@[fi as int][b][j]
                            == other@[fi as int][b][j]),
                decreases n - i,
            {
                let mut j: usize = 0;
                let ghost ok_row = ok;
                while j < n
                    invariant
                        self.wf(),
                        other.wf(),
                        n == self.spec_size(),
                        n == other.spec_size(),
                        fi < 6,
                        i < n,
                        j <= n,
                        ok == (ok_row && forall|t: int|
                            0 <= t < j ==> #[trigger] self@[fi as int][i as int][t]
                                == other@[fi as int][i as int][t]),
                    decreases n - j,
                {
                    proof {
                        assert(self.faces@.len() == self@.len());
                        assert(other.faces@.len() == other@.len());
                        assert(self@[fi as int] == self.faces@[fi as int]@);
                        assert(other@[fi as int] == other.faces@[fi as int]@);
                    }
                    let mine = self.faces[fi].get(i, j);
                    let theirs = other.faces[fi].get(i, j);
                    if mine != theirs {
                        ok = false;
                    }
                    j = j + 1;
                }
                i = i + 1;
            }
            fi = fi + 1;
        }
        proof {
            if ok {
                assert(self@ =~~= other@);
            } else {
                assert(!(self@ =~~= other@));
            }
        }
        ok
    }

    /// Performs `mv`, returning the turned cube.  The move must have been
    /// validated for this cube's size; `perform_checked` does so itself.
    pub fn perform(self, mv: Move) -> (r: Cube)
        requires
            self.wf(),
            self.spec_size() >= 1,
            mv.spec_valid_for(self.spec_size() as int),
        ensures
            r.wf(),
            r.spec_size() == self.spec_size(),
            r@ == grid_after_move(self@, self.spec_size() as int, mv),
    {
        let ghost c0 = self@;
        let ghost n = self.spec_size() as int;
        let ghost a = mv.axis;
        let ghost s = mv.start_depth as int;
        let ghost e = mv.end_depth as int;
        proof {
            reveal_with_fuel(grid_quarters, 4);
        }
        match mv.rotation_type {
            RotationType::Normal => {
                let r = self.turn_once(mv.axis, mv.start_depth, mv.end_depth);
                assert(r@ == grid_quarters(c0, n, a, s, e, 1));
                r
            },
            RotationType::Double => {
                let r1 = self.turn_once(mv.axis, mv.start_depth, mv.end_depth);
                let r = r1.turn_once(mv.axis, mv.start_depth, mv.end_depth);
                assert(r@ == grid_quarters(c0, n, a, s, e, 2));
                r
            },
            RotationType::Inverse => {
                let r1 = self.turn_once(mv.axis, mv.start_depth, mv.end_depth);
                let r2 = r1.turn_once(mv.axis, mv.start_depth, mv.end_depth);
                let r = r2.turn_once(mv.axis, mv.start_depth, mv.end_depth);
                assert(r@ == grid_quarters(c0, n, a, s, e, 3));
                r
            },
        }
    }

    /// Performs every move of `s`, in order, returning the final cube.
    pub fn perform_all(self, s: &MoveSequence) -> (r: Cube)
        requires
            self.wf(),
            self.spec_size() >= 1,
            s.spec_valid_for(self.spec_size() as int),
        ensures
            r.wf(),
            r.spec_size() == self.spec_size(),
            r@ == grid_after_moves(self@, self.spec_size() as int, s@),
    {
        let ghost c0 = self@;
        let ghost n = self.spec_size() as int;
        let len = s.len();
        let mut cube = self;
        let mut k: usize = 0;
        proof {
            assert(s@.take(0) =~= Seq::<Move>::empty());
        }
        while k < len
            invariant
                k <= len,
                len == s@.len(),
                s.spec_valid_for(n),
                cube.wf(),
                cube.spec_size() as int == n,
                n >= 1,
                cube@ == grid_after_moves(c0, n, s@.take(k as int)),
            decreases len - k,
        {
            let mv = s.get(k);
            cube = cube.perform(mv);
            proof {
                assert(s@.take(k as int + 1) =~= s@.take(k as int) + seq![mv]);
                lemma_after_moves_append(c0, n, s@.take(k as int), seq![mv]);
                lemma_after_moves_one(grid_after_moves(c0, n, s@.take(k as int)), n, mv);
            }
            k = k + 1;
        }
        proof {
            assert(s@.take(len as int) =~= s@);
        }
        cube
    }

    /// Performs `mv` if it is valid for this cube, and reports an invalid
    /// move instead of turning anything.
    pub fn perform_checked(self, mv: Move) -> (r: Option<Cube>)
        requires
            self.wf(),
            self.spec_size() >= 1,
        ensures
            match r {
                Some(c2) => {
                    &&& mv.spec_valid_for(self.spec_size() as int)
                    &&& c2.wf()
                    &&& c2.spec_size() == self.spec_size()
                    &&& c2@ == grid_after_move(self@, self.spec_size() as int, mv)
                },
                None => !mv.spec_valid_for(self.spec_size() as int),
            },
    {
        if mv.is_valid_for(self.n) {
            Some(self.perform(mv))
        } else {
            None
        }
    }

    /// A quarter turn clockwise of layers `[s, e)` about `axis`.
    fn turn_once(&self, axis: Axis, s: usize, e: usize) -> (r: Cube)
        requires
            self.wf(),
            self.spec_size() >= 1,
            s < e <= self.spec_size(),
        ensures
            r.wf(),
            r.spec_size() == self.spec_size(),
            r@ == grid_quarter(self@, self.spec_size() as int, axis, s as int, e as int),
    {
        match axis {
            Axis::FB => self.turn_fb(s, e),
            Axis::RL => self.turn_rl(s, e),
            Axis::UD => self.turn_ud(s, e),
        }
    }

    /// Builds a cube out of six freshly computed faces, in the order
    /// F R U B L D.
    fn assemble(
        n: usize,
        f: Face,
        r: Face,
        u: Face,
        b: Face,
        l: Face,
        d: Face,
    ) -> (out: Cube)
        ensures
            out.spec_size() == n,
            out@.len() == 6,
            out@[0] == f@,
            out@[1] == r@,
            out@[2] == u@,
            out@[3] == b@,
            out@[4] == l@,
            out@[5] == d@,
    {
        let mut faces: Vec<Face> = Vec::new();
        faces.push(f);
        faces.push(r);
        faces.push(u);
        faces.push(b);
        faces.push(l);
        faces.push(d);
        let out = Cube { n, faces };
        proof {
            assert forall|fi: int| 0 <= fi < 6 implies out@[fi] == out.faces@[fi]@ by {}
        }
        out
    }

    /// A quarter turn clockwise (viewed from F) of layers `[s, e)` about FB.
    fn turn_fb(&self, s: usize, e: usize) -> (r: Cube)
        requires
            self.wf(),
            self.spec_size() >= 1,
            s < e <= self.spec_size(),
        ensures
            r.wf(),
            r.spec_size() == self.spec_size(),
            r@ == grid_quarter(self@, self.spec_size() as int, Axis::FB, s as int, e as int),
    {
        let n = self.n;
        let ghost gn = n as int;
        let f_new = if s == 0 {
            self.face(FaceType::F).rotate_cw()
        } else {
            self.face(FaceType::F).duplicate()
        };
        let b_new = if e == n {
            self.face(FaceType::B).rotate_ccw()
        } else {
            self.face(FaceType::B).duplicate()
        };
        let r_new = self.face(FaceType::R).overwrite_from(
            s,
            e,
            FaceSegment::Left,
            self.face(FaceType::U),
            FaceSegment::Bottom,
        );
        let u_new = self.face(FaceType::U).overwrite_from(
            s,
            e,
            FaceSegment::Bottom,
            self.face(FaceType::L),
            FaceSegment::Right,
        );
        let l_new = self.face(FaceType::L).overwrite_from(
            s,
            e,
            FaceSegment::Right,
            self.face(FaceType::D),
            FaceSegment::Top,
        );
        let d_new = self.face(FaceType::D).overwrite_from(
            s,
            e,
            FaceSegment::Top,
            self.face(FaceType::R),
            FaceSegment::Left,
        );
        let ghost vr = r_new@;
        let ghost vu = u_new@;
        let ghost vl = l_new@;
        let ghost vd = d_new@;
        let r = Cube::assemble(n, f_new, r_new, u_new, b_new, l_new, d_new);
        proof {
            let g = grid_quarter(self@, gn, Axis::FB, s as int, e as int);
            let gs = s as int;
            let ge = e as int;
            assert forall|fi: int, i: int, j: int|
                0 <= fi < 6 && 0 <= i < gn && 0 <= j < gn implies r@[fi][i][j] == g[fi][i][j] by {
                if fi == 0 {
                    assert(r@[0][i][j] == g[0][i][j]);
                } else if fi == 1 {
                    assert(vr[i][j] == overwrite_spec(
                        self@[1], self@[2], gn, gs, ge, FaceSegment::Left, FaceSegment::Bottom, i, j));
                    assert(r@[1][i][j] == g[1][i][j]);
                } else if fi == 2 {
                    assert(vu[i][j] == overwrite_spec(
                        self@[2], self@[4], gn, gs, ge, FaceSegment::Bottom, FaceSegment::Right, i, j));
                    assert(r@[2][i][j] == g[2][i][j]);
                } else if fi == 3 {
                    assert(r@[3][i][j] == g[3][i][j]);
                } else if fi == 4 {
                    assert(vl[i][j] == overwrite_spec(
                        self@[4], self@[5], gn, gs, ge, FaceSegment::Right, FaceSegment::Top, i, j));
                    assert(r@[4][i][j] == g[4][i][j]);
                } else {
                    assert(vd[i][j] == overwrite_spec(
                        self@[5], self@[1], gn, gs, ge, FaceSegment::Top, FaceSegment::Left, i, j));
                    assert(r@[5][i][j] == g[5][i][j]);
                }
            }
            assert(r@ =~~= g);
        }
        r
    }

    /// A quarter turn clockwise (viewed from R) of layers `[s, e)` about RL.
    fn turn_rl(&self, s: usize, e: usize) -> (r: Cube)
        requires
            self.wf(),
            self.spec_size() >= 1,
            s < e <= self.spec_size(),
        ensures
            r.wf(),
            r.spec_size() == self.spec_size(),
            r@ == grid_quarter(self@, self.spec_size() as int, Axis::RL, s as int, e as int),
    {
        let n = self.n;
        let ghost gn = n as int;
        let r_new = if s == 0 {
            self.face(FaceType::R).rotate_cw()
        } else {
            self.face(FaceType::R).duplicate()
        };
        let l_new = if e == n {
            self.face(FaceType::L).rotate_ccw()
        } else {
            self.face(FaceType::L).duplicate()
        };
        let f_new = self.face(FaceType::F).overwrite_from(
            s,
            e,
            FaceSegment::Right,
            self.face(FaceType::D),
            FaceSegment::Right,
        );
        let u_new = self.face(FaceType::U).overwrite_from(
            s,
            e,
            FaceSegment::Right,
            self.face(FaceType::F),
            FaceSegment::Right,
        );
        let b_new = self.face(FaceType::B).overwrite_from(
            s,
            e,
            FaceSegment::Left,
            self.face(FaceType::U),
            FaceSegment::Right,
        );
        let d_new = self.face(FaceType::D).overwrite_from(
            s,
            e,
            FaceSegment::Right,
            self.face(FaceType::B),
            FaceSegment::Left,
        );
        let ghost vf = f_new@;
        let ghost vu = u_new@;
        let ghost vb = b_new@;
        let ghost vd = d_new@;
        let r = Cube::assemble(n, f_new, r_new, u_new, b_new, l_new, d_new);
        proof {
            let g = grid_quarter(self@, gn, Axis::RL, s as int, e as int);
            let gs = s as int;
            let ge = e as int;
            assert forall|fi: int, i: int, j: int|
                0 <= fi < 6 && 0 <= i < gn && 0 <= j < gn implies r@[fi][i][j] == g[fi][i][j] by {
                if fi == 0 {
                    assert(vf[i][j] == overwrite_spec(
                        self@[0], self@[5], gn, gs, ge, FaceSegment::Right, FaceSegment::Right, i, j));
                    assert(r@[0][i][j] == g[0][i][j]);
                } else if fi == 1 {
                    assert(r@[1][i][j] == g[1][i][j]);
                } else if fi == 2 {
                    assert(vu[i][j] == overwrite_spec(
                        self@[2], self@[0], gn, gs, ge, FaceSegment::Right, FaceSegment::Right, i, j));
                    assert(r@[2][i][j] == g[2][i][j]);
                } else if fi == 3 {
                    assert(vb[i][j] == overwrite_spec(
                        self@[3], self@[2], gn, gs, ge, FaceSegment::Left, FaceSegment::Right, i, j));
                    assert(r@[3][i][j] == g[3][i][j]);
                } else if fi == 4 {
                    assert(r@[4][i][j] == g[4][i][j]);
                } else {
                    assert(vd[i][j] == overwrite_spec(
                        self@[5], self@[3], gn, gs, ge, FaceSegment::Right, FaceSegment::Left, i, j));
                    assert(r@[5][i][j] == g[5][i][j]);
                }
            }
            assert(r@ =~~= g);
        }
        r
    }

    /// A quarter turn clockwise (viewed from U) of layers `[s, e)` about UD.
    fn turn_ud(&self, s: usize, e: usize) -> (r: Cube)
        requires
            self.wf(),
            self.spec_size() >= 1,
            s < e <= self.spec_size(),
        ensures
            r.wf(),
            r.spec_size() == self.spec_size(),
            r@ == grid_quarter(self@, self.spec_size() as int, Axis::UD, s as int, e as int),
    {
        let n = self.n;
        let ghost gn = n as int;
        let u_new = if s == 0 {
            self.face(FaceType::U).rotate_cw()
        } else {
            self.face(FaceType::U).duplicate()
        };
        let d_new = if e == n {
            self.face(FaceType::D).rotate_ccw()
        } else {
            self.face(FaceType::D).duplicate()
        };
        let f_new = self.face(FaceType::F).overwrite_from(
            s,
            e,
            FaceSegment::Top,
            self.face(FaceType::R),
            FaceSegment::Top,
        );
        let r_new = self.face(FaceType::R).overwrite_from(
            s,
            e,
            FaceSegment::Top,
            self.face(FaceType::B),
            FaceSegment::Top,
        );
        let b_new = self.face(FaceType::B).overwrite_from(
            s,
            e,
            FaceSegment::Top,
            self.face(FaceType::L),
            FaceSegment::Top,
        );
        let l_new = self.face(FaceType::L).overwrite_from(
            s,
            e,
            FaceSegment::Top,
            self.face(FaceType::F),
            FaceSegment::Top,
        );
        let ghost vf = f_new@;
        let ghost vr2 = r_new@;
        let ghost vb = b_new@;
        let ghost vl = l_new@;
        let r = Cube::assemble(n, f_new, r_new, u_new, b_new, l_new, d_new);
        proof {
            let g = grid_quarter(self@, gn, Axis::UD, s as int, e as int);
            let gs = s as int;
            let ge = e as int;
            assert forall|fi: int, i: int, j: int|
                0 <= fi < 6 && 0 <= i < gn && 0 <= j < gn implies r@[fi][i][j] == g[fi][i][j] by {
                if fi == 0 {
                    assert(vf[i][j] == overwrite_spec(
                        self@[0], self@[1], gn, gs, ge, FaceSegment::Top, FaceSegment::Top, i, j));
                    assert(r@[0][i][j] == g[0][i][j]);
                } else if fi == 1 {
                    assert(vr2[i][j] == overwrite_spec(
                        self@[1], self@[3], gn, gs, ge, FaceSegment::Top, FaceSegment::Top, i, j));
                    assert(r@[1][i][j] == g[1][i][j]);
                } else if fi == 2 {
                    assert(r@[2][i][j] == g[2][i][j]);
                } else if fi == 3 {
                    assert(vb[i][j] == overwrite_spec(
                        self@[3], self@[4], gn, gs, ge, FaceSegment::Top, FaceSegment::Top, i, j));
                    assert(r@[3][i][j] == g[3][i][j]);
                } else if fi == 4 {
                    assert(vl[i][j] == overwrite_spec(
                        self@[4], self@[0], gn, gs, ge, FaceSegment::Top, FaceSegment::Top, i, j));
                    assert(r@[4][i][j] == g[4][i][j]);
                } else {
                    assert(r@[5][i][j] == g[5][i][j]);
                }
            }
            assert(r@ =~~= g);
        }
        r
    }
}

} // verus!
