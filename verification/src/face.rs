//! A single face of the cube: an `n` by `n` grid of sticker colours with
//! row/column extraction, whole-face rotation, and cross-face line transfer.
//!
//! Row 0 is the top edge of the face as seen facing the face directly;
//! column 0 is its left edge.

use vstd::prelude::*;
use crate::primitives::Colour;
use crate::primitives::FaceType;

verus! {

/// One edge band of a face, named as seen facing the face directly.
///
/// A segment indexes the `n` lines of the face parallel to that edge:
/// layer `w` of segment Top is row `w`, of Bottom row `n - 1 - w`, of
/// Left column `w`, and of Right column `n - 1 - w`.
#[derive(Debug, Clone, Copy, PartialEq, Eq, Structural)]
pub enum FaceSegment {
    Top,
    Right,
    Bottom,
    Left,
}

/// Whether a segment's layer lines have their index increasing as one walks
/// clockwise around the face: true of Top and Right, false of Bottom and
/// Left.  When a line is copied between segments of different sense it must
/// be reversed; this is the single rule that keeps sticker orientation
/// correct across every face-to-face transfer.
pub open spec fn seg_clockwise(s: FaceSegment) -> bool {
    match s {
        FaceSegment::Top => true,
        FaceSegment::Right => true,
        FaceSegment::Bottom => false,
        FaceSegment::Left => false,
    }
}

/// The layer index of position `(i, j)` with respect to segment `s` on an
/// `n` by `n` face: how far the position is from the segment's edge.
pub open spec fn seg_layer(s: FaceSegment, n: int, i: int, j: int) -> int {
    match s {
        FaceSegment::Top => i,
        FaceSegment::Bottom => n - 1 - i,
        FaceSegment::Left => j,
        FaceSegment::Right => n - 1 - j,
    }
}

/// The position of `(i, j)` along its layer line for segment `s`: the
/// coordinate that varies as the line is walked.
pub open spec fn seg_along(s: FaceSegment, i: int, j: int) -> int {
    match s {
        FaceSegment::Top => j,
        FaceSegment::Bottom => j,
        FaceSegment::Left => i,
        FaceSegment::Right => i,
    }
}

/// The grid position of element `t` of layer `w` of segment `s` on an
/// `n` by `n` face, as a `(row, column)` pair.
pub open spec fn seg_pos(s: FaceSegment, n: int, w: int, t: int) -> (int, int) {
    match s {
        FaceSegment::Top => (w, t),
        FaceSegment::Bottom => (n - 1 - w, t),
        FaceSegment::Left => (t, w),
        FaceSegment::Right => (t, n - 1 - w),
    }
}

/// The colour at `(i, j)` after layers `start` up to (excluding) `end` of
/// segment `tseg` of `target` have been overwritten from segment `sseg` of
/// `source`, both faces being `n` by `n`.  A copied line is reversed
/// exactly when the two segments differ in clockwise sense.
pub open spec fn overwrite_spec(
    target: Seq<Seq<Colour>>,
    source: Seq<Seq<Colour>>,
    n: int,
    start: int,
    end: int,
    tseg: FaceSegment,
    sseg: FaceSegment,
    i: int,
    j: int,
) -> Colour {
    let w = seg_layer(tseg, n, i, j);
    let t = seg_along(tseg, i, j);
    if start <= w < end {
        let t2 = if seg_clockwise(sseg) != seg_clockwise(tseg) {
            n - 1 - t
        } else {
            t
        };
        let p = seg_pos(sseg, n, w, t2);
        source[p.0][p.1]
    } else {
        target[i][j]
    }
}

/// A face of an NxN cube: a square grid of colours, row-major.
#[derive(Debug, Clone)]
pub struct Face {
    rows: Vec<Vec<Colour>>,
}

impl View for Face {
    type V = Seq<Seq<Colour>>;

    closed spec fn view(&self) -> Seq<Seq<Colour>> {
        self.rows@.map_values(|r: Vec<Colour>| r@)
    }
}

impl Face {
    /// The side length of this face.
    pub open spec fn spec_side(&self) -> nat {
        self@.len()
    }

    /// Well-formedness: the grid is square.
    pub open spec fn wf(&self) -> bool {
        forall|i: int| 0 <= i < self@.len() ==> (#[trigger] self@[i]).len() == self@.len()
    }

    /// The side length of this face.
    pub fn side(&self) -> (r: usize)
        ensures
            r == self.spec_side(),
    {
        self.rows.len()
    }

    /// A fresh face of side `n`, filled with the colour of face slot `ty`.
    pub fn new(n: usize, ty: FaceType) -> (r: Face)
        ensures
            r.wf(),
            r.spec_side() == n,
            forall|i: int, j: int|
                0 <= i < n && 0 <= j < n ==> r@[i][j] == ty.spec_colour(),
    {
        let colour = ty.colour();
        let mut rows: Vec<Vec<Colour>> = Vec::new();
        let mut i: usize = 0;
        while i < n
            invariant
                colour == ty.spec_colour(),
                i <= n,
                rows@.len() == i,
                forall|a: int| 0 <= a < i ==> (#[trigger] rows@[a])@.len() == n,
                forall|a: int, b: int|
                    0 <= a < i && 0 <= b < n ==> (#[trigger] rows@[a]@[b]) == ty.spec_colour(),
            decreases n - i,
        {
            let mut row: Vec<Colour> = Vec::new();
            let mut j: usize = 0;
            while j < n
                invariant
                    colour == ty.spec_colour(),
                    j <= n,
                    row@.len() == j,
                    forall|b: int| 0 <= b < j ==> row@[b] == ty.spec_colour(),
                decreases n - j,
            {
                row.push(colour);
                j = j + 1;
            }
            rows.push(row);
            i = i + 1;
        }
        Face { rows }
    }

    /// Checks that the grid is square: every row as long as the row count.
    pub fn is_square(&self) -> (r: bool)
        ensures
            r == self.wf(),
    {
        let n = self.rows.len();
        let mut t: usize = 0;
        let mut ok = true;
        while t < n
            invariant
                t <= n,
                n == self.spec_side(),
                self.rows@.len() == n,
                forall|a: int| 0 <= a < n ==> self@[a] == (#[trigger] self.rows@[a])@,
                ok == (forall|a: int| 0 <= a < t ==> (#[trigger] self@[a]).len() == n),
            decreases n - t,
        {
            if self.rows[t].len() != n {
                ok = false;
            }
            t = t + 1;
        }
        ok
    }

    /// The colour at row `i`, column `j`.
    pub fn get(&self, i: usize, j: usize) -> (r: Colour)
        requires
            self.wf(),
            i < self.spec_side(),
            j < self.spec_side(),
        ensures
            r == self@[i as int][j as int],
    {
        self.rows[i][j]
    }

    /// An exact copy of this face.
    pub fn duplicate(&self) -> (r: Face)
        requires
            self.wf(),
        ensures
            r.wf(),
            r@ =~~= self@,
            r.spec_side() == self.spec_side(),
            forall|i: int, j: int|
                0 <= i < self.spec_side() && 0 <= j < self.spec_side()
                    ==> r@[i][j] == self@[i][j],
    {
        let n = self.rows.len();
        let mut rows: Vec<Vec<Colour>> = Vec::new();
        let mut i: usize = 0;
        while i < n
            invariant
                self.wf(),
                n == self.spec_side(),
                i <= n,
                rows@.len() == i,
                forall|a: int| 0 <= a < i ==> (#[trigger] rows@[a])@ == self@[a],
            decreases n - i,
        {
            rows.push(self.row(i));
            i = i + 1;
        }
        let r = Face { rows };
        assert(r@ =~~= self@);
        r
    }

    /// Row `i` of the face, left to right.
    pub fn row(&self, i: usize) -> (line: Vec<Colour>)
        requires
            self.wf(),
            i < self.spec_side(),
        ensures
            line@ == self@[i as int],
            line@.len() == self.spec_side(),
    {
        let n = self.rows.len();
        let mut line: Vec<Colour> = Vec::new();
        let mut t: usize = 0;
        while t < n
            invariant
                self.wf(),
                n == self.spec_side(),
                i < n,
                t <= n,
                line@.len() == t,
                forall|b: int| 0 <= b < t ==> line@[b] == self@[i as int][b],
            decreases n - t,
        {
            line.push(self.get(i, t));
            t = t + 1;
        }
        assert(line@ =~= self@[i as int]);
        line
    }

    /// Row `i` of the face, right to left.
    pub fn row_rev(&self, i: usize) -> (line: Vec<Colour>)
        requires
            self.wf(),
            i < self.spec_side(),
        ensures
            line@.len() == self.spec_side(),
            forall|t: int|
                0 <= t < self.spec_side()
                    ==> line@[t] == self@[i as int][self.spec_side() - 1 - t],
    {
        let n = self.rows.len();
        let mut line: Vec<Colour> = Vec::new();
        let mut t: usize = 0;
        while t < n
            invariant
                self.wf(),
                n == self.spec_side(),
                i < n,
                t <= n,
                line@.len() == t,
                forall|b: int| 0 <= b < t ==> line@[b] == self@[i as int][n - 1 - b],
            decreases n - t,
        {
            line.push(self.get(i, n - 1 - t));
            t = t + 1;
        }
        line
    }

    /// Column `j` of the face, top to bottom.
    pub fn col(&self, j: usize) -> (line: Vec<Colour>)
        requires
            self.wf(),
            j < self.spec_side(),
        ensures
            line@.len() == self.spec_side(),
            forall|t: int| 0 <= t < self.spec_side() ==> line@[t] == self@[t][j as int],
    {
        let n = self.rows.len();
        let mut line: Vec<Colour> = Vec::new();
        let mut t: usize = 0;
        while t < n
            invariant
                self.wf(),
                n == self.spec_side(),
                j < n,
                t <= n,
                line@.len() == t,
                forall|b: int| 0 <= b < t ==> line@[b] == self@[b][j as int],
            decreases n - t,
        {
            line.push(self.get(t, j));
            t = t + 1;
        }
        line
    }

    /// Column `j` of the face, bottom to top.
    pub fn col_rev(&self, j: usize) -> (line: Vec<Colour>)
        requires
            self.wf(),
            j < self.spec_side(),
        ensures
            line@.len() == self.spec_side(),
            forall|t: int|
                0 <= t < self.spec_side()
                    ==> line@[t] == self@[self.spec_side() - 1 - t][j as int],
    {
        let n = self.rows.len();
        let mut line: Vec<Colour> = Vec::new();
        let mut t: usize = 0;
        while t < n
            invariant
                self.wf(),
                n == self.spec_side(),
                j < n,
                t <= n,
                line@.len() == t,
                forall|b: int| 0 <= b < t ==> line@[b] == self@[n - 1 - b][j as int],
            decreases n - t,
        {
            line.push(self.get(n - 1 - t, j));
            t = t + 1;
        }
        line
    }

    /// The face rotated a quarter turn clockwise.
    pub fn rotate_cw(&self) -> (r: Face)
        requires
            self.wf(),
        ensures
            r.wf(),
            r.spec_side() == self.spec_side(),
            forall|i: int, j: int|
                0 <= i < self.spec_side() && 0 <= j < self.spec_side()
                    ==> r@[i][j] == self@[self.spec_side() - 1 - j][i],
    {
        let n = self.rows.len();
        let mut rows: Vec<Vec<Colour>> = Vec::new();
        let mut i: usize = 0;
        while i < n
            invariant
                self.wf(),
                n == self.spec_side(),
                i <= n,
                rows@.len() == i,
                forall|a: int| 0 <= a < i ==> (#[trigger] rows@[a])@.len() == n,
                forall|a: int, b: int|
                    0 <= a < i && 0 <= b < n
                        ==> (#[trigger] rows@[a]@[b]) == self@[n - 1 - b][a],
            decreases n - i,
        {
            rows.push(self.col_rev(i));
            i = i + 1;
        }
        Face { rows }
    }

    /// The face rotated a quarter turn counter-clockwise.
    pub fn rotate_ccw(&self) -> (r: Face)
        requires
            self.wf(),
        ensures
            r.wf(),
            r.spec_side() == self.spec_side(),
            forall|i: int, j: int|
                0 <= i < self.spec_side() && 0 <= j < self.spec_side()
                    ==> r@[i][j] == self@[j][self.spec_side() - 1 - i],
    {
        let n = self.rows.len();
        let mut rows: Vec<Vec<Colour>> = Vec::new();
        let mut i: usize = 0;
        while i < n
            invariant
                self.wf(),
                n == self.spec_side(),
                i <= n,
                rows@.len() == i,
                forall|a: int| 0 <= a < i ==> (#[trigger] rows@[a])@.len() == n,
                forall|a: int, b: int|
                    0 <= a < i && 0 <= b < n
                        ==> (#[trigger] rows@[a]@[b]) == self@[b][n - 1 - a],
            decreases n - i,
        {
            rows.push(self.col(n - 1 - i));
            i = i + 1;
        }
        Face { rows }
    }

    /// The face rotated a half turn.
    pub fn rotate_double(&self) -> (r: Face)
        requires
            self.wf(),
        ensures
            r.wf(),
            r.spec_side() == self.spec_side(),
            forall|i: int, j: int|
                0 <= i < self.spec_side() && 0 <= j < self.spec_side()
                    ==> r@[i][j] == self@[self.spec_side() - 1 - i][self.spec_side() - 1 - j],
    {
        let n = self.rows.len();
        let mut rows: Vec<Vec<Colour>> = Vec::new();
        let mut i: usize = 0;
        while i < n
            invariant
                self.wf(),
                n == self.spec_side(),
                i <= n,
                rows@.len() == i,
                forall|a: int| 0 <= a < i ==> (#[trigger] rows@[a])@.len() == n,
                forall|a: int, b: int|
                    0 <= a < i && 0 <= b < n
                        ==> (#[trigger] rows@[a]@[b]) == self@[n - 1 - a][n - 1 - b],
            decreases n - i,
        {
            rows.push(self.row_rev(n - 1 - i));
            i = i + 1;
        }
        Face { rows }
    }

    /// Replaces row `i` with `line`.
    pub fn set_row(&mut self, i: usize, line: Vec<Colour>)
        requires
            old(self).wf(),
            i < old(self).spec_side(),
            line@.len() == old(self).spec_side(),
        ensures
            final(self).wf(),
            final(self).spec_side() == old(self).spec_side(),
            forall|a: int, b: int|
                0 <= a < old(self).spec_side() && 0 <= b < old(self).spec_side()
                    ==> final(self)@[a][b] == if a == i {
                        line@[b]
                    } else {
                        old(self)@[a][b]
                    },
    {
        let ghost before = *self;
        self.rows[i] = line;
        proof {
            assert(self.rows@ == before.rows@.update(i as int, line));
            assert forall|a: int| 0 <= a < self@.len() implies #[trigger] self@[a] == (if a
                == i as int {
                line@
            } else {
                before@[a]
            }) by {
                assert(self@[a] == self.rows@[a]@);
            }
        }
    }

    /// Replaces column `j` with `line`, read top to bottom.
    pub fn set_col(&mut self, j: usize, line: Vec<Colour>)
        requires
            old(self).wf(),
            j < old(self).spec_side(),
            line@.len() == old(self).spec_side(),
        ensures
            final(self).wf(),
            final(self).spec_side() == old(self).spec_side(),
            forall|a: int, b: int|
                0 <= a < old(self).spec_side() && 0 <= b < old(self).spec_side()
                    ==> final(self)@[a][b] == if b == j {
                        line@[a]
                    } else {
                        old(self)@[a][b]
                    },
    {
        let n = self.rows.len();
        let mut t: usize = 0;
        while t < n
            invariant
                old(self).wf(),
                self.wf(),
                n == old(self).spec_side(),
                self.spec_side() == n,
                j < n,
                line@.len() == n,
                t <= n,
                forall|a: int, b: int|
                    0 <= a < n && 0 <= b < n
                        ==> #[trigger] self@[a][b] == if b == j && a < t {
                            line@[a]
                        } else {
                            old(self)@[a][b]
                        },
            decreases n - t,
        {
            let c = line[t];
            self.set_cell(t, j, c);
            t = t + 1;
        }
    }

    /// Replaces the single sticker at row `i`, column `j`.
    pub fn set_cell(&mut self, i: usize, j: usize, c: Colour)
        requires
            old(self).wf(),
            i < old(self).spec_side(),
            j < old(self).spec_side(),
        ensures
            final(self).wf(),
            final(self).spec_side() == old(self).spec_side(),
            forall|a: int, b: int|
                0 <= a < old(self).spec_side() && 0 <= b < old(self).spec_side()
                    ==> #[trigger] final(self)@[a][b] == if a == i && b == j {
                        c
                    } else {
                        old(self)@[a][b]
                    },
    {
        let ghost before = *self;
        proof {
            assert(self.rows@.len() == self@.len());
            assert(self.rows@[i as int]@ == self@[i as int]);
        }
        self.rows[i][j] = c;
        proof {
            assert(self.rows@[i as int]@ == before.rows@[i as int]@.update(j as int, c));
            assert forall|a: int| 0 <= a < self@.len() implies #[trigger] self@[a] == (if a
                == i as int {
                before@[a].update(j as int, c)
            } else {
                before@[a]
            }) by {
                assert(self@[a] == self.rows@[a]@);
                assert(before@[a] == before.rows@[a]@);
            }
        }
    }

    /// A copy of this face with row `i` replaced by `line`.
    pub fn overwrite_row(&self, i: usize, line: Vec<Colour>) -> (r: Face)
        requires
            self.wf(),
            i < self.spec_side(),
            line@.len() == self.spec_side(),
        ensures
            r.wf(),
            r.spec_side() == self.spec_side(),
            forall|a: int, b: int|
                0 <= a < self.spec_side() && 0 <= b < self.spec_side()
                    ==> r@[a][b] == if a == i {
                        line@[b]
                    } else {
                        self@[a][b]
                    },
    {
        let mut face = self.duplicate();
        face.set_row(i, line);
        face
    }

    /// A copy of this face with column `j` replaced by `line`.
    pub fn overwrite_col(&self, j: usize, line: Vec<Colour>) -> (r: Face)
        requires
            self.wf(),
            j < self.spec_side(),
            line@.len() == self.spec_side(),
        ensures
            r.wf(),
            r.spec_side() == self.spec_side(),
            forall|a: int, b: int|
                0 <= a < self.spec_side() && 0 <= b < self.spec_side()
                    ==> r@[a][b] == if b == j {
                        line@[a]
                    } else {
                        self@[a][b]
                    },
    {
        let mut face = self.duplicate();
        face.set_col(j, line);
        face
    }

    /// A copy of this face in which layers `start` up to (excluding) `end`
    /// of segment `tseg` are overwritten from segment `sseg` of `source`.
    /// Each copied line is reversed exactly when the two segments differ in
    /// clockwise sense.
    pub fn overwrite_from(
        &self,
        start: usize,
        end: usize,
        tseg: FaceSegment,
        source: &Face,
        sseg: FaceSegment,
    ) -> (r: Face)
        requires
            self.wf(),
            source.wf(),
            source.spec_side() == self.spec_side(),
            start <= end <= self.spec_side(),
        ensures
            r.wf(),
            r.spec_side() == self.spec_side(),
            forall|i: int, j: int|
                0 <= i < self.spec_side() && 0 <= j < self.spec_side()
                    ==> r@[i][j] == overwrite_spec(
                        self@,
                        source@,
                        self.spec_side() as int,
                        start as int,
                        end as int,
                        tseg,
                        sseg,
                        i,
                        j,
                    ),
    {
        let n = self.rows.len();
        let reverse = seg_clockwise_exec(sseg) != seg_clockwise_exec(tseg);
        let mut face = self.duplicate();
        let mut w: usize = start;
        while w < end
            invariant
                self.wf(),
                source.wf(),
                face.wf(),
                n == self.spec_side(),
                source.spec_side() == n,
                face.spec_side() == n,
                start <= w <= end <= n,
                reverse == (seg_clockwise(sseg) != seg_clockwise(tseg)),
                forall|i: int, j: int|
                    0 <= i < n && 0 <= j < n
                        ==> face@[i][j] == overwrite_spec(
                            self@,
                            source@,
                            n as int,
                            start as int,
                            w as int,
                            tseg,
                            sseg,
                            i,
                            j,
                        ),
            decreases end - w,
        {
            let line = match sseg {
                FaceSegment::Top => if reverse {
                    source.row_rev(w)
                } else {
                    source.row(w)
                },
                FaceSegment::Right => if reverse {
                    source.col_rev(n - 1 - w)
                } else {
                    source.col(n - 1 - w)
                },
                FaceSegment::Bottom => if reverse {
                    source.row_rev(n - 1 - w)
                } else {
                    source.row(n - 1 - w)
                },
                FaceSegment::Left => if reverse {
                    source.col_rev(w)
                } else {
                    source.col(w)
                },
            };
            assert(forall|t: int|
                0 <= t < n ==> line@[t] == {
                    let t2 = if seg_clockwise(sseg) != seg_clockwise(tseg) {
                        n - 1 - t
                    } else {
                        t
                    };
                    let p = seg_pos(sseg, n as int, w as int, t2);
                    source@[p.0][p.1]
                });
            let ghost fprev = face;
            match tseg {
                FaceSegment::Top => face.set_row(w, line),
                FaceSegment::Right => face.set_col(n - 1 - w, line),
                FaceSegment::Bottom => face.set_row(n - 1 - w, line),
                FaceSegment::Left => face.set_col(w, line),
            }
            proof {
                assert forall|i: int, j: int| 0 <= i < n && 0 <= j < n implies face@[i][j]
                    == overwrite_spec(
                    self@,
                    source@,
                    n as int,
                    start as int,
                    w as int + 1,
                    tseg,
                    sseg,
                    i,
                    j,
                ) by {
                    let wl = seg_layer(tseg, n as int, i, j);
                    let t = seg_along(tseg, i, j);
                    let t2 = if seg_clockwise(sseg) != seg_clockwise(tseg) {
                        n - 1 - t
                    } else {
                        t
                    };
                    let p = seg_pos(sseg, n as int, wl, t2);
                    assert(fprev@[i][j] == overwrite_spec(
                        self@,
                        source@,
                        n as int,
                        start as int,
                        w as int,
                        tseg,
                        sseg,
                        i,
                        j,
                    ));
                }
            }
            w = w + 1;
        }
        face
    }
}

/// Whether a segment's layer lines run clockwise; see [`seg_clockwise`].
pub fn seg_clockwise_exec(s: FaceSegment) -> (r: bool)
    ensures
        r == seg_clockwise(s),
{
    match s {
        FaceSegment::Top => true,
        FaceSegment::Right => true,
        FaceSegment::Bottom => false,
        FaceSegment::Left => false,
    }
}

} // verus!
