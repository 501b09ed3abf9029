//! One pass over the cells of a parameter grid, deciding which intervals of
//! each axis are to be split.
//!
//! The grid has `rows` intervals on its first axis and `cols` on its second;
//! cell `(i, j)` is the product of interval `i` and interval `j`. Whether a
//! cell is far from the surface it stands for is judged elsewhere. The scan
//! says which cell to judge next, takes the verdict, and flags both intervals
//! of a cell that was found far. A cell whose two intervals are flagged
//! already is passed over: no verdict on it could change anything.

use vstd::prelude::*;

verus! {

/// Whether cell `a` comes before cell `b` when the grid is read row by row.
pub open spec fn precedes(a: (int, int), b: (int, int)) -> bool {
    a.0 < b.0 || (a.0 == b.0 && a.1 < b.1)
}

/// Whether both intervals of cell `(i, j)` are flagged.
pub open spec fn settled(row_flags: Seq<bool>, col_flags: Seq<bool>, i: int, j: int) -> bool {
    row_flags[i] && col_flags[j]
}

/// Whether every cell strictly between `from` and `to` is settled.
pub open spec fn settled_between(
    row_flags: Seq<bool>,
    col_flags: Seq<bool>,
    from: (int, int),
    to: (int, int),
) -> bool {
    forall|i: int, j: int|
        0 <= i < row_flags.len() && 0 <= j < col_flags.len() && precedes(from, (i, j)) && precedes(
            (i, j),
            to,
        ) ==> #[trigger] settled(row_flags, col_flags, i, j)
}

/// Whether `next` is what follows `from` in a scan with these flags: the
/// first cell after `from` that is not settled, or nothing when every later
/// cell is settled.
pub open spec fn follows(
    row_flags: Seq<bool>,
    col_flags: Seq<bool>,
    from: (int, int),
    next: Option<(int, int)>,
) -> bool {
    match next {
        Some(cell) => {
            &&& 0 <= cell.0 < row_flags.len()
            &&& 0 <= cell.1 < col_flags.len()
            &&& precedes(from, cell)
            &&& !settled(row_flags, col_flags, cell.0, cell.1)
            &&& settled_between(row_flags, col_flags, from, cell)
        },
        None => settled_between(row_flags, col_flags, from, (row_flags.len() as int, 0)),
    }
}

/// Whether interval `i` of the first axis has a cell in `far`.
pub open spec fn row_hit(far: Set<(int, int)>, cols: int, i: int) -> bool {
    exists|j: int| 0 <= j < cols && #[trigger] far.contains((i, j))
}

/// Whether interval `j` of the second axis has a cell in `far`.
pub open spec fn col_hit(far: Set<(int, int)>, rows: int, j: int) -> bool {
    exists|i: int| 0 <= i < rows && #[trigger] far.contains((i, j))
}

/// The state of one pass over a grid.
pub struct CellScan {
    row_flags: Vec<bool>,
    col_flags: Vec<bool>,
    row: usize,
    col: usize,
    far: Ghost<Set<(int, int)>>,
}

impl CellScan {
    #[verifier::type_invariant]
    spec fn well_formed(self) -> bool {
        let rows = self.row_flags@.len() as int;
        let cols = self.col_flags@.len() as int;
        &&& self.row <= rows
        &&& if self.row < rows {
            self.col < cols && !settled(
                self.row_flags@,
                self.col_flags@,
                self.row as int,
                self.col as int,
            )
        } else {
            self.col == 0
        }
        &&& forall|i: int, j: int| #[trigger]
            self.far@.contains((i, j)) ==> 0 <= i < rows && 0 <= j < cols && precedes(
                (i, j),
                (self.row as int, self.col as int),
            )
        &&& forall|i: int| 0 <= i < rows ==> (#[trigger] self.row_flags@[i] <==> row_hit(self.far@, cols, i))
        &&& forall|j: int| 0 <= j < cols ==> (#[trigger] self.col_flags@[j] <==> col_hit(self.far@, rows, j))
    }

    /// The flags of the first axis, one for each of its intervals.
    pub closed spec fn row_flags(&self) -> Seq<bool> {
        self.row_flags@
    }

    /// The flags of the second axis, one for each of its intervals.
    pub closed spec fn col_flags(&self) -> Seq<bool> {
        self.col_flags@
    }

    /// The cells that were judged far so far.
    pub closed spec fn far_cells(&self) -> Set<(int, int)> {
        self.far@
    }

    /// The cell that awaits its verdict, if the pass is not over.
    pub closed spec fn pending(&self) -> Option<(int, int)> {
        if self.row < self.row_flags@.len() {
            Some((self.row as int, self.col as int))
        } else {
            None
        }
    }

    /// Whether the flags are what the verdicts make them: an interval is
    /// flagged exactly when one of its cells was judged far.
    pub open spec fn flags_match(&self) -> bool {
        &&& forall|i: int|
            0 <= i < self.row_flags().len() ==> (#[trigger] self.row_flags()[i] <==> row_hit(
                self.far_cells(),
                self.col_flags().len() as int,
                i,
            ))
        &&& forall|j: int|
            0 <= j < self.col_flags().len() ==> (#[trigger] self.col_flags()[j] <==> col_hit(
                self.far_cells(),
                self.row_flags().len() as int,
                j,
            ))
    }

    /// Starts a pass over a grid of `rows` by `cols` cells: nothing is
    /// flagged, and the first cell awaits its verdict if the grid has one.
    pub fn new(rows: usize, cols: usize) -> (scan: CellScan)
        ensures
            scan.row_flags() == Seq::new(rows as nat, |i: int| false),
            scan.col_flags() == Seq::new(cols as nat, |j: int| false),
            scan.far_cells() == Set::<(int, int)>::empty(),
            scan.pending() == if rows > 0 && cols > 0 {
                Some((0int, 0int))
            } else {
                None
            },
    {
        let row_flags = cleared(rows);
        let col_flags = cleared(cols);
        let row: usize = if cols > 0 {
            0
        } else {
            rows
        };
        CellScan { row_flags, col_flags, row, col: 0, far: Ghost(Set::empty()) }
    }

    /// The cell to judge next, or `None` when the pass is over.
    pub fn pending_cell(&self) -> (cell: Option<(usize, usize)>)
        ensures
            match cell {
                Some(c) => self.pending() == Some((c.0 as int, c.1 as int)),
                None => self.pending().is_none(),
            },
    {
        if self.row < self.row_flags.len() {
            Some((self.row, self.col))
        } else {
            None
        }
    }

    /// Takes the verdict on the pending cell. A far cell has both its
    /// intervals flagged. The scan then moves on to the first later cell that
    /// is not settled.
    pub fn record(self, far: bool) -> (next: CellScan)
        requires
            self.pending().is_some(),
        ensures
            next.far_cells() == if far {
                self.far_cells().insert(self.pending().unwrap())
            } else {
                self.far_cells()
            },
            next.row_flags() == if far {
                self.row_flags().update(self.pending().unwrap().0, true)
            } else {
                self.row_flags()
            },
            next.col_flags() == if far {
                self.col_flags().update(self.pending().unwrap().1, true)
            } else {
                self.col_flags()
            },
            follows(next.row_flags(), next.col_flags(), self.pending().unwrap(), next.pending()),
    {
        proof {
            use_type_invariant(&self);
        }
        let ghost cur = (self.row as int, self.col as int);
        let ghost far_before = self.far@;
        let ghost rf_before = self.row_flags@;
        let ghost cf_before = self.col_flags@;
        let row = self.row;
        let col = self.col;
        let mut row_flags = self.row_flags;
        let mut col_flags = self.col_flags;
        let rows = row_flags.len();
        let cols = col_flags.len();
        if far {
            row_flags.set(row, true);
            col_flags.set(col, true);
        }
        let ghost far_after = if far {
            far_before.insert(cur)
        } else {
            far_before
        };
        let ghost rf = row_flags@;
        let ghost cf = col_flags@;
        proof {
            assert forall|i: int| 0 <= i < rows implies (#[trigger] rf[i] <==> row_hit(
                far_after,
                cols as int,
                i,
            )) by {
                if rf_before[i] {
                    let j = choose|j: int| 0 <= j < cols && #[trigger] far_before.contains((i, j));
                    assert(far_after.contains((i, j)));
                }
                if row_hit(far_after, cols as int, i) {
                    let j = choose|j: int| 0 <= j < cols && #[trigger] far_after.contains((i, j));
                    if (i, j) != cur {
                        assert(far_before.contains((i, j)));
                    }
                }
                if far && i == cur.0 {
                    assert(far_after.contains((i, cur.1)));
                }
            }
            assert forall|j: int| 0 <= j < cols implies (#[trigger] cf[j] <==> col_hit(
                far_after,
                rows as int,
                j,
            )) by {
                if cf_before[j] {
                    let i = choose|i: int| 0 <= i < rows && #[trigger] far_before.contains((i, j));
                    assert(far_after.contains((i, j)));
                }
                if col_hit(far_after, rows as int, j) {
                    let i = choose|i: int| 0 <= i < rows && #[trigger] far_after.contains((i, j));
                    if (i, j) != cur {
                        assert(far_before.contains((i, j)));
                    }
                }
                if far && j == cur.1 {
                    assert(far_after.contains((cur.0, j)));
                }
            }
        }
        let mut i: usize = row;
        let mut j: usize = col + 1;
        let mut found = false;
        while i < rows && !found
            invariant
                rows == rf.len(),
                cols == cf.len(),
                row_flags@ == rf,
                col_flags@ == cf,
                cur.0 <= i <= rows,
                j <= cols,
                i == rows ==> j == 0,
                precedes(cur, (i as int, j as int)),
                found ==> i < rows && j < cols && !settled(rf, cf, i as int, j as int),
                settled_between(rf, cf, cur, (i as int, j as int)),
            decreases rows - i, cols - j, !found as int,
        {
            if j >= cols {
                i = i + 1;
                j = 0;
            } else if row_flags[i] && col_flags[j] {
                assert(settled(rf, cf, i as int, j as int));
                j = j + 1;
            } else {
                found = true;
            }
        }
        CellScan { row_flags, col_flags, row: i, col: j, far: Ghost(far_after) }
    }

    /// Ends the pass and hands out the flags of the two axes.
    pub fn into_flags(self) -> (flags: (Vec<bool>, Vec<bool>))
        ensures
            flags.0@ == self.row_flags(),
            flags.1@ == self.col_flags(),
            self.flags_match(),
    {
        proof {
            use_type_invariant(&self);
        }
        (self.row_flags, self.col_flags)
    }
}

/// A vector of `len` cleared flags.
fn cleared(len: usize) -> (flags: Vec<bool>)
    ensures
        flags@ == Seq::new(len as nat, |i: int| false),
{
    let mut flags: Vec<bool> = Vec::new();
    let mut k: usize = 0;
    while k < len
        invariant
            k <= len,
            flags@ == Seq::new(k as nat, |i: int| false),
        decreases len - k,
    {
        flags.push(false);
        proof {
            assert(flags@ =~= Seq::new((k + 1) as nat, |i: int| false));
        }
        k = k + 1;
    }
    flags
}

/// Whether `far` may call the cell `(i, j)` of the grid with the breakpoints
/// `udiv` and `vdiv` far, if `verdict` is set, or near, if it is not.
pub open spec fn calls<T, F: Fn(T, T, T, T) -> bool>(
    far: &F,
    udiv: Seq<T>,
    vdiv: Seq<T>,
    i: int,
    j: int,
    verdict: bool,
) -> bool {
    call_ensures(*far, (udiv[i], udiv[i + 1], vdiv[j], vdiv[j + 1]), verdict)
}

/// Whether the flags `rows` and `cols` can be what a pass over the grid with
/// the breakpoints `udiv` and `vdiv` ends with, `hits` being the cells found
/// far: each of them is a cell that `far` may call far, an interval is
/// flagged exactly when one of its cells is among them, and every cell with
/// an interval left unflagged is one that `far` may call near.
pub open spec fn judged<T, F: Fn(T, T, T, T) -> bool>(
    far: &F,
    udiv: Seq<T>,
    vdiv: Seq<T>,
    rows: Seq<bool>,
    cols: Seq<bool>,
    hits: Set<(int, int)>,
) -> bool {
    &&& udiv.len() == rows.len() + 1
    &&& vdiv.len() == cols.len() + 1
    &&& forall|i: int, j: int| #[trigger]
        hits.contains((i, j)) ==> 0 <= i < rows.len() && 0 <= j < cols.len() && calls(
            far,
            udiv,
            vdiv,
            i,
            j,
            true,
        )
    &&& forall|i: int| 0 <= i < rows.len() ==> (#[trigger] rows[i] <==> row_hit(hits, cols.len() as int, i))
    &&& forall|j: int| 0 <= j < cols.len() ==> (#[trigger] cols[j] <==> col_hit(hits, rows.len() as int, j))
    &&& forall|i: int, j: int|
        0 <= i < rows.len() && 0 <= j < cols.len() && !#[trigger] settled(rows, cols, i, j)
            ==> calls(far, udiv, vdiv, i, j, false)
}

/// Makes one pass over the grid with the breakpoints `udiv` and `vdiv`,
/// asking `far` about each cell in turn, row by row, unless both its
/// intervals are flagged by then. A cell is put to `far` as the two ends of
/// its interval on the first axis and the two ends of its interval on the
/// second. Gives the flags of the two axes.
pub fn judge_cells<T: Copy, F: Fn(T, T, T, T) -> bool>(udiv: &Vec<T>, vdiv: &Vec<T>, far: &F) -> (flags:
    (Vec<bool>, Vec<bool>))
    requires
        udiv@.len() > 0,
        vdiv@.len() > 0,
        forall|a: T, b: T, c: T, d: T| call_requires(*far, (a, b, c, d)),
    ensures
        exists|hits: Set<(int, int)>| #[trigger] judged(far, udiv@, vdiv@, flags.0@, flags.1@, hits),
{
    let rows = udiv.len() - 1;
    let cols = vdiv.len() - 1;
    let mut scan = CellScan::new(rows, cols);
    let ghost mut near: Set<(int, int)> = Set::empty();
    loop
        invariant
            forall|a: T, b: T, c: T, d: T| call_requires(*far, (a, b, c, d)),
            udiv@.len() == rows + 1,
            vdiv@.len() == cols + 1,
            scan.row_flags().len() == rows,
            scan.col_flags().len() == cols,
            forall|i: int, j: int| #[trigger]
                scan.far_cells().contains((i, j)) ==> 0 <= i < rows && 0 <= j < cols && calls(
                    far,
                    udiv@,
                    vdiv@,
                    i,
                    j,
                    true,
                ),
            forall|i: int, j: int| #[trigger]
                near.contains((i, j)) ==> calls(far, udiv@, vdiv@, i, j, false),
            forall|i: int, j: int|
                0 <= i < rows && 0 <= j < cols && precedes(
                    (i, j),
                    match scan.pending() {
                        Some(cell) => cell,
                        None => (rows as int, 0int),
                    },
                ) ==> #[trigger] settled(scan.row_flags(), scan.col_flags(), i, j)
                    || near.contains((i, j)),
            scan.pending() matches Some(cell) ==> 0 <= cell.0 < rows && 0 <= cell.1 < cols,
        decreases
                match scan.pending() {
                    Some(cell) => rows - cell.0,
                    None => 0,
                },
                match scan.pending() {
                    Some(cell) => cols - cell.1,
                    None => 0,
                },
    {
        match scan.pending_cell() {
            None => {
                let ghost hits = scan.far_cells();
                let flags = scan.into_flags();
                proof {
                    assert forall|i: int, j: int|
                        0 <= i < rows && 0 <= j < cols && !#[trigger] settled(
                            flags.0@,
                            flags.1@,
                            i,
                            j,
                        ) implies calls(far, udiv@, vdiv@, i, j, false) by {
                        assert(precedes((i, j), (rows as int, 0int)));
                        assert(near.contains((i, j)));
                    }
                    assert(judged(far, udiv@, vdiv@, flags.0@, flags.1@, hits));
                }
                return flags;
            },
            Some(cell) => {
                let verdict = far(udiv[cell.0], udiv[cell.0 + 1], vdiv[cell.1], vdiv[cell.1 + 1]);
                let ghost here = (cell.0 as int, cell.1 as int);
                let ghost before = scan;
                proof {
                    assert(calls(far, udiv@, vdiv@, here.0, here.1, verdict));
                    if !verdict {
                        near = near.insert(here);
                    }
                }
                scan = scan.record(verdict);
                proof {
                    let rf = scan.row_flags();
                    let cf = scan.col_flags();
                    let to = match scan.pending() {
                        Some(c) => c,
                        None => (rows as int, 0int),
                    };
                    assert forall|i: int, j: int|
                        0 <= i < rows && 0 <= j < cols && precedes((i, j), to) implies #[trigger] settled(
                            rf,
                            cf,
                            i,
                            j,
                        ) || near.contains((i, j)) by {
                        if precedes((i, j), here) {
                            assert(settled(before.row_flags(), before.col_flags(), i, j)
                                || near.contains((i, j)));
                        } else if (i, j) == here {
                        } else {
                            assert(precedes(here, (i, j)));
                            assert(settled_between(rf, cf, here, to));
                        }
                    }
                }
            },
        }
    }
}

/// Judging more cells far never clears a flag: of two passes over grids of
/// one shape, the one whose far cells include the other's flags every
/// interval that the other flags.
pub proof fn lemma_flags_monotone(loose: CellScan, tight: CellScan)
    requires
        loose.flags_match(),
        tight.flags_match(),
        loose.row_flags().len() == tight.row_flags().len(),
        loose.col_flags().len() == tight.col_flags().len(),
        loose.far_cells().subset_of(tight.far_cells()),
    ensures
        forall|i: int|
            0 <= i < loose.row_flags().len() && loose.row_flags()[i] ==> tight.row_flags()[i],
        forall|j: int|
            0 <= j < loose.col_flags().len() && loose.col_flags()[j] ==> tight.col_flags()[j],
{
    let rows = loose.row_flags().len() as int;
    let cols = loose.col_flags().len() as int;
    assert forall|i: int| 0 <= i < rows && loose.row_flags()[i] implies tight.row_flags()[i] by {
        let j = choose|j: int| 0 <= j < cols && #[trigger] loose.far_cells().contains((i, j));
        assert(tight.far_cells().contains((i, j)));
    }
    assert forall|j: int| 0 <= j < cols && loose.col_flags()[j] implies tight.col_flags()[j] by {
        let i = choose|i: int| 0 <= i < rows && #[trigger] loose.far_cells().contains((i, j));
        assert(tight.far_cells().contains((i, j)));
    }
}

} // verus!
