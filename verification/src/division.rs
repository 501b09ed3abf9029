//! Steps of the subdivision of a parameter domain into a grid of cells.
//!
//! A subdivision starts from the one cell that spans the domain. Each pass
//! judges the cells of the current grid, flags the intervals of the cells
//! found far from the surface, and splits the flagged intervals of both axes.
//! The subdivision is over after the first pass that flags nothing.

use crate::refine::axis_shaped;
use crate::refine::lemma_count_set_zero;
use crate::refine::lemma_refined_holds;
use crate::refine::lemma_refined_len;
use crate::refine::refine;
use crate::refine::refined;
use crate::scan::calls;
use crate::scan::judge_cells;
use crate::scan::judged;
use crate::scan::settled;
use vstd::prelude::*;

verus! {

/// How a pass left the grid.
pub enum Pass<T> {
    /// Nothing was flagged: these are the final breakpoints of the two axes.
    Settled(Vec<T>, Vec<T>),
    /// Something was flagged: these are the breakpoints for the next pass.
    Refined(Vec<T>, Vec<T>),
}

/// Whether none of `flags` is set.
pub open spec fn all_clear(flags: Seq<bool>) -> bool {
    forall|i: int| 0 <= i < flags.len() ==> !flags[i]
}

/// The axis that a subdivision starts from: the two ends of `range`.
pub fn whole_range<T: Copy>(range: (T, T)) -> (div: Vec<T>)
    ensures
        div@ == seq![range.0, range.1],
{
    let mut div: Vec<T> = Vec::new();
    div.push(range.0);
    div.push(range.1);
    proof {
        assert(div@ =~= seq![range.0, range.1]);
    }
    div
}

/// Ends a pass. If no interval of either axis is flagged, the grid is
/// settled and handed back as it is. Otherwise the flagged intervals of both
/// axes are split at their midpoints, which gives strictly more breakpoints.
pub fn refine_grid<T: Copy>(
    udiv: Vec<T>,
    vdiv: Vec<T>,
    umids: &Vec<T>,
    vmids: &Vec<T>,
    uflags: &Vec<bool>,
    vflags: &Vec<bool>,
) -> (pass: Pass<T>)
    requires
        axis_shaped(udiv@, umids@, uflags@),
        axis_shaped(vdiv@, vmids@, vflags@),
    ensures
        pass is Settled <==> all_clear(uflags@) && all_clear(vflags@),
        pass matches Pass::Refined(u, v) ==> u@.len() + v@.len() > udiv@.len() + vdiv@.len(),
        match pass {
            Pass::Settled(u, v) => u == udiv && v == vdiv,
            Pass::Refined(u, v) => u@ == refined(udiv@, umids@, uflags@) && v@ == refined(
                vdiv@,
                vmids@,
                vflags@,
            ),
        },
{
    let new_udiv = refine(&udiv, umids, uflags);
    let new_vdiv = refine(&vdiv, vmids, vflags);
    proof {
        lemma_count_set_zero(uflags@);
        lemma_count_set_zero(vflags@);
    }
    if udiv.len() != new_udiv.len() || vdiv.len() != new_vdiv.len() {
        Pass::Refined(new_udiv, new_vdiv)
    } else {
        Pass::Settled(udiv, vdiv)
    }
}

/// Whether `mids` holds, for each interval of `div`, a value that `mid` may
/// give as the midpoint of its two ends.
pub open spec fn halves<T, M: Fn(T, T) -> T>(mid: &M, div: Seq<T>, mids: Seq<T>) -> bool {
    &&& mids.len() + 1 == div.len()
    &&& forall|i: int|
        0 <= i < mids.len() ==> call_ensures(*mid, (div[i], div[i + 1]), #[trigger] mids[i])
}

/// The midpoint of every interval of `div`, as `mid` gives it.
pub fn midpoints<T: Copy, M: Fn(T, T) -> T>(div: &Vec<T>, mid: &M) -> (mids: Vec<T>)
    requires
        div@.len() > 0,
        forall|a: T, b: T| call_requires(*mid, (a, b)),
    ensures
        halves(mid, div@, mids@),
{
    let n = div.len() - 1;
    let mut mids: Vec<T> = Vec::new();
    let mut k: usize = 0;
    while k < n
        invariant
            n + 1 == div@.len(),
            k <= n,
            mids@.len() == k,
            forall|a: T, b: T| call_requires(*mid, (a, b)),
            forall|i: int|
                0 <= i < k ==> call_ensures(*mid, (div@[i], div@[i + 1]), #[trigger] mids@[i]),
        decreases n - k,
    {
        let m = mid(div[k], div[k + 1]);
        mids.push(m);
        k = k + 1;
    }
    mids
}

/// Whether one pass with the given midpoints, flags and far cells takes the
/// grid `from` to the grid `to`: the flags are what judging the cells of
/// `from` gave, at least one is set, and `to` is `from` with the flagged
/// intervals of both axes split.
pub open spec fn pass_with<T, M: Fn(T, T) -> T, F: Fn(T, T, T, T) -> bool>(
    mid: &M,
    far: &F,
    from: (Seq<T>, Seq<T>),
    to: (Seq<T>, Seq<T>),
    mids: (Seq<T>, Seq<T>),
    flags: (Seq<bool>, Seq<bool>),
    hits: Set<(int, int)>,
) -> bool {
    &&& halves(mid, from.0, mids.0)
    &&& halves(mid, from.1, mids.1)
    &&& judged(far, from.0, from.1, flags.0, flags.1, hits)
    &&& !(all_clear(flags.0) && all_clear(flags.1))
    &&& to.0 == refined(from.0, mids.0, flags.0)
    &&& to.1 == refined(from.1, mids.1, flags.1)
}

/// Whether some pass takes the grid `from` to the grid `to`.
pub open spec fn pass_of<T, M: Fn(T, T) -> T, F: Fn(T, T, T, T) -> bool>(
    mid: &M,
    far: &F,
    from: (Seq<T>, Seq<T>),
    to: (Seq<T>, Seq<T>),
) -> bool {
    exists|mids: (Seq<T>, Seq<T>), flags: (Seq<bool>, Seq<bool>), hits: Set<(int, int)>| #[trigger]
        pass_with(mid, far, from, to, mids, flags, hits)
}

/// Whether `far` may call every cell of `grid` near.
pub open spec fn all_near<T, F: Fn(T, T, T, T) -> bool>(far: &F, grid: (Seq<T>, Seq<T>)) -> bool {
    forall|i: int, j: int|
        0 <= i < grid.0.len() - 1 && 0 <= j < grid.1.len() - 1 ==> #[trigger] calls(
            far,
            grid.0,
            grid.1,
            i,
            j,
            false,
        )
}

/// Whether `grids` is the course of a subdivision of `urange` by `vrange`:
/// it starts from the one cell that spans the two ranges, every grid but the
/// first comes from the one before by a pass, and the cells of the last are
/// all near.
pub open spec fn divides<T, M: Fn(T, T) -> T, F: Fn(T, T, T, T) -> bool>(
    mid: &M,
    far: &F,
    urange: (T, T),
    vrange: (T, T),
    grids: Seq<(Seq<T>, Seq<T>)>,
) -> bool {
    &&& grids.len() > 0
    &&& grids[0] == (seq![urange.0, urange.1], seq![vrange.0, vrange.1])
    &&& forall|k: int|
        0 <= k < grids.len() - 1 ==> pass_of(mid, far, #[trigger] grids[k], grids[k + 1])
    &&& all_near(far, grids.last())
}

/// Subdivides the domain `urange` by `vrange` until `far` calls every cell
/// near. A cell is put to `far` as the two ends of its interval on the first
/// axis and the two ends of its interval on the second; an interval is split
/// at what `mid` gives for its two ends. The breakpoints of each axis that
/// come back begin and end with the ends of its range.
pub fn parameter_division<T: Copy, M: Fn(T, T) -> T, F: Fn(T, T, T, T) -> bool>(
    urange: (T, T),
    vrange: (T, T),
    mid: M,
    far: F,
) -> (division: (Vec<T>, Vec<T>))
    requires
        forall|a: T, b: T| call_requires(mid, (a, b)),
        forall|a: T, b: T, c: T, d: T| call_requires(far, (a, b, c, d)),
    ensures
        exists|grids: Seq<(Seq<T>, Seq<T>)>| #[trigger]
            divides(&mid, &far, urange, vrange, grids) && grids.last() == (
                division.0@,
                division.1@,
            ),
        division.0@.len() >= 2,
        division.1@.len() >= 2,
        division.0@[0] == urange.0,
        division.0@.last() == urange.1,
        division.1@[0] == vrange.0,
        division.1@.last() == vrange.1,
{
    let mut udiv = whole_range(urange);
    let mut vdiv = whole_range(vrange);
    let ghost first = (udiv@, vdiv@);
    let ghost mut grids: Seq<(Seq<T>, Seq<T>)> = seq![first];
    loop
        invariant
            forall|a: T, b: T| call_requires(mid, (a, b)),
            forall|a: T, b: T, c: T, d: T| call_requires(far, (a, b, c, d)),
            grids.len() > 0,
            grids[0] == (seq![urange.0, urange.1], seq![vrange.0, vrange.1]),
            grids.last() == (udiv@, vdiv@),
            forall|k: int|
                0 <= k < grids.len() - 1 ==> pass_of(&mid, &far, #[trigger] grids[k], grids[k + 1]),
            udiv@.len() >= 2,
            vdiv@.len() >= 2,
            udiv@[0] == urange.0,
            udiv@.last() == urange.1,
            vdiv@[0] == vrange.0,
            vdiv@.last() == vrange.1,
        decreases 2 * usize::MAX - udiv.len() - vdiv.len(),
    {
        let flags = judge_cells(&udiv, &vdiv, &far);
        proof {
            assert(exists|hits: Set<(int, int)>| #[trigger]
                judged(&far, udiv@, vdiv@, flags.0@, flags.1@, hits));
        }
        let umids = midpoints(&udiv, &mid);
        let vmids = midpoints(&vdiv, &mid);
        let ghost from = (udiv@, vdiv@);
        let ghost hits = choose|hits: Set<(int, int)>| #[trigger]
            judged(&far, from.0, from.1, flags.0@, flags.1@, hits);
        proof {
            lemma_refined_holds(from.0, umids@, flags.0@, 0);
            lemma_refined_holds(from.0, umids@, flags.0@, from.0.len() - 1);
            lemma_refined_holds(from.1, vmids@, flags.1@, 0);
            lemma_refined_holds(from.1, vmids@, flags.1@, from.1.len() - 1);
            lemma_refined_len(from.0, umids@, flags.0@);
            lemma_refined_len(from.1, vmids@, flags.1@);
            assert(flags.0@.take(0).len() == 0);
            assert(flags.1@.take(0).len() == 0);
            assert(flags.0@.take(flags.0@.len() as int) =~= flags.0@);
            assert(flags.1@.take(flags.1@.len() as int) =~= flags.1@);
        }
        match refine_grid(udiv, vdiv, &umids, &vmids, &flags.0, &flags.1) {
            Pass::Settled(u, v) => {
                proof {
                    assert forall|i: int, j: int|
                        0 <= i < from.0.len() - 1 && 0 <= j < from.1.len() - 1 implies #[trigger] calls(
                        &far,
                        from.0,
                        from.1,
                        i,
                        j,
                        false,
                    ) by {
                        assert(!settled(flags.0@, flags.1@, i, j));
                    }
                    assert(divides(&mid, &far, urange, vrange, grids));
                }
                return (u, v);
            },
            Pass::Refined(u, v) => {
                proof {
                    let to = (u@, v@);
                    assert(pass_with(
                        &mid,
                        &far,
                        from,
                        to,
                        (umids@, vmids@),
                        (flags.0@, flags.1@),
                        hits,
                    ));
                    let longer = grids.push(to);
                    assert forall|k: int| 0 <= k < longer.len() - 1 implies pass_of(
                        &mid,
                        &far,
                        #[trigger] longer[k],
                        longer[k + 1],
                    ) by {
                        if k < grids.len() - 1 {
                            assert(longer[k] == grids[k] && longer[k + 1] == grids[k + 1]);
                        } else {
                            assert(longer[k] == from && longer[k + 1] == to);
                        }
                    }
                    grids = longer;
                }
                udiv = u;
                vdiv = v;
            },
        }
    }
}

} // verus!
