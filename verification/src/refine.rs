//! Bisection of the flagged intervals of one axis of a parameter grid.
//!
//! An axis is a sequence of breakpoints; consecutive breakpoints bound an
//! interval. Each interval comes with a flag that asks for it to be split and
//! with the breakpoint to split it at. Breakpoints are carried as values of
//! any copyable type: nothing here computes with them.

use vstd::prelude::*;

verus! {

/// How many of `flags` are set.
pub open spec fn count_set(flags: Seq<bool>) -> nat
    decreases flags.len(),
{
    if flags.len() == 0 {
        0
    } else {
        count_set(flags.drop_last()) + if flags.last() {
            1nat
        } else {
            0nat
        }
    }
}

/// Whether `div`, `mids` and `flags` describe one axis: a breakpoint more
/// than there are intervals, and a midpoint and a flag for every interval.
pub open spec fn axis_shaped<T>(div: Seq<T>, mids: Seq<T>, flags: Seq<bool>) -> bool {
    div.len() == flags.len() + 1 && mids.len() == flags.len()
}

/// The axis `div` with `mids[i]` put between `div[i]` and `div[i + 1]` for
/// every `i` with `flags[i]` set, and nothing else changed.
pub open spec fn refined<T>(div: Seq<T>, mids: Seq<T>, flags: Seq<bool>) -> Seq<T>
    decreases flags.len(),
{
    if flags.len() == 0 || !axis_shaped(div, mids, flags) {
        div
    } else {
        let head = refined(div.drop_last(), mids.drop_last(), flags.drop_last());
        if flags.last() {
            head.push(mids.last()).push(div.last())
        } else {
            head.push(div.last())
        }
    }
}

/// Where `div[i]` stands in `refined(div, mids, flags)`: its own index, moved
/// up by one for every flagged interval before it.
pub open spec fn place(flags: Seq<bool>, i: int) -> int {
    i + count_set(flags.take(i))
}

/// Splits the flagged intervals of an axis.
pub fn refine<T: Copy>(div: &Vec<T>, mids: &Vec<T>, flags: &Vec<bool>) -> (out: Vec<T>)
    requires
        axis_shaped(div@, mids@, flags@),
    ensures
        out@ == refined(div@, mids@, flags@),
        out@.len() == div@.len() + count_set(flags@),
{
    let n = flags.len();
    let mut out: Vec<T> = Vec::new();
    out.push(div[0]);
    let mut k: usize = 0;
    proof {
        assert(div@.take(1).drop_last() =~= Seq::<T>::empty());
        assert(out@ =~= div@.take(1));
        assert(flags@.take(0).len() == 0);
    }
    while k < n
        invariant
            n == flags@.len(),
            axis_shaped(div@, mids@, flags@),
            k <= n,
            out@ == refined(div@.take(k + 1), mids@.take(k as int), flags@.take(k as int)),
            out@.len() == k + 1 + count_set(flags@.take(k as int)),
        decreases n - k,
    {
        proof {
            let d = div@.take(k + 2);
            let m = mids@.take(k + 1);
            let f = flags@.take(k + 1);
            assert(d.drop_last() =~= div@.take(k + 1));
            assert(m.drop_last() =~= mids@.take(k as int));
            assert(f.drop_last() =~= flags@.take(k as int));
            assert(d.last() == div@[k + 1]);
            assert(m.last() == mids@[k as int]);
            assert(f.last() == flags@[k as int]);
        }
        if flags[k] {
            out.push(mids[k]);
        }
        out.push(div[k + 1]);
        k = k + 1;
    }
    proof {
        assert(div@.take(n + 1) =~= div@);
        assert(mids@.take(n as int) =~= mids@);
        assert(flags@.take(n as int) =~= flags@);
    }
    out
}

/// Splitting adds one breakpoint for every flagged interval.
pub proof fn lemma_refined_len<T>(div: Seq<T>, mids: Seq<T>, flags: Seq<bool>)
    requires
        axis_shaped(div, mids, flags),
    ensures
        refined(div, mids, flags).len() == div.len() + count_set(flags),
    decreases flags.len(),
{
    if flags.len() > 0 {
        lemma_refined_len(div.drop_last(), mids.drop_last(), flags.drop_last());
    }
}

/// Every breakpoint survives a split, in its old order, and the midpoint of
/// a flagged interval comes right after the breakpoint that opens it.
pub proof fn lemma_refined_holds<T>(div: Seq<T>, mids: Seq<T>, flags: Seq<bool>, i: int)
    requires
        axis_shaped(div, mids, flags),
        0 <= i < div.len(),
    ensures
        0 <= place(flags, i) < refined(div, mids, flags).len(),
        refined(div, mids, flags)[place(flags, i)] == div[i],
        i < flags.len() && flags[i] ==> refined(div, mids, flags)[place(flags, i) + 1] == mids[i],
        i < flags.len() ==> place(flags, i + 1) == place(flags, i) + if flags[i] {
            2int
        } else {
            1int
        },
    decreases flags.len(),
{
    let n = flags.len() as int;
    lemma_refined_len(div, mids, flags);
    if n == 0 {
        assert(flags.take(0) =~= flags);
    } else {
        let d = div.drop_last();
        let m = mids.drop_last();
        let f = flags.drop_last();
        lemma_refined_len(d, m, f);
        assert(flags.take(n) =~= flags);
        assert(f.take(n - 1) =~= f);
        assert(flags.take(n - 1) =~= f);
        let head = refined(d, m, f);
        if i < n {
            lemma_refined_holds(d, m, f, i);
            assert(f.take(i) =~= flags.take(i));
            if i < n - 1 {
                lemma_refined_holds(d, m, f, i + 1);
                assert(f.take(i + 1) =~= flags.take(i + 1));
                assert(f[i] == flags[i]);
                assert(m[i] == mids[i]);
            } else {
                assert(place(flags, i) == head.len() - 1);
            }
            assert(d[i] == div[i]);
        }
    }
}

/// An axis without a flagged interval is left as it is, and only such an
/// axis keeps its length.
pub proof fn lemma_refined_fixed<T>(div: Seq<T>, mids: Seq<T>, flags: Seq<bool>)
    requires
        axis_shaped(div, mids, flags),
    ensures
        (forall|i: int| 0 <= i < flags.len() ==> !flags[i]) ==> refined(div, mids, flags) == div,
        refined(div, mids, flags).len() == div.len() <==> (forall|i: int|
            0 <= i < flags.len() ==> !flags[i]),
    decreases flags.len(),
{
    lemma_refined_len(div, mids, flags);
    lemma_count_set_zero(flags);
    if flags.len() > 0 {
        let d = div.drop_last();
        let m = mids.drop_last();
        let f = flags.drop_last();
        lemma_refined_fixed(d, m, f);
        if forall|i: int| 0 <= i < flags.len() ==> !flags[i] {
            assert forall|i: int| 0 <= i < f.len() implies !f[i] by {
                assert(f[i] == flags[i]);
            }
            assert(d.push(div.last()) =~= div);
        }
    }
}

/// No flag is counted exactly when no flag is set.
pub proof fn lemma_count_set_zero(flags: Seq<bool>)
    ensures
        count_set(flags) == 0 <==> (forall|i: int| 0 <= i < flags.len() ==> !flags[i]),
    decreases flags.len(),
{
    if flags.len() > 0 {
        let f = flags.drop_last();
        lemma_count_set_zero(f);
        if forall|i: int| 0 <= i < flags.len() ==> !flags[i] {
            assert forall|i: int| 0 <= i < f.len() implies !f[i] by {
                assert(f[i] == flags[i]);
            }
        }
        if count_set(flags) == 0 {
            assert forall|i: int| 0 <= i < flags.len() implies !flags[i] by {
                if i < f.len() {
                    assert(f[i] == flags[i]);
                }
            }
        }
    }
}

/// Flagging more intervals never gives fewer breakpoints: if every interval
/// flagged in `loose` is flagged in `tight`, the split by `tight` is at
/// least as long as the split by `loose`.
pub proof fn lemma_refined_monotone<T>(
    div: Seq<T>,
    mids: Seq<T>,
    loose: Seq<bool>,
    tight: Seq<bool>,
)
    requires
        axis_shaped(div, mids, loose),
        axis_shaped(div, mids, tight),
        forall|i: int| 0 <= i < loose.len() && loose[i] ==> tight[i],
    ensures
        refined(div, mids, loose).len() <= refined(div, mids, tight).len(),
{
    lemma_refined_len(div, mids, loose);
    lemma_refined_len(div, mids, tight);
    lemma_count_set_monotone(loose, tight);
}

/// Setting more flags never lowers their count.
pub proof fn lemma_count_set_monotone(loose: Seq<bool>, tight: Seq<bool>)
    requires
        loose.len() == tight.len(),
        forall|i: int| 0 <= i < loose.len() && loose[i] ==> tight[i],
    ensures
        count_set(loose) <= count_set(tight),
    decreases loose.len(),
{
    if loose.len() > 0 {
        let l = loose.drop_last();
        let t = tight.drop_last();
        assert forall|i: int| 0 <= i < l.len() && l[i] implies t[i] by {
            assert(l[i] == loose[i] && t[i] == tight[i]);
        }
        lemma_count_set_monotone(l, t);
    }
}

} // verus!
