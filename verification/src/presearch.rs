//! Choice of the grid sample nearest to a target.
//!
//! A region of the parameter plane is divided into `division` equal parts
//! along each axis, which gives `division + 1` sample positions per axis. The
//! squared distance from each sample to the target arrives as an integer key
//! that orders as the distances do, row by row: the key of sample `(i, j)`
//! stands at index `i * (division + 1) + j`.

use vstd::arithmetic::div_mod::lemma_fundamental_div_mod_converse;
use vstd::prelude::*;

verus! {

/// How many samples a grid with `division` parts per axis has.
pub open spec fn sample_count(division: int) -> int {
    (division + 1) * (division + 1)
}

/// Where the key of sample `(i, j)` stands.
pub open spec fn sample_index(division: int, i: int, j: int) -> int {
    i * (division + 1) + j
}

/// Whether `keys[k]` is the least key and no key before it is as small.
pub open spec fn first_least(keys: Seq<u64>, k: int) -> bool {
    &&& 0 <= k < keys.len()
    &&& forall|m: int| 0 <= m < keys.len() ==> keys[k] <= #[trigger] keys[m]
    &&& forall|m: int| 0 <= m < k ==> keys[k] < #[trigger] keys[m]
}

/// The sample nearest to the target, as its position on each axis; among
/// samples equally near, the one met first when the grid is read row by row.
pub fn presearch(distances: &Vec<u64>, division: usize) -> (sample: (usize, usize))
    requires
        distances@.len() == sample_count(division as int),
    ensures
        sample.0 <= division,
        sample.1 <= division,
        first_least(distances@, sample_index(division as int, sample.0 as int, sample.1 as int)),
{
    proof {
        assert(sample_count(division as int) >= division + 1) by (nonlinear_arith);
    }
    let total = distances.len();
    let mut best: (usize, usize) = (0, 0);
    let mut least: u64 = distances[0];
    let ghost mut at: int = 0;
    let mut k: usize = 0;
    let mut i: usize = 0;
    let mut j: usize = 0;
    while k < total
        invariant
            total == distances@.len(),
            total == sample_count(division as int),
            k <= total,
            j <= division,
            k == sample_index(division as int, i as int, j as int),
            k < total ==> i <= division,
            best.0 <= division,
            best.1 <= division,
            at == sample_index(division as int, best.0 as int, best.1 as int),
            0 <= at < total,
            least == distances@[at],
            forall|m: int| 0 <= m < k ==> least <= #[trigger] distances@[m],
            forall|m: int| 0 <= m < at ==> least < #[trigger] distances@[m],
            k == 0 ==> at == 0,
            k > 0 ==> at < k,
        decreases total - k,
    {
        proof {
            lemma_row_bound(division as int, i as int, j as int);
        }
        let key = distances[k];
        if key < least {
            least = key;
            best = (i, j);
            proof {
                at = k as int;
            }
        }
        k = k + 1;
        if j == division {
            proof {
                assert(sample_index(division as int, i + 1, 0) == sample_index(
                    division as int,
                    i as int,
                    j as int,
                ) + 1) by (nonlinear_arith)
                    requires
                        j == division,
                ;
                if k < total {
                    lemma_row_bound(division as int, i + 1, 0);
                }
            }
            if k < total {
                i = i + 1;
                j = 0;
            } else {
                proof {
                    assert(sample_index(division as int, i as int, j as int) + 1 == k);
                }
                return best;
            }
        } else {
            j = j + 1;
        }
    }
    best
}

/// Whether `keys` holds, for every sample of the grid, a key that
/// `distance` may give for it: the key at index `m` belongs to the sample in
/// row `m / (division + 1)` and column `m % (division + 1)`.
pub open spec fn sampled<F: Fn(usize, usize) -> u64>(
    distance: &F,
    division: usize,
    keys: Seq<u64>,
) -> bool {
    &&& keys.len() == sample_count(division as int)
    &&& forall|m: int|
        0 <= m < keys.len() ==> call_ensures(
            *distance,
            ((m / (division + 1)) as usize, (m % (division + 1)) as usize),
            #[trigger] keys[m],
        )
}

/// The sample nearest to the target on a grid whose keys `distance` gives,
/// sample by sample. Every sample is asked for once, row by row.
pub fn presearch_with<F: Fn(usize, usize) -> u64>(division: usize, distance: F) -> (sample: (
    usize,
    usize,
))
    requires
        sample_count(division as int) <= usize::MAX,
        forall|i: usize, j: usize| i <= division && j <= division ==> call_requires(distance, (i, j)),
    ensures
        sample.0 <= division,
        sample.1 <= division,
        exists|keys: Seq<u64>| #[trigger]
            sampled(&distance, division, keys) && first_least(
                keys,
                sample_index(division as int, sample.0 as int, sample.1 as int),
            ),
{
    proof {
        assert(sample_count(division as int) >= division + 1) by (nonlinear_arith);
    }
    let side = division + 1;
    let mut keys: Vec<u64> = Vec::new();
    let mut i: usize = 0;
    while i < side
        invariant
            side == division + 1,
            sample_count(division as int) <= usize::MAX,
            i <= side,
            keys@.len() == i * side,
            forall|a: usize, b: usize| a <= division && b <= division ==> call_requires(distance, (a, b)),
            forall|m: int|
                0 <= m < keys@.len() ==> call_ensures(
                    distance,
                    ((m / (division + 1)) as usize, (m % (division + 1)) as usize),
                    #[trigger] keys@[m],
                ),
        decreases side - i,
    {
        let mut j: usize = 0;
        while j < side
            invariant
                side == division + 1,
                sample_count(division as int) <= usize::MAX,
                i < side,
                j <= side,
                keys@.len() == i * side + j,
                forall|a: usize, b: usize|
                    a <= division && b <= division ==> call_requires(distance, (a, b)),
                forall|m: int|
                    0 <= m < keys@.len() ==> call_ensures(
                        distance,
                        ((m / (division + 1)) as usize, (m % (division + 1)) as usize),
                        #[trigger] keys@[m],
                    ),
            decreases side - j,
        {
            let key = distance(i, j);
            proof {
                lemma_fundamental_div_mod_converse(i * side + j, side as int, i as int, j as int);
            }
            keys.push(key);
            j = j + 1;
        }
        proof {
            assert(i * side + side == (i + 1) * side) by (nonlinear_arith);
        }
        i = i + 1;
    }
    proof {
        assert(side * side == sample_count(division as int));
        assert(sampled(&distance, division, keys@));
    }
    presearch(&keys, division)
}

/// At most one index holds the first least key.
pub proof fn lemma_first_least_unique(keys: Seq<u64>, a: int, b: int)
    requires
        first_least(keys, a),
        first_least(keys, b),
    ensures
        a == b,
{
    if a < b {
        assert(keys[b] < keys[a]);
    } else if b < a {
        assert(keys[a] < keys[b]);
    }
}

/// Two samples of a grid that share an index are one sample.
pub proof fn lemma_sample_index_unique(division: int, i: int, j: int, k: int, l: int)
    requires
        0 <= i,
        0 <= k,
        0 <= j <= division,
        0 <= l <= division,
        sample_index(division, i, j) == sample_index(division, k, l),
    ensures
        i == k,
        j == l,
{
    lemma_fundamental_div_mod_converse(sample_index(division, i, j), division + 1, i, j);
    lemma_fundamental_div_mod_converse(sample_index(division, k, l), division + 1, k, l);
}

/// A sample index within the grid's count lies in one of its rows.
proof fn lemma_row_bound(division: int, i: int, j: int)
    requires
        0 <= division,
        0 <= i,
        0 <= j <= division,
        sample_index(division, i, j) < sample_count(division),
    ensures
        i <= division,
{
    assert(i <= division) by (nonlinear_arith)
        requires
            0 <= division,
            0 <= i,
            0 <= j,
            i * (division + 1) + j < (division + 1) * (division + 1),
    ;
}

} // verus!
