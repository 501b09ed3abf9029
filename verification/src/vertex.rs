//! Vertices: handles on shared, lock-protected storage, told apart by the
//! storage they refer to and never by what it holds.

use std::hash::Hash;
use std::hash::Hasher;
use std::sync::Arc;
use std::sync::Mutex;
use std::sync::MutexGuard;
use std::sync::TryLockError;
use std::sync::TryLockResult;
use vstd::prelude::*;
use vstd::std_specs::cmp::PartialEqSpec;
use vstd::std_specs::cmp::PartialEqSpecImpl;

verus! {

/// `std::sync::Mutex`, carried through as an opaque value.
#[verifier::external_type_specification]
#[verifier::external_body]
#[verifier::reject_recursive_types(T)]
pub struct ExMutex<T: ?Sized>(Mutex<T>);

/// `std::sync::MutexGuard`, carried through as an opaque value.
#[verifier::external_type_specification]
#[verifier::external_body]
#[verifier::reject_recursive_types(T)]
pub struct ExMutexGuard<'a, T: ?Sized + 'a>(MutexGuard<'a, T>);

/// `std::sync::TryLockError`, carried through as an opaque value.
#[verifier::external_type_specification]
#[verifier::external_body]
#[verifier::reject_recursive_types(T)]
pub struct ExTryLockError<T>(TryLockError<T>);

/// A handle on one vertex of a topology.
///
/// The payload lives in storage that any number of handles may share. Two
/// handles are equal, in contracts and under `==` alike, exactly when they
/// refer to the same storage: what the storage holds plays no part.
#[verifier::reject_recursive_types(P)]
pub struct Vertex<P> {
    point: Arc<Mutex<P>>,
}

/// `Mutex::new`: a cell of its own that holds `point`. The cell is made while
/// every handle in `live` is still held, so it is the cell of none of them.
#[verifier::external_body]
fn fresh_cell<P>(point: P, live: &Vec<Vertex<P>>) -> (cell: Mutex<P>)
    ensures
        forall|i: int| 0 <= i < live@.len() ==> *(#[trigger] live@[i]).point != cell,
{
    Mutex::new(point)
}

/// `Arc::clone`: a second handle on the same allocation.
#[verifier::external_body]
fn share_cell<P>(cell: &Arc<Mutex<P>>) -> (shared: Arc<Mutex<P>>)
    ensures
        shared == *cell,
{
    Arc::clone(cell)
}

/// `Arc::ptr_eq`: whether the two handles refer to one allocation.
#[verifier::external_body]
fn same_cell<P>(a: &Arc<Mutex<P>>, b: &Arc<Mutex<P>>) -> (same: bool)
    ensures
        same == (*a == *b),
{
    Arc::ptr_eq(a, b)
}

/// `Mutex::try_lock`: the guard if no guard on this cell is alive, an error
/// otherwise, at once either way. Nothing is promised of the answer: it
/// depends on what other holders of the cell are doing.
#[verifier::external_body]
fn try_lock_cell<P>(cell: &Arc<Mutex<P>>) -> TryLockResult<MutexGuard<'_, P>> {
    cell.try_lock()
}

/// `std::ptr::hash` on the address of the cell: handles on one cell feed
/// the hasher the same bytes, whatever the cell holds.
#[verifier::external_body]
fn hash_cell<P, H: Hasher>(cell: &Arc<Mutex<P>>, state: &mut H) {
    std::ptr::hash::<Mutex<P>, H>(&**cell, state);
}

/// Whether `cell` is a cell that the making of a cell for `point` may give
/// while the handles in `live` are held.
spec fn made_among<P>(point: P, live: Vec<Vertex<P>>, cell: Mutex<P>) -> bool {
    call_ensures(fresh_cell::<P>, (point, &live), cell)
}

impl<P> Vertex<P> {
    /// Whether `self` and `other` refer to the same storage.
    pub open spec fn same_storage(&self, other: &Self) -> bool {
        *self == *other
    }

    /// Whether the storage of `self` was made to hold `point`: whether it is
    /// a cell that the making of a cell for `point` may give. What the
    /// storage holds later is not told by this: the payload can be changed
    /// under the lock.
    pub closed spec fn made_with(&self, point: P) -> bool {
        exists|live: Vec<Vertex<P>>| #[trigger] made_among(point, live, *self.point)
    }

    /// Whether `answer` is one that an attempt to lock the storage of `self`
    /// may give. Whether that is a guard or an error is for the lock to
    /// decide, by what the other holders of the storage are doing.
    pub closed spec fn answers_lock(&self, answer: TryLockResult<MutexGuard<'_, P>>) -> bool {
        call_ensures(try_lock_cell::<P>, (&self.point,), answer)
    }

    /// A vertex on storage of its own, made to hold `point`.
    pub fn new(point: P) -> (vertex: Vertex<P>)
        ensures
            vertex.made_with(point),
    {
        let live: Vec<Vertex<P>> = Vec::new();
        let cell = fresh_cell(point, &live);
        let vertex = Vertex { point: Arc::new(cell) };
        proof {
            assert(made_among(point, live, *vertex.point));
        }
        vertex
    }

    /// One vertex for each entry of `points`, in order, each on storage of
    /// its own, made to hold that entry.
    pub fn news(points: &[P]) -> (vertices: Vec<Vertex<P>>) where P: Copy
        ensures
            vertices@.len() == points@.len(),
            forall|i: int|
                0 <= i < vertices@.len() ==> (#[trigger] vertices@[i]).made_with(points@[i]),
            forall|i: int, j: int|
                0 <= i < j < vertices@.len() ==> !(#[trigger] vertices@[i]).same_storage(
                    #[trigger] &vertices@[j],
                ),
    {
        let mut vertices: Vec<Vertex<P>> = Vec::new();
        let mut k: usize = 0;
        while k < points.len()
            invariant
                k <= points@.len(),
                vertices@.len() == k,
                forall|i: int| 0 <= i < k ==> (#[trigger] vertices@[i]).made_with(points@[i]),
                forall|i: int, j: int|
                    0 <= i < j < vertices@.len() ==> (#[trigger] vertices@[i]) != (
                    #[trigger] vertices@[j]),
            decreases points@.len() - k,
        {
            let cell = fresh_cell(points[k], &vertices);
            proof {
                assert(made_among(points@[k as int], vertices, cell));
            }
            let vertex = Vertex { point: Arc::new(cell) };
            proof {
                assert(made_among(points@[k as int], vertices, *vertex.point));
                assert(vertex.made_with(points@[k as int]));
            }
            vertices.push(vertex);
            k = k + 1;
        }
        vertices
    }

    /// Asks for exclusive access to the payload without waiting: makes one
    /// attempt to lock the storage of `self` and hands on its answer. The
    /// guard that comes back on success gives the payload up again when it
    /// is dropped; while any handle on this storage holds one, the answer is
    /// an error.
    pub fn try_lock_point(&self) -> (answer: TryLockResult<MutexGuard<'_, P>>)
        ensures
            self.answers_lock(answer),
    {
        try_lock_cell(&self.point)
    }
}

impl<P> Clone for Vertex<P> {
    /// A second handle on the same storage; the payload is not copied.
    fn clone(&self) -> (vertex: Vertex<P>)
        ensures
            vertex == *self,
    {
        Vertex { point: share_cell(&self.point) }
    }
}

impl<P> PartialEq for Vertex<P> {
    fn eq(&self, other: &Self) -> (same: bool) {
        same_cell(&self.point, &other.point)
    }
}

impl<P> PartialEqSpecImpl for Vertex<P> {
    open spec fn obeys_eq_spec() -> bool {
        true
    }

    open spec fn eq_spec(&self, other: &Self) -> bool {
        *self == *other
    }
}

impl<P> Eq for Vertex<P> {

}

impl<P> Hash for Vertex<P> {
    /// Hashes the identity of the storage, not the payload.
    fn hash<H: Hasher>(&self, state: &mut H) {
        hash_cell(&self.point, state);
    }
}

/// Whatever `clone` gives for a vertex is equal to it.
pub proof fn lemma_clone_is_equal<P>(vertex: Vertex<P>, copy: Vertex<P>)
    requires
        call_ensures(Vertex::<P>::clone, (&vertex,), copy),
    ensures
        PartialEqSpec::eq_spec(&copy, &vertex),
        PartialEqSpec::eq_spec(&vertex, &copy),
        vertex.same_storage(&copy),
{
}

/// Equality of vertices is an equivalence: every vertex is equal to itself,
/// and equality can be turned round and chained.
pub proof fn lemma_equality_is_equivalence<P>(a: Vertex<P>, b: Vertex<P>, c: Vertex<P>)
    ensures
        PartialEqSpec::eq_spec(&a, &a),
        PartialEqSpec::eq_spec(&a, &b) ==> PartialEqSpec::eq_spec(&b, &a),
        PartialEqSpec::eq_spec(&a, &b) && PartialEqSpec::eq_spec(&b, &c) ==> PartialEqSpec::eq_spec(&a, &c),
{
}

} // verus!
