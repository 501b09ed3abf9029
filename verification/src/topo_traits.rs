//! Building new topology from old: mapping an element, and sweeping it.
//!
//! A topology carries points, curves and surfaces of the types `P`, `C` and
//! `S`. The traits here are implemented for each level of topology. A
//! mapping promises what its level says a mapping is; the sweeps say which
//! functions the caller supplies, and nothing about the result.

use vstd::prelude::*;

verus! {

/// Whether `f` may be called on every value of its argument type.
pub open spec fn total<A, B, F: Fn(&A) -> B>(f: &F) -> bool {
    forall|a: &A| call_requires(*f, (a,))
}

/// Whether `f` may be called on every pair of values of its argument types.
pub open spec fn total2<A, B, F: Fn(&A, &A) -> B>(f: &F) -> bool {
    forall|a: &A, b: &A| call_requires(*f, (a, b))
}

/// The mapping `f` as a relation: whether `f` may give `to` for `from`.
pub open spec fn relation_of<A, F: Fn(&A) -> A>(f: &F) -> spec_fn(A, A) -> bool {
    |from: A, to: A| call_ensures(*f, (&from,), to)
}

/// Copying an element into new storage while transforming what it carries.
pub trait Mapped<P, C, S>: Sized {
    /// Whether `copy` is a mapping of `self`: an element of the same shape
    /// in which each point, curve and surface is related to the one of
    /// `self` in its place by `points`, `curves` and `surfaces`. Each level
    /// of topology says what that means for its elements; unless it does,
    /// every element counts.
    open spec fn maps_to(
        &self,
        points: spec_fn(P, P) -> bool,
        curves: spec_fn(C, C) -> bool,
        surfaces: spec_fn(S, S) -> bool,
        copy: Self,
    ) -> bool {
        true
    }

    /// A new element of the same shape, whose points, curves and surfaces
    /// are those of `self` passed through the three mappings. The copy
    /// shares no storage with `self`.
    fn mapped<FP: Fn(&P) -> P, FC: Fn(&C) -> C, FS: Fn(&S) -> S>(
        &self,
        point_mapping: &FP,
        curve_mapping: &FC,
        surface_mapping: &FS,
    ) -> (copy: Self)
        requires
            total(point_mapping),
            total(curve_mapping),
            total(surface_mapping),
        ensures
            self.maps_to(
                relation_of(point_mapping),
                relation_of(curve_mapping),
                relation_of(surface_mapping),
                copy,
            ),
    ;

    /// A new element of the same shape that carries clones of the points,
    /// curves and surfaces of `self`: the mapping of `self` in which each of
    /// the three mappings is the cloning of its payload.
    fn topological_clone(&self) -> (copy: Self) where P: Clone, C: Clone, S: Clone
        ensures
            self.maps_to(
                relation_of(&P::clone),
                relation_of(&C::clone),
                relation_of(&S::clone),
                copy,
            ),
    {
        self.mapped(&P::clone, &C::clone, &S::clone)
    }
}

/// Sweeping an element one step: the element, its image under the mappings,
/// and what connects the two.
pub trait Sweep<P, C, S> {
    /// What the sweep of this element is.
    type Swept;

    /// The sweep of `self`. Each point is joined to its image by the curve
    /// that `connect_points` makes of the two, each curve to its image by
    /// the surface that `connect_curves` makes of the two.
    fn sweep<
        FP: Fn(&P) -> P,
        FC: Fn(&C) -> C,
        FS: Fn(&S) -> S,
        CP: Fn(&P, &P) -> C,
        CE: Fn(&C, &C) -> S,
    >(
        &self,
        point_mapping: &FP,
        curve_mapping: &FC,
        surface_mapping: &FS,
        connect_points: &CP,
        connect_curves: &CE,
    ) -> Self::Swept
        requires
            total(point_mapping),
            total(curve_mapping),
            total(surface_mapping),
            total2(connect_points),
            total2(connect_curves),
    ;
}

/// Sweeping an element several steps in a row, each step starting from the
/// image of the step before.
pub trait MultiSweep<P, C, S> {
    /// What the sweep of this element is.
    type Swept;

    /// The sweep of `self` in `division` steps.
    fn multi_sweep<
        FP: Fn(&P) -> P,
        FC: Fn(&C) -> C,
        FS: Fn(&S) -> S,
        CP: Fn(&P, &P) -> C,
        CE: Fn(&C, &C) -> S,
    >(
        &self,
        point_mapping: &FP,
        curve_mapping: &FC,
        surface_mapping: &FS,
        connect_points: &CP,
        connect_curves: &CE,
        division: usize,
    ) -> Self::Swept
        requires
            total(point_mapping),
            total(curve_mapping),
            total(surface_mapping),
            total2(connect_points),
            total2(connect_curves),
    ;
}

/// Sweeping an element several steps in a row and joining the last image
/// back to the element itself.
pub trait ClosedSweep<P, C, S>: MultiSweep<P, C, S> {
    /// The closed sweep of `self` in `division` steps.
    fn closed_sweep<
        FP: Fn(&P) -> P,
        FC: Fn(&C) -> C,
        FS: Fn(&S) -> S,
        CP: Fn(&P, &P) -> C,
        CE: Fn(&C, &C) -> S,
    >(
        &self,
        point_mapping: &FP,
        curve_mapping: &FC,
        surface_mapping: &FS,
        connect_points: &CP,
        connect_curves: &CE,
        division: usize,
    ) -> Self::Swept
        requires
            total(point_mapping),
            total(curve_mapping),
            total(surface_mapping),
            total2(connect_points),
            total2(connect_curves),
    ;
}

} // verus!
