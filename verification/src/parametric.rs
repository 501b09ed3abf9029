//! What a curve or a surface has to offer to be searched and subdivided.
//!
//! The traits of curves, surfaces, positions and displacements promise
//! nothing about the values their methods return: they only say which
//! questions a curve or a surface answers. Contracts that build on an answer
//! speak of it through the `gives` predicates below, which hold of every
//! value that the method in question may return. The traits of shapes that
//! can be turned round or transformed promise one thing: the method that
//! works in place leaves what the method that makes a copy stands for.

use std::ops::Bound;
use vstd::prelude::*;

verus! {

/// `std::ops::Bound`, with its three variants.
#[verifier::external_type_specification]
#[verifier::reject_recursive_types(T)]
pub struct ExBound<T>(Bound<T>);

/// The two ends of a parameter range.
pub type ParameterRange<S> = (Bound<S>, Bound<S>);

/// A displacement that can be scaled by a factor of type `S`.
pub trait Displacement<S>: Copy {
    /// The displacement that moves nothing.
    fn zero() -> Self;

    /// This displacement, `by` times over.
    fn scaled(self, by: S) -> Self;

    /// The factor that scales every displacement to nothing.
    fn no_factor() -> S;

    /// The factor that scales every displacement to itself.
    fn unit_factor() -> S;
}

/// A displacement in space, which has a direction.
pub trait Direction: Copy {
    /// A displacement at right angles to `self` and `other`.
    fn cross(self, other: Self) -> Self;

    /// The displacement of length one along `self`.
    fn normalize(self) -> Self;
}

/// A position that can be moved by a displacement.
pub trait Position<V>: Copy {
    /// This position moved by `by`.
    fn moved(self, by: V) -> Self;
}

/// A curve given by its position at each parameter.
pub trait ParametricCurve {
    type Scalar: Copy;

    type Point;

    type Vector;

    /// The position at `t`.
    fn subs(&self, t: Self::Scalar) -> Self::Point;

    /// The first derivative at `t`.
    fn der(&self, t: Self::Scalar) -> Self::Vector;

    /// The second derivative at `t`.
    fn der2(&self, t: Self::Scalar) -> Self::Vector;

    /// The range of parameters that the curve is defined on.
    fn parameter_range(&self) -> ParameterRange<Self::Scalar>;

    /// The period, if the curve repeats itself.
    fn period(&self) -> Option<Self::Scalar>;
}

/// A surface given by its position at each pair of parameters.
pub trait ParametricSurface {
    type Scalar: Copy;

    type Point;

    type Vector;

    /// The position at `(u, v)`.
    fn subs(&self, u: Self::Scalar, v: Self::Scalar) -> Self::Point;

    /// The derivative by `u` at `(u, v)`.
    fn uder(&self, u: Self::Scalar, v: Self::Scalar) -> Self::Vector;

    /// The derivative by `v` at `(u, v)`.
    fn vder(&self, u: Self::Scalar, v: Self::Scalar) -> Self::Vector;

    /// The second derivative by `u` at `(u, v)`.
    fn uuder(&self, u: Self::Scalar, v: Self::Scalar) -> Self::Vector;

    /// The mixed second derivative at `(u, v)`.
    fn uvder(&self, u: Self::Scalar, v: Self::Scalar) -> Self::Vector;

    /// The second derivative by `v` at `(u, v)`.
    fn vvder(&self, u: Self::Scalar, v: Self::Scalar) -> Self::Vector;

    /// The range of each parameter.
    fn parameter_range(&self) -> (ParameterRange<Self::Scalar>, ParameterRange<Self::Scalar>);

    /// The period in `u`, if the surface repeats itself along it.
    fn u_period(&self) -> Option<Self::Scalar>;

    /// The period in `v`, if the surface repeats itself along it.
    fn v_period(&self) -> Option<Self::Scalar>;
}

/// Whether `point` is a position that `curve` gives at `t`.
pub open spec fn gives_position<C: ParametricCurve>(curve: C, t: C::Scalar, point: C::Point) -> bool {
    call_ensures(C::subs, (&curve, t), point)
}

/// Whether `vector` is a first derivative that `curve` gives at `t`.
pub open spec fn gives_derivative<C: ParametricCurve>(
    curve: C,
    t: C::Scalar,
    vector: C::Vector,
) -> bool {
    call_ensures(C::der, (&curve, t), vector)
}

/// Whether `vector` is a second derivative that `curve` gives at `t`.
pub open spec fn gives_second_derivative<C: ParametricCurve>(
    curve: C,
    t: C::Scalar,
    vector: C::Vector,
) -> bool {
    call_ensures(C::der2, (&curve, t), vector)
}

/// Whether `point` is `from` moved by `by` times `vector`, as the point and
/// vector types compute it.
pub open spec fn gives_moved<S, V: Displacement<S>, P: Position<V>>(
    from: P,
    vector: V,
    by: S,
    point: P,
) -> bool {
    exists|step: V|
        call_ensures(V::scaled, (vector, by), step) && call_ensures(P::moved, (from, step), point)
}

/// A shape whose direction can be turned round.
pub trait Invertible: Sized {
    /// This shape with its direction turned round: unless an implementation
    /// says more, some value that `inverse` may give for it.
    open spec fn inverted(&self) -> Self {
        choose|turned: Self| call_ensures(Self::inverse, (self,), turned)
    }

    /// Turns the direction round in place.
    fn invert(&mut self)
        ensures
            *final(self) == old(self).inverted(),
    ;

    /// A copy with its direction turned round.
    fn inverse(&self) -> Self;
}

/// A shape that a transformation of type `M` can be applied to.
pub trait Transformed<M>: Sized {
    /// This shape with `trans` applied to it: unless an implementation says
    /// more, some value that `transformed` may give for it.
    open spec fn image(&self, trans: M) -> Self {
        choose|moved: Self| call_ensures(Self::transformed, (self, trans), moved)
    }

    /// Applies `trans` in place.
    fn transform_by(&mut self, trans: M)
        ensures
            *final(self) == old(self).image(trans),
    ;

    /// A copy with `trans` applied to it.
    fn transformed(&self, trans: M) -> Self;
}

/// A surface in space, which has a normal at each pair of parameters.
pub trait ParametricSurface3D: ParametricSurface {
    /// The unit normal at `(u, v)`.
    fn normal(&self, u: Self::Scalar, v: Self::Scalar) -> Self::Vector;
}

/// A curve that can be cut into pieces that stay close to their chords.
pub trait ParameterDivision1D {
    type Scalar: Copy;

    type Point;

    /// The parameters that cut the part of the curve over `range` into
    /// pieces within `tol` of their chords, and the positions there.
    fn parameter_division(&self, range: (Self::Scalar, Self::Scalar), tol: Self::Scalar) -> (
        Vec<Self::Scalar>,
        Vec<Self::Point>,
    );
}

/// A surface that can be cut into cells that stay close to their bilinear
/// interpolants.
pub trait ParameterDivision2D {
    type Scalar: Copy;

    /// The breakpoints on each axis that cut the part of the surface over
    /// `range` into cells within `tol` of their bilinear interpolants.
    fn parameter_division(
        &self,
        range: ((Self::Scalar, Self::Scalar), (Self::Scalar, Self::Scalar)),
        tol: Self::Scalar,
    ) -> (Vec<Self::Scalar>, Vec<Self::Scalar>);
}

/// Whether `div` is a sequence of parameters that `curve` gives as its
/// division over `range` for the tolerance `tol`.
pub open spec fn gives_division<C: ParameterDivision1D>(
    curve: C,
    range: (C::Scalar, C::Scalar),
    tol: C::Scalar,
    div: Vec<C::Scalar>,
) -> bool {
    exists|points: Vec<C::Point>|
        call_ensures(C::parameter_division, (&curve, range, tol), (div, points))
}

} // verus!
