//! A surface swept out by moving a base curve along a fixed vector.

use crate::parametric::gives_derivative;
use crate::parametric::gives_division;
use crate::parametric::gives_moved;
use crate::parametric::gives_position;
use crate::parametric::gives_second_derivative;
use crate::division::whole_range;
use crate::parametric::Direction;
use crate::parametric::Displacement;
use crate::parametric::Invertible;
use crate::parametric::ParameterDivision1D;
use crate::parametric::ParameterDivision2D;
use crate::parametric::ParameterRange;
use crate::parametric::ParametricCurve;
use crate::parametric::ParametricSurface;
use crate::parametric::ParametricSurface3D;
use crate::parametric::Position;
use crate::parametric::Transformed;
use std::ops::Bound;
use vstd::prelude::*;

verus! {

/// A base curve paired with the vector it is swept along.
///
/// The surface it stands for has the curve's parameter as its first
/// parameter and the fraction of the sweep, from zero to one, as its second.
pub struct ExtrudedCurve<C, V> {
    curve: C,
    vector: V,
}

impl<C, V: Copy> ExtrudedCurve<C, V> {
    /// The base curve, for use in contracts.
    pub closed spec fn curve(&self) -> C {
        self.curve
    }

    /// The sweep vector, for use in contracts.
    pub closed spec fn vector(&self) -> V {
        self.vector
    }

    /// Pairs `curve` with `vector`; the curve is moved in, the vector copied.
    pub fn by_extrusion(curve: C, vector: V) -> (surface: Self)
        ensures
            surface.curve() == curve,
            surface.vector() == vector,
    {
        Self { curve, vector }
    }

    /// Borrows the base curve.
    pub fn entity_curve(&self) -> (curve: &C)
        ensures
            *curve == self.curve(),
    {
        &self.curve
    }

    /// Gives the base curve back, dropping the sweep vector.
    pub fn into_entity_curve(self) -> (curve: C)
        ensures
            curve == self.curve(),
    {
        self.curve
    }

    /// The sweep vector.
    pub fn extruding_vector(&self) -> (vector: V)
        ensures
            vector == self.vector(),
    {
        self.vector
    }
}

impl<C> ParametricSurface for ExtrudedCurve<C, C::Vector> where
    C: ParametricCurve,
    C::Point: Position<C::Vector>,
    C::Vector: Displacement<C::Scalar>,
 {
    type Scalar = C::Scalar;

    type Point = C::Point;

    type Vector = C::Vector;

    /// The curve's position at `u`, moved by `v` times the sweep vector.
    fn subs(&self, u: C::Scalar, v: C::Scalar) -> (point: C::Point)
        ensures
            exists|base: C::Point|
                gives_position(self.curve(), u, base) && gives_moved(
                    base,
                    self.vector(),
                    v,
                    point,
                ),
    {
        let base = self.curve.subs(u);
        let step = self.vector.scaled(v);
        let point = base.moved(step);
        proof {
            assert(call_ensures(C::Vector::scaled, (self.vector, v), step));
            assert(gives_moved(base, self.vector(), v, point));
            assert(gives_position(self.curve(), u, base));
        }
        point
    }

    /// The curve's derivative at `u`.
    fn uder(&self, u: C::Scalar, v: C::Scalar) -> (vector: C::Vector)
        ensures
            gives_derivative(self.curve(), u, vector),
    {
        self.curve.der(u)
    }

    /// The sweep vector.
    fn vder(&self, u: C::Scalar, v: C::Scalar) -> (vector: C::Vector)
        ensures
            vector == self.vector(),
    {
        self.vector
    }

    /// The curve's second derivative at `u`.
    fn uuder(&self, u: C::Scalar, v: C::Scalar) -> (vector: C::Vector)
        ensures
            gives_second_derivative(self.curve(), u, vector),
    {
        self.curve.der2(u)
    }

    /// The zero vector.
    fn uvder(&self, u: C::Scalar, v: C::Scalar) -> (vector: C::Vector)
        ensures
            call_ensures(<C::Vector as Displacement<C::Scalar>>::zero, (), vector),
    {
        <C::Vector as Displacement<C::Scalar>>::zero()
    }

    /// The zero vector.
    fn vvder(&self, u: C::Scalar, v: C::Scalar) -> (vector: C::Vector)
        ensures
            call_ensures(<C::Vector as Displacement<C::Scalar>>::zero, (), vector),
    {
        <C::Vector as Displacement<C::Scalar>>::zero()
    }

    /// The curve's range in `u`; in `v`, from no sweep at all to the whole
    /// of it, both included.
    fn parameter_range(&self) -> (range: (ParameterRange<C::Scalar>, ParameterRange<C::Scalar>))
        ensures
            call_ensures(C::parameter_range, (&self.curve(),), range.0),
            exists|start: C::Scalar, end: C::Scalar|
                call_ensures(<C::Vector as Displacement<C::Scalar>>::no_factor, (), start)
                    && call_ensures(<C::Vector as Displacement<C::Scalar>>::unit_factor, (), end)
                    && range.1 == (Bound::Included(start), Bound::Included(end)),
    {
        let start = <C::Vector as Displacement<C::Scalar>>::no_factor();
        let end = <C::Vector as Displacement<C::Scalar>>::unit_factor();
        (self.curve.parameter_range(), (Bound::Included(start), Bound::Included(end)))
    }

    /// The curve's period.
    fn u_period(&self) -> (period: Option<C::Scalar>)
        ensures
            call_ensures(C::period, (&self.curve(),), period),
    {
        self.curve.period()
    }

    /// None: a sweep along a vector does not repeat itself.
    fn v_period(&self) -> (period: Option<C::Scalar>)
        ensures
            period.is_none(),
    {
        None
    }
}

impl<C: Invertible, V: Copy> Invertible for ExtrudedCurve<C, V> {
    /// The extrusion of the turned curve along the same vector.
    closed spec fn inverted(&self) -> Self {
        ExtrudedCurve { curve: self.curve.inverted(), vector: self.vector }
    }

    fn invert(&mut self)
        ensures
            final(self).curve() == old(self).curve().inverted(),
            final(self).vector() == old(self).vector(),
    {
        self.curve.invert()
    }

    fn inverse(&self) -> (turned: Self)
        ensures
            call_ensures(C::inverse, (&self.curve(),), turned.curve()),
            turned.vector() == self.vector(),
    {
        Self { curve: self.curve.inverse(), vector: self.vector }
    }
}

impl<M: Copy, C: Transformed<M>, V: Transformed<M> + Copy> Transformed<M> for ExtrudedCurve<C, V> {
    /// The extrusion of the curve's image along the vector's image.
    closed spec fn image(&self, trans: M) -> Self {
        ExtrudedCurve { curve: self.curve.image(trans), vector: self.vector.image(trans) }
    }

    fn transform_by(&mut self, trans: M)
        ensures
            final(self).curve() == old(self).curve().image(trans),
            final(self).vector() == old(self).vector().image(trans),
    {
        self.curve.transform_by(trans);
        self.vector.transform_by(trans);
    }

    fn transformed(&self, trans: M) -> (moved: Self)
        ensures
            call_ensures(C::transformed, (&self.curve(), trans), moved.curve()),
            call_ensures(V::transformed, (&self.vector(), trans), moved.vector()),
    {
        Self { curve: self.curve.transformed(trans), vector: self.vector.transformed(trans) }
    }
}

impl<C> ParametricSurface3D for ExtrudedCurve<C, C::Vector> where
    C: ParametricCurve,
    C::Point: Position<C::Vector>,
    C::Vector: Displacement<C::Scalar> + Direction,
 {
    /// The unit vector along the cross product of the curve's derivative at
    /// `u` and the sweep vector.
    fn normal(&self, u: C::Scalar, v: C::Scalar) -> (unit: C::Vector)
        ensures
            exists|tangent: C::Vector, across: C::Vector|
                gives_derivative(self.curve(), u, tangent) && call_ensures(
                    C::Vector::cross,
                    (tangent, self.vector()),
                    across,
                ) && call_ensures(C::Vector::normalize, (across,), unit),
    {
        let tangent = self.curve.der(u);
        let across = tangent.cross(self.vector);
        let unit = across.normalize();
        proof {
            assert(gives_derivative(self.curve(), u, tangent) && call_ensures(
                C::Vector::cross,
                (tangent, self.vector()),
                across,
            ) && call_ensures(C::Vector::normalize, (across,), unit));
        }
        unit
    }
}

impl<C: ParameterDivision1D, V: Copy> ParameterDivision2D for ExtrudedCurve<C, V> {
    type Scalar = C::Scalar;

    /// The curve's own division along `u`. Along `v` the surface is
    /// straight, so the two ends of the range are all its breakpoints.
    fn parameter_division(
        &self,
        range: ((C::Scalar, C::Scalar), (C::Scalar, C::Scalar)),
        tol: C::Scalar,
    ) -> (division: (Vec<C::Scalar>, Vec<C::Scalar>))
        ensures
            gives_division(self.curve(), range.0, tol, division.0),
            division.1@ == seq![range.1.0, range.1.1],
    {
        let cut = self.curve.parameter_division(range.0, tol);
        proof {
            assert(call_ensures(C::parameter_division, (&self.curve, range.0, tol), (cut.0, cut.1)));
        }
        (cut.0, whole_range(range.1))
    }
}

/// Turning an extrusion round turns its curve round and keeps its vector.
pub proof fn lemma_inverted_parts<C: Invertible, V: Copy>(surface: ExtrudedCurve<C, V>)
    ensures
        surface.inverted().curve() == surface.curve().inverted(),
        surface.inverted().vector() == surface.vector(),
{
}

/// The image of an extrusion is the extrusion of the curve's image along
/// the vector's image.
pub proof fn lemma_image_parts<M: Copy, C: Transformed<M>, V: Transformed<M> + Copy>(
    surface: ExtrudedCurve<C, V>,
    trans: M,
)
    ensures
        surface.image(trans).curve() == surface.curve().image(trans),
        surface.image(trans).vector() == surface.vector().image(trans),
{
}

} // verus!
