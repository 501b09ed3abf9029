use brep_kernel::extruded_curve::ExtrudedCurve;
use brep_kernel::parametric::Direction;
use brep_kernel::parametric::Displacement;
use brep_kernel::parametric::Invertible;
use brep_kernel::parametric::ParameterDivision1D;
use brep_kernel::parametric::ParameterDivision2D;
use brep_kernel::parametric::ParameterRange;
use brep_kernel::parametric::ParametricCurve;
use brep_kernel::parametric::ParametricSurface;
use brep_kernel::parametric::ParametricSurface3D;
use brep_kernel::parametric::Position;
use brep_kernel::parametric::Transformed;
use std::ops::Bound;
use truck_base::cgmath64::EuclideanSpace;
use truck_base::cgmath64::InnerSpace;
use truck_base::cgmath64::Matrix4;
use truck_base::cgmath64::Point3;
use truck_base::cgmath64::Transform;
use truck_base::cgmath64::Vector3;
use truck_base::cgmath64::Zero;
use truck_base::tolerance::Tolerance;

#[derive(Clone, Copy, Debug, PartialEq)]
struct Pt(Point3);

#[derive(Clone, Copy, Debug, PartialEq)]
struct Vc(Vector3);

impl Displacement<f64> for Vc {
    fn zero() -> Self {
        Vc(Vector3::zero())
    }
    fn scaled(self, by: f64) -> Self {
        Vc(self.0 * by)
    }
    fn no_factor() -> f64 {
        0.0
    }
    fn unit_factor() -> f64 {
        1.0
    }
}

impl Direction for Vc {
    fn cross(self, other: Self) -> Self {
        Vc(self.0.cross(other.0))
    }
    fn normalize(self) -> Self {
        Vc(self.0.normalize())
    }
}

impl Position<Vc> for Pt {
    fn moved(self, by: Vc) -> Self {
        Pt(self.0 + by.0)
    }
}

impl Transformed<Matrix4> for Vc {
    fn transform_by(&mut self, trans: Matrix4) {
        self.0 = trans.transform_vector(self.0);
    }
    fn transformed(&self, trans: Matrix4) -> Self {
        Vc(trans.transform_vector(self.0))
    }
}

/// A Bezier curve, given by its control points.
#[derive(Clone, Debug, PartialEq)]
struct Bezier(Vec<Point3>);

fn casteljau(points: &[Vector3], t: f64) -> Vector3 {
    let mut level = points.to_vec();
    while level.len() > 1 {
        level = level.windows(2).map(|w| w[0] * (1.0 - t) + w[1] * t).collect();
    }
    level[0]
}

impl Bezier {
    fn hodograph(points: &[Vector3]) -> Vec<Vector3> {
        let degree = (points.len() - 1) as f64;
        let steps: Vec<Vector3> = points.windows(2).map(|w| (w[1] - w[0]) * degree).collect();
        if steps.is_empty() {
            vec![Vector3::zero()]
        } else {
            steps
        }
    }
    fn vectors(&self) -> Vec<Vector3> {
        self.0.iter().map(|p| p.to_vec()).collect()
    }
}

impl ParametricCurve for Bezier {
    type Scalar = f64;
    type Point = Pt;
    type Vector = Vc;
    fn subs(&self, t: f64) -> Pt {
        Pt(Point3::from_vec(casteljau(&self.vectors(), t)))
    }
    fn der(&self, t: f64) -> Vc {
        Vc(casteljau(&Self::hodograph(&self.vectors()), t))
    }
    fn der2(&self, t: f64) -> Vc {
        Vc(casteljau(&Self::hodograph(&Self::hodograph(&self.vectors())), t))
    }
    fn parameter_range(&self) -> ParameterRange<f64> {
        (Bound::Included(0.0), Bound::Included(1.0))
    }
    fn period(&self) -> Option<f64> {
        None
    }
}

impl Invertible for Bezier {
    fn invert(&mut self) {
        self.0.reverse();
    }
    fn inverse(&self) -> Self {
        let mut turned = self.clone();
        turned.invert();
        turned
    }
}

impl Transformed<Matrix4> for Bezier {
    fn transform_by(&mut self, trans: Matrix4) {
        for p in self.0.iter_mut() {
            *p = trans.transform_point(*p);
        }
    }
    fn transformed(&self, trans: Matrix4) -> Self {
        let mut moved = self.clone();
        moved.transform_by(trans);
        moved
    }
}

impl ParameterDivision1D for Bezier {
    type Scalar = f64;
    type Point = Pt;
    fn parameter_division(&self, range: (f64, f64), tol: f64) -> (Vec<f64>, Vec<Pt>) {
        let pieces = (1.0 / tol).sqrt().ceil() as usize;
        let div: Vec<f64> =
            (0..=pieces).map(|k| range.0 + (range.1 - range.0) * k as f64 / pieces as f64).collect();
        let points = div.iter().map(|t| self.subs(*t)).collect();
        (div, points)
    }
}

/// A Bezier surface of degree one in `v`, given by its control points.
struct Patch(Vec<Vec<Point3>>);

impl Patch {
    fn rows(&self, v: f64) -> Vec<Vector3> {
        self.0.iter().map(|row| row[0].to_vec() * (1.0 - v) + row[1].to_vec() * v).collect()
    }
    fn rises(&self) -> Vec<Vector3> {
        self.0.iter().map(|row| row[1] - row[0]).collect()
    }
    fn range_tuple(&self) -> ((f64, f64), (f64, f64)) {
        ((0.0, 1.0), (0.0, 1.0))
    }
    fn subs(&self, u: f64, v: f64) -> Point3 {
        Point3::from_vec(casteljau(&self.rows(v), u))
    }
    fn uder(&self, u: f64, v: f64) -> Vector3 {
        casteljau(&Bezier::hodograph(&self.rows(v)), u)
    }
    fn vder(&self, u: f64, _: f64) -> Vector3 {
        casteljau(&self.rises(), u)
    }
    fn uuder(&self, u: f64, v: f64) -> Vector3 {
        casteljau(&Bezier::hodograph(&Bezier::hodograph(&self.rows(v))), u)
    }
    fn uvder(&self, u: f64, _: f64) -> Vector3 {
        casteljau(&Bezier::hodograph(&self.rises()), u)
    }
    fn vvder(&self, _: f64, _: f64) -> Vector3 {
        Vector3::zero()
    }
    fn normal(&self, u: f64, v: f64) -> Vector3 {
        self.uder(u, v).cross(self.vder(u, v)).normalize()
    }
}

fn ends(range: ParameterRange<f64>) -> (f64, f64) {
    match range {
        (Bound::Included(a), Bound::Included(b)) => (a, b),
        _ => panic!("the range is not closed"),
    }
}

fn range_tuple<S: ParametricSurface<Scalar = f64>>(surface: &S) -> ((f64, f64), (f64, f64)) {
    let (urange, vrange) = surface.parameter_range();
    (ends(urange), ends(vrange))
}

fn arc() -> Bezier {
    Bezier(vec![Point3::new(0.0, 0.0, 0.0), Point3::new(0.0, 1.0, 0.0), Point3::new(1.0, 0.0, 0.0)])
}

#[test]
fn extruded_curve_test() {
    let cpts = vec![
        Point3::new(0.0, 0.0, 0.0),
        Point3::new(0.0, 1.0, 0.0),
        Point3::new(1.0, 0.0, 0.0),
    ];
    let spts = vec![
        vec![Point3::new(0.0, 0.0, 0.0), Point3::new(0.0, 0.0, 1.0)],
        vec![Point3::new(0.0, 1.0, 0.0), Point3::new(0.0, 1.0, 1.0)],
        vec![Point3::new(1.0, 0.0, 0.0), Point3::new(1.0, 0.0, 1.0)],
    ];
    let curve = Bezier(cpts);
    let surface0 = ExtrudedCurve::by_extrusion(curve, Vc(Vector3::unit_z()));
    let surface1 = Patch(spts);
    assert_eq!(range_tuple(&surface0), surface1.range_tuple());
    const N: usize = 10;
    for i in 0..=N {
        for j in 0..=N {
            let u = i as f64 / N as f64;
            let v = j as f64 / N as f64;
            assert!(surface0.subs(u, v).0.near(&surface1.subs(u, v)));
            assert!(surface0.uder(u, v).0.near(&surface1.uder(u, v)));
            assert!(surface0.vder(u, v).0.near(&surface1.vder(u, v)));
            assert!(surface0.uuder(u, v).0.near(&surface1.uuder(u, v)));
            assert!(surface0.uvder(u, v).0.near(&surface1.uvder(u, v)));
            assert!(surface0.vvder(u, v).0.near(&surface1.vvder(u, v)));
            assert!(surface0.normal(u, v).0.near(&surface1.normal(u, v)));
        }
    }
}

#[test]
fn extrusion_follows_its_closed_form() {
    let vector = Vector3::new(0.5, -1.0, 2.0);
    let surface = ExtrudedCurve::by_extrusion(arc(), Vc(vector));
    for i in 0..=10 {
        for j in 0..=10 {
            let u = i as f64 / 10.0;
            let v = j as f64 / 10.0;
            let on_curve = Point3::new(u * u, 2.0 * u * (1.0 - u), 0.0);
            assert!(surface.subs(u, v).0.near(&(on_curve + vector * v)));
            assert!(surface.uder(u, v).0.near(&Vector3::new(2.0 * u, 2.0 - 4.0 * u, 0.0)));
            assert_eq!(surface.vder(u, v), Vc(vector));
            assert!(surface.uuder(u, v).0.near(&Vector3::new(2.0, -4.0, 0.0)));
            assert_eq!(surface.uvder(u, v), Vc(Vector3::zero()));
            assert_eq!(surface.vvder(u, v), Vc(Vector3::zero()));
        }
    }
    assert_eq!(surface.subs(0.5, 0.0), Pt(Point3::new(0.25, 0.5, 0.0)));
    assert_eq!(surface.subs(1.0, 1.0), Pt(Point3::new(1.5, -1.0, 2.0)));
}

#[test]
fn extrusion_is_periodic_only_as_its_curve_is() {
    let surface = ExtrudedCurve::by_extrusion(arc(), Vc(Vector3::unit_z()));
    assert_eq!(surface.u_period(), None);
    assert_eq!(surface.v_period(), None);
    assert_eq!(
        surface.parameter_range(),
        ((Bound::Included(0.0), Bound::Included(1.0)), (Bound::Included(0.0), Bound::Included(1.0)))
    );
}

#[test]
fn inverting_an_extrusion_turns_its_curve_round() {
    let mut surface = ExtrudedCurve::by_extrusion(arc(), Vc(Vector3::unit_z()));
    let turned = surface.inverse();
    assert_eq!(turned.extruding_vector(), Vc(Vector3::unit_z()));
    assert_eq!(turned.entity_curve().0[0], Point3::new(1.0, 0.0, 0.0));
    assert!(turned.subs(0.25, 0.5).0.near(&surface.subs(0.75, 0.5).0));
    surface.invert();
    assert_eq!(surface.entity_curve(), turned.entity_curve());
    assert_eq!(surface.extruding_vector(), Vc(Vector3::unit_z()));
}

#[test]
fn transforming_an_extrusion_transforms_curve_and_vector() {
    let trans = Matrix4::from_translation(Vector3::new(1.0, 2.0, 3.0)) * Matrix4::from_scale(2.0);
    let mut surface = ExtrudedCurve::by_extrusion(arc(), Vc(Vector3::unit_z()));
    let moved = surface.transformed(trans);
    assert_eq!(moved.extruding_vector(), Vc(Vector3::new(0.0, 0.0, 2.0)));
    assert_eq!(moved.entity_curve().0[1], Point3::new(1.0, 4.0, 3.0));
    for i in 0..=4 {
        for j in 0..=4 {
            let (u, v) = (i as f64 / 4.0, j as f64 / 4.0);
            assert!(moved.subs(u, v).0.near(&trans.transform_point(surface.subs(u, v).0)));
        }
    }
    surface.transform_by(trans);
    assert_eq!(surface.entity_curve(), moved.entity_curve());
    assert_eq!(surface.extruding_vector(), moved.extruding_vector());
}

#[test]
fn extrusion_is_divided_along_its_curve_only() {
    let surface = ExtrudedCurve::by_extrusion(arc(), Vc(Vector3::unit_z()));
    let (udiv, vdiv) = surface.parameter_division(((0.0, 1.0), (0.25, 0.75)), 0.01);
    assert_eq!(udiv, arc().parameter_division((0.0, 1.0), 0.01).0);
    assert_eq!(udiv.len(), 11);
    assert_eq!(vdiv, vec![0.25, 0.75]);
}
