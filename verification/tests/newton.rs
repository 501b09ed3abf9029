use brep_kernel::newton::search;
use brep_kernel::newton::search_nearest_parameter;
use brep_kernel::newton::search_parameter;
use brep_kernel::newton::search_start;
use brep_kernel::newton::NewtonSearch;
use brep_kernel::newton::Progress;
use brep_kernel::newton::SearchHint;
use brep_kernel::newton::Sample;
use brep_kernel::newton::SearchStart;
use brep_kernel::newton::SspVector;
use brep_kernel::newton::Trial;
use brep_kernel::newton::PRESEARCH_DIVISION;

#[test]
fn presearch_division_is_fifty() {
    assert_eq!(PRESEARCH_DIVISION, 50);
}

#[test]
fn hinted_parameter_is_where_the_search_starts() {
    let domain = ((0, 10), (20, 30));
    assert!(matches!(search_start(SearchHint::Parameter(3, 4), domain), SearchStart::At(3, 4)));
}

#[test]
fn hinted_range_is_presearched() {
    let domain = ((0, 10), (20, 30));
    assert!(matches!(
        search_start(SearchHint::Range((1, 2), (21, 22)), domain),
        SearchStart::Presearch((1, 2), (21, 22))
    ));
}

#[test]
fn without_a_hint_the_whole_domain_is_presearched() {
    let domain = ((0, 10), (20, 30));
    assert!(matches!(
        search_start(SearchHint::Nothing, domain),
        SearchStart::Presearch((0, 10), (20, 30))
    ));
}

#[test]
fn converged_trial_answers_with_the_estimate() {
    let s = NewtonSearch::start(7i32, 0);
    assert_eq!(s.estimate, 7);
    assert_eq!(s.trials_left, 0);
    assert!(matches!(s.advance(Trial::Converged), Progress::Found(7)));
}

#[test]
fn singular_trial_fails() {
    let s = NewtonSearch::start(7i32, 5);
    assert!(matches!(s.advance(Trial::Singular), Progress::Failed));
}

#[test]
fn step_uses_up_one_trial() {
    let s = NewtonSearch::start(7i32, 2);
    match s.advance(Trial::Stepped(8)) {
        Progress::Continue(next) => {
            assert_eq!(next.estimate, 8);
            assert_eq!(next.trials_left, 1);
            match next.advance(Trial::Stepped(9)) {
                Progress::Continue(last) => {
                    assert_eq!(last.estimate, 9);
                    assert_eq!(last.trials_left, 0);
                    assert!(matches!(last.advance(Trial::Stepped(10)), Progress::Failed));
                }
                _ => panic!("the search ended a trial early"),
            }
        }
        _ => panic!("the search ended two trials early"),
    }
}

#[test]
fn search_makes_at_most_one_trial_more_than_its_budget() {
    for trials in 0..6usize {
        let made = std::cell::Cell::new(0usize);
        let answer = search(0u64, trials, |x: &u64| {
            made.set(made.get() + 1);
            Trial::Stepped(*x + 1)
        });
        assert_eq!(answer, None);
        assert_eq!(made.get(), trials + 1);
    }
}

#[test]
fn search_answers_with_the_first_converged_estimate() {
    let answer = search(0u64, 10, |x: &u64| if *x == 4 { Trial::Converged } else { Trial::Stepped(*x + 1) });
    assert_eq!(answer, Some(4));
    let answer = search(0u64, 4, |x: &u64| if *x == 4 { Trial::Converged } else { Trial::Stepped(*x + 1) });
    assert_eq!(answer, Some(4));
    let answer = search(0u64, 3, |x: &u64| if *x == 4 { Trial::Converged } else { Trial::Stepped(*x + 1) });
    assert_eq!(answer, None);
    let answer = search(4u64, 0, |x: &u64| if *x == 4 { Trial::Converged } else { Trial::Stepped(*x + 1) });
    assert_eq!(answer, Some(4));
}

#[test]
fn search_stops_at_a_singular_system() {
    let made = std::cell::Cell::new(0usize);
    let answer = search(0u64, 10, |x: &u64| {
        made.set(made.get() + 1);
        if *x == 2 {
            Trial::Singular
        } else {
            Trial::Stepped(*x + 1)
        }
    });
    assert_eq!(answer, None);
    assert_eq!(made.get(), 3);
}

fn surface(u: f64, v: f64) -> [f64; 2] {
    [u + 0.1 * v * v, v + 0.1 * u * u]
}

fn invert(target: [f64; 2], hint: (f64, f64), trials: usize) -> Option<(f64, f64)> {
    search(hint, trials, |&(u, v): &(f64, f64)| {
        let p = surface(u, v);
        let r = [p[0] - target[0], p[1] - target[1]];
        let (a, b, c, d) = (1.0, 0.2 * v, 0.2 * u, 1.0);
        let scale = f64::min(0.05, f64::min(a * a + c * c, b * b + d * d));
        if r[0] * r[0] + r[1] * r[1] < 1.0e-12 * scale {
            return Trial::Converged;
        }
        let det = a * d - b * c;
        if det == 0.0 {
            return Trial::Singular;
        }
        Trial::Stepped((u - (d * r[0] - b * r[1]) / det, v - (a * r[1] - c * r[0]) / det))
    })
}

#[test]
fn newton_finds_the_parameters_of_points_on_a_surface() {
    let n = 12usize;
    let mut found = 0usize;
    let mut tried = 0usize;
    for i in 0..n {
        for j in 0..n {
            let u0 = (i as f64 + 0.37) / n as f64;
            let v0 = (j as f64 + 0.61) / n as f64;
            let hint = ((i as f64 + 0.5) / n as f64, (j as f64 + 0.5) / n as f64);
            tried += 1;
            if let Some((u, v)) = invert(surface(u0, v0), hint, 100) {
                if (u - u0).abs() < 1.0e-5 && (v - v0).abs() < 1.0e-5 {
                    found += 1;
                }
            }
        }
    }
    assert!(found * 100 >= tried * 95);
}

#[test]
fn newton_gives_up_at_a_singular_jacobian() {
    assert_eq!(invert([100.0, 100.0], (5.0, 5.0), 100), None);
}

#[test]
fn newton_without_trials_to_spare_needs_a_good_hint() {
    let target = surface(0.25, 0.75);
    assert_eq!(invert(target, (0.25, 0.75), 0), Some((0.25, 0.75)));
    assert_eq!(invert(target, (0.3, 0.7), 0), None);
}

/// An estimate in the plane: the parameter pair itself.
#[derive(Clone, Copy, Debug, PartialEq)]
struct Plane(f64, f64);

impl SspVector for Plane {
    type Scalar = f64;
    fn advance_newton(self, diff: Self, uder: Self, vder: Self) -> Option<Self> {
        let det = uder.0 * vder.1 - vder.0 * uder.1;
        if det == 0.0 {
            return None;
        }
        let du = (vder.1 * diff.0 - vder.0 * diff.1) / det;
        let dv = (uder.0 * diff.1 - uder.1 * diff.0) / det;
        Some(Plane(self.0 - du, self.1 - dv))
    }
    fn into_param(self) -> (f64, f64) {
        (self.0, self.1)
    }
    fn from_param(param: (f64, f64)) -> Self {
        Plane(param.0, param.1)
    }
}

fn look_for(target: [f64; 2]) -> impl Fn(f64, f64) -> Sample<Plane> {
    move |u: f64, v: f64| {
        let p = surface(u, v);
        let diff = Plane(p[0] - target[0], p[1] - target[1]);
        let uder = Plane(1.0, 0.2 * u);
        let vder = Plane(0.2 * v, 1.0);
        let scale = f64::min(0.05, f64::min(uder.0 * uder.0 + uder.1 * uder.1, vder.0 * vder.0 + vder.1 * vder.1));
        if diff.0 * diff.0 + diff.1 * diff.1 < 1.0e-12 * scale {
            Sample::Near
        } else {
            Sample::Off { diff, uder, vder }
        }
    }
}

#[test]
fn search_parameter_agrees_with_the_plain_search() {
    for (u0, v0, hu, hv) in [(0.3, 0.4, 0.5, 0.5), (0.9, 0.1, 0.7, 0.2), (0.0, 1.0, 0.1, 0.9)] {
        let target = surface(u0, v0);
        let by_vector = search_parameter::<Plane, _>((hu, hv), 100, look_for(target));
        assert_eq!(by_vector, invert(target, (hu, hv), 100));
        let (u, v) = by_vector.unwrap();
        assert!((u - u0).abs() < 1.0e-5 && (v - v0).abs() < 1.0e-5);
    }
}

#[test]
fn search_parameter_answers_with_the_hint_when_it_is_near() {
    let asked = std::cell::Cell::new(0usize);
    let answer = search_parameter::<Plane, _>((0.25, 0.5), 7, |_: f64, _: f64| {
        asked.set(asked.get() + 1);
        Sample::Near
    });
    assert_eq!(answer, Some((0.25, 0.5)));
    assert_eq!(asked.get(), 1);
}

#[test]
fn search_parameter_fails_on_a_singular_system_or_a_spent_budget() {
    let flat = |_: f64, _: f64| Sample::Off { diff: Plane(1.0, 1.0), uder: Plane(1.0, 1.0), vder: Plane(2.0, 2.0) };
    assert_eq!(search_parameter::<Plane, _>((0.0, 0.0), 5, flat), None);
    let asked = std::cell::Cell::new(0usize);
    let drift = |_: f64, _: f64| {
        asked.set(asked.get() + 1);
        Sample::Off { diff: Plane(1.0, 0.0), uder: Plane(1.0, 0.0), vder: Plane(0.0, 1.0) }
    };
    assert_eq!(search_parameter::<Plane, _>((0.0, 0.0), 5, drift), None);
    assert_eq!(asked.get(), 6);
}

#[test]
fn search_nearest_parameter_finds_the_foot_of_a_point_on_a_plane() {
    // The surface (u, v, 0): the parameter nearest to (a, b, c) is (a, b).
    let target = [0.3, -1.5, 4.0];
    let answer = search_nearest_parameter((10.0, 10.0), 3, |&(u, v): &(f64, f64)| {
        let f = (u - target[0], v - target[1]);
        if f.0 * f.0 + f.1 * f.1 < 1.0e-12 {
            Trial::Converged
        } else {
            Trial::Stepped((u - f.0, v - f.1))
        }
    });
    let (u, v) = answer.unwrap();
    assert!((u - 0.3).abs() < 1.0e-9 && (v + 1.5).abs() < 1.0e-9);
    let stuck = search_nearest_parameter((10.0, 10.0), 3, |_: &(f64, f64)| Trial::Singular);
    assert_eq!(stuck, None);
}
