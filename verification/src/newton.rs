//! Control of a Newton iteration with a budget of trials.
//!
//! The numerical work of one trial, evaluating a surface and its derivatives
//! at the current estimate and solving for the step, is done elsewhere. What
//! is decided here is where the iteration starts, whether it goes on after a
//! trial, and what it answers when it stops. Estimates are carried as values
//! of any type: nothing here computes with them.

use vstd::prelude::*;

verus! {

/// How many parts per axis a presearch divides its region into.
pub const PRESEARCH_DIVISION: usize = 50;

/// What the caller knows about where the answer lies.
pub enum SearchHint<T> {
    /// A parameter pair to start from.
    Parameter(T, T),
    /// A range on each axis to look in.
    Range((T, T), (T, T)),
    /// Nothing.
    Nothing,
}

/// How a search gets its first estimate.
pub enum SearchStart<T> {
    /// The iteration starts from this parameter pair.
    At(T, T),
    /// The iteration starts from the nearest sample of a grid over this
    /// region, given as a range on each axis.
    Presearch((T, T), (T, T)),
}

/// The first estimate that `hint` asks for, on a surface whose whole
/// parameter domain is `domain`.
pub open spec fn start_of<T>(hint: SearchHint<T>, domain: ((T, T), (T, T))) -> SearchStart<T> {
    match hint {
        SearchHint::Parameter(u, v) => SearchStart::At(u, v),
        SearchHint::Range(urange, vrange) => SearchStart::Presearch(urange, vrange),
        SearchHint::Nothing => SearchStart::Presearch(domain.0, domain.1),
    }
}

/// Decides how a search starts: from the hinted parameter pair, from a
/// presearch of the hinted region, or, without a hint, from a presearch of
/// the whole domain.
pub fn search_start<T>(hint: SearchHint<T>, domain: ((T, T), (T, T))) -> (start: SearchStart<T>)
    ensures
        start == start_of(hint, domain),
{
    match hint {
        SearchHint::Parameter(u, v) => SearchStart::At(u, v),
        SearchHint::Range(urange, vrange) => SearchStart::Presearch(urange, vrange),
        SearchHint::Nothing => SearchStart::Presearch(domain.0, domain.1),
    }
}

/// What one trial at the current estimate showed.
pub enum Trial<T> {
    /// The estimate meets the stopping criterion.
    Converged,
    /// The linear system for the step has no solution.
    Singular,
    /// The step was taken and led to this estimate.
    Stepped(T),
}

/// How the iteration stands after a trial.
pub enum Progress<T> {
    /// The search ended with this answer.
    Found(T),
    /// The search ended without an answer.
    Failed,
    /// The search goes on from this state.
    Continue(NewtonSearch<T>),
}

/// A search under way: the estimate that the next trial is made at, and how
/// many trials may follow that one.
pub struct NewtonSearch<T> {
    pub estimate: T,
    pub trials_left: usize,
}

impl<T> NewtonSearch<T> {
    /// How the search stands after a trial at its estimate showed `trial`.
    pub open spec fn after(self, trial: Trial<T>) -> Progress<T> {
        match trial {
            Trial::Converged => Progress::Found(self.estimate),
            Trial::Singular => Progress::Failed,
            Trial::Stepped(next) => if self.trials_left == 0 {
                Progress::Failed
            } else {
                Progress::Continue(
                    NewtonSearch { estimate: next, trials_left: (self.trials_left - 1) as usize },
                )
            },
        }
    }

    /// How the search stands after the trials in `trials`, made in order, as
    /// long as it goes on; trials past its end are not looked at.
    pub open spec fn after_all(self, trials: Seq<Trial<T>>) -> Progress<T>
        decreases trials.len(),
    {
        if trials.len() == 0 {
            Progress::Continue(self)
        } else {
            match self.after(trials[0]) {
                Progress::Continue(next) => next.after_all(trials.drop_first()),
                ended => ended,
            }
        }
    }

    /// A search that makes its first trial at `hint` and at most `trials`
    /// more after it.
    pub fn start(hint: T, trials: usize) -> (search: Self)
        ensures
            search == (NewtonSearch { estimate: hint, trials_left: trials }),
    {
        NewtonSearch { estimate: hint, trials_left: trials }
    }

    /// Takes the outcome of the trial at the current estimate. A converged
    /// estimate is the answer. A singular system ends the search without
    /// one, and so does a step that the budget has no trial left for. Any
    /// other step is the estimate of the next trial.
    pub fn advance(self, trial: Trial<T>) -> (progress: Progress<T>)
        ensures
            progress == self.after(trial),
    {
        match trial {
            Trial::Converged => Progress::Found(self.estimate),
            Trial::Singular => Progress::Failed,
            Trial::Stepped(next) => {
                if self.trials_left == 0 {
                    Progress::Failed
                } else {
                    Progress::Continue(
                        NewtonSearch { estimate: next, trials_left: self.trials_left - 1 },
                    )
                }
            },
        }
    }
}

/// Whether `seen` can be what a search from `start` saw: each trial is one
/// that `trial` may give at the estimate the search had reached, and no trial
/// comes after the search has ended.
pub open spec fn traces<T, F: Fn(&T) -> Trial<T>>(
    trial: F,
    start: NewtonSearch<T>,
    seen: Seq<Trial<T>>,
) -> bool {
    forall|k: int|
        0 <= k < seen.len() ==> match #[trigger] start.after_all(seen.take(k)) {
            Progress::Continue(at) => call_ensures(trial, (&at.estimate,), seen[k]),
            _ => false,
        }
}

/// What a search that ended as `progress` answers.
pub open spec fn answer_of<T>(progress: Progress<T>) -> Option<T> {
    match progress {
        Progress::Found(estimate) => Some(estimate),
        _ => None,
    }
}

/// Whether a search from `hint` with a budget of `trials` further trials,
/// having seen `seen`, has ended with `answer`.
pub open spec fn ends_as<T, F: Fn(&T) -> Trial<T>>(
    trial: F,
    hint: T,
    trials: usize,
    seen: Seq<Trial<T>>,
    answer: Option<T>,
) -> bool {
    let start = NewtonSearch { estimate: hint, trials_left: trials };
    &&& traces(trial, start, seen)
    &&& 0 < seen.len() <= trials + 1
    &&& !(start.after_all(seen) is Continue)
    &&& answer == answer_of(start.after_all(seen))
}

/// Runs a search to its end: starting at `hint`, makes a trial at the
/// current estimate, by a call of `trial`, for as long as the search goes on.
/// The answer is the first estimate found converged, or nothing if a trial
/// found the system singular or the budget of `trials` further trials ran
/// out first.
pub fn search<T, F: Fn(&T) -> Trial<T>>(hint: T, trials: usize, trial: F) -> (answer: Option<T>)
    requires
        forall|estimate: &T| call_requires(trial, (estimate,)),
    ensures
        exists|seen: Seq<Trial<T>>| #[trigger] ends_as(trial, hint, trials, seen, answer),
{
    let ghost start = NewtonSearch { estimate: hint, trials_left: trials };
    let ghost mut seen: Seq<Trial<T>> = Seq::empty();
    let mut current = NewtonSearch::start(hint, trials);
    loop
        invariant
            forall|estimate: &T| call_requires(trial, (estimate,)),
            start == (NewtonSearch { estimate: hint, trials_left: trials }),
            traces(trial, start, seen),
            start.after_all(seen) == Progress::Continue(current),
            seen.len() + current.trials_left == trials,
        decreases current.trials_left,
    {
        let shown = trial(&current.estimate);
        proof {
            lemma_after_one_more(start, seen, shown);
            let longer = seen.push(shown);
            assert forall|k: int| 0 <= k < longer.len() implies match #[trigger] start.after_all(
                longer.take(k),
            ) {
                Progress::Continue(at) => call_ensures(trial, (&at.estimate,), longer[k]),
                _ => false,
            } by {
                if k < seen.len() {
                    assert(longer.take(k) =~= seen.take(k));
                } else {
                    assert(longer.take(k) =~= seen);
                }
            }
            seen = longer;
        }
        match current.advance(shown) {
            Progress::Found(estimate) => {
                proof {
                    assert(ends_as(trial, hint, trials, seen, Some(estimate)));
                }
                return Some(estimate);
            },
            Progress::Failed => {
                proof {
                    assert(ends_as(trial, hint, trials, seen, None));
                }
                return None;
            },
            Progress::Continue(next) => {
                current = next;
            },
        }
    }
}

/// Searches the parameter pair at which a surface is nearest to a point, by
/// Newton's method on the squared distance. The search starts at `hint`. At
/// each trial `step` is asked about the current pair: it finds the pair
/// converged, or the system of the step singular, or gives the pair that the
/// step leads to. The answer is the first pair found converged, or nothing
/// if a system was singular or a step is owed after `trials` steps have been
/// taken already.
pub fn search_nearest_parameter<S, F: Fn(&(S, S)) -> Trial<(S, S)>>(
    hint: (S, S),
    trials: usize,
    step: F,
) -> (answer: Option<(S, S)>)
    requires
        forall|param: &(S, S)| call_requires(step, (param,)),
    ensures
        exists|seen: Seq<Trial<(S, S)>>| #[trigger] ends_as(step, hint, trials, seen, answer),
{
    search(hint, trials, step)
}

/// One more trial takes a search that goes on to where that trial leads, and
/// leaves a search that has ended as it is.
pub proof fn lemma_after_one_more<T>(search: NewtonSearch<T>, trials: Seq<Trial<T>>, last: Trial<T>)
    ensures
        search.after_all(trials.push(last)) == match search.after_all(trials) {
            Progress::Continue(at) => at.after(last),
            ended => ended,
        },
    decreases trials.len(),
{
    let longer = trials.push(last);
    if trials.len() == 0 {
        assert(longer.drop_first() =~= Seq::<Trial<T>>::empty());
        match search.after(last) {
            Progress::Continue(next) => {
                assert(next.after_all(longer.drop_first()) == Progress::Continue(next));
            },
            _ => {},
        }
    } else {
        assert(longer[0] == trials[0]);
        assert(longer.drop_first() =~= trials.drop_first().push(last));
        match search.after(trials[0]) {
            Progress::Continue(next) => {
                lemma_after_one_more(next, trials.drop_first(), last);
            },
            _ => {},
        }
    }
}

/// Estimates of a point inversion: vectors of the space that the surface
/// lies in, which stand for a parameter pair and can take a Newton step.
pub trait SspVector: Copy {
    type Scalar: Copy;

    /// The estimate after the Newton step that takes the residual `diff`
    /// off along the derivatives `uder` and `vder`, or nothing if the system
    /// of the step has no solution.
    fn advance_newton(self, diff: Self, uder: Self, vder: Self) -> Option<Self>;

    /// The parameter pair that this estimate stands for.
    fn into_param(self) -> (Self::Scalar, Self::Scalar);

    /// The estimate that stands for `param`.
    fn from_param(param: (Self::Scalar, Self::Scalar)) -> Self;
}

/// What a surface shows at a parameter pair when a point is looked for.
pub enum Sample<V> {
    /// The position is as near to the point as the search asks.
    Near,
    /// The position is off the point by `diff`, and the derivatives there
    /// are `uder` and `vder`.
    Off { diff: V, uder: V, vder: V },
}

/// Whether `shown` is what the search may see at the estimate `at`: `sample`
/// is asked at the parameter pair `param` that `at` stands for; a position
/// near the point shows as converged; a position off it shows as the Newton
/// step from `at`, or as singular if that step cannot be taken.
pub open spec fn inverts_at<V: SspVector, F: Fn(V::Scalar, V::Scalar) -> Sample<V>>(
    sample: &F,
    at: V,
    param: (V::Scalar, V::Scalar),
    shown: Trial<V>,
) -> bool {
    &&& call_ensures(V::into_param, (at,), param)
    &&& exists|seen: Sample<V>| #[trigger]
        call_ensures(*sample, param, seen) && match seen {
            Sample::Near => shown is Converged,
            Sample::Off { diff, uder, vder } => exists|next: Option<V>| #[trigger]
                call_ensures(V::advance_newton, (at, diff, uder, vder), next) && shown == match next {
                    Some(estimate) => Trial::Stepped(estimate),
                    None => Trial::Singular,
                },
        }
}

/// Whether `seen` can be what a point inversion from `start` saw, the
/// estimates having stood for the parameter pairs in `params`.
pub open spec fn inversion_traces<V: SspVector, F: Fn(V::Scalar, V::Scalar) -> Sample<V>>(
    sample: &F,
    start: NewtonSearch<V>,
    params: Seq<(V::Scalar, V::Scalar)>,
    seen: Seq<Trial<V>>,
) -> bool {
    &&& params.len() == seen.len()
    &&& forall|k: int|
        0 <= k < seen.len() ==> match #[trigger] start.after_all(seen.take(k)) {
            Progress::Continue(at) => inverts_at(sample, at.estimate, params[k], seen[k]),
            _ => false,
        }
}

/// Whether a point inversion from `hint` with a budget of `trials` further
/// trials, having started at the estimate `first` and seen `seen` at the
/// parameter pairs `params`, has ended with `answer`: the last parameter
/// pair if the last trial found it converged, nothing otherwise.
pub open spec fn inversion_ends_as<V: SspVector, F: Fn(V::Scalar, V::Scalar) -> Sample<V>>(
    sample: &F,
    hint: (V::Scalar, V::Scalar),
    trials: usize,
    first: V,
    params: Seq<(V::Scalar, V::Scalar)>,
    seen: Seq<Trial<V>>,
    answer: Option<(V::Scalar, V::Scalar)>,
) -> bool {
    let start = NewtonSearch { estimate: first, trials_left: trials };
    &&& call_ensures(V::from_param, (hint,), first)
    &&& inversion_traces(sample, start, params, seen)
    &&& 0 < seen.len() <= trials + 1
    &&& !(start.after_all(seen) is Continue)
    &&& answer == if start.after_all(seen) is Found {
        Some(params.last())
    } else {
        None
    }
}

/// Searches the parameter pair at which a surface is at a point, by
/// Newton's method. The estimate is kept as a vector, which starts out
/// standing for `hint`. At each trial `sample` is asked what the surface
/// shows at the parameter pair that the estimate stands for. A position
/// near the point ends the search with that pair. A position off it gets a
/// Newton step; the search ends without an answer if the step cannot be
/// taken, or if it is owed after `trials` steps have been taken already.
pub fn search_parameter<V: SspVector, F: Fn(V::Scalar, V::Scalar) -> Sample<V>>(
    hint: (V::Scalar, V::Scalar),
    trials: usize,
    sample: F,
) -> (answer: Option<(V::Scalar, V::Scalar)>)
    requires
        forall|u: V::Scalar, v: V::Scalar| call_requires(sample, (u, v)),
    ensures
        exists|first: V, params: Seq<(V::Scalar, V::Scalar)>, seen: Seq<Trial<V>>| #[trigger]
            inversion_ends_as(&sample, hint, trials, first, params, seen, answer),
{
    let first = V::from_param(hint);
    let ghost start = NewtonSearch { estimate: first, trials_left: trials };
    let ghost mut seen: Seq<Trial<V>> = Seq::empty();
    let ghost mut params: Seq<(V::Scalar, V::Scalar)> = Seq::empty();
    let mut current = NewtonSearch::start(first, trials);
    loop
        invariant
            forall|u: V::Scalar, v: V::Scalar| call_requires(sample, (u, v)),
            call_ensures(V::from_param, (hint,), first),
            start == (NewtonSearch { estimate: first, trials_left: trials }),
            inversion_traces(&sample, start, params, seen),
            start.after_all(seen) == Progress::Continue(current),
            seen.len() + current.trials_left == trials,
        decreases current.trials_left,
    {
        let at = current.estimate;
        let param = at.into_param();
        let shown = match sample(param.0, param.1) {
            Sample::Near => Trial::Converged,
            Sample::Off { diff, uder, vder } => match at.advance_newton(diff, uder, vder) {
                Some(estimate) => Trial::Stepped(estimate),
                None => Trial::Singular,
            },
        };
        proof {
            assert(inverts_at(&sample, at, param, shown));
            lemma_after_one_more(start, seen, shown);
            let longer = seen.push(shown);
            let more = params.push(param);
            assert forall|k: int| 0 <= k < longer.len() implies match #[trigger] start.after_all(
                longer.take(k),
            ) {
                Progress::Continue(at) => inverts_at(&sample, at.estimate, more[k], longer[k]),
                _ => false,
            } by {
                if k < seen.len() {
                    assert(longer.take(k) =~= seen.take(k));
                } else {
                    assert(longer.take(k) =~= seen);
                }
            }
            seen = longer;
            params = more;
        }
        match current.advance(shown) {
            Progress::Found(estimate) => {
                proof {
                    assert(inversion_ends_as(&sample, hint, trials, first, params, seen, Some(param)));
                }
                return Some(param);
            },
            Progress::Failed => {
                proof {
                    assert(inversion_ends_as(&sample, hint, trials, first, params, seen, None));
                }
                return None;
            },
            Progress::Continue(next) => {
                current = next;
            },
        }
    }
}

/// A search does not outlast its budget: after more trials than it had left
/// it has ended, whatever the trials showed.
pub proof fn lemma_search_ends<T>(search: NewtonSearch<T>, trials: Seq<Trial<T>>)
    requires
        trials.len() > search.trials_left,
    ensures
        !(search.after_all(trials) is Continue),
    decreases trials.len(),
{
    match search.after(trials[0]) {
        Progress::Continue(next) => {
            lemma_search_ends(next, trials.drop_first());
        },
        _ => {},
    }
}

/// A search answers only with an estimate that a trial found converged: the
/// hint itself, or the estimate that the step before led to.
pub proof fn lemma_found_was_converged<T>(search: NewtonSearch<T>, trials: Seq<Trial<T>>)
    requires
        search.after_all(trials) is Found,
    ensures
        exists|k: int|
            0 <= k < trials.len() && #[trigger] trials[k] is Converged && search.after_all(trials)
                == Progress::Found(
                if k == 0 {
                    search.estimate
                } else {
                    trials[k - 1]->Stepped_0
                },
            ) && (k > 0 ==> trials[k - 1] is Stepped),
    decreases trials.len(),
{
    if trials.len() > 0 {
        match search.after(trials[0]) {
            Progress::Continue(next) => {
                let rest = trials.drop_first();
                lemma_found_was_converged(next, rest);
                let k = choose|k: int|
                    0 <= k < rest.len() && #[trigger] rest[k] is Converged && next.after_all(rest)
                        == Progress::Found(
                        if k == 0 {
                            next.estimate
                        } else {
                            rest[k - 1]->Stepped_0
                        },
                    ) && (k > 0 ==> rest[k - 1] is Stepped);
                assert(trials[k + 1] == rest[k]);
                if k > 0 {
                    assert(trials[k] == rest[k - 1]);
                }
                assert(trials[k + 1] is Converged);
            },
            _ => {
                assert(trials[0] is Converged);
            },
        }
    }
}

} // verus!
