//! The search for the current step. Steps are examined from last to first;
//! the first one whose trigger artifact exists is the current step, and a
//! step with an empty trigger is the fallback when none exists. Checking a
//! file is the caller's work: the search asks for one path at a time and
//! continues with the answer.
use crate::config::{Config, StepView};
use crate::errors::{error_of, Error, ErrorView};
use crate::text::cat;
use vstd::prelude::*;

verus! {

/// The path of a step's trigger artifact under `dir`.
pub open spec fn artifact_of(dir: Seq<char>, s: StepView) -> Seq<char> {
    dir + s.trigger
}

/// The result of scanning steps `pos - 1` down to `0` with the fallback
/// found so far; `present` says which files exist.
pub open spec fn search_from(
    steps: Seq<StepView>,
    dir: Seq<char>,
    present: spec_fn(Seq<char>) -> bool,
    pos: int,
    default: Option<int>,
) -> Option<int>
    decreases pos,
{
    if pos <= 0 {
        default
    } else {
        let i = pos - 1;
        if steps[i].trigger.len() == 0 {
            search_from(steps, dir, present, i, if default is None { Some(i) } else { default })
        } else if present(artifact_of(dir, steps[i])) {
            Some(i)
        } else {
            search_from(steps, dir, present, i, default)
        }
    }
}

/// The index of the current step when `present` says which files exist.
pub open spec fn current_step(
    steps: Seq<StepView>,
    dir: Seq<char>,
    present: spec_fn(Seq<char>) -> bool,
) -> Option<int> {
    search_from(steps, dir, present, steps.len() as int, None)
}

/// The error when no trigger artifact exists and there is no fallback.
pub open spec fn no_match(dir: Seq<char>) -> ErrorView {
    error_of("step"@, dir + ": no trigger artifact matched"@)
}

/// Progress of the search: steps below `next` are still to be examined,
/// `default` is the fallback found so far, and `pending` is the step whose
/// artifact the caller was asked to check.
#[derive(Clone, Copy)]
pub struct StepSearch {
    pub next: usize,
    pub default: Option<usize>,
    pub pending: Option<usize>,
}

/// What the search needs next.
pub enum SearchStep {
    /// Check whether the file at this path exists and answer.
    Check(String),
    /// The search is over.
    Done(Result<crate::config::Step, Error>),
}

/// An optional index as an integer.
pub open spec fn as_int(o: Option<usize>) -> Option<int> {
    match o {
        Some(i) => Some(i as int),
        None => None,
    }
}

impl StepSearch {
    /// The search is consistent for `n` steps.
    pub open spec fn wf(&self, n: int) -> bool {
        &&& self.next <= n
        &&& self.pending matches Some(i) ==> i == self.next && i < n
        &&& self.default matches Some(d) ==> self.next <= d < n
    }

    /// The step the search will settle on when `present` says which files
    /// exist.
    pub open spec fn outcome(
        &self,
        steps: Seq<StepView>,
        dir: Seq<char>,
        present: spec_fn(Seq<char>) -> bool,
    ) -> Option<int> {
        match self.pending {
            Some(i) => if present(artifact_of(dir, steps[i as int])) {
                Some(i as int)
            } else {
                search_from(steps, dir, present, i as int, as_int(self.default))
            },
            None => search_from(steps, dir, present, self.next as int, as_int(self.default)),
        }
    }

    /// `answer` is what `present` says of the pending check.
    pub open spec fn answered(
        &self,
        answer: Option<Result<bool, Error>>,
        steps: Seq<StepView>,
        dir: Seq<char>,
        present: spec_fn(Seq<char>) -> bool,
    ) -> bool {
        match self.pending {
            Some(i) => answer matches Some(Ok(b)) && b == present(artifact_of(dir, steps[i as int])),
            None => answer is None,
        }
    }

    /// A measure that every check request decreases.
    pub open spec fn measure(&self) -> int {
        2 * self.next + if self.pending is None { 1int } else { 0int }
    }

    /// A search over all steps of a configuration.
    pub fn new(config: &Config) -> (r: StepSearch)
        ensures
            r.wf(config@.steps.len() as int),
            r.pending is None,
            r.default is None,
            r.next == config@.steps.len(),
            forall|dir: Seq<char>, present: spec_fn(Seq<char>) -> bool|
                #[trigger] r.outcome(config@.steps, dir, present) == current_step(
                    config@.steps,
                    dir,
                    present,
                ),
    {
        StepSearch { next: config.steps.len(), default: None, pending: None }
    }

    /// Continue the search with the answer to the pending check (`None`
    /// when nothing is pending). An error from the check ends the search
    /// with that error.
    pub fn advance(&mut self, config: &Config, dir: &str, answer: Option<Result<bool, Error>>) -> (r:
        SearchStep)
        requires
            old(self).wf(config@.steps.len() as int),
            old(self).pending is Some <==> answer is Some,
        ensures
            final(self).wf(config@.steps.len() as int),
            answer matches Some(Err(e)) ==> r == SearchStep::Done(Err(e)),
            r matches SearchStep::Check(path) ==> {
                &&& final(self).pending matches Some(i) && path@ == artifact_of(
                    dir@,
                    config@.steps[i as int],
                )
                &&& final(self).pending matches Some(i) && path@ == dir@
                    + config.steps@[i as int].trigger_artifact@
                &&& final(self).measure() < old(self).measure()
            },
            forall|present: spec_fn(Seq<char>) -> bool|
                #[trigger] old(self).answered(answer, config@.steps, dir@, present) ==> {
                    let o = old(self).outcome(config@.steps, dir@, present);
                    match r {
                        SearchStep::Check(_) => final(self).outcome(config@.steps, dir@, present)
                            == o,
                        SearchStep::Done(Ok(s)) => o matches Some(j) && s@ == config@.steps[j],
                        SearchStep::Done(Err(e)) => o is None && e@ == no_match(dir@),
                    }
                },
    {
        let ghost steps = config@.steps;
        let ghost start = *self;
        let n = config.steps.len();
        match answer {
            Some(Err(e)) => {
                return SearchStep::Done(Err(e));
            },
            Some(Ok(true)) => {
                let i = self.pending.unwrap();
                return SearchStep::Done(Ok(config.steps[i].duplicate()));
            },
            _ => {},
        }
        self.pending = None;
        while self.next > 0
            invariant
                n == steps.len(),
                steps == config@.steps,
                start == *old(self),
                start.wf(n as int),
                start.pending is Some <==> answer is Some,
                self.pending is None,
                self.wf(n as int),
                self.next <= start.next,
                answer matches Some(Ok(b)) ==> !b,
                answer is None || answer matches Some(Ok(_)),
                forall|present: spec_fn(Seq<char>) -> bool|
                    #[trigger] start.answered(answer, steps, dir@, present) ==> search_from(
                        steps,
                        dir@,
                        present,
                        self.next as int,
                        as_int(self.default),
                    ) == start.outcome(steps, dir@, present),
            decreases self.next,
        {
            let i = self.next - 1;
            let ghost before = *self;
            assert(steps[i as int] == config.steps@[i as int]@);
            if config.steps[i].trigger_artifact.as_str().is_empty() {
                if self.default.is_none() {
                    self.default = Some(i);
                }
                self.next = i;
                proof {
                    assert forall|present: spec_fn(Seq<char>) -> bool|
                        #[trigger] start.answered(answer, steps, dir@, present) implies search_from(
                        steps,
                        dir@,
                        present,
                        self.next as int,
                        as_int(self.default),
                    ) == start.outcome(steps, dir@, present) by {
                        assert(search_from(steps, dir@, present, i + 1, as_int(before.default))
                            == search_from(steps, dir@, present, i as int, as_int(self.default)));
                    }
                }
            } else {
                self.next = i;
                self.pending = Some(i);
                let path = cat(dir, config.steps[i].trigger_artifact.as_str());
                proof {
                    assert forall|present: spec_fn(Seq<char>) -> bool|
                        #[trigger] start.answered(answer, steps, dir@, present) implies self.outcome(
                        steps,
                        dir@,
                        present,
                    ) == start.outcome(steps, dir@, present) by {
                        assert(search_from(steps, dir@, present, i + 1, as_int(before.default))
                            == self.outcome(steps, dir@, present));
                    }
                }
                return SearchStep::Check(path);
            }
        }
        match self.default {
            Some(d) => SearchStep::Done(Ok(config.steps[d].duplicate())),
            None => {
                let message = cat(dir, ": no trigger artifact matched");
                SearchStep::Done(Err(Error { source: crate::text::owned("step"), message }))
            },
        }
    }
}

/// Step `i` has a non-empty trigger whose artifact exists.
pub open spec fn triggered(
    steps: Seq<StepView>,
    dir: Seq<char>,
    present: spec_fn(Seq<char>) -> bool,
    i: int,
) -> bool {
    0 <= i < steps.len() && steps[i].trigger.len() > 0 && present(artifact_of(dir, steps[i]))
}

/// The last step below `pos` with an empty trigger.
pub open spec fn last_default_below(steps: Seq<StepView>, pos: int) -> Option<int>
    decreases pos,
{
    if pos <= 0 {
        None
    } else if steps[pos - 1].trigger.len() == 0 {
        Some(pos - 1)
    } else {
        last_default_below(steps, pos - 1)
    }
}

/// What `search_from` settles on: the last triggered step below `pos`, or
/// else the fallback found so far, or else the last default below `pos`.
pub proof fn lemma_search_from(
    steps: Seq<StepView>,
    dir: Seq<char>,
    present: spec_fn(Seq<char>) -> bool,
    pos: int,
    default: Option<int>,
)
    requires
        0 <= pos <= steps.len(),
    ensures
        (exists|i: int| 0 <= i < pos && #[trigger] triggered(steps, dir, present, i))
            ==> (search_from(steps, dir, present, pos, default) matches Some(j) && 0 <= j < pos
            && triggered(steps, dir, present, j) && forall|k: int|
            j < k < pos ==> !#[trigger] triggered(steps, dir, present, k)),
        (forall|i: int| 0 <= i < pos ==> !#[trigger] triggered(steps, dir, present, i))
            ==> search_from(steps, dir, present, pos, default) == if default is Some {
            default
        } else {
            last_default_below(steps, pos)
        },
    decreases pos,
{
    if pos > 0 {
        let i = pos - 1;
        if steps[i].trigger.len() == 0 {
            let d2 = if default is None { Some(i) } else { default };
            lemma_search_from(steps, dir, present, i, d2);
            assert(!triggered(steps, dir, present, i));
        } else if present(artifact_of(dir, steps[i])) {
            assert(triggered(steps, dir, present, i));
        } else {
            lemma_search_from(steps, dir, present, i, default);
            assert(!triggered(steps, dir, present, i));
        }
    }
}

/// The current step is the last step whose trigger artifact exists; when
/// no trigger artifact exists it is the last step with an empty trigger,
/// and when there is none of those either there is no current step.
pub proof fn lemma_current_step(
    steps: Seq<StepView>,
    dir: Seq<char>,
    present: spec_fn(Seq<char>) -> bool,
)
    ensures
        (exists|i: int| #[trigger] triggered(steps, dir, present, i)) ==> (current_step(
            steps,
            dir,
            present,
        ) matches Some(j) && triggered(steps, dir, present, j) && forall|k: int|
            j < k ==> !#[trigger] triggered(steps, dir, present, k)),
        (forall|i: int| !#[trigger] triggered(steps, dir, present, i)) ==> current_step(
            steps,
            dir,
            present,
        ) == last_default_below(steps, steps.len() as int),
{
    lemma_search_from(steps, dir, present, steps.len() as int, None);
    if exists|i: int| #[trigger] triggered(steps, dir, present, i) {
        let i = choose|i: int| #[trigger] triggered(steps, dir, present, i);
        assert(0 <= i < steps.len());
    }
}

} // verus!
