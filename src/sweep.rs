//! The sweep: the plan and its results, and the decisions that run the
//! pending cases one after the other, record each result as it comes, and
//! stop at the first failure with the results recorded so far.

use vstd::prelude::*;
use crate::merge::{MergeError, all_known, env_view, envs_of, has_knob, merge_spec};
use crate::model::{ExpResult, State, settings_view};
use crate::plan::{baseline_of, default_catalog, new_state, plan_cases};
use crate::model::experiments_view;
use crate::runner::{
    Invocation, Outcome, RunFailure, RunStep, Runner, Step, invocation_of, run_experiment,
};

verus! {

/// Why a sweep cannot go on.
pub enum SweepError {
    /// The loaded state holds more results than cases.
    Inconsistent,
    /// Case `case` sets, at `position`, a knob that the baseline lacks.
    UnknownKnob { case: usize, position: usize },
}

/// What an outcome led to.
pub enum Progress {
    /// The experiment goes on with its next step.
    Continue,
    /// The experiment finished and its result was appended: persist the
    /// state now.
    Recorded,
    /// The experiment failed; nothing was recorded and the sweep stops.
    Failed(RunFailure),
}

/// A sweep under way: the state, and the runner of the case at index
/// `state.results.len()` while that case is being run.
pub struct Sweep {
    pub state: State,
    pub runner: Option<Runner>,
}

impl Sweep {
    /// The results are a prefix of the cases, and a runner under way runs
    /// the first case without a result, in that case's merged environment.
    pub open spec fn wf(&self) -> bool {
        &&& self.state.wf()
        &&& self.runner matches Some(n) ==> {
            let i = self.state.results@.len() as int;
            let base = settings_view(self.state.plan.baseline@);
            &&& i < self.state.plan.cases@.len()
            &&& all_known(base, self.state.plan.cases@[i]@)
            &&& env_view(n.envs@) == envs_of(merge_spec(base, self.state.plan.cases@[i]@))
        }
    }

    /// Resumes from a loaded state, or starts from a fresh one where none
    /// was found. A loaded state with more results than cases is refused.
    pub fn resume(loaded: Option<State>) -> (r: Result<Sweep, SweepError>)
        ensures
            match loaded {
                None => {
                    &&& r matches Ok(sw)
                    &&& sw.runner is None
                    &&& sw.state.results@.len() == 0
                    &&& settings_view(sw.state.plan.baseline@) == baseline_of(default_catalog())
                    &&& experiments_view(sw.state.plan.cases@) == plan_cases(default_catalog())
                },
                Some(s) => if s.wf() {
                    r == Ok::<Sweep, SweepError>(Sweep { state: s, runner: None })
                } else {
                    r == Err::<Sweep, SweepError>(SweepError::Inconsistent)
                },
            },
            r matches Ok(sw) ==> sw.wf(),
    {
        match loaded {
            None => Ok(Sweep { state: new_state(), runner: None }),
            Some(s) => {
                if s.validate() {
                    Ok(Sweep { state: s, runner: None })
                } else {
                    Err(SweepError::Inconsistent)
                }
            },
        }
    }

    /// The invocation to perform next. While a case is under way it is the
    /// runner's current step. Otherwise the first case without a result is
    /// started (its settings merged into the baseline) and its clean step
    /// comes next; a case that sets an unknown knob is refused. `None` once
    /// every case has its result. The state itself is left as it is.
    pub fn next_invocation(&mut self) -> (r: Result<Option<Invocation>, SweepError>)
        requires
            old(self).wf(),
        ensures
            final(self).wf(),
            final(self).state == old(self).state,
            match old(self).runner {
                Some(n) => {
                    &&& final(self).runner == old(self).runner
                    &&& r matches Ok(Some(inv)) && invocation_of(inv, n)
                },
                None => if old(self).state.complete() {
                    &&& r matches Ok(None)
                    &&& final(self).runner is None
                } else {
                    let i = old(self).state.results@.len() as int;
                    let base = settings_view(old(self).state.plan.baseline@);
                    let case = old(self).state.plan.cases@[i]@;
                    if all_known(base, case) {
                        &&& final(self).runner matches Some(n)
                        &&& n.step == Step::Clean
                        &&& n.build_time == 0
                        &&& env_view(n.envs@) == envs_of(merge_spec(base, case))
                        &&& r matches Ok(Some(inv)) && invocation_of(inv, n)
                    } else {
                        &&& final(self).runner is None
                        &&& r matches Err(SweepError::UnknownKnob { case, position })
                        &&& case == i
                        &&& position < old(self).state.plan.cases@[i]@.len()
                        &&& !has_knob(base, old(self).state.plan.cases@[i]@[position as int].0)
                    }
                },
            },
    {
        if self.runner.is_none() {
            let i = self.state.results.len();
            if i >= self.state.plan.cases.len() {
                return Ok(None);
            }
            match run_experiment(&self.state.plan.baseline, &self.state.plan.cases[i]) {
                Ok(n) => {
                    self.runner = Some(n);
                },
                Err(MergeError::UnknownKnob { position }) => {
                    return Err(SweepError::UnknownKnob { case: i, position });
                },
            }
        }
        match &self.runner {
            Some(n) => Ok(Some(n.invocation())),
            None => Ok(None),
        }
    }

    /// Takes the outcome of the invocation last handed out. A failure ends
    /// the case without recording anything; the success of the build-and-run
    /// step appends the case's result, timed by the build-only and the
    /// build-and-run steps; any other success moves the case on.
    pub fn on_outcome(&mut self, outcome: Outcome) -> (r: Progress)
        requires
            old(self).wf(),
            old(self).runner is Some,
        ensures
            final(self).wf(),
            final(self).state.plan == old(self).state.plan,
            ({
                let n = old(self).runner->Some_0;
                match outcome {
                    Outcome::Failure { status } => {
                        &&& r == Progress::Failed(RunFailure { step: n.step, status })
                        &&& final(self).runner is None
                        &&& final(self).state.results == old(self).state.results
                    },
                    Outcome::Success { elapsed } => if n.step == Step::BuildAndRun {
                        &&& r is Recorded
                        &&& final(self).runner is None
                        &&& final(self).state.results@ == old(self).state.results@.push(
                            ExpResult { build_time: n.build_time, run_time: elapsed },
                        )
                    } else {
                        &&& r is Continue
                        &&& final(self).state.results == old(self).state.results
                        &&& final(self).runner matches Some(m)
                        &&& m.envs == n.envs
                        &&& m.step == (if n.step == Step::Clean {
                            Step::BuildOnly
                        } else {
                            Step::BuildAndRun
                        })
                        &&& n.step == Step::BuildOnly ==> m.build_time == elapsed
                    },
                }
            }),
    {
        let n = self.runner.take().unwrap();
        match n.advance(outcome) {
            RunStep::Next(m) => {
                self.runner = Some(m);
                Progress::Continue
            },
            RunStep::Finished(res) => {
                self.state.results.push(res);
                Progress::Recorded
            },
            RunStep::Failed(f) => Progress::Failed(f),
        }
    }
}

} // verus!
