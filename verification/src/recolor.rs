//! Recolouring off the display loop: at most one worker is in flight, and
//! requests that arrive meanwhile are coalesced into the one that follows.

use vstd::prelude::*;
use crate::color::ColorParameters;

verus! {

/// One unit of recolouring work: the parameters it was started with and
/// the generation that tells its result from those of other jobs.
#[derive(Clone, Copy, Debug, PartialEq, Eq, Structural)]
pub struct RecolorJob {
    pub requested_params: ColorParameters,
    pub generation: u64,
}

/// Whether a worker is in flight, and what was asked for since it began.
#[derive(Clone, Copy, Debug, PartialEq, Eq, Structural)]
pub enum RecolorState {
    /// No worker is in flight.
    Idle,
    /// The worker of `job` is in flight. `pending` holds the latest
    /// parameters requested since it started, if any.
    Running { job: RecolorJob, pending: Option<ColorParameters> },
}

/// What to do with the buffer of a worker that reported completion.
#[derive(Clone, Copy, Debug, PartialEq, Eq, Structural)]
pub enum Outcome {
    /// The buffer is current: overwrite the image with it.
    Apply,
    /// The buffer is superseded: drop it and start the worker of this job.
    Restart(RecolorJob),
    /// The report does not belong to the job in flight: drop the buffer.
    Stale,
}

/// The recolour state machine.
#[derive(Clone, Copy, Debug, PartialEq, Eq, Structural)]
pub struct RecolorOrchestrator {
    pub state: RecolorState,
    pub next_generation: u64,
}

/// The generation after `g`; the counter wraps.
pub open spec fn generation_after(g: u64) -> u64 {
    if g == u64::MAX {
        0
    } else {
        (g + 1) as u64
    }
}

impl RecolorOrchestrator {
    /// The machine after a parameter change was observed.
    pub open spec fn after_request(self, params: ColorParameters) -> RecolorOrchestrator {
        match self.state {
            RecolorState::Idle => RecolorOrchestrator {
                state: RecolorState::Running {
                    job: RecolorJob { requested_params: params, generation: self.next_generation },
                    pending: None,
                },
                next_generation: generation_after(self.next_generation),
            },
            RecolorState::Running { job, pending } => RecolorOrchestrator {
                state: RecolorState::Running { job, pending: Some(params) },
                next_generation: self.next_generation,
            },
        }
    }

    /// The machine after the field was replaced: a job in flight works on
    /// the old field, so its parameters are asked for again unless newer
    /// ones already wait.
    pub open spec fn after_invalidate(self) -> RecolorOrchestrator {
        match self.state {
            RecolorState::Idle => self,
            RecolorState::Running { job, pending } => RecolorOrchestrator {
                state: RecolorState::Running {
                    job,
                    pending: Some(
                        match pending {
                            Some(p) => p,
                            None => job.requested_params,
                        },
                    ),
                },
                next_generation: self.next_generation,
            },
        }
    }

    /// What becomes of the buffer of the worker that reports `generation`.
    pub open spec fn outcome_of(self, generation: u64) -> Outcome {
        match self.state {
            RecolorState::Idle => Outcome::Stale,
            RecolorState::Running { job, pending } => if job.generation != generation {
                Outcome::Stale
            } else {
                match pending {
                    None => Outcome::Apply,
                    Some(p) => Outcome::Restart(
                        RecolorJob { requested_params: p, generation: self.next_generation },
                    ),
                }
            },
        }
    }

    /// The machine after the worker that reports `generation` finished.
    pub open spec fn after_finish(self, generation: u64) -> RecolorOrchestrator {
        match self.outcome_of(generation) {
            Outcome::Stale => self,
            Outcome::Apply => RecolorOrchestrator {
                state: RecolorState::Idle,
                next_generation: self.next_generation,
            },
            Outcome::Restart(job) => RecolorOrchestrator {
                state: RecolorState::Running { job, pending: None },
                next_generation: generation_after(self.next_generation),
            },
        }
    }

    /// The number of workers in flight: none when idle, one when running.
    pub open spec fn in_flight(self) -> nat {
        match self.state {
            RecolorState::Idle => 0,
            RecolorState::Running { .. } => 1,
        }
    }

    /// An idle machine.
    pub fn new() -> (out: Self)
        ensures
            out == (RecolorOrchestrator { state: RecolorState::Idle, next_generation: 0 }),
    {
        RecolorOrchestrator { state: RecolorState::Idle, next_generation: 0 }
    }

    /// Whether no worker is in flight.
    pub fn is_idle(&self) -> (out: bool)
        ensures
            out == (self.state is Idle),
    {
        match self.state {
            RecolorState::Idle => true,
            RecolorState::Running { .. } => false,
        }
    }

    /// Takes the next generation number from the counter.
    fn take_generation(&mut self) -> (g: u64)
        ensures
            g == old(self).next_generation,
            final(self).state == old(self).state,
            final(self).next_generation == generation_after(old(self).next_generation),
    {
        let g: u64 = self.next_generation;
        self.next_generation = if g == u64::MAX {
            0
        } else {
            g + 1
        };
        g
    }

    /// A parameter change was observed. When idle, returns the job whose
    /// worker the caller must start now; when a worker is in flight, the
    /// parameters are remembered as the latest and nothing is started.
    pub fn request(&mut self, params: ColorParameters) -> (start: Option<RecolorJob>)
        ensures
            *final(self) == old(self).after_request(params),
            start == (match old(self).state {
                RecolorState::Idle => Some(
                    RecolorJob {
                        requested_params: params,
                        generation: old(self).next_generation,
                    },
                ),
                RecolorState::Running { .. } => None,
            }),
    {
        match self.state {
            RecolorState::Idle => {
                let generation: u64 = self.take_generation();
                let job = RecolorJob { requested_params: params, generation };
                self.state = RecolorState::Running { job, pending: None };
                Some(job)
            },
            RecolorState::Running { job, pending } => {
                self.state = RecolorState::Running { job, pending: Some(params) };
                None
            },
        }
    }

    /// The field was replaced by a new compute pass.
    pub fn invalidate(&mut self)
        ensures
            *final(self) == old(self).after_invalidate(),
    {
        match self.state {
            RecolorState::Idle => {},
            RecolorState::Running { job, pending } => {
                let again: ColorParameters = match pending {
                    Some(p) => p,
                    None => job.requested_params,
                };
                self.state = RecolorState::Running { job, pending: Some(again) };
            },
        }
    }

    /// The worker that was started for `generation` has finished. Says
    /// what to do with its buffer, and moves on: to idle when the buffer is
    /// applied, to the next job when newer parameters wait.
    pub fn finish(&mut self, generation: u64) -> (outcome: Outcome)
        ensures
            outcome == old(self).outcome_of(generation),
            *final(self) == old(self).after_finish(generation),
    {
        match self.state {
            RecolorState::Idle => Outcome::Stale,
            RecolorState::Running { job, pending } => {
                if job.generation != generation {
                    Outcome::Stale
                } else {
                    match pending {
                        None => {
                            self.state = RecolorState::Idle;
                            Outcome::Apply
                        },
                        Some(p) => {
                            let next: u64 = self.take_generation();
                            let job = RecolorJob { requested_params: p, generation: next };
                            self.state = RecolorState::Running { job, pending: None };
                            Outcome::Restart(job)
                        },
                    }
                }
            },
        }
    }
}

/// Requests made while a worker is in flight are coalesced: when that
/// worker finishes, its buffer is dropped and one new job starts, with the
/// parameters that were requested last.
pub proof fn law_coalesce_latest(
    machine: RecolorOrchestrator,
    earlier: ColorParameters,
    latest: ColorParameters,
)
    requires
        machine.state is Running,
    ensures
        ({
            let in_flight = machine.state->Running_job;
            let waiting = machine.after_request(earlier).after_request(latest);
            let next = RecolorJob {
                requested_params: latest,
                generation: machine.next_generation,
            };
            &&& waiting.state == (RecolorState::Running { job: in_flight, pending: Some(latest) })
            &&& waiting.outcome_of(in_flight.generation) == Outcome::Restart(next)
            &&& waiting.after_finish(in_flight.generation).state == (RecolorState::Running {
                job: next,
                pending: None,
            })
        }),
{
}

/// At most one worker is in flight. A request starts a worker exactly
/// when none is in flight; a finished worker is followed by a new one
/// exactly when its buffer is dropped for newer parameters; a report that
/// does not belong to the job in flight changes nothing.
pub proof fn law_single_worker(
    machine: RecolorOrchestrator,
    params: ColorParameters,
    generation: u64,
)
    ensures
        machine.in_flight() <= 1,
        machine.after_request(params).in_flight() == 1,
        machine.after_invalidate().in_flight() == machine.in_flight(),
        machine.outcome_of(generation) is Apply ==> machine.in_flight() == 1
            && machine.after_finish(generation).in_flight() == 0,
        machine.outcome_of(generation) is Restart ==> machine.in_flight() == 1
            && machine.after_finish(generation).in_flight() == 1,
        machine.outcome_of(generation) is Stale ==> machine.after_finish(generation) == machine,
{
}

} // verus!
