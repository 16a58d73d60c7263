//! A restart/timeout combinator for asynchronous operations, verified as a state
//! machine over abstract clock ticks.
//!
//! The combinator drives a single-use asynchronous operation to completion: each
//! time it is resumed it observes whether the operation is still suspended or has
//! resolved, classifies a resolved value with a caller-supplied test, and — on a
//! failing classification — asks for a fresh operation instance and tries again,
//! until either a passing classification is obtained or a deadline elapses.
//!
//! The decision logic lives in [`Restartable::resume`]: from the current state and
//! what this resumption observed, it decides whether to keep waiting, restart,
//! succeed, or give up. The surrounding event loop — polling the actual operation,
//! reading the clock, invoking the factory — is left to the caller, who feeds each
//! observation back in as a [`Resumption`] and acts on the returned [`Step`].

pub mod laws;

mod outcome;

pub use outcome::Failure;
pub use outcome::Success;

use vstd::prelude::*;

verus! {

/// Whether a deadline (`None` for unbounded) has passed at clock reading `now`,
/// for a combinator whose first resumption happened at `start`. Strict: elapsed
/// time equal to the deadline is not yet past it, and an unbounded deadline never
/// passes.
pub open spec fn deadline_passed(timeout: Option<u64>, start: u64, now: u64) -> bool {
    match timeout {
        Some(d) => now - start > d,
        None => false,
    }
}

/// What a single resumption observed of the owned operation: either it is still
/// suspended, or it resolved and the caller-supplied test classified its value.
#[derive(Debug, PartialEq, Eq)]
pub enum Resumption<T, E> {
    /// The operation did not resolve on this resumption.
    Suspended,
    /// The operation resolved, and the test classified the resolved value as
    /// passing (`Ok`) or failing (`Err`).
    Resolved(Result<T, E>),
}

/// What the combinator decided on one resumption: the action its driver must take.
#[derive(Debug, PartialEq, Eq)]
pub enum Step<T, E> {
    /// Remain suspended; resume again when the operation makes progress.
    Suspend,
    /// Discard the current operation, install a fresh instance from the factory,
    /// and resume again immediately.
    Restart,
    /// The combinator has resolved: hand this terminal outcome to the caller.
    Done(Result<Success<T>, Failure<E>>),
}

/// The retry/timeout state machine: restarts an operation until it resolves a value
/// that passes a test, or a deadline passes.
///
/// Time is abstract: the driver hands every resumption the current clock reading
/// (`now`, in ticks of its choosing), and the deadline is a span in the same ticks.
/// The deadline is fixed at construction; `start` is recorded on the first
/// resumption, not at construction; `restarts` counts failing classifications.
#[derive(Debug, PartialEq, Eq)]
pub struct Restartable {
    /// Clock reading of the first resumption, or `None` before it.
    pub start: Option<u64>,
    /// Deadline as a span of ticks from `start`, or `None` for unbounded.
    pub timeout: Option<u64>,
    /// How many failing classifications have been observed so far.
    pub restarts: usize,
}

impl Restartable {
    /// The moment the combinator's clock starts: the recorded first resumption, or
    /// this resumption if it is the first.
    pub open spec fn started_at(self, now: u64) -> u64 {
        match self.start {
            Some(s) => s,
            None => now,
        }
    }

    /// Ticks elapsed since the first resumption, as observed at `now`.
    pub open spec fn elapsed_at(self, now: u64) -> int {
        now - self.started_at(now)
    }

    /// Whether the deadline has passed at `now`. Strict: elapsed time equal to the
    /// deadline is not timed out, and an unbounded combinator never times out.
    pub open spec fn timed_out_at(self, now: u64) -> bool {
        deadline_passed(self.timeout, self.started_at(now), now)
    }

    /// The state after one resumption at `now` observing `event`: the start is
    /// recorded if this was the first resumption, the deadline never changes, and
    /// the restart counter grows by one exactly when a failing classification
    /// arrives while the deadline has not passed.
    pub open spec fn stepped<T, E>(self, now: u64, event: Resumption<T, E>) -> Restartable {
        Restartable {
            start: Some(self.started_at(now)),
            timeout: self.timeout,
            restarts: if event matches Resumption::Resolved(Result::Err(_))
                && !self.timed_out_at(now) {
                (self.restarts + 1) as usize
            } else {
                self.restarts
            },
        }
    }

    /// The action decided on one resumption at `now` observing `event`:
    /// - still suspended, deadline not passed: remain suspended;
    /// - still suspended, deadline passed: resolve `Failure::Timeout`;
    /// - passing classification: resolve the success, whatever the deadline says;
    /// - failing classification, deadline not passed: restart;
    /// - failing classification, deadline passed: resolve that failure.
    pub open spec fn step_of<T, E>(self, now: u64, event: Resumption<T, E>) -> Step<T, E> {
        match event {
            Resumption::Suspended => if self.timed_out_at(now) {
                Step::Done(Result::Err(Failure::Timeout))
            } else {
                Step::Suspend
            },
            Resumption::Resolved(Result::Ok(value)) => Step::Done(
                Result::Ok(
                    Success {
                        value,
                        duration: self.elapsed_at(now) as u64,
                        restarts: self.restarts,
                    },
                ),
            ),
            Resumption::Resolved(Result::Err(error)) => if self.timed_out_at(now) {
                Step::Done(Result::Err(Failure::Rejected { error, restarts: self.restarts }))
            } else {
                Step::Restart
            },
        }
    }

    /// A fresh combinator with the given deadline (`None` for unbounded): no
    /// resumption seen yet, no restarts.
    pub fn new(timeout: Option<u64>) -> (r: Restartable)
        ensures
            r == (Restartable { start: None, timeout, restarts: 0 }),
    {
        Restartable { start: None, timeout, restarts: 0 }
    }

    /// One resumption of the combinator at clock reading `now`, observing `event`.
    /// On the very first resumption the start time is recorded as `now`. The
    /// returned step and the new state follow the decision table exactly: a passing
    /// classification always resolves `Ok`, even past the deadline; a failing one
    /// restarts while the deadline has not passed and resolves the failure once it
    /// has; a still-suspended operation times out once the deadline has passed.
    pub fn resume<T, E>(&mut self, now: u64, event: Resumption<T, E>) -> (step: Step<T, E>)
        requires
            old(self).start matches Some(s) ==> s <= now,
            old(self).restarts < usize::MAX,
        ensures
            *final(self) == old(self).stepped(now, event),
            step == old(self).step_of(now, event),
    {
        let start: u64 = match self.start {
            Some(s) => s,
            None => now,
        };
        self.start = Some(start);
        let elapsed: u64 = now - start;
        let timed_out: bool = match self.timeout {
            Some(d) => elapsed > d,
            None => false,
        };
        match event {
            Resumption::Suspended => {
                if timed_out {
                    Step::Done(Result::Err(Failure::Timeout))
                } else {
                    Step::Suspend
                }
            },
            Resumption::Resolved(Result::Ok(value)) => {
                Step::Done(
                    Result::Ok(Success { value, duration: elapsed, restarts: self.restarts }),
                )
            },
            Resumption::Resolved(Result::Err(error)) => {
                if timed_out {
                    Step::Done(Result::Err(Failure::Rejected { error, restarts: self.restarts }))
                } else {
                    self.restarts = self.restarts + 1;
                    Step::Restart
                }
            },
        }
    }

    /// One resumption that classifies the raw resolved value itself: `polled` is
    /// what polling the operation observed (`None` while it is still suspended,
    /// `Some(raw)` once it resolved), and `test` is the caller-supplied classifier.
    /// The step taken is exactly the one [`Self::resume`] takes on the event
    /// carrying some classification `test` may return for the resolved value.
    pub fn resume_with<R, T, E, Test: Fn(R) -> Result<T, E>>(
        &mut self,
        now: u64,
        polled: Option<R>,
        test: Test,
    ) -> (step: Step<T, E>)
        requires
            old(self).start matches Some(s) ==> s <= now,
            old(self).restarts < usize::MAX,
            polled matches Some(raw) ==> call_requires(test, (raw,)),
        ensures
            match polled {
                None => {
                    &&& *final(self) == old(self).stepped::<T, E>(now, Resumption::Suspended)
                    &&& step == old(self).step_of::<T, E>(now, Resumption::Suspended)
                },
                Some(raw) => exists|verdict: Result<T, E>|
                    {
                        &&& #[trigger] call_ensures(test, (raw,), verdict)
                        &&& *final(self) == old(self).stepped(now, Resumption::Resolved(verdict))
                        &&& step == old(self).step_of(now, Resumption::Resolved(verdict))
                    },
            },
    {
        match polled {
            None => self.resume(now, Resumption::Suspended),
            Some(raw) => {
                let verdict = test(raw);
                self.resume(now, Resumption::Resolved(verdict))
            },
        }
    }
}

} // verus!
