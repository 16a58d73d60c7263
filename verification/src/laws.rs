//! Laws of the restart/timeout state machine, stated over whole runs.
//!
//! A *script* records what a sequence of resumptions observed: for each resumption,
//! the clock reading and the observation. [`run`] replays a script against a
//! combinator state, stopping at the first resolving step; the proof functions
//! below pin down the outcomes of whole runs — how the restart count, the deadline
//! and the reported duration behave across any number of resumptions.

use vstd::prelude::*;

use crate::deadline_passed;
use crate::outcome::Failure;
use crate::outcome::Success;
use crate::Resumption;
use crate::Restartable;
use crate::Step;

verus! {

/// The final state and, if the combinator resolved while consuming the script, its
/// terminal outcome. Replays the script one resumption at a time: a `Done` step
/// stops the run, any other step feeds the machine the next entry.
pub open spec fn run<T, E>(m: Restartable, script: Seq<(u64, Resumption<T, E>)>) -> (
    Restartable,
    Option<Result<Success<T>, Failure<E>>>,
)
    decreases script.len(),
{
    if script.len() == 0 {
        (m, None)
    } else {
        let now = script[0].0;
        let event = script[0].1;
        match m.step_of(now, event) {
            Step::Done(outcome) => (m.stepped(now, event), Some(outcome)),
            _ => run(m.stepped(now, event), script.drop_first()),
        }
    }
}

/// How many failing classifications a script carries.
pub open spec fn failures_in<T, E>(script: Seq<(u64, Resumption<T, E>)>) -> nat
    decreases script.len(),
{
    if script.len() == 0 {
        0
    } else {
        (if script[0].1 matches Resumption::Resolved(Result::Err(_)) {
            1nat
        } else {
            0nat
        }) + failures_in(script.drop_first())
    }
}

/// The clock readings of a script never go backwards.
pub open spec fn clock_monotone<T, E>(script: Seq<(u64, Resumption<T, E>)>) -> bool {
    forall|i: int, j: int|
        0 <= i <= j < script.len() ==> (#[trigger] script[i]).0 <= (#[trigger] script[j]).0
}

/// Law: across any run, the deadline never changes, the recorded start is kept once
/// set, and the restart counter never decreases and grows by at most the number of
/// failing classifications the script carries.
pub proof fn lemma_run_invariants<T, E>(m: Restartable, script: Seq<(u64, Resumption<T, E>)>)
    requires
        m.restarts + failures_in(script) <= usize::MAX,
    ensures
        run(m, script).0.timeout == m.timeout,
        m.start matches Some(s) ==> run(m, script).0.start == Some(s),
        m.restarts <= run(m, script).0.restarts <= m.restarts + failures_in(script),
    decreases script.len(),
{
    if script.len() > 0 {
        let now = script[0].0;
        let event = script[0].1;
        let next = m.stepped(now, event);
        match m.step_of(now, event) {
            Step::Done(outcome) => {},
            _ => {
                lemma_run_invariants(next, script.drop_first());
            },
        }
    }
}

/// Law: if classification fails some number of times and then passes, while the
/// deadline is never past at any of the resumptions, the combinator resolves `Ok`
/// with the passing value; it reports exactly those failures as its restart count,
/// and as duration the ticks between the first resumption and the passing one.
pub proof fn lemma_pass_after_failures<T, E>(m: Restartable, script: Seq<(u64, Resumption<T, E>)>)
    requires
        script.len() > 0,
        clock_monotone(script),
        m.start matches Some(s) ==> s <= script[0].0,
        m.restarts + failures_in(script) <= usize::MAX,
        forall|i: int|
            0 <= i < script.len() ==> !deadline_passed(
                m.timeout,
                m.started_at(script[0].0),
                (#[trigger] script[i]).0,
            ),
        forall|i: int|
            0 <= i < script.len() - 1 ==> !((#[trigger] script[i]).1 matches Resumption::Resolved(
                Result::Ok(_),
            )),
        script.last().1 matches Resumption::Resolved(Result::Ok(_)),
    ensures
        ({
            let outcome = run(m, script).1;
            &&& outcome matches Some(Result::Ok(success))
            &&& script.last().1 matches Resumption::Resolved(Result::Ok(v)) && success.value == v
            &&& success.restarts == m.restarts + failures_in(script)
            &&& success.duration == script.last().0 - m.started_at(script[0].0)
        }),
    decreases script.len(),
{
    let now = script[0].0;
    let event = script[0].1;
    let start0 = m.started_at(now);
    if script.len() == 1 {
        assert(script.last() == script[0]);
        assert(failures_in(script) == 0) by {
            assert(failures_in::<T, E>(script.drop_first()) == 0);
        }
    } else {
        let tail = script.drop_first();
        let next = m.stepped(now, event);
        let delta: nat = if script[0].1 matches Resumption::Resolved(Result::Err(_)) {
            1
        } else {
            0
        };
        assert(failures_in(script) == delta + failures_in(tail));
        assert(script[0].0 <= script[1].0);
        assert(!(script[0].1 matches Resumption::Resolved(Result::Ok(_))));
        assert(!m.timed_out_at(now));
        assert(!(m.step_of(now, event) matches Step::Done(_)));
        assert(next.started_at(tail[0].0) == start0) by {
            assert(tail[0] == script[1]);
        }
        assert(clock_monotone::<T, E>(tail)) by {
            assert forall|i: int, j: int| 0 <= i <= j < tail.len() implies (#[trigger] tail[i]).0
                <= (#[trigger] tail[j]).0 by {
                assert(tail[i] == script[i + 1]);
                assert(tail[j] == script[j + 1]);
            }
        }
        assert forall|i: int| 0 <= i < tail.len() implies !deadline_passed(
            next.timeout,
            next.started_at(tail[0].0),
            (#[trigger] tail[i]).0,
        ) by {
            assert(tail[i] == script[i + 1]);
        }
        assert forall|i: int| 0 <= i < tail.len() - 1 implies !((#[trigger] tail[i]).1
            matches Resumption::Resolved(Result::Ok(_))) by {
            assert(tail[i] == script[i + 1]);
        }
        assert(tail.last() == script.last());
        lemma_pass_after_failures(next, tail);
        assert(run(m, script) == run(next, tail));
    }
}

/// Law: if classification keeps failing and a failing classification arrives on a
/// resumption where the deadline has passed, that failure surfaces: the combinator
/// resolves `Rejected` carrying the last error and the restarts accumulated before
/// it — every failing classification of the script except the final, surfaced one.
pub proof fn lemma_reject_once_deadline_passes<T, E>(
    m: Restartable,
    script: Seq<(u64, Resumption<T, E>)>,
)
    requires
        script.len() > 0,
        clock_monotone(script),
        m.start matches Some(s) ==> s <= script[0].0,
        m.restarts + failures_in(script) <= usize::MAX,
        forall|i: int|
            0 <= i < script.len() - 1 ==> !deadline_passed(
                m.timeout,
                m.started_at(script[0].0),
                (#[trigger] script[i]).0,
            ),
        deadline_passed(m.timeout, m.started_at(script[0].0), script.last().0),
        forall|i: int|
            0 <= i < script.len() ==> !((#[trigger] script[i]).1 matches Resumption::Resolved(
                Result::Ok(_),
            )),
        script.last().1 matches Resumption::Resolved(Result::Err(_)),
    ensures
        ({
            let outcome = run(m, script).1;
            &&& outcome matches Some(Result::Err(Failure::Rejected { error, restarts }))
            &&& script.last().1 matches Resumption::Resolved(Result::Err(e)) && error == e
            &&& restarts == m.restarts + failures_in(script) - 1
        }),
    decreases script.len(),
{
    let now = script[0].0;
    let event = script[0].1;
    let start0 = m.started_at(now);
    if script.len() == 1 {
        assert(script.last() == script[0]);
        assert(m.timed_out_at(now));
        assert(failures_in(script) == 1) by {
            assert(failures_in::<T, E>(script.drop_first()) == 0);
        }
    } else {
        let tail = script.drop_first();
        let next = m.stepped(now, event);
        let delta: nat = if script[0].1 matches Resumption::Resolved(Result::Err(_)) {
            1
        } else {
            0
        };
        assert(failures_in(script) == delta + failures_in(tail));
        assert(script[0].0 <= script[1].0);
        assert(!m.timed_out_at(now));
        assert(!(m.step_of(now, event) matches Step::Done(_)));
        assert(next.started_at(tail[0].0) == start0) by {
            assert(tail[0] == script[1]);
        }
        assert(clock_monotone::<T, E>(tail)) by {
            assert forall|i: int, j: int| 0 <= i <= j < tail.len() implies (#[trigger] tail[i]).0
                <= (#[trigger] tail[j]).0 by {
                assert(tail[i] == script[i + 1]);
                assert(tail[j] == script[j + 1]);
            }
        }
        assert forall|i: int| 0 <= i < tail.len() - 1 implies !deadline_passed(
            next.timeout,
            next.started_at(tail[0].0),
            (#[trigger] tail[i]).0,
        ) by {
            assert(tail[i] == script[i + 1]);
        }
        assert forall|i: int| 0 <= i < tail.len() implies !((#[trigger] tail[i]).1
            matches Resumption::Resolved(Result::Ok(_))) by {
            assert(tail[i] == script[i + 1]);
        }
        assert(tail.last() == script.last());
        lemma_reject_once_deadline_passes(next, tail);
        assert(run(m, script) == run(next, tail));
    }
}

/// Law: when the very first classification passes — every earlier resumption found
/// the operation still suspended, within the deadline — a fresh combinator resolves
/// `Ok` with that value and zero restarts.
pub proof fn lemma_first_pass_no_restarts<T, E>(
    timeout: Option<u64>,
    script: Seq<(u64, Resumption<T, E>)>,
)
    requires
        script.len() > 0,
        clock_monotone(script),
        forall|i: int|
            0 <= i < script.len() ==> !deadline_passed(
                timeout,
                script[0].0,
                (#[trigger] script[i]).0,
            ),
        forall|i: int| 0 <= i < script.len() - 1 ==> (#[trigger] script[i]).1 is Suspended,
        script.last().1 matches Resumption::Resolved(Result::Ok(_)),
    ensures
        ({
            let outcome = run(Restartable { start: None, timeout, restarts: 0 }, script).1;
            &&& outcome matches Some(Result::Ok(success))
            &&& script.last().1 matches Resumption::Resolved(Result::Ok(v)) && success.value == v
            &&& success.restarts == 0
        }),
{
    let m = Restartable { start: None, timeout, restarts: 0 };
    assert forall|i: int| 0 <= i < script.len() implies !((#[trigger] script[i]).1
        matches Resumption::Resolved(Result::Err(_))) by {
        if i < script.len() - 1 {
            assert(script[i].1 is Suspended);
        }
    }
    lemma_all_absorbed_no_failures(script);
    lemma_pass_after_failures(m, script);
}

/// No failing classification in the script means no failures counted.
proof fn lemma_all_absorbed_no_failures<T, E>(script: Seq<(u64, Resumption<T, E>)>)
    requires
        forall|i: int|
            0 <= i < script.len() ==> !((#[trigger] script[i]).1 matches Resumption::Resolved(
                Result::Err(_),
            )),
    ensures
        failures_in(script) == 0,
    decreases script.len(),
{
    if script.len() > 0 {
        let tail = script.drop_first();
        assert forall|i: int| 0 <= i < tail.len() implies !((#[trigger] tail[i]).1
            matches Resumption::Resolved(Result::Err(_))) by {
            assert(tail[i] == script[i + 1]);
        }
        lemma_all_absorbed_no_failures(tail);
    }
}

/// Law: the duration reported on success never decreases between resumptions. Once
/// the start is recorded, a passing value accepted at a later clock reading reports
/// at least the duration one accepted earlier would have — whatever else (restarts,
/// failing classifications) happened in between.
pub proof fn lemma_duration_monotone<T, E>(
    m1: Restartable,
    m2: Restartable,
    start: u64,
    now1: u64,
    now2: u64,
    v1: T,
    v2: T,
)
    requires
        m1.start == Some(start),
        m2.start == Some(start),
        start <= now1 <= now2,
    ensures
        ({
            &&& m1.step_of::<T, E>(now1, Resumption::Resolved(Result::Ok(v1))) matches Step::Done(
                Result::Ok(s1),
            )
            &&& m2.step_of::<T, E>(now2, Resumption::Resolved(Result::Ok(v2))) matches Step::Done(
                Result::Ok(s2),
            )
            &&& s1.duration == now1 - start
            &&& s2.duration == now2 - start
            &&& s1.duration <= s2.duration
        }),
{
}

/// Law: a combinator with an unbounded deadline never resolves `Timeout` — indeed
/// it resolves only by a passing classification.
pub proof fn lemma_unbounded_never_times_out<T, E>(
    m: Restartable,
    script: Seq<(u64, Resumption<T, E>)>,
)
    requires
        m.timeout is None,
    ensures
        !(run(m, script).1 matches Some(Result::Err(_))),
        run(m, script).1 matches Some(r) ==> r matches Result::Ok(_),
    decreases script.len(),
{
    if script.len() > 0 {
        let now = script[0].0;
        let event = script[0].1;
        match m.step_of(now, event) {
            Step::Done(outcome) => {},
            _ => {
                lemma_unbounded_never_times_out(m.stepped(now, event), script.drop_first());
            },
        }
    }
}

/// Law: while the operation never resolves and the deadline has not passed at any
/// resumption, the combinator resolves nothing — in particular, never a premature
/// `Timeout`.
pub proof fn lemma_no_timeout_before_deadline<T, E>(
    m: Restartable,
    script: Seq<(u64, Resumption<T, E>)>,
)
    requires
        forall|i: int| 0 <= i < script.len() ==> (#[trigger] script[i]).1 is Suspended,
        forall|i: int|
            0 <= i < script.len() ==> !deadline_passed(
                m.timeout,
                m.started_at(script[0].0),
                (#[trigger] script[i]).0,
            ),
    ensures
        run(m, script).1 is None,
        run(m, script).0.restarts == m.restarts,
    decreases script.len(),
{
    if script.len() > 0 {
        let now = script[0].0;
        let event = script[0].1;
        let next = m.stepped(now, event);
        let tail = script.drop_first();
        assert(!m.timed_out_at(now));
        assert forall|i: int| 0 <= i < tail.len() implies (#[trigger] tail[i]).1
            is Suspended by {
            assert(tail[i] == script[i + 1]);
        }
        assert forall|i: int| 0 <= i < tail.len() implies !deadline_passed(
            next.timeout,
            next.started_at(tail[0].0),
            (#[trigger] tail[i]).0,
        ) by {
            assert(tail[i] == script[i + 1]);
            if tail.len() > 0 {
                assert(tail[0] == script[1]);
            }
        }
        lemma_no_timeout_before_deadline(next, tail);
    }
}

/// Law: if the operation never resolves and the deadline has passed at some
/// resumption, the combinator resolves `Timeout`.
pub proof fn lemma_timeout_once_deadline_passes<T, E>(
    m: Restartable,
    script: Seq<(u64, Resumption<T, E>)>,
)
    requires
        forall|i: int| 0 <= i < script.len() ==> (#[trigger] script[i]).1 is Suspended,
        exists|i: int|
            0 <= i < script.len() && deadline_passed(
                m.timeout,
                m.started_at(script[0].0),
                (#[trigger] script[i]).0,
            ),
    ensures
        run(m, script).1 matches Some(Result::Err(Failure::Timeout)),
    decreases script.len(),
{
    let now = script[0].0;
    let event = script[0].1;
    if m.timed_out_at(now) {
        assert(m.step_of(now, event) matches Step::Done(Result::Err(Failure::Timeout)));
    } else {
        let next = m.stepped(now, event);
        let tail = script.drop_first();
        let witness = choose|i: int|
            0 <= i < script.len() && deadline_passed(
                m.timeout,
                m.started_at(script[0].0),
                (#[trigger] script[i]).0,
            );
        assert(witness != 0);
        assert forall|i: int| 0 <= i < tail.len() implies (#[trigger] tail[i]).1
            is Suspended by {
            assert(tail[i] == script[i + 1]);
        }
        assert(tail[0] == script[1]);
        assert(tail[witness - 1] == script[witness]);
        assert(deadline_passed(next.timeout, next.started_at(tail[0].0), tail[witness - 1].0));
        lemma_timeout_once_deadline_passes(next, tail);
    }
}

/// Law: a passing classification always resolves `Ok` — even on a resumption where
/// the deadline has already passed, and whatever the restart history was. The
/// deadline only governs restarting, never the acceptance of an obtained value.
pub proof fn lemma_late_pass_still_succeeds<T, E>(m: Restartable, now: u64, v: T)
    ensures
        ({
            &&& m.step_of::<T, E>(now, Resumption::Resolved(Result::Ok(v))) matches Step::Done(
                Result::Ok(success),
            )
            &&& success.value == v
            &&& success.restarts == m.restarts
        }),
{
}

} // verus!
