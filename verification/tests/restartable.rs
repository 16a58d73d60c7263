use restartables::Failure;
use restartables::Restartable;
use restartables::Resumption;
use restartables::Step;
use restartables::Success;

#[test]
fn fresh_state() {
    let m = Restartable::new(Some(100));
    assert_eq!(m.start, None);
    assert_eq!(m.timeout, Some(100));
    assert_eq!(m.restarts, 0);
    let unbounded = Restartable::new(None);
    assert_eq!(unbounded.timeout, None);
}

#[test]
fn immediate_pass() {
    // Operation resolves immediately with a value the test accepts.
    let mut m = Restartable::new(Some(1_000));
    let step = m.resume::<u32, &str>(0, Resumption::Resolved(Ok(42)));
    assert_eq!(
        step,
        Step::Done(Ok(Success { value: 42, duration: 0, restarts: 0 }))
    );
}

#[test]
fn two_rejections_then_pass() {
    // Operation resolves with a rejected value twice, then an accepted value,
    // well within the deadline.
    let mut m = Restartable::new(Some(1_000));
    let s1 = m.resume::<u32, &str>(10, Resumption::Resolved(Err("odd")));
    assert_eq!(s1, Step::Restart);
    assert_eq!(m.restarts, 1);
    let s2 = m.resume::<u32, &str>(20, Resumption::Resolved(Err("odd")));
    assert_eq!(s2, Step::Restart);
    assert_eq!(m.restarts, 2);
    let s3 = m.resume::<u32, &str>(35, Resumption::Resolved(Ok(8)));
    assert_eq!(
        s3,
        Step::Done(Ok(Success { value: 8, duration: 25, restarts: 2 }))
    );
}

#[test]
fn never_resolves_times_out() {
    // Operation never resolves, deadline of 10 ticks: suspensions are absorbed
    // until a resumption observes elapsed > 10, which resolves Timeout.
    let mut m = Restartable::new(Some(10));
    assert_eq!(m.resume::<u32, &str>(0, Resumption::Suspended), Step::Suspend);
    assert_eq!(m.resume::<u32, &str>(4, Resumption::Suspended), Step::Suspend);
    assert_eq!(m.resume::<u32, &str>(10, Resumption::Suspended), Step::Suspend);
    assert_eq!(
        m.resume::<u32, &str>(11, Resumption::Suspended),
        Step::Done(Err(Failure::Timeout))
    );
}

#[test]
fn always_rejected_ends_in_last_error() {
    // Operation always resolves with a rejected value, deadline of 20 ticks:
    // eventually the failure surfaces, carrying the last error and the restart
    // count accumulated before the deadline passed.
    let mut m = Restartable::new(Some(20));
    let mut now = 0u64;
    let mut last = Step::Suspend;
    for attempt in 0..100u64 {
        last = m.resume::<u32, u64>(now, Resumption::Resolved(Err(attempt)));
        if let Step::Done(_) = last {
            break;
        }
        now += 7;
    }
    assert_eq!(last, Step::Done(Err(Failure::Rejected { error: 3, restarts: 3 })));
}

#[test]
fn elapsed_equal_to_deadline_is_not_timed_out() {
    // Strict comparison: elapsed == deadline still restarts / stays suspended.
    let mut m = Restartable::new(Some(50));
    assert_eq!(m.resume::<u32, &str>(0, Resumption::Suspended), Step::Suspend);
    assert_eq!(m.resume::<u32, &str>(50, Resumption::Suspended), Step::Suspend);
    assert_eq!(
        m.resume::<u32, &str>(50, Resumption::Resolved(Err("x"))),
        Step::Restart
    );
    assert_eq!(
        m.resume::<u32, &str>(51, Resumption::Suspended),
        Step::Done(Err(Failure::Timeout))
    );
}

#[test]
fn unbounded_never_times_out() {
    // With no deadline, suspensions and rejections never resolve the combinator.
    let mut m = Restartable::new(None);
    for i in 0..1_000u64 {
        assert_eq!(m.resume::<u32, u64>(i * 1_000, Resumption::Suspended), Step::Suspend);
        assert_eq!(
            m.resume::<u32, u64>(i * 1_000 + 500, Resumption::Resolved(Err(i))),
            Step::Restart
        );
    }
    assert_eq!(m.restarts, 1_000);
    let step = m.resume::<u32, u64>(10_000_000, Resumption::Resolved(Ok(1)));
    assert_eq!(
        step,
        Step::Done(Ok(Success { value: 1, duration: 10_000_000, restarts: 1_000 }))
    );
}

#[test]
fn late_pass_still_succeeds() {
    // A passing classification that arrives on a resumption where the deadline has
    // already passed still resolves Ok, never Timeout or the failure.
    let mut m = Restartable::new(Some(10));
    assert_eq!(m.resume::<u32, &str>(0, Resumption::Suspended), Step::Suspend);
    assert_eq!(
        m.resume::<u32, &str>(500, Resumption::Resolved(Ok(7))),
        Step::Done(Ok(Success { value: 7, duration: 500, restarts: 0 }))
    );
}

#[test]
fn late_rejection_surfaces_instead_of_restarting() {
    let mut m = Restartable::new(Some(10));
    assert_eq!(m.resume::<u32, &str>(0, Resumption::Resolved(Err("a"))), Step::Restart);
    assert_eq!(
        m.resume::<u32, &str>(11, Resumption::Resolved(Err("b"))),
        Step::Done(Err(Failure::Rejected { error: "b", restarts: 1 }))
    );
}

#[test]
fn duration_grows_across_failing_attempts() {
    // The duration reported on success is measured from the first resumption, so it
    // never decreases as failing attempts accumulate.
    let mut earlier = Restartable::new(Some(1_000));
    assert_eq!(earlier.resume::<u32, &str>(5, Resumption::Suspended), Step::Suspend);
    let early_pass = earlier.resume::<u32, &str>(20, Resumption::Resolved(Ok(1)));

    let mut later = Restartable::new(Some(1_000));
    assert_eq!(later.resume::<u32, &str>(5, Resumption::Suspended), Step::Suspend);
    assert_eq!(later.resume::<u32, &str>(20, Resumption::Resolved(Err("no"))), Step::Restart);
    assert_eq!(later.resume::<u32, &str>(60, Resumption::Resolved(Err("no"))), Step::Restart);
    let late_pass = later.resume::<u32, &str>(90, Resumption::Resolved(Ok(1)));

    match (early_pass, late_pass) {
        (Step::Done(Ok(a)), Step::Done(Ok(b))) => {
            assert_eq!(a.duration, 15);
            assert_eq!(b.duration, 85);
            assert!(a.duration <= b.duration);
        }
        other => panic!("both runs should have resolved Ok, got {:?}", other),
    }
}

fn classify_even(raw: u32) -> Result<u32, u32> {
    if raw % 2 == 0 {
        Ok(raw)
    } else {
        Err(raw)
    }
}

#[test]
fn resume_with_runs_the_test() {
    // resume_with applies the caller's test to the raw resolved value itself.
    let mut m = Restartable::new(Some(100));
    assert_eq!(m.resume_with(0, None::<u32>, classify_even), Step::Suspend);
    assert_eq!(m.resume_with(10, Some(3), classify_even), Step::Restart);
    assert_eq!(m.restarts, 1);
    assert_eq!(
        m.resume_with(25, Some(6), classify_even),
        Step::Done(Ok(Success { value: 6, duration: 25, restarts: 1 }))
    );
}

#[test]
fn resume_with_closure_and_timeout() {
    let mut m = Restartable::new(Some(5));
    let test = |raw: u32| if raw > 10 { Ok(raw) } else { Err("too small") };
    assert_eq!(m.resume_with(0, Some(1), &test), Step::Restart);
    assert_eq!(
        m.resume_with(6, Some(2), &test),
        Step::Done(Err(Failure::Rejected { error: "too small", restarts: 1 }))
    );
}
