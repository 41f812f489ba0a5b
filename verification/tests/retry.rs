//! How often transactions and vector searches are tried.

use database::clock::{ClockReading, Elapsed};
use database::errors::{DatabaseError, ServiceError};
use database::identity::Identity;
use database::ids::Timestamp;
use database::occ::WriteSource;
use database::retry::{
    AfterBegin, AfterCommit, AfterFailure, AfterRun, Attempt, AttemptClock, Backoff,
    BeginningAttempt, FailedAttempt, Retried, RetryAction, RetryLoop, RetryNext, RunningAttempt,
    VectorSearchLoop, VectorSearchOutcome, MAX_OCC_FAILURES, MAX_VECTOR_ATTEMPTS,
};

const ADMIN: Identity = Identity { system: false, admin: true };

fn service(msg: &str, occ: bool, overloaded: bool) -> DatabaseError {
    DatabaseError::Service(ServiceError {
        msg: msg.to_string(),
        occ,
        overloaded,
        out_of_retention: false,
    })
}

fn for_occ() -> RetryLoop {
    RetryLoop::for_occ(ADMIN, WriteSource(Some("send".to_string())))
}

fn occ(msg: &str) -> Attempt<&'static str> {
    Attempt::CommitFailed { value: "lost", error: service(msg, true, false), retriable: true }
}

fn run_failed(msg: &str, retriable: bool) -> Attempt<&'static str> {
    Attempt::RunFailed { error: service(msg, retriable, false), retriable }
}

fn clock() -> AttemptClock {
    AttemptClock {
        start: ClockReading(100),
        run_end: ClockReading(103),
        commit_end: ClockReading(107),
        end: ClockReading(109),
    }
}

fn committed(ts: u64) -> Attempt<&'static str> {
    Attempt::Committed { ts: Timestamp(ts), value: "done", clock: clock() }
}

fn waits(actions: &[RetryAction]) -> usize {
    actions.iter().filter(|action| **action == RetryAction::Wait).count()
}

#[test]
fn a_first_success_has_no_retries() {
    let report =
        for_occ().run(vec![committed(7), run_failed("x", false), run_failed("y", false)]);
    let (ts, value, stats) = report.result.unwrap();
    assert_eq!(ts, Timestamp(7));
    assert_eq!(value, "done");
    assert_eq!(stats.retries, 0);
    assert_eq!(
        report.actions,
        vec![
            RetryAction::Begin(0),
            RetryAction::Pause,
            RetryAction::Run(0),
            RetryAction::Commit(0),
        ]
    );
}

#[test]
fn durations_leave_each_other_out() {
    let stats = for_occ().run(vec![occ("a"), committed(7), occ("b")]).result.unwrap().2;
    assert_eq!(stats.duration, Elapsed(3));
    assert_eq!(stats.commit_duration, Elapsed(4));
    assert_eq!(stats.total_duration, Elapsed(9));
    assert_eq!(ClockReading(3).since(ClockReading(5)), Elapsed(0));
    assert_eq!(clock().stats(2).retries, 2);
}

#[test]
fn conflicts_are_tried_again() {
    let report = for_occ().run(vec![occ("a"), run_failed("b", true), committed(9)]);
    assert_eq!(report.result.unwrap().2.retries, 2);
    assert_eq!(
        report.actions,
        vec![
            RetryAction::Begin(0),
            RetryAction::Pause,
            RetryAction::Run(0),
            RetryAction::Commit(0),
            RetryAction::Judge,
            RetryAction::Wait,
            // A transaction that ran in vain is not committed.
            RetryAction::Begin(1),
            RetryAction::Pause,
            RetryAction::Run(1),
            RetryAction::Judge,
            RetryAction::Wait,
            RetryAction::Begin(2),
            RetryAction::Pause,
            RetryAction::Run(2),
            RetryAction::Commit(2),
        ]
    );
}

#[test]
fn other_errors_are_not_tried_again() {
    let report = for_occ().run(vec![occ("a"), run_failed("b", false), committed(9)]);
    assert_eq!(report.result.unwrap_err(), service("b", false, false));
    assert_eq!(waits(&report.actions), 1);
    assert_eq!(report.actions.last(), Some(&RetryAction::Judge));
}

#[test]
fn a_transaction_that_cannot_begin_is_not_tried_again() {
    // Nobody asks whether the error is one after which it would be.
    let error = service("no snapshot", true, false);
    let report = for_occ().run(vec![
        Attempt::NotBegun::<&'static str>(error),
        committed(9),
        committed(10),
    ]);
    assert_eq!(report.result.unwrap_err(), service("no snapshot", true, false));
    assert_eq!(report.actions, vec![RetryAction::Begin(0)]);
}

#[test]
fn the_last_conflict_is_returned() {
    assert_eq!(MAX_OCC_FAILURES, 3);
    let report = for_occ().run(vec![occ("a"), occ("b"), occ("c"), committed(9)]);
    assert_eq!(report.result.unwrap_err(), service("c", true, false));
    assert_eq!(waits(&report.actions), 3);
    assert_eq!(report.actions.last(), Some(&RetryAction::Close));
}

#[test]
fn attempts_behind_the_decision_do_not_matter() {
    let run = |last| for_occ().run(vec![occ("a"), committed(9), last]);
    let first = run(run_failed("x", false));
    let second = run(committed(11));
    assert_eq!(first.result.unwrap().0, Timestamp(9));
    assert_eq!(second.result.unwrap().0, Timestamp(9));
    assert_eq!(first.actions, second.actions);
}

fn never() -> RetryLoop {
    RetryLoop::new(ADMIN, WriteSource::unknown(), Backoff::new(1, 2), 0, Retried::Judged)
}

#[test]
fn no_attempts_at_all_is_an_error() {
    let report = never().run(Vec::<Attempt<&'static str>>::new());
    assert_eq!(report.result.unwrap_err(), DatabaseError::NoErrorFromCommit);
    assert_eq!(report.actions, vec![RetryAction::Close]);
    assert!(matches!(
        never().next(),
        RetryNext::Exhausted(DatabaseError::NoErrorFromCommit)
    ));
}

fn beginning() -> BeginningAttempt {
    match for_occ().next() {
        RetryNext::Begin(attempt) => attempt,
        other => panic!("{:?}", other),
    }
}

fn running() -> RunningAttempt<&'static str> {
    match beginning().begun(Ok("tx")) {
        AfterBegin::Pause(paused) => paused.resumed(ClockReading(100)),
        other => panic!("{:?}", other),
    }
}

fn failed(error: DatabaseError) -> FailedAttempt {
    match running().ran::<u32>(Err(error)) {
        AfterRun::Judge(failed) => failed,
        other => panic!("{:?}", other),
    }
}

#[test]
fn a_transaction_that_ran_well_is_committed() {
    match running().ran(Ok((5, ClockReading(103)))) {
        AfterRun::Commit { transaction, write_source, attempt } => {
            assert_eq!(transaction, "tx");
            assert_eq!(write_source, WriteSource(Some("send".to_string())));
            match attempt.committed(Ok((Timestamp(7), ClockReading(107))), ClockReading(109)) {
                AfterCommit::Return((ts, value, stats)) => {
                    assert_eq!((ts, value, stats.retries), (Timestamp(7), 5, 0));
                    assert_eq!(stats.total_duration, Elapsed(9));
                },
                other => panic!("{:?}", other),
            }
        },
        other => panic!("{:?}", other),
    }
}

#[test]
fn errors_are_judged() {
    match failed(service("a", true, false)).judged(false) {
        AfterFailure::Wait { backoff, retries } => {
            assert_eq!(backoff, Backoff { initial_millis: 10, max_millis: 2000, failures: 0 });
            assert_eq!(
                retries.backoff,
                Backoff { initial_millis: 10, max_millis: 2000, failures: 1 }
            );
            assert_eq!(retries.error, Some(service("a", true, false)));
            assert_eq!(retries.identity, ADMIN);
            assert_eq!(retries.retried, Retried::Conflicts);
        },
        other => panic!("{:?}", other),
    }
    assert_eq!(*failed(service("b", false, true)).error(), service("b", false, true));
    assert!(matches!(
        failed(service("b", false, true)).judged(true),
        AfterFailure::Return(_)
    ));
}

#[test]
fn only_conflicts_are_tried_again_for_occ() {
    // What the caller judges does not matter.
    let conflict = Attempt::RunFailed { error: service("a", true, false), retriable: false };
    let other = Attempt::RunFailed { error: service("b", false, true), retriable: true };
    let report = for_occ().run(vec![conflict, other, committed(9)]);
    assert_eq!(report.result.unwrap_err(), service("b", false, true));
    assert_eq!(waits(&report.actions), 1);
}

#[test]
fn callers_may_judge_errors_themselves() {
    let judged = || RetryLoop::new(
        ADMIN,
        WriteSource::unknown(),
        Backoff::new(1, 2),
        2,
        Retried::Judged,
    );
    let attempt = |retriable| Attempt::CommitFailed {
        value: "lost",
        error: service("b", false, true),
        retriable,
    };
    let report = judged().run(vec![attempt(true), committed(9)]);
    assert_eq!(report.result.unwrap().0, Timestamp(9));
    let report = judged().run(vec![attempt(false), committed(9)]);
    assert_eq!(report.result.unwrap_err(), service("b", false, true));
}

fn busy(msg: &str) -> Result<u32, DatabaseError> {
    Err(service(msg, false, true))
}

#[test]
fn vector_searches_wait_for_the_backend() {
    let results = vec![busy("a"), busy("b"), Ok(7), Ok(8), Ok(9)];
    assert_eq!(VectorSearchLoop::new().search(results), (Ok(7), 2));
}

#[test]
fn vector_searches_fail_for_other_errors() {
    let results = vec![busy("a"), Err(service("b", true, false)), Ok(7), Ok(8), Ok(9)];
    assert_eq!(VectorSearchLoop::new().search(results), (Err(service("b", true, false)), 1));
}

#[test]
fn vector_searches_give_up() {
    assert_eq!(MAX_VECTOR_ATTEMPTS, 5);
    let results = vec![busy("a"), busy("b"), busy("c"), busy("d"), busy("e"), Ok(1)];
    // There is no wait behind the last attempt.
    assert_eq!(VectorSearchLoop::new().search(results), (busy("e"), 4));
}

#[test]
fn vector_searches_begin_with_a_short_backoff() {
    let search = VectorSearchLoop::new();
    assert_eq!(search.backoff, Backoff { initial_millis: 150, max_millis: 2500, failures: 0 });
    match search.after(busy("a")) {
        VectorSearchOutcome::Wait(next) => assert_eq!(next.backoff.failures, 1),
        other => panic!("{:?}", other),
    }
}
