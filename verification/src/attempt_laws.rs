//! What comes of transactions and vector searches that are tried more than once.

use crate::clock::ClockReading;
use crate::database::{Database, PendingTransaction};
use crate::errors::DatabaseError;
use crate::identity::Identity;
use crate::ids::Timestamp;
use crate::occ::WriteSource;
use crate::retry::{
    actions_of, answered_at, decided_at, is_busy, AfterBegin, AfterCommit, AfterFailure, AfterRun,
    Attempt, AttemptClock, BeginningAttempt, CommittingAttempt, FailedAttempt, PausedAttempt,
    Retried, RetryAction, RetryLoop, RetryNext, RetryReport, RunningAttempt, VectorSearchLoop,
    VectorSearchOutcome, MAX_VECTOR_ATTEMPTS,
};
use vstd::prelude::*;

verus! {

/// Whether an error tells of a conflict: as a conflict in a table of a user or of the
/// system, or as a service that says so.
pub open spec fn tells_of_conflict(error: DatabaseError) -> bool {
    ||| error matches DatabaseError::Metadata(e) && (e is UserOcc || e is SystemOcc)
    ||| error matches DatabaseError::Service(e) && e.occ
}

/// Whether an attempt failed after it began, in a way after which these transactions are
/// tried again: with a conflict, or with what the caller judges to be worth it.
pub open spec fn is_followed<T>(retried: Retried, attempt: Attempt<T>) -> bool {
    match attempt {
        Attempt::RunFailed { error, retriable } => if retried is Conflicts {
            tells_of_conflict(error)
        } else {
            retriable
        },
        Attempt::CommitFailed { value, error, retriable } => if retried is Conflicts {
            tells_of_conflict(error)
        } else {
            retriable
        },
        _ => false,
    }
}

/// How many nanoseconds lie between two readings, none if the first one is later.
pub open spec fn nanos_between(first: ClockReading, second: ClockReading) -> int {
    if first.0 <= second.0 {
        second.0 - first.0
    } else {
        0
    }
}

proof fn lemma_decided<T>(attempts: Seq<Attempt<T>>, from: int, k: int, n: int)
    requires
        from <= k <= n,
        forall|i: int| from <= i < k ==> (#[trigger] attempts[i]).is_retriable(),
        k < n ==> !attempts[k].is_retriable(),
    ensures
        decided_at(attempts, from, n) == k,
    decreases k - from,
{
    if from < k {
        assert(attempts[from].is_retriable());
        lemma_decided(attempts, from + 1, k, n);
    }
}

proof fn lemma_judged<T>(retries: RetryLoop, attempts: Seq<Attempt<T>>, i: int)
    requires
        0 <= i < attempts.len(),
    ensures
        retries.judged(attempts)[i].is_retriable() == is_followed(retries.retried, attempts[i]),
        retries.judged(attempts)[i].why() == attempts[i].why(),
        attempts[i] is Committed ==> retries.judged(attempts)[i] == attempts[i],
        attempts[i] is NotBegun ==> retries.judged(attempts)[i] == attempts[i],
        attempts[i] is RunFailed ==> retries.judged(attempts)[i] is RunFailed,
        attempts[i] is CommitFailed ==> retries.judged(attempts)[i] is CommitFailed,
{
}

proof fn lemma_first_that_is_not_followed<T>(
    retries: RetryLoop,
    attempts: Seq<Attempt<T>>,
    k: int,
)
    requires
        0 <= k <= attempts.len(),
        retries.backoff.failures + k <= retries.max_failures,
        forall|i: int| 0 <= i < k ==> is_followed(retries.retried, #[trigger] attempts[i]),
        retries.backoff.failures + k < retries.max_failures ==> k < attempts.len() && !is_followed(
            retries.retried,
            attempts[k],
        ),
    ensures
        decided_at(retries.judged(attempts), 0, retries.attempts_left()) == k,
        retries.attempts_left() == retries.max_failures - retries.backoff.failures,
{
    let judged = retries.judged(attempts);
    assert forall|i: int| 0 <= i < k implies (#[trigger] judged[i]).is_retriable() by {
        assert(is_followed(retries.retried, attempts[i]));
        lemma_judged(retries, attempts, i);
    }
    if k < attempts.len() {
        lemma_judged(retries, attempts, k);
    }
    lemma_decided(judged, 0, k, retries.attempts_left());
}

/// The first attempt that is not followed by another one decides: where it was
/// committed, its timestamp and value are returned, with the number of all attempts
/// that failed before it and its own times, and otherwise its error.
pub proof fn law_first_attempt_without_follower_decides<T>(
    retries: RetryLoop,
    attempts: Seq<Attempt<T>>,
    report: RetryReport<T>,
    k: int,
)
    requires
        retries.reports(retries.judged(attempts), report),
        0 <= k < attempts.len(),
        retries.backoff.failures + k < retries.max_failures,
        forall|i: int| 0 <= i < k ==> is_followed(retries.retried, #[trigger] attempts[i]),
        !is_followed(retries.retried, attempts[k]),
    ensures
        match attempts[k] {
            Attempt::Committed { ts, value, clock } => {
                &&& report.result matches Ok((at, returned, stats))
                &&& at == ts
                &&& returned == value
                &&& stats.retries == retries.backoff.failures + k
                &&& stats.duration.0 == nanos_between(clock.start, clock.run_end)
                &&& stats.commit_duration.0 == nanos_between(clock.run_end, clock.commit_end)
                &&& stats.total_duration.0 == nanos_between(clock.start, clock.end)
            },
            Attempt::NotBegun(error) => report.result matches Err(e) && e == error,
            Attempt::RunFailed { error, .. } => report.result matches Err(e) && e == error,
            Attempt::CommitFailed { error, .. } => report.result matches Err(e) && e == error,
        },
{
    lemma_first_that_is_not_followed(retries, attempts, k);
    lemma_judged(retries, attempts, k);
}

/// Where all attempts that may be made are of the kind that is followed by another one,
/// the error of the last of them is returned. Where none may be made, it is the error
/// that there was before, or that there was none.
pub proof fn law_error_of_last_attempt_is_left<T>(
    retries: RetryLoop,
    attempts: Seq<Attempt<T>>,
    report: RetryReport<T>,
)
    requires
        retries.reports(retries.judged(attempts), report),
        retries.max_failures - retries.backoff.failures <= attempts.len(),
        forall|i: int|
            0 <= i < retries.max_failures - retries.backoff.failures ==> is_followed(
                retries.retried,
                #[trigger] attempts[i],
            ),
    ensures
        ({
            let n = retries.max_failures - retries.backoff.failures;
            if n > 0 {
                match attempts[n - 1] {
                    Attempt::RunFailed { error, .. } => report.result matches Err(e) && e == error,
                    Attempt::CommitFailed { error, .. } => report.result matches Err(e) && e
                        == error,
                    _ => false,
                }
            } else {
                match retries.error {
                    Some(error) => report.result matches Err(e) && e == error,
                    None => report.result matches Err(DatabaseError::NoErrorFromCommit),
                }
            }
        }),
{
    let n = retries.max_failures - retries.backoff.failures;
    if n > 0 {
        lemma_first_that_is_not_followed(retries, attempts, n);
        lemma_judged(retries, attempts, n - 1);
    }
}

/// What is done in attempt `k`: a transaction begins; if it could, the pause point is
/// passed and the transaction runs; if it ran well, it is committed; if it ran or was
/// committed in vain, the error is judged, and if another attempt is worth it, there is
/// a wait.
pub open spec fn steps_of<T>(retried: Retried, attempt: Attempt<T>, k: int) -> Seq<RetryAction> {
    let begun = !(attempt is NotBegun);
    let ran = attempt is CommitFailed || attempt is Committed;
    let failed = attempt is RunFailed || attempt is CommitFailed;
    seq![RetryAction::Begin(k as usize)] + only_if(begun, RetryAction::Pause) + only_if(
        begun,
        RetryAction::Run(k as usize),
    ) + only_if(ran, RetryAction::Commit(k as usize)) + only_if(failed, RetryAction::Judge)
        + only_if(is_followed(retried, attempt), RetryAction::Wait)
}

/// One action, or none.
pub open spec fn only_if(wanted: bool, action: RetryAction) -> Seq<RetryAction> {
    if wanted {
        seq![action]
    } else {
        Seq::empty()
    }
}

proof fn lemma_steps<T>(retries: RetryLoop, attempts: Seq<Attempt<T>>, k: int)
    requires
        0 <= k < attempts.len(),
    ensures
        retries.judged(attempts)[k].actions(k) == steps_of(retries.retried, attempts[k], k),
{
    lemma_judged(retries, attempts, k);
    assert(retries.judged(attempts)[k].actions(k) =~= steps_of(retries.retried, attempts[k], k));
}

proof fn lemma_all_steps<T>(retries: RetryLoop, attempts: Seq<Attempt<T>>, n: int)
    requires
        0 <= n <= attempts.len(),
    ensures
        actions_of(retries.judged(attempts), n) == Seq::new(
            n as nat,
            |i: int| steps_of(retries.retried, attempts[i], i),
        ).flatten_alt(),
    decreases n,
{
    let steps = Seq::new(n as nat, |i: int| steps_of(retries.retried, attempts[i], i));
    if n > 0 {
        let before = Seq::new((n - 1) as nat, |i: int| steps_of(retries.retried, attempts[i], i));
        lemma_all_steps(retries, attempts, n - 1);
        lemma_steps(retries, attempts, n - 1);
        assert(steps.drop_last() =~= before);
        assert(steps.last() == steps_of(retries.retried, attempts[n - 1], n - 1));
    }
}

/// All that is done are the steps of the attempts up to the first one that is not
/// followed by another one, one attempt after the other.
pub proof fn law_steps_are_done_in_order<T>(
    retries: RetryLoop,
    attempts: Seq<Attempt<T>>,
    report: RetryReport<T>,
    k: int,
)
    requires
        retries.reports(retries.judged(attempts), report),
        0 <= k < attempts.len(),
        retries.backoff.failures + k < retries.max_failures,
        forall|i: int| 0 <= i < k ==> is_followed(retries.retried, #[trigger] attempts[i]),
        !is_followed(retries.retried, attempts[k]),
    ensures
        report.actions@ == Seq::new(
            (k + 1) as nat,
            |i: int| steps_of(retries.retried, attempts[i], i),
        ).flatten(),
{
    lemma_first_that_is_not_followed(retries, attempts, k);
    lemma_all_steps(retries, attempts, k + 1);
    Seq::new(
        (k + 1) as nat,
        |i: int| steps_of(retries.retried, attempts[i], i),
    ).lemma_flatten_and_flatten_alt_are_equivalent();
}

/// Where all attempts that may be made are of the kind that is followed by another one,
/// the steps of all of them are done, and then, but not otherwise, the pause point is
/// closed.
pub proof fn law_pause_point_is_closed_at_last<T>(
    retries: RetryLoop,
    attempts: Seq<Attempt<T>>,
    report: RetryReport<T>,
    n: int,
)
    requires
        retries.reports(retries.judged(attempts), report),
        0 <= n <= attempts.len(),
        n == if retries.max_failures > retries.backoff.failures {
            retries.max_failures - retries.backoff.failures
        } else {
            0
        },
        forall|i: int| 0 <= i < n ==> is_followed(retries.retried, #[trigger] attempts[i]),
    ensures
        report.actions@ == Seq::new(
            n as nat,
            |i: int| steps_of(retries.retried, attempts[i], i),
        ).flatten().push(RetryAction::Close),
{
    if n > 0 {
        lemma_first_that_is_not_followed(retries, attempts, n);
    }
    lemma_all_steps(retries, attempts, n);
    Seq::new(
        n as nat,
        |i: int| steps_of(retries.retried, attempts[i], i),
    ).lemma_flatten_and_flatten_alt_are_equivalent();
}

/// A failure that is followed by another attempt is counted and kept, and nothing else
/// of the transaction changes.
pub proof fn law_failures_are_counted(retries: RetryLoop, error: DatabaseError)
    requires
        retries.backoff.failures < retries.max_failures,
    ensures
        ({
            let after = retries.fail_with(error);
            &&& after.backoff.failures == retries.backoff.failures + 1
            &&& after.backoff.initial_millis == retries.backoff.initial_millis
            &&& after.backoff.max_millis == retries.backoff.max_millis
            &&& after.error == Some(error)
            &&& after.identity == retries.identity
            &&& after.write_source == retries.write_source
            &&& after.max_failures == retries.max_failures
            &&& after.retried == retries.retried
        }),
{
}

/// A transaction that is tried again after conflicts is tried three times, with a
/// backoff from ten milliseconds to two seconds.
pub proof fn law_conflicts_are_tried_three_times(
    retries: RetryLoop,
    identity: Identity,
    write_source: WriteSource,
)
    requires
        retries.is_for_occ(identity, write_source),
    ensures
        retries.identity == identity,
        retries.write_source == write_source,
        retries.max_failures == 3,
        retries.retried is Conflicts,
        retries.backoff.initial_millis == 10,
        retries.backoff.max_millis == 2000,
        retries.backoff.failures == 0,
        retries.error is None,
{
}

/// Whether a search was told that there is too much to do.
pub open spec fn is_told_to_wait<T>(result: Result<T, DatabaseError>) -> bool {
    result matches Err(DatabaseError::Service(error)) && error.overloaded
}

proof fn lemma_answered<T>(results: Seq<Result<T, DatabaseError>>, from: int, k: int, n: int)
    requires
        from <= k <= n,
        forall|i: int| from <= i < k ==> is_busy(#[trigger] results[i]),
        k < n ==> !is_busy(results[k]),
    ensures
        answered_at(results, from, n) == k,
    decreases k - from,
{
    if from < k {
        assert(is_busy(results[from]));
        lemma_answered(results, from + 1, k, n);
    }
}

/// The search waits exactly as often as it was told to before its first other result,
/// and that result is its answer. After five results it waits no more.
pub proof fn law_search_waits_while_it_is_told_to<T>(
    results: Seq<Result<T, DatabaseError>>,
    k: int,
)
    requires
        0 <= k < 5,
        forall|i: int| 0 <= i < k ==> is_told_to_wait(#[trigger] results[i]),
        k < 4 ==> !is_told_to_wait(results[k]),
    ensures
        answered_at(results, 0, MAX_VECTOR_ATTEMPTS - 1) == k,
        MAX_VECTOR_ATTEMPTS == 5,
{
    assert forall|i: int| 0 <= i < k implies is_busy(#[trigger] results[i]) by {
        assert(is_told_to_wait(results[i]));
    }
    lemma_answered(results, 0, k, MAX_VECTOR_ATTEMPTS - 1);
}

/// A vector search begins without failures, with a backoff from 150 milliseconds to two
/// and a half seconds.
pub proof fn law_searches_begin_without_failures(search: VectorSearchLoop)
    requires
        search.is_new(),
    ensures
        search.backoff.initial_millis == 150,
        search.backoff.max_millis == 2500,
        search.backoff.failures == 0,
{
}

/// A transaction is tried for as long as fewer attempts failed than may fail. The attempt is
/// the caller's, and reads what is the latest then.
pub proof fn law_beginning_an_attempt<RT, S, U>(
    retries: RetryLoop,
    next: RetryNext,
    database: Database<RT, S>,
    usage: U,
    pending: Result<PendingTransaction<U>, DatabaseError>,
)
    requires
        call_ensures(RetryLoop::next, (retries,), next),
        next matches RetryNext::Begin(attempt) ==> call_ensures(
            BeginningAttempt::begin::<RT, S, U>,
            (&attempt, &database, usage),
            pending,
        ),
    ensures
        next is Begin <==> retries.backoff.failures < retries.max_failures,
        next is Begin ==> {
            &&& pending is Ok
            &&& pending->Ok_0.identity == retries.identity
            &&& pending->Ok_0.repeatable_ts == database.latest_ts
            &&& pending->Ok_0.usage_tracker == usage
        },
        next matches RetryNext::Exhausted(error) ==> match retries.error {
            Some(last) => error == last,
            None => error is NoErrorFromCommit,
        },
{
}

/// A transaction that began and ran well is the one that is committed, under the name of
/// what writes, and what it returned is returned with the times that were read.
pub proof fn law_committing_an_attempt<Tx, T>(
    retries: RetryLoop,
    beginning: BeginningAttempt,
    transaction: Tx,
    paused: PausedAttempt<Tx>,
    clock: AttemptClock,
    running: RunningAttempt<Tx>,
    value: T,
    after_run: AfterRun<Tx, T>,
    ts: Timestamp,
    after_commit: AfterCommit<T>,
)
    requires
        call_ensures(RetryLoop::next, (retries,), RetryNext::Begin(beginning)),
        call_ensures(
            BeginningAttempt::begun::<Tx>,
            (beginning, Ok(transaction)),
            AfterBegin::Pause(paused),
        ),
        call_ensures(PausedAttempt::<Tx>::resumed, (paused, clock.start), running),
        call_ensures(
            RunningAttempt::<Tx>::ran::<T>,
            (running, Ok((value, clock.run_end))),
            after_run,
        ),
        after_run is Commit ==> call_ensures(
            CommittingAttempt::<T>::committed,
            (after_run->attempt, Ok((ts, clock.commit_end)), clock.end),
            after_commit,
        ),
    ensures
        after_run is Commit,
        after_run->transaction == transaction,
        after_run->write_source@ == retries.write_source@,
        after_commit is Return,
        after_commit->Return_0.0 == ts,
        after_commit->Return_0.1 == value,
        after_commit->Return_0.2.retries == retries.backoff.failures,
        after_commit->Return_0.2.duration.0 == nanos_between(clock.start, clock.run_end),
        after_commit->Return_0.2.commit_duration.0 == nanos_between(
            clock.run_end,
            clock.commit_end,
        ),
        after_commit->Return_0.2.total_duration.0 == nanos_between(clock.start, clock.end),
{
}

/// A transaction that ran in vain is not committed. If it is tried again, the wait is that of
/// the attempts that failed before, and one more has failed then; otherwise its error is
/// returned.
pub proof fn law_failing_an_attempt<Tx, T>(
    retries: RetryLoop,
    beginning: BeginningAttempt,
    transaction: Tx,
    paused: PausedAttempt<Tx>,
    start: ClockReading,
    running: RunningAttempt<Tx>,
    error: DatabaseError,
    after_run: AfterRun<Tx, T>,
    retriable: bool,
    after_failure: AfterFailure,
)
    requires
        call_ensures(RetryLoop::next, (retries,), RetryNext::Begin(beginning)),
        call_ensures(
            BeginningAttempt::begun::<Tx>,
            (beginning, Ok(transaction)),
            AfterBegin::Pause(paused),
        ),
        call_ensures(PausedAttempt::<Tx>::resumed, (paused, start), running),
        call_ensures(RunningAttempt::<Tx>::ran::<T>, (running, Err(error)), after_run),
        after_run is Judge ==> call_ensures(
            FailedAttempt::judged,
            (after_run->Judge_0, retriable),
            after_failure,
        ),
    ensures
        after_run is Judge,
        ({
            let again = if retries.retried is Conflicts {
                tells_of_conflict(error)
            } else {
                retriable
            };
            &&& again ==> {
                &&& after_failure matches AfterFailure::Wait { backoff, retries: next }
                &&& backoff == retries.backoff
                &&& next.backoff.failures == retries.backoff.failures + 1
                &&& next.backoff.initial_millis == retries.backoff.initial_millis
                &&& next.backoff.max_millis == retries.backoff.max_millis
                &&& next.error == Some(error)
                &&& next.identity == retries.identity
                &&& next.write_source == retries.write_source
                &&& next.max_failures == retries.max_failures
                &&& next.retried == retries.retried
            }
            &&& !again ==> after_failure == AfterFailure::Return(error)
        }),
{
    assert(retries.backoff.failures < retries.max_failures);
}

/// A transaction that could not begin is not tried again.
pub proof fn law_failing_to_begin_an_attempt<Tx>(
    beginning: BeginningAttempt,
    error: DatabaseError,
    next: AfterBegin<Tx>,
)
    requires
        call_ensures(BeginningAttempt::begun::<Tx>, (beginning, Err(error)), next),
    ensures
        next == AfterBegin::<Tx>::Return(error),
{
}

/// A search that is told to wait waits once more for as long as it failed fewer than four
/// times, and returns what it was told otherwise.
pub proof fn law_failing_a_search<T>(
    search: VectorSearchLoop,
    result: Result<T, DatabaseError>,
    outcome: VectorSearchOutcome<T>,
)
    requires
        search.backoff.failures < 5,
        call_ensures(VectorSearchLoop::after::<T>, (search, result), outcome),
    ensures
        outcome is Wait <==> is_told_to_wait(result) && search.backoff.failures < 4,
        outcome matches VectorSearchOutcome::Wait(next) ==> {
            &&& next.backoff.failures == search.backoff.failures + 1
            &&& next.backoff.initial_millis == search.backoff.initial_millis
            &&& next.backoff.max_millis == search.backoff.max_millis
        },
        outcome matches VectorSearchOutcome::Return(answer) ==> answer == result,
{
}

} // verus!
