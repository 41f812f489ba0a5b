//! What holds of all transactions and vector searches that are tried.

use crate::errors::DatabaseError;
use crate::occ::OccRetryStats;
use crate::retry::{
    actions_of, answered_at, decided_at, is_busy, Attempt, AttemptClock, RetryAction, RetryLoop,
    RetryReport, MAX_VECTOR_ATTEMPTS,
};
use vstd::prelude::*;

verus! {

proof fn lemma_decided_at<T>(attempts: Seq<Attempt<T>>, from: int, n: int)
    requires
        from <= n,
    ensures
        from <= decided_at(attempts, from, n) <= n,
        forall|i: int|
            from <= i < decided_at(attempts, from, n) ==> (#[trigger] attempts[i]).is_retriable(),
        decided_at(attempts, from, n) < n ==> !attempts[decided_at(
            attempts,
            from,
            n,
        )].is_retriable(),
    decreases n - from,
{
    if from < n && attempts[from].is_retriable() {
        lemma_decided_at(attempts, from + 1, n);
    }
}

proof fn lemma_answered_at<T>(results: Seq<Result<T, DatabaseError>>, from: int, n: int)
    requires
        from <= n,
    ensures
        from <= answered_at(results, from, n) <= n,
        forall|i: int|
            from <= i < answered_at(results, from, n) ==> is_busy(#[trigger] results[i]),
        answered_at(results, from, n) < n ==> !is_busy(results[answered_at(results, from, n)]),
    decreases n - from,
{
    if from < n && is_busy(results[from]) {
        lemma_answered_at(results, from + 1, n);
    }
}

/// A transaction that is committed after `k` attempts that were tried again has
/// its result returned, with `k` retries and the times of that attempt alone, and
/// nothing is done after it.
pub proof fn law_commit_is_returned<T>(
    retries: RetryLoop,
    attempts: Seq<Attempt<T>>,
    report: RetryReport<T>,
    k: int,
)
    requires
        retries.reports(attempts, report),
        0 <= k < retries.attempts_left(),
        forall|i: int| 0 <= i < k ==> (#[trigger] attempts[i]).is_retriable(),
        attempts[k] is Committed,
    ensures
        report.result is Ok,
        report.result->Ok_0.0 == attempts[k]->ts,
        report.result->Ok_0.1 == attempts[k]->Committed_value,
        report.result->Ok_0.2.retries == retries.backoff.failures + k,
        attempts[k]->clock.is_told_by(report.result->Ok_0.2),
        report.actions@ == actions_of(attempts, k + 1),
{
    let n = retries.attempts_left();
    lemma_decided_at(attempts, 0, n);
    let d = decided_at(attempts, 0, n);
    if d < k {
        assert(attempts[d].is_retriable());
    }
    if d > k {
        assert(attempts[k].is_retriable());
    }
}

/// An error that is not tried again is returned at once.
pub proof fn law_final_error_is_returned<T>(
    retries: RetryLoop,
    attempts: Seq<Attempt<T>>,
    report: RetryReport<T>,
    k: int,
)
    requires
        retries.reports(attempts, report),
        0 <= k < retries.attempts_left(),
        forall|i: int| 0 <= i < k ==> (#[trigger] attempts[i]).is_retriable(),
        !attempts[k].is_retriable(),
        !(attempts[k] is Committed),
    ensures
        report.result is Err,
        report.result->Err_0 == attempts[k].why(),
        report.actions@ == actions_of(attempts, k + 1),
{
    let n = retries.attempts_left();
    lemma_decided_at(attempts, 0, n);
    let d = decided_at(attempts, 0, n);
    if d < k {
        assert(attempts[d].is_retriable());
    }
    if d > k {
        assert(attempts[k].is_retriable());
    }
}

/// If every attempt that is allowed fails in a way that is tried again, the error
/// of the last one is returned, and the pause point is closed.
pub proof fn law_last_error_is_returned<T>(
    retries: RetryLoop,
    attempts: Seq<Attempt<T>>,
    report: RetryReport<T>,
)
    requires
        retries.reports(attempts, report),
        retries.attempts_left() > 0,
        forall|i: int|
            0 <= i < retries.attempts_left() ==> (#[trigger] attempts[i]).is_retriable(),
    ensures
        report.result is Err,
        report.result->Err_0 == attempts[retries.attempts_left() - 1].why(),
        report.actions@ == actions_of(attempts, retries.attempts_left()).push(RetryAction::Close),
{
    let n = retries.attempts_left();
    lemma_decided_at(attempts, 0, n);
    let d = decided_at(attempts, 0, n);
    if d < n {
        assert(attempts[d].is_retriable());
    }
}

/// Whether an attempt ends in a conflict with another transaction.
pub open spec fn is_conflict<T>(attempt: Attempt<T>) -> bool {
    match attempt {
        Attempt::RunFailed { error, .. } => error.spec_is_occ(),
        Attempt::CommitFailed { error, .. } => error.spec_is_occ(),
        _ => false,
    }
}

/// Where conflicts alone are tried again, the first attempt that does not end in
/// one decides, whatever the caller judges: its result is returned if it is
/// committed, its error otherwise, and nothing is done after it. If all attempts
/// that are allowed end in conflicts, the last conflict is returned.
pub proof fn law_only_conflicts_are_tried_again<T>(
    retries: RetryLoop,
    attempts: Seq<Attempt<T>>,
    report: RetryReport<T>,
    k: int,
)
    requires
        retries.retried is Conflicts,
        retries.reports(retries.judged(attempts), report),
        0 <= k < retries.attempts_left() <= attempts.len(),
        forall|i: int| 0 <= i < k ==> is_conflict(#[trigger] attempts[i]),
    ensures
        !is_conflict(attempts[k]) ==> {
            &&& attempts[k].gives(retries.backoff.failures + k, report.result)
            &&& report.actions@ == actions_of(retries.judged(attempts), k + 1)
        },
        is_conflict(attempts[k]) && k == retries.attempts_left() - 1 ==> {
            &&& report.result is Err
            &&& report.result->Err_0 == attempts[k].why()
        },
{
    let judged = retries.judged(attempts);
    let n = retries.attempts_left();
    lemma_decided_at(judged, 0, n);
    let d = decided_at(judged, 0, n);
    assert(judged[k] == attempts[k].judged_by(retries.retried));
    assert forall|i: int| 0 <= i < k implies (#[trigger] judged[i]).is_retriable() by {
        assert(is_conflict(attempts[i]));
    }
    if d < k {
        assert(judged[d].is_retriable());
    }
    if d > k {
        assert(judged[k].is_retriable());
    }
}

proof fn lemma_actions_agree<T>(attempts: Seq<Attempt<T>>, others: Seq<Attempt<T>>, n: int)
    requires
        forall|i: int| 0 <= i < n ==> #[trigger] attempts[i] == others[i],
    ensures
        actions_of(attempts, n) == actions_of(others, n),
    decreases n,
{
    if n > 0 {
        lemma_actions_agree(attempts, others, n - 1);
        assert(attempts[n - 1] == others[n - 1]);
    }
}

/// What comes of attempts behind those that are allowed, or behind the one that
/// decides, does not matter: no more are made.
pub proof fn law_no_attempt_after_the_decision<T>(
    retries: RetryLoop,
    attempts: Seq<Attempt<T>>,
    others: Seq<Attempt<T>>,
    report: RetryReport<T>,
    k: int,
)
    requires
        retries.reports(attempts, report),
        0 <= k <= retries.attempts_left(),
        k == retries.attempts_left() || !attempts[k].is_retriable(),
        forall|i: int|
            0 <= i < retries.attempts_left() && i <= k ==> #[trigger] attempts[i] == others[i],
    ensures
        retries.reports(others, report),
{
    let n = retries.attempts_left();
    lemma_decided_at(attempts, 0, n);
    lemma_decided_at(others, 0, n);
    let d = decided_at(attempts, 0, n);
    let e = decided_at(others, 0, n);
    if d < n {
        if d > k {
            assert(attempts[k].is_retriable());
        }
        assert(attempts[d] == others[d]);
    }
    if e < d {
        assert(attempts[e].is_retriable());
        assert(attempts[e] == others[e]);
    }
    if d < e {
        assert(others[d].is_retriable());
    }
    if n > 0 && d == n {
        if k < n {
            assert(attempts[k].is_retriable());
        }
        assert(attempts[n - 1] == others[n - 1]);
    }
    if d < n {
        lemma_actions_agree(attempts, others, d + 1);
    } else {
        lemma_actions_agree(attempts, others, n);
    }
}

/// Where the clock never goes back, the whole attempt took at least as long as
/// the transaction and its commit, each of which is told without the other.
pub proof fn law_durations_add_up(clock: AttemptClock, stats: OccRetryStats)
    requires
        clock.never_goes_back(),
        clock.is_told_by(stats),
    ensures
        stats.duration.0 == clock.run_end.0 - clock.start.0,
        stats.commit_duration.0 == clock.commit_end.0 - clock.run_end.0,
        stats.total_duration.0 >= stats.duration.0 + stats.commit_duration.0,
{
}

/// How often something is done.
pub open spec fn times_done(actions: Seq<RetryAction>, action: RetryAction) -> nat
    decreases actions.len(),
{
    if actions.len() == 0 {
        0
    } else if actions.last() == action {
        times_done(actions.drop_last(), action) + 1
    } else {
        times_done(actions.drop_last(), action)
    }
}

proof fn lemma_times_done_concat(
    front: Seq<RetryAction>,
    back: Seq<RetryAction>,
    action: RetryAction,
)
    ensures
        times_done(front + back, action) == times_done(front, action) + times_done(back, action),
    decreases back.len(),
{
    if back.len() == 0 {
        assert(front + back =~= front);
    } else {
        lemma_times_done_concat(front, back.drop_last(), action);
        assert((front + back).drop_last() =~= front + back.drop_last());
    }
}

proof fn lemma_times_in_attempt<T>(attempt: Attempt<T>, k: int, action: RetryAction)
    requires
        0 <= k <= usize::MAX,
    ensures
        action is Run ==> times_done(attempt.actions(k), action) == if action == RetryAction::Run(
            k as usize,
        ) && !(attempt is NotBegun) {
            1nat
        } else {
            0nat
        },
        action is Commit ==> times_done(attempt.actions(k), action) == if action
            == RetryAction::Commit(k as usize) && attempt.ran_well() {
            1nat
        } else {
            0nat
        },
{
    let actions = attempt.actions(k);
    let begun = seq![
        RetryAction::Begin(k as usize),
        RetryAction::Pause,
        RetryAction::Run(k as usize),
    ];
    lemma_times_among_three(begun[0], begun[1], begun[2], action);
    match attempt {
        Attempt::NotBegun(_) => {
            lemma_times_among_one(RetryAction::Begin(k as usize), action);
        },
        Attempt::RunFailed { retriable, .. } => if retriable {
            lemma_times_among_two(RetryAction::Judge, RetryAction::Wait, action);
            lemma_times_done_concat(begun, seq![RetryAction::Judge, RetryAction::Wait], action);
        } else {
            lemma_times_among_one(RetryAction::Judge, action);
            lemma_times_done_concat(begun, seq![RetryAction::Judge], action);
        },
        Attempt::CommitFailed { retriable, .. } => {
            let commit = RetryAction::Commit(k as usize);
            if retriable {
                let rest = seq![commit, RetryAction::Judge, RetryAction::Wait];
                lemma_times_among_three(commit, RetryAction::Judge, RetryAction::Wait, action);
                lemma_times_done_concat(begun, rest, action);
            } else {
                lemma_times_among_two(commit, RetryAction::Judge, action);
                lemma_times_done_concat(begun, seq![commit, RetryAction::Judge], action);
            }
        },
        Attempt::Committed { .. } => {
            let commit = RetryAction::Commit(k as usize);
            lemma_times_among_one(commit, action);
            lemma_times_done_concat(begun, seq![commit], action);
        },
    }
}

spec fn one_if(same: bool) -> nat {
    if same {
        1
    } else {
        0
    }
}

proof fn lemma_times_among_one(a: RetryAction, action: RetryAction)
    ensures
        times_done(seq![a], action) == one_if(a == action),
{
    assert(seq![a].drop_last() =~= Seq::empty());
    assert(times_done(Seq::empty(), action) == 0);
}

proof fn lemma_times_among_two(a: RetryAction, b: RetryAction, action: RetryAction)
    ensures
        times_done(seq![a, b], action) == one_if(a == action) + one_if(b == action),
{
    lemma_times_among_one(a, action);
    assert(seq![a, b].drop_last() =~= seq![a]);
}

proof fn lemma_times_among_three(
    a: RetryAction,
    b: RetryAction,
    c: RetryAction,
    action: RetryAction,
)
    ensures
        times_done(seq![a, b, c], action) == one_if(a == action) + one_if(b == action) + one_if(
            c == action,
        ),
{
    lemma_times_among_two(a, b, action);
    assert(seq![a, b, c].drop_last() =~= seq![a, b]);
}

proof fn lemma_times_done<T>(attempts: Seq<Attempt<T>>, n: int, k: int)
    requires
        0 <= k <= usize::MAX,
        0 <= n <= usize::MAX,
    ensures
        times_done(actions_of(attempts, n), RetryAction::Run(k as usize)) == if k < n && !(
        attempts[k] is NotBegun) {
            1nat
        } else {
            0nat
        },
        times_done(actions_of(attempts, n), RetryAction::Commit(k as usize)) == if k < n
            && attempts[k].ran_well() {
            1nat
        } else {
            0nat
        },
    decreases n,
{
    if n > 0 {
        lemma_times_done(attempts, n - 1, k);
        let own = attempts[n - 1].actions(n - 1);
        let before = actions_of(attempts, n - 1);
        let run = RetryAction::Run(k as usize);
        let commit = RetryAction::Commit(k as usize);
        lemma_times_done_concat(before, own, run);
        lemma_times_done_concat(before, own, commit);
        lemma_times_in_attempt(attempts[n - 1], n - 1, run);
        lemma_times_in_attempt(attempts[n - 1], n - 1, commit);
    }
}

/// Of each attempt that is made, the transaction runs once if it began, and is
/// committed, once, if and only if it ran well. A transaction that ran in vain is
/// never committed.
pub proof fn law_committed_if_and_only_if_ran_well<T>(
    retries: RetryLoop,
    attempts: Seq<Attempt<T>>,
    report: RetryReport<T>,
    k: int,
)
    requires
        retries.reports(attempts, report),
        0 <= k < retries.attempts_left(),
    ensures
        ({
            let made = k <= decided_at(attempts, 0, retries.attempts_left());
            &&& times_done(report.actions@, RetryAction::Run(k as usize)) == if made && !(
            attempts[k] is NotBegun) {
                1nat
            } else {
                0nat
            }
            &&& times_done(report.actions@, RetryAction::Commit(k as usize)) == if made
                && attempts[k].ran_well() {
                1nat
            } else {
                0nat
            }
        }),
{
    let n = retries.attempts_left();
    lemma_decided_at(attempts, 0, n);
    let d = decided_at(attempts, 0, n);
    if d < n {
        lemma_times_done(attempts, d + 1, k);
    } else {
        lemma_times_done(attempts, n, k);
        assert(report.actions@.drop_last() =~= actions_of(attempts, n));
    }
}

/// A vector search gives its first answer, or the last result it may ask for; all
/// results before that one said that there was too much to do.
pub proof fn law_vector_search_gives_first_answer<T>(results: Seq<Result<T, DatabaseError>>)
    ensures
        ({
            let last = MAX_VECTOR_ATTEMPTS - 1;
            let k = answered_at(results, 0, last);
            &&& 0 <= k <= last
            &&& k < last ==> !is_busy(results[k])
            &&& forall|i: int| 0 <= i < k ==> is_busy(#[trigger] results[i])
        }),
{
    lemma_answered_at(results, 0, MAX_VECTOR_ATTEMPTS - 1);
}

} // verus!
