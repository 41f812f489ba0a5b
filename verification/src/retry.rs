//! How often transactions and vector searches are tried.

use crate::clock::ClockReading;
use crate::database::{Database, PendingTransaction};
use crate::errors::{DatabaseError, ErrorMetadata};
use crate::identity::Identity;
use crate::ids::Timestamp;
use crate::occ::{OccRetryStats, WriteSource};
use vstd::prelude::*;

verus! {

pub const INITIAL_OCC_BACKOFF_MILLIS: u64 = 10;

pub const MAX_OCC_BACKOFF_MILLIS: u64 = 2000;

/// How often a transaction that conflicts with others is tried.
pub const MAX_OCC_FAILURES: u32 = 3;

/// In-memory vector indexes are filled in the background after a start. Until
/// that is done searches fail, so they are tried again.
pub const INITIAL_VECTOR_BACKOFF_MILLIS: u64 = 150;

pub const MAX_VECTOR_BACKOFF_MILLIS: u64 = 2500;

/// How often a vector search is tried.
pub const MAX_VECTOR_ATTEMPTS: u32 = 5;

impl DatabaseError {
    /// Whether the error is a conflict with another transaction.
    pub open spec fn spec_is_occ(self) -> bool {
        match self {
            DatabaseError::Metadata(ErrorMetadata::UserOcc { .. }) => true,
            DatabaseError::Metadata(ErrorMetadata::SystemOcc { .. }) => true,
            DatabaseError::Service(error) => error.occ,
            _ => false,
        }
    }

    /// Whether there is too much to do at the moment.
    pub open spec fn spec_is_overloaded(self) -> bool {
        self matches DatabaseError::Service(error) && error.overloaded
    }

    /// Whether the error is a conflict with another transaction.
    pub fn is_occ(&self) -> (occ: bool)
        ensures
            occ == self.spec_is_occ(),
    {
        match self {
            DatabaseError::Metadata(ErrorMetadata::UserOcc { .. }) => true,
            DatabaseError::Metadata(ErrorMetadata::SystemOcc { .. }) => true,
            DatabaseError::Service(error) => error.occ,
            _ => false,
        }
    }

    /// Whether there is too much to do at the moment.
    pub fn is_overloaded(&self) -> (overloaded: bool)
        ensures
            overloaded == self.spec_is_overloaded(),
    {
        match self {
            DatabaseError::Service(error) => error.overloaded,
            _ => false,
        }
    }
}

/// How long to wait between attempts, and how many have failed.
#[derive(Clone, Copy, Debug, PartialEq, Eq, Structural)]
pub struct Backoff {
    pub initial_millis: u64,
    pub max_millis: u64,
    pub failures: u32,
}

impl Backoff {
    /// A backoff without failures.
    pub fn new(initial_millis: u64, max_millis: u64) -> (backoff: Backoff)
        ensures
            backoff == (Backoff { initial_millis, max_millis, failures: 0 }),
    {
        Backoff { initial_millis, max_millis, failures: 0 }
    }

    /// The backoff with one more failure.
    pub open spec fn failed(self) -> Backoff {
        Backoff { failures: (self.failures + 1) as u32, ..self }
    }
}

/// The readings of the clock during an attempt.
#[derive(Clone, Copy, Debug, PartialEq, Eq, Structural)]
pub struct AttemptClock {
    /// Right before the transaction ran.
    pub start: ClockReading,
    /// Right after it ran.
    pub run_end: ClockReading,
    /// Right after it was committed.
    pub commit_end: ClockReading,
    /// When the attempt was over.
    pub end: ClockReading,
}

impl AttemptClock {
    /// Whether statistics tell what the clock showed: how long the transaction
    /// ran, without its commit, how long the commit took, and how long both took
    /// together.
    pub open spec fn is_told_by(self, stats: OccRetryStats) -> bool {
        &&& stats.duration == self.run_end.spec_since(self.start)
        &&& stats.commit_duration == self.commit_end.spec_since(self.run_end)
        &&& stats.total_duration == self.end.spec_since(self.start)
    }

    /// Whether no reading is earlier than the one before it.
    pub open spec fn never_goes_back(self) -> bool {
        self.start.0 <= self.run_end.0 <= self.commit_end.0 <= self.end.0
    }

    /// The statistics of an attempt that succeeded.
    pub fn stats(&self, retries: u32) -> (stats: OccRetryStats)
        ensures
            stats.retries == retries,
            self.is_told_by(stats),
    {
        OccRetryStats {
            retries,
            duration: self.run_end.since(self.start),
            commit_duration: self.commit_end.since(self.run_end),
            total_duration: self.end.since(self.start),
        }
    }
}

/// After which errors a transaction is tried again.
#[derive(Clone, Copy, Debug, PartialEq, Eq, Structural)]
pub enum Retried {
    /// After conflicts with other transactions, and nothing else.
    Conflicts,
    /// After those that the caller judges to be worth it.
    Judged,
}

impl Retried {
    /// Whether a transaction is tried again after an error of which the caller
    /// judges `retriable`.
    pub open spec fn covers(self, error: DatabaseError, retriable: bool) -> bool {
        match self {
            Retried::Conflicts => error.spec_is_occ(),
            Retried::Judged => retriable,
        }
    }
}

/// A transaction while it is tried.
#[derive(Debug)]
pub struct RetryLoop {
    pub identity: Identity,
    pub write_source: WriteSource,
    pub backoff: Backoff,
    pub max_failures: u32,
    pub retried: Retried,
    /// Why the last attempt failed.
    pub error: Option<DatabaseError>,
}

/// What is to be done before an attempt.
#[derive(Debug)]
pub enum RetryNext {
    /// Begin a transaction.
    Begin(BeginningAttempt),
    /// Close the pause point and fail.
    Exhausted(DatabaseError),
}

impl RetryLoop {
    /// A transaction that was not tried yet.
    pub fn new(
        identity: Identity,
        write_source: WriteSource,
        backoff: Backoff,
        max_failures: u32,
        retried: Retried,
    ) -> (retries: RetryLoop)
        ensures
            retries == (RetryLoop {
                identity,
                write_source,
                backoff,
                max_failures,
                retried,
                error: None,
            }),
    {
        RetryLoop { identity, write_source, backoff, max_failures, retried, error: None }
    }

    /// Whether this is a transaction that was not tried yet and is tried again
    /// where it conflicts with others.
    pub open spec fn is_for_occ(self, identity: Identity, write_source: WriteSource) -> bool {
        &&& self.identity == identity
        &&& self.write_source == write_source
        &&& self.max_failures == MAX_OCC_FAILURES
        &&& self.retried is Conflicts
        &&& self.backoff.initial_millis == INITIAL_OCC_BACKOFF_MILLIS
        &&& self.backoff.max_millis == MAX_OCC_BACKOFF_MILLIS
        &&& self.backoff.failures == 0
        &&& self.error is None
    }

    /// A transaction that is tried again where it conflicts with others.
    pub fn for_occ(identity: Identity, write_source: WriteSource) -> (retries: RetryLoop)
        ensures
            retries.is_for_occ(identity, write_source),
    {
        RetryLoop::new(
            identity,
            write_source,
            Backoff::new(INITIAL_OCC_BACKOFF_MILLIS, MAX_OCC_BACKOFF_MILLIS),
            MAX_OCC_FAILURES,
            Retried::Conflicts,
        )
    }

    /// How many attempts are left.
    pub open spec fn attempts_left(self) -> int {
        if self.backoff.failures < self.max_failures {
            self.max_failures - self.backoff.failures
        } else {
            0
        }
    }

    /// The error that is left when all attempts are used up.
    pub open spec fn last_error(self) -> DatabaseError {
        match self.error {
            Some(error) => error,
            None => DatabaseError::NoErrorFromCommit,
        }
    }

    /// The loop after an attempt failed in a way that is tried again.
    pub open spec fn fail_with(self, error: DatabaseError) -> RetryLoop {
        RetryLoop { backoff: self.backoff.failed(), error: Some(error), ..self }
    }

    /// Whether there is to be another attempt.
    pub fn next(self) -> (next: RetryNext)
        ensures
            if self.backoff.failures < self.max_failures {
                next matches RetryNext::Begin(attempt) && attempt.retries() == self
            } else {
                next == RetryNext::Exhausted(self.last_error())
            },
    {
        if self.backoff.failures < self.max_failures {
            return RetryNext::Begin(BeginningAttempt { ongoing: Ongoing { retries: self } });
        }
        match self.error {
            Some(error) => RetryNext::Exhausted(error),
            None => RetryNext::Exhausted(DatabaseError::NoErrorFromCommit),
        }
    }
}

/// An attempt that is allowed.
#[derive(Debug)]
struct Ongoing {
    retries: RetryLoop,
}

impl Ongoing {
    #[verifier::type_invariant]
    spec fn is_allowed(self) -> bool {
        self.retries.backoff.failures < self.retries.max_failures
    }
}

/// An attempt whose transaction is to begin.
#[derive(Debug)]
pub struct BeginningAttempt {
    ongoing: Ongoing,
}

/// An attempt whose transaction has begun. It is to stop at the pause point.
#[derive(Debug)]
pub struct PausedAttempt<Tx> {
    ongoing: Ongoing,
    transaction: Tx,
}

/// An attempt whose transaction is to run, once.
#[derive(Debug)]
pub struct RunningAttempt<Tx> {
    ongoing: Ongoing,
    pub transaction: Tx,
    start: ClockReading,
}

/// An attempt whose transaction has run and is to be committed.
#[derive(Debug)]
pub struct CommittingAttempt<T> {
    ongoing: Ongoing,
    value: T,
    start: ClockReading,
    run_end: ClockReading,
}

/// An attempt whose transaction failed while it ran or was committed. It is to be
/// judged whether it is tried again.
#[derive(Debug)]
pub struct FailedAttempt {
    ongoing: Ongoing,
    error: DatabaseError,
}

/// What is to be done once a transaction was to begin.
#[derive(Debug)]
pub enum AfterBegin<Tx> {
    /// Stop at the pause point.
    Pause(PausedAttempt<Tx>),
    /// Fail, and do not try again.
    Return(DatabaseError),
}

/// What is to be done once a transaction has run.
#[derive(Debug)]
pub enum AfterRun<Tx, T> {
    /// Commit the transaction.
    Commit { transaction: Tx, write_source: WriteSource, attempt: CommittingAttempt<T> },
    /// The transaction is gone. Judge its error.
    Judge(FailedAttempt),
}

/// What is to be done once a transaction was to be committed.
#[derive(Debug)]
pub enum AfterCommit<T> {
    Return((Timestamp, T, OccRetryStats)),
    Judge(FailedAttempt),
}

/// What is to be done once an error is judged.
#[derive(Debug)]
pub enum AfterFailure {
    /// Wait as long as the backoff says, then go on.
    Wait { backoff: Backoff, retries: RetryLoop },
    /// Fail, and do not try again.
    Return(DatabaseError),
}

impl BeginningAttempt {
    /// The loop that the attempt is part of.
    pub closed spec fn retries(self) -> RetryLoop {
        self.ongoing.retries
    }

    /// Begins the attempt's transaction: it is the caller's, and reads what is the
    /// latest now.
    pub fn begin<RT, S, U>(&self, database: &Database<RT, S>, usage: U) -> (pending: Result<
        PendingTransaction<U>,
        DatabaseError,
    >)
        ensures
            pending == Ok::<PendingTransaction<U>, DatabaseError>(
                PendingTransaction {
                    identity: self.retries().identity,
                    repeatable_ts: database.latest_ts,
                    latest_ts: database.latest_ts,
                    usage_tracker: usage,
                },
            ),
    {
        database.begin_with_usage(self.ongoing.retries.identity, usage)
    }

    /// Takes the transaction, or why none could begin. That is not tried again,
    /// whatever the error is.
    pub fn begun<Tx>(self, begun: Result<Tx, DatabaseError>) -> (next: AfterBegin<Tx>)
        ensures
            match begun {
                Ok(transaction) => {
                    &&& next matches AfterBegin::Pause(attempt)
                    &&& attempt.retries() == self.retries()
                    &&& attempt.transaction() == transaction
                },
                Err(error) => next == AfterBegin::<Tx>::Return(error),
            },
    {
        match begun {
            Ok(transaction) => AfterBegin::Pause(
                PausedAttempt { ongoing: self.ongoing, transaction },
            ),
            Err(error) => AfterBegin::Return(error),
        }
    }
}

impl<Tx> PausedAttempt<Tx> {
    /// The loop that the attempt is part of.
    pub closed spec fn retries(self) -> RetryLoop {
        self.ongoing.retries
    }

    pub closed spec fn transaction(self) -> Tx {
        self.transaction
    }

    /// Goes on behind the pause point.
    pub fn resumed(self, start: ClockReading) -> (attempt: RunningAttempt<Tx>)
        ensures
            attempt.retries() == self.retries(),
            attempt.transaction() == self.transaction(),
            attempt.start() == start,
    {
        RunningAttempt { ongoing: self.ongoing, transaction: self.transaction, start }
    }
}

impl<Tx> RunningAttempt<Tx> {
    /// The loop that the attempt is part of.
    pub closed spec fn retries(self) -> RetryLoop {
        self.ongoing.retries
    }

    pub closed spec fn transaction(self) -> Tx {
        self.transaction
    }

    pub closed spec fn start(self) -> ClockReading {
        self.start
    }

    /// Takes what came of running the transaction. It is committed if and only if
    /// it ran well.
    pub fn ran<T>(self, ran: Result<(T, ClockReading), DatabaseError>) -> (next: AfterRun<Tx, T>)
        ensures
            match ran {
                Ok((value, run_end)) => {
                    &&& next matches AfterRun::Commit { transaction, write_source, attempt }
                    &&& transaction == self.transaction()
                    &&& write_source@ == self.retries().write_source@
                    &&& attempt.retries() == self.retries()
                    &&& attempt.value() == value
                    &&& attempt.readings() == (self.start(), run_end)
                },
                Err(error) => {
                    &&& next matches AfterRun::Judge(attempt)
                    &&& attempt.retries() == self.retries()
                    &&& attempt.spec_error() == error
                },
            },
    {
        match ran {
            Ok((value, run_end)) => {
                let write_source = self.ongoing.retries.write_source.clone();
                AfterRun::Commit {
                    transaction: self.transaction,
                    write_source,
                    attempt: CommittingAttempt {
                        ongoing: self.ongoing,
                        value,
                        start: self.start,
                        run_end,
                    },
                }
            },
            Err(error) => AfterRun::Judge(FailedAttempt { ongoing: self.ongoing, error }),
        }
    }
}

impl<T> CommittingAttempt<T> {
    /// The loop that the attempt is part of.
    pub closed spec fn retries(self) -> RetryLoop {
        self.ongoing.retries
    }

    /// What the transaction returned.
    pub closed spec fn value(self) -> T {
        self.value
    }

    /// When the transaction began to run, and when it had run.
    pub closed spec fn readings(self) -> (ClockReading, ClockReading) {
        (self.start, self.run_end)
    }

    /// Takes what came of the commit, and when the attempt was over.
    pub fn committed(
        self,
        committed: Result<(Timestamp, ClockReading), DatabaseError>,
        end: ClockReading,
    ) -> (next: AfterCommit<T>)
        ensures
            match committed {
                Ok((ts, commit_end)) => {
                    let clock = AttemptClock {
                        start: self.readings().0,
                        run_end: self.readings().1,
                        commit_end,
                        end,
                    };
                    &&& next matches AfterCommit::Return((at, value, stats))
                    &&& at == ts
                    &&& value == self.value()
                    &&& stats.retries == self.retries().backoff.failures
                    &&& clock.is_told_by(stats)
                },
                Err(error) => {
                    &&& next matches AfterCommit::Judge(attempt)
                    &&& attempt.retries() == self.retries()
                    &&& attempt.spec_error() == error
                },
            },
    {
        match committed {
            Ok((ts, commit_end)) => {
                let clock = AttemptClock {
                    start: self.start,
                    run_end: self.run_end,
                    commit_end,
                    end,
                };
                let stats = clock.stats(self.ongoing.retries.backoff.failures);
                AfterCommit::Return((ts, self.value, stats))
            },
            Err(error) => AfterCommit::Judge(FailedAttempt { ongoing: self.ongoing, error }),
        }
    }
}

impl FailedAttempt {
    /// The loop that the attempt is part of.
    pub closed spec fn retries(self) -> RetryLoop {
        self.ongoing.retries
    }

    pub closed spec fn spec_error(self) -> DatabaseError {
        self.error
    }

    /// What is to be judged.
    pub fn error(&self) -> (error: &DatabaseError)
        ensures
            *error == self.spec_error(),
    {
        &self.error
    }

    /// Takes whether the caller judges that the transaction is to be tried again
    /// after the error. Where conflicts alone are tried again, the error itself
    /// decides, whatever the caller says.
    pub fn judged(self, retriable: bool) -> (next: AfterFailure)
        ensures
            next == if self.retries().retried.covers(self.spec_error(), retriable) {
                AfterFailure::Wait {
                    backoff: self.retries().backoff,
                    retries: self.retries().fail_with(self.spec_error()),
                }
            } else {
                AfterFailure::Return(self.spec_error())
            },
    {
        proof {
            use_type_invariant(&self.ongoing);
        }
        let before = self.ongoing.retries;
        let covered = match before.retried {
            Retried::Conflicts => self.error.is_occ(),
            Retried::Judged => retriable,
        };
        if !covered {
            return AfterFailure::Return(self.error);
        }
        let failures: u32 = before.backoff.failures + 1;
        AfterFailure::Wait {
            backoff: before.backoff,
            retries: RetryLoop {
                identity: before.identity,
                write_source: before.write_source,
                backoff: Backoff { failures, ..before.backoff },
                max_failures: before.max_failures,
                retried: before.retried,
                error: Some(self.error),
            },
        }
    }
}

/// What comes of an attempt, step by step. `retriable` is what the caller judges
/// of an error.
#[derive(Debug)]
pub enum Attempt<T> {
    /// No transaction could begin.
    NotBegun(DatabaseError),
    /// The transaction ran in vain.
    RunFailed { error: DatabaseError, retriable: bool },
    /// The transaction ran well and was committed in vain.
    CommitFailed { value: T, error: DatabaseError, retriable: bool },
    Committed { ts: Timestamp, value: T, clock: AttemptClock },
}

/// What is done while a transaction is tried.
#[derive(Clone, Copy, Debug, PartialEq, Eq, Structural)]
pub enum RetryAction {
    /// Begin the transaction of an attempt.
    Begin(usize),
    /// Stop at the pause point.
    Pause,
    /// Run the transaction of an attempt.
    Run(usize),
    /// Commit the transaction of an attempt.
    Commit(usize),
    /// Judge whether an error is one after which the transaction is tried again.
    Judge,
    /// Wait as long as the backoff says.
    Wait,
    /// Close the pause point.
    Close,
}

impl<T> Attempt<T> {
    /// Whether the transaction is tried once more, if it may be.
    pub open spec fn is_retriable(self) -> bool {
        match self {
            Attempt::RunFailed { retriable, .. } => retriable,
            Attempt::CommitFailed { retriable, .. } => retriable,
            _ => false,
        }
    }

    /// The attempt, with its error judged as a loop does that tries again after these
    /// errors.
    pub open spec fn judged_by(self, retried: Retried) -> Attempt<T> {
        match self {
            Attempt::RunFailed { error, retriable } => Attempt::RunFailed {
                error,
                retriable: retried.covers(error, retriable),
            },
            Attempt::CommitFailed { value, error, retriable } => Attempt::CommitFailed {
                value,
                error,
                retriable: retried.covers(error, retriable),
            },
            _ => self,
        }
    }

    /// Whether the transaction ran well.
    pub open spec fn ran_well(self) -> bool {
        self is CommitFailed || self is Committed
    }

    /// Why the attempt failed.
    pub open spec fn why(self) -> DatabaseError {
        match self {
            Attempt::NotBegun(error) => error,
            Attempt::RunFailed { error, .. } => error,
            Attempt::CommitFailed { error, .. } => error,
            Attempt::Committed { .. } => DatabaseError::NoErrorFromCommit,
        }
    }

    /// Whether `result` is what the attempt gives if nothing is tried after it.
    pub open spec fn gives(
        self,
        retries: int,
        result: Result<(Timestamp, T, OccRetryStats), DatabaseError>,
    ) -> bool {
        match self {
            Attempt::Committed { ts, value, clock } => {
                &&& result matches Ok((at, returned, stats))
                &&& at == ts
                &&& returned == value
                &&& stats.retries == retries
                &&& clock.is_told_by(stats)
            },
            _ => result == Err::<(Timestamp, T, OccRetryStats), DatabaseError>(self.why()),
        }
    }

    /// What is done in attempt `k`.
    pub open spec fn actions(self, k: int) -> Seq<RetryAction> {
        let begun = seq![
            RetryAction::Begin(k as usize),
            RetryAction::Pause,
            RetryAction::Run(k as usize),
        ];
        match self {
            Attempt::NotBegun(_) => seq![RetryAction::Begin(k as usize)],
            Attempt::RunFailed { retriable, .. } => if retriable {
                begun + seq![RetryAction::Judge, RetryAction::Wait]
            } else {
                begun + seq![RetryAction::Judge]
            },
            Attempt::CommitFailed { retriable, .. } => if retriable {
                begun + seq![
                    RetryAction::Commit(k as usize),
                    RetryAction::Judge,
                    RetryAction::Wait,
                ]
            } else {
                begun + seq![RetryAction::Commit(k as usize), RetryAction::Judge]
            },
            Attempt::Committed { .. } => begun + seq![RetryAction::Commit(k as usize)],
        }
    }
}

/// What is done in the first `n` attempts.
pub open spec fn actions_of<T>(attempts: Seq<Attempt<T>>, n: int) -> Seq<RetryAction>
    decreases n,
{
    if n <= 0 {
        Seq::empty()
    } else {
        actions_of(attempts, n - 1) + attempts[n - 1].actions(n - 1)
    }
}

/// What became of a transaction that was tried.
#[derive(Debug)]
pub struct RetryReport<T> {
    pub result: Result<(Timestamp, T, OccRetryStats), DatabaseError>,
    /// All that was done, in order.
    pub actions: Vec<RetryAction>,
}

/// The place of the first of `n` attempts that is not followed by another one,
/// or `n`.
pub open spec fn decided_at<T>(attempts: Seq<Attempt<T>>, from: int, n: int) -> int
    decreases n - from,
{
    if from >= n {
        n
    } else if attempts[from].is_retriable() {
        decided_at(attempts, from + 1, n)
    } else {
        from
    }
}

impl RetryLoop {
    /// Attempts, with their errors judged as the loop does.
    pub open spec fn judged<T>(self, attempts: Seq<Attempt<T>>) -> Seq<Attempt<T>> {
        attempts.map_values(|attempt: Attempt<T>| attempt.judged_by(self.retried))
    }

    /// Whether `report` tells what becomes of attempts whose errors are judged: the
    /// first one that is not
    /// tried again decides, with all those before it counted as retries. If there
    /// is none, the last attempt that is allowed gives the error, and only then
    /// is the pause point closed.
    pub open spec fn reports<T>(self, attempts: Seq<Attempt<T>>, report: RetryReport<T>) -> bool {
        let n = self.attempts_left();
        let k = decided_at(attempts, 0, n);
        if k < n {
            &&& attempts[k].gives(self.backoff.failures + k, report.result)
            &&& report.actions@ == actions_of(attempts, k + 1)
        } else {
            &&& report.actions@ == actions_of(attempts, n).push(RetryAction::Close)
            &&& report.result == Err::<(Timestamp, T, OccRetryStats), DatabaseError>(
                if n > 0 {
                    attempts[n - 1].why()
                } else {
                    self.last_error()
                },
            )
        }
    }

    /// Tries a transaction, where it is known beforehand what comes of each
    /// attempt.
    pub fn run<T>(self, attempts: Vec<Attempt<T>>) -> (report: RetryReport<T>)
        requires
            attempts.len() >= self.attempts_left(),
        ensures
            self.reports(self.judged(attempts@), report),
    {
        let ghost given = attempts@;
        let ghost all = self.judged(attempts@);
        let ghost n = self.attempts_left();
        let ghost before = self;
        let mut actions: Vec<RetryAction> = Vec::new();
        let mut retries = self;
        let mut k: usize = 0;
        #[verifier::loop_isolation(false)]
        for attempt in it: attempts
            invariant
                it.seq() == given,
                k == it.index(),
                it.index() <= n,
                actions@ == actions_of(all, it.index()),
                retries.max_failures == before.max_failures,
                retries.retried == before.retried,
                retries.backoff.failures == before.backoff.failures + it.index(),
                decided_at(all, 0, n) == decided_at(all, it.index(), n),
                it.index() == 0 ==> retries == before,
                it.index() > 0 ==> retries.error == Some(all[it.index() - 1].why()),
        {
            let ghost i = it.index();
            assert(attempt.judged_by(before.retried) == all[i]);
            let beginning = match retries.next() {
                RetryNext::Begin(beginning) => beginning,
                RetryNext::Exhausted(error) => {
                    actions.push(RetryAction::Close);
                    return RetryReport { result: Err(error), actions };
                },
            };
            match beginning.run(k, attempt, &mut actions) {
                Ok(next) => {
                    retries = next;
                },
                Err(result) => {
                    return RetryReport { result, actions };
                },
            }
            k = k + 1;
        }
        actions.push(RetryAction::Close);
        match retries.error {
            Some(error) => RetryReport { result: Err(error), actions },
            None => RetryReport { result: Err(DatabaseError::NoErrorFromCommit), actions },
        }
    }
}

impl BeginningAttempt {
    /// Makes attempt `k`, where it is known beforehand what comes of it: gives the
    /// loop to go on with, or the result.
    fn run<T>(self, k: usize, attempt: Attempt<T>, actions: &mut Vec<RetryAction>) -> (after:
        Result<RetryLoop, Result<(Timestamp, T, OccRetryStats), DatabaseError>>)
        ensures
            ({
                let judged = attempt.judged_by(self.retries().retried);
                &&& final(actions)@ == old(actions)@ + judged.actions(k as int)
                &&& match after {
                    Ok(retries) => {
                        &&& judged.is_retriable()
                        &&& retries == self.retries().fail_with(judged.why())
                    },
                    Err(result) => {
                        &&& !judged.is_retriable()
                        &&& judged.gives(self.retries().backoff.failures as int, result)
                    },
                }
            }),
    {
        let ghost expected = actions@ + attempt.judged_by(self.retries().retried).actions(
            k as int,
        );
        let unread = ClockReading(0);
        let no_clock = AttemptClock {
            start: unread,
            run_end: unread,
            commit_end: unread,
            end: unread,
        };
        let (begun, ran, committed, clock, retriable): (
            Result<usize, DatabaseError>,
            Option<Result<T, DatabaseError>>,
            Option<Result<Timestamp, DatabaseError>>,
            AttemptClock,
            bool,
        ) = match attempt {
            Attempt::NotBegun(error) => (Err(error), None, None, no_clock, false),
            Attempt::RunFailed { error, retriable } => (
                Ok(k),
                Some(Err(error)),
                None,
                no_clock,
                retriable,
            ),
            Attempt::CommitFailed { value, error, retriable } => (
                Ok(k),
                Some(Ok(value)),
                Some(Err(error)),
                no_clock,
                retriable,
            ),
            Attempt::Committed { ts, value, clock } => (
                Ok(k),
                Some(Ok(value)),
                Some(Ok(ts)),
                clock,
                false,
            ),
        };
        actions.push(RetryAction::Begin(k));
        let paused = match self.begun(begun) {
            AfterBegin::Pause(paused) => paused,
            AfterBegin::Return(error) => {
                assert(actions@ =~= expected);
                return Err(Err(error));
            },
        };
        actions.push(RetryAction::Pause);
        let running = paused.resumed(clock.start);
        actions.push(RetryAction::Run(running.transaction));
        let ran: Result<(T, ClockReading), DatabaseError> = match ran {
            Some(Ok(value)) => Ok((value, clock.run_end)),
            Some(Err(error)) => Err(error),
            None => Err(DatabaseError::NoErrorFromCommit),
        };
        let failed = match running.ran(ran) {
            AfterRun::Commit { transaction, write_source: _, attempt } => {
                actions.push(RetryAction::Commit(transaction));
                let committed: Result<(Timestamp, ClockReading), DatabaseError> = match committed {
                    Some(Ok(ts)) => Ok((ts, clock.commit_end)),
                    Some(Err(error)) => Err(error),
                    None => Err(DatabaseError::NoErrorFromCommit),
                };
                match attempt.committed(committed, clock.end) {
                    AfterCommit::Return(result) => {
                        assert(actions@ =~= expected);
                        return Err(Ok(result));
                    },
                    AfterCommit::Judge(failed) => failed,
                }
            },
            AfterRun::Judge(failed) => failed,
        };
        actions.push(RetryAction::Judge);
        match failed.judged(retriable) {
            AfterFailure::Wait { backoff: _, retries } => {
                actions.push(RetryAction::Wait);
                assert(actions@ =~= expected);
                Ok(retries)
            },
            AfterFailure::Return(error) => {
                assert(actions@ =~= expected);
                Err(Err(error))
            },
        }
    }
}

/// A vector search while it is tried.
#[derive(Debug)]
pub struct VectorSearchLoop {
    pub backoff: Backoff,
}

/// What is to be done after an attempt at a vector search.
#[derive(Debug)]
pub enum VectorSearchOutcome<T> {
    /// Wait as long as the backoff says, then search again at what is then the
    /// latest timestamp.
    Wait(VectorSearchLoop),
    Return(Result<T, DatabaseError>),
}

impl VectorSearchLoop {
    /// Whether this is a search that was not tried yet.
    pub open spec fn is_new(self) -> bool {
        self.backoff == (Backoff {
            initial_millis: INITIAL_VECTOR_BACKOFF_MILLIS,
            max_millis: MAX_VECTOR_BACKOFF_MILLIS,
            failures: 0,
        })
    }

    /// A search that was not tried yet.
    pub fn new() -> (search: VectorSearchLoop)
        ensures
            search.is_new(),
    {
        VectorSearchLoop {
            backoff: Backoff::new(INITIAL_VECTOR_BACKOFF_MILLIS, MAX_VECTOR_BACKOFF_MILLIS),
        }
    }

    /// Takes what came of an attempt. A search is tried again where there was too
    /// much to do at the moment and an attempt is left.
    pub fn after<T>(self, result: Result<T, DatabaseError>) -> (outcome: VectorSearchOutcome<T>)
        requires
            self.backoff.failures < MAX_VECTOR_ATTEMPTS,
        ensures
            if is_busy(result) && self.backoff.failures + 1 < MAX_VECTOR_ATTEMPTS {
                outcome == VectorSearchOutcome::<T>::Wait(
                    VectorSearchLoop { backoff: self.backoff.failed() },
                )
            } else {
                outcome == VectorSearchOutcome::Return(result)
            },
    {
        match result {
            Ok(found) => VectorSearchOutcome::Return(Ok(found)),
            Err(error) => if error.is_overloaded() {
                let failures: u32 = self.backoff.failures + 1;
                if failures >= MAX_VECTOR_ATTEMPTS {
                    VectorSearchOutcome::Return(Err(error))
                } else {
                    VectorSearchOutcome::Wait(
                        VectorSearchLoop { backoff: Backoff { failures, ..self.backoff } },
                    )
                }
            } else {
                VectorSearchOutcome::Return(Err(error))
            },
        }
    }

    /// Searches, where it is known beforehand what comes of each attempt. Also
    /// tells how often it was waited.
    pub fn search<T>(self, results: Vec<Result<T, DatabaseError>>) -> (outcome: (
        Result<T, DatabaseError>,
        usize,
    ))
        requires
            self.backoff.failures == 0,
            results.len() >= MAX_VECTOR_ATTEMPTS,
        ensures
            ({
                let k = answered_at(results@, 0, MAX_VECTOR_ATTEMPTS - 1);
                outcome == (results@[k], k as usize)
            }),
    {
        let ghost all = results@;
        let ghost n = MAX_VECTOR_ATTEMPTS - 1;
        let mut search = self;
        let mut waits: usize = 0;
        #[verifier::loop_isolation(false)]
        for result in it: results
            invariant
                it.seq() == all,
                waits == it.index(),
                it.index() <= n,
                search.backoff.failures == it.index(),
                answered_at(all, 0, n) == answered_at(all, it.index(), n),
        {
            assert(result == all[it.index()]);
            match search.after(result) {
                VectorSearchOutcome::Return(answer) => {
                    return (answer, waits);
                },
                VectorSearchOutcome::Wait(next) => {
                    waits = waits + 1;
                    search = next;
                },
            }
        }
        assert(false);
        (Err(DatabaseError::NoErrorFromCommit), waits)
    }
}

/// Whether there was too much to do for a search.
pub open spec fn is_busy<T>(result: Result<T, DatabaseError>) -> bool {
    result matches Err(error) && error.spec_is_overloaded()
}

/// The place of the first of `n` results that is an answer, or `n`.
pub open spec fn answered_at<T>(results: Seq<Result<T, DatabaseError>>, from: int, n: int) -> int
    decreases n - from,
{
    if from >= n {
        n
    } else if is_busy(results[from]) {
        answered_at(results, from + 1, n)
    } else {
        from
    }
}

} // verus!
