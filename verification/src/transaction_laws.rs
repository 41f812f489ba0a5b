//! With what transactions begin, and how the database changes.

use crate::database::{Database, DatabaseChange, PendingTransaction, TransactionStart};
use crate::errors::{DatabaseError, ServiceError};
use crate::filters::lemma_filter_last;
use crate::ids::Timestamp;
use crate::registry::Snapshot;
use vstd::prelude::*;

verus! {

/// The largest number that a timestamp may hold is that of a signed number of 64 bits.
/// Every smaller one is followed by the next number.
pub proof fn law_timestamps_follow_each_other(ts: Timestamp)
    ensures
        ts.0 < 0x7fff_ffff_ffff_ffff ==> ts.spec_succ() is Some && ts.spec_succ()->0 .0 == ts.0 + 1,
        ts.0 >= 0x7fff_ffff_ffff_ffff ==> ts.spec_succ() is None,
{
}

/// A transaction begins with what it was to begin with and with the snapshot that was
/// found. Its documents are created right after what can be read, or at the time of the
/// clock where that is later.
pub proof fn law_transaction_begins_with_what_was_found<U>(
    pending: PendingTransaction<U>,
    snapshot: Snapshot,
    now: Timestamp,
    start: Result<TransactionStart<U>, DatabaseError>,
)
    requires
        pending.latest_ts.0 < 0x7fff_ffff_ffff_ffff,
        pending.begins(Ok(snapshot), Ok(now), start),
    ensures
        start is Ok,
        start->Ok_0.identity == pending.identity,
        start->Ok_0.repeatable_ts == pending.repeatable_ts,
        start->Ok_0.usage_tracker == pending.usage_tracker,
        start->Ok_0.snapshot == snapshot,
        now.0 <= pending.latest_ts.0 ==> start->Ok_0.begin_ts.0 == pending.latest_ts.0 + 1,
        now.0 > pending.latest_ts.0 ==> start->Ok_0.begin_ts == now,
{
}

/// A transaction does not begin where no snapshot was found for it, where nothing can be
/// later than what can be read, or where the clock gave no time. Of these the first one
/// is the error.
pub proof fn law_transaction_fails_to_begin<U>(
    pending: PendingTransaction<U>,
    snapshot: Result<Snapshot, ServiceError>,
    generated: Result<Timestamp, ServiceError>,
    start: Result<TransactionStart<U>, DatabaseError>,
)
    requires
        pending.begins(snapshot, generated, start),
    ensures
        snapshot is Err ==> {
            &&& start is Err
            &&& start->Err_0 == DatabaseError::Service(snapshot->Err_0)
        },
        snapshot is Ok && pending.latest_ts.0 >= 0x7fff_ffff_ffff_ffff ==> {
            &&& start is Err
            &&& start->Err_0 is TimestampOverflow
        },
        snapshot is Ok && pending.latest_ts.0 < 0x7fff_ffff_ffff_ffff && generated is Err ==> {
            &&& start is Err
            &&& start->Err_0 == DatabaseError::Service(generated->Err_0)
        },
{
}

/// What is read after a change is what was published, and what was read before
/// otherwise.
pub proof fn law_reads_see_what_was_published<RT, S>(
    database: Database<RT, S>,
    change: DatabaseChange<S>,
)
    ensures
        match change {
            DatabaseChange::Publish { ts, snapshot } => {
                &&& database.changed(change).latest_ts == ts
                &&& database.changed(change).latest == snapshot
            },
            _ => {
                &&& database.changed(change).latest_ts == database.latest_ts
                &&& database.changed(change).latest == database.latest
            },
        },
        database.changed(change).runtime == database.runtime,
        database.changed(change).bootstrap_metadata == database.bootstrap_metadata,
        database.changed(change).persistence_version == database.persistence_version,
{
}

/// Whether a change is the commit of a transaction that wrote and succeeded.
pub open spec fn is_write_commit<S>(change: DatabaseChange<S>) -> bool {
    change matches DatabaseChange::Commit { readonly, result } && !readonly && result is Ok
}

/// A predicate for the commits of transactions that wrote and succeeded.
pub open spec fn write_commits<S>() -> spec_fn(DatabaseChange<S>) -> bool {
    |change: DatabaseChange<S>| is_write_commit(change)
}

/// As many transactions are counted as wrote and succeeded, whatever else was done, for
/// as long as there are numbers to count with.
pub proof fn law_write_commits_are_counted<RT, S>(
    database: Database<RT, S>,
    changes: Seq<DatabaseChange<S>>,
)
    requires
        database.write_commits_since_load + changes.filter(write_commits()).len() <= usize::MAX,
    ensures
        database.changed_all(changes).write_commits_since_load
            == database.write_commits_since_load + changes.filter(write_commits()).len(),
    decreases changes.len(),
{
    lemma_filter_last(changes, write_commits());
    if changes.len() > 0 {
        law_write_commits_are_counted(database, changes.drop_last());
    }
}

/// After the largest number, counting begins anew.
pub proof fn law_count_begins_anew<RT, S>(database: Database<RT, S>, change: DatabaseChange<S>)
    requires
        database.write_commits_since_load == usize::MAX,
        is_write_commit(change),
    ensures
        database.changed(change).write_commits_since_load == 0,
{
}

/// What is read after changes is what was published last.
pub proof fn law_reads_see_what_was_published_last<RT, S>(
    database: Database<RT, S>,
    changes: Seq<DatabaseChange<S>>,
    i: int,
)
    requires
        0 <= i < changes.len(),
        changes[i] is Publish,
        forall|j: int| i < j < changes.len() ==> !(#[trigger] changes[j] is Publish),
    ensures
        database.changed_all(changes).latest_ts == changes[i]->ts,
        database.changed_all(changes).latest == changes[i]->snapshot,
    decreases changes.len(),
{
    if i < changes.len() - 1 {
        let front = changes.drop_last();
        assert(!(changes[changes.len() - 1] is Publish));
        assert forall|j: int| i < j < front.len() implies !(#[trigger] front[j] is Publish) by {
            assert(front[j] == changes[j]);
        }
        law_reads_see_what_was_published_last(database, front, i);
    }
}

/// What came of a commit is passed on.
pub proof fn law_passing_on_what_came_of_a_commit<RT, S>(
    database: &mut Database<RT, S>,
    readonly: bool,
    result: Result<Timestamp, ServiceError>,
    committed: Result<Timestamp, DatabaseError>,
)
    requires
        call_ensures(
            Database::<RT, S>::commit_with_write_source,
            (database, readonly, result),
            committed,
        ),
    ensures
        committed is Ok <==> result is Ok,
        result is Ok ==> committed->Ok_0 == result->Ok_0,
        result is Err ==> committed->Err_0 == DatabaseError::Service(result->Err_0),
{
}

} // verus!
