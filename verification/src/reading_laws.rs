//! How tables and the history are read, and how failures on the way are told.

use crate::database::{Database, PersistenceVersion};
use crate::deltas::{DeltasCollector, DeltasEvent, DeltasOutcome, DeltasRequest};
use crate::errors::{DatabaseError, ErrorMetadata, ServiceError};
use crate::ids::{IndexId, TableId, Timestamp};
use crate::initial_writes::{InitialEvent, InitialOutcome, InitialWrites};
use crate::initialize::Initializer;
use crate::listing::{ListingEvent, ListingOutcome, SnapshotLister};
use crate::lookup_laws::{
    is_first_in_use, law_first_enabled_index_with_id_is_found, law_first_index_in_use_is_found,
    law_no_index_is_found_where_none_is_in_use, law_no_index_is_found_under_other_ids, none_in_use,
};
use crate::meta_ids::BootstrapMetadata;
use crate::metadata::{ScanRow, VirtualTableMetadata};
use crate::names::TableName;
use crate::registry::{IndexEntry, IndexRegistry, Snapshot, TableSummaries};
use crate::scan::{HistoryScan, RowQuota, TableScan};
use crate::snapshot::{
    DatabaseSnapshot, FullScan, IndexDocumentsLoad, SnapshotLoad, TableAndIndexMetadata,
    TableDocumentsLoad,
};
use crate::table_mapping::TableMapping;
use crate::text::decimal_chars;
use vstd::prelude::*;

verus! {

/// The change feed is read from right behind its cursor up to where the transaction began,
/// over all tables, and from the first change to the last.
pub proof fn law_reading_the_history<D>(
    request: DeltasRequest,
    upper_bound: Timestamp,
    mapping: TableMapping,
    collector: DeltasCollector<D>,
    scan: HistoryScan,
)
    requires
        call_ensures(
            DeltasRequest::start::<D>,
            (request, upper_bound, mapping),
            Ok(collector),
        ),
        call_ensures(DeltasCollector::<D>::scan, (&collector,), scan),
    ensures
        scan.table_id is None,
        scan.last_ts == upper_bound,
        scan.order is Asc,
        request.cursor is None ==> scan.first_ts.0 == 0,
        request.cursor matches Some(cursor) ==> scan.first_ts.0 == cursor.0 + 1,
{
}

/// A history that is no longer kept is told as a bad request, with the first timestamp that
/// was to be read. All other failures are passed on.
pub proof fn law_failing_to_read_the_history<D>(
    request: DeltasRequest,
    upper_bound: Timestamp,
    mapping: TableMapping,
    collector: DeltasCollector<D>,
    error: ServiceError,
    outcome: DeltasOutcome<D>,
)
    requires
        call_ensures(
            DeltasRequest::start::<D>,
            (request, upper_bound, mapping),
            Ok(collector),
        ),
        call_ensures(DeltasCollector::<D>::step, (collector, DeltasEvent::Failed(error)), outcome),
    ensures
        ({
            let first: nat = match request.cursor {
                Some(cursor) => cursor.0 as nat + 1,
                None => 0,
            };
            &&& outcome is Failed
            &&& !error.out_of_retention ==> outcome->Failed_0 == DatabaseError::Service(error)
            &&& error.out_of_retention ==> {
                &&& outcome->Failed_0 matches DatabaseError::Metadata(
                    ErrorMetadata::BadRequest { short_msg, msg },
                )
                &&& short_msg@ == "InvalidWindowToReadDocuments"@
                &&& msg@ == "Timestamp "@ + decimal_chars(first) + " is too old"@
            }
        }),
{
}

/// A listing reads no faster than a hundred documents a second, and passes failures on.
pub proof fn law_reading_listings<D>(
    lister: SnapshotLister<D>,
    quota: RowQuota,
    error: ServiceError,
    outcome: ListingOutcome<D>,
)
    requires
        call_ensures(SnapshotLister::<D>::quota, (), quota),
        call_ensures(SnapshotLister::<D>::step, (lister, ListingEvent::Failed(error)), outcome),
    ensures
        quota.burst == 100,
        quota.replenish_nanos == 10_000_000,
        outcome is Failed,
        outcome->Failed_0 == DatabaseError::Service(error),
{
}

/// So many documents a second are all that may come at once, and then one in each part of a
/// second.
pub proof fn law_documents_a_second(rows: u32, quota: RowQuota)
    requires
        rows > 0,
        call_ensures(RowQuota::per_second, (rows,), quota),
    ensures
        quota.burst == rows,
        quota.replenish_nanos * rows <= 1_000_000_000 < (quota.replenish_nanos + 1) * rows,
{
    let n = rows as int;
    let each = quota.replenish_nanos as int;
    assert(each == 1_000_000_000int / n);
    assert(each * n <= 1_000_000_000 < (each + 1) * n) by (nonlinear_arith)
        requires
            each == 1_000_000_000int / n,
            n > 0,
    ;
}

/// The changes of one table are read from the first one to the last.
pub proof fn law_reading_changes_of_a_table<RT, S>(
    database: Database<RT, S>,
    table_id: TableId,
    first_ts: Timestamp,
    last_ts: Timestamp,
    scan: HistoryScan,
)
    requires
        call_ensures(
            Database::<RT, S>::load_documents_in_table,
            (&database, table_id, first_ts, last_ts),
            scan,
        ),
    ensures
        scan.table_id == Some(table_id),
        scan.first_ts == first_ts,
        scan.last_ts == last_ts,
        scan.order is Asc,
{
}

/// A table of a snapshot is walked at the snapshot's time, through the first index over
/// document ids that is in use on it, a thousand documents at a time.
pub proof fn law_walking_tables_of_a_snapshot(
    snapshot: DatabaseSnapshot,
    table_id: TableId,
    result: Result<TableScan, DatabaseError>,
    i: int,
)
    requires
        call_ensures(DatabaseSnapshot::full_table_scan, (&snapshot, table_id), result),
    ensures
        is_first_in_use(snapshot.snapshot.index_registry, table_id, "by_id"@, i) ==> {
            &&& result matches Ok(scan)
            &&& scan.by_id == snapshot.snapshot.index_registry.indexes@[i].id
            &&& scan.table_id == table_id
            &&& scan.cursor is None
            &&& scan.iterator.snapshot_ts == snapshot.ts
            &&& scan.iterator.page_size == 1000
        },
        none_in_use(snapshot.snapshot.index_registry, table_id, "by_id"@) ==> {
            &&& result is Err
            &&& result->Err_0 == (DatabaseError::ByIdNotFound { table_id })
        },
{
    let registry = snapshot.snapshot.index_registry;
    law_no_index_is_found_where_none_is_in_use(registry, table_id, "by_id"@);
    if is_first_in_use(registry, table_id, "by_id"@, i) {
        law_first_index_in_use_is_found(registry, table_id, "by_id"@, i);
    }
}

/// The index table is read before the tables table, each at the same time, through the
/// index over document ids that the metadata names, smallest ids first.
pub proof fn law_reading_metadata_of_a_snapshot<I>(
    ts: Timestamp,
    metadata: BootstrapMetadata,
    load: IndexDocumentsLoad,
    scan: FullScan,
    rows: Vec<Result<ScanRow<I>, ServiceError>>,
    then_load: TableDocumentsLoad<I>,
    then_scan: FullScan,
)
    requires
        call_ensures(
            DatabaseSnapshot::load_table_and_index_metadata,
            (ts, metadata),
            load,
        ),
        call_ensures(IndexDocumentsLoad::scan, (&load,), scan),
        call_ensures(IndexDocumentsLoad::rows::<I>, (load, rows), Ok(then_load)),
        call_ensures(TableDocumentsLoad::<I>::scan, (&then_load,), then_scan),
    ensures
        scan.ts == ts,
        scan.index_id == metadata.index_by_id,
        scan.table_id == metadata.index_table_id,
        scan.order is Asc,
        then_scan.ts == ts,
        then_scan.index_id == metadata.tables_by_id,
        then_scan.table_id == metadata.tables_table_id,
        then_scan.order is Asc,
{
}

/// A snapshot that is loaded holds what it was loaded from, and its search indexes are still
/// to be filled.
pub proof fn law_loading_a_snapshot<I>(
    metadata: TableAndIndexMetadata<I>,
    virtual_tables_table: TableName,
    registry: IndexRegistry,
    version: PersistenceVersion,
    summaries: TableSummaries,
    num_rows: usize,
    load: SnapshotLoad,
    rows: Vec<Result<ScanRow<Result<VirtualTableMetadata, ServiceError>>, ServiceError>>,
    loaded: DatabaseSnapshot,
)
    requires
        call_ensures(
            DatabaseSnapshot::load::<I>,
            (metadata, &virtual_tables_table, registry, version, summaries, num_rows),
            Ok(load),
        ),
        call_ensures(SnapshotLoad::finish, (load, rows), Ok(loaded)),
    ensures
        loaded.ts == metadata.ts,
        loaded.bootstrap_metadata == metadata.bootstrap_metadata,
        loaded.snapshot.table_registry.table_mapping == metadata.table_mapping,
        loaded.snapshot.table_registry.table_states == metadata.table_states,
        loaded.snapshot.index_registry == registry,
        loaded.snapshot.table_summaries == summaries,
        loaded.summaries_num_rows == num_rows,
        loaded.snapshot.search_indexes.state is Bootstrapping,
        loaded.snapshot.search_indexes.persistence_version == version,
{
}

/// A text search uses the first enabled index that has its id.
pub proof fn law_beginning_a_text_search<RT, S>(
    database: Database<RT, S>,
    snapshot: Snapshot,
    id: IndexId,
    result: Result<&IndexEntry, DatabaseError>,
    i: int,
)
    requires
        call_ensures(
            Database::<RT, S>::search_with_compiled_query,
            (&database, &snapshot, id),
            result,
        ),
    ensures
        ({
            let indexes = snapshot.index_registry.indexes@;
            &&& ({
                &&& 0 <= i < indexes.len()
                &&& indexes[i].enabled
                &&& indexes[i].id == id
                &&& forall|j: int|
                    0 <= j < i ==> !((#[trigger] indexes[j]).enabled && indexes[j].id == id)
            }) ==> result is Ok && *result->Ok_0 == indexes[i]
            &&& (forall|j: int|
                0 <= j < indexes.len() && (#[trigger] indexes[j]).enabled ==> indexes[j].id != id)
                ==> result is Err && result->Err_0 == (DatabaseError::MissingIndex {
                index_id: id,
            })
        }),
{
    let registry = snapshot.index_registry;
    let indexes = registry.indexes@;
    if forall|j: int|
        0 <= j < indexes.len() && (#[trigger] indexes[j]).enabled ==> indexes[j].id != id {
        law_no_index_is_found_under_other_ids(registry, id);
    }
    if 0 <= i < indexes.len() && indexes[i].enabled && indexes[i].id == id && (forall|j: int|
        0 <= j < i ==> !((#[trigger] indexes[j]).enabled && indexes[j].id == id)) {
        law_first_enabled_index_with_id_is_found(registry, id, i);
    }
}

/// Changes of indexes are kept in the order in which they come, all at the first timestamp,
/// and a failure ends the writing of a fresh database.
pub proof fn law_keeping_changes_of_indexes<U>(
    writes: InitialWrites<U>,
    updates: Vec<U>,
    after: InitialWrites<U>,
    error: ServiceError,
    outcome: InitialOutcome<U>,
    i: int,
)
    requires
        writes.spec_action() is UpdateIndexes,
        writes.position() > 1,
        call_ensures(
            InitialWrites::<U>::step,
            (writes, InitialEvent::Updates(updates)),
            InitialOutcome::More(after),
        ),
        call_ensures(InitialWrites::<U>::step, (writes, InitialEvent::Failed(error)), outcome),
    ensures
        ({
            let before = writes.spec_index_writes();
            let kept = after.spec_index_writes();
            &&& kept.len() == before.len() + updates@.len()
            &&& 0 <= i < before.len() ==> kept[i] == before[i]
            &&& 0 <= i < updates@.len() ==> kept[before.len() + i].0.0 == 0
            &&& 0 <= i < updates@.len() ==> kept[before.len() + i].1 == updates@[i]
        }),
        after.position() == writes.position() + 1,
        outcome is Failed,
        outcome->Failed_0 == DatabaseError::Service(error),
{
}

/// The writing of a fresh database begins with nothing written.
pub proof fn law_beginning_to_write<U>(initializer: Initializer, writes: InitialWrites<U>)
    requires
        call_ensures(InitialWrites::<U>::new, (initializer,), writes),
    ensures
        writes.position() == 0,
        writes.spec_index_writes().len() == 0,
        writes.spec_plan() is None,
        writes.config() == initializer.config(),
        writes.ids() == initializer.ids(),
{
}

} // verus!
