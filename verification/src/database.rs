//! What the database knows of itself, and what it makes of requests.

use crate::deltas::DeltasRequest;
use crate::errors::{refuses, unauthorized_error, DatabaseError, ServiceError};
use crate::identity::Identity;
use crate::ids::{TableId, Timestamp};
use crate::initial_writes::Initialized;
use crate::listing::ListingRequest;
use crate::meta_ids::BootstrapMetadata;
use crate::metadata::{
    active_mapping_of, active_table_mapping, all_ok, by_id_indexes, by_id_indexes_of, collect_rows,
    is_first_failure, ok_values, ParsedDocument, TableMetadata,
};
use crate::name_map::NameMap;
use crate::names::{is_system_name, TableName, TabletIndexName, BY_ID};
use crate::occ::WriteSource;
use crate::registry::{IndexRegistry, Snapshot, TableSummary};
use crate::retry::{Backoff, Retried, RetryLoop, VectorSearchLoop};
use crate::scan::{ByIdIndexes, HistoryScan, Order, RowQuota, TableIterator, TableScan};
use crate::snapshot::DatabaseSnapshot;
use crate::sorted_names::{in_name_order, insert_name};
use crate::storage::{sums_fit, VectorIndexSize};
use crate::table_mapping::TableMapping;
use crate::text::texts;
use std::collections::BTreeMap;
use vstd::prelude::*;

verus! {

/// How documents are laid out in persistence.
#[derive(Clone, Copy, Debug, PartialEq, Eq, Structural)]
pub struct PersistenceVersion(pub u32);

/// The database at the latest point of its history that can be read.
#[derive(Debug)]
pub struct Database<RT, S> {
    pub runtime: RT,
    /// What is read now is read at this timestamp.
    pub latest_ts: Timestamp,
    pub latest: Snapshot,
    /// How many transactions that wrote were committed since the load.
    pub write_commits_since_load: usize,
    /// Where search indexes are kept. It is set once, some time after the load.
    pub search_storage: Option<S>,
    pub bootstrap_metadata: BootstrapMetadata,
    pub persistence_version: PersistenceVersion,
}

/// The sizes of tables, to be written down.
#[derive(Debug)]
pub struct TableSummarySnapshot {
    pub tables: BTreeMap<u128, TableSummary>,
    pub ts: Timestamp,
}

/// How a load begins.
#[derive(Debug)]
pub enum LoadStart {
    /// The system tables are to be written before anything is read.
    Initialize(FreshDatabase),
    /// The database is to be read.
    Read(WrittenDatabase),
}

/// A database without system tables.
#[derive(Debug)]
pub struct FreshDatabase {
    empty: (),
}

/// A database with system tables.
#[derive(Debug)]
pub struct WrittenDatabase {
    written: (),
}

/// A database while it is loaded.
#[derive(Debug)]
pub struct DatabaseLoad {
    original_max_ts: Timestamp,
}

impl FreshDatabase {
    /// Takes what came of writing the system tables. Only a database that was
    /// written is read.
    pub fn initialized(self, result: Result<Initialized, DatabaseError>) -> (database: Result<
        WrittenDatabase,
        DatabaseError,
    >)
        ensures
            match result {
                Ok(_) => database is Ok,
                Err(error) => database == Err::<WrittenDatabase, DatabaseError>(error),
            },
    {
        match result {
            Ok(_) => Ok(WrittenDatabase { written: () }),
            Err(error) => Err(error),
        }
    }
}

impl WrittenDatabase {
    /// Begins to read the database. `latest` is the timestamp of the last document,
    /// if there is any.
    pub fn read(self, latest: Option<Timestamp>) -> (load: Result<DatabaseLoad, DatabaseError>)
        ensures
            match load {
                Ok(l) => latest == Some(l.original_max_ts()),
                Err(error) => latest is None && error is NoDocuments,
            },
    {
        match DatabaseSnapshot::max_ts(latest) {
            Ok(original_max_ts) => Ok(DatabaseLoad { original_max_ts }),
            Err(error) => Err(error),
        }
    }
}

impl DatabaseLoad {
    /// The timestamp of the last document that was written before the snapshot is
    /// loaded.
    pub closed spec fn original_max_ts(self) -> Timestamp {
        self.original_max_ts
    }

    /// Ends a load with the snapshot that was loaded. The history must not have
    /// gone on meanwhile. Where table summaries had to be brought up to date,
    /// they are to be written down.
    pub fn finish<RT, S>(
        self,
        latest: Option<Timestamp>,
        loaded: DatabaseSnapshot,
        runtime: RT,
        persistence_version: PersistenceVersion,
    ) -> (result: Result<(Database<RT, S>, Option<TableSummarySnapshot>), DatabaseError>)
        ensures
            match result {
                Ok((database, summaries)) => {
                    &&& latest == Some(self.original_max_ts())
                    &&& database.runtime == runtime
                    &&& database.latest_ts == loaded.ts
                    &&& database.latest == loaded.snapshot
                    &&& database.write_commits_since_load == 0
                    &&& database.search_storage is None
                    &&& database.bootstrap_metadata == loaded.bootstrap_metadata
                    &&& database.persistence_version == persistence_version
                    &&& match summaries {
                        Some(written) => {
                            &&& loaded.summaries_num_rows > 0
                            &&& written.ts == loaded.ts
                            &&& written.tables@ == loaded.snapshot.table_summaries.tables@
                        },
                        None => loaded.summaries_num_rows == 0,
                    }
                },
                Err(error) => match latest {
                    None => error is NoDocuments,
                    Some(at_end) => {
                        &&& at_end != self.original_max_ts()
                        &&& error == (DatabaseError::RaceWhileLoading {
                            at_start: self.original_max_ts(),
                            at_end,
                        })
                    },
                },
            },
    {
        let max_ts = match DatabaseSnapshot::max_ts(latest) {
            Ok(ts) => ts,
            Err(error) => {
                return Err(error);
            },
        };
        if self.original_max_ts != max_ts {
            return Err(
                DatabaseError::RaceWhileLoading {
                    at_start: self.original_max_ts,
                    at_end: max_ts,
                },
            );
        }
        let summaries = if loaded.summaries_num_rows > 0 {
            Some(
                TableSummarySnapshot {
                    tables: loaded.snapshot.table_summaries.tables.clone(),
                    ts: loaded.ts,
                },
            )
        } else {
            None
        };
        let database = Database {
            runtime,
            latest_ts: loaded.ts,
            latest: loaded.snapshot,
            write_commits_since_load: 0,
            search_storage: None,
            bootstrap_metadata: loaded.bootstrap_metadata,
            persistence_version,
        };
        Ok((database, summaries))
    }
}

/// How many documents are read at a time while metadata of a point of the history
/// is read.
pub const METADATA_PAGE_SIZE: usize = 100;

/// How many documents a second are read while metadata of a point of the history
/// is read.
pub const METADATA_ROWS_PER_SECOND: u32 = 1000;

/// The documents of a metadata table are to be read as they were at a point of
/// the history.
#[derive(Clone, Copy, Debug, PartialEq, Eq)]
pub struct MetadataScan {
    pub scan: TableScan,
    pub quota: RowQuota,
}

impl MetadataScan {
    /// Whether this is the scan of a table, with the index that the registry has
    /// for it now.
    pub open spec fn is_scan_of(
        self,
        table_id: TableId,
        ts: Timestamp,
        registry: IndexRegistry,
    ) -> bool {
        &&& self.scan == (TableScan {
            iterator: TableIterator { snapshot_ts: ts, page_size: METADATA_PAGE_SIZE },
            table_id,
            by_id: registry.enabled(table_id, BY_ID@).id,
            cursor: None,
        })
        &&& self.quota.is_per_second(METADATA_ROWS_PER_SECOND as int)
    }

    /// The active tables that the documents of the tables table describe, or the
    /// first failure among them.
    pub fn table_mapping(rows: Vec<Result<ParsedDocument<TableMetadata>, ServiceError>>) -> (mapping:
        Result<TableMapping, DatabaseError>)
        ensures
            match mapping {
                Ok(m) => all_ok(rows@) && m@ == active_mapping_of(ok_values(rows@)),
                Err(error) => {
                    &&& !all_ok(rows@)
                    &&& error matches DatabaseError::Service(e)
                    &&& is_first_failure(rows@, e)
                },
            },
    {
        match collect_rows(rows) {
            Ok(documents) => Ok(active_table_mapping(documents)),
            Err(error) => Err(DatabaseError::Service(error)),
        }
    }

    /// The indexes over document ids that the documents of the index table name,
    /// or the first failure among them.
    pub fn by_id_indexes(
        rows: Vec<Result<ParsedDocument<TabletIndexName>, ServiceError>>,
    ) -> (indexes: Result<ByIdIndexes, DatabaseError>)
        ensures
            match indexes {
                Ok(found) => all_ok(rows@) && found@ == by_id_indexes_of(ok_values(rows@)),
                Err(error) => {
                    &&& !all_ok(rows@)
                    &&& error matches DatabaseError::Service(e)
                    &&& is_first_failure(rows@, e)
                },
            },
    {
        match collect_rows(rows) {
            Ok(documents) => Ok(by_id_indexes(&documents)),
            Err(error) => Err(DatabaseError::Service(error)),
        }
    }
}

/// A table that is to be walked, once its index over document ids is known.
#[derive(Debug)]
pub struct TableWalk {
    pub iterator: TableIterator,
    pub table_id: TableId,
    pub table_name: TableName,
}

impl TableWalk {
    /// The walk over the table's documents.
    pub fn scan(self, by_id_indexes: &ByIdIndexes) -> (scan: Result<TableScan, DatabaseError>)
        ensures
            match scan {
                Ok(s) => {
                    &&& by_id_indexes@.contains_key(self.table_id)
                    &&& s == (TableScan {
                        iterator: self.iterator,
                        table_id: self.table_id,
                        by_id: by_id_indexes@[self.table_id],
                        cursor: None,
                    })
                },
                Err(error) => {
                    &&& !by_id_indexes@.contains_key(self.table_id)
                    &&& error == (DatabaseError::ByIdNotFoundForName {
                        table_name: self.table_name,
                    })
                },
            },
    {
        match by_id_indexes.get(self.table_id) {
            Some(by_id) => Ok(
                TableScan {
                    iterator: self.iterator,
                    table_id: self.table_id,
                    by_id,
                    cursor: None,
                },
            ),
            None => Err(DatabaseError::ByIdNotFoundForName { table_name: self.table_name }),
        }
    }
}

/// A transaction that is about to begin at a point of the history that can be
/// read.
#[derive(Debug)]
pub struct PendingTransaction<U> {
    pub identity: Identity,
    pub repeatable_ts: Timestamp,
    /// What was the latest timestamp that could be read.
    pub latest_ts: Timestamp,
    pub usage_tracker: U,
}

/// A transaction whose snapshot was found. The clock is to be read for it.
#[derive(Debug)]
pub struct FoundTransaction<U> {
    pub pending: PendingTransaction<U>,
    pub snapshot: Snapshot,
    /// The first timestamp that cannot be read yet.
    pub next_ts: Timestamp,
}

/// What a transaction begins with.
#[derive(Debug)]
pub struct TransactionStart<U> {
    pub identity: Identity,
    /// The transaction reads at this timestamp.
    pub repeatable_ts: Timestamp,
    /// The transaction's documents are created at this timestamp.
    pub begin_ts: Timestamp,
    pub snapshot: Snapshot,
    pub usage_tracker: U,
}

/// The later one of the first timestamp that cannot be read yet and the one that
/// the clock gave.
pub open spec fn begin_ts(next: Timestamp, now: Timestamp) -> Timestamp {
    if next.0 >= now.0 {
        next
    } else {
        now
    }
}

impl<U> PendingTransaction<U> {
    /// Whether `start` is what becomes of the transaction.
    pub open spec fn begins(
        self,
        snapshot: Result<Snapshot, ServiceError>,
        generated: Result<Timestamp, ServiceError>,
        start: Result<TransactionStart<U>, DatabaseError>,
    ) -> bool {
        match (snapshot, self.latest_ts.spec_succ(), generated) {
            (Err(error), _, _) => start == Err::<TransactionStart<U>, DatabaseError>(
                DatabaseError::Service(error),
            ),
            (Ok(_), None, _) => start matches Err(DatabaseError::TimestampOverflow),
            (Ok(_), Some(_), Err(error)) => start == Err::<TransactionStart<U>, DatabaseError>(
                DatabaseError::Service(error),
            ),
            (Ok(found), Some(next), Ok(now)) => {
                &&& start matches Ok(s)
                &&& s.identity == self.identity
                &&& s.repeatable_ts == self.repeatable_ts
                &&& s.begin_ts == begin_ts(next, now)
                &&& s.snapshot == found
                &&& s.usage_tracker == self.usage_tracker
            },
        }
    }

    /// Takes the snapshot that was looked up for the transaction. The clock is read
    /// only where there is one.
    pub fn found(self, snapshot: Result<Snapshot, ServiceError>) -> (found: Result<
        FoundTransaction<U>,
        DatabaseError,
    >)
        ensures
            match (snapshot, self.latest_ts.spec_succ()) {
                (Err(error), _) => found == Err::<FoundTransaction<U>, DatabaseError>(
                    DatabaseError::Service(error),
                ),
                (Ok(_), None) => found matches Err(DatabaseError::TimestampOverflow),
                (Ok(s), Some(next_ts)) => found == Ok::<FoundTransaction<U>, DatabaseError>(
                    FoundTransaction { pending: self, snapshot: s, next_ts },
                ),
            },
    {
        let snapshot = match snapshot {
            Ok(found) => found,
            Err(error) => {
                return Err(DatabaseError::Service(error));
            },
        };
        match self.latest_ts.succ() {
            Some(next_ts) => Ok(FoundTransaction { pending: self, snapshot, next_ts }),
            None => Err(DatabaseError::TimestampOverflow),
        }
    }

    /// Begins the transaction, where both its snapshot and what the clock gives are
    /// known beforehand.
    pub fn begin(
        self,
        snapshot: Result<Snapshot, ServiceError>,
        generated: Result<Timestamp, ServiceError>,
    ) -> (start: Result<TransactionStart<U>, DatabaseError>)
        ensures
            self.begins(snapshot, generated, start),
    {
        match self.found(snapshot) {
            Ok(found) => found.begin(generated),
            Err(error) => Err(error),
        }
    }
}

impl<U> FoundTransaction<U> {
    /// Begins the transaction, with the timestamp that the clock gave. Its documents
    /// are created after everything that can be read.
    pub fn begin(self, generated: Result<Timestamp, ServiceError>) -> (start: Result<
        TransactionStart<U>,
        DatabaseError,
    >)
        ensures
            match generated {
                Ok(now) => start == Ok::<TransactionStart<U>, DatabaseError>(
                    TransactionStart {
                        identity: self.pending.identity,
                        repeatable_ts: self.pending.repeatable_ts,
                        begin_ts: begin_ts(self.next_ts, now),
                        snapshot: self.snapshot,
                        usage_tracker: self.pending.usage_tracker,
                    },
                ),
                Err(error) => start == Err::<TransactionStart<U>, DatabaseError>(
                    DatabaseError::Service(error),
                ),
            },
    {
        let now = match generated {
            Ok(ts) => ts,
            Err(error) => {
                return Err(DatabaseError::Service(error));
            },
        };
        let begin_ts = if self.next_ts.0 >= now.0 {
            self.next_ts
        } else {
            now
        };
        Ok(
            TransactionStart {
                identity: self.pending.identity,
                repeatable_ts: self.pending.repeatable_ts,
                begin_ts,
                snapshot: self.snapshot,
                usage_tracker: self.pending.usage_tracker,
            },
        )
    }
}

/// A transaction's documents are created later than everything that could be
/// read when it began, and no earlier than the clock says.
pub proof fn law_documents_are_created_after_what_is_read<U>(
    pending: PendingTransaction<U>,
    snapshot: Result<Snapshot, ServiceError>,
    generated: Result<Timestamp, ServiceError>,
    start: TransactionStart<U>,
)
    requires
        pending.repeatable_ts.0 <= pending.latest_ts.0,
        pending.begins(snapshot, generated, Ok(start)),
    ensures
        start.begin_ts.0 > pending.latest_ts.0,
        start.begin_ts.0 > start.repeatable_ts.0,
        generated matches Ok(now) && start.begin_ts.0 >= now.0,
{
}

/// What is needed to fill search indexes after a start.
#[derive(Debug)]
pub struct SearchBootstrap<'a> {
    pub ts: Timestamp,
    pub index_registry: &'a IndexRegistry,
    pub table_mapping: &'a TableMapping,
}

/// A change of a database. All clones of a database share it, so a change by one of
/// them is a change for all.
#[derive(Debug)]
pub enum DatabaseChange<S> {
    Publish { ts: Timestamp, snapshot: Snapshot },
    Commit { readonly: bool, result: Result<Timestamp, ServiceError> },
    SetSearchStorage(S),
}

impl<RT, S> Database<RT, S> {
    /// Whether a change is allowed. Search storage is set once.
    pub open spec fn allows(self, change: DatabaseChange<S>) -> bool {
        change is SetSearchStorage ==> self.search_storage is None
    }

    /// The database after a change. One that is not allowed leaves it as it is.
    pub open spec fn changed(self, change: DatabaseChange<S>) -> Database<RT, S> {
        match change {
            DatabaseChange::Publish { ts, snapshot } => Database {
                latest_ts: ts,
                latest: snapshot,
                ..self
            },
            DatabaseChange::Commit { readonly, result } => if result is Ok && !readonly {
                Database {
                    write_commits_since_load: counted(self.write_commits_since_load),
                    ..self
                }
            } else {
                self
            },
            DatabaseChange::SetSearchStorage(search_storage) => if self.search_storage is None {
                Database { search_storage: Some(search_storage), ..self }
            } else {
                self
            },
        }
    }

    /// The database after changes, by whichever clones.
    pub open spec fn changed_all(self, changes: Seq<DatabaseChange<S>>) -> Database<RT, S>
        decreases changes.len(),
    {
        if changes.len() == 0 {
            self
        } else {
            self.changed_all(changes.drop_last()).changed(changes.last())
        }
    }
}

/// Search storage that is set stays set: whatever is done to the database after
/// that, by whichever clones, gives the same storage, and no change may set another
/// one.
pub proof fn law_search_storage_is_set_once<RT, S>(
    database: Database<RT, S>,
    changes: Seq<DatabaseChange<S>>,
    other: S,
)
    requires
        database.search_storage is Some,
    ensures
        database.changed_all(changes).search_storage == database.search_storage,
        !database.changed_all(changes).allows(DatabaseChange::SetSearchStorage(other)),
    decreases changes.len(),
{
    if changes.len() > 0 {
        law_search_storage_is_set_once(database, changes.drop_last(), other);
    }
}

/// Search storage that is not set stays so until it is set, and can be set: then it
/// is the one that was given.
pub proof fn law_search_storage_is_what_was_set<RT, S>(
    database: Database<RT, S>,
    changes: Seq<DatabaseChange<S>>,
    search_storage: S,
)
    requires
        database.search_storage is None,
        forall|i: int| 0 <= i < changes.len() ==> !(#[trigger] changes[i] is SetSearchStorage),
    ensures
        ({
            let before = database.changed_all(changes);
            let set = DatabaseChange::SetSearchStorage(search_storage);
            &&& before.search_storage is None
            &&& before.allows(set)
            &&& before.changed(set).search_storage == Some(search_storage)
        }),
    decreases changes.len(),
{
    if changes.len() > 0 {
        let front = changes.drop_last();
        assert(forall|i: int| 0 <= i < front.len() ==> front[i] == #[trigger] changes[i]);
        law_search_storage_is_what_was_set(database, front, search_storage);
        assert(!(changes[changes.len() - 1] is SetSearchStorage));
    }
}

impl<RT, S> Database<RT, S> {
    /// Begins a load: the system tables are written if and only if the database is
    /// fresh.
    pub fn load(is_fresh: bool) -> (start: LoadStart)
        ensures
            is_fresh <==> start is Initialize,
            !is_fresh <==> start is Read,
    {
        if is_fresh {
            LoadStart::Initialize(FreshDatabase { empty: () })
        } else {
            LoadStart::Read(WrittenDatabase { written: () })
        }
    }

    /// Lets reads see a later point of the history.
    pub fn publish(&mut self, ts: Timestamp, snapshot: Snapshot)
        ensures
            *final(self) == old(self).changed(DatabaseChange::Publish { ts, snapshot }),
    {
        self.latest_ts = ts;
        self.latest = snapshot;
    }

    /// Sets where search indexes are kept. This is done once.
    pub fn set_search_storage(&mut self, search_storage: S)
        requires
            old(self).allows(DatabaseChange::SetSearchStorage(search_storage)),
        ensures
            *final(self) == old(self).changed(DatabaseChange::SetSearchStorage(search_storage)),
            final(self).search_storage == Some(search_storage),
    {
        self.search_storage = Some(search_storage);
    }

    /// Where search indexes are kept.
    pub fn search_storage(&self) -> (storage: &S)
        requires
            self.search_storage is Some,
        ensures
            Some(*storage) == self.search_storage,
    {
        self.search_storage.as_ref().unwrap()
    }

    /// What the worker needs that fills search indexes after a start.
    pub fn new_search_and_vector_bootstrap_worker(&self) -> (bootstrap: SearchBootstrap<'_>)
        ensures
            bootstrap.ts == self.latest_ts,
            *bootstrap.index_registry == self.latest.index_registry,
            *bootstrap.table_mapping == self.latest.table_registry.table_mapping,
    {
        SearchBootstrap {
            ts: self.latest_ts,
            index_registry: &self.latest.index_registry,
            table_mapping: &self.latest.table_registry.table_mapping,
        }
    }

    /// How the changes of a table from one timestamp to another are read, those of
    /// documents that were deleted among them.
    pub fn load_documents_in_table(
        &self,
        table_id: TableId,
        first_ts: Timestamp,
        last_ts: Timestamp,
    ) -> (scan: HistoryScan)
        ensures
            scan == (HistoryScan {
                table_id: Some(table_id),
                first_ts,
                last_ts,
                order: Order::Asc,
            }),
    {
        HistoryScan { table_id: Some(table_id), first_ts, last_ts, order: Order::Asc }
    }

    /// How tables are walked as they were at a point of the history.
    pub fn table_iterator(&self, snapshot_ts: Timestamp, page_size: usize) -> (iterator:
        TableIterator)
        ensures
            iterator == (TableIterator { snapshot_ts, page_size }),
    {
        TableIterator { snapshot_ts, page_size }
    }

    /// Begins to read the tables as they were at a point of the history. The
    /// tables table is looked up as it is now.
    pub fn snapshot_table_mapping(&self, ts: Timestamp, tables_table: &TableName) -> (scan: Result<
        MetadataScan,
        DatabaseError,
    >)
        ensures
            match (self.latest.table_registry.table_mapping@.id(tables_table@), scan) {
                (None, _) => {
                    &&& scan matches Err(DatabaseError::TableNameNotFound { table_name })
                    &&& table_name@ == tables_table@
                },
                (Some(table), Ok(s)) => {
                    &&& self.latest.index_registry.has_enabled(table.table_id, BY_ID@)
                    &&& s.is_scan_of(table.table_id, ts, self.latest.index_registry)
                },
                (Some(table), Err(error)) => {
                    &&& !self.latest.index_registry.has_enabled(table.table_id, BY_ID@)
                    &&& error == (DatabaseError::ByIdNotFound { table_id: table.table_id })
                },
            },
    {
        let table_id = match self.latest.table_registry.table_mapping.id(tables_table) {
            Some(table) => table.table_id,
            None => {
                return Err(DatabaseError::TableNameNotFound { table_name: tables_table.clone() });
            },
        };
        self.metadata_scan(ts, table_id)
    }

    /// Begins to read the indexes over document ids as they were at a point of
    /// the history. The index table is looked up as it is now.
    pub fn snapshot_by_id_indexes(&self, ts: Timestamp) -> (scan: Result<
        MetadataScan,
        DatabaseError,
    >)
        ensures
            ({
                let registry = self.latest.index_registry;
                let table_id = registry.index_table.table_id;
                match scan {
                    Ok(s) => {
                        &&& registry.has_enabled(table_id, BY_ID@)
                        &&& s.is_scan_of(table_id, ts, registry)
                    },
                    Err(error) => {
                        &&& !registry.has_enabled(table_id, BY_ID@)
                        &&& error == (DatabaseError::ByIdNotFound { table_id })
                    },
                }
            }),
    {
        self.metadata_scan(ts, self.latest.index_registry.index_table.table_id)
    }

    fn metadata_scan(&self, ts: Timestamp, table_id: TableId) -> (scan: Result<
        MetadataScan,
        DatabaseError,
    >)
        ensures
            match scan {
                Ok(s) => {
                    &&& self.latest.index_registry.has_enabled(table_id, BY_ID@)
                    &&& s.is_scan_of(table_id, ts, self.latest.index_registry)
                },
                Err(error) => {
                    &&& !self.latest.index_registry.has_enabled(table_id, BY_ID@)
                    &&& error == (DatabaseError::ByIdNotFound { table_id })
                },
            },
    {
        let iterator = self.table_iterator(ts, METADATA_PAGE_SIZE);
        match self.latest.index_registry.must_get_by_id(table_id) {
            Ok(index) => Ok(
                MetadataScan {
                    scan: TableScan { iterator, table_id, by_id: index.id, cursor: None },
                    quota: RowQuota::per_second(METADATA_ROWS_PER_SECOND),
                },
            ),
            Err(error) => Err(error),
        }
    }

    /// Begins a walk over the table that had this name at a point of the history,
    /// when `table_mapping` held.
    pub fn iter_table_documents(
        &self,
        snapshot_ts: Timestamp,
        table_name: &TableName,
        table_mapping: &TableMapping,
    ) -> (walk: Result<TableWalk, DatabaseError>)
        ensures
            match (table_mapping@.id(table_name@), walk) {
                (Some(table), Ok(w)) => {
                    &&& w.iterator == (TableIterator { snapshot_ts, page_size: METADATA_PAGE_SIZE })
                    &&& w.table_id == table.table_id
                    &&& w.table_name == *table_name
                },
                (None, Err(error)) => error == (DatabaseError::TableNameNotFound {
                    table_name: *table_name,
                }),
                _ => false,
            },
    {
        match table_mapping.id(table_name) {
            Some(table) => Ok(
                TableWalk {
                    iterator: self.table_iterator(snapshot_ts, METADATA_PAGE_SIZE),
                    table_id: table.table_id,
                    table_name: table_name.clone(),
                },
            ),
            None => Err(DatabaseError::TableNameNotFound { table_name: table_name.clone() }),
        }
    }

    pub fn persistence_version(&self) -> (version: PersistenceVersion)
        ensures
            version == self.persistence_version,
    {
        self.persistence_version
    }

    /// The latest timestamp that can be read.
    pub fn now_ts_for_reads(&self) -> (ts: Timestamp)
        ensures
            ts == self.latest_ts,
    {
        self.latest_ts
    }

    pub fn latest_snapshot(&self) -> (snapshot: &Snapshot)
        ensures
            *snapshot == self.latest,
    {
        &self.latest
    }

    pub fn runtime(&self) -> (runtime: &RT)
        ensures
            *runtime == self.runtime,
    {
        &self.runtime
    }

    /// Begins a transaction of the database itself, at the latest timestamp.
    pub fn begin_system<U>(&self, usage_tracker: U) -> (pending: Result<
        PendingTransaction<U>,
        DatabaseError,
    >)
        ensures
            pending == Ok::<PendingTransaction<U>, DatabaseError>(
                PendingTransaction {
                    identity: Identity { system: true, admin: false },
                    repeatable_ts: self.latest_ts,
                    latest_ts: self.latest_ts,
                    usage_tracker,
                },
            ),
    {
        self.begin(Identity::system(), usage_tracker)
    }

    /// Begins a transaction at the latest timestamp. `usage_tracker` is a new one.
    pub fn begin<U>(&self, identity: Identity, usage_tracker: U) -> (pending: Result<
        PendingTransaction<U>,
        DatabaseError,
    >)
        ensures
            pending == Ok::<PendingTransaction<U>, DatabaseError>(
                PendingTransaction {
                    identity,
                    repeatable_ts: self.latest_ts,
                    latest_ts: self.latest_ts,
                    usage_tracker,
                },
            ),
    {
        self.begin_with_usage(identity, usage_tracker)
    }

    /// Begins a transaction at the latest timestamp.
    pub fn begin_with_usage<U>(&self, identity: Identity, usage: U) -> (pending: Result<
        PendingTransaction<U>,
        DatabaseError,
    >)
        ensures
            pending == Ok::<PendingTransaction<U>, DatabaseError>(
                PendingTransaction {
                    identity,
                    repeatable_ts: self.latest_ts,
                    latest_ts: self.latest_ts,
                    usage_tracker: usage,
                },
            ),
    {
        let ts = self.now_ts_for_reads();
        self.begin_with_repeatable_ts(identity, ts, usage)
    }

    /// Begins a transaction at a timestamp, which must be repeatable.
    pub fn begin_with_ts<U>(&self, identity: Identity, ts: Timestamp, usage_tracker: U) -> (pending:
        Result<PendingTransaction<U>, DatabaseError>)
        ensures
            pending == if ts.0 <= self.latest_ts.0 {
                Ok::<PendingTransaction<U>, DatabaseError>(
                    PendingTransaction {
                        identity,
                        repeatable_ts: ts,
                        latest_ts: self.latest_ts,
                        usage_tracker,
                    },
                )
            } else {
                Err::<PendingTransaction<U>, DatabaseError>(
                    DatabaseError::NotRepeatable { ts, latest: self.latest_ts },
                )
            },
    {
        let latest: Timestamp = self.now_ts_for_reads();
        if ts.0 > latest.0 {
            return Err(DatabaseError::NotRepeatable { ts, latest });
        }
        self.begin_with_repeatable_ts(identity, ts, usage_tracker)
    }

    /// Begins a transaction at a repeatable timestamp, which must not lie behind
    /// the latest one that can be read.
    pub fn begin_with_repeatable_ts<U>(
        &self,
        identity: Identity,
        repeatable_ts: Timestamp,
        usage_tracker: U,
    ) -> (pending: Result<PendingTransaction<U>, DatabaseError>)
        ensures
            pending == if repeatable_ts.0 <= self.latest_ts.0 {
                Ok::<PendingTransaction<U>, DatabaseError>(
                    PendingTransaction {
                        identity,
                        repeatable_ts,
                        latest_ts: self.latest_ts,
                        usage_tracker,
                    },
                )
            } else {
                Err::<PendingTransaction<U>, DatabaseError>(
                    DatabaseError::BeyondNow { ts: repeatable_ts, latest: self.latest_ts },
                )
            },
    {
        let latest_ts: Timestamp = self.now_ts_for_reads();
        if repeatable_ts.0 > latest_ts.0 {
            return Err(DatabaseError::BeyondNow { ts: repeatable_ts, latest: latest_ts });
        }
        Ok(PendingTransaction { identity, repeatable_ts, latest_ts, usage_tracker })
    }

    /// Takes what came of a commit. Transactions that wrote are counted.
    pub fn commit_with_write_source(
        &mut self,
        readonly: bool,
        result: Result<Timestamp, ServiceError>,
    ) -> (committed: Result<Timestamp, DatabaseError>)
        ensures
            committed == match result {
                Ok(ts) => Ok::<Timestamp, DatabaseError>(ts),
                Err(error) => Err::<Timestamp, DatabaseError>(DatabaseError::Service(error)),
            },
            *final(self) == old(self).changed(DatabaseChange::Commit { readonly, result }),
    {
        match result {
            Ok(ts) => {
                if !readonly {
                    self.write_commits_since_load = self.write_commits_since_load.wrapping_add(1);
                }
                Ok(ts)
            },
            Err(error) => Err(DatabaseError::Service(error)),
        }
    }

    pub fn write_commits_since_load(&self) -> (count: usize)
        ensures
            count == self.write_commits_since_load,
    {
        self.write_commits_since_load
    }

    /// Begins to try a transaction until it succeeds, fails for good, or has
    /// failed too often. The caller judges which errors are for good.
    pub fn execute_with_retries(
        &self,
        identity: Identity,
        max_failures: u32,
        backoff: Backoff,
        write_source: WriteSource,
    ) -> (retries: RetryLoop)
        ensures
            retries == (RetryLoop {
                identity,
                write_source,
                backoff,
                max_failures,
                retried: Retried::Judged,
                error: None,
            }),
    {
        RetryLoop::new(identity, write_source, backoff, max_failures, Retried::Judged)
    }

    /// Begins to try a transaction again for as long as it conflicts with others.
    pub fn execute_with_occ_retries(&self, identity: Identity, write_source: WriteSource) -> (retries:
        RetryLoop)
        ensures
            retries.is_for_occ(identity, write_source),
    {
        RetryLoop::for_occ(identity, write_source)
    }

    /// Begins to try a vector search for as long as there is too much to do.
    pub fn vector_search(&self) -> (search: VectorSearchLoop)
        ensures
            search.is_new(),
    {
        VectorSearchLoop::new()
    }

    /// Takes a request for a page of the change feed.
    pub fn document_deltas(
        &self,
        identity: &Identity,
        cursor: Option<Timestamp>,
        table_filter: Option<TableName>,
        rows_read_limit: usize,
        rows_returned_limit: usize,
    ) -> (request: Result<DeltasRequest, DatabaseError>)
        ensures
            DeltasRequest::is_request(
                *identity,
                cursor,
                table_filter,
                rows_read_limit,
                rows_returned_limit,
                request,
            ),
    {
        DeltasRequest::new(identity, cursor, table_filter, rows_read_limit, rows_returned_limit)
    }

    /// Takes a request for a page of the listing of a snapshot.
    pub fn list_snapshot(
        &self,
        identity: &Identity,
        snapshot: Option<Timestamp>,
        rows_read_limit: usize,
        rows_returned_limit: usize,
    ) -> (request: Result<ListingRequest, DatabaseError>)
        ensures
            ListingRequest::is_request(
                *identity,
                snapshot,
                self.latest_ts,
                rows_read_limit,
                rows_returned_limit,
                request,
            ),
    {
        ListingRequest::new(
            identity,
            snapshot,
            self.now_ts_for_reads(),
            rows_read_limit,
            rows_returned_limit,
        )
    }

    /// The names of the active tables of users, in the order of their characters.
    pub fn table_names(&self, identity: &Identity) -> (names: Result<Vec<TableName>, DatabaseError>)
        ensures
            match names {
                Ok(found) => {
                    &&& identity.is_privileged()
                    &&& in_name_order(name_views(found@))
                    &&& forall|name: Seq<char>| #[trigger]
                        name_views(found@).contains(name) <==> self.has_user_table(name)
                },
                Err(error) => !identity.is_privileged() && refuses(error, "table_names"@),
            },
    {
        if !(identity.is_admin() || identity.is_system()) {
            return Err(DatabaseError::Metadata(unauthorized_error("table_names")));
        }
        let mapping = &self.latest.table_registry.table_mapping;
        let ids = mapping.table_ids();
        let mut found: Vec<String> = Vec::new();
        for i in 0..ids.len()
            invariant
                *mapping == self.latest.table_registry.table_mapping,
                forall|id: TableId| #[trigger]
                    ids@.contains(id) <==> mapping@.tablets.contains_key(id),
                in_name_order(texts(found@)),
                forall|name: Seq<char>| #[trigger]
                    texts(found@).contains(name) <==> self.has_user_table_among(
                        ids@.take(i as int),
                        name,
                    ),
        {
            let id = ids[i];
            let ghost before = texts(found@);
            let ghost is_user = self.is_user_table(id);
            assert(ids@.contains(id));
            if let Some(name) = mapping.tablet_name(id) {
                if !name.is_system() {
                    if let Some(active) = mapping.id(name) {
                        if active.table_id == id {
                            assert(is_user);
                            insert_name(&mut found, name.name.clone());
                        }
                    }
                }
            }
            proof {
                let taken = ids@.take(i as int);
                let longer = ids@.take(i + 1);
                let own = mapping@.tablets[id].1;
                assert(longer =~= taken.push(id));
                assert forall|name: Seq<char>| #[trigger]
                    texts(found@).contains(name) <==> self.has_user_table_among(longer, name) by {
                    if self.has_user_table_among(taken, name) {
                        let k = choose|k: int|
                            {
                                &&& 0 <= k < taken.len()
                                &&& self.is_user_table(#[trigger] taken[k])
                                &&& mapping@.tablets[taken[k]].1 == name
                            };
                        assert(longer[k] == taken[k]);
                    }
                    if is_user && name == own {
                        assert(longer[i as int] == id);
                    }
                    if self.has_user_table_among(longer, name) {
                        let k = choose|k: int|
                            {
                                &&& 0 <= k < longer.len()
                                &&& self.is_user_table(#[trigger] longer[k])
                                &&& mapping@.tablets[longer[k]].1 == name
                            };
                        if k < i {
                            assert(taken[k] == longer[k]);
                        }
                    }
                    assert(before.contains(name) == self.has_user_table_among(taken, name));
                }
            }
        }
        assert(ids@.take(ids.len() as int) =~= ids@);
        proof {
            assert forall|name: Seq<char>| #[trigger]
                texts(found@).contains(name) <==> self.has_user_table(name) by {
                if self.has_user_table_among(ids@, name) {
                    let k = choose|k: int|
                        {
                            &&& 0 <= k < ids.len()
                            &&& self.is_user_table(#[trigger] ids@[k])
                            &&& mapping@.tablets[ids@[k]].1 == name
                        };
                    assert(self.is_user_table(ids@[k]));
                }
                if self.has_user_table(name) {
                    let id = choose|id: TableId| #[trigger]
                        self.is_user_table(id) && mapping@.tablets[id].1 == name;
                    assert(ids@.contains(id));
                    let k = choose|k: int| 0 <= k < ids.len() && ids@[k] == id;
                    assert(self.is_user_table(ids@[k]));
                }
                assert(texts(found@).contains(name) == self.has_user_table_among(ids@, name));
            }
        }
        Ok(table_names_from(found))
    }

    /// Whether one of these tables is an active table of a user with this name.
    pub open spec fn has_user_table_among(self, ids: Seq<TableId>, name: Seq<char>) -> bool {
        exists|k: int|
            {
                &&& 0 <= k < ids.len()
                &&& self.is_user_table(#[trigger] ids[k])
                &&& self.latest.table_registry.table_mapping@.tablets[ids[k]].1 == name
            }
    }

    /// Whether a table is active and of a user.
    pub open spec fn is_user_table(self, id: TableId) -> bool {
        let mapping = self.latest.table_registry.table_mapping@;
        &&& mapping.tablets.contains_key(id)
        &&& !is_system_name(mapping.tablets[id].1)
        &&& mapping.names.contains_key(mapping.tablets[id].1)
        &&& mapping.names[mapping.tablets[id].1] == id
    }

    /// Whether a user has an active table of this name.
    pub open spec fn has_user_table(self, name: Seq<char>) -> bool {
        exists|id: TableId| #[trigger]
            self.is_user_table(id) && self.latest.table_registry.table_mapping@.tablets[id].1
                == name
    }

    /// The sizes of all vector indexes on the tables of each name.
    pub fn get_vector_index_storage(
        &self,
        identity: &Identity,
        indexes: Vec<VectorIndexSize>,
    ) -> (result: Result<NameMap<u64>, DatabaseError>)
        requires
            identity.is_privileged() ==> sums_fit(
                self.latest.table_registry.table_mapping@,
                indexes@,
            ),
        ensures
            if identity.is_privileged() {
                self.latest.is_vector_storage(indexes@, result)
            } else {
                result matches Err(error) && refuses(error, "get_vector_index_storage"@)
            },
    {
        if !(identity.is_admin() || identity.is_system()) {
            return Err(DatabaseError::Metadata(unauthorized_error("get_vector_index_storage")));
        }
        self.latest.vector_index_storage(indexes)
    }

    /// The size of the documents and of the indexes on the tables of each name,
    /// where `summaries` holds the sizes of the tables of users.
    pub fn get_user_document_and_index_storage(
        &self,
        identity: &Identity,
        summaries: &Vec<(TableName, TableSummary)>,
    ) -> (result: Result<NameMap<(usize, usize)>, DatabaseError>)
        requires
            identity.is_privileged() ==> self.latest.can_tell_storage(summaries@),
        ensures
            match result {
                Ok(storage) => {
                    &&& identity.is_privileged()
                    &&& self.latest.is_user_storage(summaries@, storage@)
                },
                Err(error) => {
                    &&& !identity.is_privileged()
                    &&& refuses(error, "get_user_document_storage"@)
                },
            },
    {
        if !(identity.is_admin() || identity.is_system()) {
            return Err(DatabaseError::Metadata(unauthorized_error("get_user_document_storage")));
        }
        Ok(self.latest.user_document_and_index_storage(summaries))
    }
}

/// The texts of a list of names.
pub open spec fn name_views(names: Seq<TableName>) -> Seq<Seq<char>> {
    names.map_values(|name: TableName| name@)
}

/// Names of tables, from their texts.
fn table_names_from(found: Vec<String>) -> (names: Vec<TableName>)
    ensures
        name_views(names@) == texts(found@),
{
    let ghost all = found@;
    let mut names: Vec<TableName> = Vec::new();
    for name in it: found
        invariant
            it.seq() == all,
            name_views(names@) == texts(all.take(it.index())),
    {
        let ghost before = names@;
        assert(name == all[it.index()]);
        names.push(TableName { name });
        assert(name_views(names@) =~= name_views(before).push(all[it.index()]@));
        assert(texts(all.take(it.index() + 1)) =~= texts(all.take(it.index())).push(
            all[it.index()]@,
        ));
    }
    assert(all.take(all.len() as int) =~= all);
    names
}

/// A count with one more, back at zero after the largest number.
pub open spec fn counted(count: usize) -> usize {
    if count < usize::MAX {
        (count + 1) as usize
    } else {
        0
    }
}

} // verus!
