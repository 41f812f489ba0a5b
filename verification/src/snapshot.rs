//! The database as it was at a point of its history, and how it is loaded.

use crate::database::PersistenceVersion;
use crate::errors::{DatabaseError, ServiceError};
use crate::ids::{IndexId, TableId, Timestamp};
use crate::meta_ids::{BootstrapMetadata, MetaIdReader};
use crate::metadata::{
    all_ok, documents_by_id, is_first_failure, is_loaded, mapping_of, ok_values, states_of,
    table_states, ParsedDocument, ScanRow, TableMetadata, TableState, VirtualTableMetadata,
};
use crate::names::{TableName, BY_ID};
use crate::registry::{
    breaks_invariants, indexes_have_tables, tables_can_be_scanned, virtual_mapping_of,
    IndexRegistry, SearchIndexes, Snapshot, TableRegistry, TableSummaries,
};
use crate::scan::{Order, TableIterator, TableScan};
use crate::table_mapping::TableMapping;
use imbl::OrdMap;
use std::collections::BTreeMap;
use vstd::prelude::*;

verus! {

/// The database as it was at a point of its history.
#[derive(Debug)]
pub struct DatabaseSnapshot {
    pub ts: Timestamp,
    pub bootstrap_metadata: BootstrapMetadata,
    pub snapshot: Snapshot,
    /// How many rows were read to bring the table summaries up to date.
    pub summaries_num_rows: usize,
}

impl Clone for DatabaseSnapshot {
    fn clone(&self) -> (copy: DatabaseSnapshot)
        ensures
            copy.ts == self.ts,
            copy.bootstrap_metadata == self.bootstrap_metadata,
            copy.snapshot.same_as(self.snapshot),
            copy.summaries_num_rows == self.summaries_num_rows,
    {
        DatabaseSnapshot {
            ts: self.ts,
            bootstrap_metadata: self.bootstrap_metadata,
            snapshot: self.snapshot.clone(),
            summaries_num_rows: self.summaries_num_rows,
        }
    }
}

/// A scan of all documents of a table, by their ids.
#[derive(Clone, Copy, Debug, PartialEq, Eq, Structural)]
pub struct FullScan {
    /// The point of the history at which the table is seen.
    pub ts: Timestamp,
    pub index_id: IndexId,
    pub table_id: TableId,
    pub order: Order,
}

/// How many documents are read at a time while a table of a snapshot is walked.
pub const SNAPSHOT_PAGE_SIZE: usize = 1000;

/// The documents of the index table are to be read.
#[derive(Clone, Copy, Debug, PartialEq, Eq, Structural)]
pub struct IndexDocumentsLoad {
    pub ts: Timestamp,
    pub metadata: BootstrapMetadata,
}

/// The documents of the tables table are to be read.
#[derive(Debug)]
pub struct TableDocumentsLoad<I> {
    pub ts: Timestamp,
    pub metadata: BootstrapMetadata,
    pub index_documents: BTreeMap<u128, (Timestamp, I)>,
}

/// What the documents of the tables table and the index table say.
#[derive(Debug)]
pub struct TableAndIndexMetadata<I> {
    pub ts: Timestamp,
    pub table_mapping: TableMapping,
    pub table_states: OrdMap<u128, TableState>,
    pub index_documents: BTreeMap<u128, (Timestamp, I)>,
    pub bootstrap_metadata: BootstrapMetadata,
}

impl IndexDocumentsLoad {
    /// The scan of the index table.
    pub fn scan(&self) -> (scan: FullScan)
        ensures
            scan.ts == self.ts,
            scan.index_id == self.metadata.index_by_id,
            scan.table_id == self.metadata.index_table_id,
            scan.order is Asc,
    {
        FullScan {
            ts: self.ts,
            index_id: self.metadata.index_by_id,
            table_id: self.metadata.index_table_id,
            order: Order::Asc,
        }
    }

    /// Takes the documents of the index table, or fails as the scan did.
    pub fn rows<I>(self, rows: Vec<Result<ScanRow<I>, ServiceError>>) -> (result: Result<
        TableDocumentsLoad<I>,
        DatabaseError,
    >)
        ensures
            match result {
                Ok(load) => {
                    &&& all_ok(rows@)
                    &&& load.ts == self.ts
                    &&& load.metadata == self.metadata
                    &&& load.index_documents@ == documents_by_id(ok_values(rows@))
                },
                Err(error) => {
                    &&& !all_ok(rows@)
                    &&& error matches DatabaseError::Service(e)
                    &&& is_first_failure(rows@, e)
                },
            },
    {
        match DatabaseSnapshot::load_raw_table_documents(rows) {
            Ok(index_documents) => Ok(
                TableDocumentsLoad { ts: self.ts, metadata: self.metadata, index_documents },
            ),
            Err(error) => Err(DatabaseError::Service(error)),
        }
    }
}

impl<I> TableDocumentsLoad<I> {
    /// The scan of the tables table.
    pub fn scan(&self) -> (scan: FullScan)
        ensures
            scan.ts == self.ts,
            scan.index_id == self.metadata.tables_by_id,
            scan.table_id == self.metadata.tables_table_id,
            scan.order is Asc,
    {
        FullScan {
            ts: self.ts,
            index_id: self.metadata.tables_by_id,
            table_id: self.metadata.tables_table_id,
            order: Order::Asc,
        }
    }

    /// Takes the documents of the tables table, or fails as the scan did or as
    /// the first document does that is not understood.
    pub fn rows(
        self,
        rows: Vec<Result<ScanRow<Result<TableMetadata, ServiceError>>, ServiceError>>,
    ) -> (result: Result<TableAndIndexMetadata<I>, DatabaseError>)
        ensures
            match result {
                Ok(loaded) => {
                    &&& loaded.ts == self.ts
                    &&& loaded.bootstrap_metadata == self.metadata
                    &&& loaded.index_documents == self.index_documents
                    &&& exists|documents: Vec<ParsedDocument<TableMetadata>>|
                        {
                            &&& #[trigger] is_loaded(rows@, Ok(documents))
                            &&& loaded.table_mapping@ == mapping_of(documents@)
                            &&& table_states(loaded.table_states) == states_of(documents@)
                        }
                },
                Err(error) => {
                    &&& error matches DatabaseError::Service(e)
                    &&& is_loaded::<TableMetadata>(rows@, Err(e))
                },
            },
    {
        match DatabaseSnapshot::load_table_documents(rows) {
            Ok(documents) => {
                assert(is_loaded(rows@, Ok(documents)));
                let (table_mapping, table_states) = DatabaseSnapshot::table_mapping_and_states(
                    documents,
                );
                Ok(
                    TableAndIndexMetadata {
                        ts: self.ts,
                        table_mapping,
                        table_states,
                        index_documents: self.index_documents,
                        bootstrap_metadata: self.metadata,
                    },
                )
            },
            Err(error) => Err(DatabaseError::Service(error)),
        }
    }
}

/// The documents of the virtual tables table are to be read.
#[derive(Debug)]
pub struct TableRegistryLoad {
    pub table_mapping: TableMapping,
    pub table_states: OrdMap<u128, TableState>,
    /// The scan of the virtual tables table.
    pub scan: FullScan,
}

impl TableRegistryLoad {
    /// Whether `result` is what the tables become once the virtual tables are
    /// known.
    pub open spec fn finishes(
        self,
        rows: Seq<Result<ScanRow<Result<VirtualTableMetadata, ServiceError>>, ServiceError>>,
        index_registry: IndexRegistry,
        result: Result<TableRegistry, DatabaseError>,
    ) -> bool {
        match result {
            Ok(registry) => {
                &&& registry.table_mapping == self.table_mapping
                &&& registry.table_states == self.table_states
                &&& exists|documents: Vec<ParsedDocument<VirtualTableMetadata>>|
                    {
                        &&& #[trigger] is_loaded(rows, Ok(documents))
                        &&& registry.virtual_table_mapping@ == virtual_mapping_of(documents@)
                    }
                &&& tables_can_be_scanned(self.table_mapping@, index_registry)
                &&& indexes_have_tables(self.table_mapping@, index_registry)
            },
            Err(error) => {
                ||| exists|e: ServiceError|
                    {
                        &&& error == DatabaseError::Service(e)
                        &&& #[trigger] is_loaded::<VirtualTableMetadata>(rows, Err(e))
                    }
                ||| {
                    &&& exists|documents: Vec<ParsedDocument<VirtualTableMetadata>>|
                        #[trigger] is_loaded(rows, Ok(documents))
                    &&& breaks_invariants(self.table_mapping@, index_registry, error)
                }
            },
        }
    }

    /// Takes the documents of the virtual tables table. Fails as the scan did, as
    /// the first document does that is not understood, or where a table or an
    /// index is not as it should be.
    pub fn finish(
        self,
        rows: Vec<Result<ScanRow<Result<VirtualTableMetadata, ServiceError>>, ServiceError>>,
        index_registry: &IndexRegistry,
    ) -> (result: Result<TableRegistry, DatabaseError>)
        ensures
            self.finishes(rows@, *index_registry, result),
    {
        let virtual_tables = match DatabaseSnapshot::load_table_documents(rows) {
            Ok(documents) => documents,
            Err(error) => {
                assert(is_loaded::<VirtualTableMetadata>(rows@, Err(error)));
                return Err(DatabaseError::Service(error));
            },
        };
        assert(is_loaded(rows@, Ok(virtual_tables)));
        let virtual_table_mapping = DatabaseSnapshot::virtual_table_mapping(virtual_tables);
        let table_registry = TableRegistry {
            table_mapping: self.table_mapping,
            table_states: self.table_states,
            virtual_table_mapping,
        };
        match DatabaseSnapshot::verify_invariants(&table_registry, index_registry) {
            Ok(_) => Ok(table_registry),
            Err(error) => Err(error),
        }
    }
}

/// Whether `load` is how the virtual tables begin to be read.
pub open spec fn begins_registry(
    ts: Timestamp,
    virtual_tables_table: Seq<char>,
    table_mapping: TableMapping,
    states: OrdMap<u128, TableState>,
    index_registry: IndexRegistry,
    load: Result<TableRegistryLoad, DatabaseError>,
) -> bool {
    match (table_mapping@.id(virtual_tables_table), load) {
        (None, _) => {
            &&& load matches Err(DatabaseError::TableNameNotFound { table_name })
            &&& table_name@ == virtual_tables_table
        },
        (Some(table), Ok(l)) => {
            &&& index_registry.has_enabled(table.table_id, BY_ID@)
            &&& l.table_mapping == table_mapping
            &&& l.table_states == states
            &&& l.scan == (FullScan {
                ts,
                index_id: index_registry.enabled(table.table_id, BY_ID@).id,
                table_id: table.table_id,
                order: Order::Asc,
            })
        },
        (Some(table), Err(error)) => {
            &&& !index_registry.has_enabled(table.table_id, BY_ID@)
            &&& error == (DatabaseError::ByIdNotFound { table_id: table.table_id })
        },
    }
}

/// A snapshot that lacks nothing but its virtual tables.
#[derive(Debug)]
pub struct SnapshotLoad {
    ts: Timestamp,
    bootstrap_metadata: BootstrapMetadata,
    pending: TableRegistryLoad,
    index_registry: IndexRegistry,
    search_indexes: SearchIndexes,
    table_summaries: TableSummaries,
    summaries_num_rows: usize,
}

impl SnapshotLoad {
    pub closed spec fn ts(self) -> Timestamp {
        self.ts
    }

    pub closed spec fn bootstrap_metadata(self) -> BootstrapMetadata {
        self.bootstrap_metadata
    }

    pub closed spec fn pending(self) -> TableRegistryLoad {
        self.pending
    }

    pub closed spec fn index_registry(self) -> IndexRegistry {
        self.index_registry
    }

    pub closed spec fn spec_search_indexes(self) -> SearchIndexes {
        self.search_indexes
    }

    pub closed spec fn table_summaries(self) -> TableSummaries {
        self.table_summaries
    }

    pub closed spec fn summaries_num_rows(self) -> usize {
        self.summaries_num_rows
    }

    /// The search indexes that the snapshot begins with.
    pub fn search_indexes(&self) -> (indexes: SearchIndexes)
        ensures
            indexes == self.spec_search_indexes(),
    {
        self.search_indexes
    }

    /// The scan of the virtual tables table.
    pub fn scan(&self) -> (scan: FullScan)
        ensures
            scan == self.pending().scan,
    {
        self.pending.scan
    }

    /// Takes the documents of the virtual tables table. Fails as
    /// [`TableRegistryLoad::finish`] does.
    pub fn finish(
        self,
        virtual_tables: Vec<
            Result<ScanRow<Result<VirtualTableMetadata, ServiceError>>, ServiceError>,
        >,
    ) -> (result: Result<DatabaseSnapshot, DatabaseError>)
        ensures
            match result {
                Ok(loaded) => {
                    &&& self.pending().finishes(
                        virtual_tables@,
                        self.index_registry(),
                        Ok(loaded.snapshot.table_registry),
                    )
                    &&& loaded.ts == self.ts()
                    &&& loaded.bootstrap_metadata == self.bootstrap_metadata()
                    &&& loaded.snapshot.index_registry == self.index_registry()
                    &&& loaded.snapshot.search_indexes == self.spec_search_indexes()
                    &&& loaded.snapshot.table_summaries == self.table_summaries()
                    &&& loaded.summaries_num_rows == self.summaries_num_rows()
                    &&& loaded.is_sound()
                },
                Err(error) => self.pending().finishes(
                    virtual_tables@,
                    self.index_registry(),
                    Err(error),
                ),
            },
    {
        match self.pending.finish(virtual_tables, &self.index_registry) {
            Ok(table_registry) => Ok(
                DatabaseSnapshot {
                    ts: self.ts,
                    bootstrap_metadata: self.bootstrap_metadata,
                    snapshot: Snapshot {
                        table_registry,
                        table_summaries: self.table_summaries,
                        index_registry: self.index_registry,
                        search_indexes: self.search_indexes,
                    },
                    summaries_num_rows: self.summaries_num_rows,
                },
            ),
            Err(error) => Err(error),
        }
    }
}

/// A snapshot holds the tables and the ids that were read together: what is
/// loaded from the metadata of a database has the metadata's ids, tables and
/// timestamp.
pub proof fn law_snapshot_keeps_its_metadata<I>(
    metadata: TableAndIndexMetadata<I>,
    virtual_tables_table: Seq<char>,
    load: SnapshotLoad,
    rows: Seq<Result<ScanRow<Result<VirtualTableMetadata, ServiceError>>, ServiceError>>,
    loaded: DatabaseSnapshot,
)
    requires
        begins_registry(
            metadata.ts,
            virtual_tables_table,
            metadata.table_mapping,
            metadata.table_states,
            load.index_registry(),
            Ok(load.pending()),
        ),
        load.ts() == metadata.ts,
        load.bootstrap_metadata() == metadata.bootstrap_metadata,
        load.pending().finishes(
            rows,
            load.index_registry(),
            Ok(loaded.snapshot.table_registry),
        ),
        loaded.ts == load.ts(),
        loaded.bootstrap_metadata == load.bootstrap_metadata(),
    ensures
        loaded.ts == metadata.ts,
        loaded.bootstrap_metadata == metadata.bootstrap_metadata,
        loaded.snapshot.table_registry.table_mapping == metadata.table_mapping,
        loaded.snapshot.table_registry.table_states == metadata.table_states,
{
}

impl DatabaseSnapshot {
    /// The timestamp of the last document that was written.
    pub fn max_ts(latest: Option<Timestamp>) -> (ts: Result<Timestamp, DatabaseError>)
        ensures
            ts == match latest {
                Some(t) => Ok::<Timestamp, DatabaseError>(t),
                None => Err::<Timestamp, DatabaseError>(DatabaseError::NoDocuments),
            },
    {
        match latest {
            Some(ts) => Ok(ts),
            None => Err(DatabaseError::NoDocuments),
        }
    }

    /// Begins to read the ids of the tables table and the index table.
    pub fn get_meta_ids() -> (reader: MetaIdReader)
        ensures
            reader.found().len() == 0,
    {
        MetaIdReader::TablesByIdIndex
    }

    /// Begins to read the documents of the index table and the tables table.
    pub fn load_table_and_index_metadata(ts: Timestamp, metadata: BootstrapMetadata) -> (load:
        IndexDocumentsLoad)
        ensures
            load == (IndexDocumentsLoad { ts, metadata }),
    {
        IndexDocumentsLoad { ts, metadata }
    }

    /// Begins to read the documents of the virtual tables table.
    pub fn load_table_registry(
        ts: Timestamp,
        virtual_tables_table: &TableName,
        table_mapping: TableMapping,
        table_states: OrdMap<u128, TableState>,
        index_registry: &IndexRegistry,
    ) -> (load: Result<TableRegistryLoad, DatabaseError>)
        ensures
            begins_registry(
                ts,
                virtual_tables_table@,
                table_mapping,
                table_states,
                *index_registry,
                load,
            ),
    {
        let table_id = match table_mapping.id(virtual_tables_table) {
            Some(table) => table.table_id,
            None => {
                return Err(
                    DatabaseError::TableNameNotFound { table_name: virtual_tables_table.clone() },
                );
            },
        };
        match index_registry.must_get_by_id(table_id) {
            Ok(index) => Ok(
                TableRegistryLoad {
                    table_mapping,
                    table_states,
                    scan: FullScan { ts, index_id: index.id, table_id, order: Order::Asc },
                },
            ),
            Err(error) => Err(error),
        }
    }

    /// Whether every table can be scanned and every index is on a table that
    /// exists.
    pub open spec fn is_sound(self) -> bool {
        let mapping = self.snapshot.table_registry.table_mapping@;
        &&& tables_can_be_scanned(mapping, self.snapshot.index_registry)
        &&& indexes_have_tables(mapping, self.snapshot.index_registry)
    }

    /// Goes on with a load once the indexes and the table summaries are known.
    /// Search indexes are still to be filled.
    pub fn load<I>(
        metadata: TableAndIndexMetadata<I>,
        virtual_tables_table: &TableName,
        index_registry: IndexRegistry,
        persistence_version: PersistenceVersion,
        table_summaries: TableSummaries,
        summaries_num_rows: usize,
    ) -> (load: Result<SnapshotLoad, DatabaseError>)
        ensures
            match load {
                Ok(l) => {
                    &&& begins_registry(
                        metadata.ts,
                        virtual_tables_table@,
                        metadata.table_mapping,
                        metadata.table_states,
                        index_registry,
                        Ok(l.pending()),
                    )
                    &&& l.ts() == metadata.ts
                    &&& l.bootstrap_metadata() == metadata.bootstrap_metadata
                    &&& l.index_registry() == index_registry
                    &&& l.spec_search_indexes().state is Bootstrapping
                    &&& l.spec_search_indexes().persistence_version == persistence_version
                    &&& l.table_summaries() == table_summaries
                    &&& l.summaries_num_rows() == summaries_num_rows
                },
                Err(error) => begins_registry(
                    metadata.ts,
                    virtual_tables_table@,
                    metadata.table_mapping,
                    metadata.table_states,
                    index_registry,
                    Err(error),
                ),
            },
    {
        match DatabaseSnapshot::load_table_registry(
            metadata.ts,
            virtual_tables_table,
            metadata.table_mapping,
            metadata.table_states,
            &index_registry,
        ) {
            Ok(pending) => Ok(
                SnapshotLoad {
                    ts: metadata.ts,
                    bootstrap_metadata: metadata.bootstrap_metadata,
                    pending,
                    index_registry,
                    search_indexes: SearchIndexes::bootstrapping(persistence_version),
                    table_summaries,
                    summaries_num_rows,
                },
            ),
            Err(error) => Err(error),
        }
    }

    /// The point of the history.
    pub fn timestamp(&self) -> (ts: Timestamp)
        ensures
            ts == self.ts,
    {
        self.ts
    }

    /// How the tables of the snapshot are walked.
    pub fn table_iterator(&self) -> (iterator: TableIterator)
        ensures
            iterator.snapshot_ts == self.ts,
            iterator.page_size == SNAPSHOT_PAGE_SIZE,
    {
        TableIterator { snapshot_ts: self.ts, page_size: SNAPSHOT_PAGE_SIZE }
    }

    /// The walk over all documents of a table.
    pub fn full_table_scan(&self, table_id: TableId) -> (scan: Result<TableScan, DatabaseError>)
        ensures
            match scan {
                Ok(s) => {
                    let registry = self.snapshot.index_registry;
                    &&& registry.has_enabled(table_id, BY_ID@)
                    &&& s.iterator.snapshot_ts == self.ts
                    &&& s.iterator.page_size == SNAPSHOT_PAGE_SIZE
                    &&& s.table_id == table_id
                    &&& s.by_id == registry.enabled(table_id, BY_ID@).id
                    &&& s.cursor is None
                },
                Err(error) => {
                    &&& !self.snapshot.index_registry.has_enabled(table_id, BY_ID@)
                    &&& error == (DatabaseError::ByIdNotFound { table_id })
                },
            },
    {
        match self.index_registry().must_get_by_id(table_id) {
            Ok(index) => Ok(
                TableScan {
                    iterator: self.table_iterator(),
                    table_id,
                    by_id: index.id,
                    cursor: None,
                },
            ),
            Err(error) => Err(error),
        }
    }

    pub fn table_registry(&self) -> (registry: &TableRegistry)
        ensures
            *registry == self.snapshot.table_registry,
    {
        &self.snapshot.table_registry
    }

    pub fn index_registry(&self) -> (registry: &IndexRegistry)
        ensures
            *registry == self.snapshot.index_registry,
    {
        &self.snapshot.index_registry
    }

    pub fn table_summaries(&self) -> (summaries: &TableSummaries)
        ensures
            *summaries == self.snapshot.table_summaries,
    {
        &self.snapshot.table_summaries
    }
}

/// Every table of a snapshot that is loaded can be walked.
pub proof fn law_loaded_tables_can_be_walked(snapshot: DatabaseSnapshot, table_id: TableId)
    requires
        snapshot.is_sound(),
        snapshot.snapshot.table_registry.table_mapping@.tablets.contains_key(table_id),
    ensures
        snapshot.snapshot.index_registry.has_enabled(table_id, BY_ID@),
{
}

} // verus!
