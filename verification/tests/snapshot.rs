//! How snapshots are loaded, and what they are checked for.

use database::database::PersistenceVersion;
use database::errors::{DatabaseError, ServiceError};
use database::ids::{InternalId, TableId, TableIdAndTableNumber, TableNumber, Timestamp};
use database::meta_ids::BootstrapMetadata;
use database::metadata::{
    ParsedDocument, ScanRow, TableMetadata, TableState, VirtualTableMetadata,
};
use database::names::{TableName, TabletIndexName};
use database::registry::{
    IndexEntry, IndexRegistry, SearchIndexState, SearchIndexes, TableRegistry, TableSummaries,
    TableSummary,
};
use database::scan::Order;
use database::snapshot::{DatabaseSnapshot, FullScan, TableAndIndexMetadata};
use std::collections::BTreeMap;

fn tid(id: u128) -> TableId {
    TableId(InternalId(id))
}

fn asc(index_id: InternalId, table_id: TableId) -> FullScan {
    FullScan { ts: Timestamp(77), index_id, table_id, order: Order::Asc }
}

fn metadata() -> BootstrapMetadata {
    BootstrapMetadata {
        tables_by_id: InternalId(11),
        index_by_id: InternalId(12),
        tables_table_id: tid(1),
        index_table_id: tid(2),
    }
}

fn failure(msg: &str) -> ServiceError {
    ServiceError { msg: msg.to_string(), occ: false, overloaded: false, out_of_retention: false }
}

fn table_metadata(name: &str, number: u32, state: TableState) -> TableMetadata {
    TableMetadata { name: TableName::new(name), number: TableNumber(number), state }
}

fn row<D>(id: u128, document: D) -> ScanRow<D> {
    ScanRow { id: InternalId(id), ts: Timestamp(5), document }
}

fn entry(id: u128, table: u128, descriptor: &str, enabled: bool) -> IndexEntry {
    IndexEntry {
        id: InternalId(id),
        name: TabletIndexName { table: tid(table), descriptor: descriptor.to_string() },
        enabled,
        system_owned: false,
    }
}

fn index_registry(indexes: Vec<IndexEntry>) -> IndexRegistry {
    IndexRegistry {
        index_table: TableIdAndTableNumber { table_id: tid(2), table_number: TableNumber(2) },
        indexes,
    }
}

fn table_registry(tables: Vec<(u128, &str, TableState)>) -> TableRegistry {
    let documents = tables
        .into_iter()
        .map(|(id, name, state)| ParsedDocument {
            id: InternalId(id),
            value: table_metadata(name, id as u32, state),
        })
        .collect();
    let (table_mapping, table_states) = DatabaseSnapshot::table_mapping_and_states(documents);
    TableRegistry {
        table_mapping,
        table_states,
        virtual_table_mapping: DatabaseSnapshot::virtual_table_mapping(vec![]),
    }
}

#[test]
fn an_empty_history_cannot_be_loaded() {
    assert_eq!(DatabaseSnapshot::max_ts(None), Err(DatabaseError::NoDocuments));
    assert_eq!(DatabaseSnapshot::max_ts(Some(Timestamp(3))), Ok(Timestamp(3)));
}

#[test]
fn indexes_are_read_before_tables() {
    let load = DatabaseSnapshot::load_table_and_index_metadata(Timestamp(77), metadata());
    assert_eq!(load.scan(), asc(InternalId(12), tid(2)));
    let load = load.rows(vec![Ok(row(30, "index"))]).unwrap();
    assert_eq!(load.scan(), asc(InternalId(11), tid(1)));
    let loaded = load
        .rows(vec![Ok(row(1, Ok(table_metadata("_tables", 1, TableState::Active))))])
        .unwrap();
    assert_eq!(loaded.bootstrap_metadata, metadata());
    assert_eq!(loaded.index_documents.get(&30), Some(&(Timestamp(5), "index")));
    assert!(loaded.table_mapping.name_exists(&TableName::new("_tables")));
    assert_eq!(loaded.table_states.get(&1), Some(&TableState::Active));
}

#[test]
fn scans_of_metadata_that_fail_are_errors() {
    let load = DatabaseSnapshot::load_table_and_index_metadata(Timestamp(77), metadata());
    assert_eq!(
        load.rows::<&str>(vec![Err(failure("index scan"))]).unwrap_err(),
        DatabaseError::Service(failure("index scan"))
    );
    let load = load.rows::<&str>(vec![]).unwrap();
    assert_eq!(
        load.rows(vec![Ok(row(1, Err(failure("not a table"))))]).unwrap_err(),
        DatabaseError::Service(failure("not a table"))
    );
}

#[test]
fn every_table_needs_an_enabled_index_over_ids() {
    let tables = || {
        table_registry(vec![
            (7, "later", TableState::Hidden),
            (5, "users", TableState::Active),
            (6, "gone", TableState::Deleting),
        ])
    };
    let check = |indexes| DatabaseSnapshot::verify_invariants(&tables(), &index_registry(indexes));
    assert_eq!(check(vec![entry(1, 5, "by_id", true), entry(2, 7, "by_id", true)]), Ok(()));
    // Of two tables the one with the smaller id is told.
    let missing = |name| {
        Err(DatabaseError::MissingByIdIndex { table_name: TableName::new(name) })
    };
    assert_eq!(check(vec![]), missing("users"));
    assert_eq!(check(vec![entry(1, 5, "by_id", true)]), missing("later"));
    assert_eq!(
        check(vec![entry(1, 5, "by_id", false), entry(2, 7, "by_id", true)]),
        missing("users")
    );
    assert_eq!(
        check(vec![entry(1, 5, "by_name", true), entry(2, 7, "by_id", true)]),
        missing("users")
    );
}

#[test]
fn every_index_needs_a_table() {
    let tables = table_registry(vec![(5, "users", TableState::Active)]);
    let indexes = index_registry(vec![
        entry(1, 5, "by_id", true),
        entry(2, 9, "by_id", false),
        entry(3, 8, "by_id", true),
    ]);
    assert_eq!(
        DatabaseSnapshot::verify_invariants(&tables, &indexes),
        Err(DatabaseError::MissingTable { table_id: tid(9) })
    );
}

#[test]
fn indexes_are_found_by_name_and_id() {
    let registry = index_registry(vec![
        entry(1, 5, "by_id", false),
        entry(2, 5, "by_id", true),
        entry(3, 6, "by_id", true),
    ]);
    assert_eq!(registry.must_get_by_id(tid(5)).unwrap().id, InternalId(2));
    assert_eq!(
        registry.must_get_by_id(tid(7)),
        Err(DatabaseError::ByIdNotFound { table_id: tid(7) })
    );
    assert_eq!(registry.enabled_index_by_index_id(InternalId(1)), None);
    assert_eq!(
        registry.enabled_index_by_index_id(InternalId(3)).unwrap().name.table,
        tid(6)
    );
}

type VirtualRow = Result<ScanRow<Result<VirtualTableMetadata, ServiceError>>, ServiceError>;

fn load(
    indexes: Vec<IndexEntry>,
    rows: Vec<VirtualRow>,
) -> Result<DatabaseSnapshot, DatabaseError> {
    let tables = table_registry(vec![
        (5, "users", TableState::Active),
        (6, "_virtual_tables", TableState::Active),
    ]);
    let read = TableAndIndexMetadata {
        ts: Timestamp(77),
        table_mapping: tables.table_mapping,
        table_states: tables.table_states,
        index_documents: BTreeMap::<u128, (Timestamp, &str)>::new(),
        bootstrap_metadata: metadata(),
    };
    let mut summaries = BTreeMap::new();
    summaries.insert(5, TableSummary { total_size_rounded: 12 });
    let load = DatabaseSnapshot::load(
        read,
        &TableName::new("_virtual_tables"),
        index_registry(indexes),
        PersistenceVersion(5),
        TableSummaries { tables: summaries },
        3,
    )?;
    assert_eq!(
        load.scan(),
        asc(InternalId(60), tid(6))
    );
    assert_eq!(load.search_indexes(), SearchIndexes::bootstrapping(PersistenceVersion(5)));
    load.finish(rows)
}

fn all_indexes() -> Vec<IndexEntry> {
    vec![entry(50, 5, "by_id", true), entry(60, 6, "by_id", true)]
}

fn virtual_table(name: &str, number: u32) -> VirtualTableMetadata {
    VirtualTableMetadata { name: TableName::new(name), number: TableNumber(number) }
}

#[test]
fn a_snapshot_holds_what_was_read() {
    let snapshot = load(all_indexes(), vec![Ok(row(1, Ok(virtual_table("_storage", 20))))]).unwrap();
    assert_eq!(snapshot.timestamp(), Timestamp(77));
    assert_eq!(snapshot.bootstrap_metadata, metadata());
    assert_eq!(snapshot.summaries_num_rows, 3);
    assert_eq!(
        snapshot.table_registry().virtual_table_mapping.number(&TableName::new("_storage")),
        Some(TableNumber(20))
    );
    assert_eq!(snapshot.index_registry().indexes.len(), 2);
    assert_eq!(snapshot.table_summaries().tables.get(&5).unwrap().total_size_rounded, 12);
    let iterator = snapshot.table_iterator();
    assert_eq!(iterator.snapshot_ts, Timestamp(77));
    assert_eq!(iterator.page_size, 1000);
}

#[test]
fn search_indexes_begin_to_be_filled_after_a_load() {
    let snapshot = load(all_indexes(), vec![]).unwrap().snapshot;
    assert_eq!(snapshot.search_indexes.state, SearchIndexState::Bootstrapping);
    assert_eq!(snapshot.search_indexes.persistence_version, PersistenceVersion(5));
}

#[test]
fn a_clone_holds_the_same() {
    let snapshot = load(all_indexes(), vec![Ok(row(1, Ok(virtual_table("_storage", 20))))]).unwrap();
    let clone = snapshot.clone();
    assert_eq!(clone.timestamp(), Timestamp(77));
    assert_eq!(clone.bootstrap_metadata, metadata());
    assert_eq!(clone.summaries_num_rows, 3);
    assert_eq!(clone.index_registry().indexes, snapshot.index_registry().indexes);
    assert_eq!(clone.table_summaries().tables, snapshot.table_summaries().tables);
    let tables = clone.table_registry();
    assert_eq!(tables.table_states, snapshot.table_registry().table_states);
    assert_eq!(tables.table_states.get(&5), Some(&TableState::Active));
    let id = tables.table_mapping.id(&TableName::new("users")).unwrap();
    assert_eq!(id.table_id, tid(5));
    assert_eq!(
        tables.virtual_table_mapping.number(&TableName::new("_storage")),
        Some(TableNumber(20))
    );
}

#[test]
fn tables_of_a_snapshot_can_be_walked() {
    let snapshot = load(all_indexes(), vec![]).unwrap();
    let scan = snapshot.full_table_scan(tid(5)).unwrap();
    assert_eq!(scan.table_id, tid(5));
    assert_eq!(scan.by_id, InternalId(50));
    assert_eq!(scan.cursor, None);
    assert_eq!(scan.iterator, snapshot.table_iterator());
    assert_eq!(
        snapshot.full_table_scan(tid(8)),
        Err(DatabaseError::ByIdNotFound { table_id: tid(8) })
    );
}

#[test]
fn snapshots_that_are_not_sound_are_refused() {
    let mut indexes = all_indexes();
    indexes.remove(0);
    assert_eq!(
        load(indexes, vec![]).unwrap_err(),
        DatabaseError::MissingByIdIndex { table_name: TableName::new("users") }
    );
    let mut indexes = all_indexes();
    indexes.push(entry(70, 7, "by_name", true));
    assert_eq!(
        load(indexes, vec![]).unwrap_err(),
        DatabaseError::MissingTable { table_id: tid(7) }
    );
}

#[test]
fn virtual_tables_that_cannot_be_read_are_errors() {
    // What is wrong with the virtual tables is told before anything else.
    let mut indexes = all_indexes();
    indexes.remove(0);
    assert_eq!(
        load(indexes, vec![Err(failure("scan"))]).unwrap_err(),
        DatabaseError::Service(failure("scan"))
    );
    assert_eq!(
        load(all_indexes(), vec![Ok(row(1, Err(failure("not a table"))))]).unwrap_err(),
        DatabaseError::Service(failure("not a table"))
    );
}

#[test]
fn the_virtual_tables_table_is_needed() {
    let tables = table_registry(vec![(5, "users", TableState::Active)]);
    let pending = DatabaseSnapshot::load_table_registry(
        Timestamp(77),
        &TableName::new("_virtual_tables"),
        tables.table_mapping,
        tables.table_states,
        &index_registry(vec![]),
    );
    assert_eq!(
        pending.unwrap_err(),
        DatabaseError::TableNameNotFound { table_name: TableName::new("_virtual_tables") }
    );
    let mut indexes = all_indexes();
    indexes.remove(1);
    assert_eq!(
        load(indexes, vec![]).unwrap_err(),
        DatabaseError::ByIdNotFound { table_id: tid(6) }
    );
}
