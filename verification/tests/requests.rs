//! What a loaded database makes of requests.

use database::database::{
    Database, LoadStart, MetadataScan, PersistenceVersion, TableSummarySnapshot,
    WrittenDatabase,
};
use database::errors::{DatabaseError, ErrorMetadata, ServiceError};
use database::identity::Identity;
use database::ids::{
    DocumentIdV6, InternalId, TableId, TableIdAndTableNumber, TableNumber, Timestamp,
    MAX_TIMESTAMP,
};
use database::meta_ids::BootstrapMetadata;
use database::metadata::{ParsedDocument, TableMetadata, TableState};
use database::name_map::NameMap;
use database::names::{TableName, TabletIndexName};
use database::registry::{
    IndexEntry, IndexRegistry, SearchIndexes, Snapshot, TableRegistry, TableSummaries,
    TableSummary,
};
use database::occ::WriteSource;
use database::retry::{Backoff, RetryNext};
use database::scan::{ByIdIndexes, HistoryScan, Order, RowQuota};
use database::search::{
    PendingVectorSearch, PublicVectorSearchQueryResult, VectorEgress, VectorSearchResult,
    VectorSearchStart,
};
use database::snapshot::DatabaseSnapshot;
use database::storage::VectorIndexSize;
use std::collections::BTreeMap;

const ADMIN: Identity = Identity { system: false, admin: true };
const NOBODY: Identity = Identity { system: false, admin: false };

fn tid(id: u128) -> TableId {
    TableId(InternalId(id))
}

fn failure(msg: &str) -> ServiceError {
    ServiceError { msg: msg.to_string(), occ: false, overloaded: false, out_of_retention: false }
}

fn entry(id: u128, table: u128, descriptor: &str, enabled: bool, system_owned: bool) -> IndexEntry {
    IndexEntry {
        id: InternalId(id),
        name: TabletIndexName { table: tid(table), descriptor: descriptor.to_string() },
        enabled,
        system_owned,
    }
}

fn document(id: u128, name: &str, number: u32, state: TableState) -> ParsedDocument<TableMetadata> {
    ParsedDocument {
        id: InternalId(id),
        value: TableMetadata { name: TableName::new(name), number: TableNumber(number), state },
    }
}

fn documents() -> Vec<ParsedDocument<TableMetadata>> {
    vec![
        document(1, "_tables", 1, TableState::Active),
        document(2, "_index", 2, TableState::Active),
        document(5, "users", 10_001, TableState::Active),
        document(6, "messages", 10_002, TableState::Active),
        document(7, "users", 10_001, TableState::Hidden),
    ]
}

fn indexes() -> Vec<IndexEntry> {
    vec![
        entry(11, 1, "by_id", true, true),
        entry(12, 2, "by_id", true, true),
        entry(15, 5, "by_id", true, true),
        entry(16, 6, "by_id", true, true),
        entry(17, 7, "by_id", true, true),
        entry(25, 5, "by_name", true, false),
        entry(26, 5, "by_age", true, false),
        entry(27, 6, "by_author", true, false),
        entry(28, 6, "by_date", false, false),
        entry(29, 7, "by_name", true, false),
    ]
}

fn snapshot() -> Snapshot {
    let (table_mapping, table_states) = DatabaseSnapshot::table_mapping_and_states(documents());
    let mut tables = BTreeMap::new();
    tables.insert(5, TableSummary { total_size_rounded: 100 });
    tables.insert(6, TableSummary { total_size_rounded: 7 });
    Snapshot {
        table_registry: TableRegistry {
            table_mapping,
            table_states,
            virtual_table_mapping: DatabaseSnapshot::virtual_table_mapping(vec![]),
        },
        table_summaries: TableSummaries { tables },
        index_registry: IndexRegistry {
            index_table: TableIdAndTableNumber {
                table_id: tid(2),
                table_number: TableNumber(2),
            },
            indexes: indexes(),
        },
        search_indexes: SearchIndexes::bootstrapping(PersistenceVersion(5)),
    }
}

fn metadata() -> BootstrapMetadata {
    BootstrapMetadata {
        tables_by_id: InternalId(11),
        index_by_id: InternalId(12),
        tables_table_id: tid(1),
        index_table_id: tid(2),
    }
}

fn loaded(summaries_num_rows: usize) -> DatabaseSnapshot {
    DatabaseSnapshot {
        ts: Timestamp(40),
        bootstrap_metadata: metadata(),
        snapshot: snapshot(),
        summaries_num_rows,
    }
}

type TestDatabase = Database<&'static str, &'static str>;

fn written() -> WrittenDatabase {
    match TestDatabase::load(false) {
        LoadStart::Read(database) => database,
        other => panic!("{:?}", other),
    }
}

fn finish(
    at_start: u64,
    at_end: Option<u64>,
    summaries_num_rows: usize,
) -> Result<(TestDatabase, Option<TableSummarySnapshot>), DatabaseError> {
    let load = written().read(Some(Timestamp(at_start)))?;
    load.finish(
        at_end.map(Timestamp),
        loaded(summaries_num_rows),
        "runtime",
        PersistenceVersion(5),
    )
}

fn database() -> TestDatabase {
    finish(39, Some(39), 0).unwrap().0
}

fn refusal<T: std::fmt::Debug>(result: Result<T, DatabaseError>) -> String {
    match result {
        Err(DatabaseError::Metadata(ErrorMetadata::Forbidden { msg, .. })) => msg,
        other => panic!("{:?}", other),
    }
}

#[test]
fn a_loaded_database_begins_at_the_snapshot() {
    let database = database();
    assert_eq!(database.now_ts_for_reads(), Timestamp(40));
    assert_eq!(*database.runtime(), "runtime");
    assert_eq!(database.persistence_version(), PersistenceVersion(5));
    assert_eq!(database.bootstrap_metadata, metadata());
    assert_eq!(database.write_commits_since_load(), 0);
    assert_eq!(database.latest_snapshot().index_registry.indexes.len(), 10);
}

#[test]
fn a_history_that_goes_on_stops_a_load() {
    assert_eq!(
        finish(39, Some(41), 0).unwrap_err(),
        DatabaseError::RaceWhileLoading { at_start: Timestamp(39), at_end: Timestamp(41) }
    );
    assert_eq!(finish(39, None, 0).unwrap_err(), DatabaseError::NoDocuments);
    assert_eq!(written().read(None).unwrap_err(), DatabaseError::NoDocuments);
}

#[test]
fn summaries_are_written_if_they_were_not_up_to_date() {
    assert!(finish(39, Some(39), 0).unwrap().1.is_none());
    let written = finish(39, Some(39), 1).unwrap().1.unwrap();
    assert_eq!(written.ts, Timestamp(40));
    assert_eq!(written.tables.len(), 2);
    assert_eq!(written.tables.get(&5), Some(&TableSummary { total_size_rounded: 100 }));
    assert_eq!(written.tables.get(&6), Some(&TableSummary { total_size_rounded: 7 }));
}

#[test]
fn search_storage_is_set_once() {
    let mut database = database();
    assert!(database.search_storage.is_none());
    database.set_search_storage("storage");
    assert_eq!(*database.search_storage(), "storage");
    database.publish(Timestamp(40), snapshot());
    assert_eq!(database.commit_with_write_source(false, Ok(Timestamp(41))), Ok(Timestamp(41)));
    assert_eq!(*database.search_storage(), "storage");
    let bootstrap = database.new_search_and_vector_bootstrap_worker();
    assert_eq!(bootstrap.ts, Timestamp(40));
    assert_eq!(bootstrap.index_registry.indexes.len(), 10);
    assert!(bootstrap.table_mapping.name_exists(&TableName::new("users")));
}

#[test]
fn the_clock_is_read_only_for_snapshots_that_are_found() {
    let pending = database().begin(ADMIN, "usage").unwrap();
    let found = pending.found(Ok(snapshot())).unwrap();
    assert_eq!(found.next_ts, Timestamp(41));
    assert_eq!(found.begin(Ok(Timestamp(90))).unwrap().begin_ts, Timestamp(90));
    let pending = database().begin(ADMIN, "usage").unwrap();
    assert_eq!(
        pending.found(Err(failure("gone"))).unwrap_err(),
        DatabaseError::Service(failure("gone"))
    );
}

#[test]
fn changes_of_a_table_are_read_in_order() {
    assert_eq!(
        database().load_documents_in_table(tid(5), Timestamp(3), Timestamp(9)),
        HistoryScan {
            table_id: Some(tid(5)),
            first_ts: Timestamp(3),
            last_ts: Timestamp(9),
            order: Order::Asc,
        }
    );
}

#[test]
fn commits_that_write_are_counted() {
    let mut database = database();
    assert_eq!(
        database.commit_with_write_source(false, Ok(Timestamp(41))),
        Ok(Timestamp(41))
    );
    assert_eq!(database.write_commits_since_load(), 1);
    assert_eq!(database.commit_with_write_source(true, Ok(Timestamp(42))), Ok(Timestamp(42)));
    assert_eq!(database.write_commits_since_load(), 1);
    assert_eq!(
        database.commit_with_write_source(false, Err(failure("no"))),
        Err(DatabaseError::Service(failure("no")))
    );
    assert_eq!(database.write_commits_since_load(), 1);
    database.write_commits_since_load = usize::MAX;
    assert!(database.commit_with_write_source(false, Ok(Timestamp(43))).is_ok());
    assert_eq!(database.write_commits_since_load(), 0);
}

#[test]
fn transactions_begin_at_what_can_be_read() {
    let database = database();
    let pending = database.begin_system("usage").unwrap();
    assert_eq!(pending.identity, Identity { system: true, admin: false });
    assert_eq!(pending.repeatable_ts, Timestamp(40));
    assert_eq!(pending.usage_tracker, "usage");
    let pending = database.begin_with_ts(ADMIN, Timestamp(12), "usage").unwrap();
    assert_eq!(pending.repeatable_ts, Timestamp(12));
    assert_eq!(pending.latest_ts, Timestamp(40));
    assert_eq!(
        database.begin_with_ts(ADMIN, Timestamp(41), "usage").unwrap_err(),
        DatabaseError::NotRepeatable { ts: Timestamp(41), latest: Timestamp(40) }
    );
    assert_eq!(
        database.begin_with_repeatable_ts(ADMIN, Timestamp(41), "usage").unwrap_err(),
        DatabaseError::BeyondNow { ts: Timestamp(41), latest: Timestamp(40) }
    );
}

#[test]
fn documents_are_created_after_what_is_read() {
    let begin = |now| {
        database()
            .begin(ADMIN, "usage")
            .unwrap()
            .begin(Ok(snapshot()), Ok(Timestamp(now)))
            .unwrap()
    };
    assert_eq!(begin(7).begin_ts, Timestamp(41));
    assert_eq!(begin(41).begin_ts, Timestamp(41));
    assert_eq!(begin(90).begin_ts, Timestamp(90));
    assert_eq!(begin(90).repeatable_ts, Timestamp(40));
    assert_eq!(begin(90).identity, ADMIN);
}

#[test]
fn transactions_that_cannot_begin_are_errors() {
    let pending = || database().begin_with_usage(ADMIN, "usage").unwrap();
    assert_eq!(
        pending().begin(Err(failure("too old")), Err(failure("clock"))).unwrap_err(),
        DatabaseError::Service(failure("too old"))
    );
    assert_eq!(
        pending().begin(Ok(snapshot()), Err(failure("clock"))).unwrap_err(),
        DatabaseError::Service(failure("clock"))
    );
    let mut last = database();
    last.latest_ts = Timestamp(MAX_TIMESTAMP);
    let pending = last.begin(ADMIN, "usage").unwrap();
    assert_eq!(
        pending.begin(Ok(snapshot()), Ok(Timestamp(1))).unwrap_err(),
        DatabaseError::TimestampOverflow
    );
}

#[test]
fn tables_of_the_past_are_read_with_todays_index() {
    let scan = database()
        .snapshot_table_mapping(Timestamp(9), &TableName::new("_tables"))
        .unwrap();
    assert_eq!(scan.scan.table_id, tid(1));
    assert_eq!(scan.scan.by_id, InternalId(11));
    assert_eq!(scan.scan.cursor, None);
    assert_eq!(scan.scan.iterator.snapshot_ts, Timestamp(9));
    assert_eq!(scan.scan.iterator.page_size, 100);
    assert_eq!(scan.quota, RowQuota { burst: 1000, replenish_nanos: 1_000_000 });
    assert_eq!(
        database().snapshot_table_mapping(Timestamp(9), &TableName::new("_none")),
        Err(DatabaseError::TableNameNotFound { table_name: TableName::new("_none") })
    );
}

#[test]
fn indexes_of_the_past_are_read_with_todays_index() {
    let scan = database().snapshot_by_id_indexes(Timestamp(9)).unwrap();
    assert_eq!(scan.scan.table_id, tid(2));
    assert_eq!(scan.scan.by_id, InternalId(12));
    let mut without = database();
    without.latest.index_registry.indexes.clear();
    assert_eq!(
        without.snapshot_by_id_indexes(Timestamp(9)),
        Err(DatabaseError::ByIdNotFound { table_id: tid(2) })
    );
}

#[test]
fn only_active_tables_of_the_past_are_mapped() {
    let mapping = MetadataScan::table_mapping(documents().into_iter().map(Ok).collect()).unwrap();
    assert!(mapping.table_id_exists(tid(5)));
    assert!(!mapping.table_id_exists(tid(7)));
    let mut rows: Vec<Result<ParsedDocument<TableMetadata>, ServiceError>> =
        documents().into_iter().map(Ok).collect();
    rows.push(Err(failure("row")));
    assert_eq!(
        MetadataScan::table_mapping(rows).unwrap_err(),
        DatabaseError::Service(failure("row"))
    );
}

#[test]
fn indexes_over_ids_are_picked_out() {
    let name = |table, descriptor: &str| TabletIndexName {
        table: tid(table),
        descriptor: descriptor.to_string(),
    };
    let found = MetadataScan::by_id_indexes(vec![
        Ok(ParsedDocument { id: InternalId(31), value: name(5, "by_id") }),
        Ok(ParsedDocument { id: InternalId(32), value: name(5, "by_name") }),
        Ok(ParsedDocument { id: InternalId(33), value: name(6, "by_creation_time") }),
    ])
    .unwrap();
    assert_eq!(found.get(tid(5)), Some(InternalId(31)));
    assert_eq!(found.get(tid(6)), None);
    assert_eq!(
        MetadataScan::by_id_indexes(vec![Err(failure("row"))]).unwrap_err(),
        DatabaseError::Service(failure("row"))
    );
}

#[test]
fn tables_are_walked_by_name() {
    let database = database();
    let mapping = &database.latest.table_registry.table_mapping;
    let users = TableName::new("users");
    let walk = || database.iter_table_documents(Timestamp(9), &users, mapping).unwrap();
    let mut indexes = ByIdIndexes::new();
    assert_eq!(
        walk().scan(&indexes),
        Err(DatabaseError::ByIdNotFoundForName { table_name: TableName::new("users") })
    );
    indexes.insert(tid(5), InternalId(99));
    let scan = walk().scan(&indexes).unwrap();
    assert_eq!(scan.table_id, tid(5));
    assert_eq!(scan.by_id, InternalId(99));
    assert_eq!(scan.iterator, database.table_iterator(Timestamp(9), 100));
    assert_eq!(
        database
            .iter_table_documents(Timestamp(9), &TableName::new("none"), mapping)
            .unwrap_err(),
        DatabaseError::TableNameNotFound { table_name: TableName::new("none") }
    );
}

#[test]
fn retries_begin_without_failures() {
    let database = database();
    let retries =
        database.execute_with_retries(ADMIN, 8, Backoff::new(1, 2), WriteSource::unknown());
    assert_eq!(retries.max_failures, 8);
    assert_eq!(retries.backoff.failures, 0);
    let retries = database.execute_with_occ_retries(ADMIN, WriteSource::unknown());
    assert_eq!(retries.max_failures, 3);
    match retries.next() {
        RetryNext::Begin(attempt) => {
            let pending = attempt.begin(&database, "usage").unwrap();
            assert_eq!(pending.identity, ADMIN);
            assert_eq!(pending.repeatable_ts, Timestamp(40));
        },
        other => panic!("{:?}", other),
    }
    assert_eq!(database.vector_search().backoff.failures, 0);
}

#[test]
fn requests_are_held_against_the_latest_timestamp() {
    let database = database();
    assert_eq!(
        database.list_snapshot(&ADMIN, None, 2, 1).unwrap().snapshot,
        Timestamp(40)
    );
    assert!(matches!(
        database.list_snapshot(&ADMIN, Some(Timestamp(41)), 2, 1),
        Err(DatabaseError::NotRepeatable { .. })
    ));
    let request = database.document_deltas(&ADMIN, Some(Timestamp(3)), None, 2, 1).unwrap();
    assert_eq!(request.cursor, Some(Timestamp(3)));
    assert_eq!(request.rows_read_limit, 2);
    assert_eq!(request.rows_returned_limit, 1);
}

#[test]
fn table_names_are_those_of_active_user_tables() {
    let database = database();
    let names: Vec<String> =
        database.table_names(&ADMIN).unwrap().into_iter().map(|name| name.name).collect();
    assert_eq!(names, vec!["messages".to_string(), "users".to_string()]);
    assert_eq!(
        refusal(database.table_names(&NOBODY)),
        "Operation table_names not permitted"
    );
}

fn vector_index(table: u128, size: Result<u64, ServiceError>) -> VectorIndexSize {
    VectorIndexSize { table: tid(table), size }
}

#[test]
fn vector_indexes_are_summed_up_by_table_name() {
    let database = database();
    let sums = database
        .get_vector_index_storage(
            &ADMIN,
            vec![
                vector_index(5, Ok(10)),
                vector_index(6, Ok(1)),
                vector_index(7, Ok(20)),
            ],
        )
        .unwrap();
    assert_eq!(sums.get(&"users".to_string()), Some(&30));
    assert_eq!(sums.get(&"messages".to_string()), Some(&1));
    assert_eq!(sums.get(&"_tables".to_string()), None);
    assert_eq!(sums.names(), vec!["messages".to_string(), "users".to_string()]);
    assert_eq!(
        refusal(database.get_vector_index_storage(&NOBODY, vec![])),
        "Operation get_vector_index_storage not permitted"
    );
}

#[test]
fn vector_indexes_that_are_not_known_are_errors() {
    let database = database();
    assert_eq!(
        database
            .get_vector_index_storage(
                &ADMIN,
                vec![
                    vector_index(5, Ok(10)),
                    vector_index(9, Err(failure("size"))),
                    vector_index(5, Err(failure("size"))),
                ],
            )
            .unwrap_err(),
        DatabaseError::TableIdNotFound { table_id: tid(9) }
    );
    assert_eq!(
        database
            .get_vector_index_storage(&ADMIN, vec![vector_index(5, Err(failure("size")))])
            .unwrap_err(),
        DatabaseError::Service(failure("size"))
    );
}

#[test]
fn sums_that_are_too_large_are_noticed() {
    let snapshot = snapshot();
    let fits = |indexes| snapshot.vector_index_storage_fits(&indexes);
    assert!(fits(vec![vector_index(5, Ok(u64::MAX)), vector_index(6, Ok(u64::MAX))]));
    assert!(!fits(vec![vector_index(5, Ok(u64::MAX)), vector_index(7, Ok(1))]));
    assert!(fits(vec![
        vector_index(5, Ok(u64::MAX)),
        vector_index(9, Ok(1)),
        vector_index(5, Ok(1)),
    ]));
}

fn sizes() -> Vec<(TableName, TableSummary)> {
    vec![
        (TableName::new("users"), TableSummary { total_size_rounded: 100 }),
        (TableName::new("messages"), TableSummary { total_size_rounded: 7 }),
    ]
}

#[test]
fn user_indexes_are_as_large_as_their_documents() {
    let database = database();
    assert!(database.latest.user_storage_can_be_told(&sizes()));
    let storage = database.get_user_document_and_index_storage(&ADMIN, &sizes()).unwrap();
    // Three indexes of users, two on the active table and one on the hidden one.
    assert_eq!(storage.get(&"users".to_string()), Some(&(100, 300)));
    // One of the two indexes is not enabled.
    assert_eq!(storage.get(&"messages".to_string()), Some(&(7, 7)));
    assert_eq!(
        refusal(database.get_user_document_and_index_storage(&NOBODY, &sizes())),
        "Operation get_user_document_storage not permitted"
    );
}

#[test]
fn storage_that_cannot_be_told_is_noticed() {
    let mut snapshot = snapshot();
    let mut some = sizes();
    some.remove(1);
    assert!(!snapshot.user_storage_can_be_told(&some));
    let mut large = sizes();
    large[0].1.total_size_rounded = u64::MAX / 2;
    assert!(!snapshot.user_storage_can_be_told(&large));
    large[0].1.total_size_rounded = u64::MAX / 3;
    assert!(snapshot.user_storage_can_be_told(&large));
    snapshot.index_registry.indexes.push(entry(40, 88, "by_id", true, true));
    assert!(!snapshot.user_storage_can_be_told(&sizes()));
}

fn search(table: &str, descriptor: &str) -> Result<VectorSearchStart, DatabaseError> {
    database().vector_search_at_ts(&snapshot(), &TableName::new(table), &descriptor.to_string())
}

fn pending() -> PendingVectorSearch {
    match search("users", "by_age") {
        Ok(VectorSearchStart::Search(pending)) => pending,
        other => panic!("{:?}", other),
    }
}

#[test]
fn a_search_in_an_unknown_table_finds_nothing() {
    assert!(matches!(search("none", "by_age"), Ok(VectorSearchStart::NoTable)));
}

#[test]
fn a_search_needs_an_enabled_index() {
    assert_eq!(pending().index_id, InternalId(26));
    assert_eq!(pending().table_number, TableNumber(10_001));
    assert_eq!(pending().index_name.table, tid(5));
    assert_eq!(
        search("messages", "by_date").unwrap_err(),
        DatabaseError::IndexNotEnabled { table_id: tid(6), descriptor: "by_date".to_string() }
    );
}

#[test]
fn results_are_told_with_table_numbers() {
    let found = vec![
        VectorSearchResult { id: InternalId(8), score: 0.5f32 },
        VectorSearchResult { id: InternalId(3), score: 0.25f32 },
    ];
    let id = |internal| DocumentIdV6 {
        table_number: TableNumber(10_001),
        internal_id: InternalId(internal),
    };
    assert_eq!(
        pending().public_results(found),
        vec![
            PublicVectorSearchQueryResult { id: id(8), score: 0.5f32 },
            PublicVectorSearchQueryResult { id: id(3), score: 0.25f32 },
        ]
    );
    assert_eq!(
        pending().egress(&vec![3, 4, 5]),
        VectorEgress { table_name: "users".to_string(), size: 12, is_system: false }
    );
}

#[test]
fn text_searches_need_an_enabled_index() {
    let database = database();
    let snapshot = snapshot();
    let index = database.search_with_compiled_query(&snapshot, InternalId(27)).unwrap();
    assert_eq!(index.name.descriptor, "by_author");
    assert_eq!(
        database.search_with_compiled_query(&snapshot, InternalId(28)).unwrap_err(),
        DatabaseError::MissingIndex { index_id: InternalId(28) }
    );
}

#[test]
fn system_tables_are_written_if_and_only_if_the_database_is_fresh() {
    assert!(matches!(TestDatabase::load(false), LoadStart::Read(_)));
    match TestDatabase::load(true) {
        LoadStart::Initialize(fresh) => assert_eq!(
            fresh.initialized(Err(DatabaseError::NoDocuments)).unwrap_err(),
            DatabaseError::NoDocuments
        ),
        other => panic!("{:?}", other),
    }
}

#[test]
fn reads_see_what_is_published() {
    let mut database = database();
    let mut later = snapshot();
    later.index_registry.indexes.clear();
    database.publish(Timestamp(50), later);
    assert_eq!(database.now_ts_for_reads(), Timestamp(50));
    assert!(database.latest_snapshot().index_registry.indexes.is_empty());
    assert_eq!(database.bootstrap_metadata, metadata());
}

#[test]
fn names_come_in_the_order_of_their_characters() {
    let mut map = NameMap::new();
    for name in ["b", "", "ab", "a", "\u{e9}", "B", "ab"] {
        map.insert(name.to_string(), 1);
    }
    assert_eq!(map.names(), vec!["", "B", "a", "ab", "b", "\u{e9}"]);
}
