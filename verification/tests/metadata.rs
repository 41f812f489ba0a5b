//! What documents say of tables and indexes.

use database::errors::ServiceError;
use database::ids::{InternalId, TableId, TableNumber, Timestamp};
use database::metadata::{
    ParsedDocument, ScanRow, TableMetadata, TableState, VirtualTableMetadata,
};
use database::names::TableName;
use database::snapshot::DatabaseSnapshot;

fn document(id: u128, name: &str, number: u32, state: TableState) -> ParsedDocument<TableMetadata> {
    ParsedDocument {
        id: InternalId(id),
        value: TableMetadata { name: TableName::new(name), number: TableNumber(number), state },
    }
}

fn failure(msg: &str) -> ServiceError {
    ServiceError { msg: msg.to_string(), occ: false, overloaded: false, out_of_retention: false }
}

fn row(id: u128, document: Result<&'static str, ServiceError>) -> ScanRow<Result<&'static str, ServiceError>> {
    ScanRow { id: InternalId(id), ts: Timestamp(1), document }
}

#[test]
fn tables_are_mapped_by_their_state() {
    let (mapping, states) = DatabaseSnapshot::table_mapping_and_states(vec![
        document(1, "users", 10_001, TableState::Active),
        document(2, "users", 10_001, TableState::Hidden),
        document(3, "old", 10_002, TableState::Deleting),
    ]);
    let users = mapping.id(&TableName::new("users")).unwrap();
    assert_eq!(users.table_id, TableId(InternalId(1)));
    assert_eq!(users.table_number, TableNumber(10_001));
    assert_eq!(mapping.id_by_number(TableNumber(10_001)), Some(TableId(InternalId(1))));
    assert_eq!(mapping.tablet_name(TableId(InternalId(2))), Some(&TableName::new("users")));
    assert!(!mapping.table_id_exists(TableId(InternalId(3))));
    assert!(!mapping.name_exists(&TableName::new("old")));
    assert_eq!(mapping.table_ids(), vec![TableId(InternalId(1)), TableId(InternalId(2))]);
    // What is done with every table is known, the one that is emptied included.
    assert_eq!(states.len(), 3);
    assert_eq!(states.get(&1), Some(&TableState::Active));
    assert_eq!(states.get(&2), Some(&TableState::Hidden));
    assert_eq!(states.get(&3), Some(&TableState::Deleting));
}

#[test]
fn later_states_replace_earlier_ones() {
    let (_, states) = DatabaseSnapshot::table_mapping_and_states(vec![
        document(1, "users", 10_001, TableState::Hidden),
        document(1, "users", 10_001, TableState::Active),
    ]);
    assert_eq!(states.len(), 1);
    assert_eq!(states.get(&1), Some(&TableState::Active));
}

#[test]
fn documents_are_parsed_in_the_order_of_ids() {
    let rows = vec![Ok(row(9, Ok("nine"))), Ok(row(2, Ok("two"))), Ok(row(5, Ok("five")))];
    let documents = DatabaseSnapshot::load_table_documents(rows).unwrap();
    let found: Vec<(u128, &str)> = documents.iter().map(|d| (d.id.0, d.value)).collect();
    assert_eq!(found, vec![(2, "two"), (5, "five"), (9, "nine")]);
}

#[test]
fn the_first_document_that_is_not_understood_is_the_error() {
    let rows = vec![
        Ok(row(9, Err(failure("nine")))),
        Ok(row(2, Ok("two"))),
        Ok(row(5, Err(failure("five")))),
    ];
    assert_eq!(DatabaseSnapshot::load_table_documents(rows), Err(failure("five")));
}

#[test]
fn a_scan_that_fails_comes_before_documents() {
    let rows = vec![
        Ok(row(2, Err(failure("two")))),
        Err(failure("scan")),
        Err(failure("scan again")),
    ];
    assert_eq!(DatabaseSnapshot::load_table_documents(rows), Err(failure("scan")));
}

#[test]
fn raw_documents_are_found_by_id() {
    let rows: Vec<Result<ScanRow<&str>, ServiceError>> = vec![
        Ok(ScanRow { id: InternalId(4), ts: Timestamp(10), document: "a" }),
        Ok(ScanRow { id: InternalId(3), ts: Timestamp(11), document: "b" }),
    ];
    let documents = DatabaseSnapshot::load_raw_table_documents(rows).unwrap();
    assert_eq!(documents.len(), 2);
    assert_eq!(documents.get(&4), Some(&(Timestamp(10), "a")));
    assert_eq!(documents.get(&3), Some(&(Timestamp(11), "b")));
}

#[test]
fn virtual_tables_are_mapped_both_ways() {
    let virtual_table = |name: &str, number: u32| ParsedDocument {
        id: InternalId(number as u128),
        value: VirtualTableMetadata {
            name: TableName::new(name),
            number: TableNumber(number),
        },
    };
    let mapping = DatabaseSnapshot::virtual_table_mapping(vec![
        virtual_table("_storage", 20),
        virtual_table("_other", 21),
    ]);
    assert_eq!(mapping.number(&TableName::new("_storage")), Some(TableNumber(20)));
    assert_eq!(mapping.number(&TableName::new("_none")), None);
    assert_eq!(mapping.name(TableNumber(21)), Some(&TableName::new("_other")));
    assert_eq!(mapping.name(TableNumber(22)), None);
}
