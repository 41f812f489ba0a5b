//! Listings of snapshots.

use database::errors::{DatabaseError, ErrorMetadata, ServiceError};
use database::identity::Identity;
use database::ids::{
    DocumentIdV6, InternalId, ResolvedDocumentId, TableId, TableIdAndTableNumber, TableNumber,
    Timestamp,
};
use database::listing::{
    ListedRow, ListingEvent, ListingOutcome, ListingRequest, ListingStart, SnapshotLister,
    SnapshotPage,
};
use database::names::TableName;
use database::scan::{ByIdIndexes, RowQuota};
use database::table_mapping::TableMapping;

const ADMIN: Identity = Identity { system: false, admin: true };

// The numbers of tables are not in the order of their ids.
fn mapping() -> TableMapping {
    let mut mapping = TableMapping::new();
    mapping.insert(TableId(InternalId(1)), TableNumber(10_003), TableName::new("users"));
    mapping.insert(TableId(InternalId(2)), TableNumber(10_001), TableName::new("messages"));
    mapping.insert(TableId(InternalId(3)), TableNumber(7), TableName::new("_tables"));
    mapping.insert(TableId(InternalId(4)), TableNumber(10_002), TableName::new("likes"));
    mapping
}

fn by_id() -> ByIdIndexes {
    let mut indexes = ByIdIndexes::new();
    indexes.insert(TableId(InternalId(1)), InternalId(101));
    indexes.insert(TableId(InternalId(2)), InternalId(102));
    indexes.insert(TableId(InternalId(4)), InternalId(104));
    indexes
}

fn table(number: u32) -> TableIdAndTableNumber {
    let id = match number {
        10_003 => 1,
        10_001 => 2,
        7 => 3,
        10_002 => 4,
        _ => 99,
    };
    TableIdAndTableNumber {
        table_id: TableId(InternalId(id)),
        table_number: TableNumber(number),
    }
}

fn row(ts: u64, number: u32, id: u128) -> ListedRow<&'static str> {
    ListedRow {
        ts: Timestamp(ts),
        id: ResolvedDocumentId { table: table(number), internal_id: InternalId(id) },
        document: "d",
    }
}

fn cursor(number: u32, id: u128) -> Option<DocumentIdV6> {
    Some(DocumentIdV6 { table_number: TableNumber(number), internal_id: InternalId(id) })
}

fn start(
    read: usize,
    returned: usize,
    from: Option<DocumentIdV6>,
    filter: Option<&str>,
) -> Result<ListingStart<&'static str>, DatabaseError> {
    ListingRequest::new(&ADMIN, Some(Timestamp(50)), Timestamp(60), read, returned)
        .unwrap()
        .start(mapping(), &by_id(), from, &filter.map(TableName::new))
}

fn lister(start: Result<ListingStart<&'static str>, DatabaseError>) -> SnapshotLister<&'static str> {
    match start {
        Ok(ListingStart::Scan(lister)) => lister,
        other => panic!("{:?}", other),
    }
}

#[test]
fn a_listing_begins_with_the_smallest_table_number() {
    let lister = lister(start(10, 10, None, None));
    let scan = lister.scan();
    assert_eq!(scan.table_id, TableId(InternalId(2)));
    assert_eq!(scan.by_id, InternalId(102));
    assert_eq!(scan.cursor, None);
    assert_eq!(scan.iterator.snapshot_ts, Timestamp(50));
    assert_eq!(scan.iterator.page_size, 100);
}

#[test]
fn the_end_of_a_table_leads_to_the_next_one() {
    let page = lister(start(10, 10, None, None))
        .read(vec![row(5, 10_001, 1), row(4, 10_001, 2)])
        .unwrap();
    assert_eq!(
        page,
        SnapshotPage {
            documents: vec![
                (Timestamp(5), TableName::new("messages"), "d"),
                (Timestamp(4), TableName::new("messages"), "d"),
            ],
            snapshot: Timestamp(50),
            cursor: cursor(10_002, 0),
            has_more: true,
        }
    );
}

#[test]
fn a_full_page_ends_with_its_last_document() {
    let rows = || vec![row(5, 10_001, 1), row(4, 10_001, 2), row(3, 10_001, 3)];
    let page = lister(start(2, 2, None, None)).read(rows()).unwrap();
    assert_eq!(page.documents.len(), 2);
    assert_eq!(page.cursor, cursor(10_001, 2));
    assert!(page.has_more);
    // A page with limits of zero still holds a document.
    let page = lister(start(0, 0, None, None)).read(rows()).unwrap();
    assert_eq!(page.documents.len(), 1);
    assert_eq!(page.cursor, cursor(10_001, 1));
}

#[test]
fn the_last_table_ends_the_listing() {
    let page = lister(start(10, 10, cursor(10_003, 5), None)).read(vec![]).unwrap();
    assert_eq!(page.documents.len(), 0);
    assert_eq!(page.cursor, None);
    assert!(!page.has_more);
}

#[test]
fn a_cursor_goes_on_inside_its_table() {
    let scan = lister(start(10, 10, cursor(10_002, 77), None)).scan();
    assert_eq!(scan.table_id, TableId(InternalId(4)));
    assert_eq!(
        scan.cursor,
        Some(ResolvedDocumentId { table: table(10_002), internal_id: InternalId(77) })
    );
}

#[test]
fn a_filter_lists_one_table() {
    let lister = lister(start(10, 10, None, Some("users")));
    assert_eq!(lister.scan().table_id, TableId(InternalId(1)));
    let page = lister.read(vec![row(5, 10_003, 1)]).unwrap();
    assert_eq!(page.cursor, None);
    assert!(!page.has_more);
}

#[test]
fn nothing_to_list_is_an_empty_page() {
    for filter in ["nothing", "_tables"] {
        match start(10, 10, None, Some(filter)) {
            Ok(ListingStart::Empty(page)) => assert_eq!(
                page,
                SnapshotPage {
                    documents: vec![],
                    snapshot: Timestamp(50),
                    cursor: None,
                    has_more: false,
                }
            ),
            other => panic!("{:?}", other),
        }
    }
}

#[test]
fn a_cursor_of_an_unknown_table_is_an_error() {
    assert!(matches!(
        start(10, 10, cursor(12_345, 1), None),
        Err(DatabaseError::TableNumberNotFound { table_number: TableNumber(12_345) })
    ));
}

#[test]
fn a_table_without_index_is_an_error() {
    let started: Result<ListingStart<&'static str>, DatabaseError> =
        ListingRequest::new(&ADMIN, None, Timestamp(60), 1, 1)
            .unwrap()
            .start(mapping(), &ByIdIndexes::new(), None, &None);
    assert!(matches!(
        started,
        Err(DatabaseError::ByIdIndexMissing { table_id: TableId(InternalId(2)) })
    ));
}

#[test]
fn a_document_of_an_unknown_table_is_an_error() {
    let listed = lister(start(10, 10, None, None)).read(vec![row(5, 55, 1)]);
    assert_eq!(
        listed,
        Err(DatabaseError::TableIdNotFound { table_id: TableId(InternalId(99)) })
    );
}

#[test]
fn a_scan_that_fails_fails_the_listing() {
    let error = || ServiceError {
        msg: "broken".to_string(),
        occ: false,
        overloaded: false,
        out_of_retention: false,
    };
    match lister(start(10, 10, None, None)).step(ListingEvent::Failed(error())) {
        ListingOutcome::Failed(failure) => assert_eq!(failure, DatabaseError::Service(error())),
        other => panic!("{:?}", other),
    }
}

#[test]
fn listing_again_lists_every_document_once() {
    let tables: Vec<(u32, Vec<u128>)> =
        vec![(10_001, vec![1, 2, 3]), (10_002, vec![]), (10_003, vec![4, 5])];
    for returned in 1..4 {
        let mut from: Option<DocumentIdV6> = None;
        let mut seen: Vec<(u32, u128)> = vec![];
        let mut calls = 0;
        loop {
            calls += 1;
            assert!(calls < 20);
            // The limits need not be the same in every call.
            let limit = 1 + (returned + calls) % 3;
            let lister = lister(start(10, limit, from, None));
            let scan = lister.scan();
            let mut listed = vec![];
            for (number, ids) in &tables {
                if table(*number).table_id == scan.table_id {
                    for id in ids {
                        let behind = match scan.cursor {
                            Some(c) => c.table.table_number.0 < *number || c.internal_id.0 < *id,
                            None => true,
                        };
                        if behind {
                            listed.push(row(1, *number, *id));
                        }
                    }
                }
            }
            let ids: Vec<(u32, u128)> = listed
                .iter()
                .map(|r| (r.id.table.table_number.0, r.id.internal_id.0))
                .collect();
            let page = lister.read(listed).unwrap();
            seen.extend(&ids[..page.documents.len()]);
            from = page.cursor;
            assert_eq!(page.has_more, from.is_some());
            if !page.has_more {
                break;
            }
        }
        assert_eq!(seen, vec![(10_001, 1), (10_001, 2), (10_001, 3), (10_003, 4), (10_003, 5)]);
    }
}

#[test]
fn listings_are_for_the_system_and_administrators() {
    let nobody = Identity { system: false, admin: false };
    match ListingRequest::new(&nobody, None, Timestamp(1), 1, 1) {
        Err(DatabaseError::Metadata(ErrorMetadata::Forbidden { short_msg, msg })) => {
            assert_eq!(short_msg, "Unauthorized");
            assert_eq!(msg, "Operation list_snapshot not permitted");
        },
        other => panic!("{:?}", other),
    }
}

#[test]
fn no_more_documents_may_be_returned_than_read() {
    assert_eq!(
        ListingRequest::new(&ADMIN, None, Timestamp(1), 3, 4).unwrap_err(),
        DatabaseError::ReturnLimitAboveReadLimit { rows_read_limit: 3, rows_returned_limit: 4 }
    );
}

#[test]
fn only_repeatable_snapshots_are_listed() {
    let request = |ts| ListingRequest::new(&ADMIN, ts, Timestamp(9), 1, 1);
    assert_eq!(request(None).unwrap().snapshot, Timestamp(9));
    assert_eq!(request(Some(Timestamp(9))).unwrap().snapshot, Timestamp(9));
    assert_eq!(request(Some(Timestamp(3))).unwrap().snapshot, Timestamp(3));
    assert!(matches!(
        request(Some(Timestamp(10))),
        Err(DatabaseError::NotRepeatable { ts: Timestamp(10), latest: Timestamp(9) })
    ));
}

#[test]
fn listings_read_a_hundred_rows_a_second() {
    assert_eq!(
        SnapshotLister::<&'static str>::quota(),
        RowQuota { burst: 100, replenish_nanos: 10_000_000 }
    );
}
