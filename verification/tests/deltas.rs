//! Pages of the change feed.

use database::deltas::{
    user_table_filter, DeltaRow, DeltasEvent, DeltasOutcome, DeltasRequest, DocumentDeltas,
};
use database::errors::{DatabaseError, ErrorMetadata, ServiceError};
use database::identity::Identity;
use database::ids::{
    DocumentIdV6, InternalId, TableId, TableNumber, Timestamp, MAX_TIMESTAMP,
};
use database::names::TableName;
use database::scan::{HistoryScan, Order};
use database::table_mapping::TableMapping;

const ADMIN: Identity = Identity { system: false, admin: true };

fn mapping() -> TableMapping {
    let mut mapping = TableMapping::new();
    mapping.insert(TableId(InternalId(1)), TableNumber(10_001), TableName::new("users"));
    mapping.insert(TableId(InternalId(2)), TableNumber(10_002), TableName::new("messages"));
    mapping.insert(TableId(InternalId(3)), TableNumber(7), TableName::new("_tables"));
    mapping
}

fn row(ts: u64, table: u128, id: u128, document: Option<&'static str>) -> DeltaRow<&'static str> {
    DeltaRow {
        ts: Timestamp(ts),
        table: TableId(InternalId(table)),
        id: InternalId(id),
        document,
    }
}

fn page(
    filter: Option<&str>,
    read: usize,
    returned: usize,
    history: Vec<DeltaRow<&'static str>>,
) -> DocumentDeltas<&'static str> {
    let filter = filter.map(TableName::new);
    DeltasRequest::new(&ADMIN, None, filter, read, returned)
        .unwrap()
        .read(Timestamp(100), mapping(), history)
        .unwrap()
}

fn times(page: &DocumentDeltas<&'static str>) -> Vec<u64> {
    page.deltas.iter().map(|delta| delta.0 .0).collect()
}

#[test]
fn system_tables_are_never_shown() {
    assert!(!user_table_filter(&None, &TableName::new("_tables")));
    assert!(!user_table_filter(&Some(TableName::new("_tables")), &TableName::new("_tables")));
    assert!(user_table_filter(&None, &TableName::new("users")));
    assert!(user_table_filter(&Some(TableName::new("users")), &TableName::new("users")));
    assert!(!user_table_filter(&Some(TableName::new("users")), &TableName::new("messages")));
    assert!(user_table_filter(&None, &TableName::new("")));
}

#[test]
fn deltas_show_number_name_and_tombstones() {
    let page = page(
        None,
        10,
        10,
        vec![row(5, 1, 21, Some("a")), row(5, 3, 22, Some("hidden")), row(6, 2, 23, None)],
    );
    assert_eq!(page.deltas.len(), 2);
    assert_eq!(
        page.deltas[0],
        (
            Timestamp(5),
            DocumentIdV6 { table_number: TableNumber(10_001), internal_id: InternalId(21) },
            TableName::new("users"),
            Some("a"),
        )
    );
    assert_eq!(
        page.deltas[1],
        (
            Timestamp(6),
            DocumentIdV6 { table_number: TableNumber(10_002), internal_id: InternalId(23) },
            TableName::new("messages"),
            None,
        )
    );
    assert_eq!(page.cursor, Timestamp(100));
    assert!(!page.has_more);
}

#[test]
fn rows_of_deleted_tables_are_skipped() {
    let page = page(None, 10, 10, vec![row(5, 99, 21, Some("gone")), row(6, 1, 22, Some("a"))]);
    assert_eq!(times(&page), vec![6]);
}

#[test]
fn a_page_holds_all_of_its_last_timestamp() {
    let history = vec![
        row(1, 1, 1, Some("a")),
        row(2, 1, 2, Some("b")),
        row(2, 1, 3, Some("c")),
        row(2, 2, 4, Some("d")),
        row(3, 1, 5, Some("e")),
    ];
    let page = page(None, 2, 2, history);
    assert_eq!(times(&page), vec![1, 2, 2, 2]);
    assert_eq!(page.cursor, Timestamp(2));
    assert!(page.has_more);
}

#[test]
fn a_page_that_ends_with_the_history_has_no_more() {
    let history = vec![row(1, 1, 1, Some("a")), row(2, 1, 2, Some("b")), row(2, 1, 3, Some("c"))];
    let page = page(None, 2, 2, history);
    assert_eq!(times(&page), vec![1, 2, 2]);
    assert_eq!(page.cursor, Timestamp(2));
    assert!(!page.has_more);
}

#[test]
fn rows_that_are_not_shown_count_as_read() {
    let history = vec![row(1, 3, 1, Some("x")), row(2, 3, 2, Some("y")), row(3, 1, 3, Some("z"))];
    let page = page(None, 2, 1, history);
    assert_eq!(times(&page), Vec::<u64>::new());
    assert_eq!(page.cursor, Timestamp(2));
    assert!(page.has_more);
}

#[test]
fn limits_of_zero_still_move_on() {
    let history = vec![row(4, 1, 1, Some("a")), row(5, 1, 2, Some("b"))];
    let page = page(None, 0, 0, history);
    assert_eq!(times(&page), vec![4]);
    assert_eq!(page.cursor, Timestamp(4));
    assert!(page.has_more);
}

#[test]
fn only_the_chosen_table_is_shown() {
    let history = vec![row(1, 1, 1, Some("a")), row(2, 2, 2, Some("b")), row(3, 1, 3, Some("c"))];
    assert_eq!(times(&page(Some("messages"), 9, 9, history)), vec![2]);
}

#[test]
fn calling_again_shows_the_whole_history_once() {
    let rows: Vec<(u64, u128)> =
        vec![(1, 1), (1, 2), (2, 3), (3, 4), (3, 5), (3, 6), (4, 7), (9, 8)];
    for read in 1..6 {
        for returned in 0..=read {
            let mut cursor: Option<Timestamp> = None;
            let mut seen: Vec<u128> = vec![];
            let mut calls = 0;
            loop {
                calls += 1;
                assert!(calls <= rows.len());
                let request =
                    DeltasRequest::new(&ADMIN, cursor, None, read, returned).unwrap();
                let first = request.start::<&'static str>(Timestamp(100), mapping()).unwrap();
                let from = first.first_ts();
                let history = rows
                    .iter()
                    .filter(|r| r.0 >= from.0)
                    .map(|r| row(r.0, 1, r.1, Some("d")))
                    .collect();
                // The limits need not be the same in every call.
                let more = read + calls % 3;
                let page = DeltasRequest::new(&ADMIN, cursor, None, more, returned)
                    .unwrap()
                    .read(Timestamp(100), mapping(), history)
                    .unwrap();
                seen.extend(page.deltas.iter().map(|delta| delta.1.internal_id.0));
                cursor = Some(page.cursor);
                if !page.has_more {
                    break;
                }
            }
            assert_eq!(seen, vec![1, 2, 3, 4, 5, 6, 7, 8]);
        }
    }
}

#[test]
fn the_history_is_read_from_the_first_change_to_the_last() {
    let collector = DeltasRequest::new(&ADMIN, Some(Timestamp(7)), None, 1, 1)
        .unwrap()
        .start::<&'static str>(Timestamp(100), mapping())
        .unwrap();
    assert_eq!(
        collector.scan(),
        HistoryScan {
            table_id: None,
            first_ts: Timestamp(8),
            last_ts: Timestamp(100),
            order: Order::Asc,
        }
    );
}

#[test]
fn deltas_come_in_order() {
    let history =
        vec![row(5, 1, 21, Some("a")), row(5, 1, 22, None), row(5, 2, 3, None), row(6, 1, 1, None)];
    let found: Vec<(u64, u32, u128)> = page(None, 9, 9, history)
        .deltas
        .iter()
        .map(|delta| (delta.0 .0, delta.1.table_number.0, delta.1.internal_id.0))
        .collect();
    assert_eq!(
        found,
        vec![(5, 10_001, 21), (5, 10_001, 22), (5, 10_002, 3), (6, 10_001, 1)]
    );
}

#[test]
fn tables_may_go_away_between_calls() {
    let read = |cursor, limit, mapping, history| {
        DeltasRequest::new(&ADMIN, cursor, None, limit, limit)
            .unwrap()
            .read(Timestamp(100), mapping, history)
            .unwrap()
    };
    let first =
        read(None, 1, mapping(), vec![row(1, 1, 21, Some("a")), row(2, 2, 22, Some("b"))]);
    assert_eq!((times(&first), first.cursor, first.has_more), (vec![1], Timestamp(1), true));
    let mut fewer = TableMapping::new();
    fewer.insert(TableId(InternalId(1)), TableNumber(10_001), TableName::new("users"));
    let history = vec![row(2, 2, 22, Some("b")), row(3, 1, 21, None)];
    let second = read(Some(first.cursor), 9, fewer, history);
    assert_eq!((times(&second), second.has_more), (vec![3], false));
}

#[test]
fn the_history_is_read_from_behind_the_cursor() {
    let first = |cursor: Option<Timestamp>| {
        DeltasRequest::new(&ADMIN, cursor, None, 1, 1)
            .unwrap()
            .start::<&'static str>(Timestamp(100), mapping())
            .map(|collector| collector.first_ts())
    };
    assert_eq!(first(None), Ok(Timestamp(0)));
    assert_eq!(first(Some(Timestamp(7))), Ok(Timestamp(8)));
    assert_eq!(first(Some(Timestamp(MAX_TIMESTAMP))), Err(DatabaseError::TimestampOverflow));
}

#[test]
fn a_history_that_is_gone_is_a_bad_request() {
    let collector = DeltasRequest::new(&ADMIN, Some(Timestamp(41)), None, 1, 1)
        .unwrap()
        .start::<&'static str>(Timestamp(100), mapping())
        .unwrap();
    let error = ServiceError {
        msg: "gone".to_string(),
        occ: false,
        overloaded: false,
        out_of_retention: true,
    };
    match collector.step(DeltasEvent::Failed(error)) {
        DeltasOutcome::Failed(DatabaseError::Metadata(ErrorMetadata::BadRequest {
            short_msg,
            msg,
        })) => {
            assert_eq!(short_msg, "InvalidWindowToReadDocuments");
            assert_eq!(msg, "Timestamp 42 is too old");
        },
        other => panic!("{:?}", other),
    }
}

#[test]
fn other_failures_of_the_history_are_passed_on() {
    let collector = DeltasRequest::new(&ADMIN, None, None, 1, 1)
        .unwrap()
        .start::<&'static str>(Timestamp(100), mapping())
        .unwrap();
    let error = || ServiceError {
        msg: "broken".to_string(),
        occ: false,
        overloaded: true,
        out_of_retention: false,
    };
    match collector.step(DeltasEvent::Failed(error())) {
        DeltasOutcome::Failed(failure) => assert_eq!(failure, DatabaseError::Service(error())),
        other => panic!("{:?}", other),
    }
}

#[test]
fn deltas_are_for_the_system_and_administrators() {
    let nobody = Identity { system: false, admin: false };
    match DeltasRequest::new(&nobody, None, None, 1, 1) {
        Err(DatabaseError::Metadata(ErrorMetadata::Forbidden { short_msg, msg })) => {
            assert_eq!(short_msg, "Unauthorized");
            assert_eq!(msg, "Operation document_deltas not permitted");
        },
        other => panic!("{:?}", other),
    }
    assert!(DeltasRequest::new(&Identity::system(), None, None, 1, 1).is_ok());
    // Who may not ask is told so whatever the limits are.
    assert!(matches!(
        DeltasRequest::new(&nobody, None, None, 1, 2),
        Err(DatabaseError::Metadata(_))
    ));
}

#[test]
fn no_more_deltas_may_be_returned_than_read() {
    let error = DeltasRequest::new(&ADMIN, None, None, 1, 2).unwrap_err();
    assert_eq!(
        error,
        DatabaseError::ReturnLimitAboveReadLimit { rows_read_limit: 1, rows_returned_limit: 2 }
    );
    assert_eq!(
        error.message().unwrap(),
        "Condition failed: `rows_read_limit >= rows_returned_limit` (1 vs 2)"
    );
    assert!(DeltasRequest::new(&ADMIN, None, None, 2, 2).is_ok());
}

#[test]
fn later_changes_are_not_lost() {
    let before = || vec![row(1, 1, 1, Some("a")), row(2, 1, 2, Some("b"))];
    for limit in 1..4 {
        let first = page(None, limit, limit, before());
        // The first call saw the history up to its upper bound.
        assert!(first.cursor <= Timestamp(100));
        let mut history = before();
        history.push(row(101, 1, 3, Some("c")));
        history.push(row(102, 2, 4, Some("d")));
        let rest: Vec<DeltaRow<&'static str>> =
            history.into_iter().filter(|r| r.ts > first.cursor).collect();
        let second = DeltasRequest::new(&ADMIN, Some(first.cursor), None, 9, 9)
            .unwrap()
            .read(Timestamp(200), mapping(), rest)
            .unwrap();
        let mut seen = times(&first);
        seen.extend(times(&second));
        assert_eq!(seen, vec![1, 2, 101, 102]);
        assert_eq!(second.cursor, Timestamp(200));
    }
}
