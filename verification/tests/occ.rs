//! How conflicts are told.

use database::errors::{DatabaseError, ErrorMetadata};
use database::ids::{
    InternalId, ResolvedDocumentId, TableId, TableIdAndTableNumber, TableNumber,
};
use database::names::{TableName, TabletIndexName};
use database::occ::{
    occ_write_source_string, ConflictingRead, ConflictingReadWithWriteSource, WriteSource,
    DEFAULT_NUM_READ_SET_STACKS,
};
use database::table_mapping::TableMapping;

fn mapping() -> TableMapping {
    let mut mapping = TableMapping::new();
    mapping.insert(TableId(InternalId(1)), TableNumber(10_001), TableName::new("users"));
    mapping.insert(TableId(InternalId(2)), TableNumber(30), TableName::new("_modules"));
    mapping
}

fn source(name: &str) -> WriteSource {
    WriteSource(Some(name.to_string()))
}

fn conflict(
    table: u128,
    write_source: WriteSource,
    stack_traces: Option<Vec<&str>>,
) -> ConflictingReadWithWriteSource {
    let table_id = TableId(InternalId(table));
    ConflictingReadWithWriteSource {
        read: ConflictingRead {
            index: TabletIndexName { table: table_id, descriptor: "by_path".to_string() },
            id: ResolvedDocumentId {
                table: TableIdAndTableNumber { table_id, table_number: TableNumber(1) },
                internal_id: InternalId(5),
            },
            stack_traces: stack_traces
                .map(|traces| traces.into_iter().map(|t| t.to_string()).collect()),
        },
        write_source,
    }
}

fn system_message(
    write_source: WriteSource,
    stack_traces: Option<Vec<&str>>,
    shown: usize,
) -> String {
    let error = conflict(2, write_source, stack_traces).into_error(
        &mapping(),
        &source("other"),
        "k57".to_string(),
        shown,
    );
    match error {
        DatabaseError::Metadata(ErrorMetadata::SystemOcc { msg }) => msg,
        other => panic!("{:?}", other),
    }
}

#[test]
fn writers_are_named() {
    assert_eq!(
        occ_write_source_string("send", "k57".to_string(), false),
        "A call to \"send\" changed the document with ID \"k57\""
    );
    assert_eq!(
        occ_write_source_string("send", "k57".to_string(), true),
        "Another call to this mutation changed the document with ID \"k57\""
    );
}

#[test]
fn conflicts_on_deleted_tables_tell_nothing() {
    let error =
        conflict(9, source("send"), None).into_error(&mapping(), &source("send"), "k".into(), 1);
    assert_eq!(
        error,
        DatabaseError::Metadata(ErrorMetadata::UserOcc { table_name: None, write_source: None })
    );
}

#[test]
fn conflicts_on_user_tables_tell_table_and_writer() {
    let error =
        conflict(1, source("send"), None).into_error(&mapping(), &source("send"), "k57".into(), 1);
    assert_eq!(
        error,
        DatabaseError::Metadata(ErrorMetadata::UserOcc {
            table_name: Some("users".to_string()),
            write_source: Some(
                "Another call to this mutation changed the document with ID \"k57\"".to_string()
            ),
        })
    );
}

#[test]
fn one_stack_trace_is_shown_by_default() {
    let traces = Some(vec!["at a", "at b"]);
    assert_eq!(
        system_message(WriteSource::unknown(), traces, DEFAULT_NUM_READ_SET_STACKS),
        "(conflicts with read of system table _modules.by_path). Displaying 1/2 stack traces of \
         relevant reads. Increase NUM_READ_SET_STACKS for more:\nat a"
    );
}

#[test]
fn documents_are_not_named_without_a_writer() {
    let told = |id: &str| {
        conflict(1, WriteSource::unknown(), None).into_error(
            &mapping(),
            &WriteSource::unknown(),
            id.to_string(),
            1,
        )
    };
    assert_eq!(
        told("k57"),
        DatabaseError::Metadata(ErrorMetadata::UserOcc {
            table_name: Some("users".to_string()),
            write_source: None,
        })
    );
    assert_eq!(told("k57"), told("j12"));
}

#[test]
fn conflicts_on_system_tables_tell_the_index() {
    assert_eq!(
        system_message(WriteSource::unknown(), None, 1),
        "(conflicts with read of system table _modules.by_path). Use RUST_BACKTRACE=1 \
         READ_SET_CAPTURE_BACKTRACES=true to find trace of relevant reads"
    );
    assert_eq!(
        system_message(source("send"), None, 1),
        "A call to \"send\" changed the document with ID \"k57\".\n(conflicts with read of system \
         table _modules.by_path). Use RUST_BACKTRACE=1 READ_SET_CAPTURE_BACKTRACES=true to find \
         trace of relevant reads"
    );
}

#[test]
fn stack_traces_are_shown_up_to_the_limit() {
    let traces = || Some(vec!["one", "two", "three"]);
    assert_eq!(
        system_message(WriteSource::unknown(), traces(), 2),
        "(conflicts with read of system table _modules.by_path). Displaying 2/3 stack traces of \
         relevant reads. Increase NUM_READ_SET_STACKS for more:\none\nRead of _modules.by_path \
         occured at\ntwo"
    );
    assert_eq!(
        system_message(WriteSource::unknown(), traces(), 12),
        "(conflicts with read of system table _modules.by_path). Displaying 3/3 stack traces of \
         relevant reads. Increase NUM_READ_SET_STACKS for more:\none\nRead of _modules.by_path \
         occured at\ntwo\nRead of _modules.by_path occured at\nthree"
    );
    assert_eq!(
        system_message(WriteSource::unknown(), Some(vec![]), 1),
        "(conflicts with read of system table _modules.by_path). Displaying 0/0 stack traces of \
         relevant reads. Increase NUM_READ_SET_STACKS for more:\n"
    );
}

#[test]
fn unknown_writers_are_the_same() {
    assert!(WriteSource::unknown().same(&WriteSource::unknown()));
    assert!(!WriteSource::unknown().same(&source("a")));
    assert!(source("a").same(&source("a")));
    assert!(!source("a").same(&source("b")));
}
