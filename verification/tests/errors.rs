//! How errors are told.

use database::errors::{
    unauthorized_error, DatabaseError, ErrorMetadata, PersistenceGlobalKey, ServiceError,
};
use database::ids::{IndexId, InternalId, TableNumber, Timestamp};
use database::names::TableName;

fn told(error: DatabaseError) -> String {
    error.message().unwrap()
}

#[test]
fn operations_are_refused_by_name() {
    assert_eq!(
        unauthorized_error("some_operation"),
        ErrorMetadata::Forbidden {
            short_msg: "Unauthorized".to_string(),
            msg: "Operation some_operation not permitted".to_string(),
        }
    );
}

#[test]
fn errors_have_messages() {
    let name = || TableName::new("messages");
    assert_eq!(
        told(DatabaseError::NoDocuments),
        "no documents -- cannot load uninitialized database"
    );
    assert_eq!(
        told(DatabaseError::MissingByIdIndex { table_name: name() }),
        "Missing `by_id` index for messages"
    );
    assert_eq!(
        told(DatabaseError::ByIdNotFoundForName { table_name: name() }),
        "by_id not found for messages"
    );
    assert_eq!(
        told(DatabaseError::RaceWhileLoading { at_start: Timestamp(9), at_end: Timestamp(120) }),
        "race while loading DatabaseSnapshot: max ts 9 at start, 120 at end"
    );
    assert_eq!(
        told(DatabaseError::NoNumberForTable { table_name: name() }),
        "Table name messages not found"
    );
    assert_eq!(
        told(DatabaseError::NumberReservedForUsers {
            table_number: TableNumber(10_000),
            table_name: name(),
        }),
        "10000 picked for system table messages is reserved for user tables"
    );
    assert_eq!(
        told(DatabaseError::NumberReservedForLegacy {
            table_number: TableNumber(0),
            table_name: name(),
        }),
        "0 picked for system table messages is reserved for legacy tables"
    );
    assert_eq!(
        told(DatabaseError::BeyondNow {
            ts: Timestamp(18_446_744_073_709_551_615),
            latest: Timestamp(10),
        }),
        "Timestamp 18446744073709551615 beyond now_ts_for_reads 10"
    );
    assert_eq!(told(DatabaseError::NoErrorFromCommit), "Error was not returned from commit");
    assert_eq!(
        told(DatabaseError::Service(ServiceError {
            msg: "disk on fire".to_string(),
            occ: false,
            overloaded: false,
            out_of_retention: false,
        })),
        "disk on fire"
    );
    assert_eq!(
        DatabaseError::MissingIndex { index_id: IndexId::min() }.message(),
        None
    );
    assert_eq!(InternalId::min(), InternalId(0));
}

#[test]
fn fields_and_globals_are_named() {
    let cases = [
        (PersistenceGlobalKey::TablesByIdIndex, "tables_by_id", "_tables.by_id"),
        (PersistenceGlobalKey::IndexByIdIndex, "index_by_id", "_index.by_id"),
        (PersistenceGlobalKey::TablesTableId, "tables_table_id", "_tables table ID"),
        (PersistenceGlobalKey::IndexTableId, "index_table_id", "_index table ID"),
    ];
    for (key, field, global) in cases {
        assert_eq!(told(DatabaseError::MissingField(key)), format!("Missing {}", field));
        assert_eq!(told(DatabaseError::MissingGlobal(key)), format!("missing {} global", global));
        assert_eq!(told(DatabaseError::GlobalNotString(key)), format!("{} is not string", global));
    }
}

#[test]
fn conflicts_and_overload_are_recognised() {
    let service = |occ, overloaded| {
        DatabaseError::Service(ServiceError {
            msg: String::new(),
            occ,
            overloaded,
            out_of_retention: false,
        })
    };
    assert!(service(true, false).is_occ());
    assert!(!service(false, true).is_occ());
    assert!(service(false, true).is_overloaded());
    assert!(!service(true, false).is_overloaded());
    let user = ErrorMetadata::UserOcc { table_name: None, write_source: None };
    assert!(DatabaseError::Metadata(user).is_occ());
    let system = ErrorMetadata::SystemOcc { msg: String::new() };
    assert!(DatabaseError::Metadata(system).is_occ());
    assert!(!DatabaseError::Metadata(unauthorized_error("x")).is_occ());
    assert!(!DatabaseError::NoDocuments.is_overloaded());
}
