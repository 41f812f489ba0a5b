//! What can go wrong, and how it is told.

use crate::ids::{IndexId, TableId, TableNumber, Timestamp};
use crate::names::TableName;
use crate::text::{decimal, decimal_chars};
use vstd::prelude::*;

verus! {

/// An error that is told to users.
#[derive(Debug, PartialEq, Eq)]
pub enum ErrorMetadata {
    /// The request cannot be served as it stands.
    BadRequest { short_msg: String, msg: String },
    /// The caller may not do this.
    Forbidden { short_msg: String, msg: String },
    /// A transaction read what another one wrote before it, in a table of a
    /// user or in one that is gone.
    UserOcc { table_name: Option<String>, write_source: Option<String> },
    /// A transaction read what another one wrote before it, in a table of the
    /// system.
    SystemOcc { msg: String },
}

/// An error of a service that the database rests on.
#[derive(Debug, PartialEq, Eq)]
pub struct ServiceError {
    pub msg: String,
    /// A conflict with another transaction.
    pub occ: bool,
    /// Too much to do at the moment.
    pub overloaded: bool,
    /// The data asked for is no longer kept.
    pub out_of_retention: bool,
}

/// The globals that lead to the metadata tables.
#[derive(Clone, Copy, Debug, PartialEq, Eq, Structural)]
pub enum PersistenceGlobalKey {
    TablesByIdIndex,
    IndexByIdIndex,
    TablesTableId,
    IndexTableId,
}

/// An error of the database.
#[derive(Debug, PartialEq, Eq)]
pub enum DatabaseError {
    /// An error that is told to users.
    Metadata(ErrorMetadata),
    /// A service failed.
    Service(ServiceError),
    /// There is nothing to load.
    NoDocuments,
    /// A message lacks one of the ids that lead to the metadata tables.
    MissingField(PersistenceGlobalKey),
    /// A message holds something else in the place of an id.
    MalformedField(PersistenceGlobalKey),
    /// A global was never written.
    MissingGlobal(PersistenceGlobalKey),
    /// A global holds something else than a string.
    GlobalNotString(PersistenceGlobalKey),
    /// A global holds a string that is no id.
    MalformedGlobal(PersistenceGlobalKey),
    /// A table has no enabled index over document ids.
    MissingByIdIndex { table_name: TableName },
    /// There are indexes on a table that does not exist.
    MissingTable { table_id: TableId },
    /// No enabled index over document ids was found for a table.
    ByIdNotFound { table_id: TableId },
    /// No index over document ids is known for a table that is to be listed.
    ByIdIndexMissing { table_id: TableId },
    /// No index over document ids is known for the table of this name.
    ByIdNotFoundForName { table_name: TableName },
    /// The history went on while it was loaded.
    RaceWhileLoading { at_start: Timestamp, at_end: Timestamp },
    /// No active table has this name.
    TableNameNotFound { table_name: TableName },
    /// No active table has this number.
    TableNumberNotFound { table_number: TableNumber },
    /// No table has this id.
    TableIdNotFound { table_id: TableId },
    /// A system table has no number to take.
    NoNumberForTable { table_name: TableName },
    /// Two system tables want the same number.
    NumberTaken { table_number: TableNumber, table_name: TableName, existing: TableName },
    /// A system table wants a number that is kept for users.
    NumberReservedForUsers { table_number: TableNumber, table_name: TableName },
    /// A system table wants a number that is kept for tables of old.
    NumberReservedForLegacy { table_number: TableNumber, table_name: TableName },
    /// A timestamp that is not repeatable yet.
    NotRepeatable { ts: Timestamp, latest: Timestamp },
    /// A transaction was to begin later than what can be read.
    BeyondNow { ts: Timestamp, latest: Timestamp },
    /// There is no later timestamp.
    TimestampOverflow,
    /// All attempts were used up, and none told why.
    NoErrorFromCommit,
    /// More rows may be returned than may be read.
    ReturnLimitAboveReadLimit { rows_read_limit: usize, rows_returned_limit: usize },
    /// No enabled index has this id.
    MissingIndex { index_id: IndexId },
    /// The index of a search is missing or not ready.
    IndexNotEnabled { table_id: TableId, descriptor: String },
}

/// What is told to a caller that may not use an operation.
pub open spec fn unauthorized_text(op: Seq<char>) -> Seq<char> {
    "Operation "@ + op + " not permitted"@
}

/// Whether an error refuses an operation to a caller.
pub open spec fn is_unauthorized(error: ErrorMetadata, op: Seq<char>) -> bool {
    &&& error is Forbidden
    &&& error->Forbidden_short_msg@ == "Unauthorized"@
    &&& error->Forbidden_msg@ == unauthorized_text(op)
}

/// Whether an error of the database refuses an operation to a caller.
pub open spec fn refuses(error: DatabaseError, op: Seq<char>) -> bool {
    error matches DatabaseError::Metadata(e) && is_unauthorized(e, op)
}

/// The error for a caller that may not use an operation.
pub fn unauthorized_error(op: &'static str) -> (error: ErrorMetadata)
    ensures
        is_unauthorized(error, op@),
{
    let msg = "Operation ".to_owned().concat(op).concat(" not permitted");
    ErrorMetadata::Forbidden { short_msg: "Unauthorized".to_owned(), msg }
}

/// How a field of a message is named.
pub open spec fn field_text(key: PersistenceGlobalKey) -> Seq<char> {
    match key {
        PersistenceGlobalKey::TablesByIdIndex => "tables_by_id"@,
        PersistenceGlobalKey::IndexByIdIndex => "index_by_id"@,
        PersistenceGlobalKey::TablesTableId => "tables_table_id"@,
        PersistenceGlobalKey::IndexTableId => "index_table_id"@,
    }
}

/// How a global is named.
pub open spec fn global_text(key: PersistenceGlobalKey) -> Seq<char> {
    match key {
        PersistenceGlobalKey::TablesByIdIndex => "_tables.by_id"@,
        PersistenceGlobalKey::IndexByIdIndex => "_index.by_id"@,
        PersistenceGlobalKey::TablesTableId => "_tables table ID"@,
        PersistenceGlobalKey::IndexTableId => "_index table ID"@,
    }
}

impl PersistenceGlobalKey {
    /// How a field of a message is named.
    pub fn field_name(self) -> (name: &'static str)
        ensures
            name@ == field_text(self),
    {
        match self {
            PersistenceGlobalKey::TablesByIdIndex => "tables_by_id",
            PersistenceGlobalKey::IndexByIdIndex => "index_by_id",
            PersistenceGlobalKey::TablesTableId => "tables_table_id",
            PersistenceGlobalKey::IndexTableId => "index_table_id",
        }
    }

    /// How a global is named.
    pub fn global_name(self) -> (name: &'static str)
        ensures
            name@ == global_text(self),
    {
        match self {
            PersistenceGlobalKey::TablesByIdIndex => "_tables.by_id",
            PersistenceGlobalKey::IndexByIdIndex => "_index.by_id",
            PersistenceGlobalKey::TablesTableId => "_tables table ID",
            PersistenceGlobalKey::IndexTableId => "_index table ID",
        }
    }
}

impl DatabaseError {
    /// How an error is told. Errors have no text here where they print an id or a
    /// debug form, or where their words come from what raises them: their metadata,
    /// the parsing of ids, the lookup of tables and indexes, or the arithmetic of
    /// timestamps.
    pub open spec fn text(self) -> Option<Seq<char>> {
        match self {
            DatabaseError::Service(error) => Some(error.msg@),
            DatabaseError::NoDocuments => Some(
                "no documents -- cannot load uninitialized database"@,
            ),
            DatabaseError::MissingField(key) => Some("Missing "@ + field_text(key)),
            DatabaseError::MissingGlobal(key) => Some(
                "missing "@ + global_text(key) + " global"@,
            ),
            DatabaseError::GlobalNotString(key) => Some(global_text(key) + " is not string"@),
            DatabaseError::MissingByIdIndex { table_name } => Some(
                "Missing `by_id` index for "@ + table_name@,
            ),
            DatabaseError::ByIdNotFoundForName { table_name } => Some(
                "by_id not found for "@ + table_name@,
            ),
            DatabaseError::RaceWhileLoading { at_start, at_end } => Some(
                "race while loading DatabaseSnapshot: max ts "@ + decimal_chars(at_start.0 as nat)
                    + " at start, "@ + decimal_chars(at_end.0 as nat) + " at end"@,
            ),
            DatabaseError::NoNumberForTable { table_name } => Some(
                "Table name "@ + table_name@ + " not found"@,
            ),
            DatabaseError::NumberReservedForUsers { table_number, table_name } => Some(
                decimal_chars(table_number.0 as nat) + " picked for system table "@ + table_name@
                    + " is reserved for user tables"@,
            ),
            DatabaseError::NumberReservedForLegacy { table_number, table_name } => Some(
                decimal_chars(table_number.0 as nat) + " picked for system table "@ + table_name@
                    + " is reserved for legacy tables"@,
            ),
            DatabaseError::BeyondNow { ts, latest } => Some(
                "Timestamp "@ + decimal_chars(ts.0 as nat) + " beyond now_ts_for_reads "@
                    + decimal_chars(latest.0 as nat),
            ),
            DatabaseError::NoErrorFromCommit => Some("Error was not returned from commit"@),
            DatabaseError::ReturnLimitAboveReadLimit { rows_read_limit, rows_returned_limit } => Some(
                "Condition failed: `rows_read_limit >= rows_returned_limit` ("@ + decimal_chars(
                    rows_read_limit as nat,
                ) + " vs "@ + decimal_chars(rows_returned_limit as nat) + ")"@,
            ),
            _ => None,
        }
    }

    /// How an error is told, where the library words it.
    pub fn message(&self) -> (message: Option<String>)
        ensures
            match message {
                Some(m) => self.text() == Some(m@),
                None => self.text() is None,
            },
    {
        let message = match self {
            DatabaseError::Service(error) => error.msg.clone(),
            DatabaseError::NoDocuments => {
                "no documents -- cannot load uninitialized database".to_owned()
            },
            DatabaseError::MissingField(key) => "Missing ".to_owned().concat(key.field_name()),
            DatabaseError::MissingGlobal(key) => {
                "missing ".to_owned().concat(key.global_name()).concat(" global")
            },
            DatabaseError::GlobalNotString(key) => {
                key.global_name().to_owned().concat(" is not string")
            },
            DatabaseError::MissingByIdIndex { table_name } => {
                "Missing `by_id` index for ".to_owned().concat(table_name.name.as_str())
            },
            DatabaseError::ByIdNotFoundForName { table_name } => {
                "by_id not found for ".to_owned().concat(table_name.name.as_str())
            },
            DatabaseError::RaceWhileLoading { at_start, at_end } => {
                "race while loading DatabaseSnapshot: max ts ".to_owned().concat(
                    decimal(at_start.0).as_str(),
                ).concat(" at start, ").concat(decimal(at_end.0).as_str()).concat(" at end")
            },
            DatabaseError::NoNumberForTable { table_name } => {
                "Table name ".to_owned().concat(table_name.name.as_str()).concat(" not found")
            },
            DatabaseError::NumberReservedForUsers { table_number, table_name } => {
                decimal(table_number.0 as u64).concat(" picked for system table ").concat(
                    table_name.name.as_str(),
                ).concat(" is reserved for user tables")
            },
            DatabaseError::NumberReservedForLegacy { table_number, table_name } => {
                decimal(table_number.0 as u64).concat(" picked for system table ").concat(
                    table_name.name.as_str(),
                ).concat(" is reserved for legacy tables")
            },
            DatabaseError::BeyondNow { ts, latest } => {
                "Timestamp ".to_owned().concat(decimal(ts.0).as_str()).concat(
                    " beyond now_ts_for_reads ",
                ).concat(decimal(latest.0).as_str())
            },
            DatabaseError::NoErrorFromCommit => "Error was not returned from commit".to_owned(),
            DatabaseError::ReturnLimitAboveReadLimit { rows_read_limit, rows_returned_limit } => {
                "Condition failed: `rows_read_limit >= rows_returned_limit` (".to_owned().concat(
                    decimal(*rows_read_limit as u64).as_str(),
                ).concat(" vs ").concat(decimal(*rows_returned_limit as u64).as_str()).concat(")")
            },
            _ => {
                return None;
            },
        };
        Some(message)
    }
}

} // verus!
