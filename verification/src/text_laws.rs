//! What messages say, and in which order names are told.

use crate::errors::{DatabaseError, ErrorMetadata, PersistenceGlobalKey};
use crate::occ::{ConflictingReadWithWriteSource, WriteSource};
use crate::sorted_names::{in_name_order, text_before};
use crate::table_mapping::{MappingView, TableMapping};
use crate::text::{decimal_chars, digit_char, joined, texts};
use vstd::prelude::*;

verus! {

/// The number that a text of decimal digits stands for.
pub open spec fn number_read(text: Seq<char>) -> int
    decreases text.len(),
{
    if text.len() == 0 {
        0
    } else {
        10 * number_read(text.drop_last()) + (text.last() as int - '0' as int)
    }
}

proof fn lemma_digit(d: nat)
    requires
        d < 10,
    ensures
        digit_char(d) as int == '0' as int + d,
{
}

/// A number is written in decimal digits that give the number when they are read, without
/// zeros in front.
pub proof fn law_numbers_are_read_back(n: nat)
    ensures
        number_read(decimal_chars(n)) == n,
        decimal_chars(n).len() > 0,
        decimal_chars(n)[0] == '0' ==> n == 0 && decimal_chars(n).len() == 1,
        forall|i: int|
            0 <= i < decimal_chars(n).len() ==> '0' as int <= #[trigger] decimal_chars(n)[i] as int
                <= '9' as int,
    decreases n,
{
    if n < 10 {
        lemma_digit(n);
        assert(decimal_chars(n).drop_last() =~= Seq::empty());
        assert(number_read(Seq::empty()) == 0);
    } else {
        law_numbers_are_read_back(n / 10);
        lemma_digit(n % 10);
        let front = decimal_chars(n / 10);
        assert(decimal_chars(n).drop_last() =~= front);
        assert forall|i: int| 0 <= i < decimal_chars(n).len() implies '0' as int
            <= #[trigger] decimal_chars(n)[i] as int <= '9' as int by {
            if i < front.len() {
                assert(decimal_chars(n)[i] == front[i]);
            }
        }
    }
}

proof fn lemma_before(a: Seq<char>, b: Seq<char>, n: int)
    requires
        0 <= n <= a.len(),
        n <= b.len(),
        forall|i: int| 0 <= i < n ==> #[trigger] a[i] == b[i],
        n < a.len() && n < b.len() ==> a[n] != b[n],
    ensures
        text_before(a, b) <==> n < b.len() && (n < a.len() ==> (a[n] as int) < (b[n] as int)),
    decreases n,
{
    if n > 0 {
        assert(a[0] == b[0]);
        let x = a.drop_first();
        let y = b.drop_first();
        assert forall|i: int| 0 <= i < n - 1 implies #[trigger] x[i] == y[i] by {
            assert(a[i + 1] == b[i + 1]);
        }
        lemma_before(x, y, n - 1);
    }
}

/// Of two names of which the first `n` characters are the same, and not the next ones, the
/// one that is told first has the smaller next character or none.
pub proof fn law_names_are_told_in_order_of_characters(
    names: Seq<Seq<char>>,
    i: int,
    j: int,
    n: int,
)
    requires
        in_name_order(names),
        0 <= i < j < names.len(),
        0 <= n <= names[i].len(),
        n <= names[j].len(),
        forall|k: int| 0 <= k < n ==> #[trigger] names[i][k] == names[j][k],
        n < names[i].len() && n < names[j].len() ==> names[i][n] != names[j][n],
    ensures
        n < names[j].len(),
        n < names[i].len() ==> (names[i][n] as int) < (names[j][n] as int),
{
    lemma_before(names[i], names[j], n);
}

/// Texts that are joined are the first one, and each of the others behind the separator.
pub proof fn law_joined_texts_stand_behind_separators(items: Seq<Seq<char>>, sep: Seq<char>)
    requires
        items.len() > 0,
    ensures
        joined(items, sep) == items[0] + items.drop_first().map_values(
            |item: Seq<char>| sep + item,
        ).flatten(),
    decreases items.len(),
{
    let behind = |item: Seq<char>| sep + item;
    let rest = items.drop_first().map_values(behind);
    rest.lemma_flatten_and_flatten_alt_are_equivalent();
    if items.len() == 1 {
        assert(rest =~= Seq::empty());
        assert(items[0] + rest.flatten() =~= items[0]);
    } else {
        let front = items.drop_last();
        let shorter = front.drop_first().map_values(behind);
        law_joined_texts_stand_behind_separators(front, sep);
        shorter.lemma_flatten_and_flatten_alt_are_equivalent();
        assert(rest.drop_last() =~= shorter);
        assert(rest.last() == sep + items.last());
        assert(rest.flatten_alt() == shorter.flatten_alt() + (sep + items.last()));
        assert(joined(items, sep) =~= items[0] + rest.flatten());
    }
}

/// Who changed a document, as it is told: the transaction's own mutation without its name,
/// any other one by its name, and nobody where that is not known.
pub open spec fn is_blame(
    conflict: ConflictingReadWithWriteSource,
    writer: WriteSource,
    document_id: Seq<char>,
    blame: Option<Seq<char>>,
) -> bool {
    match (conflict.write_source.0, blame) {
        (None, None) => true,
        (Some(source), Some(text)) => {
            let same = writer.0 is Some && writer.0->0@ == source@;
            &&& same ==> text == "Another call to this mutation"@
                + " changed the document with ID \""@ + document_id + "\""@
            &&& !same ==> text == "A call to \""@ + source@ + "\""@
                + " changed the document with ID \""@ + document_id + "\""@
        },
        _ => false,
    }
}

/// A conflict on a table of a user is told with the table's name and with who changed the
/// document. A conflict on a table that is gone is told without either.
pub proof fn law_conflicts_on_tables_of_users(
    conflict: ConflictingReadWithWriteSource,
    error: DatabaseError,
    mapping: MappingView,
    writer: WriteSource,
    document_id: Seq<char>,
    stacks: usize,
)
    requires
        conflict.told_by(error, mapping, writer, document_id, stacks),
    ensures
        ({
            let table = conflict.read.index.table;
            let name = mapping.tablets[table].1;
            &&& !mapping.tablets.contains_key(table) ==> {
                &&& error matches DatabaseError::Metadata(
                    ErrorMetadata::UserOcc { table_name, write_source },
                )
                &&& table_name is None
                &&& write_source is None
            }
            &&& mapping.tablets.contains_key(table) && !(name.len() > 0 && name[0] == '_') ==> {
                &&& error matches DatabaseError::Metadata(
                    ErrorMetadata::UserOcc { table_name, write_source },
                )
                &&& table_name is Some
                &&& table_name->0@ == name
                &&& is_blame(
                    conflict,
                    writer,
                    document_id,
                    match write_source {
                        Some(text) => Some(text@),
                        None => None,
                    },
                )
            }
        }),
{
}

/// The beginning of what is told of a conflict on a table of the system: who changed the
/// document, on a line of its own, and the index that was read.
pub open spec fn begins_system_message(
    conflict: ConflictingReadWithWriteSource,
    writer: WriteSource,
    document_id: Seq<char>,
    name: Seq<char>,
    front: Seq<char>,
) -> bool {
    let index = name + "."@ + conflict.read.index.descriptor@;
    exists|blame: Option<Seq<char>>|
        {
            &&& #[trigger] is_blame(conflict, writer, document_id, blame)
            &&& front == (match blame {
                Some(text) => text + ".\n"@,
                None => Seq::empty(),
            }) + "(conflicts with read of system table "@ + index + ")"@
        }
}

/// A conflict on a table of the system is told with who changed the document and with the
/// index that was read. Where the stack traces of the reads are known, as many of them are
/// shown as are asked for, all if there are not as many, and both numbers are told.
pub proof fn law_conflicts_on_tables_of_the_system(
    conflict: ConflictingReadWithWriteSource,
    error: DatabaseError,
    mapping: MappingView,
    writer: WriteSource,
    document_id: Seq<char>,
    stacks: usize,
)
    requires
        conflict.told_by(error, mapping, writer, document_id, stacks),
        mapping.tablets.contains_key(conflict.read.index.table),
        mapping.tablets[conflict.read.index.table].1.len() > 0,
        mapping.tablets[conflict.read.index.table].1[0] == '_',
    ensures
        ({
            let name = mapping.tablets[conflict.read.index.table].1;
            let index = name + "."@ + conflict.read.index.descriptor@;
            &&& error matches DatabaseError::Metadata(ErrorMetadata::SystemOcc { msg })
            &&& exists|front: Seq<char>|
                {
                    &&& #[trigger] begins_system_message(
                        conflict,
                        writer,
                        document_id,
                        name,
                        front,
                    )
                    &&& match conflict.read.stack_traces {
                        Some(traces) => {
                            let shown: int = if stacks <= traces@.len() {
                                stacks as int
                            } else {
                                traces@.len() as int
                            };
                            msg@ == front + ". Displaying "@ + decimal_chars(shown as nat) + "/"@
                                + decimal_chars(traces@.len())
                                + " stack traces of relevant reads. Increase NUM_READ_SET_STACKS for more:\n"@
                                + joined(
                                Seq::new(shown as nat, |i: int| traces@[i]@),
                                "\nRead of "@ + index + " occured at\n"@,
                            )
                        },
                        None => msg@ == front
                            + ". Use RUST_BACKTRACE=1 READ_SET_CAPTURE_BACKTRACES=true to find trace of relevant reads"@,
                    }
                }
        }),
{
    let name = mapping.tablets[conflict.read.index.table].1;
    let index = name + "."@ + conflict.read.index.descriptor@;
    let blame = conflict.blame(writer, document_id);
    let front = (match blame {
        Some(text) => text + ".\n"@,
        None => Seq::empty(),
    }) + "(conflicts with read of system table "@ + index + ")"@;
    assert(is_blame(conflict, writer, document_id, blame));
    assert(begins_system_message(conflict, writer, document_id, name, front));
    if let Some(traces) = conflict.read.stack_traces {
        let shown: int = if stacks <= traces@.len() {
            stacks as int
        } else {
            traces@.len() as int
        };
        assert(texts(traces@).take(shown) =~= Seq::new(
            shown as nat,
            |i: int| traces@[i]@,
        ));
    }
}

/// The error that a conflict becomes tells who changed the document, and which one, as far
/// as it is known.
pub proof fn law_telling_conflicts(
    conflict: ConflictingReadWithWriteSource,
    mapping: TableMapping,
    writer: WriteSource,
    document_id: String,
    stacks: usize,
    error: DatabaseError,
)
    requires
        call_ensures(
            ConflictingReadWithWriteSource::into_error,
            (conflict, &mapping, &writer, document_id, stacks),
            error,
        ),
    ensures
        ({
            let table = conflict.read.index.table;
            let name = mapping@.tablets[table].1;
            let of_system = name.len() > 0 && name[0] == '_';
            let known = mapping@.tablets.contains_key(table);
            &&& error is Metadata
            &&& error->Metadata_0 is SystemOcc <==> known && of_system
            &&& error->Metadata_0 is UserOcc <==> !(known && of_system)
            &&& error->Metadata_0 matches ErrorMetadata::UserOcc { table_name, write_source } ==> {
                &&& table_name is Some <==> known
                &&& known ==> table_name->0@ == name
                &&& known ==> is_blame(
                    conflict,
                    writer,
                    document_id@,
                    match write_source {
                        Some(text) => Some(text@),
                        None => None,
                    },
                )
                &&& !known ==> write_source is None
            }
        }),
{
    law_conflicts_on_tables_of_users(conflict, error, mapping@, writer, document_id@, stacks);
}

/// Errors that are about a name, a number, a limit or a timestamp are told with it. Where
/// others word an error, it is not told here.
pub proof fn law_errors_are_told_with_what_they_are_about(
    error: DatabaseError,
    message: Option<String>,
)
    requires
        call_ensures(DatabaseError::message, (&error,), message),
    ensures
        match error {
            DatabaseError::Service(e) => message is Some && message->0@ == e.msg@,
            DatabaseError::NoDocuments => message is Some && message->0@
                == "no documents -- cannot load uninitialized database"@,
            DatabaseError::MissingByIdIndex { table_name } => message is Some && message->0@
                == "Missing `by_id` index for "@ + table_name.name@,
            DatabaseError::ByIdNotFoundForName { table_name } => message is Some && message->0@
                == "by_id not found for "@ + table_name.name@,
            DatabaseError::RaceWhileLoading { at_start, at_end } => message is Some && message->0@
                == "race while loading DatabaseSnapshot: max ts "@ + decimal_chars(
                at_start.0 as nat,
            ) + " at start, "@ + decimal_chars(at_end.0 as nat) + " at end"@,
            DatabaseError::NoNumberForTable { table_name } => message is Some && message->0@
                == "Table name "@ + table_name.name@ + " not found"@,
            DatabaseError::NumberReservedForUsers { table_number, table_name } => message is Some
                && message->0@ == decimal_chars(table_number.0 as nat)
                + " picked for system table "@ + table_name.name@
                + " is reserved for user tables"@,
            DatabaseError::NumberReservedForLegacy { table_number, table_name } => message is Some
                && message->0@ == decimal_chars(table_number.0 as nat)
                + " picked for system table "@ + table_name.name@
                + " is reserved for legacy tables"@,
            DatabaseError::BeyondNow { ts, latest } => message is Some && message->0@
                == "Timestamp "@ + decimal_chars(ts.0 as nat) + " beyond now_ts_for_reads "@
                + decimal_chars(latest.0 as nat),
            DatabaseError::NoErrorFromCommit => message is Some && message->0@
                == "Error was not returned from commit"@,
            DatabaseError::ReturnLimitAboveReadLimit { rows_read_limit, rows_returned_limit } =>
                message is Some && message->0@
                    == "Condition failed: `rows_read_limit >= rows_returned_limit` ("@
                    + decimal_chars(rows_read_limit as nat) + " vs "@ + decimal_chars(
                    rows_returned_limit as nat,
                ) + ")"@,
            DatabaseError::MissingField(_) => message is Some,
            DatabaseError::MissingGlobal(_) => message is Some,
            DatabaseError::GlobalNotString(_) => message is Some,
            _ => message is None,
        },
{
}

/// The globals and fields that lead to the metadata are told by their names.
pub proof fn law_keys_are_told_by_their_names(
    key: PersistenceGlobalKey,
    missing_field: Option<String>,
    missing: Option<String>,
    not_string: Option<String>,
)
    requires
        call_ensures(DatabaseError::message, (&DatabaseError::MissingField(key),), missing_field),
        call_ensures(DatabaseError::message, (&DatabaseError::MissingGlobal(key),), missing),
        call_ensures(DatabaseError::message, (&DatabaseError::GlobalNotString(key),), not_string),
    ensures
        ({
            let field = match key {
                PersistenceGlobalKey::TablesByIdIndex => "tables_by_id"@,
                PersistenceGlobalKey::IndexByIdIndex => "index_by_id"@,
                PersistenceGlobalKey::TablesTableId => "tables_table_id"@,
                PersistenceGlobalKey::IndexTableId => "index_table_id"@,
            };
            let global = match key {
                PersistenceGlobalKey::TablesByIdIndex => "_tables.by_id"@,
                PersistenceGlobalKey::IndexByIdIndex => "_index.by_id"@,
                PersistenceGlobalKey::TablesTableId => "_tables table ID"@,
                PersistenceGlobalKey::IndexTableId => "_index table ID"@,
            };
            &&& missing_field is Some && missing_field->0@ == "Missing "@ + field
            &&& missing is Some && missing->0@ == "missing "@ + global + " global"@
            &&& not_string is Some && not_string->0@ == global + " is not string"@
        }),
{
}

} // verus!
