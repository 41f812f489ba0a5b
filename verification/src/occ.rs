//! Conflicts between transactions, and retries after them.

use crate::clock::Elapsed;
use crate::errors::{DatabaseError, ErrorMetadata};
use crate::ids::ResolvedDocumentId;
use crate::names::{is_system_name, TabletIndexName};
use crate::table_mapping::{MappingView, TableMapping};
use crate::text::{decimal, decimal_chars, join, joined, texts};
use vstd::prelude::*;

verus! {

/// Transaction statistics reported for a retried transaction.
#[derive(Debug, PartialEq, Eq)]
pub struct OccRetryStats {
    /// Number of times the transaction was retried. 0 for a transaction that
    /// succeeded the first time.
    pub retries: u32,
    /// The duration of the successful transaction, not counting commit.
    pub duration: Elapsed,
    pub commit_duration: Elapsed,
    pub total_duration: Elapsed,
}

/// What made a write: the name of a mutation, where it is known.
#[derive(Debug, PartialEq, Eq)]
pub struct WriteSource(pub Option<String>);

/// The read that conflicted with a write.
#[derive(Debug, PartialEq, Eq)]
pub struct ConflictingRead {
    pub index: TabletIndexName,
    pub id: ResolvedDocumentId,
    /// Where relevant reads were made, if that was recorded.
    pub stack_traces: Option<Vec<String>>,
}

/// A read that conflicted with a write, and what made the write.
#[derive(Debug, PartialEq, Eq)]
pub struct ConflictingReadWithWriteSource {
    pub read: ConflictingRead,
    pub write_source: WriteSource,
}

impl View for WriteSource {
    type V = Option<Seq<char>>;

    open spec fn view(&self) -> Option<Seq<char>> {
        match self.0 {
            Some(source) => Some(source@),
            None => None,
        }
    }
}

impl Clone for WriteSource {
    fn clone(&self) -> (copy: WriteSource)
        ensures
            copy@ == self@,
    {
        match &self.0 {
            Some(source) => WriteSource(Some(source.clone())),
            None => WriteSource(None),
        }
    }
}

impl WriteSource {
    /// A write of unknown origin.
    pub fn unknown() -> (source: WriteSource)
        ensures
            source@ is None,
    {
        WriteSource(None)
    }

    /// Whether both are the same mutation, or both unknown.
    pub fn same(&self, other: &WriteSource) -> (same: bool)
        ensures
            same == (self@ == other@),
    {
        match (&self.0, &other.0) {
            (Some(a), Some(b)) => *a == *b,
            (None, None) => true,
            _ => false,
        }
    }
}

/// Who changed which document.
pub open spec fn occ_write_source_text(
    source: Seq<char>,
    document_id: Seq<char>,
    is_same_write_source: bool,
) -> Seq<char> {
    let preamble = if is_same_write_source {
        "Another call to this mutation"@
    } else {
        "A call to \""@ + source + "\""@
    };
    preamble + " changed the document with ID \""@ + document_id + "\""@
}

/// Tells who changed which document.
pub fn occ_write_source_string(
    source: &str,
    document_id: String,
    is_same_write_source: bool,
) -> (text: String)
    ensures
        text@ == occ_write_source_text(source@, document_id@, is_same_write_source),
{
    let preamble = if is_same_write_source {
        "Another call to this mutation".to_owned()
    } else {
        "A call to \"".to_owned().concat(source).concat("\"")
    };
    preamble.concat(" changed the document with ID \"").concat(document_id.as_str()).concat("\"")
}

/// How a conflict on a table of the system is told.
pub open spec fn system_conflict_text(
    write_source: Option<Seq<char>>,
    index: Seq<char>,
    stack_traces: Option<Seq<Seq<char>>>,
    num_read_set_stacks: nat,
) -> Seq<char> {
    let blame = match write_source {
        Some(text) => text + ".\n"@,
        None => Seq::empty(),
    };
    let msg = blame + "(conflicts with read of system table "@ + index + ")"@;
    match stack_traces {
        Some(traces) => {
            let shown = if num_read_set_stacks < traces.len() {
                num_read_set_stacks
            } else {
                traces.len()
            };
            msg + ". Displaying "@ + decimal_chars(shown) + "/"@ + decimal_chars(traces.len())
                + " stack traces of relevant reads. Increase NUM_READ_SET_STACKS for more:\n"@
                + joined(
                traces.take(shown as int),
                "\nRead of "@ + index + " occured at\n"@,
            )
        },
        None => msg
            + ". Use RUST_BACKTRACE=1 READ_SET_CAPTURE_BACKTRACES=true to find trace of relevant reads"@,
    }
}

/// How many stack traces are shown where nothing else is asked for.
pub const DEFAULT_NUM_READ_SET_STACKS: usize = 1;

impl ConflictingReadWithWriteSource {
    /// Who changed the document that was read, where that is known.
    pub open spec fn blame(
        self,
        current_writer: WriteSource,
        document_id: Seq<char>,
    ) -> Option<Seq<char>> {
        match self.write_source@ {
            Some(source) => Some(
                occ_write_source_text(source, document_id, current_writer@ == self.write_source@),
            ),
            None => None,
        }
    }

    /// Whether this conflict is told by `error`.
    pub open spec fn told_by(
        self,
        error: DatabaseError,
        mapping: MappingView,
        current_writer: WriteSource,
        document_id: Seq<char>,
        num_read_set_stacks: usize,
    ) -> bool {
        let table = self.read.index.table;
        if !mapping.tablets.contains_key(table) {
            error == DatabaseError::Metadata(
                ErrorMetadata::UserOcc { table_name: None, write_source: None },
            )
        } else {
            let name = mapping.tablets[table].1;
            let blame = self.blame(current_writer, document_id);
            if !is_system_name(name) {
                &&& error matches DatabaseError::Metadata(
                    ErrorMetadata::UserOcc { table_name, write_source },
                )
                &&& table_name matches Some(t) && t@ == name
                &&& match write_source {
                    Some(text) => blame == Some(text@),
                    None => blame is None,
                }
            } else {
                &&& error matches DatabaseError::Metadata(ErrorMetadata::SystemOcc { msg })
                &&& msg@ == system_conflict_text(
                    blame,
                    name + "."@ + self.read.index.descriptor@,
                    match self.read.stack_traces {
                        Some(traces) => Some(texts(traces@)),
                        None => None,
                    },
                    num_read_set_stacks as nat,
                )
            }
        }
    }

    /// The error that tells this conflict to the transaction that read.
    ///
    /// The document is named only where it is known what changed it. Stack
    /// traces are shown for tables of the system alone, up to
    /// `num_read_set_stacks` of them.
    pub fn into_error(
        self,
        mapping: &TableMapping,
        current_writer: &WriteSource,
        document_id: String,
        num_read_set_stacks: usize,
    ) -> (error: DatabaseError)
        ensures
            self.told_by(error, mapping@, *current_writer, document_id@, num_read_set_stacks),
    {
        let table_name = match mapping.tablet_name(self.read.index.table) {
            Some(table_name) => table_name,
            None => {
                return DatabaseError::Metadata(
                    ErrorMetadata::UserOcc { table_name: None, write_source: None },
                );
            },
        };
        let occ_write_source: Option<String> = match &self.write_source.0 {
            Some(source) => Some(
                occ_write_source_string(
                    source.as_str(),
                    document_id,
                    current_writer.same(&self.write_source),
                ),
            ),
            None => None,
        };
        if !table_name.is_system() {
            return DatabaseError::Metadata(
                ErrorMetadata::UserOcc {
                    table_name: Some(table_name.name.clone()),
                    write_source: occ_write_source,
                },
            );
        }
        let blame = match occ_write_source {
            Some(text) => text.concat(".\n"),
            None => String::new(),
        };
        let index = table_name.name.clone().concat(".").concat(self.read.index.descriptor.as_str());
        let msg = blame.concat("(conflicts with read of system table ").concat(
            index.as_str(),
        ).concat(")");
        let formatted = match self.read.stack_traces {
            Some(traces) => {
                let total: usize = traces.len();
                let shown: usize = if num_read_set_stacks < total {
                    num_read_set_stacks
                } else {
                    total
                };
                let sep = "\nRead of ".to_owned().concat(index.as_str()).concat(" occured at\n");
                let list = join(vstd::slice::slice_subrange(traces.as_slice(), 0, shown), sep.as_str());
                assert(texts(traces@.subrange(0, shown as int)) =~= texts(traces@).take(
                    shown as int,
                ));
                msg.concat(". Displaying ").concat(decimal(shown as u64).as_str()).concat(
                    "/",
                ).concat(decimal(total as u64).as_str()).concat(
                    " stack traces of relevant reads. Increase NUM_READ_SET_STACKS for more:\n",
                ).concat(list.as_str())
            },
            None => msg.concat(
                ". Use RUST_BACKTRACE=1 READ_SET_CAPTURE_BACKTRACES=true to find trace of relevant reads",
            ),
        };
        DatabaseError::Metadata(ErrorMetadata::SystemOcc { msg: formatted })
    }
}

/// Where it is not known what changed the document, the error does not depend on
/// which document it was.
pub proof fn law_document_is_named_only_with_its_writer(
    conflict: ConflictingReadWithWriteSource,
    error: DatabaseError,
    mapping: MappingView,
    current_writer: WriteSource,
    document_id: Seq<char>,
    other_id: Seq<char>,
    num_read_set_stacks: usize,
)
    requires
        conflict.write_source@ is None,
        conflict.told_by(error, mapping, current_writer, document_id, num_read_set_stacks),
    ensures
        conflict.told_by(error, mapping, current_writer, other_id, num_read_set_stacks),
{
}

} // verus!
