//! Identifiers, table numbers and timestamps.

use vstd::prelude::*;

verus! {

/// The id of a document inside its table. Ids are ordered as numbers.
#[derive(Clone, Copy, Debug, PartialEq, Eq, Structural, PartialOrd, Ord, Hash)]
pub struct InternalId(pub u128);

/// Indexes are documents of the index table, so an index is named by its
/// document's id.
pub type IndexId = InternalId;

/// The id of a table. Tables are documents of the tables table, so a table is
/// named by its document's id.
#[derive(Clone, Copy, Debug, PartialEq, Eq, Structural, PartialOrd, Ord, Hash)]
pub struct TableId(pub InternalId);

/// The number of a table as users see it inside document ids.
#[derive(Clone, Copy, Debug, PartialEq, Eq, Structural, PartialOrd, Ord, Hash)]
pub struct TableNumber(pub u32);

/// A table by both of its names.
#[derive(Clone, Copy, Debug, PartialEq, Eq, Structural, PartialOrd, Ord, Hash)]
pub struct TableIdAndTableNumber {
    pub table_id: TableId,
    pub table_number: TableNumber,
}

/// A document by its table, in both names, and its id in the table.
#[derive(Clone, Copy, Debug, PartialEq, Eq, Structural, PartialOrd, Ord, Hash)]
pub struct ResolvedDocumentId {
    pub table: TableIdAndTableNumber,
    pub internal_id: InternalId,
}

/// A document by the number of its table and its id in the table.
#[derive(Clone, Copy, Debug, PartialEq, Eq, Structural, PartialOrd, Ord, Hash)]
pub struct DocumentIdV6 {
    pub table_number: TableNumber,
    pub internal_id: InternalId,
}

/// A point in the database's history.
#[derive(Clone, Copy, Debug, PartialEq, Eq, Structural, PartialOrd, Ord, Hash)]
pub struct Timestamp(pub u64);

/// The largest number that a timestamp may hold.
pub const MAX_TIMESTAMP: u64 = 0x7fff_ffff_ffff_ffff;

impl InternalId {
    /// The smallest id.
    pub fn min() -> (id: InternalId)
        ensures
            id == InternalId(0),
    {
        InternalId(0)
    }
}

impl TableIdAndTableNumber {
    /// The id of a document of this table.
    pub fn id(self, internal_id: InternalId) -> (id: ResolvedDocumentId)
        ensures
            id == (ResolvedDocumentId { table: self, internal_id }),
    {
        ResolvedDocumentId { table: self, internal_id }
    }
}

impl Timestamp {
    /// The first timestamp.
    pub fn min() -> (ts: Timestamp)
        ensures
            ts == Timestamp(0),
    {
        Timestamp(0)
    }

    /// The timestamp right after this one, if there is one.
    pub fn succ(self) -> (next: Option<Timestamp>)
        ensures
            next == self.spec_succ(),
    {
        if self.0 < MAX_TIMESTAMP {
            Some(Timestamp(self.0 + 1))
        } else {
            None
        }
    }

    pub open spec fn spec_succ(self) -> Option<Timestamp> {
        if self.0 < MAX_TIMESTAMP {
            Some(Timestamp((self.0 + 1) as u64))
        } else {
            None
        }
    }
}

} // verus!
