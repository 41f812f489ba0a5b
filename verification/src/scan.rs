//! Scans of tables as they were at a point of the history.

use crate::ids::{IndexId, ResolvedDocumentId, TableId, Timestamp};
use std::collections::BTreeMap;
use vstd::prelude::*;

verus! {

/// In which order something is read.
#[derive(Clone, Copy, Debug, PartialEq, Eq, Structural)]
pub enum Order {
    /// What is smallest comes first.
    Asc,
    /// What is largest comes first.
    Desc,
}

/// The changes of the history from one timestamp to another, of one table or of
/// all, ordered by timestamp, then by table, then by document.
#[derive(Clone, Copy, Debug, PartialEq, Eq)]
pub struct HistoryScan {
    pub table_id: Option<TableId>,
    pub first_ts: Timestamp,
    pub last_ts: Timestamp,
    pub order: Order,
}

/// How the documents of tables are walked.
#[derive(Clone, Copy, Debug, PartialEq, Eq, Structural)]
pub struct TableIterator {
    /// The point of the history at which tables are seen.
    pub snapshot_ts: Timestamp,
    /// How many documents are read at a time.
    pub page_size: usize,
}

/// A walk over the documents of a table in the order of their ids, behind a
/// cursor if there is one.
#[derive(Clone, Copy, Debug, PartialEq, Eq)]
pub struct TableScan {
    pub iterator: TableIterator,
    pub table_id: TableId,
    pub by_id: IndexId,
    pub cursor: Option<ResolvedDocumentId>,
}

/// How fast rows may be read: so many at once, and one more after each interval.
#[derive(Clone, Copy, Debug, PartialEq, Eq, Structural)]
pub struct RowQuota {
    pub burst: u32,
    pub replenish_nanos: u64,
}

/// The burst size and, in nanoseconds, the replenish interval of
/// `governor::Quota::per_second`: all rows of a second may come at once, and
/// the interval is a second divided by them, rounded down.
#[verifier::external_body]
fn quota_per_second(rows: u32) -> (quota: (u32, u64))
    requires
        rows > 0,
    ensures
        quota.0 == rows,
        quota.1 == 1_000_000_000int / (rows as int),
{
    let quota = governor::Quota::per_second(std::num::NonZeroU32::new(rows).unwrap());
    (quota.burst_size().get(), quota.replenish_interval().as_nanos() as u64)
}

impl RowQuota {
    /// The quota of so many rows a second.
    pub open spec fn is_per_second(self, rows: int) -> bool {
        &&& self.burst == rows
        &&& self.replenish_nanos == 1_000_000_000int / rows
    }

    /// The quota of so many rows a second.
    pub fn per_second(rows: u32) -> (quota: RowQuota)
        requires
            rows > 0,
        ensures
            quota.is_per_second(rows as int),
    {
        let (burst, replenish_nanos) = quota_per_second(rows);
        RowQuota { burst, replenish_nanos }
    }
}

/// The index over document ids of each table.
#[derive(Debug)]
pub struct ByIdIndexes {
    indexes: BTreeMap<u128, IndexId>,
}

impl View for ByIdIndexes {
    type V = Map<TableId, IndexId>;

    closed spec fn view(&self) -> Map<TableId, IndexId> {
        Map::new(
            |table: TableId| self.indexes@.contains_key(table.0.0),
            |table: TableId| self.indexes@[table.0.0],
        )
    }
}

impl ByIdIndexes {
    pub fn new() -> (indexes: ByIdIndexes)
        ensures
            indexes@ == Map::<TableId, IndexId>::empty(),
    {
        let indexes = ByIdIndexes { indexes: BTreeMap::new() };
        assert(indexes@ =~= Map::<TableId, IndexId>::empty());
        indexes
    }

    pub fn insert(&mut self, table: TableId, index: IndexId)
        ensures
            final(self)@ == old(self)@.insert(table, index),
    {
        self.indexes.insert(table.0.0, index);
        assert(self@ =~= old(self)@.insert(table, index));
    }

    pub fn get(&self, table: TableId) -> (index: Option<IndexId>)
        ensures
            match index {
                Some(i) => self@.contains_key(table) && self@[table] == i,
                None => !self@.contains_key(table),
            },
    {
        match self.indexes.get(&table.0.0) {
            Some(index) => Some(*index),
            None => None,
        }
    }
}

} // verus!
