//! Searches in an index at a point of the history.

use crate::database::Database;
use crate::errors::DatabaseError;
use crate::ids::{DocumentIdV6, IndexId, InternalId, TableNumber};
use crate::names::{TableName, TabletIndexName};
use crate::registry::{IndexEntry, IndexRegistry, Snapshot};
use vstd::prelude::*;

verus! {

/// A document that a vector search found, with how well it fits.
#[derive(Debug, PartialEq, Eq)]
pub struct VectorSearchResult<S> {
    pub id: InternalId,
    pub score: S,
}

/// A document that a vector search found, as it is told to users.
#[derive(Debug, PartialEq, Eq)]
pub struct PublicVectorSearchQueryResult<S> {
    pub id: DocumentIdV6,
    pub score: S,
}

/// What a vector search is charged for.
#[derive(Debug, PartialEq, Eq)]
pub struct VectorEgress {
    pub table_name: String,
    pub size: u64,
    pub is_system: bool,
}

/// A vector search whose index is known.
#[derive(Debug)]
pub struct PendingVectorSearch {
    pub index_id: IndexId,
    pub index_name: TabletIndexName,
    pub table_number: TableNumber,
    /// The name of the index's table.
    pub table_name: TableName,
}

/// How a vector search goes on.
#[derive(Debug)]
pub enum VectorSearchStart {
    /// There is no such table, so there is nothing to be found, and nothing to be
    /// charged for.
    NoTable,
    /// Search in an index.
    Search(PendingVectorSearch),
}

impl IndexRegistry {
    /// The enabled index of this name.
    pub fn require_enabled(&self, name: &TabletIndexName) -> (index: Result<
        &IndexEntry,
        DatabaseError,
    >)
        ensures
            match index {
                Ok(i) => {
                    &&& self.has_enabled(name@.0, name@.1)
                    &&& *i == self.enabled(name@.0, name@.1)
                },
                Err(error) => {
                    &&& !self.has_enabled(name@.0, name@.1)
                    &&& error matches DatabaseError::IndexNotEnabled { table_id, descriptor }
                    &&& table_id == name@.0
                    &&& descriptor@ == name@.1
                },
            },
    {
        match self.get_enabled(name) {
            Some(index) => Ok(index),
            None => Err(
                DatabaseError::IndexNotEnabled {
                    table_id: name.table,
                    descriptor: name.descriptor.clone(),
                },
            ),
        }
    }
}

impl<RT, St> Database<RT, St> {
    /// The enabled index with this id, which a text search in a snapshot is to
    /// use.
    pub fn search_with_compiled_query<'a>(
        &self,
        snapshot: &'a Snapshot,
        index_id: IndexId,
    ) -> (index: Result<&'a IndexEntry, DatabaseError>)
        ensures
            match index {
                Ok(i) => {
                    &&& snapshot.index_registry.has_enabled_id(index_id)
                    &&& *i == snapshot.index_registry.enabled_id(index_id)
                },
                Err(error) => {
                    &&& !snapshot.index_registry.has_enabled_id(index_id)
                    &&& error == (DatabaseError::MissingIndex { index_id })
                },
            },
    {
        match snapshot.index_registry.enabled_index_by_index_id(index_id) {
            Some(index) => Ok(index),
            None => Err(DatabaseError::MissingIndex { index_id }),
        }
    }

    /// Begins a vector search in the index that a snapshot has under this name.
    pub fn vector_search_at_ts(
        &self,
        snapshot: &Snapshot,
        table_name: &TableName,
        descriptor: &String,
    ) -> (start: Result<VectorSearchStart, DatabaseError>)
        ensures
            ({
                let mapping = snapshot.table_registry.table_mapping@;
                let registry = snapshot.index_registry;
                if !mapping.names.contains_key(table_name@) {
                    start matches Ok(VectorSearchStart::NoTable)
                } else {
                    match mapping.id(table_name@) {
                        None => {
                            &&& start matches Err(DatabaseError::TableNameNotFound { table_name: n })
                            &&& n@ == table_name@
                        },
                        Some(table) => if registry.has_enabled(table.table_id, descriptor@) {
                            &&& start matches Ok(VectorSearchStart::Search(search))
                            &&& search.index_id == registry.enabled(
                                table.table_id,
                                descriptor@,
                            ).id
                            &&& search.index_name@ == (table.table_id, descriptor@)
                            &&& search.table_number == table.table_number
                            &&& search.table_name@ == mapping.tablets[table.table_id].1
                        } else {
                            &&& start matches Err(
                                DatabaseError::IndexNotEnabled { table_id, descriptor: d },
                            )
                            &&& table_id == table.table_id
                            &&& d@ == descriptor@
                        },
                    }
                }
            }),
    {
        let mapping = &snapshot.table_registry.table_mapping;
        if !mapping.name_exists(table_name) {
            return Ok(VectorSearchStart::NoTable);
        }
        let table = match mapping.id(table_name) {
            Some(table) => table,
            None => {
                return Err(DatabaseError::TableNameNotFound { table_name: table_name.clone() });
            },
        };
        let index_name = TabletIndexName { table: table.table_id, descriptor: descriptor.clone() };
        let index_id = match snapshot.index_registry.require_enabled(&index_name) {
            Ok(index) => index.id,
            Err(error) => {
                return Err(error);
            },
        };
        match mapping.tablet_name(table.table_id) {
            Some(found) => Ok(
                VectorSearchStart::Search(
                    PendingVectorSearch {
                        index_id,
                        index_name,
                        table_number: table.table_number,
                        table_name: found.clone(),
                    },
                ),
            ),
            None => {
                assert(false);
                Ok(VectorSearchStart::NoTable)
            },
        }
    }
}

/// The sum of sizes.
pub open spec fn total_size(sizes: Seq<u64>) -> int
    decreases sizes.len(),
{
    if sizes.len() == 0 {
        0
    } else {
        total_size(sizes.drop_last()) + sizes.last()
    }
}

proof fn lemma_total_size_grows(sizes: Seq<u64>, n: int)
    requires
        0 <= n <= sizes.len(),
    ensures
        0 <= total_size(sizes.take(n)) <= total_size(sizes),
    decreases sizes.len(),
{
    if n < sizes.len() {
        lemma_total_size_grows(sizes.drop_last(), n);
        assert(sizes.drop_last().take(n) =~= sizes.take(n));
    } else {
        assert(sizes.take(n) =~= sizes);
        if n > 0 {
            lemma_total_size_grows(sizes.drop_last(), n - 1);
            assert(sizes.drop_last().take(n - 1) =~= sizes.drop_last());
        }
    }
}

impl PendingVectorSearch {
    /// What was found, as it is told to users: documents by the number of their
    /// table, in the order in which they were found.
    pub fn public_results<S>(&self, found: Vec<VectorSearchResult<S>>) -> (results: Vec<
        PublicVectorSearchQueryResult<S>,
    >)
        ensures
            results@ == found@.map_values(
                |r: VectorSearchResult<S>|
                    PublicVectorSearchQueryResult {
                        id: DocumentIdV6 { table_number: self.table_number, internal_id: r.id },
                        score: r.score,
                    },
            ),
    {
        let ghost all = found@;
        let ghost public = |r: VectorSearchResult<S>|
            PublicVectorSearchQueryResult {
                id: DocumentIdV6 { table_number: self.table_number, internal_id: r.id },
                score: r.score,
            };
        let mut results: Vec<PublicVectorSearchQueryResult<S>> = Vec::new();
        for r in it: found
            invariant
                it.seq() == all,
                public == (|r: VectorSearchResult<S>|
                    PublicVectorSearchQueryResult {
                        id: DocumentIdV6 { table_number: self.table_number, internal_id: r.id },
                        score: r.score,
                    }),
                results@ == all.take(it.index()).map_values(public),
        {
            assert(r == all[it.index()]);
            let id = DocumentIdV6 { table_number: self.table_number, internal_id: r.id };
            results.push(PublicVectorSearchQueryResult { id, score: r.score });
            assert(results@ =~= all.take(it.index() + 1).map_values(public));
        }
        assert(all.take(all.len() as int) =~= all);
        results
    }

    /// What the search is charged for: the sizes of its results. There are no
    /// vector indexes that the system keeps for itself.
    pub fn egress(self, sizes: &Vec<u64>) -> (egress: VectorEgress)
        requires
            total_size(sizes@) <= u64::MAX,
        ensures
            egress.table_name@ == self.table_name@,
            egress.size == total_size(sizes@),
            !egress.is_system,
    {
        let mut size: u64 = 0;
        assert(sizes@.take(0) =~= Seq::empty());
        for i in 0..sizes.len()
            invariant
                total_size(sizes@) <= u64::MAX,
                size == total_size(sizes@.take(i as int)),
        {
            proof {
                lemma_total_size_grows(sizes@, i + 1);
                assert(sizes@.take(i + 1).drop_last() =~= sizes@.take(i as int));
            }
            size = size + sizes[i];
        }
        assert(sizes@.take(sizes.len() as int) =~= sizes@);
        VectorEgress { table_name: self.table_name.name, size, is_system: false }
    }
}

} // verus!
