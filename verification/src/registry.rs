//! The tables and indexes of a snapshot, and what holds of them together.

use crate::database::PersistenceVersion;
use crate::errors::DatabaseError;
use crate::ids::{IndexId, TableId, TableIdAndTableNumber, TableNumber};
use crate::metadata::{
    clone_table_states, table_states, ParsedDocument, TableState, VirtualTableMetadata,
};
use crate::name_map::NameMap;
use crate::names::{TableName, TabletIndexName, BY_ID};
use crate::snapshot::DatabaseSnapshot;
use crate::table_mapping::{MappingView, TableMapping};
use imbl::OrdMap;
use std::collections::BTreeMap;
use vstd::prelude::*;

verus! {

/// Tables that have no documents of their own, by number and name.
#[derive(Debug)]
pub struct VirtualTableMapping {
    names: NameMap<TableNumber>,
    numbers: BTreeMap<u32, TableName>,
}

/// What a virtual table mapping says.
#[verifier::ext_equal]
pub struct VirtualMappingView {
    pub names: Map<Seq<char>, TableNumber>,
    pub numbers: Map<TableNumber, Seq<char>>,
}

impl VirtualMappingView {
    pub open spec fn empty() -> VirtualMappingView {
        VirtualMappingView { names: Map::empty(), numbers: Map::empty() }
    }

    pub open spec fn insert(self, number: TableNumber, name: Seq<char>) -> VirtualMappingView {
        VirtualMappingView {
            names: self.names.insert(name, number),
            numbers: self.numbers.insert(number, name),
        }
    }
}

impl View for VirtualTableMapping {
    type V = VirtualMappingView;

    closed spec fn view(&self) -> VirtualMappingView {
        VirtualMappingView {
            names: self.names@,
            numbers: Map::new(
                |number: TableNumber| self.numbers@.contains_key(number.0),
                |number: TableNumber| self.numbers@[number.0]@,
            ),
        }
    }
}

impl Clone for VirtualTableMapping {
    fn clone(&self) -> (copy: VirtualTableMapping)
        ensures
            copy@ == self@,
    {
        VirtualTableMapping { names: self.names.clone(), numbers: self.numbers.clone() }
    }
}

impl VirtualTableMapping {
    /// A mapping without tables.
    pub fn new() -> (mapping: VirtualTableMapping)
        ensures
            mapping@ == VirtualMappingView::empty(),
    {
        let mapping = VirtualTableMapping { names: NameMap::new(), numbers: BTreeMap::new() };
        assert(mapping@ =~= VirtualMappingView::empty());
        mapping
    }

    /// Lets a number and a name lead to each other.
    pub fn insert(&mut self, number: TableNumber, name: TableName)
        ensures
            final(self)@ == old(self)@.insert(number, name@),
    {
        self.names.insert(name.name.clone(), number);
        self.numbers.insert(number.0, name);
        assert(self@ =~= old(self)@.insert(number, name@));
    }

    /// The number of the table with this name.
    pub fn number(&self, name: &TableName) -> (number: Option<TableNumber>)
        ensures
            match number {
                Some(n) => self@.names.contains_key(name@) && self@.names[name@] == n,
                None => !self@.names.contains_key(name@),
            },
    {
        match self.names.get(&name.name) {
            Some(number) => Some(*number),
            None => None,
        }
    }

    /// The name of the table with this number.
    pub fn name(&self, number: TableNumber) -> (name: Option<&TableName>)
        ensures
            match name {
                Some(n) => self@.numbers.contains_key(number) && self@.numbers[number] == n@,
                None => !self@.numbers.contains_key(number),
            },
    {
        self.numbers.get(&number.0)
    }
}

/// The virtual tables that documents describe. Of two documents about one name
/// or number the later one counts.
pub open spec fn virtual_mapping_of(
    documents: Seq<ParsedDocument<VirtualTableMetadata>>,
) -> VirtualMappingView
    decreases documents.len(),
{
    if documents.len() == 0 {
        VirtualMappingView::empty()
    } else {
        virtual_mapping_of(documents.drop_last()).insert(
            documents.last().value.number,
            documents.last().value.name@,
        )
    }
}

impl DatabaseSnapshot {
    /// The virtual tables that documents describe.
    pub fn virtual_table_mapping(virtual_tables: Vec<ParsedDocument<VirtualTableMetadata>>) -> (mapping:
        VirtualTableMapping)
        ensures
            mapping@ == virtual_mapping_of(virtual_tables@),
    {
        let ghost all = virtual_tables@;
        let mut mapping = VirtualTableMapping::new();
        assert(all.take(0) =~= Seq::empty());
        for virtual_table in it: virtual_tables
            invariant
                it.seq() == all,
                mapping@ == virtual_mapping_of(all.take(it.index())),
        {
            let ghost longer = all.take(it.index() + 1);
            assert(longer.drop_last() =~= all.take(it.index()));
            assert(longer.last() == virtual_table);
            mapping.insert(virtual_table.value.number, virtual_table.value.name);
        }
        assert(all.take(all.len() as int) =~= all);
        mapping
    }
}

/// An index that a snapshot has.
#[derive(Debug, PartialEq, Eq)]
pub struct IndexEntry {
    pub id: IndexId,
    pub name: TabletIndexName,
    /// Whether the index is complete and in use.
    pub enabled: bool,
    /// Whether the system keeps the index for itself, and not a user.
    pub system_owned: bool,
}

/// The indexes of a snapshot.
#[derive(Debug)]
pub struct IndexRegistry {
    /// The table of the documents that describe indexes.
    pub index_table: TableIdAndTableNumber,
    pub indexes: Vec<IndexEntry>,
}

impl Clone for IndexEntry {
    fn clone(&self) -> (copy: IndexEntry)
        ensures
            copy == *self,
    {
        IndexEntry {
            id: self.id,
            name: self.name.clone(),
            enabled: self.enabled,
            system_owned: self.system_owned,
        }
    }
}

impl Clone for IndexRegistry {
    fn clone(&self) -> (copy: IndexRegistry)
        ensures
            copy.index_table == self.index_table,
            copy.indexes@ == self.indexes@,
    {
        let indexes = self.indexes.clone();
        assert(indexes@ =~= self.indexes@);
        IndexRegistry { index_table: self.index_table, indexes }
    }
}

impl IndexEntry {
    /// Whether this is the index of this name, and enabled.
    pub open spec fn is_enabled_as(self, table: TableId, descriptor: Seq<char>) -> bool {
        self.enabled && self.name@ == (table, descriptor)
    }
}

impl IndexRegistry {
    /// Whether there is an enabled index of this name.
    pub open spec fn has_enabled(self, table: TableId, descriptor: Seq<char>) -> bool {
        exists|i: int|
            0 <= i < self.indexes@.len() && (#[trigger] self.indexes@[i]).is_enabled_as(
                table,
                descriptor,
            )
    }

    /// The first enabled index of this name.
    pub open spec fn enabled(self, table: TableId, descriptor: Seq<char>) -> IndexEntry {
        first_that(self.indexes@, |index: IndexEntry| index.is_enabled_as(table, descriptor))
    }

    /// The enabled index of this name.
    pub fn get_enabled(&self, name: &TabletIndexName) -> (index: Option<&IndexEntry>)
        ensures
            match index {
                Some(i) => {
                    &&& self.has_enabled(name@.0, name@.1)
                    &&& *i == self.enabled(name@.0, name@.1)
                },
                None => !self.has_enabled(name@.0, name@.1),
            },
    {
        let ghost wanted = |index: IndexEntry| index.is_enabled_as(name@.0, name@.1);
        for i in 0..self.indexes.len()
            invariant
                wanted == (|index: IndexEntry| index.is_enabled_as(name@.0, name@.1)),
                forall|j: int| 0 <= j < i ==> !wanted(#[trigger] self.indexes@[j]),
        {
            let index = &self.indexes[i];
            if index.enabled && index.name == *name {
                proof {
                    lemma_first_that(self.indexes@, wanted, i as int);
                }
                return Some(index);
            }
        }
        assert(forall|j: int|
            0 <= j < self.indexes@.len() ==> wanted(#[trigger] self.indexes@[j]) == self.indexes@[j]
                .is_enabled_as(name@.0, name@.1));
        None
    }

    /// The enabled index over document ids of a table.
    pub fn must_get_by_id(&self, table: TableId) -> (index: Result<&IndexEntry, DatabaseError>)
        ensures
            match index {
                Ok(i) => self.has_enabled(table, BY_ID@) && *i == self.enabled(table, BY_ID@),
                Err(error) => {
                    &&& !self.has_enabled(table, BY_ID@)
                    &&& error == (DatabaseError::ByIdNotFound { table_id: table })
                },
            },
    {
        match self.get_enabled(&TabletIndexName::by_id(table)) {
            Some(index) => Ok(index),
            None => Err(DatabaseError::ByIdNotFound { table_id: table }),
        }
    }

    /// Whether there is an enabled index with this id.
    pub open spec fn has_enabled_id(self, id: IndexId) -> bool {
        exists|i: int|
            {
                &&& 0 <= i < self.indexes@.len()
                &&& (#[trigger] self.indexes@[i]).enabled
                &&& self.indexes@[i].id == id
            }
    }

    /// The first enabled index with this id.
    pub open spec fn enabled_id(self, id: IndexId) -> IndexEntry {
        first_that(self.indexes@, |index: IndexEntry| index.enabled && index.id == id)
    }

    /// The enabled index with this id.
    pub fn enabled_index_by_index_id(&self, id: IndexId) -> (index: Option<&IndexEntry>)
        ensures
            match index {
                Some(i) => self.has_enabled_id(id) && *i == self.enabled_id(id),
                None => !self.has_enabled_id(id),
            },
    {
        let ghost wanted = |index: IndexEntry| index.enabled && index.id == id;
        for i in 0..self.indexes.len()
            invariant
                wanted == (|index: IndexEntry| index.enabled && index.id == id),
                forall|j: int| 0 <= j < i ==> !wanted(#[trigger] self.indexes@[j]),
        {
            let index = &self.indexes[i];
            if index.enabled && index.id == id {
                proof {
                    lemma_first_that(self.indexes@, wanted, i as int);
                }
                return Some(index);
            }
        }
        assert(forall|j: int|
            0 <= j < self.indexes@.len() ==> wanted(#[trigger] self.indexes@[j]) == (
            self.indexes@[j].enabled && self.indexes@[j].id == id));
        None
    }
}

/// The first item of which `wanted` holds.
pub open spec fn first_that(items: Seq<IndexEntry>, wanted: spec_fn(IndexEntry) -> bool) -> IndexEntry
    decreases items.len(),
{
    if items.len() == 0 || wanted(items[0]) {
        items[0]
    } else {
        first_that(items.drop_first(), wanted)
    }
}

pub proof fn lemma_first_that(
    items: Seq<IndexEntry>,
    wanted: spec_fn(IndexEntry) -> bool,
    i: int,
)
    requires
        0 <= i < items.len(),
        wanted(items[i]),
        forall|j: int| 0 <= j < i ==> !wanted(#[trigger] items[j]),
    ensures
        first_that(items, wanted) == items[i],
    decreases i,
{
    if i > 0 {
        let rest = items.drop_first();
        assert(!wanted(items[0]));
        assert forall|j: int| 0 <= j < i - 1 implies !wanted(#[trigger] rest[j]) by {
            assert(rest[j] == items[j + 1]);
        }
        lemma_first_that(rest, wanted, i - 1);
    }
}

/// The tables of a snapshot.
#[derive(Debug)]
pub struct TableRegistry {
    pub table_mapping: TableMapping,
    /// What is done with each table, by the number that its id holds.
    pub table_states: OrdMap<u128, TableState>,
    pub virtual_table_mapping: VirtualTableMapping,
}

impl TableRegistry {
    /// Whether two registries hold the same tables.
    pub open spec fn same_as(self, other: TableRegistry) -> bool {
        &&& self.table_mapping@ == other.table_mapping@
        &&& table_states(self.table_states) == table_states(other.table_states)
        &&& self.virtual_table_mapping@ == other.virtual_table_mapping@
    }
}

impl Clone for TableRegistry {
    fn clone(&self) -> (copy: TableRegistry)
        ensures
            copy.same_as(*self),
    {
        TableRegistry {
            table_mapping: self.table_mapping.clone(),
            table_states: clone_table_states(&self.table_states),
            virtual_table_mapping: self.virtual_table_mapping.clone(),
        }
    }
}

/// The size of a table.
#[derive(Clone, Copy, Debug, PartialEq, Eq, Structural)]
pub struct TableSummary {
    /// The size of all documents, in bytes.
    pub total_size_rounded: u64,
}

/// The sizes of tables, by the number that a table's id holds.
#[derive(Debug)]
pub struct TableSummaries {
    pub tables: BTreeMap<u128, TableSummary>,
}

impl Clone for TableSummaries {
    fn clone(&self) -> (copy: TableSummaries)
        ensures
            copy.tables@ == self.tables@,
    {
        TableSummaries { tables: self.tables.clone() }
    }
}

/// Whether search indexes can be used.
#[derive(Clone, Copy, Debug, PartialEq, Eq, Structural)]
pub enum SearchIndexState {
    /// They are filled in the background after a start.
    Bootstrapping,
    Ready,
}

/// The search indexes of a snapshot.
#[derive(Clone, Copy, Debug, PartialEq, Eq, Structural)]
pub struct SearchIndexes {
    pub state: SearchIndexState,
    pub persistence_version: PersistenceVersion,
}

impl SearchIndexes {
    /// The search indexes of a database that was just loaded.
    pub fn bootstrapping(persistence_version: PersistenceVersion) -> (indexes: SearchIndexes)
        ensures
            indexes.state is Bootstrapping,
            indexes.persistence_version == persistence_version,
    {
        SearchIndexes { state: SearchIndexState::Bootstrapping, persistence_version }
    }
}

/// The database at a point of its history.
#[derive(Debug)]
pub struct Snapshot {
    pub table_registry: TableRegistry,
    pub table_summaries: TableSummaries,
    pub index_registry: IndexRegistry,
    pub search_indexes: SearchIndexes,
}

impl Snapshot {
    /// Whether two snapshots are of the same database at the same point.
    pub open spec fn same_as(self, other: Snapshot) -> bool {
        &&& self.table_registry.same_as(other.table_registry)
        &&& self.table_summaries.tables@ == other.table_summaries.tables@
        &&& self.index_registry.index_table == other.index_registry.index_table
        &&& self.index_registry.indexes@ == other.index_registry.indexes@
        &&& self.search_indexes == other.search_indexes
    }
}

impl Clone for Snapshot {
    fn clone(&self) -> (copy: Snapshot)
        ensures
            copy.same_as(*self),
    {
        Snapshot {
            table_registry: self.table_registry.clone(),
            table_summaries: self.table_summaries.clone(),
            index_registry: self.index_registry.clone(),
            search_indexes: self.search_indexes,
        }
    }
}

/// Every table can be scanned: it has an enabled index over document ids.
pub open spec fn tables_can_be_scanned(mapping: MappingView, indexes: IndexRegistry) -> bool {
    forall|id: TableId| #[trigger]
        mapping.tablets.contains_key(id) ==> indexes.has_enabled(id, BY_ID@)
}

/// Every index is on a table that exists.
pub open spec fn indexes_have_tables(mapping: MappingView, indexes: IndexRegistry) -> bool {
    forall|i: int|
        0 <= i < indexes.indexes@.len() ==> mapping.tablets.contains_key(
            (#[trigger] indexes.indexes@[i]).name.table,
        )
}

/// Whether `id` is the smallest id of a table that cannot be scanned.
pub open spec fn is_first_unscannable(
    mapping: MappingView,
    indexes: IndexRegistry,
    id: TableId,
) -> bool {
    &&& mapping.tablets.contains_key(id)
    &&& !indexes.has_enabled(id, BY_ID@)
    &&& forall|other: TableId| #[trigger]
        mapping.tablets.contains_key(other) && other.0.0 < id.0.0 ==> indexes.has_enabled(
            other,
            BY_ID@,
        )
}

/// Whether index `i` is the first that is on no table that exists.
pub open spec fn is_first_without_table(
    mapping: MappingView,
    indexes: IndexRegistry,
    i: int,
) -> bool {
    &&& 0 <= i < indexes.indexes@.len()
    &&& !mapping.tablets.contains_key(indexes.indexes@[i].name.table)
    &&& forall|j: int|
        0 <= j < i ==> mapping.tablets.contains_key(
            (#[trigger] indexes.indexes@[j]).name.table,
        )
}

/// Whether `error` names the first table, in the order of ids, that cannot be
/// scanned, or, if all can be, the table of the first index that is on none.
pub open spec fn breaks_invariants(
    mapping: MappingView,
    indexes: IndexRegistry,
    error: DatabaseError,
) -> bool {
    if !tables_can_be_scanned(mapping, indexes) {
        exists|id: TableId|
            {
                &&& #[trigger] is_first_unscannable(mapping, indexes, id)
                &&& error matches DatabaseError::MissingByIdIndex { table_name }
                &&& table_name@ == mapping.tablets[id].1
            }
    } else {
        exists|i: int|
            {
                &&& #[trigger] is_first_without_table(mapping, indexes, i)
                &&& error == (DatabaseError::MissingTable {
                    table_id: indexes.indexes@[i].name.table,
                })
            }
    }
}

impl DatabaseSnapshot {
    /// Checks that every table can be scanned and every index is on a table that
    /// exists.
    ///
    /// The error names the first table, in the order of ids, that cannot be
    /// scanned, or else the table of the first index that is on none.
    pub fn verify_invariants(table_registry: &TableRegistry, index_registry: &IndexRegistry) -> (result:
        Result<(), DatabaseError>)
        ensures
            match result {
                Ok(_) => {
                    &&& tables_can_be_scanned(table_registry.table_mapping@, *index_registry)
                    &&& indexes_have_tables(table_registry.table_mapping@, *index_registry)
                },
                Err(error) => breaks_invariants(
                    table_registry.table_mapping@,
                    *index_registry,
                    error,
                ),
            },
    {
        let ghost mapping = table_registry.table_mapping@;
        let ids = table_registry.table_mapping.table_ids();
        for i in 0..ids.len()
            invariant
                mapping == table_registry.table_mapping@,
                forall|id: TableId| #[trigger] ids@.contains(id) <==> mapping.tablets.contains_key(id),
                forall|a: int, b: int|
                    0 <= a < b < ids.len() ==> (#[trigger] ids@[a]).0.0 < (#[trigger] ids@[b]).0.0,
                forall|j: int|
                    0 <= j < i ==> index_registry.has_enabled(#[trigger] ids@[j], BY_ID@),
        {
            let id = ids[i];
            assert(ids@.contains(id));
            if index_registry.get_enabled(&TabletIndexName::by_id(id)).is_none() {
                if let Some(name) = table_registry.table_mapping.tablet_name(id) {
                    proof {
                        assert forall|other: TableId| #[trigger]
                            mapping.tablets.contains_key(other) && other.0.0
                                < id.0.0 implies index_registry.has_enabled(other, BY_ID@) by {
                            assert(ids@.contains(other));
                            let j = choose|j: int| 0 <= j < ids.len() && ids@[j] == other;
                            if j > i {
                                assert(ids@[i as int].0.0 < ids@[j].0.0);
                            }
                        }
                        assert(is_first_unscannable(mapping, *index_registry, id));
                    }
                    return Err(DatabaseError::MissingByIdIndex { table_name: name.clone() });
                }
            }
        }
        assert(tables_can_be_scanned(mapping, *index_registry)) by {
            assert forall|id: TableId| #[trigger]
                mapping.tablets.contains_key(id) implies index_registry.has_enabled(id, BY_ID@) by {
                assert(ids@.contains(id));
                let j = choose|j: int| 0 <= j < ids.len() && ids@[j] == id;
                assert(index_registry.has_enabled(ids@[j], BY_ID@));
            }
        }
        for i in 0..index_registry.indexes.len()
            invariant
                mapping == table_registry.table_mapping@,
                tables_can_be_scanned(mapping, *index_registry),
                forall|j: int|
                    0 <= j < i ==> mapping.tablets.contains_key(
                        (#[trigger] index_registry.indexes@[j]).name.table,
                    ),
        {
            let table_id = index_registry.indexes[i].name.table;
            if !table_registry.table_mapping.table_id_exists(table_id) {
                assert(is_first_without_table(mapping, *index_registry, i as int));
                return Err(DatabaseError::MissingTable { table_id });
            }
        }
        Ok(())
    }
}

} // verus!
