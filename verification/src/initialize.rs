//! How a fresh database is laid out.
//!
//! A fresh database gets its system tables and their indexes, as documents of
//! the tables table and the index table, and four globals that lead to these
//! two tables. The globals with the ids of the tables are written first, then
//! the documents are laid out, then come the globals with the ids of the tables'
//! indexes, and last of all the documents themselves.

use crate::errors::{DatabaseError, PersistenceGlobalKey};
use crate::ids::{
    IndexId, InternalId, ResolvedDocumentId, TableId, TableIdAndTableNumber, TableNumber, Timestamp,
};
use crate::metadata::{TableMetadata, TableState};
use crate::name_map::NameMap;
use crate::names::{TableName, TabletIndexName, BY_CREATION_TIME, BY_ID};
use crate::table_mapping::{MappingView, TableMapping};
use std::collections::BTreeMap;
use vstd::prelude::*;

verus! {

/// What an index is ordered by.
#[derive(Debug, PartialEq, Eq)]
pub enum IndexedFields {
    /// The ids of documents.
    ById,
    /// The creation times of documents.
    CreationTime,
    /// Fields of documents, given by their paths.
    Fields(Vec<String>),
}

/// An index that a system table has from the beginning, besides those that all
/// tables have.
#[derive(Debug, PartialEq, Eq)]
pub struct SystemIndex {
    pub table_name: TableName,
    pub descriptor: String,
    pub fields: IndexedFields,
}

/// A table that a database has from the beginning.
#[derive(Debug, PartialEq, Eq)]
pub struct SystemTable {
    pub table_name: TableName,
    pub indexes: Vec<SystemIndex>,
}

/// What a fresh database is made of.
#[derive(Debug)]
pub struct BootstrapConfig {
    /// The table of the documents that describe tables.
    pub tables_table: TableName,
    /// The table of the documents that describe indexes.
    pub index_table: TableName,
    pub system_tables: Vec<SystemTable>,
    /// The numbers that system tables take.
    pub table_numbers: NameMap<TableNumber>,
    /// Numbers from here on are for user tables.
    pub num_reserved_system_tables: TableNumber,
    /// Numbers below this are for tables of old.
    pub num_reserved_legacy_tables: TableNumber,
}

/// How far an index has come.
#[derive(Clone, Copy, Debug, PartialEq, Eq, Structural)]
pub enum IndexState {
    /// It is being filled with the documents of its table.
    Backfilling,
    /// It is complete and in use.
    Enabled,
}

/// The contents of a document of the index table.
#[derive(Debug, PartialEq, Eq)]
pub struct IndexMetadata {
    pub name: TabletIndexName,
    pub fields: IndexedFields,
    pub state: IndexState,
}

impl IndexMetadata {
    /// An index of a table that was created just now: there are no documents to
    /// fill it with.
    pub fn new_enabled(name: TabletIndexName, fields: IndexedFields) -> (metadata: IndexMetadata)
        ensures
            metadata == (IndexMetadata { name, fields, state: IndexState::Enabled }),
    {
        IndexMetadata { name, fields, state: IndexState::Enabled }
    }
}

/// The contents of a document of a fresh database.
#[derive(Debug, PartialEq, Eq)]
pub enum BootstrapDocument {
    Table(TableMetadata),
    Index(IndexMetadata),
}

/// A document to be written.
#[derive(Debug, PartialEq, Eq)]
pub struct DocumentWrite {
    pub ts: Timestamp,
    /// The document is created so many creation times after the first one.
    pub creation_order: usize,
    pub id: ResolvedDocumentId,
    pub document: BootstrapDocument,
}

/// What becomes of writes about ids that were written before.
#[derive(Clone, Copy, Debug, PartialEq, Eq, Structural)]
pub enum ConflictStrategy {
    /// All writes are refused.
    Error,
    /// The new document takes the place of the old one.
    Overwrite,
}

/// What the contents of a document say.
#[verifier::ext_equal]
pub enum DocumentView {
    Table { name: Seq<char>, number: TableNumber, state: TableState },
    Index { index_name: (TableId, Seq<char>), fields: IndexedFields, index_state: IndexState },
}

/// What a write says, but for when the document is created.
#[verifier::ext_equal]
pub struct WriteView {
    pub ts: Timestamp,
    pub id: ResolvedDocumentId,
    pub document: DocumentView,
}

impl View for BootstrapDocument {
    type V = DocumentView;

    open spec fn view(&self) -> DocumentView {
        match *self {
            BootstrapDocument::Table(table) => DocumentView::Table {
                name: table.name@,
                number: table.number,
                state: table.state,
            },
            BootstrapDocument::Index(index) => DocumentView::Index {
                index_name: index.name@,
                fields: index.fields,
                index_state: index.state,
            },
        }
    }
}

impl DocumentWrite {
    /// What the write says, but for when the document is created.
    pub open spec fn content(self) -> WriteView {
        WriteView { ts: self.ts, id: self.id, document: self.document@ }
    }
}

/// Whether documents are created one after the other, each at a creation time of
/// its own.
pub open spec fn created_in_order(writes: Seq<DocumentWrite>) -> bool {
    forall|i: int| 0 <= i < writes.len() ==> (#[trigger] writes[i]).creation_order == i
}

/// What writes say.
pub open spec fn write_views(writes: Seq<DocumentWrite>) -> Seq<WriteView> {
    Seq::new(writes.len(), |i: int| writes[i].content())
}

impl BootstrapConfig {
    /// How many tables there are.
    pub open spec fn len(self) -> nat {
        self.system_tables@.len()
    }

    /// The name of a table.
    pub open spec fn name(self, i: int) -> Seq<char> {
        self.system_tables@[i].table_name@
    }

    /// The names of all tables. The indexes of these tables are kept in memory.
    pub fn table_names(&self) -> (names: Vec<TableName>)
        ensures
            names@.len() == self.len(),
            forall|i: int| 0 <= i < names@.len() ==> (#[trigger] names@[i])@ == self.name(i),
    {
        let mut names: Vec<TableName> = Vec::new();
        for i in 0..self.system_tables.len()
            invariant
                names@.len() == i,
                forall|j: int| 0 <= j < i ==> (#[trigger] names@[j])@ == self.name(j),
        {
            names.push(self.system_tables[i].table_name.clone());
        }
        names
    }

    /// The number of a table.
    pub open spec fn number(self, i: int) -> TableNumber {
        self.table_numbers@[self.name(i)]
    }

    /// The first `n` tables, with the ids that were drawn for them.
    pub open spec fn mapping(self, ids: Seq<InternalId>, n: int) -> MappingView
        decreases n,
    {
        if n <= 0 {
            MappingView::empty()
        } else {
            self.mapping(ids, n - 1).insert(
                TableId(ids[n - 1]),
                self.number(n - 1),
                self.name(n - 1),
            )
        }
    }

    /// Whether a table can take its number, with the tables before it in place.
    pub open spec fn accepts(self, ids: Seq<InternalId>, i: int) -> bool {
        &&& self.table_numbers@.contains_key(self.name(i))
        &&& self.mapping(ids, i).name_by_number(self.number(i)) is None
        &&& self.number(i).0 < self.num_reserved_system_tables.0
        &&& self.number(i).0 >= self.num_reserved_legacy_tables.0
    }

    /// Whether `error` says why a table cannot take its number.
    pub open spec fn refuses(self, ids: Seq<InternalId>, i: int, error: DatabaseError) -> bool {
        if !self.table_numbers@.contains_key(self.name(i)) {
            &&& error matches DatabaseError::NoNumberForTable { table_name }
            &&& table_name@ == self.name(i)
        } else if self.mapping(ids, i).name_by_number(self.number(i)) is Some {
            &&& error matches DatabaseError::NumberTaken { table_number, table_name, existing }
            &&& table_number == self.number(i)
            &&& table_name@ == self.name(i)
            &&& Some(existing@) == self.mapping(ids, i).name_by_number(self.number(i))
        } else if self.number(i).0 >= self.num_reserved_system_tables.0 {
            &&& error matches DatabaseError::NumberReservedForUsers { table_number, table_name }
            &&& table_number == self.number(i)
            &&& table_name@ == self.name(i)
        } else {
            &&& self.number(i).0 < self.num_reserved_legacy_tables.0
            &&& error matches DatabaseError::NumberReservedForLegacy { table_number, table_name }
            &&& table_number == self.number(i)
            &&& table_name@ == self.name(i)
        }
    }

    /// Whether every table can take its number.
    pub open spec fn accepts_all(self, ids: Seq<InternalId>) -> bool {
        forall|i: int| 0 <= i < self.len() ==> #[trigger] self.accepts(ids, i)
    }

    /// Which id is drawn for the first index of table `n`.
    pub open spec fn next_id(self, n: int) -> int
        decreases n,
    {
        if n <= 0 {
            self.len() as int
        } else if self.name(n - 1) == self.index_table@ {
            self.next_id(n - 1) + 1
        } else {
            self.next_id(n - 1) + 2
        }
    }

    /// The system indexes of the first `n` tables.
    pub open spec fn indexes(self, n: int) -> Seq<SystemIndex>
        decreases n,
    {
        if n <= 0 {
            Seq::empty()
        } else {
            self.indexes(n - 1) + self.system_tables@[n - 1].indexes@
        }
    }

    /// All system indexes.
    pub open spec fn all_indexes(self) -> Seq<SystemIndex> {
        self.indexes(self.len() as int)
    }

    /// How many ids a fresh database takes.
    pub open spec fn spec_ids_needed(self) -> int {
        self.next_id(self.len() as int) + self.all_indexes().len()
    }

    /// How many ids a fresh database takes, if they can be counted.
    pub fn ids_needed(&self) -> (count: Option<usize>)
        ensures
            match count {
                Some(n) => n == self.spec_ids_needed(),
                None => self.spec_ids_needed() > usize::MAX,
            },
    {
        let mut ids: usize = self.system_tables.len();
        let mut indexes: usize = 0;
        for i in 0..self.system_tables.len()
            invariant
                ids == self.next_id(i as int),
                indexes == self.indexes(i as int).len(),
        {
            proof {
                self.lemma_counts_grow(i + 1, self.len() as int);
            }
            let table = &self.system_tables[i];
            let own: usize = if table.table_name == self.index_table {
                1
            } else {
                2
            };
            match ids.checked_add(own) {
                Some(sum) => {
                    ids = sum;
                },
                None => {
                    return None;
                },
            }
            match indexes.checked_add(table.indexes.len()) {
                Some(sum) => {
                    indexes = sum;
                },
                None => {
                    return None;
                },
            }
        }
        ids.checked_add(indexes)
    }

    proof fn lemma_counts_grow(self, m: int, n: int)
        requires
            0 <= m <= n,
        ensures
            self.next_id(m) <= self.next_id(n),
            self.indexes(m).len() <= self.indexes(n).len(),
            self.len() <= self.next_id(m),
        decreases n,
    {
        if m < n {
            self.lemma_counts_grow(m, n - 1);
        } else if n > 0 {
            self.lemma_counts_grow(n - 1, n - 1);
        }
    }
}

impl BootstrapConfig {
    /// The tables table, once all tables are in place.
    pub open spec fn tables_table_id(self, ids: Seq<InternalId>) -> Option<TableIdAndTableNumber> {
        self.mapping(ids, self.len() as int).id(self.tables_table@)
    }

    /// The index table, once all tables are in place.
    pub open spec fn index_table_id(self, ids: Seq<InternalId>) -> Option<TableIdAndTableNumber> {
        self.mapping(ids, self.len() as int).id(self.index_table@)
    }

    /// The table of this name, once all tables are in place.
    pub open spec fn table(self, ids: Seq<InternalId>, name: Seq<char>) -> TableIdAndTableNumber {
        self.mapping(ids, self.len() as int).id(name)->0
    }

    /// The globals that are written before the documents are laid out.
    pub open spec fn table_globals(self, ids: Seq<InternalId>) -> Seq<
        (PersistenceGlobalKey, InternalId),
    > {
        seq![
            (PersistenceGlobalKey::TablesTableId, self.table(ids, self.tables_table@).table_id.0),
            (PersistenceGlobalKey::IndexTableId, self.table(ids, self.index_table@).table_id.0),
        ]
    }

    /// The document of table `i`.
    pub open spec fn table_document(self, ids: Seq<InternalId>, i: int) -> WriteView {
        let table = self.table(ids, self.name(i));
        WriteView {
            ts: Timestamp(0),
            id: ResolvedDocumentId {
                table: self.table(ids, self.tables_table@),
                internal_id: table.table_id.0,
            },
            document: DocumentView::Table {
                name: self.name(i),
                number: table.table_number,
                state: TableState::Active,
            },
        }
    }

    /// The document of an index, under the id that was drawn as the `place`th.
    pub open spec fn index_document(
        self,
        ids: Seq<InternalId>,
        place: int,
        name: (TableId, Seq<char>),
        fields: IndexedFields,
    ) -> WriteView {
        WriteView {
            ts: Timestamp(0),
            id: ResolvedDocumentId {
                table: self.table(ids, self.index_table@),
                internal_id: ids[place],
            },
            document: DocumentView::Index {
                index_name: name,
                fields,
                index_state: IndexState::Enabled,
            },
        }
    }

    /// The documents of the first `n` tables and of the indexes that all tables
    /// have: one over ids and, but for the index table, one over creation times.
    pub open spec fn table_writes(self, ids: Seq<InternalId>, n: int) -> Seq<WriteView>
        decreases n,
    {
        if n <= 0 {
            Seq::empty()
        } else {
            let table_id = self.table(ids, self.name(n - 1)).table_id;
            let place = self.next_id(n - 1);
            let by_id = self.index_document(ids, place, (table_id, BY_ID@), IndexedFields::ById);
            let by_creation_time = self.index_document(
                ids,
                place + 1,
                (table_id, BY_CREATION_TIME@),
                IndexedFields::CreationTime,
            );
            let before = self.table_writes(ids, n - 1).push(self.table_document(ids, n - 1)).push(
                by_id,
            );
            if self.name(n - 1) == self.index_table@ {
                before
            } else {
                before.push(by_creation_time)
            }
        }
    }

    /// The document of system index `k`.
    pub open spec fn system_index_document(self, ids: Seq<InternalId>, k: int) -> WriteView {
        let index = self.all_indexes()[k];
        self.index_document(
            ids,
            self.next_id(self.len() as int) + k,
            (self.table(ids, index.table_name@).table_id, index.descriptor@),
            index.fields,
        )
    }

    /// The documents of the first `k` system indexes.
    pub open spec fn system_index_writes(self, ids: Seq<InternalId>, k: int) -> Seq<WriteView> {
        Seq::new(k as nat, |i: int| self.system_index_document(ids, i))
    }

    /// All documents of a fresh database, in the order in which they take their
    /// creation times.
    pub open spec fn writes(self, ids: Seq<InternalId>) -> Seq<WriteView> {
        self.table_writes(ids, self.len() as int) + self.system_index_writes(
            ids,
            self.all_indexes().len() as int,
        )
    }

    /// Whether system index `k` is on a table that there is.
    pub open spec fn has_table_of(self, ids: Seq<InternalId>, k: int) -> bool {
        self.mapping(ids, self.len() as int).id(self.all_indexes()[k].table_name@) is Some
    }

    /// Whether `index_id` was drawn for the index over document ids of a table.
    pub open spec fn is_by_id_of(
        self,
        ids: Seq<InternalId>,
        name: Seq<char>,
        index_id: IndexId,
    ) -> bool {
        exists|i: int|
            {
                &&& 0 <= i < self.len()
                &&& #[trigger] self.name(i) == name
                &&& index_id == ids[self.next_id(i)]
            }
    }

    pub(crate) proof fn lemma_tables_are_found(self, ids: Seq<InternalId>, n: int, i: int)
        requires
            0 <= i < n,
        ensures
            self.mapping(ids, n).id(self.name(i)) is Some,
        decreases n,
    {
        if i < n - 1 {
            self.lemma_tables_are_found(ids, n - 1, i);
        }
    }

    pub(crate) proof fn lemma_found_tables_are_there(self, ids: Seq<InternalId>, n: int, name: Seq<char>)
        requires
            0 <= n,
            self.mapping(ids, n).id(name) is Some,
        ensures
            exists|i: int| 0 <= i < n && #[trigger] self.name(i) == name,
        decreases n,
    {
        if n > 0 {
            if self.name(n - 1) != name {
                assert(self.mapping(ids, n).names.contains_key(name));
                let before = self.mapping(ids, n - 1);
                self.lemma_names_have_tablets(ids, n - 1);
                assert(before.names.contains_key(name));
                assert(before.id(name) is Some);
                self.lemma_found_tables_are_there(ids, n - 1, name);
            }
        }
    }

    proof fn lemma_names_have_tablets(self, ids: Seq<InternalId>, n: int)
        ensures
            forall|name: Seq<char>|
                #![trigger self.mapping(ids, n).names.contains_key(name)]
                self.mapping(ids, n).names.contains_key(name) ==> self.mapping(
                    ids,
                    n,
                ).tablets.contains_key(self.mapping(ids, n).names[name]),
        decreases n,
    {
        if n > 0 {
            self.lemma_names_have_tablets(ids, n - 1);
            let before = self.mapping(ids, n - 1);
            let after = self.mapping(ids, n);
            assert forall|name: Seq<char>|
                #![trigger after.names.contains_key(name)]
                after.names.contains_key(name) implies after.tablets.contains_key(
                after.names[name],
            ) by {
                if name != self.name(n - 1) {
                    assert(before.names.contains_key(name));
                }
            }
        }
    }
}

/// A fresh database whose system tables have their numbers.
#[derive(Debug)]
pub struct Initializer {
    config: BootstrapConfig,
    ids: Vec<InternalId>,
    table_mapping: TableMapping,
    tables_table_id: TableIdAndTableNumber,
    index_table_id: TableIdAndTableNumber,
}

impl Initializer {
    #[verifier::type_invariant]
    spec fn valid(self) -> bool {
        &&& self.ids@.len() >= self.config.spec_ids_needed()
        &&& self.table_mapping@ == self.config.mapping(self.ids@, self.config.len() as int)
        &&& self.config.tables_table_id(self.ids@) == Some(self.tables_table_id)
        &&& self.config.index_table_id(self.ids@) == Some(self.index_table_id)
    }

    /// What the database is made of.
    pub closed spec fn config(self) -> BootstrapConfig {
        self.config
    }

    /// The ids that were drawn for it.
    pub closed spec fn ids(self) -> Seq<InternalId> {
        self.ids@
    }

    /// Gives the system tables their ids and numbers.
    pub fn start(config: BootstrapConfig, ids: Vec<InternalId>) -> (result: Result<
        Initializer,
        DatabaseError,
    >)
        requires
            ids.len() >= config.spec_ids_needed(),
        ensures
            match result {
                Ok(initializer) => {
                    &&& initializer.config() == config
                    &&& initializer.ids() == ids@
                    &&& config.accepts_all(ids@)
                    &&& config.tables_table_id(ids@) is Some
                    &&& config.index_table_id(ids@) is Some
                },
                Err(error) => if !config.accepts_all(ids@) {
                    exists|i: int|
                        {
                            &&& 0 <= i < config.len()
                            &&& !#[trigger] config.accepts(ids@, i)
                            &&& forall|j: int| 0 <= j < i ==> #[trigger] config.accepts(ids@, j)
                            &&& config.refuses(ids@, i, error)
                        }
                } else {
                    &&& error matches DatabaseError::TableNameNotFound { table_name }
                    &&& table_name@ == if config.tables_table_id(ids@) is None {
                        config.tables_table@
                    } else {
                        config.index_table@
                    }
                    &&& config.tables_table_id(ids@) is None || config.index_table_id(ids@) is None
                },
            },
    {
        let mut table_mapping = TableMapping::new();
        proof {
            config.lemma_counts_grow(config.len() as int, config.len() as int);
        }
        for i in 0..config.system_tables.len()
            invariant
                config.len() <= ids.len(),
                table_mapping@ == config.mapping(ids@, i as int),
                forall|j: int| 0 <= j < i ==> #[trigger] config.accepts(ids@, j),
        {
            let table_name = &config.system_tables[i].table_name;
            let ghost accepted = config.accepts(ids@, i as int);
            let table_number = match config.table_numbers.get(&table_name.name) {
                Some(number) => *number,
                None => {
                    return Err(DatabaseError::NoNumberForTable { table_name: table_name.clone() });
                },
            };
            let table_id = TableId(ids[i]);
            if let Some(existing) = table_mapping.name_by_number_if_exists(table_number) {
                return Err(
                    DatabaseError::NumberTaken {
                        table_number,
                        table_name: table_name.clone(),
                        existing: existing.clone(),
                    },
                );
            }
            if table_number.0 >= config.num_reserved_system_tables.0 {
                return Err(
                    DatabaseError::NumberReservedForUsers {
                        table_number,
                        table_name: table_name.clone(),
                    },
                );
            }
            if table_number.0 < config.num_reserved_legacy_tables.0 {
                return Err(
                    DatabaseError::NumberReservedForLegacy {
                        table_number,
                        table_name: table_name.clone(),
                    },
                );
            }
            assert(accepted);
            table_mapping.insert(table_id, table_number, table_name.clone());
        }
        let tables_table_id = match table_mapping.id(&config.tables_table) {
            Some(table) => table,
            None => {
                return Err(
                    DatabaseError::TableNameNotFound { table_name: config.tables_table.clone() },
                );
            },
        };
        let index_table_id = match table_mapping.id(&config.index_table) {
            Some(table) => table,
            None => {
                return Err(
                    DatabaseError::TableNameNotFound { table_name: config.index_table.clone() },
                );
            },
        };
        Ok(Initializer { config, ids, table_mapping, tables_table_id, index_table_id })
    }

    /// The globals that are written before the documents are laid out.
    pub fn globals(&self) -> (globals: Vec<(PersistenceGlobalKey, InternalId)>)
        ensures
            globals@ == self.config().table_globals(self.ids()),
    {
        proof {
            use_type_invariant(self);
        }
        vec![
            (PersistenceGlobalKey::TablesTableId, self.tables_table_id.table_id.0),
            (PersistenceGlobalKey::IndexTableId, self.index_table_id.table_id.0),
        ]
    }
}

/// The last write of each document of a table, by its id.
pub open spec fn last_writes(writes: Seq<WriteView>, table: TableIdAndTableNumber) -> Map<u128, usize>
    decreases writes.len(),
{
    if writes.len() == 0 {
        Map::empty()
    } else {
        let before = last_writes(writes.drop_last(), table);
        if writes.last().id.table == table {
            before.insert(writes.last().id.internal_id.0, (writes.len() - 1) as usize)
        } else {
            before
        }
    }
}

/// The documents of a fresh database.
#[derive(Debug)]
pub struct BootstrapPlan {
    /// The index over document ids of the tables table.
    pub tables_by_id: IndexId,
    /// The index over document ids of the index table.
    pub index_by_id: IndexId,
    /// All documents, in the order in which they take their creation times.
    pub document_writes: Vec<DocumentWrite>,
    /// Where among them each document of the index table stands.
    pub index_documents: BTreeMap<u128, usize>,
    pub conflict_strategy: ConflictStrategy,
}

/// The last write of each document of a table, by its id.
fn writes_of_table(writes: &Vec<DocumentWrite>, table: TableIdAndTableNumber) -> (found: BTreeMap<
    u128,
    usize,
>)
    ensures
        found@ == last_writes(write_views(writes@), table),
{
    let mut found: BTreeMap<u128, usize> = BTreeMap::new();
    let ghost views = write_views(writes@);
    assert(views.take(0) =~= Seq::empty());
    for i in 0..writes.len()
        invariant
            views == write_views(writes@),
            found@ == last_writes(views.take(i as int), table),
    {
        assert(views.take(i + 1).drop_last() =~= views.take(i as int));
        assert(views.take(i + 1).last() == writes@[i as int].content());
        if writes[i].id.table == table {
            found.insert(writes[i].id.internal_id.0, i);
        }
    }
    assert(views.take(writes.len() as int) =~= views);
    found
}

impl BootstrapPlan {
    /// The globals that are written before the documents are.
    pub open spec fn index_globals(self) -> Seq<(PersistenceGlobalKey, InternalId)> {
        seq![
            (PersistenceGlobalKey::TablesByIdIndex, self.tables_by_id),
            (PersistenceGlobalKey::IndexByIdIndex, self.index_by_id),
        ]
    }

    /// The globals that are written before the documents are.
    pub fn globals(&self) -> (globals: Vec<(PersistenceGlobalKey, InternalId)>)
        ensures
            globals@ == self.index_globals(),
    {
        vec![
            (PersistenceGlobalKey::TablesByIdIndex, self.tables_by_id),
            (PersistenceGlobalKey::IndexByIdIndex, self.index_by_id),
        ]
    }

    /// The writes to indexes that go with the documents, all at the first
    /// timestamp.
    pub fn index_writes<U>(updates: Vec<U>) -> (writes: Vec<(Timestamp, U)>)
        ensures
            writes@ == updates@.map_values(|update: U| (Timestamp(0), update)),
    {
        let ghost all = updates@;
        let mut writes: Vec<(Timestamp, U)> = Vec::new();
        for update in it: updates
            invariant
                it.seq() == all,
                writes@ == all.take(it.index()).map_values(|update: U| (Timestamp(0), update)),
        {
            writes.push((Timestamp::min(), update));
        }
        assert(all.take(all.len() as int) =~= all);
        writes
    }
}

impl BootstrapConfig {
    /// Whether `plan` lays out the documents.
    pub open spec fn is_plan(self, ids: Seq<InternalId>, plan: BootstrapPlan) -> bool {
        &&& forall|k: int|
            0 <= k < self.all_indexes().len() ==> #[trigger] self.has_table_of(ids, k)
        &&& self.is_by_id_of(ids, self.tables_table@, plan.tables_by_id)
        &&& self.is_by_id_of(ids, self.index_table@, plan.index_by_id)
        &&& write_views(plan.document_writes@) == self.writes(ids)
        &&& created_in_order(plan.document_writes@)
        &&& plan.index_documents@ == last_writes(
            self.writes(ids),
            self.table(ids, self.index_table@),
        )
        &&& plan.conflict_strategy is Error
    }

    /// Whether `error` names the table of the first system index that is on none.
    pub open spec fn has_no_plan(self, ids: Seq<InternalId>, error: DatabaseError) -> bool {
        exists|k: int|
            {
                &&& 0 <= k < self.all_indexes().len()
                &&& !#[trigger] self.has_table_of(ids, k)
                &&& forall|j: int| 0 <= j < k ==> #[trigger] self.has_table_of(ids, j)
                &&& error == (DatabaseError::TableNameNotFound {
                    table_name: self.all_indexes()[k].table_name,
                })
            }
    }
}

impl Initializer {
    /// Lays out the documents.
    pub fn plan(self) -> (result: Result<BootstrapPlan, DatabaseError>)
        ensures
            match result {
                Ok(plan) => self.config().is_plan(self.ids(), plan),
                Err(error) => self.config().has_no_plan(self.ids(), error),
            },
    {
        proof {
            use_type_invariant(&self);
        }
        let Initializer { config, ids, table_mapping, tables_table_id, index_table_id } = self;
        let ghost count = config.len() as int;
        proof {
            config.lemma_counts_grow(count, count);
        }
        let mut document_writes: Vec<DocumentWrite> = Vec::new();
        let mut tables_by_id: Option<IndexId> = None;
        let mut index_by_id: Option<IndexId> = None;
        let mut next: usize = config.system_tables.len();
        for i in 0..config.system_tables.len()
            invariant
                count == config.len(),
                ids.len() >= config.spec_ids_needed(),
                table_mapping@ == config.mapping(ids@, count),
                config.tables_table_id(ids@) == Some(tables_table_id),
                config.index_table_id(ids@) == Some(index_table_id),
                next == config.next_id(i as int),
                write_views(document_writes@) == config.table_writes(ids@, i as int),
                created_in_order(document_writes@),
                tables_by_id matches Some(id) ==> config.is_by_id_of(
                    ids@,
                    config.tables_table@,
                    id,
                ),
                index_by_id matches Some(id) ==> config.is_by_id_of(ids@, config.index_table@, id),
                forall|j: int|
                    0 <= j < i && #[trigger] config.name(j) == config.tables_table@
                        ==> tables_by_id is Some,
                forall|j: int|
                    0 <= j < i && #[trigger] config.name(j) == config.index_table@
                        ==> index_by_id is Some,
        {
            proof {
                config.lemma_tables_are_found(ids@, count, i as int);
                config.lemma_counts_grow(i + 1, count);
            }
            let table_name = &config.system_tables[i].table_name;
            assert(table_name@ == config.name(i as int));
            if let Some(table_id) = table_mapping.id(table_name) {
                let metadata = TableMetadata {
                    name: table_name.clone(),
                    number: table_id.table_number,
                    state: TableState::Active,
                };
                document_writes.push(
                    DocumentWrite {
                        ts: Timestamp::min(),
                        creation_order: document_writes.len(),
                        id: tables_table_id.id(table_id.table_id.0),
                        document: BootstrapDocument::Table(metadata),
                    },
                );
                let by_id: InternalId = ids[next];
                next = next + 1;
                if *table_name == config.tables_table {
                    tables_by_id = Some(by_id);
                }
                if *table_name == config.index_table {
                    index_by_id = Some(by_id);
                }
                document_writes.push(
                    DocumentWrite {
                        ts: Timestamp::min(),
                        creation_order: document_writes.len(),
                        id: index_table_id.id(by_id),
                        document: BootstrapDocument::Index(
                            IndexMetadata::new_enabled(
                                TabletIndexName::by_id(table_id.table_id),
                                IndexedFields::ById,
                            ),
                        ),
                    },
                );
                if *table_name != config.index_table {
                    let index_id: InternalId = ids[next];
                    next = next + 1;
                    document_writes.push(
                        DocumentWrite {
                            ts: Timestamp::min(),
                            creation_order: document_writes.len(),
                            id: index_table_id.id(index_id),
                            document: BootstrapDocument::Index(
                                IndexMetadata::new_enabled(
                                    TabletIndexName::by_creation_time(table_id.table_id),
                                    IndexedFields::CreationTime,
                                ),
                            ),
                        },
                    );
                }
                assert(write_views(document_writes@) =~= config.table_writes(ids@, i + 1));
            }
        }
        let BootstrapConfig { tables_table, index_table, system_tables, .. } = config;
        for table in it: system_tables
            invariant
                it.seq() == config.system_tables@,
                config == self.config(),
                ids@ == self.ids(),
                count == config.len(),
                ids.len() >= config.spec_ids_needed(),
                table_mapping@ == config.mapping(ids@, count),
                config.index_table_id(ids@) == Some(index_table_id),
                next == config.next_id(count) + config.indexes(it.index()).len(),
                created_in_order(document_writes@),
                write_views(document_writes@) == config.table_writes(ids@, count)
                    + config.system_index_writes(
                    ids@,
                    config.indexes(it.index()).len() as int,
                ),
                forall|j: int|
                    0 <= j < config.indexes(it.index()).len() ==> #[trigger] config.has_table_of(
                        ids@,
                        j,
                    ),
        {
            let ghost n = it.index();
            let ghost own = table.indexes@;
            let ghost start = config.indexes(n).len() as int;
            assert(table == config.system_tables@[n]);
            for index in it2: table.indexes
                invariant
                    it2.seq() == own,
                    config == self.config(),
                    ids@ == self.ids(),
                    0 <= n < count,
                    own == config.system_tables@[n].indexes@,
                    start == config.indexes(n).len(),
                    count == config.len(),
                    ids.len() >= config.spec_ids_needed(),
                    table_mapping@ == config.mapping(ids@, count),
                    config.index_table_id(ids@) == Some(index_table_id),
                    next == config.next_id(count) + start + it2.index(),
                    created_in_order(document_writes@),
                    write_views(document_writes@) == config.table_writes(ids@, count)
                        + config.system_index_writes(ids@, start + it2.index()),
                    forall|j: int|
                        0 <= j < start + it2.index() ==> #[trigger] config.has_table_of(ids@, j),
            {
                let ghost k = start + it2.index();
                let ghost before = document_writes@;
                proof {
                    config.lemma_index_place(n, it2.index());
                    config.lemma_counts_grow(n + 1, count);
                }
                assert(index == own[it2.index()]);
                let SystemIndex { table_name, descriptor, fields } = index;
                let table_id = match table_mapping.id(&table_name) {
                    Some(table) => table.table_id,
                    None => {
                        assert(!config.has_table_of(ids@, k));
                        return Err(DatabaseError::TableNameNotFound { table_name });
                    },
                };
                assert(config.has_table_of(ids@, k));
                let document_id = index_table_id.id(ids[next]);
                next = next + 1;
                document_writes.push(
                    DocumentWrite {
                        ts: Timestamp::min(),
                        creation_order: document_writes.len(),
                        id: document_id,
                        document: BootstrapDocument::Index(
                            IndexMetadata::new_enabled(
                                TabletIndexName { table: table_id, descriptor },
                                fields,
                            ),
                        ),
                    },
                );
                proof {
                    let last = config.system_index_document(ids@, k);
                    assert(document_writes@.last().content() == last);
                    assert(write_views(document_writes@) =~= write_views(before).push(last));
                    assert(config.system_index_writes(ids@, k + 1)
                        =~= config.system_index_writes(ids@, k).push(last));
                    assert(write_views(document_writes@) =~= config.table_writes(ids@, count)
                        + config.system_index_writes(ids@, k + 1));
                }
            }
            assert(config.indexes(n + 1).len() == start + own.len());
        }
        let index_documents = writes_of_table(&document_writes, index_table_id);
        proof {
            config.lemma_found_tables_are_there(ids@, count, config.tables_table@);
            config.lemma_found_tables_are_there(ids@, count, config.index_table@);
        }
        match (tables_by_id, index_by_id) {
            (Some(tables_by_id), Some(index_by_id)) => Ok(
                BootstrapPlan {
                    tables_by_id,
                    index_by_id,
                    document_writes,
                    index_documents,
                    conflict_strategy: ConflictStrategy::Error,
                },
            ),
            _ => {
                assert(false);
                Err(DatabaseError::TableNameNotFound { table_name: tables_table })
            },
        }
    }
}

impl BootstrapConfig {
    proof fn lemma_index_place(self, n: int, j: int)
        requires
            0 <= n < self.len(),
            0 <= j < self.system_tables@[n].indexes@.len(),
        ensures
            self.indexes(n).len() + j < self.all_indexes().len(),
            self.all_indexes()[self.indexes(n).len() + j] == self.system_tables@[n].indexes@[j],
    {
        self.lemma_indexes_extend(n + 1, self.len() as int);
        assert(self.indexes(n + 1)[self.indexes(n).len() + j]
            == self.system_tables@[n].indexes@[j]);
    }

    proof fn lemma_indexes_extend(self, m: int, n: int)
        requires
            0 <= m <= n,
        ensures
            self.indexes(m).len() <= self.indexes(n).len(),
            forall|k: int|
                0 <= k < self.indexes(m).len() ==> self.indexes(n)[k] == #[trigger] self.indexes(
                    m,
                )[k],
        decreases n,
    {
        if m < n {
            self.lemma_indexes_extend(m, n - 1);
        }
    }
}

} // verus!
