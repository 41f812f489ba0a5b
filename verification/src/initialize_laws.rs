//! What holds of every fresh database.

use crate::errors::PersistenceGlobalKey;
use crate::ids::{IndexId, InternalId, TableId, TableIdAndTableNumber};
use crate::initialize::{
    BootstrapConfig, BootstrapPlan, DocumentView, IndexedFields, WriteView,
};
use crate::meta_ids::{metadata_from, read_order, BootstrapMetadata};
use crate::metadata::{described, mapping_of, ParsedDocument, TableMetadata};
use crate::metadata_laws::{
    distinct_active_tables, distinct_ids, law_names_and_numbers_lead_to_active_tables,
    law_tables_are_as_described,
};
use crate::names::BY_ID;
use crate::registry::{indexes_have_tables, tables_can_be_scanned, IndexEntry, IndexRegistry};
use vstd::prelude::*;

verus! {

/// No two tables have the same id.
pub open spec fn distinct_table_ids(config: BootstrapConfig, ids: Seq<InternalId>) -> bool {
    forall|i: int, j: int|
        0 <= i < j < config.len() ==> #[trigger] ids[i] != #[trigger] ids[j]
}

/// Whether a document is what a write left behind.
pub open spec fn says_table(write: WriteView, document: ParsedDocument<TableMetadata>) -> bool {
    &&& document.id == write.id.internal_id
    &&& write.document == DocumentView::Table {
        name: document.value.name@,
        number: document.value.number,
        state: document.value.state,
    }
}

/// Whether a document is what one of the writes left behind.
pub open spec fn is_table_of(
    writes: Seq<WriteView>,
    document: ParsedDocument<TableMetadata>,
) -> bool {
    exists|w: int| 0 <= w < writes.len() && says_table(#[trigger] writes[w], document)
}

/// Whether one of the documents is what a write left behind.
pub open spec fn left_table(
    write: WriteView,
    documents: Seq<ParsedDocument<TableMetadata>>,
) -> bool {
    exists|d: int| 0 <= d < documents.len() && says_table(write, #[trigger] documents[d])
}

/// Whether documents, in whatever order, are what the writes about tables left
/// behind.
pub open spec fn are_tables_of(
    writes: Seq<WriteView>,
    documents: Seq<ParsedDocument<TableMetadata>>,
) -> bool {
    &&& distinct_ids(documents)
    &&& forall|d: int|
        0 <= d < documents.len() ==> #[trigger] is_table_of(writes, documents[d])
    &&& forall|w: int|
        0 <= w < writes.len() && writes[w].document is Table ==> #[trigger] left_table(
            writes[w],
            documents,
        )
}

/// Whether an index is what a write left behind.
pub open spec fn says_index(write: WriteView, index: IndexEntry) -> bool {
    &&& index.id == write.id.internal_id
    &&& write.document is Index
    &&& write.document->index_name == index.name@
    &&& index.enabled == (write.document->index_state is Enabled)
}

/// Whether an index is what one of the writes left behind.
pub open spec fn is_index_of(writes: Seq<WriteView>, index: IndexEntry) -> bool {
    exists|w: int| 0 <= w < writes.len() && says_index(#[trigger] writes[w], index)
}

/// Whether one of the indexes is what a write left behind.
pub open spec fn left_index(write: WriteView, indexes: Seq<IndexEntry>) -> bool {
    exists|d: int| 0 <= d < indexes.len() && says_index(write, #[trigger] indexes[d])
}

/// Whether indexes, in whatever order, are what the writes about indexes left
/// behind.
pub open spec fn are_indexes_of(writes: Seq<WriteView>, indexes: Seq<IndexEntry>) -> bool {
    &&& forall|d: int| 0 <= d < indexes.len() ==> #[trigger] is_index_of(writes, indexes[d])
    &&& forall|w: int|
        0 <= w < writes.len() && writes[w].document is Index ==> #[trigger] left_index(
            writes[w],
            indexes,
        )
}

/// The first `n` tables are there under the ids that were drawn for them and
/// the numbers that they take, and no others.
proof fn lemma_mapping(config: BootstrapConfig, ids: Seq<InternalId>, n: int)
    requires
        0 <= n <= config.len(),
        distinct_table_ids(config, ids),
        config.accepts_all(ids),
    ensures
        ({
            let mapping = config.mapping(ids, n);
            &&& forall|i: int|
                #![trigger config.name(i)]
                #![trigger ids[i]]
                0 <= i < n ==> {
                    &&& mapping.tablets.contains_pair(
                        TableId(ids[i]),
                        (config.number(i), config.name(i)),
                    )
                    &&& mapping.names.contains_pair(config.name(i), TableId(ids[i]))
                    &&& mapping.numbers.contains_pair(config.number(i), TableId(ids[i]))
                }
            &&& forall|id: TableId| #[trigger]
                mapping.tablets.contains_key(id) ==> exists|i: int|
                    0 <= i < n && TableId(#[trigger] ids[i]) == id
            &&& forall|name: Seq<char>| #[trigger]
                mapping.names.contains_key(name) ==> exists|i: int|
                    0 <= i < n && #[trigger] config.name(i) == name
            &&& forall|number| #[trigger]
                mapping.numbers.contains_key(number) ==> exists|i: int|
                    0 <= i < n && #[trigger] config.number(i) == number
            &&& forall|i: int, j: int|
                0 <= i < j < n ==> {
                    &&& #[trigger] config.name(i) != #[trigger] config.name(j)
                    &&& config.number(i) != config.number(j)
                }
        }),
    decreases n,
{
    if n > 0 {
        lemma_mapping(config, ids, n - 1);
        let before = config.mapping(ids, n - 1);
        let mapping = config.mapping(ids, n);
        let last = n - 1;
        assert(config.accepts(ids, last));
        assert forall|i: int|
            #![trigger config.name(i)]
            0 <= i < last implies config.number(i) != config.number(last) && config.name(i)
            != config.name(last) by {
            assert(before.numbers.contains_pair(config.number(i), TableId(ids[i])));
            assert(before.tablets.contains_key(TableId(ids[i])));
        }
        assert forall|i: int|
            #![trigger config.name(i)]
            #![trigger ids[i]]
            0 <= i < n implies {
            &&& mapping.tablets.contains_pair(TableId(ids[i]), (config.number(i), config.name(i)))
            &&& mapping.names.contains_pair(config.name(i), TableId(ids[i]))
            &&& mapping.numbers.contains_pair(config.number(i), TableId(ids[i]))
        } by {
            if i < last {
                assert(ids[i] != ids[last]);
                assert(config.name(i) != config.name(last));
            }
        }
        assert forall|id: TableId| #[trigger] mapping.tablets.contains_key(id) implies exists|
            i: int,
        | 0 <= i < n && TableId(#[trigger] ids[i]) == id by {
            if !before.tablets.contains_key(id) {
                assert(TableId(ids[last]) == id);
            }
        }
        assert forall|name: Seq<char>| #[trigger] mapping.names.contains_key(name) implies exists|
            i: int,
        | 0 <= i < n && #[trigger] config.name(i) == name by {
            if !before.names.contains_key(name) {
                assert(config.name(last) == name);
            }
        }
        assert forall|number| #[trigger] mapping.numbers.contains_key(number) implies exists|
            i: int,
        | 0 <= i < n && #[trigger] config.number(i) == number by {
            if !before.numbers.contains_key(number) {
                assert(config.number(last) == number);
            }
        }
    }
}

/// Every table of a fresh database has a name and a number of its own, and
/// both lead to it.
pub proof fn law_system_tables_are_told_apart(config: BootstrapConfig, ids: Seq<InternalId>)
    requires
        distinct_table_ids(config, ids),
        config.accepts_all(ids),
    ensures
        forall|i: int|
            0 <= i < config.len() ==> config.mapping(ids, config.len() as int).id(
                #[trigger] config.name(i),
            ) == Some(
                TableIdAndTableNumber {
                    table_id: TableId(ids[i]),
                    table_number: config.number(i),
                },
            ),
        forall|i: int, j: int|
            0 <= i < j < config.len() ==> {
                &&& #[trigger] config.name(i) != #[trigger] config.name(j)
                &&& config.number(i) != config.number(j)
            },
{
    lemma_mapping(config, ids, config.len() as int);
}

/// The document of the index over document ids of table `i`.
pub open spec fn by_id_document(config: BootstrapConfig, ids: Seq<InternalId>, i: int) -> WriteView {
    config.index_document(
        ids,
        config.next_id(i),
        (config.table(ids, config.name(i)).table_id, BY_ID@),
        IndexedFields::ById,
    )
}

/// Whether a write is about an index of table `i`.
spec fn is_index_on(
    config: BootstrapConfig,
    ids: Seq<InternalId>,
    write: WriteView,
    i: int,
) -> bool {
    &&& write.document is Index
    &&& write.document->index_name.0 == config.table(ids, config.name(i)).table_id
}

/// Among the documents of the first `n` tables are theirs and those of their
/// indexes over document ids; all others are of indexes on them too.
proof fn lemma_table_writes(config: BootstrapConfig, ids: Seq<InternalId>, n: int)
    requires
        0 <= n <= config.len(),
    ensures
        ({
            let writes = config.table_writes(ids, n);
            &&& forall|i: int|
                0 <= i < n ==> writes.contains(#[trigger] config.table_document(ids, i))
            &&& forall|i: int|
                0 <= i < n ==> writes.contains(#[trigger] by_id_document(config, ids, i))
            &&& forall|w: int|
                0 <= w < writes.len() && (#[trigger] writes[w]).document is Table ==> exists|i: int|
                    0 <= i < n && writes[w] == #[trigger] config.table_document(ids, i)
            &&& forall|w: int|
                0 <= w < writes.len() && (#[trigger] writes[w]).document is Index ==> exists|i: int|
                    0 <= i < n && #[trigger] is_index_on(config, ids, writes[w], i)
        }),
    decreases n,
{
    if n > 0 {
        let last = n - 1;
        lemma_table_writes(config, ids, last);
        let before = config.table_writes(ids, last);
        let writes = config.table_writes(ids, n);
        let len = before.len() as int;
        assert(writes[len] == config.table_document(ids, last));
        assert(writes[len + 1] == by_id_document(config, ids, last));
        assert(forall|w: int| 0 <= w < len ==> before[w] == #[trigger] writes[w]);
        assert forall|i: int| 0 <= i < n implies writes.contains(
            #[trigger] config.table_document(ids, i),
        ) by {
            if i < last {
                assert(before.contains(config.table_document(ids, i)));
                let w = choose|w: int|
                    0 <= w < before.len() && before[w] == config.table_document(ids, i);
                assert(writes[w] == config.table_document(ids, i));
            }
        }
        assert forall|i: int| 0 <= i < n implies writes.contains(
            #[trigger] by_id_document(config, ids, i),
        ) by {
            if i < last {
                assert(before.contains(by_id_document(config, ids, i)));
                let w = choose|w: int|
                    0 <= w < before.len() && before[w] == by_id_document(config, ids, i);
                assert(writes[w] == by_id_document(config, ids, i));
            }
        }
        assert forall|w: int|
            0 <= w < writes.len() && (#[trigger] writes[w]).document is Index implies exists|i: int|
            0 <= i < n && #[trigger] is_index_on(config, ids, writes[w], i) by {
            if w < len {
                assert(before[w] == writes[w]);
            } else {
                assert(is_index_on(config, ids, writes[w], last));
            }
        }
        assert forall|w: int|
            0 <= w < writes.len() && (#[trigger] writes[w]).document is Table implies exists|i: int|
            0 <= i < n && writes[w] == #[trigger] config.table_document(ids, i) by {
            if w < len {
                assert(before[w] == writes[w]);
            } else {
                assert(writes[w] == config.table_document(ids, last));
            }
        }
    }
}

/// Whether a document describes table `i`.
spec fn is_document_of(
    config: BootstrapConfig,
    ids: Seq<InternalId>,
    document: ParsedDocument<TableMetadata>,
    i: int,
) -> bool {
    &&& 0 <= i < config.len()
    &&& document.id == ids[i]
    &&& document.value.name@ == config.name(i)
    &&& document.value.number == config.number(i)
    &&& document.value.state is Active
}

/// Whether a document describes one of the tables.
spec fn is_of_some_table(
    config: BootstrapConfig,
    ids: Seq<InternalId>,
    document: ParsedDocument<TableMetadata>,
) -> bool {
    exists|i: int| is_document_of(config, ids, document, i)
}

/// Whether one of the documents describes table `i`.
spec fn has_document(
    config: BootstrapConfig,
    ids: Seq<InternalId>,
    documents: Seq<ParsedDocument<TableMetadata>>,
    i: int,
) -> bool {
    exists|d: int|
        0 <= d < documents.len() && is_document_of(config, ids, #[trigger] documents[d], i)
}

/// Every document that is read back is of a table, and every table has one.
proof fn lemma_documents_of_tables(
    config: BootstrapConfig,
    ids: Seq<InternalId>,
    documents: Seq<ParsedDocument<TableMetadata>>,
)
    requires
        distinct_table_ids(config, ids),
        config.accepts_all(ids),
        are_tables_of(config.writes(ids), documents),
    ensures
        forall|d: int|
            0 <= d < documents.len() ==> #[trigger] is_of_some_table(config, ids, documents[d]),
        forall|i: int|
            0 <= i < config.len() ==> #[trigger] has_document(config, ids, documents, i),
{
    let n = config.len() as int;
    let writes = config.writes(ids);
    let table_writes = config.table_writes(ids, n);
    lemma_table_writes(config, ids, n);
    law_system_tables_are_told_apart(config, ids);
    assert forall|d: int| 0 <= d < documents.len() implies #[trigger] is_of_some_table(
        config,
        ids,
        documents[d],
    ) by {
        assert(is_table_of(writes, documents[d]));
        let w = choose|w: int|
            0 <= w < writes.len() && says_table(#[trigger] writes[w], documents[d]);
        assert(w < table_writes.len());
        assert(table_writes[w] == writes[w]);
        let i = choose|i: int|
            0 <= i < n && table_writes[w] == #[trigger] config.table_document(ids, i);
        assert(config.name(i) == documents[d].value.name@);
        assert(is_document_of(config, ids, documents[d], i));
    }
    assert forall|i: int| 0 <= i < config.len() implies #[trigger] has_document(
        config,
        ids,
        documents,
        i,
    ) by {
        assert(table_writes.contains(config.table_document(ids, i)));
        let w = choose|w: int|
            0 <= w < table_writes.len() && table_writes[w] == config.table_document(ids, i);
        assert(writes[w] == table_writes[w]);
        assert(left_table(writes[w], documents));
        let d = choose|d: int|
            0 <= d < documents.len() && says_table(writes[w], #[trigger] documents[d]);
        assert(is_document_of(config, ids, documents[d], i));
    }
}

/// What the documents of a fresh database say of tables, read back in whatever
/// order, is the mapping that the database was laid out with.
pub proof fn law_fresh_tables_are_read_back(
    config: BootstrapConfig,
    ids: Seq<InternalId>,
    documents: Seq<ParsedDocument<TableMetadata>>,
)
    requires
        distinct_table_ids(config, ids),
        config.accepts_all(ids),
        are_tables_of(config.writes(ids), documents),
    ensures
        mapping_of(documents) == config.mapping(ids, config.len() as int),
{
    let n = config.len() as int;
    let mapping = config.mapping(ids, n);
    let read = mapping_of(documents);
    lemma_mapping(config, ids, n);
    lemma_documents_of_tables(config, ids, documents);
    assert(distinct_active_tables(documents)) by {
        assert forall|a: int, b: int|
            0 <= a < b < documents.len() && documents[a].value.state is Active
                && documents[b].value.state is Active implies {
            &&& (#[trigger] documents[a]).value.name@ != (#[trigger] documents[b]).value.name@
            &&& documents[a].value.number != documents[b].value.number
        } by {
            assert(is_of_some_table(config, ids, documents[a]));
            assert(is_of_some_table(config, ids, documents[b]));
            let i = choose|i: int| is_document_of(config, ids, documents[a], i);
            let j = choose|j: int| is_document_of(config, ids, documents[b], j);
            assert(documents[a].id != documents[b].id);
            if i < j {
                assert(config.name(i) != config.name(j));
            } else if j < i {
                assert(config.name(j) != config.name(i));
            }
        }
    }
    law_tables_are_as_described(documents);
    law_names_and_numbers_lead_to_active_tables(documents);
    // The two mappings say the same of each table.
    assert forall|d: int| 0 <= d < documents.len() implies {
        &&& documents[d].value.state is Active
        &&& mapping.tablets.contains_pair(
            described(#[trigger] documents[d]),
            (documents[d].value.number, documents[d].value.name@),
        )
        &&& mapping.names.contains_pair(documents[d].value.name@, described(documents[d]))
        &&& mapping.numbers.contains_pair(documents[d].value.number, described(documents[d]))
    } by {
        assert(is_of_some_table(config, ids, documents[d]));
        let i = choose|i: int| is_document_of(config, ids, documents[d], i);
        assert(config.name(i) == documents[d].value.name@);
    }
    assert forall|i: int|
        #![trigger config.name(i)]
        0 <= i < n implies {
        &&& read.tablets.contains_key(TableId(ids[i]))
        &&& read.names.contains_key(config.name(i))
        &&& read.numbers.contains_key(config.number(i))
    } by {
        assert(has_document(config, ids, documents, i));
        let d = choose|d: int|
            0 <= d < documents.len() && is_document_of(config, ids, #[trigger] documents[d], i);
        assert(described(documents[d]) == TableId(ids[i]));
    }
    assert forall|id: TableId| #[trigger]
        mapping.tablets.contains_key(id) implies read.tablets.contains_key(id) by {
        let i = choose|i: int| 0 <= i < n && TableId(#[trigger] ids[i]) == id;
        assert(config.name(i) == config.name(i));
    }
    assert forall|number| #[trigger]
        mapping.numbers.contains_key(number) implies read.numbers.contains_key(number) by {
        let i = choose|i: int| 0 <= i < n && #[trigger] config.number(i) == number;
        assert(config.name(i) == config.name(i));
    }
    assert(read.tablets =~= mapping.tablets);
    assert(read.names =~= mapping.names);
    assert(read.numbers =~= mapping.numbers);
}

/// A fresh database can be loaded: every table can be scanned and every index is
/// on a table that exists.
pub proof fn law_fresh_database_is_sound(
    config: BootstrapConfig,
    ids: Seq<InternalId>,
    registry: IndexRegistry,
)
    requires
        distinct_table_ids(config, ids),
        config.accepts_all(ids),
        forall|k: int|
            0 <= k < config.all_indexes().len() ==> #[trigger] config.has_table_of(ids, k),
        are_indexes_of(config.writes(ids), registry.indexes@),
    ensures
        tables_can_be_scanned(config.mapping(ids, config.len() as int), registry),
        indexes_have_tables(config.mapping(ids, config.len() as int), registry),
{
    let n = config.len() as int;
    let mapping = config.mapping(ids, n);
    let writes = config.writes(ids);
    let table_writes = config.table_writes(ids, n);
    lemma_mapping(config, ids, n);
    lemma_table_writes(config, ids, n);
    assert forall|id: TableId| #[trigger]
        mapping.tablets.contains_key(id) implies registry.has_enabled(id, BY_ID@) by {
        let i = choose|i: int| 0 <= i < n && TableId(#[trigger] ids[i]) == id;
        lemma_by_id_is_read_back(config, ids, registry.indexes@, i);
        let d = choose|d: int|
            0 <= d < registry.indexes@.len() && says_index(
                by_id_document(config, ids, i),
                #[trigger] registry.indexes@[d],
            );
        assert(registry.indexes@[d].is_enabled_as(id, BY_ID@));
    }
    assert forall|d: int|
        0 <= d < registry.indexes@.len() implies mapping.tablets.contains_key(
        (#[trigger] registry.indexes@[d]).name.table,
    ) by {
        let index = registry.indexes@[d];
        assert(is_index_of(writes, registry.indexes@[d]));
        let w = choose|w: int|
            0 <= w < writes.len() && says_index(#[trigger] writes[w], registry.indexes@[d]);
        if w < table_writes.len() {
            assert(table_writes[w] == writes[w]);
            let i = choose|i: int|
                0 <= i < n && #[trigger] is_index_on(config, ids, table_writes[w], i);
            assert(mapping.names.contains_key(config.name(i)));
        } else {
            let k = w - table_writes.len();
            assert(writes[w] == config.system_index_document(ids, k));
            assert(config.has_table_of(ids, k));
        }
    }
}

proof fn lemma_by_id_is_read_back(
    config: BootstrapConfig,
    ids: Seq<InternalId>,
    indexes: Seq<IndexEntry>,
    i: int,
)
    requires
        0 <= i < config.len(),
        distinct_table_ids(config, ids),
        config.accepts_all(ids),
        are_indexes_of(config.writes(ids), indexes),
    ensures
        config.table(ids, config.name(i)).table_id == TableId(ids[i]),
        exists|d: int|
            0 <= d < indexes.len() && says_index(
                by_id_document(config, ids, i),
                #[trigger] indexes[d],
            ),
{
    let n = config.len() as int;
    let writes = config.writes(ids);
    let table_writes = config.table_writes(ids, n);
    lemma_mapping(config, ids, n);
    lemma_table_writes(config, ids, n);
    assert(config.mapping(ids, n).names.contains_pair(config.name(i), TableId(ids[i])));
    assert(table_writes.contains(by_id_document(config, ids, i)));
    let w = choose|w: int|
        0 <= w < table_writes.len() && table_writes[w] == by_id_document(config, ids, i);
    assert(writes[w] == table_writes[w]);
    assert(left_index(writes[w], indexes));
}

/// The index that a fresh database's globals name for one of its tables is an
/// enabled index over document ids of that table.
pub proof fn law_globals_lead_to_by_id_indexes(
    config: BootstrapConfig,
    ids: Seq<InternalId>,
    indexes: Seq<IndexEntry>,
    name: Seq<char>,
    index_id: IndexId,
)
    requires
        distinct_table_ids(config, ids),
        config.accepts_all(ids),
        config.is_by_id_of(ids, name, index_id),
        are_indexes_of(config.writes(ids), indexes),
    ensures
        exists|d: int|
            {
                &&& 0 <= d < indexes.len()
                &&& (#[trigger] indexes[d]).id == index_id
                &&& indexes[d].is_enabled_as(config.table(ids, name).table_id, BY_ID@)
            },
{
    let i = choose|i: int|
        {
            &&& 0 <= i < config.len()
            &&& #[trigger] config.name(i) == name
            &&& index_id == ids[config.next_id(i)]
        };
    lemma_by_id_is_read_back(config, ids, indexes, i);
    let d = choose|d: int|
        0 <= d < indexes.len() && says_index(by_id_document(config, ids, i), #[trigger] indexes[d]);
    assert(indexes[d].id == index_id);
}

/// What a global holds after writes: what was written last.
pub open spec fn global_value(
    written: Seq<(PersistenceGlobalKey, InternalId)>,
    key: PersistenceGlobalKey,
) -> Option<InternalId>
    decreases written.len(),
{
    if written.len() == 0 {
        None
    } else if written.last().0 == key {
        Some(written.last().1)
    } else {
        global_value(written.drop_last(), key)
    }
}

/// The globals of a fresh database, in the order in which they are read when it
/// is loaded, give the ids of its two metadata tables and of their indexes.
pub proof fn law_globals_are_read_back(
    config: BootstrapConfig,
    ids: Seq<InternalId>,
    plan: BootstrapPlan,
    found: Seq<InternalId>,
)
    requires
        found.len() == read_order().len(),
        forall|i: int|
            0 <= i < found.len() ==> Some(#[trigger] found[i]) == global_value(
                config.table_globals(ids) + plan.index_globals(),
                read_order()[i],
            ),
    ensures
        metadata_from(found) == (BootstrapMetadata {
            tables_by_id: plan.tables_by_id,
            index_by_id: plan.index_by_id,
            tables_table_id: config.table(ids, config.tables_table@).table_id,
            index_table_id: config.table(ids, config.index_table@).table_id,
        }),
{
    let written = config.table_globals(ids) + plan.index_globals();
    reveal_with_fuel(global_value, 5);
    assert(written.len() == 4);
    assert(written.drop_last().drop_last().drop_last() =~= seq![written[0]]);
    assert(written.drop_last().drop_last() =~= seq![written[0], written[1]]);
    assert(written.drop_last() =~= seq![written[0], written[1], written[2]]);
    assert(Some(found[0]) == global_value(written, PersistenceGlobalKey::TablesByIdIndex));
    assert(Some(found[1]) == global_value(written, PersistenceGlobalKey::IndexByIdIndex));
    assert(Some(found[2]) == global_value(written, PersistenceGlobalKey::TablesTableId));
    assert(Some(found[3]) == global_value(written, PersistenceGlobalKey::IndexTableId));
}

/// Of the indexes that all tables have, the index table has the one over document
/// ids alone.
pub proof fn law_index_table_has_only_by_id(
    config: BootstrapConfig,
    ids: Seq<InternalId>,
    n: int,
    w: int,
)
    requires
        distinct_table_ids(config, ids),
        config.accepts_all(ids),
        0 <= n <= config.len(),
        0 <= w < config.table_writes(ids, n).len(),
        config.table_writes(ids, n)[w].document is Index,
        config.index_table_id(ids) is Some,
        config.table_writes(ids, n)[w].document->index_name.0 == config.table(
            ids,
            config.index_table@,
        ).table_id,
    ensures
        config.table_writes(ids, n)[w].document->index_name.1 == BY_ID@,
    decreases n,
{
    let last = n - 1;
    let before = config.table_writes(ids, last);
    let write = config.table_writes(ids, n)[w];
    if w < before.len() {
        assert(before[w] == write);
        law_index_table_has_only_by_id(config, ids, last, w);
    } else {
        let count = config.len() as int;
        law_system_tables_are_told_apart(config, ids);
        lemma_mapping(config, ids, count);
        assert(config.mapping(ids, count).names.contains_key(config.index_table@));
        let i = choose|i: int| 0 <= i < count && #[trigger] config.name(i) == config.index_table@;
        assert(config.name(last) == config.name(last));
        if config.name(last) != config.index_table@ && w == before.len() + 2 {
            assert(write.document->index_name.0 == TableId(ids[last]));
            assert(ids[i] == ids[last]);
            if i < last {
                assert(ids[i] != ids[last]);
            } else {
                assert(ids[last] != ids[i]);
            }
        }
    }
}

} // verus!
