//! What is loaded of the documents that are stored.

use crate::errors::ServiceError;
use crate::ids::{IndexId, TableId, TableNumber};
use crate::metadata::{
    active_mapping_of, all_ok, by_id_indexes_of, documents_by_id, is_first_failure, is_loaded,
    mapping_of, ok_values, states_of, ParsedDocument, ScanRow, TableMetadata, TableState,
    VirtualTableMetadata,
};
use crate::names::TabletIndexName;
use crate::registry::virtual_mapping_of;
use vstd::prelude::*;

verus! {

proof fn lemma_by_id<D>(rows: Seq<ScanRow<D>>)
    ensures
        documents_by_id(rows).dom().finite(),
        forall|k: u128| #[trigger]
            documents_by_id(rows).contains_key(k) <==> exists|i: int|
                0 <= i < rows.len() && (#[trigger] rows[i]).id.0 == k,
        forall|i: int|
            0 <= i < rows.len() && (forall|j: int|
                i < j < rows.len() ==> (#[trigger] rows[j]).id.0 != rows[i].id.0)
                ==> documents_by_id(rows)[(#[trigger] rows[i]).id.0] == (
                rows[i].ts,
                rows[i].document,
            ),
        (forall|i: int, j: int|
            0 <= i < j < rows.len() ==> (#[trigger] rows[i]).id.0 != (#[trigger] rows[j]).id.0)
            ==> documents_by_id(rows).dom().len() == rows.len(),
    decreases rows.len(),
{
    let all = documents_by_id(rows);
    if rows.len() > 0 {
        let front = rows.drop_last();
        let last = rows.len() - 1;
        let before = documents_by_id(front);
        assert(forall|i: int| 0 <= i < last ==> front[i] == #[trigger] rows[i]);
        lemma_by_id(front);
        assert forall|k: u128| #[trigger] all.contains_key(k) <==> exists|i: int|
            0 <= i < rows.len() && (#[trigger] rows[i]).id.0 == k by {
            if before.contains_key(k) {
                let i = choose|i: int| 0 <= i < front.len() && (#[trigger] front[i]).id.0 == k;
                assert(rows[i].id.0 == k);
            }
            if k == rows[last].id.0 {
                assert(rows[last].id.0 == k);
            }
            if exists|i: int| 0 <= i < rows.len() && (#[trigger] rows[i]).id.0 == k {
                let i = choose|i: int| 0 <= i < rows.len() && (#[trigger] rows[i]).id.0 == k;
                if i < last {
                    assert(front[i].id.0 == k);
                }
            }
        }
        assert forall|i: int|
            0 <= i < rows.len() && (forall|j: int|
                i < j < rows.len() ==> (#[trigger] rows[j]).id.0 != rows[i].id.0) implies all[(
        #[trigger] rows[i]).id.0] == (rows[i].ts, rows[i].document) by {
            if i < last {
                assert(rows[last].id.0 != rows[i].id.0);
                assert(front[i] == rows[i]);
            }
        }
        if forall|i: int, j: int|
            0 <= i < j < rows.len() ==> (#[trigger] rows[i]).id.0 != (#[trigger] rows[j]).id.0 {
            assert(!before.contains_key(rows[last].id.0)) by {
                if before.contains_key(rows[last].id.0) {
                    let i = choose|i: int|
                        0 <= i < front.len() && (#[trigger] front[i]).id.0 == rows[last].id.0;
                    assert(rows[i].id.0 != rows[last].id.0);
                }
            }
            assert(all.dom() =~= before.dom().insert(rows[last].id.0));
        }
    }
}

/// Of a scan without failures every document is loaded, under its id: there is one
/// under an id if and only if a row has the id, and it is that of the last such row.
/// Where no two rows have the same id there are as many documents as rows.
pub proof fn law_every_document_is_loaded<D>(rows: Seq<Result<ScanRow<D>, ServiceError>>)
    requires
        forall|i: int| 0 <= i < rows.len() ==> #[trigger] rows[i] is Ok,
    ensures
        ({
            let loaded = documents_by_id(ok_values(rows));
            &&& forall|k: u128| #[trigger]
                loaded.contains_key(k) <==> exists|i: int|
                    0 <= i < rows.len() && (#[trigger] rows[i])->Ok_0.id.0 == k
            &&& forall|i: int|
                0 <= i < rows.len() && (forall|j: int|
                    i < j < rows.len() ==> (#[trigger] rows[j])->Ok_0.id != rows[i]->Ok_0.id) ==> {
                    let row = rows[i]->Ok_0;
                    loaded[(#[trigger] rows[i])->Ok_0.id.0] == (row.ts, row.document)
                }
            &&& (forall|i: int, j: int|
                0 <= i < j < rows.len() ==> (#[trigger] rows[i])->Ok_0.id != (
                #[trigger] rows[j])->Ok_0.id) ==> loaded.dom().finite() && loaded.dom().len()
                == rows.len()
        }),
{
    let values = ok_values(rows);
    let loaded = documents_by_id(values);
    lemma_by_id(values);
    assert(values.len() == rows.len());
    assert(forall|i: int| 0 <= i < rows.len() ==> values[i] == (#[trigger] rows[i])->Ok_0);
    assert forall|k: u128| #[trigger] loaded.contains_key(k) <==> exists|i: int|
        0 <= i < rows.len() && (#[trigger] rows[i])->Ok_0.id.0 == k by {
        if loaded.contains_key(k) {
            let i = choose|i: int| 0 <= i < values.len() && (#[trigger] values[i]).id.0 == k;
            assert(rows[i]->Ok_0.id.0 == k);
        }
        if exists|i: int| 0 <= i < rows.len() && (#[trigger] rows[i])->Ok_0.id.0 == k {
            let i = choose|i: int| 0 <= i < rows.len() && (#[trigger] rows[i])->Ok_0.id.0 == k;
            assert(values[i].id.0 == k);
        }
    }
    assert forall|i: int|
        0 <= i < rows.len() && (forall|j: int|
            i < j < rows.len() ==> (#[trigger] rows[j])->Ok_0.id != rows[i]->Ok_0.id) implies {
        let row = rows[i]->Ok_0;
        loaded[(#[trigger] rows[i])->Ok_0.id.0] == (row.ts, row.document)
    } by {
        assert forall|j: int| i < j < values.len() implies (#[trigger] values[j]).id.0
            != values[i].id.0 by {
            assert(rows[j]->Ok_0.id != rows[i]->Ok_0.id);
        }
        assert(values[i] == rows[i]->Ok_0);
    }
    if forall|i: int, j: int|
        0 <= i < j < rows.len() ==> (#[trigger] rows[i])->Ok_0.id != (#[trigger] rows[j])->Ok_0.id {
        assert forall|i: int, j: int| 0 <= i < j < values.len() implies (
        #[trigger] values[i]).id.0 != (#[trigger] values[j]).id.0 by {
            assert(rows[i]->Ok_0.id != rows[j]->Ok_0.id);
        }
    }
}

/// Rows are without failures if and only if each of them is; the failure that is told
/// is that of the first row that has one.
pub proof fn law_first_failure_is_told<T>(
    rows: Seq<Result<T, ServiceError>>,
    error: ServiceError,
)
    ensures
        all_ok(rows) <==> (forall|i: int| 0 <= i < rows.len() ==> #[trigger] rows[i] is Ok),
        is_first_failure(rows, error) <==> exists|i: int|
            {
                &&& 0 <= i < rows.len()
                &&& #[trigger] rows[i] == Err::<T, ServiceError>(error)
                &&& forall|j: int| 0 <= j < i ==> #[trigger] rows[j] is Ok
            },
        all_ok(rows) ==> ok_values(rows).len() == rows.len() && (forall|i: int|
            0 <= i < rows.len() ==> rows[i] == Ok::<T, ServiceError>(
                #[trigger] ok_values(rows)[i],
            )),
{
}

/// Of a scan without failures whose documents are all understood and have different
/// ids, every document is loaded: there are as many as rows, in increasing order of
/// ids, and each row's contents are found under its id.
pub proof fn law_every_document_is_understood<D>(
    rows: Seq<Result<ScanRow<Result<D, ServiceError>>, ServiceError>>,
    result: Result<Vec<ParsedDocument<D>>, ServiceError>,
)
    requires
        is_loaded(rows, result),
        forall|i: int| 0 <= i < rows.len() ==> #[trigger] rows[i] is Ok,
        forall|i: int| 0 <= i < rows.len() ==> (#[trigger] rows[i])->Ok_0.document is Ok,
        forall|i: int, j: int|
            0 <= i < j < rows.len() ==> (#[trigger] rows[i])->Ok_0.id != (
            #[trigger] rows[j])->Ok_0.id,
    ensures
        result is Ok,
        result->Ok_0@.len() == rows.len(),
        forall|i: int, j: int|
            0 <= i < j < result->Ok_0@.len() ==> (#[trigger] result->Ok_0@[i]).id.0 < (
            #[trigger] result->Ok_0@[j]).id.0,
        forall|i: int|
            0 <= i < rows.len() ==> exists|k: int|
                {
                    &&& 0 <= k < result->Ok_0@.len()
                    &&& (#[trigger] result->Ok_0@[k]).id == (#[trigger] rows[i])->Ok_0.id
                    &&& Ok::<D, ServiceError>(result->Ok_0@[k].value) == rows[i]->Ok_0.document
                },
{
    let values = ok_values(rows);
    let loaded = documents_by_id(values);
    law_every_document_is_loaded(rows);
    assert(all_ok(rows));
    if result is Err {
        let id = choose|id: u128|
            {
                &&& #[trigger] loaded.contains_key(id)
                &&& loaded[id].1 == Err::<D, ServiceError>(result->Err_0)
            };
        let i = choose|i: int| 0 <= i < rows.len() && (#[trigger] rows[i])->Ok_0.id.0 == id;
        assert forall|j: int| i < j < rows.len() implies (#[trigger] rows[j])->Ok_0.id
            != rows[i]->Ok_0.id by {}
        assert(loaded[rows[i]->Ok_0.id.0].1 == rows[i]->Ok_0.document);
        assert(false);
    }
    let parsed = result->Ok_0@;
    let ids = Seq::new(parsed.len(), |i: int| parsed[i].id.0);
    assert(ids.no_duplicates()) by {
        assert forall|i: int, j: int| 0 <= i < ids.len() && 0 <= j < ids.len() && i != j implies ids[i]
            != ids[j] by {
            if i < j {
                assert(parsed[i].id.0 < parsed[j].id.0);
            } else {
                assert(parsed[j].id.0 < parsed[i].id.0);
            }
        }
    }
    assert(ids.to_set() =~= loaded.dom()) by {
        assert forall|k: u128| ids.to_set().contains(k) <==> loaded.dom().contains(k) by {
            if ids.to_set().contains(k) {
                let i = choose|i: int| 0 <= i < ids.len() && ids[i] == k;
                assert(loaded.contains_key(parsed[i].id.0));
            }
            if loaded.contains_key(k) {
                let i = choose|i: int| 0 <= i < parsed.len() && (#[trigger] parsed[i]).id.0 == k;
                assert(ids[i] == k);
            }
        }
    }
    ids.unique_seq_to_set();
    assert forall|i: int| 0 <= i < rows.len() implies exists|k: int|
        {
            &&& 0 <= k < parsed.len()
            &&& (#[trigger] parsed[k]).id == (#[trigger] rows[i])->Ok_0.id
            &&& Ok::<D, ServiceError>(parsed[k].value) == rows[i]->Ok_0.document
        } by {
        assert(loaded.contains_key(rows[i]->Ok_0.id.0));
        let k = choose|k: int|
            0 <= k < parsed.len() && (#[trigger] parsed[k]).id.0 == rows[i]->Ok_0.id.0;
        assert forall|j: int| i < j < rows.len() implies (#[trigger] rows[j])->Ok_0.id
            != rows[i]->Ok_0.id by {}
        assert(loaded[parsed[k].id.0].1 == Ok::<D, ServiceError>(parsed[k].value));
        assert(parsed[k].id == rows[i]->Ok_0.id);
    }
}

/// Where all rows are there and have different ids, but not all documents are
/// understood, the failure that is told is that of the document with the smallest
/// id.
pub proof fn law_first_document_that_is_not_understood_is_told<D>(
    rows: Seq<Result<ScanRow<Result<D, ServiceError>>, ServiceError>>,
    result: Result<Vec<ParsedDocument<D>>, ServiceError>,
    i: int,
)
    requires
        is_loaded(rows, result),
        forall|k: int| 0 <= k < rows.len() ==> #[trigger] rows[k] is Ok,
        forall|k: int, j: int|
            0 <= k < j < rows.len() ==> (#[trigger] rows[k])->Ok_0.id != (
            #[trigger] rows[j])->Ok_0.id,
        0 <= i < rows.len(),
        rows[i]->Ok_0.document is Err,
        forall|k: int|
            0 <= k < rows.len() && (#[trigger] rows[k])->Ok_0.id.0 < rows[i]->Ok_0.id.0
                ==> rows[k]->Ok_0.document is Ok,
    ensures
        result is Err,
        result->Err_0 == rows[i]->Ok_0.document->Err_0,
{
    let loaded = documents_by_id(ok_values(rows));
    law_every_document_is_loaded(rows);
    assert(all_ok(rows));
    assert forall|k: int| 0 <= k < rows.len() implies loaded[(#[trigger] rows[k])->Ok_0.id.0].1
        == rows[k]->Ok_0.document by {
        assert forall|j: int| k < j < rows.len() implies (#[trigger] rows[j])->Ok_0.id
            != rows[k]->Ok_0.id by {}
    }
    let own = rows[i]->Ok_0.id.0;
    assert(loaded.contains_key(own));
    if result is Ok {
        let parsed = result->Ok_0@;
        let k = choose|k: int| 0 <= k < parsed.len() && (#[trigger] parsed[k]).id.0 == own;
        assert(loaded[parsed[k].id.0].1 is Ok);
    } else {
        let id = choose|id: u128|
            {
                &&& #[trigger] loaded.contains_key(id)
                &&& loaded[id].1 == Err::<D, ServiceError>(result->Err_0)
                &&& forall|other: u128| #[trigger]
                    loaded.contains_key(other) && other < id ==> loaded[other].1 is Ok
            };
        let k = choose|k: int| 0 <= k < rows.len() && (#[trigger] rows[k])->Ok_0.id.0 == id;
        assert(loaded[rows[k]->Ok_0.id.0].1 == rows[k]->Ok_0.document);
        if own < id {
            assert(loaded[own].1 is Ok);
        }
        if id < own {
            assert(rows[k]->Ok_0.document is Ok);
        }
    }
}

/// A map that items are put into one after the other: each one that has a key puts
/// its value under it.
spec fn filled<T, K, V>(items: Seq<T>, entry: spec_fn(T) -> Option<(K, V)>) -> Map<K, V>
    decreases items.len(),
{
    if items.len() == 0 {
        Map::empty()
    } else {
        match entry(items.last()) {
            Some((key, value)) => filled(items.drop_last(), entry).insert(key, value),
            None => filled(items.drop_last(), entry),
        }
    }
}

/// Whether item `i` puts a value under a key.
pub open spec fn puts<T, K, V>(
    items: Seq<T>,
    entry: spec_fn(T) -> Option<(K, V)>,
    i: int,
    key: K,
) -> bool {
    &&& 0 <= i < items.len()
    &&& entry(items[i]) is Some
    &&& entry(items[i])->0 .0 == key
}

/// What is in the map was put there by an item.
proof fn lemma_filled_from<T, K, V>(
    items: Seq<T>,
    entry: spec_fn(T) -> Option<(K, V)>,
    key: K,
) -> (i: int)
    requires
        filled(items, entry).contains_key(key),
    ensures
        puts(items, entry, i, key),
    decreases items.len(),
{
    let last = items.len() - 1;
    if puts(items, entry, last, key) {
        last
    } else {
        let i = lemma_filled_from(items.drop_last(), entry, key);
        assert(items.drop_last()[i] == items[i]);
        i
    }
}

/// What an item puts into the map is there, unless a later one puts something else
/// there.
proof fn lemma_filled_has<T, K, V>(
    items: Seq<T>,
    entry: spec_fn(T) -> Option<(K, V)>,
    key: K,
    i: int,
)
    requires
        puts(items, entry, i, key),
    ensures
        filled(items, entry).contains_key(key),
        (forall|j: int| i < j < items.len() ==> !#[trigger] puts(items, entry, j, key)) ==> filled(
            items,
            entry,
        )[key] == entry(items[i])->0 .1,
    decreases items.len(),
{
    let front = items.drop_last();
    let last = items.len() - 1;
    if i < last {
        assert(front[i] == items[i]);
        lemma_filled_has(front, entry, key, i);
        if forall|j: int| i < j < items.len() ==> !#[trigger] puts(items, entry, j, key) {
            assert(!puts(items, entry, last, key));
            assert forall|j: int| i < j < front.len() implies !#[trigger] puts(
                front,
                entry,
                j,
                key,
            ) by {
                assert(!puts(items, entry, j, key));
                assert(front[j] == items[j]);
            }
        }
    }
}

/// Whether a map holds the last word on every key: the keys are those that items put a value
/// under, and each leads to the value of the last item that puts one under it.
pub open spec fn holds_last_words<T, K, V>(
    map: Map<K, V>,
    items: Seq<T>,
    entry: spec_fn(T) -> Option<(K, V)>,
) -> bool {
    &&& forall|key: K| #[trigger]
        map.contains_key(key) ==> exists|i: int| #[trigger] puts(items, entry, i, key)
    &&& forall|i: int, key: K| #[trigger]
        puts(items, entry, i, key) ==> {
            &&& map.contains_key(key)
            &&& (forall|j: int| i < j < items.len() ==> !#[trigger] puts(items, entry, j, key))
                ==> map[key] == entry(items[i])->0 .1
        }
}

proof fn lemma_filled_holds_last_words<T, K, V>(
    items: Seq<T>,
    entry: spec_fn(T) -> Option<(K, V)>,
)
    ensures
        holds_last_words(filled(items, entry), items, entry),
{
    let map = filled(items, entry);
    assert forall|key: K| #[trigger] map.contains_key(key) implies exists|i: int| #[trigger]
        puts(items, entry, i, key) by {
        let i = lemma_filled_from(items, entry, key);
        assert(puts(items, entry, i, key));
    }
    assert forall|i: int, key: K| #[trigger] puts(items, entry, i, key) implies {
        &&& map.contains_key(key)
        &&& (forall|j: int| i < j < items.len() ==> !#[trigger] puts(items, entry, j, key))
            ==> map[key] == entry(items[i])->0 .1
    } by {
        lemma_filled_has(items, entry, key, i);
    }
}

/// Under the name of an active table, the table.
pub open spec fn by_name() -> spec_fn(ParsedDocument<TableMetadata>) -> Option<
    (Seq<char>, TableId),
> {
    |document: ParsedDocument<TableMetadata>|
        if document.value.state is Active {
            Some((document.value.name.name@, TableId(document.id)))
        } else {
            None
        }
}

/// Under the number of an active table, the table.
pub open spec fn by_number() -> spec_fn(ParsedDocument<TableMetadata>) -> Option<
    (TableNumber, TableId),
> {
    |document: ParsedDocument<TableMetadata>|
        if document.value.state is Active {
            Some((document.value.number, TableId(document.id)))
        } else {
            None
        }
}

/// Under a table that is not being emptied, its number and its name.
pub open spec fn by_table() -> spec_fn(ParsedDocument<TableMetadata>) -> Option<
    (TableId, (TableNumber, Seq<char>)),
> {
    |document: ParsedDocument<TableMetadata>|
        if !(document.value.state is Deleting) {
            Some((TableId(document.id), (document.value.number, document.value.name.name@)))
        } else {
            None
        }
}

/// Under an active table, its number and its name.
pub open spec fn by_active_table() -> spec_fn(ParsedDocument<TableMetadata>) -> Option<
    (TableId, (TableNumber, Seq<char>)),
> {
    |document: ParsedDocument<TableMetadata>|
        if document.value.state is Active {
            Some((TableId(document.id), (document.value.number, document.value.name.name@)))
        } else {
            None
        }
}

/// Under the id of a table, its state.
pub open spec fn state_by_id() -> spec_fn(ParsedDocument<TableMetadata>) -> Option<
    (u128, TableState),
> {
    |document: ParsedDocument<TableMetadata>| Some((document.id.0, document.value.state))
}

/// Under a table, its index over document ids.
pub open spec fn index_by_table() -> spec_fn(ParsedDocument<TabletIndexName>) -> Option<
    (TableId, IndexId),
> {
    |document: ParsedDocument<TabletIndexName>|
        if document.value.descriptor@ == "by_id"@ {
            Some((document.value.table, document.id))
        } else {
            None
        }
}

/// Under the name of a virtual table, its number.
pub open spec fn virtual_by_name() -> spec_fn(ParsedDocument<VirtualTableMetadata>) -> Option<
    (Seq<char>, TableNumber),
> {
    |document: ParsedDocument<VirtualTableMetadata>|
        Some((document.value.name.name@, document.value.number))
}

/// Under the number of a virtual table, its name.
pub open spec fn virtual_by_number() -> spec_fn(ParsedDocument<VirtualTableMetadata>) -> Option<
    (TableNumber, Seq<char>),
> {
    |document: ParsedDocument<VirtualTableMetadata>|
        Some((document.value.number, document.value.name.name@))
}

proof fn lemma_mapping_is_filled(documents: Seq<ParsedDocument<TableMetadata>>)
    ensures
        mapping_of(documents).names =~= filled(documents, by_name()),
        mapping_of(documents).numbers =~= filled(documents, by_number()),
        mapping_of(documents).tablets =~= filled(documents, by_table()),
        active_mapping_of(documents).names =~= filled(documents, by_name()),
        active_mapping_of(documents).numbers =~= filled(documents, by_number()),
        active_mapping_of(documents).tablets =~= filled(documents, by_active_table()),
        states_of(documents) =~= filled(documents, state_by_id()),
    decreases documents.len(),
{
    if documents.len() > 0 {
        lemma_mapping_is_filled(documents.drop_last());
    }
}

proof fn lemma_by_id_indexes_are_filled(documents: Seq<ParsedDocument<TabletIndexName>>)
    ensures
        by_id_indexes_of(documents) =~= filled(documents, index_by_table()),
    decreases documents.len(),
{
    if documents.len() > 0 {
        lemma_by_id_indexes_are_filled(documents.drop_last());
    }
}

proof fn lemma_virtual_mapping_is_filled(documents: Seq<ParsedDocument<VirtualTableMetadata>>)
    ensures
        virtual_mapping_of(documents).names =~= filled(documents, virtual_by_name()),
        virtual_mapping_of(documents).numbers =~= filled(documents, virtual_by_number()),
    decreases documents.len(),
{
    if documents.len() > 0 {
        lemma_virtual_mapping_is_filled(documents.drop_last());
    }
}

/// Of the documents about tables, the last one about an active table of a name or number
/// says where the name or number leads, the last one about a table that is not being emptied
/// says its number and name, and the last one about a table its state.
pub proof fn law_last_document_about_a_table_counts(
    documents: Seq<ParsedDocument<TableMetadata>>,
)
    ensures
        holds_last_words(mapping_of(documents).names, documents, by_name()),
        holds_last_words(mapping_of(documents).numbers, documents, by_number()),
        holds_last_words(mapping_of(documents).tablets, documents, by_table()),
        holds_last_words(states_of(documents), documents, state_by_id()),
{
    lemma_mapping_is_filled(documents);
    lemma_filled_holds_last_words(documents, by_name());
    lemma_filled_holds_last_words(documents, by_number());
    lemma_filled_holds_last_words(documents, by_table());
    lemma_filled_holds_last_words(documents, state_by_id());
}

/// Where active tables alone are looked at, the last document about an active table of a
/// name or number says where it leads, and the last one about an active table its number and
/// name.
pub proof fn law_last_document_about_an_active_table_counts(
    documents: Seq<ParsedDocument<TableMetadata>>,
)
    ensures
        holds_last_words(active_mapping_of(documents).names, documents, by_name()),
        holds_last_words(active_mapping_of(documents).numbers, documents, by_number()),
        holds_last_words(active_mapping_of(documents).tablets, documents, by_active_table()),
{
    lemma_mapping_is_filled(documents);
    lemma_filled_holds_last_words(documents, by_name());
    lemma_filled_holds_last_words(documents, by_number());
    lemma_filled_holds_last_words(documents, by_active_table());
}

/// The last document about an index over document ids of a table says which one it is.
pub proof fn law_last_document_about_an_index_counts(
    documents: Seq<ParsedDocument<TabletIndexName>>,
)
    ensures
        holds_last_words(by_id_indexes_of(documents), documents, index_by_table()),
{
    lemma_by_id_indexes_are_filled(documents);
    lemma_filled_holds_last_words(documents, index_by_table());
}

/// The last document about a virtual table of a name says its number, and the last one about
/// one of a number its name.
pub proof fn law_last_document_about_a_virtual_table_counts(
    documents: Seq<ParsedDocument<VirtualTableMetadata>>,
)
    ensures
        holds_last_words(virtual_mapping_of(documents).names, documents, virtual_by_name()),
        holds_last_words(virtual_mapping_of(documents).numbers, documents, virtual_by_number()),
{
    lemma_virtual_mapping_is_filled(documents);
    lemma_filled_holds_last_words(documents, virtual_by_name());
    lemma_filled_holds_last_words(documents, virtual_by_number());
}

} // verus!
