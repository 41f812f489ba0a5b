//! What the storage of tables and indexes adds up to.

use crate::errors::DatabaseError;
use crate::filters::{lemma_filter_last, lemma_filters_all};
use crate::name_map::NameMap;
use crate::names::TableName;
use crate::registry::{IndexEntry, Snapshot, TableSummary};
use crate::storage::{
    known_before, sums_fit, table_sizes, user_index_count, vector_sums, VectorIndexSize,
};
use crate::table_mapping::MappingView;
use vstd::prelude::*;

verus! {

proof fn lemma_sizes(summaries: Seq<(TableName, TableSummary)>, name: Seq<char>)
    ensures
        table_sizes(summaries).contains_key(name) <==> exists|i: int|
            0 <= i < summaries.len() && (#[trigger] summaries[i]).0.name@ == name,
    decreases summaries.len(),
{
    if summaries.len() > 0 {
        let front = summaries.drop_last();
        let last = summaries.len() - 1;
        lemma_sizes(front, name);
        if table_sizes(front).contains_key(name) {
            let i = choose|i: int| 0 <= i < front.len() && (#[trigger] front[i]).0.name@ == name;
            assert(summaries[i].0.name@ == name);
        }
        if table_sizes(summaries).contains_key(name) && !table_sizes(front).contains_key(name) {
            assert(summaries[last].0.name@ == name);
        }
        if exists|i: int| 0 <= i < summaries.len() && (#[trigger] summaries[i]).0.name@ == name {
            let i = choose|i: int|
                0 <= i < summaries.len() && (#[trigger] summaries[i]).0.name@ == name;
            if i < last {
                assert(front[i].0.name@ == name);
            }
        }
    }
}

proof fn lemma_last_size(summaries: Seq<(TableName, TableSummary)>, i: int)
    requires
        0 <= i < summaries.len(),
        forall|j: int|
            i < j < summaries.len() ==> (#[trigger] summaries[j]).0.name@ != summaries[i].0.name@,
    ensures
        table_sizes(summaries)[summaries[i].0.name@] == summaries[i].1.total_size_rounded,
    decreases summaries.len(),
{
    let front = summaries.drop_last();
    let last = summaries.len() - 1;
    if i < last {
        assert(summaries[last].0.name@ != summaries[i].0.name@);
        assert forall|j: int| i < j < front.len() implies (#[trigger] front[j]).0.name@
            != front[i].0.name@ by {
            assert(summaries[j].0.name@ != summaries[i].0.name@);
        }
        lemma_last_size(front, i);
    }
}

/// Storage is told for the names of the tables that have sizes, and for no others.
/// The size of the documents is the last one that is given for the name.
pub proof fn law_document_storage_is_the_size_of_the_table(
    snapshot: Snapshot,
    summaries: Seq<(TableName, TableSummary)>,
    storage: Map<Seq<char>, (usize, usize)>,
)
    requires
        snapshot.is_user_storage(summaries, storage),
    ensures
        forall|name: Seq<char>| #[trigger]
            storage.contains_key(name) <==> exists|i: int|
                0 <= i < summaries.len() && (#[trigger] summaries[i]).0.name@ == name,
        forall|i: int|
            0 <= i < summaries.len() && (forall|j: int|
                i < j < summaries.len() ==> (#[trigger] summaries[j]).0.name@
                    != summaries[i].0.name@) ==> storage[(#[trigger] summaries[i]).0.name@].0
                == summaries[i].1.total_size_rounded,
{
    assert forall|name: Seq<char>| #[trigger] storage.contains_key(name) <==> exists|i: int|
        0 <= i < summaries.len() && (#[trigger] summaries[i]).0.name@ == name by {
        lemma_sizes(summaries, name);
        assert(storage.dom().contains(name) == table_sizes(summaries).dom().contains(name));
    }
    assert forall|i: int|
        0 <= i < summaries.len() && (forall|j: int|
            i < j < summaries.len() ==> (#[trigger] summaries[j]).0.name@
                != summaries[i].0.name@) implies storage[(#[trigger] summaries[i]).0.name@].0
        == summaries[i].1.total_size_rounded by {
        lemma_last_size(summaries, i);
        assert(storage.contains_key(summaries[i].0.name@));
    }
}

/// The enabled indexes that are not kept by the system and are on a table of a name.
pub open spec fn indexes_of_users(
    mapping: MappingView,
    indexes: Seq<IndexEntry>,
    name: Seq<char>,
) -> Seq<IndexEntry> {
    indexes.filter(is_of_user(mapping, name))
}

/// Whether an index is enabled, not kept by the system, and on a table of a name.
pub open spec fn is_of_user(mapping: MappingView, name: Seq<char>) -> spec_fn(IndexEntry) -> bool {
    |index: IndexEntry|
        index.enabled && !index.system_owned && mapping.tablets[index.name.table].1 == name
}

proof fn lemma_count(mapping: MappingView, indexes: Seq<IndexEntry>, name: Seq<char>)
    ensures
        user_index_count(mapping, indexes, name) == indexes_of_users(mapping, indexes, name).len(),
    decreases indexes.len(),
{
    lemma_filter_last(
        indexes,
        is_of_user(mapping, name),
    );
    if indexes.len() > 0 {
        lemma_count(mapping, indexes.drop_last(), name);
    }
}

/// The size of the indexes of a name is the size of its documents, once for every
/// enabled index on a table of that name that the system does not keep for itself.
/// Where there is none it is zero.
pub proof fn law_index_storage_is_the_documents_once_for_each_index(
    snapshot: Snapshot,
    summaries: Seq<(TableName, TableSummary)>,
    storage: Map<Seq<char>, (usize, usize)>,
    name: Seq<char>,
)
    requires
        snapshot.is_user_storage(summaries, storage),
        storage.contains_key(name),
    ensures
        ({
            let mapping = snapshot.table_registry.table_mapping@;
            let indexes = snapshot.index_registry.indexes@;
            &&& storage[name].1 == storage[name].0 * indexes_of_users(mapping, indexes, name).len()
            &&& (forall|i: int|
                0 <= i < indexes.len() ==> !({
                    &&& (#[trigger] indexes[i]).enabled
                    &&& !indexes[i].system_owned
                    &&& mapping.tablets[indexes[i].name.table].1 == name
                })) ==> storage[name].1 == 0
        }),
{
    let mapping = snapshot.table_registry.table_mapping@;
    let indexes = snapshot.index_registry.indexes@;
    let size = storage[name].0;
    lemma_count(mapping, indexes, name);
    if forall|i: int|
        0 <= i < indexes.len() ==> !({
            &&& (#[trigger] indexes[i]).enabled
            &&& !indexes[i].system_owned
            &&& mapping.tablets[indexes[i].name.table].1 == name
        }) {
        lemma_filters_all(
            indexes,
            is_of_user(mapping, name),
        );
        assert(size * 0 == 0) by (nonlinear_arith);
    }
}

/// One more enabled index that the system does not keep for itself makes the size of
/// the indexes of its table's name larger by the size of the documents; the sizes of
/// all other names, and those of documents, stay as they are. Any other index changes
/// nothing.
pub proof fn law_one_more_index(
    snapshot: Snapshot,
    more: Snapshot,
    summaries: Seq<(TableName, TableSummary)>,
    storage: Map<Seq<char>, (usize, usize)>,
    then: Map<Seq<char>, (usize, usize)>,
    index: IndexEntry,
    name: Seq<char>,
)
    requires
        snapshot.is_user_storage(summaries, storage),
        more.is_user_storage(summaries, then),
        more.table_registry.table_mapping@ == snapshot.table_registry.table_mapping@,
        more.index_registry.indexes@ == snapshot.index_registry.indexes@.push(index),
        storage.contains_key(name),
    ensures
        then.contains_key(name),
        then[name].0 == storage[name].0,
        then[name].1 == storage[name].1 + if index.enabled && !index.system_owned
            && snapshot.table_registry.table_mapping@.tablets[index.name.table].1 == name {
            storage[name].0 as int
        } else {
            0
        },
{
    let mapping = snapshot.table_registry.table_mapping@;
    let before = snapshot.index_registry.indexes@;
    let after = more.index_registry.indexes@;
    let size = storage[name].0;
    assert(then.dom().contains(name)) by {
        assert(storage.dom().contains(name));
    }
    law_index_storage_is_the_documents_once_for_each_index(snapshot, summaries, storage, name);
    law_index_storage_is_the_documents_once_for_each_index(more, summaries, then, name);
    lemma_filter_last(
        after,
        is_of_user(mapping, name),
    );
    assert(after.drop_last() =~= before);
    let count = indexes_of_users(mapping, before, name).len();
    assert(size * (count + 1) == size * count + size) by (nonlinear_arith);
}

/// Storage can be told wherever every enabled index is on a table that exists, every
/// one of them that the system does not keep for itself is on a table whose size is
/// given, and no size is too large for the machine.
pub proof fn law_storage_can_be_told(snapshot: Snapshot, summaries: Seq<(TableName, TableSummary)>)
    requires
        ({
            let mapping = snapshot.table_registry.table_mapping@;
            let indexes = snapshot.index_registry.indexes@;
            &&& forall|i: int|
                0 <= i < indexes.len() && (#[trigger] indexes[i]).enabled ==> {
                    &&& mapping.tablets.contains_key(indexes[i].name.table)
                    &&& indexes[i].system_owned || exists|j: int|
                        0 <= j < summaries.len() && (#[trigger] summaries[j]).0.name@
                            == mapping.tablets[indexes[i].name.table].1
                }
            &&& forall|i: int, j: int|
                0 <= i < summaries.len() && 0 <= j < summaries.len() && (
                #[trigger] summaries[i]).0.name@ == (#[trigger] summaries[j]).0.name@ ==> {
                    &&& summaries[i].1.total_size_rounded <= usize::MAX
                    &&& summaries[i].1.total_size_rounded * indexes_of_users(
                        mapping,
                        indexes,
                        summaries[j].0.name@,
                    ).len() <= usize::MAX
                }
        }),
    ensures
        snapshot.can_tell_storage(summaries),
{
    let mapping = snapshot.table_registry.table_mapping@;
    let indexes = snapshot.index_registry.indexes@;
    let sizes = table_sizes(summaries);
    assert(snapshot.has_sizes_of_indexes(sizes)) by {
        assert forall|i: int|
            0 <= i < snapshot.index_registry.indexes@.len() && (
            #[trigger] snapshot.index_registry.indexes@[i]).enabled implies {
            let index = snapshot.index_registry.indexes@[i];
            &&& mapping.tablets.contains_key(index.name.table)
            &&& !index.system_owned ==> sizes.contains_key(mapping.tablets[index.name.table].1)
        } by {
            assert(indexes[i].enabled);
            lemma_sizes(summaries, mapping.tablets[indexes[i].name.table].1);
        }
    }
    assert forall|i: int| 0 <= i < summaries.len() implies {
        &&& (#[trigger] summaries[i]).1.total_size_rounded <= usize::MAX
        &&& snapshot.index_size(sizes, summaries[i].0@) <= usize::MAX
    } by {
        let name = summaries[i].0.name@;
        let j = lemma_has_last_size(summaries, i);
        assert(summaries[j].0.name@ == summaries[i].0.name@);
        lemma_count(mapping, indexes, name);
        assert(summaries[i].0.name@ == summaries[i].0.name@);
    }
}

proof fn lemma_has_last_size(summaries: Seq<(TableName, TableSummary)>, i: int) -> (j: int)
    requires
        0 <= i < summaries.len(),
    ensures
        0 <= j < summaries.len(),
        summaries[j].0.name@ == summaries[i].0.name@,
        table_sizes(summaries)[summaries[i].0.name@] == summaries[j].1.total_size_rounded,
    decreases summaries.len(),
{
    let last = summaries.len() - 1;
    if summaries[last].0.name@ == summaries[i].0.name@ {
        last
    } else {
        let front = summaries.drop_last();
        let j = lemma_has_last_size(front, i);
        assert(front[j] == summaries[j] && front[i] == summaries[i]);
        j
    }
}

/// The sizes of the vector indexes that are on a table of a name, in their order.
pub open spec fn sizes_on(
    mapping: MappingView,
    indexes: Seq<VectorIndexSize>,
    name: Seq<char>,
) -> Seq<int> {
    indexes.filter(is_on(mapping, name)).map_values(|index: VectorIndexSize| index.size->Ok_0 as int)
}

/// Whether a vector index is on a table of a name.
pub open spec fn is_on(mapping: MappingView, name: Seq<char>) -> spec_fn(VectorIndexSize) -> bool {
    |index: VectorIndexSize| mapping.tablets[index.table].1 == name
}

/// The sum of numbers.
pub open spec fn sum_of(numbers: Seq<int>) -> int {
    numbers.fold_left(0int, |sum: int, number: int| sum + number)
}

proof fn lemma_sums(mapping: MappingView, indexes: Seq<VectorIndexSize>, name: Seq<char>)
    ensures
        vector_sums(mapping, indexes).contains_key(name) <==> exists|i: int|
            0 <= i < indexes.len() && mapping.tablets[(#[trigger] indexes[i]).table].1 == name,
        vector_sums(mapping, indexes).contains_key(name) ==> vector_sums(mapping, indexes)[name]
            == sum_of(sizes_on(mapping, indexes, name)),
        !vector_sums(mapping, indexes).contains_key(name) ==> sum_of(
            sizes_on(mapping, indexes, name),
        ) == 0,
    decreases indexes.len(),
{
    let on_name = is_on(mapping, name);
    let size = |index: VectorIndexSize| index.size->Ok_0 as int;
    lemma_filter_last(indexes, on_name);
    if indexes.len() > 0 {
        let front = indexes.drop_last();
        let last = indexes.len() - 1;
        lemma_sums(mapping, front, name);
        let before = sizes_on(mapping, front, name);
        let all = sizes_on(mapping, indexes, name);
        if on_name(indexes.last()) {
            assert(all =~= before.push(size(indexes.last())));
            assert(all.drop_last() =~= before);
            assert(mapping.tablets[indexes[last].table].1 == name);
        } else {
            assert(all =~= before);
        }
        if vector_sums(mapping, front).contains_key(name) {
            let i = choose|i: int|
                0 <= i < front.len() && mapping.tablets[(#[trigger] front[i]).table].1 == name;
            assert(indexes[i] == front[i]);
        }
        if exists|i: int|
            0 <= i < indexes.len() && mapping.tablets[(#[trigger] indexes[i]).table].1 == name {
            let i = choose|i: int|
                0 <= i < indexes.len() && mapping.tablets[(#[trigger] indexes[i]).table].1 == name;
            if i < last {
                assert(front[i] == indexes[i]);
            }
        }
    }
}

/// The vector storage of a name is the sum of the sizes of all vector indexes that
/// are on a table of that name, and a name has storage if and only if there is such
/// an index.
pub proof fn law_vector_storage_is_the_sum_of_all_indexes(
    snapshot: Snapshot,
    indexes: Seq<VectorIndexSize>,
    sums: NameMap<u64>,
    name: Seq<char>,
)
    requires
        snapshot.is_vector_storage(indexes, Ok(sums)),
    ensures
        ({
            let mapping = snapshot.table_registry.table_mapping@;
            &&& sums@.contains_key(name) <==> exists|i: int|
                0 <= i < indexes.len() && mapping.tablets[(#[trigger] indexes[i]).table].1 == name
            &&& sums@.contains_key(name) ==> sums@[name] == sum_of(
                sizes_on(mapping, indexes, name),
            )
        }),
{
    let mapping = snapshot.table_registry.table_mapping@;
    lemma_sums(mapping, indexes, name);
    assert(sums@.dom().contains(name) == vector_sums(mapping, indexes).dom().contains(name));
}

/// One more vector index, behind the others, makes the storage of its table's name
/// larger by its size, and leaves that of all other names as it is.
pub proof fn law_one_more_vector_index(
    snapshot: Snapshot,
    indexes: Seq<VectorIndexSize>,
    index: VectorIndexSize,
    sums: NameMap<u64>,
    then: NameMap<u64>,
    name: Seq<char>,
)
    requires
        snapshot.is_vector_storage(indexes, Ok(sums)),
        snapshot.is_vector_storage(indexes.push(index), Ok(then)),
    ensures
        ({
            let own = snapshot.table_registry.table_mapping@.tablets[index.table].1;
            let before = if sums@.contains_key(name) {
                sums@[name] as int
            } else {
                0
            };
            if name == own {
                then@.contains_key(name) && then@[name] == before + index.size->Ok_0
            } else {
                &&& then@.contains_key(name) == sums@.contains_key(name)
                &&& sums@.contains_key(name) ==> then@[name] == sums@[name]
            }
        }),
{
    let mapping = snapshot.table_registry.table_mapping@;
    let more = indexes.push(index);
    let on_name = is_on(mapping, name);
    law_vector_storage_is_the_sum_of_all_indexes(snapshot, indexes, sums, name);
    law_vector_storage_is_the_sum_of_all_indexes(snapshot, more, then, name);
    lemma_sums(mapping, indexes, name);
    assert(sums@.dom().contains(name) == vector_sums(mapping, indexes).dom().contains(name));
    lemma_filter_last(more, on_name);
    assert(more.drop_last() =~= indexes);
    let before = sizes_on(mapping, indexes, name);
    let all = sizes_on(mapping, more, name);
    if on_name(index) {
        assert(all =~= before.push(index.size->Ok_0 as int));
        assert(all.drop_last() =~= before);
        assert(mapping.tablets[more[indexes.len() as int].table].1 == name);
    } else {
        assert(all =~= before);
        if sums@.contains_key(name) {
            let i = choose|i: int|
                0 <= i < indexes.len() && mapping.tablets[(#[trigger] indexes[i]).table].1 == name;
            assert(more[i] == indexes[i]);
        }
        if then@.contains_key(name) {
            let i = choose|i: int|
                0 <= i < more.len() && mapping.tablets[(#[trigger] more[i]).table].1 == name;
            assert(more[i] == indexes[i]);
        }
    }
}

/// Vector storage is told if and only if the table and the size of every index are
/// known. Otherwise the error is about the first index of which they are not.
pub proof fn law_first_unknown_vector_index_is_told(
    snapshot: Snapshot,
    indexes: Seq<VectorIndexSize>,
    result: Result<NameMap<u64>, DatabaseError>,
)
    requires
        snapshot.is_vector_storage(indexes, result),
    ensures
        ({
            let mapping = snapshot.table_registry.table_mapping@;
            &&& result is Ok <==> forall|i: int|
                0 <= i < indexes.len() ==> mapping.tablets.contains_key(
                    (#[trigger] indexes[i]).table,
                ) && indexes[i].size is Ok
            &&& result matches Err(error) ==> exists|i: int|
                {
                    &&& 0 <= i < indexes.len()
                    &&& forall|j: int|
                        0 <= j < i ==> mapping.tablets.contains_key((#[trigger] indexes[j]).table)
                            && indexes[j].size is Ok
                    &&& {
                        ||| {
                            &&& !mapping.tablets.contains_key((#[trigger] indexes[i]).table)
                            &&& error == (DatabaseError::TableIdNotFound {
                                table_id: indexes[i].table,
                            })
                        }
                        ||| {
                            &&& mapping.tablets.contains_key(indexes[i].table)
                            &&& indexes[i].size matches Err(e)
                            &&& error == DatabaseError::Service(e)
                        }
                    }
                }
        }),
{
    let mapping = snapshot.table_registry.table_mapping@;
    if result is Ok {
        assert forall|i: int| 0 <= i < indexes.len() implies mapping.tablets.contains_key(
            (#[trigger] indexes[i]).table,
        ) && indexes[i].size is Ok by {
            assert(indexes[i].is_known(mapping));
        }
    } else {
        let error = result->Err_0;
        let i = choose|i: int|
            #![trigger indexes[i]]
            {
                &&& 0 <= i < indexes.len()
                &&& known_before(mapping, indexes, i)
                &&& !indexes[i].is_known(mapping)
                &&& error == if mapping.tablets.contains_key(indexes[i].table) {
                    DatabaseError::Service(indexes[i].size->Err_0)
                } else {
                    DatabaseError::TableIdNotFound { table_id: indexes[i].table }
                }
            };
        assert forall|j: int| 0 <= j < i implies mapping.tablets.contains_key(
            (#[trigger] indexes[j]).table,
        ) && indexes[j].size is Ok by {
            assert(indexes[j].is_known(mapping));
        }
        assert(!(mapping.tablets.contains_key(indexes[i].table) && indexes[i].size is Ok));
    }
}

proof fn lemma_sums_grow(
    mapping: MappingView,
    indexes: Seq<VectorIndexSize>,
    n: int,
    name: Seq<char>,
)
    requires
        0 <= n <= indexes.len(),
    ensures
        0 <= sum_of(sizes_on(mapping, indexes.take(n), name)) <= sum_of(
            sizes_on(mapping, indexes, name),
        ),
    decreases indexes.len(),
{
    let on_name = is_on(mapping, name);
    let size = |index: VectorIndexSize| index.size->Ok_0 as int;
    if n == indexes.len() {
        assert(indexes.take(n) =~= indexes);
        if n > 0 {
            lemma_sums_grow(mapping, indexes.drop_last(), n - 1, name);
            assert(indexes.drop_last().take(n - 1) =~= indexes.drop_last());
        } else {
            lemma_filter_last(indexes, on_name);
        }
    } else {
        lemma_sums_grow(mapping, indexes.drop_last(), n, name);
        assert(indexes.drop_last().take(n) =~= indexes.take(n));
    }
    if indexes.len() > 0 {
        lemma_filter_last(indexes, on_name);
        let before = sizes_on(mapping, indexes.drop_last(), name);
        let all = sizes_on(mapping, indexes, name);
        if on_name(indexes.last()) {
            assert(all =~= before.push(size(indexes.last())));
            assert(all.drop_last() =~= before);
        } else {
            assert(all =~= before);
        }
    }
}

/// Vector storage can be told wherever no sum of the sizes of the indexes in front of
/// the first one that is not known is too large.
pub proof fn law_vector_storage_can_be_told(
    mapping: MappingView,
    indexes: Seq<VectorIndexSize>,
    known: int,
)
    requires
        0 <= known <= indexes.len(),
        known < indexes.len() ==> !(mapping.tablets.contains_key(indexes[known].table)
            && indexes[known].size is Ok),
        forall|name: Seq<char>|
            #[trigger] sum_of(sizes_on(mapping, indexes.take(known), name)) <= u64::MAX,
    ensures
        sums_fit(mapping, indexes),
{
    assert forall|n: int, name: Seq<char>|
        #![trigger vector_sums(mapping, indexes.take(n)).contains_key(name)]
        0 <= n <= indexes.len() && known_before(mapping, indexes, n) && vector_sums(
            mapping,
            indexes.take(n),
        ).contains_key(name) implies vector_sums(mapping, indexes.take(n))[name] <= u64::MAX by {
        if n > known {
            assert(indexes[known].is_known(mapping));
        }
        lemma_sums(mapping, indexes.take(n), name);
        lemma_sums_grow(mapping, indexes.take(known), n, name);
        assert(indexes.take(known).take(n) =~= indexes.take(n));
    }
}

} // verus!
