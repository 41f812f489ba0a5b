//! How much storage tables and their indexes take.

use crate::errors::{DatabaseError, ServiceError};
use crate::ids::TableId;
use crate::name_map::NameMap;
use crate::names::TableName;
use crate::registry::{IndexEntry, Snapshot, TableSummary};
use crate::table_mapping::MappingView;
use vstd::prelude::*;

verus! {

/// A vector index, with the size that it is charged for or why that is not
/// known.
#[derive(Debug, PartialEq, Eq)]
pub struct VectorIndexSize {
    pub table: TableId,
    pub size: Result<u64, ServiceError>,
}

impl VectorIndexSize {
    /// Whether the table and the size of the index are known.
    pub open spec fn is_known(self, mapping: MappingView) -> bool {
        mapping.tablets.contains_key(self.table) && self.size is Ok
    }
}

/// The sizes of all vector indexes on the tables of each name.
pub open spec fn vector_sums(mapping: MappingView, indexes: Seq<VectorIndexSize>) -> Map<
    Seq<char>,
    nat,
>
    decreases indexes.len(),
{
    if indexes.len() == 0 {
        Map::empty()
    } else {
        let before = vector_sums(mapping, indexes.drop_last());
        let name = mapping.tablets[indexes.last().table].1;
        let sum = if before.contains_key(name) {
            before[name]
        } else {
            0
        };
        before.insert(name, sum + indexes.last().size->Ok_0 as nat)
    }
}

/// Whether the first `n` vector indexes are known.
pub open spec fn known_before(mapping: MappingView, indexes: Seq<VectorIndexSize>, n: int) -> bool {
    forall|i: int| 0 <= i < n ==> (#[trigger] indexes[i]).is_known(mapping)
}

/// Whether no sum is too large, up to the first index that is not known.
pub open spec fn sums_fit(mapping: MappingView, indexes: Seq<VectorIndexSize>) -> bool {
    forall|n: int, name: Seq<char>|
        #![trigger vector_sums(mapping, indexes.take(n)).contains_key(name)]
        0 <= n <= indexes.len() && known_before(mapping, indexes, n) && vector_sums(
            mapping,
            indexes.take(n),
        ).contains_key(name) ==> vector_sums(mapping, indexes.take(n))[name] <= u64::MAX
}

/// Whether a map holds these sums.
pub open spec fn holds_sums(found: Map<Seq<char>, u64>, sums: Map<Seq<char>, nat>) -> bool {
    &&& found.dom() == sums.dom()
    &&& forall|name: Seq<char>| #[trigger] found.contains_key(name) ==> found[name] == sums[name]
}

/// Adds the size of one more index to the sums, if the sum is not too large.
fn add_vector_size(sums: &mut NameMap<u64>, name: &TableName, size: u64) -> (fits: bool)
    ensures
        ({
            let before = if old(sums)@.contains_key(name@) {
                old(sums)@[name@]
            } else {
                0
            };
            &&& fits == (before + size <= u64::MAX)
            &&& fits ==> final(sums)@ == old(sums)@.insert(name@, (before + size) as u64)
        }),
{
    let before: u64 = match sums.get(&name.name) {
        Some(sum) => *sum,
        None => 0,
    };
    match before.checked_add(size) {
        Some(sum) => {
            sums.insert(name.name.clone(), sum);
            true
        },
        None => false,
    }
}

impl Snapshot {
    /// Whether no sum of [`Snapshot::vector_index_storage`] is too large.
    pub fn vector_index_storage_fits(&self, indexes: &Vec<VectorIndexSize>) -> (fits: bool)
        ensures
            fits == sums_fit(self.table_registry.table_mapping@, indexes@),
    {
        let ghost mapping = self.table_registry.table_mapping@;
        let ghost all = indexes@;
        let mut sums: NameMap<u64> = NameMap::new();
        assert(all.take(0) =~= Seq::empty());
        assert(sums@.dom() =~= vector_sums(mapping, all.take(0)).dom());
        for i in 0..indexes.len()
            invariant
                mapping == self.table_registry.table_mapping@,
                all == indexes@,
                known_before(mapping, all, i as int),
                holds_sums(sums@, vector_sums(mapping, all.take(i as int))),
                forall|n: int, name: Seq<char>|
                    #![trigger vector_sums(mapping, all.take(n)).contains_key(name)]
                    0 <= n <= i && vector_sums(mapping, all.take(n)).contains_key(name)
                        ==> vector_sums(mapping, all.take(n))[name] <= u64::MAX,
        {
            let index = &indexes[i];
            let ghost longer = all.take(i + 1);
            assert(longer.drop_last() =~= all.take(i as int));
            assert(longer.last() == all[i as int]);
            let name = match self.table_registry.table_mapping.tablet_name(index.table) {
                Some(name) => name,
                None => {
                    assert(!all[i as int].is_known(mapping));
                    return true;
                },
            };
            let size = match index.size {
                Ok(size) => size,
                Err(_) => {
                    assert(!all[i as int].is_known(mapping));
                    return true;
                },
            };
            assert(known_before(mapping, all, i + 1));
            if !add_vector_size(&mut sums, name, size) {
                assert(vector_sums(mapping, longer).contains_key(name@));
                return false;
            }
            assert(sums@.dom() =~= vector_sums(mapping, longer).dom());
        }
        true
    }

    /// Whether `result` tells the sizes of all vector indexes on the tables of
    /// each name, or what is wrong with the first index that is not known.
    pub open spec fn is_vector_storage(
        self,
        indexes: Seq<VectorIndexSize>,
        result: Result<NameMap<u64>, DatabaseError>,
    ) -> bool {
        let mapping = self.table_registry.table_mapping@;
        match result {
            Ok(sums) => {
                &&& known_before(mapping, indexes, indexes.len() as int)
                &&& holds_sums(sums@, vector_sums(mapping, indexes))
            },
            Err(error) => exists|i: int|
                #![trigger indexes[i]]
                {
                    &&& 0 <= i < indexes.len()
                    &&& known_before(mapping, indexes, i)
                    &&& !indexes[i].is_known(mapping)
                    &&& error == if mapping.tablets.contains_key(indexes[i].table) {
                        DatabaseError::Service(indexes[i].size->Err_0)
                    } else {
                        DatabaseError::TableIdNotFound { table_id: indexes[i].table }
                    }
                },
        }
    }

    /// The sizes of all vector indexes on the tables of each name. Fails at the
    /// first index whose table does not exist or whose size is not known.
    pub fn vector_index_storage(&self, indexes: Vec<VectorIndexSize>) -> (result: Result<
        NameMap<u64>,
        DatabaseError,
    >)
        requires
            sums_fit(self.table_registry.table_mapping@, indexes@),
        ensures
            self.is_vector_storage(indexes@, result),
    {
        let ghost mapping = self.table_registry.table_mapping@;
        let ghost all = indexes@;
        let mut sums: NameMap<u64> = NameMap::new();
        assert(all.take(0) =~= Seq::empty());
        assert(sums@.dom() =~= vector_sums(mapping, all.take(0)).dom());
        for index in it: indexes
            invariant
                it.seq() == all,
                all == indexes@,
                mapping == self.table_registry.table_mapping@,
                sums_fit(mapping, all),
                known_before(mapping, all, it.index()),
                holds_sums(sums@, vector_sums(mapping, all.take(it.index()))),
        {
            let ghost i = it.index();
            let ghost longer = all.take(i + 1);
            assert(longer.drop_last() =~= all.take(i));
            assert(longer.last() == all[i]);
            assert(index == all[i]);
            let name = match self.table_registry.table_mapping.tablet_name(index.table) {
                Some(name) => name,
                None => {
                    return Err(DatabaseError::TableIdNotFound { table_id: index.table });
                },
            };
            let size = match index.size {
                Ok(size) => size,
                Err(error) => {
                    return Err(DatabaseError::Service(error));
                },
            };
            assert(known_before(mapping, all, i + 1));
            assert(vector_sums(mapping, longer).contains_key(name@));
            let _fits = add_vector_size(&mut sums, name, size);
            assert(sums@.dom() =~= vector_sums(mapping, longer).dom());
        }
        assert(all.take(all.len() as int) =~= all);
        Ok(sums)
    }
}

/// The size of the tables of each name. Of two sizes for one name the later one
/// counts.
pub open spec fn table_sizes(summaries: Seq<(TableName, TableSummary)>) -> Map<Seq<char>, u64>
    decreases summaries.len(),
{
    if summaries.len() == 0 {
        Map::empty()
    } else {
        table_sizes(summaries.drop_last()).insert(
            summaries.last().0@,
            summaries.last().1.total_size_rounded,
        )
    }
}

/// Whether an index is enabled and a user's.
pub open spec fn is_user_index(index: IndexEntry) -> bool {
    index.enabled && !index.system_owned
}

/// How many enabled indexes users have on the tables of a name.
pub open spec fn user_index_count(
    mapping: MappingView,
    indexes: Seq<IndexEntry>,
    name: Seq<char>,
) -> nat
    decreases indexes.len(),
{
    if indexes.len() == 0 {
        0
    } else {
        let before = user_index_count(mapping, indexes.drop_last(), name);
        let last = indexes.last();
        if is_user_index(last) && mapping.tablets[last.name.table].1 == name {
            before + 1
        } else {
            before
        }
    }
}

proof fn lemma_index_count_grows(
    mapping: MappingView,
    indexes: Seq<IndexEntry>,
    n: int,
    name: Seq<char>,
)
    requires
        0 <= n <= indexes.len(),
    ensures
        user_index_count(mapping, indexes.take(n), name) <= user_index_count(
            mapping,
            indexes,
            name,
        ),
        user_index_count(mapping, indexes, name) <= indexes.len(),
    decreases indexes.len(),
{
    if indexes.len() == 0 {
        assert(indexes.take(n) =~= indexes);
    } else {
        let front = indexes.drop_last();
        lemma_index_count_grows(mapping, front, front.len() as int, name);
        if n < indexes.len() {
            lemma_index_count_grows(mapping, front, n, name);
            assert(front.take(n) =~= indexes.take(n));
        } else {
            assert(indexes.take(n) =~= indexes);
        }
    }
}

impl Snapshot {
    /// Whether every enabled index is on a table that exists, and every index of
    /// a user on one whose size is known.
    pub open spec fn has_sizes_of_indexes(self, sizes: Map<Seq<char>, u64>) -> bool {
        let mapping = self.table_registry.table_mapping@;
        forall|i: int|
            0 <= i < self.index_registry.indexes@.len() && (
            #[trigger] self.index_registry.indexes@[i]).enabled ==> {
                let index = self.index_registry.indexes@[i];
                &&& mapping.tablets.contains_key(index.name.table)
                &&& !index.system_owned ==> sizes.contains_key(
                    mapping.tablets[index.name.table].1,
                )
            }
    }

    /// The size of the indexes that users have on the tables of a name, where
    /// each index is as large as the documents.
    pub open spec fn index_size(self, sizes: Map<Seq<char>, u64>, name: Seq<char>) -> int {
        sizes[name] * user_index_count(
            self.table_registry.table_mapping@,
            self.index_registry.indexes@,
            name,
        )
    }

    /// Whether all sizes can be told.
    pub open spec fn can_tell_storage(self, summaries: Seq<(TableName, TableSummary)>) -> bool {
        let sizes = table_sizes(summaries);
        &&& self.has_sizes_of_indexes(sizes)
        &&& forall|i: int|
            0 <= i < summaries.len() ==> {
                &&& (#[trigger] summaries[i]).1.total_size_rounded <= usize::MAX
                &&& self.index_size(sizes, summaries[i].0@) <= usize::MAX
            }
    }

    /// Whether `storage` tells the size of the documents and of the indexes on
    /// the tables of each name.
    pub open spec fn is_user_storage(
        self,
        summaries: Seq<(TableName, TableSummary)>,
        storage: Map<Seq<char>, (usize, usize)>,
    ) -> bool {
        let sizes = table_sizes(summaries);
        &&& storage.dom() == sizes.dom()
        &&& forall|name: Seq<char>| #[trigger]
            storage.contains_key(name) ==> {
                &&& storage[name].0 == sizes[name]
                &&& storage[name].1 == self.index_size(sizes, name)
            }
    }

    /// How many enabled indexes users have on the tables of a name, if all
    /// enabled indexes are on tables that exist.
    fn count_user_indexes(&self, name: &TableName) -> (count: u64)
        requires
            forall|i: int|
                0 <= i < self.index_registry.indexes@.len() && (
                #[trigger] self.index_registry.indexes@[i]).enabled
                    ==> self.table_registry.table_mapping@.tablets.contains_key(
                    self.index_registry.indexes@[i].name.table,
                ),
        ensures
            count == user_index_count(
                self.table_registry.table_mapping@,
                self.index_registry.indexes@,
                name@,
            ),
    {
        let ghost mapping = self.table_registry.table_mapping@;
        let ghost all = self.index_registry.indexes@;
        let mut count: u64 = 0;
        assert(all.take(0) =~= Seq::empty());
        for i in 0..self.index_registry.indexes.len()
            invariant
                mapping == self.table_registry.table_mapping@,
                all == self.index_registry.indexes@,
                forall|j: int|
                    0 <= j < all.len() && (#[trigger] all[j]).enabled
                        ==> mapping.tablets.contains_key(all[j].name.table),
                count == user_index_count(mapping, all.take(i as int), name@),
                count <= i,
        {
            let ghost longer = all.take(i + 1);
            assert(longer.drop_last() =~= all.take(i as int));
            assert(longer.last() == all[i as int]);
            let index = &self.index_registry.indexes[i];
            if index.enabled && !index.system_owned {
                if let Some(found) = self.table_registry.table_mapping.tablet_name(
                    index.name.table,
                ) {
                    if *found == *name {
                        count = count + 1;
                    }
                }
            }
        }
        assert(all.take(all.len() as int) =~= all);
        count
    }

    /// Whether all sizes can be told.
    pub fn user_storage_can_be_told(&self, summaries: &Vec<(TableName, TableSummary)>) -> (can: bool)
        ensures
            can == self.can_tell_storage(summaries@),
    {
        let ghost mapping = self.table_registry.table_mapping@;
        let ghost all = self.index_registry.indexes@;
        let mut sizes: NameMap<u64> = NameMap::new();
        assert(summaries@.take(0) =~= Seq::empty());
        for i in 0..summaries.len()
            invariant
                sizes@ == table_sizes(summaries@.take(i as int)),
        {
            let ghost longer = summaries@.take(i + 1);
            assert(longer.drop_last() =~= summaries@.take(i as int));
            assert(longer.last() == summaries@[i as int]);
            sizes.insert(summaries[i].0.name.clone(), summaries[i].1.total_size_rounded);
        }
        assert(summaries@.take(summaries.len() as int) =~= summaries@);
        for i in 0..self.index_registry.indexes.len()
            invariant
                mapping == self.table_registry.table_mapping@,
                all == self.index_registry.indexes@,
                sizes@ == table_sizes(summaries@),
                forall|j: int|
                    0 <= j < i && (#[trigger] all[j]).enabled ==> {
                        &&& mapping.tablets.contains_key(all[j].name.table)
                        &&& !all[j].system_owned ==> sizes@.contains_key(
                            mapping.tablets[all[j].name.table].1,
                        )
                    },
        {
            let index = &self.index_registry.indexes[i];
            assert(*index == self.index_registry.indexes@[i as int]);
            if index.enabled {
                match self.table_registry.table_mapping.tablet_name(index.name.table) {
                    Some(table_name) => {
                        if !index.system_owned && sizes.get(&table_name.name).is_none() {
                            return false;
                        }
                    },
                    None => {
                        return false;
                    },
                }
            }
        }
        assert(self.has_sizes_of_indexes(sizes@));
        for i in 0..summaries.len()
            invariant
                self.has_sizes_of_indexes(sizes@),
                sizes@ == table_sizes(summaries@),
                forall|j: int|
                    0 <= j < i ==> {
                        &&& (#[trigger] summaries@[j]).1.total_size_rounded <= usize::MAX
                        &&& self.index_size(sizes@, summaries@[j].0@) <= usize::MAX
                    },
        {
            let name = &summaries[i].0;
            assert(summaries@[i as int].0@ == name@);
            if summaries[i].1.total_size_rounded > usize::MAX as u64 {
                return false;
            }
            proof {
                lemma_summaries_have_sizes(summaries@, i as int);
            }
            if let Some(size) = sizes.get(&name.name) {
                let count: u64 = self.count_user_indexes(name);
                let wide_size: u128 = *size as u128;
                let wide_count: u128 = count as u128;
                assert(wide_size * wide_count <= 0xffff_ffff_ffff_ffff * 0xffff_ffff_ffff_ffff)
                    by (nonlinear_arith)
                    requires
                        wide_size <= 0xffff_ffff_ffff_ffff,
                        wide_count <= 0xffff_ffff_ffff_ffff,
                ;
                if wide_size * wide_count > usize::MAX as u128 {
                    return false;
                }
            }
        }
        true
    }

    /// The size of the documents and of the indexes on the tables of each name.
    pub fn user_document_and_index_storage(
        &self,
        summaries: &Vec<(TableName, TableSummary)>,
    ) -> (storage: NameMap<(usize, usize)>)
        requires
            self.can_tell_storage(summaries@),
        ensures
            self.is_user_storage(summaries@, storage@),
    {
        let ghost mapping = self.table_registry.table_mapping@;
        let ghost sizes = table_sizes(summaries@);
        let ghost all = self.index_registry.indexes@;
        let mut storage: NameMap<(usize, usize)> = NameMap::new();
        assert(summaries@.take(0) =~= Seq::empty());
        assert(storage@.dom() =~= table_sizes(summaries@.take(0)).dom());
        for i in 0..summaries.len()
            invariant
                self.can_tell_storage(summaries@),
                storage@.dom() == table_sizes(summaries@.take(i as int)).dom(),
                forall|name: Seq<char>| #[trigger]
                    storage@.contains_key(name) ==> {
                        &&& storage@[name].0 == table_sizes(summaries@.take(i as int))[name]
                        &&& storage@[name].1 == 0
                    },
        {
            let ghost longer = summaries@.take(i + 1);
            assert(longer.drop_last() =~= summaries@.take(i as int));
            assert(longer.last() == summaries@[i as int]);
            let size: usize = summaries[i].1.total_size_rounded as usize;
            storage.insert(summaries[i].0.name.clone(), (size, 0));
            assert(storage@.dom() =~= table_sizes(longer).dom());
        }
        assert(summaries@.take(summaries.len() as int) =~= summaries@);
        assert(all.take(0) =~= Seq::empty());
        assert forall|name: Seq<char>| #[trigger] storage@.contains_key(name) implies
            storage@[name].1 == sizes[name] * user_index_count(mapping, all.take(0), name) by {
            assert(sizes[name] * 0 == 0) by (nonlinear_arith);
        }
        for i in 0..self.index_registry.indexes.len()
            invariant
                self.can_tell_storage(summaries@),
                mapping == self.table_registry.table_mapping@,
                sizes == table_sizes(summaries@),
                all == self.index_registry.indexes@,
                storage@.dom() == sizes.dom(),
                forall|name: Seq<char>| #[trigger]
                    storage@.contains_key(name) ==> {
                        &&& storage@[name].0 == sizes[name]
                        &&& storage@[name].1 == sizes[name] * user_index_count(
                            mapping,
                            all.take(i as int),
                            name,
                        )
                    },
        {
            let ghost longer = all.take(i + 1);
            assert(longer.drop_last() =~= all.take(i as int));
            assert(longer.last() == all[i as int]);
            let index = &self.index_registry.indexes[i];
            if index.enabled && !index.system_owned {
                assert(self.index_registry.indexes@[i as int].enabled);
                if let Some(table_name) = self.table_registry.table_mapping.tablet_name(
                    index.name.table,
                ) {
                    let ghost name = table_name@;
                    if let Some(found) = storage.get(&table_name.name) {
                        let document_size: usize = found.0;
                        let index_size: usize = found.1;
                        proof {
                            lemma_index_count_grows(mapping, all, i + 1, name);
                            let count = user_index_count(mapping, all.take(i as int), name);
                            let total = user_index_count(mapping, all, name);
                            let size = sizes[name];
                            lemma_sizes_have_summaries(summaries@, name);
                            assert(size * count + size == size * (count + 1)) by (nonlinear_arith);
                            assert(size * (count + 1) <= size * total) by (nonlinear_arith)
                                requires
                                    count + 1 <= total,
                                    size >= 0,
                            ;
                        }
                        storage.insert(
                            table_name.name.clone(),
                            (document_size, index_size + document_size),
                        );
                        assert(storage@.dom() =~= sizes.dom());
                    }
                }
            }
        }
        assert(all.take(all.len() as int) =~= all);
        storage
    }
}

proof fn lemma_summaries_have_sizes(summaries: Seq<(TableName, TableSummary)>, i: int)
    requires
        0 <= i < summaries.len(),
    ensures
        table_sizes(summaries).contains_key(summaries[i].0@),
    decreases summaries.len(),
{
    if i < summaries.len() - 1 {
        let front = summaries.drop_last();
        lemma_summaries_have_sizes(front, i);
        assert(front[i] == summaries[i]);
    }
}

proof fn lemma_sizes_have_summaries(summaries: Seq<(TableName, TableSummary)>, name: Seq<char>)
    requires
        table_sizes(summaries).contains_key(name),
    ensures
        exists|i: int| 0 <= i < summaries.len() && (#[trigger] summaries[i]).0@ == name,
    decreases summaries.len(),
{
    let front = summaries.drop_last();
    let last = summaries.len() - 1;
    if summaries[last].0@ != name {
        lemma_sizes_have_summaries(front, name);
        let i = choose|i: int| 0 <= i < front.len() && (#[trigger] front[i]).0@ == name;
        assert(summaries[i].0@ == name);
    }
}

} // verus!
