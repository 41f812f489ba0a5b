//! What the documents of a fresh database are, one by one.

use crate::ids::{InternalId, TableId, TableNumber};
use crate::initialize::{
    write_views, BootstrapConfig, BootstrapDocument, BootstrapPlan, DocumentWrite, IndexedFields,
    SystemIndex, SystemTable,
};
use crate::initialize_laws::{distinct_table_ids, law_system_tables_are_told_apart};
use crate::names::{BY_CREATION_TIME, BY_ID};
use vstd::prelude::*;

verus! {

/// The name of a system table.
pub open spec fn name_of(config: BootstrapConfig, i: int) -> Seq<char> {
    config.system_tables@[i].table_name.name@
}

/// The number that a system table takes.
pub open spec fn number_of(config: BootstrapConfig, i: int) -> TableNumber {
    config.table_numbers@[name_of(config, i)]
}

/// Whether a write is a document about table `i`.
pub open spec fn writes_table(
    config: BootstrapConfig,
    ids: Seq<InternalId>,
    write: DocumentWrite,
    i: int,
) -> bool {
    &&& write.id.internal_id == ids[i]
    &&& write.document matches BootstrapDocument::Table(table)
    &&& table.name.name@ == name_of(config, i)
    &&& table.number == number_of(config, i)
    &&& table.state is Active
}

/// Whether a write is a document about an enabled index on table `i`.
pub open spec fn writes_index(
    ids: Seq<InternalId>,
    write: DocumentWrite,
    id: InternalId,
    i: int,
    descriptor: Seq<char>,
    fields: IndexedFields,
) -> bool {
    &&& write.id.internal_id == id
    &&& write.document matches BootstrapDocument::Index(index)
    &&& index.name.table == TableId(ids[i])
    &&& index.name.descriptor@ == descriptor
    &&& index.fields == fields
    &&& index.state is Enabled
}

/// Whether a write is a document of table `i`.
pub open spec fn is_in_table(
    config: BootstrapConfig,
    ids: Seq<InternalId>,
    write: DocumentWrite,
    i: int,
) -> bool {
    &&& write.id.table.table_id == TableId(ids[i])
    &&& write.id.table.table_number == number_of(config, i)
}

/// How many of the first `n` tables are the index table, which is table `x`.
pub open spec fn passed(x: int, n: int) -> int {
    if n > x {
        1
    } else {
        0
    }
}

proof fn lemma_counts(config: BootstrapConfig, ids: Seq<InternalId>, x: int, n: int)
    requires
        0 <= n <= config.len(),
        0 <= x < config.len(),
        config.name(x) == config.index_table@,
        forall|i: int|
            0 <= i < config.len() && i != x ==> #[trigger] config.name(i) != config.name(x),
    ensures
        config.next_id(n) == config.len() + 2 * n - passed(x, n),
        config.table_writes(ids, n).len() == 3 * n - passed(x, n),
    decreases n,
{
    if n > 0 {
        lemma_counts(config, ids, x, n - 1);
        assert(config.name(n - 1) == config.name(n - 1));
    }
}

proof fn lemma_table_writes_at(
    config: BootstrapConfig,
    ids: Seq<InternalId>,
    x: int,
    n: int,
    i: int,
)
    requires
        0 <= i < n <= config.len(),
        0 <= x < config.len(),
        config.name(x) == config.index_table@,
        forall|k: int|
            0 <= k < config.len() && k != x ==> #[trigger] config.name(k) != config.name(x),
    ensures
        ({
            let writes = config.table_writes(ids, n);
            let p = 3 * i - passed(x, i);
            let place = config.len() + 2 * i - passed(x, i);
            let table_id = config.table(ids, config.name(i)).table_id;
            &&& writes[p] == config.table_document(ids, i)
            &&& writes[p + 1] == config.index_document(
                ids,
                place,
                (table_id, BY_ID@),
                IndexedFields::ById,
            )
            &&& i != x ==> writes[p + 2] == config.index_document(
                ids,
                place + 1,
                (table_id, BY_CREATION_TIME@),
                IndexedFields::CreationTime,
            )
        }),
    decreases n,
{
    lemma_counts(config, ids, x, n - 1);
    lemma_counts(config, ids, x, n);
    assert(config.name(n - 1) == config.name(n - 1));
    if i < n - 1 {
        lemma_table_writes_at(config, ids, x, n - 1, i);
    }
}

proof fn lemma_all_indexes(config: BootstrapConfig, n: int)
    requires
        0 <= n <= config.len(),
    ensures
        config.indexes(n) == config.system_tables@.map_values(
            |table: SystemTable| table.indexes@,
        ).take(n).flatten_alt(),
    decreases n,
{
    let all = config.system_tables@.map_values(
        |table: SystemTable| table.indexes@,
    );
    if n > 0 {
        lemma_all_indexes(config, n - 1);
        assert(all.take(n).drop_last() =~= all.take(n - 1));
        assert(all.take(n).last() == config.system_tables@[n - 1].indexes@);
    }
}

/// The system indexes of all tables, one table after the other.
pub open spec fn system_indexes(config: BootstrapConfig) -> Seq<SystemIndex> {
    config.system_tables@.map_values(
        |table: SystemTable| table.indexes@,
    ).flatten()
}

proof fn lemma_written_table(
    config: BootstrapConfig,
    ids: Seq<InternalId>,
    write: DocumentWrite,
    y: int,
    i: int,
)
    requires
        distinct_table_ids(config, ids),
        config.accepts_all(ids),
        0 <= y < config.len(),
        name_of(config, y) == config.tables_table.name@,
        0 <= i < config.len(),
        write.content() == config.table_document(ids, i),
    ensures
        writes_table(config, ids, write, i),
        is_in_table(config, ids, write, y),
        write.ts.0 == 0,
{
    law_system_tables_are_told_apart(config, ids);
    assert(config.name(i) == name_of(config, i));
    assert(config.name(y) == name_of(config, y));
}

proof fn lemma_written_index(
    config: BootstrapConfig,
    ids: Seq<InternalId>,
    write: DocumentWrite,
    x: int,
    i: int,
    place: int,
    descriptor: Seq<char>,
    fields: IndexedFields,
)
    requires
        distinct_table_ids(config, ids),
        config.accepts_all(ids),
        0 <= x < config.len(),
        name_of(config, x) == config.index_table.name@,
        0 <= i < config.len(),
        write.content() == config.index_document(
            ids,
            place,
            (config.table(ids, config.name(i)).table_id, descriptor),
            fields,
        ),
    ensures
        writes_index(ids, write, ids[place], i, descriptor, fields),
        is_in_table(config, ids, write, x),
        write.ts.0 == 0,
{
    law_system_tables_are_told_apart(config, ids);
    assert(config.name(i) == name_of(config, i));
    assert(config.name(x) == name_of(config, x));
}

proof fn lemma_index_table_is_one(config: BootstrapConfig, ids: Seq<InternalId>, x: int)
    requires
        distinct_table_ids(config, ids),
        config.accepts_all(ids),
        0 <= x < config.len(),
    ensures
        forall|k: int|
            0 <= k < config.len() && k != x ==> #[trigger] config.name(k) != config.name(x),
{
    law_system_tables_are_told_apart(config, ids);
    assert forall|k: int| 0 <= k < config.len() && k != x implies #[trigger] config.name(k)
        != config.name(x) by {
        if k < x {
            assert(config.name(k) != config.name(x));
        } else {
            assert(config.name(x) != config.name(k));
        }
    }
}

/// A fresh database holds, for each of its tables in their order, a document about the
/// table, one about its index over document ids, and, but for the index table, one
/// about its index over creation times. All are at the first timestamp. Those about
/// tables are documents of the tables table, which is table `y`, the others of the
/// index table, which is table `x`. Each index has the next id that was drawn.
pub proof fn law_every_table_is_written(
    config: BootstrapConfig,
    ids: Seq<InternalId>,
    plan: BootstrapPlan,
    x: int,
    y: int,
    i: int,
)
    requires
        distinct_table_ids(config, ids),
        config.accepts_all(ids),
        0 <= x < config.system_tables@.len(),
        0 <= y < config.system_tables@.len(),
        name_of(config, x) == config.index_table.name@,
        name_of(config, y) == config.tables_table.name@,
        0 <= i < config.system_tables@.len(),
        config.is_plan(ids, plan),
    ensures
        ({
            let writes = plan.document_writes@;
            let count = config.system_tables@.len();
            let p = 3 * i - passed(x, i);
            let place = count + 2 * i - passed(x, i);
            &&& writes.len() == 3 * count - 1 + system_indexes(config).len()
            &&& writes_table(config, ids, writes[p], i)
            &&& is_in_table(config, ids, writes[p], y)
            &&& writes[p].ts.0 == 0
            &&& writes_index(ids, writes[p + 1], ids[place], i, "by_id"@, IndexedFields::ById)
            &&& is_in_table(config, ids, writes[p + 1], x)
            &&& writes[p + 1].ts.0 == 0
            &&& i != x ==> {
                &&& writes_index(
                    ids,
                    writes[p + 2],
                    ids[place + 1],
                    i,
                    "by_creation_time"@,
                    IndexedFields::CreationTime,
                )
                &&& is_in_table(config, ids, writes[p + 2], x)
                &&& writes[p + 2].ts.0 == 0
            }
        }),
{
    let n = config.len() as int;
    let writes = plan.document_writes@;
    let views = write_views(writes);
    let p = 3 * i - passed(x, i);
    let place = config.len() + 2 * i - passed(x, i);
    assert(config.name(x) == name_of(config, x));
    lemma_index_table_is_one(config, ids, x);
    lemma_counts(config, ids, x, n);
    lemma_table_writes_at(config, ids, x, n, i);
    lemma_system_indexes(config);
    assert(views.len() == writes.len());
    assert(views[p] == config.writes(ids)[p]);
    assert(views[p + 1] == config.writes(ids)[p + 1]);
    lemma_written_table(config, ids, writes[p], y, i);
    lemma_written_index(config, ids, writes[p + 1], x, i, place, "by_id"@, IndexedFields::ById);
    if i != x {
        assert(views[p + 2] == config.writes(ids)[p + 2]);
        lemma_written_index(
            config,
            ids,
            writes[p + 2],
            x,
            i,
            place + 1,
            "by_creation_time"@,
            IndexedFields::CreationTime,
        );
    }
}

pub proof fn lemma_system_indexes(config: BootstrapConfig)
    ensures
        config.all_indexes() == system_indexes(config),
{
    let all = config.system_tables@.map_values(
        |table: SystemTable| table.indexes@,
    );
    lemma_all_indexes(config, config.len() as int);
    assert(all.take(config.len() as int) =~= all);
    all.lemma_flatten_and_flatten_alt_are_equivalent();
}

/// Behind the documents about tables, a fresh database holds one about each system
/// index, in the order of the tables and of their indexes: an enabled index on the
/// table that it is said to be on, under the next id that was drawn.
pub proof fn law_every_system_index_is_written(
    config: BootstrapConfig,
    ids: Seq<InternalId>,
    plan: BootstrapPlan,
    x: int,
    k: int,
)
    requires
        distinct_table_ids(config, ids),
        config.accepts_all(ids),
        0 <= x < config.system_tables@.len(),
        name_of(config, x) == config.index_table.name@,
        0 <= k < system_indexes(config).len(),
        config.is_plan(ids, plan),
    ensures
        ({
            let index = system_indexes(config)[k];
            let count = config.system_tables@.len();
            let write = plan.document_writes@[3 * count - 1 + k];
            &&& plan.document_writes@.len() == 3 * count - 1 + system_indexes(config).len()
            &&& is_in_table(config, ids, write, x)
            &&& write.ts.0 == 0
            &&& exists|i: int|
                {
                    &&& 0 <= i < count
                    &&& #[trigger] name_of(config, i) == index.table_name.name@
                    &&& writes_index(
                        ids,
                        write,
                        ids[3 * count - 1 + k],
                        i,
                        index.descriptor@,
                        index.fields,
                    )
                }
        }),
{
    let n = config.len() as int;
    let views = write_views(plan.document_writes@);
    let w = 3 * n - 1 + k;
    assert(config.name(x) == name_of(config, x));
    lemma_index_table_is_one(config, ids, x);
    lemma_counts(config, ids, x, n);
    lemma_system_indexes(config);
    assert(views.len() == plan.document_writes@.len());
    assert(views[w] == config.writes(ids)[w]);
    assert(views[w] == config.system_index_document(ids, k));
    assert(config.has_table_of(ids, k));
    let name = config.all_indexes()[k].table_name@;
    config.lemma_found_tables_are_there(ids, n, name);
    let i = choose|i: int| 0 <= i < n && #[trigger] config.name(i) == name;
    assert(name_of(config, i) == name);
    lemma_written_index(
        config,
        ids,
        plan.document_writes@[w],
        x,
        i,
        config.next_id(n) + k,
        system_indexes(config)[k].descriptor@,
        system_indexes(config)[k].fields,
    );
}

/// The documents of a fresh database are created one after the other, and are all
/// refused where an id was written before. The globals name the indexes over document
/// ids of the tables table and of the index table, which are tables `y` and `x`.
pub proof fn law_plan_names_its_metadata(
    config: BootstrapConfig,
    ids: Seq<InternalId>,
    plan: BootstrapPlan,
    x: int,
    y: int,
)
    requires
        distinct_table_ids(config, ids),
        config.accepts_all(ids),
        0 <= x < config.system_tables@.len(),
        0 <= y < config.system_tables@.len(),
        name_of(config, x) == config.index_table.name@,
        name_of(config, y) == config.tables_table.name@,
        config.is_plan(ids, plan),
    ensures
        plan.conflict_strategy is Error,
        forall|w: int|
            0 <= w < plan.document_writes@.len() ==> (
            #[trigger] plan.document_writes@[w]).creation_order == w,
        plan.index_by_id == ids[config.system_tables@.len() + 2 * x],
        plan.tables_by_id == ids[config.system_tables@.len() + 2 * y - passed(x, y)],
        config.table_globals(ids)[0].1 == ids[y],
        config.table_globals(ids)[1].1 == ids[x],
{
    assert(config.name(x) == name_of(config, x));
    assert(config.name(y) == name_of(config, y));
    law_system_tables_are_told_apart(config, ids);
    lemma_index_table_is_one(config, ids, x);
    lemma_index_table_is_one(config, ids, y);
    let i = choose|i: int|
        {
            &&& 0 <= i < config.len()
            &&& #[trigger] config.name(i) == config.index_table@
            &&& plan.index_by_id == ids[config.next_id(i)]
        };
    assert(i == x);
    lemma_counts(config, ids, x, x);
    let j = choose|j: int|
        {
            &&& 0 <= j < config.len()
            &&& #[trigger] config.name(j) == config.tables_table@
            &&& plan.tables_by_id == ids[config.next_id(j)]
        };
    assert(j == y);
    lemma_counts(config, ids, x, y);
}

} // verus!
