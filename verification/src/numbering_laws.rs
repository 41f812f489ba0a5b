//! Which numbers the tables of a fresh database take, and what stands in the way.

use crate::errors::DatabaseError;
use crate::ids::{InternalId, TableId, TableIdAndTableNumber, TableNumber};
use crate::initialize::{
    last_writes, write_views, BootstrapConfig, BootstrapPlan, Initializer, SystemIndex, WriteView,
};
use crate::initialize_laws::{distinct_table_ids, law_system_tables_are_told_apart};
use crate::plan_laws::{
    is_in_table, lemma_system_indexes, name_of, number_of, passed, system_indexes,
};
use vstd::prelude::*;

verus! {

/// Whether a table can take its number: it has one, none of the tables before it has the
/// same one, and it is neither kept for tables of old nor for users.
pub open spec fn can_take_number(config: BootstrapConfig, i: int) -> bool {
    &&& config.table_numbers@.contains_key(name_of(config, i))
    &&& forall|j: int| 0 <= j < i ==> #[trigger] number_of(config, j) != number_of(config, i)
    &&& config.num_reserved_legacy_tables.0 <= number_of(config, i).0
    &&& number_of(config, i).0 < config.num_reserved_system_tables.0
}

proof fn lemma_numbers(config: BootstrapConfig, ids: Seq<InternalId>, n: int)
    requires
        0 <= n <= config.len(),
    ensures
        forall|number: TableNumber|
            #![trigger config.mapping(ids, n).numbers.contains_key(number)]
            config.mapping(ids, n).numbers.contains_key(number) ==> {
                &&& exists|j: int| 0 <= j < n && #[trigger] number_of(config, j) == number
                &&& config.mapping(ids, n).tablets.contains_key(
                    config.mapping(ids, n).numbers[number],
                )
            },
        forall|j: int|
            0 <= j < n ==> config.mapping(ids, n).numbers.contains_key(
                #[trigger] number_of(config, j),
            ),
    decreases n,
{
    if n > 0 {
        lemma_numbers(config, ids, n - 1);
        let before = config.mapping(ids, n - 1);
        let after = config.mapping(ids, n);
        assert(config.number(n - 1) == number_of(config, n - 1));
        assert(after == before.insert(
            TableId(ids[n - 1]),
            config.number(n - 1),
            config.name(n - 1),
        ));
        assert forall|number: TableNumber|
            #![trigger after.numbers.contains_key(number)]
            after.numbers.contains_key(number) implies {
            &&& exists|j: int| 0 <= j < n && #[trigger] number_of(config, j) == number
            &&& after.tablets.contains_key(after.numbers[number])
        } by {
            if number == number_of(config, n - 1) {
                assert(after.numbers[number] == TableId(ids[n - 1]));
            } else {
                assert(before.numbers.contains_key(number));
                let j = choose|j: int| 0 <= j < n - 1 && #[trigger] number_of(config, j) == number;
                assert(number_of(config, j) == number);
            }
        }
        assert forall|j: int| 0 <= j < n implies after.numbers.contains_key(
            #[trigger] number_of(config, j),
        ) by {
            if j < n - 1 {
                assert(before.numbers.contains_key(number_of(config, j)));
            }
        }
    }
}

proof fn lemma_accepts(config: BootstrapConfig, ids: Seq<InternalId>, i: int)
    requires
        0 <= i < config.len(),
    ensures
        config.accepts(ids, i) <==> can_take_number(config, i),
        config.number(i) == number_of(config, i),
        config.name(i) == name_of(config, i),
        config.mapping(ids, i).name_by_number(config.number(i)) is Some <==> exists|j: int|
            0 <= j < i && #[trigger] number_of(config, j) == number_of(config, i),
{
    lemma_numbers(config, ids, i);
    assert(config.number(i) == number_of(config, i));
    let mapping = config.mapping(ids, i);
    if mapping.numbers.contains_key(config.number(i)) {
        assert(mapping.tablets.contains_key(mapping.numbers[config.number(i)]));
    }
    if exists|j: int| 0 <= j < i && #[trigger] number_of(config, j) == number_of(config, i) {
        let j = choose|j: int|
            0 <= j < i && #[trigger] number_of(config, j) == number_of(config, i);
        assert(mapping.numbers.contains_key(number_of(config, j)));
    }
}

/// The tables are accepted if and only if each of them can take its number, whatever ids
/// are drawn for them.
pub proof fn law_tables_are_accepted_with_their_numbers(
    config: BootstrapConfig,
    ids: Seq<InternalId>,
)
    ensures
        config.accepts_all(ids) <==> forall|i: int|
            0 <= i < config.system_tables@.len() ==> #[trigger] can_take_number(config, i),
{
    assert forall|i: int| 0 <= i < config.len() implies (#[trigger] config.accepts(ids, i)
        <==> can_take_number(config, i)) by {
        lemma_accepts(config, ids, i);
    }
    if forall|i: int| 0 <= i < config.len() ==> #[trigger] can_take_number(config, i) {
        assert forall|i: int| 0 <= i < config.len() implies #[trigger] config.accepts(ids, i) by {
            assert(can_take_number(config, i));
        }
    }
    if config.accepts_all(ids) {
        assert forall|i: int| 0 <= i < config.len() implies #[trigger] can_take_number(
            config,
            i,
        ) by {
            assert(config.accepts(ids, i));
        }
    }
}

/// Where a table cannot take its number, the error says why: that there is none for it,
/// that a table before it has the same one, that it is kept for users, or that it is kept
/// for tables of old. Of these the first one is told.
pub proof fn law_refused_numbers_are_told(
    config: BootstrapConfig,
    ids: Seq<InternalId>,
    i: int,
    error: DatabaseError,
)
    requires
        0 <= i < config.system_tables@.len(),
        !config.accepts(ids, i),
        config.refuses(ids, i, error),
    ensures
        !can_take_number(config, i),
        ({
            let name = name_of(config, i);
            let number = number_of(config, i);
            if !config.table_numbers@.contains_key(name) {
                &&& error matches DatabaseError::NoNumberForTable { table_name }
                &&& table_name.name@ == name
            } else if exists|j: int| 0 <= j < i && #[trigger] number_of(config, j) == number {
                &&& error matches DatabaseError::NumberTaken { table_number, table_name, existing }
                &&& table_number == number
                &&& table_name.name@ == name
            } else if number.0 >= config.num_reserved_system_tables.0 {
                &&& error matches DatabaseError::NumberReservedForUsers { table_number, table_name }
                &&& table_number == number
                &&& table_name.name@ == name
            } else {
                &&& number.0 < config.num_reserved_legacy_tables.0
                &&& error matches DatabaseError::NumberReservedForLegacy {
                    table_number,
                    table_name,
                }
                &&& table_number == number
                &&& table_name.name@ == name
            }
        }),
{
    lemma_accepts(config, ids, i);
}

proof fn lemma_number_leads_to_last(
    config: BootstrapConfig,
    ids: Seq<InternalId>,
    j: int,
    n: int,
)
    requires
        distinct_table_ids(config, ids),
        0 <= j < n <= config.len(),
        forall|k: int| j < k < n ==> #[trigger] number_of(config, k) != number_of(config, j),
    ensures
        config.mapping(ids, n).name_by_number(number_of(config, j)) == Some(name_of(config, j)),
        config.mapping(ids, n).numbers.contains_key(number_of(config, j)),
        config.mapping(ids, n).numbers[number_of(config, j)] == TableId(ids[j]),
    decreases n,
{
    let after = config.mapping(ids, n);
    let before = config.mapping(ids, n - 1);
    assert(config.number(n - 1) == number_of(config, n - 1));
    assert(config.name(n - 1) == name_of(config, n - 1));
    assert(after == before.insert(TableId(ids[n - 1]), config.number(n - 1), config.name(n - 1)));
    if j < n - 1 {
        lemma_number_leads_to_last(config, ids, j, n - 1);
        assert(number_of(config, n - 1) != number_of(config, j));
        assert(ids[j] != ids[n - 1]);
    }
}

/// A number that is taken is told with the last table before that has it.
pub proof fn law_taken_numbers_are_told_with_their_table(
    config: BootstrapConfig,
    ids: Seq<InternalId>,
    i: int,
    j: int,
    error: DatabaseError,
)
    requires
        distinct_table_ids(config, ids),
        0 <= j < i < config.system_tables@.len(),
        config.table_numbers@.contains_key(name_of(config, i)),
        number_of(config, j) == number_of(config, i),
        forall|k: int| j < k < i ==> #[trigger] number_of(config, k) != number_of(config, i),
        config.refuses(ids, i, error),
    ensures
        error matches DatabaseError::NumberTaken { table_number, table_name, existing } && {
            &&& table_number == number_of(config, i)
            &&& table_name.name@ == name_of(config, i)
            &&& existing.name@ == name_of(config, j)
        },
{
    lemma_number_leads_to_last(config, ids, j, i);
    assert(config.number(i) == number_of(config, i));
}

/// A table is found under a name if and only if one of the tables has it.
proof fn lemma_found_if_named(config: BootstrapConfig, ids: Seq<InternalId>, name: Seq<char>)
    ensures
        config.mapping(ids, config.len() as int).id(name) is Some <==> exists|i: int|
            0 <= i < config.system_tables@.len() && #[trigger] name_of(config, i) == name,
{
    let n = config.len() as int;
    if config.mapping(ids, n).id(name) is Some {
        config.lemma_found_tables_are_there(ids, n, name);
        let i = choose|i: int| 0 <= i < n && #[trigger] config.name(i) == name;
        assert(name_of(config, i) == name);
    }
    if exists|i: int|
        0 <= i < config.system_tables@.len() && #[trigger] name_of(config, i) == name {
        let i = choose|i: int|
            0 <= i < config.system_tables@.len() && #[trigger] name_of(config, i) == name;
        config.lemma_tables_are_found(ids, n, i);
        assert(config.name(i) == name);
    }
}

/// The tables table and the index table are found if and only if they are among the
/// tables.
pub proof fn law_metadata_tables_are_among_the_tables(
    config: BootstrapConfig,
    ids: Seq<InternalId>,
)
    ensures
        config.tables_table_id(ids) is Some <==> exists|i: int|
            0 <= i < config.system_tables@.len() && #[trigger] name_of(config, i)
                == config.tables_table.name@,
        config.index_table_id(ids) is Some <==> exists|i: int|
            0 <= i < config.system_tables@.len() && #[trigger] name_of(config, i)
                == config.index_table.name@,
{
    lemma_found_if_named(config, ids, config.tables_table.name@);
    lemma_found_if_named(config, ids, config.index_table.name@);
}

/// Whether a system index is on one of the tables.
pub open spec fn is_on_a_table(config: BootstrapConfig, index: SystemIndex) -> bool {
    exists|i: int|
        0 <= i < config.system_tables@.len() && #[trigger] name_of(config, i)
            == index.table_name.name@
}

/// Documents are laid out only where every system index is on one of the tables. Otherwise
/// the table of the first one that is not is told.
pub proof fn law_indexes_without_table_are_told(
    config: BootstrapConfig,
    ids: Seq<InternalId>,
    plan: BootstrapPlan,
    error: DatabaseError,
    k: int,
)
    requires
        0 <= k < system_indexes(config).len(),
        forall|j: int|
            0 <= j < k ==> is_on_a_table(config, #[trigger] system_indexes(config)[j]),
        !is_on_a_table(config, system_indexes(config)[k]),
    ensures
        !config.is_plan(ids, plan),
        config.has_no_plan(ids, error) ==> error == (DatabaseError::TableNameNotFound {
            table_name: system_indexes(config)[k].table_name,
        }),
{
    lemma_system_indexes(config);
    assert forall|j: int| 0 <= j < k implies #[trigger] config.has_table_of(ids, j) by {
        assert(is_on_a_table(config, system_indexes(config)[j]));
        lemma_found_if_named(config, ids, system_indexes(config)[j].table_name@);
    }
    lemma_found_if_named(config, ids, system_indexes(config)[k].table_name@);
    assert(!config.has_table_of(ids, k));
    if config.has_no_plan(ids, error) {
        let m = choose|m: int|
            {
                &&& 0 <= m < config.all_indexes().len()
                &&& !#[trigger] config.has_table_of(ids, m)
                &&& forall|j: int| 0 <= j < m ==> #[trigger] config.has_table_of(ids, j)
                &&& error == (DatabaseError::TableNameNotFound {
                    table_name: config.all_indexes()[m].table_name,
                })
            };
        if m < k {
            assert(config.has_table_of(ids, m));
        }
        if k < m {
            assert(config.has_table_of(ids, k));
        }
    }
}

proof fn lemma_next_id(config: BootstrapConfig, x: int, n: int)
    requires
        0 <= n <= config.len(),
        0 <= x < config.len(),
        config.name(x) == config.index_table@,
        forall|i: int|
            0 <= i < config.len() && i != x ==> #[trigger] config.name(i) != config.name(x),
    ensures
        config.next_id(n) == config.len() + 2 * n - passed(x, n),
    decreases n,
{
    if n > 0 {
        lemma_next_id(config, x, n - 1);
        assert(config.name(n - 1) == config.name(n - 1));
    }
}

/// A fresh database takes an id for each of its tables, one for each index over document
/// ids, one for each index over creation times, which the index table, table `x`, does not
/// have, and one for each system index.
pub proof fn law_ids_are_counted(config: BootstrapConfig, x: int)
    requires
        0 <= x < config.system_tables@.len(),
        name_of(config, x) == config.index_table.name@,
        forall|i: int|
            0 <= i < config.system_tables@.len() && i != x ==> #[trigger] name_of(config, i)
                != config.index_table.name@,
    ensures
        config.spec_ids_needed() == 3 * config.system_tables@.len() - 1 + system_indexes(
            config,
        ).len(),
{
    lemma_system_indexes(config);
    assert(config.name(x) == name_of(config, x));
    assert forall|i: int| 0 <= i < config.len() && i != x implies #[trigger] config.name(i)
        != config.name(x) by {
        assert(name_of(config, i) != config.index_table.name@);
    }
    lemma_next_id(config, x, config.len() as int);
}

proof fn lemma_last_writes(
    writes: Seq<WriteView>,
    table: TableIdAndTableNumber,
    w: int,
)
    requires
        0 <= w < writes.len() <= usize::MAX,
        writes[w].id.table == table,
        forall|v: int|
            w < v < writes.len() ==> !((#[trigger] writes[v]).id.table == table
                && writes[v].id.internal_id == writes[w].id.internal_id),
    ensures
        last_writes(writes, table).contains_key(writes[w].id.internal_id.0),
        last_writes(writes, table)[writes[w].id.internal_id.0] == w,
    decreases writes.len(),
{
    if w < writes.len() - 1 {
        let front = writes.drop_last();
        assert forall|v: int| w < v < front.len() implies !((#[trigger] front[v]).id.table == table
            && front[v].id.internal_id == front[w].id.internal_id) by {
            assert(front[v] == writes[v]);
        }
        lemma_last_writes(front, table, w);
        assert(!(writes[writes.len() - 1].id.table == table && writes[writes.len()
            - 1].id.internal_id == writes[w].id.internal_id));
    }
}

proof fn lemma_no_other_writes(
    writes: Seq<WriteView>,
    table: TableIdAndTableNumber,
    id: u128,
)
    requires
        last_writes(writes, table).contains_key(id),
    ensures
        exists|w: int|
            0 <= w < writes.len() && (#[trigger] writes[w]).id.table == table
                && writes[w].id.internal_id.0 == id,
    decreases writes.len(),
{
    if writes.len() > 0 {
        let last = writes[writes.len() - 1];
        if !(last.id.table == table && last.id.internal_id.0 == id) {
            let front = writes.drop_last();
            lemma_no_other_writes(front, table, id);
            let w = choose|w: int|
                0 <= w < front.len() && (#[trigger] front[w]).id.table == table
                    && front[w].id.internal_id.0 == id;
            assert(writes[w] == front[w]);
        }
    }
}

/// The indexes are made from the documents of the index table, table `x`: each id leads to
/// the last of them that has it, and no other id to any.
pub proof fn law_index_documents_are_those_of_the_index_table(
    config: BootstrapConfig,
    ids: Seq<InternalId>,
    plan: BootstrapPlan,
    x: int,
    w: int,
)
    requires
        distinct_table_ids(config, ids),
        config.accepts_all(ids),
        0 <= x < config.system_tables@.len(),
        name_of(config, x) == config.index_table.name@,
        config.is_plan(ids, plan),
        0 <= w < plan.document_writes@.len() <= usize::MAX,
        is_in_table(config, ids, plan.document_writes@[w], x),
        forall|v: int|
            w < v < plan.document_writes@.len() ==> !(is_in_table(
                config,
                ids,
                #[trigger] plan.document_writes@[v],
                x,
            ) && plan.document_writes@[v].id.internal_id
                == plan.document_writes@[w].id.internal_id),
    ensures
        plan.index_documents@.contains_key(plan.document_writes@[w].id.internal_id.0),
        plan.index_documents@[plan.document_writes@[w].id.internal_id.0] == w,
        forall|id: u128| #[trigger]
            plan.index_documents@.contains_key(id) ==> exists|v: int|
                {
                    &&& 0 <= v < plan.document_writes@.len()
                    &&& is_in_table(config, ids, #[trigger] plan.document_writes@[v], x)
                    &&& plan.document_writes@[v].id.internal_id.0 == id
                },
{
    law_system_tables_are_told_apart(config, ids);
    assert(config.name(x) == name_of(config, x));
    let writes = plan.document_writes@;
    let views = write_views(writes);
    let table = config.table(ids, config.index_table@);
    assert(table.table_id == TableId(ids[x]) && table.table_number == number_of(config, x));
    assert forall|v: int| 0 <= v < views.len() implies ((#[trigger] views[v]).id.table == table
        <==> is_in_table(config, ids, writes[v], x)) by {
        assert(views[v] == writes[v].content());
    }
    assert forall|v: int| w < v < views.len() implies !((#[trigger] views[v]).id.table == table
        && views[v].id.internal_id == views[w].id.internal_id) by {
        assert(views[v] == writes[v].content());
        assert(!(is_in_table(config, ids, writes[v], x) && writes[v].id.internal_id
            == writes[w].id.internal_id));
    }
    lemma_last_writes(views, table, w);
    assert forall|id: u128| #[trigger] plan.index_documents@.contains_key(id) implies exists|
        v: int,
    |
        {
            &&& 0 <= v < plan.document_writes@.len()
            &&& is_in_table(config, ids, #[trigger] plan.document_writes@[v], x)
            &&& plan.document_writes@[v].id.internal_id.0 == id
        } by {
        lemma_no_other_writes(views, table, id);
        let v = choose|v: int|
            0 <= v < views.len() && (#[trigger] views[v]).id.table == table
                && views[v].id.internal_id.0 == id;
        assert(is_in_table(config, ids, plan.document_writes@[v], x));
    }
}

/// Documents are laid out wherever every system index is on one of the tables.
pub proof fn law_laying_out_documents(
    initializer: Initializer,
    result: Result<BootstrapPlan, DatabaseError>,
)
    requires
        call_ensures(Initializer::plan, (initializer,), result),
        forall|k: int|
            0 <= k < system_indexes(initializer.config()).len() ==> is_on_a_table(
                initializer.config(),
                #[trigger] system_indexes(initializer.config())[k],
            ),
    ensures
        result is Ok,
{
    let config = initializer.config();
    let ids = initializer.ids();
    lemma_system_indexes(config);
    assert forall|k: int|
        0 <= k < config.all_indexes().len() implies #[trigger] config.has_table_of(ids, k) by {
        assert(is_on_a_table(config, system_indexes(config)[k]));
        lemma_found_if_named(config, ids, system_indexes(config)[k].table_name@);
    }
}

/// A fresh database can be written if and only if every table can take its number and both
/// metadata tables are among the tables, whatever ids are drawn.
pub proof fn law_starting_to_write(
    config: BootstrapConfig,
    ids: Vec<InternalId>,
    result: Result<Initializer, DatabaseError>,
)
    requires
        call_ensures(Initializer::start, (config, ids), result),
    ensures
        result is Ok <==> {
            &&& forall|i: int|
                0 <= i < config.system_tables@.len() ==> #[trigger] can_take_number(config, i)
            &&& exists|i: int|
                0 <= i < config.system_tables@.len() && #[trigger] name_of(config, i)
                    == config.tables_table.name@
            &&& exists|i: int|
                0 <= i < config.system_tables@.len() && #[trigger] name_of(config, i)
                    == config.index_table.name@
        },
        result matches Ok(initializer) ==> initializer.config() == config && initializer.ids()
            == ids@,
{
    law_tables_are_accepted_with_their_numbers(config, ids@);
    law_metadata_tables_are_among_the_tables(config, ids@);
}

} // verus!
