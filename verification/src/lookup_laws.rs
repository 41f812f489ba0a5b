//! What is found under which name.

use crate::database::{Database, MetadataScan};
use crate::errors::DatabaseError;
use crate::ids::{IndexId, TableId, TableIdAndTableNumber, TableNumber, Timestamp};
use crate::registry::{
    breaks_invariants, indexes_have_tables, is_first_unscannable, is_first_without_table,
    lemma_first_that, tables_can_be_scanned, IndexEntry, IndexRegistry,
};
use crate::table_mapping::MappingView;
use vstd::prelude::*;

verus! {

/// Whether an index is enabled, on this table, and has this descriptor.
pub open spec fn is_in_use(index: IndexEntry, table: TableId, descriptor: Seq<char>) -> bool {
    &&& index.enabled
    &&& index.name.table == table
    &&& index.name.descriptor@ == descriptor
}

/// Whether index `i` is the first one of a registry that is in use under a name.
pub open spec fn is_first_in_use(
    registry: IndexRegistry,
    table: TableId,
    descriptor: Seq<char>,
    i: int,
) -> bool {
    &&& 0 <= i < registry.indexes@.len()
    &&& is_in_use(registry.indexes@[i], table, descriptor)
    &&& forall|j: int|
        0 <= j < i ==> !is_in_use(#[trigger] registry.indexes@[j], table, descriptor)
}

/// Whether no index of a registry is in use under a name.
pub open spec fn none_in_use(
    registry: IndexRegistry,
    table: TableId,
    descriptor: Seq<char>,
) -> bool {
    forall|j: int|
        0 <= j < registry.indexes@.len() ==> !is_in_use(
            #[trigger] registry.indexes@[j],
            table,
            descriptor,
        )
}

/// The first index that is in use under a name is the one that is found.
pub proof fn law_first_index_in_use_is_found(
    registry: IndexRegistry,
    table: TableId,
    descriptor: Seq<char>,
    i: int,
)
    requires
        is_first_in_use(registry, table, descriptor, i),
    ensures
        registry.has_enabled(table, descriptor),
        registry.enabled(table, descriptor) == registry.indexes@[i],
{
    let wanted = |index: IndexEntry| index.is_enabled_as(table, descriptor);
    assert(registry.indexes@[i].is_enabled_as(table, descriptor));
    assert forall|j: int| 0 <= j < i implies !wanted(#[trigger] registry.indexes@[j]) by {
        assert(!is_in_use(registry.indexes@[j], table, descriptor));
    }
    lemma_first_that(registry.indexes@, wanted, i);
}

/// An index is found under a name if and only if one is in use under it.
pub proof fn law_no_index_is_found_where_none_is_in_use(
    registry: IndexRegistry,
    table: TableId,
    descriptor: Seq<char>,
)
    ensures
        registry.has_enabled(table, descriptor) <==> !none_in_use(registry, table, descriptor),
{
    if registry.has_enabled(table, descriptor) {
        let i = choose|i: int|
            0 <= i < registry.indexes@.len() && (
            #[trigger] registry.indexes@[i]).is_enabled_as(table, descriptor);
        assert(is_in_use(registry.indexes@[i], table, descriptor));
    }
    if !none_in_use(registry, table, descriptor) {
        let j = choose|j: int|
            0 <= j < registry.indexes@.len() && is_in_use(
                #[trigger] registry.indexes@[j],
                table,
                descriptor,
            );
        assert(registry.indexes@[j].is_enabled_as(table, descriptor));
    }
}

/// The first enabled index with an id is the one that is found under the id.
pub proof fn law_first_enabled_index_with_id_is_found(registry: IndexRegistry, id: IndexId, i: int)
    requires
        0 <= i < registry.indexes@.len(),
        registry.indexes@[i].enabled,
        registry.indexes@[i].id == id,
        forall|j: int|
            0 <= j < i ==> !((#[trigger] registry.indexes@[j]).enabled && registry.indexes@[j].id
                == id),
    ensures
        registry.has_enabled_id(id),
        registry.enabled_id(id) == registry.indexes@[i],
{
    let wanted = |index: IndexEntry| index.enabled && index.id == id;
    assert forall|j: int| 0 <= j < i implies !wanted(#[trigger] registry.indexes@[j]) by {}
    lemma_first_that(registry.indexes@, wanted, i);
}

/// No index is found under an id that no enabled index has.
pub proof fn law_no_index_is_found_under_other_ids(registry: IndexRegistry, id: IndexId)
    requires
        forall|j: int|
            0 <= j < registry.indexes@.len() && (#[trigger] registry.indexes@[j]).enabled
                ==> registry.indexes@[j].id != id,
    ensures
        !registry.has_enabled_id(id),
{
}

/// A name leads to a table if and only if it is the active table of that name, and to no
/// other number than the table's own.
pub proof fn law_names_lead_to_tables(
    mapping: MappingView,
    name: Seq<char>,
    table: TableIdAndTableNumber,
)
    ensures
        mapping.id(name) == Some(table) <==> {
            &&& mapping.names.contains_key(name)
            &&& mapping.names[name] == table.table_id
            &&& mapping.tablets.contains_key(table.table_id)
            &&& mapping.tablets[table.table_id].0 == table.table_number
        },
{
}

/// A number leads to a name if and only if the active table of that number has it.
pub proof fn law_numbers_lead_to_names(mapping: MappingView, number: TableNumber, name: Seq<char>)
    ensures
        mapping.name_by_number(number) == Some(name) <==> {
            &&& mapping.numbers.contains_key(number)
            &&& mapping.tablets.contains_key(mapping.numbers[number])
            &&& mapping.tablets[mapping.numbers[number]].1 == name
        },
{
}

/// A table is told to users under its name if and only if the name leads to it and does
/// not begin with an underscore.
pub proof fn law_tables_of_users_are_told<RT, S>(database: Database<RT, S>, name: Seq<char>)
    ensures
        ({
            let mapping = database.latest.table_registry.table_mapping@;
            database.has_user_table(name) <==> {
                &&& name.len() == 0 || name[0] != '_'
                &&& mapping.names.contains_key(name)
                &&& mapping.tablets.contains_key(mapping.names[name])
                &&& mapping.tablets[mapping.names[name]].1 == name
            }
        }),
{
    let mapping = database.latest.table_registry.table_mapping@;
    if mapping.names.contains_key(name) && mapping.tablets.contains_key(mapping.names[name])
        && mapping.tablets[mapping.names[name]].1 == name && (name.len() == 0 || name[0] != '_') {
        assert(database.is_user_table(mapping.names[name]));
    }
}

/// The metadata of a point of the history is read through the first index over document
/// ids that is in use on its table now, a hundred documents at a time, from the beginning,
/// and no faster than a thousand documents a second.
pub proof fn law_metadata_is_read_through_its_index(
    scan: MetadataScan,
    table_id: TableId,
    ts: Timestamp,
    registry: IndexRegistry,
    i: int,
)
    requires
        scan.is_scan_of(table_id, ts, registry),
        is_first_in_use(registry, table_id, "by_id"@, i),
    ensures
        scan.scan.table_id == table_id,
        scan.scan.by_id == registry.indexes@[i].id,
        scan.scan.cursor is None,
        scan.scan.iterator.snapshot_ts == ts,
        scan.scan.iterator.page_size == 100,
        scan.quota.burst == 1000,
        scan.quota.replenish_nanos == 1_000_000,
{
    law_first_index_in_use_is_found(registry, table_id, "by_id"@, i);
}

/// Tables and indexes are as they should be if and only if every table has an index over
/// document ids in use and no index is on a table that does not exist.
pub proof fn law_tables_and_indexes_fit_together(mapping: MappingView, registry: IndexRegistry)
    ensures
        tables_can_be_scanned(mapping, registry) <==> forall|id: TableId| #[trigger]
            mapping.tablets.contains_key(id) ==> !none_in_use(registry, id, "by_id"@),
        indexes_have_tables(mapping, registry) <==> forall|i: int|
            0 <= i < registry.indexes@.len() ==> mapping.tablets.contains_key(
                (#[trigger] registry.indexes@[i]).name.table,
            ),
{
    assert forall|id: TableId| #[trigger] mapping.tablets.contains_key(id) implies (
    registry.has_enabled(id, "by_id"@) <==> !none_in_use(registry, id, "by_id"@)) by {
        law_no_index_is_found_where_none_is_in_use(registry, id, "by_id"@);
    }
}

/// Where tables and indexes do not fit together, the error names a table without an index
/// over document ids in use, and no table with a smaller id lacks one; if no table lacks
/// one, it names the table of an index, which does not exist, and those of all indexes
/// before it do.
pub proof fn law_first_misfit_is_told(
    mapping: MappingView,
    registry: IndexRegistry,
    error: DatabaseError,
)
    requires
        breaks_invariants(mapping, registry, error),
    ensures
        error is MissingByIdIndex || error is MissingTable,
        error matches DatabaseError::MissingByIdIndex { table_name } ==> exists|id: TableId|
            {
                &&& #[trigger] mapping.tablets.contains_key(id)
                &&& mapping.tablets[id].1 == table_name@
                &&& none_in_use(registry, id, "by_id"@)
                &&& forall|other: TableId| #[trigger]
                    mapping.tablets.contains_key(other) && other.0.0 < id.0.0 ==> !none_in_use(
                        registry,
                        other,
                        "by_id"@,
                    )
            },
        error matches DatabaseError::MissingTable { table_id } ==> {
            &&& forall|id: TableId| #[trigger]
                mapping.tablets.contains_key(id) ==> !none_in_use(registry, id, "by_id"@)
            &&& exists|i: int|
                {
                    &&& 0 <= i < registry.indexes@.len()
                    &&& (#[trigger] registry.indexes@[i]).name.table == table_id
                    &&& !mapping.tablets.contains_key(table_id)
                    &&& forall|j: int|
                        0 <= j < i ==> mapping.tablets.contains_key(
                            (#[trigger] registry.indexes@[j]).name.table,
                        )
                }
        },
{
    assert forall|id: TableId| #[trigger] mapping.tablets.contains_key(id) implies (
    registry.has_enabled(id, "by_id"@) <==> !none_in_use(registry, id, "by_id"@)) by {
        law_no_index_is_found_where_none_is_in_use(registry, id, "by_id"@);
    }
    if !tables_can_be_scanned(mapping, registry) {
        let id = choose|id: TableId|
            {
                &&& #[trigger] is_first_unscannable(mapping, registry, id)
                &&& error matches DatabaseError::MissingByIdIndex { table_name }
                &&& table_name@ == mapping.tablets[id].1
            };
        assert(mapping.tablets.contains_key(id));
    } else {
        let i = choose|i: int|
            {
                &&& #[trigger] is_first_without_table(mapping, registry, i)
                &&& error == (DatabaseError::MissingTable {
                    table_id: registry.indexes@[i].name.table,
                })
            };
        assert(registry.indexes@[i].name.table == error->MissingTable_table_id);
    }
}

} // verus!
