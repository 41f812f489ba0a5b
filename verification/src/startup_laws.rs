//! What is read and written while a database starts.

use crate::errors::{DatabaseError, PersistenceGlobalKey, ServiceError};
use crate::ids::{InternalId, TableId, TableIdAndTableNumber, Timestamp};
use crate::initial_writes::{initial_actions, InitialAction};
use crate::initialize::{BootstrapConfig, BootstrapPlan};
use crate::loading_laws::law_every_document_is_understood;
use crate::lookup_laws::{
    is_first_in_use, law_first_index_in_use_is_found, law_first_misfit_is_told,
    law_no_index_is_found_where_none_is_in_use, law_tables_and_indexes_fit_together, none_in_use,
};
use crate::meta_ids::{
    metadata_from, read_error, read_order, BootstrapMetadata, BootstrapMetadataProto, GlobalRead,
    WireId,
};
use crate::metadata::{
    all_ok, is_first_failure, is_loaded, ParsedDocument, ScanRow, TableState,
    VirtualTableMetadata,
};
use crate::registry::{breaks_invariants, IndexRegistry, TableRegistry};
use crate::snapshot::{begins_registry, TableRegistryLoad};
use crate::table_mapping::TableMapping;
use imbl::OrdMap;
use vstd::prelude::*;
use vstd::std_specs::convert::TryFromSpec;

verus! {

/// The order in which a fresh database is written: the globals with the ids of the tables
/// table and of the index table, the indexes with each document in turn, the globals with
/// the ids of the two tables' indexes over document ids, and at last the documents.
pub proof fn law_fresh_database_is_written_in_order(
    config: BootstrapConfig,
    ids: Seq<InternalId>,
    plan: BootstrapPlan,
    i: int,
)
    ensures
        ({
            let actions = initial_actions(config, ids, plan);
            let n = plan.document_writes@.len();
            &&& actions.len() == n + 6
            &&& actions[0] is WriteGlobal
            &&& actions[0]->WriteGlobal_0 is TablesTableId
            &&& actions[1] is WriteGlobal
            &&& actions[1]->WriteGlobal_0 is IndexTableId
            &&& actions[2] is BootstrapIndexes
            &&& 0 <= i < n ==> actions[3 + i] == InitialAction::UpdateIndexes(i as usize)
            &&& actions[3 + n as int] == InitialAction::WriteGlobal(
                PersistenceGlobalKey::TablesByIdIndex,
                plan.tables_by_id,
            )
            &&& actions[4 + n as int] == InitialAction::WriteGlobal(
                PersistenceGlobalKey::IndexByIdIndex,
                plan.index_by_id,
            )
            &&& actions[5 + n as int] is WriteDocuments
        }),
{
}

/// The ids that lead to the metadata are read one after the other: first those of the two
/// indexes over document ids, then those of the two tables, each time that of the tables
/// table first. Each of them is the id that its global holds.
pub proof fn law_metadata_ids_are_read_in_order(ids: Seq<InternalId>)
    ensures
        read_order().len() == 4,
        read_order()[0] is TablesByIdIndex,
        metadata_from(ids).tables_by_id == ids[0],
        read_order()[1] is IndexByIdIndex,
        metadata_from(ids).index_by_id == ids[1],
        read_order()[2] is TablesTableId,
        metadata_from(ids).tables_table_id.0 == ids[2],
        read_order()[3] is IndexTableId,
        metadata_from(ids).index_table_id.0 == ids[3],
{
}

/// A global is read in vain if and only if it holds no id, and the error names the global
/// unless the read itself failed.
pub proof fn law_globals_without_id_are_told(read: GlobalRead, key: PersistenceGlobalKey)
    ensures
        read_error(read, key) is None <==> read is Id,
        read is Missing ==> read_error(read, key) == Some(DatabaseError::MissingGlobal(key)),
        read is NotString ==> read_error(read, key) == Some(DatabaseError::GlobalNotString(key)),
        read is Malformed ==> read_error(read, key) == Some(DatabaseError::MalformedGlobal(key)),
        read matches GlobalRead::Failed(error) ==> read_error(read, key) == Some(
            DatabaseError::Service(error),
        ),
{
}

/// Whether a field of a message holds an id.
pub open spec fn holds_id(field: Option<WireId>) -> bool {
    field matches Some(WireId::Id(_))
}

/// Whether an error says that a field is missing, or that it holds something else than an
/// id, whichever is so.
pub open spec fn tells_field(
    result: Result<BootstrapMetadata, DatabaseError>,
    field: Option<WireId>,
    key: PersistenceGlobalKey,
) -> bool {
    &&& result is Err
    &&& field is None ==> result->Err_0 == DatabaseError::MissingField(key)
    &&& field is Some ==> result->Err_0 == DatabaseError::MalformedField(key)
}

/// A message gives ids if and only if all of its fields hold ids. Otherwise the first one
/// that does not is told.
pub proof fn law_first_field_without_id_is_told(proto: BootstrapMetadataProto)
    ensures
        ({
            let result = <BootstrapMetadata as TryFromSpec<BootstrapMetadataProto>>::try_from_spec(
                proto,
            );
            if !holds_id(proto.tables_by_id) {
                tells_field(result, proto.tables_by_id, PersistenceGlobalKey::TablesByIdIndex)
            } else if !holds_id(proto.index_by_id) {
                tells_field(result, proto.index_by_id, PersistenceGlobalKey::IndexByIdIndex)
            } else if !holds_id(proto.tables_table_id) {
                tells_field(result, proto.tables_table_id, PersistenceGlobalKey::TablesTableId)
            } else if !holds_id(proto.index_table_id) {
                tells_field(result, proto.index_table_id, PersistenceGlobalKey::IndexTableId)
            } else {
                &&& result is Ok
                &&& proto.tables_by_id == Some(WireId::Id(result->Ok_0.tables_by_id))
                &&& proto.index_by_id == Some(WireId::Id(result->Ok_0.index_by_id))
                &&& proto.tables_table_id == Some(WireId::Id(result->Ok_0.tables_table_id.0))
                &&& proto.index_table_id == Some(WireId::Id(result->Ok_0.index_table_id.0))
            }
        }),
{
}

/// The virtual tables are read at the time of the snapshot, through the first index over
/// document ids that is in use on the table that holds them, smallest ids first. The
/// tables and their states are kept as they are.
pub proof fn law_virtual_tables_are_read_through_their_index(
    ts: Timestamp,
    name: Seq<char>,
    mapping: TableMapping,
    states: OrdMap<u128, TableState>,
    registry: IndexRegistry,
    load: Result<TableRegistryLoad, DatabaseError>,
    table: TableIdAndTableNumber,
    i: int,
)
    requires
        begins_registry(ts, name, mapping, states, registry, load),
        mapping@.names.contains_key(name),
        mapping@.names[name] == table.table_id,
        mapping@.tablets.contains_key(table.table_id),
        mapping@.tablets[table.table_id].0 == table.table_number,
        is_first_in_use(registry, table.table_id, "by_id"@, i),
    ensures
        load is Ok,
        load->Ok_0.table_mapping == mapping,
        load->Ok_0.table_states == states,
        load->Ok_0.scan.ts == ts,
        load->Ok_0.scan.index_id == registry.indexes@[i].id,
        load->Ok_0.scan.table_id == table.table_id,
        load->Ok_0.scan.order is Asc,
{
    law_first_index_in_use_is_found(registry, table.table_id, "by_id"@, i);
    assert(mapping@.id(name) == Some(table));
}

/// The virtual tables cannot be read where the table that holds them is not there, or where
/// no index over document ids is in use on it.
pub proof fn law_virtual_tables_need_a_table_and_an_index(
    ts: Timestamp,
    name: Seq<char>,
    mapping: TableMapping,
    states: OrdMap<u128, TableState>,
    registry: IndexRegistry,
    load: Result<TableRegistryLoad, DatabaseError>,
)
    requires
        begins_registry(ts, name, mapping, states, registry, load),
    ensures
        !(mapping@.names.contains_key(name) && mapping@.tablets.contains_key(mapping@.names[name]))
            ==> {
            &&& load matches Err(DatabaseError::TableNameNotFound { table_name })
            &&& table_name.name@ == name
        },
        mapping@.names.contains_key(name) && mapping@.tablets.contains_key(mapping@.names[name])
            && none_in_use(registry, mapping@.names[name], "by_id"@) ==> {
            &&& load matches Err(DatabaseError::ByIdNotFound { table_id })
            &&& table_id == mapping@.names[name]
        },
{
    law_no_index_is_found_where_none_is_in_use(registry, mapping@.names[name], "by_id"@);
}

/// Tables that are loaded are those that were read, each with an index over document ids in
/// use, and no index is on any other table.
pub proof fn law_loaded_tables_are_those_that_were_read(
    load: TableRegistryLoad,
    rows: Seq<Result<ScanRow<Result<VirtualTableMetadata, ServiceError>>, ServiceError>>,
    registry: IndexRegistry,
    tables: TableRegistry,
)
    requires
        load.finishes(rows, registry, Ok(tables)),
    ensures
        tables.table_mapping == load.table_mapping,
        tables.table_states == load.table_states,
        exists|documents: Vec<ParsedDocument<VirtualTableMetadata>>| #[trigger]
            is_loaded(rows, Ok(documents)),
        forall|id: TableId| #[trigger]
            load.table_mapping@.tablets.contains_key(id) ==> !none_in_use(registry, id, "by_id"@),
        forall|i: int|
            0 <= i < registry.indexes@.len() ==> load.table_mapping@.tablets.contains_key(
                (#[trigger] registry.indexes@[i]).name.table,
            ),
{
    law_tables_and_indexes_fit_together(load.table_mapping@, registry);
}

/// Tables cannot be loaded where the virtual tables could not be read, or else where tables
/// and indexes do not fit together, and the error says which is so.
pub proof fn law_tables_that_are_not_loaded(
    load: TableRegistryLoad,
    rows: Vec<Result<ScanRow<Result<VirtualTableMetadata, ServiceError>>, ServiceError>>,
    registry: IndexRegistry,
    error: DatabaseError,
)
    requires
        call_ensures(TableRegistryLoad::finish, (load, rows, &registry), Err(error)),
    ensures
        (exists|i: int| 0 <= i < rows@.len() && #[trigger] rows@[i] is Err) ==> exists|i: int|
            {
                &&& 0 <= i < rows@.len()
                &&& #[trigger] rows@[i] is Err
                &&& error == DatabaseError::Service(rows@[i]->Err_0)
                &&& forall|j: int| 0 <= j < i ==> #[trigger] rows@[j] is Ok
            },
        error is Service || error is MissingByIdIndex || error is MissingTable,
{
    if exists|i: int| 0 <= i < rows@.len() && #[trigger] rows@[i] is Err {
        let k = choose|k: int| 0 <= k < rows@.len() && #[trigger] rows@[k] is Err;
        assert(!all_ok(rows@)) by {
            assert(!(rows@[k] is Ok));
        }
        let e = error->Service_0;
        assert(is_first_failure(rows@, e));
    }
}

/// Tables are loaded wherever all virtual tables are read and understood, no two under one id,
/// every table has an index over document ids in use, and no index is on any other table.
pub proof fn law_tables_that_are_loaded(
    load: TableRegistryLoad,
    rows: Vec<Result<ScanRow<Result<VirtualTableMetadata, ServiceError>>, ServiceError>>,
    registry: IndexRegistry,
    result: Result<TableRegistry, DatabaseError>,
)
    requires
        call_ensures(TableRegistryLoad::finish, (load, rows, &registry), result),
        forall|i: int| 0 <= i < rows@.len() ==> #[trigger] rows@[i] is Ok,
        forall|i: int| 0 <= i < rows@.len() ==> (#[trigger] rows@[i])->Ok_0.document is Ok,
        forall|i: int, j: int|
            0 <= i < j < rows@.len() ==> (#[trigger] rows@[i])->Ok_0.id != (
            #[trigger] rows@[j])->Ok_0.id,
        forall|id: TableId| #[trigger]
            load.table_mapping@.tablets.contains_key(id) ==> !none_in_use(registry, id, "by_id"@),
        forall|i: int|
            0 <= i < registry.indexes@.len() ==> load.table_mapping@.tablets.contains_key(
                (#[trigger] registry.indexes@[i]).name.table,
            ),
    ensures
        result is Ok,
{
    law_tables_and_indexes_fit_together(load.table_mapping@, registry);
    if let Err(error) = result {
        if error is Service {
            if is_loaded::<VirtualTableMetadata>(rows@, Err(error->Service_0)) {
                law_every_document_is_understood::<VirtualTableMetadata>(
                    rows@,
                    Err(error->Service_0),
                );
            }
        }
        if breaks_invariants(load.table_mapping@, registry, error) {
            law_first_misfit_is_told(load.table_mapping@, registry, error);
        }
    }
}

} // verus!
