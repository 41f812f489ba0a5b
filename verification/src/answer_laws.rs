//! What the database answers, told by what it knows.

use crate::database::{
    name_views, Database, DatabaseLoad, FreshDatabase, LoadStart, MetadataScan,
    PendingTransaction, PersistenceVersion, SearchBootstrap, TableSummarySnapshot, TableWalk,
    TransactionStart, WrittenDatabase,
};
use crate::errors::{DatabaseError, ErrorMetadata};
use crate::identity::Identity;
use crate::ids::{InternalId, TableId, Timestamp};
use crate::initial_writes::Initialized;
use crate::lookup_laws::{
    is_first_in_use, law_first_index_in_use_is_found, law_metadata_is_read_through_its_index,
    law_no_index_is_found_where_none_is_in_use, law_tables_of_users_are_told, none_in_use,
};
use crate::meta_ids::{BootstrapMetadata, GlobalRead, MetaIdOutcome, MetaIdReader};
use crate::metadata::table_states;
use crate::name_map::NameMap;
use crate::names::TableName;
use crate::occ::WriteSource;
use crate::registry::{Snapshot, TableSummary};
use crate::retry::{Backoff, RetryLoop};
use crate::scan::{ByIdIndexes, TableScan};
use crate::search::VectorSearchStart;
use crate::shutdown::{ShutdownAction, ShutdownSignal};
use crate::snapshot::DatabaseSnapshot;
use crate::storage::VectorIndexSize;
use crate::storage_laws::{
    indexes_of_users, law_index_storage_is_the_documents_once_for_each_index,
    law_vector_storage_is_the_sum_of_all_indexes, sizes_on, sum_of,
};
use crate::table_mapping::TableMapping;
use crate::text_laws::law_names_are_told_in_order_of_characters;
use vstd::prelude::*;

verus! {

/// A transaction can begin at every timestamp up to the latest one, and at no later one. It
/// then reads at that timestamp, for the one who asked.
pub proof fn law_beginning_in_the_past<RT, S, U>(
    database: Database<RT, S>,
    identity: Identity,
    ts: Timestamp,
    usage: U,
    result: Result<PendingTransaction<U>, DatabaseError>,
)
    requires
        call_ensures(
            Database::<RT, S>::begin_with_ts::<U>,
            (&database, identity, ts, usage),
            result,
        ),
    ensures
        result is Ok <==> ts.0 <= database.latest_ts.0,
        result matches Ok(pending) ==> {
            &&& pending.identity == identity
            &&& pending.repeatable_ts == ts
            &&& pending.latest_ts == database.latest_ts
            &&& pending.usage_tracker == usage
        },
        result matches Err(error) ==> error == (DatabaseError::NotRepeatable {
            ts,
            latest: database.latest_ts,
        }),
{
}

/// Where it is not said when, a transaction begins at the latest timestamp.
pub proof fn law_beginning_now<RT, S, U>(
    database: Database<RT, S>,
    identity: Identity,
    usage: U,
    result: Result<PendingTransaction<U>, DatabaseError>,
)
    requires
        ({
            ||| call_ensures(Database::<RT, S>::begin::<U>, (&database, identity, usage), result)
            ||| call_ensures(
                Database::<RT, S>::begin_with_usage::<U>,
                (&database, identity, usage),
                result,
            )
            ||| {
                &&& call_ensures(Database::<RT, S>::begin_system::<U>, (&database, usage), result)
                &&& identity.system
                &&& !identity.admin
            }
        }),
    ensures
        result is Ok,
        result->Ok_0.identity == identity,
        result->Ok_0.repeatable_ts == database.latest_ts,
        result->Ok_0.latest_ts == database.latest_ts,
        result->Ok_0.usage_tracker == usage,
{
}

/// A transaction that begins reads what was found for it, and its documents are created
/// right after what can be read, or at the time of the clock where that is later.
pub proof fn law_beginning_with_a_snapshot<U>(
    pending: PendingTransaction<U>,
    snapshot: Snapshot,
    now: Timestamp,
    start: Result<TransactionStart<U>, DatabaseError>,
)
    requires
        pending.latest_ts.0 < 0x7fff_ffff_ffff_ffff,
        call_ensures(PendingTransaction::<U>::begin, (pending, Ok(snapshot), Ok(now)), start),
    ensures
        start is Ok,
        start->Ok_0.snapshot == snapshot,
        start->Ok_0.repeatable_ts == pending.repeatable_ts,
        start->Ok_0.identity == pending.identity,
        now.0 <= pending.latest_ts.0 ==> start->Ok_0.begin_ts.0 == pending.latest_ts.0 + 1,
        now.0 > pending.latest_ts.0 ==> start->Ok_0.begin_ts == now,
{
}

/// The names of tables are told to the privileged: each active table of users once, in the
/// order of characters.
pub proof fn law_telling_names_of_tables<RT, S>(
    database: Database<RT, S>,
    identity: Identity,
    result: Result<Vec<TableName>, DatabaseError>,
    name: Seq<char>,
)
    requires
        call_ensures(Database::<RT, S>::table_names, (&database, &identity), result),
    ensures
        result is Ok <==> identity.system || identity.admin,
        result matches Ok(names) ==> {
            let mapping = database.latest.table_registry.table_mapping@;
            (exists|i: int| 0 <= i < names@.len() && (#[trigger] names@[i]).name@ == name) <==> {
                &&& name.len() == 0 || name[0] != '_'
                &&& mapping.names.contains_key(name)
                &&& mapping.tablets.contains_key(mapping.names[name])
                &&& mapping.tablets[mapping.names[name]].1 == name
            }
        },
        result matches Err(error) ==> is_refusal(error, "table_names"@),
{
    if let Ok(names) = result {
        law_tables_of_users_are_told(database, name);
        let views = name_views(names@);
        if views.contains(name) {
            let i = choose|i: int| 0 <= i < views.len() && views[i] == name;
            assert(names@[i].name@ == name);
        }
        if exists|i: int| 0 <= i < names@.len() && (#[trigger] names@[i]).name@ == name {
            let i = choose|i: int| 0 <= i < names@.len() && (#[trigger] names@[i]).name@ == name;
            assert(views[i] == name);
        }
    }
}

/// Of two names that are told, of which the first `n` characters are the same, and not the
/// next ones, the first one has the smaller next character or none.
pub proof fn law_names_of_tables_are_in_order<RT, S>(
    database: Database<RT, S>,
    identity: Identity,
    names: Vec<TableName>,
    i: int,
    j: int,
    n: int,
)
    requires
        call_ensures(Database::<RT, S>::table_names, (&database, &identity), Ok(names)),
        0 <= i < j < names@.len(),
        0 <= n <= names@[i].name@.len(),
        n <= names@[j].name@.len(),
        forall|k: int| 0 <= k < n ==> #[trigger] names@[i].name@[k] == names@[j].name@[k],
        n < names@[i].name@.len() && n < names@[j].name@.len() ==> names@[i].name@[n]
            != names@[j].name@[n],
    ensures
        n < names@[j].name@.len(),
        n < names@[i].name@.len() ==> (names@[i].name@[n] as int) < (names@[j].name@[n] as int),
{
    let views = name_views(names@);
    assert(views[i] == names@[i].name@ && views[j] == names@[j].name@);
    law_names_are_told_in_order_of_characters(views, i, j, n);
}

/// The tables of a point of the history are read from the tables table of now, through the
/// first index over document ids that is in use on it.
pub proof fn law_reading_tables_of_the_past<RT, S>(
    database: Database<RT, S>,
    ts: Timestamp,
    tables_table: TableName,
    result: Result<MetadataScan, DatabaseError>,
    i: int,
)
    requires
        call_ensures(
            Database::<RT, S>::snapshot_table_mapping,
            (&database, ts, &tables_table),
            result,
        ),
        ({
            let mapping = database.latest.table_registry.table_mapping@;
            let registry = database.latest.index_registry;
            &&& mapping.names.contains_key(tables_table.name@)
            &&& mapping.tablets.contains_key(mapping.names[tables_table.name@])
            &&& is_first_in_use(registry, mapping.names[tables_table.name@], "by_id"@, i)
        }),
    ensures
        ({
            let mapping = database.latest.table_registry.table_mapping@;
            let registry = database.latest.index_registry;
            &&& result is Ok
            &&& result->Ok_0.scan.table_id == mapping.names[tables_table.name@]
            &&& result->Ok_0.scan.by_id == registry.indexes@[i].id
            &&& result->Ok_0.scan.iterator.snapshot_ts == ts
            &&& result->Ok_0.scan.iterator.page_size == 100
            &&& result->Ok_0.scan.cursor is None
            &&& result->Ok_0.quota.burst == 1000
        }),
{
    let mapping = database.latest.table_registry.table_mapping@;
    let registry = database.latest.index_registry;
    let table_id = mapping.names[tables_table.name@];
    law_first_index_in_use_is_found(registry, table_id, "by_id"@, i);
    law_metadata_is_read_through_its_index(result->Ok_0, table_id, ts, registry, i);
}

/// The indexes of a point of the history are read from the index table, through the first
/// index over document ids that is in use on it.
pub proof fn law_reading_indexes_of_the_past<RT, S>(
    database: Database<RT, S>,
    ts: Timestamp,
    result: Result<MetadataScan, DatabaseError>,
    i: int,
)
    requires
        call_ensures(Database::<RT, S>::snapshot_by_id_indexes, (&database, ts), result),
        ({
            let registry = database.latest.index_registry;
            is_first_in_use(registry, registry.index_table.table_id, "by_id"@, i)
        }),
    ensures
        ({
            let registry = database.latest.index_registry;
            &&& result is Ok
            &&& result->Ok_0.scan.table_id == registry.index_table.table_id
            &&& result->Ok_0.scan.by_id == registry.indexes@[i].id
            &&& result->Ok_0.scan.iterator.snapshot_ts == ts
            &&& result->Ok_0.scan.iterator.page_size == 100
            &&& result->Ok_0.scan.cursor is None
            &&& result->Ok_0.quota.burst == 1000
        }),
{
    let registry = database.latest.index_registry;
    let table_id = registry.index_table.table_id;
    law_first_index_in_use_is_found(registry, table_id, "by_id"@, i);
    law_metadata_is_read_through_its_index(result->Ok_0, table_id, ts, registry, i);
}

/// A table of a point of the history is walked under the name that it had then, through the
/// index over document ids that it had then.
pub proof fn law_walking_tables_of_the_past<RT, S>(
    database: Database<RT, S>,
    ts: Timestamp,
    name: TableName,
    mapping: TableMapping,
    by_id_indexes: ByIdIndexes,
    walk: Result<TableWalk, DatabaseError>,
    scan: Result<TableScan, DatabaseError>,
)
    requires
        call_ensures(
            Database::<RT, S>::iter_table_documents,
            (&database, ts, &name, &mapping),
            walk,
        ),
        walk matches Ok(w) ==> call_ensures(TableWalk::scan, (w, &by_id_indexes), scan),
    ensures
        walk is Ok <==> mapping@.names.contains_key(name.name@) && mapping@.tablets.contains_key(
            mapping@.names[name.name@],
        ),
        walk matches Err(error) ==> error == (DatabaseError::TableNameNotFound {
            table_name: name,
        }),
        walk is Ok ==> {
            let table_id = mapping@.names[name.name@];
            &&& scan is Ok <==> by_id_indexes@.contains_key(table_id)
            &&& scan matches Ok(s) ==> {
                &&& s.table_id == table_id
                &&& s.by_id == by_id_indexes@[table_id]
                &&& s.cursor is None
                &&& s.iterator.snapshot_ts == ts
                &&& s.iterator.page_size == 100
            }
            &&& scan matches Err(error) ==> error == (DatabaseError::ByIdNotFoundForName {
                table_name: name,
            })
        },
{
}

/// A load succeeds if and only if there are documents and the last of them is as old at the
/// end as at the beginning. The database is then the one that was loaded, and sizes of
/// tables are to be written down if and only if rows were read for them.
pub proof fn law_loading_a_database<RT, S>(
    written: WrittenDatabase,
    before: Option<Timestamp>,
    load: Result<DatabaseLoad, DatabaseError>,
    after: Option<Timestamp>,
    loaded: DatabaseSnapshot,
    runtime: RT,
    version: PersistenceVersion,
    result: Result<(Database<RT, S>, Option<TableSummarySnapshot>), DatabaseError>,
)
    requires
        call_ensures(WrittenDatabase::read, (written, before), load),
        load matches Ok(l) ==> call_ensures(
            DatabaseLoad::finish::<RT, S>,
            (l, after, loaded, runtime, version),
            result,
        ),
    ensures
        load is Ok <==> before is Some,
        load matches Err(error) ==> error is NoDocuments,
        load is Ok ==> {
            &&& result is Ok <==> after == before
            &&& result matches Ok((database, summaries)) ==> {
                &&& database.latest_ts == loaded.ts
                &&& database.latest == loaded.snapshot
                &&& database.bootstrap_metadata == loaded.bootstrap_metadata
                &&& database.write_commits_since_load == 0
                &&& database.search_storage is None
                &&& database.runtime == runtime
                &&& database.persistence_version == version
                &&& summaries is Some <==> loaded.summaries_num_rows > 0
                &&& summaries matches Some(s) ==> s.ts == loaded.ts && s.tables@
                    == loaded.snapshot.table_summaries.tables@
            }
            &&& result matches Err(error) ==> match after {
                None => error is NoDocuments,
                Some(at_end) => error == (DatabaseError::RaceWhileLoading {
                    at_start: before->0,
                    at_end,
                }),
            }
        },
{
}

/// A vector search uses the first index that is in use on the active table of its name, and
/// finds nothing where no table has the name.
pub proof fn law_beginning_a_vector_search<RT, S>(
    database: Database<RT, S>,
    snapshot: Snapshot,
    name: TableName,
    descriptor: String,
    result: Result<VectorSearchStart, DatabaseError>,
    i: int,
)
    requires
        call_ensures(
            Database::<RT, S>::vector_search_at_ts,
            (&database, &snapshot, &name, &descriptor),
            result,
        ),
    ensures
        ({
            let mapping = snapshot.table_registry.table_mapping@;
            let registry = snapshot.index_registry;
            let table_id = mapping.names[name.name@];
            let found = mapping.names.contains_key(name.name@);
            &&& !found ==> result is Ok && result->Ok_0 is NoTable
            &&& found && !mapping.tablets.contains_key(table_id) ==> {
                &&& result matches Err(DatabaseError::TableNameNotFound { table_name })
                &&& table_name.name@ == name.name@
            }
            &&& found && mapping.tablets.contains_key(table_id) && is_first_in_use(
                registry,
                table_id,
                descriptor@,
                i,
            ) ==> {
                &&& result matches Ok(VectorSearchStart::Search(search))
                &&& search.index_id == registry.indexes@[i].id
                &&& search.index_name.table == table_id
                &&& search.index_name.descriptor@ == descriptor@
                &&& search.table_number == mapping.tablets[table_id].0
                &&& search.table_name.name@ == mapping.tablets[table_id].1
            }
            &&& found && mapping.tablets.contains_key(table_id) && none_in_use(
                registry,
                table_id,
                descriptor@,
            ) ==> {
                &&& result matches Err(
                    DatabaseError::IndexNotEnabled { table_id: t, descriptor: d },
                )
                &&& t == table_id
                &&& d@ == descriptor@
            }
        }),
{
    let mapping = snapshot.table_registry.table_mapping@;
    let registry = snapshot.index_registry;
    let table_id = mapping.names[name.name@];
    law_no_index_is_found_where_none_is_in_use(registry, table_id, descriptor@);
    if is_first_in_use(registry, table_id, descriptor@, i) {
        law_first_index_in_use_is_found(registry, table_id, descriptor@, i);
    }
}

/// Where a channel is there, a fatal error is broadcast on it. Otherwise the process panics
/// with it.
pub proof fn law_signalling_fatal_errors<S>(
    signal: ShutdownSignal<S>,
    error: &str,
    action: ShutdownAction<'_, S>,
)
    requires
        call_ensures(ShutdownSignal::<S>::signal, (&signal, error), action),
    ensures
        signal.shutdown_tx matches Some(tx) ==> action == ShutdownAction::Broadcast(&tx),
        signal.shutdown_tx is None ==> {
            &&& action matches ShutdownAction::Panic(msg)
            &&& msg@ == "Shutting down due to fatal error: "@ + error@
        },
{
}

/// Four globals that hold ids lead to the metadata, one after the other.
pub proof fn law_reading_four_globals(
    readers: Seq<MetaIdReader>,
    ids: Seq<InternalId>,
    outcome: MetaIdOutcome,
)
    requires
        readers.len() == 4,
        ids.len() == 4,
        call_ensures(DatabaseSnapshot::get_meta_ids, (), readers[0]),
        call_ensures(
            MetaIdReader::step,
            (readers[0], GlobalRead::Id(ids[0])),
            MetaIdOutcome::More(readers[1]),
        ),
        call_ensures(
            MetaIdReader::step,
            (readers[1], GlobalRead::Id(ids[1])),
            MetaIdOutcome::More(readers[2]),
        ),
        call_ensures(
            MetaIdReader::step,
            (readers[2], GlobalRead::Id(ids[2])),
            MetaIdOutcome::More(readers[3]),
        ),
        call_ensures(MetaIdReader::step, (readers[3], GlobalRead::Id(ids[3])), outcome),
    ensures
        outcome == MetaIdOutcome::Done(
            BootstrapMetadata {
                tables_by_id: ids[0],
                index_by_id: ids[1],
                tables_table_id: TableId(ids[2]),
                index_table_id: TableId(ids[3]),
            },
        ),
{
}

/// Whether an error refuses an operation to those who may not use it.
pub open spec fn is_refusal(error: DatabaseError, operation: Seq<char>) -> bool {
    &&& error matches DatabaseError::Metadata(ErrorMetadata::Forbidden { short_msg, msg })
    &&& short_msg@ == "Unauthorized"@
    &&& msg@ == "Operation "@ + operation + " not permitted"@
}

/// The storage of users is told to the privileged alone, as the latest snapshot tells it.
pub proof fn law_telling_storage_to_the_privileged<RT, S>(
    database: Database<RT, S>,
    identity: Identity,
    summaries: Vec<(TableName, TableSummary)>,
    result: Result<NameMap<(usize, usize)>, DatabaseError>,
    name: Seq<char>,
)
    requires
        call_ensures(
            Database::<RT, S>::get_user_document_and_index_storage,
            (&database, &identity, &summaries),
            result,
        ),
    ensures
        result is Ok <==> identity.system || identity.admin,
        result matches Err(error) ==> is_refusal(error, "get_user_document_storage"@),
        result matches Ok(storage) ==> storage@.contains_key(name) ==> storage@[name].1
            == storage@[name].0 * indexes_of_users(
            database.latest.table_registry.table_mapping@,
            database.latest.index_registry.indexes@,
            name,
        ).len(),
{
    if let Ok(storage) = result {
        if storage@.contains_key(name) {
            law_index_storage_is_the_documents_once_for_each_index(
                database.latest,
                summaries@,
                storage@,
                name,
            );
        }
    }
}

/// The storage of vector indexes is told to the privileged alone, as the latest snapshot
/// tells it.
pub proof fn law_telling_vector_storage_to_the_privileged<RT, S>(
    database: Database<RT, S>,
    identity: Identity,
    indexes: Vec<VectorIndexSize>,
    result: Result<NameMap<u64>, DatabaseError>,
    name: Seq<char>,
)
    requires
        call_ensures(
            Database::<RT, S>::get_vector_index_storage,
            (&database, &identity, indexes),
            result,
        ),
    ensures
        !(identity.system || identity.admin) ==> {
            &&& result is Err
            &&& is_refusal(result->Err_0, "get_vector_index_storage"@)
        },
        identity.system || identity.admin ==> (result matches Ok(sums) ==> sums@.contains_key(name)
            ==> sums@[name] == sum_of(
            sizes_on(database.latest.table_registry.table_mapping@, indexes@, name),
        )),
{
    if identity.system || identity.admin {
        if let Ok(sums) = result {
            law_vector_storage_is_the_sum_of_all_indexes(database.latest, indexes@, sums, name);
        }
    }
}

/// What the caller judges is tried again as often as the caller says, with the backoff that
/// the caller gives.
pub proof fn law_trying_as_the_caller_says<RT, S>(
    database: Database<RT, S>,
    identity: Identity,
    max_failures: u32,
    backoff: Backoff,
    write_source: WriteSource,
    retries: RetryLoop,
)
    requires
        call_ensures(
            Database::<RT, S>::execute_with_retries,
            (&database, identity, max_failures, backoff, write_source),
            retries,
        ),
    ensures
        retries.identity == identity,
        retries.max_failures == max_failures,
        retries.backoff == backoff,
        retries.write_source == write_source,
        retries.retried is Judged,
        retries.error is None,
{
}

/// A transaction cannot begin at a repeatable timestamp that is later than the latest one.
pub proof fn law_beginning_at_a_repeatable_timestamp<RT, S, U>(
    database: Database<RT, S>,
    identity: Identity,
    ts: Timestamp,
    usage: U,
    result: Result<PendingTransaction<U>, DatabaseError>,
)
    requires
        call_ensures(
            Database::<RT, S>::begin_with_repeatable_ts::<U>,
            (&database, identity, ts, usage),
            result,
        ),
    ensures
        result is Ok <==> ts.0 <= database.latest_ts.0,
        result matches Ok(pending) ==> {
            &&& pending.identity == identity
            &&& pending.repeatable_ts == ts
            &&& pending.latest_ts == database.latest_ts
            &&& pending.usage_tracker == usage
        },
        result matches Err(error) ==> error == (DatabaseError::BeyondNow {
            ts,
            latest: database.latest_ts,
        }),
{
}

/// A fresh database is written before it is read, and is not read where that failed. Any
/// other one is read at once.
pub proof fn law_beginning_to_load<RT, S>(
    is_fresh: bool,
    start: LoadStart,
    initialized: Result<Initialized, DatabaseError>,
    written: Result<WrittenDatabase, DatabaseError>,
)
    requires
        call_ensures(Database::<RT, S>::load, (is_fresh,), start),
        start matches LoadStart::Initialize(fresh) ==> call_ensures(
            FreshDatabase::initialized,
            (fresh, initialized),
            written,
        ),
    ensures
        start is Initialize <==> is_fresh,
        start is Read <==> !is_fresh,
        is_fresh ==> (written is Ok <==> initialized is Ok),
        is_fresh && initialized is Err ==> written->Err_0 == initialized->Err_0,
{
}

/// The worker that fills search indexes begins with the latest snapshot.
pub proof fn law_filling_search_indexes<'a, RT, S>(
    database: Database<RT, S>,
    bootstrap: SearchBootstrap<'a>,
)
    requires
        call_ensures(
            Database::<RT, S>::new_search_and_vector_bootstrap_worker,
            (&database,),
            bootstrap,
        ),
    ensures
        bootstrap.ts == database.latest_ts,
        *bootstrap.index_registry == database.latest.index_registry,
        *bootstrap.table_mapping == database.latest.table_registry.table_mapping,
{
}

/// A copy of a snapshot has the same tables, in the same states, of the same sizes, the same
/// indexes, and the same search indexes.
pub proof fn law_copying_a_snapshot(snapshot: DatabaseSnapshot, copy: DatabaseSnapshot)
    requires
        call_ensures(DatabaseSnapshot::clone, (&snapshot,), copy),
    ensures
        copy.ts == snapshot.ts,
        copy.bootstrap_metadata == snapshot.bootstrap_metadata,
        copy.summaries_num_rows == snapshot.summaries_num_rows,
        ({
            let tables = snapshot.snapshot.table_registry;
            let others = copy.snapshot.table_registry;
            &&& others.table_mapping@.tablets == tables.table_mapping@.tablets
            &&& others.table_mapping@.names == tables.table_mapping@.names
            &&& others.table_mapping@.numbers == tables.table_mapping@.numbers
            &&& table_states(others.table_states) == table_states(tables.table_states)
            &&& others.virtual_table_mapping@.names == tables.virtual_table_mapping@.names
            &&& others.virtual_table_mapping@.numbers == tables.virtual_table_mapping@.numbers
        }),
        copy.snapshot.table_summaries.tables@ == snapshot.snapshot.table_summaries.tables@,
        copy.snapshot.index_registry.index_table == snapshot.snapshot.index_registry.index_table,
        copy.snapshot.index_registry.indexes@ == snapshot.snapshot.index_registry.indexes@,
        copy.snapshot.search_indexes == snapshot.snapshot.search_indexes,
{
}

} // verus!
