//! What operations answer, told by what is handed to them.

use crate::attempt_laws::{
    is_followed, is_told_to_wait, law_first_attempt_without_follower_decides,
    law_search_waits_while_it_is_told_to, nanos_between,
};
use crate::database::MetadataScan;
use crate::deltas::{DeltaRow, DeltasRequest, DocumentDeltas};
use crate::deltas_laws::{in_order_of_time, none_later};
use crate::deltas_page_laws::{at_least_one, law_page_ends_at_the_first_limit, visible};
use crate::errors::{DatabaseError, ServiceError};
use crate::ids::{DocumentIdV6, Timestamp};
use crate::listing::{ListedRow, ListingRequest, ListingStart, SnapshotLister, SnapshotPage};
use crate::listing_page_laws::{law_page_holds_what_it_may, page_size};
use crate::loading_laws::{
    by_active_table, by_name, by_number, by_table, holds_last_words, index_by_table,
    law_every_document_is_loaded, law_last_document_about_a_table_counts,
    law_last_document_about_a_virtual_table_counts, law_last_document_about_an_active_table_counts,
    law_last_document_about_an_index_counts, state_by_id, virtual_by_name, virtual_by_number,
};
use crate::metadata::{
    ok_values, table_states, ParsedDocument, ScanRow, TableMetadata, TableState,
    VirtualTableMetadata,
};
use crate::name_map::NameMap;
use crate::names::{TableName, TabletIndexName};
use crate::registry::{Snapshot, TableSummary, VirtualTableMapping};
use crate::retry::{Attempt, RetryLoop, RetryReport, VectorSearchLoop};
use crate::scan::ByIdIndexes;
use crate::snapshot::DatabaseSnapshot;
use crate::storage::VectorIndexSize;
use crate::storage_laws::{
    indexes_of_users, law_document_storage_is_the_size_of_the_table,
    law_index_storage_is_the_documents_once_for_each_index,
    law_vector_storage_is_the_sum_of_all_indexes, sizes_on, sum_of,
};
use crate::table_mapping::TableMapping;
use imbl::OrdMap;
use std::collections::BTreeMap;
use vstd::prelude::*;

verus! {

/// A page of the change feed that is read from a history ends with the earlier one of the
/// times of the last row that may be read and of the last visible change that may be
/// returned. It fails only behind the last timestamp.
pub proof fn law_reading_the_feed<D>(
    request: DeltasRequest,
    upper_bound: Timestamp,
    mapping: TableMapping,
    history: Vec<DeltaRow<D>>,
    result: Result<DocumentDeltas<D>, DatabaseError>,
)
    requires
        in_order_of_time(history@),
        none_later(history@, upper_bound),
        call_ensures(DeltasRequest::read::<D>, (request, upper_bound, mapping, history), result),
    ensures
        result is Err <==> (request.cursor is Some && request.cursor->0 .0
            >= 0x7fff_ffff_ffff_ffff),
        result matches Ok(page) ==> {
            let seen = visible(mapping@, request.table_filter, history@);
            let most_read = at_least_one(request.rows_read_limit);
            let most_shown = at_least_one(request.rows_returned_limit);
            &&& history@.len() >= most_read ==> page.cursor.0 <= history@[most_read - 1].ts.0
            &&& seen.len() >= most_shown ==> page.cursor.0 <= seen[most_shown - 1].ts.0
            &&& {
                ||| history@.len() >= most_read && page.cursor == history@[most_read - 1].ts
                ||| seen.len() >= most_shown && page.cursor == seen[most_shown - 1].ts
                ||| history@.len() < most_read && seen.len() < most_shown && page.cursor
                    == upper_bound
            }
        },
{
    if let Ok(page) = result {
        law_page_ends_at_the_first_limit(request, upper_bound, mapping@, history@, page);
    }
}

/// A page of a listing that is read from rows holds as many of them as it may, or all.
pub proof fn law_reading_a_listing<D>(
    request: ListingRequest,
    mapping: TableMapping,
    by_id_indexes: ByIdIndexes,
    cursor: Option<DocumentIdV6>,
    asked: Option<TableName>,
    lister: SnapshotLister<D>,
    rows: Vec<ListedRow<D>>,
    page: SnapshotPage<D>,
)
    requires
        call_ensures(
            ListingRequest::start::<D>,
            (request, mapping, &by_id_indexes, cursor, &asked),
            Ok(ListingStart::Scan(lister)),
        ),
        call_ensures(SnapshotLister::<D>::read, (lister, rows), Ok(page)),
    ensures
        page.snapshot == request.snapshot,
        page.documents@.len() == if rows@.len() >= page_size(request) {
            page_size(request)
        } else {
            rows@.len() as int
        },
        rows@.len() >= page_size(request) ==> {
            let last = rows@[page_size(request) - 1].id;
            &&& page.cursor matches Some(c)
            &&& c.table_number == last.table.table_number
            &&& c.internal_id == last.internal_id
        },
{
    law_page_holds_what_it_may(
        request,
        mapping@,
        by_id_indexes@,
        cursor,
        asked,
        lister,
        rows@,
        page,
    );
}

/// The documents of a scan without failures are all loaded, under their ids and no others.
pub proof fn law_loading_documents<D>(
    rows: Vec<Result<ScanRow<D>, ServiceError>>,
    result: Result<BTreeMap<u128, (Timestamp, D)>, ServiceError>,
)
    requires
        call_ensures(DatabaseSnapshot::load_raw_table_documents::<D>, (rows,), result),
        forall|i: int| 0 <= i < rows@.len() ==> #[trigger] rows@[i] is Ok,
        forall|i: int, j: int|
            0 <= i < j < rows@.len() ==> (#[trigger] rows@[i])->Ok_0.id != (
            #[trigger] rows@[j])->Ok_0.id,
    ensures
        result is Ok,
        result->Ok_0@.dom().len() == rows@.len(),
        forall|i: int|
            0 <= i < rows@.len() ==> {
                let row = (#[trigger] rows@[i])->Ok_0;
                &&& result->Ok_0@.contains_key(row.id.0)
                &&& result->Ok_0@[row.id.0] == (row.ts, row.document)
            },
        forall|k: u128| #[trigger]
            result->Ok_0@.contains_key(k) ==> exists|i: int|
                0 <= i < rows@.len() && (#[trigger] rows@[i])->Ok_0.id.0 == k,
{
    law_every_document_is_loaded(rows@);
}

/// The storage of users is told by name: the size of the documents, and that size once for
/// each enabled index that the system does not keep for itself.
pub proof fn law_telling_the_storage_of_users(
    snapshot: Snapshot,
    summaries: Vec<(TableName, TableSummary)>,
    storage: NameMap<(usize, usize)>,
    i: int,
)
    requires
        call_ensures(
            Snapshot::user_document_and_index_storage,
            (&snapshot, &summaries),
            storage,
        ),
        0 <= i < summaries@.len(),
        forall|j: int|
            i < j < summaries@.len() ==> (#[trigger] summaries@[j]).0.name@
                != summaries@[i].0.name@,
    ensures
        ({
            let (name, summary) = summaries@[i];
            let own = indexes_of_users(
                snapshot.table_registry.table_mapping@,
                snapshot.index_registry.indexes@,
                name.name@,
            );
            &&& storage@.contains_key(name.name@)
            &&& storage@[name.name@].0 == summary.total_size_rounded
            &&& storage@[name.name@].1 == summary.total_size_rounded * own.len()
        }),
{
    law_document_storage_is_the_size_of_the_table(snapshot, summaries@, storage@);
    law_index_storage_is_the_documents_once_for_each_index(
        snapshot,
        summaries@,
        storage@,
        summaries@[i].0.name@,
    );
}

/// The storage of vector indexes is told by name: the sum of the sizes of all of them.
pub proof fn law_telling_the_storage_of_vector_indexes(
    snapshot: Snapshot,
    indexes: Vec<VectorIndexSize>,
    sums: NameMap<u64>,
    name: Seq<char>,
)
    requires
        call_ensures(Snapshot::vector_index_storage, (&snapshot, indexes), Ok(sums)),
    ensures
        ({
            let mapping = snapshot.table_registry.table_mapping@;
            &&& sums@.contains_key(name) <==> exists|i: int|
                0 <= i < indexes@.len() && mapping.tablets[(#[trigger] indexes@[i]).table].1 == name
            &&& sums@.contains_key(name) ==> sums@[name] == sum_of(
                sizes_on(mapping, indexes@, name),
            )
        }),
{
    law_vector_storage_is_the_sum_of_all_indexes(snapshot, indexes@, sums, name);
}

/// A transaction that is committed after attempts that are all followed by another one is
/// told with its timestamp, its value, how often it was tried again, and its times.
pub proof fn law_trying_until_it_is_committed<T>(
    retries: RetryLoop,
    attempts: Vec<Attempt<T>>,
    report: RetryReport<T>,
    k: int,
)
    requires
        call_ensures(RetryLoop::run::<T>, (retries, attempts), report),
        0 <= k < attempts@.len(),
        retries.backoff.failures + k < retries.max_failures,
        forall|i: int| 0 <= i < k ==> is_followed(retries.retried, #[trigger] attempts@[i]),
        attempts@[k] is Committed,
    ensures
        report.result is Ok,
        report.result->Ok_0.0 == attempts@[k]->ts,
        report.result->Ok_0.1 == attempts@[k]->Committed_value,
        report.result->Ok_0.2.retries == retries.backoff.failures + k,
        report.result->Ok_0.2.total_duration.0 == nanos_between(
            attempts@[k]->clock.start,
            attempts@[k]->clock.end,
        ),
{
    law_first_attempt_without_follower_decides(retries, attempts@, report, k);
}

/// A search answers with the first result that does not tell it to wait, or with the
/// fifth, and has waited once for each result before that.
pub proof fn law_searching_until_there_is_an_answer<T>(
    search: VectorSearchLoop,
    results: Vec<Result<T, DatabaseError>>,
    outcome: (Result<T, DatabaseError>, usize),
    k: int,
)
    requires
        call_ensures(VectorSearchLoop::search::<T>, (search, results), outcome),
        0 <= k < 5,
        forall|i: int| 0 <= i < k ==> is_told_to_wait(#[trigger] results@[i]),
        k < 4 ==> !is_told_to_wait(results@[k]),
    ensures
        outcome.0 == results@[k],
        outcome.1 == k,
{
    law_search_waits_while_it_is_told_to(results@, k);
}

/// The tables of a snapshot are what the last documents about them say.
pub proof fn law_loading_tables(
    documents: Vec<ParsedDocument<TableMetadata>>,
    tables: (TableMapping, OrdMap<u128, TableState>),
)
    requires
        call_ensures(DatabaseSnapshot::table_mapping_and_states, (documents,), tables),
    ensures
        holds_last_words(tables.0@.names, documents@, by_name()),
        holds_last_words(tables.0@.numbers, documents@, by_number()),
        holds_last_words(tables.0@.tablets, documents@, by_table()),
        holds_last_words(table_states(tables.1), documents@, state_by_id()),
{
    law_last_document_about_a_table_counts(documents@);
}

/// The virtual tables of a snapshot are what the last documents about them say.
pub proof fn law_loading_virtual_tables(
    documents: Vec<ParsedDocument<VirtualTableMetadata>>,
    mapping: VirtualTableMapping,
)
    requires
        call_ensures(DatabaseSnapshot::virtual_table_mapping, (documents,), mapping),
    ensures
        holds_last_words(mapping@.names, documents@, virtual_by_name()),
        holds_last_words(mapping@.numbers, documents@, virtual_by_number()),
{
    law_last_document_about_a_virtual_table_counts(documents@);
}

/// The active tables of a point of the history are what the last documents about them say.
pub proof fn law_loading_active_tables(
    rows: Vec<Result<ParsedDocument<TableMetadata>, ServiceError>>,
    documents: Seq<ParsedDocument<TableMetadata>>,
    result: Result<TableMapping, DatabaseError>,
)
    requires
        call_ensures(MetadataScan::table_mapping, (rows,), result),
        documents.len() == rows@.len(),
        forall|i: int|
            0 <= i < rows@.len() ==> #[trigger] rows@[i] == Ok::<
                ParsedDocument<TableMetadata>,
                ServiceError,
            >(documents[i]),
    ensures
        result is Ok,
        holds_last_words(result->Ok_0@.names, documents, by_name()),
        holds_last_words(result->Ok_0@.numbers, documents, by_number()),
        holds_last_words(result->Ok_0@.tablets, documents, by_active_table()),
{
    assert(ok_values(rows@) =~= documents);
    law_last_document_about_an_active_table_counts(documents);
}

/// The indexes over document ids of a point of the history are what the last documents about
/// them say.
pub proof fn law_loading_by_id_indexes(
    rows: Vec<Result<ParsedDocument<TabletIndexName>, ServiceError>>,
    documents: Seq<ParsedDocument<TabletIndexName>>,
    result: Result<ByIdIndexes, DatabaseError>,
)
    requires
        call_ensures(MetadataScan::by_id_indexes, (rows,), result),
        documents.len() == rows@.len(),
        forall|i: int|
            0 <= i < rows@.len() ==> #[trigger] rows@[i] == Ok::<
                ParsedDocument<TabletIndexName>,
                ServiceError,
            >(documents[i]),
    ensures
        result is Ok,
        holds_last_words(result->Ok_0@, documents, index_by_table()),
{
    assert(ok_values(rows@) =~= documents);
    law_last_document_about_an_index_counts(documents);
}

} // verus!
