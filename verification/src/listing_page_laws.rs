//! What a page of the listing of a snapshot holds, and where it ends.

use crate::deltas::{filter_view, shows_table};
use crate::errors::{DatabaseError, ErrorMetadata};
use crate::identity::Identity;
use crate::ids::{DocumentIdV6, IndexId, TableId, TableNumber, Timestamp};
use crate::listing::{
    documents_view, first_shown_from, listed, shows_number, ListedRow, ListingRequest,
    ListingStart, SnapshotLister, SnapshotPage,
};
use crate::listing_laws::lemma_first_shown;
use crate::names::TableName;
use crate::table_mapping::MappingView;
use vstd::prelude::*;

verus! {

/// How many documents a page holds at most: as many as may be read, and as many as
/// may be returned, but at least one.
pub open spec fn page_size(request: ListingRequest) -> int {
    let least = if request.rows_read_limit < request.rows_returned_limit {
        request.rows_read_limit as int
    } else {
        request.rows_returned_limit as int
    };
    if least == 0 {
        1
    } else {
        least
    }
}

/// Whether a table is one that is listed: its name does not begin with an
/// underscore, and it is the table that was asked for, if one was.
pub open spec fn is_listed_table(
    mapping: MappingView,
    asked: Option<TableName>,
    id: TableId,
) -> bool {
    let name = mapping.tablets[id].1;
    &&& mapping.tablets.contains_key(id)
    &&& !(name.len() > 0 && name[0] == '_')
    &&& asked matches Some(wanted) ==> wanted.name@ == name
}

/// Whether a number is the smallest one of all listed tables whose number is not
/// below `from`.
pub open spec fn is_least_listed(
    mapping: MappingView,
    asked: Option<TableName>,
    from: int,
    number: TableNumber,
) -> bool {
    &&& number.0 >= from
    &&& exists|id: TableId| #[trigger]
        is_listed_table(mapping, asked, id) && mapping.tablets[id].0 == number
    &&& forall|id: TableId| #[trigger]
        is_listed_table(mapping, asked, id) && mapping.tablets[id].0.0 >= from ==> number.0
            <= mapping.tablets[id].0.0
}

/// The smallest table number that is listed behind a cursor.
pub open spec fn first_number(cursor: Option<DocumentIdV6>) -> int {
    match cursor {
        Some(c) => c.table_number.0 as int,
        None => 0,
    }
}

/// Whether the number of every listed table is below `from`.
pub open spec fn none_listed(mapping: MappingView, asked: Option<TableName>, from: int) -> bool {
    forall|id: TableId| #[trigger]
        is_listed_table(mapping, asked, id) ==> mapping.tablets[id].0.0 < from
}

proof fn lemma_first_is_least(mapping: MappingView, asked: Option<TableName>, from: int)
    ensures
        match first_shown_from(mapping, filter_view(asked), from) {
            Some(number) => is_least_listed(mapping, asked, from, number),
            None => none_listed(mapping, asked, from),
        },
{
    let filter = filter_view(asked);
    lemma_first_shown(mapping, filter, from);
    assert forall|id: TableId| #[trigger] is_listed_table(mapping, asked, id) implies shows_number(
        mapping,
        filter,
        mapping.tablets[id].0,
    ) by {
        assert(mapping.tablets.contains_key(id));
    }
    if let Some(number) = first_shown_from(mapping, filter, from) {
        assert(shows_number(mapping, filter, number));
        let id = choose|id: TableId|
            {
                &&& #[trigger] mapping.tablets.contains_key(id)
                &&& mapping.tablets[id].0 == number
                &&& shows_table(filter, mapping.tablets[id].1)
            };
        assert(is_listed_table(mapping, asked, id));
    }
}

/// A listing goes on with the listed table that has the smallest number from the
/// cursor's on, in the snapshot and behind the cursor. It is over where there is
/// none.
pub proof fn law_listing_goes_on_with_the_least_table<D>(
    request: ListingRequest,
    mapping: MappingView,
    by_id_indexes: Map<TableId, IndexId>,
    cursor: Option<DocumentIdV6>,
    asked: Option<TableName>,
    start: ListingStart<D>,
)
    requires
        request.starts(mapping, by_id_indexes, cursor, filter_view(asked), Ok(start)),
    ensures
        ({
            let from = first_number(cursor);
            match start {
                ListingStart::Empty(page) => {
                    &&& none_listed(mapping, asked, from)
                    &&& page.documents@.len() == 0
                    &&& page.snapshot == request.snapshot
                    &&& page.cursor is None
                    &&& !page.has_more
                },
                ListingStart::Scan(lister) => {
                    let scan = lister.spec_scan();
                    exists|number: TableNumber|
                        {
                            &&& #[trigger] is_least_listed(mapping, asked, from, number)
                            &&& mapping.numbers.contains_pair(number, scan.table_id)
                            &&& by_id_indexes.contains_pair(scan.table_id, scan.by_id)
                            &&& scan.iterator.snapshot_ts == request.snapshot
                            &&& scan.iterator.page_size == 100
                            &&& match lister.next_table() {
                                Some(next) => is_least_listed(mapping, asked, number.0 + 1, next),
                                None => none_listed(mapping, asked, number.0 + 1),
                            }
                            &&& match (cursor, scan.cursor) {
                                (Some(c), Some(resolved)) => {
                                    &&& resolved.internal_id == c.internal_id
                                    &&& resolved.table.table_number == c.table_number
                                    &&& mapping.numbers.contains_pair(
                                        c.table_number,
                                        resolved.table.table_id,
                                    )
                                },
                                (None, None) => true,
                                _ => false,
                            }
                        }
                },
            }
        }),
{
    let from = first_number(cursor);
    lemma_first_is_least(mapping, asked, from);
    if let Some(number) = first_shown_from(mapping, filter_view(asked), from) {
        lemma_first_is_least(mapping, asked, number.0 + 1);
        assert(is_least_listed(mapping, asked, from, number));
    }
}

/// A listing fails before anything is read where no active table has the cursor's
/// number, or else where the listed table with the smallest number from there on is
/// not active or has no index over document ids.
pub proof fn law_listing_fails_for_missing_tables<D>(
    request: ListingRequest,
    mapping: MappingView,
    by_id_indexes: Map<TableId, IndexId>,
    cursor: Option<DocumentIdV6>,
    asked: Option<TableName>,
    error: DatabaseError,
)
    requires
        request.starts::<D>(mapping, by_id_indexes, cursor, filter_view(asked), Err(error)),
    ensures
        ({
            let from = first_number(cursor);
            ||| {
                &&& cursor matches Some(c)
                &&& !mapping.numbers.contains_key(c.table_number)
                &&& error == (DatabaseError::TableNumberNotFound { table_number: c.table_number })
            }
            ||| {
                &&& cursor matches Some(c) ==> mapping.numbers.contains_key(c.table_number)
                &&& exists|number: TableNumber|
                    {
                        &&& #[trigger] is_least_listed(mapping, asked, from, number)
                        &&& {
                            ||| {
                                &&& !mapping.numbers.contains_key(number)
                                &&& error == (DatabaseError::TableNumberNotFound {
                                    table_number: number,
                                })
                            }
                            ||| {
                                &&& mapping.numbers.contains_key(number)
                                &&& !by_id_indexes.contains_key(mapping.numbers[number])
                                &&& error == (DatabaseError::ByIdIndexMissing {
                                    table_id: mapping.numbers[number],
                                })
                            }
                        }
                    }
            }
        }),
{
    let from = first_number(cursor);
    lemma_first_is_least(mapping, asked, from);
}

proof fn lemma_full<D>(request: ListingRequest, lister: SnapshotLister<D>, n: nat)
    requires
        lister.limits() == (request.rows_read_limit, request.rows_returned_limit),
        n > 0,
    ensures
        lister.is_full(n) <==> n >= page_size(request),
{
}

/// A page takes the rows of its scan in their order, up to as many as it may hold.
/// With that many its cursor is the last one's id; with fewer it has come to the
/// table's end, and its cursor is the start of the next table, if there is one.
/// Each row is listed with its time, the name of its table and its contents.
pub proof fn law_page_holds_what_it_may<D>(
    request: ListingRequest,
    mapping: MappingView,
    by_id_indexes: Map<TableId, IndexId>,
    cursor: Option<DocumentIdV6>,
    asked: Option<TableName>,
    lister: SnapshotLister<D>,
    rows: Seq<ListedRow<D>>,
    page: SnapshotPage<D>,
)
    requires
        request.starts(
            mapping,
            by_id_indexes,
            cursor,
            filter_view(asked),
            Ok(ListingStart::Scan(lister)),
        ),
        lister.makes_page(rows, page),
    ensures
        page.snapshot == request.snapshot,
        page.has_more == (page.cursor is Some),
        page.documents@.len() == if rows.len() >= page_size(request) {
            page_size(request)
        } else {
            rows.len() as int
        },
        forall|i: int|
            0 <= i < page.documents@.len() ==> {
                &&& (#[trigger] page.documents@[i]).0 == rows[i].ts
                &&& page.documents@[i].1.name@ == mapping.tablets[rows[i].id.table.table_id].1
                &&& page.documents@[i].2 == rows[i].document
            },
        rows.len() >= page_size(request) ==> {
            let last = rows[page_size(request) - 1].id;
            &&& page.cursor matches Some(c)
            &&& c.table_number == last.table.table_number
            &&& c.internal_id == last.internal_id
        },
        rows.len() < page_size(request) ==> match (lister.next_table(), page.cursor) {
            (Some(number), Some(c)) => c.table_number == number && c.internal_id.0 == 0,
            (None, None) => true,
            _ => false,
        },
{
    let size = page_size(request) as nat;
    lemma_full(request, lister, size);
    let taken: Seq<ListedRow<D>> = if exists|n: nat|
        0 < n <= rows.len() && #[trigger] lister.is_full(n) {
        let n = choose|n: nat|
            {
                &&& 0 < n <= rows.len()
                &&& #[trigger] lister.is_full(n)
                &&& forall|k: nat| 0 < k < n ==> !#[trigger] lister.is_full(k)
                &&& lister.is_page(rows.take(n as int), Some(rows[n - 1].id_v6()), page)
            };
        lemma_full(request, lister, n);
        assert(n == size) by {
            if size < n {
                assert(!lister.is_full(size));
            }
        }
        rows.take(n as int)
    } else {
        if rows.len() >= size {
            assert(lister.is_full(size));
        }
        rows
    };
    assert(documents_view(page.documents@) == listed(mapping, taken));
    assert(documents_view(page.documents@).len() == page.documents@.len());
    assert forall|i: int| 0 <= i < page.documents@.len() implies {
        &&& (#[trigger] page.documents@[i]).0 == rows[i].ts
        &&& page.documents@[i].1.name@ == mapping.tablets[rows[i].id.table.table_id].1
        &&& page.documents@[i].2 == rows[i].document
    } by {
        assert(documents_view(page.documents@)[i] == listed(mapping, taken)[i]);
        assert(taken[i] == rows[i]);
    }
}

/// A listing fails at a row only where the row goes into the page, is of a table
/// that the snapshot does not have, and is the first such row.
pub proof fn law_page_fails_at_rows_without_table<D>(
    request: ListingRequest,
    lister: SnapshotLister<D>,
    rows: Seq<ListedRow<D>>,
    i: int,
)
    requires
        lister.limits() == (request.rows_read_limit, request.rows_returned_limit),
    ensures
        lister.fails_at(rows, i) <==> {
            &&& 0 <= i < rows.len()
            &&& i < page_size(request)
            &&& !lister.mapping().tablets.contains_key(rows[i].id.table.table_id)
            &&& forall|j: int|
                0 <= j < i ==> lister.mapping().tablets.contains_key(
                    (#[trigger] rows[j]).id.table.table_id,
                )
        },
{
    let size = page_size(request) as nat;
    lemma_full(request, lister, size);
    if i >= size {
        assert(lister.is_full(size));
    } else {
        assert forall|k: nat| 0 < k <= i implies !#[trigger] lister.is_full(k) by {
            lemma_full(request, lister, k);
        }
    }
}

/// A request is granted if and only if the caller is the system or an administrator,
/// no more rows may be returned than read, and the snapshot is not later than now.
/// It is then what was asked for; otherwise the error says what is not so.
pub proof fn law_listings_are_served_to_the_privileged(
    identity: Identity,
    snapshot: Option<Timestamp>,
    now: Timestamp,
    rows_read_limit: usize,
    rows_returned_limit: usize,
    request: Result<ListingRequest, DatabaseError>,
)
    requires
        ListingRequest::is_request(
            identity,
            snapshot,
            now,
            rows_read_limit,
            rows_returned_limit,
            request,
        ),
    ensures
        ({
            let privileged = identity.system || identity.admin;
            let in_time = snapshot matches Some(ts) ==> ts.0 <= now.0;
            &&& request is Ok <==> privileged && rows_returned_limit <= rows_read_limit && in_time
            &&& request matches Ok(r) ==> {
                &&& r.snapshot == (match snapshot {
                    Some(ts) => ts,
                    None => now,
                })
                &&& r.rows_read_limit == rows_read_limit
                &&& r.rows_returned_limit == rows_returned_limit
            }
            &&& request matches Err(error) ==> if !privileged {
                &&& error matches DatabaseError::Metadata(
                    ErrorMetadata::Forbidden { short_msg, msg },
                )
                &&& short_msg@ == "Unauthorized"@
                &&& msg@ == "Operation "@ + "list_snapshot"@ + " not permitted"@
            } else if rows_returned_limit > rows_read_limit {
                error == (DatabaseError::ReturnLimitAboveReadLimit {
                    rows_read_limit,
                    rows_returned_limit,
                })
            } else {
                &&& snapshot matches Some(ts)
                &&& error == (DatabaseError::NotRepeatable { ts, latest: now })
            }
        }),
{
}

} // verus!
