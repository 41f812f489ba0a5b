//! What a page of the change feed holds, and where it ends.

use crate::deltas::{
    deltas_view, first_ts_after, DeltaRow, DeltaView, DeltasRequest, DocumentDeltas,
};
use crate::deltas_laws::{
    all_later, in_order_of_time, lemma_page_len, lemma_page_split, lemma_rows_after_is_suffix,
    lemma_upto_is_prefix, none_later, rows_after,
};
use crate::errors::{DatabaseError, ErrorMetadata};
use crate::filters::{
    lemma_filter_front, lemma_filter_last, lemma_filtered_is_item, lemma_filters_all,
    lemma_filters_nothing,
};
use crate::identity::Identity;
use crate::ids::{DocumentIdV6, Timestamp};
use crate::names::TableName;
use crate::table_mapping::MappingView;
use vstd::prelude::*;

verus! {

/// A change that users may see: its table is there, its name does not begin with
/// an underscore, and it is the table that was asked for, if one was.
pub open spec fn is_visible<D>(
    mapping: MappingView,
    asked: Option<TableName>,
    row: DeltaRow<D>,
) -> bool {
    let name = mapping.tablets[row.table].1;
    &&& mapping.tablets.contains_key(row.table)
    &&& !(name.len() > 0 && name[0] == '_')
    &&& asked matches Some(wanted) ==> wanted.name@ == name
}

/// The visible changes of a history.
pub open spec fn visible<D>(
    mapping: MappingView,
    asked: Option<TableName>,
    history: Seq<DeltaRow<D>>,
) -> Seq<DeltaRow<D>> {
    history.filter(|row: DeltaRow<D>| is_visible(mapping, asked, row))
}

/// A number, or one where it is zero.
pub open spec fn at_least_one(n: usize) -> int {
    if n == 0 {
        1
    } else {
        n as int
    }
}

proof fn lemma_shown_is_visible<D>(
    request: DeltasRequest,
    upper_bound: Timestamp,
    mapping: MappingView,
    rows: Seq<DeltaRow<D>>,
)
    ensures
        ({
            let query = request.query(upper_bound, mapping);
            let seen = visible(mapping, request.table_filter, rows);
            &&& query.shown_all(rows).len() == seen.len()
            &&& forall|k: int|
                0 <= k < seen.len() ==> #[trigger] query.shown_all(rows)[k] == shown_as(
                    mapping,
                    seen[k],
                )
        }),
    decreases rows.len(),
{
    let is_seen = |row: DeltaRow<D>| is_visible(mapping, request.table_filter, row);
    lemma_filter_last(rows, is_seen);
    if rows.len() > 0 {
        lemma_shown_is_visible(request, upper_bound, mapping, rows.drop_last());
    }
}

/// What is told of a change.
spec fn shown_as<D>(mapping: MappingView, row: DeltaRow<D>) -> DeltaView<D> {
    (
        row.ts,
        DocumentIdV6 { table_number: mapping.tablets[row.table].0, internal_id: row.id },
        mapping.tablets[row.table].1,
        row.document,
    )
}

/// Whether `ts` is the time of the row that uses up a limit first.
spec fn is_earliest<D>(
    rows: Seq<DeltaRow<D>>,
    seen: Seq<DeltaRow<D>>,
    most_read: int,
    most_shown: int,
    ts: Timestamp,
) -> bool {
    &&& rows.len() >= most_read ==> ts.0 <= rows[most_read - 1].ts.0
    &&& seen.len() >= most_shown ==> ts.0 <= seen[most_shown - 1].ts.0
    &&& rows.len() > 0 && ts.0 <= rows.last().ts.0
    &&& {
        ||| rows.len() >= most_read && ts == rows[most_read - 1].ts
        ||| seen.len() >= most_shown && ts == seen[most_shown - 1].ts
    }
}

proof fn lemma_cursor_is_earliest<D>(
    request: DeltasRequest,
    upper_bound: Timestamp,
    mapping: MappingView,
    rows: Seq<DeltaRow<D>>,
)
    requires
        in_order_of_time(rows),
    ensures
        ({
            let seen = visible(mapping, request.table_filter, rows);
            let most_read = at_least_one(request.rows_read_limit);
            let most_shown = at_least_one(request.rows_returned_limit);
            match request.query(upper_bound, mapping).cursor_after(rows) {
                None => rows.len() < most_read && seen.len() < most_shown,
                Some(ts) => is_earliest(rows, seen, most_read, most_shown, ts),
            }
        }),
    decreases rows.len(),
{
    let is_seen = |row: DeltaRow<D>| is_visible(mapping, request.table_filter, row);
    lemma_filter_last(rows, is_seen);
    if rows.len() > 0 {
        let front = rows.drop_last();
        let last = rows.len() - 1;
        let query = request.query(upper_bound, mapping);
        let most_read = at_least_one(request.rows_read_limit);
        let most_shown = at_least_one(request.rows_returned_limit);
        assert forall|i: int, j: int| 0 <= i <= j < front.len() implies (
        #[trigger] front[i]).ts.0 <= (#[trigger] front[j]).ts.0 by {
            assert(rows[i].ts.0 <= rows[j].ts.0);
        }
        lemma_cursor_is_earliest(request, upper_bound, mapping, front);
        lemma_shown_is_visible(request, upper_bound, mapping, rows);
        if last > 0 {
            assert(rows[last - 1].ts.0 <= rows[last].ts.0);
            assert(front.last() == rows[last - 1]);
        }
        let seen = visible(mapping, request.table_filter, rows);
        let seen_front = visible(mapping, request.table_filter, front);
        assert(seen.len() >= seen_front.len());
        assert(forall|k: int| 0 <= k < seen_front.len() ==> seen[k] == #[trigger] seen_front[k]);
        if let Some(ts) = query.cursor_after(front) {
            assert(query.cursor_after(rows) == Some(ts));
            if front.len() >= most_read {
                assert(rows[most_read - 1] == front[most_read - 1]);
            }
        } else if query.uses_up(rows) {
            assert(query.cursor_after(rows) == Some(rows.last().ts));
        }
    }
}

/// What does not go into a page is later than its cursor, and what does is not.
proof fn lemma_back_is_later<D>(history: Seq<DeltaRow<D>>, cursor: Timestamp, n: int)
    requires
        0 <= n <= history.len(),
        rows_after(history, cursor) == history.skip(n),
        in_order_of_time(history),
    ensures
        all_later(history.skip(n), cursor),
        none_later(history.take(n), cursor),
{
    let k = lemma_upto_is_prefix(history, cursor);
    lemma_rows_after_is_suffix(history, k, cursor);
    assert(history.skip(k).len() == history.skip(n).len());
    assert(k == n);
}

/// Where a page ends, by the rows that go into it.
proof fn lemma_page_facts<D>(
    request: DeltasRequest,
    upper_bound: Timestamp,
    mapping: MappingView,
    history: Seq<DeltaRow<D>>,
    page: DocumentDeltas<D>,
) -> (n: int)
    requires
        in_order_of_time(history),
        none_later(history, upper_bound),
        request.query(upper_bound, mapping).is_page_of(history, page),
    ensures
        0 <= n <= history.len(),
        all_later(history.skip(n), page.cursor),
        none_later(history.take(n), page.cursor),
        page.has_more == (n < history.len()),
        deltas_view(page.deltas@) == request.query(upper_bound, mapping).shown_all(history.take(n)),
        ({
            let seen = visible(mapping, request.table_filter, history.take(n));
            let most_read = at_least_one(request.rows_read_limit);
            let most_shown = at_least_one(request.rows_returned_limit);
            ||| is_earliest(history.take(n), seen, most_read, most_shown, page.cursor)
            ||| {
                &&& n == history.len() && n < most_read && seen.len() < most_shown
                &&& page.cursor == upper_bound
            }
        }),
{
    let query = request.query(upper_bound, mapping);
    let n = query.page_len(history, 0);
    lemma_page_len(query, history, 0);
    lemma_page_split(query, history, page);
    lemma_back_is_later(history, page.cursor, n);
    let front = history.take(n);
    assert forall|i: int, j: int| 0 <= i <= j < front.len() implies (#[trigger] front[i]).ts.0 <= (
    #[trigger] front[j]).ts.0 by {
        assert(history[i].ts.0 <= history[j].ts.0);
    }
    lemma_cursor_is_earliest(request, upper_bound, mapping, front);
    n
}

/// A page ends with the earlier one of two timestamps: that of the last row that
/// may be read, and that of the last visible change that may be returned. At least
/// one row is read and one change returned, whatever the limits are. Where the
/// history has fewer of both, the page ends where the transaction began. There is
/// more exactly where the history goes on behind the page.
pub proof fn law_page_ends_at_the_first_limit<D>(
    request: DeltasRequest,
    upper_bound: Timestamp,
    mapping: MappingView,
    history: Seq<DeltaRow<D>>,
    page: DocumentDeltas<D>,
)
    requires
        in_order_of_time(history),
        none_later(history, upper_bound),
        request.query(upper_bound, mapping).is_page_of(history, page),
    ensures
        ({
            let seen = visible(mapping, request.table_filter, history);
            let most_read = at_least_one(request.rows_read_limit);
            let most_shown = at_least_one(request.rows_returned_limit);
            &&& history.len() >= most_read ==> page.cursor.0 <= history[most_read - 1].ts.0
            &&& seen.len() >= most_shown ==> page.cursor.0 <= seen[most_shown - 1].ts.0
            &&& {
                ||| history.len() >= most_read && page.cursor == history[most_read - 1].ts
                ||| seen.len() >= most_shown && page.cursor == seen[most_shown - 1].ts
                ||| history.len() < most_read && seen.len() < most_shown && page.cursor
                    == upper_bound
            }
            &&& page.has_more <==> exists|i: int|
                0 <= i < history.len() && (#[trigger] history[i]).ts.0 > page.cursor.0
        }),
{
    let most_read = at_least_one(request.rows_read_limit);
    let most_shown = at_least_one(request.rows_returned_limit);
    let is_seen = |row: DeltaRow<D>| is_visible(mapping, request.table_filter, row);
    let n = lemma_page_facts(request, upper_bound, mapping, history, page);
    let front = history.take(n);
    let back = history.skip(n);
    lemma_filter_front(history, is_seen, n);
    let seen_front = front.filter(is_seen);
    let seen = history.filter(is_seen);
    if n == history.len() {
        assert(front =~= history);
    } else {
        assert(back[0] == history[n]);
    }
    assert forall|i: int| 0 <= i < history.len() implies ((#[trigger] history[i]).ts.0
        > page.cursor.0 <==> i >= n) by {
        if i < n {
            assert(front[i] == history[i]);
        } else {
            assert(back[i - n] == history[i]);
        }
    }
    if seen.len() >= most_shown && seen_front.len() < most_shown {
        let k = most_shown - 1 - seen_front.len();
        let i = lemma_filtered_is_item(back, is_seen, k);
        assert(back[i].ts.0 > page.cursor.0);
        assert(seen[most_shown - 1] == back.filter(is_seen)[k]);
    }
    if page.has_more {
        assert(history[n].ts.0 > page.cursor.0);
    }
}

/// A page shows the visible changes up to its cursor, all of them and nothing else,
/// each with its time, the number and name of its table, its id and its contents.
pub proof fn law_page_shows_all_up_to_its_cursor<D>(
    request: DeltasRequest,
    upper_bound: Timestamp,
    mapping: MappingView,
    history: Seq<DeltaRow<D>>,
    page: DocumentDeltas<D>,
)
    requires
        in_order_of_time(history),
        none_later(history, upper_bound),
        request.query(upper_bound, mapping).is_page_of(history, page),
    ensures
        ({
            let reached = history.filter(|row: DeltaRow<D>| row.ts.0 <= page.cursor.0);
            let seen = visible(mapping, request.table_filter, reached);
            &&& page.deltas@.len() == seen.len()
            &&& forall|k: int|
                0 <= k < seen.len() ==> {
                    &&& (#[trigger] page.deltas@[k]).0 == seen[k].ts
                    &&& page.deltas@[k].1.table_number == mapping.tablets[seen[k].table].0
                    &&& page.deltas@[k].1.internal_id == seen[k].id
                    &&& page.deltas@[k].2.name@ == mapping.tablets[seen[k].table].1
                    &&& page.deltas@[k].3 == seen[k].document
                }
        }),
{
    let query = request.query(upper_bound, mapping);
    let n = lemma_page_facts(request, upper_bound, mapping, history, page);
    let reached = |row: DeltaRow<D>| row.ts.0 <= page.cursor.0;
    let front = history.take(n);
    lemma_filter_front(history, reached, n);
    lemma_filters_all(history.skip(n), reached);
    lemma_filters_nothing(front, reached);
    assert(history.filter(reached) =~= front);
    lemma_shown_is_visible(request, upper_bound, mapping, front);
    let seen = visible(mapping, request.table_filter, front);
    assert(deltas_view(page.deltas@).len() == page.deltas@.len());
    assert forall|k: int| 0 <= k < seen.len() implies {
        &&& (#[trigger] page.deltas@[k]).0 == seen[k].ts
        &&& page.deltas@[k].1.table_number == mapping.tablets[seen[k].table].0
        &&& page.deltas@[k].1.internal_id == seen[k].id
        &&& page.deltas@[k].2.name@ == mapping.tablets[seen[k].table].1
        &&& page.deltas@[k].3 == seen[k].document
    } by {
        assert(deltas_view(page.deltas@)[k] == query.shown_all(front)[k]);
    }
}

/// A request is granted if and only if the caller is the system or an administrator
/// and no more rows may be returned than read. It is then what was asked for;
/// otherwise the error says which of the two is not so.
pub proof fn law_deltas_are_served_to_the_privileged(
    identity: Identity,
    cursor: Option<Timestamp>,
    table_filter: Option<TableName>,
    rows_read_limit: usize,
    rows_returned_limit: usize,
    request: Result<DeltasRequest, DatabaseError>,
)
    requires
        DeltasRequest::is_request(
            identity,
            cursor,
            table_filter,
            rows_read_limit,
            rows_returned_limit,
            request,
        ),
    ensures
        request is Ok <==> (identity.system || identity.admin) && rows_returned_limit
            <= rows_read_limit,
        request matches Ok(r) ==> {
            &&& r.cursor == cursor
            &&& r.table_filter == table_filter
            &&& r.rows_read_limit == rows_read_limit
            &&& r.rows_returned_limit == rows_returned_limit
        },
        request matches Err(error) ==> if identity.system || identity.admin {
            error == (DatabaseError::ReturnLimitAboveReadLimit {
                rows_read_limit,
                rows_returned_limit,
            })
        } else {
            &&& error matches DatabaseError::Metadata(ErrorMetadata::Forbidden { short_msg, msg })
            &&& short_msg@ == "Unauthorized"@
            &&& msg@ == "Operation "@ + "document_deltas"@ + " not permitted"@
        },
{
}

/// A page is read from right behind its cursor: no timestamp up to the cursor is
/// read, and every later one is. Without a cursor all are.
pub proof fn law_page_begins_behind_the_cursor(cursor: Option<Timestamp>, ts: Timestamp)
    ensures
        match first_ts_after(cursor) {
            Some(first) => ts.0 >= first.0 <==> (cursor matches Some(c) ==> ts.0 > c.0),
            None => cursor matches Some(c) && c.0 >= 0x7fff_ffff_ffff_ffff,
        },
        cursor matches Some(c) && c.0 < 0x7fff_ffff_ffff_ffff ==> first_ts_after(cursor) is Some,
        cursor is None ==> first_ts_after(cursor) is Some,
{
}

} // verus!
