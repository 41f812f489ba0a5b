//! What the pages of the change feed are together.

use crate::deltas::{
    deltas_view, DeltaRow, DeltaView, DeltasCollector, DeltasQuery, DocumentDeltas,
};
use crate::ids::Timestamp;
use crate::scan::{HistoryScan, Order};
use vstd::prelude::*;

verus! {

/// Rows come in the order of time.
pub open spec fn in_order_of_time<D>(rows: Seq<DeltaRow<D>>) -> bool {
    forall|i: int, j: int|
        0 <= i <= j < rows.len() ==> (#[trigger] rows[i]).ts.0 <= (#[trigger] rows[j]).ts.0
}

/// No row is later than `ts`.
pub open spec fn none_later<D>(rows: Seq<DeltaRow<D>>, ts: Timestamp) -> bool {
    forall|i: int| 0 <= i < rows.len() ==> (#[trigger] rows[i]).ts.0 <= ts.0
}

/// Every row is later than `ts`.
pub open spec fn all_later<D>(rows: Seq<DeltaRow<D>>, ts: Timestamp) -> bool {
    forall|i: int| 0 <= i < rows.len() ==> (#[trigger] rows[i]).ts.0 > ts.0
}

/// The rows that a call with this cursor reads.
pub open spec fn rows_after<D>(rows: Seq<DeltaRow<D>>, cursor: Timestamp) -> Seq<DeltaRow<D>> {
    rows.filter(|row: DeltaRow<D>| row.ts.0 > cursor.0)
}

/// The rows of a history that go into a page.
pub open spec fn page_rows<D>(query: DeltasQuery, history: Seq<DeltaRow<D>>) -> Seq<DeltaRow<D>> {
    history.take(query.page_len(history, 0))
}

/// The deltas of pages, one page after the other.
pub open spec fn all_deltas<D>(pages: Seq<DocumentDeltas<D>>) -> Seq<DeltaView<D>>
    decreases pages.len(),
{
    if pages.len() == 0 {
        Seq::empty()
    } else {
        deltas_view(pages[0].deltas@) + all_deltas(pages.drop_first())
    }
}

proof fn lemma_shown_all_concat<D>(
    query: DeltasQuery,
    front: Seq<DeltaRow<D>>,
    back: Seq<DeltaRow<D>>,
)
    ensures
        query.shown_all(front + back) == query.shown_all(front) + query.shown_all(back),
    decreases back.len(),
{
    if back.len() == 0 {
        assert(front + back =~= front);
        assert(query.shown_all(front) + query.shown_all(back) =~= query.shown_all(front));
    } else {
        lemma_shown_all_concat(query, front, back.drop_last());
        assert((front + back).drop_last() =~= front + back.drop_last());
        assert((front + back).last() == back.last());
        assert(query.shown_all(front + back) =~= query.shown_all(front) + query.shown_all(back));
    }
}

/// The page begins with the rows that are known to be part of it, and goes on
/// up to the first row that closes it.
pub proof fn lemma_page_len<D>(query: DeltasQuery, history: Seq<DeltaRow<D>>, from: int)
    requires
        0 <= from <= history.len(),
    ensures
        from <= query.page_len(history, from) <= history.len(),
        forall|i: int|
            from <= i < query.page_len(history, from) ==> !query.closes(
                #[trigger] history.take(i),
                history[i],
            ),
        query.page_len(history, from) < history.len() ==> query.closes(
            history.take(query.page_len(history, from)),
            history[query.page_len(history, from)],
        ),
    decreases history.len() - from,
{
    if from < history.len() && !query.closes(history.take(from), history[from]) {
        lemma_page_len(query, history, from + 1);
    }
}

/// Once a page has its cursor it keeps it, and no row of the page is later.
proof fn lemma_cursor<D>(query: DeltasQuery, history: Seq<DeltaRow<D>>, n: int)
    requires
        in_order_of_time(history),
        0 <= n <= query.page_len(history, 0),
    ensures
        query.cursor_after(history.take(n)) matches Some(ts) ==> {
            &&& none_later(history.take(n), ts)
            &&& n > 0
            &&& history[0].ts.0 <= ts.0
        },
    decreases n,
{
    lemma_page_len(query, history, 0);
    if n > 0 {
        lemma_cursor(query, history, n - 1);
        let rows = history.take(n);
        assert(rows.drop_last() =~= history.take(n - 1));
        assert(rows.last() == history[n - 1]);
        assert(!query.closes(history.take(n - 1), history[n - 1]));
        if let Some(ts) = query.cursor_after(rows) {
            assert forall|i: int| 0 <= i < n implies (#[trigger] rows[i]).ts.0 <= ts.0 by {
                assert(rows[i] == history[i]);
                if i < n - 1 {
                    assert(history.take(n - 1)[i] == history[i]);
                }
            }
            assert(rows[0] == history[0]);
        }
    }
}

proof fn lemma_none_after<D>(rows: Seq<DeltaRow<D>>, cursor: Timestamp)
    requires
        none_later(rows, cursor),
    ensures
        rows_after(rows, cursor) == Seq::<DeltaRow<D>>::empty(),
    decreases rows.len(),
{
    reveal(Seq::filter);
    if rows.len() > 0 {
        lemma_none_after(rows.drop_last(), cursor);
    }
}

proof fn lemma_all_after<D>(rows: Seq<DeltaRow<D>>, cursor: Timestamp)
    requires
        forall|i: int| 0 <= i < rows.len() ==> (#[trigger] rows[i]).ts.0 > cursor.0,
    ensures
        rows_after(rows, cursor) == rows,
    decreases rows.len(),
{
    reveal(Seq::filter);
    if rows.len() > 0 {
        lemma_all_after(rows.drop_last(), cursor);
        assert(rows.drop_last().push(rows.last()) =~= rows);
    } else {
        assert(rows_after(rows, cursor) =~= rows);
    }
}

proof fn lemma_rows_after<D>(front: Seq<DeltaRow<D>>, back: Seq<DeltaRow<D>>, cursor: Timestamp)
    requires
        none_later(front, cursor),
        forall|i: int| 0 <= i < back.len() ==> (#[trigger] back[i]).ts.0 > cursor.0,
    ensures
        rows_after(front + back, cursor) == back,
{
    lemma_none_after(front, cursor);
    lemma_all_after(back, cursor);
    Seq::filter_distributes_over_add(front, back, |row: DeltaRow<D>| row.ts.0 > cursor.0);
    assert(Seq::<DeltaRow<D>>::empty() + back =~= back);
}

/// What lies behind a page's cursor is what did not go into the page.
pub proof fn lemma_page_split<D>(
    query: DeltasQuery,
    history: Seq<DeltaRow<D>>,
    page: DocumentDeltas<D>,
)
    requires
        in_order_of_time(history),
        none_later(history, query.upper_bound),
        query.is_page_of(history, page),
    ensures
        rows_after(history, page.cursor) == history.skip(query.page_len(history, 0)),
        history.len() > 0 ==> query.page_len(history, 0) > 0,
        page.has_more ==> history[0].ts.0 <= page.cursor.0,
{
    let n = query.page_len(history, 0);
    lemma_page_len(query, history, 0);
    lemma_cursor(query, history, n);
    let front = history.take(n);
    let back = history.skip(n);
    assert(front + back =~= history);
    assert forall|i: int| 0 <= i < back.len() implies (#[trigger] back[i]).ts.0 > page.cursor.0 by {
        assert(back[i] == history[n + i]);
    }
    assert(none_later(front, page.cursor)) by {
        if query.cursor_after(front) is None {
            assert forall|i: int| 0 <= i < front.len() implies (#[trigger] front[i]).ts.0
                <= page.cursor.0 by {
                assert(front[i] == history[i]);
            }
        }
    }
    lemma_rows_after(front, back, page.cursor);
    if history.len() > 0 {
        assert(query.cursor_after(history.take(0)) is None);
        assert(n > 0) by {
            if n == 0 {
                assert(query.closes(history.take(0), history[0]));
            }
        }
    }
}

/// The rows that go into a page, followed by those behind its cursor, are the
/// whole history, and the page shows what is shown of its rows.
pub proof fn law_page_holds_what_comes_first<D>(
    query: DeltasQuery,
    history: Seq<DeltaRow<D>>,
    page: DocumentDeltas<D>,
)
    requires
        in_order_of_time(history),
        none_later(history, query.upper_bound),
        query.is_page_of(history, page),
    ensures
        history == page_rows(query, history) + rows_after(history, page.cursor),
        deltas_view(page.deltas@) == query.shown_all(page_rows(query, history)),
{
    lemma_page_len(query, history, 0);
    lemma_page_split(query, history, page);
    lemma_split(history, query.page_len(history, 0));
}

/// A page never splits a timestamp: what it shows, followed by what lies behind
/// its cursor, is what the whole history shows. It says that there is more
/// exactly where something lies behind its cursor, and then its cursor has
/// moved on to the first row at least.
pub proof fn law_page_cuts_between_timestamps<D>(
    query: DeltasQuery,
    history: Seq<DeltaRow<D>>,
    page: DocumentDeltas<D>,
)
    requires
        in_order_of_time(history),
        none_later(history, query.upper_bound),
        query.is_page_of(history, page),
    ensures
        query.shown_all(history) == deltas_view(page.deltas@) + query.shown_all(
            rows_after(history, page.cursor),
        ),
        page.has_more <==> rows_after(history, page.cursor).len() > 0,
        page.has_more ==> history[0].ts.0 <= page.cursor.0,
        history.len() > 0 ==> rows_after(history, page.cursor).len() < history.len(),
{
    let n = query.page_len(history, 0);
    lemma_page_len(query, history, 0);
    lemma_page_split(query, history, page);
    lemma_split(history, n);
    lemma_shown_all_concat(query, history.take(n), history.skip(n));
}

/// Rows are ordered by timestamp, then by table, then by document.
pub open spec fn row_before<D>(a: DeltaRow<D>, b: DeltaRow<D>) -> bool {
    ||| a.ts.0 < b.ts.0
    ||| a.ts == b.ts && a.table.0.0 < b.table.0.0
    ||| a.ts == b.ts && a.table == b.table && a.id.0 < b.id.0
}

/// Rows come in increasing order.
pub open spec fn in_row_order<D>(rows: Seq<DeltaRow<D>>) -> bool {
    forall|i: int, j: int|
        0 <= i < j < rows.len() ==> row_before(#[trigger] rows[i], #[trigger] rows[j])
}

impl HistoryScan {
    /// Whether `rows` are what the scan gives: changes of its time and its table, in
    /// its order.
    pub open spec fn gives<D>(self, rows: Seq<DeltaRow<D>>) -> bool {
        &&& forall|i: int|
            0 <= i < rows.len() ==> {
                &&& self.first_ts.0 <= (#[trigger] rows[i]).ts.0 <= self.last_ts.0
                &&& self.table_id is Some ==> self.table_id == Some(rows[i].table)
            }
        &&& match self.order {
            Order::Asc => in_row_order(rows),
            Order::Desc => in_row_order(rows.reverse()),
        }
    }
}

/// The history that a page asks for comes in the order of time, and ends where the
/// page may end.
pub proof fn law_history_comes_in_order_of_time<D>(
    collector: DeltasCollector<D>,
    rows: Seq<DeltaRow<D>>,
)
    requires
        collector.spec_scan().gives(rows),
    ensures
        in_order_of_time(rows),
        none_later(rows, collector.query().upper_bound),
{
    assert forall|i: int, j: int| 0 <= i <= j < rows.len() implies (#[trigger] rows[i]).ts.0 <= (
    #[trigger] rows[j]).ts.0 by {
        if i < j {
            assert(row_before(rows[i], rows[j]));
        }
    }
}

/// Whether two deltas are of two rows of which the first comes before the second.
pub open spec fn shown_in_order<D>(
    query: DeltasQuery,
    rows: Seq<DeltaRow<D>>,
    first: DeltaView<D>,
    second: DeltaView<D>,
) -> bool {
    exists|a: int, b: int|
        {
            &&& 0 <= a < b < rows.len()
            &&& query.shown(#[trigger] rows[a]) == Some(first)
            &&& query.shown(#[trigger] rows[b]) == Some(second)
            &&& row_before(rows[a], rows[b])
        }
}

proof fn lemma_deltas_have_rows<D>(query: DeltasQuery, rows: Seq<DeltaRow<D>>, i: int)
    requires
        0 <= i < query.shown_all(rows).len(),
    ensures
        exists|a: int|
            0 <= a < rows.len() && query.shown(#[trigger] rows[a]) == Some(
                query.shown_all(rows)[i],
            ),
    decreases rows.len(),
{
    let front = rows.drop_last();
    if i < query.shown_all(front).len() {
        lemma_deltas_have_rows(query, front, i);
        let a = choose|a: int|
            0 <= a < front.len() && query.shown(#[trigger] front[a]) == Some(
                query.shown_all(front)[i],
            );
        assert(rows[a] == front[a]);
    } else {
        assert(query.shown(rows[rows.len() - 1]) == Some(query.shown_all(rows)[i]));
    }
}

/// The deltas of a page come in increasing order of timestamp, table and document:
/// the page asks for its rows in that order, and shows them in the order in which
/// it is given them.
pub proof fn law_page_is_in_order<D>(
    collector: DeltasCollector<D>,
    rows: Seq<DeltaRow<D>>,
    page: DocumentDeltas<D>,
    i: int,
    j: int,
)
    requires
        collector.spec_scan().gives(rows),
        collector.query().is_page_of(rows, page),
        0 <= i < j < page.deltas@.len(),
    ensures
        shown_in_order(
            collector.query(),
            page_rows(collector.query(), rows),
            deltas_view(page.deltas@)[i],
            deltas_view(page.deltas@)[j],
        ),
{
    let query = collector.query();
    let own = page_rows(query, rows);
    lemma_page_len(query, rows, 0);
    assert(in_row_order(own)) by {
        assert forall|a: int, b: int| 0 <= a < b < own.len() implies row_before(
            #[trigger] own[a],
            #[trigger] own[b],
        ) by {
            assert(row_before(rows[a], rows[b]));
        }
    }
    law_deltas_are_in_order(query, own, i, j);
}

/// Where rows come in increasing order of timestamp, table and document, so do
/// the deltas that are shown of them.
pub proof fn law_deltas_are_in_order<D>(
    query: DeltasQuery,
    rows: Seq<DeltaRow<D>>,
    i: int,
    j: int,
)
    requires
        in_row_order(rows),
        0 <= i < j < query.shown_all(rows).len(),
    ensures
        shown_in_order(query, rows, query.shown_all(rows)[i], query.shown_all(rows)[j]),
    decreases rows.len(),
{
    let front = rows.drop_last();
    let last = rows.len() - 1;
    let first = query.shown_all(rows)[i];
    let second = query.shown_all(rows)[j];
    if j < query.shown_all(front).len() {
        law_deltas_are_in_order(query, front, i, j);
        let (a, b) = choose|a: int, b: int|
            {
                &&& 0 <= a < b < front.len()
                &&& query.shown(#[trigger] front[a]) == Some(first)
                &&& query.shown(#[trigger] front[b]) == Some(second)
                &&& row_before(front[a], front[b])
            };
        assert(rows[a] == front[a] && rows[b] == front[b]);
    } else {
        lemma_deltas_have_rows(query, front, i);
        let a = choose|a: int|
            0 <= a < front.len() && query.shown(#[trigger] front[a]) == Some(
                query.shown_all(front)[i],
            );
        assert(rows[a] == front[a]);
        assert(query.shown(rows[last]) == Some(second));
        assert(row_before(rows[a], rows[last]));
    }
}

proof fn lemma_cursor_is_of_a_row<D>(query: DeltasQuery, rows: Seq<DeltaRow<D>>)
    ensures
        query.cursor_after(rows) matches Some(ts) ==> exists|i: int|
            0 <= i < rows.len() && (#[trigger] rows[i]).ts == ts,
    decreases rows.len(),
{
    if rows.len() > 0 {
        let front = rows.drop_last();
        lemma_cursor_is_of_a_row(query, front);
        if let Some(ts) = query.cursor_after(front) {
            let i = choose|i: int| 0 <= i < front.len() && (#[trigger] front[i]).ts == ts;
            assert(rows[i].ts == ts);
        } else if let Some(ts) = query.cursor_after(rows) {
            assert(rows[rows.len() - 1].ts == ts);
        }
    }
}

/// What is written after a page was served lies behind the page's cursor: with
/// the history grown, what the page shows, followed by what now lies behind its
/// cursor, is what the whole history shows.
pub proof fn law_later_changes_are_not_lost<D>(
    query: DeltasQuery,
    history: Seq<DeltaRow<D>>,
    later: Seq<DeltaRow<D>>,
    page: DocumentDeltas<D>,
)
    requires
        in_order_of_time(history),
        none_later(history, query.upper_bound),
        forall|i: int|
            0 <= i < later.len() ==> (#[trigger] later[i]).ts.0 > query.upper_bound.0,
        query.is_page_of(history, page),
    ensures
        page.cursor.0 <= query.upper_bound.0,
        query.shown_all(history + later) == deltas_view(page.deltas@) + query.shown_all(
            rows_after(history + later, page.cursor),
        ),
{
    let n = query.page_len(history, 0);
    lemma_page_len(query, history, 0);
    let front = history.take(n);
    lemma_cursor_is_of_a_row(query, front);
    if let Some(ts) = query.cursor_after(front) {
        let i = choose|i: int| 0 <= i < front.len() && (#[trigger] front[i]).ts == ts;
        assert(history[i].ts == ts);
    }
    law_page_cuts_between_timestamps(query, history, page);
    lemma_all_after(later, page.cursor);
    Seq::filter_distributes_over_add(
        history,
        later,
        |row: DeltaRow<D>| row.ts.0 > page.cursor.0,
    );
    let rest = rows_after(history, page.cursor);
    assert(rows_after(history + later, page.cursor) == rest + later);
    lemma_shown_all_concat(query, history, later);
    lemma_shown_all_concat(query, rest, later);
    assert(deltas_view(page.deltas@) + query.shown_all(rest) + query.shown_all(later)
        =~= deltas_view(page.deltas@) + (query.shown_all(rest) + query.shown_all(later)));
}

/// The rows of a history up to a timestamp.
pub open spec fn upto<D>(rows: Seq<DeltaRow<D>>, ts: Timestamp) -> Seq<DeltaRow<D>> {
    rows.filter(|row: DeltaRow<D>| row.ts.0 <= ts.0)
}

/// Calls about the same tables, one after the other. Their limits may differ, and
/// each may see more of the history than the one before it.
pub open spec fn are_calls(queries: Seq<DeltasQuery>) -> bool {
    &&& bounds_grow(queries)
    &&& forall|i: int, j: int|
        0 <= i <= j < queries.len() ==> {
            &&& (#[trigger] queries[i]).mapping == (#[trigger] queries[j]).mapping
            &&& queries[i].filter == queries[j].filter
        }
}

/// No call sees less of the history than one before it.
pub open spec fn bounds_grow(queries: Seq<DeltasQuery>) -> bool {
    forall|i: int, j: int|
        0 <= i <= j < queries.len() ==> (#[trigger] queries[i]).upper_bound.0 <= (
        #[trigger] queries[j]).upper_bound.0
}

/// The rows that go into pages, one page after the other.
pub open spec fn rows_of_pages<D>(
    queries: Seq<DeltasQuery>,
    history: Seq<DeltaRow<D>>,
    pages: Seq<DocumentDeltas<D>>,
) -> Seq<DeltaRow<D>>
    decreases pages.len(),
{
    if pages.len() == 0 {
        Seq::empty()
    } else {
        page_rows(queries[0], upto(history, queries[0].upper_bound)) + rows_of_pages(
            queries.drop_first(),
            rows_after(history, pages[0].cursor),
            pages.drop_first(),
        )
    }
}

/// Whether `pages` are what is returned by calling again, each time with the last
/// cursor, for no longer than there is more.
pub open spec fn is_chain<D>(
    queries: Seq<DeltasQuery>,
    history: Seq<DeltaRow<D>>,
    pages: Seq<DocumentDeltas<D>>,
) -> bool
    decreases pages.len(),
{
    &&& pages.len() > 0
    &&& queries.len() == pages.len()
    &&& queries[0].is_page_of(upto(history, queries[0].upper_bound), pages[0])
    &&& pages.len() > 1 ==> {
        &&& pages[0].has_more
        &&& is_chain(
            queries.drop_first(),
            rows_after(history, pages[0].cursor),
            pages.drop_first(),
        )
    }
}

/// In a history, what is up to a timestamp comes first.
pub proof fn lemma_upto_is_prefix<D>(rows: Seq<DeltaRow<D>>, ts: Timestamp) -> (k: int)
    requires
        in_order_of_time(rows),
    ensures
        0 <= k <= rows.len(),
        upto(rows, ts) == rows.take(k),
        none_later(rows.take(k), ts),
        all_later(rows.skip(k), ts),
    decreases rows.len(),
{
    reveal(Seq::filter);
    if rows.len() == 0 {
        assert(upto(rows, ts) =~= rows.take(0));
        0
    } else {
        let front = rows.drop_last();
        let last = rows.len() - 1;
        assert(forall|i: int| 0 <= i < last ==> front[i] == #[trigger] rows[i]);
        let k = lemma_upto_is_prefix(front, ts);
        if rows[last].ts.0 <= ts.0 {
            if k < last {
                assert(front.skip(k)[0] == rows[k]);
                assert(rows[k].ts.0 <= rows[last].ts.0);
            }
            assert(front.take(k).push(rows[last]) =~= rows.take(last + 1));
            assert(rows.skip(last + 1) =~= Seq::empty());
            last + 1
        } else {
            assert(front.take(k) =~= rows.take(k));
            assert(rows.skip(k) =~= front.skip(k).push(rows[last]));
            k
        }
    }
}

proof fn lemma_bounds_commute<D>(rows: Seq<DeltaRow<D>>, after: Timestamp, bound: Timestamp)
    ensures
        upto(rows_after(rows, after), bound) == rows_after(upto(rows, bound), after),
    decreases rows.len(),
{
    reveal(Seq::filter);
    if rows.len() > 0 {
        let front = rows.drop_last();
        let last = rows.last();
        lemma_bounds_commute(front, after, bound);
        assert(rows_after(front, after).push(last).drop_last() =~= rows_after(front, after));
        assert(upto(front, bound).push(last).drop_last() =~= upto(front, bound));
    }
}

proof fn lemma_suffix_in_order<D>(rows: Seq<DeltaRow<D>>, k: int)
    requires
        in_order_of_time(rows),
        0 <= k <= rows.len(),
    ensures
        in_order_of_time(rows.skip(k)),
{
    let back = rows.skip(k);
    assert forall|i: int, j: int| 0 <= i <= j < back.len() implies (#[trigger] back[i]).ts.0 <= (
    #[trigger] back[j]).ts.0 by {
        assert(rows[k + i].ts.0 <= rows[k + j].ts.0);
    }
}

proof fn lemma_split<D>(rows: Seq<DeltaRow<D>>, k: int)
    requires
        0 <= k <= rows.len(),
    ensures
        rows.take(k) + rows.skip(k) == rows,
{
    assert(rows.take(k) + rows.skip(k) =~= rows);
}

pub proof fn lemma_rows_after_is_suffix<D>(rows: Seq<DeltaRow<D>>, k: int, cursor: Timestamp)
    requires
        0 <= k <= rows.len(),
        none_later(rows.take(k), cursor),
        all_later(rows.skip(k), cursor),
    ensures
        rows_after(rows, cursor) == rows.skip(k),
{
    lemma_split(rows, k);
    lemma_rows_after(rows.take(k), rows.skip(k), cursor);
}

proof fn lemma_rows_after_in_order<D>(rows: Seq<DeltaRow<D>>, cursor: Timestamp)
    requires
        in_order_of_time(rows),
    ensures
        in_order_of_time(rows_after(rows, cursor)),
{
    let k = lemma_upto_is_prefix(rows, cursor);
    lemma_rows_after_is_suffix(rows, k, cursor);
    lemma_suffix_in_order(rows, k);
}

proof fn lemma_shown_alike<D>(a: DeltasQuery, b: DeltasQuery, rows: Seq<DeltaRow<D>>)
    requires
        a.mapping == b.mapping,
        a.filter == b.filter,
    ensures
        a.shown_all(rows) == b.shown_all(rows),
    decreases rows.len(),
{
    if rows.len() > 0 {
        lemma_shown_alike(a, b, rows.drop_last());
    }
}

/// What a page leaves of a history that may have grown: the page and what is left
/// are the whole, and where there is more, something is left, but less than before.
proof fn lemma_first_of_chain<D>(
    query: DeltasQuery,
    history: Seq<DeltaRow<D>>,
    bound: Timestamp,
    page: DocumentDeltas<D>,
)
    requires
        in_order_of_time(history),
        query.upper_bound.0 <= bound.0,
        query.is_page_of(upto(history, query.upper_bound), page),
    ensures
        upto(history, bound) == page_rows(query, upto(history, query.upper_bound)) + upto(
            rows_after(history, page.cursor),
            bound,
        ),
        query.shown_all(upto(history, bound)) == deltas_view(page.deltas@) + query.shown_all(
            upto(rows_after(history, page.cursor), bound),
        ),
        page.has_more ==> {
            &&& upto(rows_after(history, page.cursor), bound).len() > 0
            &&& upto(rows_after(history, page.cursor), bound).len() < upto(history, bound).len()
        },
        !page.has_more && query.upper_bound == bound ==> upto(
            rows_after(history, page.cursor),
            bound,
        ).len() == 0,
{
    let k = lemma_upto_is_prefix(history, query.upper_bound);
    let m = lemma_upto_is_prefix(history, bound);
    let seen = history.take(k);
    if m < k {
        assert(history.skip(m)[0] == history[m]);
        assert(seen[m] == history[m]);
    }
    let later = history.subrange(k, m);
    let whole = history.take(m);
    assert(seen + later =~= whole);
    assert forall|i: int, j: int| 0 <= i <= j < seen.len() implies (#[trigger] seen[i]).ts.0 <= (
    #[trigger] seen[j]).ts.0 by {
        assert(history[i].ts.0 <= history[j].ts.0);
    }
    assert forall|i: int| 0 <= i < later.len() implies (#[trigger] later[i]).ts.0
        > query.upper_bound.0 by {
        assert(later[i] == history.skip(k)[i]);
    }
    law_page_holds_what_comes_first(query, seen, page);
    law_page_cuts_between_timestamps(query, seen, page);
    law_later_changes_are_not_lost(query, seen, later, page);
    lemma_bounds_commute(history, page.cursor, bound);
    lemma_all_after(later, page.cursor);
    Seq::filter_distributes_over_add(
        seen,
        later,
        |row: DeltaRow<D>| row.ts.0 > page.cursor.0,
    );
    let rest = rows_after(seen, page.cursor);
    assert(rows_after(whole, page.cursor) == rest + later);
    assert(page_rows(query, seen) + rest + later =~= page_rows(query, seen) + (rest + later));
    if seen.len() == 0 {
        lemma_none_after(seen, page.cursor);
    }
    if query.upper_bound == bound {
        if k < m {
            assert(whole[k] == history.skip(k)[0]);
        }
    }
}

/// Calling again with the last cursor, as long as there is more, goes through every
/// change up to what the last call could see, once and in order. This holds
/// whatever the limits, the filters and the tables are, each of which may differ
/// from call to call.
pub proof fn law_feed_goes_through_every_change<D>(
    queries: Seq<DeltasQuery>,
    history: Seq<DeltaRow<D>>,
    pages: Seq<DocumentDeltas<D>>,
)
    requires
        in_order_of_time(history),
        bounds_grow(queries),
        is_chain(queries, history, pages),
        !pages.last().has_more,
    ensures
        rows_of_pages(queries, history, pages) == upto(history, queries.last().upper_bound),
    decreases pages.len(),
{
    let page = pages[0];
    let bound = queries.last().upper_bound;
    let rest = rows_after(history, page.cursor);
    let others = queries.drop_first();
    assert(queries[0].upper_bound.0 <= queries[queries.len() - 1].upper_bound.0);
    lemma_first_of_chain(queries[0], history, bound, page);
    if pages.len() == 1 {
        assert(upto(rest, bound) =~= Seq::empty());
        assert(rows_of_pages(others, rest, pages.drop_first()) =~= Seq::<DeltaRow<D>>::empty());
    } else {
        lemma_rows_after_in_order(history, page.cursor);
        lemma_other_calls(queries);
        assert(others.last() == queries.last());
        assert(pages.drop_first().last() == pages.last());
        law_feed_goes_through_every_change(others, rest, pages.drop_first());
    }
}

/// What holds of all calls holds of all but the first one.
proof fn lemma_other_calls(queries: Seq<DeltasQuery>)
    requires
        queries.len() > 0,
    ensures
        bounds_grow(queries) ==> bounds_grow(queries.drop_first()),
        are_calls(queries) ==> are_calls(queries.drop_first()),
{
    let others = queries.drop_first();
    assert forall|i: int, j: int| #![trigger others[i], others[j]]
        0 <= i <= j < others.len() implies {
        &&& bounds_grow(queries) ==> others[i].upper_bound.0 <= others[j].upper_bound.0
        &&& are_calls(queries) ==> others[i].mapping == others[j].mapping && others[i].filter
            == others[j].filter
    } by {
        assert(others[i] == queries[i + 1] && others[j] == queries[j + 1]);
    }
}

/// Calling again with the last cursor, as long as there is more, shows the whole
/// history, once and in order, up to what the last call could see.
pub proof fn law_feed_is_complete<D>(
    queries: Seq<DeltasQuery>,
    history: Seq<DeltaRow<D>>,
    pages: Seq<DocumentDeltas<D>>,
)
    requires
        in_order_of_time(history),
        are_calls(queries),
        is_chain(queries, history, pages),
        !pages.last().has_more,
    ensures
        all_deltas(pages) == queries[0].shown_all(upto(history, queries.last().upper_bound)),
    decreases pages.len(),
{
    let page = pages[0];
    let bound = queries.last().upper_bound;
    let rest = rows_after(history, page.cursor);
    assert(queries[0].upper_bound.0 <= queries[queries.len() - 1].upper_bound.0);
    lemma_first_of_chain(queries[0], history, bound, page);
    if pages.len() == 1 {
        assert(upto(rest, bound) =~= Seq::empty());
        assert(all_deltas(pages.drop_first()) =~= Seq::<DeltaView<D>>::empty());
        assert(all_deltas(pages) =~= deltas_view(page.deltas@));
    } else {
        let others = queries.drop_first();
        lemma_rows_after_in_order(history, page.cursor);
        lemma_other_calls(queries);
        assert(others.last() == queries.last());
        assert(pages.drop_first().last() == pages.last());
        law_feed_is_complete(others, rest, pages.drop_first());
        assert(queries[0].mapping == queries[1].mapping && queries[0].filter == queries[1].filter);
        lemma_shown_alike(queries[0], others[0], upto(rest, bound));
    }
}

/// Calling again comes to an end, whatever is asked for: there are no more calls
/// than there are rows that the last one could see.
pub proof fn law_feed_ends<D>(
    queries: Seq<DeltasQuery>,
    history: Seq<DeltaRow<D>>,
    pages: Seq<DocumentDeltas<D>>,
)
    requires
        in_order_of_time(history),
        bounds_grow(queries),
        is_chain(queries, history, pages),
    ensures
        pages.len() == 1 || pages.len() <= upto(history, queries.last().upper_bound).len(),
    decreases pages.len(),
{
    if pages.len() > 1 {
        let page = pages[0];
        let bound = queries.last().upper_bound;
        assert(queries[0].upper_bound.0 <= queries[queries.len() - 1].upper_bound.0);
        lemma_first_of_chain(queries[0], history, bound, page);
        lemma_rows_after_in_order(history, page.cursor);
        lemma_other_calls(queries);
        assert(queries.drop_first().last() == queries.last());
        law_feed_ends(
            queries.drop_first(),
            rows_after(history, page.cursor),
            pages.drop_first(),
        );
    }
}

} // verus!
