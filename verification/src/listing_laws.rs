//! What the pages of the listing of a snapshot are together.

use crate::ids::{DocumentIdV6, IndexId, InternalId, TableId, TableNumber, Timestamp};
use crate::listing::{
    documents_view, first_shown_from, is_first_shown, listed, shows_number, ListedRow,
    ListingRequest, ListingStart, SnapshotLister, SnapshotPage,
};
use crate::table_mapping::MappingView;
use vstd::prelude::*;

verus! {

/// The documents that a snapshot holds, by table.
pub type Contents<D> = Map<TableId, Seq<ListedRow<D>>>;

/// The rows of a table behind a document id.
pub open spec fn behind<D>(rows: Seq<ListedRow<D>>, id: InternalId) -> Seq<ListedRow<D>> {
    rows.filter(|row: ListedRow<D>| row.id.internal_id.0 > id.0)
}

/// Ids grow from row to row.
pub open spec fn ids_grow<D>(rows: Seq<ListedRow<D>>) -> bool {
    forall|i: int, j: int|
        0 <= i < j < rows.len() ==> (#[trigger] rows[i]).id.internal_id.0 < (
        #[trigger] rows[j]).id.internal_id.0
}

/// Every shown table is an active one, its documents are in the order of their
/// ids and carry its number, and none has the smallest id there is.
pub open spec fn holds_shown_tables<D>(
    contents: Contents<D>,
    mapping: MappingView,
    filter: Option<Seq<char>>,
) -> bool {
    forall|number: TableNumber| #[trigger]
        shows_number(mapping, filter, number) ==> {
            let rows = contents[mapping.numbers[number]];
            &&& mapping.numbers.contains_key(number)
            &&& ids_grow(rows)
            &&& forall|i: int|
                0 <= i < rows.len() ==> {
                    &&& (#[trigger] rows[i]).id.table.table_number == number
                    &&& rows[i].id.internal_id.0 > 0
                }
        }
}

/// The rows of all shown tables whose number is not below `from`, in the order
/// of table numbers.
pub open spec fn rows_from<D>(
    contents: Contents<D>,
    mapping: MappingView,
    filter: Option<Seq<char>>,
    from: int,
) -> Seq<ListedRow<D>>
    decreases 0x1_0000_0000 - from,
{
    match first_shown_from(mapping, filter, from) {
        Some(number) => if number.0 >= from {
            contents[mapping.numbers[number]] + rows_from(contents, mapping, filter, number.0 + 1)
        } else {
            Seq::empty()
        },
        None => Seq::empty(),
    }
}

/// The rows that are still to be listed behind a cursor.
pub open spec fn left<D>(
    contents: Contents<D>,
    mapping: MappingView,
    filter: Option<Seq<char>>,
    cursor: Option<DocumentIdV6>,
) -> Seq<ListedRow<D>> {
    match cursor {
        Some(c) => behind(contents[mapping.numbers[c.table_number]], c.internal_id) + rows_from(
            contents,
            mapping,
            filter,
            c.table_number.0 + 1,
        ),
        None => rows_from(contents, mapping, filter, 0),
    }
}

/// How many shown tables have a number that is not below `from`.
pub open spec fn tables_from(
    mapping: MappingView,
    filter: Option<Seq<char>>,
    from: int,
) -> nat
    decreases 0x1_0000_0000 - from,
{
    match first_shown_from(mapping, filter, from) {
        Some(number) => if number.0 >= from {
            1 + tables_from(mapping, filter, number.0 + 1)
        } else {
            0
        },
        None => 0,
    }
}

/// How many pages there can be behind a cursor that say that there is more: one
/// for each row, and one for each table that is not reached yet.
pub open spec fn steps_left<D>(
    contents: Contents<D>,
    mapping: MappingView,
    filter: Option<Seq<char>>,
    cursor: Option<DocumentIdV6>,
) -> nat {
    left(contents, mapping, filter, cursor).len() + match cursor {
        Some(c) => tables_from(mapping, filter, c.table_number.0 + 1),
        None => tables_from(mapping, filter, 0),
    }
}

/// The rows that a scan yields: those of its table, behind its cursor.
pub open spec fn scanned<D>(contents: Contents<D>, lister: SnapshotLister<D>) -> Seq<
    ListedRow<D>,
> {
    let rows = contents[lister.spec_scan().table_id];
    match lister.spec_scan().cursor {
        Some(c) => behind(rows, c.internal_id),
        None => rows,
    }
}

/// Whether `page` is what is returned for a cursor.
pub open spec fn is_page_for<D>(
    request: ListingRequest,
    contents: Contents<D>,
    mapping: MappingView,
    by_id_indexes: Map<TableId, IndexId>,
    filter: Option<Seq<char>>,
    cursor: Option<DocumentIdV6>,
    page: SnapshotPage<D>,
) -> bool {
    exists|start: ListingStart<D>|
        {
            &&& #[trigger] request.starts(mapping, by_id_indexes, cursor, filter, Ok(start))
            &&& match start {
                ListingStart::Empty(empty) => page == empty,
                ListingStart::Scan(lister) => lister.makes_page(scanned(contents, lister), page),
            }
        }
}

/// Whether `pages` are what is returned by calling again about a snapshot, each
/// time with the last cursor, for no longer than there is more. The limits may
/// differ from call to call.
pub open spec fn is_listing<D>(
    requests: Seq<ListingRequest>,
    contents: Contents<D>,
    mapping: MappingView,
    by_id_indexes: Map<TableId, IndexId>,
    filter: Option<Seq<char>>,
    cursor: Option<DocumentIdV6>,
    pages: Seq<SnapshotPage<D>>,
) -> bool
    decreases pages.len(),
{
    &&& pages.len() > 0
    &&& requests.len() == pages.len()
    &&& is_page_for(requests[0], contents, mapping, by_id_indexes, filter, cursor, pages[0])
    &&& pages.len() > 1 ==> {
        &&& pages[0].has_more
        &&& is_listing(
            requests.drop_first(),
            contents,
            mapping,
            by_id_indexes,
            filter,
            pages[0].cursor,
            pages.drop_first(),
        )
    }
}

/// The documents of pages, one page after the other.
pub open spec fn all_documents<D>(pages: Seq<SnapshotPage<D>>) -> Seq<(Timestamp, Seq<char>, D)>
    decreases pages.len(),
{
    if pages.len() == 0 {
        Seq::empty()
    } else {
        documents_view(pages[0].documents@) + all_documents(pages.drop_first())
    }
}

/// There always is an answer to which table is the first shown one.
proof fn lemma_first_shown_exists(
    mapping: MappingView,
    filter: Option<Seq<char>>,
    from: int,
    upto: int,
)
    requires
        upto >= 0,
        forall|m: TableNumber|
            m.0 >= from && #[trigger] shows_number(mapping, filter, m) ==> m.0 >= upto,
    ensures
        is_first_shown(mapping, filter, from, first_shown_from(mapping, filter, from)),
    decreases 0x1_0000_0000 - upto,
{
    if upto > 0xffff_ffff {
        assert(is_first_shown(mapping, filter, from, None));
    } else {
        let candidate = TableNumber(upto as u32);
        if upto >= from && shows_number(mapping, filter, candidate) {
            assert(is_first_shown(mapping, filter, from, Some(candidate)));
        } else {
            assert forall|m: TableNumber|
                m.0 >= from && #[trigger] shows_number(mapping, filter, m) implies m.0 >= upto
                + 1 by {
                if m.0 == upto {
                    assert(m == candidate);
                }
            }
            lemma_first_shown_exists(mapping, filter, from, upto + 1);
        }
    }
}

pub proof fn lemma_first_shown(mapping: MappingView, filter: Option<Seq<char>>, from: int)
    ensures
        is_first_shown(mapping, filter, from, first_shown_from(mapping, filter, from)),
{
    lemma_first_shown_exists(mapping, filter, from, 0);
}

proof fn lemma_none_behind<D>(rows: Seq<ListedRow<D>>, id: InternalId)
    requires
        forall|i: int| 0 <= i < rows.len() ==> (#[trigger] rows[i]).id.internal_id.0 <= id.0,
    ensures
        behind(rows, id) == Seq::<ListedRow<D>>::empty(),
    decreases rows.len(),
{
    reveal(Seq::filter);
    if rows.len() > 0 {
        lemma_none_behind(rows.drop_last(), id);
    }
}

proof fn lemma_all_behind<D>(rows: Seq<ListedRow<D>>, id: InternalId)
    requires
        forall|i: int| 0 <= i < rows.len() ==> (#[trigger] rows[i]).id.internal_id.0 > id.0,
    ensures
        behind(rows, id) == rows,
    decreases rows.len(),
{
    reveal(Seq::filter);
    if rows.len() > 0 {
        lemma_all_behind(rows.drop_last(), id);
        assert(rows.drop_last().push(rows.last()) =~= rows);
    } else {
        assert(behind(rows, id) =~= rows);
    }
}

/// What is behind an id is the end of the rows.
proof fn lemma_behind_is_suffix<D>(rows: Seq<ListedRow<D>>, id: InternalId) -> (k: int)
    requires
        ids_grow(rows),
    ensures
        0 <= k <= rows.len(),
        behind(rows, id) == rows.skip(k),
        forall|i: int| 0 <= i < k ==> (#[trigger] rows[i]).id.internal_id.0 <= id.0,
    decreases rows.len(),
{
    if rows.len() == 0 {
        lemma_none_behind(rows, id);
        assert(rows.skip(0) =~= rows);
        0
    } else if rows[0].id.internal_id.0 > id.0 {
        assert forall|i: int| 0 <= i < rows.len() implies (
        #[trigger] rows[i]).id.internal_id.0 > id.0 by {
            if i > 0 {
                assert(rows[0].id.internal_id.0 < rows[i].id.internal_id.0);
            }
        }
        lemma_all_behind(rows, id);
        assert(rows.skip(0) =~= rows);
        0
    } else {
        let rest = rows.drop_first();
        assert forall|i: int, j: int| 0 <= i < j < rest.len() implies (
        #[trigger] rest[i]).id.internal_id.0 < (#[trigger] rest[j]).id.internal_id.0 by {
            assert(rows[i + 1].id.internal_id.0 < rows[j + 1].id.internal_id.0);
        }
        let k = lemma_behind_is_suffix(rest, id);
        let head = rows.take(1);
        assert(head + rest =~= rows);
        lemma_none_behind(head, id);
        Seq::filter_distributes_over_add(
            head,
            rest,
            |row: ListedRow<D>| row.id.internal_id.0 > id.0,
        );
        assert(behind(rows, id) =~= rest.skip(k));
        assert(rest.skip(k) =~= rows.skip(k + 1));
        assert forall|i: int| 0 <= i < k + 1 implies (
        #[trigger] rows[i]).id.internal_id.0 <= id.0 by {
            if i > 0 {
                assert(rows[i] == rest[i - 1]);
            }
        }
        k + 1
    }
}

/// What is behind the `n`-th row behind an id is the rest of those rows.
proof fn lemma_behind_again<D>(rows: Seq<ListedRow<D>>, tail: Seq<ListedRow<D>>, k: int, n: int)
    requires
        ids_grow(rows),
        0 <= k,
        0 < n <= tail.len(),
        k + tail.len() == rows.len(),
        tail == rows.skip(k),
    ensures
        behind(rows, tail[n - 1].id.internal_id) == tail.skip(n),
{
    let id = tail[n - 1].id.internal_id;
    let front = rows.take(k + n);
    let back = rows.skip(k + n);
    assert(front + back =~= rows);
    assert(back =~= tail.skip(n));
    assert(rows[k + n - 1] == tail[n - 1]);
    assert forall|i: int| 0 <= i < front.len() implies (
    #[trigger] front[i]).id.internal_id.0 <= id.0 by {
        if i < k + n - 1 {
            assert(rows[i].id.internal_id.0 < rows[k + n - 1].id.internal_id.0);
        }
    }
    assert forall|i: int| 0 <= i < back.len() implies (
    #[trigger] back[i]).id.internal_id.0 > id.0 by {
        assert(rows[k + n - 1].id.internal_id.0 < rows[k + n + i].id.internal_id.0);
    }
    lemma_none_behind(front, id);
    lemma_all_behind(back, id);
    Seq::filter_distributes_over_add(
        front,
        back,
        |row: ListedRow<D>| row.id.internal_id.0 > id.0,
    );
    assert(Seq::<ListedRow<D>>::empty() + back =~= back);
}

proof fn lemma_listed_concat<D>(
    mapping: MappingView,
    front: Seq<ListedRow<D>>,
    back: Seq<ListedRow<D>>,
)
    ensures
        listed(mapping, front + back) == listed(mapping, front) + listed(mapping, back),
{
    assert(listed(mapping, front + back) =~= listed(mapping, front) + listed(mapping, back));
}

/// What a page lists, followed by what is left behind its cursor, is what was
/// left before. A page without a cursor leaves nothing, and a page says that
/// there is more exactly where it has a cursor, which lies in a shown table. Such
/// a page moves on: it lists a document or comes to a larger table number.
pub proof fn law_page_lists_what_is_next<D>(
    request: ListingRequest,
    contents: Contents<D>,
    mapping: MappingView,
    by_id_indexes: Map<TableId, IndexId>,
    filter: Option<Seq<char>>,
    cursor: Option<DocumentIdV6>,
    page: SnapshotPage<D>,
)
    requires
        holds_shown_tables(contents, mapping, filter),
        cursor matches Some(c) ==> shows_number(mapping, filter, c.table_number),
        is_page_for(request, contents, mapping, by_id_indexes, filter, cursor, page),
    ensures
        listed(mapping, left(contents, mapping, filter, cursor)) == documents_view(page.documents@)
            + if page.has_more {
            listed(mapping, left(contents, mapping, filter, page.cursor))
        } else {
            Seq::empty()
        },
        page.has_more == (page.cursor is Some),
        page.cursor matches Some(c) ==> shows_number(mapping, filter, c.table_number),
        page.snapshot == request.snapshot,
        page.has_more ==> steps_left(contents, mapping, filter, page.cursor) < steps_left(
            contents,
            mapping,
            filter,
            cursor,
        ),
        page.has_more && cursor is Some ==> page.documents@.len() > 0
            || page.cursor->0.table_number.0 > cursor->0.table_number.0,
{
    let from: int = match cursor {
        Some(c) => c.table_number.0 as int,
        None => 0,
    };
    lemma_first_shown(mapping, filter, from);
    if let Some(c) = cursor {
        assert(shows_number(mapping, filter, c.table_number));
        assert(mapping.numbers.contains_key(c.table_number));
    }
    let start = choose|start: ListingStart<D>|
        {
            &&& #[trigger] request.starts(mapping, by_id_indexes, cursor, filter, Ok(start))
            &&& match start {
                ListingStart::Empty(empty) => page == empty,
                ListingStart::Scan(lister) => lister.makes_page(scanned(contents, lister), page),
            }
        };
    match first_shown_from(mapping, filter, from) {
        None => {
            assert(cursor is None);
            assert(left(contents, mapping, filter, cursor) =~= Seq::empty());
            assert(listed(mapping, left(contents, mapping, filter, cursor)) =~= Seq::empty());
            assert(documents_view(page.documents@) =~= Seq::empty());
        },
        Some(number) => {
            assert(shows_number(mapping, filter, number));
            let lister = start->Scan_0;
            let table = contents[mapping.numbers[number]];
            let tail = scanned(contents, lister);
            if let Some(c) = cursor {
                assert(number.0 <= c.table_number.0);
                assert(number == c.table_number);
            }
            let rest = rows_from(contents, mapping, filter, number.0 + 1);
            assert(left(contents, mapping, filter, cursor) == tail + rest);
            let k: int = match cursor {
                Some(c) => lemma_behind_is_suffix(table, c.internal_id),
                None => 0,
            };
            assert(tail =~= table.skip(k));
            assert(tables_from(mapping, filter, from) == 1 + tables_from(
                mapping,
                filter,
                number.0 + 1,
            ));
            if exists|n: nat| 0 < n <= tail.len() && #[trigger] lister.is_full(n) {
                let n = choose|n: nat|
                    {
                        &&& 0 < n <= tail.len()
                        &&& #[trigger] lister.is_full(n)
                        &&& forall|i: nat| 0 < i < n ==> !#[trigger] lister.is_full(i)
                        &&& lister.is_page(tail.take(n as int), Some(tail[n - 1].id_v6()), page)
                    };
                lemma_behind_again(table, tail, k, n as int);
                assert(tail[n - 1] == table[k + n - 1]);
                assert(tail.take(n as int) + (tail.skip(n as int) + rest) =~= tail + rest);
                lemma_listed_concat(mapping, tail.take(n as int), tail.skip(n as int) + rest);
                assert(page.cursor->0.table_number == number);
                assert(left(contents, mapping, filter, page.cursor) == tail.skip(n as int) + rest);
            } else {
                lemma_first_shown(mapping, filter, number.0 + 1);
                lemma_listed_concat(mapping, tail, rest);
                match first_shown_from(mapping, filter, number.0 + 1) {
                    Some(next) => {
                        assert(shows_number(mapping, filter, next));
                        lemma_all_behind(contents[mapping.numbers[next]], InternalId(0));
                        assert(left(contents, mapping, filter, page.cursor) == rest);
                        assert(tables_from(mapping, filter, number.0 + 1) == 1 + tables_from(
                            mapping,
                            filter,
                            next.0 + 1,
                        ));
                    },
                    None => {
                        assert(rest =~= Seq::empty());
                        assert(listed(mapping, rest) =~= Seq::empty());
                    },
                }
            }
        },
    }
}

/// Calling again with the last cursor, as long as there is more, lists every
/// document of every shown table, once and in the order of table numbers and
/// ids.
pub proof fn law_listing_is_complete<D>(
    requests: Seq<ListingRequest>,
    contents: Contents<D>,
    mapping: MappingView,
    by_id_indexes: Map<TableId, IndexId>,
    filter: Option<Seq<char>>,
    cursor: Option<DocumentIdV6>,
    pages: Seq<SnapshotPage<D>>,
)
    requires
        holds_shown_tables(contents, mapping, filter),
        cursor matches Some(c) ==> shows_number(mapping, filter, c.table_number),
        is_listing(requests, contents, mapping, by_id_indexes, filter, cursor, pages),
        !pages.last().has_more,
    ensures
        all_documents(pages) == listed(mapping, left(contents, mapping, filter, cursor)),
        cursor is None ==> all_documents(pages) == listed(
            mapping,
            rows_from(contents, mapping, filter, 0),
        ),
    decreases pages.len(),
{
    law_page_lists_what_is_next(
        requests[0],
        contents,
        mapping,
        by_id_indexes,
        filter,
        cursor,
        pages[0],
    );
    if pages.len() == 1 {
        assert(all_documents(pages.drop_first()) =~= Seq::empty());
    } else {
        assert(pages.drop_first().last() == pages.last());
        law_listing_is_complete(
            requests.drop_first(),
            contents,
            mapping,
            by_id_indexes,
            filter,
            pages[0].cursor,
            pages.drop_first(),
        );
    }
}

/// Calling again comes to an end, whatever the limits are.
pub proof fn law_listing_ends<D>(
    requests: Seq<ListingRequest>,
    contents: Contents<D>,
    mapping: MappingView,
    by_id_indexes: Map<TableId, IndexId>,
    filter: Option<Seq<char>>,
    cursor: Option<DocumentIdV6>,
    pages: Seq<SnapshotPage<D>>,
)
    requires
        holds_shown_tables(contents, mapping, filter),
        cursor matches Some(c) ==> shows_number(mapping, filter, c.table_number),
        is_listing(requests, contents, mapping, by_id_indexes, filter, cursor, pages),
    ensures
        pages.len() <= steps_left(contents, mapping, filter, cursor) + 1,
    decreases pages.len(),
{
    if pages.len() > 1 {
        law_page_lists_what_is_next(
            requests[0],
            contents,
            mapping,
            by_id_indexes,
            filter,
            cursor,
            pages[0],
        );
        law_listing_ends(
            requests.drop_first(),
            contents,
            mapping,
            by_id_indexes,
            filter,
            pages[0].cursor,
            pages.drop_first(),
        );
    }
}

} // verus!
