//! The listing of a snapshot: pages of documents, table by table.

use crate::deltas::{filter_view, shows_table, user_table_filter};
use crate::errors::{refuses, unauthorized_error, DatabaseError, ServiceError};
use crate::identity::Identity;
use crate::ids::{
    DocumentIdV6, IndexId, InternalId, ResolvedDocumentId, TableId, TableIdAndTableNumber, TableNumber,
    Timestamp,
};
use crate::names::TableName;
use crate::scan::{ByIdIndexes, RowQuota, TableIterator, TableScan};
use crate::table_mapping::{MappingView, TableMapping};
use vstd::prelude::*;

verus! {

/// How many documents are read at a time while a snapshot is listed.
pub const LISTING_PAGE_SIZE: usize = 100;

/// How many documents a second are read while a snapshot is listed.
pub const LISTING_ROWS_PER_SECOND: u32 = 100;

/// A document that a scan of its table came upon.
#[derive(Debug, PartialEq, Eq)]
pub struct ListedRow<D> {
    pub ts: Timestamp,
    pub id: ResolvedDocumentId,
    pub document: D,
}

/// A page of the listing of a snapshot.
#[derive(Debug, PartialEq, Eq)]
pub struct SnapshotPage<D> {
    pub documents: Vec<(Timestamp, TableName, D)>,
    pub snapshot: Timestamp,
    /// Where the next page begins.
    pub cursor: Option<DocumentIdV6>,
    pub has_more: bool,
}

/// What the documents of a page say.
pub open spec fn documents_view<D>(documents: Seq<(Timestamp, TableName, D)>) -> Seq<
    (Timestamp, Seq<char>, D),
> {
    documents.map_values(|d: (Timestamp, TableName, D)| (d.0, d.1@, d.2))
}

/// What is listed of rows.
pub open spec fn listed<D>(mapping: MappingView, rows: Seq<ListedRow<D>>) -> Seq<
    (Timestamp, Seq<char>, D),
> {
    rows.map_values(
        |row: ListedRow<D>| (row.ts, mapping.tablets[row.id.table.table_id].1, row.document),
    )
}

/// Whether a table with this number is shown.
pub open spec fn shows_number(
    mapping: MappingView,
    filter: Option<Seq<char>>,
    number: TableNumber,
) -> bool {
    exists|id: TableId|
        {
            &&& #[trigger] mapping.tablets.contains_key(id)
            &&& mapping.tablets[id].0 == number
            &&& shows_table(filter, mapping.tablets[id].1)
        }
}

/// Whether `number` is the smallest shown number that is not below `from`.
pub open spec fn is_first_shown(
    mapping: MappingView,
    filter: Option<Seq<char>>,
    from: int,
    number: Option<TableNumber>,
) -> bool {
    match number {
        Some(n) => {
            &&& n.0 >= from
            &&& shows_number(mapping, filter, n)
            &&& forall|m: TableNumber|
                m.0 >= from && #[trigger] shows_number(mapping, filter, m) ==> n.0 <= m.0
        },
        None => forall|m: TableNumber| m.0 >= from ==> !#[trigger] shows_number(mapping, filter, m),
    }
}

/// The smallest shown number that is not below `from`.
pub open spec fn first_shown_from(
    mapping: MappingView,
    filter: Option<Seq<char>>,
    from: int,
) -> Option<TableNumber> {
    choose|number: Option<TableNumber>| is_first_shown(mapping, filter, from, number)
}

proof fn lemma_first_shown_is_unique(
    mapping: MappingView,
    filter: Option<Seq<char>>,
    from: int,
    a: Option<TableNumber>,
    b: Option<TableNumber>,
)
    requires
        is_first_shown(mapping, filter, from, a),
        is_first_shown(mapping, filter, from, b),
    ensures
        a == b,
{
    match (a, b) {
        (Some(n), Some(m)) => {
            assert(shows_number(mapping, filter, n) && shows_number(mapping, filter, m));
            assert(n.0 == m.0);
        },
        (Some(n), None) => {
            assert(shows_number(mapping, filter, n));
        },
        (None, Some(m)) => {
            assert(shows_number(mapping, filter, m));
        },
        (None, None) => {},
    }
}

/// The smallest shown number that is not below `from`.
fn first_shown(mapping: &TableMapping, filter: &Option<TableName>, from: u32) -> (number: Option<
    TableNumber,
>)
    ensures
        is_first_shown(mapping@, filter_view(*filter), from as int, number),
        number == first_shown_from(mapping@, filter_view(*filter), from as int),
{
    let ids = mapping.table_ids();
    let ghost view = mapping@;
    let ghost wanted = filter_view(*filter);
    let mut best: Option<TableNumber> = None;
    for i in 0..ids.len()
        invariant
            view == mapping@,
            wanted == filter_view(*filter),
            forall|id: TableId| #[trigger] ids@.contains(id) <==> view.tablets.contains_key(id),
            best matches Some(n) ==> n.0 >= from && shows_number(view, wanted, n),
            forall|j: int|
                0 <= j < i && view.tablets[#[trigger] ids@[j]].0.0 >= from && shows_table(
                    wanted,
                    view.tablets[ids@[j]].1,
                ) ==> best is Some && best->0 .0 <= view.tablets[ids@[j]].0.0,
    {
        let id = ids[i];
        assert(ids@.contains(id));
        if let (Some(name), Some(number)) = (mapping.tablet_name(id), mapping.tablet_number(id)) {
            if number.0 >= from && user_table_filter(filter, name) {
                assert(view.tablets.contains_key(id));
                let smaller = match best {
                    Some(n) => number.0 < n.0,
                    None => true,
                };
                if smaller {
                    best = Some(number);
                }
            }
        }
    }
    proof {
        assert forall|m: TableNumber|
            m.0 >= from && #[trigger] shows_number(view, wanted, m) implies best is Some
            && best->0 .0 <= m.0 by {
            let id = choose|id: TableId|
                {
                    &&& #[trigger] view.tablets.contains_key(id)
                    &&& view.tablets[id].0 == m
                    &&& shows_table(wanted, view.tablets[id].1)
                };
            assert(ids@.contains(id));
            let j = choose|j: int| 0 <= j < ids.len() && ids@[j] == id;
            assert(view.tablets[ids@[j]].0 == m);
        }
        lemma_first_shown_is_unique(
            view,
            wanted,
            from as int,
            best,
            first_shown_from(view, wanted, from as int),
        );
    }
    best
}

/// A request for a page of a listing that was found in order.
#[derive(Debug)]
pub struct ListingRequest {
    /// The point of the history that is listed.
    pub snapshot: Timestamp,
    pub rows_read_limit: usize,
    pub rows_returned_limit: usize,
}

impl ListingRequest {
    /// Whether `request` is what becomes of a request for a page of the listing of
    /// a snapshot.
    pub open spec fn is_request(
        identity: Identity,
        snapshot: Option<Timestamp>,
        now: Timestamp,
        rows_read_limit: usize,
        rows_returned_limit: usize,
        request: Result<ListingRequest, DatabaseError>,
    ) -> bool {
        match request {
            Ok(r) => {
                &&& identity.is_privileged()
                &&& rows_returned_limit <= rows_read_limit
                &&& match snapshot {
                    Some(ts) => ts.0 <= now.0 && r.snapshot == ts,
                    None => r.snapshot == now,
                }
                &&& r.rows_read_limit == rows_read_limit
                &&& r.rows_returned_limit == rows_returned_limit
            },
            Err(error) => if !identity.is_privileged() {
                refuses(error, "list_snapshot"@)
            } else if rows_read_limit < rows_returned_limit {
                error == (DatabaseError::ReturnLimitAboveReadLimit {
                    rows_read_limit,
                    rows_returned_limit,
                })
            } else {
                &&& snapshot matches Some(ts)
                &&& ts.0 > now.0
                &&& error == (DatabaseError::NotRepeatable { ts, latest: now })
            },
        }
    }

    /// Takes a request for a page of a listing. It is refused to callers that
    /// are neither the system nor an administrator, where more rows may be
    /// returned than read, and for a snapshot that is not repeatable yet. With
    /// no snapshot given the latest one is listed.
    pub fn new(
        identity: &Identity,
        snapshot: Option<Timestamp>,
        now: Timestamp,
        rows_read_limit: usize,
        rows_returned_limit: usize,
    ) -> (request: Result<ListingRequest, DatabaseError>)
        ensures
            ListingRequest::is_request(
                *identity,
                snapshot,
                now,
                rows_read_limit,
                rows_returned_limit,
                request,
            ),
    {
        if !(identity.is_system() || identity.is_admin()) {
            return Err(DatabaseError::Metadata(unauthorized_error("list_snapshot")));
        }
        if rows_read_limit < rows_returned_limit {
            return Err(
                DatabaseError::ReturnLimitAboveReadLimit { rows_read_limit, rows_returned_limit },
            );
        }
        let snapshot = match snapshot {
            Some(ts) => {
                if ts.0 > now.0 {
                    return Err(DatabaseError::NotRepeatable { ts, latest: now });
                }
                ts
            },
            None => now,
        };
        Ok(ListingRequest { snapshot, rows_read_limit, rows_returned_limit })
    }

    /// Whether `start` is how a page begins.
    pub open spec fn starts<D>(
        self,
        mapping: MappingView,
        by_id_indexes: Map<TableId, IndexId>,
        cursor: Option<DocumentIdV6>,
        filter: Option<Seq<char>>,
        start: Result<ListingStart<D>, DatabaseError>,
    ) -> bool {
        let from: int = match cursor {
            Some(c) => c.table_number.0 as int,
            None => 0,
        };
        if cursor is Some && !mapping.numbers.contains_key(cursor->0.table_number) {
            start == Err::<ListingStart<D>, DatabaseError>(
                DatabaseError::TableNumberNotFound { table_number: cursor->0.table_number },
            )
        } else {
            match first_shown_from(mapping, filter, from) {
                None => {
                    &&& start matches Ok(ListingStart::Empty(page))
                    &&& page.documents@.len() == 0
                    &&& page.snapshot == self.snapshot
                    &&& page.cursor is None
                    &&& !page.has_more
                },
                Some(number) => if !mapping.numbers.contains_key(number) {
                    start == Err::<ListingStart<D>, DatabaseError>(
                        DatabaseError::TableNumberNotFound { table_number: number },
                    )
                } else if !by_id_indexes.contains_key(mapping.numbers[number]) {
                    start == Err::<ListingStart<D>, DatabaseError>(
                        DatabaseError::ByIdIndexMissing { table_id: mapping.numbers[number] },
                    )
                } else {
                    &&& start matches Ok(ListingStart::Scan(lister))
                    &&& lister.mapping() == mapping
                    &&& lister.limits() == (self.rows_read_limit, self.rows_returned_limit)
                    &&& lister.snapshot() == self.snapshot
                    &&& lister.next_table() == first_shown_from(mapping, filter, number.0 + 1)
                    &&& lister.spec_scan() == (TableScan {
                        iterator: TableIterator {
                            snapshot_ts: self.snapshot,
                            page_size: LISTING_PAGE_SIZE,
                        },
                        table_id: mapping.numbers[number],
                        by_id: by_id_indexes[mapping.numbers[number]],
                        cursor: resolve_cursor(mapping, cursor),
                    })
                    &&& lister.has_read(Seq::empty())
                },
            }
        }
    }

    /// Begins a page, among the tables that the snapshot has and behind the
    /// cursor of the last page.
    ///
    /// The page comes from the shown table with the smallest number that is not
    /// below the cursor's. Fails where no active table has the cursor's number
    /// or the number of that table, and where that table has no index over
    /// document ids.
    pub fn start<D>(
        self,
        mapping: TableMapping,
        by_id_indexes: &ByIdIndexes,
        cursor: Option<DocumentIdV6>,
        table_filter: &Option<TableName>,
    ) -> (start: Result<ListingStart<D>, DatabaseError>)
        ensures
            self.starts(mapping@, by_id_indexes@, cursor, filter_view(*table_filter), start),
    {
        let ghost filter = filter_view(*table_filter);
        let resolved: Option<ResolvedDocumentId> = match cursor {
            Some(c) => match mapping.id_by_number(c.table_number) {
                Some(table_id) => Some(
                    ResolvedDocumentId {
                        table: TableIdAndTableNumber { table_id, table_number: c.table_number },
                        internal_id: c.internal_id,
                    },
                ),
                None => {
                    return Err(
                        DatabaseError::TableNumberNotFound { table_number: c.table_number },
                    );
                },
            },
            None => None,
        };
        let from: u32 = match cursor {
            Some(c) => c.table_number.0,
            None => 0,
        };
        let first = first_shown(&mapping, table_filter, from);
        let number = match first {
            Some(number) => number,
            None => {
                return Ok(
                    ListingStart::Empty(
                        SnapshotPage {
                            documents: Vec::new(),
                            snapshot: self.snapshot,
                            cursor: None,
                            has_more: false,
                        },
                    ),
                );
            },
        };
        let table_id = match mapping.id_by_number(number) {
            Some(table_id) => table_id,
            None => {
                return Err(DatabaseError::TableNumberNotFound { table_number: number });
            },
        };
        let by_id = match by_id_indexes.get(table_id) {
            Some(by_id) => by_id,
            None => {
                return Err(DatabaseError::ByIdIndexMissing { table_id });
            },
        };
        let next_table: Option<TableNumber> = if number.0 < 0xffff_ffff {
            first_shown(&mapping, table_filter, number.0 + 1)
        } else {
            proof {
                assert(is_first_shown(mapping@, filter, number.0 + 1, None));
                lemma_first_shown_is_unique(
                    mapping@,
                    filter,
                    number.0 + 1,
                    None,
                    first_shown_from(mapping@, filter, number.0 + 1),
                );
            }
            None
        };
        let scan = TableScan {
            iterator: TableIterator { snapshot_ts: self.snapshot, page_size: LISTING_PAGE_SIZE },
            table_id,
            by_id,
            cursor: resolved,
        };
        let lister = SnapshotLister {
            mapping,
            scan,
            next_table,
            rows_read_limit: self.rows_read_limit,
            rows_returned_limit: self.rows_returned_limit,
            documents: Vec::new(),
        };
        assert(documents_view(lister.documents@) =~= listed(lister.mapping@, Seq::empty()));
        Ok(ListingStart::Scan(lister))
    }
}

/// A cursor with its table in both names.
pub open spec fn resolve_cursor(mapping: MappingView, cursor: Option<DocumentIdV6>) -> Option<
    ResolvedDocumentId,
> {
    match cursor {
        Some(c) => Some(
            ResolvedDocumentId {
                table: TableIdAndTableNumber {
                    table_id: mapping.numbers[c.table_number],
                    table_number: c.table_number,
                },
                internal_id: c.internal_id,
            },
        ),
        None => None,
    }
}

/// How a page of a listing begins.
#[derive(Debug)]
pub enum ListingStart<D> {
    /// There is nothing left to list.
    Empty(SnapshotPage<D>),
    /// The documents come out of a scan.
    Scan(SnapshotLister<D>),
}

/// A page of a listing while it is put together.
#[derive(Debug)]
pub struct SnapshotLister<D> {
    mapping: TableMapping,
    scan: TableScan,
    next_table: Option<TableNumber>,
    rows_read_limit: usize,
    rows_returned_limit: usize,
    documents: Vec<(Timestamp, TableName, D)>,
}

/// What comes out of a scan when its next row is asked for.
#[derive(Debug)]
pub enum ListingEvent<D> {
    Row(ListedRow<D>),
    End,
    Failed(ServiceError),
}

/// What is to be done next.
#[derive(Debug)]
pub enum ListingOutcome<D> {
    /// Read the next row.
    More(SnapshotLister<D>),
    /// The page is complete.
    Done(SnapshotPage<D>),
    /// There is no page.
    Failed(DatabaseError),
}

impl<D> SnapshotLister<D> {
    /// The tables of the snapshot.
    pub closed spec fn mapping(self) -> MappingView {
        self.mapping@
    }

    /// How many documents may be read, and how many returned.
    pub closed spec fn limits(self) -> (usize, usize) {
        (self.rows_read_limit, self.rows_returned_limit)
    }

    /// Whether so many rows use up one of the limits.
    pub open spec fn is_full(self, rows: nat) -> bool {
        rows >= self.limits().0 || rows >= self.limits().1
    }

    /// The point of the history that is listed.
    pub closed spec fn snapshot(self) -> Timestamp {
        self.scan.iterator.snapshot_ts
    }

    /// The table that is listed after this one.
    pub closed spec fn next_table(self) -> Option<TableNumber> {
        self.next_table
    }

    /// The scan that the rows come from.
    pub closed spec fn spec_scan(self) -> TableScan {
        self.scan
    }

    /// Whether the page so far is made up of `rows`.
    pub closed spec fn has_read(self, rows: Seq<ListedRow<D>>) -> bool {
        &&& documents_view(self.documents@) == listed(self.mapping@, rows)
        &&& rows.len() == 0 || !self.is_full(rows.len())
    }

    /// Whether `page` holds exactly `rows`, and the next one begins at `cursor`.
    pub open spec fn is_page(
        self,
        rows: Seq<ListedRow<D>>,
        cursor: Option<DocumentIdV6>,
        page: SnapshotPage<D>,
    ) -> bool {
        &&& documents_view(page.documents@) == listed(self.mapping(), rows)
        &&& page.snapshot == self.snapshot()
        &&& page.cursor == cursor
        &&& page.has_more == (cursor is Some)
    }

    /// Whether `page` is what a lister makes of the rows of its scan: it takes
    /// them up to the first one that uses up a limit, or else all of them.
    pub open spec fn makes_page(self, rows: Seq<ListedRow<D>>, page: SnapshotPage<D>) -> bool {
        if exists|n: nat| 0 < n <= rows.len() && #[trigger] self.is_full(n) {
            exists|n: nat|
                {
                    &&& 0 < n <= rows.len()
                    &&& #[trigger] self.is_full(n)
                    &&& forall|k: nat| 0 < k < n ==> !#[trigger] self.is_full(k)
                    &&& self.is_page(rows.take(n as int), Some(rows[n - 1].id_v6()), page)
                }
        } else {
            self.is_page(rows, start_of_table(self.next_table()), page)
        }
    }

    /// Whether the `i`-th row of the scan is the first one of a table that the
    /// snapshot does not have, and is reached.
    pub open spec fn fails_at(self, rows: Seq<ListedRow<D>>, i: int) -> bool {
        &&& 0 <= i < rows.len()
        &&& !self.mapping().tablets.contains_key(rows[i].id.table.table_id)
        &&& forall|j: int|
            0 <= j < i ==> self.mapping().tablets.contains_key(
                (#[trigger] rows[j]).id.table.table_id,
            )
        &&& forall|k: nat| 0 < k <= i ==> !#[trigger] self.is_full(k)
    }

    /// Whether everything but the rows read is as it was.
    pub open spec fn continues(self, earlier: SnapshotLister<D>) -> bool {
        &&& self.mapping() == earlier.mapping()
        &&& self.limits() == earlier.limits()
        &&& self.snapshot() == earlier.snapshot()
        &&& self.next_table() == earlier.next_table()
        &&& self.spec_scan() == earlier.spec_scan()
    }

    /// The scan that the rows are to come from.
    pub fn scan(&self) -> (scan: TableScan)
        ensures
            scan == self.spec_scan(),
    {
        self.scan
    }

    /// How fast rows may be read.
    pub fn quota() -> (quota: RowQuota)
        ensures
            quota.is_per_second(LISTING_ROWS_PER_SECOND as int),
    {
        RowQuota::per_second(LISTING_ROWS_PER_SECOND)
    }

    /// Takes what came out of the scan next.
    ///
    /// A row of a table that the snapshot does not have is an error. Any other
    /// row becomes part of the page, and completes it if no more may be
    /// returned: the next page then begins behind it. The end of the table
    /// completes the page: the next page then begins with the next table.
    pub fn step(self, event: ListingEvent<D>) -> (outcome: ListingOutcome<D>)
        ensures
            match event {
                ListingEvent::Row(row) => if !self.mapping().tablets.contains_key(
                    row.id.table.table_id,
                ) {
                    outcome == ListingOutcome::<D>::Failed(
                        DatabaseError::TableIdNotFound { table_id: row.id.table.table_id },
                    )
                } else {
                    forall|rows: Seq<ListedRow<D>>|
                        #[trigger] self.has_read(rows) ==> if self.is_full(rows.len() + 1) {
                            &&& outcome matches ListingOutcome::Done(page)
                            &&& self.is_page(rows.push(row), Some(row.id_v6()), page)
                        } else {
                            &&& outcome matches ListingOutcome::More(lister)
                            &&& lister.has_read(rows.push(row))
                            &&& lister.continues(self)
                        }
                },
                ListingEvent::End => forall|rows: Seq<ListedRow<D>>|
                    #[trigger] self.has_read(rows) ==> {
                        &&& outcome matches ListingOutcome::Done(page)
                        &&& self.is_page(rows, start_of_table(self.next_table()), page)
                    },
                ListingEvent::Failed(error) => outcome == ListingOutcome::<D>::Failed(
                    DatabaseError::Service(error),
                ),
            },
    {
        match event {
            ListingEvent::Row(row) => {
                let name = match self.mapping.tablet_name(row.id.table.table_id) {
                    Some(name) => name.clone(),
                    None => {
                        return ListingOutcome::Failed(
                            DatabaseError::TableIdNotFound { table_id: row.id.table.table_id },
                        );
                    },
                };
                let ghost before = self;
                let ghost given = row;
                let id = DocumentIdV6 {
                    table_number: row.id.table.table_number,
                    internal_id: row.id.internal_id,
                };
                let mut next = self;
                next.documents.push((row.ts, name, row.document));
                proof {
                    assert forall|rows: Seq<ListedRow<D>>| #[trigger]
                        before.has_read(rows) implies documents_view(next.documents@) == listed(
                        before.mapping@,
                        rows.push(given),
                    ) && next.documents@.len() == rows.len() + 1 by {
                        let old_view = documents_view(before.documents@);
                        assert(old_view.len() == rows.len());
                        assert forall|i: int| 0 <= i < rows.len() implies documents_view(
                            next.documents@,
                        )[i] == #[trigger] listed(before.mapping@, rows.push(given))[i] by {
                            assert(old_view[i] == listed(before.mapping@, rows)[i]);
                            assert(rows.push(given)[i] == rows[i]);
                        }
                        assert(documents_view(next.documents@) =~= listed(
                            before.mapping@,
                            rows.push(given),
                        ));
                    }
                }
                if next.documents.len() >= next.rows_read_limit || next.documents.len()
                    >= next.rows_returned_limit {
                    ListingOutcome::Done(
                        SnapshotPage {
                            documents: next.documents,
                            snapshot: next.scan.iterator.snapshot_ts,
                            cursor: Some(id),
                            has_more: true,
                        },
                    )
                } else {
                    ListingOutcome::More(next)
                }
            },
            ListingEvent::End => {
                let cursor: Option<DocumentIdV6> = match self.next_table {
                    Some(table_number) => Some(
                        DocumentIdV6 { table_number, internal_id: InternalId::min() },
                    ),
                    None => None,
                };
                ListingOutcome::Done(
                    SnapshotPage {
                        documents: self.documents,
                        snapshot: self.scan.iterator.snapshot_ts,
                        has_more: cursor.is_some(),
                        cursor,
                    },
                )
            },
            ListingEvent::Failed(error) => ListingOutcome::Failed(DatabaseError::Service(error)),
        }
    }

    /// Makes the page from rows that are held in memory.
    pub fn read(self, rows: Vec<ListedRow<D>>) -> (page: Result<SnapshotPage<D>, DatabaseError>)
        requires
            self.has_read(Seq::empty()),
        ensures
            match page {
                Ok(p) => {
                    &&& self.makes_page(rows@, p)
                    &&& forall|i: int| !#[trigger] self.fails_at(rows@, i)
                },
                Err(error) => exists|i: int|
                    {
                        &&& #[trigger] self.fails_at(rows@, i)
                        &&& error == (DatabaseError::TableIdNotFound {
                            table_id: rows@[i].id.table.table_id,
                        })
                    },
            },
    {
        let ghost before = self;
        let ghost all = rows@;
        let mut lister = self;
        assert(all.take(0) =~= Seq::empty());
        #[verifier::loop_isolation(false)]
        for row in it: rows
            invariant
                it.seq() == all,
                lister.continues(before),
                lister.has_read(all.take(it.index())),
                forall|k: nat| 0 < k <= it.index() ==> !#[trigger] before.is_full(k),
                forall|j: int|
                    0 <= j < it.index() ==> before.mapping().tablets.contains_key(
                        (#[trigger] all[j]).id.table.table_id,
                    ),
        {
            let ghost n = it.index();
            let ghost taken = all.take(n);
            assert(taken.push(row) =~= all.take(n + 1));
            assert(taken.len() + 1 == n + 1);
            match lister.step(ListingEvent::Row(row)) {
                ListingOutcome::More(next) => {
                    lister = next;
                },
                ListingOutcome::Done(page) => {
                    proof {
                        let count = (n + 1) as nat;
                        assert(before.is_full(count));
                        assert(before.is_page(
                            all.take(count as int),
                            Some(all[count - 1].id_v6()),
                            page,
                        ));
                        assert(before.makes_page(all, page));
                        assert forall|i: int| !#[trigger] before.fails_at(all, i) by {
                            if i >= count {
                                assert(before.is_full(count));
                            }
                        }
                    }
                    return Ok(page);
                },
                ListingOutcome::Failed(error) => {
                    assert(before.fails_at(all, n));
                    return Err(error);
                },
            }
        }
        assert(all.take(all.len() as int) =~= all);
        match lister.step(ListingEvent::End) {
            ListingOutcome::Done(page) => Ok(page),
            ListingOutcome::Failed(error) => Err(error),
            ListingOutcome::More(_) => Err(DatabaseError::TimestampOverflow),
        }
    }
}

impl<D> ListedRow<D> {
    /// The document's id as users see it.
    pub open spec fn id_v6(self) -> DocumentIdV6 {
        DocumentIdV6 {
            table_number: self.id.table.table_number,
            internal_id: self.id.internal_id,
        }
    }
}

/// The cursor in front of all documents of a table.
pub open spec fn start_of_table(table: Option<TableNumber>) -> Option<DocumentIdV6> {
    match table {
        Some(table_number) => Some(DocumentIdV6 { table_number, internal_id: InternalId(0) }),
        None => None,
    }
}

} // verus!
