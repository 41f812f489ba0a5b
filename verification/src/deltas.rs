//! The change feed: pages of document changes in the order of time.

use crate::errors::{refuses, unauthorized_error, DatabaseError, ErrorMetadata, ServiceError};
use crate::identity::Identity;
use crate::ids::{DocumentIdV6, InternalId, TableId, Timestamp};
use crate::names::{is_system_name, TableName};
use crate::scan::{HistoryScan, Order};
use crate::table_mapping::{MappingView, TableMapping};
use crate::text::{decimal, decimal_chars};
use vstd::prelude::*;

verus! {

/// A change of a document: its new contents, or `None` where it was deleted.
#[derive(Debug, PartialEq, Eq)]
pub struct DeltaRow<D> {
    pub ts: Timestamp,
    pub table: TableId,
    pub id: InternalId,
    pub document: Option<D>,
}

/// A page of the change feed.
#[derive(Debug, PartialEq, Eq)]
pub struct DocumentDeltas<D> {
    /// Document deltas in increasing order of timestamp, table and document.
    pub deltas: Vec<(Timestamp, DocumentIdV6, TableName, Option<D>)>,
    /// Exclusive cursor timestamp to pass in to the next call.
    pub cursor: Timestamp,
    /// Continue calling while this is true.
    pub has_more: bool,
}

/// What a delta says.
pub type DeltaView<D> = (Timestamp, DocumentIdV6, Seq<char>, Option<D>);

/// What the deltas of a page say.
pub open spec fn deltas_view<D>(
    deltas: Seq<(Timestamp, DocumentIdV6, TableName, Option<D>)>,
) -> Seq<DeltaView<D>> {
    deltas.map_values(
        |d: (Timestamp, DocumentIdV6, TableName, Option<D>)| (d.0, d.1, d.2@, d.3),
    )
}

/// What the rows of a change feed are held against.
pub struct DeltasQuery {
    pub mapping: MappingView,
    pub filter: Option<Seq<char>>,
    pub rows_read_limit: nat,
    pub rows_returned_limit: nat,
    pub upper_bound: Timestamp,
}

/// The name in a filter.
pub open spec fn filter_view(filter: Option<TableName>) -> Option<Seq<char>> {
    match filter {
        Some(name) => Some(name@),
        None => None,
    }
}

/// Tables of the system are never shown; of the others all, or the one that
/// was chosen.
pub open spec fn shows_table(filter: Option<Seq<char>>, table: Seq<char>) -> bool {
    &&& !is_system_name(table)
    &&& filter is Some ==> filter->0 == table
}

/// Whether a table is shown.
pub fn user_table_filter(table_filter: &Option<TableName>, table: &TableName) -> (shown: bool)
    ensures
        shown == shows_table(filter_view(*table_filter), table@),
{
    if table.is_system() {
        return false;
    }
    match table_filter {
        Some(name) => *name == *table,
        None => true,
    }
}

impl DeltasQuery {
    /// What is shown of a row: nothing if its table is gone or not shown.
    pub open spec fn shown<D>(self, row: DeltaRow<D>) -> Option<DeltaView<D>> {
        if self.mapping.tablets.contains_key(row.table) {
            let (number, name) = self.mapping.tablets[row.table];
            if shows_table(self.filter, name) {
                Some(
                    (
                        row.ts,
                        DocumentIdV6 { table_number: number, internal_id: row.id },
                        name,
                        row.document,
                    ),
                )
            } else {
                None
            }
        } else {
            None
        }
    }

    /// What is shown of rows, in their order.
    pub open spec fn shown_all<D>(self, rows: Seq<DeltaRow<D>>) -> Seq<DeltaView<D>>
        decreases rows.len(),
    {
        if rows.len() == 0 {
            Seq::empty()
        } else {
            match self.shown(rows.last()) {
                Some(delta) => self.shown_all(rows.drop_last()).push(delta),
                None => self.shown_all(rows.drop_last()),
            }
        }
    }

    /// Whether the last of these rows uses up one of the limits: as many rows
    /// were read as may be, or as many are shown as may be.
    pub open spec fn uses_up<D>(self, rows: Seq<DeltaRow<D>>) -> bool {
        ||| rows.len() >= self.rows_read_limit
        ||| self.shown(rows.last()) is Some && self.shown_all(rows).len()
            >= self.rows_returned_limit
    }

    /// The time of the first row that uses up a limit: the page ends with this
    /// timestamp, and holds all of it.
    pub open spec fn cursor_after<D>(self, rows: Seq<DeltaRow<D>>) -> Option<Timestamp>
        decreases rows.len(),
    {
        if rows.len() == 0 {
            None
        } else {
            match self.cursor_after(rows.drop_last()) {
                Some(ts) => Some(ts),
                None => if self.uses_up(rows) {
                    Some(rows.last().ts)
                } else {
                    None
                },
            }
        }
    }

    /// Whether `next` is the first row behind the page that `rows` make up.
    pub open spec fn closes<D>(self, rows: Seq<DeltaRow<D>>, next: DeltaRow<D>) -> bool {
        self.cursor_after(rows) matches Some(ts) && ts.0 < next.ts.0
    }

    /// Whether `page` holds exactly `rows`.
    pub open spec fn is_page<D>(
        self,
        rows: Seq<DeltaRow<D>>,
        has_more: bool,
        page: DocumentDeltas<D>,
    ) -> bool {
        &&& deltas_view(page.deltas@) == self.shown_all(rows)
        &&& page.cursor == match self.cursor_after(rows) {
            Some(ts) => ts,
            None => self.upper_bound,
        }
        &&& page.has_more == has_more
    }

    /// How many rows of a history one page is made up of, if `from` of them
    /// are known to be part of it.
    pub open spec fn page_len<D>(self, history: Seq<DeltaRow<D>>, from: int) -> int
        decreases history.len() - from,
    {
        if from >= history.len() {
            history.len() as int
        } else if self.closes(history.take(from), history[from]) {
            from
        } else {
            self.page_len(history, from + 1)
        }
    }

    /// Whether `page` is what is returned for a history.
    pub open spec fn is_page_of<D>(
        self,
        history: Seq<DeltaRow<D>>,
        page: DocumentDeltas<D>,
    ) -> bool {
        let n = self.page_len(history, 0);
        self.is_page(history.take(n), n < history.len(), page)
    }
}

/// A request for a page of the change feed that was found in order.
#[derive(Debug)]
pub struct DeltasRequest {
    pub cursor: Option<Timestamp>,
    pub table_filter: Option<TableName>,
    pub rows_read_limit: usize,
    pub rows_returned_limit: usize,
}

/// A page of the change feed while it is put together.
#[derive(Debug)]
pub struct DeltasCollector<D> {
    mapping: TableMapping,
    table_filter: Option<TableName>,
    rows_read_limit: usize,
    rows_returned_limit: usize,
    upper_bound: Timestamp,
    first_ts: Timestamp,
    deltas: Vec<(Timestamp, DocumentIdV6, TableName, Option<D>)>,
    new_cursor: Option<Timestamp>,
    rows_read: usize,
}

/// What comes out of the history when its next row is asked for.
#[derive(Debug)]
pub enum DeltasEvent<D> {
    Row(DeltaRow<D>),
    End,
    Failed(ServiceError),
}

/// What is to be done next.
#[derive(Debug)]
pub enum DeltasOutcome<D> {
    /// Read the next row.
    More(DeltasCollector<D>),
    /// The page is complete.
    Done(DocumentDeltas<D>),
    /// There is no page.
    Failed(DatabaseError),
}

/// The first timestamp behind a cursor.
pub open spec fn first_ts_after(cursor: Option<Timestamp>) -> Option<Timestamp> {
    match cursor {
        Some(ts) => ts.spec_succ(),
        None => Some(Timestamp(0)),
    }
}

/// What is told to a caller whose cursor lies before what is kept.
pub open spec fn too_old_text(ts: Timestamp) -> Seq<char> {
    "Timestamp "@ + decimal_chars(ts.0 as nat) + " is too old"@
}

impl DeltasRequest {
    /// Whether `request` is what becomes of a request for a page of the change
    /// feed.
    pub open spec fn is_request(
        identity: Identity,
        cursor: Option<Timestamp>,
        table_filter: Option<TableName>,
        rows_read_limit: usize,
        rows_returned_limit: usize,
        request: Result<DeltasRequest, DatabaseError>,
    ) -> bool {
        match request {
            Ok(r) => {
                &&& identity.is_privileged()
                &&& rows_returned_limit <= rows_read_limit
                &&& r.cursor == cursor
                &&& r.table_filter == table_filter
                &&& r.rows_read_limit == rows_read_limit
                &&& r.rows_returned_limit == rows_returned_limit
            },
            Err(error) => if !identity.is_privileged() {
                refuses(error, "document_deltas"@)
            } else {
                &&& rows_read_limit < rows_returned_limit
                &&& error == (DatabaseError::ReturnLimitAboveReadLimit {
                    rows_read_limit,
                    rows_returned_limit,
                })
            },
        }
    }

    /// Takes a request for a page of the change feed. It is refused to callers
    /// that are neither the system nor an administrator, and where more rows
    /// may be returned than read.
    pub fn new(
        identity: &Identity,
        cursor: Option<Timestamp>,
        table_filter: Option<TableName>,
        rows_read_limit: usize,
        rows_returned_limit: usize,
    ) -> (request: Result<DeltasRequest, DatabaseError>)
        ensures
            DeltasRequest::is_request(
                *identity,
                cursor,
                table_filter,
                rows_read_limit,
                rows_returned_limit,
                request,
            ),
    {
        if !(identity.is_system() || identity.is_admin()) {
            return Err(DatabaseError::Metadata(unauthorized_error("document_deltas")));
        }
        if rows_read_limit < rows_returned_limit {
            return Err(
                DatabaseError::ReturnLimitAboveReadLimit { rows_read_limit, rows_returned_limit },
            );
        }
        Ok(DeltasRequest { cursor, table_filter, rows_read_limit, rows_returned_limit })
    }

    /// What the rows are held against.
    pub open spec fn query(self, upper_bound: Timestamp, mapping: MappingView) -> DeltasQuery {
        DeltasQuery {
            mapping,
            filter: filter_view(self.table_filter),
            rows_read_limit: self.rows_read_limit as nat,
            rows_returned_limit: self.rows_returned_limit as nat,
            upper_bound,
        }
    }

    /// Begins a page, for a transaction that began at `upper_bound` and saw
    /// the tables of `mapping`. The history is to be read as
    /// [`DeltasCollector::scan`] says. Fails only where nothing can lie behind the
    /// cursor.
    pub fn start<D>(self, upper_bound: Timestamp, mapping: TableMapping) -> (collector: Result<
        DeltasCollector<D>,
        DatabaseError,
    >)
        ensures
            match collector {
                Ok(c) => {
                    &&& first_ts_after(self.cursor) == Some(c.first())
                    &&& c.query() == self.query(upper_bound, mapping@)
                    &&& c.has_read(Seq::empty())
                },
                Err(error) => {
                    &&& first_ts_after(self.cursor) is None
                    &&& error is TimestampOverflow
                },
            },
    {
        let first_ts = match self.cursor {
            Some(ts) => match ts.succ() {
                Some(next) => next,
                None => {
                    return Err(DatabaseError::TimestampOverflow);
                },
            },
            None => Timestamp::min(),
        };
        let collector = DeltasCollector {
            mapping,
            table_filter: self.table_filter,
            rows_read_limit: self.rows_read_limit,
            rows_returned_limit: self.rows_returned_limit,
            upper_bound,
            first_ts,
            deltas: Vec::new(),
            new_cursor: None,
            rows_read: 0,
        };
        proof {
            assert(deltas_view(collector.deltas@) =~= Seq::<DeltaView<D>>::empty());
        }
        Ok(collector)
    }

    /// Serves the page from a history that is held in memory, from
    /// [`DeltasCollector::first_ts`] on.
    pub fn read<D>(
        self,
        upper_bound: Timestamp,
        mapping: TableMapping,
        history: Vec<DeltaRow<D>>,
    ) -> (page: Result<DocumentDeltas<D>, DatabaseError>)
        ensures
            match page {
                Ok(p) => {
                    &&& first_ts_after(self.cursor) is Some
                    &&& self.query(upper_bound, mapping@).is_page_of(history@, p)
                },
                Err(error) => {
                    &&& first_ts_after(self.cursor) is None
                    &&& error is TimestampOverflow
                },
            },
    {
        let ghost query = self.query(upper_bound, mapping@);
        let ghost rows = history@;
        let mut collector: DeltasCollector<D> = self.start(upper_bound, mapping)?;
        assert(rows.take(0) =~= Seq::empty());
        #[verifier::loop_isolation(false)]
        for row in it: history
            invariant
                it.seq() == rows,
                collector.query() == query,
                collector.has_read(rows.take(it.index())),
                query.page_len(rows, 0) == query.page_len(rows, it.index()),
        {
            let ghost n = it.index();
            assert(rows.take(n).push(row) =~= rows.take(n + 1));
            match collector.step(DeltasEvent::Row(row)) {
                DeltasOutcome::More(next) => {
                    collector = next;
                },
                DeltasOutcome::Done(page) => {
                    return Ok(page);
                },
                DeltasOutcome::Failed(error) => {
                    return Err(error);
                },
            }
        }
        assert(rows.take(rows.len() as int) =~= rows);
        match collector.step(DeltasEvent::End) {
            DeltasOutcome::Done(page) => Ok(page),
            DeltasOutcome::Failed(error) => Err(error),
            DeltasOutcome::More(_) => Err(DatabaseError::TimestampOverflow),
        }
    }
}

impl<D> DeltasCollector<D> {
    /// What the rows are held against.
    pub closed spec fn query(self) -> DeltasQuery {
        DeltasQuery {
            mapping: self.mapping@,
            filter: filter_view(self.table_filter),
            rows_read_limit: self.rows_read_limit as nat,
            rows_returned_limit: self.rows_returned_limit as nat,
            upper_bound: self.upper_bound,
        }
    }

    /// Where the history is read from.
    pub closed spec fn first(self) -> Timestamp {
        self.first_ts
    }

    /// Whether the page so far is made up of `rows`.
    pub closed spec fn has_read(self, rows: Seq<DeltaRow<D>>) -> bool {
        &&& deltas_view(self.deltas@) == self.query().shown_all(rows)
        &&& self.new_cursor == self.query().cursor_after(rows)
        &&& self.new_cursor is None ==> {
            &&& self.rows_read == rows.len()
            &&& self.rows_read == 0 || self.rows_read < self.rows_read_limit
        }
    }

    /// Where the history is read from.
    pub fn first_ts(&self) -> (ts: Timestamp)
        ensures
            ts == self.first(),
    {
        self.first_ts
    }

    /// How the history is read: behind the cursor, up to where the transaction
    /// began, and from the first change to the last.
    pub open spec fn spec_scan(self) -> HistoryScan {
        HistoryScan {
            table_id: None,
            first_ts: self.first(),
            last_ts: self.query().upper_bound,
            order: Order::Asc,
        }
    }

    /// How the history is read.
    pub fn scan(&self) -> (scan: HistoryScan)
        ensures
            scan == self.spec_scan(),
    {
        HistoryScan {
            table_id: None,
            first_ts: self.first_ts,
            last_ts: self.upper_bound,
            order: Order::Asc,
        }
    }

    /// Takes what came out of the history next.
    ///
    /// A row behind the page completes it, with more to come; the end of the
    /// history completes it with no more to come; any other row becomes part
    /// of it. A history that is no longer kept is told as a bad request, any
    /// other failure is passed on.
    pub fn step(self, event: DeltasEvent<D>) -> (outcome: DeltasOutcome<D>)
        ensures
            match event {
                DeltasEvent::Row(row) => forall|rows: Seq<DeltaRow<D>>|
                    #[trigger] self.has_read(rows) ==> if self.query().closes(rows, row) {
                        &&& outcome matches DeltasOutcome::Done(page)
                        &&& self.query().is_page(rows, true, page)
                    } else {
                        &&& outcome matches DeltasOutcome::More(collector)
                        &&& collector.has_read(rows.push(row))
                        &&& collector.query() == self.query()
                        &&& collector.first() == self.first()
                    },
                DeltasEvent::End => forall|rows: Seq<DeltaRow<D>>|
                    #[trigger] self.has_read(rows) ==> {
                        &&& outcome matches DeltasOutcome::Done(page)
                        &&& self.query().is_page(rows, false, page)
                    },
                DeltasEvent::Failed(error) => if error.out_of_retention {
                    &&& outcome matches DeltasOutcome::Failed(
                        DatabaseError::Metadata(ErrorMetadata::BadRequest { short_msg, msg }),
                    )
                    &&& short_msg@ == "InvalidWindowToReadDocuments"@
                    &&& msg@ == too_old_text(self.first())
                } else {
                    outcome == DeltasOutcome::<D>::Failed(DatabaseError::Service(error))
                },
            },
    {
        match event {
            DeltasEvent::Row(row) => self.take_row(row),
            DeltasEvent::End => {
                let cursor = match self.new_cursor {
                    Some(ts) => ts,
                    None => self.upper_bound,
                };
                DeltasOutcome::Done(
                    DocumentDeltas { deltas: self.deltas, cursor, has_more: false },
                )
            },
            DeltasEvent::Failed(error) => {
                if error.out_of_retention {
                    let msg = "Timestamp ".to_owned().concat(
                        decimal(self.first_ts.0).as_str(),
                    ).concat(" is too old");
                    DeltasOutcome::Failed(
                        DatabaseError::Metadata(
                            ErrorMetadata::BadRequest {
                                short_msg: "InvalidWindowToReadDocuments".to_owned(),
                                msg,
                            },
                        ),
                    )
                } else {
                    DeltasOutcome::Failed(DatabaseError::Service(error))
                }
            },
        }
    }

    fn take_row(self, row: DeltaRow<D>) -> (outcome: DeltasOutcome<D>)
        ensures
            forall|rows: Seq<DeltaRow<D>>|
                #[trigger] self.has_read(rows) ==> if self.query().closes(rows, row) {
                    &&& outcome matches DeltasOutcome::Done(page)
                    &&& self.query().is_page(rows, true, page)
                } else {
                    &&& outcome matches DeltasOutcome::More(collector)
                    &&& collector.has_read(rows.push(row))
                    &&& collector.query() == self.query()
                    &&& collector.first() == self.first()
                },
    {
        let ghost query = self.query();
        let ghost before = self;
        let ghost given = row;
        let mut next = self;
        if let Some(cursor) = next.new_cursor {
            if cursor.0 < row.ts.0 {
                return DeltasOutcome::Done(
                    DocumentDeltas { deltas: next.deltas, cursor, has_more: true },
                );
            }
        }
        if next.new_cursor.is_none() {
            if next.rows_read >= next.rows_read_limit || next.rows_read + 1
                >= next.rows_read_limit {
                next.new_cursor = Some(row.ts);
            } else {
                next.rows_read = next.rows_read + 1;
            }
        }
        let found: Option<(TableName, DocumentIdV6)> = match (
            next.mapping.tablet_name(row.table),
            next.mapping.tablet_number(row.table),
        ) {
            (Some(name), Some(table_number)) => {
                if user_table_filter(&next.table_filter, name) {
                    Some((name.clone(), DocumentIdV6 { table_number, internal_id: row.id }))
                } else {
                    None
                }
            },
            _ => None,
        };
        if let Some((name, id)) = found {
            next.deltas.push((row.ts, id, name, row.document));
            if next.new_cursor.is_none() && next.deltas.len() >= next.rows_returned_limit {
                next.new_cursor = Some(row.ts);
            }
        }
        proof {
            assert forall|rows: Seq<DeltaRow<D>>| #[trigger] before.has_read(rows) implies !query.closes(
                rows,
                given,
            ) && next.has_read(rows.push(given)) by {
                let longer = rows.push(given);
                assert(longer.drop_last() =~= rows);
                assert(longer.last() == given);
                assert(next.query() == query);
                assert(deltas_view(next.deltas@) =~= query.shown_all(longer));
                assert(deltas_view(next.deltas@).len() == next.deltas@.len());
            }
        }
        DeltasOutcome::More(next)
    }
}

} // verus!
