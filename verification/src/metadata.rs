//! The documents that describe tables and indexes.

use crate::errors::ServiceError;
use crate::ids::{IndexId, InternalId, TableId, TableNumber, Timestamp};
use crate::names::{TableName, TabletIndexName, BY_ID};
use crate::ordered::keys_in_order;
use crate::scan::ByIdIndexes;
use crate::snapshot::DatabaseSnapshot;
use crate::table_mapping::{MappingView, TableMapping};
use imbl::OrdMap;
use std::collections::BTreeMap;
use vstd::prelude::*;

verus! {

/// What is done with a table.
#[derive(Clone, Copy, Debug, PartialEq, Eq, Structural)]
pub enum TableState {
    /// Users reach it by name and number.
    Active,
    /// It is being filled.
    Hidden,
    /// It is being emptied.
    Deleting,
}

/// The contents of a document of the tables table.
#[derive(Debug, PartialEq, Eq)]
pub struct TableMetadata {
    pub name: TableName,
    pub number: TableNumber,
    pub state: TableState,
}

/// The contents of a document of the virtual tables table.
#[derive(Debug, PartialEq, Eq)]
pub struct VirtualTableMetadata {
    pub name: TableName,
    pub number: TableNumber,
}

/// A document with its contents understood.
#[derive(Debug, PartialEq, Eq)]
pub struct ParsedDocument<D> {
    pub id: InternalId,
    pub value: D,
}

/// A document that a scan of its table came upon.
#[derive(Debug, PartialEq, Eq)]
pub struct ScanRow<D> {
    pub id: InternalId,
    pub ts: Timestamp,
    pub document: D,
}

/// The ordered map of `imbl`.
#[verifier::external_type_specification]
#[verifier::external_body]
#[verifier::reject_recursive_types(K)]
#[verifier::reject_recursive_types(V)]
pub struct ExOrdMap<K, V>(imbl::OrdMap<K, V>);

/// What is done with each table, by the number that its id holds.
pub uninterp spec fn table_states(states: OrdMap<u128, TableState>) -> Map<u128, TableState>;

/// No table maps to anything.
pub open spec fn no_states() -> Map<u128, TableState> {
    Map::empty()
}

/// An empty map, as `imbl::OrdMap::new` makes it.
#[verifier::external_body]
fn new_table_states() -> (states: OrdMap<u128, TableState>)
    ensures
        table_states(states) == no_states(),
{
    OrdMap::new()
}

/// Lets a table map to a state, as `imbl::OrdMap::insert` does: in place of
/// what it mapped to before, and with all other tables as they were.
#[verifier::external_body]
fn insert_table_state(states: &mut OrdMap<u128, TableState>, table: u128, state: TableState)
    ensures
        table_states(*final(states)) == table_states(*old(states)).insert(table, state),
{
    states.insert(table, state);
}

/// A copy of a map, as `imbl::OrdMap::clone` makes it: every table maps to the same
/// state as before.
#[verifier::external_body]
pub(crate) fn clone_table_states(states: &OrdMap<u128, TableState>) -> (copy: OrdMap<
    u128,
    TableState,
>)
    ensures
        table_states(copy) == table_states(*states),
{
    states.clone()
}

/// The table that a document of the tables table describes.
pub open spec fn described(document: ParsedDocument<TableMetadata>) -> TableId {
    TableId(document.id)
}

/// The tables that documents describe: active ones with all their names, hidden
/// ones by their id alone, and none that is being emptied. Of two documents
/// about one name, number or id the later one counts.
pub open spec fn mapping_of(documents: Seq<ParsedDocument<TableMetadata>>) -> MappingView
    decreases documents.len(),
{
    if documents.len() == 0 {
        MappingView::empty()
    } else {
        let before = mapping_of(documents.drop_last());
        let last = documents.last();
        match last.value.state {
            TableState::Active => before.insert(
                described(last),
                last.value.number,
                last.value.name@,
            ),
            TableState::Hidden => before.insert_tablet(
                described(last),
                last.value.number,
                last.value.name@,
            ),
            TableState::Deleting => before,
        }
    }
}

/// What is done with the tables that documents describe.
pub open spec fn states_of(documents: Seq<ParsedDocument<TableMetadata>>) -> Map<u128, TableState>
    decreases documents.len(),
{
    if documents.len() == 0 {
        Map::empty()
    } else {
        states_of(documents.drop_last()).insert(
            documents.last().id.0,
            documents.last().value.state,
        )
    }
}

/// The active tables that documents describe.
pub open spec fn active_mapping_of(documents: Seq<ParsedDocument<TableMetadata>>) -> MappingView
    decreases documents.len(),
{
    if documents.len() == 0 {
        MappingView::empty()
    } else {
        let before = active_mapping_of(documents.drop_last());
        let last = documents.last();
        if last.value.state is Active {
            before.insert(described(last), last.value.number, last.value.name@)
        } else {
            before
        }
    }
}

/// The indexes over document ids that index documents name.
pub open spec fn by_id_indexes_of(documents: Seq<ParsedDocument<TabletIndexName>>) -> Map<
    TableId,
    IndexId,
>
    decreases documents.len(),
{
    if documents.len() == 0 {
        Map::empty()
    } else {
        let before = by_id_indexes_of(documents.drop_last());
        let last = documents.last();
        if last.value@.1 == BY_ID@ {
            before.insert(last.value@.0, last.id)
        } else {
            before
        }
    }
}

/// The documents that a scan came upon, by their ids. Of two rows about one
/// document the later one counts.
pub open spec fn documents_by_id<D>(rows: Seq<ScanRow<D>>) -> Map<u128, (Timestamp, D)>
    decreases rows.len(),
{
    if rows.len() == 0 {
        Map::empty()
    } else {
        documents_by_id(rows.drop_last()).insert(
            rows.last().id.0,
            (rows.last().ts, rows.last().document),
        )
    }
}

/// Whether no row failed.
pub open spec fn all_ok<T, E>(rows: Seq<Result<T, E>>) -> bool {
    forall|i: int| 0 <= i < rows.len() ==> #[trigger] rows[i] is Ok
}

/// The values of rows that did not fail.
pub open spec fn ok_values<T, E>(rows: Seq<Result<T, E>>) -> Seq<T> {
    Seq::new(rows.len(), |i: int| rows[i]->Ok_0)
}

/// Whether `error` is the first failure among rows.
pub open spec fn is_first_failure<T, E>(rows: Seq<Result<T, E>>, error: E) -> bool {
    exists|i: int|
        {
            &&& 0 <= i < rows.len()
            &&& #[trigger] rows[i] == Err::<T, E>(error)
            &&& forall|j: int| 0 <= j < i ==> #[trigger] rows[j] is Ok
        }
}

/// The values of rows, or the first failure among them.
pub(crate) fn collect_rows<T, E>(rows: Vec<Result<T, E>>) -> (result: Result<Vec<T>, E>)
    ensures
        match result {
            Ok(values) => all_ok(rows@) && values@ == ok_values(rows@),
            Err(error) => !all_ok(rows@) && is_first_failure(rows@, error),
        },
{
    let ghost all = rows@;
    let mut values: Vec<T> = Vec::new();
    for row in it: rows
        invariant
            it.seq() == all,
            values@ == ok_values(all.take(it.index())),
            forall|i: int| 0 <= i < it.index() ==> #[trigger] all[i] is Ok,
    {
        assert(all[it.index()] == row);
        match row {
            Ok(value) => {
                values.push(value);
                assert(values@ =~= ok_values(all.take(it.index() + 1)));
            },
            Err(error) => {
                assert(all[it.index()] == Err::<T, E>(error));
                return Err(error);
            },
        }
    }
    assert(all.take(all.len() as int) =~= all);
    Ok(values)
}

impl DatabaseSnapshot {
    /// The documents that a scan came upon, by their ids, or the first failure
    /// of the scan.
    pub fn load_raw_table_documents<D>(rows: Vec<Result<ScanRow<D>, ServiceError>>) -> (documents:
        Result<BTreeMap<u128, (Timestamp, D)>, ServiceError>)
        ensures
            match documents {
                Ok(found) => all_ok(rows@) && found@ == documents_by_id(ok_values(rows@)),
                Err(error) => !all_ok(rows@) && is_first_failure(rows@, error),
            },
    {
        let values = match collect_rows(rows) {
            Ok(values) => values,
            Err(error) => {
                return Err(error);
            },
        };
        let ghost all = values@;
        let mut documents: BTreeMap<u128, (Timestamp, D)> = BTreeMap::new();
        assert(all.take(0) =~= Seq::empty());
        for row in it: values
            invariant
                it.seq() == all,
                documents@ == documents_by_id(all.take(it.index())),
        {
            let ghost longer = all.take(it.index() + 1);
            assert(longer.drop_last() =~= all.take(it.index()));
            assert(longer.last() == row);
            documents.insert(row.id.0, (row.ts, row.document));
        }
        assert(all.take(all.len() as int) =~= all);
        Ok(documents)
    }
}

/// Whether `result` holds the contents of all documents in the order of their
/// ids, or is why the first one was not understood.
pub open spec fn is_parsed<D>(
    documents: Map<u128, (Timestamp, Result<D, ServiceError>)>,
    result: Result<Vec<ParsedDocument<D>>, ServiceError>,
) -> bool {
    match result {
        Ok(parsed) => {
            &&& forall|i: int, j: int|
                0 <= i < j < parsed.len() ==> (#[trigger] parsed@[i]).id.0 < (
                #[trigger] parsed@[j]).id.0
            &&& forall|i: int|
                0 <= i < parsed.len() ==> {
                    &&& documents.contains_key((#[trigger] parsed@[i]).id.0)
                    &&& documents[parsed@[i].id.0].1 == Ok::<D, ServiceError>(parsed@[i].value)
                }
            &&& forall|id: u128| #[trigger]
                documents.contains_key(id) ==> exists|i: int|
                    0 <= i < parsed.len() && (#[trigger] parsed@[i]).id.0 == id
        },
        Err(error) => exists|id: u128|
            {
                &&& #[trigger] documents.contains_key(id)
                &&& documents[id].1 == Err::<D, ServiceError>(error)
                &&& forall|other: u128| #[trigger]
                    documents.contains_key(other) && other < id ==> documents[other].1 is Ok
            },
    }
}

/// Whether `result` is what a scan of a table gives: its first failure, or else
/// the contents of the documents.
pub open spec fn is_loaded<D>(
    rows: Seq<Result<ScanRow<Result<D, ServiceError>>, ServiceError>>,
    result: Result<Vec<ParsedDocument<D>>, ServiceError>,
) -> bool {
    if all_ok(rows) {
        is_parsed(documents_by_id(ok_values(rows)), result)
    } else {
        result is Err && is_first_failure(rows, result->Err_0)
    }
}

impl DatabaseSnapshot {
    /// The documents that a scan came upon, with their contents understood, in the
    /// order of their ids.
    pub fn load_table_documents<D>(
        rows: Vec<Result<ScanRow<Result<D, ServiceError>>, ServiceError>>,
    ) -> (documents: Result<Vec<ParsedDocument<D>>, ServiceError>)
        ensures
            is_loaded(rows@, documents),
    {
        let mut raw = match DatabaseSnapshot::load_raw_table_documents(rows) {
            Ok(raw) => raw,
            Err(error) => {
                return Err(error);
            },
        };
        let ghost all = raw@;
        let keys = keys_in_order(&raw);
        let mut parsed: Vec<ParsedDocument<D>> = Vec::new();
        assert forall|a: int| 0 <= a < keys.len() implies raw@.contains_key(#[trigger] keys@[a]) by {
            assert(keys@.contains(keys@[a]));
        }
        for i in 0..keys.len()
            invariant
                all_ok(rows@),
                all == documents_by_id(ok_values(rows@)),
                forall|a: int, b: int| 0 <= a < b < keys.len() ==> keys@[a] < keys@[b],
                forall|k: u128| #[trigger] keys@.contains(k) <==> all.contains_key(k),
                parsed@.len() == i,
                forall|a: int|
                    0 <= a < i ==> {
                        &&& (#[trigger] parsed@[a]).id.0 == keys@[a]
                        &&& all[keys@[a]].1 == Ok::<D, ServiceError>(parsed@[a].value)
                    },
                forall|a: int|
                    i <= a < keys.len() ==> raw@.contains_key(#[trigger] keys@[a]) && raw@[keys@[a]]
                        == all[keys@[a]],
        {
            let key: u128 = keys[i];
            assert(keys@.contains(key));
            let found = raw.remove(&key);
            match found {
                Some((_ts, Ok(value))) => {
                    parsed.push(ParsedDocument { id: InternalId(key), value });
                },
                Some((_ts, Err(error))) => {
                    proof {
                        assert forall|other: u128| #[trigger]
                            all.contains_key(other) && other < key implies all[other].1 is Ok by {
                            assert(keys@.contains(other));
                            let b = choose|b: int| 0 <= b < keys.len() && keys@[b] == other;
                            if b > i {
                                assert(keys@[i as int] < keys@[b]);
                            }
                            assert(parsed@[b].id.0 == keys@[b]);
                        }
                        assert(all.contains_key(key));
                    }
                    return Err(error);
                },
                None => {
                    assert(false);
                },
            }
        }
        proof {
            assert forall|i: int| 0 <= i < parsed.len() implies all.contains_key(
                (#[trigger] parsed@[i]).id.0,
            ) by {
                assert(keys@.contains(keys@[i]));
            }
            assert forall|id: u128| #[trigger] all.contains_key(id) implies exists|i: int|
                0 <= i < parsed.len() && (#[trigger] parsed@[i]).id.0 == id by {
                assert(keys@.contains(id));
                let i = choose|i: int| 0 <= i < keys.len() && keys@[i] == id;
                assert(parsed@[i].id.0 == id);
            }
        }
        Ok(parsed)
    }

    /// The tables that documents describe, and what is done with them.
    pub fn table_mapping_and_states(table_documents: Vec<ParsedDocument<TableMetadata>>) -> (tables: (
        TableMapping,
        OrdMap<u128, TableState>,
    ))
        ensures
            tables.0@ == mapping_of(table_documents@),
            table_states(tables.1) == states_of(table_documents@),
    {
        let ghost all = table_documents@;
        let mut table_mapping = TableMapping::new();
        let mut states = new_table_states();
        assert(all.take(0) =~= Seq::empty());
        for table_doc in it: table_documents
            invariant
                it.seq() == all,
                table_mapping@ == mapping_of(all.take(it.index())),
                table_states(states) == states_of(all.take(it.index())),
        {
            let ghost longer = all.take(it.index() + 1);
            assert(longer.drop_last() =~= all.take(it.index()));
            assert(longer.last() == table_doc);
            let table_id = TableId(table_doc.id);
            insert_table_state(&mut states, table_doc.id.0, table_doc.value.state);
            let number = table_doc.value.number;
            match table_doc.value.state {
                TableState::Active => {
                    table_mapping.insert(table_id, number, table_doc.value.name);
                },
                TableState::Hidden => {
                    table_mapping.insert_tablet(table_id, number, table_doc.value.name);
                },
                TableState::Deleting => {},
            }
        }
        assert(all.take(all.len() as int) =~= all);
        (table_mapping, states)
    }
}

/// The active tables that documents describe.
pub(crate) fn active_table_mapping(table_documents: Vec<ParsedDocument<TableMetadata>>) -> (mapping:
    TableMapping)
    ensures
        mapping@ == active_mapping_of(table_documents@),
{
    let ghost all = table_documents@;
    let mut mapping = TableMapping::new();
    assert(all.take(0) =~= Seq::empty());
    for table_doc in it: table_documents
        invariant
            it.seq() == all,
            mapping@ == active_mapping_of(all.take(it.index())),
    {
        let ghost longer = all.take(it.index() + 1);
        assert(longer.drop_last() =~= all.take(it.index()));
        assert(longer.last() == table_doc);
        if let TableState::Active = table_doc.value.state {
            mapping.insert(TableId(table_doc.id), table_doc.value.number, table_doc.value.name);
        }
    }
    assert(all.take(all.len() as int) =~= all);
    mapping
}

/// The indexes over document ids that index documents name.
pub(crate) fn by_id_indexes(index_documents: &Vec<ParsedDocument<TabletIndexName>>) -> (indexes:
    ByIdIndexes)
    ensures
        indexes@ == by_id_indexes_of(index_documents@),
{
    let ghost all = index_documents@;
    let mut indexes = ByIdIndexes::new();
    assert(all.take(0) =~= Seq::empty());
    for i in 0..index_documents.len()
        invariant
            all == index_documents@,
            indexes@ == by_id_indexes_of(all.take(i as int)),
    {
        let ghost longer = all.take(i + 1);
        assert(longer.drop_last() =~= all.take(i as int));
        let index_doc = &index_documents[i];
        assert(longer.last() == *index_doc);
        if index_doc.value.is_by_id() {
            indexes.insert(index_doc.value.table, index_doc.id);
        }
    }
    assert(all.take(all.len() as int) =~= all);
    indexes
}

} // verus!
