//! What holds of the tables and indexes that documents describe.

use crate::ids::{IndexId, TableId};
use crate::metadata::{
    active_mapping_of, by_id_indexes_of, described, mapping_of, states_of, ParsedDocument,
    TableMetadata,
};
use crate::names::{TabletIndexName, BY_ID};
use vstd::prelude::*;

verus! {

/// No two documents have the same id. Documents of one table never do.
pub open spec fn distinct_ids<D>(documents: Seq<ParsedDocument<D>>) -> bool {
    forall|i: int, j: int|
        0 <= i < j < documents.len() ==> (#[trigger] documents[i]).id != (
        #[trigger] documents[j]).id
}

/// No two active tables have the same name or the same number.
pub open spec fn distinct_active_tables(documents: Seq<ParsedDocument<TableMetadata>>) -> bool {
    forall|i: int, j: int|
        0 <= i < j < documents.len() && documents[i].value.state is Active
            && documents[j].value.state is Active ==> {
            &&& (#[trigger] documents[i]).value.name@ != (#[trigger] documents[j]).value.name@
            &&& documents[i].value.number != documents[j].value.number
        }
}

/// A table is there if and only if a document describes it and it is not being
/// emptied, and then it has the number and the name that its document says.
/// Every table that a document describes is in the state that the document says.
pub proof fn law_tables_are_as_described(documents: Seq<ParsedDocument<TableMetadata>>)
    requires
        distinct_ids(documents),
    ensures
        forall|id: TableId| #[trigger]
            mapping_of(documents).tablets.contains_key(id) <==> exists|i: int|
                {
                    &&& 0 <= i < documents.len()
                    &&& described(#[trigger] documents[i]) == id
                    &&& !(documents[i].value.state is Deleting)
                },
        forall|i: int|
            0 <= i < documents.len() && !(documents[i].value.state is Deleting)
                ==> mapping_of(documents).tablets[described(#[trigger] documents[i])] == (
                documents[i].value.number,
                documents[i].value.name@,
            ),
        forall|id: u128| #[trigger]
            states_of(documents).contains_key(id) <==> exists|i: int|
                0 <= i < documents.len() && (#[trigger] documents[i]).id.0 == id,
        forall|i: int|
            0 <= i < documents.len() ==> states_of(documents)[(#[trigger] documents[i]).id.0]
                == documents[i].value.state,
    decreases documents.len(),
{
    let mapping = mapping_of(documents);
    let states = states_of(documents);
    if documents.len() > 0 {
        let front = documents.drop_last();
        let last = documents.len() - 1;
        assert(forall|i: int| 0 <= i < last ==> front[i] == #[trigger] documents[i]);
        assert(distinct_ids(front));
        law_tables_are_as_described(front);
        let before = mapping_of(front);
        assert forall|id: TableId| #[trigger] mapping.tablets.contains_key(id) implies exists|
            i: int,
        |
            {
                &&& 0 <= i < documents.len()
                &&& described(#[trigger] documents[i]) == id
                &&& !(documents[i].value.state is Deleting)
            } by {
            if before.tablets.contains_key(id) {
                let i = choose|i: int|
                    {
                        &&& 0 <= i < front.len()
                        &&& described(#[trigger] front[i]) == id
                        &&& !(front[i].value.state is Deleting)
                    };
                assert(front[i] == documents[i]);
            } else {
                assert(described(documents[last]) == id);
            }
        }
        assert forall|i: int|
            0 <= i < documents.len() && !(documents[i].value.state is Deleting) implies {
            &&& mapping.tablets.contains_key(described(documents[i]))
            &&& mapping.tablets[described(#[trigger] documents[i])] == (
                documents[i].value.number,
                documents[i].value.name@,
            )
        } by {
            if i < last {
                assert(front[i] == documents[i]);
                assert(before.tablets.contains_key(described(front[i])));
                assert(documents[i].id != documents[last].id);
            }
        }
        assert forall|id: u128| #[trigger] states.contains_key(id) implies exists|i: int|
            0 <= i < documents.len() && (#[trigger] documents[i]).id.0 == id by {
            if states_of(front).contains_key(id) {
                let i = choose|i: int| 0 <= i < front.len() && (#[trigger] front[i]).id.0 == id;
                assert(front[i] == documents[i]);
            } else {
                assert(documents[last].id.0 == id);
            }
        }
        assert forall|i: int| 0 <= i < documents.len() implies {
            &&& states.contains_key((#[trigger] documents[i]).id.0)
            &&& states[documents[i].id.0] == documents[i].value.state
        } by {
            if i < last {
                assert(front[i] == documents[i]);
                assert(states_of(front).contains_key(front[i].id.0));
                assert(documents[i].id != documents[last].id);
            }
        }
    }
}

/// A name or a number leads to the active table that has it, and to nothing if
/// none has it.
pub proof fn law_names_and_numbers_lead_to_active_tables(
    documents: Seq<ParsedDocument<TableMetadata>>,
)
    requires
        distinct_active_tables(documents),
    ensures
        forall|i: int|
            0 <= i < documents.len() && documents[i].value.state is Active ==> {
                &&& mapping_of(documents).names.contains_key(
                    (#[trigger] documents[i]).value.name@,
                )
                &&& mapping_of(documents).names[documents[i].value.name@] == described(documents[i])
                &&& mapping_of(documents).numbers.contains_key(documents[i].value.number)
                &&& mapping_of(documents).numbers[documents[i].value.number] == described(
                    documents[i],
                )
            },
        forall|name: Seq<char>| #[trigger]
            mapping_of(documents).names.contains_key(name) ==> exists|i: int|
                {
                    &&& 0 <= i < documents.len()
                    &&& (#[trigger] documents[i]).value.state is Active
                    &&& documents[i].value.name@ == name
                },
        forall|number| #[trigger]
            mapping_of(documents).numbers.contains_key(number) ==> exists|i: int|
                {
                    &&& 0 <= i < documents.len()
                    &&& (#[trigger] documents[i]).value.state is Active
                    &&& documents[i].value.number == number
                },
    decreases documents.len(),
{
    let mapping = mapping_of(documents);
    if documents.len() > 0 {
        let front = documents.drop_last();
        let last = documents.len() - 1;
        assert(forall|i: int| 0 <= i < last ==> front[i] == #[trigger] documents[i]);
        assert(distinct_active_tables(front));
        law_names_and_numbers_lead_to_active_tables(front);
        let before = mapping_of(front);
        assert forall|i: int|
            0 <= i < documents.len() && documents[i].value.state is Active implies {
            &&& mapping.names.contains_key((#[trigger] documents[i]).value.name@)
            &&& mapping.names[documents[i].value.name@] == described(documents[i])
            &&& mapping.numbers.contains_key(documents[i].value.number)
            &&& mapping.numbers[documents[i].value.number] == described(documents[i])
        } by {
            if i < last {
                assert(front[i] == documents[i]);
            }
        }
        assert forall|name: Seq<char>| #[trigger] mapping.names.contains_key(name) implies exists|
            i: int,
        |
            {
                &&& 0 <= i < documents.len()
                &&& (#[trigger] documents[i]).value.state is Active
                &&& documents[i].value.name@ == name
            } by {
            if before.names.contains_key(name) {
                let i = choose|i: int|
                    {
                        &&& 0 <= i < front.len()
                        &&& (#[trigger] front[i]).value.state is Active
                        &&& front[i].value.name@ == name
                    };
                assert(front[i] == documents[i]);
            } else {
                assert(documents[last].value.name@ == name);
            }
        }
        assert forall|number| #[trigger] mapping.numbers.contains_key(number) implies exists|i: int|
            {
                &&& 0 <= i < documents.len()
                &&& (#[trigger] documents[i]).value.state is Active
                &&& documents[i].value.number == number
            } by {
            if before.numbers.contains_key(number) {
                let i = choose|i: int|
                    {
                        &&& 0 <= i < front.len()
                        &&& (#[trigger] front[i]).value.state is Active
                        &&& front[i].value.number == number
                    };
                assert(front[i] == documents[i]);
            } else {
                assert(documents[last].value.number == number);
            }
        }
    }
}

/// The mapping of the active tables alone has the names and numbers of the
/// mapping of all tables, and of its tables those that are active.
pub proof fn law_active_mapping_agrees(documents: Seq<ParsedDocument<TableMetadata>>)
    requires
        distinct_ids(documents),
    ensures
        active_mapping_of(documents).names == mapping_of(documents).names,
        active_mapping_of(documents).numbers == mapping_of(documents).numbers,
        active_mapping_of(documents).tablets == mapping_of(documents).tablets.restrict(
            Set::new(
                |id: TableId|
                    {
                        &&& states_of(documents).contains_key(id.0.0)
                        &&& states_of(documents)[id.0.0] is Active
                    },
            ),
        ),
    decreases documents.len(),
{
    let active = active_mapping_of(documents);
    let all = mapping_of(documents);
    let states = states_of(documents);
    let is_active = Set::new(
        |id: TableId| states.contains_key(id.0.0) && states[id.0.0] is Active,
    );
    if documents.len() == 0 {
        assert(active.tablets =~= all.tablets.restrict(is_active));
    } else {
        let front = documents.drop_last();
        let last = documents.last();
        assert(forall|i: int|
            0 <= i < documents.len() - 1 ==> front[i] == #[trigger] documents[i]);
        assert(distinct_ids(front));
        law_active_mapping_agrees(front);
        law_tables_are_as_described(front);
        assert(!states_of(front).contains_key(last.id.0)) by {
            if states_of(front).contains_key(last.id.0) {
                let i = choose|i: int|
                    0 <= i < front.len() && (#[trigger] front[i]).id.0 == last.id.0;
                assert(documents[i].id == documents[documents.len() - 1].id);
            }
        }
        assert(!mapping_of(front).tablets.contains_key(described(last))) by {
            if mapping_of(front).tablets.contains_key(described(last)) {
                let i = choose|i: int|
                    {
                        &&& 0 <= i < front.len()
                        &&& described(#[trigger] front[i]) == described(last)
                        &&& !(front[i].value.state is Deleting)
                    };
                assert(documents[i].id == documents[documents.len() - 1].id);
            }
        }
        let was_active = Set::new(
            |id: TableId|
                states_of(front).contains_key(id.0.0) && states_of(front)[id.0.0] is Active,
        );
        assert(active_mapping_of(front).tablets == mapping_of(front).tablets.restrict(was_active));
        assert forall|id: TableId| id != described(last) implies (#[trigger] is_active.contains(id)
            == was_active.contains(id)) by {
            assert(id.0.0 != last.id.0);
        }
        assert(active.tablets =~= all.tablets.restrict(is_active));
    }
}

/// If no table has two indexes over document ids, then the index that is found
/// for a table is the one that a document describes, and one is found for every
/// table of which a document describes it.
pub proof fn law_by_id_indexes_are_as_described(documents: Seq<ParsedDocument<TabletIndexName>>)
    requires
        forall|i: int, j: int|
            0 <= i < j < documents.len() && (#[trigger] documents[i]).value@.1 == BY_ID@ && (
            #[trigger] documents[j]).value@.1 == BY_ID@ ==> documents[i].value@.0
                != documents[j].value@.0,
    ensures
        forall|table: TableId, index: IndexId|
            #![trigger by_id_indexes_of(documents).contains_pair(table, index)]
            by_id_indexes_of(documents).contains_pair(table, index) <==> exists|i: int|
                {
                    &&& 0 <= i < documents.len()
                    &&& (#[trigger] documents[i]).value@ == (table, BY_ID@)
                    &&& documents[i].id == index
                },
    decreases documents.len(),
{
    let found = by_id_indexes_of(documents);
    if documents.len() > 0 {
        let front = documents.drop_last();
        let last = documents.len() - 1;
        assert(forall|i: int| 0 <= i < last ==> front[i] == #[trigger] documents[i]);
        law_by_id_indexes_are_as_described(front);
        let before = by_id_indexes_of(front);
        assert forall|table: TableId, index: IndexId|
            #![trigger found.contains_pair(table, index)]
            found.contains_pair(table, index) <==> exists|i: int|
                {
                    &&& 0 <= i < documents.len()
                    &&& (#[trigger] documents[i]).value@ == (table, BY_ID@)
                    &&& documents[i].id == index
                } by {
            if found.contains_pair(table, index) {
                if before.contains_pair(table, index) {
                    let i = choose|i: int|
                        {
                            &&& 0 <= i < front.len()
                            &&& (#[trigger] front[i]).value@ == (table, BY_ID@)
                            &&& front[i].id == index
                        };
                    assert(front[i] == documents[i]);
                } else {
                    assert(documents[last].value@ == (table, BY_ID@));
                }
            }
            if exists|i: int|
                {
                    &&& 0 <= i < documents.len()
                    &&& (#[trigger] documents[i]).value@ == (table, BY_ID@)
                    &&& documents[i].id == index
                } {
                let i = choose|i: int|
                    {
                        &&& 0 <= i < documents.len()
                        &&& (#[trigger] documents[i]).value@ == (table, BY_ID@)
                        &&& documents[i].id == index
                    };
                if i < last {
                    assert(front[i] == documents[i]);
                    assert(before.contains_pair(table, index));
                }
            }
        }
    }
}

} // verus!
