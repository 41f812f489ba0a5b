//! Which tables there are, under which ids, numbers and names.

use crate::ids::{TableId, TableIdAndTableNumber, TableNumber, InternalId};
use crate::name_map::NameMap;
use crate::names::TableName;
use crate::ordered::keys_in_order;
use std::collections::BTreeMap;
use vstd::prelude::*;

verus! {

/// The tables of a database.
///
/// Every table has an id, a number and a name. The tables that users reach by
/// name or number are active; a table that is still being filled is hidden,
/// and may share its name and number with an active one.
#[derive(Debug)]
pub struct TableMapping {
    tablets: BTreeMap<u128, (TableNumber, TableName)>,
    names: NameMap<TableId>,
    numbers: BTreeMap<u32, TableId>,
}

/// What a table mapping says.
#[verifier::ext_equal]
pub struct MappingView {
    /// The number and name of every table, active or hidden.
    pub tablets: Map<TableId, (TableNumber, Seq<char>)>,
    /// The active table under a name.
    pub names: Map<Seq<char>, TableId>,
    /// The active table under a number.
    pub numbers: Map<TableNumber, TableId>,
}

impl MappingView {
    /// A mapping without tables.
    pub open spec fn empty() -> MappingView {
        MappingView { tablets: Map::empty(), names: Map::empty(), numbers: Map::empty() }
    }

    /// The mapping with one more hidden table.
    pub open spec fn insert_tablet(
        self,
        id: TableId,
        number: TableNumber,
        name: Seq<char>,
    ) -> MappingView {
        MappingView { tablets: self.tablets.insert(id, (number, name)), ..self }
    }

    /// The mapping with one more active table.
    pub open spec fn insert(self, id: TableId, number: TableNumber, name: Seq<char>) -> MappingView {
        MappingView {
            tablets: self.tablets.insert(id, (number, name)),
            names: self.names.insert(name, id),
            numbers: self.numbers.insert(number, id),
        }
    }

    /// The active table under a name, by its id and its number.
    pub open spec fn id(self, name: Seq<char>) -> Option<TableIdAndTableNumber> {
        if self.names.contains_key(name) && self.tablets.contains_key(self.names[name]) {
            Some(
                TableIdAndTableNumber {
                    table_id: self.names[name],
                    table_number: self.tablets[self.names[name]].0,
                },
            )
        } else {
            None
        }
    }

    /// The name of the active table under a number.
    pub open spec fn name_by_number(self, number: TableNumber) -> Option<Seq<char>> {
        if self.numbers.contains_key(number) && self.tablets.contains_key(self.numbers[number]) {
            Some(self.tablets[self.numbers[number]].1)
        } else {
            None
        }
    }
}

impl View for TableMapping {
    type V = MappingView;

    closed spec fn view(&self) -> MappingView {
        MappingView {
            tablets: Map::new(
                |id: TableId| self.tablets@.contains_key(id.0.0),
                |id: TableId| (self.tablets@[id.0.0].0, self.tablets@[id.0.0].1@),
            ),
            names: self.names@,
            numbers: Map::new(
                |number: TableNumber| self.numbers@.contains_key(number.0),
                |number: TableNumber| self.numbers@[number.0],
            ),
        }
    }
}

impl Clone for TableMapping {
    fn clone(&self) -> (copy: TableMapping)
        ensures
            copy@ == self@,
    {
        TableMapping {
            tablets: self.tablets.clone(),
            names: self.names.clone(),
            numbers: self.numbers.clone(),
        }
    }
}

/// Every table id is smaller than all that follow it.
pub open spec fn table_ids_increasing(ids: Seq<TableId>) -> bool {
    forall|i: int, j: int| 0 <= i < j < ids.len() ==> (#[trigger] ids[i]).0.0 < (#[trigger] ids[j]).0.0
}

impl TableMapping {
    /// A mapping without tables.
    pub fn new() -> (mapping: TableMapping)
        ensures
            mapping@ == MappingView::empty(),
    {
        let mapping = TableMapping {
            tablets: BTreeMap::new(),
            names: NameMap::new(),
            numbers: BTreeMap::new(),
        };
        assert(mapping@ =~= MappingView::empty());
        mapping
    }

    /// Adds a hidden table.
    pub fn insert_tablet(&mut self, id: TableId, number: TableNumber, name: TableName)
        ensures
            final(self)@ == old(self)@.insert_tablet(id, number, name@),
    {
        self.tablets.insert(id.0.0, (number, name));
        assert(self@ =~= old(self)@.insert_tablet(id, number, name@));
    }

    /// Adds an active table, in place of the table that its name or its number
    /// led to before.
    pub fn insert(&mut self, id: TableId, number: TableNumber, name: TableName)
        ensures
            final(self)@ == old(self)@.insert(id, number, name@),
    {
        self.names.insert(name.name.clone(), id);
        self.numbers.insert(number.0, id);
        self.tablets.insert(id.0.0, (number, name));
        assert(self@ =~= old(self)@.insert(id, number, name@));
    }

    /// The ids of all tables, active or hidden, smallest first.
    pub fn table_ids(&self) -> (ids: Vec<TableId>)
        ensures
            table_ids_increasing(ids@),
            forall|id: TableId| #[trigger] ids@.contains(id) <==> self@.tablets.contains_key(id),
    {
        let keys = keys_in_order(&self.tablets);
        let mut ids: Vec<TableId> = Vec::new();
        for i in 0..keys.len()
            invariant
                ids@ == keys@.take(i as int).map_values(|k: u128| TableId(InternalId(k))),
        {
            ids.push(TableId(InternalId(keys[i])));
        }
        proof {
            assert(keys@.take(keys.len() as int) =~= keys@);
            assert forall|id: TableId| #[trigger] ids@.contains(id) <==> self@.tablets.contains_key(
                id,
            ) by {
                if keys@.contains(id.0.0) {
                    let i = choose|i: int| 0 <= i < keys.len() && keys@[i] == id.0.0;
                    assert(ids@[i] == id);
                }
                if ids@.contains(id) {
                    let i = choose|i: int| 0 <= i < ids.len() && ids@[i] == id;
                    assert(keys@[i] == id.0.0);
                }
            }
        }
        ids
    }

    /// Whether there is a table, active or hidden, with this id.
    pub fn table_id_exists(&self, id: TableId) -> (exists: bool)
        ensures
            exists == self@.tablets.contains_key(id),
    {
        self.tablets.contains_key(&id.0.0)
    }

    /// The name of the table with this id.
    pub fn tablet_name(&self, id: TableId) -> (name: Option<&TableName>)
        ensures
            match name {
                Some(n) => self@.tablets.contains_key(id) && n@ == self@.tablets[id].1,
                None => !self@.tablets.contains_key(id),
            },
    {
        match self.tablets.get(&id.0.0) {
            Some(tablet) => Some(&tablet.1),
            None => None,
        }
    }

    /// The number of the table with this id.
    pub fn tablet_number(&self, id: TableId) -> (number: Option<TableNumber>)
        ensures
            match number {
                Some(n) => self@.tablets.contains_key(id) && n == self@.tablets[id].0,
                None => !self@.tablets.contains_key(id),
            },
    {
        match self.tablets.get(&id.0.0) {
            Some(tablet) => Some(tablet.0),
            None => None,
        }
    }

    /// Whether there is an active table with this name.
    pub fn name_exists(&self, name: &TableName) -> (exists: bool)
        ensures
            exists == self@.names.contains_key(name@),
    {
        self.names.get(&name.name).is_some()
    }

    /// The active table with this name.
    pub fn id(&self, name: &TableName) -> (id: Option<TableIdAndTableNumber>)
        ensures
            id == self@.id(name@),
    {
        match self.names.get(&name.name) {
            Some(table_id) => match self.tablet_number(*table_id) {
                Some(table_number) => Some(
                    TableIdAndTableNumber { table_id: *table_id, table_number },
                ),
                None => None,
            },
            None => None,
        }
    }

    /// The id of the active table with this number.
    pub fn id_by_number(&self, number: TableNumber) -> (id: Option<TableId>)
        ensures
            match id {
                Some(table_id) => self@.numbers.contains_key(number) && table_id
                    == self@.numbers[number],
                None => !self@.numbers.contains_key(number),
            },
    {
        match self.numbers.get(&number.0) {
            Some(table_id) => Some(*table_id),
            None => None,
        }
    }

    /// The name of the active table with this number.
    pub fn name_by_number_if_exists(&self, number: TableNumber) -> (name: Option<&TableName>)
        ensures
            match name {
                Some(n) => self@.name_by_number(number) == Some(n@),
                None => self@.name_by_number(number) is None,
            },
    {
        match self.id_by_number(number) {
            Some(table_id) => self.tablet_name(table_id),
            None => None,
        }
    }
}

} // verus!
