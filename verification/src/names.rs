//! Names of tables and indexes.

use crate::ids::TableId;
use vstd::prelude::*;

verus! {

/// The name of a table.
#[derive(Debug, Eq, Hash)]
pub struct TableName {
    pub name: String,
}

/// The name of an index, on a table given by its id.
#[derive(Debug, Eq, Hash)]
pub struct TabletIndexName {
    pub table: TableId,
    pub descriptor: String,
}

/// The descriptor of the index over document ids, which every table has.
pub const BY_ID: &'static str = "by_id";

/// The descriptor of the index over creation times.
pub const BY_CREATION_TIME: &'static str = "by_creation_time";

impl View for TableName {
    type V = Seq<char>;

    open spec fn view(&self) -> Seq<char> {
        self.name@
    }
}

impl View for TabletIndexName {
    type V = (TableId, Seq<char>);

    open spec fn view(&self) -> (TableId, Seq<char>) {
        (self.table, self.descriptor@)
    }
}

/// Names that begin with an underscore are kept for the system.
pub open spec fn is_system_name(name: Seq<char>) -> bool {
    name.len() > 0 && name[0] == '_'
}

impl TableName {
    /// The table name that reads `name`.
    pub fn new(name: &str) -> (table_name: TableName)
        ensures
            table_name@ == name@,
    {
        TableName { name: name.to_owned() }
    }

    /// Whether the name is kept for the system.
    pub fn is_system(&self) -> (system: bool)
        ensures
            system == is_system_name(self@),
    {
        let name = self.name.as_str();
        name.unicode_len() > 0 && name.get_char(0) == '_'
    }
}

impl Clone for TableName {
    fn clone(&self) -> (copy: TableName)
        ensures
            copy == *self,
    {
        TableName { name: self.name.clone() }
    }
}

impl PartialEq for TableName {
    fn eq(&self, other: &TableName) -> (same: bool) {
        self.name == other.name
    }
}

impl vstd::std_specs::cmp::PartialEqSpecImpl for TableName {
    open spec fn obeys_eq_spec() -> bool {
        true
    }

    open spec fn eq_spec(&self, other: &TableName) -> bool {
        self.name@ == other.name@
    }
}

impl TabletIndexName {
    /// The name of the index over document ids of a table.
    pub fn by_id(table: TableId) -> (name: TabletIndexName)
        ensures
            name@ == (table, BY_ID@),
    {
        TabletIndexName { table, descriptor: BY_ID.to_owned() }
    }

    /// The name of the index over creation times of a table.
    pub fn by_creation_time(table: TableId) -> (name: TabletIndexName)
        ensures
            name@ == (table, BY_CREATION_TIME@),
    {
        TabletIndexName { table, descriptor: BY_CREATION_TIME.to_owned() }
    }

    /// Whether this is a table's index over document ids.
    pub fn is_by_id(&self) -> (by_id: bool)
        ensures
            by_id == (self@.1 == BY_ID@),
    {
        self.descriptor == BY_ID.to_owned()
    }
}

impl Clone for TabletIndexName {
    fn clone(&self) -> (copy: TabletIndexName)
        ensures
            copy == *self,
    {
        TabletIndexName { table: self.table, descriptor: self.descriptor.clone() }
    }
}

impl PartialEq for TabletIndexName {
    fn eq(&self, other: &TabletIndexName) -> (same: bool) {
        self.table == other.table && self.descriptor == other.descriptor
    }
}

impl vstd::std_specs::cmp::PartialEqSpecImpl for TabletIndexName {
    open spec fn obeys_eq_spec() -> bool {
        true
    }

    open spec fn eq_spec(&self, other: &TabletIndexName) -> bool {
        self@ == other@
    }
}

} // verus!
