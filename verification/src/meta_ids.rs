//! The ids that lead to the tables table and the index table.

use crate::errors::{DatabaseError, PersistenceGlobalKey, ServiceError};
use crate::ids::{IndexId, InternalId, TableId};
use vstd::prelude::*;

verus! {

/// The ids that lead to the tables table and the index table.
#[derive(Clone, Copy, Debug, PartialEq, Eq, Structural)]
pub struct BootstrapMetadata {
    pub tables_by_id: IndexId,
    pub index_by_id: IndexId,
    pub tables_table_id: TableId,
    pub index_table_id: TableId,
}

/// An id in a message.
#[derive(Clone, Copy, Debug, PartialEq, Eq, Structural)]
pub enum WireId {
    Id(InternalId),
    /// What stands in the place of the id is none.
    Malformed,
}

/// The ids that lead to the tables table and the index table, in a message.
#[derive(Clone, Copy, Debug, PartialEq, Eq)]
pub struct BootstrapMetadataProto {
    pub tables_by_id: Option<WireId>,
    pub index_by_id: Option<WireId>,
    pub tables_table_id: Option<WireId>,
    pub index_table_id: Option<WireId>,
}

impl From<BootstrapMetadata> for BootstrapMetadataProto {
    fn from(metadata: BootstrapMetadata) -> (proto: BootstrapMetadataProto) {
        BootstrapMetadataProto {
            tables_by_id: Some(WireId::Id(metadata.tables_by_id)),
            index_by_id: Some(WireId::Id(metadata.index_by_id)),
            tables_table_id: Some(WireId::Id(metadata.tables_table_id.0)),
            index_table_id: Some(WireId::Id(metadata.index_table_id.0)),
        }
    }
}

impl vstd::std_specs::convert::FromSpecImpl<BootstrapMetadata> for BootstrapMetadataProto {
    open spec fn obeys_from_spec() -> bool {
        true
    }

    open spec fn from_spec(metadata: BootstrapMetadata) -> BootstrapMetadataProto {
        BootstrapMetadataProto {
            tables_by_id: Some(WireId::Id(metadata.tables_by_id)),
            index_by_id: Some(WireId::Id(metadata.index_by_id)),
            tables_table_id: Some(WireId::Id(metadata.tables_table_id.0)),
            index_table_id: Some(WireId::Id(metadata.index_table_id.0)),
        }
    }
}

/// The id in a field of a message, or what is wrong with the field.
pub open spec fn wire_id(field: Option<WireId>, key: PersistenceGlobalKey) -> Result<
    InternalId,
    DatabaseError,
> {
    match field {
        Some(WireId::Id(id)) => Ok(id),
        Some(WireId::Malformed) => Err(DatabaseError::MalformedField(key)),
        None => Err(DatabaseError::MissingField(key)),
    }
}

/// The id in a field of a message, or what is wrong with the field.
fn read_wire_id(field: Option<WireId>, key: PersistenceGlobalKey) -> (id: Result<
    InternalId,
    DatabaseError,
>)
    ensures
        id == wire_id(field, key),
{
    match field {
        Some(WireId::Id(id)) => Ok(id),
        Some(WireId::Malformed) => Err(DatabaseError::MalformedField(key)),
        None => Err(DatabaseError::MissingField(key)),
    }
}

impl TryFrom<BootstrapMetadataProto> for BootstrapMetadata {
    type Error = DatabaseError;

    /// The ids in a message. The fields are looked at one by one, and the first
    /// one that is missing or malformed is the error.
    fn try_from(proto: BootstrapMetadataProto) -> (metadata: Result<
        BootstrapMetadata,
        DatabaseError,
    >) {
        let tables_by_id = match read_wire_id(
            proto.tables_by_id,
            PersistenceGlobalKey::TablesByIdIndex,
        ) {
            Ok(id) => id,
            Err(error) => {
                return Err(error);
            },
        };
        let index_by_id = match read_wire_id(
            proto.index_by_id,
            PersistenceGlobalKey::IndexByIdIndex,
        ) {
            Ok(id) => id,
            Err(error) => {
                return Err(error);
            },
        };
        let tables_table_id = match read_wire_id(
            proto.tables_table_id,
            PersistenceGlobalKey::TablesTableId,
        ) {
            Ok(id) => TableId(id),
            Err(error) => {
                return Err(error);
            },
        };
        let index_table_id = match read_wire_id(
            proto.index_table_id,
            PersistenceGlobalKey::IndexTableId,
        ) {
            Ok(id) => TableId(id),
            Err(error) => {
                return Err(error);
            },
        };
        Ok(BootstrapMetadata { tables_by_id, index_by_id, tables_table_id, index_table_id })
    }
}

impl vstd::std_specs::convert::TryFromSpecImpl<BootstrapMetadataProto> for BootstrapMetadata {
    open spec fn obeys_try_from_spec() -> bool {
        true
    }

    open spec fn try_from_spec(proto: BootstrapMetadataProto) -> Result<
        BootstrapMetadata,
        DatabaseError,
    > {
        let tables_by_id = wire_id(proto.tables_by_id, PersistenceGlobalKey::TablesByIdIndex);
        let index_by_id = wire_id(proto.index_by_id, PersistenceGlobalKey::IndexByIdIndex);
        let tables_table_id = wire_id(proto.tables_table_id, PersistenceGlobalKey::TablesTableId);
        let index_table_id = wire_id(proto.index_table_id, PersistenceGlobalKey::IndexTableId);
        if tables_by_id is Err {
            Err(tables_by_id->Err_0)
        } else if index_by_id is Err {
            Err(index_by_id->Err_0)
        } else if tables_table_id is Err {
            Err(tables_table_id->Err_0)
        } else if index_table_id is Err {
            Err(index_table_id->Err_0)
        } else {
            Ok(
                BootstrapMetadata {
                    tables_by_id: tables_by_id->Ok_0,
                    index_by_id: index_by_id->Ok_0,
                    tables_table_id: TableId(tables_table_id->Ok_0),
                    index_table_id: TableId(index_table_id->Ok_0),
                },
            )
        }
    }
}

/// A message gives back the ids that it was made from, and a message that gives
/// ids is the one that is made from them.
pub proof fn law_metadata_survives_messages(
    metadata: BootstrapMetadata,
    proto: BootstrapMetadataProto,
)
    ensures
        <BootstrapMetadata as vstd::std_specs::convert::TryFromSpec<
            BootstrapMetadataProto,
        >>::try_from_spec(
            <BootstrapMetadataProto as vstd::std_specs::convert::FromSpec<
                BootstrapMetadata,
            >>::from_spec(metadata),
        ) == Ok::<BootstrapMetadata, DatabaseError>(metadata),
        <BootstrapMetadata as vstd::std_specs::convert::TryFromSpec<
            BootstrapMetadataProto,
        >>::try_from_spec(proto) == Ok::<BootstrapMetadata, DatabaseError>(metadata) ==> proto
            == <BootstrapMetadataProto as vstd::std_specs::convert::FromSpec<
            BootstrapMetadata,
        >>::from_spec(metadata),
{
}

/// What came of reading a global.
#[derive(Debug, PartialEq, Eq)]
pub enum GlobalRead {
    /// It could not be read.
    Failed(ServiceError),
    /// It was never written.
    Missing,
    /// It holds something else than a string.
    NotString,
    /// It holds a string that is no id.
    Malformed,
    Id(InternalId),
}

/// The globals in the order in which they are read.
pub open spec fn read_order() -> Seq<PersistenceGlobalKey> {
    seq![
        PersistenceGlobalKey::TablesByIdIndex,
        PersistenceGlobalKey::IndexByIdIndex,
        PersistenceGlobalKey::TablesTableId,
        PersistenceGlobalKey::IndexTableId,
    ]
}

/// The ids that globals hold, in the order in which they are read.
pub open spec fn metadata_from(ids: Seq<InternalId>) -> BootstrapMetadata {
    BootstrapMetadata {
        tables_by_id: ids[0],
        index_by_id: ids[1],
        tables_table_id: TableId(ids[2]),
        index_table_id: TableId(ids[3]),
    }
}

/// What is wrong with a global, if anything is.
pub open spec fn read_error(read: GlobalRead, key: PersistenceGlobalKey) -> Option<DatabaseError> {
    match read {
        GlobalRead::Failed(error) => Some(DatabaseError::Service(error)),
        GlobalRead::Missing => Some(DatabaseError::MissingGlobal(key)),
        GlobalRead::NotString => Some(DatabaseError::GlobalNotString(key)),
        GlobalRead::Malformed => Some(DatabaseError::MalformedGlobal(key)),
        GlobalRead::Id(_) => None,
    }
}

/// The globals while they are read.
#[derive(Debug, PartialEq, Eq)]
pub enum MetaIdReader {
    TablesByIdIndex,
    IndexByIdIndex { tables_by_id: IndexId },
    TablesTableId { tables_by_id: IndexId, index_by_id: IndexId },
    IndexTableId { tables_by_id: IndexId, index_by_id: IndexId, tables_table_id: TableId },
}

/// What is to be done next.
#[derive(Debug, PartialEq, Eq)]
pub enum MetaIdOutcome {
    /// Read the next global.
    More(MetaIdReader),
    Done(BootstrapMetadata),
    Failed(DatabaseError),
}

impl MetaIdReader {
    /// The ids that were read.
    pub open spec fn found(self) -> Seq<InternalId> {
        match self {
            MetaIdReader::TablesByIdIndex => Seq::empty(),
            MetaIdReader::IndexByIdIndex { tables_by_id } => seq![tables_by_id],
            MetaIdReader::TablesTableId { tables_by_id, index_by_id } => seq![
                tables_by_id,
                index_by_id,
            ],
            MetaIdReader::IndexTableId { tables_by_id, index_by_id, tables_table_id } => seq![
                tables_by_id,
                index_by_id,
                tables_table_id.0,
            ],
        }
    }

    /// The global to be read next.
    pub fn key(&self) -> (key: PersistenceGlobalKey)
        ensures
            key == read_order()[self.found().len() as int],
    {
        match self {
            MetaIdReader::TablesByIdIndex => PersistenceGlobalKey::TablesByIdIndex,
            MetaIdReader::IndexByIdIndex { .. } => PersistenceGlobalKey::IndexByIdIndex,
            MetaIdReader::TablesTableId { .. } => PersistenceGlobalKey::TablesTableId,
            MetaIdReader::IndexTableId { .. } => PersistenceGlobalKey::IndexTableId,
        }
    }

    /// Takes what came of reading the global.
    pub fn step(self, read: GlobalRead) -> (outcome: MetaIdOutcome)
        ensures
            ({
                let found = self.found();
                match read {
                    GlobalRead::Id(id) => if found.len() + 1 < read_order().len() {
                        &&& outcome matches MetaIdOutcome::More(next)
                        &&& next.found() == found.push(id)
                    } else {
                        outcome == MetaIdOutcome::Done(metadata_from(found.push(id)))
                    },
                    _ => outcome == MetaIdOutcome::Failed(
                        read_error(read, read_order()[found.len() as int])->0,
                    ),
                }
            }),
    {
        let key = self.key();
        let id = match read {
            GlobalRead::Failed(error) => {
                return MetaIdOutcome::Failed(DatabaseError::Service(error));
            },
            GlobalRead::Missing => {
                return MetaIdOutcome::Failed(DatabaseError::MissingGlobal(key));
            },
            GlobalRead::NotString => {
                return MetaIdOutcome::Failed(DatabaseError::GlobalNotString(key));
            },
            GlobalRead::Malformed => {
                return MetaIdOutcome::Failed(DatabaseError::MalformedGlobal(key));
            },
            GlobalRead::Id(id) => id,
        };
        let ghost longer = self.found().push(id);
        match self {
            MetaIdReader::TablesByIdIndex => {
                let next = MetaIdReader::IndexByIdIndex { tables_by_id: id };
                assert(next.found() =~= longer);
                MetaIdOutcome::More(next)
            },
            MetaIdReader::IndexByIdIndex { tables_by_id } => {
                let next = MetaIdReader::TablesTableId { tables_by_id, index_by_id: id };
                assert(next.found() =~= longer);
                MetaIdOutcome::More(next)
            },
            MetaIdReader::TablesTableId { tables_by_id, index_by_id } => {
                let next = MetaIdReader::IndexTableId {
                    tables_by_id,
                    index_by_id,
                    tables_table_id: TableId(id),
                };
                assert(next.found() =~= longer);
                MetaIdOutcome::More(next)
            },
            MetaIdReader::IndexTableId { tables_by_id, index_by_id, tables_table_id } => {
                MetaIdOutcome::Done(
                    BootstrapMetadata {
                        tables_by_id,
                        index_by_id,
                        tables_table_id,
                        index_table_id: TableId(id),
                    },
                )
            },
        }
    }
}

} // verus!
