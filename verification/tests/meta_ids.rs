//! The ids that lead to the metadata tables.

use database::errors::{DatabaseError, PersistenceGlobalKey, ServiceError};
use database::ids::{InternalId, TableId};
use database::meta_ids::{
    BootstrapMetadata, BootstrapMetadataProto, GlobalRead, MetaIdOutcome, WireId,
};
use database::snapshot::DatabaseSnapshot;

const KEYS: [PersistenceGlobalKey; 4] = [
    PersistenceGlobalKey::TablesByIdIndex,
    PersistenceGlobalKey::IndexByIdIndex,
    PersistenceGlobalKey::TablesTableId,
    PersistenceGlobalKey::IndexTableId,
];

fn metadata() -> BootstrapMetadata {
    BootstrapMetadata {
        tables_by_id: InternalId(1),
        index_by_id: InternalId(2),
        tables_table_id: TableId(InternalId(3)),
        index_table_id: TableId(InternalId(4)),
    }
}

#[test]
fn metadata_survives_messages() {
    let proto = BootstrapMetadataProto::from(metadata());
    assert_eq!(
        proto,
        BootstrapMetadataProto {
            tables_by_id: Some(WireId::Id(InternalId(1))),
            index_by_id: Some(WireId::Id(InternalId(2))),
            tables_table_id: Some(WireId::Id(InternalId(3))),
            index_table_id: Some(WireId::Id(InternalId(4))),
        }
    );
    assert_eq!(BootstrapMetadata::try_from(proto), Ok(metadata()));
}

fn with_field(field: usize, wire: Option<WireId>) -> Result<BootstrapMetadata, DatabaseError> {
    let mut proto = BootstrapMetadataProto::from(metadata());
    match field {
        0 => proto.tables_by_id = wire,
        1 => proto.index_by_id = wire,
        2 => proto.tables_table_id = wire,
        _ => proto.index_table_id = wire,
    }
    BootstrapMetadata::try_from(proto)
}

#[test]
fn fields_that_are_missing_or_malformed_are_errors() {
    for field in 0..4 {
        assert_eq!(with_field(field, None), Err(DatabaseError::MissingField(KEYS[field])));
        assert_eq!(
            with_field(field, Some(WireId::Malformed)),
            Err(DatabaseError::MalformedField(KEYS[field]))
        );
    }
}

#[test]
fn the_first_field_that_is_wrong_is_the_error() {
    let proto = BootstrapMetadataProto {
        tables_by_id: Some(WireId::Id(InternalId(1))),
        index_by_id: Some(WireId::Malformed),
        tables_table_id: None,
        index_table_id: None,
    };
    assert_eq!(
        BootstrapMetadata::try_from(proto),
        Err(DatabaseError::MalformedField(PersistenceGlobalKey::IndexByIdIndex))
    );
}

#[test]
fn globals_are_read_one_by_one() {
    let mut reader = DatabaseSnapshot::get_meta_ids();
    for i in 0..3 {
        assert_eq!(reader.key(), KEYS[i]);
        match reader.step(GlobalRead::Id(InternalId(i as u128 + 1))) {
            MetaIdOutcome::More(next) => reader = next,
            other => panic!("{:?}", other),
        }
    }
    assert_eq!(reader.key(), KEYS[3]);
    assert_eq!(reader.step(GlobalRead::Id(InternalId(4))), MetaIdOutcome::Done(metadata()));
}

#[test]
fn globals_that_cannot_be_used_are_errors() {
    let error = || ServiceError {
        msg: "broken".to_string(),
        occ: false,
        overloaded: false,
        out_of_retention: false,
    };
    for count in 0..4 {
        let cases = vec![
            (GlobalRead::Missing, DatabaseError::MissingGlobal(KEYS[count])),
            (GlobalRead::NotString, DatabaseError::GlobalNotString(KEYS[count])),
            (GlobalRead::Malformed, DatabaseError::MalformedGlobal(KEYS[count])),
            (GlobalRead::Failed(error()), DatabaseError::Service(error())),
        ];
        for (read, expected) in cases {
            let mut reader = DatabaseSnapshot::get_meta_ids();
            for i in 0..count {
                match reader.step(GlobalRead::Id(InternalId(i as u128))) {
                    MetaIdOutcome::More(next) => reader = next,
                    other => panic!("{:?}", other),
                }
            }
            assert_eq!(reader.step(read), MetaIdOutcome::Failed(expected));
        }
    }
}
