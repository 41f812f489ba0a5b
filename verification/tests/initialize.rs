//! The layout of fresh databases.

use database::errors::{DatabaseError, PersistenceGlobalKey, ServiceError};
use database::ids::{
    InternalId, ResolvedDocumentId, TableId, TableIdAndTableNumber, TableNumber, Timestamp,
};
use database::initial_writes::{InitialAction, InitialEvent, InitialOutcome, InitialWrites};
use database::initialize::{
    BootstrapConfig, BootstrapDocument, BootstrapPlan, ConflictStrategy, IndexState,
    IndexedFields, Initializer, SystemIndex, SystemTable,
};
use database::meta_ids::{BootstrapMetadata, GlobalRead, MetaIdOutcome};
use database::metadata::{ParsedDocument, TableState};
use database::name_map::NameMap;
use database::names::TableName;
use database::registry::{IndexEntry, IndexRegistry, TableRegistry};
use database::snapshot::DatabaseSnapshot;

fn system_table(name: &str, indexes: Vec<SystemIndex>) -> SystemTable {
    SystemTable { table_name: TableName::new(name), indexes }
}

fn by_name(table: &str) -> SystemIndex {
    SystemIndex {
        table_name: TableName::new(table),
        descriptor: "by_name".to_string(),
        fields: IndexedFields::Fields(vec!["name".to_string()]),
    }
}

fn config(numbers: Vec<(&str, u32)>, system_tables: Vec<SystemTable>) -> BootstrapConfig {
    let mut table_numbers = NameMap::new();
    for (name, number) in numbers {
        table_numbers.insert(name.to_string(), TableNumber(number));
    }
    BootstrapConfig {
        tables_table: TableName::new("_tables"),
        index_table: TableName::new("_index"),
        system_tables,
        table_numbers,
        num_reserved_system_tables: TableNumber(10_000),
        num_reserved_legacy_tables: TableNumber(1),
    }
}

fn three_tables(index: SystemIndex) -> BootstrapConfig {
    config(
        vec![("_tables", 1), ("_index", 2), ("_modules", 3)],
        vec![
            system_table("_tables", vec![]),
            system_table("_index", vec![]),
            system_table("_modules", vec![index]),
        ],
    )
}

fn ids(config: &BootstrapConfig) -> Vec<InternalId> {
    (0..config.ids_needed().unwrap()).map(|i| InternalId(500 - i as u128)).collect()
}

fn initializer(config: BootstrapConfig) -> Result<Initializer, DatabaseError> {
    let ids = ids(&config);
    Initializer::start(config, ids)
}

fn table(id: u128, number: u32) -> TableIdAndTableNumber {
    TableIdAndTableNumber {
        table_id: TableId(InternalId(id)),
        table_number: TableNumber(number),
    }
}

fn plan() -> BootstrapPlan {
    initializer(three_tables(by_name("_modules"))).unwrap().plan().unwrap()
}

#[test]
fn ids_are_counted() {
    // Three tables, two indexes each but for the index table, one system index.
    assert_eq!(three_tables(by_name("_modules")).ids_needed(), Some(9));
}

#[test]
fn globals_come_in_two_parts() {
    let started = initializer(three_tables(by_name("_modules"))).unwrap();
    assert_eq!(
        started.globals(),
        vec![
            (PersistenceGlobalKey::TablesTableId, InternalId(500)),
            (PersistenceGlobalKey::IndexTableId, InternalId(499)),
        ]
    );
    assert_eq!(
        started.plan().unwrap().globals(),
        vec![
            (PersistenceGlobalKey::TablesByIdIndex, InternalId(497)),
            (PersistenceGlobalKey::IndexByIdIndex, InternalId(495)),
        ]
    );
}

#[test]
fn documents_are_laid_out_table_by_table() {
    let plan = plan();
    assert_eq!(plan.conflict_strategy, ConflictStrategy::Error);
    assert!(plan.document_writes.iter().all(|write| write.ts == Timestamp(0)));
    let tables = table(500, 1);
    let index = table(499, 2);
    for (i, write) in plan.document_writes.iter().enumerate() {
        assert_eq!(write.creation_order, i);
    }
    let mut found: Vec<(ResolvedDocumentId, String)> = vec![];
    for write in &plan.document_writes {
        let text = match &write.document {
            BootstrapDocument::Table(metadata) => {
                assert_eq!(metadata.state, TableState::Active);
                format!("{} {}", metadata.name.name, metadata.number.0)
            },
            BootstrapDocument::Index(metadata) => {
                assert_eq!(metadata.state, IndexState::Enabled);
                format!("{}.{}", metadata.name.table.0 .0, metadata.name.descriptor)
            },
        };
        found.push((write.id, text));
    }
    assert_eq!(
        found,
        vec![
            (tables.id(InternalId(500)), "_tables 1".to_string()),
            (index.id(InternalId(497)), "500.by_id".to_string()),
            (index.id(InternalId(496)), "500.by_creation_time".to_string()),
            (tables.id(InternalId(499)), "_index 2".to_string()),
            (index.id(InternalId(495)), "499.by_id".to_string()),
            (tables.id(InternalId(498)), "_modules 3".to_string()),
            (index.id(InternalId(494)), "498.by_id".to_string()),
            (index.id(InternalId(493)), "498.by_creation_time".to_string()),
            (index.id(InternalId(492)), "498.by_name".to_string()),
        ]
    );
}

#[test]
fn indexes_keep_their_fields() {
    let plan = plan();
    let fields: Vec<&IndexedFields> = plan
        .document_writes
        .iter()
        .filter_map(|write| match &write.document {
            BootstrapDocument::Index(metadata) => Some(&metadata.fields),
            BootstrapDocument::Table(_) => None,
        })
        .collect();
    assert_eq!(fields[0], &IndexedFields::ById);
    assert_eq!(fields[1], &IndexedFields::CreationTime);
    assert_eq!(fields[5], &IndexedFields::Fields(vec!["name".to_string()]));
}

#[test]
fn index_documents_are_found_among_all() {
    let found: Vec<(u128, usize)> = plan().index_documents.into_iter().collect();
    assert_eq!(found, vec![(492, 8), (493, 7), (494, 6), (495, 4), (496, 2), (497, 1)]);
}

#[test]
fn index_writes_are_at_the_first_timestamp() {
    assert_eq!(
        BootstrapPlan::index_writes(vec!["a", "b"]),
        vec![(Timestamp(0), "a"), (Timestamp(0), "b")]
    );
}

#[test]
fn a_fresh_database_can_be_read_back() {
    let plan = plan();
    // The documents of the tables table, in the order of their ids.
    let mut documents = vec![];
    let mut indexes = vec![];
    for write in plan.document_writes {
        match write.document {
            BootstrapDocument::Table(value) => {
                documents.push(ParsedDocument { id: write.id.internal_id, value })
            },
            BootstrapDocument::Index(metadata) => indexes.push(IndexEntry {
                id: write.id.internal_id,
                name: metadata.name,
                enabled: metadata.state == IndexState::Enabled,
                system_owned: true,
            }),
        }
    }
    documents.sort_by_key(|document| document.id);
    let (table_mapping, table_states) = DatabaseSnapshot::table_mapping_and_states(documents);
    assert_eq!(table_mapping.id(&TableName::new("_tables")), Some(table(500, 1)));
    assert_eq!(table_mapping.id(&TableName::new("_index")), Some(table(499, 2)));
    assert_eq!(table_mapping.id(&TableName::new("_modules")), Some(table(498, 3)));
    let index_registry = IndexRegistry { index_table: table(499, 2), indexes };
    let by_id = index_registry.must_get_by_id(TableId(InternalId(500))).unwrap();
    assert_eq!(by_id.id, plan.tables_by_id);
    let table_registry = TableRegistry {
        table_mapping,
        table_states,
        virtual_table_mapping: DatabaseSnapshot::virtual_table_mapping(vec![]),
    };
    assert_eq!(DatabaseSnapshot::verify_invariants(&table_registry, &index_registry), Ok(()));
}

#[test]
fn the_globals_of_a_fresh_database_can_be_read_back() {
    let started = initializer(three_tables(by_name("_modules"))).unwrap();
    let mut globals = started.globals();
    globals.extend(started.plan().unwrap().globals());
    let mut reader = DatabaseSnapshot::get_meta_ids();
    let metadata = loop {
        let key = reader.key();
        let id = globals.iter().find(|global| global.0 == key).unwrap().1;
        match reader.step(GlobalRead::Id(id)) {
            MetaIdOutcome::More(next) => reader = next,
            MetaIdOutcome::Done(metadata) => break metadata,
            MetaIdOutcome::Failed(error) => panic!("{:?}", error),
        }
    };
    assert_eq!(
        metadata,
        BootstrapMetadata {
            tables_by_id: InternalId(497),
            index_by_id: InternalId(495),
            tables_table_id: TableId(InternalId(500)),
            index_table_id: TableId(InternalId(499)),
        }
    );
}

#[test]
fn a_table_without_number_is_an_error() {
    let config = config(vec![("_tables", 1)], vec![
        system_table("_tables", vec![]),
        system_table("_index", vec![]),
    ]);
    assert_eq!(
        initializer(config).unwrap_err(),
        DatabaseError::NoNumberForTable { table_name: TableName::new("_index") }
    );
}

#[test]
fn a_number_that_is_taken_is_an_error() {
    let config = config(vec![("_tables", 1), ("_index", 1)], vec![
        system_table("_tables", vec![]),
        system_table("_index", vec![]),
    ]);
    assert_eq!(
        initializer(config).unwrap_err(),
        DatabaseError::NumberTaken {
            table_number: TableNumber(1),
            table_name: TableName::new("_index"),
            existing: TableName::new("_tables"),
        }
    );
}

#[test]
fn system_tables_keep_to_their_numbers() {
    let with_number = |number| {
        initializer(config(vec![("_tables", number)], vec![system_table("_tables", vec![])]))
            .unwrap_err()
    };
    assert_eq!(
        with_number(10_000),
        DatabaseError::NumberReservedForUsers {
            table_number: TableNumber(10_000),
            table_name: TableName::new("_tables"),
        }
    );
    assert_eq!(
        with_number(0),
        DatabaseError::NumberReservedForLegacy {
            table_number: TableNumber(0),
            table_name: TableName::new("_tables"),
        }
    );
    // The numbers next to the limits are in order; what is missing then is the
    // index table.
    let missing = DatabaseError::TableNameNotFound { table_name: TableName::new("_index") };
    assert_eq!(with_number(9_999), missing);
    assert_eq!(with_number(1), missing);
}

#[test]
fn a_database_without_tables_table_is_an_error() {
    assert_eq!(
        initializer(config(vec![], vec![])).unwrap_err(),
        DatabaseError::TableNameNotFound { table_name: TableName::new("_tables") }
    );
}

#[test]
fn an_index_on_an_unknown_table_is_an_error() {
    let started = initializer(three_tables(by_name("_nothing"))).unwrap();
    assert_eq!(
        started.plan().unwrap_err(),
        DatabaseError::TableNameNotFound { table_name: TableName::new("_nothing") }
    );
}

fn writes(config: BootstrapConfig) -> InitialWrites<String> {
    InitialWrites::new(initializer(config).unwrap())
}

#[test]
fn a_fresh_database_is_written_in_order() {
    let mut machine = writes(three_tables(by_name("_modules")));
    assert!(machine.plan().is_none());
    let mut actions = vec![];
    loop {
        let action = machine.action();
        actions.push(action);
        let event = match action {
            InitialAction::UpdateIndexes(i) => {
                InitialEvent::Updates(vec![format!("{}a", i), format!("{}b", i)])
            },
            InitialAction::WriteDocuments => {
                assert_eq!(machine.plan().unwrap().document_writes.len(), 9);
                let index_writes = machine.index_writes().unwrap();
                assert_eq!(index_writes.len(), 18);
                assert_eq!(index_writes[0], (Timestamp(0), "0a".to_string()));
                assert_eq!(index_writes[17], (Timestamp(0), "8b".to_string()));
                InitialEvent::Done
            },
            _ => InitialEvent::Done,
        };
        match machine.step(event) {
            InitialOutcome::More(next) => machine = next,
            InitialOutcome::Done(_) => break,
            InitialOutcome::Failed(error) => panic!("{:?}", error),
        }
    }
    let mut expected = vec![
        InitialAction::WriteGlobal(PersistenceGlobalKey::TablesTableId, InternalId(500)),
        InitialAction::WriteGlobal(PersistenceGlobalKey::IndexTableId, InternalId(499)),
        InitialAction::BootstrapIndexes,
    ];
    expected.extend((0..9).map(InitialAction::UpdateIndexes));
    expected.extend([
        InitialAction::WriteGlobal(PersistenceGlobalKey::TablesByIdIndex, InternalId(497)),
        InitialAction::WriteGlobal(PersistenceGlobalKey::IndexByIdIndex, InternalId(495)),
        InitialAction::WriteDocuments,
    ]);
    assert_eq!(actions, expected);
}

#[test]
fn a_write_that_fails_stops_the_others() {
    let error = || ServiceError {
        msg: "full".to_string(),
        occ: false,
        overloaded: false,
        out_of_retention: false,
    };
    let machine = writes(three_tables(by_name("_modules")));
    match machine.step(InitialEvent::Failed(error())) {
        InitialOutcome::Failed(failure) => assert_eq!(failure, DatabaseError::Service(error())),
        _ => panic!("the write failed"),
    }
}

#[test]
fn a_database_without_plan_has_its_first_globals() {
    let machine = writes(three_tables(by_name("_nothing")));
    let machine = match machine.step(InitialEvent::Done) {
        InitialOutcome::More(next) => next,
        _ => panic!("there is another global"),
    };
    match machine.step(InitialEvent::Done) {
        InitialOutcome::Failed(error) => assert_eq!(
            error,
            DatabaseError::TableNameNotFound { table_name: TableName::new("_nothing") }
        ),
        _ => panic!("there is no such table"),
    }
}

#[test]
fn the_tables_of_a_fresh_database_are_named() {
    let names: Vec<String> = three_tables(by_name("_modules"))
        .table_names()
        .into_iter()
        .map(|name| name.name)
        .collect();
    assert_eq!(names, vec!["_tables", "_index", "_modules"]);
}
