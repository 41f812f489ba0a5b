//! In what order a fresh database is written.

use crate::errors::{DatabaseError, PersistenceGlobalKey, ServiceError};
use crate::ids::{InternalId, Timestamp};
use crate::initialize::{BootstrapConfig, BootstrapPlan, Initializer};
use vstd::prelude::*;

verus! {

/// What is to be done next for a fresh database.
#[derive(Clone, Copy, Debug, PartialEq, Eq, Structural)]
pub enum InitialAction {
    WriteGlobal(PersistenceGlobalKey, InternalId),
    /// Set up the indexes that the plan's index documents describe.
    BootstrapIndexes,
    /// Find out how the indexes change with a document of the plan.
    UpdateIndexes(usize),
    /// Write all documents, and all changes of indexes with them.
    WriteDocuments,
}

/// What came of it.
#[derive(Debug)]
pub enum InitialEvent<U> {
    Done,
    /// How the indexes change with a document.
    Updates(Vec<U>),
    Failed(ServiceError),
}

/// How it goes on.
pub enum InitialOutcome<U> {
    More(InitialWrites<U>),
    /// The database is there.
    Done(Initialized),
    Failed(DatabaseError),
}

/// The system tables were written.
#[derive(Debug)]
pub struct Initialized {
    complete: (),
}

enum Stage<U> {
    /// The globals with the ids of the two tables are written.
    Tables { initializer: Initializer, position: u128 },
    /// The documents are laid out.
    Planned { plan: BootstrapPlan, index_writes: Vec<(Timestamp, U)>, position: u128 },
}

/// A fresh database while it is written.
pub struct InitialWrites<U> {
    config: Ghost<BootstrapConfig>,
    ids: Ghost<Seq<InternalId>>,
    stage: Stage<U>,
}

/// All that is done for a fresh database, in order: the globals that lead to the
/// two metadata tables, the changes of indexes document by document, the globals
/// that lead to the tables' indexes, and the documents.
pub open spec fn initial_actions(
    config: BootstrapConfig,
    ids: Seq<InternalId>,
    plan: BootstrapPlan,
) -> Seq<InitialAction> {
    let tables = config.table_globals(ids);
    let indexes = plan.index_globals();
    seq![
        InitialAction::WriteGlobal(tables[0].0, tables[0].1),
        InitialAction::WriteGlobal(tables[1].0, tables[1].1),
        InitialAction::BootstrapIndexes,
    ] + Seq::new(
        plan.document_writes@.len(),
        |i: int| InitialAction::UpdateIndexes(i as usize),
    ) + seq![
        InitialAction::WriteGlobal(indexes[0].0, indexes[0].1),
        InitialAction::WriteGlobal(indexes[1].0, indexes[1].1),
        InitialAction::WriteDocuments,
    ]
}

/// Changes of indexes, all at the first timestamp.
pub open spec fn at_first_timestamp<U>(updates: Seq<U>) -> Seq<(Timestamp, U)> {
    updates.map_values(|update: U| (Timestamp(0), update))
}

/// All changes of indexes are at the first timestamp.
pub open spec fn are_first<U>(writes: Seq<(Timestamp, U)>) -> bool {
    forall|i: int| 0 <= i < writes.len() ==> (#[trigger] writes[i]).0 == Timestamp(0)
}

impl<U> InitialWrites<U> {
    #[verifier::type_invariant]
    spec fn valid(self) -> bool {
        match self.stage {
            Stage::Tables { initializer, position } => {
                &&& initializer.config() == self.config@
                &&& initializer.ids() == self.ids@
                &&& position < 2
            },
            Stage::Planned { plan, index_writes, position } => {
                &&& self.config@.is_plan(self.ids@, plan)
                &&& 2 <= position < plan.document_writes@.len() + 6
                &&& are_first(index_writes@)
            },
        }
    }

    /// What the database is made of.
    pub closed spec fn config(self) -> BootstrapConfig {
        self.config@
    }

    /// The ids that were drawn for it.
    pub closed spec fn ids(self) -> Seq<InternalId> {
        self.ids@
    }

    /// How much was done.
    pub closed spec fn position(self) -> int {
        match self.stage {
            Stage::Tables { position, .. } => position as int,
            Stage::Planned { position, .. } => position as int,
        }
    }

    /// The documents, once they are laid out.
    pub closed spec fn spec_plan(self) -> Option<BootstrapPlan> {
        match self.stage {
            Stage::Tables { .. } => None,
            Stage::Planned { plan, .. } => Some(plan),
        }
    }

    /// The changes of indexes that are known so far.
    pub closed spec fn spec_index_writes(self) -> Seq<(Timestamp, U)> {
        match self.stage {
            Stage::Tables { .. } => Seq::empty(),
            Stage::Planned { index_writes, .. } => index_writes@,
        }
    }

    /// What is to be done next.
    pub open spec fn spec_action(self) -> InitialAction {
        match self.spec_plan() {
            Some(plan) => initial_actions(self.config(), self.ids(), plan)[self.position()],
            None => {
                let global = self.config().table_globals(self.ids())[self.position()];
                InitialAction::WriteGlobal(global.0, global.1)
            },
        }
    }

    /// Nothing was written yet.
    pub fn new(initializer: Initializer) -> (writes: InitialWrites<U>)
        ensures
            writes.config() == initializer.config(),
            writes.ids() == initializer.ids(),
            writes.position() == 0,
            writes.spec_plan() is None,
            writes.spec_index_writes().len() == 0,
    {
        InitialWrites {
            config: Ghost(initializer.config()),
            ids: Ghost(initializer.ids()),
            stage: Stage::Tables { initializer, position: 0 },
        }
    }

    /// What is to be done next.
    pub fn action(&self) -> (action: InitialAction)
        ensures
            action == self.spec_action(),
            self.spec_plan() is None ==> 0 <= self.position() < 2,
            self.spec_plan() matches Some(plan) ==> {
                &&& self.config().is_plan(self.ids(), plan)
                &&& 2 <= self.position() < initial_actions(self.config(), self.ids(), plan).len()
            },
    {
        proof {
            use_type_invariant(self);
        }
        match &self.stage {
            Stage::Tables { initializer, position } => {
                let globals = initializer.globals();
                let (key, id) = globals[*position as usize];
                InitialAction::WriteGlobal(key, id)
            },
            Stage::Planned { plan, index_writes: _, position } => {
                let position: u128 = *position;
                let count: u128 = plan.document_writes.len() as u128;
                if position == 2 {
                    InitialAction::BootstrapIndexes
                } else if position - 3 < count {
                    InitialAction::UpdateIndexes((position - 3) as usize)
                } else if position - 3 - count < 2 {
                    let globals = plan.globals();
                    let (key, id) = globals[(position - 3 - count) as usize];
                    InitialAction::WriteGlobal(key, id)
                } else {
                    InitialAction::WriteDocuments
                }
            },
        }
    }

    /// The documents, once they are laid out.
    pub fn plan(&self) -> (plan: Option<&BootstrapPlan>)
        ensures
            match plan {
                Some(p) => self.spec_plan() == Some(*p),
                None => self.spec_plan() is None,
            },
    {
        match &self.stage {
            Stage::Tables { .. } => None,
            Stage::Planned { plan, .. } => Some(plan),
        }
    }

    /// The changes of indexes that are known so far.
    pub fn index_writes(&self) -> (writes: Option<&Vec<(Timestamp, U)>>)
        ensures
            match writes {
                Some(w) => {
                    &&& self.spec_plan() is Some
                    &&& w@ == self.spec_index_writes()
                    &&& are_first(w@)
                },
                None => self.spec_plan() is None,
            },
    {
        proof {
            use_type_invariant(self);
        }
        match &self.stage {
            Stage::Tables { .. } => None,
            Stage::Planned { index_writes, .. } => Some(index_writes),
        }
    }

    /// Takes what came of the action.
    ///
    /// Once the first two globals are written the documents are laid out, which
    /// may fail. Nothing else fails but the actions themselves, and nothing is done
    /// after a failure.
    pub fn step(self, event: InitialEvent<U>) -> (outcome: InitialOutcome<U>)
        requires
            event is Updates ==> self.spec_action() is UpdateIndexes,
            event is Done ==> !(self.spec_action() is UpdateIndexes),
        ensures
            match event {
                InitialEvent::Failed(error) => outcome == InitialOutcome::<U>::Failed(
                    DatabaseError::Service(error),
                ),
                _ => if self.spec_action() is WriteDocuments {
                    outcome is Done
                } else if self.position() == 1 {
                    match outcome {
                        InitialOutcome::More(next) => {
                            &&& next.continues(self)
                            &&& next.spec_plan() is Some
                            &&& self.config().is_plan(self.ids(), next.spec_plan()->0)
                            &&& next.spec_index_writes().len() == 0
                        },
                        InitialOutcome::Failed(error) => self.config().has_no_plan(
                            self.ids(),
                            error,
                        ),
                        InitialOutcome::Done(_) => false,
                    }
                } else {
                    &&& outcome matches InitialOutcome::More(next)
                    &&& next.continues(self)
                    &&& next.spec_plan() == self.spec_plan()
                    &&& next.spec_index_writes() == match event {
                        InitialEvent::Updates(updates) => self.spec_index_writes()
                            + at_first_timestamp(updates@),
                        _ => self.spec_index_writes(),
                    }
                },
            },
    {
        let action = self.action();
        proof {
            use_type_invariant(&self);
        }
        let ghost before = self;
        let updates: Vec<U> = match event {
            InitialEvent::Failed(error) => {
                return InitialOutcome::Failed(DatabaseError::Service(error));
            },
            InitialEvent::Updates(updates) => updates,
            InitialEvent::Done => Vec::new(),
        };
        let InitialWrites { config, ids, stage } = self;
        match stage {
            Stage::Tables { initializer, position } => {
                if position == 0 {
                    return InitialOutcome::More(
                        InitialWrites {
                            config,
                            ids,
                            stage: Stage::Tables { initializer, position: 1 },
                        },
                    );
                }
                match initializer.plan() {
                    Ok(plan) => InitialOutcome::More(
                        InitialWrites {
                            config,
                            ids,
                            stage: Stage::Planned { plan, index_writes: Vec::new(), position: 2 },
                        },
                    ),
                    Err(error) => InitialOutcome::Failed(error),
                }
            },
            Stage::Planned { plan, index_writes, position } => {
                if let InitialAction::WriteDocuments = action {
                    return InitialOutcome::Done(Initialized { complete: () });
                }
                let mut index_writes = index_writes;
                let mut stamped = BootstrapPlan::index_writes(updates);
                assert(before.spec_index_writes() + stamped@ =~= if event is Updates {
                    before.spec_index_writes() + at_first_timestamp(event->Updates_0@)
                } else {
                    before.spec_index_writes()
                });
                index_writes.append(&mut stamped);
                InitialOutcome::More(
                    InitialWrites {
                        config,
                        ids,
                        stage: Stage::Planned { plan, index_writes, position: position + 1 },
                    },
                )
            },
        }
    }

    /// Whether this is one action further on.
    pub open spec fn continues(self, before: InitialWrites<U>) -> bool {
        &&& self.config() == before.config()
        &&& self.ids() == before.ids()
        &&& self.position() == before.position() + 1
    }
}

/// The documents are written last of all, and once: nothing is done after they
/// are written, and all globals are written before.
pub proof fn law_documents_are_written_once_and_last(
    config: BootstrapConfig,
    ids: Seq<InternalId>,
    plan: BootstrapPlan,
    i: int,
)
    requires
        0 <= i < initial_actions(config, ids, plan).len(),
    ensures
        initial_actions(config, ids, plan)[i] is WriteDocuments <==> i == initial_actions(
            config,
            ids,
            plan,
        ).len() - 1,
{
}

} // verus!
