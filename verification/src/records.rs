//! The durable record of an operator action.
//!
//! An operator action and its audit entry are written in one transaction, after
//! the operator was looked up once more. This module decides each step; the
//! caller performs the step against the database and hands back what came of it.
//! A transaction that is not committed leaves nothing behind.

use vstd::prelude::*;

use crate::admission::{
    admitted_operator, enabled_operator, operator_lookup, session_lookup, OperatorLookup, RegistryAnswer,
};
use crate::json::{Fields, Json, JsonView, NumberView};
use crate::session::Session;
use crate::upstream::REPLICATION_FACTOR;

verus! {

/// An operator action that is recorded.
pub enum Operation {
    /// Scaling the cluster to that many nodes.
    Scale { target_nodes: i32 },
    /// Publishing a notice.
    Notice { severity: String, title: String, body: String },
}

/// An entry of the audit log.
pub struct AuditEntry {
    pub actor_operator_id: Option<u128>,
    pub actor: Option<String>,
    pub action: String,
    pub target: Option<String>,
    pub meta: Json,
}

/// Why an action could not be recorded.
#[derive(Clone, Copy, Debug, Eq, PartialEq, Structural)]
pub enum RecordFailure {
    /// There is no database.
    Unavailable,
    /// The registry no longer admits the operator.
    AuthorizationChanged,
    /// The database reported an error.
    Reported,
}

/// What the database is asked to do next.
pub enum RecordAction<'a> {
    /// Look up the enabled operator with this subject.
    LookUp(u128),
    /// Open a transaction.
    Begin,
    /// Insert the action's own row, in the operator's name.
    Insert { operator_id: Option<u128>, operation: &'a Operation },
    /// Insert the audit entry.
    InsertAudit(AuditEntry),
    Commit,
    /// Nothing: the recording is over.
    Rest,
}

/// What came of a [`RecordAction`]. The inserted row is handed back as `R`.
pub enum RecordEvent<R> {
    Registry(RegistryAnswer),
    /// It was done; there is nothing to tell.
    Done,
    /// The row was inserted, and got this id.
    Inserted { id: String, row: R },
    /// The database reported an error.
    Failed,
}

/// How far a recording has come: what it waits for.
pub enum RecordStage<R> {
    LookingUp(u128),
    Beginning(Option<u128>),
    Inserting(Option<u128>),
    Auditing { operator_id: Option<u128>, id: String, row: R },
    Committing(R),
    Over(Result<R, RecordFailure>),
}

/// One recording in progress.
pub struct Recording<R> {
    pub operation: Operation,
    /// The email of whoever acts.
    pub actor: Option<String>,
    pub stage: RecordStage<R>,
}

/// The parameters kept with a scale.
pub open spec fn scale_params(target_nodes: int) -> JsonView {
    JsonView::Object(
        Map::empty().insert("target_nodes"@, JsonView::Number(NumberView::Integer(target_nodes))).insert(
            "replication_factor"@,
            JsonView::Number(NumberView::Integer(REPLICATION_FACTOR as int)),
        ),
    )
}

/// The name of an action in the audit log.
pub open spec fn audited_action(operation: Operation) -> Seq<char> {
    match operation {
        Operation::Scale { target_nodes: _ } => "infra.scale.requested"@,
        Operation::Notice { severity: _, title: _, body: _ } => "notice.published"@,
    }
}

/// What an action is directed at, when its row has that id.
pub open spec fn audited_target(operation: Operation, id: Seq<char>) -> Seq<char> {
    match operation {
        Operation::Scale { target_nodes: _ } => "fiducia-brain"@,
        Operation::Notice { severity: _, title: _, body: _ } => id,
    }
}

/// What the audit log keeps of an action besides.
pub open spec fn audited_meta(operation: Operation, id: Seq<char>) -> JsonView {
    match operation {
        Operation::Scale { target_nodes } => JsonView::Object(
            Map::empty().insert("target_nodes"@, JsonView::Number(NumberView::Integer(target_nodes as int))).insert(
                "operation_id"@,
                JsonView::Text(id),
            ),
        ),
        Operation::Notice { severity, title: _, body: _ } => JsonView::Object(
            Map::empty().insert("severity"@, JsonView::Text(severity@)).insert("notice_id"@, JsonView::Text(id)),
        ),
    }
}

/// Whether `entry` is the audit entry of an action whose row has that id.
pub open spec fn audits(
    entry: AuditEntry,
    operation: Operation,
    actor: Option<Seq<char>>,
    operator_id: Option<u128>,
    id: Seq<char>,
) -> bool {
    &&& entry.actor_operator_id == operator_id
    &&& entry.actor.deep_view() == actor
    &&& entry.action@ == audited_action(operation)
    &&& entry.target.deep_view() == Some(audited_target(operation, id))
    &&& entry.meta@ == audited_meta(operation, id)
}

/// The parameters kept with a scale.
pub fn scale_parameters(target_nodes: i32) -> (params: Json)
    ensures
        params@ == scale_params(target_nodes as int),
{
    Fields::new().with("target_nodes", Json::signed(target_nodes as i64)).with(
        "replication_factor",
        Json::unsigned(REPLICATION_FACTOR),
    ).done()
}

/// The audit entry of an action whose row has that id.
pub fn audit_entry(operation: &Operation, actor: &Option<String>, operator_id: Option<u128>, id: &str) -> (entry:
    AuditEntry)
    ensures
        audits(entry, *operation, actor.deep_view(), operator_id, id@),
{
    let actor = match actor {
        Some(actor) => Some(actor.clone()),
        None => None,
    };
    match operation {
        Operation::Scale { target_nodes } => AuditEntry {
            actor_operator_id: operator_id,
            actor,
            action: "infra.scale.requested".to_owned(),
            target: Some("fiducia-brain".to_owned()),
            meta: Fields::new().with("target_nodes", Json::signed(*target_nodes as i64)).with(
                "operation_id",
                Json::text(id),
            ).done(),
        },
        Operation::Notice { severity, title: _, body: _ } => AuditEntry {
            actor_operator_id: operator_id,
            actor,
            action: "notice.published".to_owned(),
            target: Some(id.to_owned()),
            meta: Fields::new().with("severity", Json::text(severity.as_str())).with(
                "notice_id",
                Json::text(id),
            ).done(),
        },
    }
}

/// Where a recording starts.
pub open spec fn record_start<R>(lookup: OperatorLookup, database: bool) -> RecordStage<R> {
    if !database {
        RecordStage::Over(Err(RecordFailure::Unavailable))
    } else {
        match lookup {
            OperatorLookup::Development => RecordStage::Beginning(None),
            OperatorLookup::Subject(subject) => RecordStage::LookingUp(subject),
            OperatorLookup::Impossible => RecordStage::Over(Err(RecordFailure::AuthorizationChanged)),
        }
    }
}

/// Whether `next` follows `stage` on `event`. An event that does not answer the
/// question counts as a database error.
pub open spec fn record_follows<R>(stage: RecordStage<R>, event: RecordEvent<R>, next: RecordStage<R>) -> bool {
    let broken = RecordStage::<R>::Over(Err(RecordFailure::Reported));
    match stage {
        RecordStage::LookingUp(_) => match event {
            RecordEvent::Registry(RegistryAnswer::Operator { id, role }) => if admitted_operator(
                RegistryAnswer::Operator { id, role },
            ) is Some {
                next == RecordStage::<R>::Beginning(Some(id))
            } else {
                next == RecordStage::<R>::Over(Err(RecordFailure::AuthorizationChanged))
            },
            RecordEvent::Registry(RegistryAnswer::Missing) => next == RecordStage::<R>::Over(
                Err(RecordFailure::AuthorizationChanged),
            ),
            _ => next == broken,
        },
        RecordStage::Beginning(operator_id) => match event {
            RecordEvent::Done => next == RecordStage::<R>::Inserting(operator_id),
            _ => next == broken,
        },
        RecordStage::Inserting(operator_id) => match event {
            RecordEvent::Inserted { id, row } => next == (RecordStage::Auditing { operator_id, id, row }),
            _ => next == broken,
        },
        RecordStage::Auditing { operator_id: _, id: _, row } => match event {
            RecordEvent::Done => next == RecordStage::Committing(row),
            _ => next == broken,
        },
        RecordStage::Committing(row) => match event {
            RecordEvent::Done => next == RecordStage::Over(Ok::<R, RecordFailure>(row)),
            _ => next == broken,
        },
        RecordStage::Over(_) => next == stage,
    }
}

/// Whether `action` is what a recording asks of the database in its stage.
pub open spec fn record_asks<R>(recording: Recording<R>, action: RecordAction) -> bool {
    match recording.stage {
        RecordStage::LookingUp(subject) => action == RecordAction::LookUp(subject),
        RecordStage::Beginning(_) => action is Begin,
        RecordStage::Inserting(operator_id) => action == (RecordAction::Insert {
            operator_id,
            operation: &recording.operation,
        }),
        RecordStage::Auditing { operator_id, id, row: _ } => action matches RecordAction::InsertAudit(entry)
            && audits(entry, recording.operation, recording.actor.deep_view(), operator_id, id@),
        RecordStage::Committing(_) => action is Commit,
        RecordStage::Over(_) => action is Rest,
    }
}

impl<R> Recording<R> {
    /// The recording of an action by a session's operator, found by `lookup`.
    pub fn begin(operation: Operation, actor: Option<String>, lookup: OperatorLookup, database: bool) -> (recording: Recording<R>)
        ensures
            recording.operation == operation,
            recording.actor == actor,
            recording.stage == record_start::<R>(lookup, database),
    {
        let stage = if !database {
            RecordStage::Over(Err(RecordFailure::Unavailable))
        } else {
            match lookup {
                OperatorLookup::Development => RecordStage::Beginning(None),
                OperatorLookup::Subject(subject) => RecordStage::LookingUp(subject),
                OperatorLookup::Impossible => RecordStage::Over(Err(RecordFailure::AuthorizationChanged)),
            }
        };
        Recording { operation, actor, stage }
    }

    /// The recording of an action by a session.
    pub fn begin_for(operation: Operation, session: &Session, release_hardened: bool, database: bool) -> (recording: Recording<R>)
        ensures
            recording.operation == operation,
            recording.actor.deep_view() == session.email.deep_view(),
            recording.stage == record_start::<R>(session_lookup(Some(*session), release_hardened), database),
    {
        let actor = match &session.email {
            Some(email) => Some(email.clone()),
            None => None,
        };
        Recording::begin(operation, actor, operator_lookup(session, release_hardened), database)
    }

    /// What the database is asked to do next.
    pub fn action<'a>(&'a self) -> (action: RecordAction<'a>)
        ensures
            record_asks(*self, action),
    {
        match &self.stage {
            RecordStage::LookingUp(subject) => RecordAction::LookUp(*subject),
            RecordStage::Beginning(_) => RecordAction::Begin,
            RecordStage::Inserting(operator_id) => RecordAction::Insert {
                operator_id: *operator_id,
                operation: &self.operation,
            },
            RecordStage::Auditing { operator_id, id, row: _ } => RecordAction::InsertAudit(
                audit_entry(&self.operation, &self.actor, *operator_id, id.as_str()),
            ),
            RecordStage::Committing(_) => RecordAction::Commit,
            RecordStage::Over(_) => RecordAction::Rest,
        }
    }

    /// The recording after the database did what it was asked.
    pub fn advance(self, event: RecordEvent<R>) -> (next: Recording<R>)
        ensures
            next.operation == self.operation,
            next.actor == self.actor,
            record_follows(self.stage, event, next.stage),
    {
        let operation = self.operation;
        let actor = self.actor;
        let stage = match (self.stage, event) {
            (RecordStage::Over(result), _) => RecordStage::Over(result),
            (RecordStage::LookingUp(_), RecordEvent::Registry(answer)) => match &answer {
                RegistryAnswer::Failed => RecordStage::Over(Err(RecordFailure::Reported)),
                _ => match enabled_operator(&answer) {
                    Some(id) => RecordStage::Beginning(Some(id)),
                    None => RecordStage::Over(Err(RecordFailure::AuthorizationChanged)),
                },
            },
            (RecordStage::Beginning(operator_id), RecordEvent::Done) => RecordStage::Inserting(operator_id),
            (RecordStage::Inserting(operator_id), RecordEvent::Inserted { id, row }) => RecordStage::Auditing {
                operator_id,
                id,
                row,
            },
            (RecordStage::Auditing { operator_id: _, id: _, row }, RecordEvent::Done) => RecordStage::Committing(row),
            (RecordStage::Committing(row), RecordEvent::Done) => RecordStage::Over(Ok(row)),
            _ => RecordStage::Over(Err(RecordFailure::Reported)),
        };
        Recording { operation, actor, stage }
    }
}

/// The stages that a list of events takes a recording through, from `stage` on.
pub open spec fn record_run<R>(stages: Seq<RecordStage<R>>, events: Seq<RecordEvent<R>>) -> bool {
    &&& stages.len() == events.len() + 1
    &&& forall|i: int|
        0 <= i < events.len() ==> record_follows(stages[i], #[trigger] events[i], stages[i + 1])
}

/// An action that counts as recorded was recorded in full: its own row was
/// inserted, the audit entry was inserted after it, and the transaction that
/// holds both was committed.
pub proof fn law_actions_are_recorded_with_their_audit<R>(
    stages: Seq<RecordStage<R>>,
    events: Seq<RecordEvent<R>>,
    lookup: OperatorLookup,
    database: bool,
)
    requires
        record_run(stages, events),
        stages[0] == record_start::<R>(lookup, database),
        stages.last() matches RecordStage::Over(Ok(_)),
    ensures
        exists|i: int|
            0 <= i && i + 2 < events.len() && #[trigger] stages[i] is Inserting && events[i] is Inserted && stages[i + 1]
                is Auditing && events[i + 1] is Done && stages[i + 2] is Committing && events[i + 2] is Done
                && stages.last() == RecordStage::Over(Ok::<R, RecordFailure>(events[i]->row)),
    decreases events.len(),
{
    let n = events.len() as int;
    if n == 0 {
        assert(stages.last() == stages[0]);
    } else {
        assert(record_follows(stages[n - 1], events[n - 1], stages[n]));
        assert(stages.last() == stages[n]);
        if stages[n - 1] is Over {
            let shorter = stages.drop_last();
            let fewer = events.drop_last();
            assert forall|i: int| 0 <= i < fewer.len() implies record_follows(shorter[i], #[trigger] fewer[i], shorter[i + 1]) by {
                assert(fewer[i] == events[i]);
            }
            law_actions_are_recorded_with_their_audit(shorter, fewer, lookup, database);
            let i = choose|i: int|
                0 <= i && i + 2 < fewer.len() && #[trigger] shorter[i] is Inserting && fewer[i] is Inserted
                    && shorter[i + 1] is Auditing && fewer[i + 1] is Done && shorter[i + 2] is Committing && fewer[i
                    + 2] is Done && shorter.last() == RecordStage::Over(Ok::<R, RecordFailure>(fewer[i]->row));
            assert(stages[i] == shorter[i] && stages[i + 1] == shorter[i + 1] && stages[i + 2] == shorter[i + 2]);
            assert(events[i] == fewer[i] && events[i + 1] == fewer[i + 1] && events[i + 2] == fewer[i + 2]);
            assert(stages[i] is Inserting);
        } else {
            assert(stages[n - 1] is Committing && events[n - 1] is Done);
            assert(n >= 2) by {
                if n == 1 {
                    assert(stages[0] is Committing);
                }
            }
            assert(record_follows(stages[n - 2], events[n - 2], stages[n - 1]));
            assert(stages[n - 2] is Auditing && events[n - 2] is Done);
            assert(n >= 3) by {
                if n == 2 {
                    assert(stages[0] is Auditing);
                }
            }
            assert(record_follows(stages[n - 3], events[n - 3], stages[n - 2]));
            assert(stages[n - 3] is Inserting && events[n - 3] is Inserted);
        }
    }
}

/// In a release build every recorded action carries the id of an operator whom
/// the registry admitted during this very recording.
pub proof fn law_release_records_name_an_admitted_operator<R>(
    stages: Seq<RecordStage<R>>,
    events: Seq<RecordEvent<R>>,
    session: Session,
    database: bool,
    at: int,
)
    requires
        record_run(stages, events),
        stages[0] == record_start::<R>(session_lookup(Some(session), true), database),
        0 <= at < stages.len(),
        stages[at] is Inserting || stages[at] is Beginning,
    ensures
        exists|i: int|
            0 <= i < at && (#[trigger] events[i] matches RecordEvent::Registry(answer) && admitted_operator(answer)
                == (if stages[at] is Inserting { stages[at]->Inserting_0 } else { stages[at]->Beginning_0 })
                && admitted_operator(answer) is Some),
    decreases at,
{
    if at == 0 {
    } else {
        assert(record_follows(stages[at - 1], events[at - 1], stages[at]));
        if stages[at] is Inserting {
            law_release_records_name_an_admitted_operator(stages, events, session, database, at - 1);
        }
    }
}

} // verus!
