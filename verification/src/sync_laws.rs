//! What the sync write path promises as a whole.
//!
//! The laws here speak of runs of a write's transaction against a database that
//! does what it is asked, or fails. A write is done once or not at all, and a
//! retry is answered from the first time it was done.

use vstd::prelude::*;

use crate::json::{signed_field, text_field, JsonView, NumberView};
use crate::streaming::InfraOperationsRow;
use crate::sync::{decision, patch_of, DatabaseFailure, Idem, PatchView, SyncWriteError, SyncWriteOutcome};
use crate::sync_transaction::{asks, follows, DatabaseAction, DatabaseEvent, WritePlan, WriteStage};

verus! {

/// What the database keeps of one idempotency key.
pub struct KeyEntry {
    pub fingerprint: Option<Seq<char>>,
    pub committed_version: Option<i64>,
}

/// What the database holds for the sync write path.
pub struct Database {
    pub keys: Map<Seq<char>, KeyEntry>,
    pub rows: Map<u128, InfraOperationsRow>,
}

/// A database with one transaction open on it.
pub struct OpenDatabase {
    /// What everyone else sees.
    pub committed: Database,
    /// What the transaction sees.
    pub working: Database,
}

/// The row under an identifier.
pub open spec fn row_of(database: Database, id: u128) -> Option<InfraOperationsRow> {
    if database.rows.contains_key(id) {
        Some(database.rows[id])
    } else {
        None
    }
}

/// The columns that a patch can set.
pub open spec fn settable(column: Seq<char>) -> bool {
    column == "status"@ || column == "target_nodes"@ || column == "error"@
}

/// The columns that the database stamps at every update.
pub open spec fn stamped(column: Seq<char>) -> bool {
    column == "version"@ || column == "updated_at"@ || column == "sync_sequence"@
}

/// Whether `after` is the document of a row that a patch was written to: it holds
/// what the patch sets, and what the patch does not set stays as it was, but for
/// the columns that the database stamps.
pub open spec fn document_patched(before: JsonView, patch: PatchView, after: JsonView) -> bool {
    &&& after.field("status"@) == (match patch.status {
        Some(status) => Some(JsonView::Text(status)),
        None => before.field("status"@),
    })
    &&& after.field("target_nodes"@) == (match patch.target_nodes {
        Some(target) => Some(JsonView::Number(NumberView::Integer(target as int))),
        None => before.field("target_nodes"@),
    })
    &&& after.field("error"@) == (match patch.error {
        Some(error) => Some(JsonView::Text(error)),
        None => before.field("error"@),
    })
    &&& forall|column: Seq<char>|
        !settable(column) && !stamped(column) ==> #[trigger] after.field(column) == before.field(column)
}

/// Whether `after` is a row that a patch was written to: its version is one
/// higher, its status is the patch's where that sets one, and so are the columns
/// of its document.
pub open spec fn patched(before: InfraOperationsRow, patch: PatchView, after: InfraOperationsRow) -> bool {
    &&& after.id@ == before.id@
    &&& after.version == before.version + 1
    &&& after.status@ == (match patch.status {
        Some(status) => status,
        None => before.status@,
    })
    &&& document_patched(before.document@, patch, after.document@)
    &&& after.document@.field("version"@) == Some(JsonView::Number(NumberView::Integer(after.version as int)))
}

/// Whether a database that is asked for `action` may answer with `event`. It may
/// fail at any time; a failed action changes nothing that is committed, except
/// that a commit may have been done before its answer was lost.
pub open spec fn performs(before: OpenDatabase, action: DatabaseAction, event: DatabaseEvent, after: OpenDatabase) -> bool {
    if event is Failed {
        after.committed == before.committed || (action is Commit && after.committed == before.working)
    } else {
        match action {
            DatabaseAction::Begin => {
                &&& event is Done
                &&& after.committed == before.committed
                &&& after.working == before.committed
            },
            DatabaseAction::ClaimKey { key, fingerprint } => {
                &&& after.committed == before.committed
                &&& after.working.rows == before.working.rows
                &&& if before.working.keys.contains_key(key@) {
                    event == DatabaseEvent::Rows(0) && after.working.keys == before.working.keys
                } else {
                    event == DatabaseEvent::Rows(1) && after.working.keys == before.working.keys.insert(
                        key@,
                        KeyEntry { fingerprint: Some(fingerprint@), committed_version: None },
                    )
                }
            },
            DatabaseAction::ReadKey { key } => {
                &&& after == before
                &&& event matches DatabaseEvent::Key(record)
                &&& record is Some <==> before.working.keys.contains_key(key@)
                &&& record matches Some(record) ==> before.working.keys[key@] == (KeyEntry {
                    fingerprint: record.fingerprint.deep_view(),
                    committed_version: record.committed_version,
                })
            },
            DatabaseAction::ReadRow { id } => {
                &&& after == before
                &&& event == DatabaseEvent::Row(row_of(before.working, id))
            },
            DatabaseAction::UpdateRow { id, version, patch } => {
                &&& after.committed == before.committed
                &&& after.working.keys == before.working.keys
                &&& if before.working.rows.contains_key(id) && before.working.rows[id].version == version {
                    &&& event == DatabaseEvent::Rows(1)
                    &&& after.working.rows.contains_key(id)
                    &&& patched(before.working.rows[id], patch@, after.working.rows[id])
                    &&& after.working.rows == before.working.rows.insert(id, after.working.rows[id])
                } else {
                    event == DatabaseEvent::Rows(0) && after.working.rows == before.working.rows
                }
            },
            DatabaseAction::CompleteKey { key, fingerprint, version } => {
                &&& after.committed == before.committed
                &&& after.working.rows == before.working.rows
                &&& if before.working.keys.contains_key(key@) && before.working.keys[key@].fingerprint == Some(
                    fingerprint@,
                ) {
                    event == DatabaseEvent::Rows(1) && after.working.keys == before.working.keys.insert(
                        key@,
                        KeyEntry { fingerprint: Some(fingerprint@), committed_version: Some(version) },
                    )
                } else {
                    event == DatabaseEvent::Rows(0) && after.working.keys == before.working.keys
                }
            },
            DatabaseAction::Commit => event is Done && after.committed == before.working,
            DatabaseAction::Rollback => event is Done && after.committed == before.committed,
            DatabaseAction::Rest => after == before,
        }
    }
}

/// One write from its beginning on: the stages it was in, what it asked, what it
/// was answered, and the database in between.
pub struct Run {
    pub stages: Seq<WriteStage>,
    pub actions: Seq<DatabaseAction>,
    pub events: Seq<DatabaseEvent>,
    pub databases: Seq<OpenDatabase>,
}

/// Whether every step of a run is one that the write makes and the database
/// performs.
pub open spec fn is_run(plan: WritePlan, run: Run) -> bool {
    &&& run.stages.len() > 0
    &&& run.stages.len() == run.databases.len()
    &&& run.actions.len() == run.stages.len() - 1
    &&& run.events.len() == run.stages.len() - 1
    &&& run.stages[0] is Beginning
    &&& forall|i: int| 0 <= i < run.events.len() ==> #[trigger] is_step(plan, run, i)
}

/// Whether step `i` of a run is one that the write makes and the database
/// performs.
pub open spec fn is_step(plan: WritePlan, run: Run, i: int) -> bool {
    &&& asks(plan, run.stages[i], run.actions[i])
    &&& performs(run.databases[i], run.actions[i], run.events[i], run.databases[i + 1])
    &&& follows(plan, run.stages[i], run.events[i], run.stages[i + 1])
}

/// Whether the database never failed during a run.
pub open spec fn untroubled(run: Run) -> bool {
    forall|i: int| 0 <= i < run.events.len() ==> !((#[trigger] run.events[i]) is Failed)
}

/// Why a database turns a write down, if it does.
pub open spec fn obstacle(database: Database, plan: WritePlan) -> Option<SyncWriteError> {
    if database.keys.contains_key(plan.write_key@) {
        let entry = database.keys[plan.write_key@];
        match decision(entry.fingerprint, entry.committed_version, plan.fingerprint@) {
            Ok(Idem::Replay(_)) => None,
            Ok(_) => Some(SyncWriteError::IdempotencyInFlight),
            Err(error) => Some(error),
        }
    } else {
        match row_of(database, plan.id) {
            None => Some(SyncWriteError::NotFound),
            Some(row) => if row.version != plan.expected_version {
                Some(SyncWriteError::VersionConflict { expected: plan.expected_version, actual: row.version })
            } else if patch_of(plan.delete, plan.payload@, row.status@) is None {
                Some(SyncWriteError::InvalidPayload)
            } else {
                None
            },
        }
    }
}

/// The database after a write was done: nothing changed for a replay; otherwise
/// the row is patched, and the key keeps the version it was left at.
pub open spec fn done(before: Database, plan: WritePlan, outcome: SyncWriteOutcome, after: Database) -> bool {
    match outcome {
        SyncWriteOutcome::Replay(version) => {
            &&& after == before
            &&& before.keys.contains_key(plan.write_key@)
            &&& before.keys[plan.write_key@] == (KeyEntry {
                fingerprint: Some(plan.fingerprint@),
                committed_version: Some(version),
            })
        },
        SyncWriteOutcome::Committed(row) => {
            &&& !before.keys.contains_key(plan.write_key@)
            &&& before.rows.contains_key(plan.id)
            &&& before.rows[plan.id].version == plan.expected_version
            &&& patch_of(plan.delete, plan.payload@, before.rows[plan.id].status@) is Some
            &&& patched(
                before.rows[plan.id],
                patch_of(plan.delete, plan.payload@, before.rows[plan.id].status@)->0,
                row,
            )
            &&& after.rows == before.rows.insert(plan.id, row)
            &&& after.keys == before.keys.insert(
                plan.write_key@,
                KeyEntry { fingerprint: Some(plan.fingerprint@), committed_version: Some(row.version) },
            )
        },
    }
}

/// The keys of a database once a write has claimed its own.
spec fn claimed(database: Database, plan: WritePlan) -> Map<Seq<char>, KeyEntry> {
    database.keys.insert(
        plan.write_key@,
        KeyEntry { fingerprint: Some(plan.fingerprint@), committed_version: None },
    )
}

/// What holds of the database in each stage of a run that began on `start`.
/// `calm` says that the database has not failed so far.
spec fn holds(start: Database, plan: WritePlan, stage: WriteStage, now: OpenDatabase, calm: bool) -> bool {
    let key = plan.write_key@;
    let fresh = !start.keys.contains_key(key) && now.working.keys == claimed(start, plan);
    match stage {
        WriteStage::Beginning => now.committed == start,
        WriteStage::Claiming => now.committed == start && now.working == start,
        WriteStage::ReadingKey => now.committed == start && now.working == start && start.keys.contains_key(key),
        WriteStage::ReadingRow => now.committed == start && fresh && now.working.rows == start.rows,
        WriteStage::Updating(patch) => {
            &&& now.committed == start
            &&& fresh
            &&& now.working.rows == start.rows
            &&& start.rows.contains_key(plan.id)
            &&& start.rows[plan.id].version == plan.expected_version
            &&& patch_of(plan.delete, plan.payload@, start.rows[plan.id].status@) == Some(patch@)
        },
        WriteStage::ReadingConflict => false,
        WriteStage::ReadingResult => {
            &&& now.committed == start
            &&& fresh
            &&& changed(start, plan, now.working.rows)
        },
        WriteStage::Completing(row) => {
            &&& now.committed == start
            &&& fresh
            &&& changed(start, plan, now.working.rows)
            &&& row == now.working.rows[plan.id]
        },
        WriteStage::Committing(outcome) => now.committed == start && done(start, plan, outcome, now.working),
        WriteStage::RollingBack(error) => {
            &&& now.committed == start
            &&& obstacle(start, plan) == Some(error) || (!calm && error == SyncWriteError::Database(
                DatabaseFailure::Reported,
            ))
        },
        WriteStage::Over(Ok(outcome)) => done(start, plan, outcome, now.committed),
        WriteStage::Over(Err(error)) => {
            ||| (now.committed == start && obstacle(start, plan) == Some(error))
            ||| {
                &&& !calm
                &&& error == SyncWriteError::Database(DatabaseFailure::Reported)
                &&& now.committed == start || exists|outcome: SyncWriteOutcome|
                    done(start, plan, outcome, now.committed)
            }
        },
    }
}

/// Whether the rows are those of `start` with the write's own row patched.
spec fn changed(start: Database, plan: WritePlan, rows: Map<u128, InfraOperationsRow>) -> bool {
    &&& start.rows.contains_key(plan.id)
    &&& start.rows[plan.id].version == plan.expected_version
    &&& patch_of(plan.delete, plan.payload@, start.rows[plan.id].status@) is Some
    &&& rows.contains_key(plan.id)
    &&& patched(
        start.rows[plan.id],
        patch_of(plan.delete, plan.payload@, start.rows[plan.id].status@)->0,
        rows[plan.id],
    )
    &&& rows == start.rows.insert(plan.id, rows[plan.id])
}

/// One step keeps what holds.
proof fn lemma_step(
    start: Database,
    plan: WritePlan,
    stage: WriteStage,
    before: OpenDatabase,
    action: DatabaseAction,
    event: DatabaseEvent,
    next: WriteStage,
    after: OpenDatabase,
    calm: bool,
)
    requires
        holds(start, plan, stage, before, calm),
        asks(plan, stage, action),
        performs(before, action, event, after),
        follows(plan, stage, event, next),
    ensures
        holds(start, plan, next, after, calm && !(event is Failed)),
{
    match stage {
        WriteStage::Committing(outcome) => {
            if event is Failed && after.committed == before.working {
                assert(done(start, plan, outcome, after.committed));
            }
        },
        WriteStage::Completing(row) => {
            let key = plan.write_key@;
            assert(claimed(start, plan).contains_key(key));
            assert(claimed(start, plan).insert(
                key,
                KeyEntry { fingerprint: Some(plan.fingerprint@), committed_version: Some(row.version) },
            ) =~= start.keys.insert(
                key,
                KeyEntry { fingerprint: Some(plan.fingerprint@), committed_version: Some(row.version) },
            ));
        },
        _ => {},
    }
}

/// What holds at the beginning holds all along a run.
proof fn lemma_run(start: Database, plan: WritePlan, run: Run, n: int, calm: bool)
    requires
        is_run(plan, run),
        run.databases[0].committed == start,
        0 <= n < run.stages.len(),
        calm ==> untroubled(run),
    ensures
        holds(start, plan, run.stages[n], run.databases[n], calm),
    decreases n,
{
    if n > 0 {
        lemma_run(start, plan, run, n - 1, calm);
        assert(is_step(plan, run, n - 1));
        lemma_step(
            start,
            plan,
            run.stages[n - 1],
            run.databases[n - 1],
            run.actions[n - 1],
            run.events[n - 1],
            run.stages[n],
            run.databases[n],
            calm,
        );
        if calm {
            assert(!(run.events[n - 1] is Failed));
        }
    }
}

/// A write is done in whole or not at all. One that succeeds leaves the row
/// patched and the key bound to the version it left, or is a replay that changes
/// nothing; one that is turned down changes nothing; and when the database
/// fails, the write was not done, or was done in whole before the answer to its
/// commit was lost.
pub proof fn law_writes_are_atomic(
    start: Database,
    plan: WritePlan,
    run: Run,
    result: Result<SyncWriteOutcome, SyncWriteError>,
)
    requires
        is_run(plan, run),
        run.databases[0].committed == start,
        run.stages.last() == WriteStage::Over(result),
    ensures
        match result {
            Ok(outcome) => done(start, plan, outcome, run.databases.last().committed),
            Err(error) => {
                ||| (run.databases.last().committed == start && obstacle(start, plan) == Some(error))
                ||| {
                    &&& !untroubled(run)
                    &&& error == SyncWriteError::Database(DatabaseFailure::Reported)
                    &&& run.databases.last().committed == start || exists|outcome: SyncWriteOutcome|
                        done(start, plan, outcome, run.databases.last().committed)
                }
            },
        },
{
    lemma_run(start, plan, run, run.stages.len() - 1, untroubled(run));
}

/// A write that was committed leaves exactly what it asked for: an upsert's status,
/// number of nodes and error where its payload sets them, and the status `failed`
/// of a delete; every other column, stamps aside, is what it was.
pub proof fn law_commits_carry_the_payload(start: Database, plan: WritePlan, run: Run, row: InfraOperationsRow)
    requires
        is_run(plan, run),
        run.databases[0].committed == start,
        run.stages.last() == WriteStage::Over(Ok(SyncWriteOutcome::Committed(row))),
    ensures
        start.rows.contains_key(plan.id),
        run.databases.last().committed.rows == start.rows.insert(plan.id, row),
        row.version == plan.expected_version + 1,
        plan.delete ==> row.status@ == "failed"@,
        !plan.delete && text_field(plan.payload@, "status"@) is Some ==> row.status@ == text_field(
            plan.payload@,
            "status"@,
        )->0,
        !plan.delete && text_field(plan.payload@, "status"@) is None ==> row.status@ == start.rows[plan.id].status@,
        row.document@.field("target_nodes"@) == (match signed_field(plan.payload@, "target_nodes"@) {
            Some(target) if !plan.delete => Some(JsonView::Number(NumberView::Integer(target))),
            _ => start.rows[plan.id].document@.field("target_nodes"@),
        }),
        row.document@.field("error"@) == (match text_field(plan.payload@, "error"@) {
            Some(error) if !plan.delete => Some(JsonView::Text(error)),
            _ => start.rows[plan.id].document@.field("error"@),
        }),
        forall|column: Seq<char>|
            !settable(column) && !stamped(column) ==> #[trigger] row.document@.field(column)
                == start.rows[plan.id].document@.field(column),
{
    law_writes_are_atomic(start, plan, run, Ok(SyncWriteOutcome::Committed(row)));
}

/// While a write is in progress nobody else sees anything of it.
pub proof fn law_nothing_shows_before_the_commit(start: Database, plan: WritePlan, run: Run)
    requires
        is_run(plan, run),
        run.databases[0].committed == start,
        !(run.stages.last() is Over),
    ensures
        run.databases.last().committed == start,
{
    lemma_run(start, plan, run, run.stages.len() - 1, false);
}

/// A database that does not fail turns a write down exactly where something
/// stands in its way, and says what it is.
pub proof fn law_obstacles_decide(
    start: Database,
    plan: WritePlan,
    run: Run,
    result: Result<SyncWriteOutcome, SyncWriteError>,
)
    requires
        is_run(plan, run),
        untroubled(run),
        run.databases[0].committed == start,
        run.stages.last() == WriteStage::Over(result),
    ensures
        match obstacle(start, plan) {
            Some(error) => result == Err::<SyncWriteOutcome, SyncWriteError>(error)
                && run.databases.last().committed == start,
            None => result is Ok,
        },
{
    lemma_run(start, plan, run, run.stages.len() - 1, true);
    if let Ok(outcome) = result {
        match outcome {
            SyncWriteOutcome::Replay(_) => {},
            SyncWriteOutcome::Committed(_) => {},
        }
    }
}

/// A write with a stale base version is turned down with both versions, and
/// changes nothing.
pub proof fn law_stale_writes_conflict(
    start: Database,
    plan: WritePlan,
    run: Run,
    result: Result<SyncWriteOutcome, SyncWriteError>,
)
    requires
        is_run(plan, run),
        untroubled(run),
        run.databases[0].committed == start,
        run.stages.last() == WriteStage::Over(result),
        !start.keys.contains_key(plan.write_key@),
        start.rows.contains_key(plan.id),
        start.rows[plan.id].version != plan.expected_version,
    ensures
        result == Err::<SyncWriteOutcome, SyncWriteError>(
            SyncWriteError::VersionConflict {
                expected: plan.expected_version,
                actual: start.rows[plan.id].version,
            },
        ),
        run.databases.last().committed == start,
{
    law_obstacles_decide(start, plan, run, result);
}

/// A retry of a write that was done is answered with the version it left, and
/// changes nothing, whatever happened to the row since.
pub proof fn law_retries_replay(
    before: Database,
    plan: WritePlan,
    row: InfraOperationsRow,
    start: Database,
    run: Run,
    result: Result<SyncWriteOutcome, SyncWriteError>,
)
    requires
        exists|after: Database|
            #[trigger] done(before, plan, SyncWriteOutcome::Committed(row), after)
                && start.keys.contains_key(plan.write_key@) && start.keys[plan.write_key@]
                == after.keys[plan.write_key@],
        is_run(plan, run),
        untroubled(run),
        run.databases[0].committed == start,
        run.stages.last() == WriteStage::Over(result),
    ensures
        result == Ok::<SyncWriteOutcome, SyncWriteError>(SyncWriteOutcome::Replay(row.version)),
        run.databases.last().committed == start,
{
    let after = choose|after: Database|
        #[trigger] done(before, plan, SyncWriteOutcome::Committed(row), after)
            && start.keys.contains_key(plan.write_key@) && start.keys[plan.write_key@]
            == after.keys[plan.write_key@];
    assert(after.keys[plan.write_key@] == (KeyEntry {
        fingerprint: Some(plan.fingerprint@),
        committed_version: Some(row.version),
    }));
    law_obstacles_decide(start, plan, run, result);
    law_writes_are_atomic(start, plan, run, result);
}

/// A key that another write took is never answered from: the write is turned
/// down, and changes nothing.
pub proof fn law_reused_keys_are_refused(
    start: Database,
    plan: WritePlan,
    run: Run,
    result: Result<SyncWriteOutcome, SyncWriteError>,
)
    requires
        is_run(plan, run),
        untroubled(run),
        run.databases[0].committed == start,
        run.stages.last() == WriteStage::Over(result),
        start.keys.contains_key(plan.write_key@),
        start.keys[plan.write_key@].fingerprint != Some(plan.fingerprint@),
    ensures
        result == Err::<SyncWriteOutcome, SyncWriteError>(SyncWriteError::IdempotencyMismatch),
        run.databases.last().committed == start,
{
    law_obstacles_decide(start, plan, run, result);
}

/// Whether the stages of a write are those that its events lead to, whatever the
/// events: nothing is said of the database that gave them.
pub open spec fn answered(plan: WritePlan, stages: Seq<WriteStage>, events: Seq<DatabaseEvent>) -> bool {
    &&& stages.len() == events.len() + 1
    &&& stages[0] is Beginning
    &&& forall|i: int|
        0 <= i < events.len() ==> follows(plan, stages[i], #[trigger] events[i], stages[i + 1])
}

/// A stage from which a write is no longer committed as a change of its own.
spec fn past_committing(stage: WriteStage) -> bool {
    match stage {
        WriteStage::ReadingKey => true,
        WriteStage::ReadingConflict => true,
        WriteStage::RollingBack(_) => true,
        WriteStage::Committing(outcome) => outcome is Replay,
        WriteStage::Over(result) => result is Err || result->Ok_0 is Replay,
        _ => false,
    }
}

/// A write that is past committing stays so.
proof fn lemma_past_committing(plan: WritePlan, stages: Seq<WriteStage>, events: Seq<DatabaseEvent>, from: int, to: int)
    requires
        answered(plan, stages, events),
        0 <= from <= to < stages.len(),
        past_committing(stages[from]),
    ensures
        past_committing(stages[to]),
    decreases to - from,
{
    if from < to {
        assert(follows(plan, stages[from], events[from], stages[from + 1]));
        lemma_past_committing(plan, stages, events, from + 1, to);
    }
}

/// A write is reported as committed only after every check, in this order: its
/// key was claimed, the row was read with the expected version, the update under
/// that version reached exactly one row, the row was read again, exactly one key
/// was completed, and the commit was confirmed. This holds whatever the database
/// answers, so also where other writes come in between.
pub proof fn law_commits_pass_every_check(
    plan: WritePlan,
    stages: Seq<WriteStage>,
    events: Seq<DatabaseEvent>,
    row: InfraOperationsRow,
)
    requires
        answered(plan, stages, events),
        stages.last() == WriteStage::Over(
            Ok::<SyncWriteOutcome, SyncWriteError>(SyncWriteOutcome::Committed(row)),
        ),
    ensures
        events.len() >= 7,
        events[0] is Done,
        stages[1] is Claiming,
        events[1] matches DatabaseEvent::Rows(claimed) && claimed > 0,
        stages[2] is ReadingRow,
        events[2] matches DatabaseEvent::Row(Some(found)) && {
            &&& found.version == plan.expected_version
            &&& stages[3] matches WriteStage::Updating(patch)
            &&& patch_of(plan.delete, plan.payload@, found.status@) == Some(patch@)
        },
        events[3] == DatabaseEvent::Rows(1),
        stages[4] is ReadingResult,
        events[4] == DatabaseEvent::Row(Some(row)),
        stages[5] == WriteStage::Completing(row),
        events[5] == DatabaseEvent::Rows(1),
        stages[6] is Committing,
        events[6] is Done,
{
    let last = stages.len() - 1;
    if events.len() > 0 {
        assert(follows(plan, stages[0], events[0], stages[1]));
        if past_committing(stages[1]) {
            lemma_past_committing(plan, stages, events, 1, last);
        }
    }
    if events.len() > 1 {
        assert(follows(plan, stages[1], events[1], stages[2]));
        if past_committing(stages[2]) {
            lemma_past_committing(plan, stages, events, 2, last);
        }
    }
    if events.len() > 2 {
        assert(follows(plan, stages[2], events[2], stages[3]));
        if past_committing(stages[3]) {
            lemma_past_committing(plan, stages, events, 3, last);
        }
    }
    if events.len() > 3 {
        assert(follows(plan, stages[3], events[3], stages[4]));
        if past_committing(stages[4]) {
            lemma_past_committing(plan, stages, events, 4, last);
        }
    }
    if events.len() > 4 {
        assert(follows(plan, stages[4], events[4], stages[5]));
        if past_committing(stages[5]) {
            lemma_past_committing(plan, stages, events, 5, last);
        }
    }
    if events.len() > 5 {
        assert(follows(plan, stages[5], events[5], stages[6]));
        if past_committing(stages[6]) {
            lemma_past_committing(plan, stages, events, 6, last);
        }
    }
    if events.len() > 6 {
        assert(follows(plan, stages[6], events[6], stages[7]));
        if past_committing(stages[7]) {
            lemma_past_committing(plan, stages, events, 7, last);
        }
        lemma_over_stays(plan, stages, events, 7, last);
    }
}

/// A write that is over stays as it is.
proof fn lemma_over_stays(plan: WritePlan, stages: Seq<WriteStage>, events: Seq<DatabaseEvent>, from: int, to: int)
    requires
        answered(plan, stages, events),
        0 <= from <= to < stages.len(),
        stages[from] is Over,
    ensures
        stages[to] == stages[from],
    decreases to - from,
{
    if from < to {
        assert(follows(plan, stages[from], events[from], stages[from + 1]));
        lemma_over_stays(plan, stages, events, from + 1, to);
    }
}

/// How many steps a stage is away from the end, at most.
pub open spec fn distance(stage: WriteStage) -> nat {
    match stage {
        WriteStage::Beginning => 8,
        WriteStage::Claiming => 7,
        WriteStage::ReadingKey => 6,
        WriteStage::ReadingRow => 6,
        WriteStage::Updating(_) => 5,
        WriteStage::ReadingConflict => 4,
        WriteStage::ReadingResult => 4,
        WriteStage::Completing(_) => 3,
        WriteStage::Committing(_) => 2,
        WriteStage::RollingBack(_) => 2,
        WriteStage::Over(_) => 0,
    }
}

/// Every write comes to an end, whatever the database answers: each step brings
/// it closer.
pub proof fn law_writes_end(plan: WritePlan, stage: WriteStage, event: DatabaseEvent, next: WriteStage)
    requires
        follows(plan, stage, event, next),
    ensures
        stage is Over ==> next == stage,
        !(stage is Over) ==> distance(next) < distance(stage),
{
}

} // verus!
