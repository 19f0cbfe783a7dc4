//! The transaction that does one queued write.
//!
//! The write claims its idempotency key, checks the row's version, updates the
//! row under that version, and records the version it left, all in one database
//! transaction. This module decides each step; the caller performs the step
//! against the database and hands back what came of it.

use axum::http::HeaderMap;
use vstd::prelude::*;

use crate::guards::{require_sync_write_security, sync_write_outcome};
use crate::headers::header_texts;
use crate::json::{Fields, Json, JsonView};
use crate::reply::{rejected_view, request_security_error, Reply};
use crate::request_security::RequestSecurity;
use crate::session::Session;
use crate::streaming::{change_frame, change_frame_view, InfraOperationsRow};
use crate::sync::{
    decision, fingerprint, idempotency_decision, infra_patch, operation_of, optional_view,
    parse_uuid, patch_of, request_error, request_identity, sync_write_error,
    sync_write_fingerprint, unsupported_table, unsupported_table_view, uuid_number,
    validated_write_key, write_error_view, write_key, write_key_code, write_key_error,
    DatabaseFailure, Idem, InfraPatch, SyncWriteError, SyncWriteOutcome, SyncWriteRequest,
};
use crate::text::same_text;

verus! {

/// A write that passed every check before the database.
pub struct WritePlan {
    /// The row's identifier, as a number.
    pub id: u128,
    /// Whether the write is a delete.
    pub delete: bool,
    /// The version the row must still have.
    pub expected_version: i64,
    pub payload: Json,
    pub write_key: String,
    pub fingerprint: String,
}

/// What is kept of an idempotency key.
pub struct KeyRecord {
    pub fingerprint: Option<String>,
    pub committed_version: Option<i64>,
}

/// What the database is asked to do next.
pub enum DatabaseAction {
    /// Open a transaction.
    Begin,
    /// Insert the key with its fingerprint and no version, unless the key is
    /// taken.
    ClaimKey { key: String, fingerprint: String },
    /// Read what is kept of the key.
    ReadKey { key: String },
    /// Read the row.
    ReadRow { id: u128 },
    /// Change the row, if it still has the version.
    UpdateRow { id: u128, version: i64, patch: InfraPatch },
    /// Record the version under the key, if it has the fingerprint.
    CompleteKey { key: String, fingerprint: String, version: i64 },
    Commit,
    Rollback,
    /// Nothing: the write is over.
    Rest,
}

/// What came of a [`DatabaseAction`].
pub enum DatabaseEvent {
    /// It was done; there is nothing to tell.
    Done,
    /// It was done, on that many rows.
    Rows(u64),
    /// The key record that was read.
    Key(Option<KeyRecord>),
    /// The row that was read.
    Row(Option<InfraOperationsRow>),
    /// The database reported an error.
    Failed,
}

/// How far a write has come: what it waits for.
pub enum WriteStage {
    Beginning,
    Claiming,
    ReadingKey,
    ReadingRow,
    Updating(InfraPatch),
    /// The update found no row with its version; reading what is there.
    ReadingConflict,
    ReadingResult,
    Completing(InfraOperationsRow),
    Committing(SyncWriteOutcome),
    RollingBack(SyncWriteError),
    Over(Result<SyncWriteOutcome, SyncWriteError>),
}

/// One write in progress.
pub struct InfraWrite {
    pub plan: WritePlan,
    pub stage: WriteStage,
}

/// The stage in which a write that went wrong inside its transaction is undone.
pub open spec fn undoing(error: SyncWriteError) -> WriteStage {
    WriteStage::RollingBack(error)
}

/// The stage of a write that the database failed.
pub open spec fn failed() -> WriteStage {
    WriteStage::RollingBack(SyncWriteError::Database(DatabaseFailure::Reported))
}

/// Whether `next` is the stage that follows `stage` on `event`.
pub open spec fn follows(plan: WritePlan, stage: WriteStage, event: DatabaseEvent, next: WriteStage) -> bool {
    let broken = Err::<SyncWriteOutcome, SyncWriteError>(SyncWriteError::Database(DatabaseFailure::Reported));
    match stage {
        WriteStage::Beginning => match event {
            DatabaseEvent::Done => next is Claiming,
            _ => next == WriteStage::Over(broken),
        },
        WriteStage::Claiming => match event {
            DatabaseEvent::Rows(rows) => if rows > 0 {
                next is ReadingRow
            } else {
                next is ReadingKey
            },
            _ => next == failed(),
        },
        WriteStage::ReadingKey => match event {
            DatabaseEvent::Key(Some(record)) => match decision(
                record.fingerprint.deep_view(),
                record.committed_version,
                plan.fingerprint@,
            ) {
                Ok(Idem::Replay(version)) => next == WriteStage::Committing(SyncWriteOutcome::Replay(version)),
                Ok(_) => next == undoing(SyncWriteError::IdempotencyInFlight),
                Err(error) => next == undoing(error),
            },
            DatabaseEvent::Key(None) => next == undoing(
                SyncWriteError::Database(DatabaseFailure::KeyDisappeared),
            ),
            _ => next == failed(),
        },
        WriteStage::ReadingRow => match event {
            DatabaseEvent::Row(Some(row)) => if row.version != plan.expected_version {
                next == undoing(
                    SyncWriteError::VersionConflict { expected: plan.expected_version, actual: row.version },
                )
            } else {
                match patch_of(plan.delete, plan.payload@, row.status@) {
                    Some(patch) => next matches WriteStage::Updating(found) && found@ == patch,
                    None => next == undoing(SyncWriteError::InvalidPayload),
                }
            },
            DatabaseEvent::Row(None) => next == undoing(SyncWriteError::NotFound),
            _ => next == failed(),
        },
        WriteStage::Updating(_) => match event {
            DatabaseEvent::Rows(rows) => if rows == 1 {
                next is ReadingResult
            } else {
                next is ReadingConflict
            },
            _ => next == failed(),
        },
        WriteStage::ReadingConflict => match event {
            DatabaseEvent::Row(Some(row)) => next == undoing(
                SyncWriteError::VersionConflict { expected: plan.expected_version, actual: row.version },
            ),
            DatabaseEvent::Row(None) => next == undoing(SyncWriteError::NotFound),
            _ => next == failed(),
        },
        WriteStage::ReadingResult => match event {
            DatabaseEvent::Row(Some(row)) => next == WriteStage::Completing(row),
            DatabaseEvent::Row(None) => next == undoing(SyncWriteError::NotFound),
            _ => next == failed(),
        },
        WriteStage::Completing(row) => match event {
            DatabaseEvent::Rows(rows) => if rows == 1 {
                next == WriteStage::Committing(SyncWriteOutcome::Committed(row))
            } else {
                next == undoing(SyncWriteError::Database(DatabaseFailure::CompletionMissed))
            },
            _ => next == failed(),
        },
        WriteStage::Committing(outcome) => match event {
            DatabaseEvent::Done => next == WriteStage::Over(Ok::<SyncWriteOutcome, SyncWriteError>(outcome)),
            _ => next == WriteStage::Over(broken),
        },
        WriteStage::RollingBack(error) => match event {
            DatabaseEvent::Done => next == WriteStage::Over(Err::<SyncWriteOutcome, SyncWriteError>(error)),
            _ => next == WriteStage::Over(broken),
        },
        WriteStage::Over(result) => next == WriteStage::Over(result),
    }
}

/// Whether `action` is what a write asks of the database in its stage.
pub open spec fn asks(plan: WritePlan, stage: WriteStage, action: DatabaseAction) -> bool {
    match stage {
        WriteStage::Beginning => action is Begin,
        WriteStage::Claiming => action == (DatabaseAction::ClaimKey {
            key: plan.write_key,
            fingerprint: plan.fingerprint,
        }),
        WriteStage::ReadingKey => action == (DatabaseAction::ReadKey { key: plan.write_key }),
        WriteStage::ReadingRow => action == (DatabaseAction::ReadRow { id: plan.id }),
        WriteStage::Updating(patch) => action matches DatabaseAction::UpdateRow { id, version, patch: found } && id
            == plan.id && version == plan.expected_version && found@ == patch@,
        WriteStage::ReadingConflict => action == (DatabaseAction::ReadRow { id: plan.id }),
        WriteStage::ReadingResult => action == (DatabaseAction::ReadRow { id: plan.id }),
        WriteStage::Completing(row) => action == (DatabaseAction::CompleteKey {
            key: plan.write_key,
            fingerprint: plan.fingerprint,
            version: row.version,
        }),
        WriteStage::Committing(_) => action is Commit,
        WriteStage::RollingBack(_) => action is Rollback,
        WriteStage::Over(_) => action is Rest,
    }
}

/// A copy of an optional text.
fn copied(text: &Option<String>) -> (copy: Option<String>)
    ensures
        copy == *text,
{
    match text {
        Some(text) => Some(text.clone()),
        None => None,
    }
}

impl InfraWrite {
    /// What the database is asked to do next.
    pub fn action(&self) -> (action: DatabaseAction)
        ensures
            asks(self.plan, self.stage, action),
    {
        match &self.stage {
            WriteStage::Beginning => DatabaseAction::Begin,
            WriteStage::Claiming => DatabaseAction::ClaimKey {
                key: self.plan.write_key.clone(),
                fingerprint: self.plan.fingerprint.clone(),
            },
            WriteStage::ReadingKey => DatabaseAction::ReadKey { key: self.plan.write_key.clone() },
            WriteStage::ReadingRow => DatabaseAction::ReadRow { id: self.plan.id },
            WriteStage::Updating(patch) => DatabaseAction::UpdateRow {
                id: self.plan.id,
                version: self.plan.expected_version,
                patch: InfraPatch {
                    status: copied(&patch.status),
                    target_nodes: patch.target_nodes,
                    error: copied(&patch.error),
                },
            },
            WriteStage::ReadingConflict => DatabaseAction::ReadRow { id: self.plan.id },
            WriteStage::ReadingResult => DatabaseAction::ReadRow { id: self.plan.id },
            WriteStage::Completing(row) => DatabaseAction::CompleteKey {
                key: self.plan.write_key.clone(),
                fingerprint: self.plan.fingerprint.clone(),
                version: row.version,
            },
            WriteStage::Committing(_) => DatabaseAction::Commit,
            WriteStage::RollingBack(_) => DatabaseAction::Rollback,
            WriteStage::Over(_) => DatabaseAction::Rest,
        }
    }

    /// The write after the database did what it was asked. An event that does
    /// not answer the question counts as a database error.
    pub fn advance(self, event: DatabaseEvent) -> (next: InfraWrite)
        ensures
            next.plan == self.plan,
            follows(self.plan, self.stage, event, next.stage),
    {
        let plan = self.plan;
        let stage = match (self.stage, event) {
            (WriteStage::Over(result), _) => WriteStage::Over(result),
            (WriteStage::Beginning, DatabaseEvent::Done) => WriteStage::Claiming,
            (WriteStage::Beginning, _) => WriteStage::Over(
                Err(SyncWriteError::Database(DatabaseFailure::Reported)),
            ),
            (WriteStage::Claiming, DatabaseEvent::Rows(rows)) => if rows > 0 {
                WriteStage::ReadingRow
            } else {
                WriteStage::ReadingKey
            },
            (WriteStage::ReadingKey, DatabaseEvent::Key(Some(record))) => {
                let stored = match &record.fingerprint {
                    Some(stored) => Some(stored.as_str()),
                    None => None,
                };
                match idempotency_decision(stored, record.committed_version, plan.fingerprint.as_str()) {
                    Ok(Idem::Replay(version)) => WriteStage::Committing(SyncWriteOutcome::Replay(version)),
                    Ok(_) => WriteStage::RollingBack(SyncWriteError::IdempotencyInFlight),
                    Err(error) => WriteStage::RollingBack(error),
                }
            },
            (WriteStage::ReadingKey, DatabaseEvent::Key(None)) => WriteStage::RollingBack(
                SyncWriteError::Database(DatabaseFailure::KeyDisappeared),
            ),
            (WriteStage::ReadingRow, DatabaseEvent::Row(Some(row))) => if row.version != plan.expected_version {
                WriteStage::RollingBack(
                    SyncWriteError::VersionConflict { expected: plan.expected_version, actual: row.version },
                )
            } else {
                match infra_patch(plan.delete, &plan.payload, row.status.as_str()) {
                    Some(patch) => WriteStage::Updating(patch),
                    None => WriteStage::RollingBack(SyncWriteError::InvalidPayload),
                }
            },
            (WriteStage::ReadingRow, DatabaseEvent::Row(None)) => WriteStage::RollingBack(SyncWriteError::NotFound),
            (WriteStage::Updating(_), DatabaseEvent::Rows(rows)) => if rows == 1 {
                WriteStage::ReadingResult
            } else {
                WriteStage::ReadingConflict
            },
            (WriteStage::ReadingConflict, DatabaseEvent::Row(Some(row))) => WriteStage::RollingBack(
                SyncWriteError::VersionConflict { expected: plan.expected_version, actual: row.version },
            ),
            (WriteStage::ReadingConflict, DatabaseEvent::Row(None)) => WriteStage::RollingBack(
                SyncWriteError::NotFound,
            ),
            (WriteStage::ReadingResult, DatabaseEvent::Row(Some(row))) => WriteStage::Completing(row),
            (WriteStage::ReadingResult, DatabaseEvent::Row(None)) => WriteStage::RollingBack(
                SyncWriteError::NotFound,
            ),
            (WriteStage::Completing(row), DatabaseEvent::Rows(rows)) => if rows == 1 {
                WriteStage::Committing(SyncWriteOutcome::Committed(row))
            } else {
                WriteStage::RollingBack(SyncWriteError::Database(DatabaseFailure::CompletionMissed))
            },
            (WriteStage::Committing(outcome), DatabaseEvent::Done) => WriteStage::Over(Ok(outcome)),
            (WriteStage::Committing(_), _) => WriteStage::Over(
                Err(SyncWriteError::Database(DatabaseFailure::Reported)),
            ),
            (WriteStage::RollingBack(error), DatabaseEvent::Done) => WriteStage::Over(Err(error)),
            (WriteStage::RollingBack(_), _) => WriteStage::Over(
                Err(SyncWriteError::Database(DatabaseFailure::Reported)),
            ),
            _ => WriteStage::RollingBack(SyncWriteError::Database(DatabaseFailure::Reported)),
        };
        InfraWrite { plan, stage }
    }

    /// What came of the write, once it is over.
    pub fn result(self) -> (result: Option<Result<SyncWriteOutcome, SyncWriteError>>)
        ensures
            match self.stage {
                WriteStage::Over(found) => result == Some(found),
                _ => result is None,
            },
    {
        match self.stage {
            WriteStage::Over(result) => Some(result),
            _ => None,
        }
    }
}

/// The payload that a write patches its row with.
pub open spec fn patch_payload(payload: Option<JsonView>) -> JsonView {
    match payload {
        Some(payload) => payload,
        None => JsonView::Object(Map::empty()),
    }
}

/// Whether `write` is the beginning of what a request asks for.
pub open spec fn begins(request: SyncWriteRequest, id: Option<u128>, key: Seq<char>, print: Seq<char>, write: InfraWrite) -> bool {
    &&& write.stage is Beginning
    &&& Some(write.plan.id) == id
    &&& write.plan.delete == (operation_of(request.op.deep_view()) == "delete"@)
    &&& Some(write.plan.expected_version) == request.base_version
    &&& write.plan.expected_version >= 0
    &&& write.plan.payload@ == patch_payload(optional_view(request.payload))
    &&& write.plan.write_key@ == key
    &&& write.plan.fingerprint@ == print
}

/// The beginning of a write whose row identifier was read as `id`, or what is
/// wrong with it before the database is asked.
pub fn begin_infra_write(
    request: &SyncWriteRequest,
    id: Option<u128>,
    write_key: &str,
    request_fingerprint: &str,
    database: bool,
) -> (write: Result<InfraWrite, SyncWriteError>)
    ensures
        match write {
            Ok(write) => {
                &&& request_error(id, request.op.deep_view(), request.base_version, database) is None
                &&& begins(*request, id, write_key@, request_fingerprint@, write)
            },
            Err(error) => request_error(id, request.op.deep_view(), request.base_version, database) == Some(error),
        },
{
    let id = match id {
        Some(id) => id,
        None => return Err(SyncWriteError::InvalidId),
    };
    let op = match &request.op {
        Some(op) => op.as_str(),
        None => "upsert",
    };
    let delete: bool = same_text(op, "delete");
    if !same_text(op, "upsert") && !delete {
        return Err(SyncWriteError::InvalidOperation);
    }
    let expected_version: i64 = match request.base_version {
        Some(version) => version,
        None => return Err(SyncWriteError::MissingBaseVersion),
    };
    if expected_version < 0 {
        return Err(SyncWriteError::InvalidBaseVersion);
    }
    if !database {
        return Err(SyncWriteError::Database(DatabaseFailure::Unavailable));
    }
    let payload = match &request.payload {
        Some(payload) => payload.duplicate(),
        None => Fields::new().done(),
    };
    Ok(
        InfraWrite {
            plan: WritePlan {
                id,
                delete,
                expected_version,
                payload,
                write_key: write_key.to_owned(),
                fingerprint: request_fingerprint.to_owned(),
            },
            stage: WriteStage::Beginning,
        },
    )
}

/// The beginning of a queued write, or what is wrong with it before the database
/// is asked.
pub fn sync_write_infra_operations(
    request: &SyncWriteRequest,
    write_key: &str,
    request_fingerprint: &str,
    database: bool,
) -> (write: Result<InfraWrite, SyncWriteError>)
    ensures
        match write {
            Ok(write) => {
                &&& request_error(
                    uuid_number(request.id@),
                    request.op.deep_view(),
                    request.base_version,
                    database,
                ) is None
                &&& begins(*request, uuid_number(request.id@), write_key@, request_fingerprint@, write)
            },
            Err(error) => request_error(
                uuid_number(request.id@),
                request.op.deep_view(),
                request.base_version,
                database,
            ) == Some(error),
        },
{
    begin_infra_write(request, parse_uuid(request.id.as_str()), write_key, request_fingerprint, database)
}

/// What a signed-in operator's write is answered with before the database is
/// asked, if anything: the request checks come first, then the key, then the
/// table, then the write itself.
pub open spec fn refusal(
    security: RequestSecurity,
    headers: HeaderMap,
    session: Session,
    table: Seq<char>,
    request: SyncWriteRequest,
    database: bool,
) -> Option<crate::reply::ReplyView> {
    match sync_write_outcome(security, headers, session) {
        Err(error) => Some(rejected_view(error)),
        Ok(_) => match write_key(header_texts(headers, "idempotency-key"@), request.key.deep_view()) {
            Err(error) => Some(crate::reply::error_view(400, write_key_code(error))),
            Ok(_) => if table != "infra_operations"@ {
                Some(unsupported_table_view(table))
            } else {
                match request_error(
                    uuid_number(request.id@),
                    request.op.deep_view(),
                    request.base_version,
                    database,
                ) {
                    Some(error) => Some(write_error_view(error)),
                    None => None,
                }
            },
        },
    }
}

/// The beginning of a signed-in operator's write, or the reply that turns it
/// down before the database is asked.
pub fn sync_write(
    security: &RequestSecurity,
    headers: &HeaderMap,
    session: &Session,
    table: &str,
    request: &SyncWriteRequest,
    database: bool,
) -> (write: Result<InfraWrite, Reply>)
    ensures
        match write {
            Ok(write) => {
                &&& refusal(*security, *headers, *session, table@, *request, database) is None
                &&& begins(
                    *request,
                    uuid_number(request.id@),
                    write_key(header_texts(*headers, "idempotency-key"@), request.key.deep_view())->Ok_0,
                    fingerprint(request_identity(session.user_id@, table@, *request)),
                    write,
                )
            },
            Err(reply) => refusal(*security, *headers, *session, table@, *request, database) == Some(reply@),
        },
{
    match require_sync_write_security(headers, security, session) {
        Ok(_) => {},
        Err(error) => return Err(request_security_error(error)),
    }
    let key = match validated_write_key(headers, request) {
        Ok(key) => key,
        Err(error) => return Err(write_key_error(error)),
    };
    let print = sync_write_fingerprint(session, table, request);
    if !same_text(table, "infra_operations") {
        return Err(unsupported_table(table));
    }
    match sync_write_infra_operations(request, key.as_str(), print.as_str(), database) {
        Ok(write) => Ok(write),
        Err(error) => Err(sync_write_error(error)),
    }
}

/// The frame to publish once a write is over: only for a row that was committed
/// now, and under the key of the write that changed it.
pub fn publication(result: &Result<SyncWriteOutcome, SyncWriteError>, write_key: &str, at_ms: i64) -> (frame: Option<
    String,
>)
    ensures
        match *result {
            Ok(SyncWriteOutcome::Committed(row)) => frame matches Some(frame) && frame@ == crate::json::json_text(
                change_frame_view(row, Some(write_key@), at_ms as int),
            ),
            _ => frame is None,
        },
{
    match result {
        Ok(SyncWriteOutcome::Committed(row)) => {
            let key = Some(write_key.to_owned());
            Some(change_frame(row, &key, at_ms))
        },
        _ => None,
    }
}

} // verus!
