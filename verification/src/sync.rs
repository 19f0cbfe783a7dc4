//! The local-first sync surface: write-key validation, request fingerprinting,
//! the idempotency decision, what one write changes, the replies, and cursor
//! catch-up. The write's transaction is in [`crate::sync_transaction`].

use axum::http::HeaderMap;
use sha2::{Digest, Sha256};
use uuid::Uuid;
use vstd::prelude::*;
use vstd::utf8::encode_utf8;

use crate::fingerprint::{identity_bytes, identity_encodable, law_identity_bytes_injective, write_bytes, WriteIdentity};
use crate::headers::{header_texts, texts};
use crate::json::{
    items_view, lemma_items_view, signed_field, text_field, Fields, Json, JsonView, NumberView,
};
use crate::reply::{
    dependency_error, dependency_view, error_body_with, error_reply, error_reply_with,
    error_view, Reply, ReplyView,
};
use crate::session::Session;
use crate::streaming::InfraOperationsRow;
use crate::text::same_text;

verus! {

/// The longest write key, in bytes.
pub const MAX_WRITE_KEY_BYTES: usize = 256;

/// The catch-up page size when none is asked for.
pub const DEFAULT_CATCHUP_PAGE_SIZE: u64 = 100;

/// The largest catch-up page.
pub const MAX_CATCHUP_PAGE_SIZE: u64 = 500;

/// The fewest nodes that an operation may target.
pub const MIN_TARGET_NODES: i64 = 3;

/// The longest error text of an operation, in bytes.
pub const MAX_ERROR_BYTES: usize = 500;

/// One queued optimistic write from the sync client.
pub struct SyncWriteRequest {
    pub id: String,
    pub op: Option<String>,
    pub payload: Option<Json>,
    pub base_version: Option<i64>,
    /// The client's durable identity of the write, for idempotency and for
    /// matching the realtime echo. A mutation carries it here or in the
    /// Idempotency-Key header; canonical clients send both.
    pub key: Option<String>,
}

/// Why a write key was refused.
#[derive(Clone, Copy, Debug, Eq, PartialEq, Structural)]
pub enum WriteKeyError {
    Missing,
    Invalid,
    Mismatch,
}

/// A byte of printable ASCII other than the space.
pub open spec fn graphic(byte: u8) -> bool {
    33 <= byte <= 126
}

/// Whether a text may be a write key.
pub open spec fn acceptable_key(key: Seq<char>) -> bool {
    let bytes = encode_utf8(key);
    &&& 0 < bytes.len() <= MAX_WRITE_KEY_BYTES
    &&& forall|i: int| 0 <= i < bytes.len() ==> graphic(#[trigger] bytes[i])
}

/// The one header key, when there is exactly one and it is readable; an error
/// when there are several or it is not.
pub open spec fn header_key(values: Seq<Option<Seq<char>>>) -> Result<Option<Seq<char>>, WriteKeyError> {
    if values.len() == 0 {
        Ok(None)
    } else if values.len() > 1 || values[0] is None {
        Err(WriteKeyError::Invalid)
    } else {
        Ok(values[0])
    }
}

/// The key of a write, from its header values and its body.
pub open spec fn write_key(values: Seq<Option<Seq<char>>>, body: Option<Seq<char>>) -> Result<
    Seq<char>,
    WriteKeyError,
> {
    match header_key(values) {
        Err(error) => Err(error),
        Ok(header) => if (header is Some && !acceptable_key(header->0)) || (body is Some && !acceptable_key(
            body->0,
        )) {
            Err(WriteKeyError::Invalid)
        } else if header is Some && body is Some && header != body {
            Err(WriteKeyError::Mismatch)
        } else if header is Some {
            Ok(header->0)
        } else if body is Some {
            Ok(body->0)
        } else {
            Err(WriteKeyError::Missing)
        },
    }
}

/// Whether a text may be a write key.
fn key_is_acceptable(key: &str) -> (result: bool)
    ensures
        result == acceptable_key(key@),
{
    let bytes = key.as_bytes();
    if bytes.len() == 0 || bytes.len() > MAX_WRITE_KEY_BYTES {
        return false;
    }
    let mut i: usize = 0;
    while i < bytes.len()
        invariant
            i <= bytes@.len(),
            bytes@ == encode_utf8(key@),
            forall|j: int| 0 <= j < i ==> graphic(#[trigger] bytes@[j]),
        decreases bytes@.len() - i,
    {
        if !(33 <= bytes[i] && bytes[i] <= 126) {
            assert(!graphic(bytes@[i as int]));
            return false;
        }
        i = i + 1;
    }
    true
}

/// Reconciles the Idempotency-Key values with the key in the body. A mismatch is
/// refused: a write must never be kept under one identity and published under
/// another.
pub fn reconciled_write_key(values: &Vec<Option<String>>, body: &Option<String>) -> (key: Result<
    String,
    WriteKeyError,
>)
    ensures
        match key {
            Ok(key) => write_key(values.deep_view(), body.deep_view()) == Ok::<Seq<char>, WriteKeyError>(key@),
            Err(error) => write_key(values.deep_view(), body.deep_view()) == Err::<Seq<char>, WriteKeyError>(
                error,
            ),
        },
{
    if values.len() > 1 {
        return Err(WriteKeyError::Invalid);
    }
    if values.len() == 1 {
        assert(values.deep_view()[0] == values@[0].deep_view());
        match &values[0] {
            None => Err(WriteKeyError::Invalid),
            Some(header) => {
                if !key_is_acceptable(header.as_str()) {
                    return Err(WriteKeyError::Invalid);
                }
                if let Some(body) = body {
                    if !key_is_acceptable(body.as_str()) {
                        return Err(WriteKeyError::Invalid);
                    }
                    if !same_text(header.as_str(), body.as_str()) {
                        return Err(WriteKeyError::Mismatch);
                    }
                }
                Ok(header.clone())
            },
        }
    } else {
        match body {
            Some(body) => {
                if key_is_acceptable(body.as_str()) {
                    Ok(body.clone())
                } else {
                    Err(WriteKeyError::Invalid)
                }
            },
            None => Err(WriteKeyError::Missing),
        }
    }
}

/// The key of a write, from the request's headers and body.
pub fn validated_write_key(headers: &HeaderMap, request: &SyncWriteRequest) -> (key: Result<String, WriteKeyError>)
    ensures
        match key {
            Ok(key) => write_key(header_texts(*headers, "idempotency-key"@), request.key.deep_view()) == Ok::<
                Seq<char>,
                WriteKeyError,
            >(key@),
            Err(error) => write_key(header_texts(*headers, "idempotency-key"@), request.key.deep_view()) == Err::<
                Seq<char>,
                WriteKeyError,
            >(error),
        },
{
    reconciled_write_key(&texts(headers, "idempotency-key"), &request.key)
}

/// Every write that is accepted carries one acceptable key, and wherever the key
/// is given it is that one.
pub proof fn law_accepted_keys_agree(values: Seq<Option<Seq<char>>>, body: Option<Seq<char>>, key: Seq<char>)
    requires
        write_key(values, body) == Ok::<Seq<char>, WriteKeyError>(key),
    ensures
        acceptable_key(key),
        body is Some ==> body == Some(key),
        values.len() > 0 ==> values == seq![Some(key)],
        body is Some || values.len() > 0,
{
    if values.len() > 0 {
        assert(values =~= seq![Some(key)]);
    }
}

/// The machine-readable reason for refusing a write key.
pub open spec fn write_key_code(error: WriteKeyError) -> Seq<char> {
    match error {
        WriteKeyError::Missing => "idempotency_key_required"@,
        WriteKeyError::Invalid => "invalid_write_key"@,
        WriteKeyError::Mismatch => "write_key_mismatch"@,
    }
}

/// The reply to a write whose key was refused.
pub fn write_key_error(error: WriteKeyError) -> (reply: Reply)
    ensures
        reply@ == error_view(400, write_key_code(error)),
{
    match error {
        WriteKeyError::Missing => error_reply(400, "idempotency_key_required"),
        WriteKeyError::Invalid => error_reply(400, "invalid_write_key"),
        WriteKeyError::Mismatch => error_reply(400, "write_key_mismatch"),
    }
}

/// The operation a write performs: an upsert unless it says otherwise.
pub open spec fn operation_of(op: Option<Seq<char>>) -> Seq<char> {
    match op {
        Some(op) => op,
        None => "upsert"@,
    }
}

/// The payload a write means: none for a delete, an empty patch when it is left
/// out.
pub open spec fn payload_of(op: Option<Seq<char>>, payload: Option<JsonView>) -> JsonView {
    if operation_of(op) == "delete"@ {
        JsonView::Null
    } else {
        match payload {
            Some(payload) => payload,
            None => JsonView::Object(Map::empty()),
        }
    }
}

/// The view of an optional value.
pub open spec fn optional_view(json: Option<Json>) -> Option<JsonView> {
    match json {
        Some(json) => Some(json@),
        None => None,
    }
}

/// What a request's write is, in whole.
pub open spec fn request_identity(user_id: Seq<char>, table: Seq<char>, request: SyncWriteRequest) -> WriteIdentity {
    WriteIdentity {
        user_id,
        table,
        id: request.id@,
        operation: operation_of(request.op.deep_view()),
        base_version: request.base_version,
        payload: payload_of(request.op.deep_view(), optional_view(request.payload)),
    }
}

/// A lower-case hexadecimal digit.
pub open spec fn hex_digit(ch: char) -> bool {
    '0' <= ch <= '9' || 'a' <= ch <= 'f'
}

/// The SHA-256 digest of a byte string, in lower-case hexadecimal.
pub uninterp spec fn sha256_hex(bytes: Seq<u8>) -> Seq<char>;

/// `sha2`'s `Sha256::digest`, written in hexadecimal: 64 digits that
/// depend on the bytes alone.
#[verifier::external_body]
fn sha256_hex_of(bytes: &[u8]) -> (text: String)
    ensures
        text@ == sha256_hex(bytes@),
        text@.len() == 64,
        forall|i: int| 0 <= i < 64 ==> hex_digit(#[trigger] text@[i]),
{
    format!("{:x}", Sha256::digest(bytes))
}

/// The fingerprint of a write.
pub open spec fn fingerprint(write: WriteIdentity) -> Seq<char> {
    sha256_hex(identity_bytes(write))
}

/// Binds an idempotency key to the whole meaning of a write. The order in which
/// an object's fields were written does not matter.
pub fn sync_write_fingerprint(session: &Session, table: &str, request: &SyncWriteRequest) -> (text: String)
    ensures
        text@ == fingerprint(request_identity(session.user_id@, table@, *request)),
        text@.len() == 64,
        forall|i: int| 0 <= i < 64 ==> hex_digit(#[trigger] text@[i]),
{
    let operation = match &request.op {
        Some(op) => op.as_str(),
        None => "upsert",
    };
    let payload = if same_text(operation, "delete") {
        Json::Null
    } else {
        match &request.payload {
            Some(payload) => payload.duplicate(),
            None => Fields::new().done(),
        }
    };
    let bytes = write_bytes(
        session.user_id.as_str(),
        table,
        request.id.as_str(),
        operation,
        request.base_version,
        &payload,
    );
    sha256_hex_of(bytes.as_slice())
}

/// Requests that mean the same write have the same fingerprint: a payload whose
/// fields were written in another order, an upsert that is spelled out or left
/// out, whatever the key.
pub proof fn law_fingerprint_is_canonical(
    user_id: Seq<char>,
    table: Seq<char>,
    first: SyncWriteRequest,
    second: SyncWriteRequest,
)
    requires
        first.id@ == second.id@,
        operation_of(first.op.deep_view()) == operation_of(second.op.deep_view()),
        first.base_version == second.base_version,
        payload_of(first.op.deep_view(), optional_view(first.payload)) == payload_of(
            second.op.deep_view(),
            optional_view(second.payload),
        ),
    ensures
        fingerprint(request_identity(user_id, table, first)) == fingerprint(
            request_identity(user_id, table, second),
        ),
{
}

/// Requests that mean different writes are digested from different bytes.
pub proof fn law_fingerprint_binds_the_write(a: WriteIdentity, b: WriteIdentity)
    requires
        identity_encodable(a),
        identity_encodable(b),
        a != b,
    ensures
        identity_bytes(a) != identity_bytes(b),
{
    law_identity_bytes_injective(a, b);
}

/// Why the database did not do what a write asked of it.
#[derive(Clone, Copy, Debug, Eq, PartialEq, Structural)]
pub enum DatabaseFailure {
    /// There is no connection.
    Unavailable,
    /// It reported an error.
    Reported,
    /// The key was taken, and then was not there.
    KeyDisappeared,
    /// The claimed key was not there to be completed.
    CompletionMissed,
}

impl DatabaseFailure {
    /// What to log.
    pub open spec fn explanation(self) -> Seq<char> {
        match self {
            DatabaseFailure::Unavailable => "admin database connection unavailable"@,
            DatabaseFailure::Reported => "admin database reported an error"@,
            DatabaseFailure::KeyDisappeared => "idempotency key disappeared after unique-key conflict"@,
            DatabaseFailure::CompletionMissed => "idempotency completion did not update its claimed key"@,
        }
    }

    /// What to log.
    pub fn message(self) -> (text: &'static str)
        ensures
            text@ == self.explanation(),
    {
        match self {
            DatabaseFailure::Unavailable => "admin database connection unavailable",
            DatabaseFailure::Reported => "admin database reported an error",
            DatabaseFailure::KeyDisappeared => "idempotency key disappeared after unique-key conflict",
            DatabaseFailure::CompletionMissed => "idempotency completion did not update its claimed key",
        }
    }
}

/// Why a write was not done.
#[derive(Clone, Copy, Debug, Eq, PartialEq, Structural)]
pub enum SyncWriteError {
    InvalidId,
    InvalidOperation,
    InvalidPayload,
    MissingBaseVersion,
    InvalidBaseVersion,
    VersionConflict { expected: i64, actual: i64 },
    NotFound,
    IdempotencyInFlight,
    IdempotencyMismatch,
    Database(DatabaseFailure),
}

/// What came of a write.
pub enum SyncWriteOutcome {
    /// It had been done before, and left the row at this version.
    Replay(i64),
    /// It was done now, and left the row like this.
    Committed(InfraOperationsRow),
}

/// What a key that is already taken means for a write.
#[derive(Clone, Copy, Debug, Eq, PartialEq, Structural)]
pub enum Idem {
    Replay(i64),
    InFlight,
    Proceed,
}

/// What a taken key means: only the very write that took it may be answered from
/// it. A key without a fingerprint cannot prove which write it protected.
pub open spec fn decision(stored: Option<Seq<char>>, committed_version: Option<i64>, requested: Seq<char>) -> Result<
    Idem,
    SyncWriteError,
> {
    if stored == Some(requested) {
        match committed_version {
            Some(version) => Ok(Idem::Replay(version)),
            None => Ok(Idem::InFlight),
        }
    } else {
        Err(SyncWriteError::IdempotencyMismatch)
    }
}

/// What a taken key means for a write with a given fingerprint.
pub fn idempotency_decision(
    stored_fingerprint: Option<&str>,
    committed_version: Option<i64>,
    request_fingerprint: &str,
) -> (result: Result<Idem, SyncWriteError>)
    ensures
        result == decision(stored_fingerprint.deep_view(), committed_version, request_fingerprint@),
{
    match stored_fingerprint {
        Some(stored) => {
            if !same_text(stored, request_fingerprint) {
                return Err(SyncWriteError::IdempotencyMismatch);
            }
            match committed_version {
                Some(version) => Ok(Idem::Replay(version)),
                None => Ok(Idem::InFlight),
            }
        },
        None => Err(SyncWriteError::IdempotencyMismatch),
    }
}

/// What one write changes in a row.
pub struct InfraPatch {
    pub status: Option<String>,
    pub target_nodes: Option<i32>,
    pub error: Option<String>,
}

/// The texts and numbers of an [`InfraPatch`].
pub struct PatchView {
    pub status: Option<Seq<char>>,
    pub target_nodes: Option<i32>,
    pub error: Option<Seq<char>>,
}

impl View for InfraPatch {
    type V = PatchView;

    open spec fn view(&self) -> PatchView {
        PatchView {
            status: self.status.deep_view(),
            target_nodes: self.target_nodes,
            error: self.error.deep_view(),
        }
    }
}

/// The statuses that a client may set.
pub open spec fn settable_status(status: Seq<char>) -> bool {
    status == "requested"@ || status == "applied"@ || status == "failed"@
}

/// Whether the fields that a payload sets are all within bounds.
pub open spec fn payload_valid(payload: JsonView) -> bool {
    &&& (text_field(payload, "status"@) matches Some(status) ==> settable_status(status))
    &&& (signed_field(payload, "target_nodes"@) matches Some(target) ==> MIN_TARGET_NODES <= target <= i32::MAX)
    &&& (text_field(payload, "error"@) matches Some(error) ==> encode_utf8(error).len() <= MAX_ERROR_BYTES)
}

/// What a write changes in a row with the given status: a delete marks the
/// operation failed, since the row is an audit record; an upsert sets the fields
/// of its payload, and one that sets none still writes the status it found, so
/// that the row's version advances.
pub open spec fn patch_of(delete: bool, payload: JsonView, current_status: Seq<char>) -> Option<PatchView> {
    if delete {
        Some(PatchView { status: Some("failed"@), target_nodes: None, error: None })
    } else if payload_valid(payload) {
        let status = text_field(payload, "status"@);
        let target = signed_field(payload, "target_nodes"@);
        let error = text_field(payload, "error"@);
        Some(
            PatchView {
                status: if status is None && target is None && error is None {
                    Some(current_status)
                } else {
                    status
                },
                target_nodes: match target {
                    Some(target) => Some(target as i32),
                    None => None,
                },
                error,
            },
        )
    } else {
        None
    }
}

/// What a write changes in a row with the given status; nothing when its payload
/// is out of bounds.
pub fn infra_patch(delete: bool, payload: &Json, current_status: &str) -> (patch: Option<InfraPatch>)
    ensures
        match patch {
            Some(patch) => patch_of(delete, payload@, current_status@) == Some(patch@),
            None => patch_of(delete, payload@, current_status@) is None,
        },
{
    if delete {
        return Some(InfraPatch { status: Some("failed".to_owned()), target_nodes: None, error: None });
    }
    let status = match payload.get_str("status") {
        Some(status) => {
            if !same_text(status, "requested") && !same_text(status, "applied") && !same_text(status, "failed") {
                return None;
            }
            Some(status.to_owned())
        },
        None => None,
    };
    let target_nodes = match payload.get_i64("target_nodes") {
        Some(target) => {
            if target < MIN_TARGET_NODES || target > 0x7fff_ffffi64 {
                return None;
            }
            Some(target as i32)
        },
        None => None,
    };
    let error = match payload.get_str("error") {
        Some(error) => {
            if error.as_bytes().len() > MAX_ERROR_BYTES {
                return None;
            }
            Some(error.to_owned())
        },
        None => None,
    };
    let status = if status.is_none() && target_nodes.is_none() && error.is_none() {
        Some(current_status.to_owned())
    } else {
        status
    };
    Some(InfraPatch { status, target_nodes, error })
}

/// Every write that is done writes something, so that the row's version always
/// advances, and never writes a value out of bounds.
pub proof fn law_patches_write_something_within_bounds(delete: bool, payload: JsonView, current_status: Seq<char>)
    requires
        patch_of(delete, payload, current_status) is Some,
    ensures
        ({
            let patch = patch_of(delete, payload, current_status)->0;
            &&& patch.status is Some || patch.target_nodes is Some || patch.error is Some
            &&& patch.status matches Some(status) ==> settable_status(status) || status == current_status
            &&& patch.target_nodes matches Some(target) ==> MIN_TARGET_NODES <= target
            &&& patch.error matches Some(error) ==> encode_utf8(error).len() <= MAX_ERROR_BYTES
        }),
{
}

/// The number that a text spells as a UUID, in one of the forms `uuid` reads.
pub uninterp spec fn uuid_number(text: Seq<char>) -> Option<u128>;

/// `uuid`'s `Uuid::parse_str`: the identifier as a number, which depends on the
/// text alone, or nothing where it reports an error.
#[verifier::external_body]
pub(crate) fn parse_uuid(text: &str) -> (number: Option<u128>)
    ensures
        number == uuid_number(text@),
{
    Uuid::parse_str(text).ok().map(|id| id.as_u128())
}

/// What is wrong with a write before the database is asked.
pub open spec fn request_error(
    id: Option<u128>,
    op: Option<Seq<char>>,
    base_version: Option<i64>,
    database: bool,
) -> Option<SyncWriteError> {
    if id is None {
        Some(SyncWriteError::InvalidId)
    } else if operation_of(op) != "upsert"@ && operation_of(op) != "delete"@ {
        Some(SyncWriteError::InvalidOperation)
    } else {
        match base_version {
            None => Some(SyncWriteError::MissingBaseVersion),
            Some(version) => if version < 0 {
                Some(SyncWriteError::InvalidBaseVersion)
            } else if !database {
                Some(SyncWriteError::Database(DatabaseFailure::Unavailable))
            } else {
                None
            },
        }
    }
}

/// The machine-readable reason for a write that was not done.
pub open spec fn write_error_view(error: SyncWriteError) -> ReplyView {
    match error {
        SyncWriteError::InvalidId => error_view(400, "invalid_row_id"@),
        SyncWriteError::InvalidOperation => error_view(400, "invalid_sync_operation"@),
        SyncWriteError::InvalidPayload => error_view(400, "invalid_sync_payload"@),
        SyncWriteError::MissingBaseVersion => error_view(400, "base_version_required"@),
        SyncWriteError::InvalidBaseVersion => error_view(400, "invalid_base_version"@),
        SyncWriteError::VersionConflict { expected, actual } => ReplyView {
            status: 409,
            body: JsonView::Object(
                Map::empty().insert("error"@, JsonView::Text("version_conflict"@)).insert(
                    "expected_version"@,
                    JsonView::Number(NumberView::Integer(expected as int)),
                ).insert("actual_version"@, JsonView::Number(NumberView::Integer(actual as int))),
            ),
        },
        SyncWriteError::NotFound => error_view(404, "row_not_found"@),
        SyncWriteError::IdempotencyInFlight => error_view(409, "idempotency_in_flight"@),
        SyncWriteError::IdempotencyMismatch => error_view(409, "idempotency_key_reused"@),
        SyncWriteError::Database(_) => dependency_view("sync_write_failed"@),
    }
}

/// The acknowledgement of a write.
pub open spec fn ack_view(id: Seq<char>, committed_version: i64) -> ReplyView {
    ReplyView {
        status: 200,
        body: JsonView::Object(
            Map::empty().insert("id"@, JsonView::Text(id)).insert(
                "committed_version"@,
                JsonView::Number(NumberView::Integer(committed_version as int)),
            ),
        ),
    }
}

/// The acknowledgement that a client reconciles its queued write with.
pub fn ack(id: &str, committed_version: i64) -> (reply: Reply)
    ensures
        reply@ == ack_view(id@, committed_version),
{
    Reply {
        status: 200,
        body: Fields::new().with("id", Json::text(id)).with("committed_version", Json::signed(committed_version)).done(),
    }
}

/// The reply to a write that was not done.
pub fn sync_write_error(error: SyncWriteError) -> (reply: Reply)
    ensures
        reply@ == write_error_view(error),
{
    match error {
        SyncWriteError::InvalidId => error_reply(400, "invalid_row_id"),
        SyncWriteError::InvalidOperation => error_reply(400, "invalid_sync_operation"),
        SyncWriteError::InvalidPayload => error_reply(400, "invalid_sync_payload"),
        SyncWriteError::MissingBaseVersion => error_reply(400, "base_version_required"),
        SyncWriteError::InvalidBaseVersion => error_reply(400, "invalid_base_version"),
        SyncWriteError::VersionConflict { expected, actual } => Reply {
            status: 409,
            body: Fields::new().with("error", Json::text("version_conflict")).with(
                "expected_version",
                Json::signed(expected),
            ).with("actual_version", Json::signed(actual)).done(),
        },
        SyncWriteError::NotFound => error_reply(404, "row_not_found"),
        SyncWriteError::IdempotencyInFlight => error_reply(409, "idempotency_in_flight"),
        SyncWriteError::IdempotencyMismatch => error_reply(409, "idempotency_key_reused"),
        SyncWriteError::Database(_) => dependency_error("sync_write_failed"),
    }
}

/// The reply to a write.
pub open spec fn write_reply_view(id: Seq<char>, result: Result<SyncWriteOutcome, SyncWriteError>) -> ReplyView {
    match result {
        Ok(SyncWriteOutcome::Replay(version)) => ack_view(id, version),
        Ok(SyncWriteOutcome::Committed(row)) => ack_view(id, row.version),
        Err(error) => write_error_view(error),
    }
}

/// The reply to a write.
pub fn sync_write_reply(id: &str, result: &Result<SyncWriteOutcome, SyncWriteError>) -> (reply: Reply)
    ensures
        reply@ == write_reply_view(id@, *result),
{
    match result {
        Ok(SyncWriteOutcome::Replay(version)) => ack(id, *version),
        Ok(SyncWriteOutcome::Committed(row)) => ack(id, row.version),
        Err(error) => sync_write_error(*error),
    }
}

/// The reply for a table that is not synced.
pub open spec fn unsupported_table_view(table: Seq<char>) -> ReplyView {
    ReplyView { status: 404, body: error_body_with("unsupported_sync_table"@, "table"@, JsonView::Text(table)) }
}

/// The reply for a table that is not synced.
pub fn unsupported_table(table: &str) -> (reply: Reply)
    ensures
        reply@ == unsupported_table_view(table@),
{
    error_reply_with(404, "unsupported_sync_table", "table", Json::text(table))
}

/// What a catch-up reader asks for.
#[derive(Clone, Copy, Debug, Eq, PartialEq, Structural)]
pub struct CatchupQuery {
    /// Changes after this sequence number.
    pub cursor: i64,
    pub page_size: u64,
    /// How many changes to fetch: one more than the page holds.
    pub fetch_limit: i64,
}

/// The reply to a catch-up request that is out of bounds.
pub open spec fn catchup_bounds_view() -> ReplyView {
    ReplyView {
        status: 400,
        body: error_body_with(
            "invalid_catchup_cursor_or_limit"@,
            "max_limit"@,
            JsonView::Number(NumberView::Integer(MAX_CATCHUP_PAGE_SIZE as int)),
        ),
    }
}

/// The page size in force.
pub open spec fn page_size_of(limit: Option<u64>) -> u64 {
    match limit {
        Some(limit) => limit,
        None => DEFAULT_CATCHUP_PAGE_SIZE,
    }
}

/// Whether a catch-up request is within bounds.
pub open spec fn catchup_in_bounds(cursor: i64, limit: Option<u64>) -> bool {
    0 <= cursor && 1 <= page_size_of(limit) <= MAX_CATCHUP_PAGE_SIZE
}

/// What to fetch for a catch-up request, or the reply that turns it down.
pub fn plan_catchup(table: &str, cursor: i64, limit: Option<u64>, database: bool) -> (query: Result<
    CatchupQuery,
    Reply,
>)
    ensures
        match query {
            Ok(query) => {
                &&& catchup_in_bounds(cursor, limit)
                &&& table@ == "infra_operations"@
                &&& database
                &&& query.cursor == cursor
                &&& query.page_size == page_size_of(limit)
                &&& query.fetch_limit == query.page_size + 1
            },
            Err(reply) => if !catchup_in_bounds(cursor, limit) {
                reply@ == catchup_bounds_view()
            } else if table@ != "infra_operations"@ {
                reply@ == unsupported_table_view(table@)
            } else {
                !database && reply@ == dependency_view("database_unavailable"@)
            },
        },
{
    let page_size: u64 = match limit {
        Some(limit) => limit,
        None => DEFAULT_CATCHUP_PAGE_SIZE,
    };
    if cursor < 0 || page_size == 0 || page_size > MAX_CATCHUP_PAGE_SIZE {
        return Err(
            error_reply_with(
                400,
                "invalid_catchup_cursor_or_limit",
                "max_limit",
                Json::unsigned(MAX_CATCHUP_PAGE_SIZE),
            ),
        );
    }
    if !same_text(table, "infra_operations") {
        return Err(unsupported_table(table));
    }
    if !database {
        return Err(dependency_error("database_unavailable"));
    }
    Ok(CatchupQuery { cursor, page_size, fetch_limit: page_size as i64 + 1 })
}

/// One change in the catch-up feed: a live row, or the tombstone of one.
pub struct SyncCatchupChange {
    /// Its place in the plane-wide order of changes.
    pub sequence: i64,
    pub table_name: String,
    pub op: String,
    pub id: String,
    pub version: i64,
    pub row: Option<Json>,
}

/// One page of the catch-up feed.
pub struct SyncCatchupPage {
    pub changes: Vec<SyncCatchupChange>,
    pub next_cursor: i64,
    pub has_more: bool,
}

/// Whether `page` is what fetched changes are cut down to.
pub open spec fn is_page(page: SyncCatchupPage, fetched: Seq<SyncCatchupChange>, cursor: i64, page_size: u64) -> bool {
    &&& page.has_more == (fetched.len() > page_size)
    &&& page.changes@ == (if fetched.len() > page_size {
        fetched.take(page_size as int)
    } else {
        fetched
    })
    &&& page.next_cursor == (if page.changes@.len() > 0 {
        page.changes@.last().sequence
    } else {
        cursor
    })
}

/// Cuts what was fetched down to one page. The next cursor is the sequence of
/// the last change on the page, and stays where it was when the page is empty.
pub fn finish_catchup_page(changes: Vec<SyncCatchupChange>, cursor: i64, page_size: u64) -> (page: SyncCatchupPage)
    ensures
        is_page(page, changes@, cursor, page_size),
{
    let mut changes = changes;
    let has_more: bool = changes.len() as u64 > page_size;
    if has_more {
        changes.truncate(page_size as usize);
    }
    let next_cursor: i64 = if changes.len() > 0 {
        changes[changes.len() - 1].sequence
    } else {
        cursor
    };
    SyncCatchupPage { changes, next_cursor, has_more }
}

/// Whether a feed is in the order of its sequence numbers, each of its own.
pub open spec fn in_sequence(feed: Seq<SyncCatchupChange>) -> bool {
    forall|i: int, j: int| 0 <= i < j < feed.len() ==> (#[trigger] feed[i]).sequence < (#[trigger] feed[j]).sequence
}

/// The changes of a feed after a cursor.
pub open spec fn after_cursor(feed: Seq<SyncCatchupChange>, cursor: i64) -> Seq<SyncCatchupChange>
    decreases feed.len(),
{
    if feed.len() == 0 || feed[0].sequence > cursor {
        feed
    } else {
        after_cursor(feed.skip(1), cursor)
    }
}

/// What is after a cursor is a tail of the feed, of all larger sequence numbers.
proof fn lemma_after_cursor(feed: Seq<SyncCatchupChange>, cursor: i64) -> (start: int)
    requires
        in_sequence(feed),
    ensures
        0 <= start <= feed.len(),
        after_cursor(feed, cursor) == feed.skip(start),
        forall|i: int| 0 <= i < start ==> (#[trigger] feed[i]).sequence <= cursor,
        forall|i: int| start <= i < feed.len() ==> (#[trigger] feed[i]).sequence > cursor,
    decreases feed.len(),
{
    if feed.len() == 0 || feed[0].sequence > cursor {
        assert(feed.skip(0) =~= feed);
        0
    } else {
        let rest = feed.skip(1);
        assert forall|i: int, j: int| 0 <= i < j < rest.len() implies (#[trigger] rest[i]).sequence < (
        #[trigger] rest[j]).sequence by {
            assert(feed[i + 1].sequence < feed[j + 1].sequence);
        }
        let start = lemma_after_cursor(rest, cursor);
        assert(rest.skip(start) =~= feed.skip(start + 1));
        assert forall|i: int| 0 <= i < start + 1 implies (#[trigger] feed[i]).sequence <= cursor by {
            if i > 0 {
                assert(rest[i - 1] == feed[i]);
            }
        }
        assert forall|i: int| start + 1 <= i < feed.len() implies (#[trigger] feed[i]).sequence > cursor by {
            assert(rest[i - 1] == feed[i]);
        }
        start + 1
    }
}

/// Catch-up neither loses a change nor repeats one: what a page holds and what
/// is after its next cursor make up, in order, what was after the cursor; and
/// there is more exactly when the page says so.
pub proof fn law_catchup_pages_partition_the_feed(
    feed: Seq<SyncCatchupChange>,
    cursor: i64,
    page_size: u64,
    fetched: Seq<SyncCatchupChange>,
    page: SyncCatchupPage,
)
    requires
        in_sequence(feed),
        page_size >= 1,
        fetched == after_cursor(feed, cursor).take(
            if after_cursor(feed, cursor).len() <= page_size + 1 {
                after_cursor(feed, cursor).len() as int
            } else {
                page_size + 1
            },
        ),
        is_page(page, fetched, cursor, page_size),
    ensures
        after_cursor(feed, cursor) == page.changes@ + after_cursor(feed, page.next_cursor),
        page.has_more <==> after_cursor(feed, page.next_cursor).len() > 0,
        page.next_cursor >= cursor,
        page.has_more ==> page.next_cursor > cursor,
{
    let start = lemma_after_cursor(feed, cursor);
    let next = lemma_after_cursor(feed, page.next_cursor);
    let left = after_cursor(feed, cursor);
    let n = page.changes@.len() as int;
    assert(page.changes@ =~= left.take(n));
    if n > 0 {
        assert(page.changes@.last() == feed[start + n - 1]);
        assert(feed[start + n - 1].sequence > cursor);
        if next < start + n {
            assert(feed[start + n - 1].sequence > page.next_cursor);
        }
        if next > start + n {
            assert(feed[start + n].sequence <= page.next_cursor);
            assert(feed[start + n - 1].sequence < feed[start + n].sequence);
        }
    } else {
        assert(left.len() == 0);
        assert(next == start);
    }
    assert(next == start + n);
    assert(left =~= page.changes@ + feed.skip(next));
}

/// One change, as the client reads it.
pub open spec fn change_view(change: SyncCatchupChange) -> JsonView {
    JsonView::Object(
        Map::empty().insert("sequence"@, JsonView::Number(NumberView::Integer(change.sequence as int))).insert(
            "table"@,
            JsonView::Text(change.table_name@),
        ).insert("op"@, JsonView::Text(change.op@)).insert("id"@, JsonView::Text(change.id@)).insert(
            "version"@,
            JsonView::Number(NumberView::Integer(change.version as int)),
        ).insert(
            "row"@,
            match change.row {
                Some(row) => row@,
                None => JsonView::Null,
            },
        ),
    )
}

/// One change, as the client reads it.
fn change_json(change: &SyncCatchupChange) -> (json: Json)
    ensures
        json@ == change_view(*change),
{
    Fields::new().with("sequence", Json::signed(change.sequence)).with(
        "table",
        Json::text(change.table_name.as_str()),
    ).with("op", Json::text(change.op.as_str())).with("id", Json::text(change.id.as_str())).with(
        "version",
        Json::signed(change.version),
    ).with(
        "row",
        match &change.row {
            Some(row) => row.duplicate(),
            None => Json::Null,
        },
    ).done()
}

/// The reply that carries one page of catch-up.
pub open spec fn catchup_view(table: Seq<char>, cursor: i64, page: SyncCatchupPage) -> ReplyView {
    ReplyView {
        status: 200,
        body: JsonView::Object(
            Map::empty().insert("table"@, JsonView::Text(table)).insert(
                "cursor"@,
                JsonView::Number(NumberView::Integer(cursor as int)),
            ).insert("next_cursor"@, JsonView::Number(NumberView::Integer(page.next_cursor as int))).insert(
                "has_more"@,
                JsonView::Bool(page.has_more),
            ).insert(
                "changes"@,
                JsonView::Array(page.changes@.map_values(|change: SyncCatchupChange| change_view(change))),
            ),
        ),
    }
}

/// The reply that carries one page of catch-up.
pub fn catchup_reply(table: &str, cursor: i64, page: &SyncCatchupPage) -> (reply: Reply)
    ensures
        reply@ == catchup_view(table@, cursor, *page),
{
    let mut changes: Vec<Json> = Vec::new();
    let mut i: usize = 0;
    while i < page.changes.len()
        invariant
            i <= page.changes@.len(),
            changes@.len() == i,
            forall|j: int| 0 <= j < i ==> (#[trigger] changes@[j])@ == change_view(page.changes@[j]),
        decreases page.changes@.len() - i,
    {
        changes.push(change_json(&page.changes[i]));
        i = i + 1;
    }
    proof {
        lemma_items_view(changes@);
    }
    assert(items_view(changes@) =~= page.changes@.map_values(|change: SyncCatchupChange| change_view(change)));
    Reply {
        status: 200,
        body: Fields::new().with("table", Json::text(table)).with("cursor", Json::signed(cursor)).with(
            "next_cursor",
            Json::signed(page.next_cursor),
        ).with("has_more", Json::Bool(page.has_more)).with("changes", Json::Array(changes)).done(),
    }
}

} // verus!
