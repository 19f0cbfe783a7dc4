//! What a sync client can rely on: which writes are taken, what the replies and
//! frames say, and that following catch-up reads the whole feed.

use axum::http::HeaderMap;
use vstd::prelude::*;
use vstd::utf8::encode_utf8;

use crate::fingerprint::{big_endian, json_bytes, length_prefixed, version_bytes, WriteIdentity};
use crate::guards::sync_write_outcome;
use crate::headers::header_texts;
use crate::json::{signed_field, text_field, JsonView, NumberView};
use crate::reply::ReplyView;
use crate::request_security::RequestSecurity;
use crate::session::Session;
use crate::streaming::{change_frame_view, InfraOperationsRow};
use crate::sync::{
    acceptable_key, catchup_bounds_view, catchup_in_bounds, catchup_view, change_view, decision, fingerprint,
    in_sequence, is_page, page_size_of, patch_of, request_error, request_identity, sha256_hex,
    unsupported_table_view, uuid_number, write_error_view, write_key, write_key_code, write_reply_view,
    DatabaseFailure, Idem, PatchView, SyncCatchupChange, SyncCatchupPage, SyncWriteError, SyncWriteOutcome,
    SyncWriteRequest, WriteKeyError,
};
use crate::sync_laws::{is_run, law_obstacles_decide, law_writes_are_atomic, untroubled, Database, Run};
use crate::sync_transaction::{
    asks, begins, follows, refusal, DatabaseAction, DatabaseEvent, InfraWrite, WritePlan, WriteStage,
};

verus! {

/// Whether a field of an object is that integer.
pub open spec fn has_integer(body: JsonView, key: Seq<char>, n: int) -> bool {
    body.field(key) == Some(JsonView::Number(NumberView::Integer(n)))
}

/// Whether a field of an object is that text.
pub open spec fn has_text(body: JsonView, key: Seq<char>, text: Seq<char>) -> bool {
    body.field(key) == Some(JsonView::Text(text))
}

/// Whether a reply has that status and that error code.
pub open spec fn refuses_with(reply: ReplyView, status: int, code: Seq<char>) -> bool {
    reply.status == status && has_text(reply.body, "error"@, code)
}

/// Whether the fields that an upsert's payload sets can all be written: a status
/// of an operation, three nodes or more, and an error text of at most 500 bytes.
pub open spec fn writable(payload: JsonView) -> bool {
    &&& text_field(payload, "status"@) is None || text_field(payload, "status"@) == Some("requested"@) || text_field(
        payload,
        "status"@,
    ) == Some("applied"@) || text_field(payload, "status"@) == Some("failed"@)
    &&& signed_field(payload, "target_nodes"@) is None || 3 <= signed_field(payload, "target_nodes"@)->0
        <= 2_147_483_647
    &&& text_field(payload, "error"@) is None || encode_utf8(text_field(payload, "error"@)->0).len() <= 500
}

/// An upsert is taken exactly where what it sets can be written, and then writes
/// just that; one that sets nothing writes the status again. A delete is always
/// taken, and writes the status `failed` alone.
pub proof fn law_writable_payloads_are_patched(payload: JsonView, current_status: Seq<char>)
    ensures
        patch_of(false, payload, current_status) is Some <==> writable(payload),
        writable(payload) ==> {
            let patch = patch_of(false, payload, current_status)->0;
            let silent = text_field(payload, "status"@) is None && signed_field(payload, "target_nodes"@) is None
                && text_field(payload, "error"@) is None;
            &&& !silent ==> patch.status == text_field(payload, "status"@)
            &&& silent ==> patch.status == Some(current_status)
            &&& patch.error == text_field(payload, "error"@)
            &&& match signed_field(payload, "target_nodes"@) {
                Some(target) => patch.target_nodes is Some && patch.target_nodes->0 as int == target,
                None => patch.target_nodes is None,
            }
        },
        patch_of(true, payload, current_status) == Some(
            PatchView { status: Some("failed"@), target_nodes: None, error: None },
        ),
{
}

/// A write whose key is free and whose row is at its base version is committed
/// where it is a delete or its payload can be written, and its reply carries the
/// version that follows the base; any other payload is refused as invalid. The
/// database is taken not to fail.
pub proof fn law_writable_upserts_commit(
    start: Database,
    plan: WritePlan,
    run: Run,
    result: Result<SyncWriteOutcome, SyncWriteError>,
    id: Seq<char>,
)
    requires
        is_run(plan, run),
        untroubled(run),
        run.databases[0].committed == start,
        run.stages.last() == WriteStage::Over(result),
        !start.keys.contains_key(plan.write_key@),
        start.rows.contains_key(plan.id),
        start.rows[plan.id].version == plan.expected_version,
    ensures
        plan.delete || writable(plan.payload@) ==> {
            &&& result matches Ok(SyncWriteOutcome::Committed(row))
            &&& row.version == plan.expected_version + 1
            &&& write_reply_view(id, result).status == 200
            &&& has_text(write_reply_view(id, result).body, "id"@, id)
            &&& has_integer(
                write_reply_view(id, result).body,
                "committed_version"@,
                plan.expected_version + 1,
            )
            &&& run.databases.last().committed.keys.contains_key(plan.write_key@)
            &&& run.databases.last().committed.keys[plan.write_key@].committed_version == Some(row.version)
        },
        !plan.delete && !writable(plan.payload@) ==> {
            &&& result == Err::<SyncWriteOutcome, SyncWriteError>(SyncWriteError::InvalidPayload)
            &&& refuses_with(write_reply_view(id, result), 400, "invalid_sync_payload"@)
            &&& run.databases.last().committed == start
        },
{
    law_writable_payloads_are_patched(plan.payload@, start.rows[plan.id].status@);
    law_obstacles_decide(start, plan, run, result);
    law_writes_are_atomic(start, plan, run, result);
    law_write_replies_say_what_came_of_it(id, result);
}

/// An acknowledgement says the row and the version it was left at, for a replay as
/// for a new write; every refusal has its own status and code, and a conflict
/// says both versions.
pub proof fn law_write_replies_say_what_came_of_it(id: Seq<char>, result: Result<SyncWriteOutcome, SyncWriteError>)
    ensures
        ({
            let reply = write_reply_view(id, result);
            match result {
                Ok(SyncWriteOutcome::Replay(version)) => reply.status == 200 && has_text(reply.body, "id"@, id)
                    && has_integer(reply.body, "committed_version"@, version as int),
                Ok(SyncWriteOutcome::Committed(row)) => reply.status == 200 && has_text(reply.body, "id"@, id)
                    && has_integer(reply.body, "committed_version"@, row.version as int),
                Err(SyncWriteError::InvalidId) => refuses_with(reply, 400, "invalid_row_id"@),
                Err(SyncWriteError::InvalidOperation) => refuses_with(reply, 400, "invalid_sync_operation"@),
                Err(SyncWriteError::InvalidPayload) => refuses_with(reply, 400, "invalid_sync_payload"@),
                Err(SyncWriteError::MissingBaseVersion) => refuses_with(reply, 400, "base_version_required"@),
                Err(SyncWriteError::InvalidBaseVersion) => refuses_with(reply, 400, "invalid_base_version"@),
                Err(SyncWriteError::VersionConflict { expected, actual }) => refuses_with(
                    reply,
                    409,
                    "version_conflict"@,
                ) && has_integer(reply.body, "expected_version"@, expected as int) && has_integer(
                    reply.body,
                    "actual_version"@,
                    actual as int,
                ),
                Err(SyncWriteError::NotFound) => refuses_with(reply, 404, "row_not_found"@),
                Err(SyncWriteError::IdempotencyInFlight) => refuses_with(reply, 409, "idempotency_in_flight"@),
                Err(SyncWriteError::IdempotencyMismatch) => refuses_with(reply, 409, "idempotency_key_reused"@),
                Err(SyncWriteError::Database(_)) => refuses_with(reply, 503, "sync_write_failed"@) && has_text(
                    reply.body,
                    "dependency"@,
                    "postgres"@,
                ),
            }
        }),
{
    reveal_strlit("id");
    reveal_strlit("committed_version");
    reveal_strlit("error");
    reveal_strlit("expected_version");
    reveal_strlit("actual_version");
    reveal_strlit("dependency");
    assert("id"@.len() == 2 && "committed_version"@.len() == 17 && "error"@.len() == 5);
    assert("expected_version"@.len() == 16 && "actual_version"@.len() == 14 && "dependency"@.len() == 10);
}

/// A request is let through to the database exactly where it has an identifier,
/// asks for an upsert (or says nothing) or a delete, and names a base version from
/// zero up; the first thing missing is what it is refused for. What begins then
/// writes that very request.
pub proof fn law_requests_are_checked_in_order(
    id: Option<u128>,
    op: Option<Seq<char>>,
    base_version: Option<i64>,
    database: bool,
)
    ensures
        ({
            let known = op is None || op == Some("upsert"@) || op == Some("delete"@);
            let error = request_error(id, op, base_version, database);
            &&& error is None <==> id is Some && known && base_version is Some && base_version->0 >= 0 && database
            &&& id is None ==> error == Some(SyncWriteError::InvalidId)
            &&& id is Some && !known ==> error == Some(SyncWriteError::InvalidOperation)
            &&& id is Some && known && base_version is None ==> error == Some(SyncWriteError::MissingBaseVersion)
            &&& id is Some && known && base_version is Some && base_version->0 < 0 ==> error == Some(
                SyncWriteError::InvalidBaseVersion,
            )
            &&& id is Some && known && base_version is Some && base_version->0 >= 0 && !database ==> error == Some(
                SyncWriteError::Database(DatabaseFailure::Unavailable),
            )
        }),
{
}

/// A write that begins is a delete exactly where the request says so, for the row,
/// the base version, the key and the fingerprint it was given, and carries the
/// request's own payload: an empty one where it has none.
pub proof fn law_what_begins_is_the_request(
    request: SyncWriteRequest,
    id: Option<u128>,
    key: Seq<char>,
    print: Seq<char>,
    write: InfraWrite,
)
    requires
        begins(request, id, key, print, write),
    ensures
        write.plan.delete <==> request.op.deep_view() == Some("delete"@),
        id == Some(write.plan.id),
        request.base_version == Some(write.plan.expected_version),
        write.plan.write_key@ == key,
        write.plan.fingerprint@ == print,
        request.payload matches Some(payload) ==> write.plan.payload@ == payload@,
        request.payload is None ==> write.plan.payload@ == JsonView::Object(Map::empty()),
        write.stage is Beginning,
{
    reveal_strlit("upsert");
    reveal_strlit("delete");
    assert("upsert"@[0] != "delete"@[0]);
}

/// A write is refused for the request itself first, then for its key, then for its
/// table, and then for what it asks; one that passes is begun.
pub proof fn law_refused_writes_say_the_first_reason(
    security: RequestSecurity,
    headers: HeaderMap,
    session: Session,
    table: Seq<char>,
    request: SyncWriteRequest,
    database: bool,
)
    ensures
        ({
            let reply = refusal(security, headers, session, table, request, database);
            let passed = sync_write_outcome(security, headers, session);
            let key = write_key(header_texts(headers, "idempotency-key"@), request.key.deep_view());
            let error = request_error(
                uuid_number(request.id@),
                request.op.deep_view(),
                request.base_version,
                database,
            );
            &&& reply is None <==> passed is Ok && key is Ok && table == "infra_operations"@ && error is None
            &&& passed is Err ==> reply is Some && refuses_with(reply->0, 403, "admin_request_rejected"@)
            &&& passed is Ok && key == Err::<Seq<char>, WriteKeyError>(WriteKeyError::Missing) ==> reply is Some
                && refuses_with(reply->0, 400, "idempotency_key_required"@)
            &&& passed is Ok && key == Err::<Seq<char>, WriteKeyError>(WriteKeyError::Invalid) ==> reply is Some
                && refuses_with(reply->0, 400, "invalid_write_key"@)
            &&& passed is Ok && key == Err::<Seq<char>, WriteKeyError>(WriteKeyError::Mismatch) ==> reply is Some
                && refuses_with(reply->0, 400, "write_key_mismatch"@)
            &&& passed is Ok && key is Ok && table != "infra_operations"@ ==> reply is Some && refuses_with(
                reply->0,
                404,
                "unsupported_sync_table"@,
            )
            &&& passed is Ok && key is Ok && table == "infra_operations"@ && error is Some ==> reply == Some(
                write_error_view(error->0),
            )
        }),
{
    reveal_strlit("error");
    reveal_strlit("reason");
    reveal_strlit("table");
    assert("error"@.len() == 5 && "reason"@.len() == 6 && "table"@.len() == 5);
    assert("error"@[0] == 'e' && "table"@[0] == 't');
}

/// The database's troubles are logged in words of their own.
pub proof fn law_database_troubles_are_told_apart(failure: DatabaseFailure)
    ensures
        match failure {
            DatabaseFailure::Unavailable => failure.explanation() == "admin database connection unavailable"@,
            DatabaseFailure::Reported => failure.explanation() == "admin database reported an error"@,
            DatabaseFailure::KeyDisappeared => failure.explanation()
                == "idempotency key disappeared after unique-key conflict"@,
            DatabaseFailure::CompletionMissed => failure.explanation()
                == "idempotency completion did not update its claimed key"@,
        },
{
}

/// A write is identified by who makes it, the table and row, the operation, the
/// base version and the payload: nothing for a delete, an empty patch where an
/// upsert has none. What is left out reads as an upsert.
pub proof fn law_writes_are_identified_in_whole(user_id: Seq<char>, table: Seq<char>, request: SyncWriteRequest)
    ensures
        ({
            let write = request_identity(user_id, table, request);
            &&& write.user_id == user_id
            &&& write.table == table
            &&& write.id == request.id@
            &&& write.base_version == request.base_version
            &&& request.op matches Some(op) ==> write.operation == op@
            &&& request.op is None ==> write.operation == "upsert"@
            &&& write.operation == "delete"@ ==> write.payload == JsonView::Null
            &&& write.operation != "delete"@ ==> {
                &&& request.payload matches Some(payload) ==> write.payload == payload@
                &&& request.payload is None ==> write.payload == JsonView::Object(Map::empty())
            }
        }),
{
}

/// What a byte string of that many bytes reads as, the first byte weighing most.
pub open spec fn read_big_endian(bytes: Seq<u8>) -> nat
    decreases bytes.len(),
{
    if bytes.len() == 0 {
        0
    } else {
        read_big_endian(bytes.drop_last()) * 256 + bytes.last() as nat
    }
}

/// A number that fits is written in the width with its first byte weighing most.
proof fn lemma_big_endian_reads_back(n: nat, width: nat, bound: nat)
    requires
        n < bound,
        bound == weight(width),
    ensures
        big_endian(n, width).len() == width,
        read_big_endian(big_endian(n, width)) == n,
    decreases width,
{
    if width > 0 {
        let front = big_endian(n / 256, (width - 1) as nat);
        lemma_big_endian_reads_back(n / 256, (width - 1) as nat, weight((width - 1) as nat));
        assert(big_endian(n, width).drop_last() =~= front);
    }
}

/// How many numbers fit in that many bytes.
pub open spec fn weight(width: nat) -> nat
    decreases width,
{
    if width == 0 {
        1
    } else {
        256 * weight((width - 1) as nat)
    }
}

/// What a fingerprint is taken of: a name with a zero behind it, then the texts
/// with their lengths in eight bytes before them, then the version behind a one or
/// a zero for none, then the payload, each kind of value behind its own tag.
pub proof fn law_fingerprints_have_one_layout(write: WriteIdentity, text: Seq<char>, flag: bool, version: i64)
    requires
        encode_utf8(text).len() <= u64::MAX,
    ensures
        fingerprint(write) == sha256_hex(
            encode_utf8("fiducia-admin-sync-write-v1\0"@) + length_prefixed(encode_utf8(write.user_id))
                + length_prefixed(encode_utf8(write.table)) + length_prefixed(encode_utf8(write.id))
                + length_prefixed(encode_utf8(write.operation)) + version_bytes(write.base_version) + json_bytes(
                write.payload,
            ),
        ),
        length_prefixed(encode_utf8(text)).skip(8) == encode_utf8(text),
        read_big_endian(length_prefixed(encode_utf8(text)).take(8)) == encode_utf8(text).len(),
        json_bytes(JsonView::Null) == seq![0u8],
        json_bytes(JsonView::Bool(flag)) == seq![
            1u8,
            if flag {
                1u8
            } else {
                0u8
            },
        ],
        json_bytes(JsonView::Text(text)) == seq![3u8] + length_prefixed(encode_utf8(text)),
        version_bytes(None) == seq![0u8],
        version_bytes(Some(version))[0] == 1u8,
        version >= 0 ==> read_big_endian(version_bytes(Some(version)).skip(1)) == version,
{
    reveal_with_fuel(weight, 9);
    let bytes = encode_utf8(text);
    lemma_big_endian_reads_back(bytes.len(), 8, weight(8));
    assert(length_prefixed(bytes).skip(8) =~= bytes);
    assert(length_prefixed(bytes).take(8) =~= big_endian(bytes.len(), 8));
    if version >= 0 {
        lemma_big_endian_reads_back(version as nat, 8, weight(8));
        assert(version_bytes(Some(version)).skip(1) =~= big_endian(version as nat, 8));
    }
}

/// Whether a stage undoes a write for that reason.
pub open spec fn undoes(stage: WriteStage, error: SyncWriteError) -> bool {
    stage == WriteStage::RollingBack(error)
}

/// Each answer of the database leads a write on or undoes it for its own reason: a
/// row that is gone is not found, a row at another version is a conflict that
/// names both, a key that vanished or was not completed is the database's fault,
/// and so is every failure. Nothing is committed but after the key was completed or
/// found completed.
pub proof fn law_writes_go_where_the_database_says(
    plan: WritePlan,
    stage: WriteStage,
    event: DatabaseEvent,
    next: WriteStage,
)
    requires
        follows(plan, stage, event, next),
    ensures
        stage is Beginning ==> {
            &&& event is Done ==> next is Claiming
            &&& !(event is Done) ==> next == WriteStage::Over(
                Err(SyncWriteError::Database(DatabaseFailure::Reported)),
            )
        },
        stage is Claiming ==> {
            &&& event == DatabaseEvent::Rows(1) ==> next is ReadingRow
            &&& event == DatabaseEvent::Rows(0) ==> next is ReadingKey
        },
        stage is ReadingKey ==> {
            &&& event == DatabaseEvent::Key(None) ==> undoes(
                next,
                SyncWriteError::Database(DatabaseFailure::KeyDisappeared),
            )
            &&& event matches DatabaseEvent::Key(Some(record)) ==> {
                let same = record.fingerprint.deep_view() == Some(plan.fingerprint@);
                &&& !same ==> undoes(next, SyncWriteError::IdempotencyMismatch)
                &&& same && record.committed_version is None ==> undoes(next, SyncWriteError::IdempotencyInFlight)
                &&& same && record.committed_version is Some ==> next == WriteStage::Committing(
                    SyncWriteOutcome::Replay(record.committed_version->0),
                )
            }
        },
        stage is ReadingRow ==> {
            &&& event == DatabaseEvent::Row(None) ==> undoes(next, SyncWriteError::NotFound)
            &&& event matches DatabaseEvent::Row(Some(row)) ==> {
                &&& row.version != plan.expected_version ==> undoes(
                    next,
                    SyncWriteError::VersionConflict { expected: plan.expected_version, actual: row.version },
                )
                &&& row.version == plan.expected_version && (plan.delete || writable(plan.payload@)) ==> next is Updating
                &&& row.version == plan.expected_version && !plan.delete && !writable(plan.payload@) ==> undoes(
                    next,
                    SyncWriteError::InvalidPayload,
                )
            }
        },
        stage is Updating ==> {
            &&& event == DatabaseEvent::Rows(1) ==> next is ReadingResult
            &&& event == DatabaseEvent::Rows(0) ==> next is ReadingConflict
        },
        stage is ReadingConflict ==> {
            &&& event == DatabaseEvent::Row(None) ==> undoes(next, SyncWriteError::NotFound)
            &&& event matches DatabaseEvent::Row(Some(row)) ==> undoes(
                next,
                SyncWriteError::VersionConflict { expected: plan.expected_version, actual: row.version },
            )
        },
        stage is ReadingResult ==> {
            &&& event == DatabaseEvent::Row(None) ==> undoes(next, SyncWriteError::NotFound)
            &&& event matches DatabaseEvent::Row(Some(row)) ==> next == WriteStage::Completing(row)
        },
        stage matches WriteStage::Completing(row) ==> {
            &&& event == DatabaseEvent::Rows(1) ==> next == WriteStage::Committing(SyncWriteOutcome::Committed(row))
            &&& event == DatabaseEvent::Rows(0) ==> undoes(
                next,
                SyncWriteError::Database(DatabaseFailure::CompletionMissed),
            )
        },
        stage matches WriteStage::Committing(outcome) ==> {
            &&& event is Done ==> next == WriteStage::Over(Ok(outcome))
            &&& !(event is Done) ==> next == WriteStage::Over(
                Err(SyncWriteError::Database(DatabaseFailure::Reported)),
            )
        },
        stage matches WriteStage::RollingBack(error) ==> {
            &&& event is Done ==> next == WriteStage::Over(Err(error))
            &&& !(event is Done) ==> next == WriteStage::Over(
                Err(SyncWriteError::Database(DatabaseFailure::Reported)),
            )
        },
        event is Failed && !(stage is Over) && !(stage is Beginning) && !(stage is Committing) && !(stage is RollingBack)
            ==> undoes(next, SyncWriteError::Database(DatabaseFailure::Reported)),
        stage is Over ==> next == stage,
{
    if let DatabaseEvent::Row(Some(row)) = event {
        law_writable_payloads_are_patched(plan.payload@, row.status@);
    }
}

/// What a write asks of the database at each stage: its own key, with its own
/// fingerprint, its own row at its own version, and the version that the row was
/// left at.
pub proof fn law_writes_ask_for_their_own(plan: WritePlan, stage: WriteStage, action: DatabaseAction)
    requires
        asks(plan, stage, action),
    ensures
        stage is Beginning <==> action is Begin,
        stage is Claiming ==> (action matches DatabaseAction::ClaimKey { key, fingerprint: print } && key
            == plan.write_key && print == plan.fingerprint),
        stage is ReadingKey ==> (action matches DatabaseAction::ReadKey { key } && key == plan.write_key),
        stage is ReadingRow || stage is ReadingConflict || stage is ReadingResult ==> (action
            matches DatabaseAction::ReadRow { id } && id == plan.id),
        stage matches WriteStage::Updating(patch) ==> (action matches DatabaseAction::UpdateRow {
            id,
            version,
            patch: found,
        } && id == plan.id && version == plan.expected_version && found.status.deep_view() == patch.status.deep_view()
            && found.target_nodes == patch.target_nodes && found.error.deep_view() == patch.error.deep_view()),
        stage matches WriteStage::Completing(row) ==> (action matches DatabaseAction::CompleteKey {
            key,
            fingerprint: print,
            version,
        } && key == plan.write_key && print == plan.fingerprint && version == row.version),
        stage is Committing <==> action is Commit,
        stage is RollingBack <==> action is Rollback,
        stage is Over <==> action is Rest,
{
}

/// A key that is already taken answers only the write that took it: with the
/// version once that write is done, and with the word that it is under way before.
pub proof fn law_taken_keys_answer_their_own_write(
    stored: Option<Seq<char>>,
    committed_version: Option<i64>,
    requested: Seq<char>,
)
    ensures
        stored != Some(requested) <==> decision(stored, committed_version, requested) == Err::<Idem, SyncWriteError>(
            SyncWriteError::IdempotencyMismatch,
        ),
        stored == Some(requested) && committed_version is Some ==> decision(stored, committed_version, requested)
            == Ok::<Idem, SyncWriteError>(Idem::Replay(committed_version->0)),
        stored == Some(requested) && committed_version is None ==> decision(stored, committed_version, requested)
            == Ok::<Idem, SyncWriteError>(Idem::InFlight),
{
}

/// A write key is from 1 to 256 bytes of printable ASCII without spaces. One such
/// key, in the header or in the body or the same in both, is the write's key. Two
/// that differ are a mismatch, none is missing, and anything else is invalid.
pub proof fn law_write_keys_are_reconciled(key: Seq<char>, other: Seq<char>)
    ensures
        acceptable_key(key) <==> 1 <= encode_utf8(key).len() <= 256 && forall|i: int|
            0 <= i < encode_utf8(key).len() ==> 33 <= #[trigger] encode_utf8(key)[i] <= 126,
        acceptable_key(key) ==> {
            &&& write_key(seq![Some(key)], None) == Ok::<Seq<char>, WriteKeyError>(key)
            &&& write_key(seq![], Some(key)) == Ok::<Seq<char>, WriteKeyError>(key)
            &&& write_key(seq![Some(key)], Some(key)) == Ok::<Seq<char>, WriteKeyError>(key)
        },
        acceptable_key(key) && acceptable_key(other) && key != other ==> write_key(seq![Some(key)], Some(other))
            == Err::<Seq<char>, WriteKeyError>(WriteKeyError::Mismatch),
        !acceptable_key(key) ==> {
            &&& write_key(seq![Some(key)], Some(other)) == Err::<Seq<char>, WriteKeyError>(WriteKeyError::Invalid)
            &&& write_key(seq![Some(key)], None) == Err::<Seq<char>, WriteKeyError>(WriteKeyError::Invalid)
            &&& write_key(seq![], Some(key)) == Err::<Seq<char>, WriteKeyError>(WriteKeyError::Invalid)
        },
        write_key(seq![], None) == Err::<Seq<char>, WriteKeyError>(WriteKeyError::Missing),
        write_key(seq![None], Some(key)) == Err::<Seq<char>, WriteKeyError>(WriteKeyError::Invalid),
        write_key(seq![Some(key), Some(key)], Some(key)) == Err::<Seq<char>, WriteKeyError>(WriteKeyError::Invalid),
        write_key_code(WriteKeyError::Missing) == "idempotency_key_required"@,
        write_key_code(WriteKeyError::Invalid) == "invalid_write_key"@,
        write_key_code(WriteKeyError::Mismatch) == "write_key_mismatch"@,
{
}

/// A catch-up page has 100 changes unless a number from 1 to 500 is asked for; the
/// reply to any other number, or to a cursor below zero, names that bound, and the
/// reply for a table that is not synced names the table.
pub proof fn law_catchup_bounds_are_told(cursor: i64, limit: Option<u64>, table: Seq<char>)
    ensures
        catchup_in_bounds(cursor, limit) <==> cursor >= 0 && (limit is None || 1 <= limit->0 <= 500),
        limit is None ==> page_size_of(limit) == 100,
        limit is Some ==> page_size_of(limit) == limit->0,
        refuses_with(catchup_bounds_view(), 400, "invalid_catchup_cursor_or_limit"@),
        has_integer(catchup_bounds_view().body, "max_limit"@, 500),
        refuses_with(unsupported_table_view(table), 404, "unsupported_sync_table"@),
        has_text(unsupported_table_view(table).body, "table"@, table),
{
    reveal_strlit("error");
    reveal_strlit("max_limit");
    reveal_strlit("table");
    assert("error"@.len() == 5 && "max_limit"@.len() == 9 && "table"@.len() == 5);
    assert("error"@[0] == 'e' && "table"@[0] == 't');
}

/// Whether changes are what a feed holds from place `start` on, up to a number of
/// them.
pub open spec fn fetched_from(
    feed: Seq<SyncCatchupChange>,
    start: int,
    limit: int,
    fetched: Seq<SyncCatchupChange>,
) -> bool {
    &&& 0 <= start <= feed.len()
    &&& fetched == feed.subrange(
        start,
        if start + limit < feed.len() {
            start + limit
        } else {
            feed.len() as int
        },
    )
}

/// Whether a feed's changes from place `start` on are just those after a cursor.
pub open spec fn starts_after(feed: Seq<SyncCatchupChange>, start: int, cursor: i64) -> bool {
    &&& 0 <= start <= feed.len()
    &&& forall|i: int| 0 <= i < start ==> (#[trigger] feed[i]).sequence <= cursor
    &&& forall|i: int| start <= i < feed.len() ==> (#[trigger] feed[i]).sequence > cursor
}

/// Whether an item of a reply says one change, field by field.
pub open spec fn says_change(item: JsonView, change: SyncCatchupChange) -> bool {
    &&& has_integer(item, "sequence"@, change.sequence as int)
    &&& has_text(item, "table"@, change.table_name@)
    &&& has_text(item, "op"@, change.op@)
    &&& has_text(item, "id"@, change.id@)
    &&& has_integer(item, "version"@, change.version as int)
    &&& item.field("row"@) == Some(
        match change.row {
            Some(row) => row@,
            None => JsonView::Null,
        },
    )
}

/// The place in the feed that follows one page, and the body of the reply for it:
/// the page's changes are just those between the cursor and the next cursor that
/// the body names, and the body says that there is more exactly where the feed
/// holds a change after that next cursor.
pub proof fn law_catchup_replies_say_what_is_left(
    feed: Seq<SyncCatchupChange>,
    table: Seq<char>,
    cursor: i64,
    page_size: u64,
    start: int,
    fetched: Seq<SyncCatchupChange>,
    page: SyncCatchupPage,
) -> (next: int)
    requires
        in_sequence(feed),
        page_size >= 1,
        starts_after(feed, start, cursor),
        fetched_from(feed, start, page_size + 1, fetched),
        is_page(page, fetched, cursor, page_size),
    ensures
        start <= next <= feed.len(),
        starts_after(feed, next, page.next_cursor),
        page.changes@ == feed.subrange(start, next),
        next - start <= page_size,
        next < feed.len() ==> next > start && page.next_cursor > cursor,
        ({
            let reply = catchup_view(table, cursor, page);
            &&& reply.status == 200
            &&& has_text(reply.body, "table"@, table)
            &&& has_integer(reply.body, "cursor"@, cursor as int)
            &&& has_integer(reply.body, "next_cursor"@, page.next_cursor as int)
            &&& reply.body.field("has_more"@) == Some(
                JsonView::Bool(exists|i: int| 0 <= i < feed.len() && (#[trigger] feed[i]).sequence > page.next_cursor),
            )
            &&& reply.body.field("changes"@) matches Some(JsonView::Array(items))
            &&& items.len() == next - start
            &&& forall|i: int| 0 <= i < items.len() ==> says_change(#[trigger] items[i], feed[start + i])
        }),
{
    let n = page.changes@.len() as int;
    let next = start + n;
    assert(page.changes@ =~= feed.subrange(start, next));
    if n > 0 {
        assert(page.changes@.last() == feed[next - 1]);
        assert forall|i: int| 0 <= i < next implies (#[trigger] feed[i]).sequence <= page.next_cursor by {
            if i < next - 1 {
                assert(feed[i].sequence < feed[next - 1].sequence);
            }
        }
        assert forall|i: int| next <= i < feed.len() implies (#[trigger] feed[i]).sequence > page.next_cursor by {
            assert(feed[next - 1].sequence < feed[i].sequence);
        }
        assert(feed[next - 1].sequence > cursor);
    } else {
        assert(fetched.len() == 0);
        assert(start == feed.len());
    }
    if next < feed.len() {
        assert(fetched.len() > page_size);
        assert(feed[next].sequence > page.next_cursor);
    }
    let reply = catchup_view(table, cursor, page);
    reveal_strlit("table");
    reveal_strlit("cursor");
    reveal_strlit("next_cursor");
    reveal_strlit("has_more");
    reveal_strlit("changes");
    reveal_strlit("sequence");
    reveal_strlit("op");
    reveal_strlit("id");
    reveal_strlit("version");
    reveal_strlit("row");
    assert("table"@.len() == 5 && "cursor"@.len() == 6 && "next_cursor"@.len() == 11);
    assert("has_more"@.len() == 8 && "changes"@.len() == 7 && "sequence"@.len() == 8 && "op"@.len() == 2);
    assert("id"@.len() == 2 && "version"@.len() == 7 && "row"@.len() == 3);
    assert("has_more"@[0] == 'h' && "sequence"@[0] == 's' && "changes"@[0] == 'c' && "version"@[0] == 'v');
    assert("op"@[0] == 'o' && "id"@[0] == 'i');
    assert(page.has_more == exists|i: int| 0 <= i < feed.len() && (#[trigger] feed[i]).sequence > page.next_cursor);
    let items = reply.body.field("changes"@)->0->Array_0;
    assert forall|i: int| 0 <= i < items.len() implies says_change(#[trigger] items[i], feed[start + i]) by {
        assert(items[i] == change_view(page.changes@[i]));
        assert(page.changes@[i] == feed[start + i]);
    }
    next
}

/// What the pages of a list hold, one behind the other.
pub open spec fn all_changes(pages: Seq<SyncCatchupPage>) -> Seq<SyncCatchupChange>
    decreases pages.len(),
{
    if pages.len() == 0 {
        Seq::empty()
    } else {
        pages[0].changes@ + all_changes(pages.skip(1))
    }
}

/// Whether `pages` are the pages of a client that starts at `cursor`, asks each
/// time from the next cursor of the page before, and stops where a reply says
/// that there is no more; `starts` are the places where their changes begin.
pub open spec fn follows_catchup(
    feed: Seq<SyncCatchupChange>,
    cursor: i64,
    page_size: u64,
    starts: Seq<int>,
    pages: Seq<SyncCatchupPage>,
) -> bool
    decreases pages.len(),
{
    &&& pages.len() > 0
    &&& starts.len() == pages.len()
    &&& starts_after(feed, starts[0], cursor)
    &&& exists|fetched: Seq<SyncCatchupChange>| #[trigger]
        fetched_from(feed, starts[0], page_size + 1, fetched) && is_page(pages[0], fetched, cursor, page_size)
    &&& if pages.len() == 1 {
        catchup_view("infra_operations"@, cursor, pages[0]).body.field("has_more"@) == Some(JsonView::Bool(false))
    } else {
        &&& catchup_view("infra_operations"@, cursor, pages[0]).body.field("has_more"@) == Some(
            JsonView::Bool(true),
        )
        &&& follows_catchup(feed, pages[0].next_cursor, page_size, starts.skip(1), pages.skip(1))
    }
}

/// A client that follows the replies until they say that there is no more has
/// received every change after its cursor, once and in order.
pub proof fn law_following_catchup_reads_the_whole_feed(
    feed: Seq<SyncCatchupChange>,
    cursor: i64,
    page_size: u64,
    starts: Seq<int>,
    pages: Seq<SyncCatchupPage>,
)
    requires
        in_sequence(feed),
        page_size >= 1,
        follows_catchup(feed, cursor, page_size, starts, pages),
    ensures
        all_changes(pages) == feed.skip(starts[0]),
        forall|i: int| 0 <= i < starts[0] ==> (#[trigger] feed[i]).sequence <= cursor,
    decreases pages.len(),
{
    let fetched = choose|fetched: Seq<SyncCatchupChange>| #[trigger]
        fetched_from(feed, starts[0], page_size + 1, fetched) && is_page(pages[0], fetched, cursor, page_size);
    let next = law_catchup_replies_say_what_is_left(
        feed,
        "infra_operations"@,
        cursor,
        page_size,
        starts[0],
        fetched,
        pages[0],
    );
    if pages.len() == 1 {
        if next < feed.len() {
            assert(feed[next].sequence > pages[0].next_cursor);
        }
        assert(pages.skip(1).len() == 0);
        reveal_with_fuel(all_changes, 2);
        assert(all_changes(pages) =~= feed.skip(starts[0]));
    } else {
        law_following_catchup_reads_the_whole_feed(
            feed,
            pages[0].next_cursor,
            page_size,
            starts.skip(1),
            pages.skip(1),
        );
        let second = starts[1];
        reveal_with_fuel(follows_catchup, 2);
        assert(starts.skip(1)[0] == second);
        if second < next {
            assert(feed[second].sequence <= pages[0].next_cursor);
        }
        if next < second {
            assert(feed[next].sequence > pages[0].next_cursor);
        }
        assert(all_changes(pages) =~= feed.skip(starts[0]));
    }
}

/// The frame that a committed row is published with names the table and the row,
/// carries the version and the whole row as they were committed, and the key of
/// the write that made the change.
pub proof fn law_frames_carry_the_committed_row(row: InfraOperationsRow, write_key: Option<Seq<char>>, at_ms: int)
    ensures
        ({
            let frame = change_frame_view(row, write_key, at_ms);
            &&& has_text(frame, "event"@, "fiducia:sync"@)
            &&& frame.field("changes"@) matches Some(JsonView::Array(changes))
            &&& changes.len() == 1
            &&& has_text(changes[0], "table"@, "infra_operations"@)
            &&& has_text(changes[0], "op"@, "upsert"@)
            &&& has_text(changes[0], "id"@, row.id@)
            &&& has_integer(changes[0], "version"@, row.version as int)
            &&& changes[0].field("row"@) == Some(row.document@)
            &&& has_integer(changes[0], "at_ms"@, at_ms)
            &&& write_key matches Some(key) ==> has_text(changes[0], "write_key"@, key)
            &&& write_key is None ==> changes[0].field("write_key"@) == Some(JsonView::Null)
        }),
{
    reveal_strlit("event");
    reveal_strlit("changes");
    reveal_strlit("table");
    reveal_strlit("op");
    reveal_strlit("id");
    reveal_strlit("version");
    reveal_strlit("row");
    reveal_strlit("at_ms");
    reveal_strlit("write_key");
    assert("event"@.len() == 5 && "changes"@.len() == 7 && "table"@.len() == 5 && "op"@.len() == 2);
    assert("id"@.len() == 2 && "version"@.len() == 7 && "row"@.len() == 3 && "at_ms"@.len() == 5);
    assert("write_key"@.len() == 9);
    assert("event"@[0] == 'e' && "table"@[0] == 't' && "at_ms"@[0] == 'a' && "changes"@[0] == 'c');
    assert("version"@[0] == 'v' && "op"@[0] == 'o' && "id"@[0] == 'i');
}

} // verus!
