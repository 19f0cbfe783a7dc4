//! What comes of an operator's action, from the request to the record, the brain's
//! word and the reply; and what the audit log, the stream and the refusals say.

use vstd::prelude::*;

use crate::admission::{session_lookup, OperatorLookup, RegistryAnswer};
use crate::audit::{audit_reply_view, event_json, limit_in_force, shown, shown_all, AdminAuditEvent, AuditLogRow};
use crate::infra::{
    invalid_target_view, reading_follows, scale_begins, scale_follows, target_acceptable, InfraPart, InfraReading,
    Scale, ScaleEvent, ScaleStage,
};
use crate::json::{json_text, JsonView};
use crate::notices::{
    notice_acceptable, notice_begins, notice_follows, NoticeEvent, NoticeForm, NoticeStage, Publication,
    LISTED_NOTICES,
};
use crate::records::{
    audits, record_asks, record_follows, record_start, scale_params, AuditEntry, Operation, RecordAction,
    RecordEvent, RecordFailure, RecordStage, Recording,
};
use crate::reply::{dependency_view, error_view, rejected_view, upstream_view};
use crate::request_security::RequestSecurityError;
use crate::session::Session;
use crate::streaming::{streams, text_due, InfraOperationsRow, StreamAction, StreamEvent, ADMIN_WS_HEARTBEAT_SECS};
use crate::sync_reply_laws::{has_integer, has_text, refuses_with};
use crate::text::{decimal, trimmed};
use crate::upstream::{
    failure_class, scale_request_view, service_path, UpstreamError, UpstreamFailure, MAX_UPSTREAM_BODY_BYTES,
};

verus! {

/// A request that is refused for what it is says why.
pub proof fn law_rejected_requests_say_why(error: RequestSecurityError)
    ensures
        refuses_with(rejected_view(error), 403, "admin_request_rejected"@),
        has_text(rejected_view(error).body, "reason"@, error.reason()),
{
    reveal_strlit("error");
    reveal_strlit("reason");
    assert("error"@.len() == 5 && "reason"@.len() == 6);
}

/// A failing database and a failing service are told apart by status, and each
/// refusal names its code and what failed.
pub proof fn law_refusals_say_what_failed(code: Seq<char>, service: Seq<char>, status: u16)
    ensures
        refuses_with(dependency_view(code), 503, code),
        has_text(dependency_view(code).body, "dependency"@, "postgres"@),
        refuses_with(upstream_view(code, service), 502, code),
        has_text(upstream_view(code, service).body, "dependency"@, service),
        refuses_with(error_view(status, code), status as int, code),
{
    reveal_strlit("error");
    reveal_strlit("dependency");
    assert("error"@.len() == 5 && "dependency"@.len() == 10);
}

/// Whether a stage of a scale is a refusal with that status and code.
pub open spec fn scale_refused_with(stage: ScaleStage, status: int, code: Seq<char>) -> bool {
    stage matches ScaleStage::Refused(reply) && refuses_with(reply@, status, code)
}

/// Whether a stage of a scale is the recording of that target in the session's
/// name, waiting as given.
pub open spec fn scale_recording(
    stage: ScaleStage,
    target_nodes: u32,
    session: Session,
    waiting: RecordStage<InfraOperationsRow>,
) -> bool {
    stage matches ScaleStage::Recording(recording) && recording.operation == (Operation::Scale {
        target_nodes: target_nodes as i32,
    }) && recording.actor.deep_view() == session.email.deep_view() && recording.stage == waiting
}

/// A target is taken exactly from three nodes up, as far as the database can hold
/// it; the refusal of any other says the least.
pub proof fn law_scale_targets_are_bounded(target_nodes: u32)
    ensures
        target_acceptable(target_nodes) <==> 3 <= target_nodes <= 2_147_483_647,
        refuses_with(invalid_target_view(), 400, "invalid_target_nodes"@),
        has_integer(invalid_target_view().body, "min"@, 3),
{
    reveal_strlit("error");
    reveal_strlit("min");
    assert("error"@.len() == 5 && "min"@.len() == 3);
}

/// A scale that the request may not make, or with a target out of bounds, is
/// refused. Any other is recorded where there is a database and an operator to
/// look for, or none is needed, and is refused for want of its record otherwise.
pub proof fn law_scales_begin_where_they_can_be_recorded(
    outcome: Result<(), RequestSecurityError>,
    session: Session,
    release_hardened: bool,
    database: bool,
    target_nodes: u32,
    stage: ScaleStage,
)
    requires
        scale_begins(outcome, session, release_hardened, database, target_nodes, stage),
    ensures
        outcome matches Err(error) ==> scale_refused_with(stage, 403, "admin_request_rejected"@),
        outcome is Ok && !(3 <= target_nodes <= 2_147_483_647) ==> scale_refused_with(stage, 400, "invalid_target_nodes"@),
        outcome is Ok && 3 <= target_nodes <= 2_147_483_647 ==> {
            let lookup = session_lookup(Some(session), release_hardened);
            &&& !database || lookup is Impossible ==> scale_refused_with(stage, 503, "infra_audit_write_failed"@)
            &&& database && lookup is Development ==> scale_recording(
                stage,
                target_nodes,
                session,
                RecordStage::Beginning(None),
            )
            &&& database && lookup is Subject ==> scale_recording(
                stage,
                target_nodes,
                session,
                RecordStage::LookingUp(lookup->Subject_0),
            )
        },
{
    law_scale_targets_are_bounded(target_nodes);
    if let Err(error) = outcome {
        law_rejected_requests_say_why(error);
    }
    law_refusals_say_what_failed("infra_audit_write_failed"@, ""@, 0);
}

/// Once its record is committed a scale is published with the recorded row, then
/// asked of the brain for the very target and three replicas, and the brain's
/// word alone ends it well: with the panel for htmx, with a redirect else.
pub proof fn law_recorded_scales_are_asked_of_the_brain(scale: Scale, event: ScaleEvent, next: ScaleStage)
    requires
        scale_follows(scale, event, next),
    ensures
        scale.stage matches ScaleStage::Recording(recording) ==> (recording.stage matches RecordStage::Committing(row)
            ==> {
            &&& event == ScaleEvent::Record(RecordEvent::Done) ==> next == ScaleStage::Publishing(row)
            &&& event != ScaleEvent::Record(RecordEvent::<InfraOperationsRow>::Done) ==> scale_refused_with(
                next,
                503,
                "infra_audit_write_failed"@,
            )
        }),
        scale.stage matches ScaleStage::Recording(recording) ==> (next matches ScaleStage::Recording(further)
            ==> further.operation == recording.operation && further.actor == recording.actor),
        scale.stage is Publishing ==> {
            &&& next matches ScaleStage::Scaling { body }
            &&& has_integer(body@, "target_nodes"@, scale.target_nodes as int)
            &&& has_integer(body@, "replication_factor"@, 3)
        },
        scale.stage is Scaling ==> {
            &&& event == ScaleEvent::Brain(Some(true)) && scale.htmx ==> next == ScaleStage::Reading(InfraReading::Nodes)
            &&& event == ScaleEvent::Brain(Some(true)) && !scale.htmx ==> next is Redirect
            &&& event != ScaleEvent::Brain(Some(true)) ==> scale_refused_with(next, 502, "brain_scale_failed"@)
        },
        scale.stage is Redirect || scale.stage is Refused ==> next == scale.stage,
{
    law_refusals_say_what_failed(
        "infra_audit_write_failed"@,
        "fiducia-brain"@,
        0,
    );
    law_refusals_say_what_failed("brain_scale_failed"@, "fiducia-brain"@, 0);
    law_scale_bodies_ask_for_three_replicas(scale.target_nodes);
}

/// The brain is asked, and the record holds, the very target and three replicas.
pub proof fn law_scale_bodies_ask_for_three_replicas(target_nodes: u32)
    ensures
        has_integer(scale_request_view(target_nodes), "target_nodes"@, target_nodes as int),
        has_integer(scale_request_view(target_nodes), "replication_factor"@, 3),
        has_integer(scale_params(target_nodes as int), "target_nodes"@, target_nodes as int),
        has_integer(scale_params(target_nodes as int), "replication_factor"@, 3),
{
    reveal_strlit("target_nodes");
    reveal_strlit("replication_factor");
    assert("target_nodes"@.len() == 12 && "replication_factor"@.len() == 18);
}

/// Whether a reading failed with that status and code.
pub open spec fn reading_failed_with(reading: InfraReading, status: int, code: Seq<char>) -> bool {
    reading matches InfraReading::Failed(reply) && refuses_with(reply@, status, code)
}

/// The panel is read part by part and keeps every part as it was read. The first
/// part that is missing ends the reading, with its own code and the status of the
/// service that it was to come from.
pub proof fn law_panels_keep_what_was_read(reading: InfraReading, part: InfraPart, next: InfraReading)
    requires
        reading_follows(reading, part, next),
    ensures
        reading is Nodes ==> {
            &&& part matches InfraPart::Nodes(Some(found)) ==> next == (InfraReading::Placement { nodes: found })
            &&& !(part matches InfraPart::Nodes(Some(_))) ==> reading_failed_with(next, 502, "brain_nodes_failed"@)
        },
        reading matches InfraReading::Placement { nodes } ==> {
            &&& part matches InfraPart::Placement(Some(found)) ==> next == (InfraReading::Operations {
                nodes,
                placement: found,
            })
            &&& !(part matches InfraPart::Placement(Some(_))) ==> reading_failed_with(
                next,
                502,
                "brain_placement_failed"@,
            )
        },
        reading matches InfraReading::Operations { nodes, placement } ==> {
            &&& part matches InfraPart::Operations(Some(found)) ==> next == (InfraReading::Ready {
                nodes,
                placement,
                operations: found,
            })
            &&& !(part matches InfraPart::Operations(Some(_))) ==> reading_failed_with(
                next,
                503,
                "infra_audit_read_failed"@,
            )
        },
        reading is Ready || reading is Failed ==> next == reading,
{
    law_refusals_say_what_failed("infra_audit_read_failed"@, ""@, 0);
    law_refusals_say_what_failed("brain_nodes_failed"@, "fiducia-brain"@, 0);
    law_refusals_say_what_failed("brain_placement_failed"@, "fiducia-brain"@, 0);
}

/// Whether a stage of a notice is a refusal with that status and code.
pub open spec fn notice_refused_with(stage: NoticeStage, status: int, code: Seq<char>) -> bool {
    stage matches NoticeStage::Refused(reply) && refuses_with(reply@, status, code)
}

/// Whether a stage is the recording of just what a form says, in the session's
/// name, waiting as given.
pub open spec fn notice_recording(
    stage: NoticeStage,
    form: NoticeForm,
    session: Session,
    waiting: RecordStage<()>,
) -> bool {
    &&& stage matches NoticeStage::Recording(recording)
    &&& recording.operation matches Operation::Notice { severity, title, body }
    &&& severity@ == form.severity@
    &&& title@ == trimmed(form.title@)
    &&& body@ == trimmed(form.body@)
    &&& recording.actor.deep_view() == session.email.deep_view()
    &&& recording.stage == waiting
}

/// A notice is of one of three severities, has a title of 1 to 200 characters and a
/// body of at most 2000, both without the blanks around them.
pub proof fn law_notices_are_bounded(severity: Seq<char>, title: Seq<char>, body: Seq<char>)
    ensures
        notice_acceptable(severity, title, body) <==> {
            &&& severity == "info"@ || severity == "warning"@ || severity == "critical"@
            &&& 1 <= trimmed(title).len() <= 200
            &&& trimmed(body).len() <= 2000
        },
{
}

/// A notice that the request may not make, or that is out of bounds, is refused.
/// Any other is recorded as it was written where it can be, and is refused for
/// want of its record otherwise.
pub proof fn law_notices_begin_where_they_can_be_recorded(
    outcome: Result<(), RequestSecurityError>,
    session: Session,
    release_hardened: bool,
    database: bool,
    form: NoticeForm,
    stage: NoticeStage,
)
    requires
        notice_begins(outcome, session, release_hardened, database, form, stage),
    ensures
        outcome is Err ==> notice_refused_with(stage, 403, "admin_request_rejected"@),
        outcome is Ok && !notice_acceptable(form.severity@, form.title@, form.body@) ==> notice_refused_with(
            stage,
            400,
            "invalid_notice"@,
        ),
        outcome is Ok && notice_acceptable(form.severity@, form.title@, form.body@) ==> {
            let lookup = session_lookup(Some(session), release_hardened);
            &&& !database || lookup is Impossible ==> notice_refused_with(stage, 503, "notice_write_failed"@)
            &&& database && lookup is Development ==> notice_recording(
                stage,
                form,
                session,
                RecordStage::Beginning(None),
            )
            &&& database && lookup is Subject ==> notice_recording(
                stage,
                form,
                session,
                RecordStage::LookingUp(lookup->Subject_0),
            )
        },
{
    if let Err(error) = outcome {
        law_rejected_requests_say_why(error);
    }
    law_refusals_say_what_failed("notice_write_failed"@, ""@, 0);
    law_refusals_say_what_failed("invalid_notice"@, ""@, 400);
}

/// Once its record is committed a notice is listed and answered: with the table and
/// the word that it was published for htmx, with a redirect else.
pub proof fn law_recorded_notices_are_answered(publication: Publication, event: NoticeEvent, next: NoticeStage)
    requires
        notice_follows(publication, event, next),
    ensures
        publication.stage matches NoticeStage::Recording(recording) ==> (recording.stage is Committing ==> {
            &&& event == NoticeEvent::Record(RecordEvent::Done) ==> next is Listing
            &&& event != NoticeEvent::Record(RecordEvent::<()>::Done) ==> notice_refused_with(
                next,
                503,
                "notice_write_failed"@,
            )
        }),
        publication.stage matches NoticeStage::Recording(recording) ==> (next matches NoticeStage::Recording(further)
            ==> further.operation == recording.operation && further.actor == recording.actor),
        publication.stage is Listing ==> {
            &&& event == NoticeEvent::Listed(true) && publication.htmx ==> (next matches NoticeStage::Table(message)
                && message@ == "Notice published."@)
            &&& event == NoticeEvent::Listed(true) && !publication.htmx ==> next is Redirect
            &&& event != NoticeEvent::Listed(true) ==> notice_refused_with(next, 503, "notices_read_failed"@)
        },
        publication.stage is Table || publication.stage is Redirect || publication.stage is Refused ==> next
            == publication.stage,
{
    law_refusals_say_what_failed("notice_write_failed"@, ""@, 0);
    law_refusals_say_what_failed("notices_read_failed"@, ""@, 0);
}

/// The audit entry of an action names the operator, whoever acts and the action;
/// of a scale the brain, the target and the operation's id; of a notice the
/// notice's id and its severity.
pub proof fn law_audit_entries_say_the_action(
    entry: AuditEntry,
    operation: Operation,
    actor: Option<Seq<char>>,
    operator_id: Option<u128>,
    id: Seq<char>,
)
    requires
        audits(entry, operation, actor, operator_id, id),
    ensures
        entry.actor_operator_id == operator_id,
        entry.actor.deep_view() == actor,
        operation matches Operation::Scale { target_nodes } ==> {
            &&& entry.action@ == "infra.scale.requested"@
            &&& entry.target.deep_view() == Some("fiducia-brain"@)
            &&& has_integer(entry.meta@, "target_nodes"@, target_nodes as int)
            &&& has_text(entry.meta@, "operation_id"@, id)
        },
        operation matches Operation::Notice { severity, title, body } ==> {
            &&& entry.action@ == "notice.published"@
            &&& entry.target.deep_view() == Some(id)
            &&& has_text(entry.meta@, "severity"@, severity@)
            &&& has_text(entry.meta@, "notice_id"@, id)
        },
{
    reveal_strlit("target_nodes");
    reveal_strlit("operation_id");
    reveal_strlit("severity");
    reveal_strlit("notice_id");
    assert("target_nodes"@.len() == 12 && "operation_id"@.len() == 12 && "severity"@.len() == 8);
    assert("notice_id"@.len() == 9);
    assert("target_nodes"@[0] == 't' && "operation_id"@[0] == 'o');
}

/// A recording that is done what it asks for goes from the operator to the
/// transaction, the row, the audit entry and the commit, and ends with the row
/// that was inserted; one step that is not done ends it with a failure.
pub proof fn law_undisturbed_recordings_complete<R>(stage: RecordStage<R>, event: RecordEvent<R>, next: RecordStage<R>)
    requires
        record_follows(stage, event, next),
    ensures
        stage is LookingUp ==> {
            &&& event matches RecordEvent::Registry(RegistryAnswer::Operator { id, role }) ==> {
                let admits = role@ == "owner"@ || role@ == "admin"@ || role@ == "operator"@;
                &&& admits ==> next == RecordStage::<R>::Beginning(Some(id))
                &&& !admits ==> next == RecordStage::<R>::Over(Err(RecordFailure::AuthorizationChanged))
            }
            &&& event matches RecordEvent::Registry(RegistryAnswer::Missing) ==> next == RecordStage::<R>::Over(
                Err(RecordFailure::AuthorizationChanged),
            )
            &&& !(event is Registry) ==> next == RecordStage::<R>::Over(Err(RecordFailure::Reported))
        },
        stage matches RecordStage::Beginning(operator_id) ==> {
            &&& event is Done ==> next == RecordStage::<R>::Inserting(operator_id)
            &&& !(event is Done) ==> next == RecordStage::<R>::Over(Err(RecordFailure::Reported))
        },
        stage matches RecordStage::Inserting(operator_id) ==> {
            &&& event matches RecordEvent::Inserted { id, row } ==> next == (RecordStage::Auditing {
                operator_id,
                id,
                row,
            })
            &&& !(event is Inserted) ==> next == RecordStage::<R>::Over(Err(RecordFailure::Reported))
        },
        stage matches RecordStage::Auditing { operator_id, id, row } ==> {
            &&& event is Done ==> next == RecordStage::Committing(row)
            &&& !(event is Done) ==> next == RecordStage::<R>::Over(Err(RecordFailure::Reported))
        },
        stage matches RecordStage::Committing(row) ==> {
            &&& event is Done ==> next == RecordStage::Over(Ok::<R, RecordFailure>(row))
            &&& !(event is Done) ==> next == RecordStage::<R>::Over(Err(RecordFailure::Reported))
        },
        stage is Over ==> next == stage,
{
}

/// A recording begins with the look for the operator, or at once where none is
/// needed; without a database or an operator to look for it is over.
pub proof fn law_recordings_begin_with_the_operator<R>(lookup: OperatorLookup, database: bool)
    ensures
        !database ==> record_start::<R>(lookup, database) == RecordStage::<R>::Over(Err(RecordFailure::Unavailable)),
        database && lookup is Development ==> record_start::<R>(lookup, database) == RecordStage::<R>::Beginning(None),
        database ==> (lookup matches OperatorLookup::Subject(subject) ==> record_start::<R>(lookup, database)
            == RecordStage::<R>::LookingUp(subject)),
        database && lookup is Impossible ==> record_start::<R>(lookup, database) == RecordStage::<R>::Over(
            Err(RecordFailure::AuthorizationChanged),
        ),
{
}

/// What a recording asks for at each stage: the operator of the very subject, then
/// the transaction, the row in that operator's name, the entry and the commit.
pub proof fn law_recordings_ask_for_their_stage<R>(recording: Recording<R>, action: RecordAction)
    requires
        record_asks(recording, action),
    ensures
        recording.stage matches RecordStage::LookingUp(subject) ==> action == RecordAction::LookUp(subject),
        recording.stage is Beginning ==> action is Begin,
        recording.stage matches RecordStage::Inserting(operator_id) ==> (action matches RecordAction::Insert {
            operator_id: named,
            operation,
        } && named == operator_id && *operation == recording.operation),
        recording.stage matches RecordStage::Auditing { operator_id, id, row } ==> (action
            matches RecordAction::InsertAudit(entry) && entry.actor_operator_id == operator_id
            && entry.actor.deep_view() == recording.actor.deep_view()),
        recording.stage is Committing ==> action is Commit,
        recording.stage is Over ==> action is Rest,
{
}

/// The audit log shows 50 entries unless a number from 1 to 100 is asked for.
pub proof fn law_audit_limits_hold(requested: Option<u16>)
    ensures
        requested is None ==> limit_in_force(requested) == 50,
        requested is Some && 1 <= requested->0 <= 100 ==> limit_in_force(requested) == requested->0,
        requested is Some && requested->0 < 1 ==> limit_in_force(requested) == 1,
        requested is Some && requested->0 > 100 ==> limit_in_force(requested) == 100,
{
}

/// A text, or null where there is none.
pub open spec fn text_or_null(text: Option<String>) -> JsonView {
    match text {
        Some(text) => JsonView::Text(text@),
        None => JsonView::Null,
    }
}

/// The reply on the audit log has one object per row, in the rows' order, and each
/// says the row's own fields under their names.
pub proof fn law_audit_replies_say_their_rows(rows: Seq<AuditLogRow>)
    ensures
        ({
            let reply = audit_reply_view(shown_all(rows));
            &&& reply.status == 200
            &&& reply.body.field("events"@) matches Some(JsonView::Array(items))
            &&& items.len() == rows.len()
            &&& forall|k: int| 0 <= k < items.len() ==> says_entry(#[trigger] items[k], rows[k])
        }),
{
    let reply = audit_reply_view(shown_all(rows));
    let items = reply.body.field("events"@)->0->Array_0;
    assert forall|k: int| 0 <= k < items.len() implies says_entry(#[trigger] items[k], rows[k]) by {
        assert(items[k] == event_json(shown(rows[k])));
        lemma_entry_fields(rows[k]);
    }
}

/// Whether an object says an audit row.
pub open spec fn says_entry(item: JsonView, row: AuditLogRow) -> bool {
    &&& has_text(item, "id"@, row.id@)
    &&& item.field("actor"@) == Some(text_or_null(row.actor))
    &&& has_text(item, "action"@, row.action@)
    &&& item.field("target"@) == Some(text_or_null(row.target))
    &&& item.field("request_id"@) == Some(text_or_null(row.request_id))
    &&& has_text(item, "created_at"@, row.created_at@)
}

/// The fields of an audit row.
proof fn lemma_entry_fields(row: AuditLogRow)
    ensures
        says_entry(event_json(shown(row)), row),
{
    reveal_strlit("id");
    reveal_strlit("actor");
    reveal_strlit("action");
    reveal_strlit("target");
    reveal_strlit("request_id");
    reveal_strlit("created_at");
    assert("id"@.len() == 2 && "actor"@.len() == 5 && "action"@.len() == 6 && "target"@.len() == 6);
    assert("request_id"@.len() == 10 && "created_at"@.len() == 10);
    assert("action"@[0] == 'a' && "target"@[0] == 't' && "request_id"@[0] == 'r');
    assert("created_at"@[0] == 'c');
}

/// An event that stands for a row says the row's own fields.
pub proof fn law_audit_events_are_of_their_row(event: AdminAuditEvent, row: AuditLogRow)
    requires
        event@ == shown(row),
    ensures
        event.id@ == row.id@,
        event.actor.deep_view() == row.actor.deep_view(),
        event.action@ == row.action@,
        event.target.deep_view() == row.target.deep_view(),
        event.request_id.deep_view() == row.request_id.deep_view(),
        event.created_at@ == row.created_at@,
{
}

/// Each failure of a service reads in its own way: a timeout before all else, a
/// status by its number, and no answer as unreachable.
pub proof fn law_failures_are_told_apart(status: u16, timeout: bool)
    ensures
        failure_class(UpstreamFailure::Known(UpstreamError::UntrustedAddress)) == "untrusted address"@,
        failure_class(UpstreamFailure::Known(UpstreamError::OversizedResponse)) == "oversized response"@,
        failure_class(UpstreamFailure::Known(UpstreamError::BadStatus(status))) == "bad status: "@ + decimal(
            status as nat,
        ),
        failure_class(UpstreamFailure::Transport { timeout: true, status: Some(status) }) == "timeout"@,
        failure_class(UpstreamFailure::Transport { timeout: true, status: None }) == "timeout"@,
        failure_class(UpstreamFailure::Transport { timeout: false, status: Some(status) }) == "bad status: "@
            + decimal(status as nat),
        failure_class(UpstreamFailure::Transport { timeout: false, status: None }) == "unreachable"@,
        failure_class(UpstreamFailure::Other) == "upstream error"@,
{
}

/// A service is asked at the path behind its base, with one slash between them
/// where the path begins with one.
pub proof fn law_service_paths_follow_the_base(base_url: Seq<char>, path: Seq<char>)
    ensures
        path.is_suffix_of(service_path(base_url, path)),
        ({
            let kept = service_path(base_url, path).len() - path.len();
            &&& 0 <= kept <= base_url.len()
            &&& service_path(base_url, path).take(kept) == base_url.take(kept)
            &&& forall|i: int| kept <= i < base_url.len() ==> #[trigger] base_url[i] == '/'
            &&& kept > 0 ==> base_url[kept - 1] != '/'
        }),
{
    crate::text_laws::law_trailing_characters_go(base_url, '/');
    let base = crate::text::without_trailing(base_url, '/');
    let url = service_path(base_url, path);
    assert(url.subrange(url.len() - path.len(), url.len() as int) =~= path);
    assert(url.take(base.len() as int) =~= base);
    assert(base_url.take(base.len() as int) =~= base);
}

/// At most 16 mebibytes of a service's answer are kept, a connection is pinged every
/// 15 seconds, and the latest 50 notices are listed.
pub proof fn law_limits_on_reading_hold()
    ensures
        MAX_UPSTREAM_BODY_BYTES == 16 * 1024 * 1024,
        ADMIN_WS_HEARTBEAT_SECS == 15,
        LISTED_NOTICES == 50,
{
}

/// What a connection is sent: a greeting with the service's name once it is open,
/// every broadcast frame as it is, and the word to read again where frames were
/// lost. Ticks are answered with a ping, the client's own words with nothing, and
/// every end with the end.
pub proof fn law_streams_send_what_happened(event: StreamEvent, action: StreamAction)
    requires
        streams(event, action),
    ensures
        event is Opened ==> exists|hello: JsonView|
            (action matches StreamAction::Send(text) && text@ == #[trigger] json_text(hello)) && has_text(
                hello,
                "event"@,
                "connected"@,
            ) && has_text(hello, "service"@, "fiducia-admin"@),
        event matches StreamEvent::Frame(frame) ==> (action matches StreamAction::Send(text) && text@ == frame@),
        event is Lagged ==> exists|resync: JsonView|
            (action matches StreamAction::Send(text) && text@ == #[trigger] json_text(resync)) && has_text(
                resync,
                "event"@,
                "fiducia:resync"@,
            ) && has_text(resync, "reason"@, "lagged"@),
        event is Tick <==> action is Ping,
        event is PeerMessage <==> action is Wait,
        event is BroadcastClosed || event is PeerClosed || event is PeerFailed || event is SendFailed <==> action
            is Stop,
        text_due(event) is Some <==> action is Send,
        action matches StreamAction::Send(text) ==> text_due(event) == Some(text@),
{
    reveal_strlit("event");
    reveal_strlit("service");
    reveal_strlit("reason");
    assert("event"@.len() == 5 && "service"@.len() == 7 && "reason"@.len() == 6);
    assert(json_text(crate::streaming::hello_view()) == json_text(crate::streaming::hello_view()));
    assert(json_text(crate::streaming::resync_view()) == json_text(crate::streaming::resync_view()));
    assert(has_text(crate::streaming::hello_view(), "service"@, "fiducia-admin"@));
    assert(has_text(crate::streaming::resync_view(), "reason"@, "lagged"@));
}

} // verus!
