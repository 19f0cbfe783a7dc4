//! The infrastructure page and the scale control.
//!
//! A scale is recorded with its audit entry before the brain hears of it. This
//! module decides each step; the caller performs it and hands back what came of
//! it.

use axum::http::HeaderMap;
use vstd::prelude::*;

use crate::admission::session_lookup;
use crate::guards::{form_outcome, is_htmx, require_form_security};
use crate::headers::header_texts;
use crate::json::{Json, JsonView, NumberView};
use crate::records::{record_follows, record_start, Operation, RecordEvent, RecordStage, Recording};
use crate::reply::{
    dependency_error, dependency_view, error_body_with, error_reply_with, rejected_view, request_security_error,
    upstream_error, upstream_view, Reply, ReplyView,
};
use crate::request_security::{RequestSecurity, RequestSecurityError};
use crate::session::Session;
use crate::streaming::InfraOperationsRow;
use crate::upstream::{scale_request, scale_request_view};

verus! {

/// The fewest nodes a scale may ask for: the replication baseline.
pub const MIN_SCALE_TARGET_NODES: u32 = 3;

/// Whether a scale may ask for that many nodes: not fewer than the baseline, and
/// no more than the record can hold.
pub open spec fn target_acceptable(target_nodes: u32) -> bool {
    MIN_SCALE_TARGET_NODES <= target_nodes <= i32::MAX
}

/// Whether a scale may ask for that many nodes.
pub fn scale_target_is_valid(target_nodes: u32) -> (valid: bool)
    ensures
        valid == target_acceptable(target_nodes),
{
    target_nodes >= MIN_SCALE_TARGET_NODES && target_nodes <= 0x7fff_ffff
}

/// What the infrastructure panel is made of, in the order it is read.
pub enum InfraReading {
    Nodes,
    Placement { nodes: Vec<Json> },
    Operations { nodes: Vec<Json>, placement: Vec<Json> },
    Ready { nodes: Vec<Json>, placement: Vec<Json>, operations: Vec<Json> },
    Failed(Reply),
}

/// What came of reading one part; nothing where it could not be read.
pub enum InfraPart {
    Nodes(Option<Vec<Json>>),
    Placement(Option<Vec<Json>>),
    Operations(Option<Vec<Json>>),
}

/// Whether a reading failed with `reply`.
pub open spec fn reading_fails(reading: InfraReading, reply: ReplyView) -> bool {
    reading matches InfraReading::Failed(found) && found@ == reply
}

/// Whether `next` follows `reading` once `part` came in. A part that was not
/// asked for counts as one that could not be read.
pub open spec fn reading_follows(reading: InfraReading, part: InfraPart, next: InfraReading) -> bool {
    match reading {
        InfraReading::Nodes => match part {
            InfraPart::Nodes(Some(nodes)) => next == (InfraReading::Placement { nodes }),
            _ => reading_fails(next, upstream_view("brain_nodes_failed"@, "fiducia-brain"@)),
        },
        InfraReading::Placement { nodes } => match part {
            InfraPart::Placement(Some(placement)) => next == (InfraReading::Operations { nodes, placement }),
            _ => reading_fails(next, upstream_view("brain_placement_failed"@, "fiducia-brain"@)),
        },
        InfraReading::Operations { nodes, placement } => match part {
            InfraPart::Operations(Some(operations)) => next == (InfraReading::Ready { nodes, placement, operations }),
            _ => reading_fails(next, dependency_view("infra_audit_read_failed"@)),
        },
        _ => next == reading,
    }
}

/// The reading once one more part came in.
pub fn read_part(reading: InfraReading, part: InfraPart) -> (next: InfraReading)
    ensures
        reading_follows(reading, part, next),
{
    match (reading, part) {
        (InfraReading::Nodes, InfraPart::Nodes(Some(nodes))) => InfraReading::Placement { nodes },
        (InfraReading::Nodes, _) => InfraReading::Failed(upstream_error("brain_nodes_failed", "fiducia-brain")),
        (InfraReading::Placement { nodes }, InfraPart::Placement(Some(placement))) => InfraReading::Operations {
            nodes,
            placement,
        },
        (InfraReading::Placement { nodes: _ }, _) => InfraReading::Failed(
            upstream_error("brain_placement_failed", "fiducia-brain"),
        ),
        (InfraReading::Operations { nodes, placement }, InfraPart::Operations(Some(operations))) => InfraReading::Ready {
            nodes,
            placement,
            operations,
        },
        (InfraReading::Operations { nodes: _, placement: _ }, _) => InfraReading::Failed(
            dependency_error("infra_audit_read_failed"),
        ),
        (reading, _) => reading,
    }
}

/// How far a scale has come: what it waits for.
pub enum ScaleStage {
    /// The durable record.
    Recording(Recording<InfraOperationsRow>),
    /// Telling every subscriber of the recorded row.
    Publishing(InfraOperationsRow),
    /// The brain's word on `body`.
    Scaling { body: Json },
    /// The panel that answers htmx.
    Reading(InfraReading),
    /// See other: the infrastructure page.
    Redirect,
    Refused(Reply),
}

/// What came of a scale's last step.
pub enum ScaleEvent {
    Record(RecordEvent<InfraOperationsRow>),
    /// The subscribers were told.
    Published,
    /// Whether the brain took the scale; nothing where it could not be asked.
    Brain(Option<bool>),
    Part(InfraPart),
}

/// One scale in progress.
pub struct Scale {
    pub target_nodes: u32,
    /// Whether a fragment answers the request.
    pub htmx: bool,
    pub stage: ScaleStage,
}

/// Whether a scale was turned down with `reply`.
pub open spec fn scale_refused(stage: ScaleStage, reply: ReplyView) -> bool {
    stage matches ScaleStage::Refused(found) && found@ == reply
}

/// The reply to a target that no scale may ask for.
pub open spec fn invalid_target_view() -> ReplyView {
    ReplyView {
        status: 400,
        body: error_body_with(
            "invalid_target_nodes"@,
            "min"@,
            JsonView::Number(NumberView::Integer(MIN_SCALE_TARGET_NODES as int)),
        ),
    }
}

/// Whether `stage` is the right one for a scale whose recording has come to
/// `recording`.
pub open spec fn after_recording(recording: Recording<InfraOperationsRow>, stage: ScaleStage) -> bool {
    match recording.stage {
        RecordStage::Over(Ok(row)) => stage == ScaleStage::Publishing(row),
        RecordStage::Over(Err(_)) => scale_refused(stage, dependency_view("infra_audit_write_failed"@)),
        _ => stage == ScaleStage::Recording(recording),
    }
}

/// Whether a stage is well-formed: a scale does not wait for a recording that is
/// over.
pub open spec fn scale_well_formed(stage: ScaleStage) -> bool {
    stage matches ScaleStage::Recording(recording) ==> !(recording.stage is Over)
}

/// Whether `stage` is where an operator's scale starts: the request checks come
/// first, then the target, and then the record.
pub open spec fn scale_begins(
    outcome: Result<(), RequestSecurityError>,
    session: Session,
    release_hardened: bool,
    database: bool,
    target_nodes: u32,
    stage: ScaleStage,
) -> bool {
    if outcome is Err {
        scale_refused(stage, rejected_view(outcome->Err_0))
    } else if !target_acceptable(target_nodes) {
        scale_refused(stage, invalid_target_view())
    } else {
        exists|recording: Recording<InfraOperationsRow>|
            {
                &&& recording.operation == (Operation::Scale { target_nodes: target_nodes as i32 })
                &&& recording.actor.deep_view() == session.email.deep_view()
                &&& recording.stage == record_start::<InfraOperationsRow>(
                    session_lookup(Some(session), release_hardened),
                    database,
                )
                &&& #[trigger] after_recording(recording, stage)
            }
    }
}

/// The stage of a scale whose recording has come to `recording`.
fn recorded(recording: Recording<InfraOperationsRow>) -> (stage: ScaleStage)
    ensures
        after_recording(recording, stage),
        scale_well_formed(stage),
{
    match recording.stage {
        RecordStage::Over(Ok(row)) => ScaleStage::Publishing(row),
        RecordStage::Over(Err(_)) => ScaleStage::Refused(dependency_error("infra_audit_write_failed")),
        stage => ScaleStage::Recording(
            Recording { operation: recording.operation, actor: recording.actor, stage },
        ),
    }
}

/// Where an operator's scale starts.
pub fn scale(
    security: &RequestSecurity,
    headers: &HeaderMap,
    session: &Session,
    csrf_token: &str,
    target_nodes: u32,
    release_hardened: bool,
    database: bool,
) -> (scale: Scale)
    ensures
        scale.target_nodes == target_nodes,
        scale.htmx == (header_texts(*headers, "hx-request"@).len() > 0),
        scale_begins(
            form_outcome(*security, *headers, *session, csrf_token@),
            *session,
            release_hardened,
            database,
            target_nodes,
            scale.stage,
        ),
        scale_well_formed(scale.stage),
{
    let htmx: bool = is_htmx(headers);
    match require_form_security(headers, security, session, csrf_token) {
        Ok(_) => {},
        Err(error) => return Scale { target_nodes, htmx, stage: ScaleStage::Refused(request_security_error(error)) },
    }
    if !scale_target_is_valid(target_nodes) {
        let reply = error_reply_with(
            400,
            "invalid_target_nodes",
            "min",
            Json::unsigned(MIN_SCALE_TARGET_NODES as u64),
        );
        return Scale { target_nodes, htmx, stage: ScaleStage::Refused(reply) };
    }
    let operation = Operation::Scale { target_nodes: target_nodes as i32 };
    let recording = Recording::begin_for(operation, session, release_hardened, database);
    Scale { target_nodes, htmx, stage: recorded(recording) }
}

/// Whether `next` follows a scale's stage on `event`. An event that does not
/// answer the question counts as a failure of whoever was asked.
pub open spec fn scale_follows(scale: Scale, event: ScaleEvent, next: ScaleStage) -> bool {
    match scale.stage {
        ScaleStage::Recording(recording) => {
            let came = match event {
                ScaleEvent::Record(event) => event,
                _ => RecordEvent::Failed,
            };
            exists|further: Recording<InfraOperationsRow>|
                {
                    &&& further.operation == recording.operation
                    &&& further.actor == recording.actor
                    &&& record_follows(recording.stage, came, further.stage)
                    &&& #[trigger] after_recording(further, next)
                }
        },
        ScaleStage::Publishing(_) => next matches ScaleStage::Scaling { body } && body@ == scale_request_view(
            scale.target_nodes,
        ),
        ScaleStage::Scaling { body: _ } => if event == ScaleEvent::Brain(Some(true)) {
            if scale.htmx {
                next == ScaleStage::Reading(InfraReading::Nodes)
            } else {
                next is Redirect
            }
        } else {
            scale_refused(next, upstream_view("brain_scale_failed"@, "fiducia-brain"@))
        },
        ScaleStage::Reading(reading) => match event {
            ScaleEvent::Part(part) => next matches ScaleStage::Reading(further) && reading_follows(
                reading,
                part,
                further,
            ),
            _ => next == scale.stage,
        },
        _ => next == scale.stage,
    }
}

impl Scale {
    /// The scale after its last step was done.
    pub fn advance(self, event: ScaleEvent) -> (next: Scale)
        ensures
            next.target_nodes == self.target_nodes,
            next.htmx == self.htmx,
            scale_follows(self, event, next.stage),
            scale_well_formed(next.stage),
    {
        let target_nodes: u32 = self.target_nodes;
        let htmx: bool = self.htmx;
        let stage = match self.stage {
            ScaleStage::Recording(recording) => {
                let came = match event {
                    ScaleEvent::Record(event) => event,
                    _ => RecordEvent::Failed,
                };
                recorded(recording.advance(came))
            },
            ScaleStage::Publishing(_) => ScaleStage::Scaling { body: scale_request(target_nodes) },
            ScaleStage::Scaling { body: _ } => match event {
                ScaleEvent::Brain(Some(true)) => if htmx {
                    ScaleStage::Reading(InfraReading::Nodes)
                } else {
                    ScaleStage::Redirect
                },
                _ => ScaleStage::Refused(upstream_error("brain_scale_failed", "fiducia-brain")),
            },
            ScaleStage::Reading(reading) => match event {
                ScaleEvent::Part(part) => ScaleStage::Reading(read_part(reading, part)),
                _ => ScaleStage::Reading(reading),
            },
            stage => stage,
        };
        Scale { target_nodes, htmx, stage }
    }
}

/// The brain is asked only after the scale and its audit entry were committed:
/// it is asked right after the recorded row was published, and a row is
/// published right after its recording was committed.
pub proof fn law_the_brain_waits_for_the_record(scale: Scale, event: ScaleEvent, next: ScaleStage)
    requires
        scale_well_formed(scale.stage),
        scale_follows(scale, event, next),
        next != scale.stage,
    ensures
        next is Scaling ==> scale.stage is Publishing,
        next matches ScaleStage::Publishing(row) ==> (scale.stage matches ScaleStage::Recording(recording)
            && recording.stage == RecordStage::Committing(row) && event == ScaleEvent::Record(RecordEvent::Done)),
{
    if next is Publishing {
        let recording = scale.stage->Recording_0;
        let came = match event {
            ScaleEvent::Record(event) => event,
            _ => RecordEvent::Failed,
        };
        let further = choose|further: Recording<InfraOperationsRow>|
            {
                &&& further.operation == recording.operation
                &&& further.actor == recording.actor
                &&& record_follows(recording.stage, came, further.stage)
                &&& #[trigger] after_recording(further, next)
            };
        assert(record_follows(recording.stage, came, further.stage));
    }
}

/// A scale never starts at the brain, and never without the checks.
pub proof fn law_scales_start_with_a_record(
    outcome: Result<(), RequestSecurityError>,
    session: Session,
    release_hardened: bool,
    database: bool,
    target_nodes: u32,
    stage: ScaleStage,
)
    requires
        scale_begins(outcome, session, release_hardened, database, target_nodes, stage),
    ensures
        stage is Recording || stage is Refused,
        stage is Recording ==> outcome is Ok && target_acceptable(target_nodes),
{
}

} // verus!
