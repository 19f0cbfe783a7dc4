//! Broadcast notices.
//!
//! A notice is checked against the bounds that its table enforces before it is
//! written, and written with its audit entry. This module decides each step; the
//! caller performs it and hands back what came of it.

use axum::http::HeaderMap;
use vstd::prelude::*;

use crate::admission::session_lookup;
use crate::guards::{form_outcome, is_htmx, require_form_security};
use crate::headers::header_texts;
use crate::records::{record_follows, record_start, Operation, RecordEvent, RecordStage, Recording};
use crate::reply::{
    dependency_error, dependency_view, error_reply, error_view, rejected_view, request_security_error, Reply,
    ReplyView,
};
use crate::request_security::{RequestSecurity, RequestSecurityError};
use crate::session::Session;
use crate::text::{same_text, trim, trimmed};

verus! {

/// The most characters a notice's title may have.
pub const MAX_NOTICE_TITLE_CHARS: usize = 200;

/// The most characters a notice's body may have.
pub const MAX_NOTICE_BODY_CHARS: usize = 2000;

/// How many notices are listed.
pub const LISTED_NOTICES: u64 = 50;

/// What a notice form carries.
pub struct NoticeForm {
    pub csrf_token: String,
    pub severity: String,
    pub title: String,
    pub body: String,
}

/// The severities a notice can have.
pub open spec fn is_severity(severity: Seq<char>) -> bool {
    severity == "info"@ || severity == "warning"@ || severity == "critical"@
}

/// Whether a notice can be published: white space around its title and body does
/// not count.
pub open spec fn notice_acceptable(severity: Seq<char>, title: Seq<char>, body: Seq<char>) -> bool {
    &&& is_severity(severity)
    &&& 0 < trimmed(title).len() <= MAX_NOTICE_TITLE_CHARS
    &&& trimmed(body).len() <= MAX_NOTICE_BODY_CHARS
}

/// The notice to publish, when it can be.
pub fn checked_notice(form: &NoticeForm) -> (operation: Option<Operation>)
    ensures
        operation is Some <==> notice_acceptable(form.severity@, form.title@, form.body@),
        operation matches Some(operation) ==> notice_of(operation, *form),
{
    let severity = form.severity.as_str();
    if !same_text(severity, "info") && !same_text(severity, "warning") && !same_text(severity, "critical") {
        return None;
    }
    let title = trim(form.title.as_str());
    let body = trim(form.body.as_str());
    let length: usize = title.unicode_len();
    if length == 0 || length > MAX_NOTICE_TITLE_CHARS || body.unicode_len() > MAX_NOTICE_BODY_CHARS {
        return None;
    }
    Some(
        Operation::Notice { severity: form.severity.clone(), title: title.to_owned(), body: body.to_owned() },
    )
}

/// Whether `operation` publishes what the form says.
pub open spec fn notice_of(operation: Operation, form: NoticeForm) -> bool {
    operation matches Operation::Notice { severity, title, body } && severity@ == form.severity@ && title@ == trimmed(
        form.title@,
    ) && body@ == trimmed(form.body@)
}

/// How far the publication of a notice has come: what it waits for.
pub enum NoticeStage {
    /// The durable record.
    Recording(Recording<()>),
    /// The list of notices.
    Listing,
    /// The table of notices, with the word that this one was published.
    Table(&'static str),
    /// See other: the notices page.
    Redirect,
    Refused(Reply),
}

/// What came of the last step.
pub enum NoticeEvent {
    Record(RecordEvent<()>),
    /// Whether the notices could be listed.
    Listed(bool),
}

/// One notice in publication.
pub struct Publication {
    /// Whether a fragment answers the request.
    pub htmx: bool,
    pub stage: NoticeStage,
}

/// Whether a publication was turned down with `reply`.
pub open spec fn notice_refused(stage: NoticeStage, reply: ReplyView) -> bool {
    stage matches NoticeStage::Refused(found) && found@ == reply
}

/// Whether `stage` is the right one for a publication whose recording has come
/// to `recording`.
pub open spec fn after_recording(recording: Recording<()>, stage: NoticeStage) -> bool {
    match recording.stage {
        RecordStage::Over(Ok(_)) => stage is Listing,
        RecordStage::Over(Err(_)) => notice_refused(stage, dependency_view("notice_write_failed"@)),
        _ => stage == NoticeStage::Recording(recording),
    }
}

/// Whether a stage is well-formed: a publication does not wait for a recording
/// that is over.
pub open spec fn notice_well_formed(stage: NoticeStage) -> bool {
    stage matches NoticeStage::Recording(recording) ==> !(recording.stage is Over)
}

/// Whether `stage` is where the publication of a notice starts: the request
/// checks come first, then the notice's own bounds, and then the record.
pub open spec fn notice_begins(
    outcome: Result<(), RequestSecurityError>,
    session: Session,
    release_hardened: bool,
    database: bool,
    form: NoticeForm,
    stage: NoticeStage,
) -> bool {
    if outcome is Err {
        notice_refused(stage, rejected_view(outcome->Err_0))
    } else if !notice_acceptable(form.severity@, form.title@, form.body@) {
        notice_refused(stage, error_view(400, "invalid_notice"@))
    } else {
        exists|recording: Recording<()>|
            {
                &&& notice_of(recording.operation, form)
                &&& recording.actor.deep_view() == session.email.deep_view()
                &&& recording.stage == record_start::<()>(session_lookup(Some(session), release_hardened), database)
                &&& #[trigger] after_recording(recording, stage)
            }
    }
}

/// The stage of a publication whose recording has come to `recording`.
fn recorded(recording: Recording<()>) -> (stage: NoticeStage)
    ensures
        after_recording(recording, stage),
        notice_well_formed(stage),
{
    match recording.stage {
        RecordStage::Over(Ok(_)) => NoticeStage::Listing,
        RecordStage::Over(Err(_)) => NoticeStage::Refused(dependency_error("notice_write_failed")),
        stage => NoticeStage::Recording(
            Recording { operation: recording.operation, actor: recording.actor, stage },
        ),
    }
}

/// Where an operator's notice starts.
pub fn create_notice(
    security: &RequestSecurity,
    headers: &HeaderMap,
    session: &Session,
    form: &NoticeForm,
    release_hardened: bool,
    database: bool,
) -> (publication: Publication)
    ensures
        publication.htmx == (header_texts(*headers, "hx-request"@).len() > 0),
        notice_begins(
            form_outcome(*security, *headers, *session, form.csrf_token@),
            *session,
            release_hardened,
            database,
            *form,
            publication.stage,
        ),
        notice_well_formed(publication.stage),
{
    let htmx: bool = is_htmx(headers);
    match require_form_security(headers, security, session, form.csrf_token.as_str()) {
        Ok(_) => {},
        Err(error) => return Publication { htmx, stage: NoticeStage::Refused(request_security_error(error)) },
    }
    match checked_notice(form) {
        Some(operation) => Publication {
            htmx,
            stage: recorded(Recording::begin_for(operation, session, release_hardened, database)),
        },
        None => Publication { htmx, stage: NoticeStage::Refused(error_reply(400, "invalid_notice")) },
    }
}

/// Whether `next` follows a publication's stage on `event`. An event that does
/// not answer the question counts as a failure of whoever was asked.
pub open spec fn notice_follows(publication: Publication, event: NoticeEvent, next: NoticeStage) -> bool {
    match publication.stage {
        NoticeStage::Recording(recording) => {
            let came = match event {
                NoticeEvent::Record(event) => event,
                _ => RecordEvent::Failed,
            };
            exists|further: Recording<()>|
                {
                    &&& further.operation == recording.operation
                    &&& further.actor == recording.actor
                    &&& record_follows(recording.stage, came, further.stage)
                    &&& #[trigger] after_recording(further, next)
                }
        },
        NoticeStage::Listing => if event == NoticeEvent::Listed(true) {
            if publication.htmx {
                next matches NoticeStage::Table(message) && message@ == "Notice published."@
            } else {
                next is Redirect
            }
        } else {
            notice_refused(next, dependency_view("notices_read_failed"@))
        },
        _ => next == publication.stage,
    }
}

impl Publication {
    /// The publication after its last step was done.
    pub fn advance(self, event: NoticeEvent) -> (next: Publication)
        ensures
            next.htmx == self.htmx,
            notice_follows(self, event, next.stage),
            notice_well_formed(next.stage),
    {
        let htmx: bool = self.htmx;
        let stage = match self.stage {
            NoticeStage::Recording(recording) => {
                let came = match event {
                    NoticeEvent::Record(event) => event,
                    _ => RecordEvent::Failed,
                };
                recorded(recording.advance(came))
            },
            NoticeStage::Listing => match event {
                NoticeEvent::Listed(true) => if htmx {
                    NoticeStage::Table("Notice published.")
                } else {
                    NoticeStage::Redirect
                },
                _ => NoticeStage::Refused(dependency_error("notices_read_failed")),
            },
            stage => stage,
        };
        Publication { htmx, stage }
    }
}

/// A notice counts as published only after it and its audit entry were
/// committed.
pub proof fn law_notices_wait_for_the_record(publication: Publication, event: NoticeEvent, next: NoticeStage)
    requires
        notice_well_formed(publication.stage),
        notice_follows(publication, event, next),
        next != publication.stage,
    ensures
        next is Table || next is Redirect ==> publication.stage is Listing,
        next is Listing ==> (publication.stage matches NoticeStage::Recording(recording) && recording.stage is Committing
            && event == NoticeEvent::Record(RecordEvent::Done)),
{
    if next is Listing {
        let recording = publication.stage->Recording_0;
        let came = match event {
            NoticeEvent::Record(event) => event,
            _ => RecordEvent::Failed,
        };
        let further = choose|further: Recording<()>|
            {
                &&& further.operation == recording.operation
                &&& further.actor == recording.actor
                &&& record_follows(recording.stage, came, further.stage)
                &&& #[trigger] after_recording(further, next)
            };
        assert(record_follows(recording.stage, came, further.stage));
    }
}

} // verus!
