//! The operator audit feed.
//!
//! The log keeps diagnostic metadata with every entry. Neither the page nor the
//! API shows it.

use vstd::prelude::*;

use crate::json::{items_view, lemma_items_view, optional_text_view, Fields, Json, JsonView};
use crate::reply::{Reply, ReplyView};

verus! {

/// How many entries of the audit feed to read: 50 unless asked otherwise, from
/// one to a hundred.
pub open spec fn limit_in_force(requested: Option<u16>) -> int {
    match requested {
        None => 50,
        Some(requested) => if requested < 1 {
            1
        } else if requested > 100 {
            100
        } else {
            requested as int
        },
    }
}

/// How many entries of the audit feed to read.
pub fn audit_limit(requested: Option<u16>) -> (limit: u64)
    ensures
        limit == limit_in_force(requested),
{
    let requested: u64 = match requested {
        Some(requested) => requested as u64,
        None => 50,
    };
    if requested < 1 {
        1
    } else if requested > 100 {
        100
    } else {
        requested
    }
}

/// An entry of the audit log, as it is kept.
pub struct AuditLogRow {
    pub id: String,
    pub actor: Option<String>,
    pub action: String,
    pub target: Option<String>,
    pub request_id: Option<String>,
    /// What is kept for forensics.
    pub meta: Json,
    /// When it was written, in RFC 3339 form.
    pub created_at: String,
}

/// An entry of the audit log, as operators see it.
pub struct AdminAuditEvent {
    pub id: String,
    pub actor: Option<String>,
    pub action: String,
    pub target: Option<String>,
    pub request_id: Option<String>,
    pub created_at: String,
}

/// The contents of an [`AdminAuditEvent`].
pub struct AuditEventView {
    pub id: Seq<char>,
    pub actor: Option<Seq<char>>,
    pub action: Seq<char>,
    pub target: Option<Seq<char>>,
    pub request_id: Option<Seq<char>>,
    pub created_at: Seq<char>,
}

impl View for AdminAuditEvent {
    type V = AuditEventView;

    open spec fn view(&self) -> AuditEventView {
        AuditEventView {
            id: self.id@,
            actor: self.actor.deep_view(),
            action: self.action@,
            target: self.target.deep_view(),
            request_id: self.request_id.deep_view(),
            created_at: self.created_at@,
        }
    }
}

/// What operators see of an entry.
pub open spec fn shown(row: AuditLogRow) -> AuditEventView {
    AuditEventView {
        id: row.id@,
        actor: row.actor.deep_view(),
        action: row.action@,
        target: row.target.deep_view(),
        request_id: row.request_id.deep_view(),
        created_at: row.created_at@,
    }
}

/// A copy of an optional text.
fn copied(text: &Option<String>) -> (copy: Option<String>)
    ensures
        copy.deep_view() == text.deep_view(),
{
    match text {
        Some(text) => Some(text.clone()),
        None => None,
    }
}

/// What operators see of an entry.
pub fn admin_audit_event(row: &AuditLogRow) -> (event: AdminAuditEvent)
    ensures
        event@ == shown(*row),
{
    AdminAuditEvent {
        id: row.id.clone(),
        actor: copied(&row.actor),
        action: row.action.clone(),
        target: copied(&row.target),
        request_id: copied(&row.request_id),
        created_at: row.created_at.clone(),
    }
}

/// An entry as JSON.
pub open spec fn event_json(event: AuditEventView) -> JsonView {
    JsonView::Object(
        Map::empty().insert("id"@, JsonView::Text(event.id)).insert("actor"@, optional_text_view(event.actor)).insert(
            "action"@,
            JsonView::Text(event.action),
        ).insert("target"@, optional_text_view(event.target)).insert(
            "request_id"@,
            optional_text_view(event.request_id),
        ).insert("created_at"@, JsonView::Text(event.created_at)),
    )
}

/// The entries that operators see.
pub open spec fn shown_all(rows: Seq<AuditLogRow>) -> Seq<AuditEventView> {
    rows.map_values(|row: AuditLogRow| shown(row))
}

/// The reply that lists entries.
pub open spec fn audit_reply_view(events: Seq<AuditEventView>) -> ReplyView {
    ReplyView {
        status: 200,
        body: JsonView::Object(
            Map::empty().insert(
                "events"@,
                JsonView::Array(events.map_values(|event: AuditEventView| event_json(event))),
            ),
        ),
    }
}

/// The reply that lists the entries of the audit feed, newest first as they were
/// read.
pub fn audit_reply(rows: &[AuditLogRow]) -> (reply: Reply)
    ensures
        reply@ == audit_reply_view(shown_all(rows@)),
{
    let mut events: Vec<Json> = Vec::new();
    let mut i: usize = 0;
    while i < rows.len()
        invariant
            i <= rows@.len(),
            events@.len() == i,
            forall|j: int| 0 <= j < i ==> (#[trigger] events@[j])@ == event_json(shown(rows@[j])),
        decreases rows@.len() - i,
    {
        let event = admin_audit_event(&rows[i]);
        events.push(
            Fields::new().with("id", Json::text(event.id.as_str())).with("actor", Json::optional_text(&event.actor)).with(
                "action",
                Json::text(event.action.as_str()),
            ).with("target", Json::optional_text(&event.target)).with(
                "request_id",
                Json::optional_text(&event.request_id),
            ).with("created_at", Json::text(event.created_at.as_str())).done(),
        );
        i = i + 1;
    }
    proof {
        lemma_items_view(events@);
        assert(items_view(events@) =~= shown_all(rows@).map_values(|event: AuditEventView| event_json(event)));
    }
    Reply { status: 200, body: Fields::new().with("events", Json::Array(events)).done() }
}

/// What is kept for forensics has no bearing on what operators see.
pub proof fn law_metadata_is_never_shown(rows: Seq<AuditLogRow>, others: Seq<AuditLogRow>)
    requires
        rows.len() == others.len(),
        forall|i: int|
            0 <= i < rows.len() ==> {
                &&& (#[trigger] rows[i]).id == others[i].id
                &&& rows[i].actor == others[i].actor
                &&& rows[i].action == others[i].action
                &&& rows[i].target == others[i].target
                &&& rows[i].request_id == others[i].request_id
                &&& rows[i].created_at == others[i].created_at
            },
    ensures
        audit_reply_view(shown_all(rows)) == audit_reply_view(shown_all(others)),
{
    assert(shown_all(rows) =~= shown_all(others)) by {
        assert forall|i: int| 0 <= i < rows.len() implies shown_all(rows)[i] == shown_all(others)[i] by {
            assert(rows[i].id == others[i].id);
        }
    }
}

} // verus!
