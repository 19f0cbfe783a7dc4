//! What the admin pages show.
//!
//! Every page is given as the texts, tags and links that stand in it; laying them
//! out as HTML is the template's work, which escapes whatever it is given.

use vstd::prelude::*;

use crate::audit::AdminAuditEvent;
use crate::json::{signed_field, text_field, Json, JsonView};
use crate::session::Session;
use crate::text::{signed_decimal, signed_decimal_text};

verus! {

/// What stands in for something absent.
pub open spec fn dash() -> Seq<char> {
    "—"@
}

/// A small label: how it is styled, what it says, and what it says when pointed
/// at.
pub struct Badge {
    pub class: &'static str,
    pub text: String,
    pub title: Option<String>,
}

/// The contents of a [`Badge`].
pub struct BadgeView {
    pub class: Seq<char>,
    pub text: Seq<char>,
    pub title: Option<Seq<char>>,
}

impl View for Badge {
    type V = BadgeView;

    open spec fn view(&self) -> BadgeView {
        BadgeView { class: self.class@, text: self.text@, title: self.title.deep_view() }
    }
}

/// The contents of badges, in order.
pub open spec fn badge_views(badges: Seq<Badge>) -> Seq<BadgeView> {
    badges.map_values(|badge: Badge| badge@)
}

/// A badge without a title.
pub open spec fn plain_badge(class: Seq<char>, text: Seq<char>) -> BadgeView {
    BadgeView { class, text, title: None }
}

/// A badge with a title.
pub open spec fn titled_badge(class: Seq<char>, text: Seq<char>, title: Seq<char>) -> BadgeView {
    BadgeView { class, text, title: Some(title) }
}

/// A badge without a title.
pub(crate) fn badge(class: &'static str, text: &str) -> (badge: Badge)
    ensures
        badge@ == plain_badge(class@, text@),
{
    Badge { class, text: text.to_owned(), title: None }
}

/// A badge with a title.
pub(crate) fn badge_titled(class: &'static str, text: &str, title: &str) -> (badge: Badge)
    ensures
        badge@ == titled_badge(class@, text@, title@),
{
    Badge { class, text: text.to_owned(), title: Some(title.to_owned()) }
}

/// Who is signed in, as shown: the email, else the user id.
pub open spec fn identity_label(session: Session) -> Seq<char> {
    match session.email.deep_view() {
        Some(email) => email,
        None => session.user_id@,
    }
}

/// Who is signed in, as shown.
pub fn ident(session: &Session) -> (label: String)
    ensures
        label@ == identity_label(*session),
{
    match &session.email {
        Some(email) => email.clone(),
        None => session.user_id.clone(),
    }
}

/// A link of the navigation.
pub struct NavLink {
    pub href: &'static str,
    pub label: &'static str,
}

/// A link of the navigation.
pub open spec fn link(href: Seq<char>, label: Seq<char>) -> (Seq<char>, Seq<char>) {
    (href, label)
}

/// The links of the navigation: the operator pages for whoever is signed in, and
/// the login page for anyone else.
pub open spec fn navigation(signed_in: bool) -> Seq<(Seq<char>, Seq<char>)> {
    if signed_in {
        seq![
            link("/"@, "Dashboard"@),
            link("/infra"@, "Infra"@),
            link("/cluster"@, "Cluster"@),
            link("/notices"@, "Notices"@),
            link("/audit"@, "Audit"@),
        ]
    } else {
        seq![link("/login"@, "Sign in"@)]
    }
}

/// What surrounds every page.
pub struct PageFrame {
    pub title: String,
    /// The token that the page's scripts send with their writes.
    pub csrf: Option<String>,
    pub links: Vec<NavLink>,
    /// Who is signed in.
    pub who: Option<String>,
    /// The token of the sign-out form, where there is one.
    pub sign_out: Option<String>,
}

/// The links of a frame.
pub open spec fn link_views(links: Seq<NavLink>) -> Seq<(Seq<char>, Seq<char>)> {
    links.map_values(|found: NavLink| link(found.href@, found.label@))
}

/// Whether `frame` surrounds a page of that title. Only a page that has both a
/// session and a token offers to sign out.
pub open spec fn frames(
    frame: PageFrame,
    title: Seq<char>,
    who: Option<Seq<char>>,
    csrf: Option<Seq<char>>,
) -> bool {
    &&& frame.title@ == title + " · Fiducia Admin"@
    &&& frame.csrf.deep_view() == csrf
    &&& link_views(frame.links@) == navigation(who is Some)
    &&& frame.who.deep_view() == (match who {
        Some(who) => Some(who + " · operator"@),
        None => None,
    })
    &&& frame.sign_out.deep_view() == (if who is Some {
        csrf
    } else {
        None
    })
}

/// The label of a session that may be absent.
pub open spec fn label_of(session: Option<&Session>) -> Option<Seq<char>> {
    match session {
        Some(session) => Some(identity_label(*session)),
        None => None,
    }
}

/// What surrounds a page.
pub fn page(title: &str, session: Option<&Session>, csrf_token: Option<&str>) -> (frame: PageFrame)
    ensures
        frames(frame, title@, label_of(session), csrf_token.deep_view()),
{
    let mut full = title.to_owned();
    full.append(" · Fiducia Admin");
    let csrf = match csrf_token {
        Some(token) => Some(token.to_owned()),
        None => None,
    };
    let mut links: Vec<NavLink> = Vec::new();
    match session {
        Some(session) => {
            links.push(NavLink { href: "/", label: "Dashboard" });
            links.push(NavLink { href: "/infra", label: "Infra" });
            links.push(NavLink { href: "/cluster", label: "Cluster" });
            links.push(NavLink { href: "/notices", label: "Notices" });
            links.push(NavLink { href: "/audit", label: "Audit" });
            assert(link_views(links@) =~= navigation(true));
            let mut who = ident(session);
            who.append(" · operator");
            let sign_out = match csrf_token {
                Some(token) => Some(token.to_owned()),
                None => None,
            };
            PageFrame { title: full, csrf, links, who: Some(who), sign_out }
        },
        None => {
            links.push(NavLink { href: "/login", label: "Sign in" });
            assert(link_views(links@) =~= navigation(false));
            PageFrame { title: full, csrf, links, who: None, sign_out: None }
        },
    }
}

/// What surrounds the page that says an admin role is required. A login that
/// failed has a verified identity but no browser session: without a token the
/// page does not pretend that there is one.
pub fn forbidden(session: &Session, csrf_token: Option<&str>) -> (frame: PageFrame)
    ensures
        frames(
            frame,
            "Forbidden"@,
            if csrf_token is Some {
                Some(identity_label(*session))
            } else {
                None
            },
            csrf_token.deep_view(),
        ),
{
    match csrf_token {
        Some(_) => page("Forbidden", Some(session), csrf_token),
        None => page("Forbidden", None, csrf_token),
    }
}

/// Whether the login page mentions the development sign-in: never in release
/// builds, which do not have it.
pub fn shows_development_hint(release_hardened: bool) -> (shows: bool)
    ensures
        shows == !release_hardened,
{
    !release_hardened
}

/// A text, or a dash in place of an absent one.
pub open spec fn or_dash(text: Option<Seq<char>>) -> Seq<char> {
    match text {
        Some(text) => text,
        None => dash(),
    }
}

/// A text, or a dash in place of an absent one.
pub(crate) fn text_or_dash(text: Option<&str>) -> (shown: String)
    ensures
        shown@ == or_dash(text.deep_view()),
{
    match text {
        Some(text) => text.to_owned(),
        None => "—".to_owned(),
    }
}

/// A copy of an optional text, or a dash.
pub(crate) fn copy_or_dash(text: &Option<String>) -> (shown: String)
    ensures
        shown@ == or_dash(text.deep_view()),
{
    match text {
        Some(text) => text.clone(),
        None => "—".to_owned(),
    }
}

/// A row of the audit page.
pub struct AuditRow {
    pub time: String,
    pub actor: String,
    pub action: String,
    pub target: String,
    pub request: String,
}

/// Whether `row` shows an audit event.
pub open spec fn shows_event(row: AuditRow, event: AdminAuditEvent) -> bool {
    &&& row.time@ == event.created_at@
    &&& row.actor@ == (match event.actor.deep_view() {
        Some(actor) => actor,
        None => "system"@,
    })
    &&& row.action@ == event.action@
    &&& row.target@ == or_dash(event.target.deep_view())
    &&& row.request@ == or_dash(event.request_id.deep_view())
}

/// The rows of the audit page, in the events' order.
pub fn audit_rows(events: &[AdminAuditEvent]) -> (rows: Vec<AuditRow>)
    ensures
        rows@.len() == events@.len(),
        forall|i: int| 0 <= i < events@.len() ==> shows_event(#[trigger] rows@[i], events@[i]),
{
    let mut rows: Vec<AuditRow> = Vec::new();
    let mut i: usize = 0;
    while i < events.len()
        invariant
            i <= events@.len(),
            rows@.len() == i,
            forall|j: int| 0 <= j < i ==> shows_event(#[trigger] rows@[j], events@[j]),
        decreases events@.len() - i,
    {
        let event = &events[i];
        let actor = match &event.actor {
            Some(actor) => actor.clone(),
            None => "system".to_owned(),
        };
        rows.push(
            AuditRow {
                time: event.created_at.clone(),
                actor,
                action: event.action.clone(),
                target: copy_or_dash(&event.target),
                request: copy_or_dash(&event.request_id),
            },
        );
        i = i + 1;
    }
    rows
}

/// A notice, as it is kept.
pub struct Notice {
    pub severity: String,
    pub title: String,
    pub body: String,
    pub active: bool,
    /// From when on it holds, in RFC 3339 form.
    pub starts_at: String,
}

/// A row of the notices page.
pub struct NoticeRow {
    pub published: String,
    pub severity: String,
    pub title: String,
    /// The notice's text, where it has any.
    pub body: Option<String>,
    pub state: &'static str,
}

/// Whether `row` shows a notice.
pub open spec fn shows_notice(row: NoticeRow, notice: Notice) -> bool {
    &&& row.published@ == notice.starts_at@
    &&& row.severity@ == notice.severity@
    &&& row.title@ == notice.title@
    &&& row.body.deep_view() == (if notice.body@.len() == 0 {
        None
    } else {
        Some(notice.body@)
    })
    &&& row.state@ == (if notice.active {
        "active"@
    } else {
        "inactive"@
    })
}

/// The rows of the notices page, in the notices' order.
pub fn notice_rows(notices: &[Notice]) -> (rows: Vec<NoticeRow>)
    ensures
        rows@.len() == notices@.len(),
        forall|i: int| 0 <= i < notices@.len() ==> shows_notice(#[trigger] rows@[i], notices@[i]),
{
    let mut rows: Vec<NoticeRow> = Vec::new();
    let mut i: usize = 0;
    while i < notices.len()
        invariant
            i <= notices@.len(),
            rows@.len() == i,
            forall|j: int| 0 <= j < i ==> shows_notice(#[trigger] rows@[j], notices@[j]),
        decreases notices@.len() - i,
    {
        let notice = &notices[i];
        let body = if notice.body.as_str().unicode_len() == 0 {
            None
        } else {
            Some(notice.body.clone())
        };
        rows.push(
            NoticeRow {
                published: notice.starts_at.clone(),
                severity: notice.severity.clone(),
                title: notice.title.clone(),
                body,
                state: if notice.active { "active" } else { "inactive" },
            },
        );
        i = i + 1;
    }
    rows
}

/// A row of the recent operations.
pub struct OperationRow {
    pub action: String,
    pub target_nodes: String,
    pub status: String,
    pub version: i64,
    pub time: String,
}

/// Whether `row` shows an operation.
pub open spec fn shows_operation(row: OperationRow, operation: JsonView) -> bool {
    &&& row.action@ == or_dash(text_field(operation, "action"@))
    &&& row.target_nodes@ == (match signed_field(operation, "target_nodes"@) {
        Some(n) => signed_decimal(n),
        None => dash(),
    })
    &&& row.status@ == or_dash(text_field(operation, "status"@))
    &&& row.version == (match signed_field(operation, "version"@) {
        Some(version) => version,
        None => 0,
    })
    &&& row.time@ == or_dash(text_field(operation, "created_at"@))
}

/// When an operation was recorded, as shown.
pub fn op_when(operation: &Json) -> (time: String)
    ensures
        time@ == or_dash(text_field(operation@, "created_at"@)),
{
    text_or_dash(operation.get_str("created_at"))
}

/// The rows of the recent operations, in their order.
pub fn operation_rows(operations: &[Json]) -> (rows: Vec<OperationRow>)
    ensures
        rows@.len() == operations@.len(),
        forall|i: int| 0 <= i < operations@.len() ==> shows_operation(#[trigger] rows@[i], operations@[i]@),
{
    let mut rows: Vec<OperationRow> = Vec::new();
    let mut i: usize = 0;
    while i < operations.len()
        invariant
            i <= operations@.len(),
            rows@.len() == i,
            forall|j: int| 0 <= j < i ==> shows_operation(#[trigger] rows@[j], operations@[j]@),
        decreases operations@.len() - i,
    {
        let operation = &operations[i];
        let target_nodes = match operation.get_i64("target_nodes") {
            Some(n) => signed_decimal_text(n),
            None => "—".to_owned(),
        };
        let version: i64 = match operation.get_i64("version") {
            Some(version) => version,
            None => 0,
        };
        rows.push(
            OperationRow {
                action: text_or_dash(operation.get_str("action")),
                target_nodes,
                status: text_or_dash(operation.get_str("status")),
                version,
                time: op_when(operation),
            },
        );
        i = i + 1;
    }
    rows
}

/// The infrastructure panel.
pub struct InfraPanel {
    /// How many nodes were asked for just now.
    pub applied: Option<u32>,
    pub nodes: usize,
    pub shards: usize,
    pub operations: Vec<OperationRow>,
}

/// The infrastructure panel.
pub fn infra_panel(nodes: &[Json], placement: &[Json], recent: &[Json], applied: Option<u32>) -> (panel: InfraPanel)
    ensures
        panel.applied == applied,
        panel.nodes == nodes@.len(),
        panel.shards == placement@.len(),
        panel.operations@.len() == recent@.len(),
        forall|i: int| 0 <= i < recent@.len() ==> shows_operation(#[trigger] panel.operations@[i], recent@[i]@),
{
    InfraPanel { applied, nodes: nodes.len(), shards: placement.len(), operations: operation_rows(recent) }
}

/// A page offers to sign out only with a session, and shows who is signed in
/// exactly then.
pub proof fn law_sign_out_needs_a_session(
    frame: PageFrame,
    title: Seq<char>,
    who: Option<Seq<char>>,
    csrf: Option<Seq<char>>,
)
    requires
        frames(frame, title, who, csrf),
    ensures
        frame.sign_out is Some ==> frame.who is Some && csrf is Some,
        frame.who is Some <==> who is Some,
{
}

} // verus!
