//! JSON replies of the admin plane.

use vstd::prelude::*;

use crate::json::{Fields, Json, JsonView};
use crate::request_security::RequestSecurityError;

verus! {

/// A JSON reply: its HTTP status and its body.
pub struct Reply {
    pub status: u16,
    pub body: Json,
}

/// The status and body of a [`Reply`].
pub struct ReplyView {
    pub status: u16,
    pub body: JsonView,
}

impl View for Reply {
    type V = ReplyView;

    open spec fn view(&self) -> ReplyView {
        ReplyView { status: self.status, body: self.body@ }
    }
}

/// `{"error": code}`.
pub open spec fn error_body(code: Seq<char>) -> JsonView {
    JsonView::Object(Map::empty().insert("error"@, JsonView::Text(code)))
}

/// `{"error": code, name: value}`.
pub open spec fn error_body_with(code: Seq<char>, name: Seq<char>, value: JsonView) -> JsonView {
    JsonView::Object(Map::empty().insert("error"@, JsonView::Text(code)).insert(name, value))
}

/// A reply that carries nothing but an error code.
pub open spec fn error_view(status: u16, code: Seq<char>) -> ReplyView {
    ReplyView { status, body: error_body(code) }
}

/// The reply to a request that failed the request checks.
pub open spec fn rejected_view(error: RequestSecurityError) -> ReplyView {
    ReplyView {
        status: 403,
        body: error_body_with("admin_request_rejected"@, "reason"@, JsonView::Text(error.reason())),
    }
}

/// The reply when the admin database failed.
pub open spec fn dependency_view(code: Seq<char>) -> ReplyView {
    ReplyView { status: 503, body: error_body_with(code, "dependency"@, JsonView::Text("postgres"@)) }
}

/// The reply when an upstream service failed.
pub open spec fn upstream_view(code: Seq<char>, dependency: Seq<char>) -> ReplyView {
    ReplyView { status: 502, body: error_body_with(code, "dependency"@, JsonView::Text(dependency)) }
}

/// A reply that carries nothing but an error code.
pub fn error_reply(status: u16, code: &str) -> (reply: Reply)
    ensures
        reply@ == error_view(status, code@),
{
    Reply { status, body: Fields::new().with("error", Json::text(code)).done() }
}

/// A reply that carries an error code and one thing more.
pub fn error_reply_with(status: u16, code: &str, name: &str, value: Json) -> (reply: Reply)
    ensures
        reply@ == (ReplyView { status, body: error_body_with(code@, name@, value@) }),
{
    Reply { status, body: Fields::new().with("error", Json::text(code)).with(name, value).done() }
}

/// The reply to a request that failed the request checks: 403 with the reason.
pub fn request_security_error(error: RequestSecurityError) -> (reply: Reply)
    ensures
        reply@ == rejected_view(error),
{
    error_reply_with(403, "admin_request_rejected", "reason", Json::text(error.code()))
}

/// The reply when the admin database failed: 503, without what went wrong.
pub fn dependency_error(code: &str) -> (reply: Reply)
    ensures
        reply@ == dependency_view(code@),
{
    error_reply_with(503, code, "dependency", Json::text("postgres"))
}

/// The reply when an upstream service failed: 502, without what went wrong.
pub fn upstream_error(code: &str, dependency: &str) -> (reply: Reply)
    ensures
        reply@ == upstream_view(code@, dependency@),
{
    error_reply_with(502, code, "dependency", Json::text(dependency))
}

/// The name this service goes by.
pub open spec fn service_name() -> Seq<char> {
    "fiducia-admin"@
}

/// The health probe's reply.
pub fn health() -> (reply: Reply)
    ensures
        reply.status == 200,
        reply.body@ == JsonView::Object(
            Map::empty().insert("status"@, JsonView::Text("ok"@)).insert("service"@, JsonView::Text(service_name())),
        ),
{
    Reply {
        status: 200,
        body: Fields::new().with("status", Json::text("ok")).with("service", Json::text("fiducia-admin")).done(),
    }
}

} // verus!
