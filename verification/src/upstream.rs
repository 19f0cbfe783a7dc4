//! Calls to the other services: the URLs and bodies that are sent, and what is
//! made of the answers.
//!
//! Dependency failures are never presented as empty, successful data, and what
//! is shown of a failure never holds a URL.

use vstd::prelude::*;

use crate::json::{flag_field, items_field, items_view, Fields, Json, JsonView, NumberView};
use crate::fingerprint::append_bytes;
use crate::text::{decimal, decimal_text, trim_end_matches, without_trailing};

verus! {

/// The largest upstream body that is kept, in bytes.
pub const MAX_UPSTREAM_BODY_BYTES: usize = 16_777_216;

/// How many replicas a shard has.
pub const REPLICATION_FACTOR: u64 = 3;

/// An upstream failure, reduced to a short class without a URL.
#[derive(Clone, Copy, Debug, Eq, PartialEq, Structural)]
pub enum UpstreamError {
    /// The target host is not trusted with the cluster secret: it was not asked.
    UntrustedAddress,
    /// The body was longer than is kept, and reading it was given up.
    OversizedResponse,
    /// The status was not a success. A redirect is never followed.
    BadStatus(u16),
}

impl UpstreamError {
    /// What is shown of the failure.
    pub open spec fn class(self) -> Seq<char> {
        match self {
            UpstreamError::UntrustedAddress => "untrusted address"@,
            UpstreamError::OversizedResponse => "oversized response"@,
            UpstreamError::BadStatus(code) => "bad status: "@ + decimal(code as nat),
        }
    }

    /// What is shown of the failure.
    pub fn text(self) -> (text: String)
        ensures
            text@ == self.class(),
    {
        match self {
            UpstreamError::UntrustedAddress => "untrusted address".to_owned(),
            UpstreamError::OversizedResponse => "oversized response".to_owned(),
            UpstreamError::BadStatus(code) => {
                let mut text = "bad status: ".to_owned();
                text.append(decimal_text(code as u64).as_str());
                text
            },
        }
    }
}

/// What is known of a call that failed.
#[derive(Clone, Copy, Debug, Eq, PartialEq, Structural)]
pub enum UpstreamFailure {
    /// A failure of this service's own making.
    Known(UpstreamError),
    /// The HTTP client failed: by a timeout, or with a status, or otherwise.
    Transport { timeout: bool, status: Option<u16> },
    /// Anything else.
    Other,
}

/// What is shown of a transport failure.
pub open spec fn transport_class_text(timeout: bool, status: Option<u16>) -> Seq<char> {
    if timeout {
        "timeout"@
    } else {
        match status {
            Some(code) => "bad status: "@ + decimal(code as nat),
            None => "unreachable"@,
        }
    }
}

/// What is shown of a transport failure: a refused connection, a DNS failure and
/// a broken body are all one class.
pub fn reqwest_class(timeout: bool, status: Option<u16>) -> (text: String)
    ensures
        text@ == transport_class_text(timeout, status),
{
    if timeout {
        "timeout".to_owned()
    } else {
        match status {
            Some(code) => UpstreamError::BadStatus(code).text(),
            None => "unreachable".to_owned(),
        }
    }
}

/// What is shown of a failure.
pub open spec fn failure_class(failure: UpstreamFailure) -> Seq<char> {
    match failure {
        UpstreamFailure::Known(error) => error.class(),
        UpstreamFailure::Transport { timeout, status } => transport_class_text(timeout, status),
        UpstreamFailure::Other => "upstream error"@,
    }
}

/// What is shown of a failure: one of a few short classes, never a URL.
pub fn error_class(failure: UpstreamFailure) -> (text: String)
    ensures
        text@ == failure_class(failure),
{
    match failure {
        UpstreamFailure::Known(error) => error.text(),
        UpstreamFailure::Transport { timeout, status } => reqwest_class(timeout, status),
        UpstreamFailure::Other => "upstream error".to_owned(),
    }
}

/// What is shown of a failure depends on no URL: it is one of six texts, two of
/// them up to a status.
pub proof fn law_failures_show_no_url(failure: UpstreamFailure)
    ensures
        ({
            let text = failure_class(failure);
            ||| text == "untrusted address"@
            ||| text == "oversized response"@
            ||| text == "timeout"@
            ||| text == "unreachable"@
            ||| text == "upstream error"@
            ||| exists|code: u16| text == "bad status: "@ + #[trigger] decimal(code as nat)
        }),
{
    match failure {
        UpstreamFailure::Known(UpstreamError::BadStatus(code)) => {
            assert(failure_class(failure) == "bad status: "@ + decimal(code as nat));
        },
        UpstreamFailure::Transport { timeout, status: Some(code) } => {
            if !timeout {
                assert(failure_class(failure) == "bad status: "@ + decimal(code as nat));
            }
        },
        _ => {},
    }
}

/// Whether an answer's body is read at all: only after a success.
pub fn check_status(status: u16) -> (result: Result<(), UpstreamError>)
    ensures
        result == (if 200 <= status <= 299 {
            Ok::<(), UpstreamError>(())
        } else {
            Err(UpstreamError::BadStatus(status))
        }),
{
    if 200 <= status && status <= 299 {
        Ok(())
    } else {
        Err(UpstreamError::BadStatus(status))
    }
}

/// Takes in one more piece of a body, unless it grows too long. The announced
/// length is not trusted: the limit holds as bytes arrive.
pub fn append_chunk(buffer: &mut Vec<u8>, chunk: &[u8]) -> (result: Result<(), UpstreamError>)
    ensures
        match result {
            Ok(_) => {
                &&& old(buffer)@.len() + chunk@.len() <= MAX_UPSTREAM_BODY_BYTES
                &&& final(buffer)@ == old(buffer)@ + chunk@
            },
            Err(error) => {
                &&& old(buffer)@.len() + chunk@.len() > MAX_UPSTREAM_BODY_BYTES
                &&& error == UpstreamError::OversizedResponse
                &&& final(buffer)@ == old(buffer)@
            },
        },
{
    if buffer.len() > MAX_UPSTREAM_BODY_BYTES || chunk.len() > MAX_UPSTREAM_BODY_BYTES - buffer.len() {
        return Err(UpstreamError::OversizedResponse);
    }
    append_bytes(buffer, chunk);
    Ok(())
}

/// A path under a service's base URL.
pub open spec fn service_path(base_url: Seq<char>, path: Seq<char>) -> Seq<char> {
    without_trailing(base_url, '/') + path
}

/// A path under a service's base URL.
pub fn service_url(base_url: &str, path: &str) -> (url: String)
    ensures
        url@ == service_path(base_url@, path@),
{
    let mut url = trim_end_matches(base_url, '/').to_owned();
    url.append(path);
    url
}

/// The array that a field of an answer holds; nothing when the answer omits it.
pub fn json_array<'a>(value: &'a Json, field: &str) -> (items: Result<&'a Vec<Json>, String>)
    ensures
        match items {
            Ok(items) => items_field(value@, field@) == Some(items_view(items@)),
            Err(error) => items_field(value@, field@) is None && error@ == "upstream response omitted "@ + field@
                + " array"@,
        },
{
    match value.get_array(field) {
        Some(items) => Ok(items),
        None => {
            let mut error = "upstream response omitted ".to_owned();
            error.append(field);
            error.append(" array");
            Err(error)
        },
    }
}

/// What is sent to set the scale.
pub open spec fn scale_request_view(target_nodes: u32) -> JsonView {
    JsonView::Object(
        Map::empty().insert("target_nodes"@, JsonView::Number(NumberView::Integer(target_nodes as int))).insert(
            "replication_factor"@,
            JsonView::Number(NumberView::Integer(REPLICATION_FACTOR as int)),
        ),
    )
}

/// What is sent to set the scale: the replication factor is fixed.
pub fn scale_request(target_nodes: u32) -> (body: Json)
    ensures
        body@ == scale_request_view(target_nodes),
{
    Fields::new().with("target_nodes", Json::unsigned(target_nodes as u64)).with(
        "replication_factor",
        Json::unsigned(REPLICATION_FACTOR),
    ).done()
}

/// Whether the brain took the scale; an error when it does not say.
pub fn scale_answer(value: &Json) -> (ok: Result<bool, String>)
    ensures
        match ok {
            Ok(ok) => flag_field(value@, "ok"@) == Some(ok),
            Err(error) => flag_field(value@, "ok"@) is None && error@ == "brain response omitted ok"@,
        },
{
    match value.get_bool("ok") {
        Some(ok) => Ok(ok),
        None => Err("brain response omitted ok".to_owned()),
    }
}

} // verus!
