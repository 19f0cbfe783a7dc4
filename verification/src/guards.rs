//! The request checks that stand in front of every mutation.

use axum::http::HeaderMap;
use vstd::prelude::*;

use crate::headers::{header_texts, texts};
use crate::request_security::{
    csrf_accepts, law_only_the_exact_origin_passes, RequestSecurity, RequestSecurityError,
};
use crate::session::{binding, cookie_value, csrf_cookie_name, login_csrf_cookie_name, single_cookie, Session};

verus! {

/// The outcome of a CSRF check.
pub open spec fn csrf_outcome(security: RequestSecurity, credential: Seq<char>, provided: Seq<char>) -> Result<
    (),
    RequestSecurityError,
> {
    if csrf_accepts(security.secret(), credential, provided) {
        Ok(())
    } else {
        Err(RequestSecurityError::InvalidCsrfToken)
    }
}

/// The outcome of the checks on a form post: same origin, then the session's own
/// CSRF token.
pub open spec fn form_outcome(security: RequestSecurity, headers: HeaderMap, session: Session, provided: Seq<char>) -> Result<
    (),
    RequestSecurityError,
> {
    if security.same_origin_outcome(headers) is Err {
        security.same_origin_outcome(headers)
    } else {
        csrf_outcome(security, session.credential(), provided)
    }
}

/// The text of the first value under a name; nothing when it is absent or not
/// readable.
pub open spec fn first_text(values: Seq<Option<Seq<char>>>) -> Seq<char> {
    if values.len() > 0 && values[0] is Some {
        values[0]->0
    } else {
        Seq::empty()
    }
}

/// The outcome of the checks on a sync write: a browser session must come from
/// the same origin and carry its CSRF token in a header; an explicit bearer
/// caller must only address the right host.
pub open spec fn sync_write_outcome(security: RequestSecurity, headers: HeaderMap, session: Session) -> Result<
    (),
    RequestSecurityError,
> {
    if session.browser() {
        form_outcome(security, headers, session, first_text(header_texts(headers, "x-fiducia-csrf"@)))
    } else {
        security.api_outcome(headers)
    }
}

/// The outcome of the checks on a login post: same origin, then a token for the
/// nonce in the login cookie.
pub open spec fn login_outcome(
    security: RequestSecurity,
    headers: HeaderMap,
    release_hardened: bool,
    provided: Seq<char>,
) -> Result<(), RequestSecurityError> {
    if security.same_origin_outcome(headers) is Err {
        security.same_origin_outcome(headers)
    } else {
        match single_cookie(header_texts(headers, "cookie"@), csrf_cookie_name(release_hardened)) {
            Some(nonce) => csrf_outcome(security, binding("login"@, nonce), provided),
            None => Err(RequestSecurityError::InvalidCsrfToken),
        }
    }
}

/// The checks on a form post of a signed-in session.
pub fn require_form_security(
    headers: &HeaderMap,
    security: &RequestSecurity,
    session: &Session,
    provided_csrf: &str,
) -> (result: Result<(), RequestSecurityError>)
    ensures
        result == form_outcome(*security, *headers, *session, provided_csrf@),
{
    match security.require_same_origin(headers) {
        Ok(_) => security.verify_csrf_token(session.csrf_binding(), provided_csrf),
        Err(error) => Err(error),
    }
}

/// The text of the first value under a name; nothing when it is absent or not
/// readable.
fn first_of(values: &Vec<Option<String>>) -> (text: String)
    ensures
        text@ == first_text(values.deep_view()),
{
    if values.len() > 0 {
        assert(values.deep_view()[0] == values@[0].deep_view());
        match &values[0] {
            Some(text) => text.clone(),
            None => String::new(),
        }
    } else {
        String::new()
    }
}

/// The checks on a sync write.
pub fn require_sync_write_security(headers: &HeaderMap, security: &RequestSecurity, session: &Session) -> (result:
    Result<(), RequestSecurityError>)
    ensures
        result == sync_write_outcome(*security, *headers, *session),
{
    if session.is_browser_session() {
        let provided = first_of(&texts(headers, "x-fiducia-csrf"));
        require_form_security(headers, security, session, provided.as_str())
    } else {
        security.require_api_host(headers)
    }
}

/// What a login form's token is bound to.
pub fn login_binding(nonce: &str) -> (text: String)
    ensures
        text@ == binding("login"@, nonce@),
{
    let mut text = "login".to_owned();
    text.append("\0");
    text.append(nonce);
    text
}

/// The checks on a login post.
pub fn require_login_security(
    headers: &HeaderMap,
    security: &RequestSecurity,
    release_hardened: bool,
    provided_csrf: &str,
) -> (result: Result<(), RequestSecurityError>)
    ensures
        result == login_outcome(*security, *headers, release_hardened, provided_csrf@),
{
    match security.require_same_origin(headers) {
        Ok(_) => {},
        Err(error) => return Err(error),
    }
    match cookie_value(headers, login_csrf_cookie_name(release_hardened)) {
        Some(nonce) => security.verify_csrf_token(login_binding(nonce.as_str()).as_str(), provided_csrf),
        None => Err(RequestSecurityError::InvalidCsrfToken),
    }
}

/// Whether the request came from htmx, so that a fragment answers it.
pub fn is_htmx(headers: &HeaderMap) -> (result: bool)
    ensures
        result == (header_texts(*headers, "hx-request"@).len() > 0),
{
    texts(headers, "hx-request").len() > 0
}

/// No mutation passes without the exact configured host, whichever of the three
/// checks stands in front of it.
pub proof fn law_every_mutation_requires_the_host(
    security: RequestSecurity,
    headers: HeaderMap,
    session: Session,
    release_hardened: bool,
    provided: Seq<char>,
)
    requires
        security.host_outcome(headers) is Err,
    ensures
        form_outcome(security, headers, session, provided) is Err,
        sync_write_outcome(security, headers, session) is Err,
        login_outcome(security, headers, release_hardened, provided) is Err,
{
}

/// Nothing that a page of another origin can send passes as a browser's, sibling
/// subdomains included: no form, no login, no browser sync write and no socket
/// handshake. A bearer caller's sync write is refused too once it names another
/// origin.
pub proof fn law_other_origins_never_pass(
    security: RequestSecurity,
    headers: HeaderMap,
    session: Session,
    release_hardened: bool,
    provided: Seq<char>,
)
    requires
        header_texts(headers, "origin"@) != seq![Some(security.origin())],
    ensures
        security.same_origin_outcome(headers) is Err,
        form_outcome(security, headers, session, provided) is Err,
        login_outcome(security, headers, release_hardened, provided) is Err,
        session.browser() ==> sync_write_outcome(security, headers, session) is Err,
        header_texts(headers, "origin"@).len() > 0 ==> sync_write_outcome(security, headers, session) is Err,
{
    law_only_the_exact_origin_passes(
        security.origin(),
        header_texts(headers, "origin"@),
        header_texts(headers, "sec-fetch-site"@),
    );
}

/// A browser session's mutation passes only from the exact origin and with a
/// token for its own credential.
pub proof fn law_browser_mutations_need_origin_and_token(
    security: RequestSecurity,
    headers: HeaderMap,
    session: Session,
)
    requires
        session.browser(),
        sync_write_outcome(security, headers, session) is Ok,
    ensures
        security.same_origin_outcome(headers) is Ok,
        csrf_accepts(
            security.secret(),
            session.credential(),
            first_text(header_texts(headers, "x-fiducia-csrf"@)),
        ),
{
}

} // verus!
