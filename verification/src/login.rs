//! Signing in and out.
//!
//! A login post passes the request checks, exchanges the password for a provider
//! token, has Shared Auth verify that token and upgrade it, and looks the operator
//! up in the registry. Only then is the upgraded session handed to the browser.
//! This module decides each step; the caller performs it and hands back what came
//! of it.

use axum::http::HeaderMap;
use vstd::prelude::*;

use crate::admission::{
    admitted_operator, enabled_operator, lookup_for, operator_lookup, OperatorLookup, RegistryAnswer,
};
use crate::cookies::{
    clear_login_csrf_cookie, clear_session_cookie, cookie_text, make_login_csrf_cookie, make_session_cookie,
    CookiePolicy,
};
use crate::guards::{
    form_outcome, login_binding, login_outcome, require_form_security, require_login_security,
};
use crate::headers::header_texts;
use crate::json::{Fields, Json, JsonView};
use crate::reply::{
    dependency_error, dependency_view, rejected_view, request_security_error, upstream_error, upstream_view, Reply,
};
use crate::request_security::{is_csrf_token, RequestSecurity};
use crate::session::{
    binding, cookie_header, csrf_cookie_name, law_own_cookies_read_back, session_cookie_name, single_cookie, Session,
    VerifiedSession,
};
use crate::sync::{hex_digit, uuid_number};
use crate::text::{trim, trim_end_matches, trimmed, without_trailing};

verus! {

/// `uuid::Uuid::new_v4().simple()`: a fresh random identifier as 32 lower-case
/// hexadecimal digits. Which identifier it is rests on chance.
#[verifier::external_body]
fn fresh_identifier() -> (text: String)
    ensures
        text@.len() == 32,
        forall|i: int| 0 <= i < text@.len() ==> hex_digit(#[trigger] text@[i]),
{
    uuid::Uuid::new_v4().simple().to_string()
}

/// The login page: what it says, the token of its form, and the cookie that
/// carries the nonce the token is bound to.
pub struct LoginPage {
    pub message: Option<String>,
    pub csrf: String,
    pub cookie: String,
}

/// Whether `page` is the login page for a nonce.
pub open spec fn is_login_page(
    security: RequestSecurity,
    policy: CookiePolicy,
    nonce: Seq<char>,
    message: Option<Seq<char>>,
    page: LoginPage,
) -> bool {
    &&& page.message.deep_view() == message
    &&& is_csrf_token(security.secret(), binding("login"@, nonce), page.csrf@)
    &&& page.cookie@ == cookie_text(csrf_cookie_name(policy.release_hardened), nonce, "; Max-Age=600"@, policy)
}

/// The login page for a nonce.
pub fn login_page_for(security: &RequestSecurity, policy: CookiePolicy, nonce: &str, message: Option<&str>) -> (page:
    LoginPage)
    ensures
        is_login_page(*security, policy, nonce@, message.deep_view(), page),
{
    let csrf = security.csrf_token(login_binding(nonce).as_str());
    let message = match message {
        Some(message) => Some(message.to_owned()),
        None => None,
    };
    LoginPage { message, csrf, cookie: make_login_csrf_cookie(nonce, policy) }
}

/// Whether a text can be a login nonce: two fresh identifiers.
pub open spec fn is_nonce(text: Seq<char>) -> bool {
    text.len() == 64 && forall|i: int| 0 <= i < text.len() ==> hex_digit(#[trigger] text[i])
}

/// Whether a text is a nonce as the login page draws it: two identifiers, one
/// behind the other, each of them just drawn.
pub closed spec fn is_drawn(nonce: Seq<char>) -> bool {
    exists|first: String, second: String|
        {
            &&& #[trigger] call_ensures(fresh_identifier, (), first)
            &&& #[trigger] call_ensures(fresh_identifier, (), second)
            &&& nonce == first@ + second@
        }
}

/// The login page, with a fresh nonce. Which nonce it is rests on chance.
pub fn login_page(security: &RequestSecurity, policy: CookiePolicy, message: Option<&str>) -> (page: LoginPage)
    ensures
        exists|nonce: Seq<char>|
            {
                &&& is_drawn(nonce)
                &&& is_nonce(nonce)
                &&& #[trigger] is_login_page(*security, policy, nonce, message.deep_view(), page)
            },
{
    let first = fresh_identifier();
    let second = fresh_identifier();
    let mut nonce = first.clone();
    nonce.append(second.as_str());
    let page = login_page_for(security, policy, nonce.as_str(), message);
    proof {
        assert(call_ensures(fresh_identifier, (), first) && call_ensures(fresh_identifier, (), second));
        assert(is_drawn(nonce@));
        assert(is_nonce(nonce@));
    }
    page
}

/// What a login post carries.
pub struct LoginForm {
    pub csrf_token: String,
    pub email: String,
    pub password: String,
}

/// How a login is answered.
pub enum LoginAnswer {
    Json(Reply),
    /// The login page again, with a message.
    Form(&'static str),
    /// The page that says an admin role is required.
    Forbidden(Session),
    /// See other: the dashboard, with these cookies set.
    SignedIn(Vec<String>),
}

/// What a login waits for.
pub enum LoginStage {
    /// The provider's answer to `body` posted to `url`.
    Exchanging { url: String, body: Json },
    /// What Shared Auth makes of the provider's token.
    Verifying { token: String },
    /// What the registry says of the subject.
    LookingUp { subject: u128, session: Session, upgrade: String },
    Answered(LoginAnswer),
}

/// What came of a login's request to the outside.
pub enum LoginEvent {
    /// The provider was not reached, or its answer could not be read.
    ExchangeFailed,
    /// The provider answered without success.
    ExchangeRefused,
    /// The provider's token.
    Token(String),
    /// The session that Shared Auth verified, if any.
    Verified(Option<VerifiedSession>),
    Registry(RegistryAnswer),
}

/// Where a password is exchanged for a token.
pub open spec fn exchange_url(supabase_url: Seq<char>) -> Seq<char> {
    without_trailing(supabase_url, '/') + "/auth/v1/token?grant_type=password"@
}

/// What is posted to exchange a password.
pub open spec fn exchange_body(email: Seq<char>, password: Seq<char>) -> JsonView {
    JsonView::Object(
        Map::empty().insert("email"@, JsonView::Text(email)).insert("password"@, JsonView::Text(password)),
    )
}

/// Whether `answer` is a JSON reply that reads `reply`.
pub open spec fn answers(answer: LoginAnswer, reply: crate::reply::ReplyView) -> bool {
    answer matches LoginAnswer::Json(found) && found@ == reply
}

/// Whether `stage` shows the login page again with `message`.
pub open spec fn asks_again(stage: LoginStage, message: Seq<char>) -> bool {
    stage matches LoginStage::Answered(LoginAnswer::Form(found)) && found@ == message
}

/// Whether `stage` is where a login post starts: the request checks come first,
/// then both fields must be filled in, and only then is the provider asked.
pub open spec fn login_begins(
    outcome: Result<(), crate::request_security::RequestSecurityError>,
    form: LoginForm,
    supabase_url: Seq<char>,
    stage: LoginStage,
) -> bool {
    if outcome is Err {
        stage matches LoginStage::Answered(answer) && answers(answer, rejected_view(outcome->Err_0))
    } else if trimmed(form.email@).len() == 0 || form.password@.len() == 0 {
        asks_again(stage, "Email and password are required."@)
    } else {
        stage matches LoginStage::Exchanging { url, body } && url@ == exchange_url(supabase_url) && body@
            == exchange_body(trimmed(form.email@), form.password@)
    }
}

/// Where a login post starts.
pub fn login_submit(
    security: &RequestSecurity,
    headers: &HeaderMap,
    release_hardened: bool,
    form: &LoginForm,
    supabase_url: &str,
) -> (stage: LoginStage)
    ensures
        login_begins(
            login_outcome(*security, *headers, release_hardened, form.csrf_token@),
            *form,
            supabase_url@,
            stage,
        ),
{
    match require_login_security(headers, security, release_hardened, form.csrf_token.as_str()) {
        Ok(_) => {},
        Err(error) => return LoginStage::Answered(LoginAnswer::Json(request_security_error(error))),
    }
    let email = trim(form.email.as_str());
    if email.unicode_len() == 0 || form.password.as_str().unicode_len() == 0 {
        return LoginStage::Answered(LoginAnswer::Form("Email and password are required."));
    }
    let mut url = trim_end_matches(supabase_url, '/').to_owned();
    url.append("/auth/v1/token?grant_type=password");
    let body = Fields::new().with("email", Json::text(email)).with("password", Json::text(form.password.as_str())).done();
    LoginStage::Exchanging { url, body }
}

/// The cookies of a successful login: the upgraded session, and the login nonce
/// taken back.
pub open spec fn sign_in_cookies(upgrade: Seq<char>, policy: CookiePolicy) -> Seq<Seq<char>> {
    seq![
        cookie_text(session_cookie_name(policy.release_hardened), upgrade, ""@, policy),
        cookie_text(csrf_cookie_name(policy.release_hardened), ""@, "; Max-Age=0"@, policy),
    ]
}

/// Whether `stage` hands the browser the upgraded session.
pub open spec fn signs_in(stage: LoginStage, upgrade: Seq<char>, policy: CookiePolicy) -> bool {
    stage matches LoginStage::Answered(LoginAnswer::SignedIn(cookies)) && cookies.deep_view() == sign_in_cookies(
        upgrade,
        policy,
    )
}

/// Whether `next` follows Shared Auth's verification, for a session whose
/// operator is found by `lookup`.
pub open spec fn verification_settles(
    verified: Option<VerifiedSession>,
    lookup: OperatorLookup,
    policy: CookiePolicy,
    next: LoginStage,
) -> bool {
    match verified {
        None => asks_again(next, "Shared Auth could not authorize this admin identity."@),
        Some(verified) => match verified.session_upgrade {
            None => next matches LoginStage::Answered(answer) && answers(
                answer,
                dependency_view("shared_auth_session_upgrade_missing"@),
            ),
            Some(upgrade) => if !verified.session.is_admin || lookup is Impossible {
                next == LoginStage::Answered(LoginAnswer::Forbidden(verified.session))
            } else {
                match lookup {
                    OperatorLookup::Subject(subject) => next == (LoginStage::LookingUp {
                        subject,
                        session: verified.session,
                        upgrade,
                    }),
                    _ => signs_in(next, upgrade@, policy),
                }
            },
        },
    }
}

/// The answer that hands the browser the upgraded session.
fn sign_in(upgrade: &str, policy: CookiePolicy) -> (stage: LoginStage)
    ensures
        signs_in(stage, upgrade@, policy),
{
    let mut cookies: Vec<String> = Vec::new();
    cookies.push(make_session_cookie(upgrade, policy));
    cookies.push(clear_login_csrf_cookie(policy));
    assert(cookies.deep_view() =~= sign_in_cookies(upgrade@, policy));
    LoginStage::Answered(LoginAnswer::SignedIn(cookies))
}

/// What follows Shared Auth's verification, for a session whose operator is
/// found by `lookup`.
pub fn settle_verification(verified: Option<VerifiedSession>, lookup: OperatorLookup, policy: CookiePolicy) -> (next:
    LoginStage)
    ensures
        verification_settles(verified, lookup, policy, next),
{
    let verified = match verified {
        Some(verified) => verified,
        None => return LoginStage::Answered(
            LoginAnswer::Form("Shared Auth could not authorize this admin identity."),
        ),
    };
    let upgrade = match verified.session_upgrade {
        Some(upgrade) => upgrade,
        None => return LoginStage::Answered(
            LoginAnswer::Json(dependency_error("shared_auth_session_upgrade_missing")),
        ),
    };
    if !verified.session.is_admin {
        return LoginStage::Answered(LoginAnswer::Forbidden(verified.session));
    }
    match lookup {
        OperatorLookup::Development => sign_in(upgrade.as_str(), policy),
        OperatorLookup::Subject(subject) => LoginStage::LookingUp { subject, session: verified.session, upgrade },
        OperatorLookup::Impossible => LoginStage::Answered(LoginAnswer::Forbidden(verified.session)),
    }
}

/// How the operator of a verified session is found.
pub open spec fn verified_lookup(verified: Option<VerifiedSession>, release_hardened: bool) -> OperatorLookup {
    match verified {
        Some(verified) => lookup_for(
            verified.session.user_id@,
            uuid_number(verified.session.user_id@),
            release_hardened,
        ),
        None => OperatorLookup::Impossible,
    }
}

/// Whether `next` follows `stage` on `event`. An event that does not answer the
/// question counts as a failure of whoever was asked.
pub open spec fn login_follows(stage: LoginStage, event: LoginEvent, policy: CookiePolicy, next: LoginStage) -> bool {
    match stage {
        LoginStage::Exchanging { url: _, body: _ } => match event {
            LoginEvent::Token(token) => next == (LoginStage::Verifying { token }),
            LoginEvent::ExchangeRefused => asks_again(next, "Supabase rejected those credentials."@),
            _ => next matches LoginStage::Answered(answer) && answers(
                answer,
                upstream_view("supabase_login_failed"@, "supabase"@),
            ),
        },
        LoginStage::Verifying { token: _ } => {
            let verified = match event {
                LoginEvent::Verified(verified) => verified,
                _ => None,
            };
            verification_settles(verified, verified_lookup(verified, policy.release_hardened), policy, next)
        },
        LoginStage::LookingUp { subject: _, session, upgrade } => match event {
            LoginEvent::Registry(RegistryAnswer::Operator { id, role }) => if admitted_operator(
                RegistryAnswer::Operator { id, role },
            ) is Some {
                signs_in(next, upgrade@, policy)
            } else {
                next == LoginStage::Answered(LoginAnswer::Forbidden(session))
            },
            LoginEvent::Registry(RegistryAnswer::Missing) => next == LoginStage::Answered(
                LoginAnswer::Forbidden(session),
            ),
            _ => next matches LoginStage::Answered(answer) && answers(
                answer,
                dependency_view("operator_registry_unavailable"@),
            ),
        },
        LoginStage::Answered(_) => next == stage,
    }
}

/// The login after the outside did what it was asked.
pub fn advance_login(stage: LoginStage, event: LoginEvent, policy: CookiePolicy) -> (next: LoginStage)
    ensures
        login_follows(stage, event, policy, next),
{
    match stage {
        LoginStage::Exchanging { url: _, body: _ } => match event {
            LoginEvent::Token(token) => LoginStage::Verifying { token },
            LoginEvent::ExchangeRefused => LoginStage::Answered(
                LoginAnswer::Form("Supabase rejected those credentials."),
            ),
            _ => LoginStage::Answered(LoginAnswer::Json(upstream_error("supabase_login_failed", "supabase"))),
        },
        LoginStage::Verifying { token: _ } => {
            let verified = match event {
                LoginEvent::Verified(verified) => verified,
                _ => None,
            };
            let lookup = match &verified {
                Some(verified) => operator_lookup(&verified.session, policy.release_hardened),
                None => OperatorLookup::Impossible,
            };
            settle_verification(verified, lookup, policy)
        },
        LoginStage::LookingUp { subject: _, session, upgrade } => match event {
            LoginEvent::Registry(answer) => match &answer {
                RegistryAnswer::Failed => LoginStage::Answered(
                    LoginAnswer::Json(dependency_error("operator_registry_unavailable")),
                ),
                _ => match enabled_operator(&answer) {
                    Some(_) => sign_in(upgrade.as_str(), policy),
                    None => LoginStage::Answered(LoginAnswer::Forbidden(session)),
                },
            },
            _ => LoginStage::Answered(LoginAnswer::Json(dependency_error("operator_registry_unavailable"))),
        },
        LoginStage::Answered(answer) => LoginStage::Answered(answer),
    }
}

/// A release build signs nobody in before the registry admitted the operator, and
/// then only with the session that Shared Auth upgraded.
pub proof fn law_sign_in_waits_for_the_registry(
    stage: LoginStage,
    event: LoginEvent,
    policy: CookiePolicy,
    next: LoginStage,
)
    requires
        policy.release_hardened,
        login_follows(stage, event, policy, next),
        !(stage is Answered),
        next matches LoginStage::Answered(LoginAnswer::SignedIn(_)),
    ensures
        event matches LoginEvent::Registry(answer) && admitted_operator(answer) is Some,
        stage matches LoginStage::LookingUp { subject, session, upgrade } && signs_in(next, upgrade@, policy),
{
}

/// Every login that reaches the registry carries a session that Shared Auth
/// verified with the admin role, and its own upgrade.
pub proof fn law_lookups_carry_verified_admins(
    stage: LoginStage,
    event: LoginEvent,
    policy: CookiePolicy,
    next: LoginStage,
)
    requires
        login_follows(stage, event, policy, next),
        !(stage is Answered),
        next is LookingUp,
    ensures
        event matches LoginEvent::Verified(Some(verified)) && verified.session.is_admin && verified.session_upgrade
            == Some(next->upgrade) && next->session == verified.session && Some(next->subject) == uuid_number(
            verified.session.user_id@,
        ),
{
}

/// No login post that fails the request checks reaches the provider.
pub proof fn law_rejected_logins_ask_nobody(
    outcome: Result<(), crate::request_security::RequestSecurityError>,
    form: LoginForm,
    supabase_url: Seq<char>,
    stage: LoginStage,
)
    requires
        login_begins(outcome, form, supabase_url, stage),
        outcome is Err,
    ensures
        stage is Answered,
{
}

/// A login page's token passes the login checks of a same-origin post that
/// brings the page's nonce back in its cookie.
pub proof fn law_login_pages_are_accepted(
    security: RequestSecurity,
    headers: HeaderMap,
    policy: CookiePolicy,
    nonce: Seq<char>,
    message: Option<Seq<char>>,
    page: LoginPage,
)
    requires
        is_login_page(security, policy, nonce, message, page),
        security.same_origin_outcome(headers) is Ok,
        single_cookie(header_texts(headers, "cookie"@), csrf_cookie_name(policy.release_hardened)) == Some(nonce),
    ensures
        login_outcome(security, headers, policy.release_hardened, page.csrf@) is Ok,
{
}

/// Whoever posts the login form of a fresh page from the admin origin, with the
/// page's own cookie, passes the login checks.
pub proof fn law_fresh_login_forms_pass(
    security: RequestSecurity,
    headers: HeaderMap,
    policy: CookiePolicy,
    nonce: Seq<char>,
    message: Option<Seq<char>>,
    page: LoginPage,
)
    requires
        is_nonce(nonce),
        is_login_page(security, policy, nonce, message, page),
        security.same_origin_outcome(headers) is Ok,
        header_texts(headers, "cookie"@) == seq![
            Some(cookie_header(csrf_cookie_name(policy.release_hardened), nonce)),
        ],
    ensures
        login_outcome(security, headers, policy.release_hardened, page.csrf@) is Ok,
{
    assert(hex_digit(nonce[0]) && hex_digit(nonce[nonce.len() - 1]));
    assert forall|i: int| 0 <= i < nonce.len() implies nonce[i] != ';' by {
        assert(hex_digit(nonce[i]));
    }
    law_own_cookies_read_back(policy.release_hardened, nonce);
    law_login_pages_are_accepted(security, headers, policy, nonce, message, page);
}

/// How a signed-in session's logout is answered: the session cookie is taken
/// back, unless the request checks fail.
pub fn logout(
    security: &RequestSecurity,
    headers: &HeaderMap,
    session: &Session,
    csrf_token: &str,
    policy: CookiePolicy,
) -> (cookie: Result<String, Reply>)
    ensures
        match cookie {
            Ok(cookie) => {
                &&& form_outcome(*security, *headers, *session, csrf_token@) is Ok
                &&& cookie@ == cookie_text(
                    session_cookie_name(policy.release_hardened),
                    ""@,
                    "; Max-Age=0"@,
                    policy,
                )
            },
            Err(reply) => form_outcome(*security, *headers, *session, csrf_token@) matches Err(error) && reply@
                == rejected_view(error),
        },
{
    match require_form_security(headers, security, session, csrf_token) {
        Ok(_) => Ok(clear_session_cookie(policy)),
        Err(error) => Err(request_security_error(error)),
    }
}

} // verus!
