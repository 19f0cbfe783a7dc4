//! Who gets in: what a request must carry, what each refusal says, and what a
//! sign-in goes through.

use axum::http::HeaderMap;
use vstd::prelude::*;
use vstd::utf8::encode_utf8;

use crate::action_laws::{law_refusals_say_what_failed, law_rejected_requests_say_why};
use crate::admission::{
    admitted_operator, lookup_for, session_lookup, settles_answer, settles_entry, Admission, OperatorLookup, Refusal,
    RegistryAnswer, Route,
};
use crate::config::{csv_entries, filled_entries, public_url_valid, switched_on};
use crate::cookies::{cookie_text, secure_suffix, CookiePolicy};
use crate::guards::{form_outcome, login_outcome, sync_write_outcome};
use crate::headers::{header_fields, header_texts, value_text};
use crate::login::{
    is_login_page, login_begins, login_follows, LoginAnswer, LoginEvent, LoginForm, LoginPage, LoginStage,
};
use crate::request_security::{
    authority, config_error, cross_site, csrf_accepts, csrf_message, csrf_token_text, hmac_sha256, host_check,
    origin_check, origin_in_force, release_error, secret_in_force, url_parts, RequestSecurity, RequestSecurityError,
    SecurityConfigError, UrlView,
};
use crate::response_headers::{headers_for, HeaderView};
use crate::session::{
    admissible, bearer_token, binding, cookie_named, cookie_values, csrf_cookie_name, decides, develops, part_value,
    part_values, presents, session_cookie_name, session_debug, setting, single_cookie, GuardSettings, Identity,
    RequestCredential, Session, SessionStep,
};
use crate::sync_reply_laws::{has_text, refuses_with};
use crate::text::{ascii_lowered, debug_quoted, decimal, split, trimmed, without_trailing};

verus! {

/// Whether a decision is a refusal with that status and code.
pub open spec fn refused_with(decision: Admission, status: int, code: Seq<char>) -> bool {
    decision matches Admission::Refuse(Refusal::Json(reply)) && refuses_with(reply@, status, code)
}

/// Whether a decision says that an admin role is required: with a page on a page,
/// with a reply on the API.
pub open spec fn is_forbidden(route: Route, decision: Admission) -> bool {
    match route {
        Route::Page => decision matches Admission::Refuse(Refusal::Forbidden),
        Route::Api => refused_with(decision, 403, "forbidden"@),
    }
}

/// Nobody enters without a session: a page asks to sign in, the API answers 401.
/// Nor does a request that is addressed to another host, nor a session without the
/// admin role. Whoever is left is asked for in the registry by the very subject,
/// but for the development operator.
pub proof fn law_entries_are_settled(
    route: Route,
    session: Option<Session>,
    lookup: OperatorLookup,
    security: RequestSecurity,
    headers: HeaderMap,
    decision: Admission,
)
    requires
        settles_entry(route, session, lookup, security, headers, decision),
    ensures
        session is None ==> match route {
            Route::Page => decision matches Admission::Refuse(Refusal::Login),
            Route::Api => refused_with(decision, 401, "unauthenticated"@),
        },
        session is Some && security.host_outcome(headers) is Err ==> match route {
            Route::Page => refused_with(decision, 403, "admin_request_rejected"@),
            Route::Api => refused_with(decision, 401, "unauthenticated"@),
        },
        session is Some && security.host_outcome(headers) is Ok && !session->0.is_admin ==> is_forbidden(route, decision),
        session is Some && security.host_outcome(headers) is Ok && session->0.is_admin ==> {
            &&& lookup is Development ==> decision is Admit
            &&& lookup matches OperatorLookup::Subject(subject) ==> decision == Admission::Ask(subject)
            &&& lookup is Impossible ==> is_forbidden(route, decision)
        },
        decision is Admit ==> session is Some && session->0.is_admin && lookup is Development,
{
    law_refusals_say_what_failed("unauthenticated"@, ""@, 401);
    law_refusals_say_what_failed("forbidden"@, ""@, 403);
    if security.host_outcome(headers) is Err {
        law_rejected_requests_say_why(security.host_outcome(headers)->Err_0);
    }
}

/// An enabled operator is admitted as owner, admin or operator and as nothing else;
/// an operator who is missing is refused, and a registry that cannot be asked is
/// told apart from both.
pub proof fn law_the_registry_decides(route: Route, answer: RegistryAnswer, decision: Admission)
    requires
        settles_answer(route, answer, decision),
    ensures
        answer matches RegistryAnswer::Operator { id, role } ==> {
            let admits = role@ == "owner"@ || role@ == "admin"@ || role@ == "operator"@;
            &&& decision is Admit <==> admits
            &&& !admits ==> is_forbidden(route, decision)
            &&& admitted_operator(answer) == (if admits {
                Some(id)
            } else {
                None
            })
        },
        answer is Missing ==> is_forbidden(route, decision) && admitted_operator(answer) is None,
        answer is Failed ==> refused_with(decision, 503, "operator_registry_unavailable"@) && admitted_operator(answer)
            is None,
{
    law_refusals_say_what_failed("operator_registry_unavailable"@, ""@, 503);
    law_refusals_say_what_failed("forbidden"@, ""@, 403);
}

/// An operator is looked for by the session's own subject; only the development
/// operator is not, and never in a release build.
pub proof fn law_operators_are_looked_for_by_subject(user_id: Seq<char>, subject: Option<u128>, release_hardened: bool)
    ensures
        lookup_for(user_id, subject, release_hardened) is Development <==> !release_hardened && user_id == "dev-admin"@,
        !(lookup_for(user_id, subject, release_hardened) is Development) ==> {
            &&& subject is Some ==> lookup_for(user_id, subject, release_hardened) == OperatorLookup::Subject(
                subject->0,
            )
            &&& subject is None ==> lookup_for(user_id, subject, release_hardened) is Impossible
        },
{
}

/// Whether two texts are the same but for the case of ASCII letters.
pub open spec fn same_but_for_case(a: Seq<char>, b: Seq<char>) -> bool {
    &&& a.len() == b.len()
    &&& forall|i: int|
        #![trigger a[i]]
        #![trigger b[i]]
        0 <= i < a.len() ==> {
            ||| a[i] == b[i]
            ||| 'A' <= a[i] <= 'Z' && b[i] as u32 == a[i] as u32 + 32
            ||| 'A' <= b[i] <= 'Z' && a[i] as u32 == b[i] as u32 + 32
        }
}

/// Two characters lowered alike are the same but for their case.
proof fn lemma_lowered_alike(a: char, b: char)
    ensures
        crate::text::ascii_lower(a) == crate::text::ascii_lower(b) <==> {
            ||| a == b
            ||| 'A' <= a <= 'Z' && b as u32 == a as u32 + 32
            ||| 'A' <= b <= 'Z' && a as u32 == b as u32 + 32
        },
{
}

/// A request passes with one Host that is the expected one but for case. Without
/// one it is missing, with more than one ambiguous, and any other is a mismatch.
pub proof fn law_hosts_must_be_the_one_expected(expected: Seq<char>, hosts: Seq<Option<Seq<char>>>)
    ensures
        hosts.len() == 0 || hosts[0] is None ==> host_check(expected, hosts) == Err::<(), RequestSecurityError>(
            RequestSecurityError::MissingHost,
        ),
        hosts.len() > 1 && hosts[0] is Some ==> host_check(expected, hosts) == Err::<(), RequestSecurityError>(
            RequestSecurityError::AmbiguousHost,
        ),
        hosts.len() == 1 && hosts[0] is Some ==> {
            &&& same_but_for_case(hosts[0]->0, expected) ==> host_check(expected, hosts) is Ok
            &&& !same_but_for_case(hosts[0]->0, expected) ==> host_check(expected, hosts) == Err::<
                (),
                RequestSecurityError,
            >(RequestSecurityError::MismatchedHost)
        },
{
    if hosts.len() == 1 && hosts[0] is Some {
        let a = hosts[0]->0;
        let b = expected;
        if same_but_for_case(a, b) {
            assert forall|i: int| 0 <= i < a.len() implies #[trigger] ascii_lowered(a)[i] == ascii_lowered(b)[i] by {
                let _ = a[i];
                lemma_lowered_alike(a[i], b[i]);
            }
            assert(ascii_lowered(a) =~= ascii_lowered(b));
        }
        if ascii_lowered(a) == ascii_lowered(b) {
            assert(ascii_lowered(a).len() == a.len() && ascii_lowered(b).len() == b.len());
            assert forall|i: int|
                #![trigger a[i]]
                #![trigger b[i]]
                0 <= i < a.len() implies {
                ||| a[i] == b[i]
                ||| 'A' <= a[i] <= 'Z' && b[i] as u32 == a[i] as u32 + 32
                ||| 'A' <= b[i] <= 'Z' && a[i] as u32 == b[i] as u32 + 32
            } by {
                assert(ascii_lowered(a)[i] == ascii_lowered(b)[i]);
                lemma_lowered_alike(a[i], b[i]);
            }
        }
    }
}

/// A browser request passes with one Origin that is exactly the expected one, and
/// with fetch metadata that says the same origin or none; each way to fail has its
/// own error.
pub proof fn law_origins_must_be_the_one_expected(
    expected: Seq<char>,
    origins: Seq<Option<Seq<char>>>,
    fetch_sites: Seq<Option<Seq<char>>>,
)
    ensures
        origins.len() == 0 || origins[0] is None ==> origin_check(expected, origins, fetch_sites) == Err::<
            (),
            RequestSecurityError,
        >(RequestSecurityError::MissingOrigin),
        origins.len() > 1 && origins[0] is Some ==> origin_check(expected, origins, fetch_sites) == Err::<
            (),
            RequestSecurityError,
        >(RequestSecurityError::AmbiguousOrigin),
        origins.len() == 1 && origins[0] is Some && origins[0]->0 != expected ==> origin_check(
            expected,
            origins,
            fetch_sites,
        ) == Err::<(), RequestSecurityError>(RequestSecurityError::MismatchedOrigin),
        origins.len() == 1 && origins[0] == Some(expected) ==> {
            let same = fetch_sites.len() == 0 || fetch_sites[0] is None || fetch_sites[0] == Some("same-origin"@)
                || fetch_sites[0] == Some("none"@);
            &&& same ==> origin_check(expected, origins, fetch_sites) is Ok
            &&& !same ==> origin_check(expected, origins, fetch_sites) == Err::<(), RequestSecurityError>(
                RequestSecurityError::CrossSiteFetch,
            )
        },
{
}

/// An API call passes where its Host does, its Origin does if it has one, and no
/// fetch metadata says another site.
pub proof fn law_api_calls_need_their_host(security: RequestSecurity, headers: HeaderMap)
    ensures
        security.api_outcome(headers) is Ok <==> {
            &&& host_check(security.host(), header_texts(headers, "host"@)) is Ok
            &&& header_texts(headers, "origin"@).len() > 0 ==> origin_check(
                security.origin(),
                header_texts(headers, "origin"@),
                header_texts(headers, "sec-fetch-site"@),
            ) is Ok
            &&& header_texts(headers, "origin"@).len() == 0 ==> forall|i: int|
                0 <= i < header_texts(headers, "sec-fetch-site"@).len() ==> {
                    let site = #[trigger] header_texts(headers, "sec-fetch-site"@)[i];
                    site is None || site == Some("same-origin"@) || site == Some("none"@)
                }
        },
        security.same_origin_outcome(headers) is Ok <==> {
            &&& host_check(security.host(), header_texts(headers, "host"@)) is Ok
            &&& origin_check(
                security.origin(),
                header_texts(headers, "origin"@),
                header_texts(headers, "sec-fetch-site"@),
            ) is Ok
        },
{
    let sites = header_texts(headers, "sec-fetch-site"@);
    if cross_site(sites) {
        let i = choose|i: int|
            0 <= i < sites.len() && (#[trigger] sites[i]) is Some && !crate::request_security::same_origin_fetch(
                sites[i]->0,
            );
        let site = sites[i];
        assert(site is Some && site != Some("same-origin"@) && site != Some("none"@));
    }
}

/// A form passes where the request is of the same origin and carries the session's
/// own token; a browser's write carries it in its own header, any other write need
/// only pass as an API call; a login carries the token of the nonce in its cookie.
pub proof fn law_mutations_need_their_token(
    security: RequestSecurity,
    headers: HeaderMap,
    session: Session,
    release_hardened: bool,
    provided: Seq<char>,
)
    ensures
        form_outcome(security, headers, session, provided) is Ok <==> security.same_origin_outcome(headers) is Ok
            && provided == csrf_token_text(security.secret(), session.credential()),
        !session.browser() ==> sync_write_outcome(security, headers, session) == security.api_outcome(headers),
        session.browser() ==> (sync_write_outcome(security, headers, session) is Ok <==> {
            let tokens = header_texts(headers, "x-fiducia-csrf"@);
            let sent = if tokens.len() > 0 && tokens[0] is Some {
                tokens[0]->0
            } else {
                Seq::empty()
            };
            security.same_origin_outcome(headers) is Ok && sent == csrf_token_text(
                security.secret(),
                session.credential(),
            )
        }),
        login_outcome(security, headers, release_hardened, provided) is Ok <==> {
            let nonce = single_cookie(header_texts(headers, "cookie"@), csrf_cookie_name(release_hardened));
            &&& security.same_origin_outcome(headers) is Ok
            &&& nonce is Some
            &&& provided == csrf_token_text(security.secret(), "login"@ + "\0"@ + nonce->0)
        },
        security.same_origin_outcome(headers) is Ok ==> {
            &&& form_outcome(security, headers, session, provided) matches Err(error) ==> error
                == RequestSecurityError::InvalidCsrfToken
            &&& login_outcome(security, headers, release_hardened, provided) matches Err(error) ==> error
                == RequestSecurityError::InvalidCsrfToken
        },
{
}

/// A token is the keyed tag of its own message, which begins with the name of what
/// it is for and a zero, and goes on with the credential.
pub proof fn law_tokens_are_tags_of_the_credential(secret: Seq<u8>, credential: Seq<char>, provided: Seq<char>)
    ensures
        csrf_message(credential) == encode_utf8("fiducia-admin-csrf-v1\0"@) + encode_utf8(credential),
        csrf_accepts(secret, credential, provided) <==> provided == crate::request_security::base64_text(
            hmac_sha256(secret, encode_utf8("fiducia-admin-csrf-v1\0"@) + encode_utf8(credential)),
        ),
{
}

/// Each way in which a request is refused has its own reason.
pub proof fn law_request_errors_are_told_apart(error: RequestSecurityError)
    ensures
        match error {
            RequestSecurityError::AmbiguousHost => error.reason() == "ambiguous_host"@,
            RequestSecurityError::AmbiguousOrigin => error.reason() == "ambiguous_origin"@,
            RequestSecurityError::InvalidCsrfToken => error.reason() == "invalid_csrf_token"@,
            RequestSecurityError::MissingHost => error.reason() == "missing_host"@,
            RequestSecurityError::MissingOrigin => error.reason() == "missing_origin"@,
            RequestSecurityError::MismatchedHost => error.reason() == "mismatched_host"@,
            RequestSecurityError::MismatchedOrigin => error.reason() == "mismatched_origin"@,
            RequestSecurityError::CrossSiteFetch => error.reason() == "cross_site_fetch"@,
        },
{
}

/// The settings are taken exactly where the key has 32 bytes or more and the
/// origin is a bare HTTP or HTTPS one. In a release build it must be HTTPS, and
/// neither may be unset; any other build falls back to the loopback.
pub proof fn law_security_settings_fail_closed(origin: Seq<char>, secret: Seq<u8>, port: u16, value: Option<Seq<char>>)
    ensures
        config_error(origin, secret) is None <==> {
            &&& secret.len() >= 32
            &&& url_parts(trimmed(origin)) matches Some(url)
            &&& url.scheme == "http"@ || url.scheme == "https"@
            &&& url.host is Some
            &&& url.username.len() == 0
            &&& url.password is None
            &&& url.query is None
            &&& url.fragment is None
            &&& url.path == "/"@
        },
        secret.len() < 32 ==> config_error(origin, secret) == Some(SecurityConfigError::SecretTooShort),
        secret.len() >= 32 && url_parts(trimmed(origin)) is None ==> config_error(origin, secret) == Some(
            SecurityConfigError::OriginNotAbsolute,
        ),
        secret.len() >= 32 && url_parts(trimmed(origin)) is Some && config_error(origin, secret) is Some
            ==> config_error(origin, secret) == Some(SecurityConfigError::OriginNotBare),
        release_error(origin, true) is None <==> "https://"@.is_prefix_of(origin),
        release_error(origin, true) is Some ==> release_error(origin, true) == Some(SecurityConfigError::OriginNotHttps),
        release_error(origin, false) is None,
        value is None || trimmed(value->0).len() == 0 ==> {
            &&& origin_in_force(value, port, true) is None
            &&& secret_in_force(value, true) is None
            &&& origin_in_force(value, port, false) == Some("http://127.0.0.1:"@ + decimal(port as nat))
            &&& secret_in_force(value, false) == Some(
                encode_utf8("fiducia-admin-debug-only-csrf-key-never-production"@),
            )
        },
        value is Some && trimmed(value->0).len() > 0 ==> {
            &&& origin_in_force(value, port, true) == value
            &&& origin_in_force(value, port, false) == value
            &&& secret_in_force(value, true) == Some(encode_utf8(value->0))
            &&& secret_in_force(value, false) == Some(encode_utf8(value->0))
        },
{
}

/// Each trouble with the settings is explained in its own words.
pub proof fn law_settings_errors_are_explained(error: SecurityConfigError)
    ensures
        match error {
            SecurityConfigError::OriginUnset => error.explanation() == "FIDUCIA_ADMIN_ORIGIN must be set"@,
            SecurityConfigError::SecretUnset => error.explanation() == "FIDUCIA_ADMIN_CSRF_SECRET must be set"@,
            SecurityConfigError::SecretTooShort => error.explanation()
                == "FIDUCIA_ADMIN_CSRF_SECRET must contain at least 32 bytes"@,
            SecurityConfigError::OriginNotAbsolute => error.explanation()
                == "FIDUCIA_ADMIN_ORIGIN must be an absolute URL"@,
            SecurityConfigError::OriginNotBare => error.explanation()
                == "FIDUCIA_ADMIN_ORIGIN must contain only http(s) scheme and authority"@,
            SecurityConfigError::OriginNotHttps => error.explanation()
                == "FIDUCIA_ADMIN_ORIGIN must use https in release builds"@,
        },
{
}

/// The expected authority is the host, with the port behind a colon where the
/// origin has one of its own.
pub proof fn law_authorities_keep_their_port(url: UrlView)
    requires
        url.host is Some,
    ensures
        url.port is None ==> Some(authority(url)) == url.host,
        url.port matches Some(port) ==> authority(url) == url.host->0 + ":"@ + decimal(port as nat),
{
}

/// An identity is admitted exactly with the role admin or operator and from the
/// admin project.
pub proof fn law_identities_need_a_role_and_the_project(identity: Identity)
    ensures
        admissible(identity) <==> {
            &&& identity.project@ == "fiducia-admin"@
            &&& exists|i: int|
                0 <= i < identity.roles@.len() && (#[trigger] identity.roles@[i]@ == "admin"@ || identity.roles@[i]@
                    == "operator"@)
        },
{
    let roles = identity.roles.deep_view();
    assert(roles.len() == identity.roles@.len());
    assert forall|i: int| 0 <= i < roles.len() implies #[trigger] roles[i] == identity.roles@[i]@ by {}
    if crate::session::has_admin_role(roles) {
        let i = choose|i: int| 0 <= i < roles.len() && (#[trigger] roles[i] == "admin"@ || roles[i] == "operator"@);
        assert(identity.roles@[i]@ == roles[i]);
    }
    if exists|i: int|
        0 <= i < identity.roles@.len() && (#[trigger] identity.roles@[i]@ == "admin"@ || identity.roles@[i]@
            == "operator"@) {
        let i = choose|i: int|
            0 <= i < identity.roles@.len() && (#[trigger] identity.roles@[i]@ == "admin"@ || identity.roles@[i]@
                == "operator"@);
        assert(roles[i] == identity.roles@[i]@);
    }
}

/// A development session is made only outside a release build and only for the
/// two roles; the admin's has the admin role and the user's has not.
pub proof fn law_development_sessions_are_two(session: Option<Session>, role: Option<Seq<char>>, release_hardened: bool)
    requires
        develops(session, role, release_hardened),
    ensures
        release_hardened ==> session is None,
        role != Some("admin"@) && role != Some("user"@) ==> session is None,
        !release_hardened && role == Some("admin"@) ==> {
            &&& session matches Some(made)
            &&& made.is_admin
            &&& made.user_id@ == "dev-admin"@
            &&& made.email.deep_view() == Some("admin@example.com"@)
            &&& made.credential_binding@ == "development"@ + "\0"@ + "dev-admin"@
            &&& !made.cookie_authenticated
        },
        !release_hardened && role == Some("user"@) ==> {
            &&& session matches Some(made)
            &&& !made.is_admin
            &&& made.user_id@ == "dev-user"@
            &&& made.email.deep_view() == Some("user@example.com"@)
            &&& made.credential_binding@ == "development"@ + "\0"@ + "dev-user"@
            &&& !made.cookie_authenticated
        },
{
    reveal_strlit("user");
    reveal_strlit("admin");
    assert("user"@.len() == 4 && "admin"@.len() == 5);
}

/// A session is a browser's where it came from the cookie or is a development
/// session.
pub proof fn law_browser_sessions_are_ambient(session: Session)
    ensures
        session.browser() <==> session.cookie_authenticated || "development\0"@.is_prefix_of(
            session.credential_binding@,
        ),
        session.credential() == session.credential_binding@,
        session.from_cookie() == session.cookie_authenticated,
{
}

/// The sessions for trying things out are an admin's, by an example address, and
/// bound to where their credential would have come from.
pub proof fn law_example_sessions_are_admins(
    user_id: &str,
    token: &str,
    plain: Session,
    cookie: Session,
    bearer: Session,
)
    requires
        call_ensures(Session::test_admin, (user_id,), plain),
        call_ensures(Session::test_admin_cookie, (user_id, token), cookie),
        call_ensures(Session::test_admin_bearer, (user_id, token), bearer),
    ensures
        plain.is_admin && cookie.is_admin && bearer.is_admin,
        plain.user_id@ == user_id@ && cookie.user_id@ == user_id@ && bearer.user_id@ == user_id@,
        plain.email.deep_view() == Some(user_id@ + "@example.com"@),
        cookie.email.deep_view() == Some(user_id@ + "@example.com"@),
        bearer.email.deep_view() == Some(user_id@ + "@example.com"@),
        plain.credential_binding@ == "development"@ + "\0"@ + user_id@,
        cookie.credential_binding@ == "cookie"@ + "\0"@ + token@,
        bearer.credential_binding@ == "authorization"@ + "\0"@ + token@,
        !plain.cookie_authenticated && cookie.cookie_authenticated && !bearer.cookie_authenticated,
{
}

/// What is logged of a session names who it is and whether it is an admin's, and
/// never the credential: two sessions that differ only there are logged alike.
pub proof fn law_credentials_are_never_logged(a: Session, b: Session)
    requires
        a.user_id@ == b.user_id@,
        a.email.deep_view() == b.email.deep_view(),
        a.is_admin == b.is_admin,
    ensures
        session_debug(a.user_id@, a.email.deep_view(), a.is_admin) == session_debug(
            b.user_id@,
            b.email.deep_view(),
            b.is_admin,
        ),
        session_debug(a.user_id@, a.email.deep_view(), true) == "Session { user_id: "@ + debug_quoted(a.user_id@)
            + ", email: "@ + (match a.email {
            Some(email) => "Some("@ + debug_quoted(email@) + ")"@,
            None => "None"@,
        }) + ", is_admin: "@ + "true"@ + ", credential: \"[redacted]\" }"@,
        session_debug(a.user_id@, a.email.deep_view(), false) == "Session { user_id: "@ + debug_quoted(a.user_id@)
            + ", email: "@ + (match a.email {
            Some(email) => "Some("@ + debug_quoted(email@) + ")"@,
            None => "None"@,
        }) + ", is_admin: "@ + "false"@ + ", credential: \"[redacted]\" }"@,
{
}

/// The cookies have their names, with the host prefix in a release build.
pub proof fn law_cookie_names_are_prefixed_in_release(kind: Seq<char>, credential: Seq<char>)
    ensures
        session_cookie_name(true) == "__Host-fiducia_admin_session"@,
        session_cookie_name(false) == "fiducia_admin_session"@,
        csrf_cookie_name(true) == "__Host-fiducia_admin_login_csrf"@,
        csrf_cookie_name(false) == "fiducia_admin_login_csrf"@,
        binding(kind, credential) == kind + "\0"@ + credential,
{
}

/// A bearer token is taken from one Authorization header that begins with the
/// scheme and a blank: what follows without blanks around it, of 1 to 16384 bytes.
pub proof fn law_bearer_tokens_are_taken_whole(values: Seq<Option<Seq<char>>>, token: Seq<char>)
    ensures
        bearer_token(values) == Some(token) <==> {
            &&& values.len() == 1
            &&& values[0] is Some
            &&& "Bearer "@.is_prefix_of(values[0]->0)
            &&& token == trimmed(values[0]->0.skip(7))
            &&& 1 <= token.len()
            &&& encode_utf8(token).len() <= 16384
        },
{
    reveal_strlit("Bearer ");
    assert("Bearer "@.len() == 7);
}

/// A request with an Authorization header presents that token or nothing; without
/// one it presents the one value of its cookie, nothing where the cookie is there
/// but not once with a value, and no credential where it is not there.
pub proof fn law_credentials_are_what_was_sent(
    authorizations: Seq<Option<Seq<char>>>,
    cookies: Seq<Option<Seq<char>>>,
    cookie_name: Seq<char>,
    credential: RequestCredential,
)
    requires
        presents(authorizations, cookies, cookie_name, credential),
    ensures
        authorizations.len() > 0 ==> {
            &&& bearer_token(authorizations) matches Some(token) ==> (credential matches RequestCredential::Bearer(found)
                && found@ == token)
            &&& bearer_token(authorizations) is None ==> credential is Refused
        },
        authorizations.len() == 0 ==> {
            let values = cookie_values(cookies, cookie_name);
            &&& values.len() == 1 ==> (credential matches RequestCredential::Cookie(found) && found@ == values[0])
            &&& values.len() != 1 && cookie_named(cookies, cookie_name) ==> credential is Refused
            &&& values.len() != 1 && !cookie_named(cookies, cookie_name) ==> credential is Absent
        },
{
}

/// A credential is verified as it is and with where it came from; a refused one
/// settles for no session, and an absent one for a development session at most.
pub proof fn law_credentials_are_verified(
    credential: RequestCredential,
    role: Option<Seq<char>>,
    release_hardened: bool,
    step: SessionStep,
)
    requires
        decides(credential, role, release_hardened, step),
    ensures
        credential matches RequestCredential::Bearer(token) ==> step == (SessionStep::Verify { token, from_cookie: false }),
        credential matches RequestCredential::Cookie(token) ==> step == (SessionStep::Verify { token, from_cookie: true }),
        credential is Refused ==> step == SessionStep::Settled(None),
        credential is Absent ==> (step matches SessionStep::Settled(session) && (session is Some <==> !release_hardened
            && (role == Some("admin"@) || role == Some("user"@)))),
{
}

/// Whether a name and a value stand on the two sides of the first equals sign of a
/// text, which is at place `at`.
pub open spec fn parted_at(text: Seq<char>, at: int, name: Seq<char>, value: Seq<char>) -> bool {
    &&& 0 <= at < text.len()
    &&& text[at] == '='
    &&& forall|i: int| 0 <= i < at ==> #[trigger] text[i] != '='
    &&& text.take(at) == name
    &&& trimmed(text.skip(at + 1)) == value
}

/// A part of a Cookie header gives a value exactly where the name stands before
/// its first equals sign, and something but blanks behind.
pub proof fn law_cookie_parts_give_their_value(part: Seq<char>, name: Seq<char>, value: Seq<char>)
    ensures
        part_value(part, name) == Some(value) <==> value.len() > 0 && exists|at: int|
            parted_at(trimmed(part), at, name, value),
{
    let text = trimmed(part);
    let at = crate::text::position_of(text, '=');
    crate::text_laws::law_positions_are_the_first(text, '=', '=');
    if part_value(part, name) == Some(value) {
        assert(parted_at(text, at, name, value));
    }
    if exists|k: int| parted_at(text, k, name, value) {
        let k = choose|k: int| parted_at(text, k, name, value);
        assert(k == at) by {
            if k < at {
                assert(text[k] != '=');
            }
            if at < k {
                assert(text[at] != '=');
            }
        }
    }
}

/// A cookie is there exactly where some part of some header names it before its
/// first equals sign, with a value or without.
pub proof fn law_cookies_are_there_where_named(cookies: Seq<Option<Seq<char>>>, name: Seq<char>)
    ensures
        cookie_named(cookies, name) <==> exists|i: int, j: int, at: int, value: Seq<char>|
            0 <= i < cookies.len() && cookies[i] is Some && 0 <= j < split(cookies[i]->0, ';').len()
                && #[trigger] parted_at(trimmed(split(cookies[i]->0, ';')[j]), at, name, value),
{
    if cookie_named(cookies, name) {
        let (i, j) = choose|i: int, j: int|
            0 <= i < cookies.len() && cookies[i] is Some && 0 <= j < split(cookies[i]->0, ';').len()
                && #[trigger] crate::session::part_names(split(cookies[i]->0, ';')[j], name);
        let text = trimmed(split(cookies[i]->0, ';')[j]);
        crate::text_laws::law_positions_are_the_first(text, '=', '=');
        let at = crate::text::position_of(text, '=');
        assert(parted_at(text, at, name, trimmed(text.skip(at + 1))));
    }
    if exists|i: int, j: int, at: int, value: Seq<char>|
        0 <= i < cookies.len() && cookies[i] is Some && 0 <= j < split(cookies[i]->0, ';').len()
            && #[trigger] parted_at(trimmed(split(cookies[i]->0, ';')[j]), at, name, value) {
        let (i, j, at, value) = choose|i: int, j: int, at: int, value: Seq<char>|
            0 <= i < cookies.len() && cookies[i] is Some && 0 <= j < split(cookies[i]->0, ';').len()
                && #[trigger] parted_at(trimmed(split(cookies[i]->0, ';')[j]), at, name, value);
        let text = trimmed(split(cookies[i]->0, ';')[j]);
        crate::text_laws::law_positions_are_the_first(text, '=', '=');
        let first = crate::text::position_of(text, '=');
        if at < first {
            assert(text[at] != '=');
        }
        if first < at {
            assert(text[first] != '=');
        }
        assert(crate::session::part_names(split(cookies[i]->0, ';')[j], name));
    }
}

/// The values of a cookie are those of all its parts: one more part gives one
/// more value exactly where it has one, and one more header gives those of its
/// parts.
pub proof fn law_cookie_values_are_gathered(
    cookies: Seq<Option<Seq<char>>>,
    more: Option<Seq<char>>,
    parts: Seq<Seq<char>>,
    part: Seq<char>,
    name: Seq<char>,
)
    ensures
        cookie_values(cookies.push(more), name) == cookie_values(cookies, name) + (match more {
            Some(text) => part_values(split(text, ';'), name),
            None => Seq::empty(),
        }),
        part_values(parts.push(part), name) == (match part_value(part, name) {
            Some(value) => part_values(parts, name).push(value),
            None => part_values(parts, name),
        }),
        cookie_values(Seq::empty(), name) == Seq::<Seq<char>>::empty(),
        part_values(Seq::empty(), name) == Seq::<Seq<char>>::empty(),
        single_cookie(cookies, name) is Some <==> cookie_values(cookies, name).len() == 1,
        single_cookie(cookies, name) is Some ==> single_cookie(cookies, name) == Some(cookie_values(cookies, name)[0]),
{
    assert(cookies.push(more).drop_last() =~= cookies);
    assert(parts.push(part).drop_last() =~= parts);
    assert(cookie_values(cookies.push(more), name) =~= cookie_values(cookies, name) + (match more {
        Some(text) => part_values(split(text, ';'), name),
        None => Seq::empty(),
    }));
}

/// A cookie is its name and value, for the whole site, out of reach of scripts and
/// of other sites, with its lifetime; it is secure but where plain HTTP was asked
/// for outside a release build.
pub proof fn law_cookies_are_guarded(name: Seq<char>, value: Seq<char>, lifetime: Seq<char>, policy: CookiePolicy)
    ensures
        policy.release_hardened || !policy.insecure_http ==> cookie_text(name, value, lifetime, policy) == name + "="@
            + value + "; Path=/; HttpOnly; SameSite=Strict"@ + lifetime + "; Secure"@,
        !policy.release_hardened && policy.insecure_http ==> cookie_text(name, value, lifetime, policy) == name + "="@
            + value + "; Path=/; HttpOnly; SameSite=Strict"@ + lifetime,
        secure_suffix(true, policy.insecure_http) == "; Secure"@,
{
    reveal_strlit("");
    if !policy.release_hardened && policy.insecure_http {
        assert(cookie_text(name, value, lifetime, policy) =~= name + "="@ + value
            + "; Path=/; HttpOnly; SameSite=Strict"@ + lifetime);
    }
}

/// Whether a response has just that value under that name, once.
pub open spec fn has_header(headers: Seq<HeaderView>, name: Seq<char>, value: Seq<char>) -> bool {
    exists|i: int| 0 <= i < headers.len() && (#[trigger] headers[i]).name == name && headers[i].value == value
}

/// Every response carries the four guards, and is kept out of caches but where it
/// is an asset or the health check.
pub proof fn law_responses_are_guarded(path: Seq<char>)
    ensures
        ({
            let headers = headers_for(path);
            let sensitive = !("/assets/"@.is_prefix_of(path) || path == "/healthz"@);
            &&& has_header(headers, "x-frame-options"@, "DENY"@)
            &&& has_header(headers, "x-content-type-options"@, "nosniff"@)
            &&& has_header(headers, "referrer-policy"@, "same-origin"@)
            &&& has_header(
                headers,
                "content-security-policy"@,
                "default-src 'self'; script-src 'self' 'wasm-unsafe-eval'; style-src 'self'; img-src 'self' data:; connect-src 'self'; font-src 'self'; frame-ancestors 'none'; base-uri 'none'; form-action 'self'; object-src 'none'"@,
            )
            &&& sensitive ==> has_header(headers, "cache-control"@, "no-store"@) && headers.len() == 5
            &&& !sensitive ==> headers.len() == 4 && forall|i: int|
                0 <= i < headers.len() ==> (#[trigger] headers[i]).name != "cache-control"@
        }),
{
    reveal_strlit("x-frame-options");
    reveal_strlit("x-content-type-options");
    reveal_strlit("referrer-policy");
    reveal_strlit("content-security-policy");
    reveal_strlit("cache-control");
    assert("x-frame-options"@.len() == 15 && "x-content-type-options"@.len() == 22);
    assert("referrer-policy"@.len() == 15 && "content-security-policy"@.len() == 23);
    assert("cache-control"@.len() == 13);
    assert("x-frame-options"@[0] == 'x' && "referrer-policy"@[0] == 'r');
    let headers = headers_for(path);
    let n: int = if crate::response_headers::sensitive_path(path) {
        1
    } else {
        0
    };
    assert(headers[n].name == "content-security-policy"@);
    assert(headers[n + 1].name == "x-frame-options"@);
    assert(headers[n + 2].name == "x-content-type-options"@);
    assert(headers[n + 3].name == "referrer-policy"@);
    assert(n == 1 ==> headers[0].name == "cache-control"@);
}

/// A setting is its value without blanks around it, and unset where that is
/// nothing.
pub proof fn law_blank_settings_are_unset(value: Seq<char>)
    ensures
        trimmed(value).len() > 0 ==> setting(Some(value)) == Some(trimmed(value)),
        trimmed(value).len() == 0 ==> setting(Some(value)) is None,
        setting(None) is None,
{
}

/// The first of the guard's settings that is unset is named; none is where all
/// are set.
pub proof fn law_missing_guard_settings_are_named(base: Seq<char>, settings: GuardSettings)
    ensures
        ({
            let error = crate::session::settings_error(base, settings);
            let based = without_trailing(base, '/').len() > 0;
            let issuer = setting(settings.issuer.deep_view()) is Some;
            let audience = setting(settings.audience.deep_view()) is Some;
            let url = setting(settings.supabase_url.deep_view()) is Some;
            let key = setting(settings.supabase_api_key.deep_view()) is Some;
            let secret = setting(settings.introspect_secret.deep_view()) is Some;
            &&& error is None <==> based && issuer && audience && url && key && secret
            &&& !based ==> error == Some("SHARED_AUTH_URL"@ + " must be set"@)
            &&& based && !issuer ==> error == Some("SHARED_AUTH_ISSUER"@ + " must be set"@)
            &&& based && issuer && !audience ==> error == Some("SHARED_AUTH_AUDIENCE"@ + " must be set"@)
            &&& based && issuer && audience && !url ==> error == Some("SUPABASE_URL"@ + " must be set"@)
            &&& based && issuer && audience && url && !key ==> error == Some(
                "SUPABASE_PUBLISHABLE_KEY"@ + " must be set"@,
            )
            &&& based && issuer && audience && url && key && !secret ==> error == Some(
                "SHARED_AUTH_INTROSPECT_SECRET"@ + " must be set"@,
            )
        }),
{
}

/// The entries of a list are those between its commas, in order, without blanks
/// around them and without the empty ones.
pub proof fn law_lists_keep_their_filled_entries(value: Seq<char>, entries: Seq<Seq<char>>, entry: Seq<char>)
    ensures
        trimmed(value).len() > 0 ==> csv_entries(Some(value)) == filled_entries(split(trimmed(value), ',')),
        trimmed(value).len() == 0 ==> csv_entries(Some(value)) == Seq::<Seq<char>>::empty(),
        csv_entries(None) == Seq::<Seq<char>>::empty(),
        trimmed(entry).len() > 0 ==> filled_entries(entries.push(entry)) == filled_entries(entries).push(trimmed(entry)),
        trimmed(entry).len() == 0 ==> filled_entries(entries.push(entry)) == filled_entries(entries),
        filled_entries(Seq::empty()) == Seq::<Seq<char>>::empty(),
{
    assert(entries.push(entry).drop_last() =~= entries);
}

/// A public URL is an HTTP or HTTPS one or a path from the root; a switch is on
/// exactly where it reads 1 or true, in any case and without blanks around it.
pub proof fn law_links_and_switches_are_exact(value: Seq<char>)
    ensures
        public_url_valid(value) <==> "http://"@.is_prefix_of(trimmed(value)) || "https://"@.is_prefix_of(trimmed(value))
            || "/"@.is_prefix_of(trimmed(value)) && !"//"@.is_prefix_of(trimmed(value)),
        switched_on(Some(value)) <==> ascii_lowered(trimmed(value)) == "1"@ || ascii_lowered(trimmed(value)) == "true"@,
        !switched_on(None),
{
}

/// The texts of a header are its values in order, found under its name in any
/// case; a value reads where each of its bytes is visible ASCII, a blank or a tab,
/// and then byte by byte.
pub proof fn law_headers_read_byte_by_byte(headers: HeaderMap, name: Seq<char>, bytes: Seq<u8>)
    ensures
        !header_fields(headers).contains_key(ascii_lowered(name)) ==> header_texts(headers, name).len() == 0,
        header_fields(headers).contains_key(ascii_lowered(name)) ==> {
            let values = header_fields(headers)[ascii_lowered(name)];
            &&& header_texts(headers, name).len() == values.len()
            &&& forall|i: int|
                0 <= i < values.len() ==> #[trigger] header_texts(headers, name)[i] == value_text(values[i])
        },
        value_text(bytes) is Some <==> forall|i: int|
            0 <= i < bytes.len() ==> (32 <= #[trigger] bytes[i] <= 126 || bytes[i] == 9),
        value_text(bytes) matches Some(text) ==> text.len() == bytes.len() && forall|i: int|
            0 <= i < bytes.len() ==> #[trigger] text[i] as u32 == bytes[i] as u32,
{
}

/// Whether a stage of a login is a refusal with that status and code.
pub open spec fn login_refused_with(stage: LoginStage, status: int, code: Seq<char>) -> bool {
    stage matches LoginStage::Answered(LoginAnswer::Json(reply)) && refuses_with(reply@, status, code)
}

/// Whether a stage of a login is the form again with that message.
pub open spec fn login_asked_again(stage: LoginStage, message: Seq<char>) -> bool {
    stage matches LoginStage::Answered(LoginAnswer::Form(found)) && found@ == message
}

/// Whether a stage of a login signs in: the session's cookie holds the token, and
/// the login's own cookie is cleared.
pub open spec fn login_signed_in(stage: LoginStage, token: Seq<char>, policy: CookiePolicy) -> bool {
    &&& stage matches LoginStage::Answered(LoginAnswer::SignedIn(cookies))
    &&& cookies@.len() == 2
    &&& cookies@[0]@ == cookie_text(session_cookie_name(policy.release_hardened), token, ""@, policy)
    &&& cookies@[1]@ == cookie_text(csrf_cookie_name(policy.release_hardened), ""@, "; Max-Age=0"@, policy)
}

/// A login that may not be made is refused, one without an email or a password is
/// asked for again, and any other is exchanged with the provider for just these,
/// the email without blanks around it and the password as it is.
pub proof fn law_logins_are_exchanged_as_typed(
    outcome: Result<(), RequestSecurityError>,
    form: LoginForm,
    supabase_url: Seq<char>,
    stage: LoginStage,
)
    requires
        login_begins(outcome, form, supabase_url, stage),
    ensures
        outcome is Err ==> login_refused_with(stage, 403, "admin_request_rejected"@),
        outcome is Ok && (trimmed(form.email@).len() == 0 || form.password@.len() == 0) ==> login_asked_again(
            stage,
            "Email and password are required."@,
        ),
        outcome is Ok && trimmed(form.email@).len() > 0 && form.password@.len() > 0 ==> {
            &&& stage matches LoginStage::Exchanging { url, body }
            &&& url@ == without_trailing(supabase_url, '/') + "/auth/v1/token?grant_type=password"@
            &&& has_text(body@, "email"@, trimmed(form.email@))
            &&& has_text(body@, "password"@, form.password@)
        },
{
    reveal_strlit("email");
    reveal_strlit("password");
    assert("email"@.len() == 5 && "password"@.len() == 8);
    if let Err(error) = outcome {
        law_rejected_requests_say_why(error);
    }
}

/// What each answer to a login leads to, from the provider's token over the
/// verified session to the registry's word.
pub proof fn law_logins_go_step_by_step(stage: LoginStage, event: LoginEvent, policy: CookiePolicy, next: LoginStage)
    requires
        login_follows(stage, event, policy, next),
    ensures
        stage is Exchanging ==> {
            &&& event matches LoginEvent::Token(token) ==> next == (LoginStage::Verifying { token })
            &&& event is ExchangeRefused ==> login_asked_again(next, "Supabase rejected those credentials."@)
            &&& event is ExchangeFailed ==> login_refused_with(next, 502, "supabase_login_failed"@)
        },
        stage is Verifying ==> {
            &&& event matches LoginEvent::Verified(verified) ==> {
                &&& verified is None ==> login_asked_again(
                    next,
                    "Shared Auth could not authorize this admin identity."@,
                )
                &&& verified matches Some(found) ==> {
                    let lookup = session_lookup(Some(found.session), policy.release_hardened);
                    &&& found.session_upgrade is None ==> login_refused_with(
                        next,
                        503,
                        "shared_auth_session_upgrade_missing"@,
                    )
                    &&& found.session_upgrade matches Some(upgrade) ==> {
                        &&& !found.session.is_admin || lookup is Impossible ==> next == LoginStage::Answered(
                            LoginAnswer::Forbidden(found.session),
                        )
                        &&& found.session.is_admin ==> {
                            &&& lookup matches OperatorLookup::Subject(subject) ==> next == (LoginStage::LookingUp {
                                subject,
                                session: found.session,
                                upgrade,
                            })
                            &&& lookup is Development ==> login_signed_in(next, upgrade@, policy)
                        }
                    }
                }
            }
        },
        stage matches LoginStage::LookingUp { subject, session, upgrade } ==> {
            &&& event matches LoginEvent::Registry(RegistryAnswer::Operator { id, role }) ==> {
                let admits = role@ == "owner"@ || role@ == "admin"@ || role@ == "operator"@;
                &&& admits ==> login_signed_in(next, upgrade@, policy)
                &&& !admits ==> next == LoginStage::Answered(LoginAnswer::Forbidden(session))
            }
            &&& event matches LoginEvent::Registry(RegistryAnswer::Missing) ==> next == LoginStage::Answered(
                LoginAnswer::Forbidden(session),
            )
            &&& event matches LoginEvent::Registry(RegistryAnswer::Failed) ==> login_refused_with(
                next,
                503,
                "operator_registry_unavailable"@,
            )
        },
        stage is Answered ==> next == stage,
{
    law_refusals_say_what_failed("supabase_login_failed"@, "supabase"@, 502);
    law_refusals_say_what_failed("shared_auth_session_upgrade_missing"@, ""@, 503);
    law_refusals_say_what_failed("operator_registry_unavailable"@, ""@, 503);
    if let LoginStage::Answered(LoginAnswer::SignedIn(cookies)) = next {
        assert(cookies.deep_view().len() == cookies@.len());
        if cookies@.len() == 2 {
            assert(cookies.deep_view()[0] == cookies@[0]@);
            assert(cookies.deep_view()[1] == cookies@[1]@);
        }
    }
}

/// A nonce is 64 digits of lower-case hexadecimal.
pub proof fn law_nonces_are_hexadecimal(text: Seq<char>)
    ensures
        crate::login::is_nonce(text) <==> text.len() == 64 && forall|i: int|
            0 <= i < text.len() ==> ('0' <= #[trigger] text[i] <= '9' || 'a' <= text[i] <= 'f'),
{
}

/// A login page shows its message, carries the token of its nonce, and sets the
/// nonce for ten minutes.
pub proof fn law_login_pages_carry_their_nonce(
    security: RequestSecurity,
    policy: CookiePolicy,
    nonce: Seq<char>,
    message: Option<Seq<char>>,
    page: LoginPage,
)
    requires
        is_login_page(security, policy, nonce, message, page),
    ensures
        page.message.deep_view() == message,
        page.csrf@ == csrf_token_text(security.secret(), "login"@ + "\0"@ + nonce),
        page.cookie@ == cookie_text(csrf_cookie_name(policy.release_hardened), nonce, "; Max-Age=600"@, policy),
{
}

} // verus!
