//! Admission to every route but the public ones.
//!
//! A request passes with a session, the right host, the admin role, and an
//! enabled entry in the operator registry. The registry is the database's; this
//! module decides whether to ask it, and what its answer means.

use axum::http::HeaderMap;
use vstd::prelude::*;

use crate::reply::{
    dependency_error, dependency_view, error_reply, error_view, rejected_view,
    request_security_error, Reply,
};
use crate::request_security::RequestSecurity;
use crate::session::Session;
use crate::sync::{parse_uuid, uuid_number};
use crate::text::same_text;

verus! {

/// Who asks: a page in a browser, or an API caller.
#[derive(Clone, Copy, Debug, Eq, PartialEq, Structural)]
pub enum Route {
    Page,
    Api,
}

/// How a request that does not pass is answered.
pub enum Refusal {
    /// See other: the login page.
    Login,
    /// The page that says an admin role is required.
    Forbidden,
    Json(Reply),
}

/// How to find a session's operator.
#[derive(Clone, Copy, Debug, Eq, PartialEq, Structural)]
pub enum OperatorLookup {
    /// The local development operator, who is in no registry.
    Development,
    /// The session's subject cannot be in the registry.
    Impossible,
    /// Ask for the enabled operator with this subject.
    Subject(u128),
}

/// What the registry says of a subject.
pub enum RegistryAnswer {
    /// The enabled operator.
    Operator { id: u128, role: String },
    /// No enabled operator has that subject.
    Missing,
    /// The registry could not be asked.
    Failed,
}

/// What becomes of a request that asks for admission.
pub enum Admission {
    Admit,
    Ask(u128),
    Refuse(Refusal),
}

/// The registry roles that may operate.
pub open spec fn operating_role(role: Seq<char>) -> bool {
    role == "owner"@ || role == "admin"@ || role == "operator"@
}

/// Whether a registry role may operate.
pub fn operator_registry_role_allows_access(role: &str) -> (allowed: bool)
    ensures
        allowed == operating_role(role@),
{
    same_text(role, "owner") || same_text(role, "admin") || same_text(role, "operator")
}

/// How to find a session's operator: the development operator exists outside
/// release builds only, and anyone else must have a subject.
pub open spec fn lookup_for(user_id: Seq<char>, subject: Option<u128>, release_hardened: bool) -> OperatorLookup {
    if !release_hardened && user_id == "dev-admin"@ {
        OperatorLookup::Development
    } else {
        match subject {
            Some(subject) => OperatorLookup::Subject(subject),
            None => OperatorLookup::Impossible,
        }
    }
}

/// How to find the operator of a session whose user id was read as `subject`.
pub fn lookup_by_subject(user_id: &str, subject: Option<u128>, release_hardened: bool) -> (lookup: OperatorLookup)
    ensures
        lookup == lookup_for(user_id@, subject, release_hardened),
{
    if !release_hardened && same_text(user_id, "dev-admin") {
        OperatorLookup::Development
    } else {
        match subject {
            Some(subject) => OperatorLookup::Subject(subject),
            None => OperatorLookup::Impossible,
        }
    }
}

/// How to find a session's operator.
pub fn operator_lookup(session: &Session, release_hardened: bool) -> (lookup: OperatorLookup)
    ensures
        lookup == lookup_for(session.user_id@, uuid_number(session.user_id@), release_hardened),
{
    lookup_by_subject(session.user_id.as_str(), parse_uuid(session.user_id.as_str()), release_hardened)
}

/// The operator that the registry's answer admits: an enabled one whose role may
/// operate.
pub open spec fn admitted_operator(answer: RegistryAnswer) -> Option<u128> {
    match answer {
        RegistryAnswer::Operator { id, role } => if operating_role(role@) {
            Some(id)
        } else {
            None
        },
        _ => None,
    }
}

/// The operator that the registry's answer admits.
pub fn enabled_operator(answer: &RegistryAnswer) -> (id: Option<u128>)
    ensures
        id == admitted_operator(*answer),
{
    match answer {
        RegistryAnswer::Operator { id, role } => if operator_registry_role_allows_access(role.as_str()) {
            Some(*id)
        } else {
            None
        },
        _ => None,
    }
}

/// The answer to a caller who may not operate.
pub open spec fn forbids(route: Route, refusal: Refusal) -> bool {
    match route {
        Route::Page => refusal is Forbidden,
        Route::Api => refusal matches Refusal::Json(reply) && reply@ == error_view(403, "forbidden"@),
    }
}

/// The answer to a caller without a session.
pub open spec fn asks_to_sign_in(route: Route, refusal: Refusal) -> bool {
    match route {
        Route::Page => refusal is Login,
        Route::Api => refusal matches Refusal::Json(reply) && reply@ == error_view(401, "unauthenticated"@),
    }
}

/// Whether `refusal` is the answer to a request without a session or with the
/// wrong host. An API caller is told nothing but that it is unauthenticated.
pub open spec fn refuses_entry(
    route: Route,
    session: Option<Session>,
    security: RequestSecurity,
    headers: HeaderMap,
    refusal: Refusal,
) -> bool {
    if session is None || route == Route::Api {
        asks_to_sign_in(route, refusal)
    } else {
        refusal matches Refusal::Json(reply) && security.host_outcome(headers) matches Err(error) && reply@
            == rejected_view(error)
    }
}

/// Whether a request has a session and the right host.
pub open spec fn may_enter(session: Option<Session>, security: RequestSecurity, headers: HeaderMap) -> bool {
    session is Some && security.host_outcome(headers) is Ok
}

/// The answer to a caller who may not operate.
fn forbidden(route: Route) -> (refusal: Refusal)
    ensures
        forbids(route, refusal),
{
    match route {
        Route::Page => Refusal::Forbidden,
        Route::Api => Refusal::Json(error_reply(403, "forbidden")),
    }
}

/// Requires any signed-in session on the right host: the answer to a request
/// that has none.
pub fn require(route: Route, session: &Option<Session>, security: &RequestSecurity, headers: &HeaderMap) -> (refusal: Option<
    Refusal,
>)
    ensures
        refusal is None <==> may_enter(*session, *security, *headers),
        refusal matches Some(refusal) ==> refuses_entry(route, *session, *security, *headers, refusal),
{
    match session {
        None => Some(
            match route {
                Route::Page => Refusal::Login,
                Route::Api => Refusal::Json(error_reply(401, "unauthenticated")),
            },
        ),
        Some(_) => match security.require_host(headers) {
            Ok(_) => None,
            Err(error) => Some(
                match route {
                    Route::Page => Refusal::Json(request_security_error(error)),
                    Route::Api => Refusal::Json(error_reply(401, "unauthenticated")),
                },
            ),
        },
    }
}

/// Whether `decision` is right for a request before the registry was asked.
pub open spec fn settles_entry(
    route: Route,
    session: Option<Session>,
    lookup: OperatorLookup,
    security: RequestSecurity,
    headers: HeaderMap,
    decision: Admission,
) -> bool {
    if !may_enter(session, security, headers) {
        decision matches Admission::Refuse(refusal) && refuses_entry(route, session, security, headers, refusal)
    } else if !session->0.is_admin {
        decision matches Admission::Refuse(refusal) && forbids(route, refusal)
    } else {
        match lookup {
            OperatorLookup::Development => decision is Admit,
            OperatorLookup::Subject(subject) => decision == Admission::Ask(subject),
            OperatorLookup::Impossible => decision matches Admission::Refuse(refusal) && forbids(route, refusal),
        }
    }
}

/// What becomes of a request before the registry was asked: whoever has the
/// admin role is looked up.
pub fn decide_entry(
    route: Route,
    session: &Option<Session>,
    lookup: OperatorLookup,
    security: &RequestSecurity,
    headers: &HeaderMap,
) -> (decision: Admission)
    ensures
        settles_entry(route, *session, lookup, *security, *headers, decision),
{
    match require(route, session, security, headers) {
        Some(refusal) => return Admission::Refuse(refusal),
        None => {},
    }
    match session {
        Some(session) => if !session.is_admin {
            Admission::Refuse(forbidden(route))
        } else {
            match lookup {
                OperatorLookup::Development => Admission::Admit,
                OperatorLookup::Subject(subject) => Admission::Ask(subject),
                OperatorLookup::Impossible => Admission::Refuse(forbidden(route)),
            }
        },
        None => Admission::Refuse(Refusal::Login),
    }
}

/// Admission to a page: what becomes of a request before the registry was
/// asked.
pub fn require_admin(
    session: &Option<Session>,
    security: &RequestSecurity,
    headers: &HeaderMap,
    release_hardened: bool,
) -> (decision: Admission)
    ensures
        settles_entry(Route::Page, *session, session_lookup(*session, release_hardened), *security, *headers, decision),
{
    let lookup = lookup_of(session, release_hardened);
    decide_entry(Route::Page, session, lookup, security, headers)
}

/// Admission to an API route: what becomes of a request before the registry
/// was asked.
pub fn require_admin_api(
    session: &Option<Session>,
    security: &RequestSecurity,
    headers: &HeaderMap,
    release_hardened: bool,
) -> (decision: Admission)
    ensures
        settles_entry(Route::Api, *session, session_lookup(*session, release_hardened), *security, *headers, decision),
{
    let lookup = lookup_of(session, release_hardened);
    decide_entry(Route::Api, session, lookup, security, headers)
}

/// How to find the operator of a session that may be absent.
pub open spec fn session_lookup(session: Option<Session>, release_hardened: bool) -> OperatorLookup {
    match session {
        Some(session) => lookup_for(session.user_id@, uuid_number(session.user_id@), release_hardened),
        None => OperatorLookup::Impossible,
    }
}

/// How to find the operator of a session that may be absent.
fn lookup_of(session: &Option<Session>, release_hardened: bool) -> (lookup: OperatorLookup)
    ensures
        lookup == session_lookup(*session, release_hardened),
{
    match session {
        Some(session) => operator_lookup(session, release_hardened),
        None => OperatorLookup::Impossible,
    }
}

/// Whether `decision` is right once the registry has answered.
pub open spec fn settles_answer(route: Route, answer: RegistryAnswer, decision: Admission) -> bool {
    if answer is Failed {
        decision matches Admission::Refuse(Refusal::Json(reply)) && reply@ == dependency_view(
            "operator_registry_unavailable"@,
        )
    } else if admitted_operator(answer) is Some {
        decision is Admit
    } else {
        decision matches Admission::Refuse(refusal) && forbids(route, refusal)
    }
}

/// What becomes of a request once the registry has answered: an enabled operator
/// passes, and a registry that cannot be asked lets nobody through.
pub fn operator_is_enabled(route: Route, answer: &RegistryAnswer) -> (decision: Admission)
    ensures
        settles_answer(route, *answer, decision),
{
    match answer {
        RegistryAnswer::Failed => Admission::Refuse(
            Refusal::Json(dependency_error("operator_registry_unavailable")),
        ),
        _ => match enabled_operator(answer) {
            Some(_) => Admission::Admit,
            None => Admission::Refuse(forbidden(route)),
        },
    }
}

/// A release build admits nobody without an enabled operator in the registry: at
/// entry the registry is asked or the request refused, and then only an admitted operator passes.
pub proof fn law_release_admits_registered_operators_only(
    route: Route,
    session: Option<Session>,
    security: RequestSecurity,
    headers: HeaderMap,
    entry: Admission,
    answer: RegistryAnswer,
    decision: Admission,
)
    requires
        settles_entry(route, session, session_lookup(session, true), security, headers, entry),
        settles_answer(route, answer, decision),
    ensures
        !(entry is Admit),
        entry is Ask ==> session is Some && session->0.is_admin && security.host_outcome(headers) is Ok && Some(
            entry->Ask_0,
        ) == uuid_number(session->0.user_id@),
        decision is Admit ==> admitted_operator(answer) is Some,
{
}

} // verus!
