//! Dashboard sessions.
//!
//! A request presents its credential in the Authorization header or in the
//! host-only admin cookie; explicit Authorization always wins and never falls
//! back to an ambient cookie. The Shared Auth guard, outside this library, says
//! whose credential it is; only an identity of the pinned admin project with an
//! admin role becomes a session.

use axum::http::HeaderMap;
use vstd::prelude::*;
use vstd::utf8::encode_utf8;

use crate::headers::{header_texts, texts};
use crate::text::{
    debug_quoted, lemma_position_of, lemma_split_whole, position_of, quoted, same_text, split, split_on, split_once,
    starts_with, strip_prefix, trim, trim_end_matches, trimmed, white_space, without_trailing,
};

verus! {

/// The longest bearer token that is looked at, in bytes.
pub const MAX_TOKEN_BYTES: usize = 16384;

/// The name of the cookie that carries the admin session.
pub open spec fn session_cookie_name(release_hardened: bool) -> Seq<char> {
    if release_hardened {
        "__Host-fiducia_admin_session"@
    } else {
        "fiducia_admin_session"@
    }
}

/// The name of the cookie that carries the login form's nonce.
pub open spec fn csrf_cookie_name(release_hardened: bool) -> Seq<char> {
    if release_hardened {
        "__Host-fiducia_admin_login_csrf"@
    } else {
        "fiducia_admin_login_csrf"@
    }
}

/// The name of the cookie that carries the admin session.
pub fn admin_session_cookie_name(release_hardened: bool) -> (name: &'static str)
    ensures
        name@ == session_cookie_name(release_hardened),
{
    if release_hardened {
        "__Host-fiducia_admin_session"
    } else {
        "fiducia_admin_session"
    }
}

/// The name of the cookie that carries the login form's nonce.
pub fn login_csrf_cookie_name(release_hardened: bool) -> (name: &'static str)
    ensures
        name@ == csrf_cookie_name(release_hardened),
{
    if release_hardened {
        "__Host-fiducia_admin_login_csrf"
    } else {
        "fiducia_admin_login_csrf"
    }
}

/// An operator's signed-in session.
pub struct Session {
    /// The subject from the pinned admin provider project. Operator-registry
    /// joins use this value.
    pub user_id: String,
    pub email: Option<String>,
    pub is_admin: bool,
    /// What CSRF tokens of this session are bound to.
    pub credential_binding: String,
    /// Whether the session came from the admin cookie.
    pub cookie_authenticated: bool,
}

/// `user_id@example.com`.
pub open spec fn example_email(user_id: Seq<char>) -> Seq<char> {
    user_id + "@example.com"@
}

/// What a CSRF token is bound to: the kind of credential, a zero character, and
/// the credential.
pub open spec fn binding(kind: Seq<char>, credential: Seq<char>) -> Seq<char> {
    kind + "\0"@ + credential
}

/// `first` followed by `second`.
fn appended(first: &str, second: &str) -> (text: String)
    ensures
        text@ == first@ + second@,
{
    let mut text = first.to_owned();
    text.append(second);
    text
}

/// The credential binding of a `kind` of credential.
fn binding_of(kind: &str, credential: &str) -> (text: String)
    ensures
        text@ == binding(kind@, credential@),
{
    let mut text = kind.to_owned();
    text.append("\0");
    text.append(credential);
    text
}

/// What a session is logged as. The credential has no part in it.
pub open spec fn session_debug(user_id: Seq<char>, email: Option<Seq<char>>, is_admin: bool) -> Seq<char> {
    "Session { user_id: "@ + debug_quoted(user_id) + ", email: "@ + (match email {
        Some(email) => "Some("@ + debug_quoted(email) + ")"@,
        None => "None"@,
    }) + ", is_admin: "@ + (if is_admin {
        "true"@
    } else {
        "false"@
    }) + ", credential: \"[redacted]\" }"@
}

impl Clone for Session {
    fn clone(&self) -> (session: Session)
        ensures
            session == *self,
    {
        Session {
            user_id: self.user_id.clone(),
            email: match &self.email {
                Some(email) => Some(email.clone()),
                None => None,
            },
            is_admin: self.is_admin,
            credential_binding: self.credential_binding.clone(),
            cookie_authenticated: self.cookie_authenticated,
        }
    }
}

impl Session {
    /// What CSRF tokens of this session are bound to.
    pub open spec fn credential(&self) -> Seq<char> {
        self.credential_binding@
    }

    /// Whether the session came from the admin cookie.
    pub open spec fn from_cookie(&self) -> bool {
        self.cookie_authenticated
    }

    /// Whether the session belongs to a browser: its credential is ambient.
    pub open spec fn browser(&self) -> bool {
        self.from_cookie() || "development\0"@.is_prefix_of(self.credential())
    }

    /// The session that a verified credential makes.
    pub fn new(user_id: &str, email: &Option<String>, is_admin: bool, kind: &str, credential: &str, cookie: bool) -> (session: Session)
        ensures
            session.user_id@ == user_id@,
            session.email.deep_view() == email.deep_view(),
            session.is_admin == is_admin,
            session.credential() == binding(kind@, credential@),
            session.from_cookie() == cookie,
    {
        Session {
            user_id: user_id.to_owned(),
            email: match email {
                Some(email) => Some(email.clone()),
                None => None,
            },
            is_admin,
            credential_binding: binding_of(kind, credential),
            cookie_authenticated: cookie,
        }
    }

    /// What CSRF tokens of this session are bound to.
    pub fn csrf_binding(&self) -> (text: &str)
        ensures
            text@ == self.credential(),
    {
        self.credential_binding.as_str()
    }

    /// Whether the session belongs to a browser: it came from the admin cookie,
    /// or is the local development session.
    pub fn is_browser_session(&self) -> (result: bool)
        ensures
            result == self.browser(),
    {
        self.cookie_authenticated || starts_with(self.credential_binding.as_str(), "development\0")
    }

    /// A development session with the admin role.
    pub fn test_admin(user_id: &str) -> (session: Session)
        ensures
            session.user_id@ == user_id@,
            session.email.deep_view() == Some(example_email(user_id@)),
            session.is_admin,
            session.credential() == binding("development"@, user_id@),
            !session.from_cookie(),
    {
        let email = Some(appended(user_id, "@example.com"));
        Session::new(user_id, &email, true, "development", user_id, false)
    }

    /// A session with the admin role that came from the admin cookie.
    pub fn test_admin_cookie(user_id: &str, token: &str) -> (session: Session)
        ensures
            session.user_id@ == user_id@,
            session.email.deep_view() == Some(example_email(user_id@)),
            session.is_admin,
            session.credential() == binding("cookie"@, token@),
            session.from_cookie(),
    {
        let email = Some(appended(user_id, "@example.com"));
        Session::new(user_id, &email, true, "cookie", token, true)
    }

    /// A session with the admin role that came from the Authorization header.
    pub fn test_admin_bearer(user_id: &str, token: &str) -> (session: Session)
        ensures
            session.user_id@ == user_id@,
            session.email.deep_view() == Some(example_email(user_id@)),
            session.is_admin,
            session.credential() == binding("authorization"@, token@),
            !session.from_cookie(),
    {
        let email = Some(appended(user_id, "@example.com"));
        Session::new(user_id, &email, true, "authorization", token, false)
    }

    /// What the session is logged as, with its credential left out.
    pub fn debug_text(&self) -> (text: String)
        ensures
            text@ == session_debug(self.user_id@, self.email.deep_view(), self.is_admin),
    {
        let mut text = "Session { user_id: ".to_owned();
        text.append(quoted(self.user_id.as_str()).as_str());
        text.append(", email: ");
        match &self.email {
            Some(email) => {
                let mut some = "Some(".to_owned();
                some.append(quoted(email.as_str()).as_str());
                some.append(")");
                text.append(some.as_str());
            },
            None => {
                text.append("None");
            },
        }
        text.append(", is_admin: ");
        text.append(if self.is_admin { "true" } else { "false" });
        text.append(", credential: \"[redacted]\" }");
        text
    }
}

/// A bearer session and a cookie session never share a CSRF binding, and
/// neither shares one with a development session.
pub proof fn law_credential_kinds_are_separate(token: Seq<char>, other: Seq<char>)
    ensures
        binding("authorization"@, token) != binding("cookie"@, other),
        binding("authorization"@, token) != binding("development"@, other),
        binding("cookie"@, token) != binding("development"@, other),
        binding("login"@, token) != binding("cookie"@, other),
        binding("login"@, token) != binding("authorization"@, other),
        binding("login"@, token) != binding("development"@, other),
{
    reveal_strlit("authorization");
    reveal_strlit("cookie");
    reveal_strlit("development");
    reveal_strlit("login");
    assert(binding("authorization"@, token)[0] == 'a');
    assert(binding("cookie"@, token)[0] == 'c');
    assert(binding("cookie"@, other)[0] == 'c');
    assert(binding("development"@, other)[0] == 'd');
    assert(binding("login"@, token)[0] == 'l');
    assert(binding("authorization"@, other)[0] == 'a');
}

/// Only the session's own kind decides whether it is a browser's: a session
/// that came from the Authorization header never is.
pub proof fn law_bearer_is_no_browser(session: Session, token: Seq<char>)
    requires
        !session.from_cookie(),
        session.credential() == binding("authorization"@, token),
    ensures
        !session.browser(),
{
    reveal_strlit("authorization");
    reveal_strlit("development\0");
    assert(binding("authorization"@, token)[0] == 'a');
    if "development\0"@.is_prefix_of(session.credential()) {
        assert("development\0"@[0] == session.credential().subrange(0, "development\0"@.len() as int)[0]);
    }
}

/// The identity that the guard established for a credential.
pub struct Identity {
    /// The provider project the identity belongs to.
    pub project: String,
    /// The subject within that project.
    pub supabase_user_id: String,
    pub email: Option<String>,
    /// The roles Shared Auth signed.
    pub roles: Vec<String>,
}

/// Whether one of the roles is an admin role.
pub open spec fn has_admin_role(roles: Seq<Seq<char>>) -> bool {
    exists|i: int| 0 <= i < roles.len() && (#[trigger] roles[i] == "admin"@ || roles[i] == "operator"@)
}

/// Whether an identity may have a session.
pub open spec fn admissible(identity: Identity) -> bool {
    has_admin_role(identity.roles.deep_view()) && identity.project@ == "fiducia-admin"@
}

/// The session of an identity, when it belongs to the admin project and carries
/// an admin role.
pub fn session_from_identity(identity: &Identity, token: &str, cookie_authenticated: bool) -> (session: Option<Session>)
    ensures
        session is Some <==> admissible(*identity),
        session matches Some(session) ==> {
            &&& session.user_id@ == identity.supabase_user_id@
            &&& session.email.deep_view() == identity.email.deep_view()
            &&& session.is_admin
            &&& session.from_cookie() == cookie_authenticated
            &&& session.credential() == binding(
                if cookie_authenticated {
                    "cookie"@
                } else {
                    "authorization"@
                },
                token@,
            )
        },
{
    let mut is_admin: bool = false;
    let mut i: usize = 0;
    while i < identity.roles.len()
        invariant
            i <= identity.roles@.len(),
            is_admin <==> exists|j: int|
                0 <= j < i && (#[trigger] identity.roles.deep_view()[j] == "admin"@
                    || identity.roles.deep_view()[j] == "operator"@),
        decreases identity.roles@.len() - i,
    {
        let role = identity.roles[i].as_str();
        assert(identity.roles.deep_view()[i as int] == role@);
        if same_text(role, "admin") || same_text(role, "operator") {
            is_admin = true;
        }
        i = i + 1;
    }
    if !is_admin || !same_text(identity.project.as_str(), "fiducia-admin") {
        return None;
    }
    let kind = if cookie_authenticated {
        "cookie"
    } else {
        "authorization"
    };
    Some(
        Session::new(
            identity.supabase_user_id.as_str(),
            &identity.email,
            is_admin,
            kind,
            token,
            cookie_authenticated,
        ),
    )
}

/// What the guard says of a credential.
pub enum GuardOutcome {
    Authenticated(Identity),
    /// Known, but without an admin role.
    Forbidden,
    /// The role authority could not be asked.
    Degraded,
    Anonymous,
    Unauthenticated,
}

/// A verified login. The session upgrade is present only when Shared Auth issued
/// a reusable session, and is the only token that may be kept.
pub struct VerifiedSession {
    pub session: Session,
    pub session_upgrade: Option<String>,
}

/// The session that a guard decision makes, with the upgrade it carries.
pub fn verified_session(
    outcome: &GuardOutcome,
    session_upgrade: Option<String>,
    token: &str,
    cookie_authenticated: bool,
) -> (verified: Option<VerifiedSession>)
    ensures
        verified is Some <==> (outcome matches GuardOutcome::Authenticated(identity) && admissible(*identity)),
        verified matches Some(verified) ==> {
            &&& verified.session_upgrade == session_upgrade
            &&& verified.session.user_id@ == outcome->Authenticated_0.supabase_user_id@
            &&& verified.session.email.deep_view() == outcome->Authenticated_0.email.deep_view()
            &&& verified.session.is_admin
            &&& verified.session.from_cookie() == cookie_authenticated
            &&& verified.session.credential() == binding(
                if cookie_authenticated {
                    "cookie"@
                } else {
                    "authorization"@
                },
                token@,
            )
        },
{
    match outcome {
        GuardOutcome::Authenticated(identity) => match session_from_identity(
            identity,
            token,
            cookie_authenticated,
        ) {
            Some(session) => Some(VerifiedSession { session, session_upgrade }),
            None => None,
        },
        _ => None,
    }
}

/// Whether `session` is the local development session for a configured role.
/// Release builds have none.
pub open spec fn develops(session: Option<Session>, role: Option<Seq<char>>, release_hardened: bool) -> bool {
    let name = if role == Some("admin"@) {
        "dev-admin"@
    } else {
        "dev-user"@
    };
    let email = if role == Some("admin"@) {
        "admin@example.com"@
    } else {
        "user@example.com"@
    };
    &&& session is Some <==> !release_hardened && (role == Some("admin"@) || role == Some("user"@))
    &&& session matches Some(session) ==> {
        &&& session.user_id@ == name
        &&& session.email.deep_view() == Some(email)
        &&& session.is_admin == (role == Some("admin"@))
        &&& session.credential() == binding("development"@, name)
        &&& !session.from_cookie()
    }
}

/// The local development session for a configured role. Release builds have none.
pub fn dev_session(role: Option<&str>, release_hardened: bool) -> (session: Option<Session>)
    ensures
        develops(session, role.deep_view(), release_hardened),
{
    if release_hardened {
        return None;
    }
    match role {
        Some(role) => {
            if same_text(role, "admin") {
                let email = Some("admin@example.com".to_owned());
                Some(Session::new("dev-admin", &email, true, "development", "dev-admin", false))
            } else if same_text(role, "user") {
                let email = Some("user@example.com".to_owned());
                Some(Session::new("dev-user", &email, false, "development", "dev-user", false))
            } else {
                None
            }
        },
        None => None,
    }
}

/// The name and the value in one part of a Cookie header.
pub open spec fn cookie_pair(part: Seq<char>) -> Option<(Seq<char>, Seq<char>)> {
    let text = trimmed(part);
    let at = position_of(text, '=');
    if at < text.len() {
        Some((text.take(at), text.skip(at + 1)))
    } else {
        None
    }
}

/// The value that one part gives the cookie `name`: nothing when it is another
/// cookie's or blank.
pub open spec fn part_value(part: Seq<char>, name: Seq<char>) -> Option<Seq<char>> {
    match cookie_pair(part) {
        Some((found, value)) => if found == name && trimmed(value).len() > 0 {
            Some(trimmed(value))
        } else {
            None
        },
        None => None,
    }
}

/// The values that the parts of one Cookie header give the cookie `name`.
pub open spec fn part_values(parts: Seq<Seq<char>>, name: Seq<char>) -> Seq<Seq<char>>
    decreases parts.len(),
{
    if parts.len() == 0 {
        Seq::empty()
    } else {
        let before = part_values(parts.drop_last(), name);
        match part_value(parts.last(), name) {
            Some(value) => before.push(value),
            None => before,
        }
    }
}

/// The values that the readable Cookie headers give the cookie `name`.
pub open spec fn cookie_values(cookies: Seq<Option<Seq<char>>>, name: Seq<char>) -> Seq<Seq<char>>
    decreases cookies.len(),
{
    if cookies.len() == 0 {
        Seq::empty()
    } else {
        let before = cookie_values(cookies.drop_last(), name);
        match cookies.last() {
            Some(text) => before + part_values(split(text, ';'), name),
            None => before,
        }
    }
}

/// The value of a cookie that is given exactly once.
pub open spec fn single_cookie(cookies: Seq<Option<Seq<char>>>, name: Seq<char>) -> Option<Seq<char>> {
    let values = cookie_values(cookies, name);
    if values.len() == 1 {
        Some(values[0])
    } else {
        None
    }
}

/// Whether one part names the cookie `name`.
pub open spec fn part_names(part: Seq<char>, name: Seq<char>) -> bool {
    cookie_pair(part) matches Some((found, _)) && found == name
}

/// Whether some readable Cookie header names the cookie `name`, with any value.
pub open spec fn cookie_named(cookies: Seq<Option<Seq<char>>>, name: Seq<char>) -> bool {
    exists|i: int, j: int|
        0 <= i < cookies.len() && cookies[i] is Some && 0 <= j < split(cookies[i]->0, ';').len()
            && #[trigger] part_names(split(cookies[i]->0, ';')[j], name)
}

/// The value that one part gives the cookie `name`.
fn value_in_part(part: &str, name: &str) -> (value: Option<String>)
    ensures
        value.deep_view() == part_value(part@, name@),
{
    match split_once(trim(part), '=') {
        Some((found, value)) => {
            let value = trim(value);
            if same_text(found, name) && value.unicode_len() > 0 {
                Some(value.to_owned())
            } else {
                None
            }
        },
        None => None,
    }
}

/// The value of the cookie `name`, when the readable headers give it exactly
/// one; several values are as good as none.
pub fn cookie_value_in(cookies: &Vec<Option<String>>, name: &str) -> (value: Option<String>)
    ensures
        value.deep_view() == single_cookie(cookies.deep_view(), name@),
{
    let mut values: Vec<String> = Vec::new();
    let mut i: usize = 0;
    let ghost all = cookies.deep_view();
    assert(values.deep_view() =~= cookie_values(all.take(0), name@));
    while i < cookies.len()
        invariant
            i <= cookies@.len(),
            all == cookies.deep_view(),
            values.deep_view() == cookie_values(all.take(i as int), name@),
        decreases cookies@.len() - i,
    {
        assert(all[i as int] == cookies@[i as int].deep_view());
        assert(all.take(i + 1).drop_last() =~= all.take(i as int));
        if let Some(text) = &cookies[i] {
            let parts = split_on(text.as_str(), ';');
            let ghost pieces = parts.deep_view();
            let ghost before = values.deep_view();
            let mut j: usize = 0;
            assert(before + part_values(pieces.take(0), name@) =~= before);
            while j < parts.len()
                invariant
                    j <= parts@.len(),
                    pieces == parts.deep_view(),
                    values.deep_view() == before + part_values(pieces.take(j as int), name@),
                decreases parts@.len() - j,
            {
                assert(pieces[j as int] == parts@[j as int]@);
                assert(pieces.take(j + 1).drop_last() =~= pieces.take(j as int));
                let ghost so_far = values.deep_view();
                if let Some(value) = value_in_part(parts[j].as_str(), name) {
                    let ghost text = value@;
                    values.push(value);
                    assert(values.deep_view() =~= so_far.push(text));
                    assert(values.deep_view() =~= before + part_values(pieces.take(j + 1), name@));
                }
                j = j + 1;
            }
            assert(pieces.take(j as int) =~= pieces);
        }
        i = i + 1;
    }
    assert(all.take(i as int) =~= all);
    if values.len() == 1 {
        assert(values.deep_view()[0] == values@[0]@);
        Some(values[0].clone())
    } else {
        None
    }
}

/// Whether some readable header names the cookie `name`, with any value.
pub fn cookie_name_in(cookies: &Vec<Option<String>>, name: &str) -> (present: bool)
    ensures
        present == cookie_named(cookies.deep_view(), name@),
{
    let ghost all = cookies.deep_view();
    let mut i: usize = 0;
    while i < cookies.len()
        invariant
            i <= cookies@.len(),
            all == cookies.deep_view(),
            forall|k: int, j: int|
                0 <= k < i && all[k] is Some && 0 <= j < split(all[k]->0, ';').len()
                    ==> !#[trigger] part_names(split(all[k]->0, ';')[j], name@),
        decreases cookies@.len() - i,
    {
        assert(all[i as int] == cookies@[i as int].deep_view());
        if let Some(text) = &cookies[i] {
            let parts = split_on(text.as_str(), ';');
            let mut j: usize = 0;
            while j < parts.len()
                invariant
                    j <= parts@.len(),
                    i < cookies@.len(),
                    all == cookies.deep_view(),
                    all[i as int] == Some(text@),
                    parts.deep_view() == split(text@, ';'),
                    forall|l: int| 0 <= l < j ==> !#[trigger] part_names(split(text@, ';')[l], name@),
                decreases parts@.len() - j,
            {
                assert(parts.deep_view()[j as int] == parts@[j as int]@);
                if let Some((found, _)) = split_once(trim(parts[j].as_str()), '=') {
                    if same_text(found, name) {
                        assert(part_names(split(all[i as int]->0, ';')[j as int], name@));
                        return true;
                    }
                }
                j = j + 1;
            }
        }
        i = i + 1;
    }
    false
}

/// The token of a bearer credential: exactly one readable Authorization value,
/// with a token that is not blank and not too long.
pub open spec fn bearer_token(authorizations: Seq<Option<Seq<char>>>) -> Option<Seq<char>> {
    if authorizations.len() == 1 && authorizations[0] is Some && "Bearer "@.is_prefix_of(
        authorizations[0]->0,
    ) {
        let token = trimmed(authorizations[0]->0.skip("Bearer "@.len() as int));
        if token.len() > 0 && encode_utf8(token).len() <= MAX_TOKEN_BYTES {
            Some(token)
        } else {
            None
        }
    } else {
        None
    }
}

/// The token of a bearer credential among the Authorization values.
pub fn authorization_token_in(authorizations: &Vec<Option<String>>) -> (token: Option<String>)
    ensures
        token.deep_view() == bearer_token(authorizations.deep_view()),
{
    if authorizations.len() != 1 {
        return None;
    }
    assert(authorizations.deep_view()[0] == authorizations@[0].deep_view());
    match &authorizations[0] {
        Some(value) => match strip_prefix(value.as_str(), "Bearer ") {
            Some(rest) => {
                let token = trim(rest);
                if token.unicode_len() > 0 && token.as_bytes().len() <= MAX_TOKEN_BYTES {
                    Some(token.to_owned())
                } else {
                    None
                }
            },
            None => None,
        },
        None => None,
    }
}

/// The credential that a request presents.
pub enum RequestCredential {
    /// A token from the Authorization header.
    Bearer(String),
    /// A token from the admin cookie.
    Cookie(String),
    /// Something malformed or ambiguous: no session, whatever else is there.
    Refused,
    /// Nothing at all.
    Absent,
}

/// Which credential a request presents: Authorization first, then the admin
/// cookie. One that is there but unusable refuses the request.
pub open spec fn presents(
    authorizations: Seq<Option<Seq<char>>>,
    cookies: Seq<Option<Seq<char>>>,
    cookie_name: Seq<char>,
    credential: RequestCredential,
) -> bool {
    if authorizations.len() > 0 {
        match bearer_token(authorizations) {
            Some(token) => credential matches RequestCredential::Bearer(found) && found@ == token,
            None => credential is Refused,
        }
    } else {
        match single_cookie(cookies, cookie_name) {
            Some(token) => credential matches RequestCredential::Cookie(found) && found@ == token,
            None => if cookie_named(cookies, cookie_name) {
                credential is Refused
            } else {
                credential is Absent
            },
        }
    }
}

/// Which credential the given header values present.
pub fn credential_in(
    authorizations: &Vec<Option<String>>,
    cookies: &Vec<Option<String>>,
    release_hardened: bool,
) -> (credential: RequestCredential)
    ensures
        presents(
            authorizations.deep_view(),
            cookies.deep_view(),
            session_cookie_name(release_hardened),
            credential,
        ),
{
    if let Some(token) = authorization_token_in(authorizations) {
        return RequestCredential::Bearer(token);
    }
    if authorizations.len() > 0 {
        return RequestCredential::Refused;
    }
    let name = admin_session_cookie_name(release_hardened);
    if let Some(token) = cookie_value_in(cookies, name) {
        return RequestCredential::Cookie(token);
    }
    if cookie_name_in(cookies, name) {
        RequestCredential::Refused
    } else {
        RequestCredential::Absent
    }
}

/// Which credential a request presents.
pub fn request_credential(headers: &HeaderMap, release_hardened: bool) -> (credential: RequestCredential)
    ensures
        presents(
            header_texts(*headers, "authorization"@),
            header_texts(*headers, "cookie"@),
            session_cookie_name(release_hardened),
            credential,
        ),
{
    let authorizations = texts(headers, "authorization");
    let cookies = texts(headers, "cookie");
    credential_in(&authorizations, &cookies, release_hardened)
}

/// What decides a request's session.
pub enum SessionStep {
    /// The guard's word on a token.
    Verify { token: String, from_cookie: bool },
    /// It is decided.
    Settled(Option<Session>),
}

/// Whether `step` decides the session of a request that presents `credential`:
/// only a request that presents nothing can have the development session.
pub open spec fn decides(credential: RequestCredential, role: Option<Seq<char>>, release_hardened: bool, step: SessionStep) -> bool {
    match credential {
        RequestCredential::Bearer(token) => step == (SessionStep::Verify { token, from_cookie: false }),
        RequestCredential::Cookie(token) => step == (SessionStep::Verify { token, from_cookie: true }),
        RequestCredential::Refused => step == SessionStep::Settled(None),
        RequestCredential::Absent => step matches SessionStep::Settled(session) && develops(
            session,
            role,
            release_hardened,
        ),
    }
}

/// What decides the session of a request that presents `credential`.
pub fn session_step(credential: RequestCredential, dev_role: Option<&str>, release_hardened: bool) -> (step: SessionStep)
    ensures
        decides(credential, dev_role.deep_view(), release_hardened, step),
{
    match credential {
        RequestCredential::Bearer(token) => SessionStep::Verify { token, from_cookie: false },
        RequestCredential::Cookie(token) => SessionStep::Verify { token, from_cookie: true },
        RequestCredential::Refused => SessionStep::Settled(None),
        RequestCredential::Absent => SessionStep::Settled(dev_session(dev_role, release_hardened)),
    }
}

/// What decides the session of a request.
pub fn current(headers: &HeaderMap, dev_role: Option<&str>, release_hardened: bool) -> (step: SessionStep)
    ensures
        exists|credential: RequestCredential|
            presents(
                header_texts(*headers, "authorization"@),
                header_texts(*headers, "cookie"@),
                session_cookie_name(release_hardened),
                credential,
            ) && #[trigger] decides(credential, dev_role.deep_view(), release_hardened, step),
{
    let credential = request_credential(headers, release_hardened);
    let ghost presented = credential;
    let step = session_step(credential, dev_role, release_hardened);
    assert(decides(presented, dev_role.deep_view(), release_hardened, step));
    step
}

/// The value of the cookie `expected_name`, when the request gives exactly one.
pub fn cookie_value(headers: &HeaderMap, expected_name: &str) -> (value: Option<String>)
    ensures
        value.deep_view() == single_cookie(header_texts(*headers, "cookie"@), expected_name@),
{
    cookie_value_in(&texts(headers, "cookie"), expected_name)
}

/// Whether the request names the cookie `expected_name`.
pub fn cookie_name_present(headers: &HeaderMap, expected_name: &str) -> (present: bool)
    ensures
        present == cookie_named(header_texts(*headers, "cookie"@), expected_name@),
{
    cookie_name_in(&texts(headers, "cookie"), expected_name)
}

/// The value of the admin session cookie.
pub fn session_cookie(headers: &HeaderMap, release_hardened: bool) -> (value: Option<String>)
    ensures
        value.deep_view() == single_cookie(
            header_texts(*headers, "cookie"@),
            session_cookie_name(release_hardened),
        ),
{
    cookie_value(headers, admin_session_cookie_name(release_hardened))
}

/// The request's bearer token.
pub fn authorization_token(headers: &HeaderMap) -> (token: Option<String>)
    ensures
        token.deep_view() == bearer_token(header_texts(*headers, "authorization"@)),
{
    authorization_token_in(&texts(headers, "authorization"))
}

/// A request with any Authorization value never falls back to its cookies.
pub proof fn law_authorization_never_falls_back(
    authorizations: Seq<Option<Seq<char>>>,
    cookies: Seq<Option<Seq<char>>>,
    cookie_name: Seq<char>,
    credential: RequestCredential,
)
    requires
        authorizations.len() > 0,
        presents(authorizations, cookies, cookie_name, credential),
    ensures
        credential is Bearer || credential is Refused,
        authorizations.len() > 1 ==> credential is Refused,
{
}

/// A cookie that a request gives more than once is never used.
pub proof fn law_duplicate_cookies_are_refused(
    cookies: Seq<Option<Seq<char>>>,
    cookie_name: Seq<char>,
    credential: RequestCredential,
)
    requires
        cookie_values(cookies, cookie_name).len() > 1,
        presents(Seq::empty(), cookies, cookie_name, credential),
    ensures
        credential is Refused,
{
    lemma_valued_cookie_is_named(cookies, cookie_name);
}

/// A cookie with a value is named.
proof fn lemma_valued_cookie_is_named(cookies: Seq<Option<Seq<char>>>, name: Seq<char>)
    ensures
        cookie_values(cookies, name).len() > 0 ==> cookie_named(cookies, name),
    decreases cookies.len(),
{
    if cookies.len() > 0 && cookie_values(cookies, name).len() > 0 {
        let front = cookies.drop_last();
        let last = cookies.len() - 1;
        lemma_valued_cookie_is_named(front, name);
        if cookie_values(front, name).len() > 0 {
            let (i, j) = choose|i: int, j: int|
                0 <= i < front.len() && front[i] is Some && 0 <= j < split(front[i]->0, ';').len()
                    && #[trigger] part_names(split(front[i]->0, ';')[j], name);
            assert(cookies[i] == front[i]);
            assert(part_names(split(cookies[i]->0, ';')[j], name));
        } else {
            let parts = split(cookies[last]->0, ';');
            let j = lemma_valued_part_is_named(parts, name);
            assert(part_names(split(cookies[last]->0, ';')[j], name));
        }
    }
}

/// Among parts with a value for a cookie, one names it.
proof fn lemma_valued_part_is_named(parts: Seq<Seq<char>>, name: Seq<char>) -> (at: int)
    requires
        part_values(parts, name).len() > 0,
    ensures
        0 <= at < parts.len(),
        part_names(parts[at], name),
    decreases parts.len(),
{
    if part_value(parts.last(), name) is Some {
        parts.len() - 1
    } else {
        lemma_valued_part_is_named(parts.drop_last(), name)
    }
}

/// What a browser sends back of a cookie that was set.
pub open spec fn cookie_header(name: Seq<char>, value: Seq<char>) -> Seq<char> {
    name + "="@ + value
}

/// Whether a text can be the value of a cookie: not empty, without a semicolon,
/// and without white space at its ends.
pub open spec fn fits_a_cookie(value: Seq<char>) -> bool {
    &&& value.len() > 0
    &&& !white_space(value[0])
    &&& !white_space(value.last())
    &&& forall|i: int| 0 <= i < value.len() ==> value[i] != ';'
}

/// A cookie that comes back as it was set is read as it was set.
proof fn lemma_cookie_reads_back(name: Seq<char>, value: Seq<char>)
    requires
        name.len() > 0,
        !white_space(name[0]),
        forall|i: int| 0 <= i < name.len() ==> name[i] != ';' && name[i] != '=',
        fits_a_cookie(value),
    ensures
        single_cookie(seq![Some(cookie_header(name, value))], name) == Some(value),
{
    reveal_strlit("=");
    let text = cookie_header(name, value);
    let at = name.len() as int;
    assert forall|i: int| 0 <= i < text.len() implies text[i] != ';' by {
        if i < at {
            assert(text[i] == name[i]);
        } else if i > at {
            assert(text[i] == value[i - at - 1]);
        }
    }
    lemma_split_whole(text, ';');
    assert(text[0] == name[0]);
    assert(text.last() == value.last());
    assert(trimmed(text) == text);
    assert(trimmed(value) == value);
    assert(text[at] == '=');
    assert forall|j: int| 0 <= j < at implies text[j] != '=' by {
        assert(text[j] == name[j]);
    }
    lemma_position_of(text, '=', at);
    assert(text.take(at) =~= name);
    assert(text.skip(at + 1) =~= value);
    assert(part_value(text, name) == Some(value));
    let parts = seq![text];
    assert(parts.drop_last() =~= Seq::empty());
    assert(part_values(parts.drop_last(), name) =~= Seq::empty());
    assert(part_values(parts, name) =~= seq![value]);
    let cookies = seq![Some(text)];
    assert(cookies.drop_last() =~= Seq::empty());
    assert(cookie_values(cookies.drop_last(), name) =~= Seq::empty());
    assert(cookie_values(cookies, name) =~= seq![value]);
}

/// The session cookie and the login cookie, sent back as they were set, are read
/// as they were set; and of the two, neither is taken for the other.
pub proof fn law_own_cookies_read_back(release_hardened: bool, value: Seq<char>)
    requires
        fits_a_cookie(value),
    ensures
        ({
            let session = session_cookie_name(release_hardened);
            let login = csrf_cookie_name(release_hardened);
            &&& single_cookie(seq![Some(cookie_header(session, value))], session) == Some(value)
            &&& single_cookie(seq![Some(cookie_header(login, value))], login) == Some(value)
            &&& session != login
        }),
{
    reveal_strlit("__Host-fiducia_admin_session");
    reveal_strlit("fiducia_admin_session");
    reveal_strlit("__Host-fiducia_admin_login_csrf");
    reveal_strlit("fiducia_admin_login_csrf");
    lemma_cookie_reads_back(session_cookie_name(release_hardened), value);
    lemma_cookie_reads_back(csrf_cookie_name(release_hardened), value);
    assert(session_cookie_name(release_hardened).len() != csrf_cookie_name(release_hardened).len());
}

/// A release build has no session but one that the guard vouches for: whatever is
/// configured for development, a request is verified or has none.
pub proof fn law_release_sessions_are_verified(credential: RequestCredential, role: Option<Seq<char>>, step: SessionStep)
    requires
        decides(credential, role, true, step),
    ensures
        step is Verify || step == SessionStep::Settled(None),
{
}

/// A required setting: its value without surrounding white space.
pub open spec fn setting(value: Option<Seq<char>>) -> Option<Seq<char>> {
    match value {
        Some(value) => if trimmed(value).len() > 0 {
            Some(trimmed(value))
        } else {
            None
        },
        None => None,
    }
}

/// `name must be set`.
pub open spec fn must_be_set(name: Seq<char>) -> Seq<char> {
    name + " must be set"@
}

/// A required setting: its value without surrounding white space, or what to
/// tell the operator when it is unset or blank.
pub fn required_setting(name: &str, value: Option<&str>) -> (result: Result<String, String>)
    ensures
        match result {
            Ok(text) => setting(value.deep_view()) == Some(text@),
            Err(error) => setting(value.deep_view()) is None && error@ == must_be_set(name@),
        },
{
    match value {
        Some(value) => {
            let value = trim(value);
            if value.unicode_len() > 0 {
                Ok(value.to_owned())
            } else {
                Err(appended(name, " must be set"))
            }
        },
        None => Err(appended(name, " must be set")),
    }
}

/// The configured values that the guard is built from, as they stand.
pub struct GuardSettings {
    pub issuer: Option<String>,
    pub audience: Option<String>,
    pub supabase_url: Option<String>,
    pub supabase_api_key: Option<String>,
    pub introspect_secret: Option<String>,
}

/// What the guard is built with.
pub struct GuardConfig {
    pub shared_auth_base: String,
    pub issuer: String,
    pub audience: String,
    pub supabase_url: String,
    pub supabase_api_key: String,
    pub project: String,
    pub introspect_secret: String,
    pub required_roles: Vec<String>,
    pub arm_timeout_seconds: u64,
    pub race_deadline_seconds: u64,
    pub jwks_ttl_seconds: u64,
}

/// A setting that is there.
pub open spec fn is_set(value: Option<String>) -> bool {
    setting(value.deep_view()) is Some
}

/// The first thing wrong with the settings, in the order in which they are read.
pub open spec fn settings_error(shared_auth_base: Seq<char>, settings: GuardSettings) -> Option<Seq<char>> {
    if without_trailing(shared_auth_base, '/').len() == 0 {
        Some(must_be_set("SHARED_AUTH_URL"@))
    } else if !is_set(settings.issuer) {
        Some(must_be_set("SHARED_AUTH_ISSUER"@))
    } else if !is_set(settings.audience) {
        Some(must_be_set("SHARED_AUTH_AUDIENCE"@))
    } else if !is_set(settings.supabase_url) {
        Some(must_be_set("SUPABASE_URL"@))
    } else if !is_set(settings.supabase_api_key) {
        Some(must_be_set("SUPABASE_PUBLISHABLE_KEY"@))
    } else if !is_set(settings.introspect_secret) {
        Some(must_be_set("SHARED_AUTH_INTROSPECT_SECRET"@))
    } else {
        None
    }
}

/// The text behind an optional string.
fn borrowed(text: &Option<String>) -> (out: Option<&str>)
    ensures
        out.deep_view() == text.deep_view(),
{
    match text {
        Some(text) => Some(text.as_str()),
        None => None,
    }
}

/// Validates the Shared Auth and provider settings at startup, and gives what
/// the guard is built with: the admin project, its two admin roles, and the
/// time limits.
pub fn initialize(shared_auth_base: &str, settings: &GuardSettings) -> (config: Result<GuardConfig, String>)
    ensures
        match config {
            Ok(config) => {
                &&& settings_error(shared_auth_base@, *settings) is None
                &&& config.shared_auth_base@ == without_trailing(shared_auth_base@, '/')
                &&& setting(settings.issuer.deep_view()) == Some(config.issuer@)
                &&& setting(settings.audience.deep_view()) == Some(config.audience@)
                &&& setting(settings.supabase_url.deep_view()) == Some(config.supabase_url@)
                &&& setting(settings.supabase_api_key.deep_view()) == Some(config.supabase_api_key@)
                &&& setting(settings.introspect_secret.deep_view()) == Some(config.introspect_secret@)
                &&& config.project@ == "fiducia-admin"@
                &&& config.required_roles.deep_view() == seq!["admin"@, "operator"@]
                &&& config.arm_timeout_seconds == 10
                &&& config.race_deadline_seconds == 12
                &&& config.jwks_ttl_seconds == 300
            },
            Err(error) => settings_error(shared_auth_base@, *settings) == Some(error@),
        },
{
    let base = trim_end_matches(shared_auth_base, '/');
    if base.unicode_len() == 0 {
        return Err(appended("SHARED_AUTH_URL", " must be set"));
    }
    let issuer = match required_setting("SHARED_AUTH_ISSUER", borrowed(&settings.issuer)) {
        Ok(value) => value,
        Err(error) => return Err(error),
    };
    let audience = match required_setting("SHARED_AUTH_AUDIENCE", borrowed(&settings.audience)) {
        Ok(value) => value,
        Err(error) => return Err(error),
    };
    let supabase_url = match required_setting("SUPABASE_URL", borrowed(&settings.supabase_url)) {
        Ok(value) => value,
        Err(error) => return Err(error),
    };
    let supabase_api_key = match required_setting(
        "SUPABASE_PUBLISHABLE_KEY",
        borrowed(&settings.supabase_api_key),
    ) {
        Ok(value) => value,
        Err(error) => return Err(error),
    };
    let introspect_secret = match required_setting(
        "SHARED_AUTH_INTROSPECT_SECRET",
        borrowed(&settings.introspect_secret),
    ) {
        Ok(value) => value,
        Err(error) => return Err(error),
    };
    let mut required_roles: Vec<String> = Vec::new();
    required_roles.push("admin".to_owned());
    required_roles.push("operator".to_owned());
    assert(required_roles.deep_view() =~= seq!["admin"@, "operator"@]);
    Ok(
        GuardConfig {
            shared_auth_base: base.to_owned(),
            issuer,
            audience,
            supabase_url,
            supabase_api_key,
            project: "fiducia-admin".to_owned(),
            introspect_secret,
            required_roles,
            arm_timeout_seconds: 10,
            race_deadline_seconds: 12,
            jwks_ttl_seconds: 300,
        },
    )
}

/// Whether the guard that was built once may serve a request: its base URL must
/// be the one the request was configured with.
pub fn check_guard_base(config: &GuardConfig, shared_auth_base: &str) -> (result: Result<(), String>)
    ensures
        match result {
            Ok(_) => config.shared_auth_base@ == without_trailing(shared_auth_base@, '/'),
            Err(error) => config.shared_auth_base@ != without_trailing(shared_auth_base@, '/') && error@
                == "Shared Auth base URL changed after guard initialization"@,
        },
{
    if same_text(config.shared_auth_base.as_str(), trim_end_matches(shared_auth_base, '/')) {
        Ok(())
    } else {
        Err("Shared Auth base URL changed after guard initialization".to_owned())
    }
}

} // verus!
