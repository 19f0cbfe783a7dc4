//! The cookies the admin plane sets.

use vstd::prelude::*;

use crate::session::{admin_session_cookie_name, csrf_cookie_name, login_csrf_cookie_name, session_cookie_name};

verus! {

/// How cookies are set in this build.
#[derive(Clone, Copy, Debug, Eq, PartialEq, Structural)]
pub struct CookiePolicy {
    /// Whether this is a release build: its cookies carry the host prefix and
    /// are always secure.
    pub release_hardened: bool,
    /// Whether plain-HTTP cookies were explicitly asked for.
    pub insecure_http: bool,
}

/// What makes a cookie secure: always in release builds, and everywhere unless
/// plain HTTP was asked for.
pub open spec fn secure_suffix(release_hardened: bool, insecure_http: bool) -> Seq<char> {
    if release_hardened || !insecure_http {
        "; Secure"@
    } else {
        ""@
    }
}

/// What makes a cookie secure.
pub fn cookie_secure_suffix_for(release_hardened: bool, insecure_http_explicitly_enabled: bool) -> (suffix: &'static str)
    ensures
        suffix@ == secure_suffix(release_hardened, insecure_http_explicitly_enabled),
{
    if release_hardened || !insecure_http_explicitly_enabled {
        "; Secure"
    } else {
        ""
    }
}

/// A cookie for this host alone, out of reach of scripts and of other sites.
pub open spec fn cookie_text(name: Seq<char>, value: Seq<char>, lifetime: Seq<char>, policy: CookiePolicy) -> Seq<char> {
    name + "="@ + value + "; Path=/; HttpOnly; SameSite=Strict"@ + lifetime + secure_suffix(
        policy.release_hardened,
        policy.insecure_http,
    )
}

/// A cookie for this host alone.
fn cookie(name: &str, value: &str, lifetime: &str, policy: CookiePolicy) -> (text: String)
    ensures
        text@ == cookie_text(name@, value@, lifetime@, policy),
{
    let mut text = name.to_owned();
    text.append("=");
    text.append(value);
    text.append("; Path=/; HttpOnly; SameSite=Strict");
    text.append(lifetime);
    text.append(cookie_secure_suffix_for(policy.release_hardened, policy.insecure_http));
    text
}

/// The cookie that carries a login form's nonce, for ten minutes.
pub fn make_login_csrf_cookie(nonce: &str, policy: CookiePolicy) -> (text: String)
    ensures
        text@ == cookie_text(csrf_cookie_name(policy.release_hardened), nonce@, "; Max-Age=600"@, policy),
{
    cookie(login_csrf_cookie_name(policy.release_hardened), nonce, "; Max-Age=600", policy)
}

/// The cookie that takes a login form's nonce back.
pub fn clear_login_csrf_cookie(policy: CookiePolicy) -> (text: String)
    ensures
        text@ == cookie_text(csrf_cookie_name(policy.release_hardened), ""@, "; Max-Age=0"@, policy),
{
    cookie(login_csrf_cookie_name(policy.release_hardened), "", "; Max-Age=0", policy)
}

/// The cookie that carries the admin session, for as long as the browser runs.
pub fn make_session_cookie(token: &str, policy: CookiePolicy) -> (text: String)
    ensures
        text@ == cookie_text(session_cookie_name(policy.release_hardened), token@, ""@, policy),
{
    cookie(admin_session_cookie_name(policy.release_hardened), token, "", policy)
}

/// The cookie that takes the admin session back.
pub fn clear_session_cookie(policy: CookiePolicy) -> (text: String)
    ensures
        text@ == cookie_text(session_cookie_name(policy.release_hardened), ""@, "; Max-Age=0"@, policy),
{
    cookie(admin_session_cookie_name(policy.release_hardened), "", "; Max-Age=0", policy)
}

/// A release build's cookies are secure and bound to the host, whatever else is
/// configured.
pub proof fn law_release_cookies_are_hardened(policy: CookiePolicy, value: Seq<char>, lifetime: Seq<char>)
    requires
        policy.release_hardened,
    ensures
        "__Host-"@.is_prefix_of(cookie_text(session_cookie_name(true), value, lifetime, policy)),
        "__Host-"@.is_prefix_of(cookie_text(csrf_cookie_name(true), value, lifetime, policy)),
        "; Secure"@.is_suffix_of(cookie_text(session_cookie_name(true), value, lifetime, policy)),
        "; Secure"@.is_suffix_of(cookie_text(csrf_cookie_name(true), value, lifetime, policy)),
{
    reveal_strlit("__Host-");
    reveal_strlit("__Host-fiducia_admin_session");
    reveal_strlit("__Host-fiducia_admin_login_csrf");
    let session = cookie_text(session_cookie_name(true), value, lifetime, policy);
    let login = cookie_text(csrf_cookie_name(true), value, lifetime, policy);
    assert("__Host-"@ =~= session.subrange(0, "__Host-"@.len() as int));
    assert("__Host-"@ =~= login.subrange(0, "__Host-"@.len() as int));
    assert("; Secure"@ =~= session.subrange(session.len() - "; Secure"@.len(), session.len() as int));
    assert("; Secure"@ =~= login.subrange(login.len() - "; Secure"@.len(), login.len() as int));
}

} // verus!
