use axum::http::{HeaderMap, HeaderValue};
use fiducia_admin::guards::{
    is_htmx, login_binding, require_form_security, require_login_security, require_sync_write_security,
};
use fiducia_admin::request_security::{RequestSecurity, RequestSecurityError};
use fiducia_admin::response_headers::{security_headers, ResponseHeader};
use fiducia_admin::session::{login_csrf_cookie_name, Session};
use fiducia_admin::streaming::admin_ws;

fn security() -> RequestSecurity {
    RequestSecurity::new("https://admin.fiducia.cloud", b"0123456789abcdef0123456789abcdef".to_vec()).unwrap()
}

fn browser_headers(origin: &str) -> HeaderMap {
    let mut headers = HeaderMap::new();
    headers.insert("host", HeaderValue::from_static("admin.fiducia.cloud"));
    headers.insert("origin", HeaderValue::from_str(origin).unwrap());
    headers.insert("sec-fetch-site", HeaderValue::from_static("same-origin"));
    headers
}

fn value_of<'a>(headers: &'a [ResponseHeader], name: &str) -> Option<&'a str> {
    headers.iter().find(|header| header.name == name).map(|header| header.value)
}

#[test]
fn form_security_requires_exact_origin_and_credential_bound_token() {
    let security = security();
    let session = Session::test_admin("dev-admin");
    let csrf = security.csrf_token(session.csrf_binding());

    assert!(require_form_security(&browser_headers("https://admin.fiducia.cloud"), &security, &session, &csrf).is_ok());
    assert!(require_form_security(&browser_headers("https://app.fiducia.cloud"), &security, &session, &csrf).is_err());
    assert!(require_form_security(&browser_headers("https://admin.fiducia.cloud"), &security, &session, "tampered")
        .is_err());
}

#[test]
fn login_security_requires_exact_origin_host_cookie_and_bound_token() {
    let security = security();
    let nonce = "unit-test-login-nonce";
    let csrf = security.csrf_token(&format!("login\0{nonce}"));
    let mut exact = browser_headers("https://admin.fiducia.cloud");
    exact.insert("cookie", format!("{}={nonce}", login_csrf_cookie_name(false)).parse().unwrap());
    assert!(require_login_security(&exact, &security, false, &csrf).is_ok());

    let mut sibling = exact.clone();
    sibling.insert("origin", HeaderValue::from_static("https://app.fiducia.cloud"));
    assert!(require_login_security(&sibling, &security, false, &csrf).is_err());

    let mut missing_cookie = exact;
    missing_cookie.remove("cookie");
    assert!(require_login_security(&missing_cookie, &security, false, &csrf).is_err());
}

#[test]
fn sync_security_distinguishes_cookie_and_bearer_provenance() {
    let security = security();
    let cookie_session = Session::test_admin_cookie("operator-a", "cookie.jwt");
    let csrf = security.csrf_token(cookie_session.csrf_binding());
    let mut cookie_headers = browser_headers("https://admin.fiducia.cloud");
    cookie_headers.insert("x-fiducia-csrf", HeaderValue::from_str(&csrf).unwrap());
    assert!(require_sync_write_security(&cookie_headers, &security, &cookie_session).is_ok());

    cookie_headers.remove("x-fiducia-csrf");
    assert!(require_sync_write_security(&cookie_headers, &security, &cookie_session).is_err());

    let bearer_session = Session::test_admin_bearer("operator-a", "bearer.jwt");
    let mut bearer_headers = HeaderMap::new();
    bearer_headers.insert("host", HeaderValue::from_static("admin.fiducia.cloud"));
    assert!(require_sync_write_security(&bearer_headers, &security, &bearer_session).is_ok());

    bearer_headers.insert("origin", HeaderValue::from_static("https://app.fiducia.cloud"));
    assert!(require_sync_write_security(&bearer_headers, &security, &bearer_session).is_err());
}

#[test]
fn response_headers_deny_framing() {
    let headers = security_headers("/healthz");
    assert_eq!(value_of(&headers, "x-frame-options"), Some("DENY"));
    assert!(value_of(&headers, "content-security-policy").is_some_and(|value| value.contains("frame-ancestors 'none'")));
    assert!(value_of(&headers, "cache-control").is_none());
}

#[test]
fn dynamic_responses_are_never_cached() {
    let headers = security_headers("/login");
    assert_eq!(value_of(&headers, "cache-control"), Some("no-store"));
}

#[test]
fn response_headers_read_as_a_whole() {
    let headers = security_headers("/assets/admin.css");
    assert_eq!(headers.len(), 4);
    assert_eq!(value_of(&headers, "x-content-type-options"), Some("nosniff"));
    assert_eq!(value_of(&headers, "referrer-policy"), Some("same-origin"));
    assert_eq!(
        value_of(&headers, "content-security-policy"),
        Some(
            "default-src 'self'; script-src 'self' 'wasm-unsafe-eval'; style-src 'self'; img-src 'self' data:; \
             connect-src 'self'; font-src 'self'; frame-ancestors 'none'; base-uri 'none'; form-action 'self'; \
             object-src 'none'"
        )
    );
    assert_eq!(value_of(&security_headers("/assets"), "cache-control"), Some("no-store"));
}

#[test]
fn no_mutation_passes_on_another_host() {
    let security = security();
    let session = Session::test_admin_cookie("operator-a", "cookie.jwt");
    let csrf = security.csrf_token(session.csrf_binding());
    let mut headers = browser_headers("https://admin.fiducia.cloud");
    headers.insert("host", HeaderValue::from_static("evil.example"));
    headers.insert("x-fiducia-csrf", HeaderValue::from_str(&csrf).unwrap());
    let mismatch = Err(RequestSecurityError::MismatchedHost);
    assert_eq!(require_form_security(&headers, &security, &session, &csrf), mismatch);
    assert_eq!(require_sync_write_security(&headers, &security, &session), mismatch);
    assert_eq!(require_login_security(&headers, &security, true, &csrf), mismatch);
}

#[test]
fn htmx_requests_are_recognized_by_their_header() {
    let mut headers = HeaderMap::new();
    assert!(!is_htmx(&headers));
    headers.insert("hx-request", HeaderValue::from_static("true"));
    assert!(is_htmx(&headers));
    assert_eq!(login_binding("n"), "login\0n");
}

#[test]
fn pages_of_sibling_origins_can_neither_post_nor_open_a_socket() {
    let security = security();
    let session = Session::test_admin_cookie("op", "verified.jwt");
    let token = security.csrf_token(session.csrf_binding());
    let own = browser_headers("https://admin.fiducia.cloud");
    assert!(admin_ws(&own, &security).is_ok());
    let sibling = browser_headers("https://app.fiducia.cloud");
    match admin_ws(&sibling, &security) {
        Ok(()) => panic!("a sibling opened a socket"),
        Err(reply) => {
            assert_eq!(reply.status, 403);
            assert_eq!(
                reply.body.to_text(),
                r#"{"error":"admin_request_rejected","reason":"mismatched_origin"}"#
            );
        }
    }
    assert!(require_form_security(&sibling, &security, &session, &token).is_err());
    let bearer = Session::test_admin_bearer("op", "verified.jwt");
    assert!(require_sync_write_security(&sibling, &security, &bearer).is_err());
}
