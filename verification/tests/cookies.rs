use axum::http::{HeaderMap, HeaderValue};
use fiducia_admin::config::{
    explicitly_enabled, grafana_public_url_is_valid, validated_grafana_public_url,
};
use fiducia_admin::cookies::{
    clear_login_csrf_cookie, clear_session_cookie, cookie_secure_suffix_for, make_login_csrf_cookie,
    make_session_cookie, CookiePolicy,
};
use fiducia_admin::admission::operator_registry_role_allows_access;
use fiducia_admin::session::{admin_session_cookie_name, cookie_value, login_csrf_cookie_name, session_cookie};

const RELEASE: CookiePolicy = CookiePolicy { release_hardened: true, insecure_http: true };
const LOCAL: CookiePolicy = CookiePolicy { release_hardened: false, insecure_http: true };

#[test]
fn logout_expires_only_the_admin_cookie() {
    for policy in [RELEASE, LOCAL] {
        let cookie = clear_session_cookie(policy);
        assert!(cookie.starts_with(&format!("{}=", admin_session_cookie_name(policy.release_hardened))));
        assert!(cookie.contains("Max-Age=0"));
        assert!(cookie.contains("HttpOnly"));
        assert!(cookie.contains("SameSite=Strict"));
        assert!(cookie.contains("Path=/"));
        assert!(!cookie.contains("Domain="));
        assert!(!cookie.contains("fiducia_session="));
        if policy.release_hardened {
            assert!(cookie.starts_with("__Host-"));
            assert!(cookie.contains("; Secure"));
        }
    }
}

#[test]
fn only_mutating_registry_roles_are_enabled() {
    for role in ["owner", "admin", "operator"] {
        assert!(operator_registry_role_allows_access(role), "role={role}");
    }
    for role in ["viewer", "authenticated", "customer", ""] {
        assert!(!operator_registry_role_allows_access(role), "role={role}");
    }
}

#[test]
fn insecure_cookie_escape_requires_an_explicit_truthy_value() {
    assert!(explicitly_enabled(Some("1")));
    assert!(explicitly_enabled(Some("true")));
    assert!(explicitly_enabled(Some(" TRUE ")));
    assert!(!explicitly_enabled(None));
    assert!(!explicitly_enabled(Some("0")));
    assert!(!explicitly_enabled(Some("yes")));
    assert_eq!(cookie_secure_suffix_for(false, true), "");
    assert_eq!(cookie_secure_suffix_for(false, false), "; Secure");
    assert_eq!(cookie_secure_suffix_for(true, true), "; Secure");
    assert_eq!(cookie_secure_suffix_for(true, false), "; Secure");
}

#[test]
fn release_cookie_names_are_host_prefixed() {
    assert_eq!(admin_session_cookie_name(true), "__Host-fiducia_admin_session");
    assert_eq!(login_csrf_cookie_name(true), "__Host-fiducia_admin_login_csrf");
}

#[test]
fn grafana_public_url_validation_rejects_dangerous_schemes() {
    assert!(grafana_public_url_is_valid("https://grafana.example.com"));
    assert!(grafana_public_url_is_valid("http://dd-grafana:3000"));
    assert!(grafana_public_url_is_valid("/telemetry"));
    assert!(!grafana_public_url_is_valid("javascript:alert(1)"));
    assert!(!grafana_public_url_is_valid("data:text/html,<script>1</script>"));
    assert!(!grafana_public_url_is_valid("//evil.example.com"));
    assert!(!grafana_public_url_is_valid("ftp://grafana"));
    assert!(!grafana_public_url_is_valid("telemetry"));
    assert!(validated_grafana_public_url(Some("javascript:alert(1)")).is_err());
    assert_eq!(
        validated_grafana_public_url(Some("/telemetry")).unwrap(),
        Some("/telemetry".to_string())
    );
    assert_eq!(validated_grafana_public_url(None).unwrap(), None);
}

#[test]
fn cookies_read_as_a_whole() {
    assert_eq!(
        make_session_cookie("abc.def", RELEASE),
        "__Host-fiducia_admin_session=abc.def; Path=/; HttpOnly; SameSite=Strict; Secure"
    );
    assert_eq!(
        make_session_cookie("abc.def", LOCAL),
        "fiducia_admin_session=abc.def; Path=/; HttpOnly; SameSite=Strict"
    );
    assert_eq!(
        make_login_csrf_cookie("n0nce", RELEASE),
        "__Host-fiducia_admin_login_csrf=n0nce; Path=/; HttpOnly; SameSite=Strict; Max-Age=600; Secure"
    );
    assert_eq!(
        clear_login_csrf_cookie(LOCAL),
        "fiducia_admin_login_csrf=; Path=/; HttpOnly; SameSite=Strict; Max-Age=0"
    );
}

#[test]
fn cookies_come_back_as_they_were_set() {
    for release_hardened in [true, false] {
        let policy = CookiePolicy { release_hardened, insecure_http: false };
        let set = make_session_cookie("header.payload.signature", policy);
        let back = set.split(';').next().unwrap();
        let mut headers = HeaderMap::new();
        headers.insert("cookie", HeaderValue::from_str(back).unwrap());
        assert_eq!(session_cookie(&headers, release_hardened).as_deref(), Some("header.payload.signature"));
        assert_eq!(cookie_value(&headers, login_csrf_cookie_name(release_hardened)), None);
    }
}
