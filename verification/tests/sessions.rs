use axum::http::{HeaderMap, HeaderName, HeaderValue};
use fiducia_admin::session::{
    admin_session_cookie_name, authorization_token, check_guard_base, cookie_name_present, current, dev_session,
    initialize, session_cookie, session_from_identity, verified_session, GuardOutcome, GuardSettings, Identity, Session,
    SessionStep,
};

fn headers_with(name: &str, value: &str) -> HeaderMap {
    let mut headers = HeaderMap::new();
    headers.insert(HeaderName::from_bytes(name.as_bytes()).unwrap(), value.parse().unwrap());
    headers
}

fn identity(project: &str, roles: &[&str]) -> Identity {
    Identity {
        project: project.to_string(),
        supabase_user_id: "11111111-1111-4111-8111-111111111111".to_string(),
        email: Some("operator@example.com".to_string()),
        roles: roles.iter().map(|role| (*role).to_string()).collect(),
    }
}

#[test]
fn admin_identity_maps_to_provider_subject_and_redacts_credential() {
    let session = session_from_identity(&identity("fiducia-admin", &["operator"]), "secret-token", true).unwrap();
    assert_eq!(session.user_id, "11111111-1111-4111-8111-111111111111");
    assert!(session.is_admin);
    assert!(session.is_browser_session());
    let debug = session.debug_text();
    assert!(debug.contains("[redacted]"));
    assert!(!debug.contains("secret-token"));
}

#[test]
fn customer_or_wrong_project_identity_cannot_create_admin_session() {
    assert!(session_from_identity(&identity("fiducia-admin", &["customer"]), "token", false).is_none());
    assert!(session_from_identity(&identity("fiducia-customer", &["admin"]), "token", false).is_none());
}

#[test]
fn authorization_token_reads_one_bounded_bearer() {
    let headers = headers_with("authorization", "Bearer abc.def");
    assert_eq!(authorization_token(&headers).as_deref(), Some("abc.def"));
}

#[test]
fn duplicate_authorization_headers_are_rejected() {
    let mut headers = HeaderMap::new();
    headers.append("authorization", "Bearer first".parse().unwrap());
    headers.append("authorization", "Bearer second".parse().unwrap());
    assert!(authorization_token(&headers).is_none());
}

#[test]
fn duplicate_admin_cookies_are_rejected() {
    for release_hardened in [false, true] {
        let name = admin_session_cookie_name(release_hardened);
        let headers = headers_with("cookie", &format!("{name}=first; {name}=second"));
        assert!(session_cookie(&headers, release_hardened).is_none());
        assert!(cookie_name_present(&headers, name));
    }
}

#[test]
fn tokens_are_trimmed_and_bounded() {
    assert_eq!(authorization_token(&headers_with("authorization", "Bearer  abc ")).as_deref(), Some("abc"));
    assert!(authorization_token(&headers_with("authorization", "Bearer ")).is_none());
    assert!(authorization_token(&headers_with("authorization", "bearer abc")).is_none());
    let longest = "a".repeat(16 * 1024);
    assert_eq!(authorization_token(&headers_with("authorization", &format!("Bearer {longest}"))), Some(longest.clone()));
    assert!(authorization_token(&headers_with("authorization", &format!("Bearer {longest}a"))).is_none());
}

#[test]
fn sessions_print_as_a_debug_struct() {
    let session = Session::test_admin_bearer("operator-a", "verified.jwt");
    assert_eq!(
        session.debug_text(),
        "Session { user_id: \"operator-a\", email: Some(\"operator-a@example.com\"), is_admin: true, credential: \"[redacted]\" }"
    );
}

#[test]
fn provenance_decides_what_a_session_is() {
    let cookie = Session::test_admin_cookie("operator-a", "t");
    let bearer = Session::test_admin_bearer("operator-a", "t");
    let development = Session::test_admin("operator-a");
    assert_eq!(cookie.csrf_binding(), "cookie\0t");
    assert_eq!(bearer.csrf_binding(), "authorization\0t");
    assert_eq!(development.csrf_binding(), "development\0operator-a");
    assert!(cookie.is_browser_session());
    assert!(!bearer.is_browser_session());
    assert!(development.is_browser_session());
}

#[test]
fn authorization_never_falls_back_to_a_cookie() {
    let mut headers = headers_with("cookie", "fiducia_admin_session=ambient");
    assert!(matches!(
        current(&headers, Some("admin"), false),
        SessionStep::Verify { token, from_cookie: true } if token == "ambient"
    ));
    headers.insert("authorization", HeaderValue::from_static("Basic abc"));
    assert!(matches!(current(&headers, Some("admin"), false), SessionStep::Settled(None)));
    headers.insert("authorization", HeaderValue::from_static("Bearer explicit"));
    assert!(matches!(
        current(&headers, Some("admin"), false),
        SessionStep::Verify { token, from_cookie: false } if token == "explicit"
    ));
}

#[test]
fn only_local_builds_have_a_development_session() {
    let admin = dev_session(Some("admin"), false).unwrap();
    assert_eq!(admin.user_id, "dev-admin");
    assert!(admin.is_admin);
    assert!(!dev_session(Some("user"), false).unwrap().is_admin);
    assert!(dev_session(Some("root"), false).is_none());
    assert!(dev_session(None, false).is_none());
    assert!(dev_session(Some("admin"), true).is_none());
    assert!(matches!(current(&HeaderMap::new(), Some("admin"), true), SessionStep::Settled(None)));
    assert!(matches!(current(&HeaderMap::new(), Some("admin"), false), SessionStep::Settled(Some(_))));
}

#[test]
fn only_an_authenticated_outcome_makes_a_session() {
    let upgrade = || Some("reusable".to_string());
    let admitted = GuardOutcome::Authenticated(identity("fiducia-admin", &["admin"]));
    let verified = verified_session(&admitted, upgrade(), "provider", false).unwrap();
    assert_eq!(verified.session_upgrade.as_deref(), Some("reusable"));
    assert_eq!(verified.session.csrf_binding(), "authorization\0provider");
    for outcome in [
        GuardOutcome::Forbidden,
        GuardOutcome::Degraded,
        GuardOutcome::Anonymous,
        GuardOutcome::Unauthenticated,
        GuardOutcome::Authenticated(identity("fiducia-admin", &[])),
    ] {
        assert!(verified_session(&outcome, upgrade(), "provider", false).is_none());
    }
}

#[test]
fn the_guard_needs_every_setting() {
    let settings = |issuer: Option<&str>| GuardSettings {
        issuer: issuer.map(str::to_string),
        audience: Some("admin".to_string()),
        supabase_url: Some("https://x.supabase.co".to_string()),
        supabase_api_key: Some("public".to_string()),
        introspect_secret: Some("secret".to_string()),
    };
    let config = match initialize("https://auth.fiducia.cloud/", &settings(Some(" issuer "))) {
        Ok(config) => config,
        Err(error) => panic!("{error}"),
    };
    assert_eq!(config.shared_auth_base, "https://auth.fiducia.cloud");
    assert_eq!(config.issuer, "issuer");
    assert_eq!(config.project, "fiducia-admin");
    assert_eq!(config.required_roles, vec!["admin".to_string(), "operator".to_string()]);
    match initialize("https://auth.fiducia.cloud", &settings(Some("  "))) {
        Ok(_) => panic!("a blank issuer was accepted"),
        Err(error) => assert_eq!(error, "SHARED_AUTH_ISSUER must be set"),
    }
    match initialize("/", &settings(Some("issuer"))) {
        Ok(_) => panic!("an empty base was accepted"),
        Err(error) => assert_eq!(error, "SHARED_AUTH_URL must be set"),
    }
}

#[test]
fn a_guard_serves_only_the_base_it_was_built_for() {
    let settings = GuardSettings {
        issuer: Some("https://auth.example".to_string()),
        audience: Some("admin".to_string()),
        supabase_url: Some("https://project.example".to_string()),
        supabase_api_key: Some("publishable".to_string()),
        introspect_secret: Some("secret".to_string()),
    };
    let config = match initialize("https://shared.example//", &settings) {
        Ok(config) => config,
        Err(error) => panic!("{error}"),
    };
    assert_eq!(config.shared_auth_base, "https://shared.example");
    assert!(check_guard_base(&config, "https://shared.example/").is_ok());
    assert_eq!(
        check_guard_base(&config, "https://other.example").unwrap_err(),
        "Shared Auth base URL changed after guard initialization"
    );
}
