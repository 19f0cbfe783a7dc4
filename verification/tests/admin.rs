use axum::http::{HeaderMap, HeaderValue};
use fiducia_admin::admission::{
    decide_entry, enabled_operator, operator_is_enabled, operator_lookup, require_admin, require_admin_api,
    Admission, OperatorLookup, Refusal, RegistryAnswer, Route,
};
use fiducia_admin::audit::{audit_limit, audit_reply, AuditLogRow};
use fiducia_admin::cookies::CookiePolicy;
use fiducia_admin::infra::{
    read_part, scale, scale_target_is_valid, InfraPart, InfraReading, Scale, ScaleEvent, ScaleStage,
    MIN_SCALE_TARGET_NODES,
};
use fiducia_admin::json::Json;
use fiducia_admin::login::{
    advance_login, login_page, login_submit, logout, LoginAnswer, LoginEvent, LoginForm, LoginStage,
};
use fiducia_admin::notices::{create_notice, NoticeEvent, NoticeForm, NoticeStage};
use fiducia_admin::records::{scale_parameters, Operation, RecordAction, RecordEvent, RecordStage, Recording};
use fiducia_admin::reply::{health, Reply};
use fiducia_admin::request_security::RequestSecurity;
use fiducia_admin::session::{login_csrf_cookie_name, Session, VerifiedSession};
use fiducia_admin::streaming::InfraOperationsRow;

const SUBJECT: &str = "00000000-0000-0000-0000-000000000001";
const POLICY: CookiePolicy = CookiePolicy { release_hardened: true, insecure_http: false };

fn parsed(text: &str) -> Json {
    match Json::from_bytes(text.as_bytes()) {
        Some(value) => value,
        None => panic!("not JSON: {text}"),
    }
}

fn security() -> RequestSecurity {
    RequestSecurity::new("https://admin.fiducia.cloud", b"0123456789abcdef0123456789abcdef".to_vec()).unwrap()
}

fn browser_headers() -> HeaderMap {
    let mut headers = HeaderMap::new();
    headers.insert("host", HeaderValue::from_static("admin.fiducia.cloud"));
    headers.insert("origin", HeaderValue::from_static("https://admin.fiducia.cloud"));
    headers.insert("sec-fetch-site", HeaderValue::from_static("same-origin"));
    headers
}

fn answer(reply: &Reply) -> (u16, String) {
    (reply.status, reply.body.to_text())
}

fn operator(role: &str) -> RegistryAnswer {
    RegistryAnswer::Operator { id: 42, role: role.to_string() }
}

fn row() -> InfraOperationsRow {
    InfraOperationsRow {
        id: "op-1".to_string(),
        version: 1,
        status: "requested".to_string(),
        document: parsed("{}"),
    }
}

#[test]
fn scale_target_rejects_below_floor_and_i32_overflow() {
    assert!(!scale_target_is_valid(0));
    assert!(!scale_target_is_valid(MIN_SCALE_TARGET_NODES - 1));
    assert!(scale_target_is_valid(MIN_SCALE_TARGET_NODES));
    assert!(scale_target_is_valid(i32::MAX as u32));
    assert!(!scale_target_is_valid(i32::MAX as u32 + 1));
    assert!(!scale_target_is_valid(u32::MAX));
}

#[test]
fn login_requires_the_operator_registry_after_trusted_auth() {
    let security = security();
    let login_nonce = "registry-test-login-nonce";
    let mut headers = browser_headers();
    headers.insert("cookie", format!("{}={login_nonce}", login_csrf_cookie_name(true)).parse().unwrap());
    let form = LoginForm {
        csrf_token: security.csrf_token(&format!("login\0{login_nonce}")),
        email: "operator@example.com".to_string(),
        password: "correct-horse".to_string(),
    };
    let stage = login_submit(&security, &headers, true, &form, "https://x.supabase.co/");
    match &stage {
        LoginStage::Exchanging { url, body } => {
            assert_eq!(url, "https://x.supabase.co/auth/v1/token?grant_type=password");
            assert_eq!(body.to_text(), r#"{"email":"operator@example.com","password":"correct-horse"}"#);
        }
        _ => panic!("the provider is not asked"),
    }
    let stage = advance_login(stage, LoginEvent::Token("verified.jwt".to_string()), POLICY);
    assert!(matches!(&stage, LoginStage::Verifying { token } if token == "verified.jwt"));
    let verified = VerifiedSession {
        session: Session::test_admin_bearer(SUBJECT, "verified.jwt"),
        session_upgrade: Some("reusable".to_string()),
    };
    let stage = advance_login(stage, LoginEvent::Verified(Some(verified)), POLICY);
    assert!(matches!(&stage, LoginStage::LookingUp { subject: 1, .. }));
    match advance_login(stage, LoginEvent::Registry(RegistryAnswer::Failed), POLICY) {
        LoginStage::Answered(LoginAnswer::Json(reply)) => assert_eq!(
            answer(&reply),
            (503, r#"{"dependency":"postgres","error":"operator_registry_unavailable"}"#.to_string())
        ),
        _ => panic!("a login without the registry was let through"),
    }
}

fn looking_up() -> LoginStage {
    LoginStage::LookingUp {
        subject: 1,
        session: Session::test_admin_bearer(SUBJECT, "verified.jwt"),
        upgrade: "reusable".to_string(),
    }
}

#[test]
fn a_login_persists_the_upgrade_and_nothing_else() {
    match advance_login(looking_up(), LoginEvent::Registry(operator("admin")), POLICY) {
        LoginStage::Answered(LoginAnswer::SignedIn(cookies)) => assert_eq!(
            cookies,
            vec![
                "__Host-fiducia_admin_session=reusable; Path=/; HttpOnly; SameSite=Strict; Secure".to_string(),
                "__Host-fiducia_admin_login_csrf=; Path=/; HttpOnly; SameSite=Strict; Max-Age=0; Secure".to_string(),
            ]
        ),
        _ => panic!("an enabled operator was not signed in"),
    }
    for refused in [operator("viewer"), RegistryAnswer::Missing] {
        assert!(matches!(
            advance_login(looking_up(), LoginEvent::Registry(refused), POLICY),
            LoginStage::Answered(LoginAnswer::Forbidden(_))
        ));
    }
    assert!(matches!(
        advance_login(looking_up(), LoginEvent::Token("stray".to_string()), POLICY),
        LoginStage::Answered(LoginAnswer::Json(_))
    ));
}

#[test]
fn a_login_fails_where_a_step_fails() {
    let security = security();
    let exchanging = || LoginStage::Exchanging { url: String::new(), body: parsed("{}") };
    let verifying = || LoginStage::Verifying { token: "t".to_string() };
    assert!(matches!(
        advance_login(exchanging(), LoginEvent::ExchangeRefused, POLICY),
        LoginStage::Answered(LoginAnswer::Form("Supabase rejected those credentials."))
    ));
    match advance_login(exchanging(), LoginEvent::ExchangeFailed, POLICY) {
        LoginStage::Answered(LoginAnswer::Json(reply)) => {
            assert_eq!(answer(&reply), (502, r#"{"dependency":"supabase","error":"supabase_login_failed"}"#.to_string()));
        }
        _ => panic!("a failed exchange was let through"),
    }
    assert!(matches!(
        advance_login(verifying(), LoginEvent::Verified(None), POLICY),
        LoginStage::Answered(LoginAnswer::Form("Shared Auth could not authorize this admin identity."))
    ));
    let without_upgrade = VerifiedSession { session: Session::test_admin_bearer(SUBJECT, "t"), session_upgrade: None };
    match advance_login(verifying(), LoginEvent::Verified(Some(without_upgrade)), POLICY) {
        LoginStage::Answered(LoginAnswer::Json(reply)) => assert_eq!(
            answer(&reply),
            (503, r#"{"dependency":"postgres","error":"shared_auth_session_upgrade_missing"}"#.to_string())
        ),
        _ => panic!("a session without an upgrade was let through"),
    }
    let mut not_admin = Session::test_admin_bearer(SUBJECT, "t");
    not_admin.is_admin = false;
    let not_admin = VerifiedSession { session: not_admin, session_upgrade: Some("u".to_string()) };
    assert!(matches!(
        advance_login(verifying(), LoginEvent::Verified(Some(not_admin)), POLICY),
        LoginStage::Answered(LoginAnswer::Forbidden(_))
    ));
    let form = LoginForm { csrf_token: "wrong".to_string(), email: " ".to_string(), password: String::new() };
    match login_submit(&security, &browser_headers(), true, &form, "https://x.supabase.co") {
        LoginStage::Answered(LoginAnswer::Json(reply)) => assert_eq!(reply.status, 403),
        _ => panic!("an unchecked login was let through"),
    }
}

#[test]
fn login_pages_are_fresh_and_accepted() {
    let security = security();
    let first = login_page(&security, POLICY, Some("Try again."));
    let second = login_page(&security, POLICY, None);
    assert_eq!(first.message.as_deref(), Some("Try again."));
    assert_ne!(first.csrf, second.csrf);
    let pair = first.cookie.split(';').next().unwrap();
    let nonce = pair.strip_prefix("__Host-fiducia_admin_login_csrf=").unwrap();
    assert_eq!(nonce.len(), 64);
    assert!(nonce.bytes().all(|byte| byte.is_ascii_digit() || (b'a'..=b'f').contains(&byte)));
    let mut headers = browser_headers();
    headers.insert("cookie", pair.parse().unwrap());
    let form = LoginForm { csrf_token: first.csrf, email: " ".to_string(), password: "p".to_string() };
    assert!(matches!(
        login_submit(&security, &headers, true, &form, "https://x.supabase.co"),
        LoginStage::Answered(LoginAnswer::Form("Email and password are required."))
    ));
}

#[test]
fn a_logout_takes_the_session_back() {
    let security = security();
    let session = Session::test_admin_cookie(SUBJECT, "cookie.jwt");
    let csrf = security.csrf_token(session.csrf_binding());
    match logout(&security, &browser_headers(), &session, &csrf, POLICY) {
        Ok(cookie) => assert!(cookie.starts_with("__Host-fiducia_admin_session=; ")),
        Err(_) => panic!("the logout was refused"),
    }
    match logout(&security, &browser_headers(), &session, "tampered", POLICY) {
        Ok(_) => panic!("a forged logout was let through"),
        Err(reply) => assert_eq!(
            answer(&reply),
            (403, r#"{"error":"admin_request_rejected","reason":"invalid_csrf_token"}"#.to_string())
        ),
    }
}

#[test]
fn entry_needs_a_session_a_host_a_role_and_a_subject() {
    let security = security();
    let headers = browser_headers();
    let session = Some(Session::test_admin_cookie(SUBJECT, "t"));
    assert!(matches!(require_admin(&session, &security, &headers, true), Admission::Ask(1)));
    assert!(matches!(require_admin_api(&session, &security, &headers, true), Admission::Ask(1)));
    assert!(matches!(
        require_admin(&None, &security, &headers, true),
        Admission::Refuse(Refusal::Login)
    ));
    match require_admin_api(&None, &security, &headers, true) {
        Admission::Refuse(Refusal::Json(reply)) => {
            assert_eq!(answer(&reply), (401, r#"{"error":"unauthenticated"}"#.to_string()));
        }
        _ => panic!("an anonymous caller was let through"),
    }
    match require_admin(&session, &security, &HeaderMap::new(), true) {
        Admission::Refuse(Refusal::Json(reply)) => assert_eq!(reply.status, 403),
        _ => panic!("a request without a host was let through"),
    }
    match require_admin_api(&session, &security, &HeaderMap::new(), true) {
        Admission::Refuse(Refusal::Json(reply)) => assert_eq!(reply.status, 401),
        _ => panic!("a request without a host was let through"),
    }
    let mut user = Session::test_admin_cookie(SUBJECT, "t");
    user.is_admin = false;
    match require_admin_api(&Some(user), &security, &headers, true) {
        Admission::Refuse(Refusal::Json(reply)) => assert_eq!(answer(&reply), (403, r#"{"error":"forbidden"}"#.to_string())),
        _ => panic!("a session without the admin role was let through"),
    }
    let development = Session::test_admin("dev-admin");
    assert_eq!(operator_lookup(&development, true), OperatorLookup::Impossible);
    assert_eq!(operator_lookup(&development, false), OperatorLookup::Development);
    assert!(matches!(
        decide_entry(Route::Page, &Some(development), OperatorLookup::Impossible, &security, &headers),
        Admission::Refuse(Refusal::Forbidden)
    ));
}

#[test]
fn only_an_enabled_operator_is_admitted() {
    assert!(matches!(operator_is_enabled(Route::Page, &operator("owner")), Admission::Admit));
    assert!(matches!(operator_is_enabled(Route::Page, &operator("viewer")), Admission::Refuse(Refusal::Forbidden)));
    assert!(matches!(
        operator_is_enabled(Route::Page, &RegistryAnswer::Missing),
        Admission::Refuse(Refusal::Forbidden)
    ));
    match operator_is_enabled(Route::Api, &RegistryAnswer::Failed) {
        Admission::Refuse(Refusal::Json(reply)) => assert_eq!(
            answer(&reply),
            (503, r#"{"dependency":"postgres","error":"operator_registry_unavailable"}"#.to_string())
        ),
        _ => panic!("a missing registry let a request through"),
    }
    assert_eq!(enabled_operator(&operator("admin")), Some(42));
    assert_eq!(enabled_operator(&operator("customer")), None);
}

fn begun(target_nodes: u32, htmx: bool) -> Scale {
    let security = security();
    let session = Session::test_admin_cookie(SUBJECT, "t");
    let csrf = security.csrf_token(session.csrf_binding());
    let mut headers = browser_headers();
    if htmx {
        headers.insert("hx-request", HeaderValue::from_static("true"));
    }
    scale(&security, &headers, &session, &csrf, target_nodes, true, true)
}

#[test]
fn the_brain_hears_of_a_scale_only_after_its_record() {
    let mut current = begun(9, false);
    let mut steps = Vec::new();
    loop {
        let event = match &current.stage {
            ScaleStage::Recording(recording) => match recording.action() {
                RecordAction::LookUp(1) => {
                    steps.push("look up");
                    RecordEvent::Registry(operator("operator"))
                }
                RecordAction::Begin => {
                    steps.push("begin");
                    RecordEvent::Done
                }
                RecordAction::Insert { operator_id: Some(42), operation: Operation::Scale { target_nodes: 9 } } => {
                    steps.push("insert");
                    RecordEvent::Inserted { id: "op-1".to_string(), row: row() }
                }
                RecordAction::InsertAudit(entry) => {
                    steps.push("audit");
                    assert_eq!(entry.action, "infra.scale.requested");
                    assert_eq!(entry.target.as_deref(), Some("fiducia-brain"));
                    assert_eq!(entry.actor_operator_id, Some(42));
                    assert_eq!(entry.actor.as_deref(), Some("00000000-0000-0000-0000-000000000001@example.com"));
                    assert_eq!(entry.meta.to_text(), r#"{"operation_id":"op-1","target_nodes":9}"#);
                    RecordEvent::Done
                }
                RecordAction::Commit => {
                    steps.push("commit");
                    RecordEvent::Done
                }
                _ => panic!("an unexpected action"),
            },
            _ => break,
        };
        current = current.advance(ScaleEvent::Record(event));
    }
    assert_eq!(steps, ["look up", "begin", "insert", "audit", "commit"]);
    assert!(matches!(&current.stage, ScaleStage::Publishing(row) if row.id == "op-1"));
    let current = current.advance(ScaleEvent::Published);
    match &current.stage {
        ScaleStage::Scaling { body } => assert_eq!(body.to_text(), r#"{"replication_factor":3,"target_nodes":9}"#),
        _ => panic!("the brain is not asked"),
    }
    assert!(matches!(current.advance(ScaleEvent::Brain(Some(true))).stage, ScaleStage::Redirect));
    assert_eq!(scale_parameters(9).to_text(), r#"{"replication_factor":3,"target_nodes":9}"#);
}

#[test]
fn a_scale_is_refused_before_it_is_recorded() {
    match begun(2, false).stage {
        ScaleStage::Refused(reply) => {
            assert_eq!(answer(&reply), (400, r#"{"error":"invalid_target_nodes","min":3}"#.to_string()));
        }
        _ => panic!("a target below the floor was accepted"),
    }
    let failed = begun(9, false).advance(ScaleEvent::Record(RecordEvent::Registry(RegistryAnswer::Missing)));
    match failed.stage {
        ScaleStage::Refused(reply) => assert_eq!(
            answer(&reply),
            (503, r#"{"dependency":"postgres","error":"infra_audit_write_failed"}"#.to_string())
        ),
        _ => panic!("an operator who was removed was let through"),
    }
}

#[test]
fn a_brain_that_does_not_take_the_scale_is_a_bad_gateway() {
    for word in [None, Some(false)] {
        let scaling = Scale {
            target_nodes: 9,
            htmx: true,
            stage: ScaleStage::Scaling { body: parsed("{}") },
        };
        match scaling.advance(ScaleEvent::Brain(word)).stage {
            ScaleStage::Refused(reply) => assert_eq!(
                answer(&reply),
                (502, r#"{"dependency":"fiducia-brain","error":"brain_scale_failed"}"#.to_string())
            ),
            _ => panic!("the brain's refusal was let through"),
        }
    }
}

#[test]
fn the_panel_is_read_in_order() {
    let reading = read_part(InfraReading::Nodes, InfraPart::Nodes(Some(vec![parsed("1")])));
    let reading = read_part(reading, InfraPart::Placement(Some(vec![])));
    match read_part(reading, InfraPart::Operations(Some(vec![]))) {
        InfraReading::Ready { nodes, placement, operations } => {
            assert_eq!((nodes.len(), placement.len(), operations.len()), (1, 0, 0));
        }
        _ => panic!("the panel is not ready"),
    }
    let code = |reading: InfraReading| match reading {
        InfraReading::Failed(reply) => reply.body.to_text(),
        _ => panic!("a part that could not be read was passed over"),
    };
    assert!(code(read_part(InfraReading::Nodes, InfraPart::Nodes(None))).contains("brain_nodes_failed"));
    let placement = InfraReading::Placement { nodes: vec![] };
    assert!(code(read_part(placement, InfraPart::Placement(None))).contains("brain_placement_failed"));
    let operations = InfraReading::Operations { nodes: vec![], placement: vec![] };
    assert!(code(read_part(operations, InfraPart::Operations(None))).contains("infra_audit_read_failed"));
}

fn notice(severity: &str, title: &str, body: &str) -> NoticeStage {
    let security = security();
    let session = Session::test_admin_cookie(SUBJECT, "t");
    let form = NoticeForm {
        csrf_token: security.csrf_token(session.csrf_binding()),
        severity: severity.to_string(),
        title: title.to_string(),
        body: body.to_string(),
    };
    create_notice(&security, &browser_headers(), &session, &form, true, true).stage
}

#[test]
fn notices_are_bounded_before_any_write() {
    assert!(matches!(notice("info", " T ", ""), NoticeStage::Recording(_)));
    assert!(matches!(notice("critical", &"é".repeat(200), &"b".repeat(2000)), NoticeStage::Recording(_)));
    for stage in [
        notice("fatal", "T", ""),
        notice("info", "  ", ""),
        notice("info", &"t".repeat(201), ""),
        notice("info", "T", &"b".repeat(2001)),
    ] {
        match stage {
            NoticeStage::Refused(reply) => assert_eq!(answer(&reply), (400, r#"{"error":"invalid_notice"}"#.to_string())),
            _ => panic!("an invalid notice was let through"),
        }
    }
}

#[test]
fn publishing_a_notice_writes_its_audit_entry() {
    let recording: Recording<()> = Recording::begin(
        Operation::Notice { severity: "info".to_string(), title: "T".to_string(), body: String::new() },
        Some("op@example.com".to_string()),
        OperatorLookup::Development,
        true,
    );
    let recording = recording
        .advance(RecordEvent::Done)
        .advance(RecordEvent::Inserted { id: "notice-1".to_string(), row: () });
    match recording.action() {
        RecordAction::InsertAudit(entry) => {
            assert_eq!(entry.action, "notice.published");
            assert_eq!(entry.target.as_deref(), Some("notice-1"));
            assert_eq!(entry.actor.as_deref(), Some("op@example.com"));
            assert_eq!(entry.actor_operator_id, None);
            assert_eq!(entry.meta.to_text(), r#"{"notice_id":"notice-1","severity":"info"}"#);
        }
        _ => panic!("the audit entry is not written"),
    }
    let recording = recording.advance(RecordEvent::Done);
    assert!(matches!(recording.action(), RecordAction::Commit));
    assert!(matches!(recording.advance(RecordEvent::Done).stage, RecordStage::Over(Ok(()))));
    let publication = fiducia_admin::notices::Publication { htmx: true, stage: NoticeStage::Listing };
    assert!(matches!(
        publication.advance(NoticeEvent::Listed(true)).stage,
        NoticeStage::Table("Notice published.")
    ));
    let publication = fiducia_admin::notices::Publication { htmx: false, stage: NoticeStage::Listing };
    match publication.advance(NoticeEvent::Listed(false)).stage {
        NoticeStage::Refused(reply) => assert!(reply.body.to_text().contains("notices_read_failed")),
        _ => panic!("an unreadable list was passed over"),
    }
}

#[test]
fn the_audit_feed_is_bounded_and_keeps_its_metadata() {
    assert_eq!(audit_limit(None), 50);
    assert_eq!(audit_limit(Some(0)), 1);
    assert_eq!(audit_limit(Some(7)), 7);
    assert_eq!(audit_limit(Some(101)), 100);
    let row = |meta: &str| AuditLogRow {
        id: "a".to_string(),
        actor: None,
        action: "infra.scale.requested".to_string(),
        target: Some("fiducia-brain".to_string()),
        request_id: None,
        meta: parsed(meta),
        created_at: "2026-07-08T00:00:00+00:00".to_string(),
    };
    let reply = audit_reply(&[row(r#"{"secret":"x"}"#)]);
    assert_eq!(
        reply.body.to_text(),
        "{\"events\":[{\"action\":\"infra.scale.requested\",\"actor\":null,\
         \"created_at\":\"2026-07-08T00:00:00+00:00\",\"id\":\"a\",\"request_id\":null,\
         \"target\":\"fiducia-brain\"}]}"
    );
    assert_eq!(reply.body.to_text(), audit_reply(&[row("null")]).body.to_text());
}

#[test]
fn health_names_the_service() {
    assert_eq!(answer(&health()), (200, r#"{"service":"fiducia-admin","status":"ok"}"#.to_string()));
}
