use fiducia_admin::cron_debug::{
    build_url, check_announced_length, clamp_history_limit, cron_base_url, cron_url, error_response, fitting_cron_url, history_rows, history_url,
    lookup_reply, plan_history, plan_list, query_escape, read_answer, scalar, schedule_mode, schedule_rows,
    schedules_url, target_summary, valid_org, valid_schedule, CronDebugError, CronLookup, CronPage, MAX_ORG_BYTES,
    MAX_UPSTREAM_BYTES, MAX_URL_CHARS,
};
use fiducia_admin::cron_redaction::{redact, show_target};
use fiducia_admin::json::Json;

fn parsed(text: &str) -> Json {
    match Json::from_bytes(text.as_bytes()) {
        Some(value) => value,
        None => panic!("not JSON: {text}"),
    }
}

#[test]
fn validates_org_like_the_node_scope_guard() {
    assert!(valid_org("acme-prod"));
    assert!(!valid_org(""));
    assert!(!valid_org("acme corp"));
    assert!(!valid_org("acme\ncorp"));
    assert!(!valid_org(&"a".repeat(MAX_ORG_BYTES + 1)));
}

#[test]
fn schedule_path_is_encoded_as_one_segment() {
    let url = build_url("http://fiducia-node:8080", &["v1", "cron", "schedules", "billing/daily", "history"]).unwrap();
    assert_eq!(url.path(), "/v1/cron/schedules/billing%2Fdaily/history");
}

#[test]
fn target_summary_never_displays_webhook_or_grpc_addresses() {
    let webhook = parsed(r#"{"kind":"webhook","url":"https://secret.example/hook"}"#);
    let grpc = parsed(r#"{"kind":"grpc","endpoint":"https://secret.example/grpc"}"#);
    assert_eq!(target_summary(Some(&webhook)), "webhook:[redacted]");
    assert_eq!(target_summary(Some(&grpc)), "grpc:[redacted]");
}

#[test]
fn query_escape_encodes_tenant_and_schedule_delimiters() {
    assert_eq!(query_escape("acme/a b"), "acme%2Fa%20b");
}

fn url_error<T>(result: Result<T, CronDebugError>) -> CronDebugError {
    match result {
        Ok(_) => panic!("the lookup was let through"),
        Err(error) => error,
    }
}

#[test]
fn every_lookup_error_has_its_code_and_status() {
    let errors = [
        (CronDebugError::NotConfigured, 503, "cron_node_not_configured"),
        (CronDebugError::InvalidConfiguration, 503, "cron_node_configuration_invalid"),
        (CronDebugError::InvalidOrganization, 400, "invalid_organization"),
        (CronDebugError::InvalidSchedule, 400, "invalid_schedule"),
        (CronDebugError::UpstreamUnavailable, 502, "cron_node_unavailable"),
        (CronDebugError::UpstreamStatus(404), 404, "cron_node_rejected_request"),
        (CronDebugError::UpstreamStatus(302), 502, "cron_node_rejected_request"),
        (CronDebugError::UpstreamStatus(500), 502, "cron_node_rejected_request"),
        (CronDebugError::OversizedResponse, 502, "cron_node_response_too_large"),
        (CronDebugError::InvalidResponse, 502, "cron_node_response_invalid"),
    ];
    for (error, status, code) in errors {
        let reply = error_response(error);
        assert_eq!(reply.status, status, "{error:?}");
        assert_eq!(reply.body.to_text(), format!("{{\"error\":\"{code}\"}}"));
    }
}

#[test]
fn urls_are_built_from_the_configured_base_alone() {
    assert_eq!(
        schedules_url(Some("http://node:8080/base/?x=1#f")).unwrap().unwrap(),
        "http://node:8080/base/v1/cron/schedules?limit=200"
    );
    assert_eq!(
        history_url(Some("http://node:8080"), "billing daily", 7).unwrap().unwrap(),
        "http://node:8080/v1/cron/schedules/billing%20daily/history?limit=7"
    );
    assert_eq!(url_error(schedules_url(None).unwrap()), CronDebugError::NotConfigured);
    for base in ["ftp://node", "http://user@node", "http://user:pw@node", "not a url", "data:text/plain,x"] {
        assert_eq!(url_error(schedules_url(Some(base)).unwrap()), CronDebugError::InvalidConfiguration, "{base}");
    }
    let nodes = vec!["http://first".to_string(), "http://second".to_string()];
    assert_eq!(cron_base_url(&Some("http://cron".to_string()), &nodes), Some("http://cron"));
    assert_eq!(cron_base_url(&None, &nodes), Some("http://first"));
    assert_eq!(cron_base_url(&None, &vec![]), None);
}

#[test]
fn answers_are_bounded_and_must_be_json() {
    assert!(read_answer(200, b"{}").is_ok_and(|answer| answer.to_text() == "{}"));
    assert_eq!(url_error(read_answer(404, b"{}")), CronDebugError::UpstreamStatus(404));
    assert_eq!(url_error(read_answer(200, b"{")), CronDebugError::InvalidResponse);
    let long = vec![b' '; MAX_UPSTREAM_BYTES + 1];
    assert_eq!(url_error(read_answer(404, &long)), CronDebugError::OversizedResponse);
    assert!(check_announced_length(None).is_ok());
    assert!(check_announced_length(Some(MAX_UPSTREAM_BYTES as u64)).is_ok());
    assert_eq!(
        url_error(check_announced_length(Some(MAX_UPSTREAM_BYTES as u64 + 1))),
        CronDebugError::OversizedResponse
    );
}

#[test]
fn api_lookups_are_checked_first() {
    assert!(plan_list(" acme ").is_ok_and(|org| org == "acme"));
    match plan_list("acme corp") {
        Ok(_) => panic!("an invalid organization was let through"),
        Err(reply) => assert_eq!(reply.status, 400),
    }
    assert!(plan_history("acme", "daily", Some(1000)).is_ok_and(|plan| plan == ("acme".to_string(), 100)));
    match plan_history("acme", "", None) {
        Ok(_) => panic!("an invalid schedule was let through"),
        Err(reply) => assert_eq!(reply.body.to_text(), r#"{"error":"invalid_schedule"}"#),
    }
    assert_eq!(clamp_history_limit(None), 50);
    assert_eq!(clamp_history_limit(Some(0)), 1);
    assert!(valid_schedule("billing daily"));
    assert!(!valid_schedule("billing\u{7f}"));
    assert_eq!(lookup_reply(Ok(parsed("[1]"))).body.to_text(), "[1]");
    assert_eq!(lookup_reply(Err(CronDebugError::NotConfigured)).status, 503);
}

#[test]
fn the_page_looks_up_the_history_only_after_the_schedules() {
    let page = CronPage::new(&Some(" acme ".to_string()), &Some("daily".to_string()), None);
    assert!(matches!(page.next_lookup(), CronLookup::Schedules { org } if org == "acme"));
    let page = page.record(Ok(parsed("{}")));
    assert!(matches!(
        page.next_lookup(),
        CronLookup::History { org, schedule, limit: 50 } if org == "acme" && schedule == "daily"
    ));
    let page = page.record(Err(CronDebugError::UpstreamUnavailable));
    assert!(matches!(page.next_lookup(), CronLookup::Rest));
    assert!(page.schedules.is_some() && page.history.is_none());
    assert_eq!(page.error, Some(CronDebugError::UpstreamUnavailable));

    let failed = CronPage::new(&Some("acme".to_string()), &Some("daily".to_string()), None)
        .record(Err(CronDebugError::NotConfigured));
    assert!(matches!(failed.next_lookup(), CronLookup::Rest));
    let invalid = CronPage::new(&Some("acme corp".to_string()), &None, None);
    assert_eq!(invalid.error, Some(CronDebugError::InvalidOrganization));
    assert!(matches!(CronPage::new(&None, &None, None).next_lookup(), CronLookup::Rest));
}

#[test]
fn tables_show_scalars_and_redact_the_rest() {
    assert_eq!(scalar(&parsed("null")), "—");
    assert_eq!(scalar(&parsed("1.5")), "1.5");
    assert_eq!(scalar(&parsed("-7")), "-7");
    assert_eq!(scalar(&parsed("{}")), "[structured]");
    assert_eq!(schedule_mode(&parsed(r#"{"cron":"* * * * *"}"#)), "* * * * *");
    assert_eq!(schedule_mode(&parsed(r#"{"one_shot_at_ms":5}"#)), "one-shot 5");
    assert_eq!(schedule_mode(&parsed("{}")), "—");
    assert_eq!(
        target_summary(Some(&parsed(
            r#"{"kind":"function","function_id":"0b6f2a52-6f0f-4a34-9a57-3f0f4f9a8e11","source":"s"}"#
        ))),
        "function:0b6f2a52-6f0f-4a34-9a57-3f0f4f9a8e11"
    );
    assert_eq!(target_summary(Some(&parsed(r#"{"kind":"function","function_id":"f"}"#))), "function:—");
    assert_eq!(target_summary(Some(&parsed(r#"{"kind":"queue","name":"q"}"#))), "queue");
    assert_eq!(target_summary(Some(&parsed("{}"))), "unknown");
    assert_eq!(target_summary(None), "—");
    let rows = schedule_rows(
        &parsed(r#"{"schedules":[{"name":"a/b","cron":"@daily","enabled":true,"target":{"kind":"webhook"}}]}"#),
        "acme",
    );
    assert_eq!(rows[0].href, "/crons?org=acme&schedule=a%2Fb");
    assert_eq!((rows[0].mode.as_str(), rows[0].enabled.as_str()), ("@daily", "true"));
    assert_eq!(rows[0].target, "webhook:[redacted]");
    let runs = history_rows(&parsed(r#"{"history":[{"fire_id":"f","attempts":2}]}"#));
    assert_eq!((runs[0].fire_id.as_str(), runs[0].attempts.as_str(), runs[0].trace_id.as_str()), ("f", "2", "—"));
    assert!(history_rows(&parsed("{}")).is_empty());
}

#[test]
fn the_json_routes_show_no_destination() {
    let reply = lookup_reply(Ok(parsed(
        r#"{"schedules":[{"name":"n","target":{"kind":"webhook","url":"https://secret.example/hook"}}]}"#,
    )));
    assert_eq!(reply.status, 200);
    assert_eq!(reply.body.to_text(), r#"{"schedules":[{"name":"n","target":{"kind":"webhook"}}]}"#);
    let other = lookup_reply(Ok(parsed(
        r#"{"schedules":[{"name":"n","target":{"kind":"webhook","url":"https://other.example/","headers":{"a":"b"}}}]}"#,
    )));
    assert_eq!(other.body.to_text(), reply.body.to_text());
}

#[test]
fn withheld_entries_are_left_out_at_every_depth() {
    let answer = parsed(
        r#"{"history":[{"fire_id":"f","attempts":[{"n":1,"Request":{"x":1},"body":"b"}],"payload":[1,2]}],
            "functions":{"a":{"source":"fn","environment":{"K":"V"},"entry":["sh"],"container":{"image":"i"},"v":true}},
            "headers":{"h":"v"},"url":"https://secret.example/","limit":null}"#,
    );
    assert_eq!(
        redact(answer).to_text(),
        r#"{"functions":{"a":{"v":true}},"history":[{"attempts":[{"n":1}],"fire_id":"f"}],"limit":null}"#
    );
    for name in [
        "source", "source_code", "env", "env_vars", "environment", "environment_values", "environment_variables",
        "entry", "entry_command", "entry_commands", "entry_point", "entrypoint", "container", "containers",
        "container_settings", "request", "requests", "request_headers", "request_body", "invocation_request",
        "invocation_requests", "header", "headers", "body", "bodies", "payload", "payloads", "invocation_payload",
        "invocation_payloads", "url", "webhook_url", "endpoint", "grpc_endpoint", "destination", "destinations",
        "Payload", "URL",
    ] {
        assert_eq!(redact(parsed(&format!(r#"[{{"{name}":"secret"}}]"#))).to_text(), "[{}]", "{name}");
    }
    for name in ["name", "cron", "one_shot_at_ms", "enabled", "kind", "fire_id", "trigger", "trace_id", "request_id"] {
        let text = format!(r#"[{{"{name}":"shown"}}]"#);
        assert_eq!(redact(parsed(&text)).to_text(), text);
    }
    assert_eq!(redact(parsed(r#"[1,-2,1.5,"url",false]"#)).to_text(), r#"[1,-2,1.5,"url",false]"#);
}

#[test]
fn targets_keep_their_kind_and_the_uuid_of_a_function() {
    let cases = [
        (r#"{"kind":"grpc","endpoint":"https://secret.example/grpc"}"#, r#"{"kind":"grpc"}"#),
        (r#"{"kind":"queue","name":"q"}"#, r#"{"kind":"queue"}"#),
        (r#"{"kind":"webhook","function_id":"0b6f2a52-6f0f-4a34-9a57-3f0f4f9a8e11"}"#, r#"{"kind":"webhook"}"#),
        (
            r#"{"kind":"function","function_id":"0b6f2a52-6f0f-4a34-9a57-3f0f4f9a8e11","name":"n"}"#,
            r#"{"function_id":"0b6f2a52-6f0f-4a34-9a57-3f0f4f9a8e11","kind":"function"}"#,
        ),
        (r#"{"kind":"function","function_id":"https://secret.example/"}"#, r#"{"kind":"function"}"#),
        (r#""https://secret.example/""#, r#"{"kind":"unknown"}"#),
    ];
    for (target, shown) in cases {
        assert_eq!(show_target(&parsed(target)).to_text(), shown, "{target}");
    }
}

#[test]
fn the_page_holds_only_what_is_shown() {
    let answer = r#"{"schedules":[{"name":"n","target":{"kind":"grpc","endpoint":"https://secret.example/"}}]}"#;
    let page = CronPage::new(&Some("acme".to_string()), &Some("n".to_string()), None)
        .record(Ok(parsed(answer)))
        .record(Ok(parsed(r#"{"history":[{"fire_id":"f","payload":"p"}]}"#)));
    assert!(page
        .schedules
        .is_some_and(|shown| shown.to_text() == r#"{"schedules":[{"name":"n","target":{"kind":"grpc"}}]}"#));
    assert!(page.history.is_some_and(|shown| shown.to_text() == r#"{"history":[{"fire_id":"f"}]}"#));
}

#[test]
fn a_limit_is_the_only_thing_in_a_query() {
    let url = build_url("https://node/base//?x=1#f", &["a b", "c/d"]).unwrap();
    assert_eq!(url.text, "https://node/base//a%20b/c%2Fd");
    assert_eq!(
        cron_url(Some("https://node/base//?x=1#f"), &["a b", "c/d"], u64::MAX).unwrap(),
        "https://node/base//a%20b/c%2Fd?limit=18446744073709551615"
    );
    assert_eq!(url_error(cron_url(None, &["a"], 1)), CronDebugError::NotConfigured);
    assert_eq!(fitting_cron_url(Some(" http://node "), &["a"], 1).unwrap().unwrap(), "http://node/a?limit=1");
}

#[test]
fn what_outgrows_a_url_is_not_built() {
    let long = "a".repeat(MAX_URL_CHARS);
    let base = format!("http://{long}");
    assert!(schedules_url(Some(&base)).is_none());
    assert!(fitting_cron_url(Some("http://node"), &[&long], 1).is_none());
    assert!(history_url(None, "n", 1).is_some_and(|url| url_error(url) == CronDebugError::NotConfigured));
}
