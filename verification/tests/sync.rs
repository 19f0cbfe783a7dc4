use axum::http::{HeaderMap, HeaderValue};
use fiducia_admin::json::Json;
use fiducia_admin::request_security::RequestSecurity;
use fiducia_admin::session::Session;
use fiducia_admin::streaming::{admin_ws_step, change_frame, InfraOperationsRow, StreamAction, StreamEvent};
use fiducia_admin::sync::{
    catchup_reply, finish_catchup_page, idempotency_decision, infra_patch, plan_catchup, sync_write_error,
    sync_write_fingerprint, sync_write_reply, unsupported_table, validated_write_key, write_key_error,
    DatabaseFailure, Idem, SyncCatchupChange, SyncWriteError, SyncWriteOutcome, SyncWriteRequest, WriteKeyError,
};
use fiducia_admin::sync_transaction::{
    publication, sync_write, sync_write_infra_operations, DatabaseAction, DatabaseEvent, InfraWrite, KeyRecord,
};

fn parsed(text: &str) -> Json {
    match Json::from_bytes(text.as_bytes()) {
        Some(value) => value,
        None => panic!("not JSON: {text}"),
    }
}

fn request(payload: Option<Json>, base_version: Option<i64>) -> SyncWriteRequest {
    SyncWriteRequest {
        id: "00000000-0000-0000-0000-000000000001".to_string(),
        op: Some("upsert".to_string()),
        payload,
        base_version,
        key: Some("write-key-1".to_string()),
    }
}

fn row(version: i64, status: &str) -> InfraOperationsRow {
    InfraOperationsRow {
        id: "00000000-0000-0000-0000-000000000001".to_string(),
        version,
        status: status.to_string(),
        document: parsed(&format!("{{\"status\":\"{status}\",\"version\":{version}}}")),
    }
}

fn begun(request: &SyncWriteRequest) -> InfraWrite {
    match sync_write_infra_operations(request, "write-key-1", "fingerprint", true) {
        Ok(write) => write,
        Err(_) => panic!("the write was turned down"),
    }
}

#[test]
fn durable_write_key_must_match_header_and_body() {
    let mut request = SyncWriteRequest {
        id: "op1".to_string(),
        op: Some("upsert".to_string()),
        payload: None,
        base_version: Some(7),
        key: Some("write-key-1".to_string()),
    };
    let mut headers = HeaderMap::new();
    headers.insert("idempotency-key", HeaderValue::from_static("write-key-1"));
    assert_eq!(validated_write_key(&headers, &request).unwrap(), "write-key-1");

    headers.insert("idempotency-key", HeaderValue::from_static("write-key-2"));
    assert!(validated_write_key(&headers, &request).is_err());

    headers.append("idempotency-key", HeaderValue::from_static("write-key-1"));
    assert_eq!(validated_write_key(&headers, &request), Err(WriteKeyError::Invalid));

    request.key = Some("not a header-safe key".to_string());
    assert_eq!(validated_write_key(&HeaderMap::new(), &request), Err(WriteKeyError::Invalid));
}

#[test]
fn every_mutation_requires_a_nonempty_key_but_body_only_is_accepted() {
    let mut request = SyncWriteRequest {
        id: "op1".to_string(),
        op: Some("upsert".to_string()),
        payload: None,
        base_version: Some(7),
        key: None,
    };
    assert_eq!(validated_write_key(&HeaderMap::new(), &request), Err(WriteKeyError::Missing));

    request.key = Some("body-only-key".to_string());
    assert_eq!(validated_write_key(&HeaderMap::new(), &request).unwrap(), "body-only-key");
}

#[test]
fn catchup_page_advances_only_through_returned_global_sequences() {
    let change = |sequence: i64| SyncCatchupChange {
        sequence,
        table_name: "infra_operations".to_string(),
        op: "upsert".to_string(),
        id: format!("op-{sequence}"),
        version: 1,
        row: Some(parsed(&format!("{{\"id\":\"op-{sequence}\"}}"))),
    };
    let page = finish_catchup_page(vec![change(10), change(11), change(12)], 9, 2);
    assert_eq!(page.changes.len(), 2);
    assert_eq!(page.next_cursor, 11);
    assert!(page.has_more);

    let empty = finish_catchup_page(Vec::new(), page.next_cursor, 2);
    assert_eq!(empty.next_cursor, 11);
    assert!(!empty.has_more);
}

#[test]
fn sync_mutation_requires_a_nonnegative_base_version_before_database_access() {
    let mut request = request(Some(parsed(r#"{"status":"applied"}"#)), None);
    assert!(matches!(
        sync_write_infra_operations(&request, "write-key-1", "fingerprint", false),
        Err(SyncWriteError::MissingBaseVersion)
    ));

    request.base_version = Some(-1);
    assert!(matches!(
        sync_write_infra_operations(&request, "write-key-1", "fingerprint", false),
        Err(SyncWriteError::InvalidBaseVersion)
    ));
}

#[test]
fn write_fingerprint_is_canonical_and_binds_every_semantic_identity() {
    let session = Session::test_admin_bearer("operator-a", "verified.jwt");
    let first = request(Some(parsed(r#"{"status":"applied","target_nodes":7}"#)), Some(4));
    let reordered = request(
        Some(Json::Object(vec![
            ("target_nodes".to_string(), Json::unsigned(7)),
            ("status".to_string(), Json::text("applied")),
        ])),
        Some(4),
    );
    let fingerprint = sync_write_fingerprint(&session, "infra_operations", &first);
    assert_eq!(fingerprint.len(), 64);
    assert!(fingerprint.bytes().all(|byte| byte.is_ascii_hexdigit()));
    assert_eq!(fingerprint, sync_write_fingerprint(&session, "infra_operations", &reordered));

    let changed_payload = request(Some(parsed(r#"{"status":"failed","target_nodes":7}"#)), Some(4));
    assert_ne!(fingerprint, sync_write_fingerprint(&session, "infra_operations", &changed_payload));
    assert_ne!(
        fingerprint,
        sync_write_fingerprint(
            &Session::test_admin_bearer("operator-b", "verified.jwt"),
            "infra_operations",
            &first,
        )
    );
    assert_ne!(fingerprint, sync_write_fingerprint(&session, "other_table", &first));
}

#[test]
fn replay_requires_the_original_fingerprint() {
    assert!(matches!(
        idempotency_decision(Some("fingerprint-a"), Some(8), "fingerprint-a"),
        Ok(Idem::Replay(8))
    ));
    assert!(matches!(
        idempotency_decision(Some("fingerprint-a"), Some(8), "fingerprint-b"),
        Err(SyncWriteError::IdempotencyMismatch)
    ));
    assert!(matches!(
        idempotency_decision(None, Some(8), "fingerprint-a"),
        Err(SyncWriteError::IdempotencyMismatch)
    ));
    assert!(matches!(
        idempotency_decision(Some("fingerprint-a"), None, "fingerprint-a"),
        Ok(Idem::InFlight)
    ));
}

#[test]
fn a_write_commits_the_row_and_its_key_together() {
    let request = request(Some(parsed(r#"{"status":"applied","target_nodes":7}"#)), Some(1));
    let write = begun(&request);
    assert!(matches!(write.action(), DatabaseAction::Begin));
    let write = write.advance(DatabaseEvent::Done);
    assert!(matches!(
        write.action(),
        DatabaseAction::ClaimKey { key, fingerprint } if key == "write-key-1" && fingerprint == "fingerprint"
    ));
    let write = write.advance(DatabaseEvent::Rows(1));
    assert!(matches!(write.action(), DatabaseAction::ReadRow { id: 1 }));
    let write = write.advance(DatabaseEvent::Row(Some(row(1, "requested"))));
    match write.action() {
        DatabaseAction::UpdateRow { id, version, patch } => {
            assert_eq!((id, version), (1, 1));
            assert_eq!(patch.status.as_deref(), Some("applied"));
            assert_eq!(patch.target_nodes, Some(7));
            assert_eq!(patch.error, None);
        }
        _ => panic!("the row is not updated"),
    }
    let write = write.advance(DatabaseEvent::Rows(1));
    assert!(matches!(write.action(), DatabaseAction::ReadRow { id: 1 }));
    let write = write.advance(DatabaseEvent::Row(Some(row(2, "applied"))));
    assert!(matches!(write.action(), DatabaseAction::CompleteKey { version: 2, .. }));
    let write = write.advance(DatabaseEvent::Rows(1));
    assert!(matches!(write.action(), DatabaseAction::Commit));
    let write = write.advance(DatabaseEvent::Done);
    assert!(matches!(write.action(), DatabaseAction::Rest));
    let result = write.result().unwrap();
    assert!(publication(&result, "write-key-1", 5).is_some_and(|frame| frame.contains("\"version\":2")));
    let reply = sync_write_reply(&request.id, &result);
    assert_eq!(reply.status, 200);
    assert_eq!(
        reply.body.to_text(),
        r#"{"committed_version":2,"id":"00000000-0000-0000-0000-000000000001"}"#
    );
}

#[test]
fn a_retry_replays_and_a_reused_key_is_refused() {
    let request = request(Some(parsed(r#"{"status":"applied"}"#)), Some(1));
    let claimed = || begun(&request).advance(DatabaseEvent::Done).advance(DatabaseEvent::Rows(0));
    assert!(matches!(claimed().action(), DatabaseAction::ReadKey { .. }));

    let same = KeyRecord { fingerprint: Some("fingerprint".to_string()), committed_version: Some(2) };
    let write = claimed().advance(DatabaseEvent::Key(Some(same)));
    assert!(matches!(write.action(), DatabaseAction::Commit));
    let result = write.advance(DatabaseEvent::Done).result().unwrap();
    assert!(matches!(result, Ok(SyncWriteOutcome::Replay(2))));
    assert!(publication(&result, "write-key-1", 5).is_none(), "a replay publishes nothing");

    let other = KeyRecord { fingerprint: Some("another".to_string()), committed_version: Some(2) };
    let write = claimed().advance(DatabaseEvent::Key(Some(other)));
    assert!(matches!(write.action(), DatabaseAction::Rollback));
    assert!(matches!(
        write.advance(DatabaseEvent::Done).result(),
        Some(Err(SyncWriteError::IdempotencyMismatch))
    ));

    let open = KeyRecord { fingerprint: Some("fingerprint".to_string()), committed_version: None };
    assert!(matches!(
        claimed().advance(DatabaseEvent::Key(Some(open))).advance(DatabaseEvent::Done).result(),
        Some(Err(SyncWriteError::IdempotencyInFlight))
    ));
    assert!(matches!(
        claimed().advance(DatabaseEvent::Key(None)).advance(DatabaseEvent::Done).result(),
        Some(Err(SyncWriteError::Database(DatabaseFailure::KeyDisappeared)))
    ));
}

#[test]
fn stale_and_missing_rows_roll_back() {
    let request = request(Some(parsed(r#"{"status":"applied"}"#)), Some(1));
    let reading = || begun(&request).advance(DatabaseEvent::Done).advance(DatabaseEvent::Rows(1));
    let stale = reading().advance(DatabaseEvent::Row(Some(row(3, "requested"))));
    assert!(matches!(stale.action(), DatabaseAction::Rollback));
    assert!(matches!(
        stale.advance(DatabaseEvent::Done).result(),
        Some(Err(SyncWriteError::VersionConflict { expected: 1, actual: 3 }))
    ));
    assert!(matches!(
        reading().advance(DatabaseEvent::Row(None)).advance(DatabaseEvent::Done).result(),
        Some(Err(SyncWriteError::NotFound))
    ));
    let raced = reading()
        .advance(DatabaseEvent::Row(Some(row(1, "requested"))))
        .advance(DatabaseEvent::Rows(0))
        .advance(DatabaseEvent::Row(Some(row(2, "applied"))));
    assert!(matches!(
        raced.advance(DatabaseEvent::Done).result(),
        Some(Err(SyncWriteError::VersionConflict { expected: 1, actual: 2 }))
    ));
    assert!(matches!(
        reading().advance(DatabaseEvent::Failed).action(),
        DatabaseAction::Rollback
    ));
}

#[test]
fn payloads_are_bounded() {
    let patch = |text: &str| infra_patch(false, &parsed(text), "requested");
    assert!(patch("{}").is_some_and(|patch| patch.status.as_deref() == Some("requested")));
    assert!(patch(r#"{"status":"deleted"}"#).is_none());
    assert!(patch(r#"{"target_nodes":2}"#).is_none());
    assert!(patch(r#"{"target_nodes":3}"#).is_some_and(|patch| patch.target_nodes == Some(3)));
    assert!(patch(r#"{"target_nodes":4294967299}"#).is_none());
}

#[test]
fn requests_are_refused_before_the_database() {
    let security =
        RequestSecurity::new("https://admin.fiducia.cloud", b"0123456789abcdef0123456789abcdef".to_vec()).unwrap();
    let session = Session::test_admin_bearer("operator-a", "verified.jwt");
    let mut headers = HeaderMap::new();
    let mut request = request(Some(parsed(r#"{"status":"applied"}"#)), Some(1));
    let refused = |headers: &HeaderMap, table: &str, request: &SyncWriteRequest, database: bool| match sync_write(
        &security, headers, &session, table, request, database,
    ) {
        Ok(_) => panic!("the write was let through"),
        Err(reply) => (reply.status, reply.body.to_text()),
    };
    assert_eq!(
        refused(&headers, "infra_operations", &request, true),
        (403, r#"{"error":"admin_request_rejected","reason":"missing_host"}"#.to_string())
    );
    headers.insert("host", HeaderValue::from_static("admin.fiducia.cloud"));
    assert_eq!(
        refused(&headers, "secrets", &request, true),
        (404, r#"{"error":"unsupported_sync_table","table":"secrets"}"#.to_string())
    );
    assert_eq!(
        refused(&headers, "infra_operations", &request, false),
        (503, r#"{"dependency":"postgres","error":"sync_write_failed"}"#.to_string())
    );
    request.key = None;
    assert_eq!(
        refused(&headers, "infra_operations", &request, true),
        (400, r#"{"error":"idempotency_key_required"}"#.to_string())
    );
    request.key = Some("write-key-1".to_string());
    request.id = "op1".to_string();
    assert_eq!(
        refused(&headers, "infra_operations", &request, true),
        (400, r#"{"error":"invalid_row_id"}"#.to_string())
    );
}

#[test]
fn every_write_error_has_its_answer() {
    let answer = |error: SyncWriteError| {
        let reply = sync_write_error(error);
        (reply.status, reply.body.to_text())
    };
    assert_eq!(answer(SyncWriteError::InvalidOperation), (400, r#"{"error":"invalid_sync_operation"}"#.to_string()));
    assert_eq!(answer(SyncWriteError::InvalidPayload), (400, r#"{"error":"invalid_sync_payload"}"#.to_string()));
    assert_eq!(answer(SyncWriteError::MissingBaseVersion).0, 400);
    assert_eq!(answer(SyncWriteError::InvalidBaseVersion).0, 400);
    assert_eq!(answer(SyncWriteError::NotFound).0, 404);
    assert_eq!(answer(SyncWriteError::IdempotencyInFlight).0, 409);
    assert_eq!(answer(SyncWriteError::VersionConflict { expected: 1, actual: 3 }).0, 409);
    assert_eq!(write_key_error(WriteKeyError::Mismatch).body.to_text(), r#"{"error":"write_key_mismatch"}"#);
    assert_eq!(write_key_error(WriteKeyError::Invalid).body.to_text(), r#"{"error":"invalid_write_key"}"#);
    assert_eq!(unsupported_table("x").status, 404);
}

#[test]
fn catchup_pages_cover_the_feed_without_overlap() {
    let change = |sequence: i64| SyncCatchupChange {
        sequence,
        table_name: "infra_operations".to_string(),
        op: "upsert".to_string(),
        id: format!("op-{sequence}"),
        version: 1,
        row: None,
    };
    let feed = [3, 5, 8, 13, 21];
    let mut cursor = 0;
    let mut seen = Vec::new();
    loop {
        let fetched = feed.iter().copied().filter(|s| *s > cursor).take(3).map(change).collect();
        let page = finish_catchup_page(fetched, cursor, 2);
        seen.extend(page.changes.iter().map(|change| change.sequence));
        cursor = page.next_cursor;
        if !page.has_more {
            break;
        }
    }
    assert_eq!(seen, feed);
    assert!(plan_catchup("infra_operations", -1, None, true).is_err());
    assert!(plan_catchup("infra_operations", 0, Some(0), true).is_err());
    assert!(plan_catchup("secrets", 0, None, true).is_err());
    let query = match plan_catchup("infra_operations", 4, None, true) {
        Ok(query) => query,
        Err(_) => panic!("the default page was refused"),
    };
    assert_eq!((query.cursor, query.page_size, query.fetch_limit), (4, 100, 101));
    let page = finish_catchup_page(vec![change(3)], 0, 2);
    let text = catchup_reply("infra_operations", 0, &page).body.to_text();
    assert!(text.contains("\"next_cursor\":3"), "{text}");
}

#[test]
fn frames_carry_the_change_and_lost_frames_ask_for_a_resync() {
    let frame = change_frame(&row(2, "applied"), &Some("write-key-1".to_string()), 5);
    assert_eq!(
        frame,
        "{\"changes\":[{\"at_ms\":5,\"id\":\"00000000-0000-0000-0000-000000000001\",\"op\":\"upsert\",\
         \"row\":{\"status\":\"applied\",\"version\":2},\"table\":\"infra_operations\",\"version\":2,\
         \"write_key\":\"write-key-1\"}],\"event\":\"fiducia:sync\"}"
    );
    assert!(matches!(admin_ws_step(StreamEvent::Lagged(4)), StreamAction::Send(text) if text.contains("fiducia:resync")));
    assert!(matches!(admin_ws_step(StreamEvent::Opened), StreamAction::Send(text) if text.contains("connected")));
    assert!(matches!(admin_ws_step(StreamEvent::Frame("f".to_string())), StreamAction::Send(text) if text == "f"));
    assert!(matches!(admin_ws_step(StreamEvent::Tick), StreamAction::Ping));
    assert!(matches!(admin_ws_step(StreamEvent::PeerClosed), StreamAction::Stop));
}
