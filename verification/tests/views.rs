use fiducia_admin::audit::AdminAuditEvent;
use fiducia_admin::cluster_insight::{NodeObservation, NodeShards, QuorumRollup, ShardLatency, ShardView};
use fiducia_admin::cluster_views::{
    cluster_events_panel, cluster_nodes_panel, cluster_status_panel, event_tag_class, health_tag_class, loki_events,
    observe_cell, EventsBody, EventsPanel, PromCard,
};
use fiducia_admin::json::Json;
use fiducia_admin::observability::{ClusterEvent, PromScrape};
use fiducia_admin::session::Session;
use fiducia_admin::shard_merge::{ClusterQuorum, MergedShard};
use fiducia_admin::views::{
    audit_rows, forbidden, ident, infra_panel, notice_rows, page, shows_development_hint, Badge, Notice,
};

fn parsed(text: &str) -> Json {
    match Json::from_bytes(text.as_bytes()) {
        Some(value) => value,
        None => panic!("not JSON: {text}"),
    }
}

fn texts(badges: &[Badge]) -> Vec<&str> {
    badges.iter().map(|badge| badge.text.as_str()).collect()
}

fn shard(shard_id: u32, role: &str, term: u64, leader_id: &str) -> ShardView {
    ShardView {
        shard_id,
        role: role.to_string(),
        term,
        leader_id: Some(leader_id.to_string()),
        commit_index: 42,
        last_applied: 41,
        last_log_index: 0,
        storage_healthy: true,
        storage_error: None,
        healthy_replicas: 3,
        has_quorum: true,
        replication: Vec::new(),
        metrics: ShardLatency {
            append_rtt_ms_last: None,
            quorum_rtt_ms_last: None,
            follower_lag_max: 5,
            leader_transfer_count: 0,
        },
    }
}

fn quorum() -> ClusterQuorum {
    ClusterQuorum {
        leaderless: vec![],
        leader_unreached: vec![],
        dual_leader: vec![],
        at_risk: vec![],
        storage_faulted: vec![],
        unresponsive: vec![],
        nodes_reporting: 2,
        nodes_failed: 1,
        targets_truncated_from: None,
    }
}

fn observation(node_id: &str, error: &str, untrusted: bool) -> NodeObservation {
    NodeObservation {
        node_id: node_id.to_string(),
        base_url: "http://10.0.0.1:8090".to_string(),
        shards: None,
        error: Some(error.to_string()),
        untrusted,
    }
}

#[test]
fn dashboard_keeps_welcome_and_infra_link_for_admin() {
    let admin = Session::test_admin("u");
    let frame = page("Dashboard", Some(&admin), Some("csrf-test-token"));
    assert!(frame.title.contains("Dashboard"));
    assert!(frame.links.iter().any(|link| link.href == "/infra"));
    assert_eq!(ident(&admin), "u@example.com");
}

#[test]
fn infra_renders_scale_controls_and_recent_ops_when_present() {
    let recent = vec![parsed(
        r#"{"action":"scale","target_nodes":9,"status":"requested","version":1,"created_at":"2026-07-08T00:00:00Z"}"#,
    )];
    let panel = infra_panel(&[], &[], &recent, None);
    assert_eq!(panel.operations.len(), 1);
    let row = &panel.operations[0];
    assert_eq!(row.action, "scale");
    assert_eq!(row.target_nodes, "9");
    assert_eq!(row.status, "requested");
    assert_eq!(row.version, 1);
    assert_eq!(row.time, "2026-07-08T00:00:00Z");
    assert_eq!((panel.nodes, panel.shards, panel.applied), (0, 0, None));
}

#[test]
fn cluster_status_panel_renders_cards_badges_and_shard_rows() {
    let status = parsed(
        r#"{"cluster_id":"fiducia-test","version":"0.1.0","shard_count":2,"replication_factor":3,
            "topology":{"nodes_by_health":{"healthy":2,"dead":1}},
            "placement":{"unplaced_shards":0,"under_replicated_shards":1,"leaderless_shards":0,
                         "shards_with_unhealthy_replicas":0},
            "brain_cluster":{"placement_generation":7,"is_leader":true,"leader":null,"available":true,
                             "ha_configured":true}}"#,
    );
    let mut view = shard(0, "leader", 3, "node-a");
    view.storage_healthy = false;
    view.storage_error = Some("disk full".to_string());
    let shards = vec![MergedShard {
        shard_id: 0,
        reported_by: "node-a".to_string(),
        leader_view: true,
        dual_leader: false,
        view,
    }];
    let mut quorum = quorum();
    quorum.at_risk = vec![0];
    quorum.storage_faulted = vec![0];
    let panel =
        cluster_status_panel(&status, &shards, &quorum, &PromScrape::Up { targets: 2 }, Some("/telemetry"));
    assert_eq!(panel.cluster_id, "fiducia-test");
    assert_eq!(panel.version, "0.1.0");
    assert_eq!((panel.shard_count, panel.replication_factor, panel.placement_generation), (2, 3, 7));
    assert_eq!(panel.brain_leader, "this brain");
    assert_eq!((panel.high_availability.text.as_str(), panel.availability.text.as_str()), ("HA", "available"));
    let health = panel.nodes_by_health.unwrap();
    assert_eq!(texts(&health), ["1 dead", "2 healthy"]);
    assert_eq!(health[0].class, "tag tag--bad");
    assert_eq!(
        texts(&panel.placement_gaps),
        ["0 unplaced", "1 under-replicated", "0 leaderless", "0 unhealthy-replica"]
    );
    assert_eq!(panel.placement_gaps[0].class, "tag tag--ok");
    assert_eq!(panel.placement_gaps[1].class, "tag tag--bad");
    assert_eq!(
        texts(&panel.quorum_gaps),
        ["0 leaderless", "0 leader-unreached", "0 dual-leader", "1 at-risk", "1 storage-faulted", "0 unresponsive"]
    );
    assert_eq!(panel.coverage, "2 of 3 nodes", "fan-out coverage is shown");
    assert_eq!(panel.truncation, None);
    assert_eq!(panel.failures, None);
    let row = &panel.shards[0];
    assert_eq!(row.quorum.text, "quorum (3)");
    assert_eq!(row.storage.title.as_deref(), Some("disk full"), "storage fault tooltip");
    assert_eq!(row.progress, "42 / 41");
    assert_eq!(row.leader, "node-a");
    match panel.prometheus {
        PromCard::Up { targets: 2, link: Some(link) } => assert!(link.starts_with("/telemetry/explore?left=")),
        _ => panic!("the Prometheus card is not linked"),
    }
}

#[test]
fn cluster_nodes_panel_badges_reachability_per_node() {
    let nodes = vec![parsed(
        r#"{"node_id":"node-a","address":"10.0.0.1:8090","health":"healthy","failure_domain":"gcp/europe-west1",
            "last_seen_ms":1752400000000,"hosted_shards":[0,1],"leading_shards":[0]}"#,
    )];
    let observations = vec![observation("node-a", "connect timeout", false)];
    let rows = cluster_nodes_panel(&nodes, &observations, 1_752_400_045_000);
    assert_eq!(rows[0].node_id, "node-a");
    assert_eq!(rows[0].observe.text, "unreachable");
    assert_eq!(rows[0].observe.title.as_deref(), Some("connect timeout"), "error carried in the tooltip");
    assert_eq!(rows[0].shards, "2 / 1", "hosted / leading counts");
    assert_eq!(rows[0].failure_domain, "gcp/europe-west1");
    assert_eq!(rows[0].last_seen, "2025-07-13 09:46:40Z");
    assert_eq!(rows[0].last_seen_age, "45s ago");
    assert_eq!(rows[0].health.class, "tag tag--ok");
}

#[test]
fn cluster_nodes_panel_shows_untrusted_address_as_a_distinct_state() {
    let nodes = vec![parsed(
        r#"{"node_id":"spoofed","address":"attacker.example.com:8090","health":"healthy",
            "last_seen_ms":1752400000000,"hosted_shards":[],"leading_shards":[]}"#,
    )];
    let observations = vec![observation("spoofed", "untrusted address", true)];
    let rows = cluster_nodes_panel(&nodes, &observations, 0);
    assert_eq!(rows[0].observe.text, "untrusted address", "distinct refused badge");
    assert_ne!(rows[0].observe.text, "unreachable");
}

#[test]
fn cluster_status_panel_flags_dual_leader_unreached_and_truncation() {
    let status = parsed(r#"{"cluster_id":"fiducia-test","version":"0.1.0"}"#);
    let shards = vec![
        MergedShard {
            shard_id: 0,
            reported_by: "node-b".to_string(),
            leader_view: true,
            dual_leader: true,
            view: shard(0, "leader", 9, "node-b"),
        },
        MergedShard {
            shard_id: 1,
            reported_by: "node-a".to_string(),
            leader_view: false,
            dual_leader: false,
            view: shard(1, "follower", 4, "node-z"),
        },
    ];
    let mut quorum = quorum();
    quorum.leader_unreached = vec![1];
    quorum.dual_leader = vec![0];
    quorum.targets_truncated_from = Some(900);
    let panel = cluster_status_panel(&status, &shards, &quorum, &PromScrape::NotConfigured, None);
    assert!(panel.shards[0].dual_leader, "split-brain badge");
    assert!(texts(&panel.quorum_gaps).contains(&"1 leader-unreached"));
    assert!(texts(&panel.quorum_gaps).contains(&"1 dual-leader"));
    assert_eq!(panel.truncation.as_deref(), Some("targets truncated (showing 512 of 900)"));
    assert_eq!(panel.shards[1].quorum.text, "no leader report");
    assert!(matches!(panel.prometheus, PromCard::NotConfigured));
    assert!(panel.nodes_by_health.is_none());
    assert_eq!(panel.brain_leader, "—");
    assert_eq!((panel.high_availability.text.as_str(), panel.availability.text.as_str()), ("no HA", "unavailable"));
}

#[test]
fn cluster_events_panel_renders_all_three_states() {
    let unconfigured = cluster_events_panel(&EventsPanel::NotConfigured, 30, None, 0);
    assert!(matches!(unconfigured.body, EventsBody::NotConfigured));

    let failed = cluster_events_panel(&EventsPanel::Error("boom".to_string()), 30, None, 0);
    assert!(matches!(failed.body, EventsBody::Failed(text) if text == "Loki query failed: boom"));

    let events = vec![ClusterEvent {
        at_ms: 1_752_400_681_123,
        kind: "leader_transfer",
        shard: Some(3),
        node: None,
        from: Some("Follower".to_string()),
        to: Some("Leader".to_string()),
        reason: Some("became_leader".to_string()),
        message: "observed raft leadership transition".to_string(),
    }];
    let rendered = cluster_events_panel(&EventsPanel::Events(events), 30, Some("/telemetry"), 1_752_400_681_123);
    assert_eq!(rendered.window, "last 30m");
    assert!(rendered.link.is_some_and(|link| link.starts_with("/telemetry/explore?left=")));
    match rendered.body {
        EventsBody::Rows(rows) => {
            assert_eq!(rows[0].kind.text, "leader_transfer");
            assert_eq!(rows[0].detail, "Follower → Leader (became_leader)");
            assert_eq!(rows[0].shard, "3");
            assert_eq!(rows[0].node, "—");
            assert_eq!(rows[0].time, "2025-07-13 09:58:01Z");
            assert_eq!(rows[0].age, "just now");
        }
        _ => panic!("the events are not shown"),
    }
}

#[test]
fn an_event_without_a_transition_shows_its_message() {
    let event = ClusterEvent {
        at_ms: 0,
        kind: "node_dead",
        shard: None,
        node: Some("node-a".to_string()),
        from: Some("Follower".to_string()),
        to: None,
        reason: None,
        message: "membership: node declared DEAD".to_string(),
    };
    let view = cluster_events_panel(&loki_events(Some(Ok(vec![event]))), 5, None, 0);
    match view.body {
        EventsBody::Rows(rows) => {
            assert_eq!(rows[0].detail, "membership: node declared DEAD");
            assert_eq!(rows[0].kind.class, "tag tag--bad");
            assert_eq!(rows[0].node, "node-a");
        }
        _ => panic!("the events are not shown"),
    }
    assert!(matches!(loki_events(None), EventsPanel::NotConfigured));
    assert!(matches!(loki_events(Some(Err("timeout".to_string()))), EventsPanel::Error(error) if error == "timeout"));
}

#[test]
fn styles_follow_the_state() {
    assert_eq!(health_tag_class("healthy"), "tag tag--ok");
    assert_eq!(health_tag_class("draining"), "tag tag--warn");
    assert_eq!(health_tag_class("dead"), "tag tag--bad");
    assert_eq!(health_tag_class("?"), "tag");
    assert_eq!(event_tag_class("step_down"), "tag tag--bad");
    assert_eq!(event_tag_class("node_registered"), "tag tag--ok");
    assert_eq!(event_tag_class("placement_assigned"), "tag tag--warn");
}

#[test]
fn an_observed_node_shows_its_share_of_leadership() {
    let observed = NodeObservation {
        node_id: "node-a".to_string(),
        base_url: "http://10.0.0.1:8090".to_string(),
        shards: Some(NodeShards {
            node_id: "node-a".to_string(),
            shard_count: 2,
            leader_count: 1,
            follower_count: 1,
            quorum: QuorumRollup::default(),
            shards: vec![shard(0, "leader", 1, "node-a"), shard(1, "follower", 1, "node-b")],
        }),
        error: None,
        untrusted: false,
    };
    assert_eq!(observe_cell(Some(&observed)).text, "ok · leads 1 of 2");
    assert_eq!(observe_cell(None).title.as_deref(), Some("not in the observe target set"));
}

#[test]
fn a_page_without_shards_says_why() {
    let panel = cluster_status_panel(&parsed("{}"), &[], &quorum(), &PromScrape::Error { error: "timeout".to_string() }, None);
    assert_eq!(panel.failures.as_deref(), Some("(1 node fetches failed — see the node table.)"));
    assert!(matches!(panel.prometheus, PromCard::Failed(reason) if reason == "timeout"));
}

#[test]
fn a_failed_login_offers_no_sign_out() {
    let session = Session::test_admin("u");
    let refused = forbidden(&session, None);
    assert_eq!(refused.title, "Forbidden · Fiducia Admin");
    assert!(refused.sign_out.is_none() && refused.who.is_none());
    assert_eq!(refused.links.len(), 1);
    assert_eq!(refused.links[0].href, "/login");
    let signed_in = forbidden(&session, Some("token"));
    assert_eq!(signed_in.sign_out.as_deref(), Some("token"));
    assert_eq!(signed_in.who.as_deref(), Some("u@example.com · operator"));
    assert!(shows_development_hint(false));
    assert!(!shows_development_hint(true));
}

#[test]
fn audit_and_notice_rows_fill_in_what_is_absent() {
    let event = AdminAuditEvent {
        id: "a".to_string(),
        actor: None,
        action: "notice.published".to_string(),
        target: None,
        request_id: Some("r".to_string()),
        created_at: "2026-07-08T00:00:00+00:00".to_string(),
    };
    let rows = audit_rows(&[event]);
    assert_eq!((rows[0].actor.as_str(), rows[0].target.as_str(), rows[0].request.as_str()), ("system", "—", "r"));
    let notice = |body: &str, active: bool| Notice {
        severity: "info".to_string(),
        title: "T".to_string(),
        body: body.to_string(),
        active,
        starts_at: "2026-07-08T00:00:00+00:00".to_string(),
    };
    let rows = notice_rows(&[notice("", true), notice("b", false)]);
    assert_eq!((rows[0].body.as_deref(), rows[0].state), (None, "active"));
    assert_eq!((rows[1].body.as_deref(), rows[1].state), (Some("b"), "inactive"));
}
