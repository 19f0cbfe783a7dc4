use fiducia_admin::cluster_api::{
    cluster_data, cluster_events_reply, cluster_metrics_reply, cluster_overview, cluster_shards_reply,
    cluster_targets, collect_metrics, membership_needed, metrics_targets, prom_scrape, up_range_url, ClusterData, ClusterPart,
    ClusterReading, Overview, OverviewPart,
};
use fiducia_admin::cluster_insight::{
    explicit_node_targets, host_is_in_cluster, observe_url, targets_from_brain_nodes, truncate_targets, NodeObservation,
    NodeShards, NodeTarget, PeerReplication, QuorumRollup, ShardLatency, ShardView, MAX_NODES,
};
use fiducia_admin::json::Json;
use fiducia_admin::cluster_views::cluster_nodes_panel;
use fiducia_admin::observability::{clamp_since_minutes, parse_loki_events, prom_result_vector, ClusterEvent, PromScrape};
use fiducia_admin::shard_merge::{cluster_quorum, merge_shards};
use fiducia_admin::upstream::{error_class, UpstreamError, UpstreamFailure};

fn parsed(text: &str) -> Json {
    match Json::from_bytes(text.as_bytes()) {
        Some(value) => value,
        None => panic!("not JSON: {text}"),
    }
}

fn shard_view(shard_id: u32, role: &str, term: u64) -> ShardView {
    ShardView {
        shard_id,
        role: role.to_string(),
        term,
        leader_id: None,
        commit_index: 0,
        last_applied: 0,
        last_log_index: 0,
        storage_healthy: true,
        storage_error: None,
        healthy_replicas: 0,
        has_quorum: false,
        replication: Vec::new(),
        metrics: ShardLatency {
            append_rtt_ms_last: None,
            quorum_rtt_ms_last: None,
            follower_lag_max: 0,
            leader_transfer_count: 0,
        },
    }
}

fn node_shards(node_id: &str, shards: Vec<ShardView>) -> NodeShards {
    NodeShards {
        node_id: node_id.to_string(),
        shard_count: 4,
        leader_count: 0,
        follower_count: 0,
        quorum: QuorumRollup::default(),
        shards,
    }
}

fn observation(node_id: &str, shards: Vec<ShardView>) -> NodeObservation {
    NodeObservation {
        node_id: node_id.to_string(),
        base_url: format!("http://{node_id}:8090"),
        shards: Some(node_shards(node_id, shards)),
        error: None,
        untrusted: false,
    }
}

fn down(node_id: &str, error: &str) -> NodeObservation {
    NodeObservation {
        node_id: node_id.to_string(),
        base_url: format!("http://{node_id}:8090"),
        shards: None,
        error: Some(error.to_string()),
        untrusted: false,
    }
}

fn target(node_id: &str, trusted: bool) -> NodeTarget {
    NodeTarget { node_id: node_id.to_string(), base_url: format!("http://{node_id}:8090"), trusted }
}

#[test]
fn explicit_node_urls_override_and_label_by_host() {
    let targets = explicit_node_targets(&[
        "http://fiducia-node-0.fiducia-node.fiducia.svc.cluster.local:8090/".to_string(),
        "10.2.0.7:8090".to_string(),
    ]);
    assert_eq!(targets[0].base_url, "http://fiducia-node-0.fiducia-node.fiducia.svc.cluster.local:8090");
    assert_eq!(targets[0].node_id, "fiducia-node-0");
    assert_eq!(targets[1].base_url, "http://10.2.0.7:8090");
}

#[test]
fn brain_nodes_discovery_uses_heartbeat_addresses_and_skips_addressless() {
    let nodes = vec![
        parsed(r#"{"node_id":"node-a","address":"10.0.0.1:8090","health":"healthy"}"#),
        parsed(r#"{"node_id":"node-b","address":"","health":"dead"}"#),
        parsed(r#"{"node_id":"node-c","address":"https://node-c:8090"}"#),
    ];
    let targets = targets_from_brain_nodes(&nodes);
    assert_eq!(targets.len(), 2);
    assert_eq!(targets[0].node_id, "node-a");
    assert_eq!(targets[0].base_url, "http://10.0.0.1:8090");
    assert_eq!(targets[1].base_url, "https://node-c:8090");
}

#[test]
fn merge_prefers_the_leaders_view_per_shard_and_tolerates_down_nodes() {
    let follower_first = observation("node-a", vec![shard_view(0, "follower", 6), shard_view(1, "leader", 4)]);
    let leader_second = observation("node-b", vec![shard_view(0, "leader", 7), shard_view(1, "follower", 4)]);
    let down = down("node-c", "connection refused");

    let merged = merge_shards(&[follower_first, leader_second, down]);
    assert_eq!(merged.len(), 2);
    assert_eq!(merged[0].shard_id, 0);
    assert_eq!(merged[0].reported_by, "node-b", "leader view wins");
    assert!(merged[0].leader_view);
    assert_eq!(merged[0].view.term, 7);
    assert_eq!(merged[1].reported_by, "node-a", "first leader kept");
    assert!(merged[1].leader_view);
}

#[test]
fn merge_keeps_a_follower_view_for_a_leaderless_shard() {
    let merged = merge_shards(&[observation("node-a", vec![shard_view(2, "follower", 9)])]);
    assert_eq!(merged.len(), 1);
    assert!(!merged[0].leader_view);
    assert_eq!(merged[0].reported_by, "node-a");
}

#[test]
fn cluster_quorum_folds_per_node_rollups_and_counts_failures() {
    let mut healthy = observation("node-a", vec![shard_view(0, "leader", 3)]);
    if let Some(shards) = &mut healthy.shards {
        shards.quorum.at_risk_led_shards = vec![0];
        shards.quorum.storage_faulted_shards = vec![2];
        shards.quorum.unresponsive_shards = vec![1];
    }
    let follower_only = observation("node-b", vec![shard_view(1, "follower", 3)]);
    let observations = [healthy, follower_only, down("node-c", "timeout")];
    let merged = merge_shards(&observations);
    let quorum = cluster_quorum(&observations, &merged);
    assert_eq!(quorum.nodes_reporting, 2);
    assert_eq!(quorum.nodes_failed, 1);
    assert_eq!(quorum.leaderless, vec![1], "no node leads shard 1");
    assert_eq!(quorum.at_risk, vec![0]);
    assert_eq!(quorum.storage_faulted, vec![2]);
    assert_eq!(quorum.unresponsive, vec![1]);
}

#[test]
fn two_leaders_are_flagged_and_a_known_leader_is_not_missing() {
    let mut follower = shard_view(1, "follower", 4);
    follower.leader_id = Some("node-z".to_string());
    let observations = [
        observation("node-a", vec![shard_view(0, "leader", 3), follower]),
        observation("node-b", vec![shard_view(0, "leader", 9)]),
    ];
    let merged = merge_shards(&observations);
    assert!(merged[0].dual_leader);
    assert_eq!(merged[0].reported_by, "node-a");
    let quorum = cluster_quorum(&observations, &merged);
    assert_eq!(quorum.dual_leader, vec![0]);
    assert_eq!(quorum.leader_unreached, vec![1]);
    assert!(quorum.leaderless.is_empty());
}

#[test]
fn only_hosts_inside_the_cluster_are_trusted() {
    for host in ["127.0.0.1", "10.2.0.7", "192.168.1.9", "172.16.0.1", "[::1]", "node-c", "n.fiducia.svc", "n.x.svc.cluster.local"] {
        assert!(host_is_in_cluster(host), "{host}");
    }
    for host in ["attacker.example.com", "8.8.8.8", "172.32.0.1", "", "2001:db8::1"] {
        assert!(!host_is_in_cluster(host), "{host}");
    }
    let nodes = vec![
        parsed(r#"{"node_id":"evil","address":"attacker.example.com:8090"}"#),
        parsed(r#"{"node_id":"good","address":"127.0.0.1:8090"}"#),
    ];
    let targets = targets_from_brain_nodes(&nodes);
    assert!(!targets[0].trusted);
    assert!(targets[1].trusted);
}

#[test]
fn targets_beyond_the_cap_are_dropped_and_counted() {
    let mut targets: Vec<NodeTarget> = (0..900).map(|i| target(&format!("node-{i}"), true)).collect();
    assert_eq!(truncate_targets(&mut targets), Some(900));
    assert_eq!(targets.len(), MAX_NODES);
    assert_eq!(targets[MAX_NODES - 1].node_id, "node-511");
    assert_eq!(truncate_targets(&mut targets), None);
    let urls: Vec<String> = (0..600).map(|i| format!("http://n{i}:1")).collect();
    let (kept, truncated_from) = cluster_targets(&urls, &[]);
    assert_eq!((kept.len(), truncated_from), (MAX_NODES, Some(600)));
}

fn read(node_urls: &[String]) -> ClusterData {
    let reading = cluster_data(
        node_urls,
        ClusterReading::Status,
        ClusterPart::Status(Some(parsed(r#"{"cluster_id":"fiducia-test"}"#))),
    );
    let nodes = vec![
        parsed(r#"{"node_id":"node-ok","address":"127.0.0.1:1"}"#),
        parsed(r#"{"node_id":"evil","address":"attacker.example.com:1"}"#),
        parsed(r#"{"node_id":"lost","address":"127.0.0.1:2"}"#),
    ];
    let reading = cluster_data(node_urls, reading, ClusterPart::Nodes(Some(nodes)));
    let outcomes = vec![
        Some(Ok(node_shards("node-ok", vec![shard_view(0, "leader", 3)]))),
        Some(Ok(node_shards("evil", vec![shard_view(9, "leader", 3)]))),
    ];
    match cluster_data(node_urls, reading, ClusterPart::Observed(outcomes)) {
        ClusterReading::Ready(data) => data,
        _ => panic!("the cluster was not read"),
    }
}

#[test]
fn a_refused_or_lost_node_is_an_entry_not_a_failure() {
    let data = read(&[]);
    assert_eq!(data.observations.len(), 3);
    assert_eq!(data.observations[1].error.as_deref(), Some("untrusted address"));
    assert!(data.observations[1].untrusted);
    assert!(data.observations[1].shards.is_none(), "a refused node reports nothing");
    assert_eq!(data.observations[2].error.as_deref(), Some("fetch task failed"));
    assert_eq!(data.merged.len(), 1);
    assert_eq!(data.quorum.nodes_reporting, 1);
    assert_eq!(data.quorum.nodes_failed, 2);
    let text = cluster_shards_reply(&data, 7).body.to_text();
    assert!(text.contains(r#""generated_at_ms":7"#), "{text}");
    assert!(text.contains(r#""reported_by":"node-ok""#), "{text}");
    assert!(text.contains(r#"{"base_url":"http://attacker.example.com:1","error":"untrusted address","node_id":"evil","untrusted":true}"#), "{text}");
}

#[test]
fn the_brain_is_required() {
    match cluster_data(&[], ClusterReading::Status, ClusterPart::Status(None)) {
        ClusterReading::Failed(reply) => {
            assert_eq!(reply.status, 502);
            assert_eq!(reply.body.to_text(), r#"{"dependency":"fiducia-brain","error":"brain_status_failed"}"#);
        }
        _ => panic!("a missing status was accepted"),
    }
    let reading = cluster_data(&[], ClusterReading::Status, ClusterPart::Status(Some(parsed("{}"))));
    match cluster_data(&[], reading, ClusterPart::Nodes(None)) {
        ClusterReading::Failed(reply) => {
            assert_eq!(reply.body.to_text(), r#"{"dependency":"fiducia-brain","error":"brain_nodes_failed"}"#);
        }
        _ => panic!("missing nodes were accepted"),
    }
}

#[test]
fn the_overview_puts_all_planes_together() {
    let data = read(&[]);
    let overview = cluster_overview(&[], Overview::Config(data), OverviewPart::Config(Some(parsed(r#"{"shard_count":2}"#))));
    let overview = cluster_overview(
        &[],
        overview,
        OverviewPart::Policies(Some(parsed(r#"{"policies":[{"namespace":"orders"}]}"#))),
    );
    let overview = cluster_overview(&[], overview, OverviewPart::Prometheus(PromScrape::Up { targets: 2 }, 11));
    match overview {
        Overview::Answered(reply) => {
            assert_eq!(reply.status, 200);
            let text = reply.body.to_text();
            for piece in [
                r#""cluster":{"cluster_id":"fiducia-test"}"#,
                r#""config":{"shard_count":2}"#,
                r#""policies":[{"namespace":"orders"}]"#,
                r#""prometheus":{"state":"up","targets":2}"#,
                r#""nodes_reporting":1"#,
                r#""targets_truncated_from":null"#,
                r#""generated_at_ms":11"#,
            ] {
                assert!(text.contains(piece), "{piece} is not in {text}");
            }
        }
        _ => panic!("the overview was not answered"),
    }
    let failed = cluster_overview(&[], Overview::Config(read(&[])), OverviewPart::Config(None));
    assert!(matches!(failed, Overview::Answered(reply) if reply.body.to_text().contains("brain_config_failed")));
    let policies = Overview::Policies { data: read(&[]), config: parsed("{}") };
    let failed = cluster_overview(&[], policies, OverviewPart::Policies(None));
    assert!(matches!(failed, Overview::Answered(reply) if reply.body.to_text().contains("brain_policies_failed")));
}

#[test]
fn prometheus_is_absent_failed_or_up() {
    assert!(matches!(prom_scrape(None), PromScrape::NotConfigured));
    assert!(matches!(prom_scrape(Some(Err("timeout".to_string()))), PromScrape::Error { error } if error == "timeout"));
    let samples = vec![parsed(r#"{"value":[1,"1"]}"#), parsed(r#"{"value":[1,"0"]}"#)];
    assert!(matches!(prom_scrape(Some(Ok(samples))), PromScrape::Up { targets: 1 }));
}

#[test]
fn events_say_when_there_is_no_source_of_them() {
    assert_eq!(
        cluster_events_reply(30, &None).body.to_text(),
        r#"{"configured":false,"events":[],"since_minutes":30}"#
    );
    let failed = cluster_events_reply(30, &Some(None));
    assert_eq!(failed.status, 502);
    assert_eq!(failed.body.to_text(), r#"{"dependency":"loki","error":"loki_query_failed"}"#);
    let event = ClusterEvent {
        at_ms: 5,
        kind: "leader_transfer",
        shard: Some(0),
        node: None,
        from: None,
        to: None,
        reason: None,
        message: "m".to_string(),
    };
    assert_eq!(
        cluster_events_reply(1440, &Some(Some(vec![event]))).body.to_text(),
        r#"{"configured":true,"events":[{"at_ms":5,"kind":"leader_transfer","message":"m","shard":0}],"since_minutes":1440}"#
    );
}

#[test]
fn metrics_carry_each_node_in_its_place() {
    let targets = [target("a", true), target("b", true), target("evil", false), target("lost", true)];
    let outcomes = [
        Some(Ok(parsed(r#"{"operations":[{"op":"kv.put"}]}"#))),
        Some(Err("bad status: 500".to_string())),
        Some(Ok(parsed(r#"{"operations":[]}"#))),
    ];
    let metrics = collect_metrics(&targets, &outcomes);
    let series = vec![parsed(r#"{"metric":{"pod":"p"}}"#)];
    let reply = cluster_metrics_reply(&metrics, &Some(Ok(series)), None, 3);
    assert_eq!(
        reply.body.to_text(),
        concat_lines(&[
            r#"{"generated_at_ms":3,"nodes":["#,
            r#"{"base_url":"http://a:8090","node_id":"a","operations":[{"op":"kv.put"}]},"#,
            r#"{"base_url":"http://b:8090","error":"bad status: 500","node_id":"b"},"#,
            r#"{"base_url":"http://evil:8090","error":"untrusted address","node_id":"evil"},"#,
            r#"{"base_url":"http://lost:8090","error":"fetch task failed","node_id":"lost"}],"#,
            r#""prometheus_up_range":[{"metric":{"pod":"p"}}],"targets_truncated_from":null}"#,
        ])
    );
    assert!(cluster_metrics_reply(&[], &None, Some(900), 3).body.to_text().contains(r#""prometheus_up_range":null"#));
    assert!(cluster_metrics_reply(&[], &Some(Err("timeout".to_string())), None, 3)
        .body
        .to_text()
        .contains(r#""prometheus_up_range":{"error":"timeout"}"#));
}

fn concat_lines(lines: &[&str]) -> String {
    lines.concat()
}

#[test]
fn the_counters_need_nodes_from_somewhere() {
    assert!(metrics_targets(&[], None).is_err());
    let nodes = vec![parsed(r#"{"node_id":"node-a","address":"10.0.0.1:8090"}"#)];
    assert!(metrics_targets(&[], Some(&nodes)).is_ok_and(|targets| targets.0.len() == 1));
    assert!(metrics_targets(&["http://n:1".to_string()], None).is_ok_and(|targets| targets.0.len() == 1));
    assert_eq!(
        up_range_url("http://prom:9090/", 1_752_400_681_123),
        "http://prom:9090/api/v1/query_range?query=up%7Bnamespace%3D%22fiducia%22%7D&start=1752399781&end=1752400681&step=60"
    );
}

/// What a reply's body holds along a path of keys and indices.
fn at<'a>(json: &'a Json, path: &[&str]) -> &'a Json {
    let mut found = json;
    for step in path {
        let next = match step.parse::<usize>() {
            Ok(index) => found.at(index),
            Err(_) => found.get(step),
        };
        found = match next {
            Some(next) => next,
            None => panic!("nothing at {step} of {path:?}"),
        };
    }
    found
}

fn result_of(answer: &Json) -> Result<Vec<Json>, String> {
    match prom_result_vector(answer) {
        Some(items) => Ok(items.iter().map(Json::duplicate).collect()),
        None => Err("no result".to_string()),
    }
}

fn healthy_node() -> NodeShards {
    let mut led = shard_view(0, "leader", 3);
    led.leader_id = Some("node-ok".to_string());
    led.commit_index = 42;
    led.last_applied = 42;
    led.last_log_index = 42;
    led.healthy_replicas = 3;
    led.has_quorum = true;
    led.replication =
        vec![PeerReplication { peer: "node-down".to_string(), match_index: 42, lag: 0, in_flight: false }];
    let mut followed = shard_view(1, "follower", 3);
    followed.leader_id = Some("node-down".to_string());
    followed.commit_index = 10;
    let mut node = node_shards("node-ok", vec![led, followed]);
    node.shard_count = 2;
    node.leader_count = 1;
    node.follower_count = 1;
    node
}

const LOKI_TRANSFER_LINE: &str = r#"{"timestamp":"2025-07-13T09:58:01.123456Z","level":"INFO","message":"observed raft leadership transition","metric.name":"fiducia.raft.leader_transfer","shard":0,"from":"Follower","to":"Leader","reason":"became_leader","count":1,"target":"fiducia_node::consensus"}"#;

#[test]
fn overview_merges_all_planes_and_tolerates_a_down_node() {
    let status = parsed(
        r#"{"service":"fiducia-brain","version":"0.1.0","cluster_id":"fiducia-test","nodes":2,"shard_count":2,"replication_factor":3,"ready":false}"#,
    );
    let nodes = vec![
        parsed(r#"{"node_id":"node-ok","address":"127.0.0.1:4101","health":"healthy","last_seen_ms":1752400000000}"#),
        parsed(r#"{"node_id":"node-down","address":"127.0.0.1:4102","health":"suspect","last_seen_ms":1752399000000}"#),
    ];
    let reading = cluster_data(&[], ClusterReading::Status, ClusterPart::Status(Some(status)));
    let reading = cluster_data(&[], reading, ClusterPart::Nodes(Some(nodes)));
    let failed = error_class(UpstreamFailure::Known(UpstreamError::BadStatus(500)));
    let outcomes = vec![Some(Ok(healthy_node())), Some(Err(failed.clone()))];
    let data = match cluster_data(&[], reading, ClusterPart::Observed(outcomes)) {
        ClusterReading::Ready(data) => data,
        _ => panic!("the cluster was not read"),
    };
    let rows = cluster_nodes_panel(&data.nodes, &data.observations, 1_752_400_681_123);
    assert_eq!(rows[0].node_id, "node-ok");
    assert_eq!(rows[1].observe.text, "unreachable", "down node badge");

    let config = parsed(r#"{"cluster_id":"fiducia-test","shard_count":2,"replication_factor":3}"#);
    let policies = parsed(r#"{"policies":[{"namespace":"orders","home_region":"eu"}]}"#);
    let samples = parsed(
        r#"{"status":"success","data":{"resultType":"vector","result":[{"metric":{"pod":"fiducia-node-0"},"value":[1752400681.0,"1"]},{"metric":{"pod":"fiducia-node-1"},"value":[1752400681.0,"1"]},{"metric":{"pod":"fiducia-brain-0"},"value":[1752400681.0,"0"]}]}}"#,
    );
    let scrape = prom_scrape(Some(result_of(&samples)));
    let overview = cluster_overview(&[], Overview::Config(data), OverviewPart::Config(Some(config)));
    let overview = cluster_overview(&[], overview, OverviewPart::Policies(Some(policies)));
    let reply = match cluster_overview(&[], overview, OverviewPart::Prometheus(scrape, 9)) {
        Overview::Answered(reply) => reply,
        _ => panic!("the overview was not answered"),
    };
    assert_eq!(reply.status, 200);
    let body = &reply.body;
    assert_eq!(at(body, &["cluster", "cluster_id"]).as_str(), Some("fiducia-test"));
    assert_eq!(at(body, &["config", "shard_count"]).as_u64(), Some(2));
    assert_eq!(at(body, &["policies", "0", "namespace"]).as_str(), Some("orders"));
    assert_eq!(at(body, &["shards"]).as_array().map(Vec::len), Some(2), "both shards merged from the healthy node");
    assert_eq!(at(body, &["shards", "0", "shard_id"]).as_u64(), Some(0));
    assert_eq!(at(body, &["shards", "0", "reported_by"]).as_str(), Some("node-ok"));
    assert_eq!(at(body, &["shards", "0", "leader_view"]).as_bool(), Some(true));
    assert_eq!(at(body, &["shards", "0", "replication", "0", "peer"]).as_str(), Some("node-down"));
    assert_eq!(at(body, &["shards", "1", "leader_view"]).as_bool(), Some(false), "leader is the down node");
    assert_eq!(at(body, &["node_observations"]).as_array().map(Vec::len), Some(2));
    assert!(at(body, &["node_observations", "0"]).get("error").is_none());
    assert!(
        at(body, &["node_observations", "1", "error"]).as_str().is_some_and(|error| error.contains("500")),
        "the down node is an error entry, not a page failure"
    );
    assert_eq!(at(body, &["quorum", "nodes_reporting"]).as_u64(), Some(1));
    assert_eq!(at(body, &["quorum", "nodes_failed"]).as_u64(), Some(1));
    assert_eq!(at(body, &["quorum", "leaderless"]).to_text(), "[]");
    assert_eq!(at(body, &["quorum", "leader_unreached"]).to_text(), "[1]");
    assert_eq!(at(body, &["prometheus", "state"]).as_str(), Some("up"));
    assert_eq!(at(body, &["prometheus", "targets"]).as_u64(), Some(2), "only value==\"1\" counts");

    let line = Json::Text(LOKI_TRANSFER_LINE.to_string()).to_text();
    let answer = parsed(&format!(
        r#"{{"status":"success","data":{{"resultType":"streams","result":[{{"stream":{{"namespace":"fiducia","pod":"fiducia-node-0"}},"values":[["1752400681123456789",{line}]]}}]}}}}"#
    ));
    let since = clamp_since_minutes(Some(999_999));
    let events = cluster_events_reply(since, &Some(Some(parse_loki_events(&answer))));
    assert_eq!(events.status, 200);
    assert_eq!(at(&events.body, &["configured"]).as_bool(), Some(true));
    assert_eq!(at(&events.body, &["since_minutes"]).as_i64(), Some(1440), "clamped to the max window");
    assert_eq!(at(&events.body, &["events", "0", "kind"]).as_str(), Some("leader_transfer"));
    assert_eq!(at(&events.body, &["events", "0", "shard"]).as_u64(), Some(0));

    let targets = [target("node-ok", true), target("node-down", true)];
    let counters = parsed(r#"{"operations":[{"op":"kv.put","count":12,"errors":1,"avg_ms":2.5,"max_ms":20.0}]}"#);
    let metrics = collect_metrics(&targets, &[Some(Ok(counters)), Some(Err(failed))]);
    let range = parsed(
        r#"{"data":{"result":[{"metric":{"pod":"fiducia-node-0"},"values":[[1752400621.0,"1"],[1752400681.0,"1"]]}]}}"#,
    );
    let reply = cluster_metrics_reply(&metrics, &Some(result_of(&range)), None, 9);
    assert_eq!(reply.status, 200);
    assert_eq!(at(&reply.body, &["nodes"]).as_array().map(Vec::len), Some(2));
    assert_eq!(at(&reply.body, &["nodes", "0", "operations", "0", "op"]).as_str(), Some("kv.put"));
    assert!(at(&reply.body, &["nodes", "1", "error"]).as_str().is_some());
    assert_eq!(
        at(&reply.body, &["prometheus_up_range", "0", "metric", "pod"]).as_str(),
        Some("fiducia-node-0")
    );
}

#[test]
fn only_trusted_targets_are_dialed() {
    let path = "/v1/observe/shards";
    assert_eq!(observe_url(&target("n1", true), path).as_deref(), Some("http://n1:8090/v1/observe/shards"));
    assert_eq!(observe_url(&target("evil", false), path), None);
    let nodes = vec![
        parsed(r#"{"node_id":"in","address":"10.0.0.7:8090"}"#),
        parsed(r#"{"node_id":"out","address":"https://attacker.example.com"}"#),
    ];
    let (found, _) = cluster_targets(&[], &nodes);
    let asked: Vec<_> = found.iter().map(|target| observe_url(target, path)).collect();
    assert_eq!(asked, vec![Some("http://10.0.0.7:8090/v1/observe/shards".to_string()), None]);
    let configured = vec!["https://attacker.example.com".to_string()];
    let (found, _) = cluster_targets(&configured, &nodes);
    assert_eq!(observe_url(&found[0], path).as_deref(), Some("https://attacker.example.com/v1/observe/shards"));
    assert!(membership_needed(&[]));
    assert!(!membership_needed(&configured));
}
