use fiducia_admin::calendar::{relative_age, utc_timestamp};
use fiducia_admin::json::Json;
use fiducia_admin::observability::{
    clamp_since_minutes, classify_log_line, count_up_targets, grafana_explore_loki_url,
    grafana_explore_prom_url, loki_events_logql, loki_query_range_url, parse_loki_events,
    prom_fiducia_up_query, prom_instant_query_url, prom_range_query_url, prom_result_vector,
    recent_events_url, EVENTS_DEFAULT_MINUTES, EVENTS_MAX_MINUTES,
};

fn parsed(text: &str) -> Json {
    match Json::from_bytes(text.as_bytes()) {
        Some(value) => value,
        None => panic!("not JSON: {text}"),
    }
}

// Captured samples: the JSON log layer puts an event's fields at the top level.
const LEADER_TRANSFER_LINE: &str = r#"{"timestamp":"2026-07-13T09:58:01.123456Z","level":"INFO","message":"observed raft leadership transition","metric.name":"fiducia.raft.leader_transfer","shard":3,"from":"Follower","to":"Leader","reason":"became_leader","count":2,"target":"fiducia_node::consensus","threadId":"ThreadId(4)","filename":"src/consensus.rs","line_number":1788}"#;
const ELECTION_WON_LINE: &str = r#"{"timestamp":"2026-07-13T09:58:01.100000Z","level":"INFO","message":"raft: won election — now leader for shard","shard":"3","node":"node-b","term":7,"votes":2,"members":3,"target":"fiducia_node::consensus","threadId":"ThreadId(4)","filename":"src/consensus.rs","line_number":1105}"#;
const CHECK_QUORUM_LINE: &str = r#"{"timestamp":"2026-07-13T09:57:40.000000Z","level":"WARN","message":"raft: leader lease lapsed (no majority contact within an election timeout) — stepping down to avoid split-brain / stale reads (check-quorum)","shard":"3","node":"node-a","term":6,"target":"fiducia_node::consensus"}"#;
const NODE_DEAD_LINE: &str = r#"{"timestamp":"2026-07-13T09:57:00.000000Z","level":"WARN","message":"membership: node declared DEAD (missed heartbeats) — its shards will be re-placed","node":"node-a","domain":"gcp/europe-west1","silent_for_ms":31000,"hosted_shards":5,"leading_shards":2,"target":"fiducia_brain::membership"}"#;
const PLACEMENT_LINE: &str = r#"{"timestamp":"2026-07-13T09:57:05.000000Z","level":"INFO","message":"scheduler: (re)assigning shard placement","shard":3,"replicas":"[\"node-b\", \"node-c\", \"node-d\"]","preferred_leader":"Some(\"node-b\")","target":"fiducia_brain::scheduler"}"#;
const UNRELATED_LINE: &str = r#"{"timestamp":"2026-07-13T09:57:06.000000Z","level":"INFO","message":"fiducia-node listening on http://0.0.0.0:8090","target":"fiducia_node"}"#;

fn sample(at_ns: &str, line: &str) -> Json {
    Json::Array(vec![Json::text(at_ns), Json::text(line)])
}

fn stream(values: Vec<Json>) -> Json {
    Json::Object(vec![("values".to_string(), Json::Array(values))])
}

#[test]
fn prometheus_query_urls_are_escaped() {
    let url = prom_instant_query_url("http://prom:9090/", prom_fiducia_up_query());
    assert_eq!(url, "http://prom:9090/api/v1/query?query=up%7Bnamespace%3D%22fiducia%22%7D");
    let range = prom_range_query_url("http://prom:9090", "rate(x[5m])", 100, 200, 15);
    assert!(range.starts_with("http://prom:9090/api/v1/query_range?query=rate%28x%5B5m%5D%29"));
    assert!(range.ends_with("&start=100&end=200&step=15"));
}

#[test]
fn loki_query_range_url_carries_window_and_escaped_logql() {
    let url = loki_query_range_url("http://loki:3100", &loki_events_logql(), 1, 2, 500);
    assert!(url.starts_with("http://loki:3100/loki/api/v1/query_range?query=%7Bnamespace%3D%22fiducia%22%7D"));
    assert!(url.contains("&start=1&end=2&limit=500"));
    let logql = loki_events_logql();
    for family in ["raft: ", "membership: ", "scheduler: ", "leader_transfer"] {
        assert!(logql.contains(family), "logql must filter for {family:?}");
    }
}

#[test]
fn since_minutes_is_clamped_with_a_default() {
    assert_eq!(clamp_since_minutes(None), EVENTS_DEFAULT_MINUTES);
    assert_eq!(clamp_since_minutes(Some(0)), 1);
    assert_eq!(clamp_since_minutes(Some(-5)), 1);
    assert_eq!(clamp_since_minutes(Some(90)), 90);
    assert_eq!(clamp_since_minutes(Some(1_000_000)), EVENTS_MAX_MINUTES);
}

#[test]
fn grafana_deep_links_embed_the_query() {
    let loki = grafana_explore_loki_url("/telemetry", "{namespace=\"fiducia\"}", 30);
    assert!(loki.starts_with("/telemetry/explore?left="));
    assert!(loki.contains("now-30m"));
    let prom = grafana_explore_prom_url("https://g.example", prom_fiducia_up_query());
    assert!(prom.starts_with("https://g.example/explore?left="));
    assert!(prom.contains("fiducia"));
}

#[test]
fn classifies_raft_and_brain_events_from_captured_json_lines() {
    let transfer = classify_log_line(1_000, LEADER_TRANSFER_LINE).unwrap();
    assert_eq!(transfer.kind, "leader_transfer");
    assert_eq!(transfer.shard, Some(3));
    assert_eq!(transfer.from.as_deref(), Some("Follower"));
    assert_eq!(transfer.to.as_deref(), Some("Leader"));
    assert_eq!(transfer.reason.as_deref(), Some("became_leader"));

    let won = classify_log_line(1_000, ELECTION_WON_LINE).unwrap();
    assert_eq!(won.kind, "election_won");
    assert_eq!(won.shard, Some(3), "debug-formatted shard string parses");
    assert_eq!(won.node.as_deref(), Some("node-b"));

    let lease = classify_log_line(1_000, CHECK_QUORUM_LINE).unwrap();
    assert_eq!(lease.kind, "check_quorum_step_down");

    let dead = classify_log_line(1_000, NODE_DEAD_LINE).unwrap();
    assert_eq!(dead.kind, "node_dead");
    assert_eq!(dead.node.as_deref(), Some("node-a"));

    let placed = classify_log_line(1_000, PLACEMENT_LINE).unwrap();
    assert_eq!(placed.kind, "placement_assigned");
    assert_eq!(placed.shard, Some(3));

    assert!(classify_log_line(1_000, UNRELATED_LINE).is_none());
    assert!(classify_log_line(1_000, "not json at all").is_none());
}

#[test]
fn parses_a_loki_query_range_body_newest_first() {
    let body = Json::Object(vec![
        ("status".to_string(), Json::text("success")),
        (
            "data".to_string(),
            Json::Object(vec![
                ("resultType".to_string(), Json::text("streams")),
                (
                    "result".to_string(),
                    Json::Array(vec![
                        stream(vec![
                            sample("1752400681123456789", LEADER_TRANSFER_LINE),
                            sample("1752400660000000000", CHECK_QUORUM_LINE),
                            sample("1752400666000000000", UNRELATED_LINE),
                        ]),
                        stream(vec![sample("1752400620000000000", NODE_DEAD_LINE)]),
                    ]),
                ),
            ]),
        ),
    ]);
    let events = parse_loki_events(&body);
    assert_eq!(events.len(), 3, "unrelated lines are dropped");
    assert_eq!(events[0].kind, "leader_transfer");
    assert_eq!(events[0].at_ms, 1_752_400_681_123);
    assert_eq!(events[1].kind, "check_quorum_step_down");
    assert_eq!(events[2].kind, "node_dead");
    assert!(events.windows(2).all(|w| w[0].at_ms >= w[1].at_ms));
}

#[test]
fn relative_and_absolute_timestamps() {
    let now = 1_752_400_681_123; // 2025-07-13T09:58:01.123Z
    assert_eq!(relative_age(now - 2_000, now), "just now");
    assert_eq!(relative_age(now - 45_000, now), "45s ago");
    assert_eq!(relative_age(now - 150_000, now), "2m ago");
    assert_eq!(relative_age(now - 3 * 3_600_000, now), "3h ago");
    assert_eq!(relative_age(now - 3 * 86_400_000, now), "3d ago");
    assert_eq!(utc_timestamp(now), "2025-07-13 09:58:01Z");
    assert_eq!(utc_timestamp(0), "1970-01-01 00:00:00Z");
    assert_eq!(utc_timestamp(951_868_800_000), "2000-03-01 00:00:00Z");
}

#[test]
fn timestamps_sort_by_time() {
    let times = [
        -62_167_219_200_000,
        -62_135_596_800_001,
        -62_135_596_800_000,
        -1,
        0,
        999,
        1000,
        59_999,
        60_000,
        86_399_999,
        86_400_000,
        951_782_399_999,
        951_868_800_000,
        1_709_210_096_000,
        253_402_300_799_999,
    ];
    for (i, a) in times.into_iter().enumerate() {
        assert_eq!(utc_timestamp(a).len(), 20);
        for b in times.into_iter().skip(i) {
            assert!(utc_timestamp(a) <= utc_timestamp(b), "{a} {b}");
            assert_eq!(utc_timestamp(a) == utc_timestamp(b), a.div_euclid(1000) == b.div_euclid(1000), "{a} {b}");
        }
    }
    assert_eq!(utc_timestamp(253_402_300_799_999), "9999-12-31 23:59:59Z");
}

#[test]
fn timestamps_before_the_epoch_and_leap_days() {
    assert_eq!(utc_timestamp(-1), "1969-12-31 23:59:59Z");
    assert_eq!(utc_timestamp(1_709_210_096_000), "2024-02-29 12:34:56Z");
    assert_eq!(utc_timestamp(-62_167_219_200_000), "0000-01-01 00:00:00Z");
    assert_eq!(relative_age(10, 0), "just now");
    assert_eq!(relative_age(i64::MAX, i64::MIN), "just now");
    assert_eq!(relative_age(0, 119_999), "119s ago");
    assert_eq!(relative_age(0, 120_000), "2m ago");
    assert_eq!(relative_age(0, 7_199_999), "119m ago");
    assert_eq!(relative_age(0, 172_799_999), "47h ago");
    assert_eq!(relative_age(0, 172_800_000), "2d ago");
}

#[test]
fn up_targets_are_those_whose_sample_is_one() {
    let answer = parsed(
        r#"{"status":"success","data":{"result":[
            {"metric":{},"value":[1,"1"]},
            {"metric":{},"value":[1,"0"]},
            {"metric":{},"value":[1,1]},
            {"metric":{},"value":[1,"1"]}]}}"#,
    );
    assert_eq!(count_up_targets(prom_result_vector(&answer).unwrap()), 2);
    assert!(prom_result_vector(&parsed("{}")).is_none());
}

#[test]
fn recent_events_look_back_from_now() {
    let url = recent_events_url("http://loki:3100", 1_752_400_681_123, 30);
    assert!(url.contains("&start=1752398881123000000&end=1752400681123000000&limit=500"), "{url}");
}
