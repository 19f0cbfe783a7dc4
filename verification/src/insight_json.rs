//! Cluster insight as JSON.

use vstd::prelude::*;

use crate::cluster_insight::{
    NodeObservation, NodeShards, PeerInfo, PeerReplication, QuorumRollup, ShardInfo, ShardLatency, ShardView,
};
use crate::json::{
    items_view, lemma_items_view, optional_integer_view, optional_text_view, Fields, Json, JsonView, NumberView,
};
use crate::observability::{event_views, ClusterEvent, EventView, PromScrape};
use crate::shard_merge::{ClusterQuorum, MergedShard};

verus! {

/// An integer as JSON.
pub open spec fn integer(n: int) -> JsonView {
    JsonView::Number(NumberView::Integer(n))
}

/// Integers as a JSON array.
pub open spec fn integers(numbers: Seq<u32>) -> JsonView {
    JsonView::Array(numbers.map_values(|n: u32| integer(n as int)))
}

/// An object with one field more, unless the field is absent.
pub open spec fn with_optional(map: Map<Seq<char>, JsonView>, key: Seq<char>, value: Option<JsonView>) -> Map<
    Seq<char>,
    JsonView,
> {
    match value {
        Some(value) => map.insert(key, value),
        None => map,
    }
}

/// An optional text, to be left out when it is absent.
pub open spec fn kept_text(text: Option<Seq<char>>) -> Option<JsonView> {
    match text {
        Some(text) => Some(JsonView::Text(text)),
        None => None,
    }
}

/// A shard's counters as JSON.
pub open spec fn latency_json(metrics: ShardLatency) -> JsonView {
    JsonView::Object(
        Map::empty().insert(
            "append_rtt_ms_last"@,
            optional_integer_view(widened(metrics.append_rtt_ms_last)),
        ).insert("quorum_rtt_ms_last"@, optional_integer_view(widened(metrics.quorum_rtt_ms_last))).insert(
            "follower_lag_max"@,
            integer(metrics.follower_lag_max as int),
        ).insert("leader_transfer_count"@, integer(metrics.leader_transfer_count as int)),
    )
}

/// The integer behind an optional number.
pub open spec fn widened(n: Option<u64>) -> Option<int> {
    match n {
        Some(n) => Some(n as int),
        None => None,
    }
}

/// A follower's progress as JSON.
pub open spec fn peer_json(peer: PeerInfo) -> JsonView {
    JsonView::Object(
        Map::empty().insert("peer"@, JsonView::Text(peer.peer)).insert(
            "match_index"@,
            integer(peer.match_index as int),
        ).insert("lag"@, integer(peer.lag as int)).insert("in_flight"@, JsonView::Bool(peer.in_flight)),
    )
}

/// The fields of a shard's status, added to those of `map`.
pub open spec fn shard_fields(map: Map<Seq<char>, JsonView>, shard: ShardInfo) -> Map<Seq<char>, JsonView> {
    map.insert("shard_id"@, integer(shard.shard_id as int)).insert("role"@, JsonView::Text(shard.role)).insert(
        "term"@,
        integer(shard.term as int),
    ).insert("leader_id"@, optional_text_view(shard.leader_id)).insert(
        "commit_index"@,
        integer(shard.commit_index as int),
    ).insert("last_applied"@, integer(shard.last_applied as int)).insert(
        "last_log_index"@,
        integer(shard.last_log_index as int),
    ).insert("storage_healthy"@, JsonView::Bool(shard.storage_healthy)).insert(
        "storage_error"@,
        optional_text_view(shard.storage_error),
    ).insert("healthy_replicas"@, integer(shard.healthy_replicas as int)).insert(
        "has_quorum"@,
        JsonView::Bool(shard.has_quorum),
    ).insert(
        "replication"@,
        JsonView::Array(shard.replication.map_values(|peer: PeerInfo| peer_json(peer))),
    ).insert("metrics"@, latency_json(shard.metrics))
}

/// A node's rollup as JSON.
pub open spec fn rollup_json(rollup: QuorumRollup) -> JsonView {
    JsonView::Object(
        Map::empty().insert("leaderless_shards"@, integers(rollup.leaderless_shards@)).insert(
            "at_risk_led_shards"@,
            integers(rollup.at_risk_led_shards@),
        ).insert("all_led_shards_have_quorum"@, JsonView::Bool(rollup.all_led_shards_have_quorum)).insert(
            "storage_faulted_shards"@,
            integers(rollup.storage_faulted_shards@),
        ).insert("unresponsive_shards"@, integers(rollup.unresponsive_shards@)).insert(
            "status_complete"@,
            JsonView::Bool(rollup.status_complete),
        ),
    )
}

/// What a node reports as JSON.
pub open spec fn node_shards_json(shards: NodeShards) -> JsonView {
    JsonView::Object(
        Map::empty().insert("node_id"@, JsonView::Text(shards.node_id@)).insert(
            "shard_count"@,
            integer(shards.shard_count as int),
        ).insert("leader_count"@, integer(shards.leader_count as int)).insert(
            "follower_count"@,
            integer(shards.follower_count as int),
        ).insert("quorum"@, rollup_json(shards.quorum)).insert(
            "shards"@,
            JsonView::Array(
                shards.shards@.map_values(
                    |shard: ShardView| JsonView::Object(shard_fields(Map::empty(), shard@)),
                ),
            ),
        ),
    )
}

/// A node's outcome as JSON: what it does not have is left out.
pub open spec fn observation_json(observation: NodeObservation) -> JsonView {
    JsonView::Object(
        with_optional(
            with_optional(
                Map::empty().insert("node_id"@, JsonView::Text(observation.node_id@)).insert(
                    "base_url"@,
                    JsonView::Text(observation.base_url@),
                ),
                "shards"@,
                match observation.shards {
                    Some(shards) => Some(node_shards_json(shards)),
                    None => None,
                },
            ),
            "error"@,
            kept_text(observation.error.deep_view()),
        ).insert("untrusted"@, JsonView::Bool(observation.untrusted)),
    )
}

/// A shard's row as JSON: the adopted view's fields beside the row's own.
pub open spec fn merged_json(row: MergedShard) -> JsonView {
    JsonView::Object(
        shard_fields(
            Map::empty().insert("shard_id"@, integer(row.shard_id as int)).insert(
                "reported_by"@,
                JsonView::Text(row.reported_by@),
            ).insert("leader_view"@, JsonView::Bool(row.leader_view)).insert(
                "dual_leader"@,
                JsonView::Bool(row.dual_leader),
            ),
            row.view@,
        ),
    )
}

/// The integer behind an optional count.
pub open spec fn counted(n: Option<usize>) -> Option<int> {
    match n {
        Some(n) => Some(n as int),
        None => None,
    }
}

/// The cluster's rollup as JSON.
pub open spec fn quorum_json(quorum: ClusterQuorum) -> JsonView {
    JsonView::Object(
        Map::empty().insert("leaderless"@, integers(quorum.leaderless@)).insert(
            "leader_unreached"@,
            integers(quorum.leader_unreached@),
        ).insert("dual_leader"@, integers(quorum.dual_leader@)).insert("at_risk"@, integers(quorum.at_risk@)).insert(
            "storage_faulted"@,
            integers(quorum.storage_faulted@),
        ).insert("unresponsive"@, integers(quorum.unresponsive@)).insert(
            "nodes_reporting"@,
            integer(quorum.nodes_reporting as int),
        ).insert("nodes_failed"@, integer(quorum.nodes_failed as int)).insert(
            "targets_truncated_from"@,
            optional_integer_view(counted(quorum.targets_truncated_from)),
        ),
    )
}

/// The Prometheus probe as JSON.
pub open spec fn prometheus_json(prometheus: PromScrape) -> JsonView {
    match prometheus {
        PromScrape::NotConfigured => JsonView::Object(
            Map::empty().insert("state"@, JsonView::Text("not_configured"@)),
        ),
        PromScrape::Error { error } => JsonView::Object(
            Map::empty().insert("state"@, JsonView::Text("error"@)).insert("error"@, JsonView::Text(error@)),
        ),
        PromScrape::Up { targets } => JsonView::Object(
            Map::empty().insert("state"@, JsonView::Text("up"@)).insert("targets"@, integer(targets as int)),
        ),
    }
}

/// A cluster event as JSON: what it does not have is left out.
pub open spec fn cluster_event_json(event: EventView) -> JsonView {
    let shard = match event.shard {
        Some(shard) => Some(integer(shard as int)),
        None => None,
    };
    let map = Map::empty().insert("at_ms"@, integer(event.at_ms as int)).insert("kind"@, JsonView::Text(event.kind));
    let map = with_optional(with_optional(map, "shard"@, shard), "node"@, kept_text(event.node));
    let map = with_optional(with_optional(map, "from"@, kept_text(event.from)), "to"@, kept_text(event.to));
    let map = with_optional(map, "reason"@, kept_text(event.reason));
    JsonView::Object(map.insert("message"@, JsonView::Text(event.message)))
}

/// An optional count, or null.
pub(crate) fn count_json(n: Option<usize>) -> (json: Json)
    ensures
        json@ == optional_integer_view(counted(n)),
{
    match n {
        Some(n) => Json::unsigned(n as u64),
        None => Json::Null,
    }
}

/// Integers as a JSON array.
fn write_integers(numbers: &[u32]) -> (json: Json)
    ensures
        json@ == integers(numbers@),
{
    let mut items: Vec<Json> = Vec::new();
    let mut i: usize = 0;
    while i < numbers.len()
        invariant
            i <= numbers@.len(),
            items@.len() == i,
            forall|j: int| 0 <= j < i ==> (#[trigger] items@[j])@ == integer(numbers@[j] as int),
        decreases numbers@.len() - i,
    {
        items.push(Json::unsigned(numbers[i] as u64));
        i = i + 1;
    }
    proof {
        lemma_items_view(items@);
        assert(items_view(items@) =~= numbers@.map_values(|n: u32| integer(n as int)));
    }
    Json::Array(items)
}

/// The fields with one text more, unless it is absent.
fn with_text(fields: Fields, key: &str, text: &Option<String>) -> (more: Fields)
    ensures
        more@ == with_optional(fields@, key@, kept_text(text.deep_view())),
{
    match text {
        Some(text) => fields.with(key, Json::text(text.as_str())),
        None => fields,
    }
}

/// A shard's counters as JSON.
fn write_latency(metrics: &ShardLatency) -> (json: Json)
    ensures
        json@ == latency_json(*metrics),
{
    Fields::new().with("append_rtt_ms_last", Json::optional_unsigned(metrics.append_rtt_ms_last)).with(
        "quorum_rtt_ms_last",
        Json::optional_unsigned(metrics.quorum_rtt_ms_last),
    ).with("follower_lag_max", Json::unsigned(metrics.follower_lag_max)).with(
        "leader_transfer_count",
        Json::unsigned(metrics.leader_transfer_count),
    ).done()
}

/// The followers' progress as JSON.
fn write_peers(peers: &[PeerReplication]) -> (json: Json)
    ensures
        json@ == JsonView::Array(
            peers@.map_values(|peer: PeerReplication| peer@).map_values(|peer: PeerInfo| peer_json(peer)),
        ),
{
    let mut items: Vec<Json> = Vec::new();
    let mut i: usize = 0;
    while i < peers.len()
        invariant
            i <= peers@.len(),
            items@.len() == i,
            forall|j: int| 0 <= j < i ==> (#[trigger] items@[j])@ == peer_json(peers@[j]@),
        decreases peers@.len() - i,
    {
        let peer = &peers[i];
        items.push(
            Fields::new().with("peer", Json::text(peer.peer.as_str())).with(
                "match_index",
                Json::unsigned(peer.match_index),
            ).with("lag", Json::unsigned(peer.lag)).with("in_flight", Json::Bool(peer.in_flight)).done(),
        );
        i = i + 1;
    }
    proof {
        lemma_items_view(items@);
        assert(items_view(items@) =~= peers@.map_values(|peer: PeerReplication| peer@).map_values(
            |peer: PeerInfo| peer_json(peer),
        ));
    }
    Json::Array(items)
}

/// The fields of a shard's status, added to `fields`.
fn write_shard(fields: Fields, shard: &ShardView) -> (more: Fields)
    ensures
        more@ == shard_fields(fields@, shard@),
{
    fields.with("shard_id", Json::unsigned(shard.shard_id as u64)).with("role", Json::text(shard.role.as_str())).with(
        "term",
        Json::unsigned(shard.term),
    ).with("leader_id", Json::optional_text(&shard.leader_id)).with(
        "commit_index",
        Json::unsigned(shard.commit_index),
    ).with("last_applied", Json::unsigned(shard.last_applied)).with(
        "last_log_index",
        Json::unsigned(shard.last_log_index),
    ).with("storage_healthy", Json::Bool(shard.storage_healthy)).with(
        "storage_error",
        Json::optional_text(&shard.storage_error),
    ).with("healthy_replicas", Json::unsigned(shard.healthy_replicas as u64)).with(
        "has_quorum",
        Json::Bool(shard.has_quorum),
    ).with("replication", write_peers(shard.replication.as_slice())).with("metrics", write_latency(&shard.metrics))
}

/// A node's rollup as JSON.
fn write_rollup(rollup: &QuorumRollup) -> (json: Json)
    ensures
        json@ == rollup_json(*rollup),
{
    Fields::new().with("leaderless_shards", write_integers(rollup.leaderless_shards.as_slice())).with(
        "at_risk_led_shards",
        write_integers(rollup.at_risk_led_shards.as_slice()),
    ).with("all_led_shards_have_quorum", Json::Bool(rollup.all_led_shards_have_quorum)).with(
        "storage_faulted_shards",
        write_integers(rollup.storage_faulted_shards.as_slice()),
    ).with("unresponsive_shards", write_integers(rollup.unresponsive_shards.as_slice())).with(
        "status_complete",
        Json::Bool(rollup.status_complete),
    ).done()
}

/// What a node reports as JSON.
fn write_node_shards(shards: &NodeShards) -> (json: Json)
    ensures
        json@ == node_shards_json(*shards),
{
    let mut items: Vec<Json> = Vec::new();
    let mut i: usize = 0;
    while i < shards.shards.len()
        invariant
            i <= shards.shards@.len(),
            items@.len() == i,
            forall|j: int|
                0 <= j < i ==> (#[trigger] items@[j])@ == JsonView::Object(
                    shard_fields(Map::empty(), shards.shards@[j]@),
                ),
        decreases shards.shards@.len() - i,
    {
        items.push(write_shard(Fields::new(), &shards.shards[i]).done());
        i = i + 1;
    }
    proof {
        lemma_items_view(items@);
        assert(items_view(items@) =~= shards.shards@.map_values(
            |shard: ShardView| JsonView::Object(shard_fields(Map::empty(), shard@)),
        ));
    }
    Fields::new().with("node_id", Json::text(shards.node_id.as_str())).with(
        "shard_count",
        Json::unsigned(shards.shard_count as u64),
    ).with("leader_count", Json::unsigned(shards.leader_count as u64)).with(
        "follower_count",
        Json::unsigned(shards.follower_count as u64),
    ).with("quorum", write_rollup(&shards.quorum)).with("shards", Json::Array(items)).done()
}

/// A node's outcome as JSON.
fn write_observation(observation: &NodeObservation) -> (json: Json)
    ensures
        json@ == observation_json(*observation),
{
    let fields = Fields::new().with("node_id", Json::text(observation.node_id.as_str())).with(
        "base_url",
        Json::text(observation.base_url.as_str()),
    );
    let fields = match &observation.shards {
        Some(shards) => fields.with("shards", write_node_shards(shards)),
        None => fields,
    };
    with_text(fields, "error", &observation.error).with("untrusted", Json::Bool(observation.untrusted)).done()
}

/// The nodes' outcomes as JSON, in order.
pub fn observations_to_json(observations: &[NodeObservation]) -> (json: Json)
    ensures
        json@ == JsonView::Array(
            observations@.map_values(|observation: NodeObservation| observation_json(observation)),
        ),
{
    let mut items: Vec<Json> = Vec::new();
    let mut i: usize = 0;
    while i < observations.len()
        invariant
            i <= observations@.len(),
            items@.len() == i,
            forall|j: int| 0 <= j < i ==> (#[trigger] items@[j])@ == observation_json(observations@[j]),
        decreases observations@.len() - i,
    {
        items.push(write_observation(&observations[i]));
        i = i + 1;
    }
    proof {
        lemma_items_view(items@);
        assert(items_view(items@) =~= observations@.map_values(
            |observation: NodeObservation| observation_json(observation),
        ));
    }
    Json::Array(items)
}

/// The shards' rows as JSON, in order.
pub fn shards_to_json(rows: &[MergedShard]) -> (json: Json)
    ensures
        json@ == JsonView::Array(rows@.map_values(|row: MergedShard| merged_json(row))),
{
    let mut items: Vec<Json> = Vec::new();
    let mut i: usize = 0;
    while i < rows.len()
        invariant
            i <= rows@.len(),
            items@.len() == i,
            forall|j: int| 0 <= j < i ==> (#[trigger] items@[j])@ == merged_json(rows@[j]),
        decreases rows@.len() - i,
    {
        let row = &rows[i];
        let fields = Fields::new().with("shard_id", Json::unsigned(row.shard_id as u64)).with(
            "reported_by",
            Json::text(row.reported_by.as_str()),
        ).with("leader_view", Json::Bool(row.leader_view)).with("dual_leader", Json::Bool(row.dual_leader));
        items.push(write_shard(fields, &row.view).done());
        i = i + 1;
    }
    proof {
        lemma_items_view(items@);
        assert(items_view(items@) =~= rows@.map_values(|row: MergedShard| merged_json(row)));
    }
    Json::Array(items)
}

/// The cluster's rollup as JSON.
pub fn quorum_to_json(quorum: &ClusterQuorum) -> (json: Json)
    ensures
        json@ == quorum_json(*quorum),
{
    Fields::new().with("leaderless", write_integers(quorum.leaderless.as_slice())).with(
        "leader_unreached",
        write_integers(quorum.leader_unreached.as_slice()),
    ).with("dual_leader", write_integers(quorum.dual_leader.as_slice())).with(
        "at_risk",
        write_integers(quorum.at_risk.as_slice()),
    ).with("storage_faulted", write_integers(quorum.storage_faulted.as_slice())).with(
        "unresponsive",
        write_integers(quorum.unresponsive.as_slice()),
    ).with("nodes_reporting", Json::unsigned(quorum.nodes_reporting as u64)).with(
        "nodes_failed",
        Json::unsigned(quorum.nodes_failed as u64),
    ).with("targets_truncated_from", count_json(quorum.targets_truncated_from)).done()
}

/// The Prometheus probe as JSON.
pub fn prometheus_to_json(prometheus: &PromScrape) -> (json: Json)
    ensures
        json@ == prometheus_json(*prometheus),
{
    match prometheus {
        PromScrape::NotConfigured => Fields::new().with("state", Json::text("not_configured")).done(),
        PromScrape::Error { error } => Fields::new().with("state", Json::text("error")).with(
            "error",
            Json::text(error.as_str()),
        ).done(),
        PromScrape::Up { targets } => Fields::new().with("state", Json::text("up")).with(
            "targets",
            Json::unsigned(*targets as u64),
        ).done(),
    }
}

/// A cluster event as JSON.
fn write_event(event: &ClusterEvent) -> (json: Json)
    ensures
        json@ == cluster_event_json(event@),
{
    let fields = Fields::new().with("at_ms", Json::signed(event.at_ms)).with("kind", Json::text(event.kind));
    let fields = match event.shard {
        Some(shard) => fields.with("shard", Json::unsigned(shard)),
        None => fields,
    };
    let fields = with_text(with_text(with_text(fields, "node", &event.node), "from", &event.from), "to", &event.to);
    with_text(fields, "reason", &event.reason).with("message", Json::text(event.message.as_str())).done()
}

/// Cluster events as JSON, in order.
pub fn events_to_json(events: &[ClusterEvent]) -> (json: Json)
    ensures
        json@ == JsonView::Array(event_views(events@).map_values(|event: EventView| cluster_event_json(event))),
{
    let mut items: Vec<Json> = Vec::new();
    let mut i: usize = 0;
    while i < events.len()
        invariant
            i <= events@.len(),
            items@.len() == i,
            forall|j: int| 0 <= j < i ==> (#[trigger] items@[j])@ == cluster_event_json(events@[j]@),
        decreases events@.len() - i,
    {
        items.push(write_event(&events[i]));
        i = i + 1;
    }
    proof {
        lemma_items_view(items@);
        assert(items_view(items@) =~= event_views(events@).map_values(|event: EventView| cluster_event_json(event)));
    }
    Json::Array(items)
}

} // verus!
