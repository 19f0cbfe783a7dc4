//! The cluster insight behind the cluster pages and API.
//!
//! The brain's status and membership are required: without them there is nothing
//! to show. A node that cannot be observed, or an observability service that does
//! not answer, is shown as such and takes nothing else down. This module decides
//! each step; the caller fetches and hands back what came of it.

use vstd::prelude::*;

use crate::cluster_insight::{
    brain_targets, collect_observations, explicit_node_targets, explicit_target, in_cluster_url,
    lemma_reported_targets_are_inside, observed_at, observes, target_views, targets_from_brain_nodes,
    truncate_targets, NodeObservation, NodeShards, NodeTarget, TargetView, MAX_NODES,
};
use crate::insight_json::{
    cluster_event_json, count_json, counted, events_to_json, integer, kept_text, merged_json, observation_json,
    observations_to_json, prometheus_json, prometheus_to_json, quorum_json, quorum_to_json, shards_to_json,
    with_optional,
};
use crate::json::{items_view, lemma_items_view, optional_integer_view, Fields, Json, JsonView};
use crate::observability::{
    count_up_targets, event_views, prom_fiducia_up_query, prom_range_query_url, range_query_url, up_count, up_query,
    ClusterEvent, EventView, PromScrape,
};
use crate::reply::{upstream_error, upstream_view, Reply, ReplyView};
use crate::request_security::url_parts;
use crate::shard_merge::{
    cluster_quorum, is_merge, is_rollup, merge_shards, reports_of, ClusterQuorum, MergedShard,
};

verus! {

/// What one node's fetch came to; nothing where the fetch itself was lost.
pub type ShardsOutcome = Option<Result<NodeShards, String>>;

/// Everything that one rendering of the cluster needs of the brain and the
/// nodes.
pub struct ClusterData {
    pub status: Json,
    pub nodes: Vec<Json>,
    pub observations: Vec<NodeObservation>,
    pub merged: Vec<MergedShard>,
    pub quorum: ClusterQuorum,
}

/// The nodes to observe: those configured, else those the brain knows.
pub open spec fn all_targets(node_urls: Seq<String>, nodes: Seq<JsonView>) -> Seq<TargetView> {
    if node_urls.len() > 0 {
        node_urls.map_values(|url: String| explicit_target(url@))
    } else {
        brain_targets(nodes)
    }
}

/// The nodes that one fan-out observes of `all`.
pub open spec fn observed_targets(all: Seq<TargetView>) -> Seq<TargetView> {
    if all.len() > MAX_NODES {
        all.take(MAX_NODES as int)
    } else {
        all
    }
}

/// How many nodes there were, when some are not observed.
pub open spec fn dropped_from(all: Seq<TargetView>) -> Option<int> {
    if all.len() > MAX_NODES {
        Some(all.len() as int)
    } else {
        None
    }
}

/// The nodes that one fan-out observes, and how many there were when some are
/// not.
pub fn cluster_targets(node_urls: &[String], nodes: &[Json]) -> (targets: (Vec<NodeTarget>, Option<usize>))
    ensures
        target_views(targets.0@) == observed_targets(all_targets(node_urls@, items_view(nodes@))),
        counted(targets.1) == dropped_from(all_targets(node_urls@, items_view(nodes@))),
{
    let mut targets = if node_urls.len() > 0 {
        explicit_node_targets(node_urls)
    } else {
        targets_from_brain_nodes(nodes)
    };
    let ghost all = targets@;
    let truncated_from = truncate_targets(&mut targets);
    proof {
        assert(target_views(all).len() == all.len());
        if all.len() > MAX_NODES {
            assert(target_views(targets@) =~= target_views(all).take(MAX_NODES as int));
        }
    }
    (targets, truncated_from)
}

/// What the cluster view is made of, in the order it is read.
pub enum ClusterReading {
    Status,
    Nodes { status: Json },
    /// The fan-out to the nodes.
    Observing { status: Json, nodes: Vec<Json>, targets: Vec<NodeTarget>, truncated_from: Option<usize> },
    Ready(ClusterData),
    Failed(Reply),
}

/// What came of reading one part; nothing where it could not be read.
pub enum ClusterPart {
    Status(Option<Json>),
    Nodes(Option<Vec<Json>>),
    Observed(Vec<ShardsOutcome>),
}

/// What a target's fetch came to: a fetch that is missing was lost.
pub open spec fn outcome_at(outcomes: Seq<ShardsOutcome>, i: int) -> ShardsOutcome {
    if 0 <= i < outcomes.len() {
        outcomes[i]
    } else {
        None
    }
}

/// Whether `data` is made of what was read.
pub open spec fn makes(
    status: Json,
    nodes: Vec<Json>,
    targets: Seq<NodeTarget>,
    truncated_from: Option<usize>,
    outcomes: Seq<ShardsOutcome>,
    data: ClusterData,
) -> bool {
    &&& data.status == status
    &&& data.nodes == nodes
    &&& data.observations@.len() == targets.len()
    &&& forall|i: int|
        0 <= i < targets.len() ==> observes(targets[i], outcome_at(outcomes, i), #[trigger] data.observations@[i])
    &&& is_merge(data.merged@, reports_of(data.observations@))
    &&& is_rollup(data.quorum, data.observations@, data.merged@)
    &&& data.quorum.targets_truncated_from == truncated_from
}

/// Whether a reading failed with `reply`.
pub open spec fn cluster_fails(reading: ClusterReading, reply: ReplyView) -> bool {
    reading matches ClusterReading::Failed(found) && found@ == reply
}

/// Whether `next` follows `reading` once `part` came in. A part that was not
/// asked for counts as one that could not be read.
pub open spec fn cluster_follows(
    node_urls: Seq<String>,
    reading: ClusterReading,
    part: ClusterPart,
    next: ClusterReading,
) -> bool {
    match reading {
        ClusterReading::Status => match part {
            ClusterPart::Status(Some(status)) => next == (ClusterReading::Nodes { status }),
            _ => cluster_fails(next, upstream_view("brain_status_failed"@, "fiducia-brain"@)),
        },
        ClusterReading::Nodes { status } => match part {
            ClusterPart::Nodes(Some(nodes)) => {
                let all = all_targets(node_urls, items_view(nodes@));
                next matches ClusterReading::Observing { status: kept, nodes: found, targets, truncated_from } && kept
                    == status && found == nodes && target_views(targets@) == observed_targets(all) && counted(
                    truncated_from,
                ) == dropped_from(all)
            },
            _ => cluster_fails(next, upstream_view("brain_nodes_failed"@, "fiducia-brain"@)),
        },
        ClusterReading::Observing { status, nodes, targets, truncated_from } => {
            let outcomes = match part {
                ClusterPart::Observed(outcomes) => outcomes@,
                _ => Seq::empty(),
            };
            next matches ClusterReading::Ready(data) && makes(status, nodes, targets@, truncated_from, outcomes, data)
        },
        _ => next == reading,
    }
}

/// One outcome per target: those that are missing were lost.
fn aligned(outcomes: Vec<ShardsOutcome>, count: usize) -> (all: Vec<ShardsOutcome>)
    ensures
        all@.len() == count,
        forall|i: int| 0 <= i < count ==> #[trigger] all@[i] == outcome_at(outcomes@, i),
{
    let ghost given = outcomes@;
    let mut all = outcomes;
    if all.len() > count {
        all.truncate(count);
    }
    while all.len() < count
        invariant
            all@.len() <= count,
            forall|i: int| 0 <= i < all@.len() ==> #[trigger] all@[i] == outcome_at(given, i),
            all@.len() >= given.len() || all@.len() == count,
        decreases count - all@.len(),
    {
        all.push(None);
    }
    all
}

/// The reading once one more part came in.
pub fn cluster_data(node_urls: &[String], reading: ClusterReading, part: ClusterPart) -> (next: ClusterReading)
    ensures
        cluster_follows(node_urls@, reading, part, next),
{
    match reading {
        ClusterReading::Status => match part {
            ClusterPart::Status(Some(status)) => ClusterReading::Nodes { status },
            _ => ClusterReading::Failed(upstream_error("brain_status_failed", "fiducia-brain")),
        },
        ClusterReading::Nodes { status } => match part {
            ClusterPart::Nodes(Some(nodes)) => {
                let (targets, truncated_from) = cluster_targets(node_urls, nodes.as_slice());
                ClusterReading::Observing { status, nodes, targets, truncated_from }
            },
            _ => ClusterReading::Failed(upstream_error("brain_nodes_failed", "fiducia-brain")),
        },
        ClusterReading::Observing { status, nodes, targets, truncated_from } => {
            let outcomes = match part {
                ClusterPart::Observed(outcomes) => outcomes,
                _ => Vec::new(),
            };
            let outcomes = aligned(outcomes, targets.len());
            let observations = collect_observations(targets.as_slice(), outcomes);
            let merged = merge_shards(observations.as_slice());
            let mut quorum = cluster_quorum(observations.as_slice(), merged.as_slice());
            quorum.targets_truncated_from = truncated_from;
            ClusterReading::Ready(ClusterData { status, nodes, observations, merged, quorum })
        },
        reading => reading,
    }
}

/// The summary card's view of Prometheus, whose samples are `outcome`, or
/// nothing where it is not configured.
pub fn prom_scrape(outcome: Option<Result<Vec<Json>, String>>) -> (prometheus: PromScrape)
    ensures
        match outcome {
            None => prometheus is NotConfigured,
            Some(Ok(samples)) => prometheus matches PromScrape::Up { targets } && targets == up_count(
                items_view(samples@),
            ),
            Some(Err(error)) => prometheus == (PromScrape::Error { error }),
        },
{
    match outcome {
        None => PromScrape::NotConfigured,
        Some(Ok(samples)) => PromScrape::Up { targets: count_up_targets(samples.as_slice()) },
        Some(Err(error)) => PromScrape::Error { error },
    }
}

/// Items as a JSON array.
pub open spec fn array(items: Seq<Json>) -> JsonView {
    JsonView::Array(items_view(items))
}

/// A copy of JSON items, as an array.
fn copied_array(items: &[Json]) -> (json: Json)
    ensures
        json@ == array(items@),
{
    let mut copies: Vec<Json> = Vec::new();
    let mut i: usize = 0;
    while i < items.len()
        invariant
            i <= items@.len(),
            copies@.len() == i,
            forall|j: int| 0 <= j < i ==> (#[trigger] copies@[j])@ == items@[j]@,
        decreases items@.len() - i,
    {
        copies.push(items[i].duplicate());
        i = i + 1;
    }
    proof {
        lemma_items_view(copies@);
        lemma_items_view(items@);
        assert(items_view(copies@) =~= items_view(items@));
    }
    Json::Array(copies)
}

/// The rows of the shards as JSON.
pub open spec fn rows_json(rows: Seq<MergedShard>) -> JsonView {
    JsonView::Array(rows.map_values(|row: MergedShard| merged_json(row)))
}

/// The outcomes of the nodes as JSON.
pub open spec fn outcomes_json(observations: Seq<NodeObservation>) -> JsonView {
    JsonView::Array(observations.map_values(|observation: NodeObservation| observation_json(observation)))
}

/// What the overview is made of, in the order it is read.
pub enum Overview {
    Cluster(ClusterReading),
    Config(ClusterData),
    Policies { data: ClusterData, config: Json },
    Prometheus { data: ClusterData, config: Json, policies: Json },
    Answered(Reply),
}

/// What came of reading one part of the overview.
pub enum OverviewPart {
    Cluster(ClusterPart),
    Config(Option<Json>),
    Policies(Option<Json>),
    /// The Prometheus probe, and the time now.
    Prometheus(PromScrape, i64),
}

/// The stage of an overview whose cluster reading has come to `reading`.
pub open spec fn overview_stage(reading: ClusterReading, next: Overview) -> bool {
    match reading {
        ClusterReading::Ready(data) => next == Overview::Config(data),
        ClusterReading::Failed(reply) => next == Overview::Answered(reply),
        _ => next == Overview::Cluster(reading),
    }
}

/// The policies of the brain's answer; null when it has none.
pub open spec fn policies_of(answer: JsonView) -> JsonView {
    match answer.field("policies"@) {
        Some(policies) => policies,
        None => JsonView::Null,
    }
}

/// The whole insight as JSON.
pub open spec fn overview_json(
    data: ClusterData,
    config: JsonView,
    policies: JsonView,
    prometheus: PromScrape,
    now_ms: int,
) -> JsonView {
    JsonView::Object(
        Map::empty().insert("cluster"@, data.status@).insert("config"@, config).insert("policies"@, policies).insert(
            "nodes"@,
            array(data.nodes@),
        ).insert("node_observations"@, outcomes_json(data.observations@)).insert(
            "shards"@,
            rows_json(data.merged@),
        ).insert("quorum"@, quorum_json(data.quorum)).insert("prometheus"@, prometheus_json(prometheus)).insert(
            "generated_at_ms"@,
            integer(now_ms),
        ),
    )
}

/// Whether an overview is answered with `reply`.
pub open spec fn overview_answers(overview: Overview, reply: ReplyView) -> bool {
    overview matches Overview::Answered(found) && found@ == reply
}

/// Whether `next` follows `overview` once `part` came in. A part that was not
/// asked for counts as one that could not be read.
pub open spec fn overview_follows(
    node_urls: Seq<String>,
    overview: Overview,
    part: OverviewPart,
    next: Overview,
) -> bool {
    match overview {
        Overview::Cluster(reading) => match part {
            OverviewPart::Cluster(part) => exists|further: ClusterReading|
                #[trigger] cluster_follows(node_urls, reading, part, further) && overview_stage(further, next),
            _ => next == overview,
        },
        Overview::Config(data) => match part {
            OverviewPart::Config(Some(config)) => next == (Overview::Policies { data, config }),
            _ => overview_answers(next, upstream_view("brain_config_failed"@, "fiducia-brain"@)),
        },
        Overview::Policies { data, config } => match part {
            OverviewPart::Policies(Some(answer)) => next matches Overview::Prometheus {
                data: kept,
                config: known,
                policies,
            } && kept == data && known == config && policies@ == policies_of(answer@),
            _ => overview_answers(next, upstream_view("brain_policies_failed"@, "fiducia-brain"@)),
        },
        Overview::Prometheus { data, config, policies } => match part {
            OverviewPart::Prometheus(prometheus, now_ms) => overview_answers(
                next,
                ReplyView {
                    status: 200,
                    body: overview_json(data, config@, policies@, prometheus, now_ms as int),
                },
            ),
            _ => next == overview,
        },
        Overview::Answered(_) => next == overview,
    }
}

/// The overview once one more part came in.
pub fn cluster_overview(node_urls: &[String], overview: Overview, part: OverviewPart) -> (next: Overview)
    ensures
        overview_follows(node_urls@, overview, part, next),
{
    match (overview, part) {
        (Overview::Cluster(reading), OverviewPart::Cluster(part)) => {
            let ghost before = reading;
            let ghost given = part;
            let further = cluster_data(node_urls, reading, part);
            assert(cluster_follows(node_urls@, before, given, further));
            match further {
                ClusterReading::Ready(data) => Overview::Config(data),
                ClusterReading::Failed(reply) => Overview::Answered(reply),
                reading => Overview::Cluster(reading),
            }
        },
        (Overview::Config(data), OverviewPart::Config(Some(config))) => Overview::Policies { data, config },
        (Overview::Config(_), _) => Overview::Answered(upstream_error("brain_config_failed", "fiducia-brain")),
        (Overview::Policies { data, config }, OverviewPart::Policies(Some(answer))) => {
            let policies = match answer.get("policies") {
                Some(policies) => policies.duplicate(),
                None => Json::Null,
            };
            Overview::Prometheus { data, config, policies }
        },
        (Overview::Policies { data: _, config: _ }, _) => Overview::Answered(
            upstream_error("brain_policies_failed", "fiducia-brain"),
        ),
        (
            Overview::Prometheus { data, config, policies },
            OverviewPart::Prometheus(prometheus, now_ms),
        ) => Overview::Answered(
            Reply {
                status: 200,
                body: Fields::new().with("cluster", data.status.duplicate()).with("config", config).with(
                    "policies",
                    policies,
                ).with("nodes", copied_array(data.nodes.as_slice())).with(
                    "node_observations",
                    observations_to_json(data.observations.as_slice()),
                ).with("shards", shards_to_json(data.merged.as_slice())).with("quorum", quorum_to_json(&data.quorum)).with(
                    "prometheus",
                    prometheus_to_json(&prometheus),
                ).with("generated_at_ms", Json::signed(now_ms)).done(),
            },
        ),
        (overview, _) => overview,
    }
}

/// The merged shards and the nodes' outcomes as JSON.
pub open spec fn shards_reply_view(data: ClusterData, now_ms: int) -> ReplyView {
    ReplyView {
        status: 200,
        body: JsonView::Object(
            Map::empty().insert("shards"@, rows_json(data.merged@)).insert("quorum"@, quorum_json(data.quorum)).insert(
                "node_observations"@,
                outcomes_json(data.observations@),
            ).insert("generated_at_ms"@, integer(now_ms)),
        ),
    }
}

/// The reply with the merged shards and the nodes' outcomes.
pub fn cluster_shards_reply(data: &ClusterData, now_ms: i64) -> (reply: Reply)
    ensures
        reply@ == shards_reply_view(*data, now_ms as int),
{
    Reply {
        status: 200,
        body: Fields::new().with("shards", shards_to_json(data.merged.as_slice())).with(
            "quorum",
            quorum_to_json(&data.quorum),
        ).with("node_observations", observations_to_json(data.observations.as_slice())).with(
            "generated_at_ms",
            Json::signed(now_ms),
        ).done(),
    }
}

/// The reply with cluster events, or with the word that there is no source of
/// them.
pub open spec fn events_reply_view(configured: bool, since_minutes: int, events: Seq<EventView>) -> ReplyView {
    ReplyView {
        status: 200,
        body: JsonView::Object(
            Map::empty().insert("configured"@, JsonView::Bool(configured)).insert(
                "since_minutes"@,
                integer(since_minutes),
            ).insert(
                "events"@,
                JsonView::Array(events.map_values(|event: EventView| cluster_event_json(event))),
            ),
        ),
    }
}

/// The reply with cluster events. `outcome` is absent where Loki is not
/// configured, and holds no events where it could not be asked.
pub fn cluster_events_reply(since_minutes: i64, outcome: &Option<Option<Vec<ClusterEvent>>>) -> (reply: Reply)
    ensures
        reply@ == (match *outcome {
            None => events_reply_view(false, since_minutes as int, Seq::empty()),
            Some(Some(events)) => events_reply_view(true, since_minutes as int, event_views(events@)),
            Some(None) => upstream_view("loki_query_failed"@, "loki"@),
        }),
{
    match outcome {
        None => {
            let none: Vec<ClusterEvent> = Vec::new();
            assert(event_views(none@) =~= Seq::<EventView>::empty());
            events_reply(false, since_minutes, none.as_slice())
        },
        Some(Some(events)) => events_reply(true, since_minutes, events.as_slice()),
        Some(None) => upstream_error("loki_query_failed", "loki"),
    }
}

/// The reply with cluster events.
fn events_reply(configured: bool, since_minutes: i64, events: &[ClusterEvent]) -> (reply: Reply)
    ensures
        reply@ == events_reply_view(configured, since_minutes as int, event_views(events@)),
{
    Reply {
        status: 200,
        body: Fields::new().with("configured", Json::Bool(configured)).with(
            "since_minutes",
            Json::signed(since_minutes),
        ).with("events", events_to_json(events)).done(),
    }
}

/// One node's operation counters, or why there are none.
pub struct NodeMetrics {
    pub node_id: String,
    pub base_url: String,
    pub operations: Option<Json>,
    pub error: Option<String>,
}

/// The operation counters of a node's answer; null when it has none.
pub open spec fn operations_of(answer: JsonView) -> JsonView {
    match answer.field("operations"@) {
        Some(operations) => operations,
        None => JsonView::Null,
    }
}

/// What an optional value holds.
pub open spec fn optional_json(json: Option<Json>) -> Option<JsonView> {
    match json {
        Some(json) => Some(json@),
        None => None,
    }
}

/// Whether `metrics` is what a target's fetch came to. A target that is not
/// trusted is never asked; one whose fetch is missing failed.
pub open spec fn measures(target: NodeTarget, outcome: Option<Result<Json, String>>, metrics: NodeMetrics) -> bool {
    &&& metrics.node_id@ == target.node_id@
    &&& metrics.base_url@ == target.base_url@
    &&& if !target.trusted {
        metrics.operations is None && metrics.error.deep_view() == Some("untrusted address"@)
    } else {
        match outcome {
            Some(Ok(answer)) => optional_json(metrics.operations) == Some(operations_of(answer@)) && metrics.error
                is None,
            Some(Err(error)) => metrics.operations is None && metrics.error == Some(error),
            None => metrics.operations is None && metrics.error.deep_view() == Some("fetch task failed"@),
        }
    }
}

/// What a target's fetch came to.
pub fn metrics_observation(target: &NodeTarget, outcome: &Option<Result<Json, String>>) -> (metrics: NodeMetrics)
    ensures
        measures(*target, *outcome, metrics),
{
    let node_id = target.node_id.clone();
    let base_url = target.base_url.clone();
    if !target.trusted {
        return NodeMetrics { node_id, base_url, operations: None, error: Some("untrusted address".to_owned()) };
    }
    match outcome {
        Some(Ok(answer)) => {
            let operations = match answer.get("operations") {
                Some(operations) => operations.duplicate(),
                None => Json::Null,
            };
            NodeMetrics { node_id, base_url, operations: Some(operations), error: None }
        },
        Some(Err(error)) => NodeMetrics { node_id, base_url, operations: None, error: Some(error.clone()) },
        None => NodeMetrics { node_id, base_url, operations: None, error: Some("fetch task failed".to_owned()) },
    }
}

/// The outcomes of a fan-out for operation counters, one per target and in the
/// targets' order. Where an outcome is missing, the fetch failed.
pub fn collect_metrics(targets: &[NodeTarget], outcomes: &[Option<Result<Json, String>>]) -> (metrics: Vec<NodeMetrics>)
    ensures
        metrics@.len() == targets@.len(),
        forall|i: int|
            0 <= i < targets@.len() ==> measures(
                targets@[i],
                if i < outcomes@.len() {
                    outcomes@[i]
                } else {
                    None
                },
                #[trigger] metrics@[i],
            ),
{
    let mut metrics: Vec<NodeMetrics> = Vec::new();
    let mut i: usize = 0;
    while i < targets.len()
        invariant
            i <= targets@.len(),
            metrics@.len() == i,
            forall|j: int|
                0 <= j < i ==> measures(
                    targets@[j],
                    if j < outcomes@.len() {
                        outcomes@[j]
                    } else {
                        None
                    },
                    #[trigger] metrics@[j],
                ),
        decreases targets@.len() - i,
    {
        let lost = None;
        let outcome = if i < outcomes.len() {
            &outcomes[i]
        } else {
            &lost
        };
        metrics.push(metrics_observation(&targets[i], outcome));
        i = i + 1;
    }
    metrics
}

/// A node's counters as JSON: what it does not have is left out.
pub open spec fn metrics_json(metrics: NodeMetrics) -> JsonView {
    JsonView::Object(
        with_optional(
            with_optional(
                Map::empty().insert("node_id"@, JsonView::Text(metrics.node_id@)).insert(
                    "base_url"@,
                    JsonView::Text(metrics.base_url@),
                ),
                "operations"@,
                optional_json(metrics.operations),
            ),
            "error"@,
            kept_text(metrics.error.deep_view()),
        ),
    )
}

/// A node's counters as JSON.
fn write_metrics(metrics: &NodeMetrics) -> (json: Json)
    ensures
        json@ == metrics_json(*metrics),
{
    let fields = Fields::new().with("node_id", Json::text(metrics.node_id.as_str())).with(
        "base_url",
        Json::text(metrics.base_url.as_str()),
    );
    let fields = match &metrics.operations {
        Some(operations) => fields.with("operations", operations.duplicate()),
        None => fields,
    };
    match &metrics.error {
        Some(error) => fields.with("error", Json::text(error.as_str())).done(),
        None => fields.done(),
    }
}

/// The whole seconds in a number of milliseconds, towards zero.
pub open spec fn whole_seconds(ms: int) -> int {
    if ms >= 0 {
        ms / 1000
    } else {
        -((-ms) / 1000)
    }
}

/// The range query for the scrape targets that were up in the last quarter of
/// an hour, a sample a minute.
pub open spec fn up_range_text(prometheus_url: Seq<char>, now_ms: int) -> Seq<char> {
    range_query_url(prometheus_url, up_query(), whole_seconds(now_ms) - 900, whole_seconds(now_ms), 60)
}

/// The range query for the scrape targets that were up in the last quarter of
/// an hour.
pub fn up_range_url(prometheus_url: &str, now_ms: i64) -> (url: String)
    ensures
        url@ == up_range_text(prometheus_url@, now_ms as int),
{
    let end: i64 = if now_ms >= 0 {
        now_ms / 1000
    } else {
        -((-(now_ms as i128)) / 1000) as i64
    };
    prom_range_query_url(prometheus_url, prom_fiducia_up_query(), end - 900, end, 60)
}

/// The up range as JSON: null where Prometheus is not configured, and an error
/// in its place where it could not be asked.
pub open spec fn up_range_json(outcome: Option<Result<Vec<Json>, String>>) -> JsonView {
    match outcome {
        None => JsonView::Null,
        Some(Ok(series)) => array(series@),
        Some(Err(error)) => JsonView::Object(Map::empty().insert("error"@, JsonView::Text(error@))),
    }
}

/// The reply with the nodes' operation counters.
pub open spec fn metrics_reply_view(
    nodes: Seq<NodeMetrics>,
    up_range: Option<Result<Vec<Json>, String>>,
    truncated_from: Option<usize>,
    now_ms: int,
) -> ReplyView {
    ReplyView {
        status: 200,
        body: JsonView::Object(
            Map::empty().insert(
                "nodes"@,
                JsonView::Array(nodes.map_values(|metrics: NodeMetrics| metrics_json(metrics))),
            ).insert("prometheus_up_range"@, up_range_json(up_range)).insert(
                "targets_truncated_from"@,
                optional_integer_view(counted(truncated_from)),
            ).insert("generated_at_ms"@, integer(now_ms)),
        ),
    }
}

/// The reply with the nodes' operation counters.
pub fn cluster_metrics_reply(
    nodes: &[NodeMetrics],
    up_range: &Option<Result<Vec<Json>, String>>,
    truncated_from: Option<usize>,
    now_ms: i64,
) -> (reply: Reply)
    ensures
        reply@ == metrics_reply_view(nodes@, *up_range, truncated_from, now_ms as int),
{
    let mut items: Vec<Json> = Vec::new();
    let mut i: usize = 0;
    while i < nodes.len()
        invariant
            i <= nodes@.len(),
            items@.len() == i,
            forall|j: int| 0 <= j < i ==> (#[trigger] items@[j])@ == metrics_json(nodes@[j]),
        decreases nodes@.len() - i,
    {
        items.push(write_metrics(&nodes[i]));
        i = i + 1;
    }
    proof {
        lemma_items_view(items@);
        assert(items_view(items@) =~= nodes@.map_values(|metrics: NodeMetrics| metrics_json(metrics)));
    }
    let range = match up_range {
        None => Json::Null,
        Some(Ok(series)) => copied_array(series.as_slice()),
        Some(Err(error)) => Fields::new().with("error", Json::text(error.as_str())).done(),
    };
    Reply {
        status: 200,
        body: Fields::new().with("nodes", Json::Array(items)).with("prometheus_up_range", range).with(
            "targets_truncated_from",
            count_json(truncated_from),
        ).with("generated_at_ms", Json::signed(now_ms)).done(),
    }
}

/// Whether the brain's membership is needed to find the counters' nodes: only
/// where none are configured.
pub fn membership_needed(node_urls: &[String]) -> (needed: bool)
    ensures
        needed == (node_urls@.len() == 0),
{
    node_urls.len() == 0
}

/// How the counters' nodes are found: where none are configured, the brain's
/// membership must be read, and without it there is nothing to ask.
pub fn metrics_targets(node_urls: &[String], nodes: Option<&Vec<Json>>) -> (targets: Result<
    (Vec<NodeTarget>, Option<usize>),
    Reply,
>)
    ensures
        match targets {
            Ok(targets) => {
                let known = match nodes {
                    Some(nodes) => items_view(nodes@),
                    None => Seq::empty(),
                };
                &&& node_urls@.len() > 0 || nodes is Some
                &&& target_views(targets.0@) == observed_targets(all_targets(node_urls@, known))
                &&& counted(targets.1) == dropped_from(all_targets(node_urls@, known))
            },
            Err(reply) => node_urls@.len() == 0 && nodes is None && reply@ == upstream_view(
                "brain_nodes_failed"@,
                "fiducia-brain"@,
            ),
        },
{
    match nodes {
        Some(nodes) => Ok(cluster_targets(node_urls, nodes.as_slice())),
        None => if node_urls.len() > 0 {
            let none: Vec<Json> = Vec::new();
            Ok(cluster_targets(node_urls, none.as_slice()))
        } else {
            Err(upstream_error("brain_nodes_failed", "fiducia-brain"))
        },
    }
}

/// No fan-out asks more nodes than it may, and what was dropped is said.
pub proof fn law_fan_outs_are_bounded(all: Seq<TargetView>)
    ensures
        observed_targets(all).len() <= MAX_NODES,
        observed_targets(all).is_prefix_of(all),
        dropped_from(all) is None <==> observed_targets(all) == all,
        dropped_from(all) matches Some(total) ==> total == all.len(),
{
    if all.len() > MAX_NODES {
        assert(observed_targets(all) =~= all.subrange(0, MAX_NODES as int));
    } else {
        assert(observed_targets(all) =~= all.subrange(0, all.len() as int));
    }
}

/// A target that is not trusted is never reported as asked: its shards and its
/// counters are absent, whatever its fetch is said to have come to.
pub proof fn law_untrusted_targets_report_nothing(
    target: NodeTarget,
    outcome: ShardsOutcome,
    observation: NodeObservation,
    counted_as: Option<Result<Json, String>>,
    metrics: NodeMetrics,
)
    requires
        !target.trusted,
        observes(target, outcome, observation),
        measures(target, counted_as, metrics),
    ensures
        observation.shards is None && observation.untrusted,
        metrics.operations is None,
{
}

/// A fan-out dials a node exactly where an operator configured it, or where the
/// brain reports it under a host inside the cluster: no other address is ever
/// sent the cluster secret.
pub proof fn law_only_vouched_targets_are_dialed(
    node_urls: Seq<String>,
    nodes: Seq<JsonView>,
    i: int,
    path: Seq<char>,
)
    requires
        0 <= i < observed_targets(all_targets(node_urls, nodes)).len(),
    ensures
        ({
            let target = observed_targets(all_targets(node_urls, nodes))[i];
            observed_at(target, path) is Some <==> node_urls.len() > 0 || in_cluster_url(
                url_parts(target.base_url),
            )
        }),
{
    if node_urls.len() == 0 {
        lemma_reported_targets_are_inside(nodes, i);
    }
}

} // verus!
