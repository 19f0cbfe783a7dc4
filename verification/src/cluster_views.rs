//! What the cluster panels show.

use vstd::prelude::*;

use crate::calendar::{age_text, is_timestamp, relative_age, utc_timestamp};
use crate::cluster_insight::{NodeObservation, MAX_NODES};
use crate::fingerprint::{lemma_sorted_keys, member_order, ordered_keys, sorted_keys};
use crate::json::{entries_view, items_field, signed_field, text_field, Json, JsonView};
use crate::observability::{
    events_logql, explore_panes, explore_url, grafana_explore_loki_url, grafana_explore_prom_url, loki_events_logql,
    minutes_ago, prom_fiducia_up_query, up_query, ClusterEvent, EventView, PromScrape,
};
use crate::shard_merge::{ClusterQuorum, MergedShard};
use crate::text::{decimal, decimal_text, same_text, signed_decimal, signed_decimal_text};
use crate::views::{
    badge, badge_titled, badge_views, copy_or_dash, dash, or_dash, plain_badge, text_or_dash, titled_badge, Badge,
    BadgeView,
};

verus! {

/// What stands under a path of fields.
pub open spec fn at_path(json: JsonView, path: Seq<Seq<char>>) -> Option<JsonView>
    decreases path.len(),
{
    if path.len() == 0 {
        Some(json)
    } else {
        match json.field(path[0]) {
            Some(inner) => at_path(inner, path.skip(1)),
            None => None,
        }
    }
}

/// The texts of a path.
pub open spec fn path_views(path: Seq<&str>) -> Seq<Seq<char>> {
    path.map_values(|key: &str| key@)
}

/// The text under a path, or a dash.
pub open spec fn path_text(json: JsonView, path: Seq<Seq<char>>) -> Seq<char> {
    match at_path(json, path) {
        Some(value) => or_dash(value.as_text()),
        None => dash(),
    }
}

/// The number under a path, or zero.
pub open spec fn path_number(json: JsonView, path: Seq<Seq<char>>) -> int {
    match at_path(json, path) {
        Some(value) => match value.as_unsigned() {
            Some(n) => n,
            None => 0,
        },
        None => 0,
    }
}

/// Whether the truth value under a path is true.
pub open spec fn path_holds(json: JsonView, path: Seq<Seq<char>>) -> bool {
    match at_path(json, path) {
        Some(value) => value.as_flag() == Some(true),
        None => false,
    }
}

/// What stands under a path of fields.
fn find<'a>(json: &'a Json, path: &[&str]) -> (found: Option<&'a Json>)
    ensures
        match found {
            Some(found) => at_path(json@, path_views(path@)) == Some(found@),
            None => at_path(json@, path_views(path@)) is None,
        },
{
    let mut value = json;
    let mut i: usize = 0;
    assert(path_views(path@).skip(0) =~= path_views(path@));
    while i < path.len()
        invariant
            i <= path@.len(),
            at_path(json@, path_views(path@)) == at_path(value@, path_views(path@).skip(i as int)),
        decreases path@.len() - i,
    {
        let ghost rest = path_views(path@).skip(i as int);
        assert(rest[0] == path@[i as int]@);
        assert(rest.skip(1) =~= path_views(path@).skip(i + 1));
        match value.get(path[i]) {
            Some(inner) => {
                value = inner;
            },
            None => return None,
        }
        i = i + 1;
    }
    assert(path_views(path@).skip(i as int) =~= Seq::empty());
    Some(value)
}

/// The text under a path, or a dash.
pub fn status_str(status: &Json, path: &[&str]) -> (text: String)
    ensures
        text@ == path_text(status@, path_views(path@)),
{
    match find(status, path) {
        Some(value) => text_or_dash(value.as_str()),
        None => "—".to_owned(),
    }
}

/// The number under a path, or zero.
pub fn status_u64(status: &Json, path: &[&str]) -> (number: u64)
    ensures
        number == path_number(status@, path_views(path@)),
{
    match find(status, path) {
        Some(value) => match value.as_u64() {
            Some(n) => n,
            None => 0,
        },
        None => 0,
    }
}

/// Whether the truth value under a path is true.
fn status_holds(status: &Json, path: &[&str]) -> (holds: bool)
    ensures
        holds == path_holds(status@, path_views(path@)),
{
    match find(status, path) {
        Some(value) => match value.as_bool() {
            Some(flag) => flag,
            None => false,
        },
        None => false,
    }
}

/// How a node's health is styled.
pub open spec fn health_class(health: Seq<char>) -> Seq<char> {
    if health == "healthy"@ {
        "tag tag--ok"@
    } else if health == "suspect"@ || health == "draining"@ {
        "tag tag--warn"@
    } else if health == "dead"@ {
        "tag tag--bad"@
    } else {
        "tag"@
    }
}

/// How a node's health is styled.
pub fn health_tag_class(health: &str) -> (class: &'static str)
    ensures
        class@ == health_class(health@),
{
    if same_text(health, "healthy") {
        "tag tag--ok"
    } else if same_text(health, "suspect") || same_text(health, "draining") {
        "tag tag--warn"
    } else if same_text(health, "dead") {
        "tag tag--bad"
    } else {
        "tag"
    }
}

/// How an event's kind is styled.
pub open spec fn kind_class(kind: Seq<char>) -> Seq<char> {
    if kind == "node_dead"@ || kind == "check_quorum_step_down"@ || kind == "step_down"@ {
        "tag tag--bad"@
    } else if kind == "election_won"@ || kind == "node_registered"@ {
        "tag tag--ok"@
    } else {
        "tag tag--warn"@
    }
}

/// How an event's kind is styled.
pub fn event_tag_class(kind: &str) -> (class: &'static str)
    ensures
        class@ == kind_class(kind@),
{
    if same_text(kind, "node_dead") || same_text(kind, "check_quorum_step_down") || same_text(kind, "step_down") {
        "tag tag--bad"
    } else if same_text(kind, "election_won") || same_text(kind, "node_registered") {
        "tag tag--ok"
    } else {
        "tag tag--warn"
    }
}

/// A number and what it counts.
pub open spec fn count_text(count: int, label: Seq<char>) -> Seq<char> {
    decimal(count as nat) + " "@ + label
}

/// A number and what it counts.
fn counted(count: u64, label: &str) -> (text: String)
    ensures
        text@ == count_text(count as int, label@),
{
    let mut text = decimal_text(count);
    text.append(" ");
    text.append(label);
    text
}

/// A count that reads green at zero and red above it.
pub open spec fn gap_badge(label: Seq<char>, count: int) -> BadgeView {
    plain_badge(
        if count == 0 {
            "tag tag--ok"@
        } else {
            "tag tag--bad"@
        },
        count_text(count, label),
    )
}

/// A count that reads green at zero and red above it.
pub fn gap_count(label: &str, count: u64) -> (badge: Badge)
    ensures
        badge@ == gap_badge(label@, count as int),
{
    Badge {
        class: if count == 0 { "tag tag--ok" } else { "tag tag--bad" },
        text: counted(count, label),
        title: None,
    }
}

/// The badge of the nodes in one state of health.
pub open spec fn health_badge(health: Seq<char>, count: JsonView) -> BadgeView {
    plain_badge(
        health_class(health),
        count_text(
            match count.as_unsigned() {
                Some(n) => n,
                None => 0,
            },
            health,
        ),
    )
}

/// The badges of the nodes by health, in the states' alphabetical order;
/// nothing where the status does not tell.
pub open spec fn health_badges(status: JsonView) -> Option<Seq<BadgeView>> {
    match at_path(status, seq!["topology"@, "nodes_by_health"@]) {
        Some(JsonView::Object(members)) => Some(
            sorted_keys(members.dom()).map_values(|health: Seq<char>| health_badge(health, members[health])),
        ),
        _ => None,
    }
}

/// The badges of the nodes by health.
fn nodes_by_health(status: &Json) -> (badges: Option<Vec<Badge>>)
    ensures
        match badges {
            Some(badges) => health_badges(status@) == Some(badge_views(badges@)),
            None => health_badges(status@) is None,
        },
{
    let path = ["topology", "nodes_by_health"];
    assert(path_views(path@) =~= seq!["topology"@, "nodes_by_health"@]);
    match find(status, path.as_slice()) {
        Some(Json::Object(entries)) => {
            let ghost members = entries_view(entries@);
            let order = member_order(entries);
            let ghost keys = ordered_keys(entries@, order@);
            let mut badges: Vec<Badge> = Vec::new();
            let mut i: usize = 0;
            while i < order.len()
                invariant
                    i <= order@.len(),
                    crate::fingerprint::orders(entries@, order@, members),
                    keys == ordered_keys(entries@, order@),
                    badges@.len() == i,
                    forall|j: int| 0 <= j < i ==> (#[trigger] badges@[j])@ == health_badge(keys[j], members[keys[j]]),
                decreases order@.len() - i,
            {
                let at: usize = order[i];
                let health = entries[at].0.as_str();
                let count: u64 = match entries[at].1.as_u64() {
                    Some(n) => n,
                    None => 0,
                };
                assert(keys[i as int] == health@);
                badges.push(Badge { class: health_tag_class(health), text: counted(count, health), title: None });
                i = i + 1;
            }
            proof {
                lemma_sorted_keys(keys);
                assert(badge_views(badges@) =~= sorted_keys(members.dom()).map_values(
                    |health: Seq<char>| health_badge(health, members[health]),
                ));
            }
            Some(badges)
        },
        _ => None,
    }
}

/// What the summary card says of Prometheus.
pub enum PromCard {
    NotConfigured,
    /// The query failed, for that reason.
    Failed(String),
    /// How many scrape targets are up, and where to look closer.
    Up { targets: usize, link: Option<String> },
}

/// The Grafana link for the scrape targets.
pub open spec fn prom_link(grafana: Option<Seq<char>>) -> Option<Seq<char>> {
    match grafana {
        Some(base) => Some(explore_url(base, explore_panes("prometheus"@, up_query(), "now-1h"@))),
        None => None,
    }
}

/// Whether `card` shows the Prometheus probe.
pub open spec fn shows_prometheus(card: PromCard, prometheus: PromScrape, grafana: Option<Seq<char>>) -> bool {
    match prometheus {
        PromScrape::NotConfigured => card is NotConfigured,
        PromScrape::Error { error } => card matches PromCard::Failed(reason) && reason@ == error@,
        PromScrape::Up { targets } => card matches PromCard::Up { targets: shown, link } && shown == targets
            && link.deep_view() == prom_link(grafana),
    }
}

/// What the summary card says of Prometheus.
fn prom_card(prometheus: &PromScrape, grafana: Option<&str>) -> (card: PromCard)
    ensures
        shows_prometheus(card, *prometheus, grafana.deep_view()),
{
    match prometheus {
        PromScrape::NotConfigured => PromCard::NotConfigured,
        PromScrape::Error { error } => PromCard::Failed(error.clone()),
        PromScrape::Up { targets } => {
            let link = match grafana {
                Some(base) => Some(grafana_explore_prom_url(base, prom_fiducia_up_query())),
                None => None,
            };
            PromCard::Up { targets: *targets, link }
        },
    }
}

/// A row of the shard table.
pub struct ShardRow {
    pub shard_id: u32,
    pub role: String,
    /// Whether two nodes reported that they lead the shard.
    pub dual_leader: bool,
    pub leader: String,
    pub term: u64,
    /// Committed and applied.
    pub progress: String,
    pub lag: u64,
    pub quorum: Badge,
    pub storage: Badge,
    pub reported_by: String,
}

/// A word with a number in brackets.
pub open spec fn bracketed(word: Seq<char>, n: int) -> Seq<char> {
    word + " ("@ + decimal(n as nat) + ")"@
}

/// What the shard table says of a shard's quorum: only a leader's view tells it.
pub open spec fn quorum_badge(shard: MergedShard) -> BadgeView {
    if !shard.leader_view {
        if shard.view.leader_id is Some {
            plain_badge("tag tag--warn"@, "no leader report"@)
        } else {
            plain_badge("tag tag--bad"@, "leaderless"@)
        }
    } else if shard.view.has_quorum {
        plain_badge("tag tag--ok"@, bracketed("quorum"@, shard.view.healthy_replicas as int))
    } else {
        plain_badge("tag tag--bad"@, bracketed("at risk"@, shard.view.healthy_replicas as int))
    }
}

/// What the shard table says of a shard's storage.
pub open spec fn storage_badge(shard: MergedShard) -> BadgeView {
    if shard.view.storage_healthy {
        plain_badge("tag tag--ok"@, "ok"@)
    } else {
        BadgeView { class: "tag tag--bad"@, text: "fault"@, title: shard.view.storage_error.deep_view() }
    }
}

/// Whether `row` shows a shard.
pub open spec fn shows_shard(row: ShardRow, shard: MergedShard) -> bool {
    &&& row.shard_id == shard.shard_id
    &&& row.role@ == shard.view.role@
    &&& row.dual_leader == shard.dual_leader
    &&& row.leader@ == or_dash(shard.view.leader_id.deep_view())
    &&& row.term == shard.view.term
    &&& row.progress@ == decimal(shard.view.commit_index as nat) + " / "@ + decimal(shard.view.last_applied as nat)
    &&& row.lag == shard.view.metrics.follower_lag_max
    &&& row.quorum@ == quorum_badge(shard)
    &&& row.storage@ == storage_badge(shard)
    &&& row.reported_by@ == shard.reported_by@
}

/// A word with a number in brackets.
fn word_and_number(word: &str, n: u64) -> (text: String)
    ensures
        text@ == bracketed(word@, n as int),
{
    let mut text = word.to_owned();
    text.append(" (");
    text.append(decimal_text(n).as_str());
    text.append(")");
    text
}

/// A row of the shard table.
fn shard_row(shard: &MergedShard) -> (row: ShardRow)
    ensures
        shows_shard(row, *shard),
{
    let quorum = if !shard.leader_view {
        if shard.view.leader_id.is_some() {
            badge("tag tag--warn", "no leader report")
        } else {
            badge("tag tag--bad", "leaderless")
        }
    } else if shard.view.has_quorum {
        badge("tag tag--ok", word_and_number("quorum", shard.view.healthy_replicas as u64).as_str())
    } else {
        badge("tag tag--bad", word_and_number("at risk", shard.view.healthy_replicas as u64).as_str())
    };
    let storage = if shard.view.storage_healthy {
        badge("tag tag--ok", "ok")
    } else {
        let title = match &shard.view.storage_error {
            Some(error) => Some(error.clone()),
            None => None,
        };
        Badge { class: "tag tag--bad", text: "fault".to_owned(), title }
    };
    let mut progress = decimal_text(shard.view.commit_index);
    progress.append(" / ");
    progress.append(decimal_text(shard.view.last_applied).as_str());
    ShardRow {
        shard_id: shard.shard_id,
        role: shard.view.role.clone(),
        dual_leader: shard.dual_leader,
        leader: copy_or_dash(&shard.view.leader_id),
        term: shard.view.term,
        progress,
        lag: shard.view.metrics.follower_lag_max,
        quorum,
        storage,
        reported_by: shard.reported_by.clone(),
    }
}

/// The rows of the shard table, in the shards' order.
pub fn shard_rows(shards: &[MergedShard]) -> (rows: Vec<ShardRow>)
    ensures
        rows@.len() == shards@.len(),
        forall|i: int| 0 <= i < shards@.len() ==> shows_shard(#[trigger] rows@[i], shards@[i]),
{
    let mut rows: Vec<ShardRow> = Vec::new();
    let mut i: usize = 0;
    while i < shards.len()
        invariant
            i <= shards@.len(),
            rows@.len() == i,
            forall|j: int| 0 <= j < i ==> shows_shard(#[trigger] rows@[j], shards@[j]),
        decreases shards@.len() - i,
    {
        rows.push(shard_row(&shards[i]));
        i = i + 1;
    }
    rows
}

/// The summary cards and the shard table.
pub struct StatusPanel {
    pub cluster_id: String,
    pub version: String,
    pub shard_count: u64,
    pub replication_factor: u64,
    pub placement_generation: u64,
    pub brain_leader: String,
    pub high_availability: Badge,
    pub availability: Badge,
    /// The nodes by health, where the brain tells.
    pub nodes_by_health: Option<Vec<Badge>>,
    pub placement_gaps: Vec<Badge>,
    pub quorum_gaps: Vec<Badge>,
    /// From how many nodes the quorum was observed.
    pub coverage: String,
    /// The word that some nodes were not asked.
    pub truncation: Option<String>,
    pub prometheus: PromCard,
    pub shards: Vec<ShardRow>,
    /// The word that some nodes did not answer, where no shard is shown.
    pub failures: Option<String>,
}

/// Where the shards' placement falls short of what is desired.
pub open spec fn placement_badges(status: JsonView) -> Seq<BadgeView> {
    seq![
        gap_badge("unplaced"@, path_number(status, seq!["placement"@, "unplaced_shards"@])),
        gap_badge("under-replicated"@, path_number(status, seq!["placement"@, "under_replicated_shards"@])),
        gap_badge("leaderless"@, path_number(status, seq!["placement"@, "leaderless_shards"@])),
        gap_badge("unhealthy-replica"@, path_number(status, seq!["placement"@, "shards_with_unhealthy_replicas"@])),
    ]
}

/// Where the shards' quorum falls short.
pub open spec fn quorum_badges(quorum: ClusterQuorum) -> Seq<BadgeView> {
    seq![
        gap_badge("leaderless"@, quorum.leaderless@.len() as int),
        gap_badge("leader-unreached"@, quorum.leader_unreached@.len() as int),
        gap_badge("dual-leader"@, quorum.dual_leader@.len() as int),
        gap_badge("at-risk"@, quorum.at_risk@.len() as int),
        gap_badge("storage-faulted"@, quorum.storage_faulted@.len() as int),
        gap_badge("unresponsive"@, quorum.unresponsive@.len() as int),
    ]
}

/// From how many nodes the quorum was observed.
pub open spec fn coverage_text(quorum: ClusterQuorum) -> Seq<char> {
    decimal(quorum.nodes_reporting as nat) + " of "@ + decimal(
        (quorum.nodes_reporting + quorum.nodes_failed) as nat,
    ) + " nodes"@
}

/// The word that some nodes were not asked.
pub open spec fn truncation_text(quorum: ClusterQuorum) -> Option<Seq<char>> {
    match quorum.targets_truncated_from {
        Some(total) => Some(
            "targets truncated (showing "@ + decimal(MAX_NODES as nat) + " of "@ + decimal(total as nat) + ")"@,
        ),
        None => None,
    }
}

/// The word that some nodes did not answer.
pub open spec fn failures_text(quorum: ClusterQuorum) -> Option<Seq<char>> {
    if quorum.nodes_failed > 0 {
        Some("("@ + decimal(quorum.nodes_failed as nat) + " node fetches failed — see the node table.)"@)
    } else {
        None
    }
}

/// Who leads the brain.
pub open spec fn brain_leader_text(status: JsonView) -> Seq<char> {
    if path_holds(status, seq!["brain_cluster"@, "is_leader"@]) {
        "this brain"@
    } else {
        path_text(status, seq!["brain_cluster"@, "leader"@])
    }
}

/// Whether `panel` shows the cluster's status.
pub open spec fn shows_status(
    panel: StatusPanel,
    status: JsonView,
    shards: Seq<MergedShard>,
    quorum: ClusterQuorum,
    prometheus: PromScrape,
    grafana: Option<Seq<char>>,
) -> bool {
    &&& panel.cluster_id@ == path_text(status, seq!["cluster_id"@])
    &&& panel.version@ == path_text(status, seq!["version"@])
    &&& panel.shard_count == path_number(status, seq!["shard_count"@])
    &&& panel.replication_factor == path_number(status, seq!["replication_factor"@])
    &&& panel.placement_generation == path_number(status, seq!["brain_cluster"@, "placement_generation"@])
    &&& panel.brain_leader@ == brain_leader_text(status)
    &&& panel.high_availability@ == (if path_holds(status, seq!["brain_cluster"@, "ha_configured"@]) {
        plain_badge("tag tag--ok"@, "HA"@)
    } else {
        plain_badge("tag tag--warn"@, "no HA"@)
    })
    &&& panel.availability@ == (if path_holds(status, seq!["brain_cluster"@, "available"@]) {
        plain_badge("tag tag--ok"@, "available"@)
    } else {
        plain_badge("tag tag--bad"@, "unavailable"@)
    })
    &&& match panel.nodes_by_health {
        Some(badges) => health_badges(status) == Some(badge_views(badges@)),
        None => health_badges(status) is None,
    }
    &&& badge_views(panel.placement_gaps@) == placement_badges(status)
    &&& badge_views(panel.quorum_gaps@) == quorum_badges(quorum)
    &&& panel.coverage@ == coverage_text(quorum)
    &&& panel.truncation.deep_view() == truncation_text(quorum)
    &&& shows_prometheus(panel.prometheus, prometheus, grafana)
    &&& panel.shards@.len() == shards.len()
    &&& forall|i: int| 0 <= i < shards.len() ==> shows_shard(#[trigger] panel.shards@[i], shards[i])
    &&& panel.failures.deep_view() == (if shards.len() == 0 {
        failures_text(quorum)
    } else {
        None
    })
}

/// Where the shards' placement falls short of what is desired.
fn placement_gaps(status: &Json) -> (badges: Vec<Badge>)
    ensures
        badge_views(badges@) == placement_badges(status@),
{
    let unplaced = ["placement", "unplaced_shards"];
    let under = ["placement", "under_replicated_shards"];
    let leaderless = ["placement", "leaderless_shards"];
    let unhealthy = ["placement", "shards_with_unhealthy_replicas"];
    assert(path_views(unplaced@) =~= seq!["placement"@, "unplaced_shards"@]);
    assert(path_views(under@) =~= seq!["placement"@, "under_replicated_shards"@]);
    assert(path_views(leaderless@) =~= seq!["placement"@, "leaderless_shards"@]);
    assert(path_views(unhealthy@) =~= seq!["placement"@, "shards_with_unhealthy_replicas"@]);
    let mut badges: Vec<Badge> = Vec::new();
    badges.push(gap_count("unplaced", status_u64(status, unplaced.as_slice())));
    badges.push(gap_count("under-replicated", status_u64(status, under.as_slice())));
    badges.push(gap_count("leaderless", status_u64(status, leaderless.as_slice())));
    badges.push(gap_count("unhealthy-replica", status_u64(status, unhealthy.as_slice())));
    assert(badge_views(badges@) =~= placement_badges(status@));
    badges
}

/// Where the shards' quorum falls short.
fn quorum_gaps(quorum: &ClusterQuorum) -> (badges: Vec<Badge>)
    ensures
        badge_views(badges@) == quorum_badges(*quorum),
{
    let mut badges: Vec<Badge> = Vec::new();
    badges.push(gap_count("leaderless", quorum.leaderless.len() as u64));
    badges.push(gap_count("leader-unreached", quorum.leader_unreached.len() as u64));
    badges.push(gap_count("dual-leader", quorum.dual_leader.len() as u64));
    badges.push(gap_count("at-risk", quorum.at_risk.len() as u64));
    badges.push(gap_count("storage-faulted", quorum.storage_faulted.len() as u64));
    badges.push(gap_count("unresponsive", quorum.unresponsive.len() as u64));
    assert(badge_views(badges@) =~= quorum_badges(*quorum));
    badges
}

/// From how many nodes the quorum was observed.
fn coverage(quorum: &ClusterQuorum) -> (text: String)
    requires
        quorum.nodes_reporting + quorum.nodes_failed <= u64::MAX,
    ensures
        text@ == coverage_text(*quorum),
{
    let mut text = decimal_text(quorum.nodes_reporting as u64);
    text.append(" of ");
    text.append(decimal_text(quorum.nodes_reporting as u64 + quorum.nodes_failed as u64).as_str());
    text.append(" nodes");
    text
}

/// The word that some nodes were not asked.
fn truncation(quorum: &ClusterQuorum) -> (text: Option<String>)
    ensures
        text.deep_view() == truncation_text(*quorum),
{
    match quorum.targets_truncated_from {
        Some(total) => {
            let mut text = "targets truncated (showing ".to_owned();
            text.append(decimal_text(MAX_NODES as u64).as_str());
            text.append(" of ");
            text.append(decimal_text(total as u64).as_str());
            text.append(")");
            Some(text)
        },
        None => None,
    }
}

/// The word that some nodes did not answer.
fn failures(quorum: &ClusterQuorum) -> (text: Option<String>)
    ensures
        text.deep_view() == failures_text(*quorum),
{
    if quorum.nodes_failed > 0 {
        let mut text = "(".to_owned();
        text.append(decimal_text(quorum.nodes_failed as u64).as_str());
        text.append(" node fetches failed — see the node table.)");
        Some(text)
    } else {
        None
    }
}

/// The summary cards and the shard table. The counts of nodes must fit together
/// in a machine word.
pub fn cluster_status_panel(
    status: &Json,
    shards: &[MergedShard],
    quorum: &ClusterQuorum,
    prometheus: &PromScrape,
    grafana: Option<&str>,
) -> (panel: StatusPanel)
    requires
        quorum.nodes_reporting + quorum.nodes_failed <= u64::MAX,
    ensures
        shows_status(panel, status@, shards@, *quorum, *prometheus, grafana.deep_view()),
{
    let cluster_id = ["cluster_id"];
    let version = ["version"];
    let shard_count = ["shard_count"];
    let factor = ["replication_factor"];
    let generation = ["brain_cluster", "placement_generation"];
    let is_leader = ["brain_cluster", "is_leader"];
    let leader = ["brain_cluster", "leader"];
    let ha = ["brain_cluster", "ha_configured"];
    let available = ["brain_cluster", "available"];
    assert(path_views(cluster_id@) =~= seq!["cluster_id"@]);
    assert(path_views(version@) =~= seq!["version"@]);
    assert(path_views(shard_count@) =~= seq!["shard_count"@]);
    assert(path_views(factor@) =~= seq!["replication_factor"@]);
    assert(path_views(generation@) =~= seq!["brain_cluster"@, "placement_generation"@]);
    assert(path_views(is_leader@) =~= seq!["brain_cluster"@, "is_leader"@]);
    assert(path_views(leader@) =~= seq!["brain_cluster"@, "leader"@]);
    assert(path_views(ha@) =~= seq!["brain_cluster"@, "ha_configured"@]);
    assert(path_views(available@) =~= seq!["brain_cluster"@, "available"@]);
    let brain_leader = if status_holds(status, is_leader.as_slice()) {
        "this brain".to_owned()
    } else {
        status_str(status, leader.as_slice())
    };
    let high_availability = if status_holds(status, ha.as_slice()) {
        badge("tag tag--ok", "HA")
    } else {
        badge("tag tag--warn", "no HA")
    };
    let availability = if status_holds(status, available.as_slice()) {
        badge("tag tag--ok", "available")
    } else {
        badge("tag tag--bad", "unavailable")
    };
    StatusPanel {
        cluster_id: status_str(status, cluster_id.as_slice()),
        version: status_str(status, version.as_slice()),
        shard_count: status_u64(status, shard_count.as_slice()),
        replication_factor: status_u64(status, factor.as_slice()),
        placement_generation: status_u64(status, generation.as_slice()),
        brain_leader,
        high_availability,
        availability,
        nodes_by_health: nodes_by_health(status),
        placement_gaps: placement_gaps(status),
        quorum_gaps: quorum_gaps(quorum),
        coverage: coverage(quorum),
        truncation: truncation(quorum),
        prometheus: prom_card(prometheus, grafana),
        shards: shard_rows(shards),
        failures: if shards.len() == 0 { failures(quorum) } else { None },
    }
}

/// What the node table says of a node's fetch: refused before any request, asked
/// with its share of leadership, unreachable, or never asked.
pub open spec fn observe_badge(observation: Option<NodeObservation>) -> BadgeView {
    match observation {
        None => titled_badge("tag"@, dash(), "not in the observe target set"@),
        Some(observation) => if observation.untrusted {
            titled_badge(
                "tag tag--warn"@,
                "untrusted address"@,
                "brain-supplied address is not in-cluster; refused (never dialed with the cluster secret)"@,
            )
        } else {
            match observation.shards {
                Some(shards) => plain_badge(
                    "tag tag--ok"@,
                    "ok · leads "@ + decimal(shards.leader_count as nat) + " of "@ + decimal(shards.shards@.len()),
                ),
                None => match observation.error.deep_view() {
                    Some(error) => titled_badge("tag tag--bad"@, "unreachable"@, error),
                    None => plain_badge("tag"@, dash()),
                },
            }
        },
    }
}

/// What the node table says of a node's fetch.
pub fn observe_cell(observation: Option<&NodeObservation>) -> (cell: Badge)
    ensures
        cell@ == observe_badge(match observation {
            Some(observation) => Some(*observation),
            None => None,
        }),
{
    match observation {
        None => badge_titled("tag", "—", "not in the observe target set"),
        Some(observation) => if observation.untrusted {
            badge_titled(
                "tag tag--warn",
                "untrusted address",
                "brain-supplied address is not in-cluster; refused (never dialed with the cluster secret)",
            )
        } else {
            match &observation.shards {
                Some(shards) => {
                    let mut text = "ok · leads ".to_owned();
                    text.append(decimal_text(shards.leader_count as u64).as_str());
                    text.append(" of ");
                    text.append(decimal_text(shards.shards.len() as u64).as_str());
                    badge("tag tag--ok", text.as_str())
                },
                None => match &observation.error {
                    Some(error) => badge_titled("tag tag--bad", "unreachable", error.as_str()),
                    None => badge("tag", "—"),
                },
            }
        },
    }
}

/// The first observation of a node.
pub open spec fn first_observation(observations: Seq<NodeObservation>, node_id: Seq<char>) -> Option<NodeObservation>
    decreases observations.len(),
{
    if observations.len() == 0 {
        None
    } else if observations[0].node_id@ == node_id {
        Some(observations[0])
    } else {
        first_observation(observations.skip(1), node_id)
    }
}

/// The first observation of a node.
fn observation_of<'a>(observations: &'a [NodeObservation], node_id: &str) -> (found: Option<&'a NodeObservation>)
    ensures
        first_observation(observations@, node_id@) == (match found {
            Some(found) => Some(*found),
            None => None,
        }),
{
    let mut i: usize = 0;
    assert(observations@.skip(0) =~= observations@);
    while i < observations.len()
        invariant
            i <= observations@.len(),
            first_observation(observations@, node_id@) == first_observation(observations@.skip(i as int), node_id@),
        decreases observations@.len() - i,
    {
        let ghost rest = observations@.skip(i as int);
        assert(rest[0] == observations@[i as int]);
        assert(rest.skip(1) =~= observations@.skip(i + 1));
        if same_text(observations[i].node_id.as_str(), node_id) {
            return Some(&observations[i]);
        }
        i = i + 1;
    }
    None
}

/// A row of the node table.
pub struct NodeRow {
    pub node_id: String,
    pub health: Badge,
    pub failure_domain: String,
    pub address: String,
    /// How many shards the node hosts and leads.
    pub shards: String,
    pub last_seen: String,
    pub last_seen_age: String,
    pub observe: Badge,
}

/// How many items an array field has.
pub open spec fn field_count(json: JsonView, key: Seq<char>) -> nat {
    match items_field(json, key) {
        Some(items) => items.len(),
        None => 0,
    }
}

/// When a node was last seen.
pub open spec fn last_seen_ms(node: JsonView) -> int {
    match signed_field(node, "last_seen_ms"@) {
        Some(at_ms) => at_ms,
        None => 0,
    }
}

/// Whether `row` shows a node of the brain's registry.
pub open spec fn shows_node(row: NodeRow, node: JsonView, observations: Seq<NodeObservation>, now_ms: int) -> bool {
    let node_id = or_dash(text_field(node, "node_id"@));
    let health = or_dash(text_field(node, "health"@));
    &&& row.node_id@ == node_id
    &&& row.health@ == plain_badge(health_class(health), health)
    &&& row.failure_domain@ == or_dash(text_field(node, "failure_domain"@))
    &&& row.address@ == or_dash(text_field(node, "address"@))
    &&& row.shards@ == decimal(field_count(node, "hosted_shards"@)) + " / "@ + decimal(
        field_count(node, "leading_shards"@),
    )
    &&& is_timestamp(last_seen_ms(node), row.last_seen@)
    &&& row.last_seen_age@ == age_text(last_seen_ms(node), now_ms)
    &&& row.observe@ == observe_badge(first_observation(observations, node_id))
}

/// How many items an array field has.
fn count_of(json: &Json, key: &str) -> (count: usize)
    ensures
        count == field_count(json@, key@),
{
    match json.get_array(key) {
        Some(items) => {
            proof {
                crate::json::lemma_items_view(items@);
            }
            items.len()
        },
        None => 0,
    }
}

/// A row of the node table.
fn node_row(node: &Json, observations: &[NodeObservation], now_ms: i64) -> (row: NodeRow)
    ensures
        shows_node(row, node@, observations@, now_ms as int),
{
    let node_id = text_or_dash(node.get_str("node_id"));
    let health = text_or_dash(node.get_str("health"));
    let last_seen: i64 = match node.get_i64("last_seen_ms") {
        Some(at_ms) => at_ms,
        None => 0,
    };
    let mut shards = decimal_text(count_of(node, "hosted_shards") as u64);
    shards.append(" / ");
    shards.append(decimal_text(count_of(node, "leading_shards") as u64).as_str());
    let observe = observe_cell(observation_of(observations, node_id.as_str()));
    NodeRow {
        node_id,
        health: badge(health_tag_class(health.as_str()), health.as_str()),
        failure_domain: text_or_dash(node.get_str("failure_domain")),
        address: text_or_dash(node.get_str("address")),
        shards,
        last_seen: utc_timestamp(last_seen),
        last_seen_age: relative_age(last_seen, now_ms),
        observe,
    }
}

/// The rows of the node table, in the registry's order.
pub fn cluster_nodes_panel(nodes: &[Json], observations: &[NodeObservation], now_ms: i64) -> (rows: Vec<NodeRow>)
    ensures
        rows@.len() == nodes@.len(),
        forall|i: int|
            0 <= i < nodes@.len() ==> shows_node(#[trigger] rows@[i], nodes@[i]@, observations@, now_ms as int),
{
    let mut rows: Vec<NodeRow> = Vec::new();
    let mut i: usize = 0;
    while i < nodes.len()
        invariant
            i <= nodes@.len(),
            rows@.len() == i,
            forall|j: int|
                0 <= j < i ==> shows_node(#[trigger] rows@[j], nodes@[j]@, observations@, now_ms as int),
        decreases nodes@.len() - i,
    {
        rows.push(node_row(&nodes[i], observations, now_ms));
        i = i + 1;
    }
    rows
}

/// What the events panel is about: Loki is not configured, its query failed, or
/// the events. A missing configuration is information, never an error.
pub enum EventsPanel {
    NotConfigured,
    Error(String),
    Events(Vec<ClusterEvent>),
}

/// What the events panel is about, from what Loki's query came to; nothing where
/// Loki is not configured.
pub fn loki_events(outcome: Option<Result<Vec<ClusterEvent>, String>>) -> (panel: EventsPanel)
    ensures
        panel == (match outcome {
            None => EventsPanel::NotConfigured,
            Some(Ok(events)) => EventsPanel::Events(events),
            Some(Err(error)) => EventsPanel::Error(error),
        }),
{
    match outcome {
        None => EventsPanel::NotConfigured,
        Some(Ok(events)) => EventsPanel::Events(events),
        Some(Err(error)) => EventsPanel::Error(error),
    }
}

/// A row of the events table.
pub struct EventRow {
    pub time: String,
    pub age: String,
    pub kind: Badge,
    pub shard: String,
    pub node: String,
    pub detail: String,
}

/// What the events table says of an event: a transition where it is one, and
/// else its message.
pub open spec fn event_detail(event: EventView) -> Seq<char> {
    match (event.from, event.to) {
        (Some(from), Some(to)) => from + " → "@ + to + (match event.reason {
            Some(reason) => " ("@ + reason + ")"@,
            None => ""@,
        }),
        _ => event.message,
    }
}

/// Whether `row` shows an event.
pub open spec fn shows_cluster_event(row: EventRow, event: EventView, now_ms: int) -> bool {
    &&& is_timestamp(event.at_ms as int, row.time@)
    &&& row.age@ == age_text(event.at_ms as int, now_ms)
    &&& row.kind@ == plain_badge(kind_class(event.kind), event.kind)
    &&& row.shard@ == (match event.shard {
        Some(shard) => decimal(shard as nat),
        None => dash(),
    })
    &&& row.node@ == or_dash(event.node)
    &&& row.detail@ == event_detail(event)
}

/// What the events table says of an event.
fn detail(event: &ClusterEvent) -> (text: String)
    ensures
        text@ == event_detail(event@),
{
    match (&event.from, &event.to) {
        (Some(from), Some(to)) => {
            let mut text = from.clone();
            text.append(" → ");
            text.append(to.as_str());
            match &event.reason {
                Some(reason) => {
                    text.append(" (");
                    text.append(reason.as_str());
                    text.append(")");
                },
                None => {
                    text.append("");
                },
            }
            assert(text@ =~= event_detail(event@));
            text
        },
        _ => event.message.clone(),
    }
}

/// A row of the events table.
fn event_row(event: &ClusterEvent, now_ms: i64) -> (row: EventRow)
    ensures
        shows_cluster_event(row, event@, now_ms as int),
{
    let shard = match event.shard {
        Some(shard) => decimal_text(shard),
        None => "—".to_owned(),
    };
    EventRow {
        time: utc_timestamp(event.at_ms),
        age: relative_age(event.at_ms, now_ms),
        kind: badge(event_tag_class(event.kind), event.kind),
        shard,
        node: copy_or_dash(&event.node),
        detail: detail(event),
    }
}

/// The body of the events panel.
pub enum EventsBody {
    NotConfigured,
    /// What went wrong.
    Failed(String),
    Rows(Vec<EventRow>),
}

/// The events panel.
pub struct EventsView {
    /// The window that the panel covers.
    pub window: String,
    /// Where to look closer.
    pub link: Option<String>,
    pub body: EventsBody,
}

/// Whether `view` shows the events panel.
pub open spec fn shows_events(
    view: EventsView,
    events: EventsPanel,
    since_minutes: int,
    grafana: Option<Seq<char>>,
    now_ms: int,
) -> bool {
    &&& view.window@ == "last "@ + signed_decimal(since_minutes) + "m"@
    &&& view.link.deep_view() == (match grafana {
        Some(base) => Some(explore_url(base, explore_panes("loki"@, events_logql(), minutes_ago(since_minutes)))),
        None => None,
    })
    &&& match events {
        EventsPanel::NotConfigured => view.body is NotConfigured,
        EventsPanel::Error(error) => view.body matches EventsBody::Failed(text) && text@ == "Loki query failed: "@
            + error@,
        EventsPanel::Events(events) => view.body matches EventsBody::Rows(rows) && rows@.len() == events@.len() && (
        forall|i: int| 0 <= i < events@.len() ==> shows_cluster_event(#[trigger] rows@[i], events@[i]@, now_ms)),
    }
}

/// The events panel.
pub fn cluster_events_panel(events: &EventsPanel, since_minutes: i64, grafana: Option<&str>, now_ms: i64) -> (view:
    EventsView)
    ensures
        shows_events(view, *events, since_minutes as int, grafana.deep_view(), now_ms as int),
{
    let mut window = "last ".to_owned();
    window.append(signed_decimal_text(since_minutes).as_str());
    window.append("m");
    let link = match grafana {
        Some(base) => {
            let query = loki_events_logql();
            Some(grafana_explore_loki_url(base, query.as_str(), since_minutes))
        },
        None => None,
    };
    let body = match events {
        EventsPanel::NotConfigured => EventsBody::NotConfigured,
        EventsPanel::Error(error) => {
            let mut text = "Loki query failed: ".to_owned();
            text.append(error.as_str());
            EventsBody::Failed(text)
        },
        EventsPanel::Events(events) => {
            let mut rows: Vec<EventRow> = Vec::new();
            let mut i: usize = 0;
            while i < events.len()
                invariant
                    i <= events@.len(),
                    rows@.len() == i,
                    forall|j: int|
                        0 <= j < i ==> shows_cluster_event(#[trigger] rows@[j], events@[j]@, now_ms as int),
                decreases events@.len() - i,
            {
                rows.push(event_row(&events[i], now_ms));
                i = i + 1;
            }
            EventsBody::Rows(rows)
        },
    };
    EventsView { window, link, body }
}

} // verus!
