//! Cluster Insight: the read-only observability layer behind the cluster page.
//!
//! Node discovery, the per-node outcomes of an observe fan-out, and the merge of
//! what every node reports into one row per shard and one cluster-wide rollup.
//! A node that is down never breaks the page: its outcome is carried as data.

use vstd::prelude::*;

use crate::json::{items_view, text_field, Json, JsonView};
use crate::request_security::{parse_url, url_parts, UrlView};
use crate::text::{
    all_digits, before_either, chars_of, ends_with, is_digit, position_of_either, same_text, split, split_on,
    starts_with, trim, trim_end_matches, trim_start_matches, trimmed, without_leading, without_trailing,
};
use crate::upstream::{service_path, service_url};

verus! {

/// The most nodes that one fan-out observes.
pub const MAX_NODES: usize = 512;

/// One node's client-plane base URL to observe.
pub struct NodeTarget {
    /// The node's own id when it is known, else a label from the URL's host.
    pub node_id: String,
    pub base_url: String,
    /// Whether the node may be dialed with the cluster secret.
    pub trusted: bool,
}

/// The texts of a [`NodeTarget`].
pub struct TargetView {
    pub node_id: Seq<char>,
    pub base_url: Seq<char>,
    pub trusted: bool,
}

impl View for NodeTarget {
    type V = TargetView;

    open spec fn view(&self) -> TargetView {
        TargetView { node_id: self.node_id@, base_url: self.base_url@, trusted: self.trusted }
    }
}

/// The views of targets, in order.
pub open spec fn target_views(targets: Seq<NodeTarget>) -> Seq<TargetView> {
    targets.map_values(|target: NodeTarget| target@)
}

/// A scheme-qualified base URL without a trailing slash.
pub open spec fn base_url_of(address: Seq<char>) -> Seq<char> {
    let address = without_trailing(trimmed(address), '/');
    if "http://"@.is_prefix_of(address) || "https://"@.is_prefix_of(address) {
        address
    } else {
        "http://"@ + address
    }
}

/// Addresses come as `host:port` from heartbeats or as full URLs from the
/// configuration; both become a scheme-qualified base URL without a trailing
/// slash.
pub fn normalize_base_url(address: &str) -> (url: String)
    ensures
        url@ == base_url_of(address@),
{
    let address = trim_end_matches(trim(address), '/');
    if starts_with(address, "http://") || starts_with(address, "https://") {
        address.to_owned()
    } else {
        let mut url = "http://".to_owned();
        url.append(address);
        url
    }
}

/// The first label of a URL's host.
pub open spec fn label_of(base_url: Seq<char>) -> Seq<char> {
    let rest = without_leading(without_leading(base_url, "http://"@), "https://"@);
    let host = rest.take(position_of_either(rest, ':', '/'));
    host.take(position_of_either(host, '.', '.'))
}

/// A short label for an explicitly configured target: the first label of its
/// host.
pub fn host_label(base_url: &str) -> (label: String)
    ensures
        label@ == label_of(base_url@),
{
    let rest = trim_start_matches(trim_start_matches(base_url, "http://"), "https://");
    let host = before_either(rest, ':', '/');
    before_either(host, '.', '.').to_owned()
}

/// The target of an explicitly configured URL. The operator vouches for it.
pub open spec fn explicit_target(url: Seq<char>) -> TargetView {
    TargetView { node_id: label_of(base_url_of(url)), base_url: base_url_of(url), trusted: true }
}

/// Targets from explicitly configured base URLs, in order.
pub fn explicit_node_targets(urls: &[String]) -> (targets: Vec<NodeTarget>)
    ensures
        target_views(targets@) == urls@.map_values(|url: String| explicit_target(url@)),
{
    let mut targets: Vec<NodeTarget> = Vec::new();
    let mut i: usize = 0;
    while i < urls.len()
        invariant
            i <= urls@.len(),
            targets@.len() == i,
            forall|j: int| 0 <= j < i ==> (#[trigger] targets@[j])@ == explicit_target(urls@[j]@),
        decreases urls@.len() - i,
    {
        let base_url = normalize_base_url(urls[i].as_str());
        let node_id = host_label(base_url.as_str());
        targets.push(NodeTarget { node_id, base_url, trusted: true });
        i = i + 1;
    }
    assert(target_views(targets@) =~= urls@.map_values(|url: String| explicit_target(url@)));
    targets
}

/// Whether four dot-separated numbers are an address of a private or loopback
/// IPv4 range.
pub open spec fn private_ipv4(host: Seq<char>) -> bool {
    let parts = split(host, '.');
    &&& parts.len() == 4
    &&& all_digits(parts[0]) && all_digits(parts[1]) && all_digits(parts[2]) && all_digits(parts[3])
    &&& {
        ||| parts[0] == "127"@
        ||| parts[0] == "10"@
        ||| parts[0] == "192"@ && parts[1] == "168"@
        ||| parts[0] == "172"@ && sixteen_to_thirty_one(parts[1])
    }
}

/// Whether a decimal text is one of 16 to 31.
pub open spec fn sixteen_to_thirty_one(text: Seq<char>) -> bool {
    &&& text.len() == 2
    &&& {
        ||| text[0] == '1' && '6' <= text[1] <= '9'
        ||| text[0] == '2' && is_digit(text[1])
        ||| text[0] == '3' && '0' <= text[1] <= '1'
    }
}

/// Whether a host is inside the cluster: the loopback host, a private IPv4
/// address, a bare name, or a name of the cluster's own DNS zone.
pub open spec fn in_cluster_host(host: Seq<char>) -> bool {
    ||| host == "[::1]"@
    ||| private_ipv4(host)
    ||| host.len() > 0 && !host.contains('.') && !host.contains(':')
    ||| ".svc"@.is_suffix_of(host)
    ||| ".cluster.local"@.is_suffix_of(host)
}

/// Whether a base URL that the brain reports may be dialed with the cluster
/// secret: its host is inside the cluster.
pub open spec fn in_cluster_url(url: Option<UrlView>) -> bool {
    url matches Some(url) && url.host matches Some(host) && in_cluster_host(host)
}

/// What is asked of a target: the service at a path of its base URL, and nothing
/// of a target that is not trusted, which is so never sent the cluster secret.
pub open spec fn observed_at(target: TargetView, path: Seq<char>) -> Option<Seq<char>> {
    if target.trusted {
        Some(service_path(target.base_url, path))
    } else {
        None
    }
}

/// What is asked of a target.
pub fn observe_url(target: &NodeTarget, path: &str) -> (url: Option<String>)
    ensures
        url.deep_view() == observed_at(target@, path@),
        url is Some <==> target.trusted,
{
    if target.trusted {
        Some(service_url(target.base_url.as_str(), path))
    } else {
        None
    }
}

/// Whether a text is a nonempty run of digits.
fn only_digits(text: &str) -> (result: bool)
    ensures
        result == all_digits(text@),
{
    let chars = chars_of(text);
    let mut i: usize = 0;
    while i < chars.len()
        invariant
            i <= chars@.len(),
            chars@ == text@,
            forall|j: int| 0 <= j < i ==> is_digit(#[trigger] text@[j]),
        decreases chars@.len() - i,
    {
        if !('0' <= chars[i] && chars[i] <= '9') {
            assert(!is_digit(text@[i as int]));
            return false;
        }
        i = i + 1;
    }
    chars.len() > 0
}

/// Whether a decimal text is one of 16 to 31.
fn is_sixteen_to_thirty_one(text: &str) -> (result: bool)
    ensures
        result == sixteen_to_thirty_one(text@),
{
    let chars = chars_of(text);
    if chars.len() != 2 {
        return false;
    }
    let high: char = chars[0];
    let low: char = chars[1];
    (high == '1' && '6' <= low && low <= '9') || (high == '2' && '0' <= low && low <= '9') || (high == '3' && '0'
        <= low && low <= '1')
}

/// Whether four dot-separated numbers are an address of a private or loopback
/// IPv4 range.
fn is_private_ipv4(host: &str) -> (result: bool)
    ensures
        result == private_ipv4(host@),
{
    let parts = split_on(host, '.');
    if parts.len() != 4 {
        return false;
    }
    assert(parts.deep_view()[0] == parts@[0]@);
    assert(parts.deep_view()[1] == parts@[1]@);
    assert(parts.deep_view()[2] == parts@[2]@);
    assert(parts.deep_view()[3] == parts@[3]@);
    let first = parts[0].as_str();
    let second = parts[1].as_str();
    only_digits(first) && only_digits(second) && only_digits(parts[2].as_str()) && only_digits(parts[3].as_str())
        && (same_text(first, "127") || same_text(first, "10") || (same_text(first, "192") && same_text(
        second,
        "168",
    )) || (same_text(first, "172") && is_sixteen_to_thirty_one(second)))
}

/// Whether a text holds neither a dot nor a colon.
fn is_bare_name(host: &str) -> (result: bool)
    ensures
        result == (host@.len() > 0 && !host@.contains('.') && !host@.contains(':')),
{
    let chars = chars_of(host);
    let mut i: usize = 0;
    while i < chars.len()
        invariant
            i <= chars@.len(),
            chars@ == host@,
            forall|j: int| 0 <= j < i ==> host@[j] != '.' && host@[j] != ':',
        decreases chars@.len() - i,
    {
        if chars[i] == '.' || chars[i] == ':' {
            assert(host@[i as int] == chars@[i as int]);
            return false;
        }
        i = i + 1;
    }
    chars.len() > 0
}

/// Whether a host is inside the cluster.
pub fn host_is_in_cluster(host: &str) -> (result: bool)
    ensures
        result == in_cluster_host(host@),
{
    same_text(host, "[::1]") || is_private_ipv4(host) || is_bare_name(host) || ends_with(host, ".svc") || ends_with(
        host,
        ".cluster.local",
    )
}

/// Whether a base URL may be dialed with the cluster secret.
fn url_is_in_cluster(base_url: &str) -> (result: bool)
    ensures
        result == in_cluster_url(url_parts(base_url@)),
{
    match parse_url(base_url) {
        Some(url) => match url.host {
            Some(host) => host_is_in_cluster(host.as_str()),
            None => false,
        },
        None => false,
    }
}

/// The target that one entry of the brain's membership gives: none without an
/// address.
pub open spec fn brain_target(node: JsonView) -> Option<TargetView> {
    match text_field(node, "address"@) {
        Some(address) => {
            let address = trimmed(address);
            if address.len() == 0 {
                None
            } else {
                Some(
                    TargetView {
                        node_id: match text_field(node, "node_id"@) {
                            Some(id) => id,
                            None => address,
                        },
                        base_url: base_url_of(address),
                        trusted: in_cluster_url(url_parts(base_url_of(address))),
                    },
                )
            }
        },
        None => None,
    }
}

/// The targets that the entries of the brain's membership give, in order.
pub open spec fn brain_targets(nodes: Seq<JsonView>) -> Seq<TargetView>
    decreases nodes.len(),
{
    if nodes.len() == 0 {
        Seq::empty()
    } else {
        match brain_target(nodes.last()) {
            Some(target) => brain_targets(nodes.drop_last()).push(target),
            None => brain_targets(nodes.drop_last()),
        }
    }
}

/// A target from the brain's membership is trusted only where its host is inside
/// the cluster.
pub proof fn lemma_reported_targets_are_inside(nodes: Seq<JsonView>, i: int)
    requires
        0 <= i < brain_targets(nodes).len(),
    ensures
        brain_targets(nodes)[i].trusted <==> in_cluster_url(url_parts(brain_targets(nodes)[i].base_url)),
    decreases nodes.len(),
{
    let front = brain_targets(nodes.drop_last());
    if i < front.len() {
        assert(brain_targets(nodes)[i] == front[i]);
        lemma_reported_targets_are_inside(nodes.drop_last(), i);
    }
}

/// The target that one entry of the brain's membership gives.
fn target_from_brain_node(node: &Json) -> (target: Option<NodeTarget>)
    ensures
        match target {
            Some(target) => brain_target(node@) == Some(target@),
            None => brain_target(node@) is None,
        },
{
    match node.get_str("address") {
        Some(address) => {
            let address = trim(address);
            if address.unicode_len() == 0 {
                return None;
            }
            let node_id = match node.get_str("node_id") {
                Some(id) => id.to_owned(),
                None => address.to_owned(),
            };
            let base_url = normalize_base_url(address);
            let trusted = url_is_in_cluster(base_url.as_str());
            Some(NodeTarget { node_id, base_url, trusted })
        },
        None => None,
    }
}

/// Targets discovered from the brain's membership snapshot: every entry carries
/// the address its node heartbeats in, and one without an address is skipped.
pub fn targets_from_brain_nodes(nodes: &[Json]) -> (targets: Vec<NodeTarget>)
    ensures
        target_views(targets@) == brain_targets(items_view(nodes@)),
{
    let mut targets: Vec<NodeTarget> = Vec::new();
    let mut i: usize = 0;
    assert(target_views(targets@) =~= brain_targets(items_view(nodes@.take(0))));
    while i < nodes.len()
        invariant
            i <= nodes@.len(),
            target_views(targets@) == brain_targets(items_view(nodes@.take(i as int))),
        decreases nodes@.len() - i,
    {
        let ghost before = targets@;
        assert(nodes@.take(i + 1).drop_last() =~= nodes@.take(i as int));
        assert(items_view(nodes@.take(i + 1)).drop_last() =~= items_view(nodes@.take(i as int)));
        if let Some(target) = target_from_brain_node(&nodes[i]) {
            let ghost found = target@;
            targets.push(target);
            assert(target_views(targets@) =~= target_views(before).push(found));
        }
        i = i + 1;
    }
    assert(nodes@.take(i as int) =~= nodes@);
    targets
}

/// Cuts the targets down to the most that one fan-out observes, and says how
/// many there were when some were dropped.
pub fn truncate_targets(targets: &mut Vec<NodeTarget>) -> (truncated_from: Option<usize>)
    ensures
        match truncated_from {
            Some(total) => {
                &&& old(targets)@.len() == total
                &&& total > MAX_NODES
                &&& final(targets)@ == old(targets)@.take(MAX_NODES as int)
            },
            None => old(targets)@.len() <= MAX_NODES && final(targets)@ == old(targets)@,
        },
{
    let total: usize = targets.len();
    if total > MAX_NODES {
        targets.truncate(MAX_NODES);
        Some(total)
    } else {
        None
    }
}

/// A node's own rollup of the shards it hosts.
pub struct QuorumRollup {
    pub leaderless_shards: Vec<u32>,
    pub at_risk_led_shards: Vec<u32>,
    pub all_led_shards_have_quorum: bool,
    pub storage_faulted_shards: Vec<u32>,
    pub unresponsive_shards: Vec<u32>,
    pub status_complete: bool,
}

impl Default for QuorumRollup {
    fn default() -> (rollup: QuorumRollup)
        ensures
            rollup.leaderless_shards@.len() == 0,
            rollup.at_risk_led_shards@.len() == 0,
            !rollup.all_led_shards_have_quorum,
            rollup.storage_faulted_shards@.len() == 0,
            rollup.unresponsive_shards@.len() == 0,
            !rollup.status_complete,
    {
        QuorumRollup {
            leaderless_shards: Vec::new(),
            at_risk_led_shards: Vec::new(),
            all_led_shards_have_quorum: false,
            storage_faulted_shards: Vec::new(),
            unresponsive_shards: Vec::new(),
            status_complete: false,
        }
    }
}

/// One follower's replication progress, as the shard's leader reports it.
pub struct PeerReplication {
    pub peer: String,
    pub match_index: u64,
    pub lag: u64,
    pub in_flight: bool,
}

/// The text and numbers of a [`PeerReplication`].
pub struct PeerInfo {
    pub peer: Seq<char>,
    pub match_index: u64,
    pub lag: u64,
    pub in_flight: bool,
}

impl View for PeerReplication {
    type V = PeerInfo;

    open spec fn view(&self) -> PeerInfo {
        PeerInfo { peer: self.peer@, match_index: self.match_index, lag: self.lag, in_flight: self.in_flight }
    }
}

/// A shard's latency and lag counters.
#[derive(Clone, Copy, Debug, Eq, PartialEq, Structural)]
pub struct ShardLatency {
    pub append_rtt_ms_last: Option<u64>,
    pub quorum_rtt_ms_last: Option<u64>,
    pub follower_lag_max: u64,
    pub leader_transfer_count: u64,
}

/// One shard's Raft status, as one node sees it.
pub struct ShardView {
    pub shard_id: u32,
    pub role: String,
    pub term: u64,
    pub leader_id: Option<String>,
    pub commit_index: u64,
    pub last_applied: u64,
    pub last_log_index: u64,
    pub storage_healthy: bool,
    pub storage_error: Option<String>,
    pub healthy_replicas: usize,
    pub has_quorum: bool,
    pub replication: Vec<PeerReplication>,
    pub metrics: ShardLatency,
}

/// The texts and numbers of a [`ShardView`].
pub struct ShardInfo {
    pub shard_id: u32,
    pub role: Seq<char>,
    pub term: u64,
    pub leader_id: Option<Seq<char>>,
    pub commit_index: u64,
    pub last_applied: u64,
    pub last_log_index: u64,
    pub storage_healthy: bool,
    pub storage_error: Option<Seq<char>>,
    pub healthy_replicas: usize,
    pub has_quorum: bool,
    pub replication: Seq<PeerInfo>,
    pub metrics: ShardLatency,
}

impl View for ShardView {
    type V = ShardInfo;

    open spec fn view(&self) -> ShardInfo {
        ShardInfo {
            shard_id: self.shard_id,
            role: self.role@,
            term: self.term,
            leader_id: self.leader_id.deep_view(),
            commit_index: self.commit_index,
            last_applied: self.last_applied,
            last_log_index: self.last_log_index,
            storage_healthy: self.storage_healthy,
            storage_error: self.storage_error.deep_view(),
            healthy_replicas: self.healthy_replicas,
            has_quorum: self.has_quorum,
            replication: self.replication@.map_values(|peer: PeerReplication| peer@),
            metrics: self.metrics,
        }
    }
}

/// A copy of an optional text.
fn copied(text: &Option<String>) -> (copy: Option<String>)
    ensures
        copy.deep_view() == text.deep_view(),
{
    match text {
        Some(text) => Some(text.clone()),
        None => None,
    }
}

impl ShardView {
    /// Whether the node leads the shard.
    pub open spec fn leads(&self) -> bool {
        self.role@ == "leader"@
    }

    /// A status of its own with the same content.
    pub fn duplicate(&self) -> (copy: ShardView)
        ensures
            copy@ == self@,
    {
        let mut replication: Vec<PeerReplication> = Vec::new();
        let mut i: usize = 0;
        while i < self.replication.len()
            invariant
                i <= self.replication@.len(),
                replication@.len() == i,
                forall|j: int| 0 <= j < i ==> (#[trigger] replication@[j])@ == self.replication@[j]@,
            decreases self.replication@.len() - i,
        {
            let peer = &self.replication[i];
            replication.push(
                PeerReplication {
                    peer: peer.peer.clone(),
                    match_index: peer.match_index,
                    lag: peer.lag,
                    in_flight: peer.in_flight,
                },
            );
            i = i + 1;
        }
        assert(replication@.map_values(|peer: PeerReplication| peer@) =~= self.replication@.map_values(
            |peer: PeerReplication| peer@,
        ));
        ShardView {
            shard_id: self.shard_id,
            role: self.role.clone(),
            term: self.term,
            leader_id: copied(&self.leader_id),
            commit_index: self.commit_index,
            last_applied: self.last_applied,
            last_log_index: self.last_log_index,
            storage_healthy: self.storage_healthy,
            storage_error: copied(&self.storage_error),
            healthy_replicas: self.healthy_replicas,
            has_quorum: self.has_quorum,
            replication,
            metrics: self.metrics,
        }
    }
}

/// What one node reports of its shards.
pub struct NodeShards {
    pub node_id: String,
    pub shard_count: u32,
    pub leader_count: usize,
    pub follower_count: usize,
    pub quorum: QuorumRollup,
    pub shards: Vec<ShardView>,
}

/// One node's outcome in the fan-out: its shards, or why there are none.
pub struct NodeObservation {
    pub node_id: String,
    pub base_url: String,
    pub shards: Option<NodeShards>,
    pub error: Option<String>,
    /// Whether the node was refused before any request was made.
    pub untrusted: bool,
}

/// Whether `observation` is what a target's fetch came to. A target that is not
/// trusted is never asked; one whose fetch is missing failed.
pub open spec fn observes(
    target: NodeTarget,
    outcome: Option<Result<NodeShards, String>>,
    observation: NodeObservation,
) -> bool {
    &&& observation.node_id@ == target.node_id@
    &&& observation.base_url@ == target.base_url@
    &&& observation.untrusted == !target.trusted
    &&& if !target.trusted {
        observation.shards is None && observation.error.deep_view() == Some("untrusted address"@)
    } else {
        match outcome {
            Some(Ok(shards)) => observation.shards == Some(shards) && observation.error is None,
            Some(Err(error)) => observation.shards is None && observation.error == Some(error),
            None => observation.shards is None && observation.error.deep_view() == Some("fetch task failed"@),
        }
    }
}

/// What a target's fetch came to.
pub fn shards_observation(target: &NodeTarget, outcome: Option<Result<NodeShards, String>>) -> (observation:
    NodeObservation)
    ensures
        observes(*target, outcome, observation),
{
    let node_id = target.node_id.clone();
    let base_url = target.base_url.clone();
    if !target.trusted {
        return NodeObservation {
            node_id,
            base_url,
            shards: None,
            error: Some("untrusted address".to_owned()),
            untrusted: true,
        };
    }
    match outcome {
        Some(Ok(shards)) => NodeObservation { node_id, base_url, shards: Some(shards), error: None, untrusted: false },
        Some(Err(error)) => NodeObservation { node_id, base_url, shards: None, error: Some(error), untrusted: false },
        None => NodeObservation {
            node_id,
            base_url,
            shards: None,
            error: Some("fetch task failed".to_owned()),
            untrusted: false,
        },
    }
}

/// The outcomes of a fan-out, one per target and in the targets' order, whatever
/// the order in which the fetches ended. `outcomes` are those of the targets;
/// where one is missing, the fetch failed.
pub fn collect_observations(targets: &[NodeTarget], outcomes: Vec<Option<Result<NodeShards, String>>>) -> (observations:
    Vec<NodeObservation>)
    requires
        outcomes@.len() == targets@.len(),
    ensures
        observations@.len() == targets@.len(),
        forall|i: int|
            0 <= i < targets@.len() ==> observes(targets@[i], outcomes@[i], #[trigger] observations@[i]),
{
    let mut outcomes = outcomes;
    let ghost all = outcomes@;
    let mut reversed: Vec<NodeObservation> = Vec::new();
    let mut i: usize = targets.len();
    while i > 0
        invariant
            i <= targets@.len(),
            all.len() == targets@.len(),
            outcomes@ == all.take(i as int),
            reversed@.len() == targets@.len() - i,
            forall|j: int|
                i <= j < targets@.len() ==> observes(
                    targets@[j],
                    all[j],
                    #[trigger] reversed@[targets@.len() - 1 - j],
                ),
        decreases i,
    {
        i = i - 1;
        let outcome = match outcomes.pop() {
            Some(outcome) => outcome,
            None => None,
        };
        assert(outcomes@ =~= all.take(i as int));
        let ghost before = reversed@;
        reversed.push(shards_observation(&targets[i], outcome));
        assert forall|j: int| i <= j < targets@.len() implies observes(
            targets@[j],
            all[j],
            #[trigger] reversed@[targets@.len() - 1 - j],
        ) by {
            if j > i {
                assert(reversed@[targets@.len() - 1 - j] == before[targets@.len() - 1 - j]);
            }
        }
    }
    let mut observations: Vec<NodeObservation> = Vec::new();
    let ghost back = reversed@;
    while reversed.len() > 0
        invariant
            back.len() == targets@.len(),
            reversed@ == back.take(back.len() - observations@.len()),
            observations@.len() + reversed@.len() == targets@.len(),
            forall|j: int| 0 <= j < observations@.len() ==> #[trigger] observations@[j] == back[back.len() - 1 - j],
        decreases reversed@.len(),
    {
        let ghost n = observations@.len();
        match reversed.pop() {
            Some(observation) => {
                assert(observation == back[back.len() - 1 - n]);
                observations.push(observation);
            },
            None => {},
        }
        assert(reversed@ =~= back.take(back.len() - observations@.len()));
    }
    assert forall|i: int| 0 <= i < targets@.len() implies observes(
        targets@[i],
        all[i],
        #[trigger] observations@[i],
    ) by {
        assert(observations@[i] == back[targets@.len() - 1 - i]);
    }
    observations
}

} // verus!
