//! What the cluster replies say, told from what the nodes reported and by the
//! names of the replies' fields.

use vstd::prelude::*;

use crate::action_laws::law_refusals_say_what_failed;
use crate::cluster_api::{
    all_targets, cluster_follows, measures, metrics_json, metrics_reply_view, observed_targets, overview_follows,
    overview_json, policies_of, shards_reply_view, ClusterData, ClusterPart, ClusterReading, NodeMetrics, Overview,
    OverviewPart, ShardsOutcome,
};
use crate::cluster_insight::{
    base_url_of, brain_target, brain_targets, explicit_target, in_cluster_host, label_of, observes, private_ipv4,
    NodeObservation, NodeShards, NodeTarget, PeerReplication, QuorumRollup, ShardLatency, ShardView,
};
use crate::insight_json::{
    cluster_event_json, integers, latency_json, merged_json, node_shards_json, observation_json, peer_json,
    prometheus_json, quorum_json, rollup_json, shard_fields,
};
use crate::json::{lemma_items_view, text_field, Json, JsonView, NumberView};
use crate::observability::{EventView, PromScrape};
use crate::shard_merge::{
    is_merge, is_reported, is_rollup, lemma_first_report, lists, matches_shard, named_by_nodes, reporting_nodes,
    reports_of, shards_where, ClusterQuorum, MergedShard, Report, RollupList,
};
use crate::request_security::url_parts;
use crate::sync_reply_laws::{has_integer, has_text, refuses_with};
use crate::text::{
    all_digits, digits_value, is_digit, position_of_either, split, trimmed, without_leading, without_trailing,
};
use crate::text_laws::law_positions_are_the_first;

verus! {

/// Whether entry `j` of what node `i` sent is of a shard.
pub open spec fn reports_at(observations: Seq<NodeObservation>, i: int, j: int, shard: u32) -> bool {
    &&& 0 <= i < observations.len()
    &&& observations[i].shards is Some
    &&& 0 <= j < observations[i].shards->0.shards@.len()
    &&& observations[i].shards->0.shards@[j].shard_id == shard
}

/// Whether entry `j` of what node `i` sent says that the node leads the shard.
pub open spec fn leads_at(observations: Seq<NodeObservation>, i: int, j: int, shard: u32) -> bool {
    reports_at(observations, i, j, shard) && observations[i].shards->0.shards@[j].role@ == "leader"@
}

/// Whether an entry is the first of all that are of the shard.
pub open spec fn first_at(observations: Seq<NodeObservation>, i: int, j: int, shard: u32) -> bool {
    &&& reports_at(observations, i, j, shard)
    &&& forall|m: int, n: int|
        #[trigger] reports_at(observations, m, n, shard) ==> i < m || i == m && j <= n
}

/// Whether an entry is the first of all in which a node leads the shard.
pub open spec fn first_leader_at(observations: Seq<NodeObservation>, i: int, j: int, shard: u32) -> bool {
    &&& leads_at(observations, i, j, shard)
    &&& forall|m: int, n: int| #[trigger] leads_at(observations, m, n, shard) ==> i < m || i == m && j <= n
}

/// Whether some node leads the shard.
pub open spec fn has_leader(observations: Seq<NodeObservation>, shard: u32) -> bool {
    exists|i: int, j: int| #[trigger] leads_at(observations, i, j, shard)
}

/// Whether no node leads the shard, and the first node that reported it knows no
/// leader.
pub open spec fn has_no_leader(observations: Seq<NodeObservation>, shard: u32) -> bool {
    &&& !has_leader(observations, shard)
    &&& exists|i: int, j: int|
        #[trigger] first_at(observations, i, j, shard) && observations[i].shards->0.shards@[j].leader_id is None
}

/// Whether no node leads the shard, but the first node that reported it knows
/// its leader.
pub open spec fn has_silent_leader(observations: Seq<NodeObservation>, shard: u32) -> bool {
    &&& !has_leader(observations, shard)
    &&& exists|i: int, j: int|
        #[trigger] first_at(observations, i, j, shard) && observations[i].shards->0.shards@[j].leader_id is Some
}

/// Whether two nodes lead the shard.
pub open spec fn has_two_leaders(observations: Seq<NodeObservation>, shard: u32) -> bool {
    exists|i: int, j: int, m: int, n: int|
        #[trigger] leads_at(observations, i, j, shard) && #[trigger] leads_at(observations, m, n, shard) && i != m
}

/// Whether some node that reports lists the shard as led without a majority.
pub open spec fn is_at_risk(observations: Seq<NodeObservation>, shard: u32) -> bool {
    exists|i: int|
        0 <= i < observations.len() && (#[trigger] observations[i]).shards is Some
            && observations[i].shards->0.quorum.at_risk_led_shards@.contains(shard)
}

/// Whether some node that reports lists the shard as one with faulty storage.
pub open spec fn is_faulted(observations: Seq<NodeObservation>, shard: u32) -> bool {
    exists|i: int|
        0 <= i < observations.len() && (#[trigger] observations[i]).shards is Some
            && observations[i].shards->0.quorum.storage_faulted_shards@.contains(shard)
}

/// Whether some node that reports lists the shard as one that does not answer.
pub open spec fn is_unresponsive(observations: Seq<NodeObservation>, shard: u32) -> bool {
    exists|i: int|
        0 <= i < observations.len() && (#[trigger] observations[i]).shards is Some
            && observations[i].shards->0.quorum.unresponsive_shards@.contains(shard)
}

/// Whether a value is a list of the shards of which `holds` is true, each once and
/// in ascending order.
pub open spec fn lists_exactly(json: Option<JsonView>, holds: spec_fn(u32) -> bool) -> bool {
    &&& json matches Some(JsonView::Array(items))
    &&& forall|k: int|
        0 <= k < items.len() ==> (#[trigger] items[k] matches JsonView::Number(NumberView::Integer(n)) && 0 <= n
            <= u32::MAX && holds(n as u32))
    &&& forall|shard: u32| #[trigger]
        holds(shard) ==> items.contains(JsonView::Number(NumberView::Integer(shard as int)))
    &&& forall|k: int, l: int|
        #![trigger items[k], items[l]]
        0 <= k < l < items.len() ==> (items[k] matches JsonView::Number(NumberView::Integer(a)) && (items[l] matches
            JsonView::Number(NumberView::Integer(b)) && a < b))
}

/// How many places of a sequence are reporting nodes.
pub open spec fn reporting_places(observations: Seq<NodeObservation>) -> Set<int> {
    Set::new(|i: int| 0 <= i < observations.len() && observations[i].shards is Some)
}

/// The place of an entry among all reports.
spec fn place(observations: Seq<NodeObservation>, i: int, j: int) -> int {
    reports_of(observations.take(i)).len() + j
}

/// Whether the report at place `k` is entry `j` of node `i`.
spec fn stands_at(observations: Seq<NodeObservation>, k: int, i: int, j: int) -> bool {
    let reports = reports_of(observations);
    &&& 0 <= k < reports.len()
    &&& 0 <= i < observations.len()
    &&& observations[i].shards is Some
    &&& 0 <= j < observations[i].shards->0.shards@.len()
    &&& k == place(observations, i, j)
    &&& reports[k] == (Report {
        node: i,
        node_id: observations[i].node_id@,
        view: observations[i].shards->0.shards@[j]@,
    })
}

/// Every entry stands among the reports.
proof fn lemma_place(observations: Seq<NodeObservation>, i: int, j: int)
    requires
        0 <= i < observations.len(),
        observations[i].shards is Some,
        0 <= j < observations[i].shards->0.shards@.len(),
    ensures
        stands_at(observations, place(observations, i, j), i, j),
    decreases observations.len(),
{
    let front = observations.drop_last();
    if i == observations.len() - 1 {
        assert(observations.take(i) =~= front);
    } else {
        lemma_place(front, i, j);
        assert(front.take(i) =~= observations.take(i));
    }
}

/// Every report is some entry.
proof fn lemma_entry(observations: Seq<NodeObservation>, k: int) -> (at: (int, int))
    requires
        0 <= k < reports_of(observations).len(),
    ensures
        stands_at(observations, k, at.0, at.1),
    decreases observations.len(),
{
    let front = observations.drop_last();
    let before = reports_of(front).len();
    if k < before {
        let at = lemma_entry(front, k);
        assert(front.take(at.0) =~= observations.take(at.0));
        at
    } else {
        let i = observations.len() - 1;
        assert(observations.take(i) =~= front);
        (i, k - before)
    }
}

/// The entries of a node stand before those of the nodes after it.
proof fn lemma_places_ascend(observations: Seq<NodeObservation>, i: int, m: int)
    requires
        0 <= i < m <= observations.len(),
        observations[i].shards is Some,
    ensures
        reports_of(observations.take(i)).len() + observations[i].shards->0.shards@.len() <= reports_of(
            observations.take(m),
        ).len(),
    decreases m,
{
    assert(observations.take(m).drop_last() =~= observations.take(m - 1));
    if m - 1 > i {
        lemma_places_ascend(observations, i, m - 1);
    }
}

/// What the first report of a shard is, among the entries.
proof fn lemma_first(observations: Seq<NodeObservation>, shard: u32) -> (at: (int, int))
    requires
        is_reported(reports_of(observations), shard),
    ensures
        first_at(observations, at.0, at.1, shard),
        stands_at(
            observations,
            crate::shard_merge::first_report(reports_of(observations), shard, false),
            at.0,
            at.1,
        ),
{
    let reports = reports_of(observations);
    let k = crate::shard_merge::first_report(reports, shard, false);
    lemma_first_report(reports, shard, false);
    let at = lemma_entry(observations, k);
    assert forall|m: int, n: int| #[trigger] reports_at(observations, m, n, shard) implies at.0 < m || at.0 == m && at.1
        <= n by {
        lemma_place(observations, m, n);
        let other = place(observations, m, n);
        assert(matches_shard(reports[other], shard, false));
        if m < at.0 {
            lemma_places_ascend(observations, m, at.0);
        }
    }
    at
}

/// What the first report of a shard's leader is, among the entries.
proof fn lemma_first_leader(observations: Seq<NodeObservation>, shard: u32) -> (at: (int, int))
    requires
        crate::shard_merge::is_led(reports_of(observations), shard),
    ensures
        first_leader_at(observations, at.0, at.1, shard),
        stands_at(
            observations,
            crate::shard_merge::first_report(reports_of(observations), shard, true),
            at.0,
            at.1,
        ),
{
    let reports = reports_of(observations);
    let k = crate::shard_merge::first_report(reports, shard, true);
    lemma_first_report(reports, shard, true);
    let at = lemma_entry(observations, k);
    assert forall|m: int, n: int| #[trigger] leads_at(observations, m, n, shard) implies at.0 < m || at.0 == m && at.1
        <= n by {
        lemma_place(observations, m, n);
        let other = place(observations, m, n);
        assert(matches_shard(reports[other], shard, true));
        if m < at.0 {
            lemma_places_ascend(observations, m, at.0);
        }
    }
    at
}

/// Reports and leaders, told from the entries.
proof fn lemma_told_from_entries(observations: Seq<NodeObservation>, shard: u32)
    ensures
        is_reported(reports_of(observations), shard) <==> exists|i: int, j: int|
            #[trigger] reports_at(observations, i, j, shard),
        crate::shard_merge::is_led(reports_of(observations), shard) <==> has_leader(observations, shard),
        crate::shard_merge::is_dual_led(reports_of(observations), shard) <==> has_two_leaders(observations, shard),
{
    let reports = reports_of(observations);
    lemma_first_report(reports, shard, false);
    lemma_first_report(reports, shard, true);
    if is_reported(reports, shard) {
        let at = lemma_first(observations, shard);
        assert(reports_at(observations, at.0, at.1, shard));
    }
    if exists|i: int, j: int| #[trigger] reports_at(observations, i, j, shard) {
        let (i, j) = choose|i: int, j: int| #[trigger] reports_at(observations, i, j, shard);
        lemma_place(observations, i, j);
        assert(matches_shard(reports[place(observations, i, j)], shard, false));
    }
    if crate::shard_merge::is_led(reports, shard) {
        let at = lemma_first_leader(observations, shard);
        assert(leads_at(observations, at.0, at.1, shard));
    }
    if has_leader(observations, shard) {
        let (i, j) = choose|i: int, j: int| #[trigger] leads_at(observations, i, j, shard);
        lemma_place(observations, i, j);
        assert(matches_shard(reports[place(observations, i, j)], shard, true));
    }
    if crate::shard_merge::is_dual_led(reports, shard) {
        let (k, l) = choose|k: int, l: int|
            0 <= k < reports.len() && 0 <= l < reports.len() && #[trigger] matches_shard(reports[k], shard, true)
                && #[trigger] matches_shard(reports[l], shard, true) && reports[k].node != reports[l].node;
        let a = lemma_entry(observations, k);
        let b = lemma_entry(observations, l);
        assert(leads_at(observations, a.0, a.1, shard) && leads_at(observations, b.0, b.1, shard));
    }
    if has_two_leaders(observations, shard) {
        let (i, j, m, n) = choose|i: int, j: int, m: int, n: int|
            #[trigger] leads_at(observations, i, j, shard) && #[trigger] leads_at(observations, m, n, shard) && i != m;
        lemma_place(observations, i, j);
        lemma_place(observations, m, n);
        assert(matches_shard(reports[place(observations, i, j)], shard, true));
        assert(matches_shard(reports[place(observations, m, n)], shard, true));
    }
}

/// Whether a status says of a shard just what another does, field by field.
pub open spec fn same_status(a: ShardView, b: ShardView) -> bool {
    &&& a.shard_id == b.shard_id
    &&& a.role@ == b.role@
    &&& a.term == b.term
    &&& a.leader_id.deep_view() == b.leader_id.deep_view()
    &&& a.commit_index == b.commit_index
    &&& a.last_applied == b.last_applied
    &&& a.last_log_index == b.last_log_index
    &&& a.storage_healthy == b.storage_healthy
    &&& a.storage_error.deep_view() == b.storage_error.deep_view()
    &&& a.healthy_replicas == b.healthy_replicas
    &&& a.has_quorum == b.has_quorum
    &&& a.replication@.len() == b.replication@.len()
    &&& forall|k: int|
        0 <= k < a.replication@.len() ==> same_peer(#[trigger] a.replication@[k], b.replication@[k])
    &&& a.metrics == b.metrics
}

/// Whether two peers are the same, field by field.
pub open spec fn same_peer(a: PeerReplication, b: PeerReplication) -> bool {
    a.peer@ == b.peer@ && a.match_index == b.match_index && a.lag == b.lag && a.in_flight == b.in_flight
}

/// Equal views are of the same status.
proof fn lemma_same_view(a: ShardView, b: ShardView)
    requires
        a@ == b@,
    ensures
        same_status(a, b),
{
    let left = a.replication@.map_values(|peer: PeerReplication| peer@);
    let right = b.replication@.map_values(|peer: PeerReplication| peer@);
    assert(left == right);
    assert(left.len() == a.replication@.len() && right.len() == b.replication@.len());
    assert forall|k: int| 0 <= k < a.replication@.len() implies same_peer(
        #[trigger] a.replication@[k],
        b.replication@[k],
    ) by {
        assert(left[k] == a.replication@[k]@ && right[k] == b.replication@[k]@);
    }
}

/// The merge has one row for each shard that some node reported, in ascending
/// order. A row says what the first leader of its shard sent, and where no node
/// leads it what the first node sent that reported it; it says whether a node,
/// and whether more than one node, leads the shard.
pub proof fn law_rows_are_what_nodes_sent(rows: Seq<MergedShard>, observations: Seq<NodeObservation>)
    requires
        is_merge(rows, reports_of(observations)),
    ensures
        forall|k: int, l: int|
            0 <= k < l < rows.len() ==> (#[trigger] rows[k]).shard_id < (#[trigger] rows[l]).shard_id,
        forall|i: int, j: int, shard: u32| #[trigger]
            reports_at(observations, i, j, shard) ==> exists|k: int|
                0 <= k < rows.len() && (#[trigger] rows[k]).shard_id == shard,
        forall|k: int|
            0 <= k < rows.len() ==> {
                let shard = (#[trigger] rows[k]).shard_id;
                &&& rows[k].leader_view == has_leader(observations, shard)
                &&& rows[k].dual_leader == has_two_leaders(observations, shard)
                &&& exists|i: int, j: int|
                    {
                        &&& #[trigger] reports_at(observations, i, j, shard)
                        &&& if rows[k].leader_view {
                            first_leader_at(observations, i, j, shard)
                        } else {
                            first_at(observations, i, j, shard)
                        }
                        &&& rows[k].reported_by@ == observations[i].node_id@
                        &&& same_status(rows[k].view, observations[i].shards->0.shards@[j])
                    }
            },
{
    let reports = reports_of(observations);
    assert forall|i: int, j: int, shard: u32| #[trigger] reports_at(observations, i, j, shard) implies exists|k: int|
        0 <= k < rows.len() && (#[trigger] rows[k]).shard_id == shard by {
        lemma_told_from_entries(observations, shard);
        assert(is_reported(reports, shard));
    }
    assert forall|k: int| 0 <= k < rows.len() implies {
        let shard = (#[trigger] rows[k]).shard_id;
        &&& rows[k].leader_view == has_leader(observations, shard)
        &&& rows[k].dual_leader == has_two_leaders(observations, shard)
        &&& exists|i: int, j: int|
            {
                &&& #[trigger] reports_at(observations, i, j, shard)
                &&& if rows[k].leader_view {
                    first_leader_at(observations, i, j, shard)
                } else {
                    first_at(observations, i, j, shard)
                }
                &&& rows[k].reported_by@ == observations[i].node_id@
                &&& same_status(rows[k].view, observations[i].shards->0.shards@[j])
            }
    } by {
        let shard = rows[k].shard_id;
        lemma_told_from_entries(observations, shard);
        let at = if rows[k].leader_view {
            lemma_first_leader(observations, shard)
        } else {
            lemma_first(observations, shard)
        };
        assert(reports_at(observations, at.0, at.1, shard));
        lemma_same_view(rows[k].view, observations[at.0].shards->0.shards@[at.1]);
    }
}

/// What a filter keeps, in order.
proof fn lemma_shards_where(rows: Seq<MergedShard>, keep: spec_fn(MergedShard) -> bool)
    requires
        crate::shard_merge::by_shard(rows),
    ensures
        crate::shard_merge::strictly_ascending(shards_where(rows, keep)),
        forall|shard: u32| #[trigger]
            shards_where(rows, keep).contains(shard) <==> exists|k: int|
                0 <= k < rows.len() && keep(#[trigger] rows[k]) && rows[k].shard_id == shard,
    decreases rows.len(),
{
    reveal(Seq::filter);
    let found = shards_where(rows, keep);
    if rows.len() > 0 {
        let front = rows.drop_last();
        assert forall|i: int, j: int| 0 <= i < j < front.len() implies (#[trigger] front[i]).shard_id < (
        #[trigger] front[j]).shard_id by {
            assert(rows[i].shard_id < rows[j].shard_id);
        }
        lemma_shards_where(front, keep);
        let before = shards_where(front, keep);
        let last = rows.last();
        if keep(last) {
            assert(found =~= before.push(last.shard_id));
        } else {
            assert(found =~= before);
        }
        assert forall|i: int, j: int| 0 <= i < j < found.len() implies #[trigger] found[i] < #[trigger] found[j] by {
            if j < before.len() {
                assert(before[i] < before[j]);
            } else {
                assert(before.contains(before[i]));
                let k = choose|k: int|
                    0 <= k < front.len() && keep(#[trigger] front[k]) && front[k].shard_id == before[i];
                assert(rows[k].shard_id < rows[rows.len() - 1].shard_id);
            }
        }
        assert forall|shard: u32| #[trigger] found.contains(shard) implies exists|k: int|
            0 <= k < rows.len() && keep(#[trigger] rows[k]) && rows[k].shard_id == shard by {
            let i = choose|i: int| 0 <= i < found.len() && found[i] == shard;
            if i < before.len() {
                assert(before[i] == shard);
                assert(before.contains(shard));
                let k = choose|k: int| 0 <= k < front.len() && keep(#[trigger] front[k]) && front[k].shard_id == shard;
                assert(keep(rows[k]));
            } else {
                assert(keep(rows[rows.len() - 1]));
            }
        }
        assert forall|shard: u32|
            (exists|k: int| 0 <= k < rows.len() && keep(#[trigger] rows[k]) && rows[k].shard_id == shard) implies
            #[trigger] found.contains(shard) by {
            let k = choose|k: int| 0 <= k < rows.len() && keep(#[trigger] rows[k]) && rows[k].shard_id == shard;
            if k < front.len() {
                assert(keep(front[k]));
                assert(before.contains(shard));
                let i = choose|i: int| 0 <= i < before.len() && before[i] == shard;
                assert(found[i] == shard);
            } else {
                assert(found[found.len() - 1] == shard);
            }
        }
    } else {
        assert(found.len() == 0);
    }
}

/// A list in ascending order of just the shards of which `holds` is true.
proof fn lemma_lists_exactly(numbers: Seq<u32>, holds: spec_fn(u32) -> bool)
    requires
        crate::shard_merge::strictly_ascending(numbers),
        forall|shard: u32| #[trigger] numbers.contains(shard) <==> holds(shard),
    ensures
        lists_exactly(Some(integers(numbers)), holds),
{
    let items = integers(numbers)->Array_0;
    assert(items.len() == numbers.len());
    assert forall|k: int| 0 <= k < items.len() implies #[trigger] items[k] == JsonView::Number(
        NumberView::Integer(numbers[k] as int),
    ) by {}
    assert forall|k: int| 0 <= k < items.len() implies (#[trigger] items[k] matches JsonView::Number(
        NumberView::Integer(n),
    ) && 0 <= n <= u32::MAX && holds(n as u32)) by {
        assert(numbers.contains(numbers[k]));
        assert(holds(numbers[k]));
    }
    assert forall|shard: u32| #[trigger] holds(shard) implies items.contains(
        JsonView::Number(NumberView::Integer(shard as int)),
    ) by {
        assert(numbers.contains(shard));
        let k = choose|k: int| 0 <= k < numbers.len() && numbers[k] == shard;
        assert(items[k] == JsonView::Number(NumberView::Integer(shard as int)));
    }
    assert forall|k: int, l: int|
        #![trigger items[k], items[l]]
        0 <= k < l < items.len() implies (items[k] matches JsonView::Number(NumberView::Integer(a)) && (items[l] matches
            JsonView::Number(NumberView::Integer(b)) && a < b)) by {
        assert(numbers[k] < numbers[l]);
    }
}

/// What the nodes name in one list of their rollups.
proof fn lemma_named(observations: Seq<NodeObservation>, list: RollupList)
    ensures
        forall|shard: u32| #[trigger]
            named_by_nodes(observations, list).contains(shard) <==> exists|i: int|
                0 <= i < observations.len() && (#[trigger] observations[i]).shards is Some
                    && crate::shard_merge::rollup_list(observations[i].shards->0.quorum, list).contains(shard),
    decreases observations.len(),
{
    if observations.len() > 0 {
        let front = observations.drop_last();
        lemma_named(front, list);
        assert forall|shard: u32| #[trigger] named_by_nodes(observations, list).contains(shard) <==> exists|i: int|
            0 <= i < observations.len() && (#[trigger] observations[i]).shards is Some
                && crate::shard_merge::rollup_list(observations[i].shards->0.quorum, list).contains(shard) by {
            let last = observations.len() - 1;
            if observations[last].shards is Some {
                let named = crate::shard_merge::rollup_list(observations[last].shards->0.quorum, list);
                assert(named.to_set().contains(shard) == named.contains(shard));
            }
            if named_by_nodes(observations, list).contains(shard) {
                if named_by_nodes(front, list).contains(shard) {
                    let i = choose|i: int|
                        0 <= i < front.len() && (#[trigger] front[i]).shards is Some
                            && crate::shard_merge::rollup_list(front[i].shards->0.quorum, list).contains(shard);
                    assert(observations[i] == front[i]);
                } else {
                    assert(observations[last].shards is Some);
                }
            }
            if exists|i: int|
                0 <= i < observations.len() && (#[trigger] observations[i]).shards is Some
                    && crate::shard_merge::rollup_list(observations[i].shards->0.quorum, list).contains(shard) {
                let i = choose|i: int|
                    0 <= i < observations.len() && (#[trigger] observations[i]).shards is Some
                        && crate::shard_merge::rollup_list(observations[i].shards->0.quorum, list).contains(shard);
                if i < last {
                    assert(front[i] == observations[i]);
                    assert(named_by_nodes(front, list).contains(shard));
                } else {
                    assert(crate::shard_merge::named_by_node(observations.last(), list).contains(shard));
                }
                assert(named_by_nodes(observations, list).contains(shard));
            }
        }
    }
}

/// The nodes that report are counted one by one.
proof fn lemma_reporting(observations: Seq<NodeObservation>)
    ensures
        reporting_places(observations).finite(),
        reporting_nodes(observations) == reporting_places(observations).len(),
    decreases observations.len(),
{
    if observations.len() > 0 {
        let front = observations.drop_last();
        let last = observations.len() - 1;
        lemma_reporting(front);
        if observations.last().shards is Some {
            assert(reporting_places(observations) =~= reporting_places(front).insert(last));
        } else {
            assert(reporting_places(observations) =~= reporting_places(front));
        }
    } else {
        assert(reporting_places(observations) =~= Set::<int>::empty());
    }
}

/// Whether an object says of the cluster's quorum what the nodes reported: under
/// each name the shards of its own condition, ascending, and how many nodes
/// reported and did not.
pub open spec fn says_quorum(
    body: JsonView,
    observations: Seq<NodeObservation>,
    truncated_from: Option<usize>,
) -> bool {
    &&& lists_exactly(body.field("leaderless"@), |shard: u32| has_no_leader(observations, shard))
    &&& lists_exactly(body.field("leader_unreached"@), |shard: u32| has_silent_leader(observations, shard))
    &&& lists_exactly(body.field("dual_leader"@), |shard: u32| has_two_leaders(observations, shard))
    &&& lists_exactly(body.field("at_risk"@), |shard: u32| is_at_risk(observations, shard))
    &&& lists_exactly(body.field("storage_faulted"@), |shard: u32| is_faulted(observations, shard))
    &&& lists_exactly(body.field("unresponsive"@), |shard: u32| is_unresponsive(observations, shard))
    &&& has_integer(body, "nodes_reporting"@, reporting_places(observations).len() as int)
    &&& has_integer(body, "nodes_failed"@, observations.len() - reporting_places(observations).len())
    &&& body.field("targets_truncated_from"@) == Some(
        match truncated_from {
            Some(n) => JsonView::Number(NumberView::Integer(n as int)),
            None => JsonView::Null,
        },
    )
}

/// The lists of unled and doubly led shards, told from the nodes.
proof fn lemma_row_lists(quorum: ClusterQuorum, observations: Seq<NodeObservation>, merged: Seq<MergedShard>)
    requires
        is_merge(merged, reports_of(observations)),
        is_rollup(quorum, observations, merged),
    ensures
        lists_exactly(Some(integers(quorum.leaderless@)), |shard: u32| has_no_leader(observations, shard)),
        lists_exactly(Some(integers(quorum.leader_unreached@)), |shard: u32| has_silent_leader(observations, shard)),
        lists_exactly(Some(integers(quorum.dual_leader@)), |shard: u32| has_two_leaders(observations, shard)),
{
    law_rows_are_what_nodes_sent(merged, observations);
    let keep_none = |row: MergedShard| crate::shard_merge::row_leaderless(row);
    let keep_some = |row: MergedShard| crate::shard_merge::row_leader_unreached(row);
    let keep_dual = |row: MergedShard| row.dual_leader;
    lemma_shards_where(merged, keep_none);
    lemma_shards_where(merged, keep_some);
    lemma_shards_where(merged, keep_dual);
    assert forall|shard: u32| #[trigger] quorum.leaderless@.contains(shard) == has_no_leader(observations, shard)
        && #[trigger] quorum.leader_unreached@.contains(shard) == has_silent_leader(observations, shard)
        && #[trigger] quorum.dual_leader@.contains(shard) == has_two_leaders(observations, shard) by {
        lemma_told_from_entries(observations, shard);
        if exists|k: int| 0 <= k < merged.len() && (#[trigger] merged[k]).shard_id == shard {
            let k = choose|k: int| 0 <= k < merged.len() && (#[trigger] merged[k]).shard_id == shard;
            let row = merged[k];
            assert(keep_none(merged[k]) == crate::shard_merge::row_leaderless(row));
            assert(keep_some(merged[k]) == crate::shard_merge::row_leader_unreached(row));
            assert(keep_dual(merged[k]) == row.dual_leader);
            assert forall|l: int| 0 <= l < merged.len() && (#[trigger] merged[l]).shard_id == shard implies l == k by {
                if l < k {
                    assert(merged[l].shard_id < merged[k].shard_id);
                } else if k < l {
                    assert(merged[k].shard_id < merged[l].shard_id);
                }
            }
            let (i, j) = choose|i: int, j: int|
                {
                    &&& #[trigger] reports_at(observations, i, j, shard)
                    &&& if row.leader_view {
                        first_leader_at(observations, i, j, shard)
                    } else {
                        first_at(observations, i, j, shard)
                    }
                    &&& row.reported_by@ == observations[i].node_id@
                    &&& same_status(row.view, observations[i].shards->0.shards@[j])
                };
            if !row.leader_view {
                assert(first_at(observations, i, j, shard));
                assert forall|m: int, n: int| #[trigger] first_at(observations, m, n, shard) implies m == i && n == j by {
                    assert(reports_at(observations, m, n, shard));
                    assert(reports_at(observations, i, j, shard));
                }
            }
        } else {
            if has_no_leader(observations, shard) || has_silent_leader(observations, shard) {
                let (i, j) = choose|i: int, j: int| #[trigger] first_at(observations, i, j, shard);
                assert(reports_at(observations, i, j, shard));
            }
            if has_two_leaders(observations, shard) {
                let (i, j, m, n) = choose|i: int, j: int, m: int, n: int|
                    #[trigger] leads_at(observations, i, j, shard) && #[trigger] leads_at(observations, m, n, shard)
                        && i != m;
                assert(reports_at(observations, i, j, shard));
            }
        }
    }
    lemma_lists_exactly(quorum.leaderless@, |shard: u32| has_no_leader(observations, shard));
    lemma_lists_exactly(quorum.leader_unreached@, |shard: u32| has_silent_leader(observations, shard));
    lemma_lists_exactly(quorum.dual_leader@, |shard: u32| has_two_leaders(observations, shard));
}

/// Under each name of the quorum object stand the shards of that name's own
/// condition, told from what the nodes sent.
pub proof fn law_quorum_lists_are_of_their_conditions(
    quorum: ClusterQuorum,
    observations: Seq<NodeObservation>,
    merged: Seq<MergedShard>,
)
    requires
        is_merge(merged, reports_of(observations)),
        is_rollup(quorum, observations, merged),
    ensures
        says_quorum(quorum_json(quorum), observations, quorum.targets_truncated_from),
{
    lemma_row_lists(quorum, observations, merged);
    lemma_named(observations, RollupList::AtRisk);
    lemma_named(observations, RollupList::StorageFaulted);
    lemma_named(observations, RollupList::Unresponsive);
    lemma_reporting(observations);
    assert forall|shard: u32| #[trigger] quorum.at_risk@.contains(shard) == is_at_risk(observations, shard) by {
        assert(quorum.at_risk@.to_set().contains(shard) == quorum.at_risk@.contains(shard));
        assert(named_by_nodes(observations, RollupList::AtRisk).contains(shard) == is_at_risk(observations, shard));
    }
    assert forall|shard: u32| #[trigger] quorum.storage_faulted@.contains(shard) == is_faulted(observations, shard) by {
        assert(quorum.storage_faulted@.to_set().contains(shard) == quorum.storage_faulted@.contains(shard));
        assert(named_by_nodes(observations, RollupList::StorageFaulted).contains(shard) == is_faulted(
            observations,
            shard,
        ));
    }
    assert forall|shard: u32| #[trigger] quorum.unresponsive@.contains(shard) == is_unresponsive(
        observations,
        shard,
    ) by {
        assert(quorum.unresponsive@.to_set().contains(shard) == quorum.unresponsive@.contains(shard));
        assert(named_by_nodes(observations, RollupList::Unresponsive).contains(shard) == is_unresponsive(
            observations,
            shard,
        ));
    }
    lemma_lists_exactly(quorum.at_risk@, |shard: u32| is_at_risk(observations, shard));
    lemma_lists_exactly(quorum.storage_faulted@, |shard: u32| is_faulted(observations, shard));
    lemma_lists_exactly(quorum.unresponsive@, |shard: u32| is_unresponsive(observations, shard));
    lemma_quorum_fields(quorum);
}

/// The fields of the quorum object.
proof fn lemma_quorum_fields(quorum: ClusterQuorum)
    ensures
        ({
            let body = quorum_json(quorum);
            &&& body.field("leaderless"@) == Some(integers(quorum.leaderless@))
            &&& body.field("leader_unreached"@) == Some(integers(quorum.leader_unreached@))
            &&& body.field("dual_leader"@) == Some(integers(quorum.dual_leader@))
            &&& body.field("at_risk"@) == Some(integers(quorum.at_risk@))
            &&& body.field("storage_faulted"@) == Some(integers(quorum.storage_faulted@))
            &&& body.field("unresponsive"@) == Some(integers(quorum.unresponsive@))
            &&& has_integer(body, "nodes_reporting"@, quorum.nodes_reporting as int)
            &&& has_integer(body, "nodes_failed"@, quorum.nodes_failed as int)
            &&& body.field("targets_truncated_from"@) == Some(
                match quorum.targets_truncated_from {
                    Some(n) => JsonView::Number(NumberView::Integer(n as int)),
                    None => JsonView::Null,
                },
            )
        }),
{
    reveal_strlit("leaderless");
    reveal_strlit("leader_unreached");
    reveal_strlit("dual_leader");
    reveal_strlit("at_risk");
    reveal_strlit("storage_faulted");
    reveal_strlit("unresponsive");
    reveal_strlit("nodes_reporting");
    reveal_strlit("nodes_failed");
    reveal_strlit("targets_truncated_from");
    assert("leaderless"@.len() == 10 && "leader_unreached"@.len() == 16 && "dual_leader"@.len() == 11);
    assert("at_risk"@.len() == 7 && "storage_faulted"@.len() == 15 && "unresponsive"@.len() == 12);
    assert("nodes_reporting"@.len() == 15 && "nodes_failed"@.len() == 12);
    assert("targets_truncated_from"@.len() == 22);
    assert("storage_faulted"@[0] == 's' && "nodes_reporting"@[0] == 'n' && "unresponsive"@[0] == 'u');
    assert("nodes_failed"@[0] == 'n');
}

/// A text, or null where there is none.
pub open spec fn text_or_null(text: Option<String>) -> JsonView {
    match text {
        Some(text) => JsonView::Text(text@),
        None => JsonView::Null,
    }
}

/// A number, or null where there is none.
pub open spec fn number_or_null(n: Option<u64>) -> JsonView {
    match n {
        Some(n) => JsonView::Number(NumberView::Integer(n as int)),
        None => JsonView::Null,
    }
}

/// Whether an object says a peer's replication.
pub open spec fn says_peer(item: JsonView, peer: PeerReplication) -> bool {
    &&& has_text(item, "peer"@, peer.peer@)
    &&& has_integer(item, "match_index"@, peer.match_index as int)
    &&& has_integer(item, "lag"@, peer.lag as int)
    &&& item.field("in_flight"@) == Some(JsonView::Bool(peer.in_flight))
}

/// Whether an object says a shard's latencies.
pub open spec fn says_metrics(item: JsonView, metrics: ShardLatency) -> bool {
    &&& item.field("append_rtt_ms_last"@) == Some(number_or_null(metrics.append_rtt_ms_last))
    &&& item.field("quorum_rtt_ms_last"@) == Some(number_or_null(metrics.quorum_rtt_ms_last))
    &&& has_integer(item, "follower_lag_max"@, metrics.follower_lag_max as int)
    &&& has_integer(item, "leader_transfer_count"@, metrics.leader_transfer_count as int)
}

/// Whether an object says a shard's status, each field under its own name.
pub open spec fn says_status(item: JsonView, shard: ShardView) -> bool {
    &&& has_integer(item, "shard_id"@, shard.shard_id as int)
    &&& has_text(item, "role"@, shard.role@)
    &&& has_integer(item, "term"@, shard.term as int)
    &&& item.field("leader_id"@) == Some(text_or_null(shard.leader_id))
    &&& has_integer(item, "commit_index"@, shard.commit_index as int)
    &&& has_integer(item, "last_applied"@, shard.last_applied as int)
    &&& has_integer(item, "last_log_index"@, shard.last_log_index as int)
    &&& item.field("storage_healthy"@) == Some(JsonView::Bool(shard.storage_healthy))
    &&& item.field("storage_error"@) == Some(text_or_null(shard.storage_error))
    &&& has_integer(item, "healthy_replicas"@, shard.healthy_replicas as int)
    &&& item.field("has_quorum"@) == Some(JsonView::Bool(shard.has_quorum))
    &&& item.field("metrics"@) is Some
    &&& says_metrics(item.field("metrics"@)->0, shard.metrics)
    &&& item.field("replication"@) matches Some(JsonView::Array(peers))
    &&& peers.len() == shard.replication@.len()
    &&& forall|k: int| 0 <= k < peers.len() ==> says_peer(#[trigger] peers[k], shard.replication@[k])
}

/// The fields of a peer.
proof fn lemma_peer_fields(peer: PeerReplication)
    ensures
        says_peer(peer_json(peer@), peer),
{
    reveal_strlit("peer");
    reveal_strlit("match_index");
    reveal_strlit("lag");
    reveal_strlit("in_flight");
    assert("peer"@.len() == 4 && "match_index"@.len() == 11 && "lag"@.len() == 3);
    assert("in_flight"@.len() == 9);
}

/// The fields of a status, whatever stood in the object before.
#[verifier::rlimit(40)]
proof fn lemma_status_fields(map: Map<Seq<char>, JsonView>, shard: ShardView)
    ensures
        says_status(JsonView::Object(shard_fields(map, shard@)), shard),
        forall|key: Seq<char>|
            #![trigger JsonView::Object(shard_fields(map, shard@)).field(key)]
            key == "reported_by"@ || key == "leader_view"@ || key == "dual_leader"@ ==> JsonView::Object(
                shard_fields(map, shard@),
            ).field(key) == JsonView::Object(map).field(key),
{
    reveal_strlit("shard_id");
    reveal_strlit("role");
    reveal_strlit("term");
    reveal_strlit("leader_id");
    reveal_strlit("commit_index");
    reveal_strlit("last_applied");
    reveal_strlit("last_log_index");
    reveal_strlit("storage_healthy");
    reveal_strlit("storage_error");
    reveal_strlit("healthy_replicas");
    reveal_strlit("has_quorum");
    reveal_strlit("replication");
    reveal_strlit("metrics");
    reveal_strlit("reported_by");
    reveal_strlit("leader_view");
    reveal_strlit("dual_leader");
    assert("shard_id"@.len() == 8 && "role"@.len() == 4 && "term"@.len() == 4 && "leader_id"@.len() == 9);
    assert("commit_index"@.len() == 12 && "last_applied"@.len() == 12 && "last_log_index"@.len() == 14);
    assert("storage_healthy"@.len() == 15 && "storage_error"@.len() == 13);
    assert("healthy_replicas"@.len() == 16 && "has_quorum"@.len() == 10 && "replication"@.len() == 11);
    assert("metrics"@.len() == 7 && "reported_by"@.len() == 11 && "leader_view"@.len() == 11);
    assert("dual_leader"@.len() == 11);
    assert("role"@[0] == 'r' && "term"@[0] == 't' && "commit_index"@[0] == 'c');
    assert("last_applied"@[0] == 'l' && "replication"@[4] == 'i' && "reported_by"@[4] == 'r');
    assert("leader_view"@[4] == 'e' && "dual_leader"@[4] == '_');
    let item = JsonView::Object(shard_fields(map, shard@));
    let peers = shard@.replication.map_values(|peer: crate::cluster_insight::PeerInfo| peer_json(peer));
    assert(item.field("replication"@) == Some(JsonView::Array(peers)));
    assert(item.field("metrics"@) == Some(latency_json(shard.metrics)));
    assert forall|k: int| 0 <= k < peers.len() implies says_peer(#[trigger] peers[k], shard.replication@[k]) by {
        assert(shard@.replication[k] == shard.replication@[k]@);
        assert(peers[k] == peer_json(shard.replication@[k]@));
        lemma_peer_fields(shard.replication@[k]);
    }
    lemma_metrics_fields(shard.metrics);
}

/// The fields of the latencies.
proof fn lemma_metrics_fields(metrics: ShardLatency)
    ensures
        says_metrics(latency_json(metrics), metrics),
{
    reveal_strlit("append_rtt_ms_last");
    reveal_strlit("quorum_rtt_ms_last");
    reveal_strlit("follower_lag_max");
    reveal_strlit("leader_transfer_count");
    assert("append_rtt_ms_last"@.len() == 18 && "quorum_rtt_ms_last"@.len() == 18);
    assert("follower_lag_max"@.len() == 16 && "leader_transfer_count"@.len() == 21);
    assert("append_rtt_ms_last"@[0] == 'a' && "quorum_rtt_ms_last"@[0] == 'q');
}

/// The object of a row says every field of the row and of the status it adopted
/// under its own name.
pub proof fn law_shard_rows_are_written_in_full(row: MergedShard)
    requires
        row.view.shard_id == row.shard_id,
    ensures
        says_status(merged_json(row), row.view),
        has_text(merged_json(row), "reported_by"@, row.reported_by@),
        merged_json(row).field("leader_view"@) == Some(JsonView::Bool(row.leader_view)),
        merged_json(row).field("dual_leader"@) == Some(JsonView::Bool(row.dual_leader)),
{
    reveal_strlit("shard_id");
    reveal_strlit("reported_by");
    reveal_strlit("leader_view");
    reveal_strlit("dual_leader");
    assert("shard_id"@.len() == 8 && "reported_by"@.len() == 11 && "leader_view"@.len() == 11);
    assert("dual_leader"@.len() == 11);
    assert("reported_by"@[0] == 'r' && "leader_view"@[0] == 'l' && "dual_leader"@[0] == 'd');
    let map = Map::empty().insert(
        "shard_id"@,
        JsonView::Number(NumberView::Integer(row.shard_id as int)),
    ).insert("reported_by"@, JsonView::Text(row.reported_by@)).insert(
        "leader_view"@,
        JsonView::Bool(row.leader_view),
    ).insert("dual_leader"@, JsonView::Bool(row.dual_leader));
    assert(merged_json(row) == JsonView::Object(shard_fields(map, row.view@)));
    lemma_status_fields(map, row.view);
    assert(JsonView::Object(map).field("reported_by"@) == Some(JsonView::Text(row.reported_by@)));
    assert(JsonView::Object(map).field("leader_view"@) == Some(JsonView::Bool(row.leader_view)));
    assert(JsonView::Object(map).field("dual_leader"@) == Some(JsonView::Bool(row.dual_leader)));
}

/// Whether a value is the list of numbers, in their order.
pub open spec fn is_list_of(json: Option<JsonView>, numbers: Seq<u32>) -> bool {
    &&& json matches Some(JsonView::Array(items))
    &&& items.len() == numbers.len()
    &&& forall|k: int|
        0 <= k < items.len() ==> #[trigger] items[k] == JsonView::Number(NumberView::Integer(numbers[k] as int))
}

/// Whether an object says a node's own rollup.
pub open spec fn says_rollup(item: JsonView, rollup: QuorumRollup) -> bool {
    &&& is_list_of(item.field("leaderless_shards"@), rollup.leaderless_shards@)
    &&& is_list_of(item.field("at_risk_led_shards"@), rollup.at_risk_led_shards@)
    &&& item.field("all_led_shards_have_quorum"@) == Some(JsonView::Bool(rollup.all_led_shards_have_quorum))
    &&& is_list_of(item.field("storage_faulted_shards"@), rollup.storage_faulted_shards@)
    &&& is_list_of(item.field("unresponsive_shards"@), rollup.unresponsive_shards@)
    &&& item.field("status_complete"@) == Some(JsonView::Bool(rollup.status_complete))
}

/// The fields of a node's own rollup.
proof fn lemma_rollup_fields(rollup: QuorumRollup)
    ensures
        says_rollup(rollup_json(rollup), rollup),
{
    reveal_strlit("leaderless_shards");
    reveal_strlit("at_risk_led_shards");
    reveal_strlit("all_led_shards_have_quorum");
    reveal_strlit("storage_faulted_shards");
    reveal_strlit("unresponsive_shards");
    reveal_strlit("status_complete");
    assert("leaderless_shards"@.len() == 17 && "at_risk_led_shards"@.len() == 18);
    assert("all_led_shards_have_quorum"@.len() == 26 && "storage_faulted_shards"@.len() == 22);
    assert("unresponsive_shards"@.len() == 19 && "status_complete"@.len() == 15);
}

/// Whether an object says what a node sent.
pub open spec fn says_node_shards(item: JsonView, shards: NodeShards) -> bool {
    &&& has_text(item, "node_id"@, shards.node_id@)
    &&& has_integer(item, "shard_count"@, shards.shard_count as int)
    &&& has_integer(item, "leader_count"@, shards.leader_count as int)
    &&& has_integer(item, "follower_count"@, shards.follower_count as int)
    &&& item.field("quorum"@) is Some
    &&& says_rollup(item.field("quorum"@)->0, shards.quorum)
    &&& item.field("shards"@) matches Some(JsonView::Array(items))
    &&& items.len() == shards.shards@.len()
    &&& forall|k: int| 0 <= k < items.len() ==> says_status(#[trigger] items[k], shards.shards@[k])
}

/// The fields of what a node sent.
proof fn lemma_node_shards_fields(shards: NodeShards)
    ensures
        says_node_shards(node_shards_json(shards), shards),
{
    reveal_strlit("node_id");
    reveal_strlit("shard_count");
    reveal_strlit("leader_count");
    reveal_strlit("follower_count");
    reveal_strlit("quorum");
    reveal_strlit("shards");
    assert("node_id"@.len() == 7 && "shard_count"@.len() == 11 && "leader_count"@.len() == 12);
    assert("follower_count"@.len() == 14 && "quorum"@.len() == 6 && "shards"@.len() == 6);
    assert("quorum"@[0] == 'q' && "shards"@[0] == 's');
    lemma_rollup_fields(shards.quorum);
    let item = node_shards_json(shards);
    let items = item.field("shards"@)->0->Array_0;
    assert forall|k: int| 0 <= k < items.len() implies says_status(#[trigger] items[k], shards.shards@[k]) by {
        assert(items[k] == JsonView::Object(shard_fields(Map::empty(), shards.shards@[k]@)));
        lemma_status_fields(Map::empty(), shards.shards@[k]);
    }
}

/// The object of an observation names the node and says whether it was refused;
/// what the node sent, or the error, stands there exactly where there is one.
pub proof fn law_observations_are_written_in_full(observation: NodeObservation)
    ensures
        ({
            let item = observation_json(observation);
            &&& has_text(item, "node_id"@, observation.node_id@)
            &&& has_text(item, "base_url"@, observation.base_url@)
            &&& item.field("untrusted"@) == Some(JsonView::Bool(observation.untrusted))
            &&& match observation.error {
                Some(error) => has_text(item, "error"@, error@),
                None => item.field("error"@) is None,
            }
            &&& match observation.shards {
                Some(shards) => item.field("shards"@) is Some && says_node_shards(
                    item.field("shards"@)->0,
                    shards,
                ),
                None => item.field("shards"@) is None,
            }
        }),
{
    reveal_strlit("node_id");
    reveal_strlit("base_url");
    reveal_strlit("shards");
    reveal_strlit("error");
    reveal_strlit("untrusted");
    assert("node_id"@.len() == 7 && "base_url"@.len() == 8 && "shards"@.len() == 6 && "error"@.len() == 5);
    assert("untrusted"@.len() == 9);
    if observation.shards is Some {
        lemma_node_shards_fields(observation.shards->0);
    }
}

/// A node that may not be dialed is reported as refused and with nothing else;
/// any other is reported with what came of asking it, and as not refused.
pub proof fn law_observations_are_of_their_targets(
    target: NodeTarget,
    outcome: ShardsOutcome,
    observation: NodeObservation,
)
    requires
        observes(target, outcome, observation),
    ensures
        observation.node_id@ == target.node_id@,
        observation.base_url@ == target.base_url@,
        observation.untrusted <==> !target.trusted,
        !target.trusted ==> observation.shards is None && observation.error is Some && observation.error->0@
            == "untrusted address"@,
        target.trusted ==> {
            &&& outcome is None ==> observation.shards is None && observation.error is Some && observation.error->0@
                == "fetch task failed"@
            &&& outcome matches Some(Ok(shards)) ==> observation.shards == Some(shards) && observation.error is None
            &&& outcome matches Some(Err(error)) ==> observation.shards is None && observation.error == Some(error)
        },
{
}

/// The replies on the shards and on the whole cluster say, under each name, what
/// it stands for: the quorum by the nodes' own reports, one object per row and per
/// node in order, the parts that other services sent as they are, and the time.
pub proof fn law_cluster_replies_say_what_was_read(
    data: ClusterData,
    config: JsonView,
    policies: JsonView,
    prometheus: PromScrape,
    now_ms: int,
)
    requires
        is_merge(data.merged@, reports_of(data.observations@)),
        is_rollup(data.quorum, data.observations@, data.merged@),
    ensures
        ({
            let reply = shards_reply_view(data, now_ms);
            &&& reply.status == 200
            &&& says_cluster(reply.body, data, now_ms)
        }),
        ({
            let body = overview_json(data, config, policies, prometheus, now_ms);
            &&& says_cluster(body, data, now_ms)
            &&& body.field("cluster"@) == Some(data.status@)
            &&& body.field("config"@) == Some(config)
            &&& body.field("policies"@) == Some(policies)
            &&& body.field("prometheus"@) is Some
            &&& says_prometheus(body.field("prometheus"@)->0, prometheus)
            &&& body.field("nodes"@) matches Some(JsonView::Array(nodes))
            &&& nodes.len() == data.nodes@.len()
            &&& forall|k: int| 0 <= k < nodes.len() ==> #[trigger] nodes[k] == data.nodes@[k]@
        }),
{
    reveal_strlit("cluster");
    reveal_strlit("config");
    reveal_strlit("policies");
    reveal_strlit("nodes");
    reveal_strlit("node_observations");
    reveal_strlit("shards");
    reveal_strlit("quorum");
    reveal_strlit("prometheus");
    reveal_strlit("generated_at_ms");
    assert("cluster"@.len() == 7 && "config"@.len() == 6 && "policies"@.len() == 8 && "nodes"@.len() == 5);
    assert("node_observations"@.len() == 17 && "shards"@.len() == 6 && "quorum"@.len() == 6);
    assert("prometheus"@.len() == 10 && "generated_at_ms"@.len() == 15);
    assert("config"@[0] == 'c' && "shards"@[0] == 's' && "quorum"@[0] == 'q');
    law_quorum_lists_are_of_their_conditions(data.quorum, data.observations@, data.merged@);
    law_prometheus_is_told_apart(prometheus);
    let body = overview_json(data, config, policies, prometheus, now_ms);
    let nodes = body.field("nodes"@)->0->Array_0;
    lemma_items_view(data.nodes@);
    assert forall|k: int| 0 <= k < nodes.len() implies #[trigger] nodes[k] == data.nodes@[k]@ by {}
}

/// Whether an object says the shards, the quorum, the nodes and the time.
pub open spec fn says_cluster(body: JsonView, data: ClusterData, now_ms: int) -> bool {
    &&& has_integer(body, "generated_at_ms"@, now_ms)
    &&& body.field("quorum"@) is Some
    &&& says_quorum(body.field("quorum"@)->0, data.observations@, data.quorum.targets_truncated_from)
    &&& body.field("shards"@) == Some(
        JsonView::Array(data.merged@.map_values(|row: MergedShard| merged_json(row))),
    )
    &&& body.field("node_observations"@) == Some(
        JsonView::Array(data.observations@.map_values(|observation: NodeObservation| observation_json(observation))),
    )
}

/// Whether an object says what came of asking Prometheus.
pub open spec fn says_prometheus(item: JsonView, prometheus: PromScrape) -> bool {
    match prometheus {
        PromScrape::NotConfigured => has_text(item, "state"@, "not_configured"@) && item.field("targets"@) is None
            && item.field("error"@) is None,
        PromScrape::Error { error } => has_text(item, "state"@, "error"@) && has_text(item, "error"@, error@)
            && item.field("targets"@) is None,
        PromScrape::Up { targets } => has_text(item, "state"@, "up"@) && has_integer(
            item,
            "targets"@,
            targets as int,
        ) && item.field("error"@) is None,
    }
}

/// Each outcome of asking Prometheus has a state of its own, a number of targets
/// only where it is up, and an error only where it failed.
pub proof fn law_prometheus_is_told_apart(prometheus: PromScrape)
    ensures
        says_prometheus(prometheus_json(prometheus), prometheus),
{
    reveal_strlit("state");
    reveal_strlit("error");
    reveal_strlit("targets");
    assert("state"@.len() == 5 && "error"@.len() == 5 && "targets"@.len() == 7);
    assert("state"@[0] == 's' && "error"@[0] == 'e');
}

/// The object of an event says its time, kind and message, and each of the other
/// fields exactly where the event has it.
pub proof fn law_events_are_written_in_full(event: EventView)
    ensures
        ({
            let item = cluster_event_json(event);
            &&& has_integer(item, "at_ms"@, event.at_ms as int)
            &&& has_text(item, "kind"@, event.kind)
            &&& has_text(item, "message"@, event.message)
            &&& item.field("shard"@) == (match event.shard {
                Some(shard) => Some(JsonView::Number(NumberView::Integer(shard as int))),
                None => None,
            })
            &&& item.field("node"@) == (match event.node {
                Some(text) => Some(JsonView::Text(text)),
                None => None,
            })
            &&& item.field("from"@) == (match event.from {
                Some(text) => Some(JsonView::Text(text)),
                None => None,
            })
            &&& item.field("to"@) == (match event.to {
                Some(text) => Some(JsonView::Text(text)),
                None => None,
            })
            &&& item.field("reason"@) == (match event.reason {
                Some(text) => Some(JsonView::Text(text)),
                None => None,
            })
        }),
{
    reveal_strlit("at_ms");
    reveal_strlit("kind");
    reveal_strlit("shard");
    reveal_strlit("node");
    reveal_strlit("from");
    reveal_strlit("to");
    reveal_strlit("reason");
    reveal_strlit("message");
    assert("at_ms"@.len() == 5 && "kind"@.len() == 4 && "shard"@.len() == 5 && "node"@.len() == 4);
    assert("from"@.len() == 4 && "to"@.len() == 2 && "reason"@.len() == 6 && "message"@.len() == 7);
    assert("at_ms"@[0] == 'a' && "shard"@[0] == 's' && "kind"@[0] == 'k' && "node"@[0] == 'n');
    assert("from"@[0] == 'f');
}

/// The reply on the events says whether logs are configured, over how many minutes
/// they were read, and every event in order.
pub proof fn law_event_replies_say_what_was_read(configured: bool, since_minutes: int, events: Seq<EventView>)
    ensures
        ({
            let reply = crate::cluster_api::events_reply_view(configured, since_minutes, events);
            &&& reply.status == 200
            &&& reply.body.field("configured"@) == Some(JsonView::Bool(configured))
            &&& has_integer(reply.body, "since_minutes"@, since_minutes)
            &&& reply.body.field("events"@) matches Some(JsonView::Array(items))
            &&& items.len() == events.len()
            &&& forall|k: int| 0 <= k < items.len() ==> #[trigger] items[k] == cluster_event_json(events[k])
        }),
{
    reveal_strlit("configured");
    reveal_strlit("since_minutes");
    reveal_strlit("events");
    assert("configured"@.len() == 10 && "since_minutes"@.len() == 13 && "events"@.len() == 6);
}

/// The metrics of a node that may not be dialed are an error; any other node's
/// are the operations it sent, or the error. The object says just that.
pub proof fn law_node_metrics_say_what_was_sent(
    target: NodeTarget,
    outcome: Option<Result<Json, String>>,
    metrics: NodeMetrics,
)
    requires
        measures(target, outcome, metrics),
    ensures
        ({
            let item = metrics_json(metrics);
            &&& has_text(item, "node_id"@, target.node_id@)
            &&& has_text(item, "base_url"@, target.base_url@)
            &&& !target.trusted ==> has_text(item, "error"@, "untrusted address"@) && item.field("operations"@)
                is None
            &&& target.trusted ==> {
                &&& outcome is None ==> has_text(item, "error"@, "fetch task failed"@) && item.field("operations"@)
                    is None
                &&& outcome matches Some(Err(error)) ==> has_text(item, "error"@, error@) && item.field(
                    "operations"@,
                ) is None
                &&& outcome matches Some(Ok(answer)) ==> item.field("error"@) is None && item.field("operations"@)
                    == Some(
                    match answer@.field("operations"@) {
                        Some(operations) => operations,
                        None => JsonView::Null,
                    },
                )
            }
        }),
{
    reveal_strlit("node_id");
    reveal_strlit("base_url");
    reveal_strlit("operations");
    reveal_strlit("error");
    assert("node_id"@.len() == 7 && "base_url"@.len() == 8 && "operations"@.len() == 10);
    assert("error"@.len() == 5);
}

/// The reply on the metrics has one object per node in order, the range as it came
/// or its error, how many targets there were where some were dropped, and the
/// time.
pub proof fn law_metrics_replies_say_what_was_read(
    nodes: Seq<NodeMetrics>,
    up_range: Option<Result<Vec<Json>, String>>,
    truncated_from: Option<usize>,
    now_ms: int,
)
    ensures
        ({
            let reply = metrics_reply_view(nodes, up_range, truncated_from, now_ms);
            let range = reply.body.field("prometheus_up_range"@);
            &&& reply.status == 200
            &&& has_integer(reply.body, "generated_at_ms"@, now_ms)
            &&& reply.body.field("targets_truncated_from"@) == Some(
                match truncated_from {
                    Some(n) => JsonView::Number(NumberView::Integer(n as int)),
                    None => JsonView::Null,
                },
            )
            &&& match up_range {
                None => range == Some(JsonView::Null),
                Some(Err(error)) => range is Some && has_text(range->0, "error"@, error@),
                Some(Ok(series)) => range matches Some(JsonView::Array(items)) && items.len() == series@.len()
                    && forall|k: int| 0 <= k < items.len() ==> #[trigger] items[k] == series@[k]@,
            }
            &&& reply.body.field("nodes"@) matches Some(JsonView::Array(items))
            &&& items.len() == nodes.len()
            &&& forall|k: int| 0 <= k < items.len() ==> #[trigger] items[k] == metrics_json(nodes[k])
        }),
{
    reveal_strlit("nodes");
    reveal_strlit("prometheus_up_range");
    reveal_strlit("targets_truncated_from");
    reveal_strlit("generated_at_ms");
    reveal_strlit("error");
    assert("nodes"@.len() == 5 && "prometheus_up_range"@.len() == 19);
    assert("targets_truncated_from"@.len() == 22 && "generated_at_ms"@.len() == 15 && "error"@.len() == 5);
    assert("nodes"@[0] == 'n' && "error"@[0] == 'e');
    if let Some(Ok(series)) = up_range {
        lemma_items_view(series@);
    }
}

/// The targets are the configured ones, all trusted and none from the brain, where
/// any are configured; else one for each node that the brain lists with an
/// address, in order. Of more than 512 only the first 512 are asked, and none of
/// fewer is dropped.
pub proof fn law_targets_come_from_one_source(node_urls: Seq<String>, nodes: Seq<JsonView>, k: int)
    ensures
        ({
            let all = all_targets(node_urls, nodes);
            let asked = observed_targets(all);
            &&& node_urls.len() > 0 ==> all.len() == node_urls.len() && (0 <= k < all.len() ==> all[k].trusted)
            &&& node_urls.len() == 0 ==> all.len() <= nodes.len() && (0 <= k < all.len() ==> exists|i: int|
                0 <= i < nodes.len() && brain_target(#[trigger] nodes[i]) == Some(all[k]))
            &&& node_urls.len() == 0 && 0 <= k < nodes.len() && brain_target(nodes[k]) is Some ==> all.contains(
                brain_target(nodes[k])->0,
            )
            &&& asked.len() <= 512
            &&& asked.is_prefix_of(all)
            &&& all.len() <= 512 ==> asked == all
            &&& all.len() > 512 ==> asked.len() == 512
        }),
{
    if node_urls.len() == 0 {
        lemma_brain_targets(nodes, k);
    }
}

/// What the brain's list gives.
proof fn lemma_brain_targets(nodes: Seq<JsonView>, k: int)
    ensures
        brain_targets(nodes).len() <= nodes.len(),
        0 <= k < brain_targets(nodes).len() ==> exists|i: int|
            0 <= i < nodes.len() && brain_target(#[trigger] nodes[i]) == Some(brain_targets(nodes)[k]),
        0 <= k < nodes.len() && brain_target(nodes[k]) is Some ==> brain_targets(nodes).contains(
            brain_target(nodes[k])->0,
        ),
    decreases nodes.len(),
{
    if nodes.len() > 0 {
        let front = nodes.drop_last();
        let all = brain_targets(nodes);
        let before = brain_targets(front);
        lemma_brain_targets(front, k);
        if 0 <= k < all.len() {
            if k < before.len() {
                assert(all[k] == before[k]);
                let i = choose|i: int| 0 <= i < front.len() && brain_target(#[trigger] front[i]) == Some(before[k]);
                assert(nodes[i] == front[i]);
            } else {
                assert(brain_target(nodes[nodes.len() - 1]) == Some(all[k]));
            }
        }
        if 0 <= k < nodes.len() && brain_target(nodes[k]) is Some {
            let target = brain_target(nodes[k])->0;
            if k < front.len() {
                assert(front[k] == nodes[k]);
                let i = choose|i: int| 0 <= i < before.len() && before[i] == target;
                assert(all[i] == target);
            } else {
                assert(all[all.len() - 1] == target);
            }
        }
    }
}

/// A node's address becomes a base with a scheme, http where it has none, without
/// blanks around it or slashes behind.
pub proof fn law_bases_have_a_scheme(address: Seq<char>)
    ensures
        ({
            let bare = without_trailing(trimmed(address), '/');
            let has_scheme = "http://"@.is_prefix_of(bare) || "https://"@.is_prefix_of(bare);
            &&& has_scheme ==> base_url_of(address) == bare
            &&& !has_scheme ==> base_url_of(address) == "http://"@ + bare
        }),
{
}

/// A configured node is trusted and is asked at its base; it is named by the host
/// of that base up to the first dot.
pub proof fn law_configured_nodes_are_trusted(url: Seq<char>)
    ensures
        explicit_target(url).trusted,
        explicit_target(url).base_url == base_url_of(url),
        explicit_target(url).node_id == label_of(base_url_of(url)),
        !label_of(base_url_of(url)).contains('.'),
        !label_of(base_url_of(url)).contains('/'),
        !label_of(base_url_of(url)).contains(':'),
{
    let base = base_url_of(url);
    let rest = without_leading(without_leading(base, "http://"@), "https://"@);
    let host = rest.take(position_of_either(rest, ':', '/'));
    law_positions_are_the_first(rest, ':', '/');
    law_positions_are_the_first(host, '.', '.');
    let label = label_of(base);
    assert forall|i: int| 0 <= i < label.len() implies label[i] != '.' && label[i] != '/' && label[i] != ':' by {
        assert(label[i] == host[i] && host[i] == rest[i]);
    }
}

/// A node that the brain lists is taken where it has an address, under its own id
/// or else its address, and trusted exactly where that is inside the cluster.
pub proof fn law_listed_nodes_are_taken_by_address(node: JsonView)
    ensures
        brain_target(node) is Some <==> text_field(node, "address"@) is Some && trimmed(
            text_field(node, "address"@)->0,
        ).len() > 0,
        brain_target(node) matches Some(target) ==> {
            let address = trimmed(text_field(node, "address"@)->0);
            &&& target.base_url == base_url_of(address)
            &&& text_field(node, "node_id"@) matches Some(id) ==> target.node_id == id
            &&& text_field(node, "node_id"@) is None ==> target.node_id == address
            &&& target.trusted <==> (url_parts(target.base_url) matches Some(url) && (url.host matches Some(host)
                && in_cluster_host(host)))
        },
{
}

/// A host is inside the cluster where it is the loopback, a private address, a
/// bare name, or a name of the cluster's own domains, and nowhere else.
pub proof fn law_cluster_hosts_are_local(host: Seq<char>)
    ensures
        in_cluster_host(host) <==> host == "[::1]"@ || private_ipv4(host) || (host.len() > 0 && !host.contains('.')
            && !host.contains(':')) || ".svc"@.is_suffix_of(host) || ".cluster.local"@.is_suffix_of(host),
        private_ipv4(host) ==> {
            let parts = split(host, '.');
            &&& parts.len() == 4
            &&& forall|i: int| 0 <= i < 4 ==> all_digits(#[trigger] parts[i])
            &&& digits_value(parts[0]) == 127 || digits_value(parts[0]) == 10 || (digits_value(parts[0]) == 192
                && digits_value(parts[1]) == 168) || (digits_value(parts[0]) == 172 && 16 <= digits_value(parts[1])
                <= 31)
        },
{
    if private_ipv4(host) {
        let parts = split(host, '.');
        reveal_strlit("127");
        reveal_strlit("10");
        reveal_strlit("192");
        reveal_strlit("168");
        reveal_strlit("172");
        assert("127"@.len() == 3 && "10"@.len() == 2 && "192"@.len() == 3 && "168"@.len() == 3);
        assert("172"@.len() == 3);
        assert("127"@[1] == '2' && "192"@[1] == '9' && "168"@[1] == '6' && "172"@[1] == '7');
        reveal_with_fuel(digits_value, 4);
        assert forall|i: int| 0 <= i < 4 implies all_digits(#[trigger] parts[i]) by {}
        if parts[0] == "127"@ {
            lemma_three_digits(parts[0]);
        } else if parts[0] == "10"@ {
            lemma_two_digits(parts[0]);
        } else if parts[0] == "192"@ {
            lemma_three_digits(parts[0]);
            lemma_three_digits(parts[1]);
        } else {
            lemma_three_digits(parts[0]);
            lemma_two_digits(parts[1]);
        }
    }
}

/// The value of two digits.
proof fn lemma_two_digits(s: Seq<char>)
    requires
        s.len() == 2,
        all_digits(s),
    ensures
        digits_value(s) == 10 * (s[0] as int - 48) + (s[1] as int - 48),
{
    reveal_with_fuel(digits_value, 3);
    assert(s.drop_last().len() == 1 && s.drop_last().last() == s[0]);
    assert(s.drop_last().drop_last().len() == 0);
    assert('0' <= s[0] <= '9' && '0' <= s[1] <= '9');
}

/// The value of three digits.
proof fn lemma_three_digits(s: Seq<char>)
    requires
        s.len() == 3,
        all_digits(s),
    ensures
        digits_value(s) == 100 * (s[0] as int - 48) + 10 * (s[1] as int - 48) + (s[2] as int - 48),
{
    let front = s.drop_last();
    assert forall|i: int| 0 <= i < front.len() implies is_digit(#[trigger] front[i]) by {
        assert(front[i] == s[i]);
    }
    lemma_two_digits(front);
    assert(is_digit(s[2]));
}

/// Whether a reading of the cluster failed with that code, for the brain.
pub open spec fn cluster_failed_with(reading: ClusterReading, code: Seq<char>) -> bool {
    reading matches ClusterReading::Failed(reply) && refuses_with(reply@, 502, code) && has_text(
        reply.body@,
        "dependency"@,
        "fiducia-brain"@,
    )
}

/// The cluster is read part by part: the brain's status, its nodes, and then every
/// target with what came of asking it, in the targets' order. What is missing ends
/// the reading with its own code, and what was read is kept.
pub proof fn law_clusters_are_read_part_by_part(
    node_urls: Seq<String>,
    reading: ClusterReading,
    part: ClusterPart,
    next: ClusterReading,
)
    requires
        cluster_follows(node_urls, reading, part, next),
    ensures
        reading is Status ==> {
            &&& part matches ClusterPart::Status(Some(status)) ==> next == (ClusterReading::Nodes { status })
            &&& !(part matches ClusterPart::Status(Some(_))) ==> cluster_failed_with(next, "brain_status_failed"@)
        },
        reading matches ClusterReading::Nodes { status } ==> {
            &&& part matches ClusterPart::Nodes(Some(nodes)) ==> {
                &&& next matches ClusterReading::Observing { status: kept, nodes: found, targets, truncated_from }
                &&& kept == status
                &&& found == nodes
                &&& targets@.len() <= 512
                &&& node_urls.len() > 0 && node_urls.len() <= 512 ==> targets@.len() == node_urls.len()
                    && truncated_from is None
                &&& node_urls.len() > 512 ==> truncated_from is Some && truncated_from->0 == node_urls.len()
            }
            &&& !(part matches ClusterPart::Nodes(Some(_))) ==> cluster_failed_with(next, "brain_nodes_failed"@)
        },
        reading matches ClusterReading::Observing { status, nodes, targets, truncated_from } ==> {
            &&& next matches ClusterReading::Ready(data)
            &&& data.status == status
            &&& data.nodes == nodes
            &&& data.quorum.targets_truncated_from == truncated_from
            &&& data.observations@.len() == targets@.len()
            &&& forall|i: int|
                0 <= i < targets@.len() ==> (#[trigger] data.observations@[i]).node_id@ == targets@[i].node_id@
                    && data.observations@[i].untrusted == !targets@[i].trusted
            &&& part matches ClusterPart::Observed(outcomes) ==> forall|i: int|
                0 <= i < targets@.len() && i < outcomes@.len() && targets@[i].trusted ==> (outcomes@[i] matches Some(
                    Ok(shards),
                ) ==> (#[trigger] data.observations@[i]).shards == Some(shards))
            &&& is_merge(data.merged@, reports_of(data.observations@))
            &&& is_rollup(data.quorum, data.observations@, data.merged@)
        },
        reading is Ready || reading is Failed ==> next == reading,
{
    law_refusals_say_what_failed("brain_status_failed"@, "fiducia-brain"@, 502);
    law_refusals_say_what_failed("brain_nodes_failed"@, "fiducia-brain"@, 502);
    if let ClusterReading::Nodes { status } = reading {
        if let ClusterReading::Observing { status: kept, nodes, targets, truncated_from } = next {
            assert(crate::cluster_insight::target_views(targets@).len() == targets@.len());
        }
    }
    if let ClusterReading::Observing { status, nodes, targets, truncated_from } = reading {
        if let ClusterReading::Ready(data) = next {
            assert forall|i: int| 0 <= i < targets@.len() implies (#[trigger] data.observations@[i]).node_id@
                == targets@[i].node_id@ && data.observations@[i].untrusted == !targets@[i].trusted by {
                let _ = data.observations@[i];
            }
        }
    }
}

/// Whether an overview is answered with that code, for the brain.
pub open spec fn overview_failed_with(overview: Overview, code: Seq<char>) -> bool {
    overview matches Overview::Answered(reply) && refuses_with(reply@, 502, code) && has_text(
        reply.body@,
        "dependency"@,
        "fiducia-brain"@,
    )
}

/// An overview is the cluster, then the configuration, the policies and what
/// Prometheus says, each as it was sent; the brain's missing part ends it with its
/// own code.
pub proof fn law_overviews_are_put_together(
    node_urls: Seq<String>,
    overview: Overview,
    part: OverviewPart,
    next: Overview,
)
    requires
        overview_follows(node_urls, overview, part, next),
    ensures
        overview matches Overview::Config(data) ==> {
            &&& part matches OverviewPart::Config(Some(config)) ==> next == (Overview::Policies { data, config })
            &&& !(part matches OverviewPart::Config(Some(_))) ==> overview_failed_with(next, "brain_config_failed"@)
        },
        overview matches Overview::Policies { data, config } ==> {
            &&& part matches OverviewPart::Policies(Some(answer)) ==> {
                &&& next matches Overview::Prometheus { data: kept, config: known, policies }
                &&& kept == data
                &&& known == config
                &&& policies@ == (match answer@.field("policies"@) {
                    Some(found) => found,
                    None => JsonView::Null,
                })
            }
            &&& !(part matches OverviewPart::Policies(Some(_))) ==> overview_failed_with(
                next,
                "brain_policies_failed"@,
            )
        },
        overview matches Overview::Prometheus { data, config, policies } ==> (part matches OverviewPart::Prometheus(
            prometheus,
            now_ms,
        ) ==> (next matches Overview::Answered(reply) && reply.status == 200 && reply.body@ == overview_json(
            data,
            config@,
            policies@,
            prometheus,
            now_ms as int,
        ))),
        overview matches Overview::Cluster(reading) ==> (part matches OverviewPart::Cluster(piece) ==> {
            &&& reading is Status && !(piece matches ClusterPart::Status(Some(_))) ==> overview_failed_with(
                next,
                "brain_status_failed"@,
            )
            &&& reading is Status ==> (piece matches ClusterPart::Status(Some(status)) ==> next == Overview::Cluster(
                ClusterReading::Nodes { status },
            ))
            &&& reading is Observing ==> (next matches Overview::Config(data) && is_merge(
                data.merged@,
                reports_of(data.observations@),
            ) && is_rollup(data.quorum, data.observations@, data.merged@))
        }),
        overview is Answered ==> next == overview,
{
    law_refusals_say_what_failed("brain_status_failed"@, "fiducia-brain"@, 502);
    law_refusals_say_what_failed("brain_config_failed"@, "fiducia-brain"@, 502);
    law_refusals_say_what_failed("brain_policies_failed"@, "fiducia-brain"@, 502);
    if let Overview::Cluster(reading) = overview {
        if let OverviewPart::Cluster(piece) = part {
            let further = choose|further: ClusterReading|
                #[trigger] cluster_follows(node_urls, reading, piece, further) && crate::cluster_api::overview_stage(
                    further,
                    next,
                );
            law_clusters_are_read_part_by_part(node_urls, reading, piece, further);
        }
    }
}

/// The policies of an answer are what stands there under that name.
pub proof fn law_policies_are_those_sent(answer: JsonView)
    ensures
        answer.field("policies"@) is Some ==> Some(policies_of(answer)) == answer.field("policies"@),
        answer.field("policies"@) is None ==> policies_of(answer) == JsonView::Null,
{
}

} // verus!
