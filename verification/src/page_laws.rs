//! What the pages show: each badge and cell told from the values it stands for.

use vstd::prelude::*;

use crate::audit::AdminAuditEvent;
use crate::calendar::{
    age_text, day_number, days_to_month, days_to_year, is_date, is_timestamp, padded, signed_padded, timestamp_text,
    zeros_before,
};
use crate::cluster_insight::NodeObservation;
use crate::cluster_views::{
    at_path, event_detail, first_observation, gap_badge, health_badges, health_class, kind_class, observe_badge,
    path_holds, path_number, path_text, quorum_badge, shows_cluster_event, shows_events, shows_node,
    shows_prometheus, shows_shard, shows_status, storage_badge, EventRow, EventsBody, EventsPanel, EventsView,
    NodeRow, PromCard, ShardRow, StatusPanel,
};
use crate::json::{signed_field, text_field, JsonView, NumberView};
use crate::observability::{explore_panes, explore_url, EventView, PromScrape};
use crate::session::Session;
use crate::shard_merge::{ClusterQuorum, MergedShard};
use crate::text::{all_digits, decimal, digits_value, is_digit, signed_decimal};
use crate::text_laws::law_numbers_read_back;
use crate::views::{
    badge_views, dash, frames, identity_label, or_dash, shows_event, shows_notice, shows_operation, AuditRow, Badge,
    BadgeView, Notice, NoticeRow, OperationRow, PageFrame,
};

verus! {

/// Whether a badge has that look and text and no title.
pub open spec fn badge_is(badge: BadgeView, class: Seq<char>, text: Seq<char>) -> bool {
    badge.class == class && badge.text == text && badge.title is None
}

/// A missing text reads as a dash and any other as it is.
pub proof fn law_missing_texts_are_dashes(text: Seq<char>)
    ensures
        or_dash(Some(text)) == text,
        or_dash(None) == "—"@,
        dash() == "—"@,
{
}

/// A badge of a gap names the number and what is missing, and is good exactly
/// where nothing is.
pub proof fn law_gap_badges_are_good_at_zero(label: Seq<char>, count: int)
    requires
        count >= 0,
    ensures
        gap_badge(label, count).text == decimal(count as nat) + " "@ + label,
        gap_badge(label, count).title is None,
        gap_badge(label, count).class == "tag tag--ok"@ <==> count == 0,
        gap_badge(label, count).class == "tag tag--bad"@ <==> count > 0,
{
    reveal_strlit("tag tag--ok");
    reveal_strlit("tag tag--bad");
    assert("tag tag--ok"@.len() == 11 && "tag tag--bad"@.len() == 12);
}

/// A node's health is good where it is healthy, a warning where it is suspect or
/// draining, bad where it is dead, and plain otherwise.
pub proof fn law_health_looks_as_it_is(health: Seq<char>)
    ensures
        health_class(health) == "tag tag--ok"@ <==> health == "healthy"@,
        health_class(health) == "tag tag--warn"@ <==> health == "suspect"@ || health == "draining"@,
        health_class(health) == "tag tag--bad"@ <==> health == "dead"@,
        health_class(health) == "tag"@ <==> health != "healthy"@ && health != "suspect"@ && health != "draining"@
            && health != "dead"@,
{
    reveal_strlit("tag");
    reveal_strlit("tag tag--ok");
    reveal_strlit("tag tag--warn");
    reveal_strlit("tag tag--bad");
    reveal_strlit("healthy");
    reveal_strlit("suspect");
    reveal_strlit("draining");
    reveal_strlit("dead");
    assert("tag"@.len() == 3 && "tag tag--ok"@.len() == 11 && "tag tag--warn"@.len() == 13);
    assert("tag tag--bad"@.len() == 12 && "healthy"@.len() == 7 && "suspect"@.len() == 7);
    assert("draining"@.len() == 8 && "dead"@.len() == 4);
    assert("healthy"@[0] == 'h' && "suspect"@[0] == 's');
}

/// An event's kind is bad where a node died or a leader stepped down, good where
/// an election was won or a node came, and a warning otherwise.
pub proof fn law_kinds_look_as_they_are(kind: Seq<char>)
    ensures
        kind_class(kind) == "tag tag--bad"@ <==> kind == "node_dead"@ || kind == "check_quorum_step_down"@ || kind
            == "step_down"@,
        kind_class(kind) == "tag tag--ok"@ <==> kind == "election_won"@ || kind == "node_registered"@,
        kind_class(kind) == "tag tag--warn"@ || kind_class(kind) == "tag tag--bad"@ || kind_class(kind) == "tag tag--ok"@,
{
    reveal_strlit("tag");
    reveal_strlit("tag tag--ok");
    reveal_strlit("tag tag--warn");
    reveal_strlit("tag tag--bad");
    reveal_strlit("node_dead");
    reveal_strlit("check_quorum_step_down");
    reveal_strlit("step_down");
    reveal_strlit("election_won");
    reveal_strlit("node_registered");
    assert("tag"@.len() == 3 && "tag tag--ok"@.len() == 11 && "tag tag--warn"@.len() == 13);
    assert("tag tag--bad"@.len() == 12 && "node_dead"@.len() == 9 && "check_quorum_step_down"@.len() == 22);
    assert("step_down"@.len() == 9 && "election_won"@.len() == 12 && "node_registered"@.len() == 15);
    assert("tag tag--bad"@[0] == 't' && "election_won"@[0] == 'e' && "node_dead"@[0] == 'n');
    assert("step_down"@[0] == 's');
}

/// The quorum of a shard is good exactly where its leader reports one, at risk
/// where its leader reports none, and without a leader's report it is a warning
/// where a leader is known and bad where none is.
pub proof fn law_quorum_badges_are_of_the_leader(shard: MergedShard)
    ensures
        shard.leader_view && shard.view.has_quorum ==> badge_is(
            quorum_badge(shard),
            "tag tag--ok"@,
            "quorum"@ + " ("@ + decimal(shard.view.healthy_replicas as nat) + ")"@,
        ),
        shard.leader_view && !shard.view.has_quorum ==> badge_is(
            quorum_badge(shard),
            "tag tag--bad"@,
            "at risk"@ + " ("@ + decimal(shard.view.healthy_replicas as nat) + ")"@,
        ),
        !shard.leader_view && shard.view.leader_id is Some ==> badge_is(
            quorum_badge(shard),
            "tag tag--warn"@,
            "no leader report"@,
        ),
        !shard.leader_view && shard.view.leader_id is None ==> badge_is(
            quorum_badge(shard),
            "tag tag--bad"@,
            "leaderless"@,
        ),
        shard.view.storage_healthy ==> badge_is(storage_badge(shard), "tag tag--ok"@, "ok"@),
        !shard.view.storage_healthy ==> storage_badge(shard).class == "tag tag--bad"@ && storage_badge(shard).text
            == "fault"@ && storage_badge(shard).title == shard.view.storage_error.deep_view(),
{
}

/// A shard's row says the shard's own values, each in its cell.
pub proof fn law_shard_rows_say_their_shard(row: ShardRow, shard: MergedShard)
    requires
        shows_shard(row, shard),
    ensures
        row.shard_id == shard.shard_id,
        row.role@ == shard.view.role@,
        row.dual_leader == shard.dual_leader,
        shard.view.leader_id matches Some(leader) ==> row.leader@ == leader@,
        shard.view.leader_id is None ==> row.leader@ == "—"@,
        row.term == shard.view.term,
        row.progress@ == decimal(shard.view.commit_index as nat) + " / "@ + decimal(shard.view.last_applied as nat),
        row.lag == shard.view.metrics.follower_lag_max,
        row.reported_by@ == shard.reported_by@,
        row.quorum.class@ == quorum_badge(shard).class,
        row.quorum.text@ == quorum_badge(shard).text,
        row.storage.class@ == storage_badge(shard).class,
        row.storage.text@ == storage_badge(shard).text,
        row.storage.title.deep_view() == storage_badge(shard).title,
{
}

/// Whether a badge counts gaps of a kind: their number and label, good at none.
pub open spec fn counts_gaps(badge: Badge, count: int, label: Seq<char>) -> bool {
    &&& badge.text@ == decimal(count as nat) + " "@ + label
    &&& badge.class@ == "tag tag--ok"@ <==> count == 0
    &&& badge.class@ == "tag tag--bad"@ <==> count != 0
    &&& badge.title is None
}

/// Whether a text is what an object holds under one or two names, a dash where it
/// holds no text there.
pub open spec fn text_at(text: Seq<char>, json: Option<JsonView>) -> bool {
    match json {
        Some(JsonView::Text(found)) => text == found,
        _ => text == "—"@,
    }
}

/// Whether a number is what an object holds, zero where it holds no whole number
/// from zero up there.
pub open spec fn number_at(n: int, json: Option<JsonView>) -> bool {
    match json {
        Some(JsonView::Number(NumberView::Integer(found))) => if 0 <= found <= u64::MAX {
            n == found
        } else {
            n == 0
        },
        _ => n == 0,
    }
}

/// What an object holds under two names, one inside the other.
pub open spec fn inner(json: JsonView, outer: Seq<char>, name: Seq<char>) -> Option<JsonView> {
    match json.field(outer) {
        Some(found) => found.field(name),
        None => None,
    }
}

/// Paths of one name and of two.
proof fn lemma_paths(json: JsonView, a: Seq<char>, b: Seq<char>)
    ensures
        at_path(json, seq![a]) == json.field(a),
        at_path(json, seq![a, b]) == inner(json, a, b),
        text_at(path_text(json, seq![a]), json.field(a)),
        text_at(path_text(json, seq![a, b]), inner(json, a, b)),
        number_at(path_number(json, seq![a]), json.field(a)),
        number_at(path_number(json, seq![a, b]), inner(json, a, b)),
        path_holds(json, seq![a, b]) <==> inner(json, a, b) == Some(JsonView::Bool(true)),
        path_number(json, seq![a]) >= 0,
        path_number(json, seq![a, b]) >= 0,
{
    reveal_with_fuel(at_path, 3);
    assert(seq![a].skip(1) =~= Seq::<Seq<char>>::empty());
    assert(seq![a, b].skip(1) =~= seq![b]);
    assert(seq![b].skip(1) =~= Seq::<Seq<char>>::empty());
}

/// What the panel says of the cluster stands in the brain's status under its own
/// name.
pub proof fn law_status_panels_say_the_status(
    panel: StatusPanel,
    status: JsonView,
    shards: Seq<MergedShard>,
    quorum: ClusterQuorum,
    prometheus: PromScrape,
    grafana: Option<Seq<char>>,
)
    requires
        shows_status(panel, status, shards, quorum, prometheus, grafana),
    ensures
        text_at(panel.cluster_id@, status.field("cluster_id"@)),
        text_at(panel.version@, status.field("version"@)),
        number_at(panel.shard_count as int, status.field("shard_count"@)),
        number_at(panel.replication_factor as int, status.field("replication_factor"@)),
        number_at(panel.placement_generation as int, inner(status, "brain_cluster"@, "placement_generation"@)),
        inner(status, "brain_cluster"@, "is_leader"@) == Some(JsonView::Bool(true)) ==> panel.brain_leader@
            == "this brain"@,
        inner(status, "brain_cluster"@, "is_leader"@) != Some(JsonView::Bool(true)) ==> text_at(
            panel.brain_leader@,
            inner(status, "brain_cluster"@, "leader"@),
        ),
        inner(status, "brain_cluster"@, "ha_configured"@) == Some(JsonView::Bool(true)) ==> panel.high_availability.class@
            == "tag tag--ok"@ && panel.high_availability.text@ == "HA"@,
        inner(status, "brain_cluster"@, "ha_configured"@) != Some(JsonView::Bool(true)) ==> panel.high_availability.class@
            == "tag tag--warn"@ && panel.high_availability.text@ == "no HA"@,
        inner(status, "brain_cluster"@, "available"@) == Some(JsonView::Bool(true)) ==> panel.availability.class@
            == "tag tag--ok"@ && panel.availability.text@ == "available"@,
        inner(status, "brain_cluster"@, "available"@) != Some(JsonView::Bool(true)) ==> panel.availability.class@
            == "tag tag--bad"@ && panel.availability.text@ == "unavailable"@,
        panel.shards@.len() == shards.len(),
        forall|i: int| 0 <= i < shards.len() ==> shows_shard(#[trigger] panel.shards@[i], shards[i]),
        shows_prometheus(panel.prometheus, prometheus, grafana),
{
    lemma_paths(status, "cluster_id"@, ""@);
    lemma_paths(status, "version"@, ""@);
    lemma_paths(status, "shard_count"@, ""@);
    lemma_paths(status, "replication_factor"@, ""@);
    lemma_paths(status, "brain_cluster"@, "placement_generation"@);
    lemma_paths(status, "brain_cluster"@, "is_leader"@);
    lemma_paths(status, "brain_cluster"@, "leader"@);
    lemma_paths(status, "brain_cluster"@, "ha_configured"@);
    lemma_paths(status, "brain_cluster"@, "available"@);
}

/// The gaps on the panel are those of the quorum, each list under its own label,
/// and those that the brain counts, each under its own.
pub proof fn law_panels_count_every_gap(
    panel: StatusPanel,
    status: JsonView,
    shards: Seq<MergedShard>,
    quorum: ClusterQuorum,
    prometheus: PromScrape,
    grafana: Option<Seq<char>>,
)
    requires
        shows_status(panel, status, shards, quorum, prometheus, grafana),
    ensures
        ({
            let gaps = panel.quorum_gaps@;
            &&& gaps.len() == 6
            &&& counts_gaps(gaps[0], quorum.leaderless@.len() as int, "leaderless"@)
            &&& counts_gaps(gaps[1], quorum.leader_unreached@.len() as int, "leader-unreached"@)
            &&& counts_gaps(gaps[2], quorum.dual_leader@.len() as int, "dual-leader"@)
            &&& counts_gaps(gaps[3], quorum.at_risk@.len() as int, "at-risk"@)
            &&& counts_gaps(gaps[4], quorum.storage_faulted@.len() as int, "storage-faulted"@)
            &&& counts_gaps(gaps[5], quorum.unresponsive@.len() as int, "unresponsive"@)
        }),
        ({
            let gaps = panel.placement_gaps@;
            let unplaced = path_number(status, seq!["placement"@, "unplaced_shards"@]);
            let under = path_number(status, seq!["placement"@, "under_replicated_shards"@]);
            let leaderless = path_number(status, seq!["placement"@, "leaderless_shards"@]);
            let unhealthy = path_number(status, seq!["placement"@, "shards_with_unhealthy_replicas"@]);
            &&& gaps.len() == 4
            &&& counts_gaps(gaps[0], unplaced, "unplaced"@)
            &&& number_at(unplaced, inner(status, "placement"@, "unplaced_shards"@))
            &&& counts_gaps(gaps[1], under, "under-replicated"@)
            &&& number_at(under, inner(status, "placement"@, "under_replicated_shards"@))
            &&& counts_gaps(gaps[2], leaderless, "leaderless"@)
            &&& number_at(leaderless, inner(status, "placement"@, "leaderless_shards"@))
            &&& counts_gaps(gaps[3], unhealthy, "unhealthy-replica"@)
            &&& number_at(unhealthy, inner(status, "placement"@, "shards_with_unhealthy_replicas"@))
        }),
        panel.coverage@ == decimal(quorum.nodes_reporting as nat) + " of "@ + decimal(
            (quorum.nodes_reporting + quorum.nodes_failed) as nat,
        ) + " nodes"@,
        quorum.targets_truncated_from matches Some(total) ==> panel.truncation.deep_view() == Some(
            "targets truncated (showing "@ + decimal(512) + " of "@ + decimal(total as nat) + ")"@,
        ),
        quorum.targets_truncated_from is None ==> panel.truncation is None,
        shards.len() > 0 || quorum.nodes_failed == 0 ==> panel.failures is None,
        shards.len() == 0 && quorum.nodes_failed > 0 ==> panel.failures.deep_view() == Some(
            "("@ + decimal(quorum.nodes_failed as nat) + " node fetches failed — see the node table.)"@,
        ),
{
    reveal_strlit("tag tag--ok");
    reveal_strlit("tag tag--bad");
    assert("tag tag--ok"@.len() == 11 && "tag tag--bad"@.len() == 12);
    let quorum_views = badge_views(panel.quorum_gaps@);
    assert(quorum_views.len() == 6);
    assert forall|i: int| 0 <= i < 6 implies #[trigger] quorum_views[i] == panel.quorum_gaps@[i]@ by {}
    assert(quorum_views[0] == panel.quorum_gaps@[0]@ && quorum_views[1] == panel.quorum_gaps@[1]@);
    assert(quorum_views[2] == panel.quorum_gaps@[2]@ && quorum_views[3] == panel.quorum_gaps@[3]@);
    assert(quorum_views[4] == panel.quorum_gaps@[4]@ && quorum_views[5] == panel.quorum_gaps@[5]@);
    let placement_views = badge_views(panel.placement_gaps@);
    assert(placement_views.len() == 4);
    assert(placement_views[0] == panel.placement_gaps@[0]@ && placement_views[1] == panel.placement_gaps@[1]@);
    assert(placement_views[2] == panel.placement_gaps@[2]@ && placement_views[3] == panel.placement_gaps@[3]@);
    lemma_paths(status, "placement"@, "unplaced_shards"@);
    lemma_paths(status, "placement"@, "under_replicated_shards"@);
    lemma_paths(status, "placement"@, "leaderless_shards"@);
    lemma_paths(status, "placement"@, "shards_with_unhealthy_replicas"@);
}

/// The Prometheus card says what came of asking, and links to the query where
/// there is somewhere to look.
pub proof fn law_prometheus_cards_say_what_came(card: PromCard, prometheus: PromScrape, grafana: Option<Seq<char>>)
    requires
        shows_prometheus(card, prometheus, grafana),
    ensures
        prometheus is NotConfigured <==> card is NotConfigured,
        prometheus matches PromScrape::Error { error } ==> (card matches PromCard::Failed(reason) && reason@ == error@),
        prometheus matches PromScrape::Up { targets } ==> (card matches PromCard::Up { targets: shown, link } && shown
            == targets && (link is Some <==> grafana is Some) && (grafana matches Some(base) ==> link.deep_view() == Some(
            explore_url(base, explore_panes("prometheus"@, "up{namespace=\"fiducia\"}"@, "now-1h"@)),
        ))),
{
}

/// The place of a node among the observations.
proof fn lemma_first_observation(observations: Seq<NodeObservation>, node_id: Seq<char>)
    ensures
        match first_observation(observations, node_id) {
            Some(found) => exists|i: int|
                0 <= i < observations.len() && #[trigger] observations[i] == found && observations[i].node_id@
                    == node_id && forall|j: int| 0 <= j < i ==> (#[trigger] observations[j]).node_id@ != node_id,
            None => forall|i: int| 0 <= i < observations.len() ==> (#[trigger] observations[i]).node_id@ != node_id,
        },
    decreases observations.len(),
{
    if observations.len() > 0 && observations[0].node_id@ != node_id {
        let rest = observations.skip(1);
        lemma_first_observation(rest, node_id);
        match first_observation(rest, node_id) {
            Some(found) => {
                let i = choose|i: int|
                    0 <= i < rest.len() && #[trigger] rest[i] == found && rest[i].node_id@ == node_id && forall|j: int|
                        0 <= j < i ==> (#[trigger] rest[j]).node_id@ != node_id;
                assert(observations[i + 1] == found);
                assert forall|j: int| 0 <= j < i + 1 implies (#[trigger] observations[j]).node_id@ != node_id by {
                    if j > 0 {
                        assert(rest[j - 1] == observations[j]);
                    }
                }
            },
            None => {
                assert forall|i: int| 0 <= i < observations.len() implies (#[trigger] observations[i]).node_id@
                    != node_id by {
                    if i > 0 {
                        assert(rest[i - 1] == observations[i]);
                    }
                }
            },
        }
    } else if observations.len() > 0 {
        assert(observations[0].node_id@ == node_id);
    }
}

/// What is shown of observing a node: that it was not asked, that it was refused,
/// what it leads, or why it was not reached.
pub proof fn law_observe_cells_say_what_came(observation: NodeObservation)
    ensures
        observe_badge(None) == (BadgeView {
            class: "tag"@,
            text: "—"@,
            title: Some("not in the observe target set"@),
        }),
        observation.untrusted ==> observe_badge(Some(observation)).class == "tag tag--warn"@ && observe_badge(
            Some(observation),
        ).text == "untrusted address"@,
        !observation.untrusted ==> {
            &&& observation.shards matches Some(shards) ==> badge_is(
                observe_badge(Some(observation)),
                "tag tag--ok"@,
                "ok · leads "@ + decimal(shards.leader_count as nat) + " of "@ + decimal(shards.shards@.len()),
            )
            &&& observation.shards is None && observation.error is Some ==> observe_badge(Some(observation))
                == (BadgeView {
                class: "tag tag--bad"@,
                text: "unreachable"@,
                title: Some(observation.error->0@),
            })
            &&& observation.shards is None && observation.error is None ==> badge_is(
                observe_badge(Some(observation)),
                "tag"@,
                "—"@,
            )
        },
{
}

/// A node's row says what the brain says of the node, how many shards it hosts and
/// leads, when it was last seen, and what came of observing the node of that very
/// id.
pub proof fn law_node_rows_say_their_node(
    row: NodeRow,
    node: JsonView,
    observations: Seq<NodeObservation>,
    now_ms: int,
)
    requires
        shows_node(row, node, observations, now_ms),
    ensures
        text_field(node, "node_id"@) matches Some(id) ==> row.node_id@ == id,
        text_field(node, "node_id"@) is None ==> row.node_id@ == "—"@,
        text_field(node, "health"@) matches Some(health) ==> row.health.text@ == health && row.health.class@
            == health_class(health),
        text_field(node, "failure_domain"@) matches Some(domain) ==> row.failure_domain@ == domain,
        text_field(node, "failure_domain"@) is None ==> row.failure_domain@ == "—"@,
        text_field(node, "address"@) matches Some(address) ==> row.address@ == address,
        text_field(node, "address"@) is None ==> row.address@ == "—"@,
        row.shards@ == decimal(listed(node, "hosted_shards"@)) + " / "@ + decimal(listed(node, "leading_shards"@)),
        signed_field(node, "last_seen_ms"@) matches Some(at_ms) ==> is_timestamp(at_ms, row.last_seen@)
            && row.last_seen_age@ == age_text(at_ms, now_ms),
        signed_field(node, "last_seen_ms"@) is None ==> is_timestamp(0, row.last_seen@) && row.last_seen_age@
            == age_text(0, now_ms),
        forall|i: int|
            0 <= i < observations.len() && (#[trigger] observations[i]).node_id@ == row.node_id@ && (forall|j: int|
                0 <= j < i ==> (#[trigger] observations[j]).node_id@ != row.node_id@) ==> row.observe@ == observe_badge(
                Some(observations[i]),
            ),
        (forall|i: int| 0 <= i < observations.len() ==> (#[trigger] observations[i]).node_id@ != row.node_id@)
            ==> row.observe@ == observe_badge(None),
{
    let node_id = row.node_id@;
    lemma_first_observation(observations, node_id);
    if let Some(found) = first_observation(observations, node_id) {
        let k = choose|k: int|
            0 <= k < observations.len() && #[trigger] observations[k] == found && observations[k].node_id@ == node_id
                && forall|j: int| 0 <= j < k ==> (#[trigger] observations[j]).node_id@ != node_id;
        assert forall|i: int|
            0 <= i < observations.len() && (#[trigger] observations[i]).node_id@ == node_id && (forall|j: int|
                0 <= j < i ==> (#[trigger] observations[j]).node_id@ != node_id) implies row.observe@ == observe_badge(
            Some(observations[i]),
        ) by {
            if i < k {
                assert(observations[i].node_id@ != node_id);
            }
            if k < i {
                assert(observations[k].node_id@ != node_id);
            }
        }
        assert(observations[k].node_id@ == node_id);
    }
}

/// How many items an object lists under a name.
pub open spec fn listed(json: JsonView, name: Seq<char>) -> nat {
    match json.field(name) {
        Some(JsonView::Array(items)) => items.len(),
        _ => 0,
    }
}

/// An event's row says when it was, its kind, shard and node, and from where to
/// where the leadership went, with the reason; or else the message.
pub proof fn law_event_rows_say_their_event(row: EventRow, event: EventView, now_ms: int)
    requires
        shows_cluster_event(row, event, now_ms),
    ensures
        is_timestamp(event.at_ms as int, row.time@),
        row.age@ == age_text(event.at_ms as int, now_ms),
        row.kind.text@ == event.kind,
        row.kind.class@ == kind_class(event.kind),
        event.shard matches Some(shard) ==> row.shard@ == decimal(shard as nat),
        event.shard is None ==> row.shard@ == "—"@,
        event.node matches Some(node) ==> row.node@ == node,
        event.node is None ==> row.node@ == "—"@,
        event.from is Some && event.to is Some ==> {
            &&& event.reason matches Some(reason) ==> row.detail@ == event.from->0 + " → "@ + event.to->0 + (" ("@
                + reason + ")"@)
            &&& event.reason is None ==> row.detail@ == event.from->0 + " → "@ + event.to->0
        },
        event.from is None || event.to is None ==> row.detail@ == event.message,
{
    reveal_strlit("");
    if event.from is Some && event.to is Some && event.reason is None {
        assert(event_detail(event) =~= event.from->0 + " → "@ + event.to->0);
    }
}

/// The events panel covers the minutes it says, links where there is somewhere to
/// look, and shows why there is nothing or one row per event in order.
pub proof fn law_event_panels_say_what_came(
    view: EventsView,
    events: EventsPanel,
    since_minutes: int,
    grafana: Option<Seq<char>>,
    now_ms: int,
)
    requires
        shows_events(view, events, since_minutes, grafana, now_ms),
    ensures
        view.window@ == "last "@ + signed_decimal(since_minutes) + "m"@,
        view.link is Some <==> grafana is Some,
        grafana matches Some(base) ==> view.link.deep_view() == Some(
            explore_url(
                base,
                explore_panes(
                    "loki"@,
                    "{namespace=\"fiducia\"} |~ \"raft: |membership: |scheduler: |leader_transfer\""@,
                    "now-"@ + signed_decimal(since_minutes) + "m"@,
                ),
            ),
        ),
        events is NotConfigured <==> view.body is NotConfigured,
        events matches EventsPanel::Error(error) ==> (view.body matches EventsBody::Failed(text) && text@
            == "Loki query failed: "@ + error@),
        events matches EventsPanel::Events(found) ==> (view.body matches EventsBody::Rows(rows) && rows@.len()
            == found@.len() && forall|i: int|
            0 <= i < found@.len() ==> shows_cluster_event(#[trigger] rows@[i], found@[i]@, now_ms)),
{
}

/// Days are counted from the first of January 1970, one after the other: through
/// the days of a month, from a month into the next, and from a year into the next.
/// February has a 29th where the year divides by four, but not by a hundred unless
/// by four hundred.
pub proof fn law_days_follow_each_other(year: int, month: int, day: int)
    requires
        is_date(year, month, day),
    ensures
        day_number(1970, 1, 1) == 0,
        is_date(year, month, day + 1) ==> day_number(year, month, day + 1) == day_number(year, month, day) + 1,
        !is_date(year, month, day + 1) && month < 12 ==> day_number(year, month + 1, 1) == day_number(year, month, day)
            + 1,
        !is_date(year, month, day + 1) && month == 12 ==> day_number(year + 1, 1, 1) == day_number(year, month, day) + 1,
        1 <= month <= 12,
        1 <= day <= 31,
        is_date(year, 2, 29) <==> year % 4 == 0 && (year % 100 != 0 || year % 400 == 0),
        is_date(year, month, 30) <==> month != 2,
        is_date(year, month, 31) <==> month == 1 || month == 3 || month == 5 || month == 7 || month == 8 || month == 10
            || month == 12,
        is_date(year, month, 28),
{
    reveal_with_fuel(days_to_month, 13);
    reveal_with_fuel(days_to_year, 2);
}

/// Whether a text is that number in that many digits, with zeros in front.
pub open spec fn in_digits(text: Seq<char>, n: int, width: int) -> bool {
    text.len() == width && all_digits(text) && digits_value(text) == n
}

/// Two digits are written with a zero in front where the number has only one.
proof fn lemma_padded_to_two(n: nat)
    requires
        n < 100,
    ensures
        in_digits(padded(n, 2), n as int, 2),
{
    law_numbers_read_back(n);
    reveal_with_fuel(zeros_before, 3);
    reveal_with_fuel(decimal, 3);
    let text = padded(n, 2);
    if n < 10 {
        let digits = decimal(n);
        assert(text =~= seq!['0', digits[0]]);
        reveal_with_fuel(digits_value, 3);
        assert(text.drop_last() =~= seq!['0']);
        assert(seq!['0'].drop_last() =~= Seq::<char>::empty());
        assert(digits.drop_last() =~= Seq::<char>::empty());
        assert('0' <= digits[0] <= '9');
        assert forall|i: int| 0 <= i < text.len() implies is_digit(#[trigger] text[i]) by {}
    } else {
        assert(decimal(n / 10).len() == 1);
        assert(text == decimal(n));
    }
}

/// A timestamp is of the day and the second of its time: its parts, put together
/// again, are the time without what is left of a second.
pub proof fn law_timestamps_tell_the_time(at_ms: int, text: Seq<char>) -> (parts: (int, int, int, int, int, int))
    requires
        is_timestamp(at_ms, text),
    ensures
        ({
            let (year, month, day, hour, minute, second) = parts;
            &&& is_date(year, month, day)
            &&& 0 <= hour < 24
            &&& 0 <= minute < 60
            &&& 0 <= second < 60
            &&& 0 <= at_ms - 1000 * (86_400 * day_number(year, month, day) + 3600 * hour + 60 * minute + second) < 1000
            &&& text == signed_padded(year, 4) + "-"@ + padded(month as nat, 2) + "-"@ + padded(day as nat, 2) + " "@
                + padded(hour as nat, 2) + ":"@ + padded(minute as nat, 2) + ":"@ + padded(second as nat, 2) + "Z"@
            &&& in_digits(padded(month as nat, 2), month, 2)
            &&& in_digits(padded(day as nat, 2), day, 2)
            &&& in_digits(padded(hour as nat, 2), hour, 2)
            &&& in_digits(padded(minute as nat, 2), minute, 2)
            &&& in_digits(padded(second as nat, 2), second, 2)
        }),
{
    let (year, month, day) = choose|year: int, month: int, day: int|
        is_date(year, month, day) && day_number(year, month, day) == at_ms / 1000 / 86_400 && text
            == #[trigger] timestamp_text(year, month, day, at_ms / 1000 % 86_400);
    let of_day = at_ms / 1000 % 86_400;
    let hour = of_day / 3600;
    let minute = of_day % 3600 / 60;
    let second = of_day % 60;
    law_days_follow_each_other(year, month, day);
    lemma_padded_to_two(month as nat);
    lemma_padded_to_two(day as nat);
    lemma_padded_to_two(hour as nat);
    lemma_padded_to_two(minute as nat);
    lemma_padded_to_two(second as nat);
    (year, month, day, hour, minute, second)
}

/// Whether a whole number of units has passed of an age, and not one more.
pub open spec fn whole_units(age_ms: int, count: int, unit_ms: int) -> bool {
    count * unit_ms <= age_ms < (count + 1) * unit_ms
}

/// An age reads in whole seconds from 5 up to two minutes, then in minutes up to
/// two hours, in hours up to two days, and in days from there; anything younger,
/// and anything to come, is just now.
pub proof fn law_ages_read_in_whole_units(at_ms: int, age_ms: int) -> (count: int)
    requires
        i64::MIN <= at_ms <= i64::MAX,
        i64::MIN <= at_ms + age_ms <= i64::MAX,
        i64::MIN <= age_ms <= i64::MAX,
    ensures
        age_ms < 5_000 ==> age_text(at_ms, at_ms + age_ms) == "just now"@,
        5_000 <= age_ms < 120_000 ==> age_text(at_ms, at_ms + age_ms) == signed_decimal(count) + "s ago"@
            && whole_units(age_ms, count, 1_000),
        120_000 <= age_ms < 7_200_000 ==> age_text(at_ms, at_ms + age_ms) == signed_decimal(count) + "m ago"@
            && whole_units(age_ms, count, 60_000),
        7_200_000 <= age_ms < 172_800_000 ==> age_text(at_ms, at_ms + age_ms) == signed_decimal(count) + "h ago"@
            && whole_units(age_ms, count, 3_600_000),
        172_800_000 <= age_ms ==> age_text(at_ms, at_ms + age_ms) == signed_decimal(count) + "d ago"@ && whole_units(
            age_ms,
            count,
            86_400_000,
        ),
{
    let seconds = age_ms / 1000;
    if seconds < 120 {
        seconds
    } else if seconds < 7200 {
        seconds / 60
    } else if seconds < 172_800 {
        seconds / 3600
    } else {
        seconds / 86_400
    }
}

/// A page has its title and the product's name, shows who is signed in as an
/// operator, offers to sign out with the page's own token, and links to every
/// section, or only to the sign-in where nobody is.
pub proof fn law_pages_are_framed(frame: PageFrame, title: Seq<char>, who: Option<Seq<char>>, csrf: Option<Seq<char>>)
    requires
        frames(frame, title, who, csrf),
    ensures
        frame.title@ == title + " · Fiducia Admin"@,
        frame.csrf.deep_view() == csrf,
        who matches Some(name) ==> frame.who.deep_view() == Some(name + " · operator"@) && frame.sign_out.deep_view()
            == csrf && frame.links@.len() == 5 && leads_to(frame, 0, "/"@, "Dashboard"@) && leads_to(
            frame,
            1,
            "/infra"@,
            "Infra"@,
        ) && leads_to(frame, 2, "/cluster"@, "Cluster"@) && leads_to(frame, 3, "/notices"@, "Notices"@) && leads_to(
            frame,
            4,
            "/audit"@,
            "Audit"@,
        ),
        who is None ==> frame.who is None && frame.sign_out is None && frame.links@.len() == 1 && leads_to(
            frame,
            0,
            "/login"@,
            "Sign in"@,
        ),
{
    let links = crate::views::link_views(frame.links@);
    assert(links.len() == frame.links@.len());
    assert forall|i: int| 0 <= i < links.len() implies #[trigger] links[i] == (
        frame.links@[i].href@,
        frame.links@[i].label@,
    ) by {}
    if who is Some {
        assert(links[0].0 == "/"@ && links[1].0 == "/infra"@ && links[2].0 == "/cluster"@ && links[3].0 == "/notices"@
            && links[4].0 == "/audit"@);
    } else {
        assert(links[0].0 == "/login"@);
    }
}

/// Whether a link of a page leads there under that label.
pub open spec fn leads_to(frame: PageFrame, i: int, href: Seq<char>, label: Seq<char>) -> bool {
    frame.links@[i].href@ == href && frame.links@[i].label@ == label
}

/// Whoever is signed in is shown by email, and by subject where there is none.
pub proof fn law_people_are_shown_by_email(session: Session)
    ensures
        session.email matches Some(email) ==> identity_label(session) == email@,
        session.email is None ==> identity_label(session) == session.user_id@,
{
}

/// The row of an audit event says the event's own values; an event without an
/// actor is the system's.
pub proof fn law_audit_rows_say_their_event(row: AuditRow, event: AdminAuditEvent)
    requires
        shows_event(row, event),
    ensures
        row.time@ == event.created_at@,
        event.actor matches Some(actor) ==> row.actor@ == actor@,
        event.actor is None ==> row.actor@ == "system"@,
        row.action@ == event.action@,
        event.target matches Some(target) ==> row.target@ == target@,
        event.target is None ==> row.target@ == "—"@,
        event.request_id matches Some(request) ==> row.request@ == request@,
        event.request_id is None ==> row.request@ == "—"@,
{
}

/// The row of a notice says the notice's own values, a body only where it has one,
/// and that it is active exactly where it is.
pub proof fn law_notice_rows_say_their_notice(row: NoticeRow, notice: Notice)
    requires
        shows_notice(row, notice),
    ensures
        row.published@ == notice.starts_at@,
        row.severity@ == notice.severity@,
        row.title@ == notice.title@,
        notice.body@.len() > 0 ==> row.body.deep_view() == Some(notice.body@),
        notice.body@.len() == 0 ==> row.body is None,
        row.state@ == "active"@ <==> notice.active,
        row.state@ == "inactive"@ <==> !notice.active,
{
    reveal_strlit("active");
    reveal_strlit("inactive");
    assert("active"@.len() == 6 && "inactive"@.len() == 8);
}

/// The row of an operation says what the operation holds under each name.
pub proof fn law_operation_rows_say_their_operation(row: OperationRow, operation: JsonView)
    requires
        shows_operation(row, operation),
    ensures
        text_field(operation, "action"@) matches Some(action) ==> row.action@ == action,
        text_field(operation, "action"@) is None ==> row.action@ == "—"@,
        signed_field(operation, "target_nodes"@) matches Some(n) ==> row.target_nodes@ == signed_decimal(n),
        signed_field(operation, "target_nodes"@) is None ==> row.target_nodes@ == "—"@,
        text_field(operation, "status"@) matches Some(status) ==> row.status@ == status,
        text_field(operation, "status"@) is None ==> row.status@ == "—"@,
        signed_field(operation, "version"@) matches Some(version) ==> row.version == version,
        signed_field(operation, "version"@) is None ==> row.version == 0,
        text_field(operation, "created_at"@) matches Some(at) ==> row.time@ == at,
        text_field(operation, "created_at"@) is None ==> row.time@ == "—"@,
{
}

/// A panel has one badge for each health that the brain counts nodes by, with the
/// look of that health; it has none where the brain does not count.
pub proof fn law_nodes_are_counted_by_health(status: JsonView, members: Map<Seq<char>, JsonView>)
    ensures
        inner(status, "topology"@, "nodes_by_health"@) == Some(JsonView::Object(members)) ==> {
            &&& health_badges(status) matches Some(badges)
            &&& forall|i: int|
                0 <= i < badges.len() ==> {
                    let health = crate::fingerprint::sorted_keys(members.dom())[i];
                    &&& (#[trigger] badges[i]).class == health_class(health)
                    &&& members[health] matches JsonView::Number(NumberView::Integer(n)) ==> (0 <= n <= u64::MAX
                        ==> badges[i].text == decimal(n as nat) + " "@ + health)
                    &&& !(members[health] is Number) ==> badges[i].text == decimal(0) + " "@ + health
                }
            &&& badges.len() == crate::fingerprint::sorted_keys(members.dom()).len()
        },
        !(inner(status, "topology"@, "nodes_by_health"@) matches Some(JsonView::Object(_))) ==> health_badges(status)
            is None,
{
    lemma_paths(status, "topology"@, "nodes_by_health"@);
}

} // verus!
