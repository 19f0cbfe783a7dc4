//! One row per shard and one rollup for the cluster, merged from what every
//! node reports.

use vstd::prelude::*;

use crate::cluster_insight::{NodeObservation, QuorumRollup, ShardInfo, ShardView};
use crate::text::same_text;

verus! {

/// One shard's cluster-wide row.
pub struct MergedShard {
    pub shard_id: u32,
    /// Which node's view the row adopted.
    pub reported_by: String,
    /// Whether that node leads the shard: only a leader's view carries the
    /// authoritative quorum and replication columns.
    pub leader_view: bool,
    /// Whether two nodes reported that they lead the shard.
    pub dual_leader: bool,
    pub view: ShardView,
}

/// One shard as one node reported it.
pub struct Report {
    /// The node's place among the observations.
    pub node: int,
    pub node_id: Seq<char>,
    pub view: ShardInfo,
}

/// What one node reported, in order.
pub open spec fn node_reports(observation: NodeObservation, node: int) -> Seq<Report> {
    match observation.shards {
        Some(shards) => Seq::new(
            shards.shards@.len(),
            |i: int| Report { node, node_id: observation.node_id@, view: shards.shards@[i]@ },
        ),
        None => Seq::empty(),
    }
}

/// What all nodes reported, in order.
pub open spec fn reports_of(observations: Seq<NodeObservation>) -> Seq<Report>
    decreases observations.len(),
{
    if observations.len() == 0 {
        Seq::empty()
    } else {
        reports_of(observations.drop_last()) + node_reports(observations.last(), observations.len() - 1)
    }
}

/// Whether a report is of a shard, and from its leader where that is asked for.
pub open spec fn matches_shard(report: Report, shard: u32, leader: bool) -> bool {
    report.view.shard_id == shard && (leader ==> report.view.role == "leader"@)
}

/// The first report of a shard, or of its leader; the number of reports when
/// there is none.
pub open spec fn first_report(reports: Seq<Report>, shard: u32, leader: bool) -> int
    decreases reports.len(),
{
    if reports.len() == 0 {
        0
    } else {
        let front = first_report(reports.drop_last(), shard, leader);
        if front < reports.len() - 1 || matches_shard(reports.last(), shard, leader) {
            front
        } else {
            reports.len() as int
        }
    }
}

/// Whether some node reported the shard.
pub open spec fn is_reported(reports: Seq<Report>, shard: u32) -> bool {
    first_report(reports, shard, false) < reports.len()
}

/// Whether some node reported that it leads the shard.
pub open spec fn is_led(reports: Seq<Report>, shard: u32) -> bool {
    first_report(reports, shard, true) < reports.len()
}

/// The report that a shard's row adopts: the first of a leader, and the first of
/// all when no node leads the shard.
pub open spec fn adopted(reports: Seq<Report>, shard: u32) -> Report {
    reports[if is_led(reports, shard) {
        first_report(reports, shard, true)
    } else {
        first_report(reports, shard, false)
    }]
}

/// Whether two nodes reported that they lead the shard.
pub open spec fn is_dual_led(reports: Seq<Report>, shard: u32) -> bool {
    exists|i: int, j: int|
        0 <= i < reports.len() && 0 <= j < reports.len() && #[trigger] matches_shard(reports[i], shard, true)
            && #[trigger] matches_shard(reports[j], shard, true) && reports[i].node != reports[j].node
}

/// Whether a row is the merge of a shard's reports.
pub open spec fn merges(row: MergedShard, reports: Seq<Report>) -> bool {
    &&& is_reported(reports, row.shard_id)
    &&& row.leader_view == is_led(reports, row.shard_id)
    &&& row.reported_by@ == adopted(reports, row.shard_id).node_id
    &&& row.view@ == adopted(reports, row.shard_id).view
    &&& row.dual_leader == is_dual_led(reports, row.shard_id)
}

/// Whether rows are in strictly ascending order of their shards.
pub open spec fn by_shard(rows: Seq<MergedShard>) -> bool {
    forall|i: int, j: int| 0 <= i < j < rows.len() ==> (#[trigger] rows[i]).shard_id < (#[trigger] rows[j]).shard_id
}

/// Whether some row is of a shard.
pub open spec fn has_row(rows: Seq<MergedShard>, shard: u32) -> bool {
    exists|i: int| 0 <= i < rows.len() && (#[trigger] rows[i]).shard_id == shard
}

/// Whether the rows are the merge of the reports: one for each shard that was
/// reported, in the shards' order.
pub open spec fn is_merge(rows: Seq<MergedShard>, reports: Seq<Report>) -> bool {
    &&& by_shard(rows)
    &&& forall|i: int| 0 <= i < rows.len() ==> merges(#[trigger] rows[i], reports)
    &&& forall|shard: u32| #[trigger] is_reported(reports, shard) ==> has_row(rows, shard)
}

/// What `first_report` finds.
pub(crate) proof fn lemma_first_report(reports: Seq<Report>, shard: u32, leader: bool)
    ensures
        0 <= first_report(reports, shard, leader) <= reports.len(),
        first_report(reports, shard, leader) < reports.len() ==> matches_shard(
            reports[first_report(reports, shard, leader)],
            shard,
            leader,
        ),
        forall|i: int|
            0 <= i < first_report(reports, shard, leader) ==> !#[trigger] matches_shard(reports[i], shard, leader),
    decreases reports.len(),
{
    if reports.len() > 0 {
        let front = reports.drop_last();
        lemma_first_report(front, shard, leader);
        assert forall|i: int| 0 <= i < first_report(reports, shard, leader) implies !#[trigger] matches_shard(
            reports[i],
            shard,
            leader,
        ) by {
            if i < front.len() {
                assert(front[i] == reports[i]);
                assert(!matches_shard(front[i], shard, leader));
            }
        }
    }
}

/// One report more moves no first report, but may be one.
proof fn lemma_push_report(reports: Seq<Report>, report: Report, shard: u32, leader: bool)
    ensures
        ({
            let more = reports.push(report);
            &&& first_report(reports, shard, leader) < reports.len() ==> first_report(more, shard, leader)
                == first_report(reports, shard, leader)
            &&& first_report(reports, shard, leader) == reports.len() ==> first_report(more, shard, leader) == (
            if matches_shard(report, shard, leader) {
                reports.len() as int
            } else {
                reports.len() as int + 1
            })
        }),
{
    let more = reports.push(report);
    assert(more.drop_last() =~= reports);
    lemma_first_report(reports, shard, leader);
}

/// A shard has two leaders after one report more exactly when it had, or when
/// the report is of a leader other than one that was there.
proof fn lemma_push_dual(reports: Seq<Report>, report: Report, shard: u32)
    ensures
        ({
            let more = reports.push(report);
            let leader = first_report(reports, shard, true);
            &&& !matches_shard(report, shard, true) ==> is_dual_led(more, shard) == is_dual_led(reports, shard)
            &&& matches_shard(report, shard, true) && !is_led(reports, shard) ==> !is_dual_led(more, shard)
            &&& matches_shard(report, shard, true) && is_led(reports, shard) ==> is_dual_led(more, shard) == (
            is_dual_led(reports, shard) || reports[leader].node != report.node)
        }),
{
    let more = reports.push(report);
    let leader = first_report(reports, shard, true);
    lemma_first_report(reports, shard, true);
    if is_dual_led(reports, shard) {
        let (i, j) = choose|i: int, j: int|
            0 <= i < reports.len() && 0 <= j < reports.len() && #[trigger] matches_shard(reports[i], shard, true)
                && #[trigger] matches_shard(reports[j], shard, true) && reports[i].node != reports[j].node;
        assert(more[i] == reports[i] && more[j] == reports[j]);
        assert(matches_shard(more[i], shard, true) && matches_shard(more[j], shard, true));
    }
    if is_led(reports, shard) && matches_shard(report, shard, true) && reports[leader].node != report.node {
        assert(more[leader] == reports[leader]);
        assert(more[reports.len() as int] == report);
        assert(matches_shard(more[leader], shard, true) && matches_shard(more[reports.len() as int], shard, true));
    }
    if is_dual_led(more, shard) {
        let (i, j) = choose|i: int, j: int|
            0 <= i < more.len() && 0 <= j < more.len() && #[trigger] matches_shard(more[i], shard, true)
                && #[trigger] matches_shard(more[j], shard, true) && more[i].node != more[j].node;
        let n = reports.len() as int;
        if i < n && j < n {
            assert(more[i] == reports[i] && more[j] == reports[j]);
            assert(matches_shard(reports[i], shard, true) && matches_shard(reports[j], shard, true));
        } else {
            let k = if i < n { i } else { j };
            assert(k < n);
            assert(more[k] == reports[k]);
            assert(matches_shard(reports[k], shard, true));
            assert(matches_shard(report, shard, true));
            if reports[leader].node == report.node {
                assert(matches_shard(reports[leader], shard, true));
                assert(is_dual_led(reports, shard));
            }
        }
    }
}

/// A row stands for its shard's reports after one report more that does not
/// change it.
proof fn lemma_row_kept(row: MergedShard, reports: Seq<Report>, report: Report)
    requires
        merges(row, reports),
        report.view.shard_id != row.shard_id || report.view.role != "leader"@,
    ensures
        merges(row, reports.push(report)),
{
    lemma_push_report(reports, report, row.shard_id, true);
    lemma_push_report(reports, report, row.shard_id, false);
    lemma_push_dual(reports, report, row.shard_id);
    lemma_first_report(reports, row.shard_id, true);
    lemma_first_report(reports, row.shard_id, false);
}

/// Whether `leaders` holds, for each row, the place of the node whose view it
/// adopted.
spec fn places_adopted(rows: Seq<MergedShard>, leaders: Seq<usize>, reports: Seq<Report>) -> bool {
    &&& leaders.len() == rows.len()
    &&& forall|i: int|
        0 <= i < rows.len() ==> leaders[i] == adopted(reports, (#[trigger] rows[i]).shard_id).node
}

/// Rows of other shards stand for one report more as they are, and every other
/// shard that is reported then was reported before.
proof fn lemma_other_rows(rows: Seq<MergedShard>, leaders: Seq<usize>, reports: Seq<Report>, report: Report)
    requires
        is_merge(rows, reports),
        places_adopted(rows, leaders, reports),
    ensures
        forall|i: int|
            0 <= i < rows.len() && (#[trigger] rows[i]).shard_id != report.view.shard_id ==> merges(
                rows[i],
                reports.push(report),
            ) && leaders[i] == adopted(reports.push(report), rows[i].shard_id).node,
        forall|other: u32|
            #[trigger] is_reported(reports.push(report), other) && other != report.view.shard_id ==> has_row(
                rows,
                other,
            ),
{
    let more = reports.push(report);
    let shard = report.view.shard_id;
    assert forall|i: int| 0 <= i < rows.len() && (#[trigger] rows[i]).shard_id != shard implies merges(rows[i], more)
        && leaders[i] == adopted(more, rows[i].shard_id).node by {
        lemma_row_kept(rows[i], reports, report);
        lemma_push_report(reports, report, rows[i].shard_id, true);
        lemma_push_report(reports, report, rows[i].shard_id, false);
        lemma_first_report(reports, rows[i].shard_id, true);
        lemma_first_report(reports, rows[i].shard_id, false);
    }
    assert forall|other: u32| #[trigger] is_reported(more, other) && other != shard implies has_row(rows, other) by {
        lemma_push_report(reports, report, other, false);
        lemma_first_report(reports, other, false);
        assert(is_reported(reports, other));
    }
}

/// The rows merge one report more once the row of its shard does.
proof fn lemma_row_replaced(
    before: Seq<MergedShard>,
    places: Seq<usize>,
    reports: Seq<Report>,
    report: Report,
    at: int,
    row: MergedShard,
    place: usize,
)
    requires
        is_merge(before, reports),
        places_adopted(before, places, reports),
        0 <= at < before.len(),
        before[at].shard_id == report.view.shard_id,
        row.shard_id == report.view.shard_id,
        merges(row, reports.push(report)),
        place == adopted(reports.push(report), row.shard_id).node,
    ensures
        is_merge(before.update(at, row), reports.push(report)),
        places_adopted(before.update(at, row), places.update(at, place), reports.push(report)),
{
    let more = reports.push(report);
    let rows = before.update(at, row);
    let shard = report.view.shard_id;
    lemma_other_rows(before, places, reports, report);
    assert forall|i: int| 0 <= i < rows.len() implies (#[trigger] rows[i]).shard_id == before[i].shard_id by {}
    assert forall|i: int, j: int| 0 <= i < j < rows.len() implies (#[trigger] rows[i]).shard_id < (
    #[trigger] rows[j]).shard_id by {
        assert(before[i].shard_id < before[j].shard_id);
    }
    assert forall|i: int| 0 <= i < rows.len() && i != at implies (#[trigger] before[i]).shard_id != shard by {
        if i < at {
            assert(before[i].shard_id < before[at].shard_id);
        } else {
            assert(before[at].shard_id < before[i].shard_id);
        }
    }
    assert forall|i: int| 0 <= i < rows.len() implies merges(#[trigger] rows[i], more) && places.update(at, place)[i]
        == adopted(more, rows[i].shard_id).node by {
        if i != at {
            assert(before[i].shard_id != shard);
        }
    }
    assert forall|other: u32| #[trigger] is_reported(more, other) implies has_row(rows, other) by {
        if other == shard {
            assert(rows[at].shard_id == shard);
        } else {
            let i = choose|i: int| 0 <= i < before.len() && (#[trigger] before[i]).shard_id == other;
            assert(rows[i].shard_id == other);
        }
    }
}

/// The rows merge the first report of a shard once a row for it is put where it
/// belongs.
proof fn lemma_row_inserted(
    before: Seq<MergedShard>,
    places: Seq<usize>,
    reports: Seq<Report>,
    report: Report,
    at: int,
    row: MergedShard,
    place: usize,
)
    requires
        is_merge(before, reports),
        places_adopted(before, places, reports),
        0 <= at <= before.len(),
        forall|i: int| 0 <= i < at ==> (#[trigger] before[i]).shard_id < report.view.shard_id,
        at < before.len() ==> report.view.shard_id < before[at].shard_id,
        row.shard_id == report.view.shard_id,
        merges(row, reports.push(report)),
        place == adopted(reports.push(report), row.shard_id).node,
    ensures
        is_merge(before.insert(at, row), reports.push(report)),
        places_adopted(before.insert(at, row), places.insert(at, place), reports.push(report)),
{
    let more = reports.push(report);
    let rows = before.insert(at, row);
    let shard = report.view.shard_id;
    lemma_other_rows(before, places, reports, report);
    assert forall|i: int| at <= i < before.len() implies shard < (#[trigger] before[i]).shard_id by {
        if i > at {
            assert(before[at].shard_id < before[i].shard_id);
        }
    }
    assert forall|i: int, j: int| 0 <= i < j < rows.len() implies (#[trigger] rows[i]).shard_id < (
    #[trigger] rows[j]).shard_id by {
        let a = if i < at { i } else { i - 1 };
        let b = if j < at { j } else { j - 1 };
        if i != at && j != at {
            assert(before[a].shard_id < before[b].shard_id);
        }
    }
    assert forall|i: int| 0 <= i < rows.len() implies merges(#[trigger] rows[i], more) && places.insert(at, place)[i]
        == adopted(more, rows[i].shard_id).node by {
        if i != at {
            let a = if i < at { i } else { i - 1 };
            assert(rows[i] == before[a]);
            assert(before[a].shard_id != shard);
        }
    }
    assert forall|other: u32| #[trigger] is_reported(more, other) implies has_row(rows, other) by {
        if other == shard {
            assert(rows[at].shard_id == shard);
        } else {
            let i = choose|i: int| 0 <= i < before.len() && (#[trigger] before[i]).shard_id == other;
            let k = if i < at { i } else { i + 1 };
            assert(rows[k] == before[i]);
        }
    }
}

/// The first report of a shard makes a row of its own.
proof fn lemma_new_row(row: MergedShard, reports: Seq<Report>, report: Report)
    requires
        !is_reported(reports, report.view.shard_id),
        row.shard_id == report.view.shard_id,
        row.reported_by@ == report.node_id,
        row.leader_view == (report.view.role == "leader"@),
        !row.dual_leader,
        row.view@ == report.view,
    ensures
        merges(row, reports.push(report)),
        adopted(reports.push(report), row.shard_id) == report,
{
    let more = reports.push(report);
    let shard = report.view.shard_id;
    lemma_push_report(reports, report, shard, true);
    lemma_push_report(reports, report, shard, false);
    lemma_push_dual(reports, report, shard);
    lemma_first_report(reports, shard, true);
    lemma_first_report(reports, shard, false);
    assert(!is_led(reports, shard)) by {
        if is_led(reports, shard) {
            assert(matches_shard(reports[first_report(reports, shard, true)], shard, false));
        }
    }
    assert(!is_dual_led(more, shard)) by {
        if is_dual_led(reports, shard) {
            let (i, j) = choose|i: int, j: int|
                0 <= i < reports.len() && 0 <= j < reports.len() && #[trigger] matches_shard(reports[i], shard, true)
                    && #[trigger] matches_shard(reports[j], shard, true) && reports[i].node != reports[j].node;
            assert(!matches_shard(reports[i], shard, true));
        }
    }
}

/// Takes one more report into the rows. `leaders` holds, for each row, the place
/// of the node whose view it adopted.
fn absorb(
    rows: &mut Vec<MergedShard>,
    leaders: &mut Vec<usize>,
    node: usize,
    node_id: &str,
    view: &ShardView,
    Ghost(reports): Ghost<Seq<Report>>,
)
    requires
        is_merge(old(rows)@, reports),
        places_adopted(old(rows)@, old(leaders)@, reports),
    ensures
        is_merge(final(rows)@, reports.push(Report { node: node as int, node_id: node_id@, view: view@ })),
        places_adopted(
            final(rows)@,
            final(leaders)@,
            reports.push(Report { node: node as int, node_id: node_id@, view: view@ }),
        ),
{
    let ghost report = Report { node: node as int, node_id: node_id@, view: view@ };
    let ghost more = reports.push(report);
    let ghost before = rows@;
    let ghost places = leaders@;
    let leader: bool = same_text(view.role.as_str(), "leader");
    let shard: u32 = view.shard_id;
    let mut at: usize = 0;
    while at < rows.len() && rows[at].shard_id < shard
        invariant
            at <= rows@.len(),
            rows@ == before,
            forall|i: int| 0 <= i < at ==> (#[trigger] before[i]).shard_id < shard,
        decreases rows@.len() - at,
    {
        at = at + 1;
    }
    if at < rows.len() && rows[at].shard_id == shard {
        let ghost old_row = before[at as int];
        proof {
            lemma_push_report(reports, report, shard, true);
            lemma_push_report(reports, report, shard, false);
            lemma_push_dual(reports, report, shard);
            lemma_first_report(reports, shard, true);
            lemma_first_report(reports, shard, false);
            assert(merges(old_row, reports));
            assert(places[at as int] == adopted(reports, old_row.shard_id).node);
        }
        if leader {
            if rows[at].leader_view {
                if leaders[at] != node {
                    let row = MergedShard {
                        shard_id: shard,
                        reported_by: rows[at].reported_by.clone(),
                        leader_view: true,
                        dual_leader: true,
                        view: rows[at].view.duplicate(),
                    };
                    assert(merges(row, more));
                    proof {
                        lemma_row_replaced(before, places, reports, report, at as int, row, places[at as int]);
                        assert(places.update(at as int, places[at as int]) =~= places);
                    }
                    rows.set(at, row);
                } else {
                    assert(merges(old_row, more));
                    proof {
                        lemma_row_replaced(before, places, reports, report, at as int, old_row, places[at as int]);
                        assert(places.update(at as int, places[at as int]) =~= places);
                        assert(before.update(at as int, old_row) =~= before);
                    }
                }
            } else {
                let row = MergedShard {
                    shard_id: shard,
                    reported_by: node_id.to_owned(),
                    leader_view: true,
                    dual_leader: false,
                    view: view.duplicate(),
                };
                assert(merges(row, more));
                proof {
                    lemma_row_replaced(before, places, reports, report, at as int, row, node);
                }
                rows.set(at, row);
                leaders.set(at, node);
            }
        } else {
            proof {
                lemma_row_kept(old_row, reports, report);
                lemma_row_replaced(before, places, reports, report, at as int, old_row, places[at as int]);
                assert(places.update(at as int, places[at as int]) =~= places);
                assert(before.update(at as int, old_row) =~= before);
            }
        }
    } else {
        assert(!is_reported(reports, shard)) by {
            if is_reported(reports, shard) {
                assert(has_row(before, shard));
                let i = choose|i: int| 0 <= i < before.len() && (#[trigger] before[i]).shard_id == shard;
                if i > at {
                    assert(before[at as int].shard_id < before[i].shard_id);
                }
            }
        }
        let row = MergedShard {
            shard_id: shard,
            reported_by: node_id.to_owned(),
            leader_view: leader,
            dual_leader: false,
            view: view.duplicate(),
        };
        proof {
            lemma_new_row(row, reports, report);
            lemma_row_inserted(before, places, reports, report, at as int, row, node);
        }
        rows.insert(at, row);
        leaders.insert(at, node);
    }
}

/// Merges every node's report into one row per shard. A leader's view wins: only
/// the leader knows the replication lag of its peers and the quorum. When no
/// reporting node leads a shard, the first view is kept, so that a leaderless
/// shard still shows its last known indices.
pub fn merge_shards(observations: &[NodeObservation]) -> (rows: Vec<MergedShard>)
    ensures
        is_merge(rows@, reports_of(observations@)),
{
    let mut rows: Vec<MergedShard> = Vec::new();
    let mut leaders: Vec<usize> = Vec::new();
    let mut node: usize = 0;
    assert(observations@.take(0) =~= Seq::empty());
    while node < observations.len()
        invariant
            node <= observations@.len(),
            is_merge(rows@, reports_of(observations@.take(node as int))),
            places_adopted(rows@, leaders@, reports_of(observations@.take(node as int))),
        decreases observations@.len() - node,
    {
        let observation = &observations[node];
        let ghost before = reports_of(observations@.take(node as int));
        let ghost own = node_reports(*observation, node as int);
        assert(observations@.take(node + 1).drop_last() =~= observations@.take(node as int));
        assert(reports_of(observations@.take(node + 1)) == before + own);
        assert(before + own.take(0) =~= before);
        match &observation.shards {
            Some(shards) => {
                let mut i: usize = 0;
                while i < shards.shards.len()
                    invariant
                        i <= shards.shards@.len(),
                        observation.shards == Some(*shards),
                        own == node_reports(*observation, node as int),
                        is_merge(rows@, before + own.take(i as int)),
                        places_adopted(rows@, leaders@, before + own.take(i as int)),
                    decreases shards.shards@.len() - i,
                {
                    let ghost so_far = before + own.take(i as int);
                    assert(so_far.push(own[i as int]) =~= before + own.take(i + 1));
                    absorb(
                        &mut rows,
                        &mut leaders,
                        node,
                        observation.node_id.as_str(),
                        &shards.shards[i],
                        Ghost(so_far),
                    );
                    i = i + 1;
                }
                assert(own.take(i as int) =~= own);
            },
            None => {
                assert(own =~= own.take(0));
            },
        }
        node = node + 1;
    }
    assert(observations@.take(node as int) =~= observations@);
    rows
}

/// A node that reported nothing changes no row: the merge is what it would be
/// without the node.
pub proof fn law_down_nodes_change_no_row(observations: Seq<NodeObservation>, down: NodeObservation)
    requires
        down.shards is None,
    ensures
        reports_of(observations.push(down)) == reports_of(observations),
{
    assert(observations.push(down).drop_last() =~= observations);
    assert(reports_of(observations) + Seq::<Report>::empty() =~= reports_of(observations));
}

/// A shard that some reporting node leads is shown as led, by a view that a
/// leader reported.
pub proof fn law_leader_views_win(rows: Seq<MergedShard>, reports: Seq<Report>, i: int, report: int)
    requires
        is_merge(rows, reports),
        0 <= i < rows.len(),
        0 <= report < reports.len(),
        matches_shard(reports[report], rows[i].shard_id, true),
    ensures
        rows[i].leader_view,
        rows[i].view@.role == "leader"@,
        rows[i].view@.shard_id == rows[i].shard_id,
{
    assert(merges(rows[i], reports));
    lemma_first_report(reports, rows[i].shard_id, true);
    if !is_led(reports, rows[i].shard_id) {
        assert(!matches_shard(reports[report], rows[i].shard_id, true));
    }
}

/// The cluster-wide rollup, folded from every node's own and from the rows.
pub struct ClusterQuorum {
    /// Shards that no reporting node leads, and whose leader nobody knows.
    pub leaderless: Vec<u32>,
    /// Shards that no reporting node leads, but whose leader is known: it was
    /// not reached.
    pub leader_unreached: Vec<u32>,
    /// Shards that two nodes lead.
    pub dual_leader: Vec<u32>,
    /// Shards that are led, but where a majority is not caught up.
    pub at_risk: Vec<u32>,
    pub storage_faulted: Vec<u32>,
    /// Shards whose local actor does not answer.
    pub unresponsive: Vec<u32>,
    pub nodes_reporting: usize,
    pub nodes_failed: usize,
    /// How many targets there were, when some were dropped.
    pub targets_truncated_from: Option<usize>,
}

/// The lists of a node's rollup that the cluster's is united from.
#[derive(Clone, Copy, Debug, Eq, PartialEq, Structural)]
pub enum RollupList {
    AtRisk,
    StorageFaulted,
    Unresponsive,
}

/// One list of a node's rollup.
pub open spec fn rollup_list(rollup: QuorumRollup, list: RollupList) -> Seq<u32> {
    match list {
        RollupList::AtRisk => rollup.at_risk_led_shards@,
        RollupList::StorageFaulted => rollup.storage_faulted_shards@,
        RollupList::Unresponsive => rollup.unresponsive_shards@,
    }
}

/// The shards that one node's list names.
pub open spec fn named_by_node(observation: NodeObservation, list: RollupList) -> Set<u32> {
    match observation.shards {
        Some(shards) => rollup_list(shards.quorum, list).to_set(),
        None => Set::empty(),
    }
}

/// The shards that some node's list names.
pub open spec fn named_by_nodes(observations: Seq<NodeObservation>, list: RollupList) -> Set<u32>
    decreases observations.len(),
{
    if observations.len() == 0 {
        Set::empty()
    } else {
        named_by_nodes(observations.drop_last(), list).union(named_by_node(observations.last(), list))
    }
}

/// How many nodes reported.
pub open spec fn reporting_nodes(observations: Seq<NodeObservation>) -> nat
    decreases observations.len(),
{
    if observations.len() == 0 {
        0
    } else {
        reporting_nodes(observations.drop_last()) + (if observations.last().shards is Some {
            1nat
        } else {
            0
        })
    }
}

/// Whether numbers are in strictly ascending order.
pub open spec fn strictly_ascending(numbers: Seq<u32>) -> bool {
    forall|i: int, j: int| 0 <= i < j < numbers.len() ==> #[trigger] numbers[i] < #[trigger] numbers[j]
}

/// Whether a list holds the members of a set, each once and in order.
pub open spec fn lists(numbers: Seq<u32>, set: Set<u32>) -> bool {
    strictly_ascending(numbers) && numbers.to_set() == set
}

/// The shards of the rows for which `keep` holds, in the rows' order.
pub open spec fn shards_where(rows: Seq<MergedShard>, keep: spec_fn(MergedShard) -> bool) -> Seq<u32> {
    rows.filter(keep).map_values(|row: MergedShard| row.shard_id)
}

/// Whether nobody leads the row's shard, and nobody knows who does.
pub open spec fn row_leaderless(row: MergedShard) -> bool {
    !row.leader_view && row.view.leader_id is None
}

/// Whether nobody who reported leads the row's shard, but its leader is known.
pub open spec fn row_leader_unreached(row: MergedShard) -> bool {
    !row.leader_view && row.view.leader_id is Some
}

/// Whether the rollup is that of the observations and their rows.
pub open spec fn is_rollup(quorum: ClusterQuorum, observations: Seq<NodeObservation>, merged: Seq<MergedShard>) -> bool {
    &&& quorum.leaderless@ == shards_where(merged, |row: MergedShard| row_leaderless(row))
    &&& quorum.leader_unreached@ == shards_where(merged, |row: MergedShard| row_leader_unreached(row))
    &&& quorum.dual_leader@ == shards_where(merged, |row: MergedShard| row.dual_leader)
    &&& lists(quorum.at_risk@, named_by_nodes(observations, RollupList::AtRisk))
    &&& lists(quorum.storage_faulted@, named_by_nodes(observations, RollupList::StorageFaulted))
    &&& lists(quorum.unresponsive@, named_by_nodes(observations, RollupList::Unresponsive))
    &&& quorum.nodes_reporting == reporting_nodes(observations)
    &&& quorum.nodes_reporting + quorum.nodes_failed == observations.len()
}

/// Puts a number where it belongs, unless it is there.
fn insert_number(numbers: &mut Vec<u32>, number: u32)
    requires
        strictly_ascending(old(numbers)@),
    ensures
        strictly_ascending(final(numbers)@),
        final(numbers)@.to_set() == old(numbers)@.to_set().insert(number),
{
    let ghost before = numbers@;
    let mut at: usize = 0;
    while at < numbers.len() && numbers[at] < number
        invariant
            at <= numbers@.len(),
            numbers@ == before,
            forall|i: int| 0 <= i < at ==> #[trigger] before[i] < number,
        decreases numbers@.len() - at,
    {
        at = at + 1;
    }
    if at < numbers.len() && numbers[at] == number {
        assert(before.to_set().contains(before[at as int]));
        assert(before.to_set().insert(number) =~= before.to_set());
    } else {
        numbers.insert(at, number);
        let ghost all = before.insert(at as int, number);
        assert(numbers@ == all);
        assert forall|i: int, j: int| 0 <= i < j < all.len() implies #[trigger] all[i] < #[trigger] all[j] by {
            let a = if i < at { i } else { i - 1 };
            let b = if j < at { j } else { j - 1 };
            if i != at && j != at {
                assert(before[a] < before[b]);
            } else if i == at && b > at {
                assert(before[at as int] < before[b]);
            }
        }
        assert forall|n: u32| all.to_set().contains(n) == before.to_set().insert(number).contains(n) by {
            if all.to_set().contains(n) {
                let i = choose|i: int| 0 <= i < all.len() && all[i] == n;
                if i < at {
                    assert(before[i] == n);
                } else if i > at {
                    assert(before[i - 1] == n);
                }
            }
            if before.to_set().contains(n) {
                let i = choose|i: int| 0 <= i < before.len() && before[i] == n;
                if i < at {
                    assert(all[i] == n);
                } else {
                    assert(all[i + 1] == n);
                }
            }
            assert(all[at as int] == number);
        }
        assert(all.to_set() =~= before.to_set().insert(number));
    }
}

/// One list of a node's rollup.
fn rollup_of(rollup: &QuorumRollup, list: RollupList) -> (numbers: &Vec<u32>)
    ensures
        numbers@ == rollup_list(*rollup, list),
{
    match list {
        RollupList::AtRisk => &rollup.at_risk_led_shards,
        RollupList::StorageFaulted => &rollup.storage_faulted_shards,
        RollupList::Unresponsive => &rollup.unresponsive_shards,
    }
}

/// The shards that some node's list names, in order.
fn united(observations: &[NodeObservation], list: RollupList) -> (numbers: Vec<u32>)
    ensures
        lists(numbers@, named_by_nodes(observations@, list)),
{
    let mut numbers: Vec<u32> = Vec::new();
    let mut n: usize = 0;
    assert(numbers@.to_set() =~= Set::empty());
    assert(observations@.take(0) =~= Seq::empty());
    while n < observations.len()
        invariant
            n <= observations@.len(),
            lists(numbers@, named_by_nodes(observations@.take(n as int), list)),
        decreases observations@.len() - n,
    {
        let ghost before = named_by_nodes(observations@.take(n as int), list);
        assert(observations@.take(n + 1).drop_last() =~= observations@.take(n as int));
        match &observations[n].shards {
            Some(shards) => {
                let named = rollup_of(&shards.quorum, list);
                let mut i: usize = 0;
                assert(named@.take(0).to_set() =~= Set::empty());
                assert(before.union(Set::empty()) =~= before);
                while i < named.len()
                    invariant
                        i <= named@.len(),
                        lists(numbers@, before.union(named@.take(i as int).to_set())),
                    decreases named@.len() - i,
                {
                    let ghost so_far = named@.take(i as int);
                    insert_number(&mut numbers, named[i]);
                    assert(named@.take(i + 1) =~= so_far.push(named@[i as int]));
                    assert(so_far.push(named@[i as int]).to_set() =~= so_far.to_set().insert(named@[i as int])) by {
                        let more = so_far.push(named@[i as int]);
                        assert forall|x: u32| more.to_set().contains(x) == so_far.to_set().insert(
                            named@[i as int],
                        ).contains(x) by {
                            if so_far.to_set().contains(x) {
                                let k = choose|k: int| 0 <= k < so_far.len() && so_far[k] == x;
                                assert(more[k] == x);
                            }
                            assert(more[so_far.len() as int] == named@[i as int]);
                        }
                    }
                    assert(before.union(so_far.to_set()).insert(named@[i as int]) =~= before.union(
                        so_far.to_set().insert(named@[i as int]),
                    ));
                    i = i + 1;
                }
                assert(named@.take(i as int) =~= named@);
            },
            None => {
                assert(before.union(Set::empty()) =~= before);
            },
        }
        n = n + 1;
    }
    assert(observations@.take(n as int) =~= observations@);
    numbers
}

/// The cluster-wide rollup of the observations and their merged rows.
pub fn cluster_quorum(observations: &[NodeObservation], merged: &[MergedShard]) -> (quorum: ClusterQuorum)
    ensures
        is_rollup(quorum, observations@, merged@),
        quorum.targets_truncated_from is None,
{
    let mut nodes_reporting: usize = 0;
    let mut nodes_failed: usize = 0;
    let mut n: usize = 0;
    assert(observations@.take(0) =~= Seq::empty());
    while n < observations.len()
        invariant
            n <= observations@.len(),
            nodes_reporting == reporting_nodes(observations@.take(n as int)),
            nodes_reporting + nodes_failed == n,
        decreases observations@.len() - n,
    {
        assert(observations@.take(n + 1).drop_last() =~= observations@.take(n as int));
        if observations[n].shards.is_some() {
            nodes_reporting = nodes_reporting + 1;
        } else {
            nodes_failed = nodes_failed + 1;
        }
        n = n + 1;
    }
    assert(observations@.take(n as int) =~= observations@);
    let ghost is_leaderless = |row: MergedShard| row_leaderless(row);
    let ghost is_unreached = |row: MergedShard| row_leader_unreached(row);
    let ghost is_dual = |row: MergedShard| row.dual_leader;
    let mut leaderless: Vec<u32> = Vec::new();
    let mut leader_unreached: Vec<u32> = Vec::new();
    let mut dual_leader: Vec<u32> = Vec::new();
    let mut i: usize = 0;
    proof {
        reveal(Seq::filter);
    }
    assert(merged@.take(0) =~= Seq::empty());
    assert(leaderless@ =~= shards_where(merged@.take(0), is_leaderless));
    assert(leader_unreached@ =~= shards_where(merged@.take(0), is_unreached));
    assert(dual_leader@ =~= shards_where(merged@.take(0), is_dual));
    while i < merged.len()
        invariant
            i <= merged@.len(),
            is_leaderless == (|row: MergedShard| row_leaderless(row)),
            is_unreached == (|row: MergedShard| row_leader_unreached(row)),
            is_dual == (|row: MergedShard| row.dual_leader),
            leaderless@ == shards_where(merged@.take(i as int), is_leaderless),
            leader_unreached@ == shards_where(merged@.take(i as int), is_unreached),
            dual_leader@ == shards_where(merged@.take(i as int), is_dual),
        decreases merged@.len() - i,
    {
        let row = &merged[i];
        proof {
            lemma_shards_where_step(merged@, i as int, is_leaderless);
            lemma_shards_where_step(merged@, i as int, is_unreached);
            lemma_shards_where_step(merged@, i as int, is_dual);
        }
        if !row.leader_view {
            if row.view.leader_id.is_some() {
                leader_unreached.push(row.shard_id);
            } else {
                leaderless.push(row.shard_id);
            }
        }
        if row.dual_leader {
            dual_leader.push(row.shard_id);
        }
        i = i + 1;
    }
    assert(merged@.take(i as int) =~= merged@);
    ClusterQuorum {
        leaderless,
        leader_unreached,
        dual_leader,
        at_risk: united(observations, RollupList::AtRisk),
        storage_faulted: united(observations, RollupList::StorageFaulted),
        unresponsive: united(observations, RollupList::Unresponsive),
        nodes_reporting,
        nodes_failed,
        targets_truncated_from: None,
    }
}

/// One row more adds its shard exactly when it is kept.
proof fn lemma_shards_where_step(rows: Seq<MergedShard>, i: int, keep: spec_fn(MergedShard) -> bool)
    requires
        0 <= i < rows.len(),
    ensures
        shards_where(rows.take(i + 1), keep) == (if keep(rows[i]) {
            shards_where(rows.take(i), keep).push(rows[i].shard_id)
        } else {
            shards_where(rows.take(i), keep)
        }),
{
    reveal(Seq::filter);
    assert(rows.take(i + 1).drop_last() =~= rows.take(i));
    assert(rows.take(i + 1).last() == rows[i]);
    if keep(rows[i]) {
        assert(shards_where(rows.take(i + 1), keep) =~= shards_where(rows.take(i), keep).push(rows[i].shard_id));
    }
}

/// A shard without a leader's view is counted once, as leaderless or as
/// unreached; one with a leader's view is counted as neither.
pub proof fn law_unled_shards_are_counted_once(row: MergedShard)
    ensures
        row.leader_view ==> !row_leaderless(row) && !row_leader_unreached(row),
        !row.leader_view ==> (row_leaderless(row) <==> !row_leader_unreached(row)),
{
}

} // verus!
