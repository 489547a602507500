//! What the graph builder computes once the nodes are linked: each node's
//! share of the total time with its severity, the two greatest consumers,
//! the root, and the nodes that more than one parent refers to.

use crate::models::{
    ExecutionTreeNode, HotspotSeverity, NodeType, NodeView, OperatorMetrics, OperatorMetricsView,
    StringMap, TimeShare,
};
use crate::text::{chars_of, contains, contains_of, pos_of};
use vstd::prelude::*;

verus! {

/// A node's own execution time; 0 where it has none.
pub open spec fn time_or_zero(n: NodeView) -> nat {
    match n.metrics.operator_total_time {
        Some(t) => t as nat,
        None => 0,
    }
}

/// The execution time of the first `k` nodes together.
pub open spec fn total_time(nodes: Seq<NodeView>, k: nat) -> nat
    decreases k,
{
    if k == 0 || k > nodes.len() {
        0
    } else {
        total_time(nodes, (k - 1) as nat) + time_or_zero(nodes[k - 1])
    }
}

/// The severity of a share of `part` in `total`: critical from 50 percent,
/// high from 30, medium from 15, low from 5, each bound included.
pub open spec fn severity_of(part: nat, total: nat) -> HotspotSeverity {
    if part * 100 >= 50 * total {
        HotspotSeverity::Critical
    } else if part * 100 >= 30 * total {
        HotspotSeverity::High
    } else if part * 100 >= 15 * total {
        HotspotSeverity::Medium
    } else if part * 100 >= 5 * total {
        HotspotSeverity::Low
    } else {
        HotspotSeverity::Unset
    }
}

/// Among the first `k` nodes other than `skip`, the one with the greatest
/// time, the earliest of equals; -1 where there is none.
pub open spec fn best_before(nodes: Seq<NodeView>, skip: int, k: nat) -> int
    decreases k,
{
    if k == 0 || k > nodes.len() {
        -1
    } else {
        let b = best_before(nodes, skip, (k - 1) as nat);
        if k - 1 == skip {
            b
        } else if b < 0 || time_or_zero(nodes[k - 1]) > time_or_zero(nodes[b]) {
            k - 1
        } else {
            b
        }
    }
}

/// The best of the first `k` nodes has the greatest time among them, and
/// is the earliest of those with that time; there is none only where
/// there is no node but the one that is skipped.
pub proof fn best_is_greatest_and_earliest(nodes: Seq<NodeView>, skip: int, k: nat)
    requires
        k <= nodes.len(),
    ensures
        ({
            let b = best_before(nodes, skip, k);
            &&& -1 <= b < k
            &&& b >= 0 ==> b != skip
            &&& b < 0 ==> k == 0 || (k == 1 && skip == 0)
            &&& b >= 0 ==> forall|j: int|
                0 <= j < k && j != skip ==> time_or_zero(#[trigger] nodes[j]) <= time_or_zero(
                    nodes[b],
                ) && (j < b ==> time_or_zero(nodes[j]) < time_or_zero(nodes[b]))
        }),
    decreases k,
{
    if k > 0 {
        best_is_greatest_and_earliest(nodes, skip, (k - 1) as nat);
    }
}

/// The node with the greatest time.
pub open spec fn most_consuming(nodes: Seq<NodeView>) -> int {
    best_before(nodes, -1, nodes.len())
}

/// The node with the greatest time but for the first.
pub open spec fn second_consuming(nodes: Seq<NodeView>) -> int {
    best_before(nodes, most_consuming(nodes), nodes.len())
}

/// A node measured against the total: with a time, and unless the total
/// is zero, it gets its share and, from 5 percent, a severity and the
/// hotspot flag; `most` and `second` flag it as a top consumer, whatever
/// the total is.
pub open spec fn measured_node(n: NodeView, total: nat, most: bool, second: bool) -> NodeView {
    let shared = if total == 0 {
        n
    } else {
        match n.metrics.operator_total_time {
            Some(t) => {
                let severity = severity_of(t as nat, total);
                NodeView {
                    time_percentage: Some(TimeShare { part: t, total: total as u128 }),
                    is_hotspot: n.is_hotspot || severity != HotspotSeverity::Unset,
                    hotspot_severity: if severity != HotspotSeverity::Unset {
                        severity
                    } else {
                        n.hotspot_severity
                    },
                    ..n
                }
            },
            None => n,
        }
    };
    NodeView {
        is_most_consuming: n.is_most_consuming || most,
        is_second_most_consuming: n.is_second_most_consuming || second,
        ..shared
    }
}

/// The nodes measured against the total of their times. Where the total is
/// zero no node gets a share or a severity; the two greatest consumers are
/// flagged all the same.
pub open spec fn measured(nodes: Seq<NodeView>) -> Seq<NodeView> {
    let total = total_time(nodes, nodes.len());
    Seq::new(
        nodes.len(),
        |i: int|
            measured_node(
                nodes[i],
                total,
                i == most_consuming(nodes),
                i == second_consuming(nodes),
            ),
    )
}

/// The two greatest consumers are flagged whatever the total is: with one
/// node or more the greatest, with two or more another node as the second,
/// and no node besides them gets a flag. Against a total of zero no node's
/// share, severity or hotspot flag changes.
pub proof fn top_consumers_are_flagged(nodes: Seq<NodeView>)
    ensures
        measured(nodes).len() == nodes.len(),
        nodes.len() >= 1 ==> 0 <= most_consuming(nodes) < nodes.len(),
        nodes.len() >= 2 ==> 0 <= second_consuming(nodes) < nodes.len() && second_consuming(nodes)
            != most_consuming(nodes),
        forall|i: int|
            0 <= i < nodes.len() ==> (#[trigger] measured(nodes)[i]).is_most_consuming == (
            nodes[i].is_most_consuming || i == most_consuming(nodes))
                && measured(nodes)[i].is_second_most_consuming == (
            nodes[i].is_second_most_consuming || i == second_consuming(nodes)),
        total_time(nodes, nodes.len()) == 0 ==> forall|i: int|
            0 <= i < nodes.len() ==> (#[trigger] measured(nodes)[i]).time_percentage
                == nodes[i].time_percentage && measured(nodes)[i].hotspot_severity
                == nodes[i].hotspot_severity && measured(nodes)[i].is_hotspot == nodes[i].is_hotspot,
{
    best_is_greatest_and_earliest(nodes, -1, nodes.len());
    best_is_greatest_and_earliest(nodes, most_consuming(nodes), nodes.len());
}

/// The parts of the shares of the first `k` nodes together.
pub open spec fn share_sum(nodes: Seq<NodeView>, k: nat) -> nat
    decreases k,
{
    if k == 0 || k > nodes.len() {
        0
    } else {
        share_sum(nodes, (k - 1) as nat) + match nodes[k - 1].time_percentage {
            Some(s) => s.part as nat,
            None => 0,
        }
    }
}

/// The times of `k` nodes together stay below `k` times 2^64.
proof fn lemma_total_time_bound(nodes: Seq<NodeView>, k: nat)
    requires
        k <= nodes.len(),
    ensures
        total_time(nodes, k) <= k * 0xffff_ffff_ffff_ffff,
    decreases k,
{
    if k > 0 {
        lemma_total_time_bound(nodes, (k - 1) as nat);
        assert((k - 1) * 0xffff_ffff_ffff_ffff + 0xffff_ffff_ffff_ffff == k * 0xffff_ffff_ffff_ffff)
            by (nonlinear_arith);
    }
}

/// The shares of the measured nodes make up the whole: where every node
/// has a time and the total is not zero, every node has a share of that
/// total, and the parts of all shares add up to it. In percent: the time
/// percentages add up to 100.
pub proof fn time_shares_sum_to_whole(nodes: Seq<NodeView>)
    requires
        nodes.len() <= usize::MAX,
        forall|i: int| 0 <= i < nodes.len() ==> (#[trigger] nodes[i]).metrics.operator_total_time is Some,
        total_time(nodes, nodes.len()) > 0,
    ensures
        forall|i: int|
            0 <= i < nodes.len() ==> (#[trigger] measured(nodes)[i]).time_percentage is Some
                && measured(nodes)[i].time_percentage.unwrap().total == total_time(
                nodes,
                nodes.len(),
            ),
        share_sum(measured(nodes), nodes.len()) == total_time(nodes, nodes.len()),
{
    lemma_total_time_bound(nodes, nodes.len());
    assert(nodes.len() * 0xffff_ffff_ffff_ffff <= 0xffff_ffff_ffff_ffff * 0xffff_ffff_ffff_ffff)
        by (nonlinear_arith)
        requires
            nodes.len() <= 0xffff_ffff_ffff_ffff,
    ;
    lemma_share_sum(nodes, nodes.len());
}

/// Measuring leaves the times as they are.
pub proof fn lemma_measured_keeps_times(nodes: Seq<NodeView>, k: nat)
    requires
        k <= nodes.len(),
    ensures
        measured(nodes).len() == nodes.len(),
        forall|i: int|
            0 <= i < nodes.len() ==> (#[trigger] measured(nodes)[i]).metrics == nodes[i].metrics,
        total_time(measured(nodes), k) == total_time(nodes, k),
    decreases k,
{
    if k > 0 {
        lemma_measured_keeps_times(nodes, (k - 1) as nat);
    }
}

proof fn lemma_share_sum(nodes: Seq<NodeView>, k: nat)
    requires
        forall|i: int| 0 <= i < nodes.len() ==> (#[trigger] nodes[i]).metrics.operator_total_time is Some,
        total_time(nodes, nodes.len()) > 0,
        k <= nodes.len(),
    ensures
        share_sum(measured(nodes), k) == total_time(nodes, k),
    decreases k,
{
    if k > 0 {
        lemma_share_sum(nodes, (k - 1) as nat);
        assert(nodes[k - 1].metrics.operator_total_time is Some);
    }
}

/// The times of two different nodes of the first `k` together do not
/// exceed the total.
proof fn lemma_two_times_within_total(nodes: Seq<NodeView>, i: int, j: int, k: nat)
    requires
        0 <= i < k,
        0 <= j < k,
        i != j,
        k <= nodes.len(),
    ensures
        time_or_zero(nodes[i]) + time_or_zero(nodes[j]) <= total_time(nodes, k),
    decreases k,
{
    if i < k - 1 && j < k - 1 {
        lemma_two_times_within_total(nodes, i, j, (k - 1) as nat);
    } else if i == k - 1 {
        lemma_time_within_total(nodes, j, (k - 1) as nat);
    } else {
        lemma_time_within_total(nodes, i, (k - 1) as nat);
    }
}

proof fn lemma_time_within_total(nodes: Seq<NodeView>, i: int, k: nat)
    requires
        0 <= i < k,
        k <= nodes.len(),
    ensures
        time_or_zero(nodes[i]) <= total_time(nodes, k),
    decreases k,
{
    if i < k - 1 {
        lemma_time_within_total(nodes, i, (k - 1) as nat);
    }
}

/// A node that takes more than half of the total time is a critical
/// hotspot and the greatest consumer.
pub proof fn dominant_node_is_critical(nodes: Seq<NodeView>, i: int)
    requires
        0 <= i < nodes.len(),
        nodes.len() <= usize::MAX,
        nodes[i].metrics.operator_total_time is Some,
        2 * time_or_zero(nodes[i]) > total_time(nodes, nodes.len()),
    ensures
        measured(nodes)[i].hotspot_severity == HotspotSeverity::Critical,
        measured(nodes)[i].is_hotspot,
        measured(nodes)[i].is_most_consuming,
        !measured(nodes)[i].is_second_most_consuming || nodes[i].is_second_most_consuming,
{
    let total = total_time(nodes, nodes.len());
    lemma_time_within_total(nodes, i, nodes.len());
    best_is_greatest_and_earliest(nodes, -1, nodes.len());
    let b = most_consuming(nodes);
    if b != i {
        lemma_two_times_within_total(nodes, i, b, nodes.len());
    }
    best_is_greatest_and_earliest(nodes, b, nodes.len());
}

/// Where a node is a result sink, the root is the first result sink.
pub proof fn root_is_the_first_result_sink(nodes: Seq<NodeView>, k: int)
    requires
        0 <= k < nodes.len(),
        contains_of(nodes[k].operator_name, "RESULT_SINK"@),
    ensures
        root_index(nodes) matches Some(r) && 0 <= r <= k && root_of(nodes) == nodes[r]
            && contains_of(nodes[r].operator_name, "RESULT_SINK"@) && forall|j: int|
            0 <= j < r ==> !contains_of((#[trigger] nodes[j]).operator_name, "RESULT_SINK"@),
{
    lemma_first_result_sink(nodes, 0, k);
}

proof fn lemma_first_result_sink(nodes: Seq<NodeView>, from: int, k: int)
    requires
        0 <= from <= k < nodes.len(),
        contains_of(nodes[k].operator_name, "RESULT_SINK"@),
    ensures
        first_result_sink(nodes, from) matches Some(r) && from <= r <= k && contains_of(
            nodes[r].operator_name,
            "RESULT_SINK"@,
        ) && forall|j: int|
            from <= j < r ==> !contains_of((#[trigger] nodes[j]).operator_name, "RESULT_SINK"@),
    decreases k - from,
{
    if !contains_of(nodes[from].operator_name, "RESULT_SINK"@) {
        lemma_first_result_sink(nodes, from + 1, k);
    }
}

/// The severity of a share.
pub fn severity(part: u64, total: u128) -> (r: HotspotSeverity)
    ensures
        r == severity_of(part as nat, total as nat),
{
    if total > 0xffff_ffff_ffff_ffff * 100 {
        return HotspotSeverity::Unset;
    }
    let scaled: u128 = (part as u128) * 100;
    if scaled >= 50 * total {
        HotspotSeverity::Critical
    } else if scaled >= 30 * total {
        HotspotSeverity::High
    } else if scaled >= 15 * total {
        HotspotSeverity::Medium
    } else if scaled >= 5 * total {
        HotspotSeverity::Low
    } else {
        HotspotSeverity::Unset
    }
}

fn time_of(node: &ExecutionTreeNode) -> (t: u64)
    ensures
        t == time_or_zero(node.deep_view()),
{
    match node.metrics.operator_total_time {
        Some(t) => t,
        None => 0,
    }
}

/// The node with the greatest time among those other than `skip`.
fn find_best(nodes: &Vec<ExecutionTreeNode>, skip: Option<usize>) -> (r: Option<usize>)
    ensures
        match r {
            Some(b) => b == best_before(
                nodes.deep_view(),
                match skip {
                    Some(s) => s as int,
                    None => -1,
                },
                nodes@.len(),
            ) && b < nodes@.len(),
            None => best_before(
                nodes.deep_view(),
                match skip {
                    Some(s) => s as int,
                    None => -1,
                },
                nodes@.len(),
            ) == -1,
        },
{
    let ghost view = nodes.deep_view();
    let ghost s: int = match skip {
        Some(s) => s as int,
        None => -1,
    };
    let mut best: Option<usize> = None;
    let mut k: usize = 0;
    while k < nodes.len()
        invariant
            k <= nodes.len(),
            view == nodes.deep_view(),
            s == match skip {
                Some(s) => s as int,
                None => -1,
            },
            match best {
                Some(b) => b == best_before(view, s, k as nat) && b < k,
                None => best_before(view, s, k as nat) == -1,
            },
        decreases nodes.len() - k,
    {
        assert(view[k as int] == nodes@[k as int].deep_view());
        let skipped: bool = match skip {
            Some(s) => s == k,
            None => false,
        };
        if !skipped {
            match best {
                Some(b) => {
                    assert(view[b as int] == nodes@[b as int].deep_view());
                    if time_of(&nodes[k]) > time_of(&nodes[b]) {
                        best = Some(k);
                    }
                },
                None => {
                    best = Some(k);
                },
            }
        }
        k += 1;
    }
    best
}

/// Measures the nodes against the total of their times.
pub fn measure(nodes: &mut Vec<ExecutionTreeNode>)
    ensures
        final(nodes).deep_view() == measured(old(nodes).deep_view()),
{
    let ghost before = nodes.deep_view();
    let mut total: u128 = 0;
    let mut k: usize = 0;
    while k < nodes.len()
        invariant
            k <= nodes.len(),
            before == nodes.deep_view(),
            total == total_time(before, k as nat),
        decreases nodes.len() - k,
    {
        assert(before[k as int] == nodes@[k as int].deep_view());
        proof {
            lemma_total_time_bound(before, k as nat);
            assert(k * 0xffff_ffff_ffff_ffff + 0xffff_ffff_ffff_ffff <= 0xffff_ffff_ffff_ffff
                * 0xffff_ffff_ffff_ffff) by (nonlinear_arith)
                requires
                    k < 0xffff_ffff_ffff_ffff,
            ;
        }
        total = total + (time_of(&nodes[k]) as u128);
        k += 1;
    }
    let most = find_best(nodes, None);
    let second = match most {
        Some(m) => find_best(nodes, Some(m)),
        None => None,
    };
    proof {
        best_is_greatest_and_earliest(before, -1, before.len());
    }
    let mut i: usize = 0;
    while i < nodes.len()
        invariant
            i <= nodes.len(),
            nodes.len() == before.len(),
            total == total_time(before, before.len()),
            match most {
                Some(m) => m == most_consuming(before),
                None => most_consuming(before) == -1,
            },
            match second {
                Some(s) => s == second_consuming(before),
                None => second_consuming(before) == -1,
            },
            forall|x: int| 0 <= x < i ==> nodes@[x].deep_view() == measured(before)[x],
            forall|x: int| i <= x < nodes.len() ==> nodes@[x].deep_view() == before[x],
        decreases nodes.len() - i,
    {
        let ghost had = nodes@[i as int].deep_view();
        if total > 0 {
            match nodes[i].metrics.operator_total_time {
                Some(t) => {
                    let level = severity(t, total);
                    nodes[i].time_percentage = Some(TimeShare { part: t, total });
                    match level {
                        HotspotSeverity::Unset => {},
                        _ => {
                            nodes[i].is_hotspot = true;
                            nodes[i].hotspot_severity = level;
                        },
                    }
                },
                None => {},
            }
        }
        match most {
            Some(m) => {
                if m == i {
                    nodes[i].is_most_consuming = true;
                }
            },
            None => {},
        }
        match second {
            Some(s) => {
                if s == i {
                    nodes[i].is_second_most_consuming = true;
                }
            },
            None => {},
        }
        proof {
            assert(nodes@[i as int].deep_view() == measured_node(
                had,
                total as nat,
                i == most_consuming(before),
                i == second_consuming(before),
            ));
        }
        i += 1;
    }
    assert(nodes.deep_view() =~= measured(before));
}

/// The first node at or after `j` whose name holds `RESULT_SINK`.
pub open spec fn first_result_sink(nodes: Seq<NodeView>, j: int) -> Option<int>
    decreases nodes.len() - j,
{
    if j < 0 || j >= nodes.len() {
        None
    } else if contains_of(nodes[j].operator_name, "RESULT_SINK"@) {
        Some(j)
    } else {
        first_result_sink(nodes, j + 1)
    }
}

/// The first node at or after `j` of the pipeline `Pipeline 0` of the
/// fragment `Fragment 0`.
pub open spec fn first_of_first_pipeline(nodes: Seq<NodeView>, j: int) -> Option<int>
    decreases nodes.len() - j,
{
    if j < 0 || j >= nodes.len() {
        None
    } else if nodes[j].fragment_id == Some("Fragment 0"@) && nodes[j].pipeline_id == Some(
        "Pipeline 0"@,
    ) {
        Some(j)
    } else {
        first_of_first_pipeline(nodes, j + 1)
    }
}

/// The node chosen as root: the first result sink, else the first node of
/// the first pipeline of the first fragment, else the first node.
pub open spec fn root_index(nodes: Seq<NodeView>) -> Option<int> {
    if nodes.len() == 0 {
        None
    } else if first_result_sink(nodes, 0) is Some {
        first_result_sink(nodes, 0)
    } else if first_of_first_pipeline(nodes, 0) is Some {
        first_of_first_pipeline(nodes, 0)
    } else {
        Some(0)
    }
}

/// The root of a graph without nodes.
pub open spec fn placeholder_root() -> NodeView {
    NodeView {
        id: "root"@,
        operator_name: "UNKNOWN"@,
        node_type: NodeType::Unknown,
        plan_node_id: None,
        parent_plan_node_id: None,
        nereids_id: None,
        dest_id: None,
        metrics: OperatorMetricsView::empty(),
        children: Seq::empty(),
        depth: 0,
        is_hotspot: false,
        hotspot_severity: HotspotSeverity::Unset,
        fragment_id: None,
        pipeline_id: None,
        table_name: None,
        time_percentage: None,
        is_most_consuming: false,
        is_second_most_consuming: false,
        unique_metrics: Seq::empty(),
        plan_info: Seq::empty(),
        common_counters: Seq::empty(),
        custom_counters: Seq::empty(),
    }
}

/// The root: the chosen node, or a placeholder where there is no node.
pub open spec fn root_of(nodes: Seq<NodeView>) -> NodeView {
    match root_index(nodes) {
        Some(i) => nodes[i],
        None => placeholder_root(),
    }
}

fn is_text(s: &Option<String>, word: &str) -> (r: bool)
    ensures
        r == (s.deep_view() == Some(word@)),
{
    match s {
        Some(t) => {
            let w: String = word.to_owned();
            *t == w
        },
        None => false,
    }
}

/// The index of the node chosen as root.
pub fn find_root_index(nodes: &Vec<ExecutionTreeNode>) -> (r: Option<usize>)
    ensures
        pos_of(r) == root_index(nodes.deep_view()),
        r matches Some(i) ==> i < nodes@.len(),
{
    let ghost view = nodes.deep_view();
    if nodes.len() == 0 {
        return None;
    }
    let word = chars_of("RESULT_SINK");
    let mut j: usize = 0;
    while j < nodes.len()
        invariant
            j <= nodes.len(),
            view == nodes.deep_view(),
            word@ == "RESULT_SINK"@,
            first_result_sink(view, 0) == first_result_sink(view, j as int),
        decreases nodes.len() - j,
    {
        assert(view[j as int] == nodes@[j as int].deep_view());
        let name = chars_of(nodes[j].operator_name.as_str());
        if contains(name.as_slice(), word.as_slice()) {
            return Some(j);
        }
        j += 1;
    }
    let mut j: usize = 0;
    while j < nodes.len()
        invariant
            j <= nodes.len(),
            nodes.len() > 0,
            view == nodes.deep_view(),
            first_result_sink(view, 0) is None,
            first_of_first_pipeline(view, 0) == first_of_first_pipeline(view, j as int),
        decreases nodes.len() - j,
    {
        assert(view[j as int] == nodes@[j as int].deep_view());
        if is_text(&nodes[j].fragment_id, "Fragment 0") && is_text(
            &nodes[j].pipeline_id,
            "Pipeline 0",
        ) {
            return Some(j);
        }
        j += 1;
    }
    Some(0)
}

/// A copy of the node chosen as root, or the placeholder.
pub fn find_root(nodes: &Vec<ExecutionTreeNode>) -> (r: ExecutionTreeNode)
    ensures
        r.deep_view() == root_of(nodes.deep_view()),
{
    match find_root_index(nodes) {
        Some(i) => {
            assert(nodes.deep_view()[i as int] == nodes@[i as int].deep_view());
            nodes[i].clone()
        },
        None => {
            let node = ExecutionTreeNode {
                id: "root".to_owned(),
                operator_name: "UNKNOWN".to_owned(),
                node_type: NodeType::Unknown,
                plan_node_id: None,
                parent_plan_node_id: None,
                nereids_id: None,
                dest_id: None,
                metrics: OperatorMetrics::default(),
                children: Vec::new(),
                depth: 0,
                is_hotspot: false,
                hotspot_severity: HotspotSeverity::Unset,
                fragment_id: None,
                pipeline_id: None,
                table_name: None,
                time_percentage: None,
                is_most_consuming: false,
                is_second_most_consuming: false,
                unique_metrics: StringMap::new(),
                plan_info: Vec::new(),
                common_counters: Vec::new(),
                custom_counters: Vec::new(),
            };
            proof {
                assert(node.children.deep_view() =~= Seq::<Seq<char>>::empty());
                assert(node.plan_info.deep_view() =~= placeholder_root().plan_info);
                assert(node.common_counters.deep_view() =~= placeholder_root().common_counters);
                assert(node.custom_counters.deep_view() =~= placeholder_root().custom_counters);
            }
            node
        },
    }
}

/// How often `id` stands among the first `k` of `children`.
pub open spec fn count_in(children: Seq<Seq<char>>, id: Seq<char>, k: nat) -> nat
    decreases k,
{
    if k == 0 || k > children.len() {
        0
    } else {
        count_in(children, id, (k - 1) as nat) + if children[k - 1] == id {
            1nat
        } else {
            0nat
        }
    }
}

/// How often the first `k` nodes name `id` as a child.
pub open spec fn parent_refs(nodes: Seq<NodeView>, id: Seq<char>, k: nat) -> nat
    decreases k,
{
    if k == 0 || k > nodes.len() {
        0
    } else {
        parent_refs(nodes, id, (k - 1) as nat) + count_in(
            nodes[k - 1].children,
            id,
            nodes[k - 1].children.len(),
        )
    }
}

/// Those of the first `k` nodes that are named as a child more than once,
/// in order.
pub open spec fn multi_parent(nodes: Seq<NodeView>, k: nat) -> Seq<int>
    decreases k,
{
    if k == 0 || k > nodes.len() {
        Seq::empty()
    } else if parent_refs(nodes, nodes[k - 1].id, nodes.len()) > 1 {
        multi_parent(nodes, (k - 1) as nat).push(k - 1)
    } else {
        multi_parent(nodes, (k - 1) as nat)
    }
}

/// `n` counted to two.
pub open spec fn at_most_two(n: nat) -> nat {
    if n > 2 {
        2
    } else {
        n
    }
}

/// How often the nodes name `id` as a child, counted to two.
fn count_parents(nodes: &Vec<ExecutionTreeNode>, id: &String) -> (r: u8)
    ensures
        r == at_most_two(parent_refs(nodes.deep_view(), id@, nodes@.len())),
{
    let ghost view = nodes.deep_view();
    let mut seen: u8 = 0;
    let mut k: usize = 0;
    while k < nodes.len()
        invariant
            k <= nodes.len(),
            view == nodes.deep_view(),
            seen == at_most_two(parent_refs(view, id@, k as nat)),
        decreases nodes.len() - k,
    {
        assert(view[k as int] == nodes@[k as int].deep_view());
        let children: &Vec<String> = &nodes[k].children;
        let ghost cv = children.deep_view();
        let ghost base = parent_refs(view, id@, k as nat);
        let mut c: usize = 0;
        while c < children.len()
            invariant
                c <= children.len(),
                cv == children.deep_view(),
                seen == at_most_two(base + count_in(cv, id@, c as nat)),
            decreases children.len() - c,
        {
            assert(cv[c as int] == children@[c as int]@);
            if children[c] == *id && seen < 2 {
                seen += 1;
            }
            c += 1;
        }
        k += 1;
    }
    seen
}

/// The nodes that are named as a child more than once, by index.
pub fn find_multi_parent(nodes: &Vec<ExecutionTreeNode>) -> (r: Vec<usize>)
    ensures
        r@.map_values(|i: usize| i as int) == multi_parent(nodes.deep_view(), nodes@.len()),
{
    let ghost view = nodes.deep_view();
    let mut out: Vec<usize> = Vec::new();
    let mut k: usize = 0;
    proof {
        assert(out@.map_values(|i: usize| i as int) =~= multi_parent(view, 0));
    }
    while k < nodes.len()
        invariant
            k <= nodes.len(),
            view == nodes.deep_view(),
            out@.map_values(|i: usize| i as int) == multi_parent(view, k as nat),
        decreases nodes.len() - k,
    {
        assert(view[k as int] == nodes@[k as int].deep_view());
        let ghost had = out@.map_values(|i: usize| i as int);
        if count_parents(nodes, &nodes[k].id) > 1 {
            out.push(k);
            assert(out@.map_values(|i: usize| i as int) =~= had.push(k as int));
        }
        k += 1;
    }
    out
}

} // verus!
