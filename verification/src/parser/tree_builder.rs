//! The graph builder: one node for each operator, edges by four linking
//! rules, depths from the root, and each node's share of the total time.

use crate::models::{
    clone_items, clone_opt_string, find_item, inserted, item_value, lemma_metric_item_view,
    Entries, ExecutionTree, ExecutionTreeNode, ExecutionTreeView, Fragment, FragmentView,
    HotspotSeverity, MetricItemView, NodeType, NodeView, OperatorMetrics, OperatorMetricsView,
    PipelineView, StringMap,
};
use crate::numbers::{int_repr, int_repr_is_injective};
use crate::parser::operator_parser::{
    exec_time_of, input_rows_of, int_string, parsed_operators_of, rows_produced_of, sum_or_avg,
    with_number, with_text, OperatorParser, ParsedOperator, ParsedOperatorView,
};
use crate::models::ProfileSummary;
use crate::parser::depths::{assign_depths, with_depths};
use crate::parser::links::{link, linked};
use crate::parser::measures::{
    find_multi_parent, find_root, measure, measured, multi_parent, root_of,
};
use crate::models::Pipeline;
use crate::parser::pipeline_text::{pipeline_text, pipeline_text_of};
use crate::parser::value_parser::{aggregated_of, first_value_of, ValueParser};
use crate::text::{chars_of, contains, contains_of, has_no_dash};
use vstd::prelude::*;
use vstd::string::StringExecFns;

verus! {

/// What `str::to_uppercase` makes of `text`.
pub uninterp spec fn upper_of(text: Seq<char>) -> Seq<char>;

/// `str::to_uppercase`: the text with every character replaced by its
/// upper-case form. The result depends on nothing but the text.
#[verifier::external_body]
fn to_upper(name: &str) -> (r: String)
    ensures
        r@ == upper_of(name@),
{
    name.to_uppercase()
}

/// The kind of node that an upper-case operator name stands for: the first
/// of the known words that the name holds decides.
pub open spec fn node_type_of_upper(u: Seq<char>) -> NodeType {
    if contains_of(u, "SCAN"@) {
        NodeType::OlapScan
    } else if contains_of(u, "EXCHANGE"@) {
        NodeType::Exchange
    } else if contains_of(u, "HASH_JOIN"@) {
        NodeType::HashJoin
    } else if contains_of(u, "AGGREGATE"@) || contains_of(u, "AGGREGATION"@) {
        NodeType::Aggregate
    } else if contains_of(u, "SORT"@) {
        NodeType::Sort
    } else if contains_of(u, "LIMIT"@) {
        NodeType::Limit
    } else if contains_of(u, "PROJECT"@) {
        NodeType::Project
    } else if contains_of(u, "FILTER"@) {
        NodeType::Filter
    } else if contains_of(u, "UNION"@) {
        NodeType::Union
    } else if contains_of(u, "RESULT_SINK"@) {
        NodeType::ResultSink
    } else if contains_of(u, "DATA_STREAM_SINK"@) || contains_of(u, "STREAM_SINK"@) {
        NodeType::DataStreamSink
    } else {
        NodeType::Unknown
    }
}

/// The kind of node that an operator name stands for, whatever its case.
pub open spec fn node_type_of(name: Seq<char>) -> NodeType {
    node_type_of_upper(upper_of(name))
}

/// A signed number taken as unsigned: itself, or 2^64 more where it is
/// negative.
pub open spec fn as_unsigned(t: i64) -> u64 {
    if t >= 0 {
        t as u64
    } else {
        (t + 0x1_0000_0000_0000_0000) as u64
    }
}

/// `as_unsigned` of a number, where there is one.
pub open spec fn opt_unsigned(t: Option<i64>) -> Option<u64> {
    match t {
        Some(v) => Some(as_unsigned(v)),
        None => None,
    }
}

/// The peak memory of an operator: the sum, else the average, of its
/// `MemoryUsagePeak` counter.
pub open spec fn memory_of(p: ParsedOperatorView) -> Option<u64> {
    match item_value(p.common_counters, "MemoryUsagePeak"@) {
        Some(v) => opt_unsigned(sum_or_avg(aggregated_of(v))),
        None => None,
    }
}

/// The execution time of an operator as the profile shows it.
pub open spec fn exec_time_text_of(p: ParsedOperatorView) -> Option<Seq<char>> {
    match item_value(p.common_counters, "ExecTime"@) {
        Some(v) => Some(first_value_of(v)),
        None => None,
    }
}

/// The decoded metrics of an operator.
pub open spec fn metrics_of(p: ParsedOperatorView) -> OperatorMetricsView {
    OperatorMetricsView {
        operator_total_time: opt_unsigned(exec_time_of(p)),
        operator_total_time_raw: exec_time_text_of(p),
        rows_returned: opt_unsigned(rows_produced_of(p)),
        input_rows: opt_unsigned(input_rows_of(p)),
        memory_used: memory_of(p),
        cpu_time: None,
        wait_time: None,
    }
}

/// `m` with the first `n` items of `items` put into it, each under its key.
pub open spec fn with_items(m: Entries, items: Seq<MetricItemView>, n: nat) -> Entries
    decreases n,
{
    if n == 0 || n > items.len() {
        m
    } else {
        inserted(with_items(m, items, (n - 1) as nat), items[n - 1].key, items[n - 1].value)
    }
}

/// What sets an operator apart: its plan metadata, its table, and the ids
/// by which it is linked.
pub open spec fn unique_of(p: ParsedOperatorView) -> Entries {
    let m0 = with_items(Seq::empty(), p.plan_info, p.plan_info.len());
    let m1 = with_text(m0, "table_name"@, p.table_name);
    let m2 = with_number(m1, "nereids_id"@, p.nereids_id);
    with_number(m2, "dest_id"@, p.dest_id)
}

/// The id of a node: fragment, pipeline, and the destination id where the
/// operator has one, else its own id.
pub open spec fn node_id_of(p: ParsedOperatorView, fragment_id: Seq<char>, pipeline_id: Seq<char>) -> Seq<char> {
    fragment_id + "-"@ + pipeline_id + match p.dest_id {
        Some(d) => "-dest"@ + int_repr(d as int),
        None => "-id"@ + int_repr(p.id as int),
    }
}

/// What follows the pipeline in the id of a node.
pub open spec fn id_tail(p: ParsedOperatorView) -> Seq<char> {
    match p.dest_id {
        Some(d) => "-dest"@ + int_repr(d as int),
        None => "-id"@ + int_repr(p.id as int),
    }
}

/// Of two texts that begin alike and then go on with a `-` each, the
/// beginnings are the same if they hold no `-` themselves.
proof fn lemma_split_at_dash(a: Seq<char>, x: Seq<char>, b: Seq<char>, y: Seq<char>)
    requires
        has_no_dash(a),
        has_no_dash(b),
        x.len() > 0 && x[0] == '-',
        y.len() > 0 && y[0] == '-',
        a + x == b + y,
    ensures
        a == b,
        x == y,
{
    let s = a + x;
    let t = b + y;
    if a.len() < b.len() {
        assert(s[a.len() as int] == '-');
        assert(t[a.len() as int] == b[a.len() as int]);
    }
    if b.len() < a.len() {
        assert(t[b.len() as int] == '-');
        assert(s[b.len() as int] == a[b.len() as int]);
    }
    assert(a =~= s.subrange(0, a.len() as int));
    assert(b =~= t.subrange(0, b.len() as int));
    assert(x =~= s.subrange(a.len() as int, s.len() as int));
    assert(y =~= t.subrange(b.len() as int, t.len() as int));
}

/// The ids of nodes tell the nodes apart: where the ids of fragments and
/// pipelines hold no `-`, two nodes with the same id stand in the same
/// pipeline of the same fragment, and either both are named by the same
/// destination or both by the same id of their own. Operators with the
/// same id in different fragments thus get different node ids.
pub proof fn node_ids_tell_apart(
    p1: ParsedOperatorView,
    f1: Seq<char>,
    q1: Seq<char>,
    p2: ParsedOperatorView,
    f2: Seq<char>,
    q2: Seq<char>,
)
    requires
        has_no_dash(f1),
        has_no_dash(f2),
        has_no_dash(q1),
        has_no_dash(q2),
        node_id_of(p1, f1, q1) == node_id_of(p2, f2, q2),
    ensures
        f1 == f2,
        q1 == q2,
        p1.dest_id == p2.dest_id,
        p1.dest_id is None ==> p1.id == p2.id,
{
    reveal_strlit("-");
    reveal_strlit("-dest");
    reveal_strlit("-id");
    let t1 = id_tail(p1);
    let t2 = id_tail(p2);
    assert(t1.len() > 1 && t1[0] == '-');
    assert(t2.len() > 1 && t2[0] == '-');
    let r1 = "-"@ + q1 + t1;
    let r2 = "-"@ + q2 + t2;
    assert(node_id_of(p1, f1, q1) =~= f1 + r1);
    assert(node_id_of(p2, f2, q2) =~= f2 + r2);
    assert(r1[0] == '-' && r2[0] == '-');
    lemma_split_at_dash(f1, r1, f2, r2);
    assert(q1 + t1 =~= r1.subrange(1, r1.len() as int));
    assert(q2 + t2 =~= r2.subrange(1, r2.len() as int));
    lemma_split_at_dash(q1, t1, q2, t2);
    assert(t1[1] == t2[1]);
    match (p1.dest_id, p2.dest_id) {
        (Some(d1), Some(d2)) => {
            assert(int_repr(d1 as int) =~= t1.subrange(5, t1.len() as int));
            assert(int_repr(d2 as int) =~= t2.subrange(5, t2.len() as int));
            int_repr_is_injective(d1 as int, d2 as int);
        },
        (None, None) => {
            assert(int_repr(p1.id as int) =~= t1.subrange(3, t1.len() as int));
            assert(int_repr(p2.id as int) =~= t2.subrange(3, t2.len() as int));
            int_repr_is_injective(p1.id as int, p2.id as int);
        },
        (Some(d1), None) => {
            assert(t1[1] == 'd');
            assert(t2[1] == 'i');
        },
        (None, Some(d2)) => {
            assert(t1[1] == 'i');
            assert(t2[1] == 'd');
        },
    }
}

/// The node of an operator of the pipeline `pipeline_id` of the fragment
/// `fragment_id`: unlinked, at depth 0, not yet measured against the rest.
pub open spec fn node_of(p: ParsedOperatorView, fragment_id: Seq<char>, pipeline_id: Seq<char>) -> NodeView {
    NodeView {
        id: node_id_of(p, fragment_id, pipeline_id),
        operator_name: p.name,
        node_type: node_type_of(p.name),
        plan_node_id: Some(p.id),
        parent_plan_node_id: None,
        nereids_id: p.nereids_id,
        dest_id: p.dest_id,
        metrics: metrics_of(p),
        children: Seq::empty(),
        depth: 0,
        is_hotspot: false,
        hotspot_severity: HotspotSeverity::Unset,
        fragment_id: Some(fragment_id),
        pipeline_id: Some(pipeline_id),
        table_name: p.table_name,
        time_percentage: None,
        is_most_consuming: false,
        is_second_most_consuming: false,
        unique_metrics: unique_of(p),
        plan_info: p.plan_info,
        common_counters: p.common_counters,
        custom_counters: p.custom_counters,
    }
}

/// The nodes of the operators of one pipeline.
pub open spec fn pipeline_nodes(fragment_id: Seq<char>, p: PipelineView) -> Seq<NodeView> {
    parsed_operators_of(p.raw_text).map_values(
        |op: ParsedOperatorView| node_of(op, fragment_id, p.id),
    )
}

/// The nodes of the first `k` pipelines of a fragment.
pub open spec fn fragment_nodes(f: FragmentView, k: nat) -> Seq<NodeView>
    decreases k,
{
    if k == 0 || k > f.pipelines.len() {
        Seq::empty()
    } else {
        fragment_nodes(f, (k - 1) as nat) + pipeline_nodes(f.id, f.pipelines[k - 1])
    }
}

/// The nodes of the first `k` fragments: one for each operator that the
/// text of a pipeline holds, in the order of the document.
pub open spec fn all_nodes(fs: Seq<FragmentView>, k: nat) -> Seq<NodeView>
    decreases k,
{
    if k == 0 || k > fs.len() {
        Seq::empty()
    } else {
        all_nodes(fs, (k - 1) as nat) + fragment_nodes(fs[k - 1], fs[k - 1].pipelines.len())
    }
}

/// The nodes linked, with their depths.
pub open spec fn connected(nodes: Seq<NodeView>) -> Seq<NodeView> {
    with_depths(linked(nodes))
}

/// The execution graph of the fragments: one node for each operator,
/// linked, with depths and shares of the total time, and a copy of the
/// node chosen as root.
pub open spec fn tree_of(fragments: Seq<FragmentView>) -> ExecutionTreeView {
    let nodes = measured(connected(all_nodes(fragments, fragments.len())));
    ExecutionTreeView { root: root_of(nodes), nodes }
}

/// Whether a node is named after where it stands: it knows its fragment,
/// its pipeline and its plan node, their ids hold no `-`, and its id is
/// made of them and of its destination, if it has one.
pub open spec fn well_named(n: NodeView) -> bool {
    &&& n.fragment_id is Some
    &&& n.pipeline_id is Some
    &&& n.plan_node_id is Some
    &&& has_no_dash(n.fragment_id.unwrap())
    &&& has_no_dash(n.pipeline_id.unwrap())
    &&& n.id == n.fragment_id.unwrap() + "-"@ + n.pipeline_id.unwrap() + match n.dest_id {
        Some(d) => "-dest"@ + int_repr(d as int),
        None => "-id"@ + int_repr(n.plan_node_id.unwrap() as int),
    }
}

/// Every node is well named.
pub open spec fn all_well_named(nodes: Seq<NodeView>) -> bool {
    forall|i: int| 0 <= i < nodes.len() ==> well_named(#[trigger] nodes[i])
}

/// Well-named nodes with the same id stand in the same pipeline of the
/// same fragment and are named by the same destination, or by the same
/// plan node where they have no destination.
pub proof fn well_named_ids_tell_apart(a: NodeView, b: NodeView)
    requires
        well_named(a),
        well_named(b),
        a.id == b.id,
    ensures
        a.fragment_id == b.fragment_id,
        a.pipeline_id == b.pipeline_id,
        a.dest_id == b.dest_id,
        a.dest_id is None ==> a.plan_node_id == b.plan_node_id,
{
    let pa = operator_named(a);
    let pb = operator_named(b);
    node_ids_tell_apart(
        pa,
        a.fragment_id.unwrap(),
        a.pipeline_id.unwrap(),
        pb,
        b.fragment_id.unwrap(),
        b.pipeline_id.unwrap(),
    );
}

/// An operator with the ids of the node `n`.
pub open spec fn operator_named(n: NodeView) -> ParsedOperatorView {
    ParsedOperatorView {
        name: n.operator_name,
        id: n.plan_node_id.unwrap(),
        nereids_id: n.nereids_id,
        dest_id: n.dest_id,
        exchange_type: None,
        plan_info: n.plan_info,
        common_counters: n.common_counters,
        custom_counters: n.custom_counters,
        table_name: n.table_name,
    }
}

proof fn lemma_fragment_nodes_named(f: FragmentView, k: nat)
    requires
        crate::parser::fragment_parser::plain_ids(f),
        k <= f.pipelines.len(),
    ensures
        all_well_named(fragment_nodes(f, k)),
    decreases k,
{
    if k > 0 {
        lemma_fragment_nodes_named(f, (k - 1) as nat);
        let before = fragment_nodes(f, (k - 1) as nat);
        let p = f.pipelines[k - 1];
        let added = pipeline_nodes(f.id, p);
        assert(has_no_dash(p.id));
        assert forall|i: int| 0 <= i < (before + added).len() implies well_named(
            #[trigger] (before + added)[i],
        ) by {
            if i < before.len() {
                assert((before + added)[i] == before[i]);
            } else {
                assert((before + added)[i] == added[i - before.len()]);
            }
        }
    }
}

proof fn lemma_all_nodes_named(fs: Seq<FragmentView>, k: nat)
    requires
        forall|i: int|
            0 <= i < fs.len() ==> crate::parser::fragment_parser::plain_ids(#[trigger] fs[i]),
        k <= fs.len(),
    ensures
        all_well_named(all_nodes(fs, k)),
    decreases k,
{
    if k > 0 {
        lemma_all_nodes_named(fs, (k - 1) as nat);
        let before = all_nodes(fs, (k - 1) as nat);
        let f = fs[k - 1];
        lemma_fragment_nodes_named(f, f.pipelines.len());
        let added = fragment_nodes(f, f.pipelines.len());
        assert forall|i: int| 0 <= i < (before + added).len() implies well_named(
            #[trigger] (before + added)[i],
        ) by {
            if i < before.len() {
                assert((before + added)[i] == before[i]);
            } else {
                assert((before + added)[i] == added[i - before.len()]);
            }
        }
    }
}

/// Linking, the depths and the shares leave the names as they are.
proof fn lemma_names_are_kept(nodes: Seq<NodeView>)
    requires
        all_well_named(nodes),
    ensures
        measured(connected(nodes)).len() == nodes.len(),
        all_well_named(measured(connected(nodes))),
{
    let linked = linked(nodes);
    let deep = with_depths(linked);
    let done = measured(deep);
    assert(linked.len() == nodes.len());
    assert(deep.len() == nodes.len());
    assert(done.len() == nodes.len());
    assert forall|i: int| 0 <= i < done.len() implies well_named(#[trigger] done[i]) by {
        assert(well_named(nodes[i]));
        assert(linked[i].id == nodes[i].id);
        assert(deep[i].id == linked[i].id && deep[i].fragment_id == linked[i].fragment_id
            && deep[i].pipeline_id == linked[i].pipeline_id && deep[i].plan_node_id
            == linked[i].plan_node_id && deep[i].dest_id == linked[i].dest_id);
    }
}

/// The nodes of the graph of fragments with plain ids are well named.
pub proof fn tree_nodes_are_well_named(fragments: Seq<FragmentView>)
    requires
        forall|i: int|
            0 <= i < fragments.len() ==> crate::parser::fragment_parser::plain_ids(
                #[trigger] fragments[i],
            ),
    ensures
        all_well_named(tree_of(fragments).nodes),
{
    lemma_all_nodes_named(fragments, fragments.len());
    lemma_names_are_kept(all_nodes(fragments, fragments.len()));
}

fn to_unsigned(t: i64) -> (r: u64)
    ensures
        r == as_unsigned(t),
{
    if t >= 0 {
        t as u64
    } else {
        u64::MAX - ((-(t + 1)) as u64)
    }
}

fn to_opt_unsigned(t: Option<i64>) -> (r: Option<u64>)
    ensures
        r == opt_unsigned(t),
{
    match t {
        Some(v) => Some(to_unsigned(v)),
        None => None,
    }
}

/// Namespace of the graph builder.
pub struct TreeBuilder;

impl TreeBuilder {
    /// The kind of node that an upper-case operator name stands for.
    pub fn classify_upper(upper: &str) -> (r: NodeType)
        ensures
            r == node_type_of_upper(upper@),
    {
        let cs = chars_of(upper);
        let u = cs.as_slice();
        if contains(u, chars_of("SCAN").as_slice()) {
            NodeType::OlapScan
        } else if contains(u, chars_of("EXCHANGE").as_slice()) {
            NodeType::Exchange
        } else if contains(u, chars_of("HASH_JOIN").as_slice()) {
            NodeType::HashJoin
        } else if contains(u, chars_of("AGGREGATE").as_slice()) || contains(
            u,
            chars_of("AGGREGATION").as_slice(),
        ) {
            NodeType::Aggregate
        } else if contains(u, chars_of("SORT").as_slice()) {
            NodeType::Sort
        } else if contains(u, chars_of("LIMIT").as_slice()) {
            NodeType::Limit
        } else if contains(u, chars_of("PROJECT").as_slice()) {
            NodeType::Project
        } else if contains(u, chars_of("FILTER").as_slice()) {
            NodeType::Filter
        } else if contains(u, chars_of("UNION").as_slice()) {
            NodeType::Union
        } else if contains(u, chars_of("RESULT_SINK").as_slice()) {
            NodeType::ResultSink
        } else if contains(u, chars_of("DATA_STREAM_SINK").as_slice()) || contains(
            u,
            chars_of("STREAM_SINK").as_slice(),
        ) {
            NodeType::DataStreamSink
        } else {
            NodeType::Unknown
        }
    }

    /// The kind of node that an operator name stands for, whatever its
    /// case.
    pub fn determine_node_type(name: &str) -> (r: NodeType)
        ensures
            r == node_type_of(name@),
    {
        let upper = to_upper(name);
        Self::classify_upper(upper.as_str())
    }

    /// The node of one operator.
    pub fn create_tree_node(parsed: &ParsedOperator, fragment_id: &str, pipeline_id: &str) -> (r:
        ExecutionTreeNode)
        ensures
            r.deep_view() == node_of(parsed.deep_view(), fragment_id@, pipeline_id@),
    {
        let node_type = Self::determine_node_type(parsed.name.as_str());
        let exec_time = OperatorParser::get_exec_time_ns(parsed);
        let rows = OperatorParser::get_rows_produced(parsed);
        let input_rows = OperatorParser::get_input_rows(parsed);
        let memory: Option<u64> = match find_item(&parsed.common_counters, "MemoryUsagePeak") {
            Some(v) => {
                let agg = ValueParser::parse_aggregated(v.as_str());
                to_opt_unsigned(
                    match agg.sum {
                        Some(s) => Some(s),
                        None => agg.avg,
                    },
                )
            },
            None => None,
        };
        let exec_time_raw: Option<String> = match find_item(&parsed.common_counters, "ExecTime") {
            Some(v) => ValueParser::extract_first_value(v.as_str()),
            None => None,
        };
        let metrics = OperatorMetrics {
            operator_total_time: to_opt_unsigned(exec_time),
            operator_total_time_raw: exec_time_raw,
            rows_returned: to_opt_unsigned(rows),
            input_rows: to_opt_unsigned(input_rows),
            memory_used: memory,
            cpu_time: None,
            wait_time: None,
        };
        let mut unique_metrics = StringMap::new();
        let mut n: usize = 0;
        while n < parsed.plan_info.len()
            invariant
                n <= parsed.plan_info.len(),
                unique_metrics.deep_view() == with_items(
                    Seq::empty(),
                    parsed.plan_info.deep_view(),
                    n as nat,
                ),
            decreases parsed.plan_info.len() - n,
        {
            proof {
                lemma_metric_item_view(parsed.plan_info@[n as int]);
            }
            unique_metrics.insert(parsed.plan_info[n].key.clone(), parsed.plan_info[n].value.clone());
            n += 1;
        }
        match &parsed.table_name {
            Some(t) => {
                unique_metrics.insert("table_name".to_owned(), t.clone());
            },
            None => {},
        }
        match parsed.nereids_id {
            Some(v) => {
                unique_metrics.insert("nereids_id".to_owned(), int_string(v as i64));
            },
            None => {},
        }
        match parsed.dest_id {
            Some(v) => {
                unique_metrics.insert("dest_id".to_owned(), int_string(v as i64));
            },
            None => {},
        }
        let mut id: String = fragment_id.to_owned();
        id.append("-");
        id.append(pipeline_id);
        match parsed.dest_id {
            Some(d) => {
                id.append("-dest");
                id.append(int_string(d as i64).as_str());
            },
            None => {
                id.append("-id");
                id.append(int_string(parsed.id as i64).as_str());
            },
        }
        let node = ExecutionTreeNode {
            id,
            operator_name: parsed.name.clone(),
            node_type,
            plan_node_id: Some(parsed.id),
            parent_plan_node_id: None,
            nereids_id: parsed.nereids_id,
            dest_id: parsed.dest_id,
            metrics,
            children: Vec::new(),
            depth: 0,
            is_hotspot: false,
            hotspot_severity: HotspotSeverity::Unset,
            fragment_id: Some(fragment_id.to_owned()),
            pipeline_id: Some(pipeline_id.to_owned()),
            table_name: clone_opt_string(&parsed.table_name),
            time_percentage: None,
            is_most_consuming: false,
            is_second_most_consuming: false,
            unique_metrics,
            plan_info: clone_items(&parsed.plan_info),
            common_counters: clone_items(&parsed.common_counters),
            custom_counters: clone_items(&parsed.custom_counters),
        };
        proof {
            assert(node.children.deep_view() =~= Seq::<Seq<char>>::empty());
            assert(node.id@ =~= node_id_of(parsed.deep_view(), fragment_id@, pipeline_id@));
        }
        node
    }

    /// One node for each operator of the fragments, in the order of the
    /// document.
    pub fn materialize(fragments: &[Fragment]) -> (r: Vec<ExecutionTreeNode>)
        ensures
            r.deep_view() == all_nodes(fragments.deep_view(), fragments@.len()),
    {
        let mut nodes: Vec<ExecutionTreeNode> = Vec::new();
        let ghost fs = fragments.deep_view();
        let mut i: usize = 0;
        proof {
            assert(nodes.deep_view() =~= all_nodes(fs, 0));
        }
        while i < fragments.len()
            invariant
                i <= fragments.len(),
                fs == fragments.deep_view(),
                nodes.deep_view() == all_nodes(fs, i as nat),
            decreases fragments.len() - i,
        {
            let fragment: &Fragment = &fragments[i];
            let ghost f = fs[i as int];
            let ghost before = nodes.deep_view();
            assert(f == fragment.deep_view());
            let mut j: usize = 0;
            proof {
                assert(nodes.deep_view() =~= before + fragment_nodes(f, 0));
            }
            while j < fragment.pipelines.len()
                invariant
                    j <= fragment.pipelines.len(),
                    f == fragment.deep_view(),
                    nodes.deep_view() == before + fragment_nodes(f, j as nat),
                decreases fragment.pipelines.len() - j,
            {
                let pipeline = &fragment.pipelines[j];
                let ghost p = f.pipelines[j as int];
                assert(p == pipeline.deep_view());
                let parsed = OperatorParser::extract_parsed_operators(pipeline.raw_text.as_str());
                let ghost start = nodes.deep_view();
                let ghost target = pipeline_nodes(f.id, p);
                let mut k: usize = 0;
                proof {
                    assert(nodes.deep_view() =~= start + target.take(0));
                }
                while k < parsed.len()
                    invariant
                        k <= parsed.len(),
                        f == fragment.deep_view(),
                        p == pipeline.deep_view(),
                        parsed.deep_view() == parsed_operators_of(p.raw_text),
                        target == pipeline_nodes(f.id, p),
                        nodes.deep_view() == start + target.take(k as int),
                    decreases parsed.len() - k,
                {
                    let node = Self::create_tree_node(
                        &parsed[k],
                        fragment.id.as_str(),
                        pipeline.id.as_str(),
                    );
                    let ghost prev = nodes.deep_view();
                    nodes.push(node);
                    proof {
                        assert(parsed.deep_view()[k as int] == parsed@[k as int].deep_view());
                        assert(target[k as int] == node.deep_view());
                        assert(nodes.deep_view() =~= prev.push(node.deep_view()));
                        assert(target.take(k + 1) =~= target.take(k as int).push(target[k as int]));
                        assert(nodes.deep_view() =~= start + target.take(k + 1));
                    }
                    k += 1;
                }
                proof {
                    assert(target.take(parsed.len() as int) =~= target);
                    assert(start + target =~= before + fragment_nodes(f, (j + 1) as nat));
                }
                j += 1;
            }
            i += 1;
        }
        nodes
    }

    /// Links the nodes and sets their depths.
    pub fn connect_nodes(nodes: &mut Vec<ExecutionTreeNode>)
        ensures
            final(nodes).deep_view() == connected(old(nodes).deep_view()),
    {
        link(nodes);
        assign_depths(nodes);
    }

    /// Sets the depth of every node that the root reaches to its distance
    /// from the root.
    pub fn update_depths(nodes: &mut Vec<ExecutionTreeNode>)
        ensures
            final(nodes).deep_view() == with_depths(old(nodes).deep_view()),
    {
        assign_depths(nodes);
    }

    /// Gives each node its share of the total time with its severity, and
    /// flags the two greatest consumers.
    pub fn calculate_metrics(nodes: &mut Vec<ExecutionTreeNode>, _summary: &ProfileSummary)
        ensures
            final(nodes).deep_view() == measured(old(nodes).deep_view()),
    {
        measure(nodes);
    }

    /// A copy of the node chosen as root: the first result sink, else the
    /// first node of the first pipeline of the first fragment, else the
    /// first node, else a placeholder.
    pub fn find_root_node(nodes: &Vec<ExecutionTreeNode>) -> (r: ExecutionTreeNode)
        ensures
            r.deep_view() == root_of(nodes.deep_view()),
    {
        find_root(nodes)
    }

    /// The nodes that more than one parent refers to, by index. Such nodes
    /// are accepted; the list is for diagnosis.
    pub fn check_multiple_parents(nodes: &Vec<ExecutionTreeNode>) -> (r: Vec<usize>)
        ensures
            r@.map_values(|i: usize| i as int) == multi_parent(nodes.deep_view(), nodes@.len()),
    {
        find_multi_parent(nodes)
    }

    /// Writes a pipeline back as text that the operator segmenter reads:
    /// its id, its counters, and a block for each operator.
    pub fn reconstruct_pipeline_text(pipeline: &Pipeline) -> (r: String)
        ensures
            r@ == pipeline_text_of(pipeline.deep_view()),
    {
        pipeline_text(pipeline)
    }

    /// Builds the execution graph of the fragments.
    pub fn build_from_fragments(fragments: &[Fragment], summary: &ProfileSummary) -> (r:
        ExecutionTree)
        ensures
            r.deep_view() == tree_of(fragments.deep_view()),
    {
        let mut nodes = Self::materialize(fragments);
        Self::connect_nodes(&mut nodes);
        Self::calculate_metrics(&mut nodes, summary);
        let root = Self::find_root_node(&nodes);
        ExecutionTree { root, nodes }
    }
}

} // verus!
