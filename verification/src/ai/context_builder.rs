//! The context of a node: what an adviser is told of it, as text.

use crate::config::ContextConfig;
use crate::models::{
    lemma_metric_item_view, ExecutionTreeNode, MetricItem, MetricItemView, NodeType, NodeView,
    Profile, ProfileSummary, ProfileSummaryView, ProfileView, TimeShare,
};
use crate::numbers::{
    hundredths_repr, int_repr, nat_chars, nat_repr, push_hundredths, push_int, ratio_units,
    rounded_ratio,
};
use crate::text::string_of;
use vstd::prelude::*;
use vstd::string::StringExecFns;

verus! {

/// Two spaces for each level.
pub open spec fn pad_of(indent: nat) -> Seq<char>
    decreases indent,
{
    if indent == 0 {
        Seq::empty()
    } else {
        pad_of((indent - 1) as nat) + "  "@
    }
}

/// The line of one metric behind `pad`.
pub open spec fn metric_line(item: MetricItemView, pad: Seq<char>) -> Seq<char> {
    pad + "- "@ + item.key + ": "@ + item.value + "\n"@
}

/// The lines of the first `n` trees of `items`: each item behind `pad`,
/// the items nested under it after it, two spaces further in.
pub open spec fn forest_lines(items: Seq<MetricItemView>, pad: Seq<char>, n: nat) -> Seq<char>
    decreases items, n,
{
    if n == 0 || n > items.len() {
        Seq::empty()
    } else {
        forest_lines(items, pad, (n - 1) as nat) + metric_line(items[n - 1], pad) + forest_lines(
            items[n - 1].children,
            pad + "  "@,
            items[n - 1].children.len(),
        )
    }
}

/// The lines of one metric and of what is nested under it.
pub open spec fn item_lines(item: MetricItemView, pad: Seq<char>) -> Seq<char> {
    metric_line(item, pad) + forest_lines(item.children, pad + "  "@, item.children.len())
}

/// The name of a node type.
pub open spec fn node_type_name(t: NodeType) -> Seq<char> {
    match t {
        NodeType::OlapScan => "OlapScan"@,
        NodeType::Exchange => "Exchange"@,
        NodeType::HashJoin => "HashJoin"@,
        NodeType::Aggregate => "Aggregate"@,
        NodeType::Sort => "Sort"@,
        NodeType::Limit => "Limit"@,
        NodeType::Project => "Project"@,
        NodeType::Filter => "Filter"@,
        NodeType::Union => "Union"@,
        NodeType::ResultSink => "ResultSink"@,
        NodeType::DataStreamSink => "DataStreamSink"@,
        NodeType::Unknown => "Unknown"@,
    }
}

/// `num / den` with two decimals, rounded, a half upward.
pub open spec fn two_decimals(num: nat, den: nat) -> Seq<char> {
    hundredths_repr(rounded_ratio(num, den, 100))
}

/// A share in percent with two decimals; `N/A` where there is nothing to
/// share in.
pub open spec fn percent_of(share: TimeShare) -> Seq<char> {
    if share.total > 0 {
        two_decimals(share.part as nat * 100, share.total as nat)
    } else {
        "N/A"@
    }
}

/// `label`, `value` and a line feed.
pub open spec fn line(label: Seq<char>, value: Seq<char>) -> Seq<char> {
    label + value + "\n"@
}

/// `label`, `value`, `unit` and a line feed where there is a value.
pub open spec fn opt_line(label: Seq<char>, value: Option<Seq<char>>, unit: Seq<char>) -> Seq<char> {
    match value {
        Some(v) => label + v + unit + "\n"@,
        None => Seq::empty(),
    }
}

/// The numeral of a number, where there is one.
pub open spec fn opt_number(v: Option<u64>) -> Option<Seq<char>> {
    match v {
        Some(n) => Some(nat_repr(n as nat)),
        None => None,
    }
}

/// The percentage of a share, where there is one.
pub open spec fn opt_percent(v: Option<TimeShare>) -> Option<Seq<char>> {
    match v {
        Some(s) => Some(percent_of(s)),
        None => None,
    }
}

/// What the node is.
pub open spec fn node_section(n: NodeView) -> Seq<char> {
    "## 节点信息\n"@ + line("- 操作符: "@, n.operator_name) + line(
        "- 节点类型: "@,
        node_type_name(n.node_type),
    ) + opt_line(
        "- 计划节点ID: "@,
        match n.plan_node_id {
            Some(id) => Some(int_repr(id as int)),
            None => None,
        },
        Seq::empty(),
    ) + opt_line("- 执行时间占比: "@, opt_percent(n.time_percentage), "%"@) + opt_line(
        "- Fragment: "@,
        n.fragment_id,
        Seq::empty(),
    ) + opt_line("- Pipeline: "@, n.pipeline_id, Seq::empty())
}

/// What was measured of the node.
pub open spec fn measures_section(n: NodeView) -> Seq<char> {
    "\n## 性能指标\n"@ + opt_line("- 返回行数: "@, opt_number(n.metrics.rows_returned), Seq::empty())
        + opt_line("- 输入行数: "@, opt_number(n.metrics.input_rows), Seq::empty()) + opt_line(
        "- 执行时间: "@,
        match n.metrics.operator_total_time {
            Some(t) => Some(two_decimals(t as nat, 1_000_000)),
            None => None,
        },
        "ms"@,
    ) + opt_line(
        "- 内存使用: "@,
        match n.metrics.memory_used {
            Some(m) => Some(two_decimals(m as nat, 1_048_576)),
            None => None,
        },
        "MB"@,
    )
}

/// A section of metrics under `title`, where there are some.
pub open spec fn metrics_section(title: Seq<char>, items: Seq<MetricItemView>) -> Seq<char> {
    if items.len() == 0 {
        Seq::empty()
    } else {
        title + forest_lines(items, Seq::empty(), items.len())
    }
}

/// The statement of the query, where it is asked for and there is one.
pub open spec fn sql_section(s: ProfileSummaryView, config: ContextConfig) -> Seq<char> {
    if config.sql_statement && s.sql_statement.len() > 0 {
        "\n## SQL 语句\n```sql\n"@ + s.sql_statement + "\n```\n"@
    } else {
        Seq::empty()
    }
}

/// The summary of the query, where it is asked for.
pub open spec fn summary_section(s: ProfileSummaryView, config: ContextConfig) -> Seq<char> {
    if config.query_summary {
        "\n## 查询概要\n"@ + line("- Query ID: "@, s.query_id) + line(
            "- 总执行时间: "@,
            s.total_time,
        ) + line("- 查询状态: "@, s.query_state) + opt_line(
            "- 用户: "@,
            s.user,
            Seq::empty(),
        ) + opt_line("- 数据库: "@, s.default_db, Seq::empty())
    } else {
        Seq::empty()
    }
}

/// The first node at or after `i` with the id `id`.
pub open spec fn node_from(nodes: Seq<NodeView>, id: Seq<char>, i: int) -> Option<NodeView>
    decreases nodes.len() - i,
{
    if i < 0 || i >= nodes.len() {
        None
    } else if nodes[i].id == id {
        Some(nodes[i])
    } else {
        node_from(nodes, id, i + 1)
    }
}

/// What is told of the child with the number `number`.
pub open spec fn child_lines(child: Option<NodeView>, number: nat) -> Seq<char> {
    match child {
        Some(c) => line("\n### 子节点 "@, nat_repr(number)) + line("- 操作符: "@, c.operator_name)
            + opt_line("- 执行时间占比: "@, opt_percent(c.time_percentage), "%"@)
            + opt_line("- 返回行数: "@, opt_number(c.metrics.rows_returned), Seq::empty()),
        None => Seq::empty(),
    }
}

/// What is told of the first `k` children.
pub open spec fn children_lines(nodes: Seq<NodeView>, children: Seq<Seq<char>>, k: nat) -> Seq<char>
    decreases k,
{
    if k == 0 || k > children.len() {
        Seq::empty()
    } else {
        children_lines(nodes, children, (k - 1) as nat) + child_lines(
            node_from(nodes, children[k - 1], 0),
            k,
        )
    }
}

/// How many children are shown: all, or as many as the settings allow.
pub open spec fn shown_children(n: NodeView, config: ContextConfig) -> nat {
    if n.children.len() <= config.max_child_nodes {
        n.children.len()
    } else {
        config.max_child_nodes as nat
    }
}

/// The children of the node, where they are asked for and there are some.
pub open spec fn children_section(n: NodeView, profile: ProfileView, config: ContextConfig) -> Seq<char> {
    if config.child_nodes && n.children.len() > 0 {
        "\n## 子节点信息\n"@ + match profile.execution_tree {
            Some(tree) => "该节点有 "@ + nat_repr(n.children.len()) + " 个子节点"@ + (
            if shown_children(n, config) < n.children.len() {
                "，以下显示前 "@ + nat_repr(shown_children(n, config)) + " 个：\n"@
            } else {
                "：\n"@
            }) + children_lines(tree.nodes, n.children, shown_children(n, config)),
            None => Seq::empty(),
        }
    } else {
        Seq::empty()
    }
}

/// The context of a node: what it is, what was measured of it, its
/// metrics, and of the query and of its children what the settings ask
/// for.
pub open spec fn context_of(n: NodeView, profile: ProfileView, config: ContextConfig) -> Seq<char> {
    node_section(n) + measures_section(n) + metrics_section(
        "\n## 计划信息 (PlanInfo)\n"@,
        n.plan_info,
    ) + metrics_section("\n## 通用指标 (Common Counters)\n"@, n.common_counters) + metrics_section(
        "\n## 自定义指标 (Custom Counters)\n"@,
        n.custom_counters,
    ) + sql_section(profile.summary, config) + summary_section(profile.summary, config)
        + children_section(n, profile, config)
}

fn push_line(out: &mut String, label: &str, value: &str)
    ensures
        final(out)@ == old(out)@ + line(label@, value@),
{
    out.append(label);
    out.append(value);
    out.append("\n");
    assert(out@ =~= old(out)@ + line(label@, value@));
}

fn push_opt_line(out: &mut String, label: &str, value: &Option<String>, unit: &str)
    ensures
        final(out)@ == old(out)@ + opt_line(label@, value.deep_view(), unit@),
{
    match value {
        Some(v) => {
            out.append(label);
            out.append(v.as_str());
            out.append(unit);
            out.append("\n");
            assert(out@ =~= old(out)@ + opt_line(label@, value.deep_view(), unit@));
        },
        None => {
            assert(out@ =~= old(out)@ + opt_line(label@, value.deep_view(), unit@));
        },
    }
}

fn number_text(v: Option<u64>) -> (r: Option<String>)
    ensures
        r.deep_view() == opt_number(v),
{
    match v {
        Some(n) => Some(string_of(nat_chars(n as u128).as_slice())),
        None => None,
    }
}

fn decimals_text(num: u128, den: u128) -> (r: String)
    requires
        den > 0,
        num <= crate::numbers::RATIO_MAX,
    ensures
        r@ == two_decimals(num as nat, den as nat),
{
    let q = ratio_units(num, den, true);
    let mut out: Vec<char> = Vec::new();
    push_hundredths(&mut out, q);
    assert(out@ =~= hundredths_repr(q as nat));
    string_of(out.as_slice())
}

fn percent_text(v: &Option<TimeShare>) -> (r: Option<String>)
    ensures
        r.deep_view() == opt_percent(*v),
{
    match v {
        Some(s) => Some(
            if s.total > 0 {
                decimals_text((s.part as u128) * 100, s.total)
            } else {
                "N/A".to_owned()
            },
        ),
        None => None,
    }
}

fn kind_name(t: NodeType) -> (r: &'static str)
    ensures
        r@ == node_type_name(t),
{
    match t {
        NodeType::OlapScan => "OlapScan",
        NodeType::Exchange => "Exchange",
        NodeType::HashJoin => "HashJoin",
        NodeType::Aggregate => "Aggregate",
        NodeType::Sort => "Sort",
        NodeType::Limit => "Limit",
        NodeType::Project => "Project",
        NodeType::Filter => "Filter",
        NodeType::Union => "Union",
        NodeType::ResultSink => "ResultSink",
        NodeType::DataStreamSink => "DataStreamSink",
        NodeType::Unknown => "Unknown",
    }
}

/// Appends the lines of the trees of `items`, each behind `pad`.
fn push_forest(out: &mut String, items: &Vec<MetricItem>, pad: &str)
    ensures
        final(out)@ == old(out)@ + forest_lines(items.deep_view(), pad@, items@.len()),
    decreases items,
{
    let ghost iv = items.deep_view();
    let mut n: usize = 0;
    proof {
        assert(out@ =~= old(out)@ + forest_lines(iv, pad@, 0));
    }
    while n < items.len()
        invariant
            n <= items.len(),
            iv == items.deep_view(),
            out@ == old(out)@ + forest_lines(iv, pad@, n as nat),
        decreases items.len() - n,
    {
        let item: &MetricItem = &items[n];
        proof {
            lemma_metric_item_view(*item);
        }
        let ghost before = out@;
        out.append(pad);
        out.append("- ");
        out.append(item.key.as_str());
        out.append(": ");
        out.append(item.value.as_str());
        out.append("\n");
        assert(out@ =~= before + metric_line(iv[n as int], pad@));
        let mut deeper: String = pad.to_owned();
        deeper.append("  ");
        push_forest(out, &item.children, deeper.as_str());
        proof {
            assert(out@ =~= old(out)@ + forest_lines(iv, pad@, (n + 1) as nat));
        }
        n += 1;
    }
}

/// Namespace of the context of a node.
pub struct ContextBuilder;

impl ContextBuilder {
    /// Appends the lines of the metrics and of what is nested under them.
    pub fn append_metrics(context: &mut String, metrics: &Vec<MetricItem>)
        ensures
            final(context)@ == old(context)@ + forest_lines(
                metrics.deep_view(),
                Seq::empty(),
                metrics@.len(),
            ),
    {
        proof {
            reveal_strlit("");
            assert(""@ =~= Seq::<char>::empty());
        }
        push_forest(context, metrics, "");
    }

    /// Appends the lines of one metric and of what is nested under it,
    /// indented by two spaces for each level.
    pub fn append_metric_recursive(context: &mut String, metric: &MetricItem, indent: usize)
        ensures
            final(context)@ == old(context)@ + item_lines(metric.deep_view(), pad_of(indent as nat)),
    {
        let mut pad = String::new();
        let mut k: usize = 0;
        while k < indent
            invariant
                k <= indent,
                pad@ == pad_of(k as nat),
            decreases indent - k,
        {
            pad.append("  ");
            k += 1;
        }
        proof {
            lemma_metric_item_view(*metric);
        }
        context.append(pad.as_str());
        context.append("- ");
        context.append(metric.key.as_str());
        context.append(": ");
        context.append(metric.value.as_str());
        context.append("\n");
        assert(context@ =~= old(context)@ + metric_line(metric.deep_view(), pad@));
        let mut deeper: String = pad.clone();
        deeper.append("  ");
        push_forest(context, &metric.children, deeper.as_str());
        assert(context@ =~= old(context)@ + item_lines(metric.deep_view(), pad@));
    }

    fn push_node(out: &mut String, node: &ExecutionTreeNode)
        ensures
            final(out)@ == old(out)@ + node_section(node.deep_view()),
    {
        let ghost n = node.deep_view();
        let ghost s0 = out@;
        out.append("## 节点信息\n");
        let ghost t0 = "## 节点信息\n"@;
        push_line(out, "- 操作符: ", node.operator_name.as_str());
        let ghost t1 = t0 + line("- 操作符: "@, n.operator_name);
        assert(out@ =~= s0 + t1);
        push_line(out, "- 节点类型: ", kind_name(node.node_type));
        let ghost t2 = t1 + line("- 节点类型: "@, node_type_name(n.node_type));
        assert(out@ =~= s0 + t2);
        let plan: Option<String> = match node.plan_node_id {
            Some(id) => {
                let mut digits: Vec<char> = Vec::new();
                push_int(&mut digits, id as i64);
                assert(digits@ =~= int_repr(id as int));
                Some(string_of(digits.as_slice()))
            },
            None => None,
        };
        proof {
            reveal_strlit("");
            assert(""@ =~= Seq::<char>::empty());
        }
        push_opt_line(out, "- 计划节点ID: ", &plan, "");
        let ghost t3 = t2 + opt_line("- 计划节点ID: "@, plan.deep_view(), Seq::empty());
        assert(out@ =~= s0 + t3);
        push_opt_line(out, "- 执行时间占比: ", &percent_text(&node.time_percentage), "%");
        let ghost t4 = t3 + opt_line("- 执行时间占比: "@, opt_percent(n.time_percentage), "%"@);
        assert(out@ =~= s0 + t4);
        push_opt_line(out, "- Fragment: ", &node.fragment_id, "");
        let ghost t5 = t4 + opt_line("- Fragment: "@, n.fragment_id, Seq::empty());
        assert(out@ =~= s0 + t5);
        push_opt_line(out, "- Pipeline: ", &node.pipeline_id, "");
        let ghost t6 = t5 + opt_line("- Pipeline: "@, n.pipeline_id, Seq::empty());
        assert(out@ =~= s0 + t6);
        assert(t6 == node_section(n));
    }

    fn push_measures(out: &mut String, node: &ExecutionTreeNode)
        ensures
            final(out)@ == old(out)@ + measures_section(node.deep_view()),
    {
        proof {
            reveal_strlit("");
            assert(""@ =~= Seq::<char>::empty());
        }
        let ghost n = node.deep_view();
        let ghost s0 = out@;
        out.append("\n## 性能指标\n");
        let ghost t0 = "\n## 性能指标\n"@;
        push_opt_line(out, "- 返回行数: ", &number_text(node.metrics.rows_returned), "");
        let ghost t1 = t0 + opt_line(
            "- 返回行数: "@,
            opt_number(n.metrics.rows_returned),
            Seq::empty(),
        );
        assert(out@ =~= s0 + t1);
        push_opt_line(out, "- 输入行数: ", &number_text(node.metrics.input_rows), "");
        let ghost t2 = t1 + opt_line("- 输入行数: "@, opt_number(n.metrics.input_rows), Seq::empty());
        assert(out@ =~= s0 + t2);
        let time: Option<String> = match node.metrics.operator_total_time {
            Some(t) => Some(decimals_text(t as u128, 1_000_000)),
            None => None,
        };
        push_opt_line(out, "- 执行时间: ", &time, "ms");
        let ghost t3 = t2 + opt_line("- 执行时间: "@, time.deep_view(), "ms"@);
        assert(out@ =~= s0 + t3);
        let memory: Option<String> = match node.metrics.memory_used {
            Some(m) => Some(decimals_text(m as u128, 1_048_576)),
            None => None,
        };
        push_opt_line(out, "- 内存使用: ", &memory, "MB");
        let ghost t4 = t3 + opt_line("- 内存使用: "@, memory.deep_view(), "MB"@);
        assert(out@ =~= s0 + t4);
        assert(t4 == measures_section(n));
    }

    fn push_metrics(out: &mut String, title: &str, items: &Vec<MetricItem>)
        ensures
            final(out)@ == old(out)@ + metrics_section(title@, items.deep_view()),
    {
        if items.len() > 0 {
            out.append(title);
            Self::append_metrics(out, items);
            assert(out@ =~= old(out)@ + metrics_section(title@, items.deep_view()));
        } else {
            assert(out@ =~= old(out)@ + metrics_section(title@, items.deep_view()));
        }
    }

    fn push_sql(out: &mut String, summary: &ProfileSummary, config: &ContextConfig)
        ensures
            final(out)@ == old(out)@ + sql_section(summary.deep_view(), *config),
    {
        if config.sql_statement && summary.sql_statement.as_str().unicode_len() > 0 {
            out.append("\n## SQL 语句\n```sql\n");
            out.append(summary.sql_statement.as_str());
            out.append("\n```\n");
            assert(out@ =~= old(out)@ + sql_section(summary.deep_view(), *config));
        } else {
            assert(out@ =~= old(out)@ + sql_section(summary.deep_view(), *config));
        }
    }

    fn push_summary(out: &mut String, summary: &ProfileSummary, config: &ContextConfig)
        ensures
            final(out)@ == old(out)@ + summary_section(summary.deep_view(), *config),
    {
        let ghost s = summary.deep_view();
        let ghost s0 = out@;
        if !config.query_summary {
            assert(out@ =~= s0 + summary_section(s, *config));
            return ;
        }
        proof {
            reveal_strlit("");
            assert(""@ =~= Seq::<char>::empty());
        }
        out.append("\n## 查询概要\n");
        let ghost t0 = "\n## 查询概要\n"@;
        push_line(out, "- Query ID: ", summary.query_id.as_str());
        let ghost t1 = t0 + line("- Query ID: "@, s.query_id);
        assert(out@ =~= s0 + t1);
        push_line(out, "- 总执行时间: ", summary.total_time.as_str());
        let ghost t2 = t1 + line("- 总执行时间: "@, s.total_time);
        assert(out@ =~= s0 + t2);
        push_line(out, "- 查询状态: ", summary.query_state.as_str());
        let ghost t3 = t2 + line("- 查询状态: "@, s.query_state);
        assert(out@ =~= s0 + t3);
        push_opt_line(out, "- 用户: ", &summary.user, "");
        let ghost t4 = t3 + opt_line("- 用户: "@, s.user, Seq::empty());
        assert(out@ =~= s0 + t4);
        push_opt_line(out, "- 数据库: ", &summary.default_db, "");
        let ghost t5 = t4 + opt_line("- 数据库: "@, s.default_db, Seq::empty());
        assert(out@ =~= s0 + t5);
        assert(t5 == summary_section(s, *config));
    }

    fn push_child(out: &mut String, nodes: &Vec<ExecutionTreeNode>, id: &String, number: usize)
        ensures
            final(out)@ == old(out)@ + child_lines(
                node_from(nodes.deep_view(), id@, 0),
                number as nat,
            ),
    {
        let ghost nv = nodes.deep_view();
        proof {
            reveal_strlit("");
            assert(""@ =~= Seq::<char>::empty());
        }
        let mut i: usize = 0;
        while i < nodes.len()
            invariant
                i <= nodes.len(),
                nv == nodes.deep_view(),
                out@ == old(out)@,
                node_from(nv, id@, 0) == node_from(nv, id@, i as int),
            decreases nodes.len() - i,
        {
            assert(nv[i as int] == nodes@[i as int].deep_view());
            if nodes[i].id == *id {
                let child: &ExecutionTreeNode = &nodes[i];
                let ghost c = nv[i as int];
                let ghost s0 = out@;
                proof {
                    reveal_strlit("");
                    assert(""@ =~= Seq::<char>::empty());
                }
                push_line(
                    out,
                    "\n### 子节点 ",
                    string_of(nat_chars(number as u128).as_slice()).as_str(),
                );
                let ghost t0 = line("\n### 子节点 "@, nat_repr(number as nat));
                push_line(out, "- 操作符: ", child.operator_name.as_str());
                let ghost t1 = t0 + line("- 操作符: "@, c.operator_name);
                assert(out@ =~= s0 + t1);
                push_opt_line(out, "- 执行时间占比: ", &percent_text(&child.time_percentage), "%");
                let ghost t2 = t1 + opt_line("- 执行时间占比: "@, opt_percent(c.time_percentage), "%"@);
                assert(out@ =~= s0 + t2);
                push_opt_line(out, "- 返回行数: ", &number_text(child.metrics.rows_returned), "");
                let ghost t3 = t2 + opt_line(
                    "- 返回行数: "@,
                    opt_number(c.metrics.rows_returned),
                    Seq::empty(),
                );
                assert(out@ =~= s0 + t3);
                assert(t3 == child_lines(Some(c), number as nat));
                return ;
            }
            i += 1;
        }
        assert(out@ =~= old(out)@ + child_lines(None, number as nat));
    }

    fn push_children(
        out: &mut String,
        node: &ExecutionTreeNode,
        profile: &Profile,
        config: &ContextConfig,
    )
        ensures
            final(out)@ == old(out)@ + children_section(
                node.deep_view(),
                profile.deep_view(),
                *config,
            ),
    {
        let ghost n = node.deep_view();
        let ghost start = out@;
        if !(config.child_nodes && node.children.len() > 0) {
            assert(out@ =~= start + children_section(n, profile.deep_view(), *config));
            return ;
        }
        out.append("\n## 子节点信息\n");
        match &profile.execution_tree {
            Some(tree) => {
                let total: usize = node.children.len();
                let shown: usize = if total <= config.max_child_nodes {
                    total
                } else {
                    config.max_child_nodes
                };
                out.append("该节点有 ");
                out.append(string_of(nat_chars(total as u128).as_slice()).as_str());
                out.append(" 个子节点");
                if shown < total {
                    out.append("，以下显示前 ");
                    out.append(string_of(nat_chars(shown as u128).as_slice()).as_str());
                    out.append(" 个：\n");
                } else {
                    out.append("：\n");
                }
                let ghost head = out@;
                let ghost nodes = tree.nodes.deep_view();
                let mut k: usize = 0;
                proof {
                    assert(out@ =~= head + children_lines(nodes, n.children, 0));
                }
                while k < shown
                    invariant
                        k <= shown <= node.children.len(),
                        n == node.deep_view(),
                        nodes == tree.nodes.deep_view(),
                        out@ == head + children_lines(nodes, n.children, k as nat),
                    decreases shown - k,
                {
                    assert(n.children[k as int] == node.children@[k as int]@);
                    Self::push_child(out, &tree.nodes, &node.children[k], k + 1);
                    assert(out@ =~= head + children_lines(nodes, n.children, (k + 1) as nat));
                    k += 1;
                }
                assert(out@ =~= start + children_section(n, profile.deep_view(), *config));
            },
            None => {
                assert(out@ =~= start + children_section(n, profile.deep_view(), *config));
            },
        }
    }

    /// The context of a node.
    pub fn build_context(node: &ExecutionTreeNode, profile: &Profile, config: &ContextConfig) -> (r:
        String)
        ensures
            r@ == context_of(node.deep_view(), profile.deep_view(), *config),
    {
        let ghost n = node.deep_view();
        let ghost p = profile.deep_view();
        let mut context = String::new();
        Self::push_node(&mut context, node);
        let ghost t0 = node_section(n);
        assert(context@ =~= t0);
        Self::push_measures(&mut context, node);
        let ghost t1 = t0 + measures_section(n);
        Self::push_metrics(&mut context, "\n## 计划信息 (PlanInfo)\n", &node.plan_info);
        let ghost t2 = t1 + metrics_section("\n## 计划信息 (PlanInfo)\n"@, n.plan_info);
        Self::push_metrics(&mut context, "\n## 通用指标 (Common Counters)\n", &node.common_counters);
        let ghost t3 = t2 + metrics_section("\n## 通用指标 (Common Counters)\n"@, n.common_counters);
        Self::push_metrics(&mut context, "\n## 自定义指标 (Custom Counters)\n", &node.custom_counters);
        let ghost t4 = t3 + metrics_section("\n## 自定义指标 (Custom Counters)\n"@, n.custom_counters);
        Self::push_sql(&mut context, &profile.summary, config);
        let ghost t5 = t4 + sql_section(p.summary, *config);
        Self::push_summary(&mut context, &profile.summary, config);
        let ghost t6 = t5 + summary_section(p.summary, *config);
        Self::push_children(&mut context, node, profile, config);
        let ghost t7 = t6 + children_section(n, p, *config);
        assert(context@ == t7);
        assert(t7 == context_of(n, p, *config));
        context
    }
}

} // verus!
