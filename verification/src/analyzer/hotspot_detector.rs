//! The hotspot list: the nodes with a severity, the most severe first.

use crate::models::{
    ExecutionTreeNode, HotSpot, HotSpotView, HotspotSeverity, NodeView, Profile, ProfileView,
    TimeShare,
};
use crate::numbers::{int_repr, push_int, push_tenths, ratio_units, rounded_ratio, tenths_repr};
use crate::parser::measures::{severity, severity_of};
use crate::text::string_of;
use vstd::prelude::*;
use vstd::string::StringExecFns;

verus! {

/// The rank of a severity; the more severe, the higher.
pub open spec fn severity_rank_of(s: HotspotSeverity) -> u8 {
    match s {
        HotspotSeverity::Critical => 4,
        HotspotSeverity::High => 3,
        HotspotSeverity::Medium => 2,
        HotspotSeverity::Low => 1,
        HotspotSeverity::Unset => 0,
    }
}

/// The severity of a node: the one it carries, else the one of its share of
/// the time.
pub open spec fn node_severity(n: NodeView) -> HotspotSeverity {
    if n.hotspot_severity != HotspotSeverity::Unset {
        n.hotspot_severity
    } else {
        match n.time_percentage {
            Some(s) => severity_of(s.part as nat, s.total as nat),
            None => HotspotSeverity::Unset,
        }
    }
}

/// A share in percent with one decimal, rounded, a half upward; `N/A`
/// where there is no share or nothing to share in.
pub open spec fn percent_text(share: Option<TimeShare>) -> Seq<char> {
    match share {
        Some(s) => if s.total > 0 {
            tenths_repr(rounded_ratio(s.part as nat * 100, s.total as nat, 10)) + "%"@
        } else {
            "N/A"@
        },
        None => "N/A"@,
    }
}

/// What is said of a hotspot.
pub open spec fn description_of(n: NodeView) -> Seq<char> {
    n.operator_name + " operator consuming "@ + percent_text(n.time_percentage)
        + " of total execution time"@
}

/// The text before the operator of a path: `part`, then ` > `.
pub open spec fn path_part(part: Option<Seq<char>>) -> Seq<char> {
    match part {
        Some(p) => p + " > "@,
        None => Seq::empty(),
    }
}

/// Where a node stands: fragment, pipeline, operator, and plan node.
pub open spec fn node_path_of(n: NodeView) -> Seq<char> {
    path_part(n.fragment_id) + path_part(n.pipeline_id) + n.operator_name + match n.plan_node_id {
        Some(id) => " (Plan Node "@ + int_repr(id as int) + ")"@,
        None => Seq::empty(),
    }
}

/// The hotspot that a node is, if its severity is set.
pub open spec fn hotspot_of(n: NodeView) -> Option<HotSpotView> {
    if node_severity(n) == HotspotSeverity::Unset {
        None
    } else {
        Some(
            HotSpotView {
                node_id: n.id,
                node_path: node_path_of(n),
                operator_name: n.operator_name,
                severity: node_severity(n),
                description: description_of(n),
                impact: Seq::empty(),
                time_percentage: n.time_percentage,
                suggestion: None,
                suggestion_source: None,
            },
        )
    }
}

/// The hotspots of severity `s` among the first `k` nodes, in order.
pub open spec fn hotspots_with(nodes: Seq<NodeView>, s: HotspotSeverity, k: nat) -> Seq<HotSpotView>
    decreases k,
{
    if k == 0 || k > nodes.len() {
        Seq::empty()
    } else {
        let before = hotspots_with(nodes, s, (k - 1) as nat);
        match hotspot_of(nodes[k - 1]) {
            Some(h) => if h.severity == s {
                before.push(h)
            } else {
                before
            },
            None => before,
        }
    }
}

/// The hotspots of the nodes: the critical ones, then the high, the medium
/// and the low ones; those of one severity in the order of their nodes.
pub open spec fn ranked_hotspots(nodes: Seq<NodeView>) -> Seq<HotSpotView> {
    hotspots_with(nodes, HotspotSeverity::Critical, nodes.len()) + hotspots_with(
        nodes,
        HotspotSeverity::High,
        nodes.len(),
    ) + hotspots_with(nodes, HotspotSeverity::Medium, nodes.len()) + hotspots_with(
        nodes,
        HotspotSeverity::Low,
        nodes.len(),
    )
}

/// The hotspots of a profile.
pub open spec fn hotspots_of(profile: ProfileView) -> Seq<HotSpotView> {
    match profile.execution_tree {
        Some(tree) => ranked_hotspots(tree.nodes),
        None => Seq::empty(),
    }
}

/// Every hotspot has a severity, and no hotspot is less severe than one
/// that follows it.
pub proof fn hotspots_are_ranked(nodes: Seq<NodeView>, i: int, j: int)
    requires
        0 <= i <= j < ranked_hotspots(nodes).len(),
    ensures
        ranked_hotspots(nodes)[i].severity != HotspotSeverity::Unset,
        severity_rank_of(ranked_hotspots(nodes)[i].severity) >= severity_rank_of(
            ranked_hotspots(nodes)[j].severity,
        ),
{
    let n = nodes.len();
    lemma_hotspots_with(nodes, HotspotSeverity::Critical, n);
    lemma_hotspots_with(nodes, HotspotSeverity::High, n);
    lemma_hotspots_with(nodes, HotspotSeverity::Medium, n);
    lemma_hotspots_with(nodes, HotspotSeverity::Low, n);
}

proof fn lemma_hotspots_with(nodes: Seq<NodeView>, s: HotspotSeverity, k: nat)
    ensures
        forall|i: int|
            0 <= i < hotspots_with(nodes, s, k).len() ==> (#[trigger] hotspots_with(
                nodes,
                s,
                k,
            )[i]).severity == s,
    decreases k,
{
    if k > 0 && k <= nodes.len() {
        lemma_hotspots_with(nodes, s, (k - 1) as nat);
    }
}

/// Namespace of the hotspot list.
pub struct HotSpotDetector;

impl HotSpotDetector {
    /// The rank of a severity; the more severe, the higher.
    pub fn severity_rank(severity: &HotspotSeverity) -> (r: u8)
        ensures
            r == severity_rank_of(*severity),
    {
        match severity {
            HotspotSeverity::Critical => 4,
            HotspotSeverity::High => 3,
            HotspotSeverity::Medium => 2,
            HotspotSeverity::Low => 1,
            HotspotSeverity::Unset => 0,
        }
    }

    /// The severity of a node: the one it carries, else the one of its
    /// share of the time.
    pub fn determine_severity(node: &ExecutionTreeNode) -> (r: HotspotSeverity)
        ensures
            r == node_severity(node.deep_view()),
    {
        match node.hotspot_severity {
            HotspotSeverity::Unset => match node.time_percentage {
                Some(s) => severity(s.part, s.total),
                None => HotspotSeverity::Unset,
            },
            other => other,
        }
    }

    /// A share in percent with one decimal.
    pub fn percent(share: &Option<TimeShare>) -> (r: String)
        ensures
            r@ == percent_text(*share),
    {
        match share {
            Some(s) => {
                if s.total > 0 {
                    let q = ratio_units((s.part as u128) * 100, s.total, false);
                    let mut out: Vec<char> = Vec::new();
                    push_tenths(&mut out, q);
                    let mut text = string_of(out.as_slice());
                    text.append("%");
                    proof {
                        assert(out@ =~= tenths_repr(q as nat));
                    }
                    text
                } else {
                    "N/A".to_owned()
                }
            },
            None => "N/A".to_owned(),
        }
    }

    /// What is said of a hotspot.
    pub fn generate_analysis(node: &ExecutionTreeNode, _severity: &HotspotSeverity) -> (r: String)
        ensures
            r@ == description_of(node.deep_view()),
    {
        let mut out: String = node.operator_name.clone();
        out.append(" operator consuming ");
        out.append(Self::percent(&node.time_percentage).as_str());
        out.append(" of total execution time");
        out
    }

    /// Where a node stands.
    pub fn build_node_path(node: &ExecutionTreeNode) -> (r: String)
        ensures
            r@ == node_path_of(node.deep_view()),
    {
        let mut path = String::new();
        match &node.fragment_id {
            Some(f) => {
                path.append(f.as_str());
                path.append(" > ");
            },
            None => {},
        }
        match &node.pipeline_id {
            Some(p) => {
                path.append(p.as_str());
                path.append(" > ");
            },
            None => {},
        }
        path.append(node.operator_name.as_str());
        match node.plan_node_id {
            Some(id) => {
                let mut digits: Vec<char> = Vec::new();
                push_int(&mut digits, id as i64);
                assert(digits@ =~= int_repr(id as int));
                path.append(" (Plan Node ");
                path.append(string_of(digits.as_slice()).as_str());
                path.append(")");
            },
            None => {},
        }
        proof {
            assert(path@ =~= node_path_of(node.deep_view()));
        }
        path
    }

    /// The hotspot that a node is, if its severity is set.
    pub fn analyze_node(node: &ExecutionTreeNode) -> (r: Option<HotSpot>)
        ensures
            r.deep_view() == hotspot_of(node.deep_view()),
    {
        let level = Self::determine_severity(node);
        match level {
            HotspotSeverity::Unset => None,
            _ => Some(
                HotSpot {
                    node_id: node.id.clone(),
                    node_path: Self::build_node_path(node),
                    operator_name: node.operator_name.clone(),
                    severity: level,
                    description: Self::generate_analysis(node, &level),
                    impact: String::new(),
                    time_percentage: node.time_percentage,
                    suggestion: None,
                    suggestion_source: None,
                },
            ),
        }
    }

    /// The hotspots of a profile, the most severe first.
    pub fn analyze(profile: &Profile) -> (r: Vec<HotSpot>)
        ensures
            r.deep_view() == hotspots_of(profile.deep_view()),
    {
        let mut critical: Vec<HotSpot> = Vec::new();
        let mut high: Vec<HotSpot> = Vec::new();
        let mut medium: Vec<HotSpot> = Vec::new();
        let mut low: Vec<HotSpot> = Vec::new();
        match &profile.execution_tree {
            Some(tree) => {
                let ghost nodes = tree.nodes.deep_view();
                let mut k: usize = 0;
                proof {
                    assert(critical.deep_view() =~= hotspots_with(
                        nodes,
                        HotspotSeverity::Critical,
                        0,
                    ));
                    assert(high.deep_view() =~= hotspots_with(nodes, HotspotSeverity::High, 0));
                    assert(medium.deep_view() =~= hotspots_with(nodes, HotspotSeverity::Medium, 0));
                    assert(low.deep_view() =~= hotspots_with(nodes, HotspotSeverity::Low, 0));
                }
                while k < tree.nodes.len()
                    invariant
                        k <= tree.nodes.len(),
                        nodes == tree.nodes.deep_view(),
                        critical.deep_view() == hotspots_with(
                            nodes,
                            HotspotSeverity::Critical,
                            k as nat,
                        ),
                        high.deep_view() == hotspots_with(nodes, HotspotSeverity::High, k as nat),
                        medium.deep_view() == hotspots_with(
                            nodes,
                            HotspotSeverity::Medium,
                            k as nat,
                        ),
                        low.deep_view() == hotspots_with(nodes, HotspotSeverity::Low, k as nat),
                    decreases tree.nodes.len() - k,
                {
                    assert(nodes[k as int] == tree.nodes@[k as int].deep_view());
                    match Self::analyze_node(&tree.nodes[k]) {
                        Some(h) => {
                            let ghost hv = h.deep_view();
                            let ghost c0 = critical.deep_view();
                            let ghost h0 = high.deep_view();
                            let ghost m0 = medium.deep_view();
                            let ghost l0 = low.deep_view();
                            match h.severity {
                                HotspotSeverity::Critical => {
                                    critical.push(h);
                                    assert(critical.deep_view() =~= c0.push(hv));
                                },
                                HotspotSeverity::High => {
                                    high.push(h);
                                    assert(high.deep_view() =~= h0.push(hv));
                                },
                                HotspotSeverity::Medium => {
                                    medium.push(h);
                                    assert(medium.deep_view() =~= m0.push(hv));
                                },
                                HotspotSeverity::Low => {
                                    low.push(h);
                                    assert(low.deep_view() =~= l0.push(hv));
                                },
                                HotspotSeverity::Unset => {},
                            }
                        },
                        None => {},
                    }
                    k += 1;
                }
            },
            None => {
                proof {
                    assert(critical.deep_view() + high.deep_view() + medium.deep_view()
                        + low.deep_view() =~= Seq::<HotSpotView>::empty());
                }
            },
        }
        let ghost c = critical.deep_view();
        let ghost h = high.deep_view();
        let ghost m = medium.deep_view();
        let ghost l = low.deep_view();
        let mut out: Vec<HotSpot> = critical;
        out.append(&mut high);
        assert(out.deep_view() =~= c + h);
        out.append(&mut medium);
        assert(out.deep_view() =~= c + h + m);
        out.append(&mut low);
        assert(out.deep_view() =~= c + h + m + l);
        out
    }
}

} // verus!
