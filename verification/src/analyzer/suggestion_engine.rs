//! Advice drawn from the hotspot list: a suggestion for each hotspot, a
//! conclusion, a list of suggestions by priority, and a score.

use crate::config::{
    DefaultSuggestionsConfig, DefaultSuggestionsConfigView, SeveritySuggestions,
    SeveritySuggestionsView,
};
use crate::models::{
    HotSpot, HotSpotView, HotspotSeverity, Profile, ProfileView, Suggestion, SuggestionCategory,
    SuggestionPriority, SuggestionView,
};
use crate::numbers::{nat_chars, nat_repr};
use crate::text::{chars_of, contains, contains_of, join_of, string_of};
use vstd::prelude::*;
use vstd::string::StringExecFns;

verus! {

/// From this score on a profile is called excellent.
pub const EXCELLENT: u32 = 90;

/// From this score on a profile is called good.
pub const GOOD: u32 = 70;

/// From this score on a profile is called fair.
pub const FAIR: u32 = 50;

/// From this score on a profile is called poor; below it, critical.
pub const POOR: u32 = 30;

/// What a score is called.
pub open spec fn score_category_of(score: u32) -> Seq<char> {
    if score >= EXCELLENT {
        "Excellent"@
    } else if score >= GOOD {
        "Good"@
    } else if score >= FAIR {
        "Fair"@
    } else if score >= POOR {
        "Poor"@
    } else {
        "Critical"@
    }
}

/// The rank of a priority; the more urgent, the higher.
pub open spec fn priority_rank_of(p: SuggestionPriority) -> u8 {
    match p {
        SuggestionPriority::Critical => 4,
        SuggestionPriority::High => 3,
        SuggestionPriority::Medium => 2,
        SuggestionPriority::Low => 1,
    }
}

/// The priority of the suggestion for a hotspot of the severity `s`.
pub open spec fn priority_of(s: HotspotSeverity) -> SuggestionPriority {
    match s {
        HotspotSeverity::Critical => SuggestionPriority::Critical,
        HotspotSeverity::High => SuggestionPriority::High,
        HotspotSeverity::Medium => SuggestionPriority::Medium,
        HotspotSeverity::Low => SuggestionPriority::Low,
        HotspotSeverity::Unset => SuggestionPriority::Low,
    }
}

/// What the suggestion for an operator is about: the schema for a scan,
/// the configuration for an exchange, else the query.
pub open spec fn category_of(name: Seq<char>) -> SuggestionCategory {
    if contains_of(name, "SCAN"@) {
        SuggestionCategory::Schema
    } else if contains_of(name, "JOIN"@) {
        SuggestionCategory::Query
    } else if contains_of(name, "EXCHANGE"@) {
        SuggestionCategory::Configuration
    } else {
        SuggestionCategory::Query
    }
}

/// The first entry at or after `i` for the operator `name`.
pub open spec fn entry_from(config: DefaultSuggestionsConfigView, name: Seq<char>, i: int) -> Option<
    SeveritySuggestionsView,
>
    decreases config.suggestions.len() - i,
{
    if i < 0 || i >= config.suggestions.len() {
        None
    } else if config.suggestions[i].0 == name {
        Some(config.suggestions[i].1)
    } else {
        entry_from(config, name, i + 1)
    }
}

/// The text that stands for no suggestion.
pub open spec fn no_suggestion() -> Seq<char> {
    "暂无优化建议"@
}

/// The lines of `list` joined, or the text for no suggestion.
pub open spec fn listed(list: Seq<Seq<char>>) -> Seq<char> {
    if list.len() == 0 {
        no_suggestion()
    } else {
        join_of(list)
    }
}

/// The default suggestion for the operator `name` at the severity `s`: the
/// entry of the operator, else the entry `DEFAULT`, gives the lines.
pub open spec fn default_suggestion_of(
    name: Seq<char>,
    s: HotspotSeverity,
    config: DefaultSuggestionsConfigView,
) -> Seq<char> {
    let entry = match entry_from(config, name, 0) {
        Some(e) => Some(e),
        None => entry_from(config, "DEFAULT"@, 0),
    };
    match entry {
        Some(e) => match s {
            HotspotSeverity::Critical => listed(e.critical),
            HotspotSeverity::High => listed(e.high),
            HotspotSeverity::Medium => listed(e.medium),
            HotspotSeverity::Low => listed(e.low),
            HotspotSeverity::Unset => no_suggestion(),
        },
        None => no_suggestion(),
    }
}

/// What an adviser said when asked about a hotspot.
#[derive(Debug)]
pub enum AdviserOutcome {
    /// No adviser was asked.
    Unavailable,
    Suggested(String),
    Failed(String),
}

/// An adviser's answer as mathematical values.
pub enum AdviserOutcomeView {
    Unavailable,
    Suggested(Seq<char>),
    Failed(Seq<char>),
}

impl DeepView for AdviserOutcome {
    type V = AdviserOutcomeView;

    open spec fn deep_view(&self) -> AdviserOutcomeView {
        match self {
            AdviserOutcome::Unavailable => AdviserOutcomeView::Unavailable,
            AdviserOutcome::Suggested(s) => AdviserOutcomeView::Suggested(s@),
            AdviserOutcome::Failed(e) => AdviserOutcomeView::Failed(e@),
        }
    }
}

/// The suggestion for a hotspot and where it came from: the adviser's,
/// else the default with the reason why the adviser gave none.
pub open spec fn suggestion_from(
    outcome: AdviserOutcomeView,
    name: Seq<char>,
    s: HotspotSeverity,
    config: DefaultSuggestionsConfigView,
) -> (Seq<char>, Seq<char>) {
    match outcome {
        AdviserOutcomeView::Suggested(text) => (text, "ai"@),
        AdviserOutcomeView::Failed(e) => (
            default_suggestion_of(name, s, config),
            "AI Suggestion failed: "@ + e,
        ),
        AdviserOutcomeView::Unavailable => (
            default_suggestion_of(name, s, config),
            "AI Suggestion is not enabled"@,
        ),
    }
}

/// A hotspot with its suggestion.
pub open spec fn advised(h: HotSpotView, outcome: AdviserOutcomeView, config: DefaultSuggestionsConfigView) -> HotSpotView {
    let (text, source) = suggestion_from(outcome, h.operator_name, h.severity, config);
    HotSpotView { suggestion: Some(text), suggestion_source: Some(source), ..h }
}

/// Whether the profile has a node with the id `id`.
pub open spec fn has_node(profile: ProfileView, id: Seq<char>) -> bool {
    match profile.execution_tree {
        Some(tree) => exists|i: int| 0 <= i < tree.nodes.len() && (#[trigger] tree.nodes[i]).id == id,
        None => false,
    }
}

/// The hotspots with default suggestions, each hotspot whose node the
/// profile has.
pub open spec fn with_defaults(
    hs: Seq<HotSpotView>,
    profile: ProfileView,
    config: DefaultSuggestionsConfigView,
) -> Seq<HotSpotView> {
    Seq::new(
        hs.len(),
        |i: int|
            if has_node(profile, hs[i].node_id) {
                advised(hs[i], AdviserOutcomeView::Unavailable, config)
            } else {
                hs[i]
            },
    )
}

/// The first hotspot at or after `i` of the node with the id `id`.
pub open spec fn hotspot_from(hs: Seq<HotSpotView>, id: Seq<char>, i: int) -> Option<HotSpotView>
    decreases hs.len() - i,
{
    if i < 0 || i >= hs.len() {
        None
    } else if hs[i].node_id == id {
        Some(hs[i])
    } else {
        hotspot_from(hs, id, i + 1)
    }
}

/// The advice on one node and where it came from, or why there is none:
/// the profile must have the node; the adviser's suggestion stands; else
/// the node must be a hotspot, and gets the default suggestion.
pub open spec fn diagnosis_of(
    profile: ProfileView,
    hs: Seq<HotSpotView>,
    id: Seq<char>,
    outcome: AdviserOutcomeView,
    config: DefaultSuggestionsConfigView,
) -> Result<(Seq<char>, Seq<char>), Seq<char>> {
    if profile.execution_tree is None {
        Err("No execution tree found"@)
    } else if !has_node(profile, id) {
        Err("Node "@ + id + " not found"@)
    } else {
        match outcome {
            AdviserOutcomeView::Suggested(text) => Ok((text, "ai"@)),
            _ => match hotspot_from(hs, id, 0) {
                Some(h) => Ok(
                    (
                        default_suggestion_of(h.operator_name, h.severity, config),
                        "AI Suggestion is not enabled"@,
                    ),
                ),
                None => Err("Hotspot for node "@ + id + " not found"@),
            },
        }
    }
}

/// How many of the first `k` hotspots have the severity `s`.
pub open spec fn count_with(hs: Seq<HotSpotView>, s: HotspotSeverity, k: nat) -> nat
    decreases k,
{
    if k == 0 || k > hs.len() {
        0
    } else {
        count_with(hs, s, (k - 1) as nat) + if hs[k - 1].severity == s {
            1nat
        } else {
            0nat
        }
    }
}

/// The conclusion of an analysis, in one sentence.
pub open spec fn conclusion_of(hs: Seq<HotSpotView>, total_time: Seq<char>) -> Seq<char> {
    let critical = count_with(hs, HotspotSeverity::Critical, hs.len());
    let high = count_with(hs, HotspotSeverity::High, hs.len());
    if hs.len() == 0 {
        "Query completed in "@ + total_time
            + " with no significant performance issues detected."@
    } else if critical > 0 {
        "Query completed in "@ + total_time + " with "@ + nat_repr(critical)
            + " critical performance bottleneck(s) and "@ + nat_repr(hs.len())
            + " total issue(s) detected. Immediate attention recommended."@
    } else if high > 0 {
        "Query completed in "@ + total_time + " with "@ + nat_repr(high)
            + " high-severity issue(s) and "@ + nat_repr(hs.len())
            + " total issue(s) detected. Optimization recommended."@
    } else {
        "Query completed in "@ + total_time + " with "@ + nat_repr(hs.len())
            + " minor performance issue(s) detected."@
    }
}

/// What a hotspot takes from the score.
pub open spec fn deduction_of(s: HotspotSeverity) -> nat {
    match s {
        HotspotSeverity::Critical => 30,
        HotspotSeverity::High => 20,
        HotspotSeverity::Medium => 10,
        HotspotSeverity::Low => 5,
        HotspotSeverity::Unset => 0,
    }
}

/// What the first `k` hotspots take from the score.
pub open spec fn deductions(hs: Seq<HotSpotView>, k: nat) -> nat
    decreases k,
{
    if k == 0 || k > hs.len() {
        0
    } else {
        deductions(hs, (k - 1) as nat) + deduction_of(hs[k - 1].severity)
    }
}

/// What the total time takes from the score: 15 above a minute, 10 above
/// ten seconds, 5 above five seconds.
pub open spec fn time_penalty(total_ns: Option<i64>) -> nat {
    match total_ns {
        Some(t) => if t > 60_000_000_000 {
            15
        } else if t > 10_000_000_000 {
            10
        } else if t > 5_000_000_000 {
            5
        } else {
            0
        },
        None => 0,
    }
}

/// The score of a profile: 95 without hotspots; else 100 less what the
/// hotspots and the total time take, and not below 0.
pub open spec fn score_of(hs: Seq<HotSpotView>, total_ns: Option<i64>) -> u32 {
    if hs.len() == 0 {
        95
    } else {
        let taken = deductions(hs, hs.len()) + time_penalty(total_ns);
        if taken >= 100 {
            0
        } else {
            (100 - taken) as u32
        }
    }
}

/// Whether the hotspot `i` is the first of its severity and operator.
pub open spec fn first_of_kind(hs: Seq<HotSpotView>, i: int) -> bool {
    forall|j: int|
        0 <= j < i ==> !((#[trigger] hs[j]).severity == hs[i].severity && hs[j].operator_name
            == hs[i].operator_name)
}

/// The suggestion that a hotspot gives, if it has one.
pub open spec fn suggestion_of(h: HotSpotView) -> Option<SuggestionView> {
    match h.suggestion {
        Some(text) => Some(
            SuggestionView {
                title: "Optimize "@ + h.operator_name + " operator"@,
                description: text,
                priority: priority_of(h.severity),
                category: category_of(h.operator_name),
            },
        ),
        None => None,
    }
}

/// The suggestions of priority `p` that the first `k` hotspots give: one
/// for each hotspot that has a suggestion and is the first of its kind.
pub open spec fn suggestions_with(hs: Seq<HotSpotView>, p: SuggestionPriority, k: nat) -> Seq<
    SuggestionView,
>
    decreases k,
{
    if k == 0 || k > hs.len() {
        Seq::empty()
    } else {
        let before = suggestions_with(hs, p, (k - 1) as nat);
        match suggestion_of(hs[k - 1]) {
            Some(s) => if s.priority == p && first_of_kind(hs, k - 1) {
                before.push(s)
            } else {
                before
            },
            None => before,
        }
    }
}

/// The advice that is given where three or more hotspots were found.
pub open spec fn restructuring() -> SuggestionView {
    SuggestionView {
        title: "Consider query restructuring"@,
        description: "Multiple performance bottlenecks detected. Consider breaking the query into smaller parts or restructuring the query logic."@,
        priority: SuggestionPriority::Medium,
        category: SuggestionCategory::Query,
    }
}

/// The suggestions of an analysis, the most urgent first; those of one
/// priority in the order of their hotspots, the general advice last among
/// the medium ones.
pub open spec fn suggestions_of(hs: Seq<HotSpotView>) -> Seq<SuggestionView> {
    suggestions_with(hs, SuggestionPriority::Critical, hs.len()) + suggestions_with(
        hs,
        SuggestionPriority::High,
        hs.len(),
    ) + suggestions_with(hs, SuggestionPriority::Medium, hs.len()) + (if hs.len() >= 3 {
        seq![restructuring()]
    } else {
        Seq::empty()
    }) + suggestions_with(hs, SuggestionPriority::Low, hs.len())
}

/// The entry for the operator `name`.
fn find_entry<'a>(config: &'a DefaultSuggestionsConfig, name: &str) -> (r: Option<
    &'a SeveritySuggestions,
>)
    ensures
        r.deep_view() == entry_from(config.deep_view(), name@, 0),
{
    let owned: String = name.to_owned();
    let ghost cv = config.deep_view();
    let mut i: usize = 0;
    while i < config.suggestions.len()
        invariant
            i <= config.suggestions.len(),
            cv == config.deep_view(),
            owned@ == name@,
            entry_from(cv, name@, 0) == entry_from(cv, name@, i as int),
        decreases config.suggestions.len() - i,
    {
        assert(cv.suggestions[i as int] == config.suggestions@[i as int].deep_view());
        if config.suggestions[i].0 == owned {
            return Some(&config.suggestions[i].1);
        }
        i += 1;
    }
    None
}

/// The lines of `list` joined by line feeds.
fn join_texts(list: &Vec<String>) -> (r: String)
    ensures
        r@ == join_of(list.deep_view()),
{
    let ghost lv = list.deep_view();
    let mut out = String::new();
    let mut k: usize = 0;
    proof {
        assert(lv.subrange(0, 0) =~= Seq::<Seq<char>>::empty());
    }
    while k < list.len()
        invariant
            k <= list.len(),
            lv == list.deep_view(),
            out@ == join_of(lv.subrange(0, k as int)),
        decreases list.len() - k,
    {
        let ghost prev = lv.subrange(0, k as int);
        let ghost next = lv.subrange(0, k + 1);
        proof {
            assert(next.drop_last() =~= prev);
            assert(next.last() == list@[k as int]@);
        }
        let ghost before = out@;
        if k > 0 {
            out.append("\n");
        }
        out.append(list[k].as_str());
        proof {
            reveal_strlit("\n");
            if k > 0 {
                assert("\n"@ =~= seq!['\n']);
                assert(out@ =~= join_of(prev) + seq!['\n'] + list@[k as int]@);
            } else {
                assert(prev.len() == 0);
                assert(out@ =~= list@[k as int]@);
            }
        }
        k += 1;
    }
    proof {
        assert(lv.subrange(0, list.len() as int) =~= lv);
    }
    out
}

fn listed_text(list: &Vec<String>) -> (r: String)
    ensures
        r@ == listed(list.deep_view()),
{
    if list.len() == 0 {
        "暂无优化建议".to_owned()
    } else {
        join_texts(list)
    }
}

fn count_text(n: usize) -> (r: String)
    ensures
        r@ == nat_repr(n as nat),
{
    let digits = nat_chars(n as u128);
    string_of(digits.as_slice())
}

/// Namespace of the advice.
pub struct SuggestionEngine;

impl SuggestionEngine {
    /// What a score is called.
    pub fn get_score_category(score: u32) -> (r: &'static str)
        ensures
            r@ == score_category_of(score),
    {
        if score >= EXCELLENT {
            "Excellent"
        } else if score >= GOOD {
            "Good"
        } else if score >= FAIR {
            "Fair"
        } else if score >= POOR {
            "Poor"
        } else {
            "Critical"
        }
    }

    /// The rank of a priority; the more urgent, the higher.
    pub fn priority_rank(priority: &SuggestionPriority) -> (r: u8)
        ensures
            r == priority_rank_of(*priority),
    {
        match priority {
            SuggestionPriority::Critical => 4,
            SuggestionPriority::High => 3,
            SuggestionPriority::Medium => 2,
            SuggestionPriority::Low => 1,
        }
    }

    /// The priority and the category of the suggestion for a hotspot.
    pub fn categorize_suggestion(hotspot: &HotSpot) -> (r: (SuggestionPriority, SuggestionCategory))
        ensures
            r.0 == priority_of(hotspot.severity),
            r.1 == category_of(hotspot.operator_name@),
    {
        let priority = match hotspot.severity {
            HotspotSeverity::Critical => SuggestionPriority::Critical,
            HotspotSeverity::High => SuggestionPriority::High,
            HotspotSeverity::Medium => SuggestionPriority::Medium,
            HotspotSeverity::Low => SuggestionPriority::Low,
            HotspotSeverity::Unset => SuggestionPriority::Low,
        };
        let cs = chars_of(hotspot.operator_name.as_str());
        let name = cs.as_slice();
        let category = if contains(name, chars_of("SCAN").as_slice()) {
            SuggestionCategory::Schema
        } else if contains(name, chars_of("JOIN").as_slice()) {
            SuggestionCategory::Query
        } else if contains(name, chars_of("EXCHANGE").as_slice()) {
            SuggestionCategory::Configuration
        } else {
            SuggestionCategory::Query
        };
        (priority, category)
    }

    /// The default suggestion for an operator at a severity.
    pub fn get_default_suggestion(
        operator_name: &str,
        severity: &HotspotSeverity,
        config: &DefaultSuggestionsConfig,
    ) -> (r: String)
        ensures
            r@ == default_suggestion_of(operator_name@, *severity, config.deep_view()),
    {
        let entry: Option<&SeveritySuggestions> = match find_entry(config, operator_name) {
            Some(e) => Some(e),
            None => find_entry(config, "DEFAULT"),
        };
        match entry {
            Some(e) => match severity {
                HotspotSeverity::Critical => listed_text(&e.critical),
                HotspotSeverity::High => listed_text(&e.high),
                HotspotSeverity::Medium => listed_text(&e.medium),
                HotspotSeverity::Low => listed_text(&e.low),
                HotspotSeverity::Unset => "暂无优化建议".to_owned(),
            },
            None => "暂无优化建议".to_owned(),
        }
    }

    /// Gives a hotspot its suggestion: the adviser's, else the default.
    pub fn apply_suggestion(
        hotspot: &mut HotSpot,
        outcome: AdviserOutcome,
        config: &DefaultSuggestionsConfig,
    )
        ensures
            final(hotspot).deep_view() == advised(
                old(hotspot).deep_view(),
                outcome.deep_view(),
                config.deep_view(),
            ),
    {
        let (text, source): (String, String) = match outcome {
            AdviserOutcome::Suggested(text) => (text, "ai".to_owned()),
            AdviserOutcome::Failed(e) => {
                let mut source: String = "AI Suggestion failed: ".to_owned();
                source.append(e.as_str());
                (
                    Self::get_default_suggestion(
                        hotspot.operator_name.as_str(),
                        &hotspot.severity,
                        config,
                    ),
                    source,
                )
            },
            AdviserOutcome::Unavailable => (
                Self::get_default_suggestion(
                    hotspot.operator_name.as_str(),
                    &hotspot.severity,
                    config,
                ),
                "AI Suggestion is not enabled".to_owned(),
            ),
        };
        hotspot.suggestion = Some(text);
        hotspot.suggestion_source = Some(source);
    }

    /// Whether the profile has a node with the id `id`.
    pub fn profile_has_node(profile: &Profile, id: &String) -> (r: bool)
        ensures
            r == has_node(profile.deep_view(), id@),
    {
        match &profile.execution_tree {
            Some(tree) => {
                let ghost nodes = tree.nodes.deep_view();
                let mut i: usize = 0;
                while i < tree.nodes.len()
                    invariant
                        i <= tree.nodes.len(),
                        profile.execution_tree == Some(*tree),
                        nodes == tree.nodes.deep_view(),
                        forall|j: int| 0 <= j < i ==> (#[trigger] nodes[j]).id != id@,
                    decreases tree.nodes.len() - i,
                {
                    assert(nodes[i as int] == tree.nodes@[i as int].deep_view());
                    if tree.nodes[i].id == *id {
                        assert(profile.deep_view().execution_tree == Some(tree.deep_view()));
                        assert(tree.deep_view().nodes[i as int].id == id@);
                        return true;
                    }
                    i += 1;
                }
                false
            },
            None => false,
        }
    }

    /// The advice on one node of a profile with the hotspots `hotspots`,
    /// given what the adviser said.
    pub fn diagnose(
        profile: &Profile,
        hotspots: &[HotSpot],
        node_id: &str,
        outcome: AdviserOutcome,
        config: &DefaultSuggestionsConfig,
    ) -> (r: Result<(String, String), String>)
        ensures
            match diagnosis_of(
                profile.deep_view(),
                hotspots.deep_view(),
                node_id@,
                outcome.deep_view(),
                config.deep_view(),
            ) {
                Ok((text, source)) => r matches Ok((a, b)) && a@ == text && b@ == source,
                Err(message) => r matches Err(m) && m@ == message,
            },
    {
        if profile.execution_tree.is_none() {
            return Err("No execution tree found".to_owned());
        }
        let id: String = node_id.to_owned();
        if !Self::profile_has_node(profile, &id) {
            let mut message: String = "Node ".to_owned();
            message.append(node_id);
            message.append(" not found");
            return Err(message);
        }
        let ghost answer = outcome.deep_view();
        match outcome {
            AdviserOutcome::Suggested(text) => {
                return Ok((text, "ai".to_owned()));
            },
            _ => {},
        }
        let ghost hs = hotspots.deep_view();
        let mut i: usize = 0;
        while i < hotspots.len()
            invariant
                i <= hotspots.len(),
                hs == hotspots.deep_view(),
                id@ == node_id@,
                profile.deep_view().execution_tree is Some,
                has_node(profile.deep_view(), node_id@),
                answer == outcome.deep_view(),
                !(answer is Suggested),
                hotspot_from(hs, node_id@, 0) == hotspot_from(hs, node_id@, i as int),
            decreases hotspots.len() - i,
        {
            assert(hs[i as int] == hotspots@[i as int].deep_view());
            if hotspots[i].node_id == id {
                let text = Self::get_default_suggestion(
                    hotspots[i].operator_name.as_str(),
                    &hotspots[i].severity,
                    config,
                );
                return Ok((text, "AI Suggestion is not enabled".to_owned()));
            }
            i += 1;
        }
        let mut message: String = "Hotspot for node ".to_owned();
        message.append(node_id);
        message.append(" not found");
        Err(message)
    }

    /// Gives every hotspot whose node the profile has its default
    /// suggestion.
    pub fn fill_default_suggestions(
        hotspots: &mut Vec<HotSpot>,
        profile: &Profile,
        config: &DefaultSuggestionsConfig,
    )
        ensures
            final(hotspots).deep_view() == with_defaults(
                old(hotspots).deep_view(),
                profile.deep_view(),
                config.deep_view(),
            ),
    {
        let ghost before = hotspots.deep_view();
        let ghost target = with_defaults(before, profile.deep_view(), config.deep_view());
        let mut i: usize = 0;
        while i < hotspots.len()
            invariant
                i <= hotspots.len(),
                hotspots.len() == before.len(),
                target == with_defaults(before, profile.deep_view(), config.deep_view()),
                forall|x: int| 0 <= x < i ==> hotspots@[x].deep_view() == target[x],
                forall|x: int| i <= x < hotspots.len() ==> hotspots@[x].deep_view() == before[x],
            decreases hotspots.len() - i,
        {
            if Self::profile_has_node(profile, &hotspots[i].node_id) {
                let mut h = hotspots[i].clone();
                Self::apply_suggestion(&mut h, AdviserOutcome::Unavailable, config);
                hotspots[i] = h;
            }
            i += 1;
        }
        assert(hotspots.deep_view() =~= target);
    }

    /// The conclusion of an analysis, in one sentence.
    pub fn generate_conclusion(hotspots: &[HotSpot], profile: &Profile) -> (r: String)
        ensures
            r@ == conclusion_of(hotspots.deep_view(), profile.summary.total_time@),
    {
        let ghost hs = hotspots.deep_view();
        let mut critical: usize = 0;
        let mut high: usize = 0;
        let mut k: usize = 0;
        while k < hotspots.len()
            invariant
                k <= hotspots.len(),
                hs == hotspots.deep_view(),
                critical == count_with(hs, HotspotSeverity::Critical, k as nat),
                high == count_with(hs, HotspotSeverity::High, k as nat),
                critical <= k,
                high <= k,
            decreases hotspots.len() - k,
        {
            assert(hs[k as int] == hotspots@[k as int].deep_view());
            match hotspots[k].severity {
                HotspotSeverity::Critical => {
                    critical += 1;
                },
                HotspotSeverity::High => {
                    high += 1;
                },
                _ => {},
            }
            k += 1;
        }
        let mut out: String = "Query completed in ".to_owned();
        out.append(profile.summary.total_time.as_str());
        if hotspots.len() == 0 {
            out.append(" with no significant performance issues detected.");
        } else if critical > 0 {
            out.append(" with ");
            out.append(count_text(critical).as_str());
            out.append(" critical performance bottleneck(s) and ");
            out.append(count_text(hotspots.len()).as_str());
            out.append(" total issue(s) detected. Immediate attention recommended.");
        } else if high > 0 {
            out.append(" with ");
            out.append(count_text(high).as_str());
            out.append(" high-severity issue(s) and ");
            out.append(count_text(hotspots.len()).as_str());
            out.append(" total issue(s) detected. Optimization recommended.");
        } else {
            out.append(" with ");
            out.append(count_text(hotspots.len()).as_str());
            out.append(" minor performance issue(s) detected.");
        }
        out
    }

    /// The score of a profile, from 0 to 100.
    pub fn calculate_performance_score(hotspots: &[HotSpot], profile: &Profile) -> (r: u32)
        ensures
            r == score_of(hotspots.deep_view(), profile.summary.total_time_ns),
            r <= 100,
    {
        if hotspots.len() == 0 {
            return 95;
        }
        let ghost hs = hotspots.deep_view();
        let mut taken: u32 = 0;
        let mut k: usize = 0;
        while k < hotspots.len()
            invariant
                k <= hotspots.len(),
                hs == hotspots.deep_view(),
                taken == if deductions(hs, k as nat) >= 100 {
                    100
                } else {
                    deductions(hs, k as nat)
                },
            decreases hotspots.len() - k,
        {
            assert(hs[k as int] == hotspots@[k as int].deep_view());
            let d: u32 = match hotspots[k].severity {
                HotspotSeverity::Critical => 30,
                HotspotSeverity::High => 20,
                HotspotSeverity::Medium => 10,
                HotspotSeverity::Low => 5,
                HotspotSeverity::Unset => 0,
            };
            taken = taken + d;
            if taken > 100 {
                taken = 100;
            }
            k += 1;
        }
        let penalty: u32 = match profile.summary.total_time_ns {
            Some(t) => if t > 60_000_000_000 {
                15
            } else if t > 10_000_000_000 {
                10
            } else if t > 5_000_000_000 {
                5
            } else {
                0
            },
            None => 0,
        };
        if taken + penalty >= 100 {
            0
        } else {
            100 - (taken + penalty)
        }
    }

    /// The suggestions of an analysis, the most urgent first.
    pub fn generate_suggestions(hotspots: &[HotSpot]) -> (r: Vec<Suggestion>)
        ensures
            r.deep_view() == suggestions_of(hotspots.deep_view()),
    {
        let ghost hs = hotspots.deep_view();
        let mut critical: Vec<Suggestion> = Vec::new();
        let mut high: Vec<Suggestion> = Vec::new();
        let mut medium: Vec<Suggestion> = Vec::new();
        let mut low: Vec<Suggestion> = Vec::new();
        let mut k: usize = 0;
        proof {
            assert(critical.deep_view() =~= suggestions_with(hs, SuggestionPriority::Critical, 0));
            assert(high.deep_view() =~= suggestions_with(hs, SuggestionPriority::High, 0));
            assert(medium.deep_view() =~= suggestions_with(hs, SuggestionPriority::Medium, 0));
            assert(low.deep_view() =~= suggestions_with(hs, SuggestionPriority::Low, 0));
        }
        while k < hotspots.len()
            invariant
                k <= hotspots.len(),
                hs == hotspots.deep_view(),
                critical.deep_view() == suggestions_with(
                    hs,
                    SuggestionPriority::Critical,
                    k as nat,
                ),
                high.deep_view() == suggestions_with(hs, SuggestionPriority::High, k as nat),
                medium.deep_view() == suggestions_with(hs, SuggestionPriority::Medium, k as nat),
                low.deep_view() == suggestions_with(hs, SuggestionPriority::Low, k as nat),
            decreases hotspots.len() - k,
        {
            let hotspot: &HotSpot = &hotspots[k];
            assert(hs[k as int] == hotspot.deep_view());
            let mut first: bool = true;
            let mut j: usize = 0;
            while j < k
                invariant
                    j <= k,
                    k < hotspots.len(),
                    hs == hotspots.deep_view(),
                    hs[k as int] == hotspot.deep_view(),
                    first == forall|x: int|
                        0 <= x < j ==> !((#[trigger] hs[x]).severity == hs[k as int].severity
                            && hs[x].operator_name == hs[k as int].operator_name),
                decreases k - j,
            {
                assert(hs[j as int] == hotspots@[j as int].deep_view());
                if Self::same_severity(hotspots[j].severity, hotspot.severity)
                    && hotspots[j].operator_name == hotspot.operator_name {
                    first = false;
                }
                j += 1;
            }
            if first {
                match &hotspot.suggestion {
                    Some(text) => {
                        let (priority, category) = Self::categorize_suggestion(hotspot);
                        let mut title: String = "Optimize ".to_owned();
                        title.append(hotspot.operator_name.as_str());
                        title.append(" operator");
                        let s = Suggestion { title, description: text.clone(), priority, category };
                        let ghost sv = s.deep_view();
                        let ghost c0 = critical.deep_view();
                        let ghost h0 = high.deep_view();
                        let ghost m0 = medium.deep_view();
                        let ghost l0 = low.deep_view();
                        assert(suggestion_of(hs[k as int]) == Some(sv));
                        match priority {
                            SuggestionPriority::Critical => {
                                critical.push(s);
                                assert(critical.deep_view() =~= c0.push(sv));
                            },
                            SuggestionPriority::High => {
                                high.push(s);
                                assert(high.deep_view() =~= h0.push(sv));
                            },
                            SuggestionPriority::Medium => {
                                medium.push(s);
                                assert(medium.deep_view() =~= m0.push(sv));
                            },
                            SuggestionPriority::Low => {
                                low.push(s);
                                assert(low.deep_view() =~= l0.push(sv));
                            },
                        }
                    },
                    None => {},
                }
            }
            k += 1;
        }
        let ghost c = critical.deep_view();
        let ghost h = high.deep_view();
        let ghost m = medium.deep_view();
        let ghost l = low.deep_view();
        let ghost g = if hs.len() >= 3 {
            seq![restructuring()]
        } else {
            Seq::<SuggestionView>::empty()
        };
        let mut out: Vec<Suggestion> = critical;
        out.append(&mut high);
        assert(out.deep_view() =~= c + h);
        out.append(&mut medium);
        assert(out.deep_view() =~= c + h + m);
        if hotspots.len() >= 3 {
            out.push(
                Suggestion {
                    title: "Consider query restructuring".to_owned(),
                    description: "Multiple performance bottlenecks detected. Consider breaking the query into smaller parts or restructuring the query logic.".to_owned(),
                    priority: SuggestionPriority::Medium,
                    category: SuggestionCategory::Query,
                },
            );
        }
        assert(out.deep_view() =~= c + h + m + g);
        out.append(&mut low);
        assert(out.deep_view() =~= c + h + m + g + l);
        out
    }

    fn same_severity(a: HotspotSeverity, b: HotspotSeverity) -> (r: bool)
        ensures
            r == (a == b),
    {
        a == b
    }
}

} // verus!
