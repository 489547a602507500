//! The composer: the one entry point that runs the segmenters and the graph
//! builder over a document.

use crate::models::{
    result_view, Entries, ParseError, ParseErrorView, Profile, ProfileSummaryView, ProfileView,
};
use crate::parser::fragment_parser::{fragments_of, segment_ids_are_plain, FragmentParser};
use crate::parser::section_parser::{
    json_span_of, json_string_maps, section_of, summary_of, SectionParser,
};
use crate::parser::measures::{
    lemma_measured_keeps_times, share_sum, time_shares_sum_to_whole, total_time,
};
use crate::parser::tree_builder::{
    all_nodes, connected, tree_nodes_are_well_named, tree_of, well_named_ids_tell_apart,
    TreeBuilder,
};
use crate::text::{chars_of, find_of, is_blank, trim};
use vstd::prelude::*;

verus! {

/// The session variables of a document, where it has some that can be
/// read.
pub open spec fn session_variables_of(text: Seq<char>) -> Option<Seq<Entries>> {
    match json_span_of(text) {
        Ok(span) => json_string_maps(span),
        Err(_) => None,
    }
}

/// `summary` with the session variables where there are some.
pub open spec fn with_variables(summary: ProfileSummaryView, variables: Option<Seq<Entries>>) -> ProfileSummaryView {
    match variables {
        Some(v) => ProfileSummaryView { session_variables: v, ..summary },
        None => summary,
    }
}

/// The profile that a document holds.
///
/// Blank text is malformed. The metadata section and the merged profile
/// must be there; session variables that cannot be read are left out. A
/// merged profile without a fragment is malformed.
pub open spec fn profile_of(text: Seq<char>) -> Result<ProfileView, ParseErrorView> {
    if is_blank(text) {
        Err(ParseErrorView::InvalidFormat("Empty profile text"@))
    } else {
        match summary_of(text) {
            Err(e) => Err(e),
            Ok(summary) => match section_of(text, "MergedProfile:"@) {
                Err(e) => Err(e),
                Ok(merged) => {
                    let fragments = fragments_of(merged);
                    if fragments.len() == 0 {
                        Err(ParseErrorView::InvalidFormat("No fragments found in profile"@))
                    } else {
                        Ok(
                            ProfileView {
                                summary: with_variables(summary, session_variables_of(text)),
                                fragments,
                                execution_tree: Some(tree_of(fragments)),
                            },
                        )
                    }
                },
            },
        }
    }
}

/// Empty text and text of nothing but whitespace is malformed.
pub proof fn blank_text_is_invalid(text: Seq<char>)
    requires
        is_blank(text),
    ensures
        profile_of(text) == Err::<ProfileView, ParseErrorView>(
            ParseErrorView::InvalidFormat("Empty profile text"@),
        ),
{
}

/// A document with a metadata section but without the marker of the merged
/// profile lacks a field.
pub proof fn merged_profile_is_required(text: Seq<char>)
    requires
        !is_blank(text),
        summary_of(text) is Ok,
        find_of(text, "MergedProfile:"@) is None,
    ensures
        profile_of(text) == Err::<ProfileView, ParseErrorView>(
            ParseErrorView::MissingField("MergedProfile: section"@),
        ),
{
    assert("MergedProfile:"@ + " section"@ =~= "MergedProfile: section"@) by {
        reveal_strlit("MergedProfile:");
        reveal_strlit(" section");
        reveal_strlit("MergedProfile: section");
    }
}

/// Parsing fails in three ways only: the text is blank, a section is
/// missing, or the merged profile holds no fragment.
pub proof fn parse_fails_in_three_ways(text: Seq<char>)
    ensures
        match profile_of(text) {
            Ok(_) => true,
            Err(e) => {
                ||| e == ParseErrorView::InvalidFormat("Empty profile text"@)
                ||| e == ParseErrorView::MissingField("Summary: section"@)
                ||| e == ParseErrorView::MissingField("MergedProfile: section"@)
                ||| e == ParseErrorView::InvalidFormat("No fragments found in profile"@)
            },
        },
{
    reveal_strlit("Summary:");
    reveal_strlit("MergedProfile:");
    reveal_strlit(" section");
    reveal_strlit("Summary: section");
    reveal_strlit("MergedProfile: section");
    assert("Summary:"@ + " section"@ =~= "Summary: section"@);
    assert("MergedProfile:"@ + " section"@ =~= "MergedProfile: section"@);
}

/// The nodes of the profile that a document holds; none where it holds no
/// profile.
pub open spec fn parsed_nodes(text: Seq<char>) -> Seq<crate::models::NodeView> {
    match profile_of(text) {
        Ok(p) => match p.execution_tree {
            Some(tree) => tree.nodes,
            None => Seq::empty(),
        },
        Err(_) => Seq::empty(),
    }
}

/// In a parsed profile the shares of the nodes make up the whole: where
/// every node has an execution time and not all times are zero, every node
/// has a share of the total of the times, and the parts of the shares add
/// up to that total. In percent: the time percentages add up to 100.
pub proof fn parsed_shares_sum_to_whole(text: Seq<char>)
    requires
        profile_of(text) is Ok,
        parsed_nodes(text).len() <= usize::MAX,
        forall|i: int|
            0 <= i < parsed_nodes(text).len() ==> (#[trigger] parsed_nodes(
                text,
            )[i]).metrics.operator_total_time is Some,
        total_time(parsed_nodes(text), parsed_nodes(text).len()) > 0,
    ensures
        forall|i: int|
            0 <= i < parsed_nodes(text).len() ==> (#[trigger] parsed_nodes(
                text,
            )[i]).time_percentage is Some && parsed_nodes(text)[i].time_percentage.unwrap().total
                == total_time(parsed_nodes(text), parsed_nodes(text).len()),
        share_sum(parsed_nodes(text), parsed_nodes(text).len()) == total_time(
            parsed_nodes(text),
            parsed_nodes(text).len(),
        ),
{
    let merged = match section_of(text, "MergedProfile:"@) {
        Ok(m) => m,
        Err(_) => Seq::empty(),
    };
    let fragments = fragments_of(merged);
    let linked = connected(all_nodes(fragments, fragments.len()));
    let nodes = parsed_nodes(text);
    assert(nodes == crate::parser::measures::measured(linked));
    lemma_measured_keeps_times(linked, linked.len());
    assert forall|i: int| 0 <= i < linked.len() implies (
    #[trigger] linked[i]).metrics.operator_total_time is Some by {
        assert(nodes[i].metrics == linked[i].metrics);
    }
    time_shares_sum_to_whole(linked);
}

/// In a parsed profile the ids tell the nodes apart: two nodes with the
/// same id stand in the same pipeline of the same fragment and are named
/// by the same destination, or by the same plan node where they have no
/// destination. Operators of different fragments get different ids even
/// where their own ids are the same.
pub proof fn parsed_ids_tell_apart(text: Seq<char>, i: int, j: int)
    requires
        0 <= i < parsed_nodes(text).len(),
        0 <= j < parsed_nodes(text).len(),
        parsed_nodes(text)[i].id == parsed_nodes(text)[j].id,
    ensures
        parsed_nodes(text)[i].fragment_id == parsed_nodes(text)[j].fragment_id,
        parsed_nodes(text)[i].pipeline_id == parsed_nodes(text)[j].pipeline_id,
        parsed_nodes(text)[i].dest_id == parsed_nodes(text)[j].dest_id,
        parsed_nodes(text)[i].dest_id is None ==> parsed_nodes(text)[i].plan_node_id
            == parsed_nodes(text)[j].plan_node_id,
{
    let merged = match section_of(text, "MergedProfile:"@) {
        Ok(m) => m,
        Err(_) => Seq::empty(),
    };
    let fragments = fragments_of(merged);
    segment_ids_are_plain(merged);
    tree_nodes_are_well_named(fragments);
    assert(parsed_nodes(text) == tree_of(fragments).nodes);
    well_named_ids_tell_apart(parsed_nodes(text)[i], parsed_nodes(text)[j]);
}

/// Parsing is a function of the text: whatever two runs over the same text
/// return is equal in every part.
pub proof fn parse_is_deterministic(
    text: Seq<char>,
    first: Result<ProfileView, ParseErrorView>,
    second: Result<ProfileView, ParseErrorView>,
)
    requires
        first == profile_of(text),
        second == profile_of(text),
    ensures
        first == second,
{
}

/// Parses profile documents.
pub struct ProfileComposer {}

impl ProfileComposer {
    /// A composer.
    pub fn new() -> (r: Self) {
        ProfileComposer {  }
    }

    /// Parses a document into a profile.
    pub fn parse(&mut self, profile_text: &str) -> (r: Result<Profile, ParseError>)
        ensures
            result_view(r) == profile_of(profile_text@),
    {
        let cs = chars_of(profile_text);
        if trim(cs.as_slice()).len() == 0 {
            return Err(ParseError::InvalidFormat("Empty profile text".to_owned()));
        }
        let mut summary = match SectionParser::parse_summary(profile_text) {
            Ok(s) => s,
            Err(e) => {
                return Err(e);
            },
        };
        let ghost read = summary.deep_view();
        match SectionParser::parse_session_variables(profile_text) {
            Ok(variables) => {
                summary.session_variables = variables;
            },
            Err(_) => {},
        }
        assert(summary.deep_view() == with_variables(read, session_variables_of(profile_text@)));
        let merged = match SectionParser::extract_merged_profile(profile_text) {
            Ok(m) => m,
            Err(e) => {
                return Err(e);
            },
        };
        let fragments = FragmentParser::extract_all_fragments(merged.as_str());
        if fragments.len() == 0 {
            return Err(ParseError::InvalidFormat("No fragments found in profile".to_owned()));
        }
        let all: &[crate::models::Fragment] = fragments.as_slice();
        assert(all.deep_view() =~= fragments.deep_view());
        let execution_tree = TreeBuilder::build_from_fragments(all, &summary);
        Ok(Profile { summary, fragments, execution_tree: Some(execution_tree) })
    }
}

impl Default for ProfileComposer {
    fn default() -> (r: Self) {
        ProfileComposer::new()
    }
}

} // verus!
