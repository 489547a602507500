//! Parser and execution-graph builder for query profile dumps of a
//! distributed SQL engine, with the analysis that is drawn from the graph.

pub mod ai;
pub mod analyzer;
pub mod config;
pub mod models;
pub mod numbers;
pub mod parser;
pub mod text;

pub use ai::ContextBuilder;
pub use analyzer::{HotSpotDetector, SuggestionEngine};
pub use config::ConfigLoader;
pub use parser::ProfileComposer;

use crate::analyzer::hotspot_detector::hotspots_of;
use crate::analyzer::suggestion_engine::{conclusion_of, score_of, suggestions_of, with_defaults};
use crate::config::{DefaultSuggestionsConfig, DefaultSuggestionsConfigView};
use crate::models::{
    result_view, HotSpot, HotSpotView, ParseError, ParseErrorView, Profile,
    ProfileAnalysisResponse, ProfileAnalysisResponseView, ProfileView,
};
use crate::parser::composer::profile_of;
use vstd::prelude::*;

verus! {

/// What the analysis of a profile with the hotspots `hs` gives.
pub open spec fn analysis_of(profile: ProfileView, hs: Seq<HotSpotView>) -> ProfileAnalysisResponseView {
    ProfileAnalysisResponseView {
        hotspots: hs,
        conclusion: conclusion_of(hs, profile.summary.total_time),
        suggestions: suggestions_of(hs),
        performance_score: score_of(hs, profile.summary.total_time_ns),
        execution_tree: profile.execution_tree,
        summary: Some(profile.summary),
    }
}

/// What the analysis of a document gives: its hotspots, with a conclusion,
/// suggestions and a score; or why the document could not be parsed.
pub open spec fn analyzed(text: Seq<char>) -> Result<ProfileAnalysisResponseView, ParseErrorView> {
    match profile_of(text) {
        Ok(p) => Ok(analysis_of(p, hotspots_of(p))),
        Err(e) => Err(e),
    }
}

/// What the analysis of a document gives where each hotspot gets its
/// default suggestion.
pub open spec fn analyzed_with_defaults(text: Seq<char>, config: DefaultSuggestionsConfigView) -> Result<
    ProfileAnalysisResponseView,
    ParseErrorView,
> {
    match profile_of(text) {
        Ok(p) => Ok(analysis_of(p, with_defaults(hotspots_of(p), p, config))),
        Err(e) => Err(e),
    }
}

/// Draws the conclusion, the suggestions and the score from the hotspots
/// of a profile.
pub fn conclude(profile: Profile, hotspots: Vec<HotSpot>) -> (r: ProfileAnalysisResponse)
    ensures
        r.deep_view() == analysis_of(profile.deep_view(), hotspots.deep_view()),
{
    let found: &[HotSpot] = hotspots.as_slice();
    assert(found.deep_view() =~= hotspots.deep_view());
    let conclusion = SuggestionEngine::generate_conclusion(found, &profile);
    let suggestions = SuggestionEngine::generate_suggestions(found);
    let performance_score = SuggestionEngine::calculate_performance_score(found, &profile);
    ProfileAnalysisResponse {
        hotspots,
        conclusion,
        suggestions,
        performance_score,
        execution_tree: profile.execution_tree,
        summary: Some(profile.summary),
    }
}

/// Analyzes a profile document.
pub fn analyze_profile(profile_text: &str) -> (r: Result<ProfileAnalysisResponse, ParseError>)
    ensures
        result_view(r) == analyzed(profile_text@),
{
    let mut composer = ProfileComposer::new();
    let profile = match composer.parse(profile_text) {
        Ok(p) => p,
        Err(e) => {
            return Err(e);
        },
    };
    let hotspots = HotSpotDetector::analyze(&profile);
    Ok(conclude(profile, hotspots))
}

/// Analyzes a profile document and gives each hotspot its default
/// suggestion.
pub fn analyze_profile_with_defaults(profile_text: &str, config: &DefaultSuggestionsConfig) -> (r:
    Result<ProfileAnalysisResponse, ParseError>)
    ensures
        result_view(r) == analyzed_with_defaults(profile_text@, config.deep_view()),
{
    let mut composer = ProfileComposer::new();
    let profile = match composer.parse(profile_text) {
        Ok(p) => p,
        Err(e) => {
            return Err(e);
        },
    };
    let mut hotspots = HotSpotDetector::analyze(&profile);
    SuggestionEngine::fill_default_suggestions(&mut hotspots, &profile, config);
    Ok(conclude(profile, hotspots))
}

} // verus!
