//! Settings that the analysis reads: what an advisory request includes, and
//! the suggestions that are given by default.

use vstd::prelude::*;

verus! {

/// What the context of an advisory request includes.
#[derive(Debug, Clone, Copy, PartialEq, Eq, Structural)]
pub struct ContextConfig {
    pub sql_statement: bool,
    pub query_summary: bool,
    pub child_nodes: bool,
    pub max_child_nodes: usize,
}

/// How an advisory request is worded.
#[derive(Debug)]
pub struct PromptConfig {
    pub system_message: String,
    pub include_context: ContextConfig,
}

/// The wording of a request as mathematical values.
pub struct PromptConfigView {
    pub system_message: Seq<char>,
    pub include_context: ContextConfig,
}

impl DeepView for PromptConfig {
    type V = PromptConfigView;

    open spec fn deep_view(&self) -> PromptConfigView {
        PromptConfigView {
            system_message: self.system_message@,
            include_context: self.include_context,
        }
    }
}

impl Clone for PromptConfig {
    fn clone(&self) -> (r: Self)
        ensures
            r.deep_view() == self.deep_view(),
    {
        PromptConfig {
            system_message: self.system_message.clone(),
            include_context: self.include_context,
        }
    }
}

/// The default suggestions for one operator, by severity.
#[derive(Debug)]
pub struct SeveritySuggestions {
    pub critical: Vec<String>,
    pub high: Vec<String>,
    pub medium: Vec<String>,
    pub low: Vec<String>,
}

/// The default suggestions for one operator as mathematical values.
pub struct SeveritySuggestionsView {
    pub critical: Seq<Seq<char>>,
    pub high: Seq<Seq<char>>,
    pub medium: Seq<Seq<char>>,
    pub low: Seq<Seq<char>>,
}

impl DeepView for SeveritySuggestions {
    type V = SeveritySuggestionsView;

    open spec fn deep_view(&self) -> SeveritySuggestionsView {
        SeveritySuggestionsView {
            critical: self.critical.deep_view(),
            high: self.high.deep_view(),
            medium: self.medium.deep_view(),
            low: self.low.deep_view(),
        }
    }
}

/// The default suggestions, by operator name; `DEFAULT` stands for every
/// operator that has no entry of its own.
#[derive(Debug)]
pub struct DefaultSuggestionsConfig {
    pub suggestions: Vec<(String, SeveritySuggestions)>,
}

/// The default suggestions as mathematical values.
pub struct DefaultSuggestionsConfigView {
    pub suggestions: Seq<(Seq<char>, SeveritySuggestionsView)>,
}

impl DeepView for DefaultSuggestionsConfig {
    type V = DefaultSuggestionsConfigView;

    open spec fn deep_view(&self) -> DefaultSuggestionsConfigView {
        DefaultSuggestionsConfigView { suggestions: self.suggestions.deep_view() }
    }
}

/// The context that a request includes by default: everything, with up to
/// three child nodes.
pub open spec fn default_context() -> ContextConfig {
    ContextConfig { sql_statement: true, query_summary: true, child_nodes: true, max_child_nodes: 3 }
}

/// The wording of a request by default.
pub open spec fn default_prompt() -> PromptConfigView {
    PromptConfigView {
        system_message: "You are an expert Doris database performance analyst."@,
        include_context: default_context(),
    }
}

/// Namespace of the settings.
pub struct ConfigLoader;

impl ConfigLoader {
    /// The wording of a request where no settings are given.
    pub fn default_prompt_config() -> (r: PromptConfig)
        ensures
            r.deep_view() == default_prompt(),
    {
        PromptConfig {
            system_message: "You are an expert Doris database performance analyst.".to_owned(),
            include_context: ContextConfig {
                sql_statement: true,
                query_summary: true,
                child_nodes: true,
                max_child_nodes: 3,
            },
        }
    }
}

} // verus!
