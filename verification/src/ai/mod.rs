//! What a request to an adviser is made of: the context of a node, and the
//! wording for the language of the answer.

pub mod context_builder;

pub use context_builder::ContextBuilder;

use vstd::prelude::*;

verus! {

/// The language of an answer where none is asked for.
pub open spec fn default_language_of() -> Seq<char> {
    "en"@
}

/// The language of an answer where none is asked for.
pub fn default_language() -> (r: String)
    ensures
        r@ == default_language_of(),
{
    "en".to_owned()
}

/// Whether `language` asks for an answer in Chinese.
pub open spec fn asks_chinese(language: Seq<char>) -> bool {
    language == "zh"@ || language == "chinese"@
}

/// The system message of a request for an answer in `language`.
pub open spec fn system_message_of(language: Seq<char>) -> Seq<char> {
    if asks_chinese(language) {
        "You are an expert Doris database performance analyst. Analyze the provided execution plan node and provide specific, actionable optimization suggestions in Chinese. Focus on practical recommendations based on the node's metrics and context."@
    } else {
        "You are an expert Doris database performance analyst. Analyze the provided execution plan node and provide specific, actionable optimization suggestions in English. Focus on practical recommendations based on the node's metrics and context."@
    }
}

/// The system message of a request for an answer in `language`.
pub fn system_message_for(language: &str) -> (r: String)
    ensures
        r@ == system_message_of(language@),
{
    let asked: String = language.to_owned();
    let zh: String = "zh".to_owned();
    let chinese: String = "chinese".to_owned();
    if asked == zh || asked == chinese {
        "You are an expert Doris database performance analyst. Analyze the provided execution plan node and provide specific, actionable optimization suggestions in Chinese. Focus on practical recommendations based on the node's metrics and context.".to_owned()
    } else {
        "You are an expert Doris database performance analyst. Analyze the provided execution plan node and provide specific, actionable optimization suggestions in English. Focus on practical recommendations based on the node's metrics and context.".to_owned()
    }
}

} // verus!
