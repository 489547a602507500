//! What is made of a parsed profile: the list of hotspots, and advice,
//! a conclusion and a score drawn from it.

pub mod hotspot_detector;
pub mod suggestion_engine;

pub use hotspot_detector::HotSpotDetector;
pub use suggestion_engine::SuggestionEngine;
