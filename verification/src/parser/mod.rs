//! The parsing cascade: value decoders, section, fragment and operator
//! segmenters, the graph builder, and the composer that runs them in turn.

pub mod composer;
pub mod depths;
pub mod fragment_parser;
pub mod header;
pub mod links;
pub mod measures;
pub mod operator_parser;
pub mod pipeline_text;
pub mod section_parser;
pub mod tree_builder;
pub mod value_parser;

pub use composer::ProfileComposer;
pub use fragment_parser::FragmentParser;
pub use operator_parser::OperatorParser;
pub use section_parser::SectionParser;
pub use tree_builder::TreeBuilder;
pub use value_parser::ValueParser;
