//! Source-file analysis: line classification and the choice of what counts as
//! source code.

pub mod line_classifier;
pub mod source_filter;
