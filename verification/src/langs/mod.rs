//! Language detection and classification.
//!
//! 1. Match the file name against the patterns of the known languages.
//! 2. If exactly one language matches, it is the answer.
//! 3. If several match, look at the shebang, then at the keywords and comment
//!    markers in the content.
//! 4. If none matches but the content is at hand, look at the shebang alone.

pub mod data;
pub mod detection;
pub mod facts;
pub mod further;
pub mod scoring;

pub use data::{languages, Language};
pub use detection::detect_language_info;
