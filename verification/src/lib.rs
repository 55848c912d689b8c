//! Reports on the history and the tree of a git repository.
//!
//! The library takes rows that were drawn from the history, files of the tree
//! and the times of commits as plain values, and makes reports of them:
//!
//! - `metrics` holds one collector per report,
//! - `analysis` and `langs` tell source code from other files, code from
//!   comments and one language from another,
//! - `syntax` holds syntax trees as lists of nodes,
//! - `git` decides which commits count and what a change of a file is,
//! - `cli` reads the arguments, and
//! - `output` and `i18n` put the reports in words, tables and documents.
//!
//! The other modules are the vocabulary that the contracts are written in:
//! texts, numbers of double precision, tables, tallies, sums, ranked rows and
//! the parts of a report.

pub mod analysis;
pub mod blob;
pub mod busiest;
pub mod calendar;
pub mod cli;
pub mod double;
pub mod english;
pub mod fold;
pub mod git;
pub mod i18n;
pub mod interner;
pub mod langs;
pub mod messages;
pub mod metrics;
pub mod order;
pub mod output;
pub mod pattern;
pub mod report;
pub mod syntax;
pub mod table;
pub mod tally;
pub mod text;
pub mod types;
