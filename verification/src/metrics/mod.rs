//! The reports: each collector turns plain rows into a finished report.

pub mod quality;
pub mod quick_composition;
pub mod ownership;
pub mod knowledge_silos;
pub mod succession;
pub mod construct_ownership;
pub mod coupling;
pub mod hotspots;
pub mod authors;
pub mod churn;
pub mod age;
pub mod commit_velocity;
pub mod construct_churn;
pub mod outliers;
pub mod churn_pareto;
pub mod patterns;
pub mod commit_size;
pub mod module_coupling;
pub mod branches;
pub mod large_sources;
pub mod composition;
pub mod test_ratio;
pub mod half_life;
pub mod bloat;
pub mod fan_in_out;
pub mod dead_code;
pub mod debt_markers;
pub mod complexity;
pub mod clones;
pub mod doc_coverage;
