//! Stable message codes for [`crate::types::LocalizedMessage`].
//!
//! - Codes are stable, dotted, snake_case identifiers grouped by report.
//! - Never rename a code in place: deprecate it and add a new one instead.
//! - Codes are the public contract shared with translation catalogs.

use vstd::prelude::*;

verus! {

// bloat

pub const BLOAT_RECOMMENDATION_OK: &'static str = "bloat.recommendation.ok";
pub const BLOAT_RECOMMENDATION_LARGE_FILE: &'static str = "bloat.recommendation.large_file";
pub const BLOAT_RECOMMENDATION_VERY_LARGE_FILE: &'static str = "bloat.recommendation.very_large_file";
pub const BLOAT_RECOMMENDATION_MINIFIED_BUNDLE: &'static str = "bloat.recommendation.minified_bundle";
pub const BLOAT_RECOMMENDATION_VENDORED_DEPS: &'static str = "bloat.recommendation.vendored_deps";
pub const BLOAT_RECOMMENDATION_BUILD_OUTPUT: &'static str = "bloat.recommendation.build_output";
pub const BLOAT_RECOMMENDATION_RUST_BUILD_OUTPUT: &'static str = "bloat.recommendation.rust_build_output";
pub const BLOAT_RECOMMENDATION_OS_METADATA: &'static str = "bloat.recommendation.os_metadata";
pub const BLOAT_RECOMMENDATION_IDE_CONFIG: &'static str = "bloat.recommendation.ide_config";

// branches

pub const BRANCHES_RECOMMENDATION_HEAD: &'static str = "branches.recommendation.head";
pub const BRANCHES_RECOMMENDATION_MERGED_STALE: &'static str = "branches.recommendation.merged_stale";
pub const BRANCHES_RECOMMENDATION_MERGED_RECENT: &'static str = "branches.recommendation.merged_recent";
pub const BRANCHES_RECOMMENDATION_ABANDONED: &'static str = "branches.recommendation.abandoned";
pub const BRANCHES_RECOMMENDATION_STALE: &'static str = "branches.recommendation.stale";
pub const BRANCHES_RECOMMENDATION_ACTIVE: &'static str = "branches.recommendation.active";

// churn_pareto

pub const CHURN_PARETO_SUMMARY_PCT: &'static str = "churn_pareto.summary.pct";
pub const CHURN_PARETO_SUMMARY_CUMULATIVE: &'static str = "churn_pareto.summary.cumulative";

// complexity

pub const COMPLEXITY_RECOMMENDATION_SIMPLE: &'static str = "complexity.recommendation.simple";
pub const COMPLEXITY_RECOMMENDATION_OK: &'static str = "complexity.recommendation.ok";
pub const COMPLEXITY_RECOMMENDATION_HIGH: &'static str = "complexity.recommendation.high";
pub const COMPLEXITY_RECOMMENDATION_VERY_HIGH: &'static str = "complexity.recommendation.very_high";

// debt_markers

pub const DEBT_MARKERS_RECOMMENDATION_AGE_UNKNOWN: &'static str = "debt_markers.recommendation.age_unknown";
pub const DEBT_MARKERS_RECOMMENDATION_FRESH: &'static str = "debt_markers.recommendation.fresh";
pub const DEBT_MARKERS_RECOMMENDATION_AGING: &'static str = "debt_markers.recommendation.aging";
pub const DEBT_MARKERS_RECOMMENDATION_STALE: &'static str = "debt_markers.recommendation.stale";
pub const DEBT_MARKERS_RECOMMENDATION_ROTTEN: &'static str = "debt_markers.recommendation.rotten";

// doc_coverage

pub const DOC_COVERAGE_RECOMMENDATION_POOR: &'static str = "doc_coverage.recommendation.poor";
pub const DOC_COVERAGE_RECOMMENDATION_LOW: &'static str = "doc_coverage.recommendation.low";
pub const DOC_COVERAGE_RECOMMENDATION_OK: &'static str = "doc_coverage.recommendation.ok";
pub const DOC_COVERAGE_RECOMMENDATION_GOOD: &'static str = "doc_coverage.recommendation.good";

// fan_in_out

pub const FAN_IN_OUT_ROLE_HUB: &'static str = "fan_in_out.role.hub";
pub const FAN_IN_OUT_ROLE_ORCHESTRATOR: &'static str = "fan_in_out.role.orchestrator";
pub const FAN_IN_OUT_ROLE_LEAF: &'static str = "fan_in_out.role.leaf";
pub const FAN_IN_OUT_ROLE_PURE_DEP: &'static str = "fan_in_out.role.pure_dep";
pub const FAN_IN_OUT_ROLE_MIXED: &'static str = "fan_in_out.role.mixed";

// half_life

pub const HALF_LIFE_RECOMMENDATION_HOT: &'static str = "half_life.recommendation.hot";
pub const HALF_LIFE_RECOMMENDATION_AGING: &'static str = "half_life.recommendation.aging";
pub const HALF_LIFE_RECOMMENDATION_STABLE: &'static str = "half_life.recommendation.stable";
pub const HALF_LIFE_RECOMMENDATION_CORE: &'static str = "half_life.recommendation.core";

// health

pub const HEALTH_ACTION_CRITICAL: &'static str = "health.action.critical";
pub const HEALTH_ACTION_WARNING: &'static str = "health.action.warning";
pub const HEALTH_ACTION_OK: &'static str = "health.action.ok";
pub const HEALTH_GROUP_OVERALL: &'static str = "health.group.overall";
pub const HEALTH_GROUP_PILLARS: &'static str = "health.group.pillars";
pub const HEALTH_GROUP_ACTIONS: &'static str = "health.group.actions";
pub const HEALTH_GROUP_HYGIENE: &'static str = "health.group.hygiene";
pub const HEALTH_OVERALL_SCORE: &'static str = "health.overall.score";
pub const HEALTH_INTERPRETATION_EXCELLENT: &'static str = "health.interpretation.excellent";
pub const HEALTH_INTERPRETATION_GOOD: &'static str = "health.interpretation.good";
pub const HEALTH_INTERPRETATION_FAIR: &'static str = "health.interpretation.fair";
pub const HEALTH_INTERPRETATION_CONCERNING: &'static str = "health.interpretation.concerning";
pub const HEALTH_INTERPRETATION_POOR: &'static str = "health.interpretation.poor";
pub const HEALTH_PILLAR_COMMIT_DISCIPLINE: &'static str = "health.pillar.commit_discipline";
pub const HEALTH_PILLAR_BUS_FACTOR: &'static str = "health.pillar.bus_factor";
pub const HEALTH_PILLAR_REFACTORING_DEBT: &'static str = "health.pillar.refactoring_debt";
pub const HEALTH_PILLAR_TIDINESS: &'static str = "health.pillar.tidiness";
pub const HEALTH_PILLAR_CHANGE_CONCENTRATION: &'static str = "health.pillar.change_concentration";
pub const HEALTH_PILLAR_SEE_ACTIONS: &'static str = "health.pillar.see_actions";
pub const HEALTH_SUMMARY_COMMIT_DISCIPLINE: &'static str = "health.summary.commit_discipline";
pub const HEALTH_SUMMARY_BUS_FACTOR: &'static str = "health.summary.bus_factor";
pub const HEALTH_SUMMARY_REFACTORING_DEBT: &'static str = "health.summary.refactoring_debt";
pub const HEALTH_SUMMARY_TIDINESS: &'static str = "health.summary.tidiness";
pub const HEALTH_SUMMARY_CHANGE_CONCENTRATION: &'static str = "health.summary.change_concentration";
pub const HEALTH_SUMMARY_NOT_ENOUGH_FILES: &'static str = "health.summary.not_enough_files";
pub const HEALTH_DETAIL_LOW_QUALITY: &'static str = "health.detail.low_quality";
pub const HEALTH_DETAIL_MEGA_COMMITS: &'static str = "health.detail.mega_commits";
pub const HEALTH_DETAIL_HIGH_REVERT: &'static str = "health.detail.high_revert";
pub const HEALTH_DETAIL_SOLE_OWNER: &'static str = "health.detail.sole_owner";
pub const HEALTH_DETAIL_HIGH_COMPLEXITY: &'static str = "health.detail.high_complexity";
pub const HEALTH_DETAIL_GOD_MODULE: &'static str = "health.detail.god_module";
pub const HEALTH_DETAIL_ROTTEN_MARKER: &'static str = "health.detail.rotten_marker";
pub const HEALTH_COMMAND_ENFORCE_CONVENTIONAL: &'static str = "health.command.enforce_conventional";
pub const HEALTH_COMMAND_SPLIT_COMMITS: &'static str = "health.command.split_commits";
pub const HEALTH_COMMAND_REQUIRE_REVIEW: &'static str = "health.command.require_review";
pub const HEALTH_COMMAND_PAIR_REVIEW: &'static str = "health.command.pair_review";
pub const HEALTH_COMMAND_EXTRACT_BRANCHES: &'static str = "health.command.extract_branches";
pub const HEALTH_COMMAND_SPLIT_MODULE: &'static str = "health.command.split_module";
pub const HEALTH_COMMAND_RESOLVE_MARKER: &'static str = "health.command.resolve_marker";
pub const HEALTH_HYGIENE_LARGE_GIT_DIR: &'static str = "health.hygiene.large_git_dir";
pub const HEALTH_HYGIENE_FRAGMENTED_PACKS: &'static str = "health.hygiene.fragmented_packs";
pub const HEALTH_HYGIENE_LOOSE_OBJECTS: &'static str = "health.hygiene.loose_objects";
pub const HEALTH_HYGIENE_BLOAT_FINDING: &'static str = "health.hygiene.bloat_finding";

// hotspot

pub const HOTSPOT_LEVEL_FILE: &'static str = "hotspot.level.file";
pub const HOTSPOT_LEVEL_CONSTRUCT: &'static str = "hotspot.level.construct";

// knowledge_silos

pub const KNOWLEDGE_SILO_RISK_AT_RISK: &'static str = "knowledge_silos.risk.at_risk";
pub const KNOWLEDGE_SILO_RISK_SINGLE_OWNER: &'static str = "knowledge_silos.risk.single_owner";

// large_sources

pub const LARGE_SOURCES_RECOMMENDATION_SIZEABLE: &'static str = "large_sources.recommendation.sizeable";
pub const LARGE_SOURCES_RECOMMENDATION_VERY_LARGE: &'static str = "large_sources.recommendation.very_large";
pub const LARGE_SOURCES_RECOMMENDATION_ENORMOUS: &'static str = "large_sources.recommendation.enormous";

// outliers

pub const OUTLIERS_RECOMMENDATION_GOD_FILE: &'static str = "outliers.recommendation.god_file";
pub const OUTLIERS_RECOMMENDATION_HIGH_CHURN: &'static str = "outliers.recommendation.high_churn";
pub const OUTLIERS_RECOMMENDATION_DIFFUSE_OWNERSHIP: &'static str = "outliers.recommendation.diffuse_ownership";
pub const OUTLIERS_RECOMMENDATION_OK: &'static str = "outliers.recommendation.ok";

// quality

pub const QUALITY_RECOMMENDATION_OK: &'static str = "quality.recommendation.ok";
pub const QUALITY_RECOMMENDATION_BASELINE: &'static str = "quality.recommendation.baseline";
pub const QUALITY_RECOMMENDATION_ENFORCE_MSG_LENGTH: &'static str = "quality.recommendation.enforce_msg_length";
pub const QUALITY_RECOMMENDATION_SQUASH_WIP: &'static str = "quality.recommendation.squash_wip";
pub const QUALITY_RECOMMENDATION_SPLIT_MEGA: &'static str = "quality.recommendation.split_mega";
pub const QUALITY_RECOMMENDATION_STRENGTHEN_REVIEW: &'static str = "quality.recommendation.strengthen_review";
pub const QUALITY_RECOMMENDATION_REBASE_WORKFLOW: &'static str = "quality.recommendation.rebase_workflow";
pub const QUALITY_RECOMMENDATION_REQUIRE_DESCRIPTIONS: &'static str = "quality.recommendation.require_descriptions";

// succession

pub const SUCCESSION_STATUS_HEALTHY: &'static str = "succession.status.healthy";
pub const SUCCESSION_STATUS_OWNED: &'static str = "succession.status.owned";
pub const SUCCESSION_STATUS_ORPHANED: &'static str = "succession.status.orphaned";
pub const SUCCESSION_STATUS_KNOWLEDGE_TRANSFER_NEEDED: &'static str = "succession.status.knowledge_transfer_needed";
pub const SUCCESSION_STATUS_HANDED_OFF: &'static str = "succession.status.handed_off";

} // verus!
