use repo_analyzer::messages::{
    BLOAT_RECOMMENDATION_BUILD_OUTPUT,
    BLOAT_RECOMMENDATION_IDE_CONFIG,
    BLOAT_RECOMMENDATION_LARGE_FILE,
    BLOAT_RECOMMENDATION_MINIFIED_BUNDLE,
    BLOAT_RECOMMENDATION_OK,
    BLOAT_RECOMMENDATION_OS_METADATA,
    BLOAT_RECOMMENDATION_RUST_BUILD_OUTPUT,
    BLOAT_RECOMMENDATION_VENDORED_DEPS,
    BLOAT_RECOMMENDATION_VERY_LARGE_FILE,
    CHURN_PARETO_SUMMARY_CUMULATIVE,
    CHURN_PARETO_SUMMARY_PCT,
    COMPLEXITY_RECOMMENDATION_HIGH,
    COMPLEXITY_RECOMMENDATION_OK,
    COMPLEXITY_RECOMMENDATION_SIMPLE,
    COMPLEXITY_RECOMMENDATION_VERY_HIGH,
    DEBT_MARKERS_RECOMMENDATION_AGE_UNKNOWN,
    DEBT_MARKERS_RECOMMENDATION_AGING,
    DEBT_MARKERS_RECOMMENDATION_FRESH,
    DEBT_MARKERS_RECOMMENDATION_ROTTEN,
    DEBT_MARKERS_RECOMMENDATION_STALE,
    FAN_IN_OUT_ROLE_HUB,
    FAN_IN_OUT_ROLE_LEAF,
    FAN_IN_OUT_ROLE_MIXED,
    FAN_IN_OUT_ROLE_ORCHESTRATOR,
    FAN_IN_OUT_ROLE_PURE_DEP,
    HALF_LIFE_RECOMMENDATION_AGING,
    HALF_LIFE_RECOMMENDATION_CORE,
    HALF_LIFE_RECOMMENDATION_HOT,
    HALF_LIFE_RECOMMENDATION_STABLE,
    HEALTH_ACTION_CRITICAL,
    HEALTH_ACTION_OK,
    HEALTH_ACTION_WARNING,
    HEALTH_COMMAND_ENFORCE_CONVENTIONAL,
    HEALTH_COMMAND_EXTRACT_BRANCHES,
    HEALTH_COMMAND_PAIR_REVIEW,
    HEALTH_COMMAND_REQUIRE_REVIEW,
    HEALTH_COMMAND_RESOLVE_MARKER,
    HEALTH_COMMAND_SPLIT_COMMITS,
    HEALTH_COMMAND_SPLIT_MODULE,
    HEALTH_DETAIL_GOD_MODULE,
    HEALTH_DETAIL_HIGH_COMPLEXITY,
    HEALTH_DETAIL_HIGH_REVERT,
    HEALTH_DETAIL_LOW_QUALITY,
    HEALTH_DETAIL_MEGA_COMMITS,
    HEALTH_DETAIL_ROTTEN_MARKER,
    HEALTH_DETAIL_SOLE_OWNER,
    HEALTH_GROUP_ACTIONS,
    HEALTH_GROUP_HYGIENE,
    HEALTH_GROUP_OVERALL,
    HEALTH_GROUP_PILLARS,
    HEALTH_HYGIENE_BLOAT_FINDING,
    HEALTH_HYGIENE_FRAGMENTED_PACKS,
    HEALTH_HYGIENE_LARGE_GIT_DIR,
    HEALTH_HYGIENE_LOOSE_OBJECTS,
    HEALTH_INTERPRETATION_CONCERNING,
    HEALTH_INTERPRETATION_EXCELLENT,
    HEALTH_INTERPRETATION_FAIR,
    HEALTH_INTERPRETATION_GOOD,
    HEALTH_INTERPRETATION_POOR,
    HEALTH_OVERALL_SCORE,
    HEALTH_PILLAR_BUS_FACTOR,
    HEALTH_PILLAR_CHANGE_CONCENTRATION,
    HEALTH_PILLAR_COMMIT_DISCIPLINE,
    HEALTH_PILLAR_REFACTORING_DEBT,
    HEALTH_PILLAR_SEE_ACTIONS,
    HEALTH_PILLAR_TIDINESS,
    HEALTH_SUMMARY_BUS_FACTOR,
    HEALTH_SUMMARY_CHANGE_CONCENTRATION,
    HEALTH_SUMMARY_COMMIT_DISCIPLINE,
    HEALTH_SUMMARY_NOT_ENOUGH_FILES,
    HEALTH_SUMMARY_REFACTORING_DEBT,
    HEALTH_SUMMARY_TIDINESS,
    HOTSPOT_LEVEL_CONSTRUCT,
    HOTSPOT_LEVEL_FILE,
    KNOWLEDGE_SILO_RISK_AT_RISK,
    KNOWLEDGE_SILO_RISK_SINGLE_OWNER,
    LARGE_SOURCES_RECOMMENDATION_ENORMOUS,
    LARGE_SOURCES_RECOMMENDATION_SIZEABLE,
    LARGE_SOURCES_RECOMMENDATION_VERY_LARGE,
    OUTLIERS_RECOMMENDATION_DIFFUSE_OWNERSHIP,
    OUTLIERS_RECOMMENDATION_GOD_FILE,
    OUTLIERS_RECOMMENDATION_HIGH_CHURN,
    OUTLIERS_RECOMMENDATION_OK,
    QUALITY_RECOMMENDATION_BASELINE,
    QUALITY_RECOMMENDATION_ENFORCE_MSG_LENGTH,
    QUALITY_RECOMMENDATION_OK,
    QUALITY_RECOMMENDATION_REBASE_WORKFLOW,
    QUALITY_RECOMMENDATION_REQUIRE_DESCRIPTIONS,
    QUALITY_RECOMMENDATION_SPLIT_MEGA,
    QUALITY_RECOMMENDATION_SQUASH_WIP,
    QUALITY_RECOMMENDATION_STRENGTHEN_REVIEW,
    SUCCESSION_STATUS_HANDED_OFF,
    SUCCESSION_STATUS_HEALTHY,
    SUCCESSION_STATUS_KNOWLEDGE_TRANSFER_NEEDED,
    SUCCESSION_STATUS_ORPHANED,
    SUCCESSION_STATUS_OWNED,
};

/// All codes must be dotted snake_case and start with a collector namespace.
#[test]
fn codes_are_well_formed() {
    for code in all_codes() {
        assert!(code.contains('.'), "code {code:?} missing namespace");
        assert!(
            code.chars()
                .all(|c| c.is_ascii_lowercase() || c == '_' || c == '.'),
            "code {code:?} not snake_case dotted",
        );
    }
}

/// Central registry used by the well-formedness test above; also serves as
/// a quick audit trail when codes are added.
fn all_codes() -> Vec<&'static str> {
    vec![
        BLOAT_RECOMMENDATION_OK,
        BLOAT_RECOMMENDATION_LARGE_FILE,
        BLOAT_RECOMMENDATION_VERY_LARGE_FILE,
        BLOAT_RECOMMENDATION_MINIFIED_BUNDLE,
        BLOAT_RECOMMENDATION_VENDORED_DEPS,
        BLOAT_RECOMMENDATION_BUILD_OUTPUT,
        BLOAT_RECOMMENDATION_RUST_BUILD_OUTPUT,
        BLOAT_RECOMMENDATION_OS_METADATA,
        BLOAT_RECOMMENDATION_IDE_CONFIG,
        CHURN_PARETO_SUMMARY_PCT,
        CHURN_PARETO_SUMMARY_CUMULATIVE,
        COMPLEXITY_RECOMMENDATION_SIMPLE,
        COMPLEXITY_RECOMMENDATION_OK,
        COMPLEXITY_RECOMMENDATION_HIGH,
        COMPLEXITY_RECOMMENDATION_VERY_HIGH,
        DEBT_MARKERS_RECOMMENDATION_AGE_UNKNOWN,
        DEBT_MARKERS_RECOMMENDATION_FRESH,
        DEBT_MARKERS_RECOMMENDATION_AGING,
        DEBT_MARKERS_RECOMMENDATION_STALE,
        DEBT_MARKERS_RECOMMENDATION_ROTTEN,
        FAN_IN_OUT_ROLE_HUB,
        FAN_IN_OUT_ROLE_ORCHESTRATOR,
        FAN_IN_OUT_ROLE_LEAF,
        FAN_IN_OUT_ROLE_PURE_DEP,
        FAN_IN_OUT_ROLE_MIXED,
        HALF_LIFE_RECOMMENDATION_HOT,
        HALF_LIFE_RECOMMENDATION_AGING,
        HALF_LIFE_RECOMMENDATION_STABLE,
        HALF_LIFE_RECOMMENDATION_CORE,
        HEALTH_ACTION_CRITICAL,
        HEALTH_ACTION_WARNING,
        HEALTH_ACTION_OK,
        HEALTH_GROUP_OVERALL,
        HEALTH_GROUP_PILLARS,
        HEALTH_GROUP_ACTIONS,
        HEALTH_GROUP_HYGIENE,
        HEALTH_OVERALL_SCORE,
        HEALTH_INTERPRETATION_EXCELLENT,
        HEALTH_INTERPRETATION_GOOD,
        HEALTH_INTERPRETATION_FAIR,
        HEALTH_INTERPRETATION_CONCERNING,
        HEALTH_INTERPRETATION_POOR,
        HEALTH_PILLAR_COMMIT_DISCIPLINE,
        HEALTH_PILLAR_BUS_FACTOR,
        HEALTH_PILLAR_REFACTORING_DEBT,
        HEALTH_PILLAR_TIDINESS,
        HEALTH_PILLAR_CHANGE_CONCENTRATION,
        HEALTH_PILLAR_SEE_ACTIONS,
        HEALTH_SUMMARY_COMMIT_DISCIPLINE,
        HEALTH_SUMMARY_BUS_FACTOR,
        HEALTH_SUMMARY_REFACTORING_DEBT,
        HEALTH_SUMMARY_TIDINESS,
        HEALTH_SUMMARY_CHANGE_CONCENTRATION,
        HEALTH_SUMMARY_NOT_ENOUGH_FILES,
        HEALTH_DETAIL_LOW_QUALITY,
        HEALTH_DETAIL_MEGA_COMMITS,
        HEALTH_DETAIL_HIGH_REVERT,
        HEALTH_DETAIL_SOLE_OWNER,
        HEALTH_DETAIL_HIGH_COMPLEXITY,
        HEALTH_DETAIL_GOD_MODULE,
        HEALTH_DETAIL_ROTTEN_MARKER,
        HEALTH_COMMAND_ENFORCE_CONVENTIONAL,
        HEALTH_COMMAND_SPLIT_COMMITS,
        HEALTH_COMMAND_REQUIRE_REVIEW,
        HEALTH_COMMAND_PAIR_REVIEW,
        HEALTH_COMMAND_EXTRACT_BRANCHES,
        HEALTH_COMMAND_SPLIT_MODULE,
        HEALTH_COMMAND_RESOLVE_MARKER,
        HEALTH_HYGIENE_LARGE_GIT_DIR,
        HEALTH_HYGIENE_FRAGMENTED_PACKS,
        HEALTH_HYGIENE_LOOSE_OBJECTS,
        HEALTH_HYGIENE_BLOAT_FINDING,
        HOTSPOT_LEVEL_FILE,
        HOTSPOT_LEVEL_CONSTRUCT,
        KNOWLEDGE_SILO_RISK_AT_RISK,
        KNOWLEDGE_SILO_RISK_SINGLE_OWNER,
        LARGE_SOURCES_RECOMMENDATION_SIZEABLE,
        LARGE_SOURCES_RECOMMENDATION_VERY_LARGE,
        LARGE_SOURCES_RECOMMENDATION_ENORMOUS,
        OUTLIERS_RECOMMENDATION_GOD_FILE,
        OUTLIERS_RECOMMENDATION_HIGH_CHURN,
        OUTLIERS_RECOMMENDATION_DIFFUSE_OWNERSHIP,
        OUTLIERS_RECOMMENDATION_OK,
        QUALITY_RECOMMENDATION_OK,
        QUALITY_RECOMMENDATION_BASELINE,
        QUALITY_RECOMMENDATION_ENFORCE_MSG_LENGTH,
        QUALITY_RECOMMENDATION_SQUASH_WIP,
        QUALITY_RECOMMENDATION_SPLIT_MEGA,
        QUALITY_RECOMMENDATION_STRENGTHEN_REVIEW,
        QUALITY_RECOMMENDATION_REBASE_WORKFLOW,
        QUALITY_RECOMMENDATION_REQUIRE_DESCRIPTIONS,
        SUCCESSION_STATUS_HEALTHY,
        SUCCESSION_STATUS_OWNED,
        SUCCESSION_STATUS_ORPHANED,
        SUCCESSION_STATUS_KNOWLEDGE_TRANSFER_NEEDED,
        SUCCESSION_STATUS_HANDED_OFF,
    ]
}
