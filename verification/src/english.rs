//! The English texts.

use vstd::prelude::*;

verus! {

/// Each message code with its template.
pub const EN_JSON: &'static str = "{\
    \"report.health.display_name\": \"Health Score\",\
    \"report.health.description\": \"A single score from 0 to 100 drawn from all other reports, with a list of actions by priority\",\
    \"report.composition.display_name\": \"Code Composition\",\
    \"report.composition.description\": \"Language breakdown at HEAD: code, comment and blank lines, files and bytes per language\",\
    \"report.authors.display_name\": \"Authors\",\
    \"report.authors.description\": \"Commit counts and contribution statistics per author\",\
    \"report.hotspots.display_name\": \"Hotspots\",\
    \"report.hotspots.description\": \"Files and constructs with the most change activity\",\
    \"report.churn.display_name\": \"Churn\",\
    \"report.churn.description\": \"Lines added and removed per file over time\",\
    \"report.ownership.display_name\": \"Ownership\",\
    \"report.ownership.description\": \"Code ownership distribution by author per file\",\
    \"report.coupling.display_name\": \"Coupling\",\
    \"report.coupling.description\": \"Files that frequently change together\",\
    \"report.patterns.display_name\": \"Patterns\",\
    \"report.patterns.description\": \"Commit distribution by hour of day and day of week\",\
    \"report.age.display_name\": \"Age\",\
    \"report.age.description\": \"Time since the last modification of each file and construct\",\
    \"report.bloat.display_name\": \"Bloat\",\
    \"report.bloat.description\": \"Large files and committed artifacts such as minified bundles, build output and vendored dependencies\",\
    \"report.outliers.display_name\": \"Outliers\",\
    \"report.outliers.description\": \"Files with both high churn and many authors\",\
    \"report.quality.display_name\": \"Quality\",\
    \"report.quality.description\": \"Signals of commit quality: short messages, mega-commits, reverts and merges\",\
    \"report.complexity.display_name\": \"Complexity\",\
    \"report.complexity.description\": \"Cyclomatic complexity per function\",\
    \"report.construct_churn.display_name\": \"Construct Churn\",\
    \"report.construct_churn.description\": \"Churn at the level of functions, classes and methods\",\
    \"report.debt_markers.display_name\": \"Debt Markers\",\
    \"report.debt_markers.description\": \"TODO, FIXME, HACK and XXX comments with their author and age\",\
    \"report.large_sources.display_name\": \"Large Sources\",\
    \"report.large_sources.description\": \"Source files past a size threshold\",\
    \"report.half_life.display_name\": \"Half-Life\",\
    \"report.half_life.description\": \"How long the lines of each file survive before they are rewritten\",\
    \"report.succession.display_name\": \"Succession\",\
    \"report.succession.description\": \"How ownership of files passes between authors over time\",\
    \"report.knowledge_silos.display_name\": \"Knowledge Silos\",\
    \"report.knowledge_silos.description\": \"Files known by only one author\",\
    \"report.fan_in_out.display_name\": \"Fan-In / Fan-Out\",\
    \"report.fan_in_out.description\": \"Incoming and outgoing dependencies per file\",\
    \"report.module_coupling.display_name\": \"Module Coupling\",\
    \"report.module_coupling.description\": \"Coupling between modules\",\
    \"report.churn_pareto.display_name\": \"Churn Pareto\",\
    \"report.churn_pareto.description\": \"How concentrated the changes are\",\
    \"report.construct_ownership.display_name\": \"Construct Ownership\",\
    \"report.construct_ownership.description\": \"Author ownership at the level of functions and classes\",\
    \"report.branches.display_name\": \"Branches\",\
    \"report.branches.description\": \"Branches by activity, with what to do about each\",\
    \"report.clones.display_name\": \"Clones\",\
    \"report.clones.description\": \"Functions of the same shape\",\
    \"report.commit_size.display_name\": \"Commit Size\",\
    \"report.commit_size.description\": \"How large commits are, and which stand out\",\
    \"report.commit_velocity.display_name\": \"Commit Velocity\",\
    \"report.commit_velocity.description\": \"Commits per week and per month\",\
    \"report.dead_code.display_name\": \"Dead Code\",\
    \"report.dead_code.description\": \"Source files that nothing imports\",\
    \"report.doc_coverage.display_name\": \"Doc Coverage\",\
    \"report.doc_coverage.description\": \"Public items with documentation, per file\",\
    \"report.test_ratio.display_name\": \"Test Ratio\",\
    \"report.test_ratio.description\": \"Test code against source code, per language\",\
    \"report.age.column.age_days\": \"Age Days\",\
    \"report.age.column.first_seen\": \"First Seen\",\
    \"report.age.column.last_modified\": \"Last Modified\",\
    \"report.age.column.days_since_last_change\": \"Days Since Last Change\",\
    \"report.age.column.change_count\": \"Change Count\",\
    \"report.age.column.changes_per_year\": \"Changes Per Year\",\
    \"report.authors.column.commits\": \"Commits\",\
    \"report.authors.column.lines_added\": \"Lines Added\",\
    \"report.authors.column.lines_deleted\": \"Lines Deleted\",\
    \"report.authors.column.active_days\": \"Active Days\",\
    \"report.authors.column.first_commit\": \"First Commit\",\
    \"report.authors.column.last_commit\": \"Last Commit\",\
    \"report.bloat.column.size_bytes\": \"Size Bytes\",\
    \"report.bloat.column.size_human\": \"Size Human\",\
    \"report.bloat.column.recommendation\": \"Recommendation\",\
    \"report.branches.column.last_commit\": \"Last Commit\",\
    \"report.branches.column.days_since\": \"Days Since\",\
    \"report.branches.column.author\": \"Author\",\
    \"report.branches.column.merged\": \"Merged\",\
    \"report.branches.column.is_head\": \"Is Head\",\
    \"report.branches.column.recommendation\": \"Recommendation\",\
    \"report.churn.column.lines_added\": \"Lines Added\",\
    \"report.churn.column.lines_deleted\": \"Lines Deleted\",\
    \"report.churn.column.net_change\": \"Net Change\",\
    \"report.churn.column.total_churn\": \"Total Churn\",\
    \"report.churn.column.change_count\": \"Change Count\",\
    \"report.churn.column.churn_rate\": \"Churn Rate\",\
    \"report.churn_pareto.column.rank\": \"Rank\",\
    \"report.churn_pareto.column.churn\": \"Churn\",\
    \"report.churn_pareto.column.pct_of_total\": \"Pct Of Total\",\
    \"report.churn_pareto.column.cumulative_pct\": \"Cumulative Pct\",\
    \"report.clones.column.occurrences\": \"Occurrences\",\
    \"report.clones.column.size_lines\": \"Size Lines\",\
    \"report.clones.column.other_locations\": \"Other Locations\",\
    \"report.commit_size.column.commits\": \"Commits\",\
    \"report.commit_size.column.mean\": \"Mean\",\
    \"report.commit_size.column.median\": \"Median\",\
    \"report.commit_size.column.p95\": \"P95\",\
    \"report.commit_size.column.p99\": \"P99\",\
    \"report.commit_size.column.max\": \"Max\",\
    \"report.commit_size.column.anomaly_count\": \"Anomaly Count\",\
    \"report.commit_size.column.lines_changed\": \"Lines Changed\",\
    \"report.commit_size.column.author\": \"Author\",\
    \"report.commit_size.column.date\": \"Date\",\
    \"report.commit_size.column.message\": \"Message\",\
    \"report.commit_velocity.column.commits\": \"Commits\",\
    \"report.commit_velocity.column.lines_changed\": \"Lines Changed\",\
    \"report.complexity.column.cyclomatic\": \"Cyclomatic\",\
    \"report.complexity.column.cognitive\": \"Cognitive\",\
    \"report.complexity.column.mi\": \"Mi\",\
    \"report.complexity.column.lines\": \"Lines\",\
    \"report.complexity.column.args\": \"Args\",\
    \"report.complexity.column.exits\": \"Exits\",\
    \"report.complexity.column.language\": \"Language\",\
    \"report.complexity.column.recommendation\": \"Recommendation\",\
    \"report.composition.column.files\": \"Files\",\
    \"report.composition.column.code\": \"Code\",\
    \"report.composition.column.comment\": \"Comment\",\
    \"report.composition.column.blank\": \"Blank\",\
    \"report.composition.column.total_lines\": \"Total Lines\",\
    \"report.composition.column.code_pct\": \"Code Pct\",\
    \"report.composition.column.comment_ratio_pct\": \"Comment Ratio Pct\",\
    \"report.composition.column.bytes\": \"Bytes\",\
    \"report.construct_churn.column.kind\": \"Kind\",\
    \"report.construct_churn.column.file\": \"File\",\
    \"report.construct_churn.column.changes\": \"Changes\",\
    \"report.construct_churn.column.lines_touched\": \"Lines Touched\",\
    \"report.construct_churn.column.unique_authors\": \"Unique Authors\",\
    \"report.construct_churn.column.last_modified\": \"Last Modified\",\
    \"report.construct_ownership.column.kind\": \"Kind\",\
    \"report.construct_ownership.column.file\": \"File\",\
    \"report.construct_ownership.column.top_author\": \"Top Author\",\
    \"report.construct_ownership.column.top_pct\": \"Top Pct\",\
    \"report.construct_ownership.column.total_authors\": \"Total Authors\",\
    \"report.construct_ownership.column.bus_factor\": \"Bus Factor\",\
    \"report.construct_ownership.column.touches\": \"Touches\",\
    \"report.coupling.column.file_a\": \"File A\",\
    \"report.coupling.column.file_b\": \"File B\",\
    \"report.coupling.column.co_changes\": \"Co Changes\",\
    \"report.coupling.column.score\": \"Score\",\
    \"report.dead_code.column.extension\": \"Extension\",\
    \"report.debt_markers.column.marker\": \"Marker\",\
    \"report.debt_markers.column.age_days\": \"Age Days\",\
    \"report.debt_markers.column.author\": \"Author\",\
    \"report.debt_markers.column.owner\": \"Owner\",\
    \"report.debt_markers.column.text\": \"Text\",\
    \"report.debt_markers.column.recommendation\": \"Recommendation\",\
    \"report.doc_coverage.column.public_items\": \"Public Items\",\
    \"report.doc_coverage.column.documented\": \"Documented\",\
    \"report.doc_coverage.column.coverage_pct\": \"Coverage Pct\",\
    \"report.doc_coverage.column.language\": \"Language\",\
    \"report.doc_coverage.column.recommendation\": \"Recommendation\",\
    \"report.fan_in_out.column.fan_in\": \"Fan In\",\
    \"report.fan_in_out.column.fan_out\": \"Fan Out\",\
    \"report.fan_in_out.column.instability_pct\": \"Instability Pct\",\
    \"report.fan_in_out.column.role\": \"Role\",\
    \"report.hotspots.column.level\": \"Level\",\
    \"report.hotspots.column.kind\": \"Kind\",\
    \"report.hotspots.column.file\": \"File\",\
    \"report.hotspots.column.changes\": \"Changes\",\
    \"report.hotspots.column.unique_authors\": \"Unique Authors\",\
    \"report.hotspots.column.score\": \"Score\",\
    \"report.knowledge_silos.column.owner\": \"Owner\",\
    \"report.knowledge_silos.column.ownership_pct\": \"Ownership Pct\",\
    \"report.knowledge_silos.column.owner_last_touch\": \"Owner Last Touch\",\
    \"report.knowledge_silos.column.owner_idle_days\": \"Owner Idle Days\",\
    \"report.knowledge_silos.column.total_lines\": \"Total Lines\",\
    \"report.knowledge_silos.column.risk\": \"Risk\",\
    \"report.module_coupling.column.module_a\": \"Module A\",\
    \"report.module_coupling.column.module_b\": \"Module B\",\
    \"report.module_coupling.column.co_changes\": \"Co Changes\",\
    \"report.module_coupling.column.score\": \"Score\",\
    \"report.outliers.column.change_count\": \"Change Count\",\
    \"report.outliers.column.unique_authors\": \"Unique Authors\",\
    \"report.outliers.column.total_churn\": \"Total Churn\",\
    \"report.outliers.column.recommendation\": \"Recommendation\",\
    \"report.ownership.column.total_authors\": \"Total Authors\",\
    \"report.ownership.column.bus_factor\": \"Bus Factor\",\
    \"report.ownership.column.top_author\": \"Top Author\",\
    \"report.ownership.column.total_lines\": \"Total Lines\",\
    \"report.patterns.column.order\": \"Order\",\
    \"report.patterns.column.commits\": \"Commits\",\
    \"report.quality.column.commits\": \"Commits\",\
    \"report.quality.column.percent\": \"Percent\",\
    \"report.quality.column.recommendation\": \"Recommendation\",\
    \"report.succession.column.original_author\": \"Original Author\",\
    \"report.succession.column.original_active\": \"Original Active\",\
    \"report.succession.column.current_top\": \"Current Top\",\
    \"report.succession.column.total_authors\": \"Total Authors\",\
    \"report.succession.column.successors\": \"Successors\",\
    \"report.succession.column.status\": \"Status\",\
    \"report.test_ratio.column.source_files\": \"Source Files\",\
    \"report.test_ratio.column.test_files\": \"Test Files\",\
    \"report.test_ratio.column.source_lines\": \"Source Lines\",\
    \"report.test_ratio.column.test_lines\": \"Test Lines\",\
    \"report.test_ratio.column.test_pct\": \"Test Pct\",\
    \"bloat.recommendation.ok\": \"Nothing to do\",\
    \"bloat.recommendation.large_file\": \"Large file ({{size_bytes}} bytes): consider Git LFS\",\
    \"bloat.recommendation.very_large_file\": \"Very large file ({{size_bytes}} bytes): move it out of the repository or to Git LFS\",\
    \"bloat.recommendation.minified_bundle\": \"Minified bundle: build it instead of committing it\",\
    \"bloat.recommendation.vendored_deps\": \"Vendored dependencies: let the package manager fetch them\",\
    \"bloat.recommendation.build_output\": \"Build output: add it to .gitignore\",\
    \"bloat.recommendation.rust_build_output\": \"Cargo build output: add target/ to .gitignore\",\
    \"bloat.recommendation.os_metadata\": \"Operating system metadata: add it to .gitignore\",\
    \"bloat.recommendation.ide_config\": \"Editor configuration: keep it out of the repository\",\
    \"branches.recommendation.head\": \"Current branch\",\
    \"branches.recommendation.merged_stale\": \"Merged and idle for {{days}} days: delete it\",\
    \"branches.recommendation.merged_recent\": \"Merged: delete it when it is no longer needed\",\
    \"branches.recommendation.abandoned\": \"Idle for {{days}} days: archive or delete it\",\
    \"branches.recommendation.stale\": \"Idle for {{days}} days: merge it or close it\",\
    \"branches.recommendation.active\": \"Active\",\
    \"churn_pareto.summary.pct\": \"{{p50}} of {{total}} files ({{p50_pct}}%) account for half of the churn\",\
    \"churn_pareto.summary.cumulative\": \"{{p80}} of {{total}} files ({{p80_pct}}%) account for 80% of the churn, {{p90}} ({{p90_pct}}%) for 90%\",\
    \"complexity.recommendation.simple\": \"Simple\",\
    \"complexity.recommendation.ok\": \"Moderate\",\
    \"complexity.recommendation.high\": \"High complexity ({{cyclomatic}}): consider splitting it\",\
    \"complexity.recommendation.very_high\": \"Very high complexity ({{cyclomatic}}): split it\",\
    \"debt_markers.recommendation.age_unknown\": \"Age unknown\",\
    \"debt_markers.recommendation.fresh\": \"Fresh\",\
    \"debt_markers.recommendation.aging\": \"Aging: plan to resolve it\",\
    \"debt_markers.recommendation.stale\": \"Stale: resolve it or file an issue\",\
    \"debt_markers.recommendation.rotten\": \"Rotten: resolve it or delete it\",\
    \"doc_coverage.recommendation.poor\": \"Poor coverage ({{pct}}%): document the public items\",\
    \"doc_coverage.recommendation.low\": \"Low coverage ({{pct}}%)\",\
    \"doc_coverage.recommendation.ok\": \"Acceptable\",\
    \"doc_coverage.recommendation.good\": \"Good\",\
    \"fan_in_out.role.hub\": \"Hub\",\
    \"fan_in_out.role.orchestrator\": \"Orchestrator\",\
    \"fan_in_out.role.leaf\": \"Leaf\",\
    \"fan_in_out.role.pure_dep\": \"Pure dependency\",\
    \"fan_in_out.role.mixed\": \"Mixed\",\
    \"half_life.recommendation.hot\": \"Hot\",\
    \"half_life.recommendation.aging\": \"Aging\",\
    \"half_life.recommendation.stable\": \"Stable\",\
    \"half_life.recommendation.core\": \"Core\",\
    \"hotspot.level.file\": \"File\",\
    \"hotspot.level.construct\": \"Construct\",\
    \"knowledge_silos.risk.at_risk\": \"At risk: the owner of {{ownership_pct}}% has been idle for {{idle_days}} days\",\
    \"knowledge_silos.risk.single_owner\": \"Single owner of {{ownership_pct}}%\",\
    \"large_sources.recommendation.sizeable\": \"Sizeable\",\
    \"large_sources.recommendation.very_large\": \"Very large: consider splitting it\",\
    \"large_sources.recommendation.enormous\": \"Enormous: split it\",\
    \"outliers.recommendation.god_file\": \"God file: split it\",\
    \"outliers.recommendation.high_churn\": \"High churn: stabilise it\",\
    \"outliers.recommendation.diffuse_ownership\": \"Diffuse ownership: name an owner\",\
    \"outliers.recommendation.ok\": \"Nothing to do\",\
    \"quality.recommendation.ok\": \"Nothing to do\",\
    \"quality.recommendation.baseline\": \"Baseline\",\
    \"quality.recommendation.enforce_msg_length\": \"Enforce a minimum message length\",\
    \"quality.recommendation.squash_wip\": \"Squash work in progress before merging\",\
    \"quality.recommendation.split_mega\": \"Split mega-commits\",\
    \"quality.recommendation.strengthen_review\": \"Strengthen review\",\
    \"quality.recommendation.rebase_workflow\": \"Consider a rebase workflow\",\
    \"quality.recommendation.require_descriptions\": \"Require descriptions\",\
    \"succession.status.healthy\": \"Healthy\",\
    \"succession.status.owned\": \"Owned\",\
    \"succession.status.orphaned\": \"Orphaned\",\
    \"succession.status.knowledge_transfer_needed\": \"Knowledge transfer needed\",\
    \"succession.status.handed_off\": \"Handed off\",\
    \"commit_size.group.summary\": \"Summary\",\
    \"commit_size.group.anomalies\": \"Anomalies\",\
    \"branches.group.abandoned\": \"Abandoned\",\
    \"branches.group.active\": \"Active\",\
    \"branches.group.head\": \"Head\",\
    \"branches.group.merged_recent\": \"Merged Recent\",\
    \"branches.group.merged_stale\": \"Merged Stale\",\
    \"branches.group.stale\": \"Stale\"\
}";

} // verus!
