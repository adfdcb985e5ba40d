use quantforge_desktop::databank::{DesktopError, RobustnessReject};
use quantforge_desktop::discover::{DiscoverMode, EvaluationErrorCount, JobStatus};
use quantforge_desktop::discover_run::{
    bank_growing_message, check_data_quality, check_discover_quotes, decision_bars_message,
    empty_bank_completion, empty_bank_message, evaluation_sample, final_message, final_phase, final_snapshot_reason,
    generation_status, has_checkpoint_content, initial_population_message, integrity_failure_message,
    memory_limit_message, new_run_multi_symbol_minimum, paused_snapshot_message, plan_split,
    plateau_message, quota_complete, EvaluationSample, SearchSample, SplitUse,
    discover_job_id, factory_checkpoint_note, factory_failed_note, factory_plan, factory_started_note, FactoryPlan,
    archive_flags, live_publish_needed, ArchiveFlags, PublishedBank,
};
use quantforge_desktop::fidelity::{fidelity_reason, fidelity_tally, source_timezone_hint, FidelityReason};
use quantforge_desktop::partitions::{
    check_partition_slice, clip_to_window, partition_slice, Partition,
};
use quantforge_desktop::robustness::{
    check_quote_requirement, decision_partition, metadata_is_canonical_bid_ask, minimum_fold_trades,
    robustness_artifact_path, robustness_outcome, DecisionPartition,
};
use quantforge_desktop::telemetry::{
    accepted_total, bank_message, bank_phase, breeding_active, funnel_summary, live_databank_revision,
    rejected_total, top_evaluation_errors, workspace_rejected_total, BankProgress, DiscoverTelemetry,
};
use quantforge_desktop::workspace::{
    artifact_is_research_grade, artifact_m1_fidelity_verified, elite_is_sealed_protected,
    find_elite_in_bank, lookup_elite, recipe_text, strategy_entry_condition_count,
    strategy_exit_condition_count, BankFingerprints, ConditionShape, EliteSlot, GateOutcome,
    RecipeConfig, RecipeValue,
};

fn telemetry() -> DiscoverTelemetry {
    DiscoverTelemetry {
        pot_accepted: 1,
        pot_replaced: 2,
        databank_accepted: 3,
        databank_replaced: 4,
        holding_accepted: 5,
        holding_replaced: 6,
        rejected_gate: 10,
        rejected_deposit_gate: 11,
        rejected_clone: 12,
        rejected_correlated: 13,
        rejected_niche_not_improved: 14,
        rejected_family_not_improved: 15,
        rejected_precision: 16,
        rejected_ambiguous: 17,
        rejected_oos1: 18,
        rejected_development_expectancy: 19,
        rejected_m1_fidelity: 20,
        rejected_walk_forward: 21,
        rejected_monte_carlo: 22,
        rejected_param_neighborhood: 23,
        rejected_multi_symbol: 24,
        rejected_deflated_sharpe: 25,
        rejected_evaluation: 26,
        promotion_queue_depth: 7,
        promotion_inflight: 2,
    }
}

const FUNNEL: &str = "Rejects — scout 10, deposit 11, ambiguous 17, M1 retention 20, Development R 19, WF 21, MC 22, param 23, OOS1 18, clone 12, corr 13, niche 14, family 15, eval 26.";

#[test]
fn results_robustness_requires_quotes_for_bid_ask_and_pending_orders() {
    assert!(metadata_is_canonical_bid_ask(Some("BID"), Some("tick_Bid_Ask_import")));
    assert!(metadata_is_canonical_bid_ask(Some("bid_ask"), Some("bid_ask")));
    assert!(!metadata_is_canonical_bid_ask(Some("mid"), Some("bid_ask")));
    assert!(!metadata_is_canonical_bid_ask(Some("bid"), None));
    assert!(!metadata_is_canonical_bid_ask(None, None));

    assert_eq!(check_quote_requirement(true, true, true, true, true), Ok(()));
    assert_eq!(
        check_quote_requirement(false, true, false, false, false),
        Err("canonical bid/ask M1 metadata is present but its .quotes.csv sidecar was not found".to_string())
    );
    assert_eq!(
        check_quote_requirement(false, false, false, true, false),
        Err("stop/limit strategies require a bid/ask M1 quote sidecar for Results robustness (re-import ticks with qf-import-market and install_icmarkets_pack.py)".to_string())
    );
    assert_eq!(check_quote_requirement(false, false, false, false, false), Ok(()));
}

#[test]
fn results_robustness_gates_and_outcomes() {
    assert_eq!(minimum_fold_trades(0), 1);
    assert_eq!(minimum_fold_trades(2), 2);
    assert_eq!(minimum_fold_trades(30), 2);

    let pass = robustness_outcome(None);
    assert!(pass.passed);
    assert_eq!(pass.blocker, None);
    assert_eq!(
        pass.message,
        "Passed M1 retention, walk-forward, Monte Carlo and parameter-neighborhood gates."
    );
    let fail = robustness_outcome(Some(RobustnessReject::MonteCarlo));
    assert!(!fail.passed);
    assert_eq!(fail.blocker.as_deref(), Some("monte_carlo"));
    assert_eq!(
        fail.message,
        "Failed the block-bootstrap Monte Carlo requirement (P80 net-profit retention vs baseline)."
    );
}

#[test]
fn results_robustness_artifacts_sit_beside_the_databank() {
    assert_eq!(
        robustness_artifact_path("/banks/eurusd.json", "trend/one", "abcdef0123456789", "run7"),
        "/banks/Robustness/trend_one-abcdef012345-run7.robustness.json"
    );
    assert_eq!(
        robustness_artifact_path("/banks/eurusd.json", "s", "abc", "r"),
        "/banks/Robustness/s-abc-r.robustness.json"
    );
}

#[test]
fn results_robustness_recovers_only_the_hash_bound_is_partition() {
    assert_eq!(decision_partition(true, Ok(false)), Ok(DecisionPartition::Full));
    assert_eq!(decision_partition(false, Ok(true)), Ok(DecisionPartition::Development));
    assert_eq!(
        decision_partition(false, Ok(false)),
        Err("The bound decision/M1 files no longer reproduce this databank's IS hash; robustness refuses to test a different sample.".to_string())
    );
    assert_eq!(
        decision_partition(false, Err("split failed".to_string())),
        Err("split failed".to_string())
    );
}

#[test]
fn fidelity_rows_explain_drawdown_first_and_tally() {
    assert_eq!(fidelity_reason(true, true, true), FidelityReason::Passed);
    assert_eq!(fidelity_reason(false, false, false), FidelityReason::Drawdown);
    assert_eq!(fidelity_reason(false, false, true), FidelityReason::ReturnRetention);
    assert_eq!(fidelity_reason(true, false, true), FidelityReason::TradeRetention);
    let tally = fidelity_tally(&vec![true, false, true, true]);
    assert_eq!((tally.evaluated, tally.passed, tally.failed), (4, 3, 1));
    assert_eq!(source_timezone_hint(true, Some("Europe/Athens")), None);
    assert_eq!(source_timezone_hint(false, Some("Europe/Athens")), Some("Europe/Athens".to_string()));
    assert_eq!(source_timezone_hint(false, None), Some("Etc/UTC".to_string()));
}

#[test]
fn telemetry_totals_and_funnel() {
    let t = telemetry();
    assert_eq!(funnel_summary(&t), FUNNEL);
    assert_eq!(accepted_total(&t), 10);
    assert_eq!(rejected_total(&t), (10..=26).sum::<u64>());
    assert_eq!(workspace_rejected_total(&t), (10..=26).sum::<u64>() - 24 - 25);
    assert_eq!(live_databank_revision(&t), 18);
    assert!(breeding_active(300, 300, false));
    assert!(!breeding_active(300, 300, true));
    assert!(!breeding_active(299, 300, false));
}

#[test]
fn telemetry_phase_and_message_follow_the_run_kind() {
    let t = telemetry();
    let quota = BankProgress {
        target: Some(40),
        build_to_holding: true,
        quota_count: 12,
        pot: 150,
        holding: 12,
        databank: 3,
        mutate_after: 300,
        breeding: false,
        completed_now: 9,
    };
    assert_eq!(bank_phase(&quota, &t), "Quota · holding 12/40 · pot 150 · gen 9");
    assert_eq!(
        bank_message(&quota, &t),
        format!("Quota Harvest: holding 12/40 (stop at 40). Pot 150 is only a breeding bag — not the goal. {FUNNEL}")
    );
    let breeding = BankProgress { target: None, breeding: true, ..quota };
    assert_eq!(
        bank_phase(&breeding, &t),
        "Breeding · pot 150 · holding 12 · databank 3 · promo queue 7 · gen 9"
    );
    assert_eq!(
        bank_message(&breeding, &t),
        format!("Build continues; Holding pipeline on side workers (queue 7, 2 in flight). Pot 150 · holding 12 · databank 3. {FUNNEL}")
    );
    let filling = BankProgress { target: None, breeding: false, ..quota };
    assert_eq!(bank_phase(&filling, &t), "Filling initial pot · 150/300 · holding 12 · gen 9");
    assert_eq!(
        bank_message(&filling, &t),
        format!("Development reservoir 150 (breed at 300). Holding 12 after breeding (H1+M1; battery deferred). 150 more reservoir members until breeding. {FUNNEL}")
    );
}

fn error(message: &str, count: u64) -> EvaluationErrorCount {
    EvaluationErrorCount { message: message.to_string(), count }
}

#[test]
fn top_evaluation_errors_are_the_five_most_frequent_in_stable_order() {
    let errors = vec![
        error("a", 3),
        error("b", 9),
        error("c", 3),
        error("d", 1),
        error("e", 9),
        error("f", 4),
        error("g", 2),
    ];
    let top = top_evaluation_errors(&errors);
    let names: Vec<&str> = top.iter().map(|e| e.message.as_str()).collect();
    assert_eq!(names, vec!["b", "e", "f", "a", "c"]);
    let counts: Vec<u64> = top.iter().map(|e| e.count).collect();
    assert_eq!(counts, vec![9, 9, 4, 3, 3]);
    assert_eq!(top_evaluation_errors(&vec![error("x", 1)]).len(), 1);
    assert!(top_evaluation_errors(&vec![]).is_empty());
}

#[test]
fn discover_refuses_unusable_market_data() {
    assert_eq!(check_discover_quotes(true, true, Some(true), None), Ok(()));
    assert_eq!(
        check_discover_quotes(false, true, None, None),
        Err("canonical bid/ask M1 metadata is present but its .quotes.csv sidecar was not found".to_string())
    );
    assert_eq!(
        check_discover_quotes(false, false, None, Some(true)),
        Err("stop/limit Discover requires a bid/ask M1 quote sidecar beside the M1 pack (re-import ticks with qf-import-market, then scripts/install_icmarkets_pack.py). Without it pending fills are not MT5-certifiable".to_string())
    );
    assert_eq!(check_discover_quotes(false, false, Some(false), None), Ok(()));
    assert_eq!(check_data_quality(false, 10, false), Ok(()));
    assert_eq!(
        check_data_quality(true, 42, false),
        Err("Discover refuses failed-quality data (score 42)".to_string())
    );
    assert_eq!(
        check_data_quality(true, 7, true),
        Err("Discover refuses failed-quality M1 data (score 7)".to_string())
    );
    assert_eq!(
        decision_bars_message(1200, "H4"),
        "Built 1200 H4 decision bars from M1 before search."
    );
}

#[test]
fn discover_split_keeps_oos1_and_sealed_apart() {
    assert_eq!(
        plan_split(DiscoverMode::New, None, true, None),
        Ok(SplitUse { search: SearchSample::Development, oos1: true })
    );
    assert_eq!(
        plan_split(DiscoverMode::New, Some(true), false, None),
        Ok(SplitUse { search: SearchSample::Unsealed, oos1: false })
    );
    assert_eq!(
        plan_split(DiscoverMode::New, Some(false), false, None),
        Ok(SplitUse { search: SearchSample::Full, oos1: false })
    );
    assert_eq!(
        plan_split(DiscoverMode::New, Some(false), true, None),
        Err("OOS1 validation requires promotion split so Development, OOS1 and sealed OOS2 remain separate".to_string())
    );
    assert_eq!(
        plan_split(DiscoverMode::Continue, Some(true), true, Some(false)),
        Err("this archive was created while OOS1 validation was disabled; start a new run to reserve and validate OOS1 without changing the historical experiment".to_string())
    );
    assert_eq!(
        plan_split(DiscoverMode::Continue, Some(true), true, Some(true)),
        Ok(SplitUse { search: SearchSample::Development, oos1: true })
    );
    let full = SplitUse { search: SearchSample::Full, oos1: false };
    assert_eq!(evaluation_sample(true, full), Ok(EvaluationSample::Decision));
    assert_eq!(
        evaluation_sample(false, full),
        Err("this databank was built from an IS partition; enable the identical promotion split to continue it".to_string())
    );
    assert_eq!(
        evaluation_sample(false, SplitUse { search: SearchSample::Unsealed, oos1: false }),
        Ok(EvaluationSample::Partition)
    );
}

#[test]
fn discover_progress_messages() {
    assert_eq!(
        initial_population_message(true),
        "Development fills Holding. The full battery then validates OOS1; sealed OOS2 is never loaded."
    );
    assert_eq!(
        initial_population_message(false),
        "Fold-stable Development R fills Holding. Sealed holdout is never loaded."
    );
    assert_eq!(new_run_multi_symbol_minimum(true, 3), 3);
    assert_eq!(new_run_multi_symbol_minimum(false, 3), 0);
    assert!(generation_status(300, 300).starts_with("Scout keeps breeding."));
    assert!(generation_status(299, 300).starts_with("Candidates enter the Development reservoir only."));
    assert_eq!(
        plateau_message(41),
        "Holding plateaued at 41 names for 25 generations — stopping Discover so factory can run."
    );
    assert_eq!(
        memory_limit_message(9000, 8192),
        "Resident memory reached 9000 MB of the 8192 MB limit. QuantForge stopped cleanly and is writing the final artifact."
    );
    assert!(has_checkpoint_content(1, false, true));
    assert!(has_checkpoint_content(1, true, false));
    assert!(!has_checkpoint_content(0, false, false));
    assert!(!has_checkpoint_content(5, true, true));
    assert_eq!(bank_growing_message(12, 3400), "Bank growing: 12 niches after 3400 evaluations.");
    assert_eq!(paused_snapshot_message("/a/b.json"), "Paused safely. Immutable snapshot: /a/b.json");
}

#[test]
fn discover_finishes_with_a_summary() {
    let t = telemetry();
    assert_eq!(
        empty_bank_message(5000, 12, &t),
        format!("No elites passed the post-breed pipeline (Development CPCV/robustness → M1 → OOS1 validation) after 5000 evaluations across 12 generations. {FUNNEL} Keep searching until breeding unlocks, loosen gates, or check data.")
    );
    assert_eq!(
        integrity_failure_message("bad coverage"),
        "discovery produced no loadable checkpoint: bad coverage. Use more history or revise the explicit discovery gates"
    );
    assert_eq!(final_snapshot_reason(true), "stopped");
    assert_eq!(final_snapshot_reason(false), "completed");
    assert!(quota_complete(Some(10), 10));
    assert!(!quota_complete(Some(10), 9));
    assert!(!quota_complete(None, 100));
    assert_eq!(final_phase(Some(10), 10, true, 3, 0, true), "Quota complete · 10 holding");
    assert_eq!(final_phase(Some(10), 10, false, 3, 0, true), "Quota complete · 10 databank elites");
    assert_eq!(final_phase(None, 0, false, 3, 10, false), "Stopped and checkpointed");
    assert_eq!(final_phase(None, 0, false, 10, 10, false), "Discovery checkpoint complete");
    assert_eq!(
        final_message(Some(10), 11, true, 900, 4, "/s.json"),
        "Reached Holding quota (11/10). Saved after 900 evaluations. Start a new Discover for the next family or asset."
    );
    assert_eq!(
        final_message(None, 11, true, 900, 4, "/s.json"),
        "Saved 4 strategies after 900 evaluations. Immutable snapshot: /s.json"
    );
}

#[test]
fn partitions_tile_the_decision_series() {
    assert_eq!(partition_slice(Partition::Development, 60, 20, 100), Ok((0, 60)));
    assert_eq!(partition_slice(Partition::Oos1, 60, 20, 100), Ok((60, 80)));
    assert_eq!(partition_slice(Partition::Unsealed, 60, 20, 100), Ok((0, 80)));
    assert_eq!(partition_slice(Partition::Sealed, 60, 20, 100), Ok((80, 100)));
    assert_eq!(
        partition_slice(Partition::Oos1, 60, 0, 100),
        Err("invalid partition slice 60..60 for 100 bars".to_string())
    );
    assert_eq!(check_partition_slice(0, 101, 100), Err("invalid partition slice 0..101 for 100 bars".to_string()));
}

#[test]
fn unsealed_equals_development_when_oos1_is_off() {
    assert_eq!(
        partition_slice(Partition::Unsealed, 67, 0, 100),
        partition_slice(Partition::Development, 67, 0, 100)
    );
}

#[test]
fn clip_m1_covers_the_full_last_decision_bar() {
    let h1 = vec![0i64, 3_600_000];
    let m1: Vec<i64> = (0..120).map(|minute| minute * 60_000).collect();
    let clipped = clip_to_window(&h1, Some(3_600_000), &m1).expect("clip");
    assert_eq!(clipped.len(), 120);
    assert!(clipped.contains(&90));
}

#[test]
fn clip_refuses_empty_or_thin_windows() {
    assert_eq!(
        clip_to_window(&vec![], None, &vec![0]),
        Err("cannot clip M1: IS window is empty".to_string())
    );
    assert_eq!(
        clip_to_window(&vec![0], None, &vec![0, 10_000_000]),
        Err("M1 has fewer than 2 bars inside the IS window [0..3600000)".to_string())
    );
    assert_eq!(
        clip_to_window(&vec![i64::MAX], None, &vec![0]),
        Err("IS window end overflow".to_string())
    );
}

#[test]
fn state_refuses_elite_lookup_before_a_databank_is_loaded() {
    assert!(matches!(lookup_elite(None, "missing"), Err(DesktopError::NoDatabank)));
}

#[test]
fn elite_lookup_searches_databank_then_holding() {
    let bank = BankFingerprints {
        elites: vec!["a".to_string(), "b".to_string()],
        holding: vec!["b".to_string(), "c".to_string()],
    };
    assert_eq!(find_elite_in_bank(&bank, "b"), Some(EliteSlot::Databank(1)));
    assert_eq!(find_elite_in_bank(&bank, "c"), Some(EliteSlot::Holding(1)));
    assert_eq!(lookup_elite(Some(&bank), "a"), Ok(EliteSlot::Databank(0)));
    assert_eq!(
        lookup_elite(Some(&bank), "z"),
        Err(DesktopError::MissingElite("z".to_string()))
    );
}

#[test]
fn recipe_flags_and_sealed_protection() {
    let config = RecipeConfig {
        entries: vec![
            ("m1_source".to_string(), RecipeValue::Text("/m1.tsv".to_string())),
            ("m1_fidelity_verified".to_string(), RecipeValue::Bool(true)),
            ("other".to_string(), RecipeValue::Other),
        ],
    };
    assert_eq!(recipe_text(&config, "m1_source"), Some("/m1.tsv".to_string()));
    assert_eq!(recipe_text(&config, "other"), None);
    assert_eq!(recipe_text(&config, "absent"), None);
    assert!(artifact_m1_fidelity_verified(&config));
    assert!(!artifact_is_research_grade(&config));
    let unverified = RecipeConfig {
        entries: vec![("m1_fidelity_verified".to_string(), RecipeValue::Text("true".to_string()))],
    };
    assert!(!artifact_m1_fidelity_verified(&unverified));
    assert!(artifact_is_research_grade(&unverified));

    let gates = vec![
        GateOutcome { name: "production_lane_v1".to_string(), passed: false },
        GateOutcome { name: "m1".to_string(), passed: true },
    ];
    assert!(!elite_is_sealed_protected(&gates));
    let gates = vec![GateOutcome { name: "production_lane_v1".to_string(), passed: true }];
    assert!(elite_is_sealed_protected(&gates));
}

#[test]
fn strategy_condition_counts_follow_the_expression_shape() {
    assert_eq!(strategy_entry_condition_count(Some(ConditionShape::All(3)), Some(ConditionShape::All(2))), 3);
    assert_eq!(strategy_entry_condition_count(None, Some(ConditionShape::All(2))), 2);
    assert_eq!(strategy_entry_condition_count(Some(ConditionShape::Single), None), 1);
    assert_eq!(strategy_entry_condition_count(None, None), 0);
    assert_eq!(strategy_exit_condition_count(None, None, Some(ConditionShape::Any(4))), 4);
    assert_eq!(strategy_exit_condition_count(None, Some(ConditionShape::All(4)), None), 1);
    assert_eq!(strategy_exit_condition_count(None, None, None), 0);
}

#[test]
fn discover_hands_holding_to_the_factory() {
    assert_eq!(
        factory_plan(None, Some(5), Some(0)),
        FactoryPlan { queue_limit: None, target_databank: None }
    );
    assert_eq!(
        factory_plan(Some(false), Some(5), Some(30)),
        FactoryPlan { queue_limit: Some(30), target_databank: Some(5) }
    );
    assert_eq!(
        factory_plan(Some(false), Some(0), None),
        FactoryPlan { queue_limit: None, target_databank: None }
    );
    assert_eq!(
        factory_started_note("Saved", Some(5)),
        "Saved. Factory started: battery the Holding queue until 5 Databank names."
    );
    assert_eq!(
        factory_started_note("Saved", None),
        "Saved. Factory started: battery everyone in the current Holding queue."
    );
    assert_eq!(factory_failed_note("Saved", "busy"), "Saved. Factory did not start: busy");
    assert_eq!(factory_checkpoint_note(3, 2, "Saved"), "Factory checkpoint: 3 Holding · 2 Databank. Saved");
    assert_eq!(discover_job_id(42), "desktop-42");
}

#[test]
fn live_databank_publishes_only_changes() {
    assert!(!live_publish_needed(0, 0, 5, None));
    assert!(live_publish_needed(1, 0, 5, None));
    let last = PublishedBank { revision: 5, elites: 1, holding: 2 };
    assert!(!live_publish_needed(1, 2, 5, Some(last)));
    assert!(live_publish_needed(1, 3, 5, Some(last)));
    assert!(live_publish_needed(1, 2, 6, Some(last)));
    let flags = archive_flags(true, false, 3, 10, false);
    assert_eq!(flags, ArchiveFlags { research_grade: true, m1_fidelity_verified: false, stopped_early: true });
    let flags = archive_flags(false, true, 10, 10, false);
    assert_eq!(flags, ArchiveFlags { research_grade: false, m1_fidelity_verified: true, stopped_early: false });
}

#[test]
fn an_empty_bank_soft_completes_without_an_archive() {
    let t = telemetry();
    let done = empty_bank_completion(true, true, 5000, 12, &t).expect("empty bank completes");
    assert_eq!(done.status, JobStatus::Completed);
    assert!(done.phase.contains("empty"));
    assert_eq!(done.phase, "Completed with an empty bank");
    assert_eq!(done.message, empty_bank_message(5000, 12, &t));
    assert!(empty_bank_completion(false, true, 5000, 12, &t).is_none());
    assert!(empty_bank_completion(true, false, 5000, 12, &t).is_none());
}
