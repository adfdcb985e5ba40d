use quantforge_desktop::challenge::{
    challenge_artifact_path, challenge_batch_summary, check_challenge_output, dedupe_expanded,
    expand_strategy_input, strategy_inputs, StrategyInputShape,
};
use quantforge_desktop::production_lane::{
    battery_binding_message, check_production_lane_start, decision_binding, execution_binding,
    lane_row_status, lane_start_message, lane_summary, production_lane_boundaries,
    production_lane_report_path, replay_progress, slice_rows_by_time,
};

#[test]
fn production_lane_start_checks_run_in_order() {
    assert_eq!(
        check_production_lane_start(true, true, 0, false, "H1"),
        Err("a Holding job is already running".to_string())
    );
    assert_eq!(
        check_production_lane_start(false, true, 0, false, "H1"),
        Err("Schema-v5 databanks are read-only. Run a fresh H4 Discover archive first.".to_string())
    );
    assert_eq!(
        check_production_lane_start(false, false, 0, false, "H1"),
        Err("Holding is empty".to_string())
    );
    assert_eq!(
        check_production_lane_start(false, false, 3, false, "H1"),
        Err("Production Lane requires a non-zero sealed partition".to_string())
    );
    assert_eq!(
        check_production_lane_start(false, false, 3, true, "H1"),
        Err("This is a H1 Holding archive. Production Lane v1 is H4-only; use Run full robustness battery for this cohort. Nothing was evaluated or promoted.".to_string())
    );
    assert_eq!(check_production_lane_start(false, false, 3, true, "H4"), Ok(()));
    assert_eq!(
        lane_start_message(12),
        "Frozen cohort: 12. Reconstructing H4 from M1 and matching the archive hash before replay."
    );
}

#[test]
fn production_lane_boundaries_follow_the_h4_split() {
    let stamps = vec![0i64, 10, 20, 30, 40, 50];
    assert_eq!(
        production_lane_boundaries(&stamps, 3, 1, 2, "abc", "abc"),
        Ok((0, 30, 40))
    );
    assert_eq!(
        production_lane_boundaries(&stamps, 3, 1, 0, "abc", "abc"),
        Err("Production Lane requires a non-empty sealed final partition".to_string())
    );
    assert_eq!(
        production_lane_boundaries(&stamps, 3, 1, 2, "abc", "xyz"),
        Err("This Holding archive is not bound to the reconstructed H4 Development data (archive abc, reconstructed xyz). Nothing was evaluated or promoted.".to_string())
    );
    assert_eq!(
        production_lane_boundaries(&stamps, 0, 1, 2, "abc", "abc"),
        Err("H4 Development partition is empty".to_string())
    );
    assert_eq!(
        production_lane_boundaries(&stamps, 6, 0, 2, "abc", "abc"),
        Err("H4 split has no later validation/sealed boundary".to_string())
    );
    assert_eq!(
        production_lane_boundaries(&stamps, 3, 3, 2, "abc", "abc"),
        Err("H4 sealed partition boundary is missing".to_string())
    );
}

#[test]
fn production_lane_slices_m1_rows_by_time() {
    let stamps = vec![5i64, 10, 15, 20, 25];
    assert_eq!(slice_rows_by_time(&stamps, 10, 20), Ok(vec![1, 2]));
    assert_eq!(
        slice_rows_by_time(&stamps, 30, 40),
        Err("no M1 rows cover the H4 Development partition".to_string())
    );
}

#[test]
fn production_lane_progress_rows_and_summary() {
    let (queued, phase, message) = replay_progress(3, 10);
    assert_eq!(queued, 7);
    assert_eq!(phase, "Production Lane replay 3/10");
    assert_eq!(message, "Development-only M1 replay: 3/10 complete.");
    assert_eq!(replay_progress(12, 10).0, 0);

    assert_eq!(lane_row_status(true, true, &vec![]), ("selected", None));
    assert_eq!(
        lane_row_status(false, true, &vec![]),
        ("eligible", Some("Eligible but outside the top-20%/diversity budget".to_string()))
    );
    assert_eq!(
        lane_row_status(false, false, &vec!["low R".to_string(), "few trades".to_string()]),
        ("rejected", Some("low R; few trades".to_string()))
    );
    let (summary, passed, rejected) = lane_summary(10, 6, 2);
    assert_eq!(
        summary,
        "10 frozen → 6 Development-eligible → 2 selected and promoted. Sealed final remained unopened."
    );
    assert_eq!((passed, rejected), (2, 4));
}

#[test]
fn production_lane_report_sits_beside_the_databank() {
    let path = production_lane_report_path("/data/EURUSD_H4_databank.json", 1234);
    assert!(path.ends_with("EURUSD_H4_databank_production_lane_v1_1234.json"));
    assert!(path.starts_with("/data/"));
}

#[test]
fn holding_archives_bind_to_one_decision_and_execution_stream() {
    assert_eq!(decision_binding("a", "a", "b"), Ok("H1"));
    assert_eq!(decision_binding("b", "a", "b"), Ok("H4"));
    assert_eq!(
        decision_binding("c", "a", "b"),
        Err("This Holding archive is not bound to the reconstructed H1 or H4 Development data (archive c, H1 a, H4 b). Nothing was evaluated or promoted.".to_string())
    );
    assert_eq!(execution_binding("H4", "f", "f", "d"), Ok("full M1"));
    assert_eq!(execution_binding("H4", "d", "f", "d"), Ok("Development M1"));
    assert_eq!(
        execution_binding("H4", "x", "f", "d"),
        Err("This Holding archive is not bound to either approved H4 M1 execution dataset (archive x, full f, Development d). Nothing was evaluated or promoted.".to_string())
    );
    assert_eq!(
        battery_binding_message(false, "H1", "full M1"),
        "Verified H1 Development decisions with the hash-bound full M1 execution stream. Only full passes move to Databank; failures stay in Holding."
    );
    assert_eq!(
        battery_binding_message(true, "H4", "Development M1"),
        "Verified H4 Development decisions with the hash-bound Development M1 execution stream. Every result is recorded; every tested strategy will move to Databank."
    );
}

#[test]
fn challenge_inputs_are_required_and_deduplicated() {
    assert_eq!(
        strategy_inputs(&vec![], ""),
        Err("at least one strategy IR path (or batch index) is required".to_string())
    );
    assert_eq!(
        strategy_inputs(&vec!["a.json".to_string()], ""),
        Ok(vec!["a.json".to_string()])
    );
    let groups = vec![
        vec!["a.json".to_string(), "b.json".to_string()],
        vec!["a.json".to_string(), "c.json".to_string()],
    ];
    assert_eq!(
        dedupe_expanded(&groups),
        Ok(vec!["a.json".to_string(), "b.json".to_string(), "c.json".to_string()])
    );
    assert_eq!(
        dedupe_expanded(&vec![vec![]]),
        Err("batch index contained no strategy paths".to_string())
    );
}

#[test]
fn challenge_inputs_expand_by_shape() {
    assert_eq!(
        expand_strategy_input("s.json", &StrategyInputShape::Strategy),
        Ok(vec!["s.json".to_string()])
    );
    assert_eq!(
        expand_strategy_input("x.json", &StrategyInputShape::Unknown),
        Err("x.json is neither a Strategy IR (missing \"id\") nor a QuantForge batch index (missing \"strategies\")".to_string())
    );
    assert_eq!(
        expand_strategy_input("b.json", &StrategyInputShape::Batch(vec![])),
        Err("b.json is a batch index with an empty strategies list".to_string())
    );
    assert_eq!(
        expand_strategy_input("b.json", &StrategyInputShape::Batch(vec![None])),
        Err("b.json strategies[0] is missing a string \"path\" field".to_string())
    );
    assert_eq!(
        expand_strategy_input(
            "b.json",
            &StrategyInputShape::Batch(vec![Some("/nonexistent/qf/strategy.json".to_string())])
        ),
        Err("batch entry strategies[0] path does not exist: /nonexistent/qf/strategy.json".to_string())
    );
}

#[test]
fn challenge_artifacts_are_numbered_and_graded() {
    let path = challenge_artifact_path("/out", "/in/trend one.json", 7);
    assert_eq!(path, "/out/trend_one-0007.challenge.json");
    let path = challenge_artifact_path("/out", "/in/s.json", 12345);
    assert_eq!(path, "/out/s-12345.challenge.json");
    assert_eq!(
        challenge_batch_summary(&vec![]),
        Err("Challenge produced no results".to_string())
    );
    assert_eq!(challenge_batch_summary(&vec![true, true]), Ok((true, "challenged", 2, 0)));
    assert_eq!(challenge_batch_summary(&vec![true, false]), Ok((false, "partial", 1, 1)));
    assert_eq!(challenge_batch_summary(&vec![false]), Ok((false, "illuminated", 0, 1)));
    assert_eq!(
        check_challenge_output(true, "/out"),
        Err("Challenge output directory already exists and will not be replaced: /out".to_string())
    );
    assert_eq!(check_challenge_output(false, "/out"), Ok(()));
}
