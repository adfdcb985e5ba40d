use quantforge_desktop::databank::{LongShortSkewBucket, NicheKey, ThreeLevelBucket};
use quantforge_desktop::deploy::{
    check_deploy_output, check_incubation_binding, check_incubation_policy, check_parity_hash,
    check_regenerated_source, deploy_view, deployment_changelog, deployment_files, find_gate_reference,
    required_gate, verify_deploy_parity, DeployGate, DeployParityFacts, DeployRequest, IncubationBinding,
};
use quantforge_desktop::evidence::{
    evidence_gate_names, evidence_output_paths, evidence_view, verify_challenge, verify_indicator,
    AssembleEvidenceRequest, ChallengeFacts, IndicatorParityFacts, IndicatorResult,
};
use quantforge_desktop::multi_symbol::{
    exact_h1_path, find_h1_name, matrix_symbols, matrix_timezone, missing_h1_message, pack_broker_path,
    shown_pairwise, ExportResultsPackRequest, ExportResultsPackView,
};
use quantforge_desktop::parity_lab::{
    check_export_output, check_parity_inputs, check_source_hash, check_validation_partition,
    export_expert_name, export_file_paths, indicator_parity_view, parity_broker_timezone, parity_grade,
    protective_claims, validation_window,
};
use quantforge_desktop::portfolio::{behavior_cohort, parse_portfolio_objective, PortfolioObjective};

fn challenge() -> ChallengeFacts {
    ChallengeFacts {
        command: "challenge".into(),
        binding_matches: true,
        split_plan_hash: "s".into(),
        expected_split_plan_hash: "s".into(),
        validation_data_hash: "v".into(),
        expected_validation_data_hash: "v".into(),
        passed: true,
        blocker_count: 0,
        quality_failed: false,
        override_flag_count: 0,
    }
}

#[test]
fn challenge_gate_refuses_overrides_and_mismatches() {
    assert_eq!(verify_challenge(Ok(()), &challenge()), Ok(()));
    let mut overridden = challenge();
    overridden.override_flag_count = 1;
    assert_eq!(
        verify_challenge(Ok(()), &overridden),
        Err("Challenge artifact is failed, mismatched or overridden".to_string())
    );
    assert_eq!(verify_challenge(Err("manifest is invalid".into()), &challenge()), Err("manifest is invalid".to_string()));
}

fn indicators(names: &[&str]) -> Vec<IndicatorResult> {
    names.iter().map(|name| IndicatorResult { name: name.to_string(), passed: true, mismatch_count: 0 }).collect()
}

const REQUIRED: [&str; 13] = [
    "sma", "ema", "wma", "rsi", "atr", "donchian_high", "donchian_low", "highest_close", "lowest_close",
    "standard_deviation", "zscore", "percentile_in_range", "rate_of_change",
];

#[test]
fn indicator_parity_must_cover_exactly_the_required_indicators() {
    let complete = IndicatorParityFacts {
        command: "indicator-parity".into(),
        passed: true,
        symbol: "EURUSD".into(),
        indicators: indicators(&REQUIRED),
        override_flag_count: 0,
    };
    assert_eq!(verify_indicator(Ok(()), &complete, "EURUSD"), Ok(()));
    let mut missing = complete.clone();
    missing.indicators.pop();
    assert!(verify_indicator(Ok(()), &missing, "EURUSD").is_err());
    let mut extra = complete.clone();
    extra.indicators.push(IndicatorResult { name: "macd".into(), passed: true, mismatch_count: 0 });
    assert!(verify_indicator(Ok(()), &extra, "EURUSD").is_err());
    let mut mismatched = complete.clone();
    mismatched.indicators[3].mismatch_count = 2;
    assert_eq!(
        verify_indicator(Ok(()), &mismatched, "EURUSD"),
        Err("indicator parity artifact is failed, incomplete or mismatched".to_string())
    );
    assert!(verify_indicator(Ok(()), &complete, "GBPUSD").is_err());
}

#[test]
fn evidence_bundles_count_one_gate_per_artifact() {
    assert_eq!(evidence_gate_names(false).len(), 7);
    assert_eq!(evidence_gate_names(true)[7], "incubation");
    let view = evidence_view("o".into(), "v".into(), "e".into(), "b".into(), 42, true);
    assert_eq!(view.gate_count, 8);
    assert!(view.certification_ready);
    assert_eq!(
        evidence_output_paths("/out", false, "/out").unwrap().2,
        "/out/certification-bundle.json"
    );
    assert_eq!(
        evidence_output_paths("/out", true, "/out"),
        Err("evidence directory already exists: /out".to_string())
    );
    let request = AssembleEvidenceRequest {
        strategy_path: "s".into(),
        broker_path: "b".into(),
        split_plan_path: "p".into(),
        databank_path: "d".into(),
        challenge_path: "c".into(),
        judge_path: "j".into(),
        parity_path: "x".into(),
        indicator_parity_path: "i".into(),
        sealed_final_path: "f".into(),
        incubation_path: None,
        output_directory: "/out".into(),
    };
    assert!(request.incubation_path.is_none());
}

#[test]
fn deployment_checks_run_in_order() {
    assert!(check_deploy_output(true, "/pack").is_err());
    assert_eq!(
        check_incubation_policy(false),
        Err("deployment requires a Vault entry certified with mandatory incubation".to_string())
    );
    let gates = vec!["challenge".to_string(), "incubation".to_string(), "incubation".to_string()];
    assert_eq!(find_gate_reference(&gates, "incubation"), Some(2));
    assert_eq!(
        required_gate(&gates, DeployGate::ExternalParity),
        Err("Certified Vault entry has no external parity artifact".to_string())
    );
    let binding = IncubationBinding {
        artifact_hash: "h".into(),
        reference_hash: "h".into(),
        certified_hash: Some("h".into()),
        command: "incubation-final".into(),
        data_hash_matches: true,
        binding_matches: true,
        split_plan_matches: true,
        passed: true,
        blocker_count: 0,
    };
    assert_eq!(check_incubation_binding(&binding, Ok(())), Ok(()));
    let mut stale = binding.clone();
    stale.certified_hash = None;
    assert_eq!(
        check_incubation_binding(&stale, Ok(())),
        Err("incubation artifact does not match the Certified evidence".to_string())
    );
    assert!(check_parity_hash("a", "a", "b").is_err());
    assert!(check_regenerated_source(true, false).is_err());
    let parity = DeployParityFacts {
        command: "parity".into(),
        data_hash_matches: true,
        broker_hash_matches: true,
        override_flag_count: 0,
        fingerprint_matches: true,
        evidence_broker_matches: true,
        symbol: "EURUSD".into(),
        broker_symbol: "EURUSD".into(),
        live_trading_default: false,
        allow_live_trading_default: false,
        mandatory_stop_loss: true,
        mandatory_take_profit: true,
        external_engine: "mt5-strategy-tester".into(),
        report_recomputes: true,
        passed: true,
        protective_orders_present: true,
    };
    assert_eq!(verify_deploy_parity(Ok(()), &parity), Ok(()));
    let mut live = parity.clone();
    live.allow_live_trading_default = true;
    assert_eq!(
        verify_deploy_parity(Ok(()), &live),
        Err("Certified external parity artifact is unsafe or inconsistent".to_string())
    );
}

#[test]
fn deployment_packs_list_their_files_and_changelog() {
    let files = deployment_files("QF_EURUSD");
    assert_eq!(files.len(), 8);
    assert_eq!(files[0], "QF_EURUSD.mq5");
    let log = deployment_changelog("entry", "fp", "broker", "parity", "source", "QF", "EURUSD", "H1", 7);
    assert!(log.starts_with("# QuantForge Deployment Changelog\n\n## Initial certified build\n\n- Vault entry: `entry`"));
    assert!(log.contains("- Magic: `7`\n"));
    let view = deploy_view("o".into(), "id".into(), "QF".into(), "EURUSD".into(), "H1".into(), 7, 9, 0);
    assert_eq!(view.grade, "deployed");
    assert!(!view.live_trading_default);
    let request = DeployRequest { vault_entry_path: "v".into(), output_directory: "o".into() };
    assert_eq!(request.output_directory, "o");
}

#[test]
fn exports_and_parity_summaries() {
    assert!(check_export_output(true, "/x").is_err());
    assert_eq!(export_expert_name("  ", "QF_EURUSD_1"), "QF_EURUSD_1");
    assert_eq!(export_expert_name(" Mine ", "QF"), "Mine");
    assert_eq!(export_file_paths("/out", "QF").3, "/out/QF.evidence.json");
    assert_eq!(validation_window(&vec![1, 5, 9, 12], 5, 12), vec![1, 2]);
    assert!(check_validation_partition(false, 1, 1, true).is_err());
    assert!(check_validation_partition(true, 2, 1, true).is_err());
    assert_eq!(check_validation_partition(true, 1, 1, true), Ok(()));
    let view = indicator_parity_view("o".into(), true, "EURUSD".into(), "H1".into(), 10, 8, &vec![1, 0, 3]);
    assert_eq!((view.field_count, view.mismatch_count), (3, 4));
}

#[test]
fn matrix_defaults_and_pack_files() {
    assert_eq!(matrix_symbols(&Vec::new()).len(), 9);
    assert_eq!(matrix_symbols(&vec!["XAUUSD".to_string()]), vec!["XAUUSD".to_string()]);
    assert_eq!(matrix_timezone(None), "ICMarkets/EST+7");
    assert_eq!(exact_h1_path("/pack", "EURUSD"), "/pack/ICMarketsSC-Demo_EURUSD_H1_2020_present.tsv");
    let names = vec!["a.tsv".to_string(), "X_EURUSD_H1_2016.tsv".to_string()];
    assert_eq!(find_h1_name(&names, "EURUSD"), Some(1));
    assert_eq!(find_h1_name(&names, "GBPUSD"), None);
    assert_eq!(missing_h1_message("GBPUSD", "/pack"), "H1 TSV for GBPUSD not found in /pack");
    assert_eq!(pack_broker_path("/pack", "EURUSD"), "/pack/EURUSD.broker.json");
    assert_eq!(shown_pairwise(30), 12);
    let request = ExportResultsPackRequest { input_path: "i".into(), title: "t".into(), output_directory: "o".into() };
    let view = ExportResultsPackView {
        directory: request.output_directory.clone(),
        html_path: "h".into(),
        trades_csv_path: "c".into(),
        metrics_json_path: "m".into(),
        pdf_path: "p".into(),
    };
    assert_eq!(view.directory, "o");
}

#[test]
fn portfolio_objectives_and_cohorts() {
    assert_eq!(parse_portfolio_objective("cvar"), Ok(PortfolioObjective::Cvar));
    assert_eq!(parse_portfolio_objective("max_sharpe"), Err("unknown portfolio objective max_sharpe".to_string()));
    let niche = NicheKey {
        entry_conditions: 2,
        trade_frequency: ThreeLevelBucket::Medium,
        hold_time: ThreeLevelBucket::Low,
        drawdown: ThreeLevelBucket::High,
        win_rate: ThreeLevelBucket::High,
        long_short_skew: LongShortSkewBucket::LongHeavy,
    };
    assert_eq!(behavior_cohort(&niche), "e2/medium/low");
}

#[test]
fn parity_inputs_protective_claims_and_grade() {
    assert_eq!(check_parity_inputs("f", "f", Some("b"), "b"), Ok(()));
    let bound = "reference result and export evidence are bound to different inputs".to_string();
    assert_eq!(check_parity_inputs("f", "g", Some("b"), "b"), Err(bound.clone()));
    assert_eq!(check_parity_inputs("f", "f", Some("b"), "c"), Err(bound.clone()));
    assert_eq!(check_parity_inputs("f", "f", None, "b"), Err(bound));
    assert_eq!(check_source_hash(true), Ok(()));
    assert_eq!(
        check_source_hash(false),
        Err("MQL5 source hash does not match its evidence card".to_string())
    );
    let both = "g_trade.Buy(volume,_Symbol,0.0,stop,target); g_trade.Sell(volume,_Symbol,0.0,stop,target);";
    assert_eq!(protective_claims(both, true, true), (true, true));
    assert_eq!(protective_claims(both, true, false), (true, false));
    let buy_only = "g_trade.Buy(volume,_Symbol,0.0,stop,target);";
    assert_eq!(protective_claims(buy_only, true, true), (false, false));
    assert_eq!(parity_broker_timezone(Some("UTC"), Some("EET")), Some("UTC".to_string()));
    assert_eq!(parity_broker_timezone(None, Some("EET")), Some("EET".to_string()));
    assert_eq!(parity_broker_timezone(None, None), None);
    assert_eq!(parity_grade(true), "parity-passed");
    assert_eq!(parity_grade(false), "accepted");
}
