use quantforge_desktop::archive_paths::{automatic_databank_path, immutable_snapshot_path, immutable_snapshot_path_at, numbered_choice, infer_quote_path_public, quote_sidecar_file_names};
use quantforge_desktop::campaign::{plan_portfolio_campaign, portfolio_lane_job, portfolio_lane_view};
use quantforge_desktop::discover::{
    automatic_factory_target, holding_plateau_should_stop, stop_was_early, DecisionTimeframe, DiscoverControl,
    DiscoverMode, DiscoverModeView, JobStatus, PortfolioDiscoverAsset,
};
use quantforge_desktop::discover_setup::{
    decision_timeframe_label, new_settings, optimizer_entry_window, parse_entry_condition_counts, parse_run_mode,
    request_facts, requested_multi_symbol_minimum_pass, validate_request, validate_request_with, DiscoverRequestFacts, DiscoverSettingsRequest,
    GrammarBounds, RunMode,
};
use std::path::{Path, PathBuf};

#[test]
fn open_ended_discover_never_stops_for_a_holding_plateau_or_factory_target() {
    assert!(!holding_plateau_should_stop(true, true, 111, 25));
    assert_eq!(automatic_factory_target(true, Some(1)), None);
}

#[test]
fn finite_discover_can_use_an_explicit_plateau_or_factory_target() {
    assert!(holding_plateau_should_stop(false, true, 40, 25));
    assert_eq!(automatic_factory_target(false, Some(1)), Some(1));
    assert_eq!(automatic_factory_target(false, Some(0)), None);
}

#[test]
fn portfolio_lane_is_always_a_new_isolated_discover_job() {
    let view = portfolio_lane_job(Some("EURUSD"), "/tmp/portfolio-lane.json", 1, Some(false), 2);
    assert_eq!(view.mode, Some(DiscoverMode::New));
    assert_eq!(view.status.as_str(), "queued");
    assert_eq!(view.worker_threads, 2);
    assert_eq!(view.output_path.as_deref(), Some("/tmp/portfolio-lane.json"));
}

#[test]
fn portfolio_lane_prefers_its_immutable_checkpoint_for_reopening() {
    let mut job = portfolio_lane_job(Some("EURUSD"), "/tmp/portfolio-working.json", 1, Some(false), 2);
    job.latest_immutable_snapshot_path = Some("/tmp/portfolio-stopped.json".into());
    let view = portfolio_lane_view("EURUSD", &job);
    assert_eq!(view.output_path, "/tmp/portfolio-stopped.json");
}

#[test]
fn cross_symbol_screen_is_opt_in_for_new_jobs() {
    assert_eq!(requested_multi_symbol_minimum_pass(DiscoverMode::New, None, None), 0);
    assert_eq!(requested_multi_symbol_minimum_pass(DiscoverMode::New, None, Some(6)), 6);
}

fn facts(databank_path: String) -> DiscoverRequestFacts {
    DiscoverRequestFacts {
        mode: DiscoverMode::New,
        data_path: "fixtures/EURUSD_M15_sample.tsv".into(),
        m1_data_path: "fixtures/EURUSD_M1_sample.tsv".into(),
        broker_path: "fixtures/EURUSD_fixture_broker.json".into(),
        databank_path,
        selected_symbol: Some("EURUSD".into()),
        bound_broker_symbol: Ok("EURUSD".into()),
        universal_grammar: None,
        sl_tp_only_exits: None,
        run_mode: None,
        history_start_year_check: Ok(()),
        split_fraction_check: Ok(()),
        run_until_stopped: Some(false),
        generations: 1,
        new_search_overrides: 12,
    }
}

#[test]
fn continuation_rejects_new_search_overrides() {
    let directory = tempfile::tempdir().expect("temp directory");
    let path = directory.path().join("bank.json");
    touch(&path);
    let mut request = facts(path.display().to_string());
    request.mode = DiscoverMode::Continue;
    let error = validate_request(&request).expect_err("override must fail");
    assert!(error.contains("immutable configuration"));
}

#[test]
fn new_discovery_rejects_a_stale_cross_symbol_binding() {
    let directory = tempfile::tempdir().expect("temp directory");
    let mut request = facts(directory.path().join("bank.json").display().to_string());
    request.selected_symbol = Some("AUDUSD".into());
    let error = validate_request(&request).expect_err("EURUSD inputs cannot run as AUDUSD");
    assert!(error.contains("selected symbol AUDUSD"));
    assert!(error.contains("EURUSD"));
}

fn default_grammar() -> GrammarBounds {
    GrammarBounds {
        minimum_entry_conditions: 2,
        maximum_entry_conditions: 4,
        minimum_exit_conditions: 1,
        maximum_exit_conditions: 3,
        minimum_shift: 1,
        maximum_shift: 3,
    }
}

#[test]
fn new_runs_need_no_family_and_reject_an_impossible_entry_range() {
    let directory = tempfile::tempdir().expect("temp directory");
    let mut request = facts(directory.path().join("fresh-bank.json").display().to_string());
    validate_request(&request).expect("universal grammar defaults are enough");
    request.universal_grammar =
        Some(GrammarBounds { minimum_entry_conditions: 4, maximum_entry_conditions: 2, ..default_grammar() });
    let error = validate_request(&request).expect_err("inverted range must fail");
    assert!(error.contains("entry conditions"));
    request.universal_grammar =
        Some(GrammarBounds { minimum_entry_conditions: 4, maximum_entry_conditions: 4, ..default_grammar() });
    let error = validate_request(&request).expect_err("constrained profile caps at three");
    assert!(error.contains("SL/TP-only"));
}

#[test]
fn immutable_snapshot_names_are_unique_and_keep_the_live_path_untouched() {
    let directory = tempfile::tempdir().expect("temp directory");
    let live = directory.path().join("AUDUSD_H1_databank.json");
    let first = immutable_snapshot_path(&live.display().to_string(), "paused").unwrap();
    touch(Path::new(&first));
    let second = immutable_snapshot_path(&live.display().to_string(), "paused").unwrap();
    assert!(!Path::new(&second).exists());
    assert_ne!(first, second);
    let first_path = Path::new(&first);
    assert!(first_path.file_name().unwrap().to_string_lossy().contains(".paused."));
    assert_eq!(first_path.parent(), live.parent());
    assert_ne!(first_path, live.as_path());
}

#[test]
fn condition_bakeoff_defaults_to_two_three_and_four() {
    assert_eq!(parse_entry_condition_counts(&[]), Ok(vec![2, 3, 4]));
    assert_eq!(parse_entry_condition_counts(&[3, 3, 2]), Ok(vec![3, 2]));
    assert!(parse_entry_condition_counts(&[5]).is_err());
}

#[test]
fn a_stopped_open_ended_run_counts_as_early() {
    assert!(stop_was_early(10, 0, true));
    assert!(stop_was_early(3, 5, false));
    assert!(!stop_was_early(5, 5, false));
}

#[test]
fn run_modes_accept_their_aliases_in_any_case() {
    assert_eq!(parse_run_mode(" Islands "), Some(RunMode::HighPerformanceIslands));
    assert_eq!(parse_run_mode("QUOTA"), Some(RunMode::QuotaHarvest));
    assert_eq!(parse_run_mode("turbo"), None);
}

#[test]
fn pause_resume_and_stop_follow_the_job_state() {
    let mut control = DiscoverControl::idle();
    assert!(control.pause().is_err());
    control.status = JobStatus::Running;
    control.pause().expect("a running job pauses");
    assert!(control.paused);
    control.resume().expect("a paused job resumes");
    assert!(!control.paused);
    control.stop().expect("a running job stops");
    assert!(control.stop_requested);
}

#[test]
fn automatic_archive_names_go_under_the_symbol_databank_folder() {
    let directory = tempfile::tempdir().expect("temp directory");
    let root = directory.path().display().to_string();
    let path = automatic_databank_path("/packs/eurusd_h1-pack.tsv", None, Some(DecisionTimeframe::M15), 2016, &root, 1700)
        .expect("a stem gives a name");
    let expected = directory.path().join("EURUSD").join("Databank").join("EURUSD_M15_2016_databank_1700.json");
    assert_eq!(path, expected.display().to_string());
    mkdir(&directory.path().join("EURUSD"));
    mkdir(&directory.path().join("EURUSD").join("Databank"));
    touch(&expected);
    let next = automatic_databank_path("/packs/eurusd_h1-pack.tsv", Some(" gbpusd"), None, 2016, &root, 1700).unwrap();
    assert!(next.ends_with("GBPUSD_H1_2016_databank_1700.json"));
    let error = automatic_databank_path("/", None, None, 2016, &root, 1).expect_err("no stem");
    assert_eq!(error, "cannot derive an archive name from decision OHLC path");
}

#[test]
fn short_symbol_sidecars_are_named_after_the_symbol() {
    assert_eq!(
        quote_sidecar_file_names("ICMarketsSC-Demo_EURUSD_M1_2016_present"),
        vec![
            "ICMarketsSC-Demo_EURUSD_M1_2016_present.quotes.csv".to_string(),
            "EURUSD_M1.quotes.csv".to_string(),
        ]
    );
    let directory = tempfile::tempdir().expect("temp directory");
    let m1 = directory.path().join("ICMarketsSC-Demo_EURUSD_M1_2016_present.tsv");
    let short = directory.path().join("EURUSD_M1.quotes.csv");
    touch(&short);
    assert_eq!(infer_quote_path_public(&m1.display().to_string()), Some(short.display().to_string()));
    let own = directory.path().join("ICMarketsSC-Demo_EURUSD_M1_2016_present.quotes.csv");
    touch(&own);
    assert_eq!(infer_quote_path_public(&m1.display().to_string()), Some(own.display().to_string()));
}

#[test]
fn h4_is_a_four_hour_decision_lane() {
    let timestamps = [0i64, DecisionTimeframe::H4.interval_ms()];
    assert_eq!(DecisionTimeframe::H4.interval_ms(), 14_400_000);
    assert_eq!(decision_timeframe_label(Some(timestamps[1] - timestamps[0])).unwrap(), "H4");
}

#[test]
fn quote_sidecars_are_tried_in_order_and_found_beside_the_pack() {
    assert_eq!(
        quote_sidecar_file_names("EURUSD_H1"),
        vec!["EURUSD_H1.quotes.csv".to_string(), "EURUSD_M1.quotes.csv".to_string(), "EURUSD_M1.quotes.csv".to_string()]
    );
    let directory = tempfile::tempdir().expect("temp directory");
    let pack = directory.path().join("ICMarketsSC-Demo_EURUSD_H1_2020.tsv");
    assert_eq!(infer_quote_path_public(&pack.display().to_string()), None);
    let sidecar = directory.path().join("ICMarketsSC-Demo_EURUSD_M1_2020.quotes.csv");
    touch(&sidecar);
    assert_eq!(infer_quote_path_public(&pack.display().to_string()), None);
    let short = directory.path().join("EURUSD_M1.quotes.csv");
    touch(&short);
    assert_eq!(infer_quote_path_public(&pack.display().to_string()), Some(short.display().to_string()));
    let pack_m1 = directory.path().join("ICMarketsSC-Demo_EURUSD_M1_2020.tsv");
    assert_eq!(infer_quote_path_public(&pack_m1.display().to_string()), Some(directory.path().join("ICMarketsSC-Demo_EURUSD_M1_2020.quotes.csv").display().to_string()));
}

fn asset(symbol: &str) -> PortfolioDiscoverAsset {
    PortfolioDiscoverAsset {
        symbol: symbol.into(),
        data_path: "d.tsv".into(),
        metadata_path: None,
        source_timezone: None,
        m1_data_path: "m1.tsv".into(),
        m1_metadata_path: None,
        m1_source_timezone: None,
        broker_path: "b.json".into(),
    }
}

#[test]
fn a_campaign_needs_two_to_seven_distinct_symbols() {
    let one = vec![asset("EURUSD")];
    assert!(plan_portfolio_campaign(&one, DiscoverMode::New, Some(7), JobStatus::Idle, JobStatus::Idle, 0, 1, 8).is_err());
    let twice = vec![asset("EURUSD"), asset(" eurusd ")];
    assert!(plan_portfolio_campaign(&twice, DiscoverMode::New, Some(7), JobStatus::Idle, JobStatus::Idle, 0, 1, 8).is_err());
    let pair = vec![asset("eurusd"), asset("GBPUSD")];
    let plan = plan_portfolio_campaign(&pair, DiscoverMode::New, Some(7), JobStatus::Idle, JobStatus::Idle, 0, 1, 8)
        .expect("two distinct symbols run");
    assert_eq!(plan.lanes.len(), 2);
}

#[test]
fn settings_take_defaults_and_cap_the_grammar_for_sl_tp_exits() {
    let request = DiscoverSettingsRequest {
        initial_candidates: None,
        batch_size: Some(8),
        seed: None,
        grammar: None,
        run_mode: Some("islands".into()),
        early_stop_pot_elites: None,
        target_databank_elites: Some(50),
        minimum_trades: None,
        deposit_minimum_trades: None,
        require_m1_precision: None,
        simple_exits: None,
        sl_tp_only_exits: None,
        allow_fixed_pip_stops: None,
        allow_indicator_exit_rules: None,
        allow_time_stops: None,
        allow_break_even: None,
        allow_trailing_stops: None,
        allow_partial_exits: None,
        allow_market_entries: None,
        allow_stop_entries: None,
        allow_limit_entries: None,
        flatten_at_22: None,
        end_of_day_hour: None,
        max_one_entry_per_day: None,
        mutate_after_elites: None,
        worker_threads: None,
        promotion_worker_threads: None,
        promotion_queue_capacity: None,
        build_to_holding: None,
        require_m1_robustness: None,
        robustness_folds: None,
        robustness_monte_carlo_trials: None,
        robustness_monte_carlo_block_length: None,
        robustness_neighborhood_samples: None,
        calendar_year_folds: None,
        multi_symbol_minimum_pass: None,
        general_island_count: Some(0),
        migration_interval: None,
        migration_elites: None,
        has_commission: true,
    };
    let settings = new_settings(&request, true, "EURUSD", 5).expect("valid settings");
    assert_eq!(settings.initial_candidates, 500);
    assert_eq!(settings.batch_size, 8);
    assert_eq!(settings.seed, 42);
    assert_eq!(settings.grammar.maximum_entry_conditions, 3);
    assert_eq!(settings.grammar.maximum_exit_conditions, 2);
    assert!(settings.flatten_at_22);
    assert_eq!(settings.fixed_pip_size_points, 10);
    assert_eq!(settings.island_count, 1);
    assert_eq!(settings.run_mode, RunMode::HighPerformanceIslands);
    let mut fixed = request.clone();
    fixed.allow_fixed_pip_stops = Some(true);
    assert_eq!(
        new_settings(&fixed, false, "XAUUSD", 2).unwrap_err(),
        "fixed pip SL/TP is currently available for FX symbols only; XAUUSD should use ATR/R protection"
    );
    let mut free = request;
    free.has_commission = false;
    assert_eq!(new_settings(&free, true, "EURUSD", 5).unwrap_err(), "commission is required for a new databank");
    assert_eq!(optimizer_entry_window(None, Some(20)), (2, 20));
    let _ = DiscoverModeView::from(DiscoverMode::New);
}



fn touch(path: &Path) -> PathBuf {
    tempfile::Builder::new()
        .prefix(path.file_name().expect("file name"))
        .rand_bytes(0)
        .disable_cleanup(true)
        .tempfile_in(path.parent().expect("parent folder"))
        .expect("fixture file")
        .path()
        .to_path_buf()
}

fn mkdir(path: &Path) -> PathBuf {
    tempfile::Builder::new()
        .prefix(path.file_name().expect("folder name"))
        .rand_bytes(0)
        .disable_cleanup(true)
        .tempdir_in(path.parent().expect("parent folder"))
        .expect("fixture folder")
        .path()
        .to_path_buf()
}

#[test]
fn request_facts_count_the_new_search_overrides() {
    let configured = vec![false, true, false, true, true];
    let facts = request_facts(
        DiscoverMode::Continue,
        "d.tsv".into(),
        "m1.tsv".into(),
        "b.json".into(),
        "bank.json".into(),
        None,
        Err("unused".into()),
        None,
        None,
        None,
        Ok(()),
        Ok(()),
        None,
        0,
        &configured,
    );
    assert_eq!(facts.new_search_overrides, 3);
    assert_eq!(facts.databank_path, "bank.json");
    assert_eq!(
        validate_request_with(&facts, true),
        Err("continuation uses the immutable configuration stored in the databank; clear all new-search overrides".to_string())
    );
    let none = request_facts(
        DiscoverMode::Continue, "d.tsv".into(), "m1.tsv".into(), "b.json".into(), "bank.json".into(), None,
        Err("unused".into()), None, None, None, Ok(()), Ok(()), None, 0, &vec![false; 58],
    );
    assert_eq!(none.new_search_overrides, 0);
    assert_eq!(validate_request_with(&none, true), Ok(()));
}

#[test]
fn snapshot_paths_follow_the_clock_and_the_probe_answers() {
    let first = immutable_snapshot_path_at("/runs/AUDUSD_H1_databank.json", "paused", 1_700_000_000, 123_456_000, &vec![false])
        .expect("a valid reading");
    assert_eq!(first, "/runs/AUDUSD_H1_databank.paused.20231114T221320.123456Z.json");
    let third = immutable_snapshot_path_at("/runs/AUDUSD_H1_databank.json", "paused", 1_700_000_000, 123_456_000, &vec![true, true, false])
        .expect("a valid reading");
    assert_eq!(third, "/runs/AUDUSD_H1_databank.paused.20231114T221320.123456Z.3.json");
    assert_ne!(third, "/runs/AUDUSD_H1_databank.json");
    assert_eq!(
        immutable_snapshot_path_at("/runs/a.json", "paused", i64::MAX, 0, &vec![false]),
        Err("system clock reads before the Unix epoch or beyond the supported range".to_string())
    );
    assert_eq!(numbered_choice("/d", "bank", "_", ".json", &vec![false]), "/d/bank.json");
    assert_eq!(numbered_choice("/d", "bank", "_", ".json", &vec![true, false]), "/d/bank_2.json");
    assert_eq!(numbered_choice("/d", "bank", "_", ".json", &vec![true, true]), "/d/bank_2.json");
}
