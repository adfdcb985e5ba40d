use quantforge_desktop::assets::{AssetProfile, ProfileEntry, SymbolPack};
use quantforge_desktop::bakeoff::{at_least_one, check_timeframe_bakeoff, condition_bakeoff_sizes, inclusive_range};
use quantforge_desktop::battery::{
    archive_m1_binding, battery_csv_header, battery_outcome, battery_run_phase, check_holding_bypass,
    csv_count_cell, csv_text_cell, factory_job_start, join_csv_cells, outcome_status,
    promotion_sync_phase, BatteryAttempt, BatteryOutcome,
};
use quantforge_desktop::binding::{
    check_import_folder, check_metadata_broker_binding, import_folder_path, quote_sidecar_clock,
    BrokerIdentity, MetadataIdentity,
};
use quantforge_desktop::databank::{choose_portable_binding, BindingChoice, DesktopError};
use quantforge_desktop::discover_run::SearchSample;
use quantforge_desktop::equity::{boundary_anchor, full_run_m1_source, last_point_before, trade_partition_counts, trade_rows_shown};
use quantforge_desktop::exports::{check_source_preview, check_vault_candidate, check_vault_staging, vault_candidate_path,

    check_batch_export, check_export_conflicts, check_trade_csv_selection, compact_decimal_text,
    expert_names, magic_range, sqx_trade_headers, strategy_ir_file_name, trade_csv_paths,
    trade_csv_preferred_stem, trade_csv_stems, trade_exit_comment, trade_sample_label, trade_side_label,
    trade_ticket, ExitKind,
};
use quantforge_desktop::workspace::resolve_databank_elites;
use quantforge_desktop::fx_pack::{
    broker_file_name, check_pack_directory, first_timeframe_file, metadata_beside, pack_companions,
    pack_sample, timeframe_file_matches,
};
use quantforge_desktop::import_rows::{
    group_rows_by_key, group_volume, import_metadata_rows, imported_bar_files, input_was_sorted,
    minute_bucket, quote_metadata_rows, quote_sidecar_files, stem_symbol,
};
use quantforge_desktop::optimizer::{neighborhood_sample_count, neighborhood_tally, walk_forward_grid};
use quantforge_desktop::ordering::{
    sort_assets_by_name, sort_profiles_by_name, sort_symbol_packs, stable_text_order,
};

fn strings(values: &[&str]) -> Vec<String> {
    values.iter().map(|value| value.to_string()).collect()
}

fn invalid(detail: &str) -> DesktopError {
    DesktopError::InvalidExport(detail.to_string())
}

#[test]
fn batch_exports_refuse_bad_selections_in_order() {
    assert_eq!(check_batch_export(&vec![], false, "/x"), Err(invalid("select at least one elite")));
    assert_eq!(
        check_batch_export(&strings(&["a"]), false, "/x"),
        Err(invalid("/x is not an existing directory"))
    );
    assert_eq!(
        check_batch_export(&strings(&["a", "b", "a"]), true, "/x"),
        Err(invalid("the selection contains duplicate fingerprints"))
    );
    assert_eq!(check_batch_export(&strings(&["a", "b"]), true, "/x"), Ok(()));
    assert_eq!(check_trade_csv_selection(&vec![]), Err(invalid("select at least one elite")));
    assert_eq!(
        check_trade_csv_selection(&strings(&["a", "a"])),
        Err(invalid("the selection contains duplicate fingerprints"))
    );
    assert_eq!(check_trade_csv_selection(&strings(&["a"])), Ok(()));
}

#[test]
fn expert_magic_numbers_and_names() {
    assert_eq!(magic_range(0, 3), Err(invalid("base magic must be greater than zero")));
    assert_eq!(magic_range(u64::MAX, 2), Err(invalid("base magic is too large")));
    assert_eq!(magic_range(1000, 3), Ok(1002));
    assert_eq!(magic_range(1000, 0), Ok(1000));
    assert_eq!(
        expert_names(&strings(&["QF_A", "QF_B", "QF_A", "QF_A"]), 100),
        strings(&["QF_A", "QF_B", "QF_A_102", "QF_A_103"])
    );
}

#[test]
fn trade_csv_names_paths_and_ir_names() {
    assert_eq!(
        trade_csv_preferred_stem("EUR/USD", "trend one", "0123456789abcdef"),
        "EUR_USD_trend_one_01234567"
    );
    assert_eq!(
        trade_csv_stems(&strings(&["a", "b", "a", "a"])),
        strings(&["a", "b", "a_3", "a_4"])
    );
    let (paths, index) = trade_csv_paths("/out", &strings(&["a", "b"]));
    assert_eq!(paths, strings(&["/out/a.csv", "/out/b.csv"]));
    assert_eq!(index, "/out/quantforge-strategy-csv-index.csv");
    assert_eq!(
        strategy_ir_file_name("trend/one", "0123456789abcdef"),
        "trend_one.0123456789ab.strategy.ir.json"
    );
    assert_eq!(strategy_ir_file_name("s", "abc"), "s.abc.strategy.ir.json");
}

#[test]
fn export_conflicts_name_the_first_existing_file() {
    let paths = strings(&["/o/a.json", "/o/b.json", "/o/index.json"]);
    assert_eq!(check_export_conflicts(&paths, &vec![false, false, false], true), Ok(()));
    assert_eq!(
        check_export_conflicts(&paths, &vec![false, true, true], true),
        Err(invalid("/o/b.json already exists; choose an empty folder"))
    );
    assert_eq!(
        check_export_conflicts(&paths, &vec![false, false, true], false),
        Err(invalid("/o/index.json already exists; rename or remove it, then export again"))
    );
}

#[test]
fn sqx_trade_csv_matches_reference_columns_and_partition_labels() {
    let headers = sqx_trade_headers();
    assert_eq!(headers.len(), 20);
    assert_eq!(
        headers,
        vec![
            "Ticket", "Symbol", "Type", "Open time", "Open price", "Size", "Close time",
            "Close price", "Time in trade", "Profit/Loss", "Cummulative P/L", "Comm/Swap",
            "P/L in money", "Cummulative money P/L", "P/L in pips", "Cummulative pips P/L",
            "P/L in %", "Cummulative % P/L", "Comment", "Sample type",
        ]
    );
    assert_eq!(trade_side_label(true), "Buy");
    assert_eq!(trade_side_label(false), "Sell");
    assert_eq!(trade_sample_label(1_704_067_200_000, 1_704_074_400_000, 1_704_100_000_000), "IS");
    assert_eq!(trade_sample_label(1_704_074_400_000, 1_704_074_400_000, 1_704_100_000_000), "OOS1");
    assert_eq!(trade_sample_label(1_704_100_000_000, 1_704_074_400_000, 1_704_100_000_000), "OOS2");
    assert!(trade_exit_comment(ExitKind::TakeProfit, "1.10101", "test-strategy").starts_with("tp "));
    assert!(trade_exit_comment(ExitKind::StopLoss, "1.10200", "test-strategy").starts_with("sl "));
    assert_eq!(trade_exit_comment(ExitKind::Indicator, "1.1", "test-strategy"), "test-strategy");
    assert_eq!(trade_exit_comment(ExitKind::EndOfData, "1.1", "s"), "end of data");
    assert_eq!(trade_ticket(0), 2);
    assert_eq!(trade_ticket(1), 4);
}

#[test]
fn decimal_cells_drop_trailing_zeros() {
    assert_eq!(compact_decimal_text(&format!("{:.8}", 7.20_f64)), "7.2");
    assert_eq!(compact_decimal_text("116.25"), "116.25");
    assert_eq!(compact_decimal_text("0.00"), "0");
    assert_eq!(compact_decimal_text("-108.00"), "-108");
}

#[test]
fn optimizer_grid_and_neighbourhood() {
    assert_eq!(walk_forward_grid(&vec![], &vec![]), (vec![3, 4, 5, 6], vec![60, 120, 240]));
    assert_eq!(walk_forward_grid(&vec![2], &vec![30, 90]), (vec![2], vec![30, 90]));
    assert_eq!(neighborhood_sample_count(0), 1);
    assert_eq!(neighborhood_sample_count(25), 25);
    assert_eq!(neighborhood_tally(&vec![true, false, true]), (2, 3));
}

#[test]
fn ticks_are_grouped_by_minute_in_time_order() {
    assert_eq!(minute_bucket(125_000), 120_000);
    assert_eq!(minute_bucket(-1), -60_000);
    assert_eq!(minute_bucket(60_000), 60_000);
    let keys: Vec<i64> = vec![120_000, 0, 120_000, 60_000, 0];
    let groups = group_rows_by_key(&keys);
    let summary: Vec<(i64, Vec<usize>)> = groups.iter().map(|g| (g.key, g.rows.clone())).collect();
    assert_eq!(summary, vec![(0, vec![1, 4]), (60_000, vec![3]), (120_000, vec![0, 2])]);
    assert!(group_rows_by_key(&vec![]).is_empty());
    assert!(input_was_sorted(&vec![1, 1, 2]));
    assert!(!input_was_sorted(&vec![2, 1]));
    assert_eq!(group_volume(&vec![5, u64::MAX, 7], &vec![0, 2]), 12);
    assert_eq!(group_volume(&vec![5, u64::MAX, 7], &vec![0, 1, 2]), u64::MAX);
}

#[test]
fn imported_files_and_metadata() {
    let (data, metadata) = imported_bar_files("/out", "EURUSD_20240101", "M1");
    assert_eq!(data, "/out/EURUSD_20240101_M1.csv");
    assert_eq!(metadata, "/out/EURUSD_20240101_M1.metadata.csv");
    let (quotes, quote_metadata) = quote_sidecar_files("/out", "EURUSD");
    assert_eq!(quotes, "/out/EURUSD_M1.quotes.csv");
    assert_eq!(quote_metadata, "/out/EURUSD_M1.quotes.metadata.csv");
    assert_eq!(stem_symbol("EURUSD_2"), "EURUSD");
    assert_eq!(stem_symbol("MARKET"), "MARKET");
    let rows = import_metadata_rows("EURUSD_2", "H1", 10, 600, "Etc/UTC", "tick_bid_ask_aggregated", "/in/x.csv", "h");
    let expected: Vec<(String, String)> = [
        ("schema_version", "1"),
        ("symbol", "EURUSD"),
        ("timeframe", "PERIOD_H1"),
        ("bar_count", "10"),
        ("source_rows", "600"),
        ("broker_timezone", "Etc/UTC"),
        ("price_basis", "bid"),
        ("import_kind", "tick_bid_ask_aggregated"),
        ("source_file", "/in/x.csv"),
        ("data_hash", "h"),
    ]
    .iter()
    .map(|(k, v)| (k.to_string(), v.to_string()))
    .collect();
    assert_eq!(rows, expected);
    let ohlc = import_metadata_rows("X", "M1", 1, 1, "Etc/UTC", "ohlc", "/in/x.csv", "h");
    assert_eq!(ohlc[6], ("price_basis".to_string(), "source_ohlc".to_string()));
    let quote = quote_metadata_rows("X_1", 5, 9, "Etc/UTC", "/in/t.csv", "q");
    assert_eq!(quote[2], ("timeframe".to_string(), "PERIOD_M1".to_string()));
    assert_eq!(quote[6], ("price_basis".to_string(), "bid_ask".to_string()));
    assert_eq!(quote[7], ("import_kind".to_string(), "tick_bid_ask_sidecar".to_string()));
}

fn metadata() -> MetadataIdentity {
    MetadataIdentity {
        symbol: Ok("EURUSD".to_string()),
        timezone: Ok("Etc/UTC".to_string()),
        account_currency: Some("USD".to_string()),
        currency_base: None,
        currency_profit: Some("USD".to_string()),
        currency_margin: None,
    }
}

fn broker() -> BrokerIdentity {
    BrokerIdentity {
        symbol: "EURUSD".to_string(),
        timezone: "Etc/UTC".to_string(),
        account_currency: "USD".to_string(),
        base_currency: "EUR".to_string(),
        profit_currency: "USD".to_string(),
        margin_currency: "EUR".to_string(),
    }
}

#[test]
fn metadata_must_name_the_broker_instrument() {
    assert_eq!(check_metadata_broker_binding(None, &broker()), Ok(()));
    assert_eq!(check_metadata_broker_binding(Some(&metadata()), &broker()), Ok(()));
    let mut other = metadata();
    other.symbol = Ok("GBPUSD".to_string());
    assert_eq!(
        check_metadata_broker_binding(Some(&other), &broker()),
        Err("metadata symbol does not match broker profile EURUSD".to_string())
    );
    let mut zone = metadata();
    zone.timezone = Ok("Europe/Athens".to_string());
    assert_eq!(
        check_metadata_broker_binding(Some(&zone), &broker()),
        Err("metadata timezone does not match broker profile Etc/UTC".to_string())
    );
    let mut currency = metadata();
    currency.currency_base = Some("GBP".to_string());
    assert_eq!(
        check_metadata_broker_binding(Some(&currency), &broker()),
        Err("metadata currency_base GBP does not match broker profile EUR".to_string())
    );
    let mut missing = metadata();
    missing.symbol = Err("metadata has no symbol".to_string());
    assert_eq!(
        check_metadata_broker_binding(Some(&missing), &broker()),
        Err("metadata has no symbol".to_string())
    );
    assert!(quote_sidecar_clock(Some("EVERY_TICK TESTER_TICKS")));
    assert!(!quote_sidecar_clock(Some("imported")));
    assert!(!quote_sidecar_clock(None));
    assert_eq!(check_import_folder(true, "/d"), Ok(()));
    assert_eq!(check_import_folder(false, "/d"), Err("market-data folder does not exist: /d".to_string()));
    assert_eq!(import_folder_path("  /data/ticks \n"), "/data/ticks");
}

#[test]
fn listings_are_stably_ordered_by_text() {
    assert_eq!(stable_text_order(&strings(&["b", "a", "b", "A"])), vec![3, 1, 0, 2]);
    assert!(stable_text_order(&vec![]).is_empty());
    let asset = |id: &str, name: &str| AssetProfile {
        id: id.to_string(),
        name: name.to_string(),
        data_path: "/d".to_string(),
        metadata_path: None,
        source_timezone: None,
        m1_data_path: None,
        m1_metadata_path: None,
        m1_source_timezone: None,
        broker_path: "/b".to_string(),
        updated_at: "t".to_string(),
    };
    let sorted = sort_assets_by_name(&vec![asset("1", "gold"), asset("2", "Euro"), asset("3", "euro")]);
    let ids: Vec<&str> = sorted.iter().map(|a| a.id.as_str()).collect();
    assert_eq!(ids, vec!["2", "3", "1"]);
    let profile = |id: &str, name: &str| ProfileEntry { id: id.to_string(), name: name.to_string(), updated_at: "t".to_string() };
    let profiles = sort_profiles_by_name(&vec![profile("x", "Zeta"), profile("y", "alpha")]);
    assert_eq!(profiles[0].id, "y");
    let pack = |symbol: &str| SymbolPack {
        symbol: symbol.to_string(),
        data_path: String::new(),
        metadata_path: String::new(),
        m1_data_path: String::new(),
        m1_metadata_path: String::new(),
        quote_path: None,
        broker_path: String::new(),
        default_databank_path: String::new(),
        pack_root: String::new(),
    };
    let packs = sort_symbol_packs(&vec![pack("USDJPY"), pack("AUDUSD"), pack("EURUSD")]);
    let symbols: Vec<&str> = packs.iter().map(|p| p.symbol.as_str()).collect();
    assert_eq!(symbols, vec!["AUDUSD", "EURUSD", "USDJPY"]);
}

#[test]
fn fx_pack_files_and_companions() {
    assert_eq!(check_pack_directory(None, false), Ok(false));
    assert_eq!(check_pack_directory(Some(""), false), Ok(false));
    assert_eq!(check_pack_directory(Some("/p"), true), Ok(true));
    assert_eq!(
        check_pack_directory(Some("/p"), false),
        Err("pack data directory is not a directory: /p".to_string())
    );
    assert_eq!(
        pack_companions(&strings(&["AUDUSD", "eurusd", "GBPUSD"]), "EURUSD"),
        strings(&["AUDUSD", "GBPUSD"])
    );
    assert_eq!(broker_file_name("GBPUSD"), "GBPUSD.broker.json");
    assert!(timeframe_file_matches("icm_gbpusd_h1_2024.tsv", "GBPUSD", "H1"));
    assert!(!timeframe_file_matches("icm_gbpusd_h1_2024.json", "GBPUSD", "H1"));
    assert!(!timeframe_file_matches("icm_gbpusd_m1_2024.csv", "GBPUSD", "H1"));
    let names = strings(&["x_GBPUSD_H1_b.tsv", "notes.txt", "x_GBPUSD_H1_a.csv"]);
    assert_eq!(first_timeframe_file(&names, "GBPUSD", "H1"), Some(2));
    assert_eq!(first_timeframe_file(&names, "AUDUSD", "H1"), None);
    assert_eq!(metadata_beside("/p/x_GBPUSD_H1_a.csv"), "/p/x_GBPUSD_H1_a.metadata.csv");
    assert_eq!(pack_sample(false, true), SearchSample::Full);
    assert_eq!(pack_sample(true, true), SearchSample::Development);
    assert_eq!(pack_sample(true, false), SearchSample::Unsealed);
}

#[test]
fn holding_battery_records_each_attempt() {
    assert_eq!(
        check_holding_bypass(true, true, false, 3),
        Err("stop or finish the Holding battery before promoting Holding without robustness".to_string())
    );
    assert_eq!(
        check_holding_bypass(false, false, false, 3),
        Err("no databank is loaded — open the Discover checkpoint first".to_string())
    );
    assert_eq!(
        check_holding_bypass(false, true, true, 3),
        Err("Schema-v5 databanks are read-only. Run a fresh Discover archive before promoting Holding.".to_string())
    );
    assert_eq!(check_holding_bypass(false, true, false, 0), Err("Holding is empty".to_string()));
    assert_eq!(check_holding_bypass(false, true, false, 2), Ok(()));
    assert_eq!(archive_m1_binding(Some("/m1.tsv"), true), Ok("/m1.tsv".to_string()));
    assert_eq!(
        archive_m1_binding(None, true),
        Err("This archive does not bind an M1 source; cannot run the factory.".to_string())
    );
    assert_eq!(
        archive_m1_binding(None, false),
        Err("This archive does not bind an M1 source; cannot run Holding battery.".to_string())
    );
    let (id, phase, message) = factory_job_start(77);
    assert_eq!(id, "factory-77");
    assert_eq!(phase, "Preparing factory");
    assert_eq!(message, "Discover finished — ranking the current Holding cohort for the battery queue.");
    assert_eq!(battery_run_phase(true), "Running full battery audit");
    assert_eq!(battery_run_phase(false), "Running battery");
    let missing = battery_outcome(BatteryAttempt::NotInHolding);
    assert_eq!(
        missing,
        BatteryOutcome::Rejected { bucket: "other".to_string(), reason: "not in Holding".to_string() }
    );
    assert_eq!(outcome_status(&missing), "rejected");
    assert_eq!(
        battery_outcome(BatteryAttempt::Audited { passed: true, reason: None, graduated: 0 }),
        BatteryOutcome::Rejected {
            bucket: "other".to_string(),
            reason: "could not graduate audited Holding strategy".to_string()
        }
    );
    let audited = battery_outcome(BatteryAttempt::Audited { passed: false, reason: Some("mc".to_string()), graduated: 1 });
    assert_eq!(audited, BatteryOutcome::AuditedFailed(Some("mc".to_string())));
    assert_eq!(outcome_status(&audited), "audited_failed");
    assert_eq!(battery_outcome(BatteryAttempt::Promoting(Ok(()))), BatteryOutcome::Passed);
    assert_eq!(outcome_status(&BatteryOutcome::Passed), "passed");
    assert_eq!(
        battery_outcome(BatteryAttempt::Promoting(Err(("m1".to_string(), "retention".to_string())))),
        BatteryOutcome::Rejected { bucket: "m1".to_string(), reason: "retention".to_string() }
    );
    assert_eq!(promotion_sync_phase(4), "Promoted 4; syncing Databank");
}

#[test]
fn battery_csv_cells() {
    assert!(battery_csv_header().starts_with("status,strategy_id,fingerprint,evidence,trades,reason,"));
    assert_eq!(battery_csv_header().split(',').count(), 22);
    assert_eq!(csv_text_cell(Some("a,b,c")), "a;b;c");
    assert_eq!(csv_text_cell(None), "");
    assert_eq!(csv_count_cell(Some(12)), "12");
    assert_eq!(csv_count_cell(None), "");
    assert_eq!(join_csv_cells(&strings(&["passed", "s1", "", "3"])), "passed,s1,,3");
    assert_eq!(join_csv_cells(&vec![]), "");
}

#[test]
fn portable_bindings_prefer_the_stored_file_then_the_first_found_candidate() {
    assert_eq!(choose_portable_binding(true, &vec![true, true]), BindingChoice::Stored);
    assert_eq!(choose_portable_binding(false, &vec![false, true, true]), BindingChoice::Candidate(1));
    assert_eq!(choose_portable_binding(false, &vec![false, false]), BindingChoice::Stored);
    assert_eq!(choose_portable_binding(false, &vec![]), BindingChoice::Stored);
}

#[test]
fn full_run_curves_split_trades_and_points_at_partition_boundaries() {
    use_equity();
}

fn use_equity() {
    let entries = vec![5i64, 10, 15, 20, 25, 30];
    assert_eq!(trade_partition_counts(&entries, 12, 22, 28), (2, 2, 1));
    let stamps = vec![0i64, 10, 20, 30];
    assert_eq!(last_point_before(&stamps, 25), Some(2));
    assert_eq!(last_point_before(&stamps, 0), None);
    assert_eq!(boundary_anchor(&stamps, 15), Some(1));
    assert_eq!(boundary_anchor(&stamps, 0), Some(0));
    assert_eq!(boundary_anchor(&stamps, 99), None);
    assert_eq!(trade_rows_shown(5), 5);
    assert_eq!(trade_rows_shown(5000), 2000);
    assert_eq!(full_run_m1_source(Some("/m1")), Ok("/m1".to_string()));
    assert!(full_run_m1_source(None).unwrap_err().starts_with("This legacy databank does not bind its M1 source"));
}

#[test]
fn bakeoff_grids_and_floors() {
    assert_eq!(
        check_timeframe_bakeoff(3, 2, 1, 1, true),
        Err("timeframe bakeoff minimum grammar bounds must not exceed maximum bounds".to_string())
    );
    assert_eq!(
        check_timeframe_bakeoff(2, 3, 1, 2, false),
        Err("timeframe bakeoff requires a non-zero OOS1 reserve".to_string())
    );
    assert_eq!(check_timeframe_bakeoff(2, 3, 1, 2, true), Ok(()));
    assert_eq!(inclusive_range(2, 4), vec![2, 3, 4]);
    assert_eq!(inclusive_range(3, 3), vec![3]);
    assert!(inclusive_range(4, 3).is_empty());
    assert_eq!(at_least_one(0), 1);
    assert_eq!(at_least_one(7), 7);
    assert_eq!(condition_bakeoff_sizes(5), (20, 10));
    assert_eq!(condition_bakeoff_sizes(25), (25, 25));
    assert_eq!(condition_bakeoff_sizes(50), (50, 30));
}

#[test]
fn previews_and_vault_staging() {
    use_previews();
}

fn use_previews() {
    assert_eq!(check_source_preview(0, "H1"), Err(invalid("magic must be greater than zero")));
    assert_eq!(check_source_preview(7, " h1 "), Ok("H1".to_string()));
    assert_eq!(check_source_preview(7, "m15"), Ok("M15".to_string()));
    assert_eq!(
        check_source_preview(7, "H4"),
        Err(invalid("source preview timeframe must be M1, M15 or H1"))
    );
    assert!(check_vault_staging(true).unwrap_err().starts_with("Schema-v5 databanks are read-only in QuantForge v6."));
    assert_eq!(check_vault_staging(false), Ok(()));
    let (candidates, path) = vault_candidate_path("/vault", "ab:12/cd");
    assert_eq!(candidates, "/vault/candidates");
    assert_eq!(path, "/vault/candidates/ab_12_cd.ir.json");
    assert_eq!(
        check_vault_candidate(true, "/vault/candidates/x.ir.json"),
        Err("candidate already staged at /vault/candidates/x.ir.json; remove it before promoting again".to_string())
    );
    assert_eq!(check_vault_candidate(false, "x"), Ok(()));
    let elites = strings(&["e1", "e2"]);
    assert_eq!(resolve_databank_elites(None, &strings(&["e1"])), Err(DesktopError::NoDatabank));
    assert_eq!(resolve_databank_elites(Some(&elites), &strings(&["e2", "e1"])), Ok(vec![1, 0]));
    assert_eq!(
        resolve_databank_elites(Some(&elites), &strings(&["e2", "h1", "zz"])),
        Err(DesktopError::MissingElite("h1".to_string()))
    );
}
