use quantforge_desktop::data_lab::{
    bar_time_range, classify_feed, default_import_directory, default_true, detect_market_delimiter,
    failed_view, is_market_file, normalize_market_header, ohlc_interval, readiness, requested_output_directory,
    route_market_file, skipped_view, summarize_folder_import, symbol_from_headers, symbol_from_path,
    tick_timestamp, timezone_authority, unique_import_stem, unsupported_interval_message, FeedMode,
    MarketFileRoute, OhlcInterval, TickColumns, TimezoneAuthority,
};
use std::path::{Path, PathBuf};

fn strings(values: &[&str]) -> Vec<String> {
    values.iter().map(|value| value.to_string()).collect()
}

#[test]
fn inspection_requires_one_timezone_authority() {
    let error = timezone_authority(false, false).err().expect("missing timezone authority must fail");
    assert!(error.contains("exactly one metadata file or source timezone"));
    assert!(timezone_authority(true, true).is_err());
    assert_eq!(timezone_authority(true, false), Ok(TimezoneAuthority::Metadata));
    assert_eq!(timezone_authority(false, true), Ok(TimezoneAuthority::Explicit));
}

#[test]
fn delimiters_are_detected_on_the_first_non_empty_line() {
    assert_eq!(detect_market_delimiter(b"\r\n\na,b;c;d\n1,2"), Ok(b';'));
    assert_eq!(detect_market_delimiter(b"a\tb,c"), Ok(b'\t'));
    assert_eq!(detect_market_delimiter(b"a,b,c\td"), Ok(b','));
    assert_eq!(detect_market_delimiter(b"\n\r\n"), Err("CSV is empty".to_string()));
    assert_eq!(detect_market_delimiter(b"abc\n1,2"), Err("could not detect CSV delimiter".to_string()));
}

#[test]
fn headers_are_normalised_before_classification() {
    assert_eq!(normalize_market_header("  <tick volume> "), "TICK_VOLUME");
    assert_eq!(normalize_market_header("date-time"), "DATE_TIME");
    assert_eq!(symbol_from_headers(&strings(&["Symbol"])), None);
}

#[test]
fn tick_exports_are_recognised_by_their_columns() {
    let columns = TickColumns::from_headers(&strings(&["Time", "Ask", "Bid", "Volume"])).expect("tick layout");
    assert_eq!(columns.timestamp, Some(0));
    assert_eq!((columns.ask, columns.bid, columns.volume), (1, 2, Some(3)));
    let split = TickColumns::from_headers(&strings(&["<DATE>", "<TIME>", "<BID>", "<ASK>"])).expect("date and time");
    assert_eq!((split.date, split.time, split.timestamp), (Some(0), Some(1), None));
    assert_eq!(TickColumns::from_headers(&strings(&["Date", "Ask", "Bid"])), None);
    assert_eq!(TickColumns::from_headers(&strings(&["Time", "Bid"])), None);
}

#[test]
fn tick_timestamps_join_date_and_time() {
    let columns = TickColumns { date: Some(0), time: Some(1), timestamp: None, ask: 2, bid: 3, volume: None };
    assert_eq!(tick_timestamp(&strings(&["2020.01.02", "00:00:01", "1", "1"]), columns, 2), Ok("2020.01.02 00:00:01".to_string()));
    assert_eq!(tick_timestamp(&strings(&["2020.01.02"]), columns, 7), Err("tick row 7 is short".to_string()));
    let no_date = TickColumns { date: None, ..columns };
    assert_eq!(tick_timestamp(&strings(&["x"]), no_date, 3), Err("tick row 3 has no date".to_string()));
}

#[test]
fn files_are_routed_in_the_importers_order() {
    assert_eq!(route_market_file(&strings(&["rtype", "publisher_id", "open"]), true, false), MarketFileRoute::SkipDatabento);
    assert_eq!(route_market_file(&strings(&["Time", "Ask", "Bid"]), false, false), MarketFileRoute::SkipTicksDisabled);
    assert!(matches!(route_market_file(&strings(&["Time", "Ask", "Bid"]), true, false), MarketFileRoute::Ticks(_)));
    assert_eq!(route_market_file(&strings(&["2000.05.30", "17:27", "0.93", "0.93", "0.93", "0.93"]), true, true), MarketFileRoute::Headerless);
    assert_eq!(route_market_file(&strings(&["Date", "Open", "High", "Low", "Close"]), true, false), MarketFileRoute::Ohlc);
    assert_eq!(route_market_file(&strings(&["Ticket", "Profit"]), true, false), MarketFileRoute::SkipUnknown);
    assert_eq!(ohlc_interval(60_000), OhlcInterval::M1);
    assert_eq!(ohlc_interval(3_600_000), OhlcInterval::H1);
    assert_eq!(ohlc_interval(900_000), OhlcInterval::Unsupported);
    assert_eq!(unsupported_interval_message(900_000), "unsupported source interval: 900000ms");
}

#[test]
fn symbols_come_from_the_file_name() {
    assert_eq!(symbol_from_path("/data/EURUSD_TickData.csv"), Some("EURUSD".to_string()));
    assert_eq!(symbol_from_path("/data/DAT_MT_EURUSD_M1_2000.csv"), Some("EURUSD".to_string()));
    assert_eq!(symbol_from_path("/data/nas100_m1.csv"), Some("NAS100".to_string()));
    assert_eq!(symbol_from_path("/data/xyz_1.csv"), Some("XYZ".to_string()));
    assert_eq!(symbol_from_path("/data/ab.csv"), None);
}

#[test]
fn import_stems_never_collide_with_existing_packs() {
    let directory = tempfile::tempdir().expect("temp directory");
    let out = directory.path().display().to_string();
    assert_eq!(unique_import_stem(&out, "EUR/USD"), "EURUSD");
    touch(&directory.path().join("EURUSD_M1.csv"));
    assert_eq!(unique_import_stem(&out, "EUR/USD"), "EURUSD_2");
    touch(&directory.path().join("EURUSD_2_H1.csv"));
    assert_eq!(unique_import_stem(&out, "EURUSD"), "EURUSD_3");
}

#[test]
fn feeds_are_classified_from_their_metadata() {
    assert_eq!(classify_feed(Some("BID"), Some("tick_bid_ask")), (FeedMode::CanonicalBidAsk, false));
    assert_eq!(classify_feed(Some("midpoint"), None), (FeedMode::DiagnosticMidpoint, true));
    assert_eq!(classify_feed(None, Some("Aggregated_MIDPOINT")), (FeedMode::DiagnosticMidpoint, true));
    assert_eq!(classify_feed(Some("bid"), Some("ohlc")), (FeedMode::LegacyOhlc, false));
    assert_eq!(FeedMode::CanonicalBidAsk.name(), "canonical_bid_ask");
    assert_eq!(readiness(FeedMode::CanonicalBidAsk, false, true, true, false), (true, true));
    assert_eq!(readiness(FeedMode::DiagnosticMidpoint, true, true, true, false), (false, false));
}

#[test]
fn folder_reports_count_every_file_once() {
    let imported = skipped_view("a.csv".into(), None, "ohlc", "x");
    let mut done = imported.clone();
    done.status = "imported".into();
    let failed = failed_view("b.csv".into(), Some("EURUSD".into()), "cannot read source".into());
    assert_eq!(failed.status, "error");
    assert_eq!(imported.status, "skipped");
    let report = summarize_folder_import("src".into(), "out".into(), "UTC".into(), vec![done, imported, failed]);
    assert_eq!((report.imported_count, report.skipped_count), (1, 2));
}

#[test]
fn output_folders_default_under_documents() {
    assert_eq!(requested_output_directory(Some("  ")), None);
    assert_eq!(requested_output_directory(Some("/out")), Some("/out".to_string()));
    assert_eq!(default_import_directory(Some("/home/me"), "20240101-000000"), "/home/me/Documents/QuantForge/imported-data/20240101-000000");
    assert_eq!(default_import_directory(None, "s"), "./Documents/QuantForge/imported-data/s");
    assert!(default_true());
    assert!(is_market_file("/x/a.TSV"));
    assert!(!is_market_file("/x/a.json"));
    assert_eq!(bar_time_range(&vec![5, 9, 12]), Ok((5, 12)));
    assert_eq!(bar_time_range(&Vec::new()), Err("data source contains no bars".to_string()));
}


fn touch(path: &Path) -> PathBuf {
    tempfile::Builder::new()
        .prefix(path.file_name().expect("file name"))
        .rand_bytes(0)
        .disable_cleanup(true)
        .tempfile_in(path.parent().expect("parent folder"))
        .expect("fixture file")
        .path()
        .to_path_buf()
}
