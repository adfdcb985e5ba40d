use quantforge_desktop::data_lab::{skipped_route_view, MarketFileRoute};
use quantforge_desktop::evidence::{check_certification, check_validation_baseline};
use quantforge_desktop::discover::JobStatus;
use quantforge_desktop::production_lane::{lane_end_view, lane_promotion_detail, lane_stage_phase, LaneStage};
use quantforge_desktop::databank::companion_metadata_candidate_path;
use quantforge_desktop::assets::slug;
use quantforge_desktop::data_lab::TickColumns;
use quantforge_desktop::market_csv::{
    headerless_row_fields, parse_u64, read_market_table, tick_row_fields, tick_row_invalid,
};
use quantforge_desktop::probes::{first_existing_candidate, first_set_index, least_free_suffix};

fn strings(values: &[&str]) -> Vec<String> {
    values.iter().map(|value| value.to_string()).collect()
}

#[test]
fn the_first_existing_candidate_wins() {
    let candidates = strings(&["a", "b", "c"]);
    assert_eq!(first_existing_candidate(&candidates, &vec![false, true, true]), Some("b".to_string()));
    assert_eq!(first_existing_candidate(&candidates, &vec![true, true, true]), Some("a".to_string()));
    assert_eq!(first_existing_candidate(&candidates, &vec![false, false, false]), None);
    assert_eq!(first_set_index(&vec![false, false, true]), Some(2));
    assert_eq!(first_set_index(&Vec::new()), None);
}

#[test]
fn the_least_free_suffix_is_chosen() {
    assert_eq!(least_free_suffix(&vec![false]), Some(1));
    assert_eq!(least_free_suffix(&vec![true, true, false]), Some(3));
    assert_eq!(least_free_suffix(&vec![true, false, false]), Some(2));
    assert_eq!(least_free_suffix(&vec![true, true]), None);
    assert_eq!(least_free_suffix(&Vec::new()), None);
}

#[test]
fn unsigned_numbers_parse_as_std_does() {
    for text in ["0", "7", "+12", "18446744073709551615", "", "+", "-1", "1.5", " 3", "18446744073709551616", "00042"] {
        assert_eq!(parse_u64(text), text.parse::<u64>().ok(), "{text}");
    }
}

#[test]
fn market_tables_split_header_and_rows() {
    let table = read_market_table(b"Date,Time,Bid,Ask,Volume\n2024.01.02, 00:00:01 ,1.1,1.2,3\n2024.01.02,00:00:02,1.1\n")
        .expect("readable CSV");
    assert_eq!(table.delimiter, b',');
    assert_eq!(table.header, strings(&["Date", "Time", "Bid", "Ask", "Volume"]));
    assert_eq!(table.rows.len(), 2);
    assert_eq!(table.rows[0][1], "00:00:01");
    assert!(table.row_error.is_none());
    assert_eq!(read_market_table(b"").err(), Some("CSV is empty".to_string()));
    let tab = read_market_table(b"a\tb\n1\t2\n").expect("tab separated");
    assert_eq!(tab.delimiter, b'\t');
    let columns = TickColumns::from_headers(&table.header).expect("tick layout");
    let fields = tick_row_fields(&table.rows[0], columns, 0).expect("row fields");
    assert_eq!(fields.timestamp, "2024.01.02 00:00:01");
    assert_eq!(fields.bid.as_deref(), Some("1.1"));
    assert_eq!(fields.ask.as_deref(), Some("1.2"));
    assert_eq!(fields.volume, 3);
    let short = tick_row_fields(&table.rows[1], columns, 1).expect("timestamp present");
    assert_eq!(short.ask, None);
    assert_eq!(short.volume, 1);
    assert_eq!(tick_row_invalid(4, "bad utf-8"), "tick row 6 is invalid: bad utf-8");
}

#[test]
fn headerless_rows_give_their_fields() {
    let row = strings(&["2024.01.02", "00:01", "1.1", "1.2", "1.0", "1.15", "42"]);
    let fields = headerless_row_fields(&row, 0).expect("six fields");
    assert_eq!(fields.timestamp, "2024.01.02 00:01");
    assert_eq!((fields.open.as_str(), fields.close.as_str()), ("1.1", "1.15"));
    assert_eq!(fields.tick_volume, 42);
    let no_volume = strings(&["2024.01.02", "00:01", "1.1", "1.2", "1.0", "1.15"]);
    assert_eq!(headerless_row_fields(&no_volume, 0).expect("six fields").tick_volume, 0);
    assert_eq!(
        headerless_row_fields(&strings(&["a", "b"]), 2).err(),
        Some("OHLC row 3 has fewer than six fields".to_string())
    );
}

#[test]
fn slugs_are_idempotent() {
    for value in ["  EUR/USD  Main ", "---", "Gold_2024", "eur-usd-main"] {
        let once = slug(value);
        assert_eq!(slug(&once), once);
    }
    assert_eq!(slug("  EUR/USD  Main "), "eur-usd-main");
    assert_eq!(slug("  EUR/USD  Main ").replace('-', ""), "eurusdmain");
    assert_eq!(slug("--/--"), "asset");
}

#[test]
fn skip_routes_are_reported_with_their_kind_and_reason() {
    let databento = skipped_route_view("a.csv".into(), None, MarketFileRoute::SkipDatabento).expect("skipped");
    assert_eq!((databento.kind.as_str(), databento.status.as_str()), ("unsupported", "skipped"));
    assert_eq!(databento.message.as_deref(), Some("Databento multi-symbol OHLCV export"));
    let ticks = skipped_route_view("t.csv".into(), Some("EURUSD".into()), MarketFileRoute::SkipTicksDisabled).expect("skipped");
    assert_eq!(ticks.kind, "tick");
    assert_eq!(ticks.message.as_deref(), Some("tick aggregation is disabled"));
    assert_eq!(ticks.symbol.as_deref(), Some("EURUSD"));
    let unknown = skipped_route_view("u.csv".into(), None, MarketFileRoute::SkipUnknown).expect("skipped");
    assert_eq!(unknown.kind, "unknown");
    assert_eq!(unknown.message.as_deref(), Some("header is not an OHLC or IC Markets tick export"));
    assert!(skipped_route_view("o.csv".into(), None, MarketFileRoute::Ohlc).is_none());
    assert!(skipped_route_view("h.csv".into(), None, MarketFileRoute::Headerless).is_none());
}

#[test]
fn evidence_needs_a_passed_baseline_and_certification() {
    assert_eq!(check_validation_baseline(true), Ok(()));
    assert_eq!(check_validation_baseline(false), Err("Challenge validation baseline did not pass".to_string()));
    assert_eq!(check_certification(true, "[]"), Ok(()));
    assert_eq!(
        check_certification(false, "[\"parity\"]"),
        Err("assembled evidence failed certification: [\"parity\"]".to_string())
    );
}

#[test]
fn production_lane_stages_and_endings_have_fixed_texts() {
    assert_eq!(lane_stage_phase(LaneStage::VerifyingDevelopment).0, "Verifying H4 Development data");
    assert_eq!(lane_stage_phase(LaneStage::Replaying).0, "Replaying frozen H4 cohort on Development M1");
    assert_eq!(lane_stage_phase(LaneStage::Selecting).0, "Selecting Production Lane cohort");
    let stopped = lane_end_view(true, None);
    assert_eq!(stopped.0, JobStatus::Stopped);
    assert_eq!(stopped.1, "Production Lane stopped safely");
    assert_eq!(stopped.2, "No selection was made and no Holding strategy was promoted.");
    let failed = lane_end_view(false, Some("disk full".into()));
    assert_eq!((failed.0, failed.1.as_str(), failed.2.as_str()), (JobStatus::Failed, "Production Lane stopped with an error", "disk full"));
    assert_eq!(
        lane_promotion_detail("expectancy × √trades"),
        "Selected using H4 Development only: 6/12-month stability and expectancy × √trades. Sealed final was not opened."
    );
}

#[test]
fn the_companion_metadata_candidate_replaces_the_extension() {
    assert_eq!(companion_metadata_candidate_path("/d/AUDUSD_H1.tsv"), "/d/AUDUSD_H1.metadata.csv");
    assert_eq!(companion_metadata_candidate_path("/d/AUDUSD_H1"), "/d/AUDUSD_H1.metadata.csv");
}
