use quantforge_desktop::assets::{
    broker_file_symbol, data_pack_candidates, default_databank_path, delete_asset, delete_profile_entry,
    infer_pack_quote_path, preferred_pack_file, pack_file_matches, quantforge_runs_root, resolve_data_pack_root,
    save_profile_entry, slug, str_less, upsert_asset, upsert_asset_in, validate_asset, AssetProfile, ProfileEntry,
};
use std::path::{Path, PathBuf};

fn asset(id: &str, name: &str) -> AssetProfile {
    AssetProfile {
        id: id.into(),
        name: name.into(),
        data_path: "/p/EURUSD_H1.tsv".into(),
        metadata_path: None,
        source_timezone: Some("UTC".into()),
        m1_data_path: None,
        m1_metadata_path: None,
        m1_source_timezone: None,
        broker_path: "/p/EURUSD.broker.json".into(),
        updated_at: String::new(),
    }
}

#[test]
fn slugs_are_lowercase_and_dash_separated() {
    assert_eq!(slug("  EUR/USD -- H1 "), "eur-usd-h1");
    assert_eq!(slug("***"), "asset");
    assert_eq!(slug("Gold"), "gold");
}

#[test]
fn assets_need_a_name_a_decision_path_and_a_broker() {
    assert_eq!(validate_asset(&asset("", " ")), Err("asset name is required".to_string()));
    let mut no_data = asset("", "Gold");
    no_data.data_path = String::new();
    assert_eq!(validate_asset(&no_data), Err("decision OHLC path is required".to_string()));
    let mut no_broker = asset("", "Gold");
    no_broker.broker_path = " ".into();
    assert_eq!(validate_asset(&no_broker), Err("broker profile path is required".to_string()));
    assert_eq!(validate_asset(&asset("", "Gold")), Ok(()));
}

#[test]
fn saving_an_asset_replaces_by_id_or_name() {
    let mut library = Vec::new();
    upsert_asset_in(&mut library, asset("", " EUR Major "), "t1".into(), 1700).unwrap();
    assert_eq!(library[0].id, "eur-major-1700");
    assert_eq!(library[0].name, "EUR Major");
    assert_eq!(library[0].updated_at, "t1");
    upsert_asset_in(&mut library, asset("other", "eur major"), "t2".into(), 1800).unwrap();
    assert_eq!(library.len(), 1);
    assert_eq!(library[0].id, "eur-major-1700");
    assert_eq!(library[0].updated_at, "t2");
    upsert_asset_in(&mut library, asset("gold", "Gold"), "t3".into(), 1900).unwrap();
    assert_eq!(library.len(), 2);
    assert!(upsert_asset_in(&mut library, asset("x", ""), "t4".into(), 2000).is_err());
    assert_eq!(library.len(), 2);
    upsert_asset(&mut library, asset("gold", "Gold")).unwrap();
    assert_eq!(library.len(), 2);
}

#[test]
fn deleting_an_unknown_asset_is_refused() {
    let mut library = vec![asset("a", "A"), asset("b", "B")];
    assert_eq!(delete_asset(&mut library, "c"), Err("asset `c` was not found".to_string()));
    assert_eq!(library.len(), 2);
    delete_asset(&mut library, "a").unwrap();
    assert_eq!(library.len(), 1);
    assert_eq!(library[0].id, "b");
}

#[test]
fn profiles_are_saved_by_id_and_deleted_by_id() {
    let mut profiles: Vec<ProfileEntry> = Vec::new();
    assert_eq!(
        save_profile_entry(&mut profiles, "", " ", "range-", "profile name is required", "t".into(), 5),
        Err("profile name is required".to_string())
    );
    let slot = save_profile_entry(&mut profiles, "", " Fast ", "range-", "profile name is required", "t".into(), 5).unwrap();
    assert_eq!(slot, 0);
    assert_eq!(profiles[0].id, "range-5");
    assert_eq!(profiles[0].name, "Fast");
    let again = save_profile_entry(&mut profiles, "range-5", "Faster", "range-", "profile name is required", "u".into(), 6).unwrap();
    assert_eq!(again, 0);
    assert_eq!(profiles.len(), 1);
    assert_eq!(delete_profile_entry(&profiles, "nope", "search profile was not found"), Err("search profile was not found".to_string()));
    assert_eq!(delete_profile_entry(&profiles, "range-5", "search profile was not found"), Ok(Vec::new()));
}

#[test]
fn pack_files_are_matched_and_the_2016_pack_chosen() {
    assert!(pack_file_matches("ICMarketsSC-Demo_EURUSD_H1_2016_present.tsv", "EURUSD", "H1"));
    assert!(!pack_file_matches("ICMarketsSC-Demo_EURUSD_M1_2016_present.tsv", "EURUSD", "H1"));
    let names = vec![
        "ICMarketsSC-Demo_EURUSD_H1_2016_present.tsv".to_string(),
        "ICMarketsSC-Demo_EURUSD_H1_2020_present.tsv".to_string(),
        "notes.txt".to_string(),
    ];
    assert_eq!(preferred_pack_file(&names, "EURUSD", "H1"), Some(0));
    let reversed = vec![names[1].clone(), names[0].clone()];
    assert_eq!(preferred_pack_file(&reversed, "EURUSD", "H1"), Some(1));
    assert_eq!(preferred_pack_file(&names, "GBPUSD", "H1"), None);
    assert!(str_less("abc", "abd"));
    assert!(str_less("ab", "abc"));
    assert!(!str_less("b", "abc"));
    assert_eq!(broker_file_symbol("EURUSD.broker.json"), Some("EURUSD".to_string()));
    assert_eq!(broker_file_symbol(".broker.json"), None);
    assert_eq!(broker_file_symbol("EURUSD.json"), None);
}

#[test]
fn pack_locations_follow_the_documented_order() {
    let candidates = data_pack_candidates(Some("/override"), Some("/home/me"), Some("/work"));
    assert_eq!(candidates.len(), 9);
    assert_eq!(candidates[0], "/override");
    assert_eq!(candidates[1], "/home/me/Documents/QuantForge/ICMarkets_EST7_2016_present");
    assert_eq!(candidates[4], "/work/../ICMarkets_EST7_2016_present");
    assert_eq!(default_databank_path("/runs", "EURUSD"), "/runs/EURUSD/Databank/quantforge-databank.json");
    assert_eq!(quantforge_runs_root(None), "runs");
    let missing = resolve_data_pack_root(Some("/definitely/not/here"), None, None);
    assert!(missing.unwrap_err().starts_with("data pack not found"));
}

#[test]
fn pack_quote_sidecars_sit_beside_the_m1_file() {
    let directory = tempfile::tempdir().expect("temp directory");
    let m1 = directory.path().join("ICMarketsSC-Demo_EURUSD_M1_2020_present.tsv");
    assert_eq!(infer_pack_quote_path(m1.to_str().unwrap()), None);
    let quotes = directory.path().join("ICMarketsSC-Demo_EURUSD_M1_2020_present.quotes.csv");
    touch(&quotes);
    assert_eq!(infer_pack_quote_path(m1.to_str().unwrap()), Some(quotes.display().to_string()));
}


fn touch(path: &Path) -> PathBuf {
    tempfile::Builder::new()
        .prefix(path.file_name().expect("file name"))
        .rand_bytes(0)
        .disable_cleanup(true)
        .tempfile_in(path.parent().expect("parent folder"))
        .expect("fixture file")
        .path()
        .to_path_buf()
}
