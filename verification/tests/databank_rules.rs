use quantforge_desktop::archive_paths::infer_quote_sidecar_path;
use quantforge_desktop::databank::{
    companion_metadata_path, coverage_condition_groups, format_duration, is_legacy_archive, legacy_niche_label,
    portable_binding_candidates, resolve_portable_binding, robustness_depth, robustness_reject_detail,
    safe_file_stem, selection_bias, unique_niche_count, verify_legacy_raw_bindings, verify_legacy_raw_coverage,
    CoverageMember, DesktopError, LegacyEntry, LegacyNiche, LongShortSkewBucket, NicheKey, ResultsRobustnessMode,
    RobustnessReject, RobustnessSettings, ThreeLevelBucket,
};
use std::path::{Path, PathBuf};

#[test]
fn selection_bias_warning_is_unavoidable_and_thresholded() {
    assert_eq!(selection_bias(1_500).level, "recorded");
    assert_eq!(selection_bias(1_501).level, "elevated");
    assert_eq!(selection_bias(10_001).level, "high");
    assert_eq!(selection_bias(10_001).evaluation_count, 10_001);
}

#[test]
fn robustness_depth_preserves_standard_and_only_raises_deep_compute() {
    let config = RobustnessSettings { folds: 3, monte_carlo_trials: 250, neighborhood_samples: 8 };
    assert_eq!(robustness_depth(&config, ResultsRobustnessMode::Standard), (3, 250, 8));
    assert_eq!(robustness_depth(&config, ResultsRobustnessMode::Deep), (12, 5_000, 400));
}

#[test]
fn deep_robustness_keeps_larger_archived_settings() {
    let config = RobustnessSettings { folds: 20, monte_carlo_trials: 9_000, neighborhood_samples: 100 };
    assert_eq!(robustness_depth(&config, ResultsRobustnessMode::Deep), (20, 9_000, 400));
}

#[test]
fn batch_export_file_stems_are_portable_and_non_empty() {
    assert_eq!(safe_file_stem("trend/AUDUSD:one"), "trend_AUDUSD_one");
    assert_eq!(safe_file_stem(""), "strategy");
}

#[test]
fn portable_binding_recovers_a_windows_vps_path_without_editing_the_archive() {
    let root = tempfile::tempdir().expect("temporary directory");
    let pack = root.path().join("ICMarkets_EST7_2020_present");
    mkdir(&pack);
    let local = pack.join("BTCUSD_M1.tsv");
    touch(&local);
    let archive = root.path().join("runs").join("btc-databank.json");
    assert_eq!(
        resolve_portable_binding(
            r"\\?\C:\Users\Administrator\Documents\QuantForge\ICMarkets_EST7_2020_present\BTCUSD_M1.tsv",
            &archive.display().to_string(),
        ),
        local.canonicalize().unwrap().display().to_string(),
    );
}

#[test]
fn portable_binding_candidates_walk_five_ancestors() {
    let candidates = portable_binding_candidates(r"C:\data\pack\EURUSD.tsv", "/a/b/c/d/e/f/bank.json").unwrap();
    assert_eq!(candidates.len(), 10);
    assert_eq!(candidates[0], "/a/b/c/d/e/f/EURUSD.tsv");
    assert_eq!(candidates[1], "/a/b/c/d/e/f/pack/EURUSD.tsv");
    assert_eq!(candidates[9], "/a/b/pack/EURUSD.tsv");
    assert_eq!(portable_binding_candidates(r"\\?\", "/a/bank.json"), None);
    assert_eq!(resolve_portable_binding("//", "/a/bank.json"), "//");
}

#[test]
fn sqx_duration_and_decimal_formatting_are_compact() {
    assert_eq!(format_duration((18 * 3_600 + 45 * 60) * 1_000), "18h 45m");
    assert_eq!(format_duration(40_000), "40s");
}

#[test]
fn durations_show_days_and_clamp_negative_values() {
    assert_eq!(format_duration(-5), "0s");
    assert_eq!(format_duration((2 * 86_400 + 7) * 1_000), "2d 7s");
    assert_eq!(format_duration(60_000), "1m");
}

#[test]
fn companion_metadata_uses_the_exporter_naming_convention() {
    let directory = tempfile::tempdir().expect("temporary directory");
    let data = directory.path().join("AUDUSD_H1.tsv");
    let metadata = directory.path().join("AUDUSD_H1.metadata.csv");
    touch(&metadata);
    assert_eq!(
        companion_metadata_path(data.to_str().expect("UTF-8 path")),
        Some(metadata.canonicalize().unwrap().display().to_string())
    );
    let other = directory.path().join("EURUSD_H1.tsv");
    assert_eq!(companion_metadata_path(other.to_str().unwrap()), None);
}

#[test]
fn results_sidecar_is_found_for_h1_and_m15_packs_only() {
    let directory = tempfile::tempdir().expect("temporary directory");
    touch(&directory.path().join("EURUSD_M1.quotes.csv"));
    let h1 = directory.path().join("EURUSD_H1.tsv");
    assert_eq!(
        infer_quote_sidecar_path(h1.to_str().unwrap()),
        Some(directory.path().join("EURUSD_M1.quotes.csv").display().to_string())
    );
    let h4 = directory.path().join("EURUSD_H4.tsv");
    assert_eq!(infer_quote_sidecar_path(h4.to_str().unwrap()), None);
}

fn niche(level: ThreeLevelBucket) -> NicheKey {
    NicheKey {
        entry_conditions: 2,
        trade_frequency: level,
        hold_time: ThreeLevelBucket::Medium,
        drawdown: ThreeLevelBucket::Medium,
        win_rate: ThreeLevelBucket::Medium,
        long_short_skew: LongShortSkewBucket::Balanced,
    }
}

#[test]
fn coverage_surface_contains_every_niche_once() {
    let groups = coverage_condition_groups(&Vec::new());
    assert_eq!(groups.len(), 3);
    assert_eq!(groups.iter().map(|group| group.total).sum::<usize>(), 729);
    assert!(groups.iter().all(|group| group.occupied == 0));
    assert_eq!(groups[1].label, "3 entry conditions");
}

#[test]
fn coverage_surface_groups_stacked_strategies_by_actual_niche() {
    let weak = CoverageMember { niche: niche(ThreeLevelBucket::Medium), fingerprint: "weak".into(), strength: 2 };
    let strong = CoverageMember { niche: niche(ThreeLevelBucket::Medium), fingerprint: "strong".into(), strength: 9 };
    assert_eq!(unique_niche_count(&vec![weak.niche, strong.niche]), 1);
    let groups = coverage_condition_groups(&vec![weak, strong]);
    let occupied: Vec<_> = groups.iter().flat_map(|group| &group.cells).filter(|cell| cell.occupied).collect();
    assert_eq!(occupied.len(), 1);
    assert_eq!(occupied[0].fingerprint.as_deref(), Some("strong"));
}

#[test]
fn unique_niches_count_each_niche_once() {
    let niches = vec![niche(ThreeLevelBucket::Low), niche(ThreeLevelBucket::High), niche(ThreeLevelBucket::Low)];
    assert_eq!(unique_niche_count(&niches), 2);
}

#[test]
fn robustness_refusals_have_stable_codes() {
    assert_eq!(robustness_reject_detail(RobustnessReject::Cpcv).0, "cpcv");
    assert_eq!(robustness_reject_detail(RobustnessReject::ParamNeighborhood).0, "parameter_neighborhood");
}

fn legacy_niche() -> LegacyNiche {
    LegacyNiche {
        family: Some("mean_reversion".into()),
        trade_frequency: Some("low".into()),
        hold_time: Some("medium".into()),
        drawdown: Some("high".into()),
        win_rate: Some("low".into()),
        long_short_skew: Some("long_heavy".into()),
    }
}

#[test]
fn legacy_archives_are_recognised_and_their_niches_labelled() {
    assert!(is_legacy_archive(Some(5), Some("search-families-v5-selected-tf-parity")));
    assert!(!is_legacy_archive(Some(6), Some("search-families-v5-selected-tf-parity")));
    assert_eq!(legacy_niche_label(&legacy_niche()).unwrap(), "meanreversion/low/medium/high/low/longheavy");
    let mut missing = legacy_niche();
    missing.hold_time = None;
    missing.win_rate = None;
    assert_eq!(
        legacy_niche_label(&missing),
        Err(DesktopError::InvalidArtifact("legacy niche is missing hold_time".into()))
    );
}

#[test]
fn legacy_coverage_must_bind_every_unique_fingerprint() {
    let entry = |fingerprint: &str| LegacyEntry { structural_fingerprint: Some(fingerprint.into()), niche: Some(legacy_niche()) };
    let entries = vec![entry("a")];
    let coverage = vec![("meanreversion/low/medium/high/low/longheavy".to_string(), Some("a".to_string()))];
    assert_eq!(verify_legacy_raw_coverage(Some(&entries), Some(&coverage), "elites", "coverage_map", true), Ok(()));
    let by_fingerprint = vec![("a".to_string(), Some("a".to_string()))];
    assert_eq!(verify_legacy_raw_coverage(Some(&entries), Some(&by_fingerprint), "accepted_pool", "accepted_coverage_map", false), Ok(()));
    let twice = vec![entry("a"), entry("a")];
    let two = vec![("a".to_string(), Some("a".to_string())), ("y".to_string(), None)];
    assert_eq!(
        verify_legacy_raw_coverage(Some(&twice), Some(&two), "accepted_pool", "accepted_coverage_map", false),
        Err(DesktopError::InvalidArtifact("legacy accepted_pool contains a duplicate fingerprint".into()))
    );
    assert_eq!(
        verify_legacy_raw_coverage(Some(&entries), Some(&two), "elites", "coverage_map", true),
        Err(DesktopError::InvalidArtifact("legacy elites and coverage_map sizes differ".into()))
    );
    let unbound = vec![("a".to_string(), Some("b".to_string()))];
    assert_eq!(
        verify_legacy_raw_coverage(Some(&entries), Some(&unbound), "accepted_pool", "accepted_coverage_map", false),
        Err(DesktopError::InvalidArtifact("legacy accepted_coverage_map does not bind a".into()))
    );
    assert_eq!(
        verify_legacy_raw_coverage(None, Some(&unbound), "elites", "coverage_map", true),
        Err(DesktopError::InvalidArtifact("legacy databank is missing elites".into()))
    );
    assert_eq!(
        verify_legacy_raw_bindings(false, Some(&entries), Some(&coverage), Some(&entries), Some(&by_fingerprint)),
        Err(DesktopError::InvalidArtifact("legacy manifest and databank configs do not match".into()))
    );
    assert_eq!(verify_legacy_raw_bindings(true, Some(&entries), Some(&coverage), Some(&entries), Some(&by_fingerprint)), Ok(()));
}

#[test]
fn databank_errors_read_as_sentences() {
    assert_eq!(DesktopError::NoDatabank.message(), "no databank is loaded");
    assert_eq!(DesktopError::MissingElite("abc".into()).message(), "elite abc is not present in the loaded databank");
}



fn touch(path: &Path) -> PathBuf {
    tempfile::Builder::new()
        .prefix(path.file_name().expect("file name"))
        .rand_bytes(0)
        .disable_cleanup(true)
        .tempfile_in(path.parent().expect("parent folder"))
        .expect("fixture file")
        .path()
        .to_path_buf()
}

fn mkdir(path: &Path) -> PathBuf {
    tempfile::Builder::new()
        .prefix(path.file_name().expect("folder name"))
        .rand_bytes(0)
        .disable_cleanup(true)
        .tempdir_in(path.parent().expect("parent folder"))
        .expect("fixture folder")
        .path()
        .to_path_buf()
}
