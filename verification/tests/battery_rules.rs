use quantforge_desktop::battery::{
    battery_is_busy, battery_log_paths, battery_start_message, battery_start_phase, battery_tick,
    check_battery_start, csv_cell_bool, finished_phase, finished_status, funnel_message, funnel_opening_message,
    mark_item, optional_positive, plan_battery_queue, progress_message, progress_phase, running_counts,
    stop_battery, BatteryKillMix, BatteryLedger, BatteryOutcome, HoldingEntry,
};

#[test]
fn each_kill_lands_in_exactly_one_bucket() {
    let mut mix = BatteryKillMix::default();
    mix.bump("monte_carlo");
    mix.bump("clone");
    mix.bump("mystery");
    assert_eq!((mix.monte_carlo, mix.clone, mix.other), (1, 1, 1));
    assert_eq!(mix.neighborhood + mix.folds + mix.m1 + mix.deposit, 0);
}

#[test]
fn the_ledger_splits_completions_into_passes_and_rejections() {
    let mut ledger = BatteryLedger::new(3);
    ledger.record(&BatteryOutcome::Passed);
    ledger.record(&BatteryOutcome::AuditedFailed(Some("folds".into())));
    ledger.record(&BatteryOutcome::Rejected { bucket: "neighborhood".into(), reason: "flat".into() });
    assert_eq!((ledger.completed, ledger.passed, ledger.rejected), (3, 1, 2));
    assert_eq!(ledger.kill_mix.neighborhood, 1);
}

#[test]
fn the_battery_finishes_on_exhaustion_stop_or_target() {
    let running = battery_tick(1, 3, false, None, 0);
    assert!(!running.finished);
    assert_eq!((running.queued, running.running), (1, 1));
    assert!(battery_tick(3, 3, false, None, 0).finished);
    assert!(battery_tick(1, 3, true, None, 0).finished);
    let target = battery_tick(1, 3, false, Some(10), 10);
    assert!(target.finished && target.target_hit);
    assert_eq!(finished_status(true), "stopped");
    assert_eq!(finished_phase(false, true), "Databank target reached");
    assert_eq!(progress_phase(true, 2, 5), "Audit 2/5");
}

#[test]
fn funnel_messages_report_the_kill_mix() {
    let mut mix = BatteryKillMix::default();
    mix.bump("deposit");
    mix.bump("oos1");
    let text = funnel_message(10, 8, &mix, 3, 2, 5, true, false);
    assert_eq!(
        text,
        "10 Holding → 8 queued → 5 tested → 3 Databank / 2 remain in Holding. Databank target reached. Kills: neighborhood 0 · MC 0 · folds 0 · M1 0 · deposit 2 · corr 0 · clone 0 · other 0."
    );
    let audit = funnel_message(10, 8, &mix, 3, 2, 5, false, true);
    assert!(audit.ends_with("all 5 graduated to Databank. Battery evidence is recorded, not used as a gate."));
    assert_eq!(
        progress_message(false, 10, 4, 3, 1, "12.5"),
        "10 Holding → 4 tested → 3 moved to Databank / 1 remain in Holding · 12.5/hr"
    );
    assert_eq!(
        funnel_opening_message(10, 8, 5, true, Some(4)),
        "Funnel 10 Holding → 8 after optional correlation shrink → 5 queued. Battery until 4 Databank names."
    );
}

#[test]
fn battery_starts_are_checked_and_described() {
    assert_eq!(check_battery_start(true, true, 0, false), Err("a Holding battery job is already running".to_string()));
    assert_eq!(check_battery_start(false, false, 0, false), Err("select Holding strategies or start the ranked factory".to_string()));
    assert!(check_battery_start(false, false, 2, true).is_err());
    assert_eq!(check_battery_start(false, true, 0, false), Ok(()));
    assert_eq!(battery_start_phase(false, true), "Ranking Holding queue");
    assert_eq!(battery_start_message(false, false, 4), "Queued 4 Holding strategies for the robustness battery.");
    assert!(battery_is_busy(true, 5, 2, 1));
    assert!(!battery_is_busy(true, 5, 5, 0));
    assert_eq!(running_counts(3, 1), (2, 1));
    assert_eq!(optional_positive(Some(0)), None);
    assert!(stop_battery(false).is_err());
    assert_eq!(csv_cell_bool(None), "");
}

fn holding(fingerprint: &str) -> HoldingEntry {
    HoldingEntry { fingerprint: fingerprint.into(), strategy_id: format!("id-{fingerprint}") }
}

#[test]
fn the_queue_keeps_only_strategies_still_in_holding() {
    let ranked = vec!["b".to_string(), "a".to_string(), "c".to_string()];
    let plan = plan_battery_queue(true, &Vec::new(), &ranked, &vec![holding("a"), holding("b")], Some(2), Some(0), false)
        .expect("a queue");
    assert_eq!(plan.fingerprints, vec!["b".to_string(), "a".to_string()]);
    assert_eq!(plan.items.len(), 2);
    assert_eq!(plan.items[0].strategy_id, "id-b");
    assert_eq!(plan.target_databank, None);
    let none = plan_battery_queue(false, &vec!["z".to_string()], &ranked, &vec![holding("a")], None, Some(3), false);
    assert_eq!(none, Err("none of the queued fingerprints are still in Holding".to_string()));
    let empty = plan_battery_queue(true, &Vec::new(), &Vec::new(), &Vec::new(), None, None, false);
    assert_eq!(empty, Err("Holding is empty after shrink — nothing to battery".to_string()));
    let audit = plan_battery_queue(false, &vec!["a".to_string()], &ranked, &vec![holding("a")], None, Some(3), true).unwrap();
    assert_eq!(audit.target_databank, None);
    let mut items = plan.items;
    mark_item(&mut items, "a", "passed", None);
    assert_eq!(items[1].status, "passed");
    assert_eq!(items[0].status, "queued");
}

#[test]
fn battery_logs_live_beside_the_archive() {
    let (summary, params) = battery_log_paths("/runs/EURUSD_bank.json");
    assert_eq!(summary, "/runs/EURUSD_bank_battery.csv");
    assert_eq!(params, "/runs/EURUSD_bank_param");
}
