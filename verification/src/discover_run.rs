//! The decisions a Discover worker makes around its search: what the bound
//! market data must satisfy, which partition the search sees, what each
//! stage reports, and how a finished run is summarised.
use vstd::prelude::*;
use crate::discover::{automatic_factory_target, spec_automatic_factory_target, spec_stop_was_early, stop_was_early, DiscoverMode, JobStatus, HOLDING_STALL_GENERATIONS};
use crate::telemetry::{funnel_summary, funnel_text, DiscoverTelemetry};
use crate::text::{decimal, owned, push_decimal, push_str};

verus! {

pub open spec fn pending_refusal_text() -> Seq<char> {
    "stop/limit Discover requires a bid/ask M1 quote sidecar beside the M1 pack (re-import ticks with qf-import-market, then scripts/install_icmarkets_pack.py). Without it pending fills are not MT5-certifiable"@
}

/// Discover's refusal of the bound quote data, if any: canonical bid/ask
/// metadata without its sidecar, or pending entries without quotes.
pub open spec fn discover_quote_refusal(has_quotes: bool, canonical: bool, allow_stop: Option<bool>, allow_limit: Option<bool>) -> Option<Seq<char>> {
    if !has_quotes && canonical {
        Some("canonical bid/ask M1 metadata is present but its .quotes.csv sidecar was not found"@)
    } else if !has_quotes && (allow_stop == Some(true) || allow_limit == Some(true)) {
        Some(pending_refusal_text())
    } else {
        None
    }
}

pub fn check_discover_quotes(has_quotes: bool, canonical: bool, allow_stop: Option<bool>, allow_limit: Option<bool>) -> (r: Result<(), String>)
    ensures
        match discover_quote_refusal(has_quotes, canonical, allow_stop, allow_limit) {
            None => r is Ok,
            Some(message) => r matches Err(m) && m@ == message,
        },
{
    if !has_quotes && canonical {
        return Err(owned("canonical bid/ask M1 metadata is present but its .quotes.csv sidecar was not found"));
    }
    let stop_entries = match allow_stop {
        Some(v) => v,
        None => false,
    };
    let limit_entries = match allow_limit {
        Some(v) => v,
        None => false,
    };
    if (stop_entries || limit_entries) && !has_quotes {
        return Err(owned("stop/limit Discover requires a bid/ask M1 quote sidecar beside the M1 pack (re-import ticks with qf-import-market, then scripts/install_icmarkets_pack.py). Without it pending fills are not MT5-certifiable"));
    }
    Ok(())
}

pub open spec fn quality_refusal_text(score: u8, m1: bool) -> Seq<char> {
    if m1 {
        "Discover refuses failed-quality M1 data (score "@ + decimal(score as nat) + ")"@
    } else {
        "Discover refuses failed-quality data (score "@ + decimal(score as nat) + ")"@
    }
}

/// Discover never searches data whose quality grade failed.
pub fn check_data_quality(failed: bool, score: u8, m1: bool) -> (r: Result<(), String>)
    ensures
        !failed ==> r is Ok,
        failed ==> (r matches Err(m) && m@ == quality_refusal_text(score, m1)),
{
    if !failed {
        return Ok(());
    }
    let mut message = if m1 {
        owned("Discover refuses failed-quality M1 data (score ")
    } else {
        owned("Discover refuses failed-quality data (score ")
    };
    push_decimal(&mut message, score as u64);
    push_str(&mut message, ")");
    Err(message)
}

/// The message shown once the decision bars are rebuilt from M1.
pub fn decision_bars_message(count: u64, timeframe: &str) -> (r: String)
    ensures
        r@ == "Built "@ + decimal(count as nat) + " "@ + timeframe@ + " decision bars from M1 before search."@,
{
    let mut message = owned("Built ");
    push_decimal(&mut message, count);
    push_str(&mut message, " ");
    push_str(&mut message, timeframe);
    push_str(&mut message, " decision bars from M1 before search.");
    message
}

/// Which bars the search itself sees.
#[derive(PartialEq, Eq, Structural, Debug, Clone, Copy)]
pub enum SearchSample {
    /// No promotion split: the whole decision series.
    Full,
    /// OOS1 is reserved: the Development prefix only.
    Development,
    /// No OOS1 reserve: everything before the sealed holdout.
    Unsealed,
}

/// How a run partitions its decision series.
#[derive(PartialEq, Eq, Structural, Debug, Clone, Copy)]
pub struct SplitUse {
    pub search: SearchSample,
    /// Whether an OOS1 slice is materialised for validation.
    pub oos1: bool,
}

pub open spec fn split_refusal(mode: DiscoverMode, promotion_split: bool, oos1_enabled: bool, archive_oos1_pick: Option<bool>) -> Option<Seq<char>> {
    if oos1_enabled && !promotion_split {
        Some("OOS1 validation requires promotion split so Development, OOS1 and sealed OOS2 remain separate"@)
    } else if mode == DiscoverMode::Continue && oos1_enabled && archive_oos1_pick != Some(true) {
        Some("this archive was created while OOS1 validation was disabled; start a new run to reserve and validate OOS1 without changing the historical experiment"@)
    } else {
        None
    }
}

pub open spec fn split_use(mode: DiscoverMode, promotion_split: bool, oos1_enabled: bool) -> SplitUse {
    let partitioned = promotion_split || mode == DiscoverMode::Continue;
    SplitUse {
        search: if !partitioned { SearchSample::Full } else if oos1_enabled { SearchSample::Development } else { SearchSample::Unsealed },
        oos1: partitioned && oos1_enabled,
    }
}

/// Decides the partitions of a run. The promotion split defaults to on;
/// `oos1_enabled` is whether the OOS1 fraction is positive; a continued
/// archive must have been created with OOS1 picking to validate on OOS1.
pub fn plan_split(mode: DiscoverMode, promotion_split: Option<bool>, oos1_enabled: bool, archive_oos1_pick: Option<bool>) -> (r: Result<SplitUse, String>)
    ensures
        ({
            let promotion = match promotion_split { Some(v) => v, None => true };
            match split_refusal(mode, promotion, oos1_enabled, archive_oos1_pick) {
                Some(message) => r matches Err(m) && m@ == message,
                None => r == Ok::<SplitUse, String>(split_use(mode, promotion, oos1_enabled)),
            }
        }),
{
    let promotion = match promotion_split {
        Some(v) => v,
        None => true,
    };
    if oos1_enabled && !promotion {
        return Err(owned("OOS1 validation requires promotion split so Development, OOS1 and sealed OOS2 remain separate"));
    }
    let continuing = match mode {
        DiscoverMode::Continue => true,
        DiscoverMode::New => false,
    };
    let archive_picks = match archive_oos1_pick {
        Some(v) => v,
        None => false,
    };
    if continuing && oos1_enabled && !archive_picks {
        return Err(owned("this archive was created while OOS1 validation was disabled; start a new run to reserve and validate OOS1 without changing the historical experiment"));
    }
    let partitioned = promotion || continuing;
    let search = if !partitioned {
        SearchSample::Full
    } else if oos1_enabled {
        SearchSample::Development
    } else {
        SearchSample::Unsealed
    };
    Ok(SplitUse { search, oos1: partitioned && oos1_enabled })
}

/// The search never sees OOS1 or the sealed holdout when OOS1 is validated.
pub proof fn lemma_oos1_runs_search_development_only(mode: DiscoverMode, promotion_split: bool)
    ensures
        split_use(mode, promotion_split, true).oos1 ==> split_use(mode, promotion_split, true).search == SearchSample::Development,
{
}

/// Which series the evolution session advances on.
#[derive(PartialEq, Eq, Structural, Debug, Clone, Copy)]
pub enum EvaluationSample {
    /// The databank was built on the full decision series.
    Decision,
    /// The databank was built on the partition this run materialised.
    Partition,
}

/// The bank's data hash must match either the full decision series or the
/// partition this run built; otherwise continuing needs the identical split.
pub fn evaluation_sample(bank_matches_decision: bool, split: SplitUse) -> (r: Result<EvaluationSample, String>)
    ensures
        bank_matches_decision ==> r == Ok::<EvaluationSample, String>(EvaluationSample::Decision),
        !bank_matches_decision && split.search != SearchSample::Full ==> r == Ok::<EvaluationSample, String>(EvaluationSample::Partition),
        !bank_matches_decision && split.search == SearchSample::Full ==> (r matches Err(m)
            && m@ == "this databank was built from an IS partition; enable the identical promotion split to continue it"@),
{
    if bank_matches_decision {
        return Ok(EvaluationSample::Decision);
    }
    match split.search {
        SearchSample::Full => Err(owned("this databank was built from an IS partition; enable the identical promotion split to continue it")),
        _ => Ok(EvaluationSample::Partition),
    }
}

/// The message of a new run's first phase.
pub fn initial_population_message(oos1_enabled: bool) -> (r: &'static str)
    ensures
        oos1_enabled ==> r@ == "Development fills Holding. The full battery then validates OOS1; sealed OOS2 is never loaded."@,
        !oos1_enabled ==> r@ == "Fold-stable Development R fills Holding. Sealed holdout is never loaded."@,
{
    if oos1_enabled {
        "Development fills Holding. The full battery then validates OOS1; sealed OOS2 is never loaded."
    } else {
        "Fold-stable Development R fills Holding. Sealed holdout is never loaded."
    }
}

/// Only FX majors can pass the identical-parameter multi-symbol screen, so
/// a new run on any other symbol turns the screen off.
pub fn new_run_multi_symbol_minimum(fx_primary: bool, configured: usize) -> (r: usize)
    ensures
        r == (if fx_primary { configured } else { 0 }),
{
    if fx_primary { configured } else { 0 }
}

/// The status message while generations run: breeding or still filling the reservoir.
pub fn generation_status(pot: usize, mutate_after: usize) -> (r: &'static str)
    ensures
        pot >= mutate_after ==> r@ == "Scout keeps breeding. Side workers run M1 80/130 into Holding. Fold-R, plateau, CPCV, and Monte Carlo wait for the Holding battery. OOS2 is untouched."@,
        pot < mutate_after ==> r@ == "Candidates enter the Development reservoir only. After breeding unlocks: M1 80/130 → Holding. Databank tests run from the Holding tab."@,
{
    if pot >= mutate_after {
        "Scout keeps breeding. Side workers run M1 80/130 into Holding. Fold-R, plateau, CPCV, and Monte Carlo wait for the Holding battery. OOS2 is untouched."
    } else {
        "Candidates enter the Development reservoir only. After breeding unlocks: M1 80/130 → Holding. Databank tests run from the Holding tab."
    }
}

pub fn plateau_message(holding: usize) -> (r: String)
    ensures
        r@ == "Holding plateaued at "@ + decimal(holding as nat) + " names for "@
            + decimal(HOLDING_STALL_GENERATIONS as nat) + " generations — stopping Discover so factory can run."@,
{
    let mut message = owned("Holding plateaued at ");
    push_decimal(&mut message, holding as u64);
    push_str(&mut message, " names for ");
    push_decimal(&mut message, HOLDING_STALL_GENERATIONS);
    push_str(&mut message, " generations — stopping Discover so factory can run.");
    message
}

pub fn memory_limit_message(resident_mb: u64, limit_mb: u64) -> (r: String)
    ensures
        r@ == "Resident memory reached "@ + decimal(resident_mb as nat) + " MB of the "@ + decimal(limit_mb as nat)
            + " MB limit. QuantForge stopped cleanly and is writing the final artifact."@,
{
    let mut message = owned("Resident memory reached ");
    push_decimal(&mut message, resident_mb);
    push_str(&mut message, " MB of the ");
    push_decimal(&mut message, limit_mb);
    push_str(&mut message, " MB limit. QuantForge stopped cleanly and is writing the final artifact.");
    message
}

/// A checkpoint is written only for a bank that evaluated something and holds a strategy.
pub fn has_checkpoint_content(evaluation_count: u64, elites_empty: bool, accepted_pool_empty: bool) -> (r: bool)
    ensures
        r == (evaluation_count > 0 && (!elites_empty || !accepted_pool_empty)),
{
    evaluation_count > 0 && (!elites_empty || !accepted_pool_empty)
}

pub fn bank_growing_message(coverage: usize, evaluation_count: u64) -> (r: String)
    ensures
        r@ == "Bank growing: "@ + decimal(coverage as nat) + " niches after "@ + decimal(evaluation_count as nat) + " evaluations."@,
{
    let mut message = owned("Bank growing: ");
    push_decimal(&mut message, coverage as u64);
    push_str(&mut message, " niches after ");
    push_decimal(&mut message, evaluation_count);
    push_str(&mut message, " evaluations.");
    message
}

pub fn paused_snapshot_message(snapshot: &str) -> (r: String)
    ensures
        r@ == "Paused safely. Immutable snapshot: "@ + snapshot@,
{
    let mut message = owned("Paused safely. Immutable snapshot: ");
    push_str(&mut message, snapshot);
    message
}

/// A quota run is complete once its progress count reaches the target.
pub open spec fn quota_reached(target: Option<usize>, progress: usize) -> bool {
    target matches Some(t) && progress >= t
}

pub fn quota_complete(target: Option<usize>, progress: usize) -> (r: bool)
    ensures
        r == quota_reached(target, progress),
{
    match target {
        Some(t) => progress >= t,
        None => false,
    }
}

pub open spec fn empty_bank_text(evaluation_count: u64, completed_now: u64, t: DiscoverTelemetry) -> Seq<char> {
    "No elites passed the post-breed pipeline (Development CPCV/robustness → M1 → OOS1 validation) after "@
        + decimal(evaluation_count as nat) + " evaluations across "@ + decimal(completed_now as nat)
        + " generations. "@ + funnel_text(t)
        + " Keep searching until breeding unlocks, loosen gates, or check data."@
}

/// What a run that ended with no strategy reports instead of writing an archive.
pub fn empty_bank_message(evaluation_count: u64, completed_now: u64, t: &DiscoverTelemetry) -> (r: String)
    ensures
        r@ == empty_bank_text(evaluation_count, completed_now, *t),
{
    let mut message = owned("No elites passed the post-breed pipeline (Development CPCV/robustness → M1 → OOS1 validation) after ");
    push_decimal(&mut message, evaluation_count);
    push_str(&mut message, " evaluations across ");
    push_decimal(&mut message, completed_now);
    push_str(&mut message, " generations. ");
    let funnel = funnel_summary(t);
    push_str(&mut message, funnel.as_str());
    push_str(&mut message, " Keep searching until breeding unlocks, loosen gates, or check data.");
    message
}

/// How a run that ended with an empty bank finishes: it completes without
/// writing an archive and says why.
pub struct EmptyBankCompletion {
    pub status: JobStatus,
    pub phase: String,
    pub message: String,
}

/// A run whose bank holds neither elites nor an accepted pool soft-completes
/// ("Completed with an empty bank", no output path); any other run goes on to
/// write its final artifacts (`None`).
pub fn empty_bank_completion(
    elites_empty: bool,
    accepted_pool_empty: bool,
    evaluation_count: u64,
    completed_now: u64,
    t: &DiscoverTelemetry,
) -> (r: Option<EmptyBankCompletion>)
    ensures
        (elites_empty && accepted_pool_empty) ==> (r matches Some(c) && c.status == JobStatus::Completed
            && c.phase@ == "Completed with an empty bank"@
            && c.message@ == empty_bank_text(evaluation_count, completed_now, *t)),
        !(elites_empty && accepted_pool_empty) ==> r is None,
{
    if elites_empty && accepted_pool_empty {
        Some(EmptyBankCompletion {
            status: JobStatus::Completed,
            phase: owned("Completed with an empty bank"),
            message: empty_bank_message(evaluation_count, completed_now, t),
        })
    } else {
        None
    }
}

pub fn integrity_failure_message(error: &str) -> (r: String)
    ensures
        r@ == "discovery produced no loadable checkpoint: "@ + error@ + ". Use more history or revise the explicit discovery gates"@,
{
    let mut message = owned("discovery produced no loadable checkpoint: ");
    push_str(&mut message, error);
    push_str(&mut message, ". Use more history or revise the explicit discovery gates");
    message
}

/// The reason recorded in the final immutable snapshot's name.
pub fn final_snapshot_reason(stopped_by_user: bool) -> (r: &'static str)
    ensures
        stopped_by_user ==> r@ == "stopped"@,
        !stopped_by_user ==> r@ == "completed"@,
{
    if stopped_by_user { "stopped" } else { "completed" }
}

pub open spec fn final_phase_text(target: Option<usize>, progress: usize, build_to_holding: bool, completed_now: u64, soft_budget: u64, run_until_stopped: bool) -> Seq<char> {
    if quota_reached(target, progress) {
        "Quota complete · "@ + decimal(progress as nat) + " "@ + (if build_to_holding { "holding"@ } else { "databank elites"@ })
    } else if spec_stop_was_early(completed_now, soft_budget, run_until_stopped) {
        "Stopped and checkpointed"@
    } else {
        "Discovery checkpoint complete"@
    }
}

/// The phase a finished run ends on.
pub fn final_phase(target: Option<usize>, progress: usize, build_to_holding: bool, completed_now: u64, soft_budget: u64, run_until_stopped: bool) -> (r: String)
    ensures
        r@ == final_phase_text(target, progress, build_to_holding, completed_now, soft_budget, run_until_stopped),
{
    if quota_complete(target, progress) {
        let mut phase = owned("Quota complete · ");
        push_decimal(&mut phase, progress as u64);
        push_str(&mut phase, " ");
        push_str(&mut phase, if build_to_holding { "holding" } else { "databank elites" });
        phase
    } else if stop_was_early(completed_now, soft_budget, run_until_stopped) {
        owned("Stopped and checkpointed")
    } else {
        owned("Discovery checkpoint complete")
    }
}

pub open spec fn final_message_text(target: Option<usize>, progress: usize, build_to_holding: bool, evaluation_count: u64, coverage: usize, snapshot: Seq<char>) -> Seq<char> {
    if quota_reached(target, progress) {
        "Reached "@ + (if build_to_holding { "Holding"@ } else { "databank"@ }) + " quota ("@ + decimal(progress as nat) + "/"@
            + decimal(target->0 as nat) + "). Saved after "@ + decimal(evaluation_count as nat)
            + " evaluations. Start a new Discover for the next family or asset."@
    } else {
        "Saved "@ + decimal(coverage as nat) + " strategies after "@ + decimal(evaluation_count as nat)
            + " evaluations. Immutable snapshot: "@ + snapshot
    }
}

/// The message a finished run ends on.
pub fn final_message(target: Option<usize>, progress: usize, build_to_holding: bool, evaluation_count: u64, coverage: usize, snapshot: &str) -> (r: String)
    ensures
        r@ == final_message_text(target, progress, build_to_holding, evaluation_count, coverage, snapshot@),
{
    match target {
        Some(t) => {
            if progress >= t {
                let mut message = owned("Reached ");
                push_str(&mut message, if build_to_holding { "Holding" } else { "databank" });
                push_str(&mut message, " quota (");
                push_decimal(&mut message, progress as u64);
                push_str(&mut message, "/");
                push_decimal(&mut message, t as u64);
                push_str(&mut message, "). Saved after ");
                push_decimal(&mut message, evaluation_count);
                push_str(&mut message, " evaluations. Start a new Discover for the next family or asset.");
                return message;
            }
        },
        None => {},
    }
    let mut message = owned("Saved ");
    push_decimal(&mut message, coverage as u64);
    push_str(&mut message, " strategies after ");
    push_decimal(&mut message, evaluation_count);
    push_str(&mut message, " evaluations. Immutable snapshot: ");
    push_str(&mut message, snapshot);
    message
}

/// The battery a finished Discover hands its Holding cohort to: always
/// ranked, never shrunk first, never an audit.
#[derive(PartialEq, Eq, Structural, Debug, Clone, Copy)]
pub struct FactoryPlan {
    pub queue_limit: Option<usize>,
    pub target_databank: Option<usize>,
}

/// An open-ended run batteries the whole Holding cohort; a finite run keeps
/// its positive Databank target; a positive queue limit caps the queue.
pub fn factory_plan(run_until_stopped: Option<bool>, target_databank: Option<usize>, queue_limit: Option<usize>) -> (r: FactoryPlan)
    ensures
        r.target_databank == spec_automatic_factory_target(match run_until_stopped { Some(v) => v, None => true }, target_databank),
        r.queue_limit == (match queue_limit { Some(n) => if n > 0 { Some(n) } else { None }, None => None::<usize> }),
{
    let open_ended = match run_until_stopped {
        Some(v) => v,
        None => true,
    };
    let limit = match queue_limit {
        Some(n) => if n > 0 { Some(n) } else { None },
        None => None,
    };
    FactoryPlan { queue_limit: limit, target_databank: automatic_factory_target(open_ended, target_databank) }
}

/// What the finished run's message says after the hand-off.
pub fn factory_started_note(message: &str, target_databank: Option<usize>) -> (r: String)
    ensures
        target_databank matches Some(n) ==> r@ == message@ + ". Factory started: battery the Holding queue until "@
            + decimal(n as nat) + " Databank names."@,
        target_databank is None ==> r@ == message@ + ". Factory started: battery everyone in the current Holding queue."@,
{
    let mut text = owned(message);
    match target_databank {
        Some(n) => {
            push_str(&mut text, ". Factory started: battery the Holding queue until ");
            push_decimal(&mut text, n as u64);
            push_str(&mut text, " Databank names.");
        },
        None => {
            push_str(&mut text, ". Factory started: battery everyone in the current Holding queue.");
        },
    }
    text
}

pub fn factory_failed_note(message: &str, error: &str) -> (r: String)
    ensures
        r@ == message@ + ". Factory did not start: "@ + error@,
{
    let mut text = owned(message);
    push_str(&mut text, ". Factory did not start: ");
    push_str(&mut text, error);
    text
}

/// The message refreshed at each factory checkpoint.
pub fn factory_checkpoint_note(holding: usize, databank: usize, message: &str) -> (r: String)
    ensures
        r@ == "Factory checkpoint: "@ + decimal(holding as nat) + " Holding · "@ + decimal(databank as nat)
            + " Databank. "@ + message@,
{
    let mut text = owned("Factory checkpoint: ");
    push_decimal(&mut text, holding as u64);
    push_str(&mut text, " Holding · ");
    push_decimal(&mut text, databank as u64);
    push_str(&mut text, " Databank. ");
    push_str(&mut text, message);
    text
}

/// The identity of a desktop Discover job.
pub fn discover_job_id(now_ms: u64) -> (r: String)
    ensures
        r@ == "desktop-"@ + decimal(now_ms as nat),
{
    let mut id = owned("desktop-");
    push_decimal(&mut id, now_ms);
    id
}

/// What the live databank last published.
#[derive(PartialEq, Eq, Structural, Debug, Clone, Copy)]
pub struct PublishedBank {
    pub revision: u64,
    pub elites: usize,
    pub holding: usize,
}

/// The live inspector is refreshed only when the bank holds a strategy and
/// its revision or its Databank or Holding size changed since the last publication.
pub fn live_publish_needed(elites: usize, holding: usize, revision: u64, last: Option<PublishedBank>) -> (r: bool)
    ensures
        r == ((elites > 0 || holding > 0) && match last {
            None => true,
            Some(p) => !(p.revision == revision && p.elites == elites && p.holding == holding),
        }),
{
    if elites == 0 && holding == 0 {
        return false;
    }
    match last {
        None => true,
        Some(p) => !(p.revision == revision && p.elites == elites && p.holding == holding),
    }
}

/// The grade flags an archive is sealed with.
#[derive(PartialEq, Eq, Structural, Debug, Clone, Copy)]
pub struct ArchiveFlags {
    /// No strategy reached the Databank yet.
    pub research_grade: bool,
    /// Some Databank strategy carries robustness evidence.
    pub m1_fidelity_verified: bool,
    pub stopped_early: bool,
}

pub fn archive_flags(databank_empty: bool, any_robustness: bool, completed_now: u64, soft_budget: u64, run_until_stopped: bool) -> (r: ArchiveFlags)
    ensures
        r.research_grade == databank_empty,
        r.m1_fidelity_verified == any_robustness,
        r.stopped_early == spec_stop_was_early(completed_now, soft_budget, run_until_stopped),
{
    ArchiveFlags {
        research_grade: databank_empty,
        m1_fidelity_verified: any_robustness,
        stopped_early: stop_was_early(completed_now, soft_budget, run_until_stopped),
    }
}

} // verus!
