//! Certification evidence: the checks each gate artifact must pass before it
//! may be bundled, and the layout of an assembled evidence folder.
use vstd::prelude::*;
use crate::paths::{join, path_join};
use crate::text::{owned, push_str, str_eq};

verus! {

/// What to assemble: one artifact per certification gate, and where to write.
#[derive(Debug, Clone, PartialEq, Eq)]
pub struct AssembleEvidenceRequest {
    pub strategy_path: String,
    pub broker_path: String,
    pub split_plan_path: String,
    pub databank_path: String,
    pub challenge_path: String,
    pub judge_path: String,
    pub parity_path: String,
    pub indicator_parity_path: String,
    pub sealed_final_path: String,
    pub incubation_path: Option<String>,
    pub output_directory: String,
}

/// What an assembled evidence folder holds.
#[derive(Debug, Clone, PartialEq, Eq)]
pub struct EvidenceView {
    pub output_directory: String,
    pub validation_path: String,
    pub evidence_path: String,
    pub bundle_path: String,
    pub gate_count: usize,
    pub evaluations_touched: u64,
    pub certification_ready: bool,
    pub incubation_included: bool,
}

/// Integrity failures are reported as they are; otherwise `refusal` unless `ok`.
pub open spec fn gate_result(integrity: Result<(), String>, ok: bool, refusal: Seq<char>) -> Result<(), Seq<char>> {
    match integrity {
        Err(e) => Err(e@),
        Ok(()) => if ok { Ok(()) } else { Err(refusal) },
    }
}

pub open spec fn matches_result(r: Result<(), String>, expected: Result<(), Seq<char>>) -> bool {
    match expected {
        Ok(()) => r is Ok,
        Err(m) => r matches Err(e) && e@ == m,
    }
}

fn finish_gate(integrity: Result<(), String>, ok: bool, refusal: &str) -> (r: Result<(), String>)
    ensures
        matches_result(r, gate_result(integrity, ok, refusal@)),
{
    match integrity {
        Err(e) => Err(e),
        Ok(()) => if ok { Ok(()) } else { Err(owned(refusal)) },
    }
}

/// What the Challenge gate reads from its artifact.
#[derive(Debug, Clone, PartialEq, Eq)]
pub struct ChallengeFacts {
    pub command: String,
    pub binding_matches: bool,
    pub split_plan_hash: String,
    pub expected_split_plan_hash: String,
    pub validation_data_hash: String,
    pub expected_validation_data_hash: String,
    pub passed: bool,
    pub blocker_count: usize,
    pub quality_failed: bool,
    pub override_flag_count: usize,
}

pub open spec fn challenge_ok(f: ChallengeFacts) -> bool {
    &&& f.command@ == "challenge"@
    &&& f.binding_matches
    &&& f.split_plan_hash@ == f.expected_split_plan_hash@
    &&& f.validation_data_hash@ == f.expected_validation_data_hash@
    &&& f.passed
    &&& f.blocker_count == 0
    &&& !f.quality_failed
    &&& f.override_flag_count == 0
}

/// A Challenge artifact certifies only when it passed cleanly, for this
/// candidate, on this split's validation data, without overrides.
pub fn verify_challenge(integrity: Result<(), String>, facts: &ChallengeFacts) -> (r: Result<(), String>)
    ensures
        matches_result(r, gate_result(integrity, challenge_ok(*facts), "Challenge artifact is failed, mismatched or overridden"@)),
{
    let ok = str_eq(facts.command.as_str(), "challenge") && facts.binding_matches
        && str_eq(facts.split_plan_hash.as_str(), facts.expected_split_plan_hash.as_str())
        && str_eq(facts.validation_data_hash.as_str(), facts.expected_validation_data_hash.as_str())
        && facts.passed && facts.blocker_count == 0 && !facts.quality_failed && facts.override_flag_count == 0;
    finish_gate(integrity, ok, "Challenge artifact is failed, mismatched or overridden")
}

/// What the illumination gate reads from the Discover databank.
#[derive(Debug, Clone, PartialEq, Eq)]
pub struct DatabankFacts {
    pub command: String,
    pub data_hash: String,
    pub development_data_hash: String,
    pub broker_spec_hash: String,
    pub candidate_broker_spec_hash: String,
    pub evaluation_count: u64,
    pub challenge_evaluations_touched: u64,
    pub scout_matches: bool,
    pub quality_failed: bool,
    pub override_flag_count: usize,
    pub holds_candidate: bool,
}

pub open spec fn databank_ok(f: DatabankFacts) -> bool {
    &&& f.command@ == "evolve"@
    &&& f.data_hash@ == f.development_data_hash@
    &&& f.broker_spec_hash@ == f.candidate_broker_spec_hash@
    &&& f.evaluation_count == f.challenge_evaluations_touched
    &&& f.scout_matches
    &&& !f.quality_failed
    &&& f.override_flag_count == 0
    &&& f.holds_candidate
}

/// The databank must be the exact Development-only source of the candidate.
pub fn verify_databank(integrity: Result<(), String>, facts: &DatabankFacts) -> (r: Result<(), String>)
    ensures
        matches_result(r, gate_result(integrity, databank_ok(*facts), "databank is not an exact development-only source for this candidate"@)),
{
    let ok = str_eq(facts.command.as_str(), "evolve")
        && str_eq(facts.data_hash.as_str(), facts.development_data_hash.as_str())
        && str_eq(facts.broker_spec_hash.as_str(), facts.candidate_broker_spec_hash.as_str())
        && facts.evaluation_count == facts.challenge_evaluations_touched && facts.scout_matches
        && !facts.quality_failed && facts.override_flag_count == 0 && facts.holds_candidate;
    finish_gate(integrity, ok, "databank is not an exact development-only source for this candidate")
}

/// What the M1 Judge gate reads from its artifact.
#[derive(Debug, Clone, PartialEq, Eq)]
pub struct JudgeFacts {
    pub command: String,
    pub fingerprint_matches: bool,
    pub broker_matches: bool,
    pub decision_data_hash: Option<String>,
    pub validation_data_hash: String,
    pub decision_quality_failed: bool,
    pub m1_quality_failed: bool,
    pub engine_matches: bool,
    pub m1_gap_events: u64,
    pub metrics_pass_baseline: bool,
    pub override_flag_count: usize,
}

pub open spec fn judge_ok(f: JudgeFacts) -> bool {
    &&& f.command@ == "judge"@
    &&& f.fingerprint_matches
    &&& f.broker_matches
    &&& f.decision_data_hash->0@ == f.validation_data_hash@
    &&& !f.decision_quality_failed
    &&& !f.m1_quality_failed
    &&& f.engine_matches
    &&& f.m1_gap_events == 0
    &&& f.metrics_pass_baseline
    &&& f.override_flag_count == 0
}

pub open spec fn judge_result(integrity: Result<(), String>, f: JudgeFacts) -> Result<(), Seq<char>> {
    match integrity {
        Err(e) => Err(e@),
        Ok(()) => if f.decision_data_hash is None {
            Err("Judge manifest lacks decision hash"@)
        } else if judge_ok(f) {
            Ok(())
        } else {
            Err("M1 Judge artifact is failed, mismatched or overridden"@)
        },
    }
}

/// The M1 Judge must have replayed this candidate on the validation
/// decisions with the certified engine, gap-free, meeting the Challenge baseline.
pub fn verify_judge(integrity: Result<(), String>, facts: &JudgeFacts) -> (r: Result<(), String>)
    ensures
        matches_result(r, judge_result(integrity, *facts)),
{
    match integrity {
        Err(e) => return Err(e),
        Ok(()) => {},
    }
    let decision = match &facts.decision_data_hash {
        Some(d) => d,
        None => return Err(owned("Judge manifest lacks decision hash")),
    };
    let ok = str_eq(facts.command.as_str(), "judge") && facts.fingerprint_matches && facts.broker_matches
        && str_eq(decision.as_str(), facts.validation_data_hash.as_str()) && !facts.decision_quality_failed
        && !facts.m1_quality_failed && facts.engine_matches && facts.m1_gap_events == 0
        && facts.metrics_pass_baseline && facts.override_flag_count == 0;
    if ok { Ok(()) } else { Err(owned("M1 Judge artifact is failed, mismatched or overridden")) }
}

/// What the external parity gate reads from its artifact.
#[derive(Debug, Clone, PartialEq, Eq)]
pub struct ParityFacts {
    pub command: String,
    pub data_hash_matches: bool,
    pub fingerprint_matches: bool,
    pub broker_matches: bool,
    pub symbol: String,
    pub broker_symbol: String,
    pub reference_matches: bool,
    pub external_engine: String,
    pub report_recomputes: bool,
    pub passed: bool,
    pub protective_orders_present: bool,
    pub live_trading_default: bool,
    pub override_flag_count: usize,
}

pub open spec fn parity_ok(f: ParityFacts) -> bool {
    &&& f.command@ == "parity"@
    &&& f.data_hash_matches
    &&& f.fingerprint_matches
    &&& f.broker_matches
    &&& f.symbol@ == f.broker_symbol@
    &&& f.reference_matches
    &&& f.external_engine@ == "mt5-strategy-tester"@
    &&& f.report_recomputes
    &&& f.passed
    &&& f.protective_orders_present
    &&& !f.live_trading_default
    &&& f.override_flag_count == 0
}

/// External parity must reproduce against the MT5 Strategy Tester with
/// protective orders and live trading off by default.
pub fn verify_parity(integrity: Result<(), String>, facts: &ParityFacts) -> (r: Result<(), String>)
    ensures
        matches_result(r, gate_result(integrity, parity_ok(*facts), "external parity artifact is failed, mismatched or unsafe"@)),
{
    let ok = str_eq(facts.command.as_str(), "parity") && facts.data_hash_matches && facts.fingerprint_matches
        && facts.broker_matches && str_eq(facts.symbol.as_str(), facts.broker_symbol.as_str())
        && facts.reference_matches && str_eq(facts.external_engine.as_str(), "mt5-strategy-tester")
        && facts.report_recomputes && facts.passed && facts.protective_orders_present
        && !facts.live_trading_default && facts.override_flag_count == 0;
    finish_gate(integrity, ok, "external parity artifact is failed, mismatched or unsafe")
}

/// The indicators whose parity must be demonstrated, all of them.
pub open spec fn required_indicators() -> Seq<Seq<char>> {
    seq![
        "sma"@, "ema"@, "wma"@, "rsi"@, "atr"@, "donchian_high"@, "donchian_low"@, "highest_close"@,
        "lowest_close"@, "standard_deviation"@, "zscore"@, "percentile_in_range"@, "rate_of_change"@,
    ]
}

/// One indicator's parity result.
#[derive(Debug, Clone, PartialEq, Eq)]
pub struct IndicatorResult {
    pub name: String,
    pub passed: bool,
    pub mismatch_count: u64,
}

/// What the indicator parity gate reads from its artifact.
#[derive(Debug, Clone, PartialEq, Eq)]
pub struct IndicatorParityFacts {
    pub command: String,
    pub passed: bool,
    pub symbol: String,
    pub indicators: Vec<IndicatorResult>,
    pub override_flag_count: usize,
}

pub open spec fn indicator_names(results: Seq<IndicatorResult>) -> Set<Seq<char>> {
    Set::new(|name: Seq<char>| exists|i: int| 0 <= i < results.len() && #[trigger] results[i].name@ == name)
}

pub open spec fn indicator_parity_ok(f: IndicatorParityFacts, symbol: Seq<char>) -> bool {
    &&& f.command@ == "indicator-parity"@
    &&& f.passed
    &&& f.symbol@ == symbol
    &&& indicator_names(f.indicators@) == required_indicators().to_set()
    &&& forall|i: int| 0 <= i < f.indicators@.len() ==> (#[trigger] f.indicators@[i]).passed
        && f.indicators@[i].mismatch_count == 0
    &&& f.override_flag_count == 0
}

fn listed(names: &Vec<&str>, value: &str) -> (r: bool)
    ensures
        r == names@.map_values(|s: &str| s@).contains(value@),
{
    let ghost view = names@.map_values(|s: &str| s@);
    let mut k: usize = 0;
    while k < names.len()
        invariant
            view == names@.map_values(|s: &str| s@),
            k <= names@.len(),
            forall|t: int| 0 <= t < k ==> view[t] != value@,
        decreases names.len() - k,
    {
        if str_eq(names[k], value) {
            assert(view[k as int] == value@);
            return true;
        }
        k = k + 1;
    }
    proof {
        if view.contains(value@) {
            let t = choose|t: int| 0 <= t < view.len() && #[trigger] view[t] == value@;
            assert(t < k);
        }
    }
    false
}

fn reported(results: &Vec<IndicatorResult>, name: &str) -> (r: bool)
    ensures
        r == indicator_names(results@).contains(name@),
{
    let mut i: usize = 0;
    while i < results.len()
        invariant
            i <= results@.len(),
            forall|t: int| 0 <= t < i ==> results@[t].name@ != name@,
        decreases results.len() - i,
    {
        if str_eq(results[i].name.as_str(), name) {
            assert(results@[i as int].name@ == name@);
            return true;
        }
        i = i + 1;
    }
    false
}

/// Whether the reported indicators are exactly the required ones.
fn indicator_set_complete(results: &Vec<IndicatorResult>) -> (r: bool)
    ensures
        r == (indicator_names(results@) == required_indicators().to_set()),
{
    let required: Vec<&str> = vec![
        "sma", "ema", "wma", "rsi", "atr", "donchian_high", "donchian_low", "highest_close", "lowest_close",
        "standard_deviation", "zscore", "percentile_in_range", "rate_of_change",
    ];
    let ghost req = required@.map_values(|s: &str| s@);
    assert(req =~= required_indicators());
    let mut i: usize = 0;
    while i < results.len()
        invariant
            req == required@.map_values(|s: &str| s@),
            req == required_indicators(),
            i <= results@.len(),
            forall|t: int| 0 <= t < i ==> req.contains(#[trigger] results@[t].name@),
        decreases results.len() - i,
    {
        if !listed(&required, results[i].name.as_str()) {
            proof {
                assert(indicator_names(results@).contains(results@[i as int].name@));
                assert(!required_indicators().to_set().contains(results@[i as int].name@));
            }
            return false;
        }
        i = i + 1;
    }
    let mut k: usize = 0;
    while k < required.len()
        invariant
            req == required@.map_values(|s: &str| s@),
            req == required_indicators(),
            k <= required@.len(),
            forall|t: int| 0 <= t < results@.len() ==> req.contains(#[trigger] results@[t].name@),
            forall|t: int| 0 <= t < k ==> indicator_names(results@).contains(#[trigger] req[t]),
        decreases required.len() - k,
    {
        if !reported(results, required[k]) {
            proof {
                assert(required_indicators().to_set().contains(req[k as int]));
                assert(!indicator_names(results@).contains(req[k as int]));
            }
            return false;
        }
        k = k + 1;
    }
    proof {
        assert forall|name: Seq<char>| indicator_names(results@).contains(name) == required_indicators().to_set().contains(name) by {
            if indicator_names(results@).contains(name) {
                let t = choose|t: int| 0 <= t < results@.len() && #[trigger] results@[t].name@ == name;
                assert(req.contains(results@[t].name@));
            }
            if required_indicators().to_set().contains(name) {
                let t = choose|t: int| 0 <= t < req.len() && #[trigger] req[t] == name;
                assert(indicator_names(results@).contains(req[t]));
            }
        }
        assert(indicator_names(results@) =~= required_indicators().to_set());
    }
    true
}

fn indicators_all_clean(results: &Vec<IndicatorResult>) -> (r: bool)
    ensures
        r == forall|i: int| 0 <= i < results@.len() ==> (#[trigger] results@[i]).passed && results@[i].mismatch_count == 0,
{
    let mut i: usize = 0;
    while i < results.len()
        invariant
            i <= results@.len(),
            forall|t: int| 0 <= t < i ==> (#[trigger] results@[t]).passed && results@[t].mismatch_count == 0,
        decreases results.len() - i,
    {
        if !results[i].passed || results[i].mismatch_count != 0 {
            return false;
        }
        i = i + 1;
    }
    true
}

/// Indicator parity must cover exactly the required indicators for this
/// symbol, each passing without a mismatch.
pub fn verify_indicator(integrity: Result<(), String>, facts: &IndicatorParityFacts, symbol: &str) -> (r: Result<(), String>)
    ensures
        matches_result(r, gate_result(integrity, indicator_parity_ok(*facts, symbol@), "indicator parity artifact is failed, incomplete or mismatched"@)),
{
    let ok = str_eq(facts.command.as_str(), "indicator-parity") && facts.passed
        && str_eq(facts.symbol.as_str(), symbol) && indicator_set_complete(&facts.indicators)
        && indicators_all_clean(&facts.indicators) && facts.override_flag_count == 0;
    finish_gate(integrity, ok, "indicator parity artifact is failed, incomplete or mismatched")
}

/// What the sealed-final gate reads from its artifact.
#[derive(Debug, Clone, PartialEq, Eq)]
pub struct SealedFacts {
    pub command: String,
    pub binding_matches: bool,
    pub split_plan_hash: String,
    pub expected_split_plan_hash: String,
    pub challenge_artifact_hash: String,
    pub expected_challenge_artifact_hash: String,
    pub sealed_data_hash: String,
    pub expected_sealed_data_hash: String,
    pub passed: bool,
    pub blocker_count: usize,
    pub shortlisted_before_open: bool,
    pub used_in_selection_score: bool,
    pub quality_failed: bool,
    pub override_flag_count: usize,
}

pub open spec fn sealed_ok(f: SealedFacts) -> bool {
    &&& f.command@ == "sealed-final"@
    &&& f.binding_matches
    &&& f.split_plan_hash@ == f.expected_split_plan_hash@
    &&& f.challenge_artifact_hash@ == f.expected_challenge_artifact_hash@
    &&& f.sealed_data_hash@ == f.expected_sealed_data_hash@
    &&& f.passed
    &&& f.blocker_count == 0
    &&& f.shortlisted_before_open
    &&& !f.used_in_selection_score
    &&& !f.quality_failed
    &&& f.override_flag_count == 0
}

/// The sealed partition may certify only a candidate shortlisted before it
/// was opened and never used to score the selection.
pub fn verify_sealed(integrity: Result<(), String>, facts: &SealedFacts) -> (r: Result<(), String>)
    ensures
        matches_result(r, gate_result(integrity, sealed_ok(*facts), "sealed-final artifact is failed, reused or mismatched"@)),
{
    let ok = str_eq(facts.command.as_str(), "sealed-final") && facts.binding_matches
        && str_eq(facts.split_plan_hash.as_str(), facts.expected_split_plan_hash.as_str())
        && str_eq(facts.challenge_artifact_hash.as_str(), facts.expected_challenge_artifact_hash.as_str())
        && str_eq(facts.sealed_data_hash.as_str(), facts.expected_sealed_data_hash.as_str()) && facts.passed
        && facts.blocker_count == 0 && facts.shortlisted_before_open && !facts.used_in_selection_score
        && !facts.quality_failed && facts.override_flag_count == 0;
    finish_gate(integrity, ok, "sealed-final artifact is failed, reused or mismatched")
}

/// What the optional incubation gate reads from its artifact.
#[derive(Debug, Clone, PartialEq, Eq)]
pub struct IncubationFacts {
    pub command: String,
    pub data_hash_matches: bool,
    pub binding_matches: bool,
    pub split_plan_hash: String,
    pub expected_split_plan_hash: String,
    pub passed: bool,
    pub blocker_count: usize,
}

pub open spec fn incubation_ok(f: IncubationFacts) -> bool {
    &&& f.command@ == "incubation-final"@
    &&& f.data_hash_matches
    &&& f.binding_matches
    &&& f.split_plan_hash@ == f.expected_split_plan_hash@
    &&& f.passed
    &&& f.blocker_count == 0
}

pub fn verify_incubation(integrity: Result<(), String>, facts: &IncubationFacts) -> (r: Result<(), String>)
    ensures
        matches_result(r, gate_result(integrity, incubation_ok(*facts), "incubation artifact is failed or mismatched"@)),
{
    let ok = str_eq(facts.command.as_str(), "incubation-final") && facts.data_hash_matches && facts.binding_matches
        && str_eq(facts.split_plan_hash.as_str(), facts.expected_split_plan_hash.as_str()) && facts.passed
        && facts.blocker_count == 0;
    finish_gate(integrity, ok, "incubation artifact is failed or mismatched")
}

/// The Challenge report's validation attestation must have passed before any
/// evidence is written.
pub fn check_validation_baseline(attestation_passed: bool) -> (r: Result<(), String>)
    ensures
        attestation_passed ==> r is Ok,
        !attestation_passed ==> (r matches Err(m) && m@ == "Challenge validation baseline did not pass"@),
{
    if attestation_passed { Ok(()) } else { Err(owned("Challenge validation baseline did not pass")) }
}

/// The assembled evidence must pass certification; the refusal lists the
/// blockers as the certification engine reports them.
pub fn check_certification(passed: bool, blockers: &str) -> (r: Result<(), String>)
    ensures
        passed ==> r is Ok,
        !passed ==> (r matches Err(m) && m@ == "assembled evidence failed certification: "@ + blockers@),
{
    if passed {
        Ok(())
    } else {
        let mut message = owned("assembled evidence failed certification: ");
        push_str(&mut message, blockers);
        Err(message)
    }
}

/// The gates an evidence bundle references, in order; incubation only when included.
pub open spec fn bundle_gates(incubation: bool) -> Seq<Seq<char>> {
    let base = seq![
        "validation"@, "illumination"@, "challenge"@, "judge"@, "external_parity"@, "indicator_parity"@,
        "sealed_final"@,
    ];
    if incubation { base.push("incubation"@) } else { base }
}

pub fn evidence_gate_names(incubation: bool) -> (r: Vec<&'static str>)
    ensures
        r@.map_values(|s: &str| s@) == bundle_gates(incubation),
{
    let mut gates: Vec<&'static str> = vec![
        "validation", "illumination", "challenge", "judge", "external_parity", "indicator_parity", "sealed_final",
    ];
    if incubation {
        gates.push("incubation");
    }
    assert(gates@.map_values(|s: &str| s@) =~= bundle_gates(incubation));
    gates
}

/// The three files an evidence folder receives.
pub open spec fn evidence_files(out: Seq<char>) -> (Seq<char>, Seq<char>, Seq<char>) {
    (
        path_join(out, "validation-attestation.json"@),
        path_join(out, "certification-evidence.json"@),
        path_join(out, "certification-bundle.json"@),
    )
}

/// Evidence is written only into a new folder: an existing one is refused.
pub fn evidence_output_paths(out: &str, exists: bool, shown: &str) -> (r: Result<(String, String, String), String>)
    ensures
        exists ==> (r matches Err(m) && m@ == "evidence directory already exists: "@ + shown@),
        !exists ==> (r matches Ok((v, e, b)) && (v@, e@, b@) == evidence_files(out@)),
{
    if exists {
        let mut message = owned("evidence directory already exists: ");
        push_str(&mut message, shown);
        return Err(message);
    }
    Ok((
        join(out, "validation-attestation.json"),
        join(out, "certification-evidence.json"),
        join(out, "certification-bundle.json"),
    ))
}

/// The view of a finished evidence folder: it counts one gate per bundled
/// artifact and is certification-ready.
pub fn evidence_view(
    output_directory: String,
    validation_path: String,
    evidence_path: String,
    bundle_path: String,
    evaluations_touched: u64,
    incubation_included: bool,
) -> (r: EvidenceView)
    ensures
        r.output_directory == output_directory,
        r.validation_path == validation_path,
        r.evidence_path == evidence_path,
        r.bundle_path == bundle_path,
        r.gate_count == bundle_gates(incubation_included).len(),
        r.evaluations_touched == evaluations_touched,
        r.certification_ready,
        r.incubation_included == incubation_included,
{
    let gates = evidence_gate_names(incubation_included);
    EvidenceView {
        output_directory,
        validation_path,
        evidence_path,
        bundle_path,
        gate_count: gates.len(),
        evaluations_touched,
        certification_ready: true,
        incubation_included,
    }
}

} // verus!
