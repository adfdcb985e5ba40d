//! MT5 deployment packs: the checks a Certified Vault entry must pass before
//! its EA is packed, the pack's files, and its changelog.
use vstd::prelude::*;
use crate::text::{decimal, owned, push_decimal, push_str, str_eq, string_views};

verus! {

/// Build a deployment pack from a Certified Vault entry into a new folder.
#[derive(Debug, Clone, PartialEq, Eq)]
pub struct DeployRequest {
    pub vault_entry_path: String,
    pub output_directory: String,
}

/// What a built deployment pack holds.
#[derive(Debug, Clone, PartialEq, Eq)]
pub struct DeployView {
    pub output_directory: String,
    pub deployment_id: String,
    pub grade: String,
    pub expert_name: String,
    pub symbol: String,
    pub timeframe: String,
    pub magic: u64,
    pub file_count: usize,
    pub live_trading_default: bool,
    pub certification_warnings: usize,
}

/// A pack is only written into a new folder.
pub fn check_deploy_output(exists: bool, shown: &str) -> (r: Result<(), String>)
    ensures
        exists ==> (r matches Err(m) && m@ == "deployment pack already exists and will not be replaced: "@ + shown@),
        !exists ==> r is Ok,
{
    if exists {
        let mut message = owned("deployment pack already exists and will not be replaced: ");
        push_str(&mut message, shown);
        return Err(message);
    }
    Ok(())
}

/// Only entries certified with mandatory incubation may be deployed.
pub fn check_incubation_policy(require_incubation: bool) -> (r: Result<(), String>)
    ensures
        !require_incubation ==> (r matches Err(m) && m@ == "deployment requires a Vault entry certified with mandatory incubation"@),
        require_incubation ==> r is Ok,
{
    if !require_incubation {
        return Err(owned("deployment requires a Vault entry certified with mandatory incubation"));
    }
    Ok(())
}

/// The reference a Vault entry keeps for a gate: when a gate is listed more
/// than once, the last listing counts.
pub open spec fn last_gate(gates: Seq<Seq<char>>, gate: Seq<char>) -> Option<int>
    decreases gates.len(),
{
    if gates.len() == 0 {
        None
    } else if gates.last() == gate {
        Some(gates.len() - 1)
    } else {
        last_gate(gates.drop_last(), gate)
    }
}

pub fn find_gate_reference(gates: &Vec<String>, gate: &str) -> (r: Option<usize>)
    ensures
        match r {
            Some(i) => i < gates@.len() && last_gate(string_views(gates@), gate@) == Some(i as int),
            None => last_gate(string_views(gates@), gate@) is None,
        },
{
    let ghost all = string_views(gates@);
    let mut n: usize = gates.len();
    assert(all.subrange(0, all.len() as int) =~= all);
    while n > 0
        invariant
            all == string_views(gates@),
            n <= gates@.len(),
            last_gate(all, gate@) == last_gate(all.subrange(0, n as int), gate@),
        decreases n,
    {
        proof {
            let prefix = all.subrange(0, n as int);
            assert(prefix.drop_last() =~= all.subrange(0, n - 1));
            assert(prefix.last() == gates@[n - 1]@);
        }
        if str_eq(gates[n - 1].as_str(), gate) {
            return Some(n - 1);
        }
        n = n - 1;
    }
    None
}

/// Which reference of its Certified Vault entry a deployment requires.
#[derive(Debug, Clone, Copy, PartialEq, Eq, Structural)]
pub enum DeployGate {
    Incubation,
    ExternalParity,
}

pub open spec fn deploy_gate_name(gate: DeployGate) -> Seq<char> {
    match gate {
        DeployGate::Incubation => "incubation"@,
        DeployGate::ExternalParity => "external_parity"@,
    }
}

/// The refusal when the entry holds no reference for `gate`.
pub open spec fn missing_gate_text(gate: DeployGate) -> Seq<char> {
    match gate {
        DeployGate::Incubation => "Certified Vault entry has no incubation artifact"@,
        DeployGate::ExternalParity => "Certified Vault entry has no external parity artifact"@,
    }
}

/// The entry's reference for `gate` (the last one listed), or the refusal naming it.
pub fn required_gate(gates: &Vec<String>, gate: DeployGate) -> (r: Result<usize, String>)
    ensures
        match last_gate(string_views(gates@), deploy_gate_name(gate)) {
            Some(i) => r == Ok::<usize, String>(i as usize) && i < gates@.len(),
            None => r matches Err(m) && m@ == missing_gate_text(gate),
        },
{
    let (name, missing) = match gate {
        DeployGate::Incubation => ("incubation", "Certified Vault entry has no incubation artifact"),
        DeployGate::ExternalParity => ("external_parity", "Certified Vault entry has no external parity artifact"),
    };
    match find_gate_reference(gates, name) {
        Some(i) => Ok(i),
        None => Err(owned(missing)),
    }
}

/// What the deployment reads from the incubation artifact it is bound to.
#[derive(Debug, Clone, PartialEq, Eq)]
pub struct IncubationBinding {
    pub artifact_hash: String,
    pub reference_hash: String,
    pub certified_hash: Option<String>,
    pub command: String,
    pub data_hash_matches: bool,
    pub binding_matches: bool,
    pub split_plan_matches: bool,
    pub passed: bool,
    pub blocker_count: usize,
}

pub open spec fn incubation_hash_bound(f: IncubationBinding) -> bool {
    f.artifact_hash@ == f.reference_hash@ && (f.certified_hash matches Some(c) && c@ == f.artifact_hash@)
}

pub open spec fn incubation_clean(f: IncubationBinding) -> bool {
    &&& f.command@ == "incubation-final"@
    &&& f.data_hash_matches
    &&& f.binding_matches
    &&& f.split_plan_matches
    &&& f.passed
    &&& f.blocker_count == 0
}

pub open spec fn incubation_binding_result(f: IncubationBinding, integrity: Result<(), String>) -> Result<(), Seq<char>> {
    if !incubation_hash_bound(f) {
        Err("incubation artifact does not match the Certified evidence"@)
    } else {
        match integrity {
            Err(e) => Err(e@),
            Ok(()) => if incubation_clean(f) {
                Ok(())
            } else {
                Err("incubation artifact is failed, mismatched or internally unbound"@)
            },
        }
    }
}

pub open spec fn same_result(r: Result<(), String>, expected: Result<(), Seq<char>>) -> bool {
    match expected {
        Ok(()) => r is Ok,
        Err(m) => r matches Err(e) && e@ == m,
    }
}

/// The incubation artifact must be the one the certificate hashed, intact,
/// passed, and bound to the same candidate and split.
pub fn check_incubation_binding(facts: &IncubationBinding, integrity: Result<(), String>) -> (r: Result<(), String>)
    ensures
        same_result(r, incubation_binding_result(*facts, integrity)),
{
    let certified = match &facts.certified_hash {
        Some(c) => str_eq(c.as_str(), facts.artifact_hash.as_str()),
        None => false,
    };
    if !str_eq(facts.artifact_hash.as_str(), facts.reference_hash.as_str()) || !certified {
        return Err(owned("incubation artifact does not match the Certified evidence"));
    }
    match integrity {
        Err(e) => return Err(e),
        Ok(()) => {},
    }
    let clean = str_eq(facts.command.as_str(), "incubation-final") && facts.data_hash_matches
        && facts.binding_matches && facts.split_plan_matches && facts.passed && facts.blocker_count == 0;
    if clean { Ok(()) } else { Err(owned("incubation artifact is failed, mismatched or internally unbound")) }
}

/// The parity artifact must be the one the certificate hashed.
pub fn check_parity_hash(artifact_hash: &str, reference_hash: &str, certified_hash: &str) -> (r: Result<(), String>)
    ensures
        (artifact_hash@ == reference_hash@ && artifact_hash@ == certified_hash@) ==> r is Ok,
        !(artifact_hash@ == reference_hash@ && artifact_hash@ == certified_hash@) ==> (r matches Err(m)
            && m@ == "external parity artifact does not match the Certified evidence"@),
{
    if !str_eq(artifact_hash, reference_hash) || !str_eq(artifact_hash, certified_hash) {
        return Err(owned("external parity artifact does not match the Certified evidence"));
    }
    Ok(())
}

/// What the deployment reads from the external parity artifact.
#[derive(Debug, Clone, PartialEq, Eq)]
pub struct DeployParityFacts {
    pub command: String,
    pub data_hash_matches: bool,
    pub broker_hash_matches: bool,
    pub override_flag_count: usize,
    pub fingerprint_matches: bool,
    pub evidence_broker_matches: bool,
    pub symbol: String,
    pub broker_symbol: String,
    pub live_trading_default: bool,
    pub allow_live_trading_default: bool,
    pub mandatory_stop_loss: bool,
    pub mandatory_take_profit: bool,
    pub external_engine: String,
    pub report_recomputes: bool,
    pub passed: bool,
    pub protective_orders_present: bool,
}

/// A deployable parity result: bound to this candidate, broker and split,
/// reproduced, passed, with mandatory stops and live trading off.
pub open spec fn deploy_parity_ok(f: DeployParityFacts) -> bool {
    &&& f.command@ == "parity"@
    &&& f.data_hash_matches
    &&& f.broker_hash_matches
    &&& f.override_flag_count == 0
    &&& f.fingerprint_matches
    &&& f.evidence_broker_matches
    &&& f.symbol@ == f.broker_symbol@
    &&& !f.live_trading_default
    &&& !f.allow_live_trading_default
    &&& f.mandatory_stop_loss
    &&& f.mandatory_take_profit
    &&& f.external_engine@ == "mt5-strategy-tester"@
    &&& f.report_recomputes
    &&& f.passed
    &&& f.protective_orders_present
}

pub fn verify_deploy_parity(integrity: Result<(), String>, facts: &DeployParityFacts) -> (r: Result<(), String>)
    ensures
        match integrity {
            Err(e) => r == Err::<(), String>(e),
            Ok(()) => same_result(r, if deploy_parity_ok(*facts) { Ok(()) } else {
                Err("Certified external parity artifact is unsafe or inconsistent"@)
            }),
        },
{
    match integrity {
        Err(e) => return Err(e),
        Ok(()) => {},
    }
    let ok = str_eq(facts.command.as_str(), "parity") && facts.data_hash_matches && facts.broker_hash_matches
        && facts.override_flag_count == 0 && facts.fingerprint_matches && facts.evidence_broker_matches
        && str_eq(facts.symbol.as_str(), facts.broker_symbol.as_str()) && !facts.live_trading_default
        && !facts.allow_live_trading_default && facts.mandatory_stop_loss && facts.mandatory_take_profit
        && str_eq(facts.external_engine.as_str(), "mt5-strategy-tester") && facts.report_recomputes
        && facts.passed && facts.protective_orders_present;
    if ok { Ok(()) } else { Err(owned("Certified external parity artifact is unsafe or inconsistent")) }
}

/// The regenerated EA must be exactly the source that passed parity.
pub fn check_regenerated_source(evidence_matches: bool, source_hash_matches: bool) -> (r: Result<(), String>)
    ensures
        evidence_matches && source_hash_matches ==> r is Ok,
        !(evidence_matches && source_hash_matches) ==> (r matches Err(m)
            && m@ == "regenerated EA does not match the source that passed external parity"@),
{
    if !evidence_matches || !source_hash_matches {
        return Err(owned("regenerated EA does not match the source that passed external parity"));
    }
    Ok(())
}

/// The files of a pack besides its manifest.
pub open spec fn deployment_file_names(expert: Seq<char>) -> Seq<Seq<char>> {
    seq![
        expert + ".mq5"@, expert + ".set"@, expert + ".tester.ini"@, "strategy.ir.json"@, "broker-spec.json"@,
        "export-evidence.json"@, "risk-pack.json"@, "CHANGELOG.md"@,
    ]
}

pub fn deployment_files(expert_name: &str) -> (r: Vec<String>)
    ensures
        string_views(r@) == deployment_file_names(expert_name@),
{
    let mut files: Vec<String> = Vec::new();
    let mut source = owned(expert_name);
    push_str(&mut source, ".mq5");
    files.push(source);
    let mut settings = owned(expert_name);
    push_str(&mut settings, ".set");
    files.push(settings);
    let mut tester = owned(expert_name);
    push_str(&mut tester, ".tester.ini");
    files.push(tester);
    files.push(owned("strategy.ir.json"));
    files.push(owned("broker-spec.json"));
    files.push(owned("export-evidence.json"));
    files.push(owned("risk-pack.json"));
    files.push(owned("CHANGELOG.md"));
    assert(string_views(files@) =~= deployment_file_names(expert_name@));
    files
}

/// The changelog written into every pack.
pub open spec fn changelog_text(
    entry_id: Seq<char>,
    fingerprint: Seq<char>,
    broker_hash: Seq<char>,
    parity_hash: Seq<char>,
    source_hash: Seq<char>,
    expert: Seq<char>,
    symbol: Seq<char>,
    timeframe: Seq<char>,
    magic: u64,
) -> Seq<char> {
    "# QuantForge Deployment Changelog\n\n## Initial certified build\n\n- Vault entry: `"@ + entry_id
        + "`\n- Strategy fingerprint: `"@ + fingerprint + "`\n- Broker specification: `"@ + broker_hash
        + "`\n- External MT5 parity artifact: `"@ + parity_hash + "`\n- Parity-passed EA source: `"@ + source_hash
        + "`\n- Expert: `"@ + expert + "`\n- Symbol/timeframe: `"@ + symbol + "` / `"@ + timeframe
        + "`\n- Magic: `"@ + decimal(magic as nat)
        + "`\n- Paper incubation: `passed and reverified`\n- Live trading default: `false`\n\nThis pack reproduces the exact source and settings that passed external parity. Certification and incubation are not guarantees of future performance.\n"@
}

pub fn deployment_changelog(
    entry_id: &str,
    fingerprint: &str,
    broker_hash: &str,
    parity_hash: &str,
    source_hash: &str,
    expert: &str,
    symbol: &str,
    timeframe: &str,
    magic: u64,
) -> (r: String)
    ensures
        r@ == changelog_text(entry_id@, fingerprint@, broker_hash@, parity_hash@, source_hash@, expert@, symbol@, timeframe@, magic),
{
    let mut text = owned("# QuantForge Deployment Changelog\n\n## Initial certified build\n\n- Vault entry: `");
    push_str(&mut text, entry_id);
    push_str(&mut text, "`\n- Strategy fingerprint: `");
    push_str(&mut text, fingerprint);
    push_str(&mut text, "`\n- Broker specification: `");
    push_str(&mut text, broker_hash);
    push_str(&mut text, "`\n- External MT5 parity artifact: `");
    push_str(&mut text, parity_hash);
    push_str(&mut text, "`\n- Parity-passed EA source: `");
    push_str(&mut text, source_hash);
    push_str(&mut text, "`\n- Expert: `");
    push_str(&mut text, expert);
    push_str(&mut text, "`\n- Symbol/timeframe: `");
    push_str(&mut text, symbol);
    push_str(&mut text, "` / `");
    push_str(&mut text, timeframe);
    push_str(&mut text, "`\n- Magic: `");
    push_decimal(&mut text, magic);
    push_str(&mut text, "`\n- Paper incubation: `passed and reverified`\n- Live trading default: `false`\n\nThis pack reproduces the exact source and settings that passed external parity. Certification and incubation are not guarantees of future performance.\n");
    text
}

/// The view of a written pack: graded `deployed`, live trading off, its
/// manifest counted among its files.
pub fn deploy_view(
    output_directory: String,
    deployment_id: String,
    expert_name: String,
    symbol: String,
    timeframe: String,
    magic: u64,
    file_count: usize,
    certification_warnings: usize,
) -> (r: DeployView)
    ensures
        r.output_directory == output_directory,
        r.deployment_id == deployment_id,
        r.grade@ == "deployed"@,
        r.expert_name == expert_name,
        r.symbol == symbol,
        r.timeframe == timeframe,
        r.magic == magic,
        r.file_count == file_count,
        !r.live_trading_default,
        r.certification_warnings == certification_warnings,
{
    DeployView {
        output_directory,
        deployment_id,
        grade: owned("deployed"),
        expert_name,
        symbol,
        timeframe,
        magic,
        file_count,
        live_trading_default: false,
        certification_warnings,
    }
}

} // verus!
