//! Results robustness on a stored elite: which quote data it may run on,
//! the gates it derives from the Discover settings, how an outcome reads,
//! and where its artifact is written.
use vstd::prelude::*;
use crate::databank::{robustness_reject_code, robustness_reject_detail, robustness_reject_text, safe_file_stem, safe_stem, RobustnessReject};
use crate::paths::{join, parent, path_join, path_parent};
use crate::text::{contains, contains_str, eq_ignore_ascii_case, eq_ignore_case, from_chars, lower_seq, lower_str, owned, push_str, to_char_vec};

verus! {

/// Canonical bid/ask M1 metadata as Results robustness reads it: a `bid` or
/// `bid_ask` price basis (any ASCII case) and an import kind that mentions
/// `bid_ask` (any ASCII case). Absent metadata has neither property.
pub open spec fn canonical_bid_ask(price_basis: Option<Seq<char>>, import_kind: Option<Seq<char>>) -> bool {
    &&& (price_basis matches Some(basis) && (eq_ignore_case(basis, "bid"@) || eq_ignore_case(basis, "bid_ask"@)))
    &&& (import_kind matches Some(kind) && contains(lower_seq(kind), "bid_ask"@))
}

pub fn metadata_is_canonical_bid_ask(price_basis: Option<&str>, import_kind: Option<&str>) -> (r: bool)
    ensures
        r == canonical_bid_ask(
            match price_basis { Some(p) => Some(p@), None => None },
            match import_kind { Some(k) => Some(k@), None => None },
        ),
{
    let basis_ok = match price_basis {
        Some(basis) => eq_ignore_ascii_case(basis, "bid") || eq_ignore_ascii_case(basis, "bid_ask"),
        None => false,
    };
    if !basis_ok {
        return false;
    }
    match import_kind {
        Some(kind) => {
            let lowered = lower_str(kind);
            contains_str(lowered.as_str(), "bid_ask")
        },
        None => false,
    }
}

/// Why Results robustness refuses the bound market data, if it does: canonical
/// bid/ask metadata without its sidecar, or a pending-order strategy without quotes.
pub open spec fn quote_refusal(has_quotes: bool, canonical: bool, pending_entry: bool) -> Option<Seq<char>> {
    if !has_quotes && canonical {
        Some("canonical bid/ask M1 metadata is present but its .quotes.csv sidecar was not found"@)
    } else if !has_quotes && pending_entry {
        Some("stop/limit strategies require a bid/ask M1 quote sidecar for Results robustness (re-import ticks with qf-import-market and install_icmarkets_pack.py)"@)
    } else {
        None
    }
}

/// A strategy needs intrabar quotes when its own entry is a stop or limit order,
/// or when the Discover run allowed either kind.
pub open spec fn needs_pending_quotes(entry_is_pending: bool, allow_stop: bool, allow_limit: bool) -> bool {
    entry_is_pending || allow_stop || allow_limit
}

pub fn check_quote_requirement(has_quotes: bool, canonical: bool, entry_is_pending: bool, allow_stop: bool, allow_limit: bool)
    -> (r: Result<(), String>)
    ensures
        match quote_refusal(has_quotes, canonical, needs_pending_quotes(entry_is_pending, allow_stop, allow_limit)) {
            None => r is Ok,
            Some(message) => r matches Err(m) && m@ == message,
        },
{
    if !has_quotes && canonical {
        return Err(owned("canonical bid/ask M1 metadata is present but its .quotes.csv sidecar was not found"));
    }
    let pending = entry_is_pending || allow_stop || allow_limit;
    if pending && !has_quotes {
        return Err(owned("stop/limit strategies require a bid/ask M1 quote sidecar for Results robustness (re-import ticks with qf-import-market and install_icmarkets_pack.py)"));
    }
    Ok(())
}

/// Per-fold trade floor: the deposit gate's minimum trade count clamped into `1..=2`.
pub fn minimum_fold_trades(minimum_trades: usize) -> (r: usize)
    ensures
        r == (if minimum_trades < 1 { 1 } else if minimum_trades > 2 { 2 } else { minimum_trades }),
        1 <= r <= 2,
{
    if minimum_trades < 1 {
        1
    } else if minimum_trades > 2 {
        2
    } else {
        minimum_trades
    }
}

/// The message shown when every robustness gate passed.
pub open spec fn robustness_pass_message() -> Seq<char> {
    "Passed M1 retention, walk-forward, Monte Carlo and parameter-neighborhood gates."@
}

/// What a Results robustness run reports.
pub struct RobustnessOutcome {
    pub passed: bool,
    pub blocker: Option<String>,
    pub message: String,
}

/// What a run reports: a pass, or the blocker and the explanation of the
/// gate that refused the strategy.
pub fn robustness_outcome(reject: Option<RobustnessReject>) -> (r: RobustnessOutcome)
    ensures
        match reject {
            None => r.passed && r.blocker is None && r.message@ == robustness_pass_message(),
            Some(x) => !r.passed && r.message@ == robustness_reject_text(x) && (r.blocker matches Some(b) && b@ == robustness_reject_code(x)),
        },
{
    match reject {
        None => RobustnessOutcome {
            passed: true,
            blocker: None,
            message: owned("Passed M1 retention, walk-forward, Monte Carlo and parameter-neighborhood gates."),
        },
        Some(x) => {
            let (code, text) = robustness_reject_detail(x);
            RobustnessOutcome { passed: false, blocker: Some(owned(code)), message: owned(text) }
        },
    }
}

/// At most the first `n` characters.
pub open spec fn take_chars(s: Seq<char>, n: nat) -> Seq<char> {
    if s.len() <= n { s } else { s.subrange(0, n as int) }
}

/// `Robustness/` beside the databank (or under `.` when it has no parent).
pub open spec fn robustness_directory(databank_path: Seq<char>) -> Seq<char> {
    let base = match path_parent(databank_path) {
        Some(p) => p,
        None => "."@,
    };
    path_join(base, "Robustness"@)
}

pub open spec fn robustness_file_name(strategy_id: Seq<char>, fingerprint: Seq<char>, run_id: Seq<char>) -> Seq<char> {
    safe_stem(strategy_id) + "-"@ + take_chars(fingerprint, 12) + "-"@ + run_id + ".robustness.json"@
}

/// The artifact of one Results robustness run:
/// `<databank dir>/Robustness/<safe id>-<first 12 of fingerprint>-<run id>.robustness.json`.
pub fn robustness_artifact_path(databank_path: &str, strategy_id: &str, fingerprint: &str, run_id: &str) -> (r: String)
    ensures
        r@ == path_join(robustness_directory(databank_path@), robustness_file_name(strategy_id@, fingerprint@, run_id@)),
{
    let base = match parent(databank_path) {
        Some(p) => p,
        None => owned("."),
    };
    let directory = join(base.as_str(), "Robustness");
    let chars = to_char_vec(fingerprint);
    let mut short: Vec<char> = Vec::new();
    let mut i: usize = 0;
    while i < chars.len() && i < 12
        invariant
            chars@ == fingerprint@,
            i <= chars.len(),
            i <= 12,
            short@ == fingerprint@.subrange(0, i as int),
        decreases chars.len() - i,
    {
        short.push(chars[i]);
        proof {
            assert(fingerprint@.subrange(0, i + 1) == fingerprint@.subrange(0, i as int).push(fingerprint@[i as int]));
        }
        i = i + 1;
    }
    proof {
        if fingerprint@.len() <= 12 {
            assert(fingerprint@.subrange(0, fingerprint@.len() as int) == fingerprint@);
        }
    }
    let mut name = safe_file_stem(strategy_id);
    push_str(&mut name, "-");
    let short_text = from_chars(&short);
    push_str(&mut name, short_text.as_str());
    push_str(&mut name, "-");
    push_str(&mut name, run_id);
    push_str(&mut name, ".robustness.json");
    join(directory.as_str(), name.as_str())
}

/// Which decision bars a Results retest may use.
#[derive(PartialEq, Eq, Structural, Debug, Clone, Copy)]
pub enum DecisionPartition {
    /// The rebuilt series already hashes to the databank's In-Sample hash.
    Full,
    /// Only the chronological Development prefix reproduces the hash.
    Development,
}

pub open spec fn partition_mismatch_message() -> Seq<char> {
    "The bound decision/M1 files no longer reproduce this databank's IS hash; robustness refuses to test a different sample."@
}

/// Chooses the retest sample: the full series when its hash matches, else the
/// Development prefix when that matches; a split error or a second mismatch refuses.
pub fn decision_partition(full_hash_matches: bool, development_hash_matches: Result<bool, String>) -> (r: Result<DecisionPartition, String>)
    ensures
        full_hash_matches ==> r == Ok::<DecisionPartition, String>(DecisionPartition::Full),
        !full_hash_matches ==> match development_hash_matches {
            Err(e) => r matches Err(m) && m@ == e@,
            Ok(true) => r == Ok::<DecisionPartition, String>(DecisionPartition::Development),
            Ok(false) => r matches Err(m) && m@ == partition_mismatch_message(),
        },
{
    if full_hash_matches {
        return Ok(DecisionPartition::Full);
    }
    match development_hash_matches {
        Err(e) => Err(e),
        Ok(true) => Ok(DecisionPartition::Development),
        Ok(false) => Err(owned("The bound decision/M1 files no longer reproduce this databank's IS hash; robustness refuses to test a different sample.")),
    }
}

} // verus!
