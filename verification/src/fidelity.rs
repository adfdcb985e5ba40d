//! The M1 fidelity retest of H1-scout elites: which gate decides each row,
//! how the run is tallied, and which time zone a source without metadata gets.
use vstd::prelude::*;
use crate::text::owned;

verus! {

/// Which sentence explains a retested elite.
#[derive(PartialEq, Eq, Structural, Debug, Clone, Copy)]
pub enum FidelityReason {
    /// All three retention bands held.
    Passed,
    /// M1 drawdown grew beyond the allowed multiple of H1 drawdown.
    Drawdown,
    /// M1 return kept less than the required share of H1 return.
    ReturnRetention,
    /// M1 kept less than the required share of H1 trades.
    TradeRetention,
}

/// An elite passes when return, trade count and drawdown all stay in band;
/// a failure is explained by drawdown first, then return, then trades.
pub open spec fn fidelity_reason_spec(return_ok: bool, trades_ok: bool, drawdown_ok: bool) -> FidelityReason {
    if return_ok && trades_ok && drawdown_ok {
        FidelityReason::Passed
    } else if !drawdown_ok {
        FidelityReason::Drawdown
    } else if !return_ok {
        FidelityReason::ReturnRetention
    } else {
        FidelityReason::TradeRetention
    }
}

pub fn fidelity_reason(return_ok: bool, trades_ok: bool, drawdown_ok: bool) -> (r: FidelityReason)
    ensures
        r == fidelity_reason_spec(return_ok, trades_ok, drawdown_ok),
        (r == FidelityReason::Passed) <==> (return_ok && trades_ok && drawdown_ok),
{
    if return_ok && trades_ok && drawdown_ok {
        FidelityReason::Passed
    } else if !drawdown_ok {
        FidelityReason::Drawdown
    } else if !return_ok {
        FidelityReason::ReturnRetention
    } else {
        FidelityReason::TradeRetention
    }
}

/// Number of passing rows among the first `n`.
pub open spec fn passed_count(rows: Seq<bool>, n: int) -> int
    decreases n,
{
    if n <= 0 {
        0
    } else {
        passed_count(rows, n - 1) + if rows[n - 1] { 1int } else { 0int }
    }
}

/// Totals of a fidelity run.
pub struct FidelityTally {
    pub evaluated: usize,
    pub passed: usize,
    pub failed: usize,
}

/// Counts the evaluated, passing and failing rows; every row is one or the other.
pub fn fidelity_tally(passed_rows: &Vec<bool>) -> (r: FidelityTally)
    ensures
        r.evaluated == passed_rows.len(),
        r.passed == passed_count(passed_rows@, passed_rows.len() as int),
        r.passed + r.failed == r.evaluated,
{
    let mut passed: usize = 0;
    let mut i: usize = 0;
    while i < passed_rows.len()
        invariant
            i <= passed_rows.len(),
            passed == passed_count(passed_rows@, i as int),
            passed <= i,
        decreases passed_rows.len() - i,
    {
        if passed_rows[i] {
            passed = passed + 1;
        }
        i = i + 1;
    }
    FidelityTally { evaluated: passed_rows.len(), passed, failed: passed_rows.len() - passed }
}

/// The time zone assumed for a source: none when it has export metadata (the
/// metadata decides), else the requested zone, else `Etc/UTC`.
pub open spec fn assumed_timezone(has_metadata: bool, requested: Option<Seq<char>>) -> Option<Seq<char>> {
    if has_metadata {
        None
    } else {
        match requested {
            Some(zone) => Some(zone),
            None => Some("Etc/UTC"@),
        }
    }
}

pub fn source_timezone_hint(has_metadata: bool, requested: Option<&str>) -> (r: Option<String>)
    ensures
        match assumed_timezone(has_metadata, match requested { Some(z) => Some(z@), None => None }) {
            None => r is None,
            Some(zone) => r matches Some(z) && z@ == zone,
        },
{
    if has_metadata {
        None
    } else {
        match requested {
            Some(zone) => Some(owned(zone)),
            None => Some(owned("Etc/UTC")),
        }
    }
}

} // verus!
