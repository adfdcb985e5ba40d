//! Portfolio construction from a Databank: which archives qualify, which
//! objective is packed for, and how strategies are grouped for exposure caps.
use vstd::prelude::*;
use crate::databank::{NicheKey, ThreeLevelBucket};
use crate::text::{decimal, owned, push_decimal, push_str, str_eq};

verus! {

/// What a portfolio is packed to optimise.
#[derive(Debug, Clone, Copy, PartialEq, Eq)]
pub enum PortfolioObjective {
    RiskAdjustedReturn,
    Cvar,
    MinimizeDrawdown,
}

pub open spec fn objective_named(name: Seq<char>) -> Option<PortfolioObjective> {
    if name == "risk_adjusted_return"@ {
        Some(PortfolioObjective::RiskAdjustedReturn)
    } else if name == "cvar"@ {
        Some(PortfolioObjective::Cvar)
    } else if name == "minimize_drawdown"@ {
        Some(PortfolioObjective::MinimizeDrawdown)
    } else {
        None
    }
}

pub fn parse_portfolio_objective(value: &str) -> (r: Result<PortfolioObjective, String>)
    ensures
        match objective_named(value@) {
            Some(o) => r == Ok::<PortfolioObjective, String>(o),
            None => r matches Err(m) && m@ == "unknown portfolio objective "@ + value@,
        },
{
    if str_eq(value, "risk_adjusted_return") {
        Ok(PortfolioObjective::RiskAdjustedReturn)
    } else if str_eq(value, "cvar") {
        Ok(PortfolioObjective::Cvar)
    } else if str_eq(value, "minimize_drawdown") {
        Ok(PortfolioObjective::MinimizeDrawdown)
    } else {
        let mut message = owned("unknown portfolio objective ");
        push_str(&mut message, value);
        Err(message)
    }
}

pub open spec fn level_word(level: ThreeLevelBucket) -> Seq<char> {
    match level {
        ThreeLevelBucket::Low => "low"@,
        ThreeLevelBucket::Medium => "medium"@,
        ThreeLevelBucket::High => "high"@,
    }
}

fn level_text(level: ThreeLevelBucket) -> (r: &'static str)
    ensures
        r@ == level_word(level),
{
    match level {
        ThreeLevelBucket::Low => "low",
        ThreeLevelBucket::Medium => "medium",
        ThreeLevelBucket::High => "high",
    }
}

/// The diversification group of a strategy: its entry-condition count, trade
/// frequency and hold time, e.g. `e2/medium/low`.
pub fn behavior_cohort(niche: &NicheKey) -> (r: String)
    ensures
        r@ == "e"@ + decimal(niche.entry_conditions as nat) + "/"@ + level_word(niche.trade_frequency) + "/"@
            + level_word(niche.hold_time),
{
    let mut text = owned("e");
    push_decimal(&mut text, niche.entry_conditions as u64);
    push_str(&mut text, "/");
    push_str(&mut text, level_text(niche.trade_frequency));
    push_str(&mut text, "/");
    push_str(&mut text, level_text(niche.hold_time));
    text
}

/// What portfolio construction reads from the Discover archive.
#[derive(Debug, Clone, PartialEq, Eq)]
pub struct PortfolioDatabankFacts {
    pub command: String,
    pub data_hash_bound: bool,
    pub broker_hash_bound: bool,
    pub grammar_version: Option<String>,
    pub current_grammar_version: String,
    pub override_flag_count: usize,
    pub quality_failed: bool,
    pub broker_matches: bool,
    pub coverage_matches: bool,
    pub qd_score_matches: bool,
    pub config_matches: bool,
    pub m1_fidelity_verified: bool,
}

pub open spec fn portfolio_databank_intact(f: PortfolioDatabankFacts) -> bool {
    &&& f.command@ == "evolve"@
    &&& f.data_hash_bound
    &&& f.broker_hash_bound
    &&& (f.grammar_version matches Some(g) && g@ == f.current_grammar_version@)
    &&& f.override_flag_count == 0
    &&& !f.quality_failed
    &&& f.broker_matches
    &&& f.coverage_matches
    &&& f.qd_score_matches
    &&& f.config_matches
}

/// A portfolio is built only from an intact, promotion-grade archive whose
/// strategies passed the explicit M1 fidelity gate.
pub fn verify_portfolio_databank(integrity: Result<(), String>, facts: &PortfolioDatabankFacts) -> (r: Result<(), String>)
    ensures
        match integrity {
            Err(e) => r == Err::<(), String>(e),
            Ok(()) => if !portfolio_databank_intact(*facts) {
                r matches Err(m) && m@ == "portfolio requires an intact, promotion-grade databank"@
            } else if !facts.m1_fidelity_verified {
                r matches Err(m) && m@ == "databank is research-grade (Selected-TF Discover only). Run Results → M1 fidelity gate before Portfolio."@
            } else {
                r is Ok
            },
        },
{
    match integrity {
        Err(e) => return Err(e),
        Ok(()) => {},
    }
    let grammar = match &facts.grammar_version {
        Some(g) => str_eq(g.as_str(), facts.current_grammar_version.as_str()),
        None => false,
    };
    let intact = str_eq(facts.command.as_str(), "evolve") && facts.data_hash_bound && facts.broker_hash_bound
        && grammar && facts.override_flag_count == 0 && !facts.quality_failed && facts.broker_matches
        && facts.coverage_matches && facts.qd_score_matches && facts.config_matches;
    if !intact {
        return Err(owned("portfolio requires an intact, promotion-grade databank"));
    }
    if !facts.m1_fidelity_verified {
        return Err(owned("databank is research-grade (Selected-TF Discover only). Run Results → M1 fidelity gate before Portfolio."));
    }
    Ok(())
}

} // verus!
