//! What Discover checks and derives before a worker starts: request
//! validation, grammar bounds, run modes, symbol binding and archive paths.
use vstd::prelude::*;
use crate::discover::{DiscoverMode, JobStatus};
use crate::paths::{file_name, path_exists, path_file_name};
use crate::text::{blank, contains, decimal, eq_ignore_ascii_case, eq_ignore_case, ends_with, is_blank, lower_seq, lower_str, owned, push_decimal, push_signed_decimal, push_str, signed_decimal, split, str_eq, strip_suffix_str, trim, trim_str, upper_seq, upper_str};

verus! {

/// Most entry conditions the universal grammar can emit.
pub const MAX_ENTRY_CONDITIONS: usize = 4;
/// Most exit conditions the universal grammar can emit.
pub const MAX_EXIT_CONDITIONS: usize = 3;

/// The search's sampling mode.
#[derive(Debug, Clone, Copy, PartialEq, Eq, Structural)]
pub enum RunMode {
    FastScout,
    FullHarvest,
    QuotaHarvest,
    HighPerformanceIslands,
}

pub open spec fn spec_parse_run_mode(value: Seq<char>) -> Option<RunMode> {
    let key = lower_seq(trim(value));
    if key == "fast_scout"@ || key == "fastscout"@ || key == "scout"@ {
        Some(RunMode::FastScout)
    } else if key == "full_harvest"@ || key == "fullharvest"@ || key == "harvest"@ {
        Some(RunMode::FullHarvest)
    } else if key == "quota_harvest"@ || key == "quotaharvest"@ || key == "quota"@ {
        Some(RunMode::QuotaHarvest)
    } else if key == "high_performance_islands"@ || key == "highperformanceislands"@ || key
        == "islands"@ {
        Some(RunMode::HighPerformanceIslands)
    } else {
        None
    }
}

pub fn parse_run_mode(value: &str) -> (r: Option<RunMode>)
    ensures
        r == spec_parse_run_mode(value@),
{
    let trimmed = trim_str(value);
    let key = lower_str(trimmed.as_str());
    let k = key.as_str();
    if str_eq(k, "fast_scout") || str_eq(k, "fastscout") || str_eq(k, "scout") {
        Some(RunMode::FastScout)
    } else if str_eq(k, "full_harvest") || str_eq(k, "fullharvest") || str_eq(k, "harvest") {
        Some(RunMode::FullHarvest)
    } else if str_eq(k, "quota_harvest") || str_eq(k, "quotaharvest") || str_eq(k, "quota") {
        Some(RunMode::QuotaHarvest)
    } else if str_eq(k, "high_performance_islands") || str_eq(k, "highperformanceislands")
        || str_eq(k, "islands") {
        Some(RunMode::HighPerformanceIslands)
    } else {
        None
    }
}

/// Entry/exit cardinality and completed-bar shift bounds of the universal grammar.
#[derive(Debug, Clone, Copy, PartialEq, Eq, Structural)]
pub struct GrammarBounds {
    pub minimum_entry_conditions: usize,
    pub maximum_entry_conditions: usize,
    pub minimum_exit_conditions: usize,
    pub maximum_exit_conditions: usize,
    pub minimum_shift: usize,
    pub maximum_shift: usize,
}

pub open spec fn spec_grammar_refusal(g: GrammarBounds) -> Option<Seq<char>> {
    if g.minimum_entry_conditions < 2 || g.maximum_entry_conditions > MAX_ENTRY_CONDITIONS
        || g.minimum_entry_conditions > g.maximum_entry_conditions {
        Some("entry conditions must be an ordered range within 2..=4"@)
    } else if g.minimum_exit_conditions == 0 || g.maximum_exit_conditions > MAX_EXIT_CONDITIONS
        || g.minimum_exit_conditions > g.maximum_exit_conditions {
        Some("exit conditions must be an ordered range within 1..=3"@)
    } else if g.minimum_shift == 0 || g.minimum_shift > g.maximum_shift {
        Some("completed-bar shifts must be an ordered range starting at 1"@)
    } else {
        None
    }
}

pub fn validate_universal_grammar(grammar: &GrammarBounds) -> (r: Result<(), String>)
    ensures
        spec_grammar_refusal(*grammar) is None ==> r is Ok,
        spec_grammar_refusal(*grammar) matches Some(msg) ==> (r matches Err(e) && e@ == msg),
{
    if grammar.minimum_entry_conditions < 2 || grammar.maximum_entry_conditions > MAX_ENTRY_CONDITIONS
        || grammar.minimum_entry_conditions > grammar.maximum_entry_conditions {
        return Err(owned("entry conditions must be an ordered range within 2..=4"));
    }
    if grammar.minimum_exit_conditions == 0 || grammar.maximum_exit_conditions > MAX_EXIT_CONDITIONS
        || grammar.minimum_exit_conditions > grammar.maximum_exit_conditions {
        return Err(owned("exit conditions must be an ordered range within 1..=3"));
    }
    if grammar.minimum_shift == 0 || grammar.minimum_shift > grammar.maximum_shift {
        return Err(owned("completed-bar shifts must be an ordered range starting at 1"));
    }
    Ok(())
}

/// Entry-condition counts for the condition tester, first occurrences in input
/// order; an empty request means 2, 3 and 4.
pub open spec fn first_occurrences(values: Seq<usize>) -> Seq<usize>
    decreases values.len(),
{
    if values.len() == 0 {
        Seq::empty()
    } else {
        let rest = first_occurrences(values.drop_last());
        if rest.contains(values.last()) {
            rest
        } else {
            rest.push(values.last())
        }
    }
}

pub open spec fn counts_in_range(values: Seq<usize>) -> bool {
    forall|i: int| 0 <= i < values.len() ==> 2 <= #[trigger] values[i] <= MAX_ENTRY_CONDITIONS
}

pub fn parse_entry_condition_counts(values: &[usize]) -> (r: Result<Vec<usize>, String>)
    ensures
        values@.len() == 0 ==> (r matches Ok(v) && v@ == seq![2usize, 3, 4]),
        values@.len() > 0 && counts_in_range(values@) ==> (r matches Ok(v) && v@ == first_occurrences(values@)),
        !counts_in_range(values@) ==> (r matches Err(e) && exists|i: int|
            0 <= i < values@.len() && !(2 <= values@[i] <= MAX_ENTRY_CONDITIONS)
                && (forall|k: int| 0 <= k < i ==> 2 <= #[trigger] values@[k] <= MAX_ENTRY_CONDITIONS)
                && e@ == "entry-condition counts must be within 2..=4: got "@ + decimal(values@[i] as nat)),
{
    if values.len() == 0 {
        let mut defaults: Vec<usize> = Vec::new();
        defaults.push(2);
        defaults.push(3);
        defaults.push(4);
        return Ok(defaults);
    }
    let mut counts: Vec<usize> = Vec::new();
    let mut i: usize = 0;
    while i < values.len()
        invariant
            i <= values@.len(),
            counts_in_range(values@.subrange(0, i as int)),
            counts@ == first_occurrences(values@.subrange(0, i as int)),
        decreases values.len() - i,
    {
        let value = values[i];
        proof {
            let next = values@.subrange(0, i + 1);
            assert(next.drop_last() == values@.subrange(0, i as int));
            assert(next.last() == value);
        }
        if !(2 <= value && value <= MAX_ENTRY_CONDITIONS) {
            let mut message = owned("entry-condition counts must be within 2..=4: got ");
            push_decimal(&mut message, value as u64);
            proof {
                assert(!counts_in_range(values@));
                assert forall|k: int| 0 <= k < i implies 2 <= #[trigger] values@[k] <= MAX_ENTRY_CONDITIONS by {
                    assert(values@.subrange(0, i as int)[k] == values@[k]);
                }
            }
            return Err(message);
        }
        let mut seen = false;
        let mut j: usize = 0;
        while j < counts.len()
            invariant
                j <= counts@.len(),
                seen == (exists|k: int| 0 <= k < j && counts@[k] == value),
            decreases counts.len() - j,
        {
            if counts[j] == value {
                seen = true;
            }
            j = j + 1;
        }
        if !seen {
            counts.push(value);
        }
        proof {
            assert(seen == counts@.contains(value) || !seen);
        }
        i = i + 1;
    }
    proof {
        assert(values@.subrange(0, values@.len() as int) == values@);
    }
    Ok(counts)
}

/// A selected symbol, when one is given, must name the bound broker symbol (ASCII case-insensitively).
pub open spec fn spec_symbol_mismatch(selected: Option<Seq<char>>, broker_symbol: Seq<char>) -> Option<Seq<char>> {
    match selected {
        None => None,
        Some(raw) => {
            let t = trim(raw);
            if t.len() == 0 || eq_ignore_case(t, broker_symbol) {
                None
            } else {
                Some("selected symbol "@ + t + " does not match the bound data/broker symbol "@
                    + broker_symbol + "; reselect "@ + t + " to refresh all pack paths"@)
            }
        },
    }
}

pub open spec fn opt_view(s: Option<String>) -> Option<Seq<char>> {
    match s {
        Some(v) => Some(v@),
        None => None,
    }
}

pub fn validate_selected_symbol(selected: Option<&str>, broker_symbol: &str) -> (r: Result<(), String>)
    ensures
        ({
            let sel = match selected {
                Some(s) => Some(s@),
                None => None,
            };
            &&& spec_symbol_mismatch(sel, broker_symbol@) is None ==> r is Ok
            &&& spec_symbol_mismatch(sel, broker_symbol@) matches Some(msg) ==> (r matches Err(e) && e@ == msg)
        }),
{
    match selected {
        None => Ok(()),
        Some(raw) => {
            let t = trim_str(raw);
            if t.as_str().unicode_len() == 0 {
                return Ok(());
            }
            if eq_ignore_ascii_case(t.as_str(), broker_symbol) {
                return Ok(());
            }
            let mut message = owned("selected symbol ");
            push_str(&mut message, t.as_str());
            push_str(&mut message, " does not match the bound data/broker symbol ");
            push_str(&mut message, broker_symbol);
            push_str(&mut message, "; reselect ");
            push_str(&mut message, t.as_str());
            push_str(&mut message, " to refresh all pack paths");
            Err(message)
        },
    }
}

/// The upper-cased symbol in a `{SYMBOL}.broker.json` profile name.
pub open spec fn spec_broker_symbol_from_path(path: Seq<char>) -> Option<Seq<char>> {
    match path_file_name(path) {
        Some(name) => if ends_with(name, ".broker.json"@) {
            Some(upper_seq(name.subrange(0, name.len() - ".broker.json"@.len())))
        } else {
            None
        },
        None => None,
    }
}

pub fn broker_symbol_from_path(path: &str) -> (r: Option<String>)
    ensures
        opt_view(r) == spec_broker_symbol_from_path(path@),
{
    let name = file_name(path);
    match name {
        Some(name) => {
            let base = strip_suffix_str(name.as_str(), ".broker.json");
            match base {
                Some(base) => Some(upper_str(base.as_str())),
                None => None,
            }
        },
        None => None,
    }
}

/// `|n|` for the truncating arithmetic Rust applies to negative intervals.
pub open spec fn magnitude(n: int) -> nat {
    if n < 0 { (-n) as nat } else { n as nat }
}

/// Label of the inferred decision bar length: whole hours as `H{h}`, else `M{m}`.
pub open spec fn spec_timeframe_label(interval_ms: Option<i64>) -> Result<Seq<char>, Seq<char>> {
    match interval_ms {
        None => Err("cannot infer the decision timeframe"@),
        Some(ms) => {
            let m = magnitude(ms as int);
            if m % 60_000 != 0 {
                Err("decision timeframe must be a whole number of minutes"@)
            } else {
                let minutes: int = if ms < 0 { -((m / 60_000) as int) } else { (m / 60_000) as int };
                if magnitude(minutes) % 60 == 0 {
                    Ok("H"@ + signed_decimal(if minutes < 0 { -((magnitude(minutes) / 60) as int) } else { (magnitude(minutes) / 60) as int }))
                } else {
                    Ok("M"@ + signed_decimal(minutes))
                }
            }
        },
    }
}

/// `interval_ms` is the median bar spacing of the decision dataset, when one can be inferred.
pub fn decision_timeframe_label(interval_ms: Option<i64>) -> (r: Result<String, String>)
    ensures
        match spec_timeframe_label(interval_ms) {
            Ok(label) => r matches Ok(s) && s@ == label,
            Err(msg) => r matches Err(e) && e@ == msg,
        },
{
    let ms = match interval_ms {
        Some(ms) => ms,
        None => return Err(owned("cannot infer the decision timeframe")),
    };
    let negative = ms < 0;
    let m: u64 = if ms == i64::MIN {
        9_223_372_036_854_775_808u64
    } else if negative {
        (-ms) as u64
    } else {
        ms as u64
    };
    if m % 60_000 != 0 {
        return Err(owned("decision timeframe must be a whole number of minutes"));
    }
    let minutes_mag: u64 = m / 60_000;
    assert(minutes_mag <= 153_722_867_280_912);
    let minutes: i64 = if negative { -(minutes_mag as i64) } else { minutes_mag as i64 };
    if minutes_mag % 60 == 0 {
        let hours_mag = minutes_mag / 60;
        let hours: i64 = if negative { -(hours_mag as i64) } else { hours_mag as i64 };
        let mut label = owned("H");
        push_signed_decimal(&mut label, hours);
        proof {
            assert(magnitude(minutes as int) == minutes_mag);
        }
        Ok(label)
    } else {
        let mut label = owned("M");
        push_signed_decimal(&mut label, minutes);
        proof {
            assert(magnitude(minutes as int) == minutes_mag);
        }
        Ok(label)
    }
}

/// The multi-symbol screen: a continuation keeps its archived gate, a new run
/// takes the request's value (off by default).
pub fn requested_multi_symbol_minimum_pass(
    mode: DiscoverMode,
    continued_minimum_pass: Option<usize>,
    requested: Option<usize>,
) -> (r: usize)
    ensures
        mode == DiscoverMode::Continue && continued_minimum_pass is Some ==> r == continued_minimum_pass->0,
        !(mode == DiscoverMode::Continue && continued_minimum_pass is Some) ==> r == (match requested {
            Some(v) => v,
            None => 0,
        }),
{
    match (mode, continued_minimum_pass) {
        (DiscoverMode::Continue, Some(archived)) => archived,
        _ => match requested {
            Some(v) => v,
            None => 0,
        },
    }
}

/// Canonical bid/ask M1 metadata as Discover reads it: a bid price basis and a
/// bid/ask import kind.
pub open spec fn spec_discover_canonical_bid_ask(price_basis: Option<Seq<char>>, import_kind: Option<Seq<char>>) -> bool {
    &&& price_basis matches Some(p) && eq_ignore_case(p, "bid"@)
    &&& import_kind matches Some(k) && contains(lower_seq(k), "bid_ask"@)
}

pub fn metadata_is_canonical_bid_ask(price_basis: Option<&str>, import_kind: Option<&str>) -> (r: bool)
    ensures
        r == spec_discover_canonical_bid_ask(
            match price_basis { Some(p) => Some(p@), None => None },
            match import_kind { Some(k) => Some(k@), None => None },
        ),
{
    let basis_ok = match price_basis {
        Some(p) => eq_ignore_ascii_case(p, "bid"),
        None => false,
    };
    let kind_ok = match import_kind {
        Some(k) => {
            let lowered = lower_str(k);
            crate::text::contains_str(lowered.as_str(), "bid_ask")
        },
        None => false,
    };
    basis_ok && kind_ok
}

/// Worker threads a `0 = all CPUs` setting resolves to; `available` is the
/// machine's logical CPU count when it can be read.
pub fn effective_worker_threads(configured: usize, available: Option<usize>) -> (r: usize)
    ensures
        configured > 0 ==> r == configured,
        configured == 0 ==> r == (match available { Some(n) => n, None => 1 }),
{
    if configured > 0 {
        return configured;
    }
    match available {
        Some(n) => n,
        None => 1,
    }
}

/// Quota Harvest always carries a Databank target, 400 by default, kept within 40..=10000.
pub open spec fn spec_quota_target(run_mode: Option<RunMode>, target: Option<usize>) -> Option<usize> {
    if run_mode == Some(RunMode::QuotaHarvest) {
        let t = match target {
            Some(t) => t,
            None => 400,
        };
        Some(if t < 40 { 40 } else if t > 10_000 { 10_000 } else { t })
    } else {
        target
    }
}

pub fn quota_target(run_mode: Option<RunMode>, target: Option<usize>) -> (r: Option<usize>)
    ensures
        r == spec_quota_target(run_mode, target),
{
    if run_mode == Some(RunMode::QuotaHarvest) {
        let t = match target {
            Some(t) => t,
            None => 400,
        };
        Some(if t < 40 { 40 } else if t > 10_000 { 10_000 } else { t })
    } else {
        target
    }
}

/// A single-asset job starts only while no Discover job or portfolio campaign is active.
pub fn check_discover_start(single_status: JobStatus, campaign_status: JobStatus) -> (r: Result<(), String>)
    ensures
        single_status.is_active() ==> (r matches Err(e) && e@ == "a discovery job is already active"@),
        !single_status.is_active() && campaign_status == JobStatus::Running ==> (r matches Err(e)
            && e@ == "a multi-asset Discover campaign is active; stop it before starting a single-asset job"@),
        !single_status.is_active() && campaign_status != JobStatus::Running ==> r is Ok,
{
    if single_status == JobStatus::Running || single_status == JobStatus::Paused {
        return Err(owned("a discovery job is already active"));
    }
    if campaign_status == JobStatus::Running {
        return Err(owned("a multi-asset Discover campaign is active; stop it before starting a single-asset job"));
    }
    Ok(())
}

/// What a Discover request says, with the outcomes of the checks that need the
/// market-data and broker libraries already taken.
#[derive(Debug)]
pub struct DiscoverRequestFacts {
    pub mode: DiscoverMode,
    pub data_path: String,
    pub m1_data_path: String,
    pub broker_path: String,
    pub databank_path: String,
    pub selected_symbol: Option<String>,
    /// Symbol of the broker profile at `broker_path`, or why it failed to load (consulted for new runs).
    pub bound_broker_symbol: Result<String, String>,
    pub universal_grammar: Option<GrammarBounds>,
    pub sl_tp_only_exits: Option<bool>,
    pub run_mode: Option<String>,
    /// Outcome of normalising the requested history start year (new runs).
    pub history_start_year_check: Result<(), String>,
    /// Outcome of checking the OOS1/sealed split fractions (new runs).
    pub split_fraction_check: Result<(), String>,
    pub run_until_stopped: Option<bool>,
    pub generations: u64,
    /// How many new-search settings the request carries.
    pub new_search_overrides: usize,
}

pub open spec fn err_view(r: Result<(), String>) -> Option<Seq<char>> {
    match r {
        Ok(()) => None,
        Err(e) => Some(e@),
    }
}

/// The first reason `validate_request` refuses a request, in its order of checks.
pub open spec fn spec_request_refusal(f: DiscoverRequestFacts, databank_exists: bool) -> Option<Seq<char>> {
    if is_blank(f.data_path@) || is_blank(f.m1_data_path@) || is_blank(f.broker_path@) || is_blank(
        f.databank_path@,
    ) {
        Some("data, broker and databank paths are required"@)
    } else if f.mode == DiscoverMode::New && (f.selected_symbol is None || is_blank(f.selected_symbol->0@)) {
        Some("select a symbol before starting Discover"@)
    } else if f.mode == DiscoverMode::New && f.bound_broker_symbol is Err {
        Some(f.bound_broker_symbol->Err_0@)
    } else if f.mode == DiscoverMode::New && spec_symbol_mismatch(opt_view(f.selected_symbol), f.bound_broker_symbol->Ok_0@) is Some {
        spec_symbol_mismatch(opt_view(f.selected_symbol), f.bound_broker_symbol->Ok_0@)
    } else if f.mode == DiscoverMode::New && f.universal_grammar is Some && spec_grammar_refusal(f.universal_grammar->0) is Some {
        spec_grammar_refusal(f.universal_grammar->0)
    } else if f.mode == DiscoverMode::New && f.universal_grammar is Some
        && (match f.sl_tp_only_exits { Some(b) => b, None => true })
        && f.universal_grammar->0.minimum_entry_conditions > 3 {
        Some("SL/TP-only exits allow 2–3 entry conditions; lower the minimum entry conditions or switch that profile off"@)
    } else if f.mode == DiscoverMode::New && f.run_mode is Some && spec_parse_run_mode(f.run_mode->0@) is None {
        Some("unknown run mode '"@ + f.run_mode->0@ + "' (use fast_scout, full_harvest, quota_harvest, or high_performance_islands)"@)
    } else if f.mode == DiscoverMode::New && f.history_start_year_check is Err {
        err_view(f.history_start_year_check)
    } else if f.mode == DiscoverMode::New && f.split_fraction_check is Err {
        err_view(f.split_fraction_check)
    } else if !(match f.run_until_stopped { Some(b) => b, None => true }) && f.generations == 0 {
        Some("at least one generation is required when not running until stopped"@)
    } else if f.mode == DiscoverMode::New && databank_exists {
        Some("new discovery refuses to replace an existing databank"@)
    } else if f.mode == DiscoverMode::Continue && !databank_exists {
        Some("continuation requires an existing databank"@)
    } else if f.mode == DiscoverMode::Continue && f.new_search_overrides > 0 {
        Some("continuation uses the immutable configuration stored in the databank; clear all new-search overrides"@)
    } else {
        None
    }
}

/// `validate_request` once it knows whether the databank file exists.
pub fn validate_request_with(facts: &DiscoverRequestFacts, databank_exists: bool) -> (r: Result<(), String>)
    ensures
        spec_request_refusal(*facts, databank_exists) is None ==> r is Ok,
        spec_request_refusal(*facts, databank_exists) matches Some(msg) ==> (r matches Err(e) && e@ == msg),
{
    if blank(facts.data_path.as_str()) || blank(facts.m1_data_path.as_str()) || blank(
        facts.broker_path.as_str(),
    ) || blank(facts.databank_path.as_str()) {
        return Err(owned("data, broker and databank paths are required"));
    }
    let is_new = facts.mode == DiscoverMode::New;
    if is_new {
        let missing = match &facts.selected_symbol {
            None => true,
            Some(s) => blank(s.as_str()),
        };
        if missing {
            return Err(owned("select a symbol before starting Discover"));
        }
        let broker_symbol = match &facts.bound_broker_symbol {
            Ok(symbol) => symbol,
            Err(e) => return Err(e.clone()),
        };
        let selected: Option<&str> = match &facts.selected_symbol {
            Some(s) => Some(s.as_str()),
            None => None,
        };
        match validate_selected_symbol(selected, broker_symbol.as_str()) {
            Ok(()) => {},
            Err(e) => return Err(e),
        }
        match &facts.universal_grammar {
            Some(grammar) => {
                match validate_universal_grammar(grammar) {
                    Ok(()) => {},
                    Err(e) => return Err(e),
                }
                let sl_tp_only = match facts.sl_tp_only_exits {
                    Some(b) => b,
                    None => true,
                };
                if sl_tp_only && grammar.minimum_entry_conditions > 3 {
                    return Err(owned("SL/TP-only exits allow 2–3 entry conditions; lower the minimum entry conditions or switch that profile off"));
                }
            },
            None => {},
        }
        match &facts.run_mode {
            Some(mode) => {
                if parse_run_mode(mode.as_str()).is_none() {
                    let mut message = owned("unknown run mode '");
                    push_str(&mut message, mode.as_str());
                    push_str(&mut message, "' (use fast_scout, full_harvest, quota_harvest, or high_performance_islands)");
                    return Err(message);
                }
            },
            None => {},
        }
        match &facts.history_start_year_check {
            Ok(()) => {},
            Err(e) => return Err(e.clone()),
        }
        match &facts.split_fraction_check {
            Ok(()) => {},
            Err(e) => return Err(e.clone()),
        }
    }
    let run_until_stopped = match facts.run_until_stopped {
        Some(b) => b,
        None => true,
    };
    if !run_until_stopped && facts.generations == 0 {
        return Err(owned("at least one generation is required when not running until stopped"));
    }
    if is_new && databank_exists {
        return Err(owned("new discovery refuses to replace an existing databank"));
    }
    if facts.mode == DiscoverMode::Continue && !databank_exists {
        return Err(owned("continuation requires an existing databank"));
    }
    if facts.mode == DiscoverMode::Continue && facts.new_search_overrides > 0 {
        return Err(owned("continuation uses the immutable configuration stored in the databank; clear all new-search overrides"));
    }
    Ok(())
}

/// How many flags are set.
pub open spec fn count_set(flags: Seq<bool>) -> nat
    decreases flags.len(),
{
    if flags.len() == 0 {
        0
    } else {
        count_set(flags.drop_last()) + if flags.last() { 1nat } else { 0nat }
    }
}

/// The facts `validate_request` judges, gathered from a request: its paths,
/// symbol, grammar and run settings, the outcomes of the checks made outside
/// (the bound broker's symbol, the history start year, the split fractions),
/// and the number of new-search settings given (`configured[i]` tells whether
/// the `i`-th one is).
pub fn request_facts(
    mode: DiscoverMode,
    data_path: String,
    m1_data_path: String,
    broker_path: String,
    databank_path: String,
    selected_symbol: Option<String>,
    bound_broker_symbol: Result<String, String>,
    universal_grammar: Option<GrammarBounds>,
    sl_tp_only_exits: Option<bool>,
    run_mode: Option<String>,
    history_start_year_check: Result<(), String>,
    split_fraction_check: Result<(), String>,
    run_until_stopped: Option<bool>,
    generations: u64,
    configured: &Vec<bool>,
) -> (r: DiscoverRequestFacts)
    ensures
        r == (DiscoverRequestFacts {
            mode, data_path, m1_data_path, broker_path, databank_path, selected_symbol, bound_broker_symbol,
            universal_grammar, sl_tp_only_exits, run_mode, history_start_year_check, split_fraction_check,
            run_until_stopped, generations, new_search_overrides: count_set(configured@) as usize,
        }),
{
    let mut count: usize = 0;
    let mut i: usize = 0;
    while i < configured.len()
        invariant
            i <= configured.len(),
            count == count_set(configured@.subrange(0, i as int)),
            count <= i,
        decreases configured.len() - i,
    {
        proof {
            assert(configured@.subrange(0, i + 1).drop_last() =~= configured@.subrange(0, i as int));
        }
        if configured[i] {
            count = count + 1;
        }
        i = i + 1;
    }
    assert(configured@.subrange(0, configured.len() as int) =~= configured@);
    DiscoverRequestFacts {
        mode, data_path, m1_data_path, broker_path, databank_path, selected_symbol, bound_broker_symbol,
        universal_grammar, sl_tp_only_exits, run_mode, history_start_year_check, split_fraction_check,
        run_until_stopped, generations, new_search_overrides: count,
    }
}

/// Validates a Discover request, probing the disk for the databank file.
pub fn validate_request(facts: &DiscoverRequestFacts) -> (r: Result<(), String>)
    ensures
        exists|databank_exists: bool| {
            &&& spec_request_refusal(*facts, databank_exists) is None ==> r is Ok
            &&& spec_request_refusal(*facts, databank_exists) matches Some(msg) ==> (r matches Err(e) && e@ == msg)
        },
{
    let databank_exists = path_exists(facts.databank_path.as_str());
    validate_request_with(facts, databank_exists)
}

/// A continuation never runs with new-search settings, whatever the disk holds.
pub proof fn lemma_continuation_refuses_overrides(f: DiscoverRequestFacts, databank_exists: bool)
    requires
        f.mode == DiscoverMode::Continue,
        f.new_search_overrides > 0,
    ensures
        spec_request_refusal(f, databank_exists) is Some,
{
}

/// A new run never replaces an existing databank.
pub proof fn lemma_new_run_never_replaces(f: DiscoverRequestFacts)
    requires
        f.mode == DiscoverMode::New,
    ensures
        spec_request_refusal(f, true) is Some,
{
}


/// The integer and switch settings a new Discover request may give; `None`
/// takes the default.
#[derive(Debug, Clone, PartialEq, Eq)]
pub struct DiscoverSettingsRequest {
    pub initial_candidates: Option<usize>,
    pub batch_size: Option<usize>,
    pub seed: Option<u64>,
    pub grammar: Option<GrammarBounds>,
    pub run_mode: Option<String>,
    pub early_stop_pot_elites: Option<usize>,
    pub target_databank_elites: Option<usize>,
    pub minimum_trades: Option<usize>,
    pub deposit_minimum_trades: Option<usize>,
    pub require_m1_precision: Option<bool>,
    pub simple_exits: Option<bool>,
    pub sl_tp_only_exits: Option<bool>,
    pub allow_fixed_pip_stops: Option<bool>,
    pub allow_indicator_exit_rules: Option<bool>,
    pub allow_time_stops: Option<bool>,
    pub allow_break_even: Option<bool>,
    pub allow_trailing_stops: Option<bool>,
    pub allow_partial_exits: Option<bool>,
    pub allow_market_entries: Option<bool>,
    pub allow_stop_entries: Option<bool>,
    pub allow_limit_entries: Option<bool>,
    pub flatten_at_22: Option<bool>,
    pub end_of_day_hour: Option<u32>,
    pub max_one_entry_per_day: Option<bool>,
    pub mutate_after_elites: Option<usize>,
    pub worker_threads: Option<usize>,
    pub promotion_worker_threads: Option<usize>,
    pub promotion_queue_capacity: Option<usize>,
    pub build_to_holding: Option<bool>,
    pub require_m1_robustness: Option<bool>,
    pub robustness_folds: Option<usize>,
    pub robustness_monte_carlo_trials: Option<usize>,
    pub robustness_monte_carlo_block_length: Option<usize>,
    pub robustness_neighborhood_samples: Option<usize>,
    pub calendar_year_folds: Option<bool>,
    pub multi_symbol_minimum_pass: Option<usize>,
    pub general_island_count: Option<usize>,
    pub migration_interval: Option<usize>,
    pub migration_elites: Option<usize>,
    pub has_commission: bool,
}

/// The integer and switch settings of a new Discover configuration.
#[derive(Debug, Clone, PartialEq, Eq)]
pub struct DiscoverSettings {
    pub initial_candidates: usize,
    pub batch_size: usize,
    pub tournament_size: usize,
    pub seed: u64,
    pub grammar: GrammarBounds,
    pub run_mode: RunMode,
    pub early_stop_pot_elites: Option<usize>,
    pub target_databank_elites: Option<usize>,
    pub minimum_trades: usize,
    pub deposit_minimum_trades: usize,
    pub require_m1_precision: bool,
    pub simple_exits: bool,
    pub sl_tp_only_exits: bool,
    pub allow_fixed_pip_stops: bool,
    pub fixed_pip_size_points: u32,
    pub allow_indicator_exit_rules: bool,
    pub allow_time_stops: bool,
    pub allow_break_even: bool,
    pub allow_trailing_stops: bool,
    pub allow_partial_exits: bool,
    pub allow_market_entries: bool,
    pub allow_stop_entries: bool,
    pub allow_limit_entries: bool,
    pub flatten_at_22: bool,
    pub end_of_day_hour: u32,
    pub max_one_entry_per_day: bool,
    pub mutate_after_elites: usize,
    pub worker_threads: usize,
    pub promotion_worker_threads: usize,
    pub promotion_queue_capacity: usize,
    pub max_accepted_pool_elites: usize,
    pub max_specialist_pool_elites: usize,
    pub max_databank_elites: usize,
    pub max_holding_elites: usize,
    pub max_elites_per_niche: usize,
    pub max_promoted_per_niche: usize,
    pub max_per_entry_family: usize,
    pub build_to_holding: bool,
    pub require_m1_robustness: bool,
    pub robustness_folds: usize,
    pub robustness_monte_carlo_trials: usize,
    pub robustness_monte_carlo_block_length: usize,
    pub robustness_neighborhood_samples: usize,
    pub calendar_year_folds: bool,
    pub multi_symbol_minimum_pass: usize,
    pub island_count: usize,
    pub migration_interval: usize,
    pub migration_elites: usize,
    pub general_island_count: usize,
    pub refinement_island_count: usize,
    pub exploration_island_count: usize,
}

/// The default universal grammar: two to four entry conditions, one to
/// three exit conditions, completed-bar shifts one to three.
pub open spec fn default_grammar() -> GrammarBounds {
    GrammarBounds {
        minimum_entry_conditions: 2,
        maximum_entry_conditions: 4,
        minimum_exit_conditions: 1,
        maximum_exit_conditions: 3,
        minimum_shift: 1,
        maximum_shift: 3,
    }
}

pub open spec fn or_usize(value: Option<usize>, default: usize) -> usize {
    match value { Some(v) => v, None => default }
}

pub open spec fn or_bool(value: Option<bool>, default: bool) -> bool {
    match value { Some(v) => v, None => default }
}

pub open spec fn min_usize(a: usize, b: usize) -> usize {
    if a <= b { a } else { b }
}

/// The grammar a run searches: with SL/TP-only exits the entry count is
/// capped at three and the exit count at two.
pub open spec fn effective_grammar(requested: Option<GrammarBounds>, sl_tp_only: bool) -> GrammarBounds {
    let g = match requested { Some(g) => g, None => default_grammar() };
    if sl_tp_only {
        GrammarBounds {
            maximum_entry_conditions: min_usize(g.maximum_entry_conditions, 3),
            maximum_exit_conditions: min_usize(g.maximum_exit_conditions, 2),
            ..g
        }
    } else {
        g
    }
}

pub open spec fn settings_refusal(r: DiscoverSettingsRequest, fx_symbol: bool, broker_symbol: Seq<char>) -> Option<Seq<char>> {
    if or_bool(r.allow_fixed_pip_stops, false) && !fx_symbol {
        Some("fixed pip SL/TP is currently available for FX symbols only; "@ + broker_symbol + " should use ATR/R protection"@)
    } else if !r.has_commission {
        Some("commission is required for a new databank"@)
    } else {
        None
    }
}

/// The settings `new_settings` derives, each from its request value or default.
pub open spec fn settings_follow(s: DiscoverSettings, r: DiscoverSettingsRequest, broker_digits: u32) -> bool {
    let sl_tp_only = or_bool(r.sl_tp_only_exits, true);
    &&& s.initial_candidates == or_usize(r.initial_candidates, 500)
    &&& s.batch_size == or_usize(r.batch_size, 200)
    &&& s.tournament_size == 4
    &&& s.seed == (match r.seed { Some(v) => v, None => 42u64 })
    &&& s.grammar == effective_grammar(r.grammar, sl_tp_only)
    &&& s.run_mode == (match r.run_mode {
        Some(m) => match spec_parse_run_mode(m@) { Some(mode) => mode, None => RunMode::FullHarvest },
        None => RunMode::FullHarvest,
    })
    &&& s.early_stop_pot_elites == r.early_stop_pot_elites
    &&& s.target_databank_elites == r.target_databank_elites
    &&& s.minimum_trades == or_usize(r.minimum_trades, 10)
    &&& s.deposit_minimum_trades == or_usize(r.deposit_minimum_trades, 20)
    &&& s.require_m1_precision == or_bool(r.require_m1_precision, true)
    &&& s.simple_exits == or_bool(r.simple_exits, true)
    &&& s.sl_tp_only_exits == sl_tp_only
    &&& s.allow_fixed_pip_stops == or_bool(r.allow_fixed_pip_stops, false)
    &&& s.fixed_pip_size_points == (if broker_digits == 3 || broker_digits == 5 { 10u32 } else { 1u32 })
    &&& s.allow_indicator_exit_rules == or_bool(r.allow_indicator_exit_rules, false)
    &&& s.allow_time_stops == or_bool(r.allow_time_stops, false)
    &&& s.allow_break_even == or_bool(r.allow_break_even, false)
    &&& s.allow_trailing_stops == or_bool(r.allow_trailing_stops, false)
    &&& s.allow_partial_exits == or_bool(r.allow_partial_exits, false)
    &&& s.allow_market_entries == or_bool(r.allow_market_entries, true)
    &&& s.allow_stop_entries == or_bool(r.allow_stop_entries, false)
    &&& s.allow_limit_entries == or_bool(r.allow_limit_entries, false)
    &&& s.flatten_at_22 == (or_bool(r.flatten_at_22, false) || sl_tp_only)
    &&& s.end_of_day_hour == (match r.end_of_day_hour { Some(h) => h, None => 23u32 })
    &&& s.max_one_entry_per_day == or_bool(r.max_one_entry_per_day, true)
    &&& s.mutate_after_elites == or_usize(r.mutate_after_elites, 300)
    &&& s.worker_threads == or_usize(r.worker_threads, 0)
    &&& s.promotion_worker_threads == or_usize(r.promotion_worker_threads, 0)
    &&& s.promotion_queue_capacity == or_usize(r.promotion_queue_capacity, 64)
    &&& s.max_accepted_pool_elites == 10000
    &&& s.max_specialist_pool_elites == 2000
    &&& s.max_databank_elites == 10000
    &&& s.max_holding_elites == 10000
    &&& s.max_elites_per_niche == 8
    &&& s.max_promoted_per_niche == 4
    &&& s.max_per_entry_family == 24
    &&& s.build_to_holding == or_bool(r.build_to_holding, true)
    &&& s.require_m1_robustness == or_bool(r.require_m1_robustness, true)
    &&& s.robustness_folds == or_usize(r.robustness_folds, 8)
    &&& s.robustness_monte_carlo_trials == or_usize(r.robustness_monte_carlo_trials, 1000)
    &&& s.robustness_monte_carlo_block_length == or_usize(r.robustness_monte_carlo_block_length, 5)
    &&& s.robustness_neighborhood_samples == or_usize(r.robustness_neighborhood_samples, 200)
    &&& s.calendar_year_folds == or_bool(r.calendar_year_folds, false)
    &&& s.multi_symbol_minimum_pass == or_usize(r.multi_symbol_minimum_pass, 0)
    &&& s.island_count == (match r.general_island_count { Some(c) => if c > 0 { c } else { 1 }, None => 1 })
    &&& s.migration_interval == or_usize(r.migration_interval, 10)
    &&& s.migration_elites == or_usize(r.migration_elites, 2)
    &&& s.general_island_count == or_usize(r.general_island_count, 0)
    &&& s.refinement_island_count == 0
    &&& s.exploration_island_count == 0
}

fn pick(value: Option<usize>, default: usize) -> (r: usize)
    ensures
        r == or_usize(value, default),
{
    match value { Some(v) => v, None => default }
}

fn flag(value: Option<bool>, default: bool) -> (r: bool)
    ensures
        r == or_bool(value, default),
{
    match value { Some(v) => v, None => default }
}

/// The integer and switch part of a new Discover configuration: fixed-pip
/// stops are refused off FX symbols and a commission is required; every
/// setting is the request's value or its default, with SL/TP-only exits
/// capping the grammar and forcing the end-of-day flatten.
pub fn new_settings(request: &DiscoverSettingsRequest, fx_symbol: bool, broker_symbol: &str, broker_digits: u32)
    -> (r: Result<DiscoverSettings, String>)
    ensures
        match settings_refusal(*request, fx_symbol, broker_symbol@) {
            Some(message) => r matches Err(m) && m@ == message,
            None => r matches Ok(s) && settings_follow(s, *request, broker_digits),
        },
{
    let sl_tp_only = flag(request.sl_tp_only_exits, true);
    let fixed_pip = flag(request.allow_fixed_pip_stops, false);
    if fixed_pip && !fx_symbol {
        let mut message = owned("fixed pip SL/TP is currently available for FX symbols only; ");
        push_str(&mut message, broker_symbol);
        push_str(&mut message, " should use ATR/R protection");
        return Err(message);
    }
    if !request.has_commission {
        return Err(owned("commission is required for a new databank"));
    }
    let base = match request.grammar {
        Some(g) => g,
        None => GrammarBounds {
            minimum_entry_conditions: 2,
            maximum_entry_conditions: 4,
            minimum_exit_conditions: 1,
            maximum_exit_conditions: 3,
            minimum_shift: 1,
            maximum_shift: 3,
        },
    };
    let grammar = if sl_tp_only {
        GrammarBounds {
            maximum_entry_conditions: if base.maximum_entry_conditions <= 3 { base.maximum_entry_conditions } else { 3 },
            maximum_exit_conditions: if base.maximum_exit_conditions <= 2 { base.maximum_exit_conditions } else { 2 },
            ..base
        }
    } else {
        base
    };
    let run_mode = match &request.run_mode {
        Some(m) => match parse_run_mode(m.as_str()) { Some(mode) => mode, None => RunMode::FullHarvest },
        None => RunMode::FullHarvest,
    };
    Ok(DiscoverSettings {
        initial_candidates: pick(request.initial_candidates, 500),
        batch_size: pick(request.batch_size, 200),
        tournament_size: 4,
        seed: match request.seed { Some(v) => v, None => 42 },
        grammar,
        run_mode,
        early_stop_pot_elites: request.early_stop_pot_elites,
        target_databank_elites: request.target_databank_elites,
        minimum_trades: pick(request.minimum_trades, 10),
        deposit_minimum_trades: pick(request.deposit_minimum_trades, 20),
        require_m1_precision: flag(request.require_m1_precision, true),
        simple_exits: flag(request.simple_exits, true),
        sl_tp_only_exits: sl_tp_only,
        allow_fixed_pip_stops: fixed_pip,
        fixed_pip_size_points: if broker_digits == 3 || broker_digits == 5 { 10 } else { 1 },
        allow_indicator_exit_rules: flag(request.allow_indicator_exit_rules, false),
        allow_time_stops: flag(request.allow_time_stops, false),
        allow_break_even: flag(request.allow_break_even, false),
        allow_trailing_stops: flag(request.allow_trailing_stops, false),
        allow_partial_exits: flag(request.allow_partial_exits, false),
        allow_market_entries: flag(request.allow_market_entries, true),
        allow_stop_entries: flag(request.allow_stop_entries, false),
        allow_limit_entries: flag(request.allow_limit_entries, false),
        flatten_at_22: flag(request.flatten_at_22, false) || sl_tp_only,
        end_of_day_hour: match request.end_of_day_hour { Some(h) => h, None => 23 },
        max_one_entry_per_day: flag(request.max_one_entry_per_day, true),
        mutate_after_elites: pick(request.mutate_after_elites, 300),
        worker_threads: pick(request.worker_threads, 0),
        promotion_worker_threads: pick(request.promotion_worker_threads, 0),
        promotion_queue_capacity: pick(request.promotion_queue_capacity, 64),
        max_accepted_pool_elites: 10000,
        max_specialist_pool_elites: 2000,
        max_databank_elites: 10000,
        max_holding_elites: 10000,
        max_elites_per_niche: 8,
        max_promoted_per_niche: 4,
        max_per_entry_family: 24,
        build_to_holding: flag(request.build_to_holding, true),
        require_m1_robustness: flag(request.require_m1_robustness, true),
        robustness_folds: pick(request.robustness_folds, 8),
        robustness_monte_carlo_trials: pick(request.robustness_monte_carlo_trials, 1000),
        robustness_monte_carlo_block_length: pick(request.robustness_monte_carlo_block_length, 5),
        robustness_neighborhood_samples: pick(request.robustness_neighborhood_samples, 200),
        calendar_year_folds: flag(request.calendar_year_folds, false),
        multi_symbol_minimum_pass: pick(request.multi_symbol_minimum_pass, 0),
        island_count: match request.general_island_count { Some(c) => if c > 0 { c } else { 1 }, None => 1 },
        migration_interval: pick(request.migration_interval, 10),
        migration_elites: pick(request.migration_elites, 2),
        general_island_count: pick(request.general_island_count, 0),
        refinement_island_count: 0,
        exploration_island_count: 0,
    })
}

/// SL/TP-only runs never search more than three entry or two exit
/// conditions, and always flatten at the end of the day.
pub proof fn lemma_sl_tp_only_caps_the_grammar(s: DiscoverSettings, r: DiscoverSettingsRequest, broker_digits: u32)
    requires
        settings_follow(s, r, broker_digits),
        s.sl_tp_only_exits,
    ensures
        s.grammar.maximum_entry_conditions <= 3,
        s.grammar.maximum_exit_conditions <= 2,
        s.flatten_at_22,
{
}

/// The broker-local entry hours of the optimizer: 02:00 to 19:00 unless given.
pub fn optimizer_entry_window(start: Option<u32>, end: Option<u32>) -> (r: (u32, u32))
    ensures
        r.0 == (match start { Some(h) => h, None => 2u32 }),
        r.1 == (match end { Some(h) => h, None => 19u32 }),
{
    (match start { Some(h) => h, None => 2 }, match end { Some(h) => h, None => 19 })
}

} // verus!
