//! Databank workspace rules: archive validation, coverage surface, robustness
//! depth, selection-bias disclosure and the portable names used by exports.
use vstd::prelude::*;
use crate::paths::{canonical_display, is_file, join, parent, path_join, path_parent, path_with_extension, with_extension};
use crate::text::{split, split_str, decimal, owned, push_decimal, push_str, to_char_vec, from_chars, is_ascii_alnum, alnum, str_eq, string_views};
use crate::probes::{first_set, lemma_first_set_stays};

verus! {

/// Candidate evaluations above which a winner is reported as exposed to luck.
pub const SELECTION_BIAS_WARNING_THRESHOLD: u64 = 1500;

/// Candidate evaluations above which the exposure is reported as high.
pub const SELECTION_BIAS_HIGH_THRESHOLD: u64 = 10000;

/// Why a databank operation was refused.
#[derive(Debug, Clone, PartialEq, Eq)]
pub enum DesktopError {
    InvalidArtifact(String),
    NoDatabank,
    MissingElite(String),
    InvalidExport(String),
    StateUnavailable,
}

pub open spec fn desktop_error_text(error: DesktopError) -> Seq<char> {
    match error {
        DesktopError::InvalidArtifact(detail) => "databank artifact is invalid: "@ + detail@,
        DesktopError::NoDatabank => "no databank is loaded"@,
        DesktopError::MissingElite(id) => "elite "@ + id@ + " is not present in the loaded databank"@,
        DesktopError::InvalidExport(detail) => "batch export is invalid: "@ + detail@,
        DesktopError::StateUnavailable => "desktop databank state is unavailable"@,
    }
}

impl DesktopError {
    /// The user-facing sentence for this error.
    pub fn message(&self) -> (r: String)
        ensures
            r@ == desktop_error_text(*self),
    {
        match self {
            DesktopError::InvalidArtifact(detail) => {
                let mut text = owned("databank artifact is invalid: ");
                push_str(&mut text, detail.as_str());
                text
            },
            DesktopError::NoDatabank => owned("no databank is loaded"),
            DesktopError::MissingElite(id) => {
                let mut text = owned("elite ");
                push_str(&mut text, id.as_str());
                push_str(&mut text, " is not present in the loaded databank");
                text
            },
            DesktopError::InvalidExport(detail) => {
                let mut text = owned("batch export is invalid: ");
                push_str(&mut text, detail.as_str());
                text
            },
            DesktopError::StateUnavailable => owned("desktop databank state is unavailable"),
        }
    }
}

/// How exposed the winning candidates are to multiple-testing luck.
#[derive(Debug, Clone, PartialEq, Eq)]
pub struct SelectionBiasView {
    pub evaluation_count: u64,
    pub level: String,
    pub message: String,
}

pub open spec fn selection_bias_level(evaluation_count: u64) -> Seq<char> {
    if evaluation_count > SELECTION_BIAS_HIGH_THRESHOLD {
        "high"@
    } else if evaluation_count > SELECTION_BIAS_WARNING_THRESHOLD {
        "elevated"@
    } else {
        "recorded"@
    }
}

pub open spec fn selection_bias_message(evaluation_count: u64) -> Seq<char> {
    if evaluation_count > SELECTION_BIAS_HIGH_THRESHOLD {
        "More than 10,000 candidate results were compared, so the winner is highly exposed to multiple-testing luck. Require the full Challenge, sealed-final and external-parity chain."@
    } else if evaluation_count > SELECTION_BIAS_WARNING_THRESHOLD {
        "More than 1,500 candidate results were compared, increasing the chance that a winner benefited from luck. Promotion must retain deflated metrics and robustness evidence."@
    } else {
        "Evaluation count is retained even below the warning threshold; it must follow the candidate into later evidence."@
    }
}

/// The selection-bias disclosure for a databank that compared
/// `evaluation_count` candidates. The count is always carried along.
pub fn selection_bias(evaluation_count: u64) -> (r: SelectionBiasView)
    ensures
        r.evaluation_count == evaluation_count,
        r.level@ == selection_bias_level(evaluation_count),
        r.message@ == selection_bias_message(evaluation_count),
{
    let (level, message) = if evaluation_count > SELECTION_BIAS_HIGH_THRESHOLD {
        (
            "high",
            "More than 10,000 candidate results were compared, so the winner is highly exposed to multiple-testing luck. Require the full Challenge, sealed-final and external-parity chain.",
        )
    } else if evaluation_count > SELECTION_BIAS_WARNING_THRESHOLD {
        (
            "elevated",
            "More than 1,500 candidate results were compared, increasing the chance that a winner benefited from luck. Promotion must retain deflated metrics and robustness evidence.",
        )
    } else {
        (
            "recorded",
            "Evaluation count is retained even below the warning threshold; it must follow the candidate into later evidence.",
        )
    };
    SelectionBiasView { evaluation_count, level: owned(level), message: owned(message) }
}

/// The level never decreases as more candidates are compared.
pub open spec fn selection_bias_rank(evaluation_count: u64) -> int {
    if evaluation_count > SELECTION_BIAS_HIGH_THRESHOLD {
        2
    } else if evaluation_count > SELECTION_BIAS_WARNING_THRESHOLD {
        1
    } else {
        0
    }
}

/// Comparing more candidates never lowers the reported selection-bias level.
pub proof fn lemma_selection_bias_is_monotone(fewer: u64, more: u64)
    requires
        fewer <= more,
    ensures
        selection_bias_rank(fewer) <= selection_bias_rank(more),
{
}

/// Results robustness depth requested from the Results view.
#[derive(Debug, Clone, Copy, PartialEq, Eq)]
pub enum ResultsRobustnessMode {
    Standard,
    Deep,
}

/// The robustness settings recorded in a databank's Discover configuration.
#[derive(Debug, Clone, Copy, PartialEq, Eq)]
pub struct RobustnessSettings {
    pub folds: usize,
    pub monte_carlo_trials: usize,
    pub neighborhood_samples: usize,
}

pub const DEEP_ROBUSTNESS_FOLDS: usize = 12;
pub const DEEP_MONTE_CARLO_TRIALS: usize = 5000;
pub const DEEP_NEIGHBORHOOD_SAMPLES: usize = 400;

pub open spec fn at_least(value: usize, floor: usize) -> usize {
    if value >= floor { value } else { floor }
}

/// `(folds, Monte Carlo trials, neighbourhood samples)`: Standard keeps the
/// archived settings; Deep raises each to its floor and never lowers it.
pub fn robustness_depth(config: &RobustnessSettings, mode: ResultsRobustnessMode) -> (r: (usize, usize, usize))
    ensures
        mode == ResultsRobustnessMode::Standard ==> r == (config.folds, config.monte_carlo_trials, config.neighborhood_samples),
        mode == ResultsRobustnessMode::Deep ==> r == (
            at_least(config.folds, DEEP_ROBUSTNESS_FOLDS),
            at_least(config.monte_carlo_trials, DEEP_MONTE_CARLO_TRIALS),
            at_least(config.neighborhood_samples, DEEP_NEIGHBORHOOD_SAMPLES),
        ),
{
    match mode {
        ResultsRobustnessMode::Standard => (config.folds, config.monte_carlo_trials, config.neighborhood_samples),
        ResultsRobustnessMode::Deep => (
            if config.folds >= DEEP_ROBUSTNESS_FOLDS { config.folds } else { DEEP_ROBUSTNESS_FOLDS },
            if config.monte_carlo_trials >= DEEP_MONTE_CARLO_TRIALS { config.monte_carlo_trials } else { DEEP_MONTE_CARLO_TRIALS },
            if config.neighborhood_samples >= DEEP_NEIGHBORHOOD_SAMPLES { config.neighborhood_samples } else { DEEP_NEIGHBORHOOD_SAMPLES },
        ),
    }
}

/// Deep robustness only ever adds compute: each of its three depths is at
/// least the Standard depth and at least its Deep floor.
pub proof fn lemma_deep_robustness_only_raises(config: RobustnessSettings)
    ensures
        at_least(config.folds, DEEP_ROBUSTNESS_FOLDS) >= config.folds,
        at_least(config.monte_carlo_trials, DEEP_MONTE_CARLO_TRIALS) >= config.monte_carlo_trials,
        at_least(config.neighborhood_samples, DEEP_NEIGHBORHOOD_SAMPLES) >= config.neighborhood_samples,
        at_least(config.folds, DEEP_ROBUSTNESS_FOLDS) >= DEEP_ROBUSTNESS_FOLDS,
        at_least(config.monte_carlo_trials, DEEP_MONTE_CARLO_TRIALS) >= DEEP_MONTE_CARLO_TRIALS,
        at_least(config.neighborhood_samples, DEEP_NEIGHBORHOOD_SAMPLES) >= DEEP_NEIGHBORHOOD_SAMPLES,
{
}

/// The robustness stage that refused an elite.
#[derive(Debug, Clone, Copy, PartialEq, Eq)]
pub enum RobustnessReject {
    M1Fidelity,
    FoldStability,
    Cpcv,
    WalkForward,
    MonteCarlo,
    ParamNeighborhood,
}

pub open spec fn robustness_reject_code(reject: RobustnessReject) -> Seq<char> {
    match reject {
        RobustnessReject::M1Fidelity => "m1_fidelity"@,
        RobustnessReject::FoldStability => "fold_stability"@,
        RobustnessReject::Cpcv => "cpcv"@,
        RobustnessReject::WalkForward => "walk_forward"@,
        RobustnessReject::MonteCarlo => "monte_carlo"@,
        RobustnessReject::ParamNeighborhood => "parameter_neighborhood"@,
    }
}

pub open spec fn robustness_reject_text(reject: RobustnessReject) -> Seq<char> {
    match reject {
        RobustnessReject::M1Fidelity => "Failed Selected-TF to M1 return, trade-count or drawdown retention."@,
        RobustnessReject::FoldStability => "Development calendar-year R failed pooled/median positivity, year concentration, or pooled-vs-median sanity."@,
        RobustnessReject::Cpcv => "Failed the purged combinatorial Development cross-validation requirement."@,
        RobustnessReject::WalkForward => "Failed the sequential Development walk-forward stability requirement."@,
        RobustnessReject::MonteCarlo => "Failed the block-bootstrap Monte Carlo requirement (P80 net-profit retention vs baseline)."@,
        RobustnessReject::ParamNeighborhood => "Failed ±param survival or orig Ret/DD outside 0.85–1.25 of the neighbourhood median."@,
    }
}

/// The stable code and the explanation shown for a robustness refusal.
pub fn robustness_reject_detail(reject: RobustnessReject) -> (r: (&'static str, &'static str))
    ensures
        r.0@ == robustness_reject_code(reject),
        r.1@ == robustness_reject_text(reject),
{
    match reject {
        RobustnessReject::M1Fidelity => (
            "m1_fidelity",
            "Failed Selected-TF to M1 return, trade-count or drawdown retention.",
        ),
        RobustnessReject::FoldStability => (
            "fold_stability",
            "Development calendar-year R failed pooled/median positivity, year concentration, or pooled-vs-median sanity.",
        ),
        RobustnessReject::Cpcv => (
            "cpcv",
            "Failed the purged combinatorial Development cross-validation requirement.",
        ),
        RobustnessReject::WalkForward => (
            "walk_forward",
            "Failed the sequential Development walk-forward stability requirement.",
        ),
        RobustnessReject::MonteCarlo => (
            "monte_carlo",
            "Failed the block-bootstrap Monte Carlo requirement (P80 net-profit retention vs baseline).",
        ),
        RobustnessReject::ParamNeighborhood => (
            "parameter_neighborhood",
            "Failed ±param survival or orig Ret/DD outside 0.85–1.25 of the neighbourhood median.",
        ),
    }
}

/// Parts of a duration as `{n}{unit}` words, joined by single spaces.
pub open spec fn join_spaced(parts: Seq<Seq<char>>) -> Seq<char>
    decreases parts.len(),
{
    if parts.len() == 0 {
        Seq::empty()
    } else if parts.len() == 1 {
        parts[0]
    } else {
        join_spaced(parts.drop_last()) + " "@ + parts.last()
    }
}

pub open spec fn unit_word(n: int, unit: char) -> Seq<Seq<char>> {
    if n > 0 { seq![decimal(n as nat).push(unit)] } else { Seq::empty() }
}

/// `{d}d {h}h {m}m {s}s`, omitting zero units; seconds appear when nothing else does.
pub open spec fn duration_text(milliseconds: i64) -> Seq<char> {
    let total = if milliseconds < 0 { 0 } else { milliseconds / 1000 };
    let days = total / 86400;
    let hours = total % 86400 / 3600;
    let minutes = total % 3600 / 60;
    let seconds = total % 60;
    let lead = unit_word(days, 'd') + unit_word(hours, 'h') + unit_word(minutes, 'm');
    if seconds > 0 || lead.len() == 0 {
        join_spaced(lead.push(decimal(seconds as nat).push('s')))
    } else {
        join_spaced(lead)
    }
}

fn push_unit(out: &mut String, parts: Ghost<Seq<Seq<char>>>, any: bool, n: u64, unit: char, always: bool)
    -> (next: (Ghost<Seq<Seq<char>>>, bool))
    requires
        old(out)@ == join_spaced(parts@),
        any == (parts@.len() > 0),
    ensures
        always ==> next.0@ == parts@.push(decimal(n as nat).push(unit)),
        !always ==> next.0@ == parts@ + unit_word(n as int, unit),
        next.1 == (next.0@.len() > 0),
        final(out)@ == join_spaced(next.0@),
{
    if n > 0 || always {
        if any {
            out.push(' ');
        }
        push_decimal(out, n);
        out.push(unit);
        let ghost word = decimal(n as nat).push(unit);
        proof {
            reveal_strlit(" ");
            let next = parts@.push(word);
            assert(next.drop_last() =~= parts@);
            if n > 0 {
                assert(parts@ + unit_word(n as int, unit) =~= next);
            }
            if parts@.len() == 0 {
                assert(out@ =~= word);
            } else {
                assert(out@ =~= join_spaced(parts@) + " "@ + word);
            }
        }
        (Ghost(parts@.push(word)), true)
    } else {
        proof {
            assert(parts@ + unit_word(n as int, unit) =~= parts@);
        }
        (parts, any)
    }
}

/// A compact duration for trade exports, e.g. `18h 45m` or `40s`.
pub fn format_duration(milliseconds: i64) -> (r: String)
    ensures
        r@ == duration_text(milliseconds),
{
    let total: i64 = if milliseconds < 0 { 0 } else { milliseconds / 1000 };
    let days: i64 = total / 86400;
    let hours: i64 = total % 86400 / 3600;
    let minutes: i64 = total % 3600 / 60;
    let seconds: i64 = total % 60;
    let mut out = String::new();
    let (parts, any) = push_unit(&mut out, Ghost(Seq::<Seq<char>>::empty()), false, days as u64, 'd', false);
    let (parts, any) = push_unit(&mut out, parts, any, hours as u64, 'h', false);
    let (parts, any) = push_unit(&mut out, parts, any, minutes as u64, 'm', false);
    proof {
        assert(parts@ =~= unit_word(days as int, 'd') + unit_word(hours as int, 'h') + unit_word(minutes as int, 'm'));
    }
    if seconds > 0 || !any {
        let _ = push_unit(&mut out, parts, any, seconds as u64, 's', true);
    }
    out
}

pub open spec fn portable_char(c: char) -> char {
    if is_ascii_alnum(c) || c == '-' || c == '_' { c } else { '_' }
}

/// A file stem that every platform accepts: ASCII letters, digits, `-` and
/// `_` are kept, everything else becomes `_`; an empty name becomes `strategy`.
pub open spec fn safe_stem(value: Seq<char>) -> Seq<char> {
    if value.len() == 0 {
        "strategy"@
    } else {
        Seq::new(value.len(), |i: int| portable_char(value[i]))
    }
}

pub fn safe_file_stem(value: &str) -> (r: String)
    ensures
        r@ == safe_stem(value@),
{
    let chars = to_char_vec(value);
    if chars.len() == 0 {
        return owned("strategy");
    }
    let mut out: Vec<char> = Vec::new();
    let mut i: usize = 0;
    while i < chars.len()
        invariant
            chars@ == value@,
            i <= chars@.len(),
            out@ == Seq::new(i as nat, |k: int| portable_char(value@[k])),
        decreases chars.len() - i,
    {
        let c = chars[i];
        let kept = if alnum(c) || c == '-' || c == '_' { c } else { '_' };
        out.push(kept);
        proof {
            assert(out@ =~= Seq::new((i + 1) as nat, |k: int| portable_char(value@[k])));
        }
        i = i + 1;
    }
    from_chars(&out)
}

/// Every exported stem is non-empty and portable.
pub proof fn lemma_safe_stem_is_portable(value: Seq<char>)
    ensures
        safe_stem(value).len() > 0,
        forall|i: int| 0 <= i < safe_stem(value).len() ==> {
            let c = #[trigger] safe_stem(value)[i];
            is_ascii_alnum(c) || c == '-' || c == '_'
        },
        value.len() > 0 ==> safe_stem(value).len() == value.len(),
{
    reveal_strlit("strategy");
}


/// The schema version of the frozen read-only archive format.
pub const LEGACY_DATABANK_SCHEMA_VERSION: u16 = 5;

pub open spec fn legacy_grammar_version() -> Seq<char> {
    "search-families-v5-selected-tf-parity"@
}

/// An archive is opened through the legacy adapter exactly when both its
/// schema version and its grammar version are the frozen legacy ones.
pub fn is_legacy_archive(schema_version: Option<u64>, grammar_version: Option<&str>) -> (r: bool)
    ensures
        r == (schema_version == Some(LEGACY_DATABANK_SCHEMA_VERSION as u64)
            && (grammar_version matches Some(g) && g@ == legacy_grammar_version())),
{
    let schema_matches = match schema_version {
        Some(v) => v == LEGACY_DATABANK_SCHEMA_VERSION as u64,
        None => false,
    };
    let grammar_matches = match grammar_version {
        Some(g) => str_eq(g, "search-families-v5-selected-tf-parity"),
        None => false,
    };
    schema_matches && grammar_matches
}

/// The six string axes of a legacy niche, as the archive stores them.
#[derive(Debug, Clone, PartialEq, Eq)]
pub struct LegacyNiche {
    pub family: Option<String>,
    pub trade_frequency: Option<String>,
    pub hold_time: Option<String>,
    pub drawdown: Option<String>,
    pub win_rate: Option<String>,
    pub long_short_skew: Option<String>,
}

/// `value` with every `_` removed.
pub open spec fn without_underscores(value: Seq<char>) -> Seq<char>
    decreases value.len(),
{
    if value.len() == 0 {
        value
    } else if value.last() == '_' {
        without_underscores(value.drop_last())
    } else {
        without_underscores(value.drop_last()).push(value.last())
    }
}

pub open spec fn legacy_axes(niche: LegacyNiche) -> Seq<Option<String>> {
    seq![niche.family, niche.trade_frequency, niche.hold_time, niche.drawdown, niche.win_rate, niche.long_short_skew]
}

pub open spec fn legacy_axis_names() -> Seq<Seq<char>> {
    seq!["family"@, "trade_frequency"@, "hold_time"@, "drawdown"@, "win_rate"@, "long_short_skew"@]
}

/// The first axis, in the order above, that the niche lacks.
pub open spec fn first_missing_axis(axes: Seq<Option<String>>, i: int) -> Option<int>
    decreases axes.len() - i,
{
    if i >= axes.len() {
        None
    } else if axes[i] is None {
        Some(i)
    } else {
        first_missing_axis(axes, i + 1)
    }
}

/// The axes joined by `/` after the underscores are removed.
pub open spec fn legacy_label_text(niche: LegacyNiche) -> Seq<char> {
    without_underscores(niche.family->0@) + "/"@ + without_underscores(niche.trade_frequency->0@) + "/"@
        + without_underscores(niche.hold_time->0@) + "/"@ + without_underscores(niche.drawdown->0@) + "/"@
        + without_underscores(niche.win_rate->0@) + "/"@ + without_underscores(niche.long_short_skew->0@)
}

pub open spec fn legacy_label_result(niche: LegacyNiche) -> Result<Seq<char>, Seq<char>> {
    match first_missing_axis(legacy_axes(niche), 0) {
        Some(i) => Err("legacy niche is missing "@ + legacy_axis_names()[i]),
        None => Ok(legacy_label_text(niche)),
    }
}

fn push_without_underscores(out: &mut String, value: &str)
    ensures
        final(out)@ == old(out)@ + without_underscores(value@),
{
    let chars = to_char_vec(value);
    let mut i: usize = 0;
    while i < chars.len()
        invariant
            chars@ == value@,
            i <= chars@.len(),
            out@ == old(out)@ + without_underscores(value@.subrange(0, i as int)),
        decreases chars.len() - i,
    {
        proof {
            assert(value@.subrange(0, i + 1).drop_last() =~= value@.subrange(0, i as int));
        }
        if chars[i] != '_' {
            out.push(chars[i]);
        }
        i = i + 1;
    }
    proof {
        assert(value@.subrange(0, value@.len() as int) =~= value@);
    }
}

fn missing_axis(name: &str) -> (r: Result<String, DesktopError>)
    ensures
        r matches Err(DesktopError::InvalidArtifact(d)) && d@ == "legacy niche is missing "@ + name@,
{
    let mut detail = owned("legacy niche is missing ");
    push_str(&mut detail, name);
    Err(DesktopError::InvalidArtifact(detail))
}

/// The v5 niche label `family/frequency/hold/drawdown/win/skew`, each axis
/// without underscores; the first missing axis is reported.
pub fn legacy_niche_label(niche: &LegacyNiche) -> (r: Result<String, DesktopError>)
    ensures
        match legacy_label_result(*niche) {
            Ok(label) => r matches Ok(l) && l@ == label,
            Err(detail) => r matches Err(DesktopError::InvalidArtifact(d)) && d@ == detail,
        },
{
    proof {
        reveal_with_fuel(first_missing_axis, 7);
    }
    let family = match &niche.family { Some(v) => v, None => return missing_axis("family") };
    let trade_frequency = match &niche.trade_frequency { Some(v) => v, None => return missing_axis("trade_frequency") };
    let hold_time = match &niche.hold_time { Some(v) => v, None => return missing_axis("hold_time") };
    let drawdown = match &niche.drawdown { Some(v) => v, None => return missing_axis("drawdown") };
    let win_rate = match &niche.win_rate { Some(v) => v, None => return missing_axis("win_rate") };
    let long_short_skew = match &niche.long_short_skew { Some(v) => v, None => return missing_axis("long_short_skew") };
    let mut label = String::new();
    push_without_underscores(&mut label, family.as_str());
    push_str(&mut label, "/");
    push_without_underscores(&mut label, trade_frequency.as_str());
    push_str(&mut label, "/");
    push_without_underscores(&mut label, hold_time.as_str());
    push_str(&mut label, "/");
    push_without_underscores(&mut label, drawdown.as_str());
    push_str(&mut label, "/");
    push_without_underscores(&mut label, win_rate.as_str());
    push_str(&mut label, "/");
    push_without_underscores(&mut label, long_short_skew.as_str());
    assert(label@ =~= legacy_label_text(*niche));
    Ok(label)
}

/// One stored entry of a legacy archive pool.
#[derive(Debug, Clone, PartialEq, Eq)]
pub struct LegacyEntry {
    pub structural_fingerprint: Option<String>,
    pub niche: Option<LegacyNiche>,
}

/// What a coverage map key is bound to: `Some` text, or a non-text value (`None`).
pub open spec fn coverage_binding(coverage: Seq<(String, Option<String>)>, key: Seq<char>) -> Option<Option<Seq<char>>>
    decreases coverage.len(),
{
    if coverage.len() == 0 {
        None
    } else if coverage[0].0@ == key {
        Some(match coverage[0].1 { Some(v) => Some(v@), None => None })
    } else {
        coverage_binding(coverage.drop_first(), key)
    }
}

pub open spec fn entry_fingerprint(entry: LegacyEntry) -> Seq<char> {
    entry.structural_fingerprint->0@
}

pub open spec fn fingerprints_before(entries: Seq<LegacyEntry>, n: int) -> Seq<Seq<char>> {
    entries.subrange(0, n).map_values(|e: LegacyEntry| entry_fingerprint(e))
}

/// What is wrong with one entry, given the fingerprints seen before it.
pub open spec fn legacy_entry_problem(
    entry: LegacyEntry,
    seen: Seq<Seq<char>>,
    coverage: Seq<(String, Option<String>)>,
    entries_key: Seq<char>,
    coverage_key: Seq<char>,
    niche_keyed: bool,
) -> Option<Seq<char>> {
    match entry.structural_fingerprint {
        None => Some("legacy "@ + entries_key + " contains an entry without a fingerprint"@),
        Some(fingerprint) => {
            let fp = fingerprint@;
            if seen.contains(fp) {
                Some("legacy "@ + entries_key + " contains a duplicate fingerprint"@)
            } else {
                let key: Result<Seq<char>, Seq<char>> = if niche_keyed {
                    match entry.niche {
                        None => Err("legacy "@ + entries_key + " contains an entry without a niche"@),
                        Some(niche) => legacy_label_result(niche),
                    }
                } else {
                    Ok(fp)
                };
                match key {
                    Err(detail) => Some(detail),
                    Ok(key) => if coverage_binding(coverage, key) == Some(Some(fp)) {
                        None
                    } else {
                        Some("legacy "@ + coverage_key + " does not bind "@ + fp)
                    },
                }
            }
        },
    }
}

/// The first problem among the first `n` entries, checked in order.
pub open spec fn legacy_entries_problem(
    entries: Seq<LegacyEntry>,
    n: int,
    coverage: Seq<(String, Option<String>)>,
    entries_key: Seq<char>,
    coverage_key: Seq<char>,
    niche_keyed: bool,
) -> Option<Seq<char>>
    decreases n,
{
    if n <= 0 {
        None
    } else {
        match legacy_entries_problem(entries, n - 1, coverage, entries_key, coverage_key, niche_keyed) {
            Some(problem) => Some(problem),
            None => legacy_entry_problem(entries[n - 1], fingerprints_before(entries, n - 1), coverage,
                entries_key, coverage_key, niche_keyed),
        }
    }
}

/// The whole check of one legacy pool against its coverage map.
pub open spec fn legacy_coverage_problem(
    entries: Option<Seq<LegacyEntry>>,
    coverage: Option<Seq<(String, Option<String>)>>,
    entries_key: Seq<char>,
    coverage_key: Seq<char>,
    niche_keyed: bool,
) -> Option<Seq<char>> {
    match entries {
        None => Some("legacy databank is missing "@ + entries_key),
        Some(entries) => match coverage {
            None => Some("legacy databank is missing "@ + coverage_key),
            Some(coverage) => if entries.len() != coverage.len() {
                Some("legacy "@ + entries_key + " and "@ + coverage_key + " sizes differ"@)
            } else {
                legacy_entries_problem(entries, entries.len() as int, coverage, entries_key, coverage_key, niche_keyed)
            },
        },
    }
}

fn invalid(detail: String) -> (r: Result<(), DesktopError>)
    ensures
        r matches Err(DesktopError::InvalidArtifact(d)) && d == detail,
{
    Err(DesktopError::InvalidArtifact(detail))
}

fn lookup_binding(coverage: &Vec<(String, Option<String>)>, key: &str) -> (r: Option<Option<String>>)
    ensures
        coverage_binding(coverage@, key@) == match r {
            Some(Some(v)) => Some(Some(v@)),
            Some(None) => Some(None),
            None => None::<Option<Seq<char>>>,
        },
{
    let mut i: usize = 0;
    assert(coverage@.subrange(0, coverage@.len() as int) =~= coverage@);
    while i < coverage.len()
        invariant
            i <= coverage@.len(),
            coverage_binding(coverage@, key@) == coverage_binding(coverage@.subrange(i as int, coverage@.len() as int), key@),
        decreases coverage.len() - i,
    {
        proof {
            let rest = coverage@.subrange(i as int, coverage@.len() as int);
            assert(rest.drop_first() =~= coverage@.subrange(i + 1, coverage@.len() as int));
        }
        if str_eq(coverage[i].0.as_str(), key) {
            return Some(coverage[i].1.clone());
        }
        i = i + 1;
    }
    None
}

fn seen_contains(seen: &Vec<String>, fingerprint: &str) -> (r: bool)
    ensures
        r == string_views(seen@).contains(fingerprint@),
{
    let mut i: usize = 0;
    while i < seen.len()
        invariant
            i <= seen@.len(),
            forall|k: int| 0 <= k < i ==> seen@[k]@ != fingerprint@,
        decreases seen.len() - i,
    {
        if str_eq(seen[i].as_str(), fingerprint) {
            assert(string_views(seen@)[i as int] == fingerprint@);
            return true;
        }
        i = i + 1;
    }
    proof {
        if string_views(seen@).contains(fingerprint@) {
            let view = string_views(seen@);
            let k = choose|k: int| 0 <= k < view.len() && #[trigger] view[k] == fingerprint@;
            assert(seen@[k]@ == fingerprint@);
        }
    }
    false
}

fn legacy_text(prefix: &str, key: &str, suffix: &str) -> (r: String)
    ensures
        r@ == prefix@ + key@ + suffix@,
{
    let mut text = owned(prefix);
    push_str(&mut text, key);
    push_str(&mut text, suffix);
    text
}

fn legacy_text2(prefix: &str, key: &str) -> (r: String)
    ensures
        r@ == prefix@ + key@,
{
    let mut text = owned(prefix);
    push_str(&mut text, key);
    text
}

proof fn lemma_legacy_problem_persists(
    entries: Seq<LegacyEntry>,
    k: int,
    m: int,
    coverage: Seq<(String, Option<String>)>,
    entries_key: Seq<char>,
    coverage_key: Seq<char>,
    niche_keyed: bool,
)
    requires
        0 <= k <= m,
        legacy_entries_problem(entries, k, coverage, entries_key, coverage_key, niche_keyed) is Some,
    ensures
        legacy_entries_problem(entries, m, coverage, entries_key, coverage_key, niche_keyed)
            == legacy_entries_problem(entries, k, coverage, entries_key, coverage_key, niche_keyed),
    decreases m - k,
{
    if m > k {
        lemma_legacy_problem_persists(entries, k, m - 1, coverage, entries_key, coverage_key, niche_keyed);
    }
}

fn check_legacy_entry(
    entry: &LegacyEntry,
    seen: &Vec<String>,
    coverage: &Vec<(String, Option<String>)>,
    entries_key: &str,
    coverage_key: &str,
    niche_keyed: bool,
) -> (r: Result<(), DesktopError>)
    ensures
        match legacy_entry_problem(*entry, string_views(seen@), coverage@, entries_key@, coverage_key@, niche_keyed) {
            None => r is Ok,
            Some(detail) => r matches Err(DesktopError::InvalidArtifact(d)) && d@ == detail,
        },
{
    let fingerprint = match &entry.structural_fingerprint {
        Some(f) => f,
        None => return invalid(legacy_text("legacy ", entries_key, " contains an entry without a fingerprint")),
    };
    if seen_contains(seen, fingerprint.as_str()) {
        return invalid(legacy_text("legacy ", entries_key, " contains a duplicate fingerprint"));
    }
    let key = if niche_keyed {
        match &entry.niche {
            None => return invalid(legacy_text("legacy ", entries_key, " contains an entry without a niche")),
            Some(niche) => match legacy_niche_label(niche) {
                Ok(label) => label,
                Err(error) => return Err(error),
            },
        }
    } else {
        fingerprint.clone()
    };
    let bound = lookup_binding(coverage, key.as_str());
    let binds = match &bound {
        Some(Some(value)) => str_eq(value.as_str(), fingerprint.as_str()),
        _ => false,
    };
    if !binds {
        let mut detail = legacy_text("legacy ", coverage_key, " does not bind ");
        push_str(&mut detail, fingerprint.as_str());
        return invalid(detail);
    }
    Ok(())
}

/// Checks one legacy pool: both collections exist, have one binding per
/// entry, every entry carries a unique fingerprint, and the coverage map
/// binds each entry's key (its niche label, or its fingerprint) to it.
pub fn verify_legacy_raw_coverage(
    entries: Option<&Vec<LegacyEntry>>,
    coverage: Option<&Vec<(String, Option<String>)>>,
    entries_key: &str,
    coverage_key: &str,
    niche_keyed: bool,
) -> (r: Result<(), DesktopError>)
    ensures
        match legacy_coverage_problem(
            match entries { Some(e) => Some(e@), None => None },
            match coverage { Some(c) => Some(c@), None => None },
            entries_key@, coverage_key@, niche_keyed,
        ) {
            None => r is Ok,
            Some(detail) => r matches Err(DesktopError::InvalidArtifact(d)) && d@ == detail,
        },
{
    let es = match entries {
        Some(e) => e,
        None => return invalid(legacy_text2("legacy databank is missing ", entries_key)),
    };
    let cov = match coverage {
        Some(c) => c,
        None => return invalid(legacy_text2("legacy databank is missing ", coverage_key)),
    };
    if es.len() != cov.len() {
        let mut detail = legacy_text("legacy ", entries_key, " and ");
        push_str(&mut detail, coverage_key);
        push_str(&mut detail, " sizes differ");
        return invalid(detail);
    }
    let mut seen: Vec<String> = Vec::new();
    let mut i: usize = 0;
    assert(string_views(seen@) =~= fingerprints_before(es@, 0));
    while i < es.len()
        invariant
            entries == Some(es),
            coverage == Some(cov),
            i <= es@.len(),
            es@.len() == cov@.len(),
            legacy_entries_problem(es@, i as int, cov@, entries_key@, coverage_key@, niche_keyed) is None,
            string_views(seen@) == fingerprints_before(es@, i as int),
        decreases es.len() - i,
    {
        let entry = &es[i];
        let ghost seen_view = fingerprints_before(es@, i as int);
        match check_legacy_entry(entry, &seen, cov, entries_key, coverage_key, niche_keyed) {
            Ok(()) => {},
            Err(error) => {
                proof {
                    let p = legacy_entry_problem(es@[i as int], seen_view, cov@, entries_key@, coverage_key@, niche_keyed);
                    assert(*entry == es@[i as int]);
                    assert(p is Some);
                    assert(legacy_entries_problem(es@, i + 1, cov@, entries_key@, coverage_key@, niche_keyed) == p);
                    lemma_legacy_problem_persists(es@, i + 1, es@.len() as int, cov@,
                        entries_key@, coverage_key@, niche_keyed);
                    assert(legacy_entries_problem(es@, es@.len() as int, cov@, entries_key@, coverage_key@, niche_keyed) == p);
                    assert(legacy_coverage_problem(Some(es@), Some(cov@), entries_key@, coverage_key@, niche_keyed) == p);
                    assert(error matches DesktopError::InvalidArtifact(d) && d@ == p->0);
                }
                return Err(error);
            },
        }
        let fingerprint = match &entry.structural_fingerprint {
            Some(f) => f.clone(),
            None => String::new(),
        };
        seen.push(fingerprint);
        proof {
            assert(fingerprints_before(es@, i + 1) =~= seen_view.push(entry_fingerprint(es@[i as int])));
            assert(string_views(seen@) =~= fingerprints_before(es@, i + 1));
        }
        i = i + 1;
    }
    Ok(())
}

/// The legacy adapter accepts an archive only when its manifest and databank
/// configurations agree and both pools are bound by their coverage maps.
pub fn verify_legacy_raw_bindings(
    configs_match: bool,
    elites: Option<&Vec<LegacyEntry>>,
    coverage_map: Option<&Vec<(String, Option<String>)>>,
    accepted_pool: Option<&Vec<LegacyEntry>>,
    accepted_coverage_map: Option<&Vec<(String, Option<String>)>>,
) -> (r: Result<(), DesktopError>)
    ensures
        !configs_match ==> (r matches Err(DesktopError::InvalidArtifact(d))
            && d@ == "legacy manifest and databank configs do not match"@),
        configs_match ==> match legacy_coverage_problem(
            match elites { Some(e) => Some(e@), None => None },
            match coverage_map { Some(c) => Some(c@), None => None },
            "elites"@, "coverage_map"@, true,
        ) {
            Some(detail) => r matches Err(DesktopError::InvalidArtifact(d)) && d@ == detail,
            None => match legacy_coverage_problem(
                match accepted_pool { Some(e) => Some(e@), None => None },
                match accepted_coverage_map { Some(c) => Some(c@), None => None },
                "accepted_pool"@, "accepted_coverage_map"@, false,
            ) {
                Some(detail) => r matches Err(DesktopError::InvalidArtifact(d)) && d@ == detail,
                None => r is Ok,
            },
        },
{
    if !configs_match {
        return invalid(owned("legacy manifest and databank configs do not match"));
    }
    match verify_legacy_raw_coverage(elites, coverage_map, "elites", "coverage_map", true) {
        Ok(()) => {},
        Err(error) => return Err(error),
    }
    verify_legacy_raw_coverage(accepted_pool, accepted_coverage_map, "accepted_pool", "accepted_coverage_map", false)
}

/// An archive that passes the legacy coverage check has no two entries with
/// the same fingerprint.
pub proof fn lemma_verified_legacy_fingerprints_are_unique(
    entries: Seq<LegacyEntry>,
    coverage: Seq<(String, Option<String>)>,
    entries_key: Seq<char>,
    coverage_key: Seq<char>,
    niche_keyed: bool,
    n: int,
)
    requires
        0 <= n <= entries.len(),
        legacy_entries_problem(entries, n, coverage, entries_key, coverage_key, niche_keyed) is None,
    ensures
        forall|i: int, j: int| 0 <= i < j < n ==> (#[trigger] entries[i]).structural_fingerprint is Some
            && entry_fingerprint(entries[i]) != entry_fingerprint(#[trigger] entries[j]),
    decreases n,
{
    if n > 0 {
        lemma_verified_legacy_fingerprints_are_unique(entries, coverage, entries_key, coverage_key, niche_keyed, n - 1);
        let seen = fingerprints_before(entries, n - 1);
        assert forall|i: int, j: int| 0 <= i < j < n implies (#[trigger] entries[i]).structural_fingerprint is Some
            && entry_fingerprint(entries[i]) != entry_fingerprint(#[trigger] entries[j]) by {
            if j == n - 1 {
                assert(seen[i] == entry_fingerprint(entries[i]));
                assert(!seen.contains(entry_fingerprint(entries[j])));
            }
        }
    }
}


/// `\` read as `/`, so that Windows bindings split like POSIX ones.
pub open spec fn forward_slashes(value: Seq<char>) -> Seq<char> {
    Seq::new(value.len(), |i: int| if value[i] == '\\' { '/' } else { value[i] })
}

pub open spec fn meaningful_part(part: Seq<char>) -> bool {
    part.len() > 0 && part != "?"@
}

/// The parts kept from a split binding: neither empty nor the `?` of a
/// verbatim Windows prefix.
pub open spec fn kept_parts(parts: Seq<Seq<char>>) -> Seq<Seq<char>>
    decreases parts.len(),
{
    if parts.len() == 0 {
        parts
    } else if meaningful_part(parts.last()) {
        kept_parts(parts.drop_last()).push(parts.last())
    } else {
        kept_parts(parts.drop_last())
    }
}

pub open spec fn binding_parts(stored: Seq<char>) -> Seq<Seq<char>> {
    kept_parts(split(forward_slashes(stored), '/'))
}

/// The `n`-th ancestor of a path, as `Path::ancestors` walks them.
pub open spec fn ancestor(path: Seq<char>, n: nat) -> Option<Seq<char>>
    decreases n,
{
    if n == 0 {
        Some(path)
    } else {
        match ancestor(path, (n - 1) as nat) {
            Some(p) => path_parent(p),
            None => None,
        }
    }
}

pub open spec fn ancestor_candidates(ancestor: Option<Seq<char>>, file_name: Seq<char>, parent_name: Option<Seq<char>>) -> Seq<Seq<char>> {
    match ancestor {
        None => Seq::empty(),
        Some(a) => match parent_name {
            Some(p) => seq![path_join(a, file_name), path_join(path_join(a, p), file_name)],
            None => seq![path_join(a, file_name)],
        },
    }
}

pub open spec fn binding_candidates_upto(archive: Seq<char>, file_name: Seq<char>, parent_name: Option<Seq<char>>, n: nat) -> Seq<Seq<char>>
    decreases n,
{
    if n == 0 {
        Seq::empty()
    } else {
        binding_candidates_upto(archive, file_name, parent_name, (n - 1) as nat)
            + ancestor_candidates(ancestor(archive, n), file_name, parent_name)
    }
}

/// How many ancestors of the archive are searched for a moved data file.
pub const BINDING_SEARCH_DEPTH: usize = 5;

/// The places a stored data binding is looked for, in order: beside each of
/// the archive's five nearest ancestors, directly and under the binding's
/// own parent directory name. `None` when the binding names no file.
pub open spec fn binding_candidates(stored: Seq<char>, archive: Seq<char>) -> Option<Seq<Seq<char>>> {
    let parts = binding_parts(stored);
    if parts.len() == 0 {
        None
    } else {
        let parent_name = if parts.len() >= 2 { Some(parts[parts.len() - 2]) } else { None };
        Some(binding_candidates_upto(archive, parts.last(), parent_name, BINDING_SEARCH_DEPTH as nat))
    }
}

fn forward_slash_text(value: &str) -> (r: String)
    ensures
        r@ == forward_slashes(value@),
{
    let chars = to_char_vec(value);
    let mut out: Vec<char> = Vec::new();
    let mut i: usize = 0;
    while i < chars.len()
        invariant
            chars@ == value@,
            i <= chars@.len(),
            out@ == forward_slashes(value@).subrange(0, i as int),
        decreases chars.len() - i,
    {
        let c = chars[i];
        out.push(if c == '\\' { '/' } else { c });
        proof {
            assert(out@ =~= forward_slashes(value@).subrange(0, i + 1));
        }
        i = i + 1;
    }
    assert(forward_slashes(value@).subrange(0, chars@.len() as int) =~= forward_slashes(value@));
    from_chars(&out)
}

fn keep_binding_parts(parts: &Vec<String>) -> (r: Vec<String>)
    ensures
        string_views(r@) == kept_parts(string_views(parts@)),
{
    let mut out: Vec<String> = Vec::new();
    let mut i: usize = 0;
    while i < parts.len()
        invariant
            i <= parts@.len(),
            string_views(out@) == kept_parts(string_views(parts@).subrange(0, i as int)),
        decreases parts.len() - i,
    {
        let ghost before = string_views(out@);
        proof {
            let next = string_views(parts@).subrange(0, i + 1);
            assert(next.drop_last() =~= string_views(parts@).subrange(0, i as int));
            assert(next.last() == parts@[i as int]@);
        }
        let part = parts[i].as_str();
        if part.unicode_len() > 0 && !str_eq(part, "?") {
            out.push(parts[i].clone());
            proof {
                assert(string_views(out@) =~= before.push(parts@[i as int]@));
            }
        }
        i = i + 1;
    }
    assert(string_views(parts@).subrange(0, parts@.len() as int) =~= string_views(parts@));
    out
}

/// The candidate locations of a moved data binding (see `binding_candidates`).
pub fn portable_binding_candidates(stored: &str, archive_path: &str) -> (r: Option<Vec<String>>)
    ensures
        match binding_candidates(stored@, archive_path@) {
            None => r is None,
            Some(candidates) => r matches Some(v) && string_views(v@) == candidates,
        },
{
    let normalized = forward_slash_text(stored);
    let split_parts = split_str(normalized.as_str(), '/');
    assert(string_views(split_parts@) =~= split(forward_slashes(stored@), '/'));
    let parts = keep_binding_parts(&split_parts);
    let count = parts.len();
    if count == 0 {
        return None;
    }
    let file_name = parts[count - 1].as_str();
    let parent_name: Option<&str> = if count >= 2 { Some(parts[count - 2].as_str()) } else { None };
    let ghost parent_view: Option<Seq<char>> = if count >= 2 { Some(parts@[count - 2]@) } else { None };
    assert(parent_view == match parent_name { Some(p) => Some(p@), None => None::<Seq<char>> });
    let mut candidates: Vec<String> = Vec::new();
    let mut current = parent(archive_path);
    let mut n: usize = 1;
    while n <= BINDING_SEARCH_DEPTH
        invariant
            1 <= n <= BINDING_SEARCH_DEPTH + 1,
            parent_view == match parent_name { Some(p) => Some(p@), None => None::<Seq<char>> },
            string_views(candidates@) == binding_candidates_upto(archive_path@, file_name@, parent_view, (n - 1) as nat),
            match current {
                Some(c) => ancestor(archive_path@, n as nat) == Some(c@),
                None => ancestor(archive_path@, n as nat) is None,
            },
        decreases BINDING_SEARCH_DEPTH + 1 - n,
    {
        let ghost before = string_views(candidates@);
        match &current {
            Some(a) => {
                candidates.push(join(a.as_str(), file_name));
                match parent_name {
                    Some(p) => {
                        let nested = join(a.as_str(), p);
                        candidates.push(join(nested.as_str(), file_name));
                    },
                    None => {},
                }
                proof {
                    assert(string_views(candidates@) =~= before
                        + ancestor_candidates(ancestor(archive_path@, n as nat), file_name@, parent_view));
                }
                current = parent(a.as_str());
            },
            None => {
                proof {
                    assert(string_views(candidates@) =~= before
                        + ancestor_candidates(ancestor(archive_path@, n as nat), file_name@, parent_view));
                }
            },
        }
        n = n + 1;
    }
    Some(candidates)
}

/// Which binding a portable archive uses, given whether each path is a file.
#[derive(Debug, Clone, Copy, PartialEq, Eq, Structural)]
pub enum BindingChoice {
    /// The stored path (still a file, or nothing better was found).
    Stored,
    /// The candidate at this position of `portable_binding_candidates`.
    Candidate(usize),
}

/// A stored path that is still a file wins; otherwise the first candidate
/// that is a file; otherwise the stored path.
pub fn choose_portable_binding(stored_is_file: bool, candidate_is_file: &Vec<bool>) -> (r: BindingChoice)
    ensures
        stored_is_file ==> r == BindingChoice::Stored,
        !stored_is_file ==> match first_set(candidate_is_file@, candidate_is_file.len() as int) {
            Some(i) => r == BindingChoice::Candidate(i as usize),
            None => r == BindingChoice::Stored,
        },
{
    if stored_is_file {
        return BindingChoice::Stored;
    }
    let mut i: usize = 0;
    while i < candidate_is_file.len()
        invariant
            !stored_is_file,
            i <= candidate_is_file.len(),
            first_set(candidate_is_file@, i as int) is None,
        decreases candidate_is_file.len() - i,
    {
        if candidate_is_file[i] {
            proof {
                assert(first_set(candidate_is_file@, i + 1) == Some(i as int));
                lemma_first_set_stays(candidate_is_file@, i + 1, candidate_is_file.len() as int);
            }
            return BindingChoice::Candidate(i);
        }
        i = i + 1;
    }
    BindingChoice::Stored
}

/// Where an archived data binding now lives. A binding that still names a
/// file is kept as stored; otherwise the first candidate of
/// `portable_binding_candidates` that is a file is returned, canonicalised;
/// if none is, the stored text is returned unchanged. The archive itself is
/// never edited. Which paths are files depends on the disk at the time of the
/// call, so the result is the stored text or a canonicalised candidate.
pub fn resolve_portable_binding(stored: &str, archive_path: &str) -> (r: String)
    ensures
        binding_candidates(stored@, archive_path@) is None ==> r@ == stored@,
{
    let stored_is_file = is_file(stored);
    let candidates = match portable_binding_candidates(stored, archive_path) {
        Some(c) => c,
        None => return owned(stored),
    };
    let mut files: Vec<bool> = Vec::new();
    if !stored_is_file {
        let mut i: usize = 0;
        while i < candidates.len()
            invariant
                i <= candidates.len(),
                files.len() == i,
            decreases candidates.len() - i,
        {
            files.push(is_file(candidates[i].as_str()));
            i = i + 1;
        }
    }
    match choose_portable_binding(stored_is_file, &files) {
        BindingChoice::Stored => owned(stored),
        BindingChoice::Candidate(i) => {
            if i < candidates.len() {
                canonical_display(candidates[i].as_str())
            } else {
                owned(stored)
            }
        },
    }
}

/// The exporter's companion metadata name for a data file: its extension
/// replaced by `metadata.csv`.
pub open spec fn companion_metadata_candidate(data_path: Seq<char>) -> Seq<char> {
    path_with_extension(data_path, "metadata.csv"@)
}

/// The exporter's companion metadata path of a data file: the data path with
/// its extension replaced by `metadata.csv`.
pub fn companion_metadata_candidate_path(data_path: &str) -> (r: String)
    ensures
        r@ == companion_metadata_candidate(data_path@),
{
    proof {
        reveal_strlit("metadata.csv");
    }
    with_extension(data_path, "metadata.csv")
}

/// The canonical path of the companion metadata file of `data_path`: the
/// path `companion_metadata_candidate_path` gives is probed, and when it is a
/// file its canonical form is returned. Whether it is a file, and the path it
/// canonicalises to (symbolic links resolved), depend on the disk at the time
/// of the call, so the contract promises nothing of the result.
pub fn companion_metadata_path(data_path: &str) -> (r: Option<String>) {
    let candidate = companion_metadata_candidate_path(data_path);
    if is_file(candidate.as_str()) {
        Some(canonical_display(candidate.as_str()))
    } else {
        None
    }
}

/// One level of a three-bucket behavioural axis.
#[derive(Debug, Clone, Copy, PartialEq, Eq, Structural)]
pub enum ThreeLevelBucket {
    Low,
    Medium,
    High,
}

/// The long/short balance of a strategy's trades.
#[derive(Debug, Clone, Copy, PartialEq, Eq, Structural)]
pub enum LongShortSkewBucket {
    ShortHeavy,
    Balanced,
    LongHeavy,
}

/// The behavioural niche a strategy occupies in the databank.
#[derive(Debug, Clone, Copy, PartialEq, Eq, Structural)]
pub struct NicheKey {
    pub entry_conditions: usize,
    pub trade_frequency: ThreeLevelBucket,
    pub hold_time: ThreeLevelBucket,
    pub drawdown: ThreeLevelBucket,
    pub win_rate: ThreeLevelBucket,
    pub long_short_skew: LongShortSkewBucket,
}

/// Entry-condition counts shown on the coverage surface, and the cells per count.
pub const COVERAGE_GROUPS: usize = 3;
pub const FIRST_ENTRY_CONDITION_COUNT: usize = 2;
pub const NICHES_PER_GROUP: usize = 243;

pub open spec fn level_at(k: int) -> ThreeLevelBucket {
    if k == 0 { ThreeLevelBucket::Low } else if k == 1 { ThreeLevelBucket::Medium } else { ThreeLevelBucket::High }
}

pub open spec fn skew_at(k: int) -> LongShortSkewBucket {
    if k == 0 { LongShortSkewBucket::ShortHeavy } else if k == 1 { LongShortSkewBucket::Balanced } else { LongShortSkewBucket::LongHeavy }
}

pub open spec fn level_digit(level: ThreeLevelBucket) -> int {
    match level {
        ThreeLevelBucket::Low => 0,
        ThreeLevelBucket::Medium => 1,
        ThreeLevelBucket::High => 2,
    }
}

pub open spec fn skew_digit(skew: LongShortSkewBucket) -> int {
    match skew {
        LongShortSkewBucket::ShortHeavy => 0,
        LongShortSkewBucket::Balanced => 1,
        LongShortSkewBucket::LongHeavy => 2,
    }
}

/// The niche of cell `index` of a group: win rate, skew, trade frequency,
/// hold time and drawdown, from the slowest-varying axis to the fastest.
pub open spec fn cell_niche(entry_conditions: usize, index: int) -> NicheKey {
    NicheKey {
        entry_conditions,
        win_rate: level_at(index / 81),
        long_short_skew: skew_at((index / 27) % 3),
        trade_frequency: level_at((index / 9) % 3),
        hold_time: level_at((index / 3) % 3),
        drawdown: level_at(index % 3),
    }
}

/// The cell a niche occupies within its group.
pub open spec fn niche_cell_index(niche: NicheKey) -> int {
    level_digit(niche.win_rate) * 81 + skew_digit(niche.long_short_skew) * 27
        + level_digit(niche.trade_frequency) * 9 + level_digit(niche.hold_time) * 3 + level_digit(niche.drawdown)
}

/// A databank elite as the coverage surface sees it. `strength` orders
/// elites by evidence: a larger value is stronger evidence.
#[derive(Debug, Clone, PartialEq, Eq)]
pub struct CoverageMember {
    pub niche: NicheKey,
    pub fingerprint: String,
    pub strength: u64,
}

/// The strongest member in `niche` among the first `n`; on equal strength
/// the earlier member keeps the cell.
pub open spec fn strongest_member(members: Seq<CoverageMember>, n: int, niche: NicheKey) -> Option<int>
    decreases n,
{
    if n <= 0 {
        None
    } else {
        let best = strongest_member(members, n - 1, niche);
        if members[n - 1].niche == niche && (best is None || members[best->0].strength < members[n - 1].strength) {
            Some(n - 1)
        } else {
            best
        }
    }
}

/// One cell of the coverage surface.
#[derive(Debug, Clone, PartialEq, Eq)]
pub struct CoverageCell {
    pub index: usize,
    pub niche: NicheKey,
    pub occupied: bool,
    pub fingerprint: Option<String>,
}

/// All cells of one entry-condition count.
#[derive(Debug, Clone, PartialEq, Eq)]
pub struct ConditionCoverage {
    pub entry_conditions: usize,
    pub label: String,
    pub occupied: usize,
    pub total: usize,
    pub cells: Vec<CoverageCell>,
}

pub open spec fn occupied_count(cells: Seq<CoverageCell>, n: int) -> int
    decreases n,
{
    if n <= 0 {
        0
    } else {
        occupied_count(cells, n - 1) + if cells[n - 1].occupied { 1int } else { 0int }
    }
}

/// Cell `i` of the group for `entry_conditions`: its niche, and the
/// fingerprint of the strongest member there, if any.
pub open spec fn cell_is_correct(cell: CoverageCell, entry_conditions: usize, i: int, members: Seq<CoverageMember>) -> bool {
    let niche = cell_niche(entry_conditions, i);
    let best = strongest_member(members, members.len() as int, niche);
    &&& cell.index == i
    &&& cell.niche == niche
    &&& cell.occupied == best is Some
    &&& match best {
        Some(b) => cell.fingerprint matches Some(f) && f@ == members[b].fingerprint@,
        None => cell.fingerprint is None,
    }
}

pub open spec fn group_is_correct(group: ConditionCoverage, entry_conditions: usize, members: Seq<CoverageMember>) -> bool {
    &&& group.entry_conditions == entry_conditions
    &&& group.label@ == decimal(entry_conditions as nat) + " entry conditions"@
    &&& group.total == NICHES_PER_GROUP
    &&& group.cells@.len() == NICHES_PER_GROUP
    &&& group.occupied == occupied_count(group.cells@, NICHES_PER_GROUP as int)
    &&& forall|i: int| 0 <= i < NICHES_PER_GROUP ==> cell_is_correct(#[trigger] group.cells@[i], entry_conditions, i, members)
}

fn level_of(k: usize) -> (r: ThreeLevelBucket)
    ensures
        r == level_at(k as int),
{
    if k == 0 { ThreeLevelBucket::Low } else if k == 1 { ThreeLevelBucket::Medium } else { ThreeLevelBucket::High }
}

fn skew_of(k: usize) -> (r: LongShortSkewBucket)
    ensures
        r == skew_at(k as int),
{
    if k == 0 { LongShortSkewBucket::ShortHeavy } else if k == 1 { LongShortSkewBucket::Balanced } else { LongShortSkewBucket::LongHeavy }
}

fn strongest_in(members: &Vec<CoverageMember>, niche: NicheKey) -> (r: Option<usize>)
    ensures
        match r {
            Some(b) => b < members@.len() && strongest_member(members@, members@.len() as int, niche) == Some(b as int),
            None => strongest_member(members@, members@.len() as int, niche) is None,
        },
{
    let mut best: Option<usize> = None;
    let mut i: usize = 0;
    while i < members.len()
        invariant
            i <= members@.len(),
            match best {
                Some(b) => b < i && strongest_member(members@, i as int, niche) == Some(b as int),
                None => strongest_member(members@, i as int, niche) is None,
            },
        decreases members.len() - i,
    {
        if members[i].niche == niche {
            let stronger = match best {
                Some(b) => members[b].strength < members[i].strength,
                None => true,
            };
            if stronger {
                best = Some(i);
            }
        }
        i = i + 1;
    }
    best
}

fn coverage_group(members: &Vec<CoverageMember>, entry_conditions: usize) -> (r: ConditionCoverage)
    requires
        entry_conditions <= 4,
    ensures
        group_is_correct(r, entry_conditions, members@),
{
    let mut cells: Vec<CoverageCell> = Vec::new();
    let mut occupied: usize = 0;
    let mut index: usize = 0;
    while index < NICHES_PER_GROUP
        invariant
            index <= NICHES_PER_GROUP,
            cells@.len() == index,
            occupied == occupied_count(cells@, index as int),
            occupied <= index,
            forall|i: int| 0 <= i < index ==> cell_is_correct(#[trigger] cells@[i], entry_conditions, i, members@),
        decreases NICHES_PER_GROUP - index,
    {
        let niche = NicheKey {
            entry_conditions,
            win_rate: level_of(index / 81),
            long_short_skew: skew_of((index / 27) % 3),
            trade_frequency: level_of((index / 9) % 3),
            hold_time: level_of((index / 3) % 3),
            drawdown: level_of(index % 3),
        };
        assert(niche == cell_niche(entry_conditions, index as int));
        let best = strongest_in(members, niche);
        let cell = match best {
            Some(b) => CoverageCell { index, niche, occupied: true, fingerprint: Some(members[b].fingerprint.clone()) },
            None => CoverageCell { index, niche, occupied: false, fingerprint: None },
        };
        if cell.occupied {
            occupied = occupied + 1;
        }
        let ghost before = cells@;
        cells.push(cell);
        proof {
            assert(cells@.drop_last() =~= before);
            assert forall|i: int| 0 <= i < index implies occupied_count(cells@, i) == occupied_count(before, i) by {
                lemma_occupied_count_prefix(before, cells@, i);
            }
            lemma_occupied_count_prefix(before, cells@, index as int);
        }
        index = index + 1;
    }
    let mut label = String::new();
    push_decimal(&mut label, entry_conditions as u64);
    push_str(&mut label, " entry conditions");
    ConditionCoverage { entry_conditions, label, occupied, total: NICHES_PER_GROUP, cells }
}

proof fn lemma_occupied_count_prefix(a: Seq<CoverageCell>, b: Seq<CoverageCell>, n: int)
    requires
        0 <= n <= a.len(),
        n <= b.len(),
        forall|i: int| 0 <= i < n ==> a[i] == b[i],
    ensures
        occupied_count(a, n) == occupied_count(b, n),
    decreases n,
{
    if n > 0 {
        lemma_occupied_count_prefix(a, b, n - 1);
    }
}

/// The coverage surface: one group per entry-condition count (2, 3 and 4),
/// each listing every behavioural niche once, with the strongest elite of
/// that niche in its cell.
pub fn coverage_condition_groups(members: &Vec<CoverageMember>) -> (r: Vec<ConditionCoverage>)
    ensures
        r@.len() == COVERAGE_GROUPS,
        forall|g: int| 0 <= g < COVERAGE_GROUPS ==> group_is_correct(#[trigger] r@[g],
            (FIRST_ENTRY_CONDITION_COUNT + g) as usize, members@),
{
    let mut groups: Vec<ConditionCoverage> = Vec::new();
    let mut g: usize = 0;
    while g < COVERAGE_GROUPS
        invariant
            g <= COVERAGE_GROUPS,
            groups@.len() == g,
            forall|k: int| 0 <= k < g ==> group_is_correct(#[trigger] groups@[k], (FIRST_ENTRY_CONDITION_COUNT + k) as usize, members@),
        decreases COVERAGE_GROUPS - g,
    {
        groups.push(coverage_group(members, FIRST_ENTRY_CONDITION_COUNT + g));
        g = g + 1;
    }
    groups
}

proof fn lemma_level_roundtrip(level: ThreeLevelBucket, k: int)
    ensures
        level_at(level_digit(level)) == level,
        0 <= level_digit(level) < 3,
        0 <= k < 3 ==> level_digit(level_at(k)) == k,
{
}

proof fn lemma_skew_roundtrip(skew: LongShortSkewBucket, k: int)
    ensures
        skew_at(skew_digit(skew)) == skew,
        0 <= skew_digit(skew) < 3,
        0 <= k < 3 ==> skew_digit(skew_at(k)) == k,
{
}

proof fn lemma_digits_roundtrip(a: int, b: int, c: int, d: int, e: int)
    requires
        0 <= a < 3,
        0 <= b < 3,
        0 <= c < 3,
        0 <= d < 3,
        0 <= e < 3,
    ensures
        ({
            let i = a * 81 + b * 27 + c * 9 + d * 3 + e;
            &&& 0 <= i < 243
            &&& i / 81 == a
            &&& (i / 27) % 3 == b
            &&& (i / 9) % 3 == c
            &&& (i / 3) % 3 == d
            &&& i % 3 == e
        }),
{
    let i = a * 81 + b * 27 + c * 9 + d * 3 + e;
    assert(i / 81 == a) by (nonlinear_arith)
        requires i == a * 81 + b * 27 + c * 9 + d * 3 + e, 0 <= a < 3, 0 <= b < 3, 0 <= c < 3, 0 <= d < 3, 0 <= e < 3;
    assert(i / 27 == a * 3 + b) by (nonlinear_arith)
        requires i == a * 81 + b * 27 + c * 9 + d * 3 + e, 0 <= b < 3, 0 <= c < 3, 0 <= d < 3, 0 <= e < 3;
    assert(i / 9 == a * 9 + b * 3 + c) by (nonlinear_arith)
        requires i == a * 81 + b * 27 + c * 9 + d * 3 + e, 0 <= c < 3, 0 <= d < 3, 0 <= e < 3;
    assert(i / 3 == a * 27 + b * 9 + c * 3 + d) by (nonlinear_arith)
        requires i == a * 81 + b * 27 + c * 9 + d * 3 + e, 0 <= d < 3, 0 <= e < 3;
}

proof fn lemma_cell_digits(i: int)
    requires
        0 <= i < NICHES_PER_GROUP,
    ensures
        i == (i / 81) * 81 + ((i / 27) % 3) * 27 + ((i / 9) % 3) * 9 + ((i / 3) % 3) * 3 + i % 3,
        0 <= i / 81 < 3,
{
    assert(i == (i / 81) * 81 + ((i / 27) % 3) * 27 + ((i / 9) % 3) * 9 + ((i / 3) % 3) * 3 + i % 3) by (nonlinear_arith)
        requires 0 <= i < 243;
    assert(0 <= i / 81 < 3) by (nonlinear_arith) requires 0 <= i < 243;
}

/// Every niche appears in exactly one cell of its group: the cell at
/// `niche_cell_index(niche)` holds it, and no other cell does.
pub proof fn lemma_every_niche_has_exactly_one_cell(niche: NicheKey)
    ensures
        0 <= niche_cell_index(niche) < NICHES_PER_GROUP,
        cell_niche(niche.entry_conditions, niche_cell_index(niche)) == niche,
        forall|i: int| 0 <= i < NICHES_PER_GROUP && #[trigger] cell_niche(niche.entry_conditions, i) == niche
            ==> i == niche_cell_index(niche),
{
    lemma_level_roundtrip(niche.win_rate, 0);
    lemma_skew_roundtrip(niche.long_short_skew, 0);
    lemma_level_roundtrip(niche.trade_frequency, 0);
    lemma_level_roundtrip(niche.hold_time, 0);
    lemma_level_roundtrip(niche.drawdown, 0);
    lemma_digits_roundtrip(level_digit(niche.win_rate), skew_digit(niche.long_short_skew),
        level_digit(niche.trade_frequency), level_digit(niche.hold_time), level_digit(niche.drawdown));
    assert(cell_niche(niche.entry_conditions, niche_cell_index(niche)) == niche);
    assert forall|i: int| 0 <= i < NICHES_PER_GROUP && #[trigger] cell_niche(niche.entry_conditions, i) == niche
        implies i == niche_cell_index(niche) by {
        lemma_cell_digits(i);
        lemma_level_roundtrip(niche.win_rate, i / 81);
        lemma_skew_roundtrip(niche.long_short_skew, (i / 27) % 3);
        lemma_level_roundtrip(niche.trade_frequency, (i / 9) % 3);
        lemma_level_roundtrip(niche.hold_time, (i / 3) % 3);
        lemma_level_roundtrip(niche.drawdown, i % 3);
    }
}

/// Distinct niches among the first `n` entries.
pub open spec fn distinct_niche_count(niches: Seq<NicheKey>, n: int) -> int
    decreases n,
{
    if n <= 0 {
        0
    } else {
        distinct_niche_count(niches, n - 1) + if niches.subrange(0, n - 1).contains(niches[n - 1]) { 0int } else { 1int }
    }
}

/// How many distinct behavioural niches the elites occupy.
pub fn unique_niche_count(niches: &Vec<NicheKey>) -> (r: usize)
    ensures
        r == distinct_niche_count(niches@, niches@.len() as int),
        r <= niches@.len(),
{
    let mut count: usize = 0;
    let mut i: usize = 0;
    while i < niches.len()
        invariant
            i <= niches@.len(),
            count == distinct_niche_count(niches@, i as int),
            count <= i,
        decreases niches.len() - i,
    {
        let mut seen = false;
        let mut k: usize = 0;
        while k < i
            invariant
                k <= i < niches@.len(),
                seen == niches@.subrange(0, k as int).contains(niches@[i as int]),
            decreases i - k,
        {
            if niches[k] == niches[i] {
                seen = true;
            }
            proof {
                let x = niches@[i as int];
                let pre = niches@.subrange(0, k as int);
                let next = niches@.subrange(0, k + 1);
                assert(next =~= pre.push(niches@[k as int]));
                if next.contains(x) {
                    let j = choose|j: int| 0 <= j < next.len() && #[trigger] next[j] == x;
                    if j < k {
                        assert(pre[j] == x);
                    }
                }
                if niches@[k as int] == x {
                    assert(next[k as int] == x);
                }
                if pre.contains(x) {
                    let j = choose|j: int| 0 <= j < pre.len() && #[trigger] pre[j] == x;
                    assert(next[j] == x);
                }
            }
            k = k + 1;
        }
        if !seen {
            count = count + 1;
        }
        i = i + 1;
    }
    count
}

} // verus!
