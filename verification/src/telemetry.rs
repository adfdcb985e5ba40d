//! What a running Discover job reports from its databank telemetry: the
//! rejection funnel, the acceptance and rejection totals, the phase and
//! message lines, and the most frequent evaluation errors.
use vstd::prelude::*;
use vstd::set_lib::{lemma_int_range, lemma_map_size, lemma_subset_equality, set_int_range};
use crate::discover::EvaluationErrorCount;
use crate::text::{decimal, owned, push_decimal, push_str};

verus! {

/// How many evaluation errors a job view lists.
pub const TOP_EVALUATION_ERRORS: usize = 5;

pub open spec fn error_counts(errors: Seq<EvaluationErrorCount>) -> Seq<u64> {
    errors.map_values(|e: EvaluationErrorCount| e.count)
}

/// Entry `j` is listed before entry `i` when errors are ordered by descending
/// count and equal counts keep their input order.
pub open spec fn listed_before(counts: Seq<u64>, j: int, i: int) -> bool {
    counts[j] > counts[i] || (counts[j] == counts[i] && j < i)
}

/// How many of the first `n` entries are listed before entry `i`.
pub open spec fn rank_among(counts: Seq<u64>, n: int, i: int) -> nat
    decreases n,
{
    if n <= 0 {
        0
    } else {
        rank_among(counts, n - 1, i) + if listed_before(counts, n - 1, i) { 1nat } else { 0nat }
    }
}

/// The position entry `i` takes when all entries are listed by descending
/// count, ties in their input order.
pub open spec fn listing_position(counts: Seq<u64>, i: int) -> nat {
    rank_among(counts, counts.len() as int, i)
}

/// Some entry takes position `k`.
pub open spec fn position_taken(counts: Seq<u64>, k: int) -> bool {
    exists|i: int| 0 <= i < counts.len() && #[trigger] listing_position(counts, i) == k
}

proof fn lemma_rank_bound(counts: Seq<u64>, n: int, i: int)
    requires
        0 <= n <= counts.len(),
        0 <= i < counts.len(),
    ensures
        rank_among(counts, n, i) <= n,
        i < n ==> rank_among(counts, n, i) < n,
    decreases n,
{
    if n > 0 {
        lemma_rank_bound(counts, n - 1, i);
    }
}

/// Whatever is listed before `a` is listed before `b` too, and so is `a`.
proof fn lemma_rank_grows(counts: Seq<u64>, n: int, a: int, b: int)
    requires
        0 <= n <= counts.len(),
        0 <= a < counts.len(),
        0 <= b < counts.len(),
        listed_before(counts, a, b),
    ensures
        rank_among(counts, n, b) >= rank_among(counts, n, a) + if a < n { 1int } else { 0int },
    decreases n,
{
    if n > 0 {
        lemma_rank_grows(counts, n - 1, a, b);
    }
}

/// Distinct entries take distinct positions.
proof fn lemma_positions_distinct(counts: Seq<u64>, a: int, b: int)
    requires
        0 <= a < counts.len(),
        0 <= b < counts.len(),
        a != b,
    ensures
        listing_position(counts, a) != listing_position(counts, b),
{
    let n = counts.len() as int;
    if listed_before(counts, a, b) {
        lemma_rank_grows(counts, n, a, b);
    } else {
        assert(listed_before(counts, b, a));
        lemma_rank_grows(counts, n, b, a);
    }
}

/// Every position below the number of entries is taken by some entry.
proof fn lemma_positions_cover(counts: Seq<u64>, k: int)
    requires
        0 <= k < counts.len(),
    ensures
        position_taken(counts, k),
{
    let n = counts.len() as int;
    let indices = set_int_range(0, n);
    let f = |i: int| listing_position(counts, i) as int;
    let positions = indices.map(f);
    lemma_int_range(0, n);
    assert forall|x1: int, x2: int| indices.contains(x1) && indices.contains(x2) && #[trigger] f(x1) == #[trigger] f(x2) implies x1 == x2 by {
        if x1 != x2 {
            lemma_positions_distinct(counts, x1, x2);
        }
    }
    lemma_map_size(indices, positions, f);
    assert forall|p: int| positions.contains(p) implies indices.contains(p) by {
        let i = choose|i: int| indices.contains(i) && p == f(i);
        lemma_rank_bound(counts, n, i);
    }
    lemma_subset_equality(positions, indices);
    assert(indices.contains(k));
    assert(positions.contains(k));
    let i = choose|i: int| indices.contains(i) && k == f(i);
    assert(0 <= i < n && listing_position(counts, i) == k);
}

fn copy_error(e: &EvaluationErrorCount) -> (r: EvaluationErrorCount)
    ensures
        r.message@ == e.message@,
        r.count == e.count,
{
    EvaluationErrorCount { message: e.message.clone(), count: e.count }
}

fn listing_position_of(errors: &Vec<EvaluationErrorCount>, i: usize) -> (r: usize)
    requires
        i < errors.len(),
    ensures
        r == listing_position(error_counts(errors@), i as int),
        r < errors.len(),
{
    let ghost counts = error_counts(errors@);
    let mut r: usize = 0;
    let mut j: usize = 0;
    while j < errors.len()
        invariant
            counts == error_counts(errors@),
            i < errors.len(),
            j <= errors.len(),
            r == rank_among(counts, j as int, i as int),
        decreases errors.len() - j,
    {
        proof {
            lemma_rank_bound(counts, j as int, i as int);
        }
        if errors[j].count > errors[i].count || (errors[j].count == errors[i].count && j < i) {
            r = r + 1;
        }
        j = j + 1;
    }
    proof {
        lemma_rank_bound(counts, errors.len() as int, i as int);
    }
    r
}

/// The most frequent evaluation errors, at most five: listed by descending
/// count, equal counts in their input order. Entry `i` lands at its
/// listing position when that position is below five, and every listed slot
/// holds the entry whose position it is.
pub fn top_evaluation_errors(errors: &Vec<EvaluationErrorCount>) -> (r: Vec<EvaluationErrorCount>)
    ensures
        r.len() == (if errors.len() < TOP_EVALUATION_ERRORS { errors.len() } else { TOP_EVALUATION_ERRORS }),
        forall|i: int| 0 <= i < errors.len() && #[trigger] listing_position(error_counts(errors@), i) < r.len() ==> {
            let p = listing_position(error_counts(errors@), i) as int;
            &&& r[p].message@ == errors[i].message@
            &&& r[p].count == errors[i].count
        },
        forall|k: int| 0 <= k < r.len() ==> #[trigger] position_taken(error_counts(errors@), k),
{
    let ghost counts = error_counts(errors@);
    let n = errors.len();
    let m = if n < TOP_EVALUATION_ERRORS { n } else { TOP_EVALUATION_ERRORS };
    let mut out: Vec<EvaluationErrorCount> = Vec::new();
    let mut k: usize = 0;
    while k < m
        invariant
            m <= n,
            n == errors.len(),
            k <= m,
            out.len() == k,
        decreases m - k,
    {
        out.push(copy_error(&errors[k]));
        k = k + 1;
    }
    let mut i: usize = 0;
    while i < n
        invariant
            counts == error_counts(errors@),
            m <= n,
            n == errors.len(),
            out.len() == m,
            i <= n,
            forall|j: int| 0 <= j < i && #[trigger] listing_position(counts, j) < m ==> {
                let p = listing_position(counts, j) as int;
                &&& out[p].message@ == errors[j].message@
                &&& out[p].count == errors[j].count
            },
        decreases n - i,
    {
        let position = listing_position_of(errors, i);
        if position < m {
            let ghost before = out@;
            out.set(position, copy_error(&errors[i]));
            proof {
                assert forall|j: int| 0 <= j < i + 1 && #[trigger] listing_position(counts, j) < m implies {
                    let p = listing_position(counts, j) as int;
                    &&& out[p].message@ == errors[j].message@
                    &&& out[p].count == errors[j].count
                } by {
                    if j != i as int {
                        lemma_positions_distinct(counts, j, i as int);
                        assert(out@[listing_position(counts, j) as int] == before[listing_position(counts, j) as int]);
                    }
                }
            }
        }
        i = i + 1;
    }
    proof {
        assert forall|k: int| 0 <= k < m implies #[trigger] position_taken(counts, k) by {
            lemma_positions_cover(counts, k);
        }
    }
    out
}

/// The databank telemetry counters a job view reads.
#[derive(Debug, Clone, Copy, PartialEq, Eq)]
pub struct DiscoverTelemetry {
    pub pot_accepted: u64,
    pub pot_replaced: u64,
    pub databank_accepted: u64,
    pub databank_replaced: u64,
    pub holding_accepted: u64,
    pub holding_replaced: u64,
    pub rejected_gate: u64,
    pub rejected_deposit_gate: u64,
    pub rejected_clone: u64,
    pub rejected_correlated: u64,
    pub rejected_niche_not_improved: u64,
    pub rejected_family_not_improved: u64,
    pub rejected_precision: u64,
    pub rejected_ambiguous: u64,
    pub rejected_oos1: u64,
    pub rejected_development_expectancy: u64,
    pub rejected_m1_fidelity: u64,
    pub rejected_walk_forward: u64,
    pub rejected_monte_carlo: u64,
    pub rejected_param_neighborhood: u64,
    pub rejected_multi_symbol: u64,
    pub rejected_deflated_sharpe: u64,
    pub rejected_evaluation: u64,
    pub promotion_queue_depth: u64,
    pub promotion_inflight: u64,
}

pub open spec fn num(n: u64) -> Seq<char> {
    decimal(n as nat)
}

/// One line naming every rejection stage and its count.
pub open spec fn funnel_text(t: DiscoverTelemetry) -> Seq<char> {
    "Rejects — scout "@ + num(t.rejected_gate)
        + ", deposit "@ + num(t.rejected_deposit_gate)
        + ", ambiguous "@ + num(t.rejected_ambiguous)
        + ", M1 retention "@ + num(t.rejected_m1_fidelity)
        + ", Development R "@ + num(t.rejected_development_expectancy)
        + ", WF "@ + num(t.rejected_walk_forward)
        + ", MC "@ + num(t.rejected_monte_carlo)
        + ", param "@ + num(t.rejected_param_neighborhood)
        + ", OOS1 "@ + num(t.rejected_oos1)
        + ", clone "@ + num(t.rejected_clone)
        + ", corr "@ + num(t.rejected_correlated)
        + ", niche "@ + num(t.rejected_niche_not_improved)
        + ", family "@ + num(t.rejected_family_not_improved)
        + ", eval "@ + num(t.rejected_evaluation)
        + "."@
}

fn push_count(s: &mut String, label: &str, n: u64)
    ensures
        final(s)@ == old(s)@ + label@ + num(n),
{
    push_str(s, label);
    push_decimal(s, n);
}

pub fn funnel_summary(t: &DiscoverTelemetry) -> (r: String)
    ensures
        r@ == funnel_text(*t),
{
    let mut s = owned("Rejects — scout ");
    push_decimal(&mut s, t.rejected_gate);
    push_count(&mut s, ", deposit ", t.rejected_deposit_gate);
    push_count(&mut s, ", ambiguous ", t.rejected_ambiguous);
    push_count(&mut s, ", M1 retention ", t.rejected_m1_fidelity);
    push_count(&mut s, ", Development R ", t.rejected_development_expectancy);
    push_count(&mut s, ", WF ", t.rejected_walk_forward);
    push_count(&mut s, ", MC ", t.rejected_monte_carlo);
    push_count(&mut s, ", param ", t.rejected_param_neighborhood);
    push_count(&mut s, ", OOS1 ", t.rejected_oos1);
    push_count(&mut s, ", clone ", t.rejected_clone);
    push_count(&mut s, ", corr ", t.rejected_correlated);
    push_count(&mut s, ", niche ", t.rejected_niche_not_improved);
    push_count(&mut s, ", family ", t.rejected_family_not_improved);
    push_count(&mut s, ", eval ", t.rejected_evaluation);
    push_str(&mut s, ".");
    s
}

/// Candidates admitted to the pot or the databank, new or as replacements.
pub open spec fn accepted_sum(t: DiscoverTelemetry) -> int {
    t.pot_accepted + t.pot_replaced + t.databank_accepted + t.databank_replaced
}

/// Every rejection a running job counts.
pub open spec fn rejected_sum(t: DiscoverTelemetry) -> int {
    t.rejected_gate + t.rejected_deposit_gate + t.rejected_clone + t.rejected_correlated
        + t.rejected_niche_not_improved + t.rejected_family_not_improved + t.rejected_precision
        + t.rejected_ambiguous + t.rejected_oos1 + t.rejected_development_expectancy
        + t.rejected_m1_fidelity + t.rejected_walk_forward + t.rejected_monte_carlo
        + t.rejected_param_neighborhood + t.rejected_multi_symbol + t.rejected_deflated_sharpe
        + t.rejected_evaluation
}

/// The rejections a loaded databank's workspace totals: all but the
/// multi-symbol and deflated-Sharpe screens.
pub open spec fn workspace_rejected_sum(t: DiscoverTelemetry) -> int {
    rejected_sum(t) - t.rejected_multi_symbol - t.rejected_deflated_sharpe
}

/// Changes whenever the databank or Holding admits or replaces a strategy.
pub open spec fn revision_sum(t: DiscoverTelemetry) -> int {
    t.databank_accepted + t.databank_replaced + t.holding_accepted + t.holding_replaced
}

pub fn accepted_total(t: &DiscoverTelemetry) -> (r: u64)
    requires
        accepted_sum(*t) <= u64::MAX,
    ensures
        r == accepted_sum(*t),
{
    t.pot_accepted + t.pot_replaced + t.databank_accepted + t.databank_replaced
}

pub fn rejected_total(t: &DiscoverTelemetry) -> (r: u64)
    requires
        rejected_sum(*t) <= u64::MAX,
    ensures
        r == rejected_sum(*t),
{
    t.rejected_gate + t.rejected_deposit_gate + t.rejected_clone + t.rejected_correlated
        + t.rejected_niche_not_improved + t.rejected_family_not_improved + t.rejected_precision
        + t.rejected_ambiguous + t.rejected_oos1 + t.rejected_development_expectancy
        + t.rejected_m1_fidelity + t.rejected_walk_forward + t.rejected_monte_carlo
        + t.rejected_param_neighborhood + t.rejected_multi_symbol + t.rejected_deflated_sharpe
        + t.rejected_evaluation
}

pub fn workspace_rejected_total(t: &DiscoverTelemetry) -> (r: u64)
    requires
        rejected_sum(*t) <= u64::MAX,
    ensures
        r == workspace_rejected_sum(*t),
{
    t.rejected_gate + t.rejected_deposit_gate + t.rejected_clone + t.rejected_correlated
        + t.rejected_niche_not_improved + t.rejected_family_not_improved + t.rejected_precision
        + t.rejected_ambiguous + t.rejected_oos1 + t.rejected_development_expectancy
        + t.rejected_m1_fidelity + t.rejected_walk_forward + t.rejected_monte_carlo
        + t.rejected_param_neighborhood + t.rejected_evaluation
}

pub fn live_databank_revision(t: &DiscoverTelemetry) -> (r: u64)
    requires
        revision_sum(*t) <= u64::MAX,
    ensures
        r == revision_sum(*t),
{
    t.databank_accepted + t.databank_replaced + t.holding_accepted + t.holding_replaced
}

/// The workspace total never exceeds the running job's total.
pub proof fn lemma_workspace_rejections_within_job_total(t: DiscoverTelemetry)
    ensures
        workspace_rejected_sum(t) <= rejected_sum(t),
{
}

/// Breeding runs once the pot reached its threshold and the accepted pool is non-empty.
pub open spec fn breeding_is_active(pot: usize, mutate_after: usize, accepted_pool_empty: bool) -> bool {
    pot >= mutate_after && !accepted_pool_empty
}

pub fn breeding_active(pot: usize, mutate_after: usize, accepted_pool_empty: bool) -> (r: bool)
    ensures
        r == breeding_is_active(pot, mutate_after, accepted_pool_empty),
{
    pot >= mutate_after && !accepted_pool_empty
}

/// What a job's progress is measured against: Holding or the databank.
pub open spec fn quota_label(build_to_holding: bool) -> Seq<char> {
    if build_to_holding { "holding"@ } else { "databank"@ }
}

/// The counts a running job's phase and message report.
#[derive(Debug, Clone, Copy, PartialEq, Eq)]
pub struct BankProgress {
    pub target: Option<usize>,
    pub build_to_holding: bool,
    pub quota_count: usize,
    pub pot: usize,
    pub holding: usize,
    pub databank: usize,
    pub mutate_after: usize,
    pub breeding: bool,
    pub completed_now: u64,
}

pub open spec fn unum(n: usize) -> Seq<char> {
    decimal(n as nat)
}

pub open spec fn bank_phase_text(p: BankProgress, t: DiscoverTelemetry) -> Seq<char> {
    match p.target {
        Some(target) => "Quota · "@ + quota_label(p.build_to_holding) + " "@ + unum(p.quota_count) + "/"@
            + unum(target) + " · pot "@ + unum(p.pot) + " · gen "@ + num(p.completed_now),
        None => if p.breeding {
            "Breeding · pot "@ + unum(p.pot) + " · holding "@ + unum(p.holding) + " · databank "@
                + unum(p.databank) + " · promo queue "@ + num(t.promotion_queue_depth) + " · gen "@
                + num(p.completed_now)
        } else {
            "Filling initial pot · "@ + unum(p.pot) + "/"@ + unum(p.mutate_after) + " · holding "@
                + unum(p.holding) + " · gen "@ + num(p.completed_now)
        },
    }
}

pub open spec fn reservoir_gap(p: BankProgress) -> nat {
    if p.mutate_after > p.pot { (p.mutate_after - p.pot) as nat } else { 0 }
}

pub open spec fn bank_message_text(p: BankProgress, t: DiscoverTelemetry) -> Seq<char> {
    match p.target {
        Some(target) => "Quota Harvest: "@ + quota_label(p.build_to_holding) + " "@ + unum(p.quota_count)
            + "/"@ + unum(target) + " (stop at "@ + unum(target) + "). Pot "@ + unum(p.pot)
            + " is only a breeding bag — not the goal. "@ + funnel_text(t),
        None => if p.breeding {
            "Build continues; Holding pipeline on side workers (queue "@ + num(t.promotion_queue_depth)
                + ", "@ + num(t.promotion_inflight) + " in flight). Pot "@ + unum(p.pot) + " · holding "@
                + unum(p.holding) + " · databank "@ + unum(p.databank) + ". "@ + funnel_text(t)
        } else {
            "Development reservoir "@ + unum(p.pot) + " (breed at "@ + unum(p.mutate_after)
                + "). Holding "@ + unum(p.holding) + " after breeding (H1+M1; battery deferred). "@
                + decimal(reservoir_gap(p)) + " more reservoir members until breeding. "@ + funnel_text(t)
        },
    }
}

fn push_size(s: &mut String, label: &str, n: usize)
    ensures
        final(s)@ == old(s)@ + label@ + unum(n),
{
    push_str(s, label);
    push_decimal(s, n as u64);
}

/// The phase line of a running job.
pub fn bank_phase(p: &BankProgress, t: &DiscoverTelemetry) -> (r: String)
    ensures
        r@ == bank_phase_text(*p, *t),
{
    let mut s = String::new();
    match p.target {
        Some(target) => {
            s = owned("Quota · ");
            push_str(&mut s, if p.build_to_holding { "holding" } else { "databank" });
            push_size(&mut s, " ", p.quota_count);
            push_size(&mut s, "/", target);
            push_size(&mut s, " · pot ", p.pot);
            push_count(&mut s, " · gen ", p.completed_now);
        },
        None => {
            if p.breeding {
                s = owned("Breeding · pot ");
                push_decimal(&mut s, p.pot as u64);
                push_size(&mut s, " · holding ", p.holding);
                push_size(&mut s, " · databank ", p.databank);
                push_count(&mut s, " · promo queue ", t.promotion_queue_depth);
                push_count(&mut s, " · gen ", p.completed_now);
            } else {
                s = owned("Filling initial pot · ");
                push_decimal(&mut s, p.pot as u64);
                push_size(&mut s, "/", p.mutate_after);
                push_size(&mut s, " · holding ", p.holding);
                push_count(&mut s, " · gen ", p.completed_now);
            }
        },
    }
    s
}

/// The message line of a running job, ending in the rejection funnel.
pub fn bank_message(p: &BankProgress, t: &DiscoverTelemetry) -> (r: String)
    ensures
        r@ == bank_message_text(*p, *t),
{
    let mut s = String::new();
    match p.target {
        Some(target) => {
            s = owned("Quota Harvest: ");
            push_str(&mut s, if p.build_to_holding { "holding" } else { "databank" });
            push_size(&mut s, " ", p.quota_count);
            push_size(&mut s, "/", target);
            push_size(&mut s, " (stop at ", target);
            push_size(&mut s, "). Pot ", p.pot);
            push_str(&mut s, " is only a breeding bag — not the goal. ");
        },
        None => {
            if p.breeding {
                s = owned("Build continues; Holding pipeline on side workers (queue ");
                push_decimal(&mut s, t.promotion_queue_depth);
                push_count(&mut s, ", ", t.promotion_inflight);
                push_size(&mut s, " in flight). Pot ", p.pot);
                push_size(&mut s, " · holding ", p.holding);
                push_size(&mut s, " · databank ", p.databank);
                push_str(&mut s, ". ");
            } else {
                s = owned("Development reservoir ");
                push_decimal(&mut s, p.pot as u64);
                push_size(&mut s, " (breed at ", p.mutate_after);
                push_size(&mut s, "). Holding ", p.holding);
                push_str(&mut s, " after breeding (H1+M1; battery deferred). ");
                let gap: usize = if p.mutate_after > p.pot { p.mutate_after - p.pot } else { 0 };
                push_decimal(&mut s, gap as u64);
                push_str(&mut s, " more reservoir members until breeding. ");
            }
        },
    }
    let funnel = funnel_summary(t);
    push_str(&mut s, funnel.as_str());
    s
}

} // verus!
