//! The Holding robustness battery: the queue it runs, the ledger it keeps
//! while strategies pass or are rejected, and the funnel it reports.
use vstd::prelude::*;
use crate::paths::{file_stem, path_file_stem, path_with_file_name, with_file_name};
use crate::text::{decimal, owned, push_decimal, push_str, str_eq, string_views, to_char_vec};

verus! {

/// How many strategies the battery refused, by the stage that refused them.
#[derive(Debug, Clone, Copy, PartialEq, Eq)]
pub struct BatteryKillMix {
    pub neighborhood: usize,
    pub monte_carlo: usize,
    pub folds: usize,
    pub m1: usize,
    pub deposit: usize,
    pub expectancy: usize,
    pub oos1: usize,
    pub correlation: usize,
    pub clone: usize,
    pub other: usize,
}

pub open spec fn no_kills() -> BatteryKillMix {
    BatteryKillMix {
        neighborhood: 0,
        monte_carlo: 0,
        folds: 0,
        m1: 0,
        deposit: 0,
        expectancy: 0,
        oos1: 0,
        correlation: 0,
        clone: 0,
        other: 0,
    }
}

impl Default for BatteryKillMix {
    fn default() -> (r: BatteryKillMix)
        ensures
            r == no_kills(),
    {
        BatteryKillMix {
            neighborhood: 0,
            monte_carlo: 0,
            folds: 0,
            m1: 0,
            deposit: 0,
            expectancy: 0,
            oos1: 0,
            correlation: 0,
            clone: 0,
            other: 0,
        }
    }
}

pub open spec fn kill_total(mix: BatteryKillMix) -> int {
    mix.neighborhood + mix.monte_carlo + mix.folds + mix.m1 + mix.deposit + mix.expectancy + mix.oos1
        + mix.correlation + mix.clone + mix.other
}

/// The mix after one more refusal in `bucket`; unknown buckets count as `other`.
pub open spec fn bumped(mix: BatteryKillMix, bucket: Seq<char>) -> BatteryKillMix {
    if bucket == "neighborhood"@ {
        BatteryKillMix { neighborhood: (mix.neighborhood + 1) as usize, ..mix }
    } else if bucket == "monte_carlo"@ {
        BatteryKillMix { monte_carlo: (mix.monte_carlo + 1) as usize, ..mix }
    } else if bucket == "folds"@ {
        BatteryKillMix { folds: (mix.folds + 1) as usize, ..mix }
    } else if bucket == "m1"@ {
        BatteryKillMix { m1: (mix.m1 + 1) as usize, ..mix }
    } else if bucket == "deposit"@ {
        BatteryKillMix { deposit: (mix.deposit + 1) as usize, ..mix }
    } else if bucket == "expectancy"@ {
        BatteryKillMix { expectancy: (mix.expectancy + 1) as usize, ..mix }
    } else if bucket == "oos1"@ {
        BatteryKillMix { oos1: (mix.oos1 + 1) as usize, ..mix }
    } else if bucket == "correlation"@ {
        BatteryKillMix { correlation: (mix.correlation + 1) as usize, ..mix }
    } else if bucket == "clone"@ {
        BatteryKillMix { clone: (mix.clone + 1) as usize, ..mix }
    } else {
        BatteryKillMix { other: (mix.other + 1) as usize, ..mix }
    }
}

/// The bucket names the battery reports, in the order of the mix's fields;
/// any other name is counted as `other`, the field after them.
pub open spec fn kill_buckets() -> Seq<Seq<char>> {
    seq!["neighborhood"@, "monte_carlo"@, "folds"@, "m1"@, "deposit"@, "expectancy"@, "oos1"@,
        "correlation"@, "clone"@]
}

/// The count of the `k`-th field of the mix (`other` is field 9).
pub open spec fn kill_count(mix: BatteryKillMix, k: int) -> int {
    if k == 0 { mix.neighborhood as int }
    else if k == 1 { mix.monte_carlo as int }
    else if k == 2 { mix.folds as int }
    else if k == 3 { mix.m1 as int }
    else if k == 4 { mix.deposit as int }
    else if k == 5 { mix.expectancy as int }
    else if k == 6 { mix.oos1 as int }
    else if k == 7 { mix.correlation as int }
    else if k == 8 { mix.clone as int }
    else { mix.other as int }
}

proof fn lemma_kill_buckets_distinct()
    ensures
        forall|a: int, b: int| 0 <= a < 9 && 0 <= b < 9 && a != b ==> kill_buckets()[a] != kill_buckets()[b],
{
    reveal_strlit("neighborhood");
    reveal_strlit("monte_carlo");
    reveal_strlit("folds");
    reveal_strlit("m1");
    reveal_strlit("deposit");
    reveal_strlit("expectancy");
    reveal_strlit("oos1");
    reveal_strlit("correlation");
    reveal_strlit("clone");
    let names = kill_buckets();
    assert(names[0].len() == 12);
    assert(names[1].len() == 11 && names[1][0] == 'm');
    assert(names[2].len() == 5 && names[2][0] == 'f');
    assert(names[3].len() == 2);
    assert(names[4].len() == 7);
    assert(names[5].len() == 10);
    assert(names[6].len() == 4);
    assert(names[7].len() == 11 && names[7][0] == 'c');
    assert(names[8].len() == 5 && names[8][0] == 'c');
}

/// The field a refusal in `bucket` is counted in: the bucket's position among
/// `kill_buckets`, or `other` (field 9) for any other name.
pub open spec fn bucket_field(bucket: Seq<char>) -> int {
    first_position(kill_buckets(), bucket, 0)
}

/// The first position at or after `i` where `names` holds `name`, or
/// `names.len()` when none does.
pub open spec fn first_position(names: Seq<Seq<char>>, name: Seq<char>, i: int) -> int
    decreases names.len() - i,
{
    if i < 0 || i >= names.len() {
        names.len() as int
    } else if names[i] == name {
        i
    } else {
        first_position(names, name, i + 1)
    }
}

/// Counting a refusal raises exactly one field by one: the field of its
/// bucket when the bucket is one of `kill_buckets`, `other` otherwise. Every
/// other field, `other` included for a known bucket, keeps its count; and
/// distinct known buckets are counted in distinct fields.
pub proof fn lemma_bump_counts_its_own_bucket(mix: BatteryKillMix, bucket: Seq<char>)
    requires
        kill_total(mix) < usize::MAX,
    ensures
        forall|f: int| 0 <= f < 10 ==> #[trigger] kill_count(bumped(mix, bucket), f)
            == kill_count(mix, f) + (if f == bucket_field(bucket) { 1int } else { 0int }),
        forall|k: int| 0 <= k < 9 ==> bucket_field(#[trigger] kill_buckets()[k]) == k,
{
    lemma_kill_buckets_distinct();
    let names = kill_buckets();
    assert(names.len() == 9);
    assert forall|k: int| 0 <= k < 9 implies bucket_field(#[trigger] names[k]) == k by {
        lemma_first_position_of_distinct(names, k, 0);
    }
    let f = bucket_field(bucket);
    lemma_first_position_facts(names, bucket, 0);
    if f == 0 { assert(bucket == names[0]); }
    else if f == 1 { assert(bucket == names[1] && bucket != names[0]); }
    else if f == 2 { assert(bucket == names[2] && bucket != names[0] && bucket != names[1]); }
    else if f == 3 { assert(bucket == names[3] && bucket != names[0] && bucket != names[1] && bucket != names[2]); }
    else if f == 4 { assert(bucket == names[4] && bucket != names[0] && bucket != names[1] && bucket != names[2] && bucket != names[3]); }
    else if f == 5 { assert(bucket == names[5] && bucket != names[0] && bucket != names[1] && bucket != names[2] && bucket != names[3] && bucket != names[4]); }
    else if f == 6 { assert(bucket == names[6] && bucket != names[0] && bucket != names[1] && bucket != names[2] && bucket != names[3] && bucket != names[4] && bucket != names[5]); }
    else if f == 7 { assert(bucket == names[7] && bucket != names[0] && bucket != names[1] && bucket != names[2] && bucket != names[3] && bucket != names[4] && bucket != names[5] && bucket != names[6]); }
    else if f == 8 { assert(bucket == names[8] && bucket != names[0] && bucket != names[1] && bucket != names[2] && bucket != names[3] && bucket != names[4] && bucket != names[5] && bucket != names[6] && bucket != names[7]); }
    else {
        assert(bucket != names[0] && bucket != names[1] && bucket != names[2] && bucket != names[3] && bucket != names[4]);
        assert(bucket != names[5] && bucket != names[6] && bucket != names[7] && bucket != names[8]);
    }
}

proof fn lemma_first_position_facts(names: Seq<Seq<char>>, name: Seq<char>, i: int)
    requires
        0 <= i <= names.len(),
    ensures
        i <= first_position(names, name, i) <= names.len(),
        first_position(names, name, i) < names.len() ==> names[first_position(names, name, i)] == name,
        forall|j: int| i <= j < first_position(names, name, i) ==> names[j] != name,
    decreases names.len() - i,
{
    if i < names.len() && names[i] != name {
        lemma_first_position_facts(names, name, i + 1);
    }
}

proof fn lemma_first_position_of_distinct(names: Seq<Seq<char>>, k: int, i: int)
    requires
        0 <= i <= k < names.len(),
        forall|a: int, b: int| 0 <= a < names.len() && 0 <= b < names.len() && a != b ==> names[a] != names[b],
    ensures
        first_position(names, names[k], i) == k,
    decreases k - i,
{
    if i < k {
        lemma_first_position_of_distinct(names, k, i + 1);
    }
}

impl BatteryKillMix {
    /// Counts one refusal in `bucket`.
    pub fn bump(&mut self, bucket: &str)
        requires
            kill_total(*old(self)) < usize::MAX,
        ensures
            *final(self) == bumped(*old(self), bucket@),
            kill_total(*final(self)) == kill_total(*old(self)) + 1,
    {
        if str_eq(bucket, "neighborhood") {
            self.neighborhood = self.neighborhood + 1;
        } else if str_eq(bucket, "monte_carlo") {
            self.monte_carlo = self.monte_carlo + 1;
        } else if str_eq(bucket, "folds") {
            self.folds = self.folds + 1;
        } else if str_eq(bucket, "m1") {
            self.m1 = self.m1 + 1;
        } else if str_eq(bucket, "deposit") {
            self.deposit = self.deposit + 1;
        } else if str_eq(bucket, "expectancy") {
            self.expectancy = self.expectancy + 1;
        } else if str_eq(bucket, "oos1") {
            self.oos1 = self.oos1 + 1;
        } else if str_eq(bucket, "correlation") {
            self.correlation = self.correlation + 1;
        } else if str_eq(bucket, "clone") {
            self.clone = self.clone + 1;
        } else {
            self.other = self.other + 1;
        }
    }
}

/// What one battery run decided for one strategy.
#[derive(Debug, Clone, PartialEq, Eq)]
pub enum BatteryOutcome {
    /// Passed every test and moved to the Databank.
    Passed,
    /// Audited: failed a test but graduated anyway, with the reason.
    AuditedFailed(Option<String>),
    /// Refused by the stage `bucket`, with the reason; it stays in Holding.
    Rejected { bucket: String, reason: String },
}

/// The battery's running tally.
#[derive(Debug, Clone, PartialEq, Eq)]
pub struct BatteryLedger {
    pub total: usize,
    pub completed: usize,
    pub passed: usize,
    pub rejected: usize,
    pub kill_mix: BatteryKillMix,
}

impl BatteryLedger {
    /// Every strategy that finished either passed or was rejected, none
    /// finished beyond the queue, and each kill was counted as a rejection.
    pub open spec fn well_formed(&self) -> bool {
        &&& self.completed == self.passed + self.rejected
        &&& self.completed <= self.total
        &&& kill_total(self.kill_mix) <= self.rejected
    }

    pub fn new(total: usize) -> (r: BatteryLedger)
        ensures
            r.well_formed(),
            r.total == total,
            r.completed == 0,
            r.kill_mix == no_kills(),
    {
        BatteryLedger { total, completed: 0, passed: 0, rejected: 0, kill_mix: BatteryKillMix::default() }
    }

    /// Records the outcome of the next queued strategy.
    pub fn record(&mut self, outcome: &BatteryOutcome)
        requires
            old(self).well_formed(),
            old(self).completed < old(self).total,
        ensures
            final(self).well_formed(),
            final(self).total == old(self).total,
            final(self).completed == old(self).completed + 1,
            *outcome is Passed ==> final(self).passed == old(self).passed + 1 && final(self).rejected == old(self).rejected,
            !(*outcome is Passed) ==> final(self).passed == old(self).passed && final(self).rejected == old(self).rejected + 1,
            match *outcome {
                BatteryOutcome::Rejected { bucket, reason } => final(self).kill_mix == bumped(old(self).kill_mix, bucket@),
                _ => final(self).kill_mix == old(self).kill_mix,
            },
    {
        self.completed = self.completed + 1;
        match outcome {
            BatteryOutcome::Passed => {
                self.passed = self.passed + 1;
            },
            BatteryOutcome::AuditedFailed(_) => {
                self.rejected = self.rejected + 1;
            },
            BatteryOutcome::Rejected { bucket, reason } => {
                self.rejected = self.rejected + 1;
                self.kill_mix.bump(bucket.as_str());
            },
        }
    }
}

/// Recording any sequence of outcomes keeps the ledger balanced: after `n`
/// records from an empty ledger, `n` strategies completed, and they split
/// exactly into passes and rejections.
pub proof fn lemma_ledger_balances(ledger: BatteryLedger)
    requires
        ledger.well_formed(),
    ensures
        ledger.passed + ledger.rejected == ledger.completed,
        ledger.passed <= ledger.total,
        ledger.rejected <= ledger.total,
{
}

/// What the battery shows after a strategy finished.
#[derive(Debug, Clone, PartialEq, Eq)]
pub struct BatteryTick {
    pub remaining: usize,
    pub target_hit: bool,
    pub finished: bool,
    pub queued: usize,
    pub running: usize,
}

pub open spec fn target_reached(target_databank: Option<usize>, databank_elites: usize) -> bool {
    target_databank matches Some(target) && databank_elites >= target
}

/// The battery finishes when the queue is exhausted, a stop was requested,
/// or the Databank reached its target size; until then one strategy runs
/// and the rest wait.
pub fn battery_tick(
    completed: usize,
    total: usize,
    stop_requested: bool,
    target_databank: Option<usize>,
    databank_elites: usize,
) -> (r: BatteryTick)
    ensures
        r.remaining == if completed >= total { 0 } else { total - completed },
        r.target_hit == target_reached(target_databank, databank_elites),
        r.finished == (r.remaining == 0 || stop_requested || r.target_hit),
        r.finished ==> r.queued == 0 && r.running == 0,
        !r.finished ==> r.queued == r.remaining - 1 && r.running == 1,
{
    let remaining = if completed >= total { 0 } else { total - completed };
    let target_hit = match target_databank {
        Some(target) => databank_elites >= target,
        None => false,
    };
    let finished = remaining == 0 || stop_requested || target_hit;
    if finished {
        BatteryTick { remaining, target_hit, finished, queued: 0, running: 0 }
    } else {
        BatteryTick { remaining, target_hit, finished, queued: remaining - 1, running: 1 }
    }
}

/// The status a finished battery reports.
pub fn finished_status(stopped: bool) -> (r: &'static str)
    ensures
        stopped ==> r@ == "stopped"@,
        !stopped ==> r@ == "completed"@,
{
    if stopped { "stopped" } else { "completed" }
}

/// The phase a battery shows when it finishes after a strategy.
pub fn finished_phase(stopped: bool, target_hit: bool) -> (r: &'static str)
    ensures
        stopped ==> r@ == "Stopped"@,
        !stopped && target_hit ==> r@ == "Databank target reached"@,
        !stopped && !target_hit ==> r@ == "Battery complete"@,
{
    if stopped {
        "Stopped"
    } else if target_hit {
        "Databank target reached"
    } else {
        "Battery complete"
    }
}

/// The phase while the battery is still running: `Audit 3/10` or `Battery 3/10`.
pub fn progress_phase(audit_and_graduate: bool, completed: usize, total: usize) -> (r: String)
    ensures
        r@ == (if audit_and_graduate { "Audit "@ } else { "Battery "@ }) + decimal(completed as nat) + "/"@
            + decimal(total as nat),
{
    let mut text = owned(if audit_and_graduate { "Audit " } else { "Battery " });
    push_decimal(&mut text, completed as u64);
    push_str(&mut text, "/");
    push_decimal(&mut text, total as u64);
    text
}

/// The running message; `rate` is the throughput already written as text.
pub open spec fn progress_text(audit_and_graduate: bool, holding_before: usize, completed: usize, passed: usize, rejected: usize, rate: Seq<char>) -> Seq<char> {
    if audit_and_graduate {
        decimal(holding_before as nat) + " Holding → "@ + decimal(completed as nat) + " audited → "@
            + decimal(passed as nat) + " passed / "@ + decimal(rejected as nat) + " failed tests → all "@
            + decimal(completed as nat) + " moved to Databank · "@ + rate + "/hr"@
    } else {
        decimal(holding_before as nat) + " Holding → "@ + decimal(completed as nat) + " tested → "@
            + decimal(passed as nat) + " moved to Databank / "@ + decimal(rejected as nat) + " remain in Holding · "@
            + rate + "/hr"@
    }
}

pub fn progress_message(audit_and_graduate: bool, holding_before: usize, completed: usize, passed: usize, rejected: usize, rate: &str) -> (r: String)
    ensures
        r@ == progress_text(audit_and_graduate, holding_before, completed, passed, rejected, rate@),
{
    let mut text = String::new();
    push_decimal(&mut text, holding_before as u64);
    push_str(&mut text, " Holding → ");
    push_decimal(&mut text, completed as u64);
    if audit_and_graduate {
        push_str(&mut text, " audited → ");
        push_decimal(&mut text, passed as u64);
        push_str(&mut text, " passed / ");
        push_decimal(&mut text, rejected as u64);
        push_str(&mut text, " failed tests → all ");
        push_decimal(&mut text, completed as u64);
        push_str(&mut text, " moved to Databank · ");
    } else {
        push_str(&mut text, " tested → ");
        push_decimal(&mut text, passed as u64);
        push_str(&mut text, " moved to Databank / ");
        push_decimal(&mut text, rejected as u64);
        push_str(&mut text, " remain in Holding · ");
    }
    push_str(&mut text, rate);
    push_str(&mut text, "/hr");
    text
}

/// The funnel summary a finished battery reports.
pub open spec fn funnel_text(
    holding_before: usize,
    holding_after: usize,
    mix: BatteryKillMix,
    passed: usize,
    rejected: usize,
    completed: usize,
    target_hit: bool,
    audit_and_graduate: bool,
) -> Seq<char> {
    if audit_and_graduate {
        decimal(holding_before as nat) + " Holding → "@ + decimal(completed as nat) + " audited → "@
            + decimal(passed as nat) + " passed / "@ + decimal(rejected as nat) + " failed tests → all "@
            + decimal(completed as nat)
            + " graduated to Databank. Battery evidence is recorded, not used as a gate."@
    } else {
        decimal(holding_before as nat) + " Holding → "@ + decimal(holding_after as nat) + " queued → "@
            + decimal(completed as nat) + " tested → "@ + decimal(passed as nat) + " Databank / "@
            + decimal(rejected as nat) + " remain in Holding."@
            + (if target_hit { " Databank target reached."@ } else { Seq::empty() })
            + " Kills: neighborhood "@ + decimal(mix.neighborhood as nat) + " · MC "@ + decimal(mix.monte_carlo as nat)
            + " · folds "@ + decimal(mix.folds as nat) + " · M1 "@ + decimal(mix.m1 as nat)
            + " · deposit "@ + decimal((mix.deposit + mix.expectancy + mix.oos1) as nat)
            + " · corr "@ + decimal(mix.correlation as nat) + " · clone "@ + decimal(mix.clone as nat)
            + " · other "@ + decimal(mix.other as nat) + "."@
    }
}

pub fn funnel_message(
    holding_before: usize,
    holding_after: usize,
    mix: &BatteryKillMix,
    passed: usize,
    rejected: usize,
    completed: usize,
    target_hit: bool,
    audit_and_graduate: bool,
) -> (r: String)
    requires
        mix.deposit + mix.expectancy + mix.oos1 <= u64::MAX,
    ensures
        r@ == funnel_text(holding_before, holding_after, *mix, passed, rejected, completed, target_hit, audit_and_graduate),
{
    let mut text = String::new();
    push_decimal(&mut text, holding_before as u64);
    push_str(&mut text, " Holding → ");
    if audit_and_graduate {
        push_decimal(&mut text, completed as u64);
        push_str(&mut text, " audited → ");
        push_decimal(&mut text, passed as u64);
        push_str(&mut text, " passed / ");
        push_decimal(&mut text, rejected as u64);
        push_str(&mut text, " failed tests → all ");
        push_decimal(&mut text, completed as u64);
        push_str(&mut text, " graduated to Databank. Battery evidence is recorded, not used as a gate.");
        return text;
    }
    push_decimal(&mut text, holding_after as u64);
    push_str(&mut text, " queued → ");
    push_decimal(&mut text, completed as u64);
    push_str(&mut text, " tested → ");
    push_decimal(&mut text, passed as u64);
    push_str(&mut text, " Databank / ");
    push_decimal(&mut text, rejected as u64);
    push_str(&mut text, " remain in Holding.");
    let ghost before_target = text@;
    if target_hit {
        push_str(&mut text, " Databank target reached.");
    }
    assert(text@ =~= before_target + (if target_hit { " Databank target reached."@ } else { Seq::empty() }));
    push_str(&mut text, " Kills: neighborhood ");
    push_decimal(&mut text, mix.neighborhood as u64);
    push_str(&mut text, " · MC ");
    push_decimal(&mut text, mix.monte_carlo as u64);
    push_str(&mut text, " · folds ");
    push_decimal(&mut text, mix.folds as u64);
    push_str(&mut text, " · M1 ");
    push_decimal(&mut text, mix.m1 as u64);
    push_str(&mut text, " · deposit ");
    let deposit: u64 = mix.deposit as u64 + mix.expectancy as u64 + mix.oos1 as u64;
    push_decimal(&mut text, deposit);
    push_str(&mut text, " · corr ");
    push_decimal(&mut text, mix.correlation as u64);
    push_str(&mut text, " · clone ");
    push_decimal(&mut text, mix.clone as u64);
    push_str(&mut text, " · other ");
    push_decimal(&mut text, mix.other as u64);
    push_str(&mut text, ".");
    text
}

/// The visible counters while one strategy is being run: the running one is
/// not also counted as queued.
pub fn running_counts(queued: usize, running: usize) -> (r: (usize, usize))
    ensures
        r.0 == (if queued >= running { queued - running } else { 0 }),
        r.1 == running,
{
    (if queued >= running { queued - running } else { 0 }, running)
}

/// A battery whose status says running but that has finished every queued
/// strategy and runs none is stale, not busy.
pub fn battery_is_busy(running_status: bool, total: usize, completed: usize, running: usize) -> (r: bool)
    ensures
        r == (running_status && !(total > 0 && completed >= total && running == 0)),
{
    let stale_running = running_status && total > 0 && completed >= total && running == 0;
    running_status && !stale_running
}

/// A positive limit, or no limit.
pub fn optional_positive(value: Option<usize>) -> (r: Option<usize>)
    ensures
        r == (match value { Some(n) => if n > 0 { Some(n) } else { None }, None => None::<usize> }),
{
    match value {
        Some(n) => if n > 0 { Some(n) } else { None },
        None => None,
    }
}

/// Why a battery may not start.
pub open spec fn battery_start_refusal(busy: bool, ranked: bool, selected: usize, legacy_read_only: bool) -> Option<Seq<char>> {
    if busy {
        Some("a Holding battery job is already running"@)
    } else if !ranked && selected == 0 {
        Some("select Holding strategies or start the ranked factory"@)
    } else if legacy_read_only {
        Some("Schema-v5 databanks are read-only. Run a fresh Discover archive before Holding battery."@)
    } else {
        None
    }
}

pub fn check_battery_start(busy: bool, ranked: bool, selected: usize, legacy_read_only: bool) -> (r: Result<(), String>)
    ensures
        match battery_start_refusal(busy, ranked, selected, legacy_read_only) {
            None => r is Ok,
            Some(message) => r matches Err(m) && m@ == message,
        },
{
    if busy {
        Err(owned("a Holding battery job is already running"))
    } else if !ranked && selected == 0 {
        Err(owned("select Holding strategies or start the ranked factory"))
    } else if legacy_read_only {
        Err(owned("Schema-v5 databanks are read-only. Run a fresh Discover archive before Holding battery."))
    } else {
        Ok(())
    }
}

/// The first phase a new battery job shows.
pub fn battery_start_phase(shrink_first: bool, ranked: bool) -> (r: &'static str)
    ensures
        shrink_first ==> r@ == "Preparing factory"@,
        !shrink_first && ranked ==> r@ == "Ranking Holding queue"@,
        !shrink_first && !ranked ==> r@ == "Loading market data"@,
{
    if shrink_first {
        "Preparing factory"
    } else if ranked {
        "Ranking Holding queue"
    } else {
        "Loading market data"
    }
}

/// The first message a new battery job shows.
pub fn battery_start_message(audit_and_graduate: bool, ranked: bool, selected: usize) -> (r: String)
    ensures
        audit_and_graduate ==> r@ == "Running the full battery as an audit, then graduating every Holding strategy regardless of result."@,
        !audit_and_graduate && ranked ==> r@ == "Ranking the current Holding cohort, then running the robustness battery one strategy at a time."@,
        !audit_and_graduate && !ranked ==> r@ == "Queued "@ + decimal(selected as nat) + " Holding strategies for the robustness battery."@,
{
    if audit_and_graduate {
        owned("Running the full battery as an audit, then graduating every Holding strategy regardless of result.")
    } else if ranked {
        owned("Ranking the current Holding cohort, then running the robustness battery one strategy at a time.")
    } else {
        let mut text = owned("Queued ");
        push_decimal(&mut text, selected as u64);
        push_str(&mut text, " Holding strategies for the robustness battery.");
        text
    }
}

/// A Holding entry as the queue planner sees it.
#[derive(Debug, Clone, PartialEq, Eq)]
pub struct HoldingEntry {
    pub fingerprint: String,
    pub strategy_id: String,
}

/// One queued strategy and where it stands.
#[derive(Debug, Clone, PartialEq, Eq)]
pub struct BatteryItem {
    pub fingerprint: String,
    pub strategy_id: String,
    pub status: String,
    pub reason: Option<String>,
}

/// The queue a battery runs and the target it stops at.
#[derive(Debug, Clone, PartialEq, Eq)]
pub struct BatteryQueue {
    pub fingerprints: Vec<String>,
    pub items: Vec<BatteryItem>,
    pub target_databank: Option<usize>,
}

/// The strategy id of the first Holding entry with this fingerprint.
pub open spec fn holding_strategy(holding: Seq<HoldingEntry>, fingerprint: Seq<char>) -> Option<Seq<char>>
    decreases holding.len(),
{
    if holding.len() == 0 {
        None
    } else if holding[0].fingerprint@ == fingerprint {
        Some(holding[0].strategy_id@)
    } else {
        holding_strategy(holding.drop_first(), fingerprint)
    }
}

/// Queued fingerprints still in Holding become the battery's items, in queue order.
pub open spec fn queue_items(queue: Seq<Seq<char>>, holding: Seq<HoldingEntry>) -> Seq<(Seq<char>, Seq<char>)>
    decreases queue.len(),
{
    if queue.len() == 0 {
        Seq::empty()
    } else {
        let rest = queue_items(queue.drop_last(), holding);
        match holding_strategy(holding, queue.last()) {
            Some(id) => rest.push((queue.last(), id)),
            None => rest,
        }
    }
}

pub open spec fn item_views(items: Seq<BatteryItem>) -> Seq<(Seq<char>, Seq<char>)> {
    items.map_values(|item: BatteryItem| (item.fingerprint@, item.strategy_id@))
}

/// The ranked queue, cut to `limit` when one is given.
pub open spec fn queue_of(ranked: bool, requested: Seq<Seq<char>>, ranked_order: Seq<Seq<char>>, limit: Option<usize>) -> Seq<Seq<char>> {
    if ranked || requested.len() == 0 {
        match limit {
            Some(n) => if n < ranked_order.len() { ranked_order.subrange(0, n as int) } else { ranked_order },
            None => ranked_order,
        }
    } else {
        requested
    }
}

fn find_holding(holding: &Vec<HoldingEntry>, fingerprint: &str) -> (r: Option<usize>)
    ensures
        match r {
            Some(i) => i < holding@.len() && holding_strategy(holding@, fingerprint@) == Some(holding@[i as int].strategy_id@),
            None => holding_strategy(holding@, fingerprint@) is None,
        },
{
    let mut i: usize = 0;
    assert(holding@.subrange(0, holding@.len() as int) =~= holding@);
    while i < holding.len()
        invariant
            i <= holding@.len(),
            holding_strategy(holding@, fingerprint@) == holding_strategy(holding@.subrange(i as int, holding@.len() as int), fingerprint@),
        decreases holding.len() - i,
    {
        proof {
            let rest = holding@.subrange(i as int, holding@.len() as int);
            assert(rest.drop_first() =~= holding@.subrange(i + 1, holding@.len() as int));
            assert(rest[0] == holding@[i as int]);
        }
        if str_eq(holding[i].fingerprint.as_str(), fingerprint) {
            return Some(i);
        }
        i = i + 1;
    }
    None
}

/// Plans the battery queue: the caller's selection, or the ranked Holding
/// order cut to the queue limit; only strategies still in Holding are
/// queued. An audit never stops at a Databank target.
pub fn plan_battery_queue(
    ranked: bool,
    requested: &Vec<String>,
    ranked_order: &Vec<String>,
    holding: &Vec<HoldingEntry>,
    queue_limit: Option<usize>,
    target_databank: Option<usize>,
    audit_and_graduate: bool,
) -> (r: Result<BatteryQueue, String>)
    ensures
        ({
            let queue = queue_of(ranked, string_views(requested@), string_views(ranked_order@),
                match queue_limit { Some(n) => if n > 0 { Some(n) } else { None }, None => None::<usize> });
            if queue.len() == 0 {
                r matches Err(m) && m@ == "Holding is empty after shrink — nothing to battery"@
            } else if queue_items(queue, holding@).len() == 0 {
                r matches Err(m) && m@ == "none of the queued fingerprints are still in Holding"@
            } else {
                r matches Ok(plan) && {
                    &&& string_views(plan.fingerprints@) == queue
                    &&& item_views(plan.items@) == queue_items(queue, holding@)
                    &&& forall|i: int| 0 <= i < plan.items@.len() ==> (#[trigger] plan.items@[i]).status@ == "queued"@
                        && plan.items@[i].reason is None
                    &&& plan.target_databank == (if audit_and_graduate { None } else {
                        match target_databank { Some(n) => if n > 0 { Some(n) } else { None }, None => None::<usize> }
                    })
                }
            }
        }),
{
    let limit = optional_positive(queue_limit);
    let mut fingerprints: Vec<String> = Vec::new();
    let source = if ranked || requested.len() == 0 { ranked_order } else { requested };
    let take = if ranked || requested.len() == 0 {
        match limit {
            Some(n) => if n < ranked_order.len() { n } else { ranked_order.len() },
            None => ranked_order.len(),
        }
    } else {
        requested.len()
    };
    let mut i: usize = 0;
    while i < take
        invariant
            take <= source@.len(),
            i <= take,
            string_views(fingerprints@) == string_views(source@).subrange(0, i as int),
        decreases take - i,
    {
        let ghost before = string_views(fingerprints@);
        let next = source[i].clone();
        fingerprints.push(next);
        proof {
            assert(string_views(fingerprints@) =~= before.push(source@[i as int]@));
            assert(string_views(fingerprints@) =~= string_views(source@).subrange(0, i + 1));
        }
        i = i + 1;
    }
    let ghost queue = string_views(fingerprints@);
    proof {
        let q = queue_of(ranked, string_views(requested@), string_views(ranked_order@), limit);
        assert(queue =~= q);
    }
    if fingerprints.len() == 0 {
        return Err(owned("Holding is empty after shrink — nothing to battery"));
    }
    let mut items: Vec<BatteryItem> = Vec::new();
    let mut k: usize = 0;
    while k < fingerprints.len()
        invariant
            k <= fingerprints@.len(),
            queue == string_views(fingerprints@),
            item_views(items@) == queue_items(queue.subrange(0, k as int), holding@),
            forall|t: int| 0 <= t < items@.len() ==> (#[trigger] items@[t]).status@ == "queued"@ && items@[t].reason is None,
        decreases fingerprints.len() - k,
    {
        let ghost before = item_views(items@);
        proof {
            assert(queue.subrange(0, k + 1).drop_last() =~= queue.subrange(0, k as int));
            assert(queue.subrange(0, k + 1).last() == fingerprints@[k as int]@);
        }
        match find_holding(holding, fingerprints[k].as_str()) {
            Some(h) => {
                let item = BatteryItem {
                    fingerprint: fingerprints[k].clone(),
                    strategy_id: holding[h].strategy_id.clone(),
                    status: owned("queued"),
                    reason: None,
                };
                items.push(item);
                proof {
                    assert(item_views(items@) =~= before.push((fingerprints@[k as int]@, holding@[h as int].strategy_id@)));
                    assert(queue.subrange(0, k + 1).last() == fingerprints@[k as int]@);
                }
            },
            None => {},
        }
        k = k + 1;
    }
    assert(queue.subrange(0, queue.len() as int) =~= queue);
    if items.len() == 0 {
        return Err(owned("none of the queued fingerprints are still in Holding"));
    }
    let target = if audit_and_graduate { None } else { optional_positive(target_databank) };
    Ok(BatteryQueue { fingerprints, items, target_databank: target })
}

/// Marks the first queued item with this fingerprint; every other item is unchanged.
pub fn mark_item(items: &mut Vec<BatteryItem>, fingerprint: &str, status: &str, reason: Option<String>)
    ensures
        final(items)@.len() == old(items)@.len(),
        forall|i: int| 0 <= i < old(items)@.len() ==> {
            let before = #[trigger] old(items)@[i];
            let after = final(items)@[i];
            &&& after.fingerprint == before.fingerprint
            &&& after.strategy_id == before.strategy_id
            &&& if before.fingerprint@ == fingerprint@ && (forall|j: int| 0 <= j < i ==> old(items)@[j].fingerprint@ != fingerprint@) {
                after.status@ == status@ && after.reason == reason
            } else {
                after == before
            }
        },
{
    let mut i: usize = 0;
    while i < items.len()
        invariant
            items@ == old(items)@,
            i <= items@.len(),
            forall|j: int| 0 <= j < i ==> old(items)@[j].fingerprint@ != fingerprint@,
        decreases items.len() - i,
    {
        if str_eq(items[i].fingerprint.as_str(), fingerprint) {
            let item = BatteryItem {
                fingerprint: items[i].fingerprint.clone(),
                strategy_id: items[i].strategy_id.clone(),
                status: owned(status),
                reason,
            };
            items.set(i, item);
            return;
        }
        i = i + 1;
    }
}

/// The opening message of a battery run: the funnel from Holding to queue,
/// and when the run will stop.
pub open spec fn funnel_opening_text(holding_before: usize, holding_after: usize, queued: usize, shrink_first: bool, target: Option<usize>) -> Seq<char> {
    "Funnel "@ + decimal(holding_before as nat) + " Holding → "@ + decimal(holding_after as nat) + " "@
        + (if shrink_first { "after optional correlation shrink"@ } else { "ready"@ })
        + " → "@ + decimal(queued as nat) + " queued. "@
        + match target {
            Some(n) => "Battery until "@ + decimal(n as nat) + " Databank names."@,
            None => "Battery everyone queued; keep every passer."@,
        }
}

pub fn funnel_opening_message(holding_before: usize, holding_after: usize, queued: usize, shrink_first: bool, target: Option<usize>) -> (r: String)
    ensures
        r@ == funnel_opening_text(holding_before, holding_after, queued, shrink_first, target),
{
    let mut text = owned("Funnel ");
    push_decimal(&mut text, holding_before as u64);
    push_str(&mut text, " Holding → ");
    push_decimal(&mut text, holding_after as u64);
    push_str(&mut text, " ");
    push_str(&mut text, if shrink_first { "after optional correlation shrink" } else { "ready" });
    push_str(&mut text, " → ");
    push_decimal(&mut text, queued as u64);
    push_str(&mut text, " queued. ");
    let ghost head = text@;
    match target {
        Some(n) => {
            push_str(&mut text, "Battery until ");
            push_decimal(&mut text, n as u64);
            push_str(&mut text, " Databank names.");
        },
        None => {
            push_str(&mut text, "Battery everyone queued; keep every passer.");
        },
    }
    text
}

/// The stop request of a running battery.
pub fn stop_battery(running_status: bool) -> (r: Result<(&'static str, &'static str), String>)
    ensures
        !running_status ==> (r matches Err(m) && m@ == "no active Holding battery job can be stopped"@),
        running_status ==> (r matches Ok((phase, message)) && phase@ == "Stopping after the current strategy"@
            && message@ == "Stop requested — finishing the in-flight battery, then checkpointing."@),
{
    if !running_status {
        return Err(owned("no active Holding battery job can be stopped"));
    }
    Ok(("Stopping after the current strategy", "Stop requested — finishing the in-flight battery, then checkpointing."))
}

/// The two log locations beside an archive: `{stem}_battery.csv` and the
/// `{stem}_param` folder, with `databank` for a path without a stem.
pub open spec fn battery_log_locations(databank_path: Seq<char>) -> (Seq<char>, Seq<char>) {
    let stem = match path_file_stem(databank_path) { Some(s) => s, None => "databank"@ };
    (
        path_with_file_name(databank_path, stem + "_battery.csv"@),
        path_with_file_name(databank_path, stem + "_param"@),
    )
}

pub fn battery_log_paths(databank_path: &str) -> (r: (String, String))
    ensures
        (r.0@, r.1@) == battery_log_locations(databank_path@),
{
    let stem = match file_stem(databank_path) { Some(s) => s, None => owned("databank") };
    let mut summary = stem.clone();
    push_str(&mut summary, "_battery.csv");
    let mut params = stem;
    push_str(&mut params, "_param");
    (with_file_name(databank_path, summary.as_str()), with_file_name(databank_path, params.as_str()))
}

/// A boolean CSV cell: `true`, `false`, or empty for a missing value.
pub fn csv_cell_bool(value: Option<bool>) -> (r: &'static str)
    ensures
        value == Some(true) ==> r@ == "true"@,
        value == Some(false) ==> r@ == "false"@,
        value is None ==> r@ == ""@,
{
    match value {
        Some(true) => "true",
        Some(false) => "false",
        None => "",
    }
}

/// Why Holding may not be promoted without the robustness battery.
pub open spec fn bypass_refusal(busy: bool, loaded: bool, legacy_read_only: bool, holding: usize) -> Option<Seq<char>> {
    if busy {
        Some("stop or finish the Holding battery before promoting Holding without robustness"@)
    } else if !loaded {
        Some("no databank is loaded — open the Discover checkpoint first"@)
    } else if legacy_read_only {
        Some("Schema-v5 databanks are read-only. Run a fresh Discover archive before promoting Holding."@)
    } else if holding == 0 {
        Some("Holding is empty"@)
    } else {
        None
    }
}

pub fn check_holding_bypass(busy: bool, loaded: bool, legacy_read_only: bool, holding: usize) -> (r: Result<(), String>)
    ensures
        match bypass_refusal(busy, loaded, legacy_read_only, holding) {
            None => r is Ok,
            Some(message) => r matches Err(m) && m@ == message,
        },
{
    if busy {
        Err(owned("stop or finish the Holding battery before promoting Holding without robustness"))
    } else if !loaded {
        Err(owned("no databank is loaded — open the Discover checkpoint first"))
    } else if legacy_read_only {
        Err(owned("Schema-v5 databanks are read-only. Run a fresh Discover archive before promoting Holding."))
    } else if holding == 0 {
        Err(owned("Holding is empty"))
    } else {
        Ok(())
    }
}

/// A battery needs the archive's M1 binding; a loaded archive and an archive
/// file handed to the factory say so differently.
pub fn archive_m1_binding(m1_source: Option<&str>, for_factory: bool) -> (r: Result<String, String>)
    ensures
        m1_source matches Some(s) ==> (r matches Ok(v) && v@ == s@),
        m1_source is None && for_factory ==> (r matches Err(m)
            && m@ == "This archive does not bind an M1 source; cannot run the factory."@),
        m1_source is None && !for_factory ==> (r matches Err(m)
            && m@ == "This archive does not bind an M1 source; cannot run Holding battery."@),
{
    match m1_source {
        Some(s) => Ok(owned(s)),
        None => if for_factory {
            Err(owned("This archive does not bind an M1 source; cannot run the factory."))
        } else {
            Err(owned("This archive does not bind an M1 source; cannot run Holding battery."))
        },
    }
}

/// The identity and opening lines of a factory started after Discover.
pub fn factory_job_start(now_ms: u64) -> (r: (String, &'static str, &'static str))
    ensures
        r.0@ == "factory-"@ + decimal(now_ms as nat),
        r.1@ == "Preparing factory"@,
        r.2@ == "Discover finished — ranking the current Holding cohort for the battery queue."@,
{
    let mut id = owned("factory-");
    push_decimal(&mut id, now_ms);
    (id, "Preparing factory", "Discover finished — ranking the current Holding cohort for the battery queue.")
}

/// The phase while the queue runs.
pub fn battery_run_phase(audit_and_graduate: bool) -> (r: &'static str)
    ensures
        audit_and_graduate ==> r@ == "Running full battery audit"@,
        !audit_and_graduate ==> r@ == "Running battery"@,
{
    if audit_and_graduate { "Running full battery audit" } else { "Running battery" }
}

/// What running the battery on one queued fingerprint produced.
pub enum BatteryAttempt {
    /// The fingerprint is no longer in Holding.
    NotInHolding,
    /// An audit ran (passing or not), then graduation moved this many strategies.
    Audited { passed: bool, reason: Option<String>, graduated: usize },
    /// The promoting battery passed, or a stage refused it with a bucket and a reason.
    Promoting(Result<(), (String, String)>),
}

/// How an attempt is recorded: a missing fingerprint and a failed graduation
/// count as `other` rejections; an audit that graduated its strategy records
/// the audit's result; the promoting battery records a pass or its refusal.
pub fn battery_outcome(attempt: BatteryAttempt) -> (r: BatteryOutcome)
    ensures
        attempt is NotInHolding ==> (r matches BatteryOutcome::Rejected { bucket, reason }
            && bucket@ == "other"@ && reason@ == "not in Holding"@),
        attempt matches BatteryAttempt::Audited { passed, reason, graduated } ==> {
            &&& graduated != 1 ==> (r matches BatteryOutcome::Rejected { bucket, reason }
                && bucket@ == "other"@ && reason@ == "could not graduate audited Holding strategy"@)
            &&& graduated == 1 && passed ==> r == BatteryOutcome::Passed
            &&& graduated == 1 && !passed ==> r == BatteryOutcome::AuditedFailed(reason)
        },
        attempt matches BatteryAttempt::Promoting(result) ==> match result {
            Ok(()) => r == BatteryOutcome::Passed,
            Err((bucket, reason)) => r == (BatteryOutcome::Rejected { bucket, reason }),
        },
{
    match attempt {
        BatteryAttempt::NotInHolding => BatteryOutcome::Rejected { bucket: owned("other"), reason: owned("not in Holding") },
        BatteryAttempt::Audited { passed, reason, graduated } => {
            if graduated != 1 {
                BatteryOutcome::Rejected { bucket: owned("other"), reason: owned("could not graduate audited Holding strategy") }
            } else if passed {
                BatteryOutcome::Passed
            } else {
                BatteryOutcome::AuditedFailed(reason)
            }
        },
        BatteryAttempt::Promoting(result) => match result {
            Ok(()) => BatteryOutcome::Passed,
            Err((bucket, reason)) => BatteryOutcome::Rejected { bucket, reason },
        },
    }
}

/// The queue status an outcome leaves on its item.
pub fn outcome_status(outcome: &BatteryOutcome) -> (r: &'static str)
    ensures
        *outcome is Passed ==> r@ == "passed"@,
        *outcome is AuditedFailed ==> r@ == "audited_failed"@,
        *outcome is Rejected ==> r@ == "rejected"@,
{
    match outcome {
        BatteryOutcome::Passed => "passed",
        BatteryOutcome::AuditedFailed(_) => "audited_failed",
        BatteryOutcome::Rejected { .. } => "rejected",
    }
}

/// The phase shown while a promotion is saved before the next strategy.
pub fn promotion_sync_phase(passed: usize) -> (r: String)
    ensures
        r@ == "Promoted "@ + decimal(passed as nat) + "; syncing Databank"@,
{
    let mut phase = owned("Promoted ");
    push_decimal(&mut phase, passed as u64);
    push_str(&mut phase, "; syncing Databank");
    phase
}

/// The header line of the battery summary CSV.
pub open spec fn battery_csv_header_text() -> Seq<char> {
    "status,strategy_id,fingerprint,evidence,trades,reason,orig_recovery_factor,neighborhood_median_recovery,orig_recovery_to_median,passed_retdd_0_85_1_25,neighborhood_samples_requested,neighborhood_samples_evaluated,neighborhood_surviving,neighborhood_survival_fraction,required_survival_fraction,adx_plateau_neighbors,adx_plateau_surviving,adx_plateau_survival_fraction,mc_passed,mc_p80_net_profit,mc_baseline_net_profit,mc_minimum_p80_retention"@
}

pub fn battery_csv_header() -> (r: &'static str)
    ensures
        r@ == battery_csv_header_text(),
{
    "status,strategy_id,fingerprint,evidence,trades,reason,orig_recovery_factor,neighborhood_median_recovery,orig_recovery_to_median,passed_retdd_0_85_1_25,neighborhood_samples_requested,neighborhood_samples_evaluated,neighborhood_surviving,neighborhood_survival_fraction,required_survival_fraction,adx_plateau_neighbors,adx_plateau_surviving,adx_plateau_survival_fraction,mc_passed,mc_p80_net_profit,mc_baseline_net_profit,mc_minimum_p80_retention"
}

/// Commas become semicolons so a text cell never splits the row.
pub open spec fn comma_free(text: Seq<char>) -> Seq<char> {
    text.map_values(|c: char| if c == ',' { ';' } else { c })
}

/// A text cell of the summary CSV; a missing text is empty.
pub fn csv_text_cell(value: Option<&str>) -> (r: String)
    ensures
        r@ == comma_free(match value { Some(v) => v@, None => Seq::<char>::empty() }),
{
    let text = match value {
        Some(v) => v,
        None => return String::new(),
    };
    let chars = to_char_vec(text);
    let mut out = String::new();
    let mut i: usize = 0;
    while i < chars.len()
        invariant
            chars@ == text@,
            i <= chars.len(),
            out@ == comma_free(text@.subrange(0, i as int)),
        decreases chars.len() - i,
    {
        let c = chars[i];
        out.push(if c == ',' { ';' } else { c });
        proof {
            assert(comma_free(text@.subrange(0, i + 1)) =~= comma_free(text@.subrange(0, i as int)).push(if c == ',' { ';' } else { c }));
        }
        i = i + 1;
    }
    proof {
        assert(text@.subrange(0, chars@.len() as int) == text@);
    }
    out
}

/// A count cell: the number, or empty when there is no neighbourhood evidence.
pub fn csv_count_cell(value: Option<usize>) -> (r: String)
    ensures
        value matches Some(n) ==> r@ == decimal(n as nat),
        value is None ==> r@ == Seq::<char>::empty(),
{
    let mut out = String::new();
    match value {
        Some(n) => {
            push_decimal(&mut out, n as u64);
        },
        None => {},
    }
    out
}

/// Cells joined by commas.
pub open spec fn csv_line(cells: Seq<Seq<char>>) -> Seq<char>
    decreases cells.len(),
{
    if cells.len() == 0 {
        Seq::empty()
    } else if cells.len() == 1 {
        cells[0]
    } else {
        csv_line(cells.drop_last()) + ","@ + cells.last()
    }
}

pub fn join_csv_cells(cells: &Vec<String>) -> (r: String)
    ensures
        r@ == csv_line(string_views(cells@)),
{
    let ghost all = string_views(cells@);
    let mut line = String::new();
    let mut i: usize = 0;
    while i < cells.len()
        invariant
            all == string_views(cells@),
            i <= cells.len(),
            line@ == csv_line(all.subrange(0, i as int)),
        decreases cells.len() - i,
    {
        proof {
            assert(all.subrange(0, i + 1).drop_last() =~= all.subrange(0, i as int));
            assert(all.subrange(0, i + 1).last() == cells@[i as int]@);
        }
        if i > 0 {
            push_str(&mut line, ",");
        }
        push_str(&mut line, cells[i].as_str());
        proof {
            if i == 0 {
                assert(all.subrange(0, 1).len() == 1);
                assert(line@ =~= cells@[0]@);
            }
        }
        i = i + 1;
    }
    assert(all.subrange(0, all.len() as int) =~= all);
    line
}

} // verus!
