//! Portfolio Discover: admission of a multi-asset campaign, the shared worker
//! budget, lane scheduling and the campaign's aggregate status.
use vstd::prelude::*;
use crate::discover::{DiscoverMode, JobStatus, PortfolioDiscoverAsset};
use crate::text::{owned, trim, trim_str, upper_seq, upper_str};

verus! {

/// Fewest and most assets a campaign accepts.
pub const MIN_CAMPAIGN_ASSETS: usize = 2;
pub const MAX_CAMPAIGN_ASSETS: usize = 7;
/// Seed used by lane 0 when the recipe carries none.
pub const DEFAULT_SEED: u64 = 42;

/// A lane's symbol key: trimmed and upper-cased.
pub open spec fn lane_symbol(s: Seq<char>) -> Seq<char> {
    upper_seq(trim(s))
}

pub open spec fn symbols_distinct_and_present(assets: Seq<PortfolioDiscoverAsset>) -> bool {
    &&& forall|i: int| 0 <= i < assets.len() ==> lane_symbol(#[trigger] assets[i].symbol@).len() > 0
    &&& forall|i: int, j: int|
        0 <= i < j < assets.len() ==> lane_symbol(#[trigger] assets[i].symbol@) != lane_symbol(
            #[trigger] assets[j].symbol@,
        )
}

pub open spec fn max_usize(a: usize, b: usize) -> usize {
    if a >= b { a } else { b }
}

/// Scout workers for the whole campaign: at least one per lane, never more
/// than the machine offers (or one per lane when that is larger).
pub open spec fn spec_global_workers(requested: usize, available: usize, lanes: usize) -> usize {
    if requested == 0 {
        max_usize(available, lanes)
    } else {
        let wanted = max_usize(requested, lanes);
        let cap = max_usize(available, lanes);
        if wanted <= cap { wanted } else { cap }
    }
}

pub open spec fn spec_concurrent_lanes(requested: usize, lanes: usize) -> usize {
    if requested < 1 { 1 } else if requested > lanes { lanes } else { requested }
}

pub open spec fn spec_lane_workers(global: usize, concurrent: usize) -> usize {
    if global / concurrent >= 1 { (global / concurrent) as usize } else { 1 }
}

/// Lane `index` derives its seed from the recipe seed by wrapping addition.
pub open spec fn spec_lane_seed(base: Option<u64>, index: int) -> u64 {
    let seed = match base {
        Some(s) => s,
        None => DEFAULT_SEED,
    };
    ((seed as int + index) % 0x1_0000_0000_0000_0000) as u64
}

#[derive(Debug, Clone, PartialEq, Eq)]
pub struct LanePlan {
    pub symbol: String,
    pub seed: u64,
}

#[derive(Debug, Clone, PartialEq, Eq)]
pub struct CampaignPlan {
    pub global_workers: usize,
    pub concurrent_lanes: usize,
    pub lane_workers: usize,
    pub lanes: Vec<LanePlan>,
}

pub open spec fn campaign_refusal(
    assets: Seq<PortfolioDiscoverAsset>,
    recipe_mode: DiscoverMode,
    single_status: JobStatus,
    campaign_status: JobStatus,
) -> Option<Seq<char>> {
    if assets.len() < MIN_CAMPAIGN_ASSETS || assets.len() > MAX_CAMPAIGN_ASSETS {
        Some("Portfolio Discover requires between 2 and 7 assets"@)
    } else if recipe_mode != DiscoverMode::New {
        Some("Portfolio Discover starts new isolated Databanks; continue each lane separately"@)
    } else if single_status == JobStatus::Running {
        Some("stop the single-asset Discover job before starting a portfolio campaign"@)
    } else if campaign_status == JobStatus::Running {
        Some("a Portfolio Discover campaign is already active"@)
    } else if !symbols_distinct_and_present(assets) {
        Some("select each Portfolio Discover symbol once"@)
    } else {
        None
    }
}

fn lane_key(asset: &PortfolioDiscoverAsset) -> (r: String)
    ensures
        r@ == lane_symbol(asset.symbol@),
{
    let trimmed = trim_str(asset.symbol.as_str());
    upper_str(trimmed.as_str())
}

/// Admit a campaign and fix its worker budget and lane seeds. `available` is
/// the machine's logical CPU count.
pub fn plan_portfolio_campaign(
    assets: &Vec<PortfolioDiscoverAsset>,
    recipe_mode: DiscoverMode,
    recipe_seed: Option<u64>,
    single_status: JobStatus,
    campaign_status: JobStatus,
    global_worker_threads: usize,
    concurrent_lanes: usize,
    available: usize,
) -> (r: Result<CampaignPlan, String>)
    ensures
        campaign_refusal(assets@, recipe_mode, single_status, campaign_status) matches Some(msg) ==> (
        r matches Err(e) && e@ == msg),
        campaign_refusal(assets@, recipe_mode, single_status, campaign_status) is None ==> (
        r matches Ok(plan) && {
            let n = assets@.len() as usize;
            &&& plan.global_workers == spec_global_workers(global_worker_threads, available, n)
            &&& plan.concurrent_lanes == spec_concurrent_lanes(concurrent_lanes, n)
            &&& plan.lane_workers == spec_lane_workers(plan.global_workers, plan.concurrent_lanes)
            &&& plan.lanes@.len() == n
            &&& forall|i: int|
                0 <= i < n ==> (#[trigger] plan.lanes@[i]).symbol@ == lane_symbol(assets@[i].symbol@)
                    && plan.lanes@[i].seed == spec_lane_seed(recipe_seed, i)
            &&& forall|i: int, j: int| 0 <= i < j < n
                ==> (#[trigger] plan.lanes@[i]).symbol@ != (#[trigger] plan.lanes@[j]).symbol@
                    && plan.lanes@[i].symbol@.len() > 0
        }),
{
    let n = assets.len();
    if n < MIN_CAMPAIGN_ASSETS || n > MAX_CAMPAIGN_ASSETS {
        return Err(owned("Portfolio Discover requires between 2 and 7 assets"));
    }
    if recipe_mode != DiscoverMode::New {
        return Err(owned("Portfolio Discover starts new isolated Databanks; continue each lane separately"));
    }
    if single_status == JobStatus::Running {
        return Err(owned("stop the single-asset Discover job before starting a portfolio campaign"));
    }
    if campaign_status == JobStatus::Running {
        return Err(owned("a Portfolio Discover campaign is already active"));
    }
    let mut keys: Vec<String> = Vec::new();
    let mut i: usize = 0;
    while i < n
        invariant
            n == assets@.len(),
            MIN_CAMPAIGN_ASSETS <= n <= MAX_CAMPAIGN_ASSETS,
            recipe_mode == DiscoverMode::New,
            single_status != JobStatus::Running,
            campaign_status != JobStatus::Running,
            i <= n,
            keys@.len() == i,
            forall|k: int| 0 <= k < i ==> (#[trigger] keys@[k])@ == lane_symbol(assets@[k].symbol@),
            forall|k: int| 0 <= k < i ==> lane_symbol((#[trigger] assets@[k]).symbol@).len() > 0,
            forall|a: int, b: int|
                0 <= a < b < i ==> lane_symbol((#[trigger] assets@[a]).symbol@) != lane_symbol(
                    (#[trigger] assets@[b]).symbol@,
                ),
        decreases n - i,
    {
        let key = lane_key(&assets[i]);
        if key.as_str().unicode_len() == 0 {
            proof {
                let bad = assets@[i as int].symbol@;
                assert(lane_symbol(bad).len() == 0);
                assert(!(lane_symbol(assets@[i as int].symbol@).len() > 0));
            }
            assert(!symbols_distinct_and_present(assets@));
            return Err(owned("select each Portfolio Discover symbol once"));
        }
        let mut j: usize = 0;
        while j < i
            invariant
                i < n,
                n == assets@.len(),
                MIN_CAMPAIGN_ASSETS <= n <= MAX_CAMPAIGN_ASSETS,
                recipe_mode == DiscoverMode::New,
                single_status != JobStatus::Running,
                campaign_status != JobStatus::Running,
                keys@.len() == i,
                j <= i,
                key@ == lane_symbol(assets@[i as int].symbol@),
                forall|k: int| 0 <= k < i ==> (#[trigger] keys@[k])@ == lane_symbol(assets@[k].symbol@),
                forall|k: int| 0 <= k < j ==> lane_symbol((#[trigger] assets@[k]).symbol@) != key@,
            decreases i - j,
        {
            if keys[j] == key {
                assert(lane_symbol(assets@[j as int].symbol@) == lane_symbol(assets@[i as int].symbol@));
                assert(!(lane_symbol(assets@[j as int].symbol@) != lane_symbol(assets@[i as int].symbol@)));
                assert(!symbols_distinct_and_present(assets@));
                return Err(owned("select each Portfolio Discover symbol once"));
            }
            j = j + 1;
        }
        keys.push(key);
        i = i + 1;
    }
    let cap = if available >= n { available } else { n };
    let global_workers = if global_worker_threads == 0 {
        cap
    } else {
        let wanted = if global_worker_threads >= n { global_worker_threads } else { n };
        if wanted <= cap { wanted } else { cap }
    };
    let concurrent = if concurrent_lanes < 1 {
        1
    } else if concurrent_lanes > n {
        n
    } else {
        concurrent_lanes
    };
    let per_lane = global_workers / concurrent;
    let lane_workers = if per_lane >= 1 { per_lane } else { 1 };
    let base: u64 = match recipe_seed {
        Some(seed) => seed,
        None => DEFAULT_SEED,
    };
    let mut lanes: Vec<LanePlan> = Vec::new();
    let mut k: usize = 0;
    while k < n
        invariant
            n == assets@.len(),
            keys@.len() == n,
            k <= n,
            n <= MAX_CAMPAIGN_ASSETS,
            base == (match recipe_seed { Some(s) => s, None => DEFAULT_SEED }),
            forall|t: int| 0 <= t < n ==> (#[trigger] keys@[t])@ == lane_symbol(assets@[t].symbol@),
            lanes@.len() == k,
            forall|t: int|
                0 <= t < k ==> (#[trigger] lanes@[t]).symbol@ == lane_symbol(assets@[t].symbol@)
                    && lanes@[t].seed == spec_lane_seed(recipe_seed, t),
        decreases n - k,
    {
        let seed = base.wrapping_add(k as u64);
        lanes.push(LanePlan { symbol: keys[k].clone(), seed });
        k = k + 1;
    }
    assert forall|i: int, j: int| 0 <= i < j < n
        implies (#[trigger] lanes@[i]).symbol@ != (#[trigger] lanes@[j]).symbol@ && lanes@[i].symbol@.len() > 0 by {
        assert(lane_symbol(assets@[i].symbol@) != lane_symbol(assets@[j].symbol@));
        assert(lane_symbol(assets@[i].symbol@).len() > 0);
    }
    Ok(CampaignPlan { global_workers, concurrent_lanes: concurrent, lane_workers, lanes })
}

/// The worker budget of an admitted campaign is never oversubscribed: every
/// concurrently running lane gets at least one worker, and together they use
/// no more than the campaign's budget.
pub proof fn lemma_campaign_budget_holds(requested: usize, available: usize, lanes: usize, requested_concurrent: usize)
    requires
        MIN_CAMPAIGN_ASSETS <= lanes <= MAX_CAMPAIGN_ASSETS,
    ensures
        ({
            let global = spec_global_workers(requested, available, lanes);
            let concurrent = spec_concurrent_lanes(requested_concurrent, lanes);
            let per_lane = spec_lane_workers(global, concurrent);
            &&& 1 <= concurrent <= lanes
            &&& lanes <= global
            &&& per_lane >= 1
            &&& per_lane * concurrent <= global
            &&& requested > 0 ==> global <= max_usize(available, lanes)
        }),
{
    let global = spec_global_workers(requested, available, lanes);
    let concurrent = spec_concurrent_lanes(requested_concurrent, lanes);
    assert(global >= concurrent);
    let q = global / concurrent;
    assert(q * concurrent <= global) by (nonlinear_arith)
        requires
            q == global / concurrent,
            concurrent >= 1,
    ;
    assert(q >= 1) by (nonlinear_arith)
        requires
            q == global / concurrent,
            concurrent >= 1,
            global >= concurrent,
    ;
}

/// Lanes never share a seed.
pub proof fn lemma_lane_seeds_distinct(base: Option<u64>, i: int, j: int)
    requires
        0 <= i < j < MAX_CAMPAIGN_ASSETS,
    ensures
        spec_lane_seed(base, i) != spec_lane_seed(base, j),
{
}

/// How many queued lanes to launch now: none once stopped, otherwise up to
/// the free concurrency slots.
pub open spec fn spec_lanes_to_launch(stop: bool, pending: usize, running: usize, concurrent: usize) -> usize {
    if stop || running >= concurrent {
        0
    } else if pending <= (concurrent - running) as usize {
        pending
    } else {
        (concurrent - running) as usize
    }
}

pub fn lanes_to_launch(stop: bool, pending: usize, running: usize, concurrent: usize) -> (r: usize)
    ensures
        r == spec_lanes_to_launch(stop, pending, running, concurrent),
        r <= pending,
        running + r <= concurrent || r == 0,
{
    if stop || running >= concurrent {
        0
    } else if pending <= concurrent - running {
        pending
    } else {
        concurrent - running
    }
}

/// A lane's status once its worker returns.
pub open spec fn spec_lane_final_status(worker_ok: bool, current: JobStatus, stop: bool) -> JobStatus {
    if !worker_ok {
        JobStatus::Failed
    } else if current == JobStatus::Failed {
        current
    } else if stop {
        JobStatus::Stopped
    } else {
        JobStatus::Completed
    }
}

pub fn lane_final_status(worker_ok: bool, current: JobStatus, stop: bool) -> (r: JobStatus)
    ensures
        r == spec_lane_final_status(worker_ok, current, stop),
{
    if !worker_ok {
        JobStatus::Failed
    } else if current == JobStatus::Failed {
        current
    } else if stop {
        JobStatus::Stopped
    } else {
        JobStatus::Completed
    }
}

/// Where the campaign UI reopens a lane: its immutable snapshot when one was
/// written, otherwise the working archive.
pub fn lane_output_path(snapshot: Option<String>, output: Option<String>) -> (r: String)
    ensures
        snapshot matches Some(s) ==> r == s,
        snapshot is None ==> (output matches Some(o) ==> r == o),
        snapshot is None && output is None ==> r@ == Seq::<char>::empty(),
{
    match snapshot {
        Some(s) => s,
        None => match output {
            Some(o) => o,
            None => String::new(),
        },
    }
}

pub open spec fn is_finished_status(s: JobStatus) -> bool {
    s == JobStatus::Completed || s == JobStatus::Stopped || s == JobStatus::Failed
}

pub open spec fn count_status(s: Seq<JobStatus>, pred: spec_fn(JobStatus) -> bool) -> nat
    decreases s.len(),
{
    if s.len() == 0 {
        0
    } else {
        count_status(s.drop_last(), pred) + if pred(s.last()) { 1nat } else { 0nat }
    }
}

pub proof fn lemma_count_le_len(s: Seq<JobStatus>, pred: spec_fn(JobStatus) -> bool)
    ensures
        count_status(s, pred) <= s.len(),
    decreases s.len(),
{
    if s.len() > 0 {
        lemma_count_le_len(s.drop_last(), pred);
    }
}

/// The campaign's aggregate state for one monitoring tick.
#[derive(Debug, Clone, Copy, PartialEq, Eq)]
pub struct CampaignTick {
    pub active_lanes: usize,
    pub completed_lanes: usize,
    pub any_failed: bool,
    pub all_finished: bool,
    /// The campaign's terminal status once every lane has finished.
    pub final_status: Option<JobStatus>,
}

pub fn campaign_tick(lane_statuses: &Vec<JobStatus>, pending: usize, running: usize, stop_requested: bool) -> (r: CampaignTick)
    ensures
        r.active_lanes == count_status(lane_statuses@, |s: JobStatus| s == JobStatus::Running),
        r.completed_lanes == count_status(lane_statuses@, |s: JobStatus| is_finished_status(s)),
        r.any_failed == (exists|i: int| 0 <= i < lane_statuses@.len() && lane_statuses@[i] == JobStatus::Failed),
        r.all_finished == (pending == 0 && running == 0),
        r.all_finished ==> r.final_status == Some(
            if r.any_failed {
                JobStatus::Failed
            } else if stop_requested {
                JobStatus::Stopped
            } else {
                JobStatus::Completed
            },
        ),
        !r.all_finished ==> r.final_status is None,
        r.active_lanes + r.completed_lanes <= lane_statuses@.len(),
{
    let ghost running_pred = |s: JobStatus| s == JobStatus::Running;
    let ghost finished_pred = |s: JobStatus| is_finished_status(s);
    let mut active: usize = 0;
    let mut completed: usize = 0;
    let mut any_failed = false;
    let mut i: usize = 0;
    while i < lane_statuses.len()
        invariant
            i <= lane_statuses.len(),
            running_pred == (|s: JobStatus| s == JobStatus::Running),
            finished_pred == (|s: JobStatus| is_finished_status(s)),
            active == count_status(lane_statuses@.subrange(0, i as int), running_pred),
            completed == count_status(lane_statuses@.subrange(0, i as int), finished_pred),
            active + completed <= i,
            any_failed == (exists|k: int| 0 <= k < i && lane_statuses@[k] == JobStatus::Failed),
        decreases lane_statuses.len() - i,
    {
        let s = lane_statuses[i];
        proof {
            let pre = lane_statuses@.subrange(0, i as int);
            let next = lane_statuses@.subrange(0, i + 1);
            assert(next.drop_last() == pre);
            assert(next.last() == s);
        }
        if s == JobStatus::Running {
            active = active + 1;
        }
        if s == JobStatus::Completed || s == JobStatus::Stopped || s == JobStatus::Failed {
            completed = completed + 1;
        }
        if s == JobStatus::Failed {
            any_failed = true;
        }
        i = i + 1;
    }
    proof {
        assert(lane_statuses@.subrange(0, lane_statuses@.len() as int) == lane_statuses@);
    }
    let all_finished = pending == 0 && running == 0;
    let final_status = if all_finished {
        Some(if any_failed {
            JobStatus::Failed
        } else if stop_requested {
            JobStatus::Stopped
        } else {
            JobStatus::Completed
        })
    } else {
        None
    };
    CampaignTick { active_lanes: active, completed_lanes: completed, any_failed, all_finished, final_status }
}


/// A campaign lane's Discover job, as the campaign schedules it.
#[derive(Debug, Clone, PartialEq, Eq)]
pub struct LaneJob {
    pub job_id: Option<String>,
    pub status: JobStatus,
    pub mode: Option<DiscoverMode>,
    pub phase: String,
    pub output_path: Option<String>,
    pub latest_immutable_snapshot_path: Option<String>,
    pub requested_generations: u64,
    pub run_until_stopped: bool,
    pub worker_threads: usize,
    pub promotion_worker_threads: usize,
    pub message: String,
}

/// A lane always starts as a new, isolated Discover job writing its own
/// archive, queued until a campaign worker picks it up.
pub fn portfolio_lane_job(
    selected_symbol: Option<&str>,
    databank_path: &str,
    generations: u64,
    run_until_stopped: Option<bool>,
    worker_threads: usize,
) -> (r: LaneJob)
    ensures
        r.job_id matches Some(id) && id@ == "portfolio-"@ + (match selected_symbol { Some(s) => s@, None => "lane"@ }),
        r.status == JobStatus::Queued,
        r.mode == Some(DiscoverMode::New),
        r.phase@ == "Waiting for campaign worker"@,
        r.output_path matches Some(p) && p@ == databank_path@,
        r.latest_immutable_snapshot_path is None,
        r.requested_generations == generations,
        r.run_until_stopped == (match run_until_stopped { Some(b) => b, None => true }),
        r.worker_threads == worker_threads,
        r.promotion_worker_threads == 1,
        r.message@ == "Isolated Development search is starting."@,
{
    let mut id = owned("portfolio-");
    match selected_symbol {
        Some(s) => crate::text::push_str(&mut id, s),
        None => crate::text::push_str(&mut id, "lane"),
    }
    LaneJob {
        job_id: Some(id),
        status: JobStatus::Queued,
        mode: Some(DiscoverMode::New),
        phase: owned("Waiting for campaign worker"),
        output_path: Some(owned(databank_path)),
        latest_immutable_snapshot_path: None,
        requested_generations: generations,
        run_until_stopped: match run_until_stopped { Some(b) => b, None => true },
        worker_threads,
        promotion_worker_threads: 1,
        message: owned("Isolated Development search is starting."),
    }
}

/// One lane as the campaign view shows it.
#[derive(Debug, Clone, PartialEq, Eq)]
pub struct LaneView {
    pub symbol: String,
    pub output_path: String,
    pub status: JobStatus,
    pub phase: String,
    pub worker_threads: usize,
    pub message: String,
}

/// The campaign view of a lane reopens its immutable snapshot when one exists.
pub fn portfolio_lane_view(symbol: &str, job: &LaneJob) -> (r: LaneView)
    ensures
        r.symbol@ == symbol@,
        job.latest_immutable_snapshot_path matches Some(s) ==> r.output_path == s,
        job.latest_immutable_snapshot_path is None ==> (job.output_path matches Some(o) ==> r.output_path == o),
        job.latest_immutable_snapshot_path is None && job.output_path is None ==> r.output_path@ == Seq::<char>::empty(),
        r.status == job.status,
        r.phase == job.phase,
        r.worker_threads == job.worker_threads,
        r.message == job.message,
{
    let snapshot = match &job.latest_immutable_snapshot_path { Some(s) => Some(s.clone()), None => None };
    let output = match &job.output_path { Some(o) => Some(o.clone()), None => None };
    LaneView {
        symbol: owned(symbol),
        output_path: lane_output_path(snapshot, output),
        status: job.status,
        phase: job.phase.clone(),
        worker_threads: job.worker_threads,
        message: job.message.clone(),
    }
}

} // verus!
