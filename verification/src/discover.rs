//! Discover job control: request modes, the pause/resume/stop protocol, the
//! per-generation stop rules and the factory hand-off decisions.
use vstd::prelude::*;
use crate::text::{decimal, owned, push_decimal, push_str};

verus! {

/// Generations without Holding growth after which a finite quota run may stop.
pub const HOLDING_STALL_GENERATIONS: u64 = 25;
/// Minimum Holding size before a plateau counts.
pub const HOLDING_STALL_MIN: usize = 40;

#[derive(Debug, Clone, Copy, PartialEq, Eq, Structural)]
pub enum DiscoverMode {
    New,
    Continue,
}

#[derive(Debug, Clone, Copy, PartialEq, Eq, Structural)]
pub enum DiscoverModeView {
    New,
    Continue,
}

pub open spec fn mode_view_of(value: DiscoverMode) -> DiscoverModeView {
    match value {
        DiscoverMode::New => DiscoverModeView::New,
        DiscoverMode::Continue => DiscoverModeView::Continue,
    }
}

impl From<DiscoverMode> for DiscoverModeView {
    fn from(value: DiscoverMode) -> (r: Self) {
        match value {
            DiscoverMode::New => DiscoverModeView::New,
            DiscoverMode::Continue => DiscoverModeView::Continue,
        }
    }
}

impl vstd::std_specs::convert::FromSpecImpl<DiscoverMode> for DiscoverModeView {
    open spec fn obeys_from_spec() -> bool {
        true
    }

    open spec fn from_spec(value: DiscoverMode) -> DiscoverModeView {
        mode_view_of(value)
    }
}

/// Bar size the search decides on; every lane is rebuilt from the bound M1 stream.
#[derive(Debug, Clone, Copy, PartialEq, Eq, Structural)]
pub enum DecisionTimeframe {
    H1,
    M15,
    H4,
}

pub open spec fn interval_of(timeframe: DecisionTimeframe) -> int {
    match timeframe {
        DecisionTimeframe::H1 => 3_600_000,
        DecisionTimeframe::M15 => 900_000,
        DecisionTimeframe::H4 => 14_400_000,
    }
}

pub open spec fn timeframe_name(timeframe: DecisionTimeframe) -> Seq<char> {
    match timeframe {
        DecisionTimeframe::H1 => "H1"@,
        DecisionTimeframe::M15 => "M15"@,
        DecisionTimeframe::H4 => "H4"@,
    }
}

impl DecisionTimeframe {
    /// Bar length in milliseconds.
    pub fn interval_ms(self) -> (r: i64)
        ensures
            r == interval_of(self),
    {
        match self {
            DecisionTimeframe::H1 => 3_600_000,
            DecisionTimeframe::M15 => 900_000,
            DecisionTimeframe::H4 => 14_400_000,
        }
    }

    /// The label written into archive names and manifests.
    pub fn label(self) -> (r: &'static str)
        ensures
            r@ == timeframe_name(self),
    {
        match self {
            DecisionTimeframe::H1 => "H1",
            DecisionTimeframe::M15 => "M15",
            DecisionTimeframe::H4 => "H4",
        }
    }
}

/// A distinct evaluation error message and how often it occurred.
#[derive(Debug, Clone, PartialEq, Eq)]
pub struct EvaluationErrorCount {
    pub message: String,
    pub count: u64,
}

/// One independently bound market lane of a portfolio campaign.
#[derive(Debug, Clone, PartialEq, Eq)]
pub struct PortfolioDiscoverAsset {
    pub symbol: String,
    pub data_path: String,
    pub metadata_path: Option<String>,
    pub source_timezone: Option<String>,
    pub m1_data_path: String,
    pub m1_metadata_path: Option<String>,
    pub m1_source_timezone: Option<String>,
    pub broker_path: String,
}

/// Whether a finished run ended before its soft generation budget.
pub open spec fn spec_stop_was_early(completed_now: u64, soft_budget: u64, run_until_stopped: bool) -> bool {
    if run_until_stopped && soft_budget == 0 {
        true
    } else {
        soft_budget > 0 && completed_now < soft_budget
    }
}

pub fn stop_was_early(completed_now: u64, soft_budget: u64, run_until_stopped: bool) -> (r: bool)
    ensures
        r == spec_stop_was_early(completed_now, soft_budget, run_until_stopped),
{
    if run_until_stopped && soft_budget == 0 {
        true
    } else {
        soft_budget > 0 && completed_now < soft_budget
    }
}

/// The Databank target handed to the factory after Discover. Open-ended runs
/// battery the whole Holding cohort (no target); finite runs keep a positive one.
pub open spec fn spec_automatic_factory_target(run_until_stopped: bool, configured: Option<usize>) -> Option<usize> {
    if !run_until_stopped && configured is Some && configured->0 > 0 {
        configured
    } else {
        None
    }
}

pub fn automatic_factory_target(run_until_stopped: bool, configured_target: Option<usize>) -> (r: Option<usize>)
    ensures
        r == spec_automatic_factory_target(run_until_stopped, configured_target),
{
    if run_until_stopped {
        return None;
    }
    match configured_target {
        Some(target) => {
            if target > 0 {
                Some(target)
            } else {
                None
            }
        },
        None => None,
    }
}

/// A Holding plateau ends only finite Holding-building runs with a large enough cohort.
pub open spec fn spec_holding_plateau_should_stop(
    run_until_stopped: bool,
    build_to_holding: bool,
    holding_count: usize,
    stall_generations: u64,
) -> bool {
    !run_until_stopped && build_to_holding && stall_generations >= HOLDING_STALL_GENERATIONS
        && holding_count >= HOLDING_STALL_MIN
}

pub fn holding_plateau_should_stop(
    run_until_stopped: bool,
    build_to_holding: bool,
    holding_count: usize,
    stall_generations: u64,
) -> (r: bool)
    ensures
        r == spec_holding_plateau_should_stop(run_until_stopped, build_to_holding, holding_count, stall_generations),
{
    !run_until_stopped && build_to_holding && stall_generations >= HOLDING_STALL_GENERATIONS
        && holding_count >= HOLDING_STALL_MIN
}

/// A Holding plateau stops a finite, Holding-building run exactly when its
/// Holding cohort has at least `HOLDING_STALL_MIN` names and has not grown for
/// `HOLDING_STALL_GENERATIONS` generations: a smaller cohort never stops the
/// run, however long it stalls, and an open-ended run never stops for a plateau.
pub proof fn lemma_plateau_needs_a_full_cohort(
    run_until_stopped: bool,
    build_to_holding: bool,
    holding_count: usize,
    stall_generations: u64,
)
    ensures
        holding_count < HOLDING_STALL_MIN ==> !spec_holding_plateau_should_stop(run_until_stopped, build_to_holding, holding_count, stall_generations),
        run_until_stopped ==> !spec_holding_plateau_should_stop(run_until_stopped, build_to_holding, holding_count, stall_generations),
        (!run_until_stopped && build_to_holding && holding_count >= 40 && stall_generations >= HOLDING_STALL_GENERATIONS)
            ==> spec_holding_plateau_should_stop(run_until_stopped, build_to_holding, holding_count, stall_generations),
        HOLDING_STALL_MIN == 40,
{
}

/// Why the generation loop ends.
#[derive(Debug, Clone, Copy, PartialEq, Eq, Structural)]
pub enum LoopExit {
    StopRequested,
    QuotaMet,
    HoldingPlateau,
    BudgetReached,
}

/// The checks made before each generation, in the worker's order.
pub open spec fn spec_exit_before_generation(
    stop: bool,
    quota_met: bool,
    run_until_stopped: bool,
    build_to_holding: bool,
    holding_count: usize,
    stall_generations: u64,
    completed_now: u64,
    soft_budget: u64,
) -> Option<LoopExit> {
    if stop {
        Some(LoopExit::StopRequested)
    } else if quota_met {
        Some(LoopExit::QuotaMet)
    } else if spec_holding_plateau_should_stop(run_until_stopped, build_to_holding, holding_count, stall_generations) {
        Some(LoopExit::HoldingPlateau)
    } else if !run_until_stopped && completed_now >= soft_budget {
        Some(LoopExit::BudgetReached)
    } else if run_until_stopped && soft_budget > 0 && completed_now >= soft_budget {
        Some(LoopExit::BudgetReached)
    } else {
        None
    }
}

pub fn exit_before_generation(
    stop: bool,
    quota_met: bool,
    run_until_stopped: bool,
    build_to_holding: bool,
    holding_count: usize,
    stall_generations: u64,
    completed_now: u64,
    soft_budget: u64,
) -> (r: Option<LoopExit>)
    ensures
        r == spec_exit_before_generation(stop, quota_met, run_until_stopped, build_to_holding,
            holding_count, stall_generations, completed_now, soft_budget),
{
    if stop {
        Some(LoopExit::StopRequested)
    } else if quota_met {
        Some(LoopExit::QuotaMet)
    } else if holding_plateau_should_stop(run_until_stopped, build_to_holding, holding_count, stall_generations) {
        Some(LoopExit::HoldingPlateau)
    } else if !run_until_stopped && completed_now >= soft_budget {
        Some(LoopExit::BudgetReached)
    } else if run_until_stopped && soft_budget > 0 && completed_now >= soft_budget {
        Some(LoopExit::BudgetReached)
    } else {
        None
    }
}

/// Stall bookkeeping after a generation: `(largest Holding seen, generations without growth)`.
pub open spec fn spec_next_holding_stall(build_to_holding: bool, holding_now: usize, last_count: usize, stall: u64) -> (usize, u64) {
    if !build_to_holding {
        (last_count, stall)
    } else if holding_now > last_count {
        (holding_now, 0)
    } else {
        (last_count, (stall + 1) as u64)
    }
}

pub fn next_holding_stall(build_to_holding: bool, holding_now: usize, last_count: usize, stall: u64) -> (r: (usize, u64))
    requires
        stall < u64::MAX,
    ensures
        r == spec_next_holding_stall(build_to_holding, holding_now, last_count, stall),
{
    if !build_to_holding {
        (last_count, stall)
    } else if holding_now > last_count {
        (holding_now, 0)
    } else {
        (last_count, stall + 1)
    }
}

/// Resident-memory ceiling in MB: the request's value (8192 by default), never below 1024.
pub open spec fn spec_memory_limit_mb(max_memory_mb: Option<u64>) -> u64 {
    let requested = match max_memory_mb {
        Some(value) => value,
        None => 8_192,
    };
    if requested < 1_024 { 1_024 } else { requested }
}

pub fn memory_limit_reached(max_memory_mb: Option<u64>, resident_mb: u64) -> (r: bool)
    ensures
        r == (resident_mb >= spec_memory_limit_mb(max_memory_mb)),
{
    let requested = match max_memory_mb {
        Some(value) => value,
        None => 8_192,
    };
    let limit = if requested < 1_024 { 1_024 } else { requested };
    resident_mb >= limit
}

/// The phase shown while a generation runs.
pub open spec fn spec_generation_phase(completed_now: u64, soft_budget: u64, run_until_stopped: bool) -> Seq<char> {
    if run_until_stopped && soft_budget == 0 {
        "Evolving generation "@ + decimal((completed_now + 1) as nat)
    } else {
        "Evolving generation "@ + decimal((completed_now + 1) as nat) + " of "@
            + decimal(if soft_budget == 0 { 1nat } else { soft_budget as nat })
    }
}

pub fn generation_phase(completed_now: u64, soft_budget: u64, run_until_stopped: bool) -> (r: String)
    requires
        completed_now < u64::MAX,
    ensures
        r@ == spec_generation_phase(completed_now, soft_budget, run_until_stopped),
{
    let mut phase = owned("Evolving generation ");
    push_decimal(&mut phase, completed_now + 1);
    if !(run_until_stopped && soft_budget == 0) {
        push_str(&mut phase, " of ");
        push_decimal(&mut phase, if soft_budget == 0 { 1 } else { soft_budget });
    }
    phase
}

/// Lifecycle of a Discover job, a portfolio lane or a battery job.
#[derive(Debug, Clone, Copy, PartialEq, Eq, Structural)]
pub enum JobStatus {
    Idle,
    Queued,
    Running,
    Paused,
    Completed,
    Stopped,
    Failed,
}

pub open spec fn status_name(status: JobStatus) -> Seq<char> {
    match status {
        JobStatus::Idle => "idle"@,
        JobStatus::Queued => "queued"@,
        JobStatus::Running => "running"@,
        JobStatus::Paused => "paused"@,
        JobStatus::Completed => "completed"@,
        JobStatus::Stopped => "stopped"@,
        JobStatus::Failed => "failed"@,
    }
}

impl JobStatus {
    /// The wire name the desktop UI shows.
    pub fn as_str(self) -> (r: &'static str)
        ensures
            r@ == status_name(self),
    {
        match self {
            JobStatus::Idle => "idle",
            JobStatus::Queued => "queued",
            JobStatus::Running => "running",
            JobStatus::Paused => "paused",
            JobStatus::Completed => "completed",
            JobStatus::Stopped => "stopped",
            JobStatus::Failed => "failed",
        }
    }

    pub open spec fn is_active(self) -> bool {
        self == JobStatus::Running || self == JobStatus::Paused
    }
}

/// The control-plane part of a Discover job: what the UI sees and the two flags the worker polls.
#[derive(Debug, Clone)]
pub struct DiscoverControl {
    pub status: JobStatus,
    pub phase: String,
    pub message: String,
    pub stop_requested: bool,
    /// Worker pauses between generations while this is set.
    pub paused: bool,
    /// Worker checkpoints and exits while this is set.
    pub stop: bool,
}

pub struct ControlView {
    pub status: JobStatus,
    pub phase: Seq<char>,
    pub message: Seq<char>,
    pub stop_requested: bool,
    pub paused: bool,
    pub stop: bool,
}

impl View for DiscoverControl {
    type V = ControlView;

    open spec fn view(&self) -> ControlView {
        ControlView {
            status: self.status,
            phase: self.phase@,
            message: self.message@,
            stop_requested: self.stop_requested,
            paused: self.paused,
            stop: self.stop,
        }
    }
}

/// `pause_discover`: only a running job pauses.
pub open spec fn spec_pause(v: ControlView) -> Option<ControlView> {
    if v.status != JobStatus::Running {
        None
    } else {
        Some(ControlView {
            status: JobStatus::Paused,
            phase: "Paused between generations"@,
            message: "Resume to continue the same in-memory deterministic job."@,
            paused: true,
            ..v
        })
    }
}

/// `resume_discover`: only a paused job resumes.
pub open spec fn spec_resume(v: ControlView) -> Option<ControlView> {
    if v.status != JobStatus::Paused {
        None
    } else {
        Some(ControlView {
            status: JobStatus::Running,
            phase: "Resuming evolution"@,
            message: "The next generation will start immediately."@,
            paused: false,
            ..v
        })
    }
}

/// `stop_discover`: a running or paused job is asked to checkpoint and exit.
pub open spec fn spec_stop(v: ControlView) -> Option<ControlView> {
    if !v.status.is_active() {
        None
    } else {
        Some(ControlView {
            status: JobStatus::Running,
            phase: "Stopping after the current generation"@,
            message: "The current archive will be checkpointed before the job exits."@,
            stop_requested: true,
            paused: false,
            stop: true,
        })
    }
}

/// The worker's phase update: a paused job stays paused.
pub open spec fn spec_update_phase(v: ControlView, phase: Seq<char>, message: Seq<char>) -> ControlView {
    ControlView {
        status: if v.status != JobStatus::Paused { JobStatus::Running } else { v.status },
        phase,
        message,
        ..v
    }
}

/// After the worker's pause wait: a paused job that was not stopped runs again.
pub open spec fn spec_after_pause_wait(v: ControlView) -> ControlView {
    if !v.stop && v.status == JobStatus::Paused {
        ControlView { status: JobStatus::Running, ..v }
    } else {
        v
    }
}

impl DiscoverControl {
    /// The idle control shown before any job starts.
    pub fn idle() -> (r: Self)
        ensures
            r@.status == JobStatus::Idle,
            r@.phase == "Ready"@,
            r@.message == "Configure a new search or continue an existing databank."@,
            !r.stop_requested && !r.paused && !r.stop,
    {
        DiscoverControl {
            status: JobStatus::Idle,
            phase: owned("Ready"),
            message: owned("Configure a new search or continue an existing databank."),
            stop_requested: false,
            paused: false,
            stop: false,
        }
    }

    pub fn pause(&mut self) -> (r: Result<(), String>)
        ensures
            spec_pause(old(self)@) is None ==> final(self)@ == old(self)@ && (r matches Err(e) && e@ == "only a running discovery job can be paused"@),
            spec_pause(old(self)@) matches Some(next) ==> final(self)@ == next && r is Ok,
    {
        if self.status != JobStatus::Running {
            return Err(owned("only a running discovery job can be paused"));
        }
        self.paused = true;
        self.status = JobStatus::Paused;
        self.phase = owned("Paused between generations");
        self.message = owned("Resume to continue the same in-memory deterministic job.");
        Ok(())
    }

    pub fn resume(&mut self) -> (r: Result<(), String>)
        ensures
            spec_resume(old(self)@) is None ==> final(self)@ == old(self)@ && (r matches Err(e) && e@ == "only a paused discovery job can be resumed"@),
            spec_resume(old(self)@) matches Some(next) ==> final(self)@ == next && r is Ok,
    {
        if self.status != JobStatus::Paused {
            return Err(owned("only a paused discovery job can be resumed"));
        }
        self.paused = false;
        self.status = JobStatus::Running;
        self.phase = owned("Resuming evolution");
        self.message = owned("The next generation will start immediately.");
        Ok(())
    }

    pub fn stop(&mut self) -> (r: Result<(), String>)
        ensures
            spec_stop(old(self)@) is None ==> final(self)@ == old(self)@ && (r matches Err(e) && e@ == "no active discovery job can be stopped"@),
            spec_stop(old(self)@) matches Some(next) ==> final(self)@ == next && r is Ok,
    {
        if !(self.status == JobStatus::Running || self.status == JobStatus::Paused) {
            return Err(owned("no active discovery job can be stopped"));
        }
        self.stop = true;
        self.paused = false;
        self.stop_requested = true;
        self.status = JobStatus::Running;
        self.phase = owned("Stopping after the current generation");
        self.message = owned("The current archive will be checkpointed before the job exits.");
        Ok(())
    }

    pub fn update_phase(&mut self, phase: &str, message: &str)
        ensures
            final(self)@ == spec_update_phase(old(self)@, phase@, message@),
    {
        if self.status != JobStatus::Paused {
            self.status = JobStatus::Running;
        }
        self.phase = owned(phase);
        self.message = owned(message);
    }

    pub fn after_pause_wait(&mut self)
        ensures
            final(self)@ == spec_after_pause_wait(old(self)@),
    {
        if !self.stop && self.status == JobStatus::Paused {
            self.status = JobStatus::Running;
        }
    }

    /// Whether the worker should flush and checkpoint before waiting out a pause.
    pub fn pausing_now(&self) -> (r: bool)
        ensures
            r == (self.paused && !self.stop),
    {
        self.paused && !self.stop
    }
}

/// Pausing and then resuming a running job runs it again, with its stop
/// flags exactly as they were.
pub proof fn lemma_pause_then_resume(v: ControlView)
    requires
        v.status == JobStatus::Running,
    ensures
        spec_pause(v) is Some,
        spec_resume(spec_pause(v)->0) is Some,
        spec_resume(spec_pause(v)->0)->0.status == JobStatus::Running,
        !spec_resume(spec_pause(v)->0)->0.paused,
        spec_resume(spec_pause(v)->0)->0.stop == v.stop,
        spec_resume(spec_pause(v)->0)->0.stop_requested == v.stop_requested,
{
}

/// No control request or worker update ever withdraws a stop request.
pub proof fn lemma_stop_is_never_withdrawn(v: ControlView, phase: Seq<char>, message: Seq<char>)
    requires
        v.stop,
    ensures
        spec_pause(v) matches Some(n) ==> n.stop,
        spec_resume(v) matches Some(n) ==> n.stop,
        spec_stop(v) matches Some(n) ==> n.stop,
        spec_update_phase(v, phase, message).stop,
        spec_after_pause_wait(v).stop,
{
}

/// A stopped request always leaves the worker unpaused, so it reaches its
/// checkpoint instead of sleeping.
pub proof fn lemma_stop_unpauses(v: ControlView)
    requires
        v.status.is_active(),
    ensures
        spec_stop(v) matches Some(n) && !n.paused && n.stop && n.status == JobStatus::Running,
{
}

/// An open-ended run (no soft budget) ends only on a stop request or a met
/// quota: never on a Holding plateau, never on a budget.
pub proof fn lemma_open_ended_run_ends_only_on_stop_or_quota(
    stop: bool,
    quota_met: bool,
    build_to_holding: bool,
    holding_count: usize,
    stall_generations: u64,
    completed_now: u64,
)
    ensures
        spec_exit_before_generation(stop, quota_met, true, build_to_holding, holding_count,
            stall_generations, completed_now, 0) == (if stop {
            Some(LoopExit::StopRequested)
        } else if quota_met {
            Some(LoopExit::QuotaMet)
        } else {
            None
        }),
        spec_automatic_factory_target(true, Some(holding_count)) is None,
{
}

/// A finite run with nothing else pending ends exactly when its budget is spent.
pub proof fn lemma_finite_run_ends_at_budget(completed_now: u64, soft_budget: u64, build_to_holding: bool, holding_count: usize, stall: u64)
    requires
        !spec_holding_plateau_should_stop(false, build_to_holding, holding_count, stall),
    ensures
        spec_exit_before_generation(false, false, false, build_to_holding, holding_count, stall,
            completed_now, soft_budget) == (if completed_now >= soft_budget {
            Some(LoopExit::BudgetReached)
        } else {
            None
        }),
        completed_now >= soft_budget && soft_budget > 0 ==> !spec_stop_was_early(completed_now, soft_budget, false),
{
}

} // verus!
