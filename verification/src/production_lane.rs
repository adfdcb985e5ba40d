//! Production Lane v1 and the hash bindings every Holding battery checks:
//! which archives may run, which bars they replay, and what they report.
use vstd::prelude::*;
use crate::discover::JobStatus;
use crate::paths::{file_stem, path_file_stem, path_with_file_name, with_file_name};
use crate::text::{decimal, owned, push_decimal, push_str, str_eq, string_views};

verus! {

/// Why a Production Lane may not start, in the order the checks run.
pub open spec fn lane_start_refusal(busy: bool, legacy_read_only: bool, holding: usize, sealed_positive: bool, timeframe: Seq<char>) -> Option<Seq<char>> {
    if busy {
        Some("a Holding job is already running"@)
    } else if legacy_read_only {
        Some("Schema-v5 databanks are read-only. Run a fresh H4 Discover archive first."@)
    } else if holding == 0 {
        Some("Holding is empty"@)
    } else if !sealed_positive {
        Some("Production Lane requires a non-zero sealed partition"@)
    } else if timeframe != "H4"@ {
        Some("This is a "@ + timeframe + " Holding archive. Production Lane v1 is H4-only; use Run full robustness battery for this cohort. Nothing was evaluated or promoted."@)
    } else {
        None
    }
}

pub fn check_production_lane_start(busy: bool, legacy_read_only: bool, holding: usize, sealed_positive: bool, timeframe: &str)
    -> (r: Result<(), String>)
    ensures
        match lane_start_refusal(busy, legacy_read_only, holding, sealed_positive, timeframe@) {
            None => r is Ok,
            Some(message) => r matches Err(m) && m@ == message,
        },
{
    if busy {
        return Err(owned("a Holding job is already running"));
    }
    if legacy_read_only {
        return Err(owned("Schema-v5 databanks are read-only. Run a fresh H4 Discover archive first."));
    }
    if holding == 0 {
        return Err(owned("Holding is empty"));
    }
    if !sealed_positive {
        return Err(owned("Production Lane requires a non-zero sealed partition"));
    }
    if !str_eq(timeframe, "H4") {
        let mut message = owned("This is a ");
        push_str(&mut message, timeframe);
        push_str(&mut message, " Holding archive. Production Lane v1 is H4-only; use Run full robustness battery for this cohort. Nothing was evaluated or promoted.");
        return Err(message);
    }
    Ok(())
}

/// The opening message of a lane over a frozen cohort.
pub fn lane_start_message(total: usize) -> (r: String)
    ensures
        r@ == "Frozen cohort: "@ + decimal(total as nat) + ". Reconstructing H4 from M1 and matching the archive hash before replay."@,
{
    let mut message = owned("Frozen cohort: ");
    push_decimal(&mut message, total as u64);
    push_str(&mut message, ". Reconstructing H4 from M1 and matching the archive hash before replay.");
    message
}

/// The Development start, Development end and sealed start of the lane's H4
/// split, checked in the order the lane checks them.
pub open spec fn lane_boundaries(
    timestamps: Seq<i64>,
    development: usize,
    validation: usize,
    sealed: usize,
    archive_hash: Seq<char>,
    development_hash: Seq<char>,
) -> Result<(i64, i64, i64), Seq<char>> {
    if sealed == 0 {
        Err("Production Lane requires a non-empty sealed final partition"@)
    } else if development_hash != archive_hash {
        Err("This Holding archive is not bound to the reconstructed H4 Development data (archive "@ + archive_hash
            + ", reconstructed "@ + development_hash + "). Nothing was evaluated or promoted."@)
    } else if development == 0 || timestamps.len() == 0 {
        Err("H4 Development partition is empty"@)
    } else if development >= timestamps.len() {
        Err("H4 split has no later validation/sealed boundary"@)
    } else if development + validation >= timestamps.len() {
        Err("H4 sealed partition boundary is missing"@)
    } else {
        Ok((timestamps[0], timestamps[development as int], timestamps[development + validation]))
    }
}

pub fn production_lane_boundaries(
    timestamps: &Vec<i64>,
    development: usize,
    validation: usize,
    sealed: usize,
    archive_hash: &str,
    development_hash: &str,
) -> (r: Result<(i64, i64, i64), String>)
    requires
        development <= timestamps@.len(),
    ensures
        match lane_boundaries(timestamps@, development, validation, sealed, archive_hash@, development_hash@) {
            Ok(b) => r == Ok::<(i64, i64, i64), String>(b),
            Err(message) => r matches Err(m) && m@ == message,
        },
{
    if sealed == 0 {
        return Err(owned("Production Lane requires a non-empty sealed final partition"));
    }
    if !str_eq(development_hash, archive_hash) {
        let mut message = owned("This Holding archive is not bound to the reconstructed H4 Development data (archive ");
        push_str(&mut message, archive_hash);
        push_str(&mut message, ", reconstructed ");
        push_str(&mut message, development_hash);
        push_str(&mut message, "). Nothing was evaluated or promoted.");
        return Err(message);
    }
    if development == 0 || timestamps.len() == 0 {
        return Err(owned("H4 Development partition is empty"));
    }
    if development >= timestamps.len() {
        return Err(owned("H4 split has no later validation/sealed boundary"));
    }
    if validation >= timestamps.len() - development {
        return Err(owned("H4 sealed partition boundary is missing"));
    }
    Ok((timestamps[0], timestamps[development], timestamps[development + validation]))
}

/// The rows stamped in `[start, end)`, in order.
pub open spec fn rows_between(timestamps: Seq<i64>, start: i64, end_exclusive: i64, n: int) -> Seq<usize>
    decreases n,
{
    if n <= 0 {
        Seq::empty()
    } else {
        let rest = rows_between(timestamps, start, end_exclusive, n - 1);
        if start <= timestamps[n - 1] && timestamps[n - 1] < end_exclusive { rest.push((n - 1) as usize) } else { rest }
    }
}

/// The M1 rows of the Development window; a window with none is refused.
pub fn slice_rows_by_time(timestamps: &Vec<i64>, start: i64, end_exclusive: i64) -> (r: Result<Vec<usize>, String>)
    ensures
        rows_between(timestamps@, start, end_exclusive, timestamps@.len() as int).len() == 0 ==> (r matches Err(m)
            && m@ == "no M1 rows cover the H4 Development partition"@),
        rows_between(timestamps@, start, end_exclusive, timestamps@.len() as int).len() > 0 ==> (r matches Ok(rows)
            && rows@ == rows_between(timestamps@, start, end_exclusive, timestamps@.len() as int)),
{
    let mut rows: Vec<usize> = Vec::new();
    let mut i: usize = 0;
    while i < timestamps.len()
        invariant
            i <= timestamps@.len(),
            rows@ == rows_between(timestamps@, start, end_exclusive, i as int),
        decreases timestamps.len() - i,
    {
        if start <= timestamps[i] && timestamps[i] < end_exclusive {
            rows.push(i);
        }
        i = i + 1;
    }
    if rows.len() == 0 {
        return Err(owned("no M1 rows cover the H4 Development partition"));
    }
    Ok(rows)
}

/// How many strategies the lane replays at a time.
pub const REPLAY_BATCH: usize = 4;

/// Progress after `completed` of `total` replays.
pub fn replay_progress(completed: usize, total: usize) -> (r: (usize, String, String))
    ensures
        r.0 == (if completed >= total { 0 } else { total - completed }),
        r.1@ == "Production Lane replay "@ + decimal(completed as nat) + "/"@ + decimal(total as nat),
        r.2@ == "Development-only M1 replay: "@ + decimal(completed as nat) + "/"@ + decimal(total as nat) + " complete."@,
{
    let queued = if completed >= total { 0 } else { total - completed };
    let mut phase = owned("Production Lane replay ");
    push_decimal(&mut phase, completed as u64);
    push_str(&mut phase, "/");
    push_decimal(&mut phase, total as u64);
    let mut message = owned("Development-only M1 replay: ");
    push_decimal(&mut message, completed as u64);
    push_str(&mut message, "/");
    push_decimal(&mut message, total as u64);
    push_str(&mut message, " complete.");
    (queued, phase, message)
}

/// Texts joined by `; `.
pub open spec fn joined_reasons(reasons: Seq<Seq<char>>) -> Seq<char>
    decreases reasons.len(),
{
    if reasons.len() == 0 {
        Seq::empty()
    } else if reasons.len() == 1 {
        reasons[0]
    } else {
        joined_reasons(reasons.drop_last()) + "; "@ + reasons.last()
    }
}

fn join_reasons(reasons: &Vec<String>) -> (r: String)
    ensures
        r@ == joined_reasons(string_views(reasons@)),
{
    let ghost all = string_views(reasons@);
    let mut text = String::new();
    let mut i: usize = 0;
    while i < reasons.len()
        invariant
            all == string_views(reasons@),
            i <= reasons@.len(),
            text@ == joined_reasons(all.subrange(0, i as int)),
        decreases reasons.len() - i,
    {
        proof {
            assert(all.subrange(0, i + 1).drop_last() =~= all.subrange(0, i as int));
            assert(all.subrange(0, i + 1).last() == reasons@[i as int]@);
        }
        if i > 0 {
            push_str(&mut text, "; ");
        }
        push_str(&mut text, reasons[i].as_str());
        proof {
            if i == 0 {
                assert(all.subrange(0, 1).len() == 1);
                assert(text@ =~= reasons@[0]@);
            }
        }
        i = i + 1;
    }
    assert(all.subrange(0, all.len() as int) =~= all);
    text
}

/// A replayed strategy's status after selection, with the reason shown.
pub fn lane_row_status(selected: bool, eligible: bool, rejection_reasons: &Vec<String>) -> (r: (&'static str, Option<String>))
    ensures
        selected ==> r.0@ == "selected"@ && r.1 is None,
        !selected && eligible ==> r.0@ == "eligible"@
            && (r.1 matches Some(m) && m@ == "Eligible but outside the top-20%/diversity budget"@),
        !selected && !eligible ==> r.0@ == "rejected"@
            && (r.1 matches Some(m) && m@ == joined_reasons(string_views(rejection_reasons@))),
{
    if selected {
        ("selected", None)
    } else if eligible {
        ("eligible", Some(owned("Eligible but outside the top-20%/diversity budget")))
    } else {
        ("rejected", Some(join_reasons(rejection_reasons)))
    }
}

/// The completed lane's message and its pass/reject counts.
pub fn lane_summary(source_cohort: usize, eligible: usize, selected: usize) -> (r: (String, usize, usize))
    ensures
        r.0@ == decimal(source_cohort as nat) + " frozen → "@ + decimal(eligible as nat) + " Development-eligible → "@
            + decimal(selected as nat) + " selected and promoted. Sealed final remained unopened."@,
        r.1 == selected,
        r.2 == (if source_cohort >= eligible { source_cohort - eligible } else { 0 }),
{
    let mut message = String::new();
    push_decimal(&mut message, source_cohort as u64);
    push_str(&mut message, " frozen → ");
    push_decimal(&mut message, eligible as u64);
    push_str(&mut message, " Development-eligible → ");
    push_decimal(&mut message, selected as u64);
    push_str(&mut message, " selected and promoted. Sealed final remained unopened.");
    (message, selected, if source_cohort >= eligible { source_cohort - eligible } else { 0 })
}

/// The stages a Production Lane reports before it completes.
#[derive(Debug, Clone, Copy, PartialEq, Eq, Structural)]
pub enum LaneStage {
    VerifyingDevelopment,
    Replaying,
    Selecting,
}

pub open spec fn lane_stage_texts(stage: LaneStage) -> (Seq<char>, Seq<char>) {
    match stage {
        LaneStage::VerifyingDevelopment => ("Verifying H4 Development data"@,
            "Rebuilding H4 from the bound M1 chronology; the archive Development hash must match exactly."@),
        LaneStage::Replaying => ("Replaying frozen H4 cohort on Development M1"@,
            "3/6/12-month evidence and ranking are computed without loading validation or sealed rows."@),
        LaneStage::Selecting => ("Selecting Production Lane cohort"@,
            "Applying fixed basic gates, 6/12-month stability and expectancy × √trades ranking."@),
    }
}

/// The phase and message a lane shows while in `stage`.
pub fn lane_stage_phase(stage: LaneStage) -> (r: (&'static str, &'static str))
    ensures
        (r.0@, r.1@) == lane_stage_texts(stage),
{
    match stage {
        LaneStage::VerifyingDevelopment => ("Verifying H4 Development data",
            "Rebuilding H4 from the bound M1 chronology; the archive Development hash must match exactly."),
        LaneStage::Replaying => ("Replaying frozen H4 cohort on Development M1",
            "3/6/12-month evidence and ranking are computed without loading validation or sealed rows."),
        LaneStage::Selecting => ("Selecting Production Lane cohort",
            "Applying fixed basic gates, 6/12-month stability and expectancy × √trades ranking."),
    }
}

/// How a lane that did not complete ends: stopped on request, with nothing
/// selected or promoted, or failed with its error.
pub fn lane_end_view(stopped: bool, error: Option<String>) -> (r: (JobStatus, String, String))
    ensures
        stopped ==> (r.0 == JobStatus::Stopped && r.1@ == "Production Lane stopped safely"@
            && r.2@ == "No selection was made and no Holding strategy was promoted."@),
        !stopped ==> (r.0 == JobStatus::Failed && r.1@ == "Production Lane stopped with an error"@
            && r.2@ == match error { Some(e) => e@, None => Seq::<char>::empty() }),
{
    if stopped {
        (JobStatus::Stopped, owned("Production Lane stopped safely"),
            owned("No selection was made and no Holding strategy was promoted."))
    } else {
        let message = match error {
            Some(e) => e,
            None => String::new(),
        };
        (JobStatus::Failed, owned("Production Lane stopped with an error"), message)
    }
}

/// The detail stored with each strategy a lane promotes.
pub fn lane_promotion_detail(score_formula: &str) -> (r: String)
    ensures
        r@ == "Selected using H4 Development only: 6/12-month stability and "@ + score_formula@
            + ". Sealed final was not opened."@,
{
    let mut detail = owned("Selected using H4 Development only: 6/12-month stability and ");
    push_str(&mut detail, score_formula);
    push_str(&mut detail, ". Sealed final was not opened.");
    detail
}

/// Where a lane's immutable report is written:
/// `{stem}_production_lane_v1_{now_ms}.json` beside the archive.
pub open spec fn lane_report_location(databank_path: Seq<char>, now_ms: u64) -> Seq<char> {
    let stem = match path_file_stem(databank_path) { Some(s) => s, None => "databank"@ };
    path_with_file_name(databank_path, stem + "_production_lane_v1_"@ + decimal(now_ms as nat) + ".json"@)
}

pub fn production_lane_report_path(databank_path: &str, now_ms: u64) -> (r: String)
    ensures
        r@ == lane_report_location(databank_path@, now_ms),
{
    let mut name = match file_stem(databank_path) { Some(s) => s, None => owned("databank") };
    push_str(&mut name, "_production_lane_v1_");
    push_decimal(&mut name, now_ms);
    push_str(&mut name, ".json");
    with_file_name(databank_path, name.as_str())
}

/// Which decision timeframe a Holding archive is bound to: its Development
/// hash must be the reconstructed H1's, or failing that the H4's.
pub fn decision_binding(archive_hash: &str, h1_hash: &str, h4_hash: &str) -> (r: Result<&'static str, String>)
    ensures
        archive_hash@ == h1_hash@ ==> r == Ok::<&'static str, String>("H1"),
        archive_hash@ != h1_hash@ && archive_hash@ == h4_hash@ ==> r == Ok::<&'static str, String>("H4"),
        archive_hash@ != h1_hash@ && archive_hash@ != h4_hash@ ==> (r matches Err(m) && m@
            == "This Holding archive is not bound to the reconstructed H1 or H4 Development data (archive "@ + archive_hash@
            + ", H1 "@ + h1_hash@ + ", H4 "@ + h4_hash@ + "). Nothing was evaluated or promoted."@),
{
    if str_eq(archive_hash, h1_hash) {
        return Ok("H1");
    }
    if str_eq(archive_hash, h4_hash) {
        return Ok("H4");
    }
    let mut message = owned("This Holding archive is not bound to the reconstructed H1 or H4 Development data (archive ");
    push_str(&mut message, archive_hash);
    push_str(&mut message, ", H1 ");
    push_str(&mut message, h1_hash);
    push_str(&mut message, ", H4 ");
    push_str(&mut message, h4_hash);
    push_str(&mut message, "). Nothing was evaluated or promoted.");
    Err(message)
}

/// Which M1 stream a Holding archive executes on: the full M1 binding, or
/// the time-clipped Development M1 binding; never a third dataset.
pub fn execution_binding(timeframe: &str, archive_hash: &str, full_hash: &str, development_hash: &str) -> (r: Result<&'static str, String>)
    ensures
        archive_hash@ == full_hash@ ==> r == Ok::<&'static str, String>("full M1"),
        archive_hash@ != full_hash@ && archive_hash@ == development_hash@ ==> r == Ok::<&'static str, String>("Development M1"),
        archive_hash@ != full_hash@ && archive_hash@ != development_hash@ ==> (r matches Err(m) && m@
            == "This Holding archive is not bound to either approved "@ + timeframe@ + " M1 execution dataset (archive "@
            + archive_hash@ + ", full "@ + full_hash@ + ", Development "@ + development_hash@
            + "). Nothing was evaluated or promoted."@),
{
    if str_eq(archive_hash, full_hash) {
        return Ok("full M1");
    }
    if str_eq(archive_hash, development_hash) {
        return Ok("Development M1");
    }
    let mut message = owned("This Holding archive is not bound to either approved ");
    push_str(&mut message, timeframe);
    push_str(&mut message, " M1 execution dataset (archive ");
    push_str(&mut message, archive_hash);
    push_str(&mut message, ", full ");
    push_str(&mut message, full_hash);
    push_str(&mut message, ", Development ");
    push_str(&mut message, development_hash);
    push_str(&mut message, "). Nothing was evaluated or promoted.");
    Err(message)
}

/// What a verified battery says before it runs.
pub fn battery_binding_message(audit_and_graduate: bool, timeframe: &str, binding: &str) -> (r: String)
    ensures
        r@ == "Verified "@ + timeframe@ + " Development decisions with the hash-bound "@ + binding@
            + (if audit_and_graduate {
                " execution stream. Every result is recorded; every tested strategy will move to Databank."@
            } else {
                " execution stream. Only full passes move to Databank; failures stay in Holding."@
            }),
{
    let mut message = owned("Verified ");
    push_str(&mut message, timeframe);
    push_str(&mut message, " Development decisions with the hash-bound ");
    push_str(&mut message, binding);
    if audit_and_graduate {
        push_str(&mut message, " execution stream. Every result is recorded; every tested strategy will move to Databank.");
    } else {
        push_str(&mut message, " execution stream. Only full passes move to Databank; failures stay in Holding.");
    }
    message
}

} // verus!
