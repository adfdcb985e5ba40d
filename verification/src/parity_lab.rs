//! The parity lab: the files of an MQL5 export, the validation partition a
//! Judge replays, and the indicator parity summary.
use vstd::prelude::*;
use crate::paths::{join, path_join};
use crate::text::{blank, contains, contains_str, is_blank, owned, push_str, str_eq, trim, trim_str};

verus! {

/// What an MQL5 export wrote.
#[derive(Debug, Clone, PartialEq, Eq)]
pub struct ExportView {
    pub output_directory: String,
    pub source_path: String,
    pub settings_path: String,
    pub tester_path: String,
    pub evidence_path: String,
    pub strategy_fingerprint: String,
    pub source_hash: String,
    pub symbol: String,
    pub timeframe: String,
    pub live_trading_default: bool,
}

/// The summary of an indicator parity comparison.
#[derive(Debug, Clone, PartialEq, Eq)]
pub struct IndicatorParityView {
    pub output_path: String,
    pub passed: bool,
    pub symbol: String,
    pub timeframe: String,
    pub source_rows: usize,
    pub compared_rows: usize,
    pub field_count: usize,
    pub mismatch_count: usize,
}

/// An export is only written into a new folder.
pub fn check_export_output(exists: bool, shown: &str) -> (r: Result<(), String>)
    ensures
        exists ==> (r matches Err(m) && m@ == "export directory already exists and will not be replaced: "@ + shown@),
        !exists ==> r is Ok,
{
    if exists {
        let mut message = owned("export directory already exists and will not be replaced: ");
        push_str(&mut message, shown);
        return Err(message);
    }
    Ok(())
}

/// The expert's name: the requested one trimmed, or the suggested one when
/// the request leaves it blank, so consecutive exports never share a name.
pub fn export_expert_name(requested: &str, suggested: &str) -> (r: String)
    ensures
        is_blank(requested@) ==> r@ == suggested@,
        !is_blank(requested@) ==> r@ == trim(requested@),
{
    if blank(requested) { owned(suggested) } else { trim_str(requested) }
}

/// The four files of an export: source, settings, tester configuration and evidence.
pub open spec fn export_files(out: Seq<char>, expert: Seq<char>) -> Seq<Seq<char>> {
    seq![
        path_join(out, expert + ".mq5"@),
        path_join(out, expert + ".set"@),
        path_join(out, expert + ".tester.ini"@),
        path_join(out, expert + ".evidence.json"@),
    ]
}

fn expert_file(out: &str, expert: &str, suffix: &str) -> (r: String)
    ensures
        r@ == path_join(out@, expert@ + suffix@),
{
    let mut name = owned(expert);
    push_str(&mut name, suffix);
    join(out, name.as_str())
}

pub fn export_file_paths(out: &str, expert: &str) -> (r: (String, String, String, String))
    ensures
        seq![r.0@, r.1@, r.2@, r.3@] == export_files(out@, expert@),
{
    (
        expert_file(out, expert, ".mq5"),
        expert_file(out, expert, ".set"),
        expert_file(out, expert, ".tester.ini"),
        expert_file(out, expert, ".evidence.json"),
    )
}

/// The bars of the validation segment: those stamped in `[start, end)`, in order.
pub open spec fn window_indices(timestamps: Seq<i64>, start: i64, end_exclusive: i64, n: int) -> Seq<usize>
    decreases n,
{
    if n <= 0 {
        Seq::empty()
    } else {
        let rest = window_indices(timestamps, start, end_exclusive, n - 1);
        if start <= timestamps[n - 1] && timestamps[n - 1] < end_exclusive {
            rest.push((n - 1) as usize)
        } else {
            rest
        }
    }
}

pub fn validation_window(timestamps: &Vec<i64>, start: i64, end_exclusive: i64) -> (r: Vec<usize>)
    ensures
        r@ == window_indices(timestamps@, start, end_exclusive, timestamps@.len() as int),
{
    let mut out: Vec<usize> = Vec::new();
    let mut i: usize = 0;
    while i < timestamps.len()
        invariant
            i <= timestamps@.len(),
            out@ == window_indices(timestamps@, start, end_exclusive, i as int),
        decreases timestamps.len() - i,
    {
        if start <= timestamps[i] && timestamps[i] < end_exclusive {
            out.push(i);
        }
        i = i + 1;
    }
    out
}

/// The Judge replays the validation segment only when the decision source is
/// the split's full data and the selected bars reproduce the segment exactly.
pub fn check_validation_partition(source_matches_split: bool, selected_bars: usize, segment_bars: usize, segment_hash_matches: bool)
    -> (r: Result<(), String>)
    ensures
        !source_matches_split ==> (r matches Err(m) && m@ == "decision source does not match the selected split plan"@),
        source_matches_split && (selected_bars != segment_bars || !segment_hash_matches) ==> (r matches Err(m)
            && m@ == "validation bars do not reproduce the split-plan segment"@),
        source_matches_split && selected_bars == segment_bars && segment_hash_matches ==> r is Ok,
{
    if !source_matches_split {
        return Err(owned("decision source does not match the selected split plan"));
    }
    if selected_bars != segment_bars || !segment_hash_matches {
        return Err(owned("validation bars do not reproduce the split-plan segment"));
    }
    Ok(())
}

pub open spec fn total(values: Seq<usize>) -> int
    decreases values.len(),
{
    if values.len() == 0 { 0 } else { total(values.drop_last()) + values.last() }
}

/// The parity summary: one field per compared indicator, and their
/// mismatches summed.
pub fn indicator_parity_view(
    output_path: String,
    passed: bool,
    symbol: String,
    timeframe: String,
    source_rows: usize,
    compared_rows: usize,
    field_mismatches: &Vec<usize>,
) -> (r: IndicatorParityView)
    requires
        total(field_mismatches@) <= usize::MAX,
    ensures
        r.output_path == output_path,
        r.passed == passed,
        r.symbol == symbol,
        r.timeframe == timeframe,
        r.source_rows == source_rows,
        r.compared_rows == compared_rows,
        r.field_count == field_mismatches@.len(),
        r.mismatch_count == total(field_mismatches@),
{
    let mut sum: usize = 0;
    let mut i: usize = 0;
    while i < field_mismatches.len()
        invariant
            i <= field_mismatches@.len(),
            sum == total(field_mismatches@.subrange(0, i as int)),
            total(field_mismatches@) <= usize::MAX,
        decreases field_mismatches.len() - i,
    {
        proof {
            assert(field_mismatches@.subrange(0, i + 1).drop_last() =~= field_mismatches@.subrange(0, i as int));
            lemma_total_prefix(field_mismatches@, i + 1);
        }
        sum = sum + field_mismatches[i];
        i = i + 1;
    }
    assert(field_mismatches@.subrange(0, field_mismatches@.len() as int) =~= field_mismatches@);
    IndicatorParityView {
        output_path,
        passed,
        symbol,
        timeframe,
        source_rows,
        compared_rows,
        field_count: field_mismatches.len(),
        mismatch_count: sum,
    }
}

proof fn lemma_total_prefix(values: Seq<usize>, n: int)
    requires
        0 <= n <= values.len(),
    ensures
        total(values.subrange(0, n)) <= total(values),
    decreases values.len() - n,
{
    if n < values.len() {
        lemma_total_prefix(values, n + 1);
        assert(values.subrange(0, n + 1).drop_last() =~= values.subrange(0, n));
    } else {
        assert(values.subrange(0, n) =~= values);
    }
}

/// A parity reference and its evidence card are bound to the same strategy
/// and broker specification.
pub open spec fn inputs_bound(reference_fingerprint: Seq<char>, evidence_fingerprint: Seq<char>, reference_broker_hash: Option<Seq<char>>, evidence_broker_hash: Seq<char>) -> bool {
    reference_fingerprint == evidence_fingerprint && reference_broker_hash == Some(evidence_broker_hash)
}

/// A parity reference and the export's evidence card must be bound to the
/// same strategy fingerprint and broker specification.
pub fn check_parity_inputs(reference_fingerprint: &str, evidence_fingerprint: &str, reference_broker_hash: Option<&str>, evidence_broker_hash: &str) -> (r: Result<(), String>)
    ensures
        inputs_bound(reference_fingerprint@, evidence_fingerprint@, match reference_broker_hash { Some(h) => Some(h@), None => None }, evidence_broker_hash@) ==> r is Ok,
        !inputs_bound(reference_fingerprint@, evidence_fingerprint@, match reference_broker_hash { Some(h) => Some(h@), None => None }, evidence_broker_hash@) ==> (r matches Err(m)
            && m@ == "reference result and export evidence are bound to different inputs"@),
{
    let broker_matches = match reference_broker_hash {
        Some(h) => str_eq(h, evidence_broker_hash),
        None => false,
    };
    if !str_eq(reference_fingerprint, evidence_fingerprint) || !broker_matches {
        return Err(owned("reference result and export evidence are bound to different inputs"));
    }
    Ok(())
}

/// The generated source must be the one its evidence card hashes.
pub fn check_source_hash(matches: bool) -> (r: Result<(), String>)
    ensures
        matches ==> r is Ok,
        !matches ==> (r matches Err(m) && m@ == "MQL5 source hash does not match its evidence card"@),
{
    if matches { Ok(()) } else { Err(owned("MQL5 source hash does not match its evidence card")) }
}

/// Both order calls of the generated expert pass a stop and a target.
pub open spec fn places_protective_orders(source: Seq<char>) -> bool {
    contains(source, "g_trade.Buy(volume,_Symbol,0.0,stop,target"@)
        && contains(source, "g_trade.Sell(volume,_Symbol,0.0,stop,target"@)
}

/// The evidence card's stop-loss and take-profit claims, kept only when the
/// source really places protective orders.
pub fn protective_claims(source: &str, mandatory_stop_loss: bool, mandatory_take_profit: bool) -> (r: (bool, bool))
    ensures
        r.0 == (mandatory_stop_loss && places_protective_orders(source@)),
        r.1 == (mandatory_take_profit && places_protective_orders(source@)),
{
    let protective = contains_str(source, "g_trade.Buy(volume,_Symbol,0.0,stop,target")
        && contains_str(source, "g_trade.Sell(volume,_Symbol,0.0,stop,target");
    (mandatory_stop_loss && protective, mandatory_take_profit && protective)
}

/// The broker time zone of the MT5 run: the requested one, else the one in its metadata.
pub fn parity_broker_timezone(requested: Option<&str>, metadata: Option<&str>) -> (r: Option<String>)
    ensures
        requested matches Some(z) ==> (r matches Some(t) && t@ == z@),
        requested is None ==> (metadata matches Some(z) ==> (r matches Some(t) && t@ == z@)),
        requested is None && metadata is None ==> r is None,
{
    match requested {
        Some(z) => Some(owned(z)),
        None => match metadata {
            Some(z) => Some(owned(z)),
            None => None,
        },
    }
}

/// A parity run is graded `parity-passed` only when the comparison passed.
pub fn parity_grade(passed: bool) -> (r: &'static str)
    ensures
        passed ==> r@ == "parity-passed"@,
        !passed ==> r@ == "accepted"@,
{
    if passed { "parity-passed" } else { "accepted" }
}

} // verus!
