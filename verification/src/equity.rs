//! The full-run curve of an elite split at its partition boundaries: which
//! trades belong to In-Sample, OOS1 and OOS2, which equity points a segment
//! return reads, and which points anchor the chart.
use vstd::prelude::*;
use crate::text::owned;

verus! {

/// Number of entries `< n` whose time is in `[start, end)`; `None` bounds are open.
pub open spec fn count_in(entries: Seq<i64>, start: Option<i64>, end: i64, n: int) -> nat
    decreases n,
{
    if n <= 0 {
        0
    } else {
        let t = entries[n - 1];
        let inside = (match start { Some(s) => s <= t, None => true }) && t < end;
        count_in(entries, start, end, n - 1) + if inside { 1nat } else { 0nat }
    }
}

fn count_between(entries: &Vec<i64>, start: Option<i64>, end: i64) -> (r: usize)
    ensures
        r == count_in(entries@, start, end, entries.len() as int),
{
    let mut count: usize = 0;
    let mut i: usize = 0;
    while i < entries.len()
        invariant
            i <= entries.len(),
            count == count_in(entries@, start, end, i as int),
            count <= i,
        decreases entries.len() - i,
    {
        let t = entries[i];
        let after_start = match start {
            Some(s) => s <= t,
            None => true,
        };
        if after_start && t < end {
            count = count + 1;
        }
        i = i + 1;
    }
    count
}

/// Trades per partition by entry time: In-Sample before the Development end,
/// OOS1 up to the validation end, OOS2 up to the sealed end.
pub fn trade_partition_counts(entry_ms: &Vec<i64>, is_end: i64, oos1_end: i64, oos2_end: i64) -> (r: (usize, usize, usize))
    ensures
        r.0 == count_in(entry_ms@, None, is_end, entry_ms.len() as int),
        r.1 == count_in(entry_ms@, Some(is_end), oos1_end, entry_ms.len() as int),
        r.2 == count_in(entry_ms@, Some(oos1_end), oos2_end, entry_ms.len() as int),
{
    (
        count_between(entry_ms, None, is_end),
        count_between(entry_ms, Some(is_end), oos1_end),
        count_between(entry_ms, Some(oos1_end), oos2_end),
    )
}

/// The last point stamped before `boundary`.
pub open spec fn last_before(timestamps: Seq<i64>, boundary: i64, n: int) -> Option<int>
    decreases n,
{
    if n <= 0 {
        None
    } else if timestamps[n - 1] < boundary {
        Some(n - 1)
    } else {
        last_before(timestamps, boundary, n - 1)
    }
}

/// The equity point a segment boundary reads: the last one stamped before it.
pub fn last_point_before(timestamps: &Vec<i64>, boundary: i64) -> (r: Option<usize>)
    ensures
        match last_before(timestamps@, boundary, timestamps.len() as int) {
            Some(i) => r == Some(i as usize),
            None => r is None,
        },
{
    let mut n: usize = timestamps.len();
    while n > 0
        invariant
            n <= timestamps.len(),
            last_before(timestamps@, boundary, timestamps.len() as int) == last_before(timestamps@, boundary, n as int),
        decreases n,
    {
        if timestamps[n - 1] < boundary {
            return Some(n - 1);
        }
        n = n - 1;
    }
    None
}

/// The first point stamped at or after `boundary`.
pub open spec fn first_at_or_after(timestamps: Seq<i64>, boundary: i64, n: int) -> Option<int>
    decreases n,
{
    if n <= 0 {
        None
    } else {
        match first_at_or_after(timestamps, boundary, n - 1) {
            Some(i) => Some(i),
            None => if timestamps[n - 1] >= boundary { Some(n - 1) } else { None },
        }
    }
}

proof fn lemma_first_stays(timestamps: Seq<i64>, boundary: i64, m: int, n: int)
    requires
        0 <= m <= n <= timestamps.len(),
        first_at_or_after(timestamps, boundary, m) is Some,
    ensures
        first_at_or_after(timestamps, boundary, n) == first_at_or_after(timestamps, boundary, m),
    decreases n - m,
{
    if m < n {
        lemma_first_stays(timestamps, boundary, m, n - 1);
    }
}

/// The chart keeps the last point before each partition boundary: the point
/// just before the first one at or after it (the first point when that is
/// the very first).
pub fn boundary_anchor(timestamps: &Vec<i64>, boundary: i64) -> (r: Option<usize>)
    ensures
        match first_at_or_after(timestamps@, boundary, timestamps.len() as int) {
            Some(i) => r == Some(if i > 0 { (i - 1) as usize } else { 0usize }),
            None => r is None,
        },
{
    let mut i: usize = 0;
    while i < timestamps.len()
        invariant
            i <= timestamps.len(),
            first_at_or_after(timestamps@, boundary, i as int) is None,
        decreases timestamps.len() - i,
    {
        if timestamps[i] >= boundary {
            proof {
                assert(first_at_or_after(timestamps@, boundary, i + 1) == Some(i as int));
                lemma_first_stays(timestamps@, boundary, i + 1, timestamps.len() as int);
            }
            return Some(if i > 0 { i - 1 } else { 0 });
        }
        i = i + 1;
    }
    None
}

/// At most this many trades are listed beside the chart.
pub const TRADE_ROWS_SHOWN: usize = 2000;

pub fn trade_rows_shown(trades: usize) -> (r: usize)
    ensures
        r == (if trades < TRADE_ROWS_SHOWN { trades } else { TRADE_ROWS_SHOWN }),
{
    if trades < TRADE_ROWS_SHOWN { trades } else { TRADE_ROWS_SHOWN }
}

/// A full-run curve needs the archive's M1 binding.
pub fn full_run_m1_source(m1_source: Option<&str>) -> (r: Result<String, String>)
    ensures
        m1_source matches Some(s) ==> (r matches Ok(v) && v@ == s@),
        m1_source is None ==> (r matches Err(m) && m@ == "This legacy databank does not bind its M1 source; reopen it through Discover and run a new M1-verified search before using its full-run curve."@),
{
    match m1_source {
        Some(s) => Ok(owned(s)),
        None => Err(owned("This legacy databank does not bind its M1 source; reopen it through Discover and run a new M1-verified search before using its full-run curve.")),
    }
}

/// Every trade stamped before the sealed end falls in exactly one partition.
pub proof fn lemma_partitions_count_every_trade(entries: Seq<i64>, is_end: i64, oos1_end: i64, oos2_end: i64, n: int)
    requires
        is_end <= oos1_end <= oos2_end,
        0 <= n <= entries.len(),
    ensures
        count_in(entries, None, is_end, n) + count_in(entries, Some(is_end), oos1_end, n)
            + count_in(entries, Some(oos1_end), oos2_end, n) == count_in(entries, None, oos2_end, n),
    decreases n,
{
    if n > 0 {
        lemma_partitions_count_every_trade(entries, is_end, oos1_end, oos2_end, n - 1);
    }
}

} // verus!
