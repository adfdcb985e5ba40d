//! The grids and floors of the condition and timeframe bakeoffs.
use vstd::prelude::*;
use crate::text::owned;

verus! {

/// A timeframe bakeoff's grammar bounds must be ordered, and it needs an OOS1 reserve.
pub fn check_timeframe_bakeoff(min_entry: usize, max_entry: usize, min_exit: usize, max_exit: usize, oos1_reserved: bool) -> (r: Result<(), String>)
    ensures
        (min_entry > max_entry || min_exit > max_exit) ==> (r matches Err(m)
            && m@ == "timeframe bakeoff minimum grammar bounds must not exceed maximum bounds"@),
        !(min_entry > max_entry || min_exit > max_exit) && !oos1_reserved ==> (r matches Err(m)
            && m@ == "timeframe bakeoff requires a non-zero OOS1 reserve"@),
        !(min_entry > max_entry || min_exit > max_exit) && oos1_reserved ==> r is Ok,
{
    if min_entry > max_entry || min_exit > max_exit {
        return Err(owned("timeframe bakeoff minimum grammar bounds must not exceed maximum bounds"));
    }
    if !oos1_reserved {
        return Err(owned("timeframe bakeoff requires a non-zero OOS1 reserve"));
    }
    Ok(())
}

/// `low..=high` as a list (empty when `low > high`).
pub fn inclusive_range(low: usize, high: usize) -> (r: Vec<usize>)
    ensures
        low > high ==> r@.len() == 0,
        low <= high ==> r@.len() == high - low + 1,
        forall|i: int| 0 <= i < r@.len() ==> #[trigger] r@[i] == low + i,
{
    let mut out: Vec<usize> = Vec::new();
    if low > high {
        return out;
    }
    let mut v: usize = low;
    loop
        invariant_except_break
            low <= v <= high,
            out@.len() == v - low,
        invariant
            forall|i: int| 0 <= i < out@.len() ==> #[trigger] out@[i] == low + i,
        ensures
            out@.len() == high - low + 1,
        decreases high - v,
    {
        out.push(v);
        if v == high {
            break;
        }
        v = v + 1;
    }
    out
}

/// A bakeoff draws at least once per cell and runs at least one generation.
pub fn at_least_one(requested: usize) -> (r: usize)
    ensures
        r == (if requested < 1 { 1 } else { requested }),
{
    if requested < 1 { 1 } else { requested }
}

/// The scout sizes of a condition bakeoff: at least 20 initial candidates,
/// batches of 10 to 30.
pub fn condition_bakeoff_sizes(initial_candidates: usize) -> (r: (usize, usize))
    ensures
        r.0 == (if initial_candidates < 20 { 20 } else { initial_candidates }),
        r.1 == (if initial_candidates < 10 { 10 } else if initial_candidates > 30 { 30 } else { initial_candidates }),
{
    let initial = if initial_candidates < 20 { 20 } else { initial_candidates };
    let batch = if initial_candidates < 10 { 10 } else if initial_candidates > 30 { 30 } else { initial_candidates };
    (initial, batch)
}

} // verus!
