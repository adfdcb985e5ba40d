//! The chronological cut of a decision series into Development, OOS1 and the
//! sealed holdout, and the M1 window that covers an In-Sample slice.
use vstd::prelude::*;
use crate::text::{decimal, owned, push_decimal, push_signed_decimal, push_str, signed_decimal};

verus! {

/// A slice of the chronological split.
#[derive(PartialEq, Eq, Structural, Debug, Clone, Copy)]
pub enum Partition {
    /// The leading bars the search breeds on.
    Development,
    /// Development and OOS1 together: everything before the sealed holdout.
    Unsealed,
    /// The validation slice right after Development.
    Oos1,
    /// The trailing holdout.
    Sealed,
}

/// Bar range `[start, end)` of a partition, given the split's Development and
/// OOS1 bar counts and the series length.
pub open spec fn partition_bounds(kind: Partition, development: int, validation: int, total: int) -> (int, int) {
    match kind {
        Partition::Development => (0, development),
        Partition::Unsealed => (0, development + validation),
        Partition::Oos1 => (development, development + validation),
        Partition::Sealed => (development + validation, total),
    }
}

/// A slice must be non-empty and inside the series.
pub open spec fn slice_is_valid(start: int, end: int, total: int) -> bool {
    start < end && end <= total
}

pub open spec fn invalid_slice_text(start: int, end: int, total: int) -> Seq<char> {
    "invalid partition slice "@ + decimal(start as nat) + ".."@ + decimal(end as nat) + " for "@ + decimal(total as nat) + " bars"@
}

pub fn check_partition_slice(start: usize, end: usize, total: usize) -> (r: Result<(), String>)
    ensures
        slice_is_valid(start as int, end as int, total as int) ==> r is Ok,
        !slice_is_valid(start as int, end as int, total as int) ==> (r matches Err(m) && m@ == invalid_slice_text(start as int, end as int, total as int)),
{
    if end <= start || end > total {
        let mut message = owned("invalid partition slice ");
        push_decimal(&mut message, start as u64);
        push_str(&mut message, "..");
        push_decimal(&mut message, end as u64);
        push_str(&mut message, " for ");
        push_decimal(&mut message, total as u64);
        push_str(&mut message, " bars");
        return Err(message);
    }
    Ok(())
}

/// The bar range of a partition, refused when it is empty or runs past the series.
pub fn partition_slice(kind: Partition, development: usize, validation: usize, total: usize) -> (r: Result<(usize, usize), String>)
    requires
        development + validation <= usize::MAX,
    ensures
        ({
            let (start, end) = partition_bounds(kind, development as int, validation as int, total as int);
            &&& slice_is_valid(start, end, total as int) ==> r == Ok::<(usize, usize), String>((start as usize, end as usize))
            &&& !slice_is_valid(start, end, total as int) ==> (r matches Err(m) && m@ == invalid_slice_text(start, end, total as int))
        }),
{
    let (start, end) = match kind {
        Partition::Development => (0, development),
        Partition::Unsealed => (0, development + validation),
        Partition::Oos1 => (development, development + validation),
        Partition::Sealed => (development + validation, total),
    };
    match check_partition_slice(start, end, total) {
        Ok(()) => Ok((start, end)),
        Err(message) => Err(message),
    }
}

/// Development followed by OOS1 is the unsealed range, and the unsealed range
/// followed by the sealed holdout is the whole series.
pub proof fn lemma_partitions_tile(development: int, validation: int, total: int)
    ensures
        partition_bounds(Partition::Development, development, validation, total).0 == partition_bounds(Partition::Unsealed, development, validation, total).0,
        partition_bounds(Partition::Development, development, validation, total).1 == partition_bounds(Partition::Oos1, development, validation, total).0,
        partition_bounds(Partition::Oos1, development, validation, total).1 == partition_bounds(Partition::Unsealed, development, validation, total).1,
        partition_bounds(Partition::Unsealed, development, validation, total).1 == partition_bounds(Partition::Sealed, development, validation, total).0,
        partition_bounds(Partition::Sealed, development, validation, total).1 == total,
{
}

/// With no OOS1 reserve the unsealed range is exactly Development.
pub proof fn lemma_unsealed_is_development_without_oos1(development: int, total: int)
    ensures
        partition_bounds(Partition::Unsealed, development, 0, total) == partition_bounds(Partition::Development, development, 0, total),
{
}

/// Indices `i < n` of the timestamps inside `[start, end)`, in order.
pub open spec fn indices_within(timestamps: Seq<i64>, start: int, end: int, n: int) -> Seq<usize>
    decreases n,
{
    if n <= 0 {
        Seq::empty()
    } else if start <= timestamps[n - 1] < end {
        indices_within(timestamps, start, end, n - 1).push((n - 1) as usize)
    } else {
        indices_within(timestamps, start, end, n - 1)
    }
}

/// Bar length assumed when the window's spacing cannot be inferred.
pub const DEFAULT_WINDOW_INTERVAL_MS: i64 = 3_600_000;

pub open spec fn window_interval(inferred: Option<i64>) -> int {
    match inferred {
        Some(v) => v as int,
        None => DEFAULT_WINDOW_INTERVAL_MS as int,
    }
}

pub open spec fn too_few_text(start: int, end: int) -> Seq<char> {
    "M1 has fewer than 2 bars inside the IS window ["@ + signed_decimal(start) + ".."@ + signed_decimal(end) + ")"@
}

/// The M1 bars that cover an In-Sample window. Window timestamps are bar
/// opens, so the window ends one decision interval after its last open
/// (`inferred_interval_ms`, one hour when it cannot be inferred). Returns the
/// indices of the M1 bars in `[first open, last open + interval)`.
pub fn clip_to_window(window: &Vec<i64>, inferred_interval_ms: Option<i64>, m1: &Vec<i64>) -> (r: Result<Vec<usize>, String>)
    ensures
        window.len() == 0 ==> (r matches Err(m) && m@ == "cannot clip M1: IS window is empty"@),
        window.len() > 0 ==> ({
            let start = window[0] as int;
            let end = window[window.len() - 1] + window_interval(inferred_interval_ms);
            let kept = indices_within(m1@, start, end, m1.len() as int);
            &&& end > i64::MAX ==> (r matches Err(m) && m@ == "IS window end overflow"@)
            &&& end < i64::MIN ==> (r matches Err(m) && m@ == "IS window end overflow"@)
            &&& (i64::MIN <= end <= i64::MAX && kept.len() < 2) ==> (r matches Err(m) && m@ == too_few_text(start, end))
            &&& (i64::MIN <= end <= i64::MAX && kept.len() >= 2) ==> (r matches Ok(v) && v@ == kept)
        }),
{
    if window.len() == 0 {
        return Err(owned("cannot clip M1: IS window is empty"));
    }
    let interval = match inferred_interval_ms {
        Some(v) => v,
        None => DEFAULT_WINDOW_INTERVAL_MS,
    };
    let start = window[0];
    let last = window[window.len() - 1];
    let end = match last.checked_add(interval) {
        Some(e) => e,
        None => return Err(owned("IS window end overflow")),
    };
    let mut kept: Vec<usize> = Vec::new();
    let mut i: usize = 0;
    while i < m1.len()
        invariant
            i <= m1.len(),
            kept@ == indices_within(m1@, start as int, end as int, i as int),
        decreases m1.len() - i,
    {
        if start <= m1[i] && m1[i] < end {
            kept.push(i);
        }
        i = i + 1;
    }
    if kept.len() < 2 {
        let mut message = owned("M1 has fewer than 2 bars inside the IS window [");
        push_signed_decimal(&mut message, start);
        push_str(&mut message, "..");
        push_signed_decimal(&mut message, end);
        push_str(&mut message, ")");
        return Err(message);
    }
    Ok(kept)
}

} // verus!
