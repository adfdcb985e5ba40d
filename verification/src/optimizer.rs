//! The optimizer workflows' own choices: the walk-forward matrix grid and the
//! size and tally of a parameter-neighbourhood study.
use vstd::prelude::*;

verus! {

pub open spec fn default_fold_counts() -> Seq<usize> {
    seq![3usize, 4, 5, 6]
}

pub open spec fn default_lookback_bars() -> Seq<usize> {
    seq![60usize, 120, 240]
}

fn copy_sizes(values: &Vec<usize>) -> (r: Vec<usize>)
    ensures
        r@ == values@,
{
    let mut out: Vec<usize> = Vec::new();
    let mut i: usize = 0;
    while i < values.len()
        invariant
            i <= values.len(),
            out@ == values@.subrange(0, i as int),
        decreases values.len() - i,
    {
        out.push(values[i]);
        proof {
            assert(values@.subrange(0, i + 1) == values@.subrange(0, i as int).push(values@[i as int]));
        }
        i = i + 1;
    }
    proof {
        assert(values@.subrange(0, values@.len() as int) == values@);
    }
    out
}

/// The fold counts and lookbacks a walk-forward matrix sweeps: the requested
/// lists, or `3, 4, 5, 6` folds and `60, 120, 240` bars when a list is empty.
pub fn walk_forward_grid(fold_counts: &Vec<usize>, lookback_bars: &Vec<usize>) -> (r: (Vec<usize>, Vec<usize>))
    ensures
        r.0@ == (if fold_counts@.len() == 0 { default_fold_counts() } else { fold_counts@ }),
        r.1@ == (if lookback_bars@.len() == 0 { default_lookback_bars() } else { lookback_bars@ }),
{
    let folds = if fold_counts.len() == 0 {
        let v: Vec<usize> = vec![3, 4, 5, 6];
        assert(v@ =~= default_fold_counts());
        v
    } else {
        copy_sizes(fold_counts)
    };
    let lookbacks = if lookback_bars.len() == 0 {
        let v: Vec<usize> = vec![60, 120, 240];
        assert(v@ =~= default_lookback_bars());
        v
    } else {
        copy_sizes(lookback_bars)
    };
    (folds, lookbacks)
}

/// A neighbourhood study perturbs at least one sample.
pub fn neighborhood_sample_count(requested: usize) -> (r: usize)
    ensures
        r == (if requested < 1 { 1 } else { requested }),
{
    if requested < 1 { 1 } else { requested }
}

/// Number of surviving neighbours among the first `n`.
pub open spec fn survivors(passed: Seq<bool>, n: int) -> int
    decreases n,
{
    if n <= 0 { 0 } else { survivors(passed, n - 1) + if passed[n - 1] { 1int } else { 0int } }
}

/// How many neighbours survived, and how many were tried.
pub fn neighborhood_tally(passed: &Vec<bool>) -> (r: (usize, usize))
    ensures
        r.0 == survivors(passed@, passed@.len() as int),
        r.1 == passed.len(),
        r.0 <= r.1,
{
    let mut count: usize = 0;
    let mut i: usize = 0;
    while i < passed.len()
        invariant
            i <= passed.len(),
            count == survivors(passed@, i as int),
            count <= i,
        decreases passed.len() - i,
    {
        if passed[i] {
            count = count + 1;
        }
        i = i + 1;
    }
    (count, passed.len())
}

} // verus!
