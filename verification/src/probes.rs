//! Choices made from the answers of file-system probes. The library asks the
//! disk (whether a path is a file, a folder, or taken) and hands the answers to
//! these functions, which decide exactly which candidate is used.
use vstd::prelude::*;
use crate::text::owned;

verus! {

/// The first position below `n` whose flag is set.
pub open spec fn first_set(flags: Seq<bool>, n: int) -> Option<int>
    decreases n,
{
    if n <= 0 {
        None
    } else {
        match first_set(flags, n - 1) {
            Some(i) => Some(i),
            None => if flags[n - 1] { Some(n - 1) } else { None },
        }
    }
}

/// Once a set flag is found, later positions do not change the answer.
pub proof fn lemma_first_set_stays(flags: Seq<bool>, m: int, n: int)
    requires
        0 <= m <= n <= flags.len(),
        first_set(flags, m) is Some,
    ensures
        first_set(flags, n) == first_set(flags, m),
    decreases n - m,
{
    if m < n {
        lemma_first_set_stays(flags, m, n - 1);
    }
}

/// What `first_set` finds: a set flag with none set before it.
pub proof fn lemma_first_set_is_least(flags: Seq<bool>, n: int)
    requires
        0 <= n <= flags.len(),
    ensures
        match first_set(flags, n) {
            Some(i) => 0 <= i < n && flags[i] && forall|j: int| 0 <= j < i ==> !#[trigger] flags[j],
            None => forall|j: int| 0 <= j < n ==> !#[trigger] flags[j],
        },
    decreases n,
{
    if n > 0 {
        lemma_first_set_is_least(flags, n - 1);
    }
}

/// The position of the first set flag.
pub fn first_set_index(flags: &Vec<bool>) -> (r: Option<usize>)
    ensures
        match first_set(flags@, flags.len() as int) {
            Some(i) => r == Some(i as usize),
            None => r is None,
        },
{
    let mut i: usize = 0;
    while i < flags.len()
        invariant
            i <= flags.len(),
            first_set(flags@, i as int) is None,
        decreases flags.len() - i,
    {
        if flags[i] {
            proof {
                assert(first_set(flags@, i + 1) == Some(i as int));
                lemma_first_set_stays(flags@, i + 1, flags.len() as int);
            }
            return Some(i);
        }
        i = i + 1;
    }
    None
}

/// The first candidate whose probe answered yes (`found[i]` is the answer
/// for `candidates[i]`), or `None` when none did.
pub fn first_existing_candidate(candidates: &Vec<String>, found: &Vec<bool>) -> (r: Option<String>)
    requires
        candidates.len() == found.len(),
    ensures
        match first_set(found@, found.len() as int) {
            Some(i) => r matches Some(c) && c@ == candidates@[i]@,
            None => r is None,
        },
{
    proof {
        lemma_first_set_is_least(found@, found.len() as int);
    }
    match first_set_index(found) {
        Some(i) => Some(owned(candidates[i].as_str())),
        None => None,
    }
}

/// The flags of positions that are free: the negation of `taken`.
pub open spec fn free_flags(taken: Seq<bool>) -> Seq<bool> {
    taken.map_values(|t: bool| !t)
}

/// The least collision suffix `k >= 1` whose name is free, given `taken[k - 1]`
/// for the suffixes probed so far; `None` when every probed one is taken.
pub fn least_free_suffix(taken: &Vec<bool>) -> (r: Option<u64>)
    requires
        taken.len() < u64::MAX,
    ensures
        match first_set(free_flags(taken@), taken.len() as int) {
            Some(i) => r == Some((i + 1) as u64),
            None => r is None,
        },
{
    let mut i: usize = 0;
    while i < taken.len()
        invariant
            i <= taken.len(),
            taken.len() < u64::MAX,
            first_set(free_flags(taken@), i as int) is None,
        decreases taken.len() - i,
    {
        if !taken[i] {
            proof {
                assert(free_flags(taken@)[i as int]);
                assert(first_set(free_flags(taken@), i + 1) == Some(i as int));
                lemma_first_set_stays(free_flags(taken@), i + 1, taken.len() as int);
            }
            return Some((i + 1) as u64);
        }
        proof {
            assert(!free_flags(taken@)[i as int]);
        }
        i = i + 1;
    }
    None
}

} // verus!
