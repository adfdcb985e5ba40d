//! The FX pack a multi-symbol Discover screen replays: which folder and
//! symbols it uses, which file holds each symbol's decision bars, and which
//! sample of them the screen sees.
use vstd::prelude::*;
use crate::assets::{lemma_text_less_irreflexive, lemma_text_less_transitive, str_less, text_less};
use crate::discover_run::SearchSample;
use crate::paths::{file_stem, path_file_stem, path_with_file_name, with_file_name};
use crate::text::{contains, contains_str, ends_with, ends_with_str, eq_ignore_ascii_case, eq_ignore_case, owned, push_str, string_views};

verus! {

/// `str::to_uppercase` (full Unicode case mapping), as text.
pub uninterp spec fn unicode_uppercase(text: Seq<char>) -> Seq<char>;

/// Calls `str::to_uppercase`; claims the result is `unicode_uppercase` of the text.
#[verifier::external_body]
fn to_uppercase(text: &str) -> (r: String)
    ensures
        r@ == unicode_uppercase(text@),
{
    text.to_uppercase()
}

/// Whether a pack is requested: no folder (or an empty one) means no pack;
/// a folder that is not a directory is refused.
pub fn check_pack_directory(pack_dir: Option<&str>, is_dir: bool) -> (r: Result<bool, String>)
    ensures
        match pack_dir {
            None => r == Ok::<bool, String>(false),
            Some(dir) => {
                &&& dir@.len() == 0 ==> r == Ok::<bool, String>(false)
                &&& dir@.len() > 0 && is_dir ==> r == Ok::<bool, String>(true)
                &&& dir@.len() > 0 && !is_dir ==> (r matches Err(m) && m@ == "pack data directory is not a directory: "@ + dir@)
            },
        },
{
    match pack_dir {
        None => Ok(false),
        Some(dir) => {
            if dir.unicode_len() == 0 {
                Ok(false)
            } else if !is_dir {
                let mut message = owned("pack data directory is not a directory: ");
                push_str(&mut message, dir);
                Err(message)
            } else {
                Ok(true)
            }
        },
    }
}

pub open spec fn other_symbols(symbols: Seq<Seq<char>>, primary: Seq<char>) -> Seq<Seq<char>>
    decreases symbols.len(),
{
    if symbols.len() == 0 {
        symbols
    } else if eq_ignore_case(symbols.last(), primary) {
        other_symbols(symbols.drop_last(), primary)
    } else {
        other_symbols(symbols.drop_last(), primary).push(symbols.last())
    }
}

/// The pack symbols other than the one being searched (compared without ASCII case).
pub fn pack_companions(symbols: &Vec<String>, primary: &str) -> (r: Vec<String>)
    ensures
        string_views(r@) == other_symbols(string_views(symbols@), primary@),
{
    let ghost all = string_views(symbols@);
    let mut out: Vec<String> = Vec::new();
    let mut i: usize = 0;
    while i < symbols.len()
        invariant
            all == string_views(symbols@),
            i <= symbols.len(),
            string_views(out@) == other_symbols(all.subrange(0, i as int), primary@),
        decreases symbols.len() - i,
    {
        proof {
            assert(all.subrange(0, i + 1).drop_last() =~= all.subrange(0, i as int));
            assert(all.subrange(0, i + 1).last() == symbols@[i as int]@);
        }
        if !eq_ignore_ascii_case(symbols[i].as_str(), primary) {
            let ghost before = string_views(out@);
            out.push(symbols[i].clone());
            assert(string_views(out@) =~= before.push(symbols@[i as int]@));
        }
        i = i + 1;
    }
    assert(all.subrange(0, all.len() as int) =~= all);
    out
}

/// `<symbol>.broker.json`.
pub fn broker_file_name(symbol: &str) -> (r: String)
    ensures
        r@ == symbol@ + ".broker.json"@,
{
    let mut name = owned(symbol);
    push_str(&mut name, ".broker.json");
    name
}

/// A decision file of the pack: its upper-cased name contains
/// `_<SYMBOL>_<TIMEFRAME>_`, and it is a `.tsv` or `.csv` file.
pub open spec fn is_timeframe_file(name: Seq<char>, symbol: Seq<char>, timeframe: Seq<char>) -> bool {
    &&& contains(unicode_uppercase(name), "_"@ + unicode_uppercase(symbol) + "_"@ + unicode_uppercase(timeframe) + "_"@)
    &&& (ends_with(name, ".tsv"@) || ends_with(name, ".csv"@))
}

pub fn timeframe_file_matches(name: &str, symbol: &str, timeframe: &str) -> (r: bool)
    ensures
        r == is_timeframe_file(name@, symbol@, timeframe@),
{
    let upper = to_uppercase(name);
    let mut marker = owned("_");
    let symbol_upper = to_uppercase(symbol);
    push_str(&mut marker, symbol_upper.as_str());
    push_str(&mut marker, "_");
    let timeframe_upper = to_uppercase(timeframe);
    push_str(&mut marker, timeframe_upper.as_str());
    push_str(&mut marker, "_");
    contains_str(upper.as_str(), marker.as_str()) && (ends_with_str(name, ".tsv") || ends_with_str(name, ".csv"))
}

/// The symbol's decision file: of the matching names, the first in
/// lexicographic order.
pub fn first_timeframe_file(names: &Vec<String>, symbol: &str, timeframe: &str) -> (r: Option<usize>)
    ensures
        match r {
            Some(i) => i < names@.len() && is_timeframe_file(names@[i as int]@, symbol@, timeframe@)
                && forall|j: int| 0 <= j < names@.len() && is_timeframe_file(#[trigger] names@[j]@, symbol@, timeframe@)
                    ==> !text_less(names@[j]@, names@[i as int]@),
            None => forall|j: int| 0 <= j < names@.len() ==> !is_timeframe_file(#[trigger] names@[j]@, symbol@, timeframe@),
        },
{
    let mut best: Option<usize> = None;
    let mut i: usize = 0;
    while i < names.len()
        invariant
            i <= names@.len(),
            match best {
                Some(b) => b < i && is_timeframe_file(names@[b as int]@, symbol@, timeframe@)
                    && forall|j: int| 0 <= j < i && is_timeframe_file(#[trigger] names@[j]@, symbol@, timeframe@)
                        ==> !text_less(names@[j]@, names@[b as int]@),
                None => forall|j: int| 0 <= j < i ==> !is_timeframe_file(#[trigger] names@[j]@, symbol@, timeframe@),
            },
        decreases names.len() - i,
    {
        if timeframe_file_matches(names[i].as_str(), symbol, timeframe) {
            match best {
                None => {
                    best = Some(i);
                    proof {
                        lemma_text_less_irreflexive(names@[i as int]@);
                    }
                },
                Some(b) => {
                    if str_less(names[i].as_str(), names[b].as_str()) {
                        proof {
                            lemma_text_less_irreflexive(names@[i as int]@);
                            assert forall|j: int| 0 <= j < i + 1 && is_timeframe_file(#[trigger] names@[j]@, symbol@, timeframe@)
                                implies !text_less(names@[j]@, names@[i as int]@) by {
                                if j < i && text_less(names@[j]@, names@[i as int]@) {
                                    lemma_text_less_transitive(names@[j]@, names@[i as int]@, names@[b as int]@);
                                }
                            }
                        }
                        best = Some(i);
                    }
                },
            }
        }
        i = i + 1;
    }
    best
}

/// The metadata file beside a decision file: `<stem>.metadata.csv`.
pub fn metadata_beside(decision_path: &str) -> (r: String)
    ensures
        r@ == path_with_file_name(decision_path@,
            (match path_file_stem(decision_path@) { Some(s) => s, None => Seq::<char>::empty() }) + ".metadata.csv"@),
{
    let mut name = match file_stem(decision_path) {
        Some(s) => s,
        None => String::new(),
    };
    push_str(&mut name, ".metadata.csv");
    with_file_name(decision_path, name.as_str())
}

/// The sample of each pack symbol the screen replays: the same partition the
/// search uses when the promotion split applies, else the whole series.
pub fn pack_sample(apply_promotion_split: bool, reserve_oos1: bool) -> (r: SearchSample)
    ensures
        !apply_promotion_split ==> r == SearchSample::Full,
        apply_promotion_split && reserve_oos1 ==> r == SearchSample::Development,
        apply_promotion_split && !reserve_oos1 ==> r == SearchSample::Unsealed,
{
    if !apply_promotion_split {
        SearchSample::Full
    } else if reserve_oos1 {
        SearchSample::Development
    } else {
        SearchSample::Unsealed
    }
}

} // verus!
