//! Multi-symbol robustness matrix and results-pack exports.
use vstd::prelude::*;
use crate::paths::{join, path_join};
use crate::text::{contains, contains_str, ends_with, ends_with_str, owned, push_str, string_views};

verus! {

/// Export a results pack from a JSON report into a new folder.
#[derive(Debug, Clone, PartialEq, Eq)]
pub struct ExportResultsPackRequest {
    pub input_path: String,
    pub title: String,
    pub output_directory: String,
}

/// The files of an exported results pack.
#[derive(Debug, Clone, PartialEq, Eq)]
pub struct ExportResultsPackView {
    pub directory: String,
    pub html_path: String,
    pub trades_csv_path: String,
    pub metrics_json_path: String,
    pub pdf_path: String,
}

/// The FX symbols a matrix runs on when none are named.
pub open spec fn default_fx_pack() -> Seq<Seq<char>> {
    seq!["AUDUSD"@, "EURGBP"@, "EURJPY"@, "EURNZD"@, "GBPJPY"@, "GBPUSD"@, "NZDUSD"@, "USDCHF"@, "USDJPY"@]
}

pub fn matrix_symbols(requested: &Vec<String>) -> (r: Vec<String>)
    ensures
        requested@.len() == 0 ==> string_views(r@) == default_fx_pack(),
        requested@.len() > 0 ==> string_views(r@) == string_views(requested@),
{
    if requested.len() == 0 {
        let pack: Vec<&str> = vec!["AUDUSD", "EURGBP", "EURJPY", "EURNZD", "GBPJPY", "GBPUSD", "NZDUSD", "USDCHF", "USDJPY"];
        let mut out: Vec<String> = Vec::new();
        let mut i: usize = 0;
        while i < pack.len()
            invariant
                i <= pack@.len(),
                pack@.map_values(|s: &str| s@) == default_fx_pack(),
                string_views(out@) == pack@.map_values(|s: &str| s@).subrange(0, i as int),
            decreases pack.len() - i,
        {
            let ghost before = string_views(out@);
            out.push(owned(pack[i]));
            assert(string_views(out@) =~= before.push(pack@[i as int]@));
            assert(string_views(out@) =~= pack@.map_values(|s: &str| s@).subrange(0, i + 1));
            i = i + 1;
        }
        assert(default_fx_pack().subrange(0, 9) =~= default_fx_pack());
        return out;
    }
    let mut out: Vec<String> = Vec::new();
    let mut i: usize = 0;
    while i < requested.len()
        invariant
            i <= requested@.len(),
            string_views(out@) == string_views(requested@).subrange(0, i as int),
        decreases requested.len() - i,
    {
        let ghost before = string_views(out@);
        let next = requested[i].clone();
        out.push(next);
        assert(string_views(out@) =~= before.push(requested@[i as int]@));
        assert(string_views(out@) =~= string_views(requested@).subrange(0, i + 1));
        i = i + 1;
    }
    assert(string_views(requested@).subrange(0, requested@.len() as int) =~= string_views(requested@));
    out
}

/// The clock a matrix reads its packs in, IC Markets' by default.
pub fn matrix_timezone(requested: Option<&str>) -> (r: String)
    ensures
        requested matches Some(t) ==> r@ == t@,
        requested is None ==> r@ == "ICMarkets/EST+7"@,
{
    match requested {
        Some(t) => owned(t),
        None => owned("ICMarkets/EST+7"),
    }
}

/// The preferred H1 file of a symbol in a pack folder.
pub fn exact_h1_path(pack: &str, symbol: &str) -> (r: String)
    ensures
        r@ == path_join(pack@, "ICMarketsSC-Demo_"@ + symbol@ + "_H1_2020_present.tsv"@),
{
    let mut name = owned("ICMarketsSC-Demo_");
    push_str(&mut name, symbol);
    push_str(&mut name, "_H1_2020_present.tsv");
    join(pack, name.as_str())
}

/// Any other H1 export of the symbol: `…_{symbol}_H1_….tsv`.
pub open spec fn is_h1_export(name: Seq<char>, symbol: Seq<char>) -> bool {
    contains(name, "_"@ + symbol + "_H1_"@) && ends_with(name, ".tsv"@)
}

/// The first H1 export of the symbol among a folder's file names.
pub fn find_h1_name(names: &Vec<String>, symbol: &str) -> (r: Option<usize>)
    ensures
        match r {
            Some(i) => i < names@.len() && is_h1_export(names@[i as int]@, symbol@)
                && forall|j: int| 0 <= j < i ==> !is_h1_export(#[trigger] names@[j]@, symbol@),
            None => forall|j: int| 0 <= j < names@.len() ==> !is_h1_export(#[trigger] names@[j]@, symbol@),
        },
{
    let mut needle = owned("_");
    push_str(&mut needle, symbol);
    push_str(&mut needle, "_H1_");
    let mut i: usize = 0;
    while i < names.len()
        invariant
            i <= names@.len(),
            needle@ == "_"@ + symbol@ + "_H1_"@,
            forall|j: int| 0 <= j < i ==> !is_h1_export(#[trigger] names@[j]@, symbol@),
        decreases names.len() - i,
    {
        if contains_str(names[i].as_str(), needle.as_str()) && ends_with_str(names[i].as_str(), ".tsv") {
            return Some(i);
        }
        i = i + 1;
    }
    None
}

/// The refusal when a symbol has no H1 export in the pack.
pub fn missing_h1_message(symbol: &str, shown_pack: &str) -> (r: String)
    ensures
        r@ == "H1 TSV for "@ + symbol@ + " not found in "@ + shown_pack@,
{
    let mut message = owned("H1 TSV for ");
    push_str(&mut message, symbol);
    push_str(&mut message, " not found in ");
    push_str(&mut message, shown_pack);
    message
}

/// The broker profile of a symbol in a pack folder: `{symbol}.broker.json`.
pub fn pack_broker_path(pack: &str, symbol: &str) -> (r: String)
    ensures
        r@ == path_join(pack@, symbol@ + ".broker.json"@),
{
    let mut name = owned(symbol);
    push_str(&mut name, ".broker.json");
    join(pack, name.as_str())
}

/// How many pairwise correlations the matrix view lists.
pub const SHOWN_PAIRWISE_CORRELATIONS: usize = 12;

pub fn shown_pairwise(count: usize) -> (r: usize)
    ensures
        r == (if count < SHOWN_PAIRWISE_CORRELATIONS { count } else { SHOWN_PAIRWISE_CORRELATIONS }),
{
    if count < SHOWN_PAIRWISE_CORRELATIONS { count } else { SHOWN_PAIRWISE_CORRELATIONS }
}

} // verus!
