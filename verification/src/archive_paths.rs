//! Where archives, snapshots, quote sidecars and companion files live.
use vstd::prelude::*;
use crate::clock::{clock_reading, clock_unavailable, snapshot_stamp_at, snapshot_stamp_text};
use crate::data_lab::{symbol_in_stem, symbol_of_stem};
use crate::market_csv::opt_text;
use crate::discover::{DecisionTimeframe, timeframe_name};
use crate::probes::{first_existing_candidate, first_set, lemma_first_set_is_least, least_free_suffix, free_flags};
use crate::paths::{last_dot, name_stem, path_file_name, plain_name, separator_free, file_stem, is_file, join, parent, path_exists, path_file_stem, path_join, path_parent, path_with_file_name, with_file_name};
use crate::text::{is_ascii_digit, string_views, blank, decimal, ends_with, is_blank, owned, push_decimal, push_str, skip_from, strip_suffix_str, to_char_vec, from_chars, upper_seq, upper_str};

verus! {

/// The file name `{name}_M1.quotes.csv` of an M1 quote sidecar.
pub open spec fn m1_quotes_name(base: Seq<char>) -> Seq<char> {
    base + "_M1.quotes.csv"@
}

/// Sidecar names derived from decision-timeframe stems (`X_H1` → `X_M1.quotes.csv`).
pub open spec fn suffix_sidecars(stem: Seq<char>, suffixes: Seq<Seq<char>>) -> Seq<Seq<char>>
    decreases suffixes.len(),
{
    if suffixes.len() == 0 {
        Seq::empty()
    } else {
        let rest = suffix_sidecars(stem, suffixes.drop_last());
        let suffix = suffixes.last();
        if ends_with(stem, suffix) {
            rest.push(m1_quotes_name(stem.subrange(0, stem.len() - suffix.len())))
        } else {
            rest
        }
    }
}

pub open spec fn discover_sidecar_suffixes() -> Seq<Seq<char>> {
    seq!["_H1"@, "_M15"@, "_H4"@]
}

/// Sidecar file names tried, in order, beside a Discover M1 (or decision) pack:
/// its own sidecar, the M1 sidecar of a decision-timeframe stem, then the short
/// `{SYMBOL}_M1.quotes.csv` named after the symbol the stem holds.
pub open spec fn quote_sidecar_names(stem: Seq<char>) -> Seq<Seq<char>> {
    let base = seq![stem + ".quotes.csv"@] + suffix_sidecars(stem, discover_sidecar_suffixes());
    match symbol_of_stem(stem) {
        Some(symbol) => base.push(m1_quotes_name(symbol)),
        None => base,
    }
}

pub open spec fn sibling_paths(path: Seq<char>, names: Seq<Seq<char>>) -> Seq<Seq<char>> {
    names.map_values(|name: Seq<char>| path_with_file_name(path, name))
}

fn push_suffix_sidecars(names: &mut Vec<String>, stem: &str, suffixes: &Vec<&str>)
    ensures
        string_views(final(names)@) == string_views(old(names)@)
            + suffix_sidecars(stem@, suffixes@.map_values(|s: &str| s@)),
{
    let mut k: usize = 0;
    while k < suffixes.len()
        invariant
            k <= suffixes@.len(),
            string_views(names@) == string_views(old(names)@)
                + suffix_sidecars(stem@, suffixes@.subrange(0, k as int).map_values(|s: &str| s@)),
        decreases suffixes.len() - k,
    {
        let ghost before = string_views(names@);
        proof {
            let prev = suffixes@.subrange(0, k as int).map_values(|s: &str| s@);
            let next = suffixes@.subrange(0, k + 1).map_values(|s: &str| s@);
            assert(next.drop_last() =~= prev);
            assert(next.last() == suffixes@[k as int]@);
        }
        let base = strip_suffix_str(stem, suffixes[k]);
        match base {
            Some(base) => {
                let mut name = base;
                push_str(&mut name, "_M1.quotes.csv");
                names.push(name);
                proof {
                    assert(string_views(names@) =~= before.push(name@));
                }
            },
            None => {},
        }
        proof {
            let prev = suffix_sidecars(stem@, suffixes@.subrange(0, k as int).map_values(|s: &str| s@));
            let next = suffix_sidecars(stem@, suffixes@.subrange(0, k + 1).map_values(|s: &str| s@));
            assert(string_views(names@) =~= string_views(old(names)@) + next) by {
                if next.len() > prev.len() {
                    assert(next =~= prev.push(next.last()));
                }
            }
        }
        k = k + 1;
    }
    proof {
        assert(suffixes@.subrange(0, suffixes@.len() as int) == suffixes@);
    }
}

/// Sidecar names beside a Discover pack, in the order they are tried.
pub fn quote_sidecar_file_names(stem: &str) -> (names: Vec<String>)
    ensures
        string_views(names@) == quote_sidecar_names(stem@),
{
    let mut names: Vec<String> = Vec::new();
    let mut first = owned(stem);
    push_str(&mut first, ".quotes.csv");
    names.push(first);
    assert(string_views(names@) =~= seq![stem@ + ".quotes.csv"@]);
    let suffixes: Vec<&str> = vec!["_H1", "_M15", "_H4"];
    assert(suffixes@.map_values(|s: &str| s@) =~= discover_sidecar_suffixes());
    push_suffix_sidecars(&mut names, stem, &suffixes);
    let ghost base = string_views(names@);
    match symbol_in_stem(stem) {
        Some(symbol) => {
            let mut name = symbol;
            push_str(&mut name, "_M1.quotes.csv");
            names.push(name);
            assert(string_views(names@) =~= base.push(name@));
        },
        None => {},
    }
    names
}

pub open spec fn databank_sidecar_suffixes() -> Seq<Seq<char>> {
    seq!["_H1"@, "_M15"@]
}

/// Sidecar names tried, in order, beside a pack opened from the Results view.
pub open spec fn databank_sidecar_names(stem: Seq<char>) -> Seq<Seq<char>> {
    seq![stem + ".quotes.csv"@] + suffix_sidecars(stem, databank_sidecar_suffixes())
}

fn databank_sidecar_file_names(stem: &str) -> (names: Vec<String>)
    ensures
        string_views(names@) == databank_sidecar_names(stem@),
{
    let mut names: Vec<String> = Vec::new();
    let mut first = owned(stem);
    push_str(&mut first, ".quotes.csv");
    names.push(first);
    assert(string_views(names@) =~= seq![stem@ + ".quotes.csv"@]);
    let suffixes: Vec<&str> = vec!["_H1", "_M15"];
    assert(suffixes@.map_values(|s: &str| s@) =~= databank_sidecar_suffixes());
    push_suffix_sidecars(&mut names, stem, &suffixes);
    names
}

pub open spec fn databank_sidecar_candidates(m1_path: Seq<char>) -> Seq<Seq<char>> {
    match path_file_stem(m1_path) {
        Some(stem) => sibling_paths(m1_path, databank_sidecar_names(stem)),
        None => Seq::empty(),
    }
}

/// The bid/ask M1 sidecar beside a Results-view pack: the first of
/// `databank_sidecar_candidates` that is a file, if any.
pub fn infer_quote_sidecar_path(m1_path: &str) -> (r: Option<String>)
    ensures
        r matches Some(p) ==> databank_sidecar_candidates(m1_path@).contains(p@),
        path_file_stem(m1_path@) is None ==> r is None,
{
    let stem = match file_stem(m1_path) {
        Some(stem) => stem,
        None => return None,
    };
    let names = databank_sidecar_file_names(stem.as_str());
    let candidates = sibling_files(m1_path, &names);
    proof {
        assert(string_views(candidates@) =~= databank_sidecar_candidates(m1_path@));
    }
    let found = probe_files(&candidates);
    let chosen = first_existing_candidate(&candidates, &found);
    proof {
        lemma_first_set_is_least(found@, found.len() as int);
        match first_set(found@, found.len() as int) {
            Some(i) => assert(string_views(candidates@)[i] == candidates@[i]@),
            None => {},
        }
    }
    chosen
}

/// `path` with its file name replaced by each of `names`, in order.
fn sibling_files(path: &str, names: &Vec<String>) -> (r: Vec<String>)
    ensures
        string_views(r@) == sibling_paths(path@, string_views(names@)),
{
    let mut out: Vec<String> = Vec::new();
    let mut i: usize = 0;
    while i < names.len()
        invariant
            i <= names.len(),
            string_views(out@) =~= sibling_paths(path@, string_views(names@).subrange(0, i as int)),
        decreases names.len() - i,
    {
        let ghost before = string_views(out@);
        out.push(with_file_name(path, names[i].as_str()));
        proof {
            assert(string_views(out@) =~= before.push(path_with_file_name(path@, names@[i as int]@)));
            assert(string_views(names@).subrange(0, i + 1) =~= string_views(names@).subrange(0, i as int).push(names@[i as int]@));
        }
        i = i + 1;
    }
    assert(string_views(names@).subrange(0, names.len() as int) =~= string_views(names@));
    out
}

/// Asks the disk, for each path, whether it is a file: `r[i]` answers for `paths[i]`.
fn probe_files(paths: &Vec<String>) -> (r: Vec<bool>)
    ensures
        r.len() == paths.len(),
{
    let mut found: Vec<bool> = Vec::new();
    let mut i: usize = 0;
    while i < paths.len()
        invariant
            i <= paths.len(),
            found.len() == i,
        decreases paths.len() - i,
    {
        found.push(is_file(paths[i].as_str()));
        i = i + 1;
    }
    found
}

/// Every path `infer_quote_path_public` may return: the sidecar names beside `m1_path`.
pub open spec fn quote_path_candidates(m1_path: Seq<char>) -> Seq<Seq<char>> {
    match path_file_stem(m1_path) {
        Some(stem) => sibling_paths(m1_path, quote_sidecar_names(stem)),
        None => Seq::empty(),
    }
}

/// Every sidecar name tried beside a Discover pack ends in `.quotes.csv`.
pub proof fn lemma_quote_sidecar_names_are_quote_files(stem: Seq<char>)
    ensures
        forall|i: int| 0 <= i < quote_sidecar_names(stem).len()
            ==> ends_with(#[trigger] quote_sidecar_names(stem)[i], ".quotes.csv"@),
{
    reveal_strlit(".quotes.csv");
    reveal_strlit("_M1.quotes.csv");
    assert forall|base: Seq<char>| ends_with(#[trigger] m1_quotes_name(base), ".quotes.csv"@) by {
        let name = m1_quotes_name(base);
        assert(name.subrange(name.len() - 11, name.len() as int) =~= ".quotes.csv"@);
    }
    assert(ends_with(stem + ".quotes.csv"@, ".quotes.csv"@)) by {
        let name = stem + ".quotes.csv"@;
        assert(name.subrange(name.len() - 11, name.len() as int) =~= ".quotes.csv"@);
    }
    lemma_suffix_sidecars_are_quote_files(stem, discover_sidecar_suffixes());
    let base = seq![stem + ".quotes.csv"@] + suffix_sidecars(stem, discover_sidecar_suffixes());
    assert forall|i: int| 0 <= i < base.len() implies ends_with(#[trigger] base[i], ".quotes.csv"@) by {
        if i > 0 {
            assert(base[i] == suffix_sidecars(stem, discover_sidecar_suffixes())[i - 1]);
        }
    }
    match symbol_of_stem(stem) {
        Some(symbol) => {
            assert forall|i: int| 0 <= i < quote_sidecar_names(stem).len()
                implies ends_with(#[trigger] quote_sidecar_names(stem)[i], ".quotes.csv"@) by {
                if i < base.len() {
                    assert(quote_sidecar_names(stem)[i] == base[i]);
                } else {
                    assert(quote_sidecar_names(stem)[i] == m1_quotes_name(symbol));
                }
            }
        },
        None => {},
    }
}

proof fn lemma_suffix_sidecars_are_quote_files(stem: Seq<char>, suffixes: Seq<Seq<char>>)
    requires
        forall|base: Seq<char>| ends_with(#[trigger] m1_quotes_name(base), ".quotes.csv"@),
    ensures
        forall|i: int| 0 <= i < suffix_sidecars(stem, suffixes).len()
            ==> ends_with(#[trigger] suffix_sidecars(stem, suffixes)[i], ".quotes.csv"@),
    decreases suffixes.len(),
{
    if suffixes.len() > 0 {
        lemma_suffix_sidecars_are_quote_files(stem, suffixes.drop_last());
        let rest = suffix_sidecars(stem, suffixes.drop_last());
        assert forall|i: int| 0 <= i < suffix_sidecars(stem, suffixes).len()
            implies ends_with(#[trigger] suffix_sidecars(stem, suffixes)[i], ".quotes.csv"@) by {
            if i < rest.len() {
                assert(suffix_sidecars(stem, suffixes)[i] == rest[i]);
            }
        }
    }
}

/// The first existing bid/ask M1 sidecar beside an imported pack file, if any.
/// Decision-timeframe paths share the sidecar of the M1 stream they derive from.
pub fn infer_quote_path_public(m1_path: &str) -> (r: Option<String>)
    ensures
        r matches Some(p) ==> quote_path_candidates(m1_path@).contains(p@),
        r matches Some(p) ==> exists|name: Seq<char>| ends_with(name, ".quotes.csv"@)
            && p@ == #[trigger] path_with_file_name(m1_path@, name),
        path_file_stem(m1_path@) is None ==> r is None,
{
    let r = infer_quote_path(m1_path);
    proof {
        match opt_text(r) {
            Some(pv) => {
                let stem = path_file_stem(m1_path@)->0;
                lemma_quote_sidecar_names_are_quote_files(stem);
                let cands = quote_path_candidates(m1_path@);
                let i = choose|i: int| 0 <= i < cands.len() && cands[i] == pv;
                let name = quote_sidecar_names(stem)[i];
                assert(ends_with(name, ".quotes.csv"@));
                assert(pv == path_with_file_name(m1_path@, name));
            },
            None => {},
        }
    }
    r
}

fn infer_quote_path(m1_path: &str) -> (r: Option<String>)
    ensures
        r matches Some(p) ==> quote_path_candidates(m1_path@).contains(p@),
        path_file_stem(m1_path@) is None ==> r is None,
{
    let stem = match file_stem(m1_path) {
        Some(stem) => stem,
        None => return None,
    };
    let names = quote_sidecar_file_names(stem.as_str());
    let candidates = sibling_files(m1_path, &names);
    proof {
        assert(string_views(candidates@) =~= quote_path_candidates(m1_path@));
    }
    let found = probe_files(&candidates);
    let chosen = first_existing_candidate(&candidates, &found);
    proof {
        lemma_first_set_is_least(found@, found.len() as int);
        match first_set(found@, found.len() as int) {
            Some(i) => assert(string_views(candidates@)[i] == candidates@[i]@),
            None => {},
        }
    }
    chosen
}

/// Where a new Discover archive for `symbol` goes, before collision suffixes.
pub open spec fn archive_symbol(stem: Seq<char>, selected: Option<Seq<char>>) -> Seq<char> {
    let first = stem.subrange(0, skip_from(stem, 0, |c: char| c != '_' && c != '-'));
    let fallback = if first.len() > 0 { upper_seq(first) } else { "STRATEGY"@ };
    match selected {
        Some(s) => if is_blank(s) { fallback } else { upper_seq(s) },
        None => fallback,
    }
}

pub open spec fn archive_base(symbol: Seq<char>, timeframe: DecisionTimeframe, year: u16, now_ms: u64) -> Seq<char> {
    symbol + "_"@ + timeframe_name(timeframe) + "_"@ + decimal(year as nat) + "_databank_"@ + decimal(now_ms as nat)
}

pub open spec fn selected_view(selected: Option<&str>) -> Option<Seq<char>> {
    match selected {
        Some(s) => Some(s@),
        None => None,
    }
}

pub open spec fn timeframe_or_h1(timeframe: Option<DecisionTimeframe>) -> DecisionTimeframe {
    match timeframe {
        Some(t) => t,
        None => DecisionTimeframe::H1,
    }
}

/// `{runs_root}/{SYMBOL}/Databank`.
pub open spec fn archive_directory(runs_root: Seq<char>, stem: Seq<char>, selected: Option<Seq<char>>) -> Seq<char> {
    path_join(path_join(runs_root, archive_symbol(stem, selected)), "Databank"@)
}

/// `{SYMBOL}_{TF}_{year}_databank_{now_ms}`.
pub open spec fn archive_name_base(
    stem: Seq<char>,
    selected: Option<Seq<char>>,
    timeframe: DecisionTimeframe,
    year: u16,
    now_ms: u64,
) -> Seq<char> {
    archive_base(archive_symbol(stem, selected), timeframe, year, now_ms)
}

/// Collision suffix `k`: none for the first name, `_{k}` after it.
pub open spec fn numbered(base: Seq<char>, sep: Seq<char>, k: nat, extension: Seq<char>) -> Seq<char> {
    if k == 1 { base + extension } else { base + sep + decimal(k) + extension }
}

fn first_segment(stem: &str) -> (r: String)
    ensures
        r@ == stem@.subrange(0, skip_from(stem@, 0, |c: char| c != '_' && c != '-')),
{
    let v = to_char_vec(stem);
    let ghost keep = |c: char| c != '_' && c != '-';
    let mut i: usize = 0;
    while i < v.len() && v[i] != '_' && v[i] != '-'
        invariant
            v@ == stem@,
            i <= v.len(),
            keep == (|c: char| c != '_' && c != '-'),
            skip_from(stem@, 0, keep) == skip_from(stem@, i as int, keep),
        decreases v.len() - i,
    {
        i = i + 1;
    }
    let mut out: Vec<char> = Vec::new();
    let mut k: usize = 0;
    while k < i
        invariant
            v@ == stem@,
            k <= i <= v.len(),
            out@ == stem@.subrange(0, k as int),
        decreases i - k,
    {
        out.push(v[k]);
        k = k + 1;
    }
    from_chars(&out)
}

fn archive_symbol_for(stem: &str, selected: Option<&str>) -> (r: String)
    ensures
        r@ == archive_symbol(stem@, selected_view(selected)),
{
    match selected {
        Some(s) => {
            if !blank(s) {
                return upper_str(s);
            }
        },
        None => {},
    }
    let first = first_segment(stem);
    if first.as_str().unicode_len() > 0 {
        upper_str(first.as_str())
    } else {
        owned("STRATEGY")
    }
}

fn push_collision_name(name: &mut String, base: &str, sep: &str, k: u64, extension: &str)
    requires
        k >= 1,
    ensures
        final(name)@ == old(name)@ + numbered(base@, sep@, k as nat, extension@),
{
    push_str(name, base);
    if k != 1 {
        push_str(name, sep);
        push_decimal(name, k);
    }
    push_str(name, extension);
    proof {
        if k == 1 {
            assert(old(name)@ + base@ + extension@ == old(name)@ + (base@ + extension@));
        } else {
            assert(old(name)@ + base@ + sep@ + decimal(k as nat) + extension@ == old(name)@ + (base@ + sep@ + decimal(k as nat) + extension@));
        }
    }
}

/// The suffix chosen from the answers of probing `k = 1, 2, ...` (`taken[k - 1]`
/// tells whether the `k`-th name is taken): the least free one, or the last
/// one probed when every probed name is taken.
pub open spec fn chosen_suffix(taken: Seq<bool>) -> nat {
    match first_set(free_flags(taken), taken.len() as int) {
        Some(i) => (i + 1) as nat,
        None => if taken.len() >= 1 { taken.len() } else { 1 },
    }
}

/// Probes the names `{directory}/{base}[{sep}{k}]{extension}` for
/// `k = 1, 2, ...` and stops at the first free one: every answer but the last
/// says "taken".
fn probe_numbered(directory: &str, base: &str, sep: &str, extension: &str) -> (taken: Vec<bool>)
    ensures
        1 <= taken.len() < u64::MAX,
        forall|i: int| 0 <= i < taken.len() - 1 ==> #[trigger] taken@[i],
{
    let mut taken: Vec<bool> = Vec::new();
    let mut probed: u64 = 0;
    loop
        invariant_except_break
            probed < u64::MAX - 1,
            forall|i: int| 0 <= i < taken.len() ==> #[trigger] taken@[i],
        invariant
            taken.len() == probed,
        ensures
            taken.len() == probed,
            1 <= probed < u64::MAX,
            forall|i: int| 0 <= i < taken.len() - 1 ==> #[trigger] taken@[i],
        decreases u64::MAX - probed,
    {
        let k = probed + 1;
        let mut name = String::new();
        push_collision_name(&mut name, base, sep, k, extension);
        let candidate = join(directory, name.as_str());
        let exists_now = path_exists(candidate.as_str());
        taken.push(exists_now);
        probed = k;
        if !exists_now || probed >= u64::MAX - 2 {
            break;
        }
    }
    taken
}

/// The name `{directory}/{base}[{sep}{k}]{extension}` with `k` the
/// `chosen_suffix` of the probe answers.
pub fn numbered_choice(directory: &str, base: &str, sep: &str, extension: &str, taken: &Vec<bool>) -> (r: String)
    requires
        taken.len() < u64::MAX,
    ensures
        r@ == path_join(directory@, numbered(base@, sep@, chosen_suffix(taken@), extension@)),
        plain_name(numbered(base@, sep@, chosen_suffix(taken@), extension@))
            ==> path_file_name(r@) == Some(numbered(base@, sep@, chosen_suffix(taken@), extension@)),
{
    proof {
        lemma_first_set_is_least(free_flags(taken@), taken.len() as int);
    }
    let k: u64 = match least_free_suffix(taken) {
        Some(k) => k,
        None => if taken.len() >= 1 { taken.len() as u64 } else { 1 },
    };
    let mut name = String::new();
    push_collision_name(&mut name, base, sep, k, extension);
    join(directory, name.as_str())
}

/// The first collision-free name `{directory}/{base}[{sep}{k}]{extension}`:
/// names are probed for `k = 1, 2, ...` until one is free, and the least
/// suffix whose name was free is chosen from the answers (`numbered_choice`).
fn first_free_numbered(directory: &str, base: &str, sep: &str, extension: &str) -> (r: String)
    ensures
        exists|taken: Seq<bool>| 1 <= taken.len() && (forall|i: int| 0 <= i < taken.len() - 1 ==> #[trigger] taken[i])
            && r@ == path_join(directory@, #[trigger] numbered(base@, sep@, chosen_suffix(taken), extension@)),
        exists|k: nat| k >= 1 && r@ == path_join(directory@, #[trigger] numbered(base@, sep@, k, extension@)),
{
    let taken = probe_numbered(directory, base, sep, extension);
    let chosen = numbered_choice(directory, base, sep, extension, &taken);
    proof {
        lemma_first_set_is_least(free_flags(taken@), taken.len() as int);
        let k = chosen_suffix(taken@);
        assert(k >= 1);
        assert(chosen@ == path_join(directory@, numbered(base@, sep@, k, extension@)));
    }
    chosen
}

/// A collision-free path for a new Discover archive under
/// `{runs_root}/{SYMBOL}/Databank`. `now_ms` is the current Unix time.
pub fn automatic_databank_path(
    data_path: &str,
    selected_symbol: Option<&str>,
    decision_timeframe: Option<DecisionTimeframe>,
    history_start_year: u16,
    runs_root: &str,
    now_ms: u64,
) -> (r: Result<String, String>)
    ensures
        (path_file_stem(data_path@) is None || is_blank(path_file_stem(data_path@)->0)) ==> (r matches Err(e)
            && e@ == "cannot derive an archive name from decision OHLC path"@),
        match path_file_stem(data_path@) {
            Some(stem) => !is_blank(stem) ==> (r matches Ok(p) && exists|k: nat| k >= 1 && p@ == path_join(
                archive_directory(runs_root@, stem, selected_view(selected_symbol)),
                #[trigger] numbered(archive_name_base(stem, selected_view(selected_symbol),
                    timeframe_or_h1(decision_timeframe), history_start_year, now_ms), "_"@, k, ".json"@))),
            None => true,
        },
{
    let stem = match file_stem(data_path) {
        Some(stem) => stem,
        None => return Err(owned("cannot derive an archive name from decision OHLC path")),
    };
    if blank(stem.as_str()) {
        return Err(owned("cannot derive an archive name from decision OHLC path"));
    }
    let symbol = archive_symbol_for(stem.as_str(), selected_symbol);
    let timeframe = match decision_timeframe {
        Some(t) => t,
        None => DecisionTimeframe::H1,
    };
    let symbol_dir = join(runs_root, symbol.as_str());
    let directory = join(symbol_dir.as_str(), "Databank");
    let mut base = symbol.clone();
    push_str(&mut base, "_");
    push_str(&mut base, timeframe.label());
    push_str(&mut base, "_");
    push_decimal(&mut base, history_start_year as u64);
    push_str(&mut base, "_databank_");
    push_decimal(&mut base, now_ms);
    let candidate = first_free_numbered(directory.as_str(), base.as_str(), "_", ".json");
    proof {
        let sel = selected_view(selected_symbol);
        assert(symbol@ == archive_symbol(stem@, sel));
        assert(base@ == archive_name_base(stem@, sel, timeframe_or_h1(decision_timeframe), history_start_year, now_ms));
        assert(directory@ == archive_directory(runs_root@, stem@, sel));
    }
    Ok(candidate)
}

pub open spec fn snapshot_directory(path: Seq<char>) -> Seq<char> {
    match path_parent(path) {
        Some(p) => p,
        None => "."@,
    }
}

pub open spec fn snapshot_stem(path: Seq<char>) -> Seq<char> {
    match path_file_stem(path) {
        Some(s) => s,
        None => "quantforge-databank"@,
    }
}

/// Separator-free texts stay separator-free when joined.
proof fn lemma_separator_free_concat(a: Seq<char>, b: Seq<char>)
    requires
        separator_free(a),
        separator_free(b),
    ensures
        separator_free(a + b),
{
    assert forall|c: char| c == '/' || c == '\\' || c == ':' implies !(a + b).contains(c) by {
        if (a + b).contains(c) {
            let i = choose|i: int| 0 <= i < (a + b).len() && (a + b)[i] == c;
            if i < a.len() {
                assert(a[i] == c);
            } else {
                assert(b[i - a.len()] == c);
            }
        }
    }
}

proof fn lemma_decimal_separator_free(n: nat)
    ensures
        separator_free(decimal(n)),
        forall|i: int| 0 <= i < decimal(n).len() ==> is_ascii_digit(#[trigger] decimal(n)[i]),
    decreases n,
{
    if n >= 10 {
        lemma_decimal_separator_free(n / 10);
        let d = decimal(n / 10);
        assert forall|i: int| 0 <= i < decimal(n).len() implies is_ascii_digit(#[trigger] decimal(n)[i]) by {
            if i < d.len() {
                assert(decimal(n)[i] == d[i]);
            }
        }
    }
    assert forall|c: char| c == '/' || c == '\\' || c == ':' implies !decimal(n).contains(c) by {
        if decimal(n).contains(c) {
            let i = choose|i: int| 0 <= i < decimal(n).len() && decimal(n)[i] == c;
            assert(is_ascii_digit(decimal(n)[i]));
        }
    }
}

proof fn lemma_literals_separator_free()
    ensures
        separator_free("."@),
        separator_free(".json"@),
        separator_free("quantforge-databank"@),
        "."@.len() == 1,
        ".."@.len() == 2,
        ".json"@.len() == 5,
        ".json"@[0] == '.',
        forall|i: int| 1 <= i < 5 ==> ".json"@[i] != '.',
{
    reveal_strlit(".");
    reveal_strlit("..");
    reveal_strlit(".json");
    reveal_strlit("quantforge-databank");
    assert forall|c: char| c == '/' || c == '\\' || c == ':' implies !"."@.contains(c) by {
        if "."@.contains(c) {
            let i = choose|i: int| 0 <= i < "."@.len() && "."@[i] == c;
        }
    }
    assert forall|c: char| c == '/' || c == '\\' || c == ':' implies !".json"@.contains(c) by {
        if ".json"@.contains(c) {
            let i = choose|i: int| 0 <= i < ".json"@.len() && ".json"@[i] == c;
        }
    }
    assert forall|c: char| c == '/' || c == '\\' || c == ':' implies !"quantforge-databank"@.contains(c) by {
        if "quantforge-databank"@.contains(c) {
            let i = choose|i: int| 0 <= i < "quantforge-databank"@.len() && "quantforge-databank"@[i] == c;
        }
    }
}

/// The last `.` of `m + t`, where `t` starts with the only `.` it holds, is
/// the one that starts `t`.
proof fn lemma_last_dot_of_suffix(m: Seq<char>, t: Seq<char>)
    requires
        t.len() > 0,
        t[0] == '.',
        forall|i: int| 1 <= i < t.len() ==> t[i] != '.',
    ensures
        last_dot(m + t) == Some(m.len() as int),
    decreases t.len(),
{
    if t.len() == 1 {
        assert((m + t).last() == t[0]);
    } else {
        let shorter = t.drop_last();
        assert forall|i: int| 1 <= i < shorter.len() implies shorter[i] != '.' by {
            assert(shorter[i] == t[i]);
        }
        lemma_last_dot_of_suffix(m, shorter);
        assert((m + t).drop_last() =~= m + shorter);
        assert((m + t).last() == t[t.len() - 1]);
    }
}

/// The name an immutable snapshot of `databank_path` starts with:
/// `{stem}.{reason}.{stamp}`.
pub open spec fn snapshot_base(databank_path: Seq<char>, reason: Seq<char>, stamp: Seq<char>) -> Seq<char> {
    snapshot_stem(databank_path) + "."@ + reason + "."@ + stamp
}

/// The snapshot path of `databank_path` for a clock reading and the answers of
/// probing its numbered names (`taken[k - 1]` for the `k`-th):
/// `{stem}.{reason}.{stamp}[.{k}].json` in the archive's folder, with `k` the
/// `chosen_suffix` of the answers; refused when chrono cannot render the
/// reading. When the stem and the reason hold no separator, the snapshot is
/// never the archive itself.
pub fn immutable_snapshot_path_at(databank_path: &str, reason: &str, secs: i64, nanos: u32, taken: &Vec<bool>) -> (r: Result<String, String>)
    requires
        taken.len() < u64::MAX,
    ensures
        match snapshot_stamp_text(secs, nanos) {
            None => r matches Err(m) && m@ == clock_unavailable(),
            Some(stamp) => r matches Ok(p) && p@ == path_join(snapshot_directory(databank_path@),
                numbered(snapshot_base(databank_path@, reason@, stamp), "."@, chosen_suffix(taken@), ".json"@)),
        },
        r matches Ok(p) ==> (separator_free(snapshot_stem(databank_path@)) && separator_free(reason@)
            ==> p@ != databank_path@),
{
    let directory = match parent(databank_path) {
        Some(p) => p,
        None => owned("."),
    };
    let stem_of_path = file_stem(databank_path);
    let ghost stem_view: Option<Seq<char>> = opt_text(stem_of_path);
    let stem = match stem_of_path {
        Some(s) => s,
        None => owned("quantforge-databank"),
    };
    let stamp = match snapshot_stamp_at(secs, nanos) {
        Some(stamp) => stamp,
        None => return Err(owned("system clock reads before the Unix epoch or beyond the supported range")),
    };
    let mut base = stem.clone();
    push_str(&mut base, ".");
    push_str(&mut base, reason);
    push_str(&mut base, ".");
    push_str(&mut base, stamp.as_str());
    let candidate = numbered_choice(directory.as_str(), base.as_str(), ".", ".json", taken);
    proof {
        let dir = snapshot_directory(databank_path@);
        let st = snapshot_stem(databank_path@);
        assert(directory@ == dir);
        assert(stem@ == st);
        assert(base@ == snapshot_base(databank_path@, reason@, stamp@));
        lemma_first_set_is_least(free_flags(taken@), taken.len() as int);
        let k = chosen_suffix(taken@);
        assert(k >= 1);
        if separator_free(st) && separator_free(reason@) {
            lemma_literals_separator_free();
            lemma_separator_free_concat(st, "."@);
            lemma_separator_free_concat(st + "."@, reason@);
            lemma_separator_free_concat(st + "."@ + reason@, "."@);
            lemma_separator_free_concat(st + "."@ + reason@ + "."@, stamp@);
            let m = if k == 1 { base@ } else { base@ + "."@ + decimal(k) };
            if k != 1 {
                lemma_decimal_separator_free(k);
                lemma_separator_free_concat(base@, "."@);
                lemma_separator_free_concat(base@ + "."@, decimal(k));
            }
            let name = numbered(base@, "."@, k, ".json"@);
            assert(name == m + ".json"@);
            lemma_separator_free_concat(m, ".json"@);
            assert(m.len() >= st.len() + 2);
            assert(name.len() >= 7);
            assert(plain_name(name));
            assert(path_file_name(candidate@) == Some(name));
            lemma_last_dot_of_suffix(m, ".json"@);
            assert(name_stem(name) =~= m);
            match stem_view {
                Some(sv) => {
                    assert(sv == st);
                    if candidate@ == databank_path@ {
                        assert(path_file_name(databank_path@) == Some(name));
                        assert(sv == name_stem(name));
                        assert(false);
                    }
                },
                None => {
                    assert(path_file_name(databank_path@) is None);
                },
            }
        }
    }
    Ok(candidate)
}

/// An immutable snapshot path beside a working archive: the clock is read,
/// the numbered names `{stem}.{reason}.{stamp}[.{k}].json` are probed until
/// one is free, and `immutable_snapshot_path_at` makes the path from the
/// reading and the answers. Refused when the system clock gives no reading.
pub fn immutable_snapshot_path(databank_path: &str, reason: &str) -> (r: Result<String, String>)
    ensures
        r matches Ok(p) ==> exists|secs: i64, nanos: u32, stamp: Seq<char>, k: nat|
            #![trigger snapshot_stamp_text(secs, nanos), numbered(snapshot_base(databank_path@, reason@, stamp), "."@, k, ".json"@)]
            snapshot_stamp_text(secs, nanos) == Some(stamp) && k >= 1
            && p@ == path_join(snapshot_directory(databank_path@),
                numbered(snapshot_base(databank_path@, reason@, stamp), "."@, k, ".json"@)),
        r matches Err(m) ==> m@ == clock_unavailable(),
        r matches Ok(p) ==> (separator_free(snapshot_stem(databank_path@)) && separator_free(reason@)
            ==> p@ != databank_path@),
{
    let reading = match clock_reading() {
        Some(reading) => reading,
        None => return Err(owned("system clock reads before the Unix epoch or beyond the supported range")),
    };
    let stamp = match snapshot_stamp_at(reading.secs, reading.nanos) {
        Some(stamp) => stamp,
        None => return Err(owned("system clock reads before the Unix epoch or beyond the supported range")),
    };
    let directory = match parent(databank_path) {
        Some(p) => p,
        None => owned("."),
    };
    let stem = match file_stem(databank_path) {
        Some(s) => s,
        None => owned("quantforge-databank"),
    };
    let mut base = stem;
    push_str(&mut base, ".");
    push_str(&mut base, reason);
    push_str(&mut base, ".");
    push_str(&mut base, stamp.as_str());
    let taken = probe_numbered(directory.as_str(), base.as_str(), ".", ".json");
    let r = immutable_snapshot_path_at(databank_path, reason, reading.secs, reading.nanos, &taken);
    proof {
        lemma_first_set_is_least(free_flags(taken@), taken.len() as int);
        let k = chosen_suffix(taken@);
        assert(k >= 1);
        assert(snapshot_stamp_text(reading.secs, reading.nanos) == Some(stamp@));
        let st = snapshot_base(databank_path@, reason@, stamp@);
        assert(numbered(st, "."@, k, ".json"@) == numbered(st, "."@, k, ".json"@));
    }
    r
}

} // verus!
