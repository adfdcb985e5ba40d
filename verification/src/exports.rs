//! Batch exports from a loaded databank: which selections are accepted, the
//! magic numbers and names each exported expert gets, the file names of
//! strategy and trade-CSV exports, and the partition label of every trade.
use vstd::prelude::*;
use crate::databank::{safe_file_stem, safe_stem, DesktopError};
use crate::paths::{join, path_join};
use crate::probes::{first_set, lemma_first_set_stays};
use crate::text::{alnum, decimal, from_chars, is_ascii_alnum, owned, push_decimal, push_str, str_eq, string_views, to_char_vec, trim, trim_str, upper_seq, upper_str, utf8_len, utf8_width};

verus! {

/// Some fingerprint occurs twice.
pub open spec fn has_duplicates(values: Seq<Seq<char>>) -> bool {
    exists|i: int, j: int| 0 <= i < j < values.len() && values[i] == values[j]
}

fn contains_duplicates(values: &Vec<String>) -> (r: bool)
    ensures
        r == has_duplicates(string_views(values@)),
{
    let ghost view = string_views(values@);
    let mut j: usize = 0;
    while j < values.len()
        invariant
            view == string_views(values@),
            j <= values.len(),
            forall|a: int, b: int| 0 <= a < b < j ==> view[a] != view[b],
        decreases values.len() - j,
    {
        let mut i: usize = 0;
        while i < j
            invariant
                view == string_views(values@),
                i <= j < values.len(),
                forall|a: int| 0 <= a < i ==> view[a] != view[j as int],
            decreases j - i,
        {
            if str_eq(values[i].as_str(), values[j].as_str()) {
                assert(view[i as int] == view[j as int]);
                return true;
            }
            i = i + 1;
        }
        j = j + 1;
    }
    false
}

/// The refusal of a batch selection, if any: nothing selected, a destination
/// that is not an existing directory, or a fingerprint selected twice, in
/// that order.
pub open spec fn batch_refusal(fingerprints: Seq<Seq<char>>, directory_is_dir: bool, directory: Seq<char>) -> Option<Seq<char>> {
    if fingerprints.len() == 0 {
        Some("select at least one elite"@)
    } else if !directory_is_dir {
        Some(directory + " is not an existing directory"@)
    } else if has_duplicates(fingerprints) {
        Some("the selection contains duplicate fingerprints"@)
    } else {
        None
    }
}

/// Checks a strategy or expert batch before anything is looked up.
pub fn check_batch_export(fingerprints: &Vec<String>, directory_is_dir: bool, directory: &str) -> (r: Result<(), DesktopError>)
    ensures
        match batch_refusal(string_views(fingerprints@), directory_is_dir, directory@) {
            None => r is Ok,
            Some(detail) => (r matches Err(DesktopError::InvalidExport(d)) && d@ == detail),
        },
{
    if fingerprints.len() == 0 {
        return Err(DesktopError::InvalidExport(owned("select at least one elite")));
    }
    if !directory_is_dir {
        let mut detail = owned(directory);
        push_str(&mut detail, " is not an existing directory");
        return Err(DesktopError::InvalidExport(detail));
    }
    if contains_duplicates(fingerprints) {
        return Err(DesktopError::InvalidExport(owned("the selection contains duplicate fingerprints")));
    }
    Ok(())
}

/// A trade-CSV selection is checked for emptiness and duplicates first; the
/// destination directory is checked when the export starts.
pub fn check_trade_csv_selection(fingerprints: &Vec<String>) -> (r: Result<(), DesktopError>)
    ensures
        fingerprints.len() == 0 ==> (r matches Err(DesktopError::InvalidExport(d)) && d@ == "select at least one elite"@),
        fingerprints.len() > 0 && has_duplicates(string_views(fingerprints@)) ==> (r matches Err(DesktopError::InvalidExport(d))
            && d@ == "the selection contains duplicate fingerprints"@),
        fingerprints.len() > 0 && !has_duplicates(string_views(fingerprints@)) ==> r is Ok,
{
    if fingerprints.len() == 0 {
        return Err(DesktopError::InvalidExport(owned("select at least one elite")));
    }
    if contains_duplicates(fingerprints) {
        return Err(DesktopError::InvalidExport(owned("the selection contains duplicate fingerprints")));
    }
    Ok(())
}

/// The magic number of the last expert: `base + count - 1`. The base must be
/// positive and the range must fit in `u64`.
pub fn magic_range(base_magic: u64, count: usize) -> (r: Result<u64, DesktopError>)
    ensures
        base_magic == 0 ==> (r matches Err(DesktopError::InvalidExport(d)) && d@ == "base magic must be greater than zero"@),
        base_magic > 0 && base_magic + (if count > 0 { count - 1 } else { 0 }) > u64::MAX ==> (r matches Err(DesktopError::InvalidExport(d))
            && d@ == "base magic is too large"@),
        base_magic > 0 && base_magic + (if count > 0 { count - 1 } else { 0 }) <= u64::MAX ==> r == Ok::<u64, DesktopError>(
            (base_magic + (if count > 0 { count - 1 } else { 0 })) as u64),
{
    if base_magic == 0 {
        return Err(DesktopError::InvalidExport(owned("base magic must be greater than zero")));
    }
    let extra: u64 = if count > 0 { (count - 1) as u64 } else { 0 };
    let last = match base_magic.checked_add(extra) {
        Some(v) => v,
        None => return Err(DesktopError::InvalidExport(owned("base magic is too large"))),
    };
    if last == 0 {
        return Err(DesktopError::InvalidExport(owned("base magic range may not include zero")));
    }
    Ok(last)
}

/// Names given so far, and the set of names taken, when each preferred name
/// is used unless already taken, else `<preferred>_<magic>`; both are taken.
pub open spec fn expert_names_upto(preferred: Seq<Seq<char>>, base_magic: int, n: int) -> (Seq<Seq<char>>, Set<Seq<char>>)
    decreases n,
{
    if n <= 0 {
        (Seq::empty(), Set::empty())
    } else {
        let (names, used) = expert_names_upto(preferred, base_magic, n - 1);
        let p = preferred[n - 1];
        if !used.contains(p) {
            (names.push(p), used.insert(p))
        } else {
            let fallback = p + "_"@ + decimal((base_magic + n - 1) as nat);
            (names.push(fallback), used.insert(p).insert(fallback))
        }
    }
}

proof fn lemma_push_to_set(s: Seq<Seq<char>>, x: Seq<char>)
    ensures
        s.push(x).to_set() =~= s.to_set().insert(x),
{
    assert forall|a: Seq<char>| #[trigger] s.push(x).to_set().contains(a) == s.to_set().insert(x).contains(a) by {
        if s.contains(a) {
            let k = choose|k: int| 0 <= k < s.len() && s[k] == a;
            assert(s.push(x)[k] == a);
        }
        if a == x {
            assert(s.push(x)[s.len() as int] == x);
        }
        if s.push(x).contains(a) {
            let k = choose|k: int| 0 <= k < s.push(x).len() && s.push(x)[k] == a;
            if k < s.len() {
                assert(s[k] == a);
            }
        }
    }
}

fn taken(used: &Vec<String>, name: &str) -> (r: bool)
    ensures
        r == string_views(used@).contains(name@),
{
    let mut i: usize = 0;
    while i < used.len()
        invariant
            i <= used.len(),
            forall|k: int| 0 <= k < i ==> string_views(used@)[k] != name@,
        decreases used.len() - i,
    {
        if str_eq(used[i].as_str(), name) {
            assert(string_views(used@)[i as int] == name@);
            return true;
        }
        i = i + 1;
    }
    false
}

/// The expert names of a batch, given each strategy's suggested name; the
/// magic number of entry `i` is `base_magic + i`.
pub fn expert_names(preferred: &Vec<String>, base_magic: u64) -> (r: Vec<String>)
    requires
        base_magic + preferred.len() <= u64::MAX,
    ensures
        string_views(r@) == expert_names_upto(string_views(preferred@), base_magic as int, preferred.len() as int).0,
{
    let mut names: Vec<String> = Vec::new();
    let mut used: Vec<String> = Vec::new();
    let mut i: usize = 0;
    while i < preferred.len()
        invariant
            base_magic + preferred.len() <= u64::MAX,
            i <= preferred.len(),
            string_views(names@) == expert_names_upto(string_views(preferred@), base_magic as int, i as int).0,
            string_views(used@).to_set() == expert_names_upto(string_views(preferred@), base_magic as int, i as int).1,
        decreases preferred.len() - i,
    {
        let ghost before_names = string_views(names@);
        let ghost before_used = string_views(used@);
        let p = &preferred[i];
        if !taken(&used, p.as_str()) {
            assert(!before_used.to_set().contains(p@));
            names.push(p.clone());
            used.push(p.clone());
            proof {
                assert(string_views(names@) =~= before_names.push(p@));
                assert(string_views(used@) =~= before_used.push(p@));
                lemma_push_to_set(before_used, p@);
            }
        } else {
            assert(before_used.to_set().contains(p@));
            let mut fallback = p.clone();
            push_str(&mut fallback, "_");
            push_decimal(&mut fallback, base_magic + i as u64);
            names.push(fallback.clone());
            used.push(fallback);
            proof {
                assert(string_views(names@) =~= before_names.push(p@ + "_"@ + decimal((base_magic + i) as nat)));
                let f = p@ + "_"@ + decimal((base_magic + i) as nat);
                assert(string_views(used@) =~= before_used.push(f));
                lemma_push_to_set(before_used, f);
                assert(before_used.to_set().insert(p@) =~= before_used.to_set());
            }
        }
        i = i + 1;
    }
    names
}

/// Distinct suggested names are used as they are; a fallback name appears
/// only for a suggestion repeated within the batch.
pub proof fn lemma_distinct_suggestions_are_kept(preferred: Seq<Seq<char>>, base_magic: int, n: int)
    requires
        0 <= n <= preferred.len(),
        forall|a: int, b: int| 0 <= a < b < preferred.len() ==> preferred[a] != preferred[b],
    ensures
        expert_names_upto(preferred, base_magic, n).0 == preferred.subrange(0, n),
        expert_names_upto(preferred, base_magic, n).1 == preferred.subrange(0, n).to_set(),
    decreases n,
{
    if n > 0 {
        lemma_distinct_suggestions_are_kept(preferred, base_magic, n - 1);
        let prefix = preferred.subrange(0, n - 1);
        assert(!prefix.to_set().contains(preferred[n - 1])) by {
            if prefix.contains(preferred[n - 1]) {
                let k = choose|k: int| 0 <= k < prefix.len() && prefix[k] == preferred[n - 1];
                assert(preferred[k] == preferred[n - 1]);
            }
        }
        assert(preferred.subrange(0, n) =~= prefix.push(preferred[n - 1]));
        lemma_push_to_set(prefix, preferred[n - 1]);
    } else {
        assert(preferred.subrange(0, 0).to_set() =~= Set::<Seq<char>>::empty());
    }
}

/// At most the first `n` characters.
pub open spec fn first_chars(s: Seq<char>, n: nat) -> Seq<char> {
    if s.len() <= n { s } else { s.subrange(0, n as int) }
}

/// `<symbol>_<strategy id>_<first 8 of fingerprint>`, made portable.
pub open spec fn trade_csv_stem(symbol: Seq<char>, strategy_id: Seq<char>, fingerprint: Seq<char>) -> Seq<char> {
    safe_stem(symbol) + "_"@ + safe_stem(strategy_id) + "_"@ + first_chars(fingerprint, 8)
}

fn take_chars(s: &str, n: usize) -> (r: String)
    ensures
        r@ == first_chars(s@, n as nat),
{
    let chars = to_char_vec(s);
    let mut out: Vec<char> = Vec::new();
    let mut i: usize = 0;
    while i < chars.len() && i < n
        invariant
            chars@ == s@,
            i <= chars.len(),
            i <= n,
            out@ == s@.subrange(0, i as int),
        decreases chars.len() - i,
    {
        out.push(chars[i]);
        proof {
            assert(s@.subrange(0, i + 1) == s@.subrange(0, i as int).push(s@[i as int]));
        }
        i = i + 1;
    }
    proof {
        if s@.len() <= n {
            assert(s@.subrange(0, s@.len() as int) == s@);
        }
    }
    from_chars(&out)
}

pub fn trade_csv_preferred_stem(symbol: &str, strategy_id: &str, fingerprint: &str) -> (r: String)
    ensures
        r@ == trade_csv_stem(symbol@, strategy_id@, fingerprint@),
{
    let mut stem = safe_file_stem(symbol);
    push_str(&mut stem, "_");
    let id = safe_file_stem(strategy_id);
    push_str(&mut stem, id.as_str());
    push_str(&mut stem, "_");
    let suffix = take_chars(fingerprint, 8);
    push_str(&mut stem, suffix.as_str());
    stem
}

/// Stems given so far when a repeated stem becomes `<stem>_<position>`,
/// counting from one; only the preferred stems are remembered as taken.
pub open spec fn csv_stems_upto(preferred: Seq<Seq<char>>, n: int) -> (Seq<Seq<char>>, Set<Seq<char>>)
    decreases n,
{
    if n <= 0 {
        (Seq::empty(), Set::empty())
    } else {
        let (stems, used) = csv_stems_upto(preferred, n - 1);
        let p = preferred[n - 1];
        if !used.contains(p) {
            (stems.push(p), used.insert(p))
        } else {
            (stems.push(p + "_"@ + decimal(n as nat)), used)
        }
    }
}

/// The CSV stems of a trade export, given each strategy's preferred stem.
pub fn trade_csv_stems(preferred: &Vec<String>) -> (r: Vec<String>)
    ensures
        string_views(r@) == csv_stems_upto(string_views(preferred@), preferred.len() as int).0,
{
    let mut stems: Vec<String> = Vec::new();
    let mut used: Vec<String> = Vec::new();
    let mut i: usize = 0;
    while i < preferred.len()
        invariant
            i <= preferred.len(),
            string_views(stems@) == csv_stems_upto(string_views(preferred@), i as int).0,
            string_views(used@).to_set() == csv_stems_upto(string_views(preferred@), i as int).1,
        decreases preferred.len() - i,
    {
        let ghost before_stems = string_views(stems@);
        let ghost before_used = string_views(used@);
        let p = &preferred[i];
        if !taken(&used, p.as_str()) {
            stems.push(p.clone());
            used.push(p.clone());
            proof {
                assert(string_views(stems@) =~= before_stems.push(p@));
                assert(string_views(used@) =~= before_used.push(p@));
                lemma_push_to_set(before_used, p@);
            }
        } else {
            let mut fallback = p.clone();
            push_str(&mut fallback, "_");
            push_decimal(&mut fallback, (i + 1) as u64);
            stems.push(fallback);
            proof {
                assert(string_views(stems@) =~= before_stems.push(p@ + "_"@ + decimal((i + 1) as nat)));
            }
        }
        i = i + 1;
    }
    stems
}

/// Where a trade export writes its CSVs and their index.
pub fn trade_csv_paths(directory: &str, stems: &Vec<String>) -> (r: (Vec<String>, String))
    ensures
        r.0.len() == stems.len(),
        forall|i: int| 0 <= i < stems.len() ==> #[trigger] r.0@[i]@ == path_join(directory@, stems@[i]@ + ".csv"@),
        r.1@ == path_join(directory@, "quantforge-strategy-csv-index.csv"@),
{
    let mut paths: Vec<String> = Vec::new();
    let mut i: usize = 0;
    while i < stems.len()
        invariant
            i <= stems.len(),
            paths.len() == i,
            forall|k: int| 0 <= k < i ==> #[trigger] paths@[k]@ == path_join(directory@, stems@[k]@ + ".csv"@),
        decreases stems.len() - i,
    {
        let mut name = stems[i].clone();
        push_str(&mut name, ".csv");
        paths.push(join(directory, name.as_str()));
        i = i + 1;
    }
    (paths, join(directory, "quantforge-strategy-csv-index.csv"))
}

fn char_width(c: char) -> (r: usize)
    ensures
        r == utf8_width(c),
{
    if '\u{80}' > c {
        1
    } else if '\u{800}' > c {
        2
    } else if '\u{10000}' > c {
        3
    } else {
        4
    }
}

proof fn lemma_prefix_bytes_grow(s: Seq<char>, i: int, j: int)
    requires
        0 <= i <= j <= s.len(),
    ensures
        utf8_len(s.subrange(0, i)) <= utf8_len(s.subrange(0, j)),
        i < j ==> utf8_len(s.subrange(0, i)) < utf8_len(s.subrange(0, j)),
    decreases j - i,
{
    if i < j {
        lemma_prefix_bytes_grow(s, i, j - 1);
        assert(s.subrange(0, j).drop_last() == s.subrange(0, j - 1));
    }
}

/// The text has at most `n` bytes, or a character boundary falls at byte `n`.
pub open spec fn has_byte_boundary(s: Seq<char>, n: nat) -> bool {
    utf8_len(s) <= n || exists|k: int| 0 <= k <= s.len() && #[trigger] utf8_len(s.subrange(0, k)) == n
}

/// The prefix of the text holding its first `min(n, byte length)` bytes
/// (a unique prefix when a character boundary falls there).
pub open spec fn leading_bytes(s: Seq<char>, n: nat) -> Seq<char> {
    let want = if utf8_len(s) <= n { utf8_len(s) } else { n };
    let k = choose|k: int| 0 <= k <= s.len() && utf8_len(s.subrange(0, k)) == want;
    s.subrange(0, k)
}

/// The first `min(n, len)` bytes of the text, which must end on a character boundary.
fn byte_prefix(s: &str, n: usize) -> (r: String)
    requires
        has_byte_boundary(s@, n as nat),
        n <= 1024,
    ensures
        r@ == leading_bytes(s@, n as nat),
{
    let chars = to_char_vec(s);
    let mut total: usize = 0;
    let mut i: usize = 0;
    while i < chars.len() && total + char_width(chars[i]) <= n
        invariant
            chars@ == s@,
            i <= chars.len(),
            n <= 1024,
            total <= n,
            total == utf8_len(s@.subrange(0, i as int)),
        decreases chars.len() - i,
    {
        proof {
            assert(s@.subrange(0, i + 1).drop_last() == s@.subrange(0, i as int));
        }
        total = total + char_width(chars[i]);
        i = i + 1;
    }
    proof {
        if i == chars.len() {
            assert(s@.subrange(0, i as int) == s@);
        } else {
            assert(s@.subrange(0, i + 1).drop_last() == s@.subrange(0, i as int));
            assert(utf8_len(s@.subrange(0, i + 1)) > n);
            lemma_prefix_bytes_grow(s@, i + 1, s@.len() as int);
            assert(s@.subrange(0, s@.len() as int) == s@);
            assert(utf8_len(s@) > n);
            let k = choose|k: int| 0 <= k <= s@.len() && #[trigger] utf8_len(s@.subrange(0, k)) == n;
            if k <= i {
                lemma_prefix_bytes_grow(s@, k, i as int);
            } else {
                lemma_prefix_bytes_grow(s@, i + 1, k);
            }
        }
    }
    proof {
        let want = if utf8_len(s@) <= n { utf8_len(s@) } else { n as nat };
        assert(utf8_len(s@.subrange(0, i as int)) == want);
        let k = choose|k: int| 0 <= k <= s@.len() && utf8_len(s@.subrange(0, k)) == want;
        if k < i as int {
            lemma_prefix_bytes_grow(s@, k, i as int);
        } else if k > i as int {
            lemma_prefix_bytes_grow(s@, i as int, k);
        }
        assert(k == i as int);
    }
    let mut out: Vec<char> = Vec::new();
    let mut j: usize = 0;
    while j < i
        invariant
            chars@ == s@,
            i <= chars.len(),
            j <= i,
            out@ == s@.subrange(0, j as int),
        decreases i - j,
    {
        out.push(chars[j]);
        proof {
            assert(s@.subrange(0, j + 1) == s@.subrange(0, j as int).push(s@[j as int]));
        }
        j = j + 1;
    }
    from_chars(&out)
}

/// `<safe strategy id>.<first 12 bytes of fingerprint>.strategy.ir.json`.
pub fn strategy_ir_file_name(strategy_id: &str, fingerprint: &str) -> (r: String)
    requires
        has_byte_boundary(fingerprint@, 12),
    ensures
        r@ == safe_stem(strategy_id@) + "."@ + leading_bytes(fingerprint@, 12) + ".strategy.ir.json"@,
{
    let mut name = safe_file_stem(strategy_id);
    push_str(&mut name, ".");
    let prefix = byte_prefix(fingerprint, 12);
    push_str(&mut name, prefix.as_str());
    push_str(&mut name, ".strategy.ir.json");
    name
}

/// The first planned file that already exists refuses the export; strategy
/// exports ask for an empty folder, the others for a rename.
pub open spec fn conflict_text(path: Seq<char>, empty_folder: bool) -> Seq<char> {
    if empty_folder {
        path + " already exists; choose an empty folder"@
    } else {
        path + " already exists; rename or remove it, then export again"@
    }
}

/// Refuses an export when a planned file is already on disk; `exists[i]`
/// tells whether `paths[i]` exists.
pub fn check_export_conflicts(paths: &Vec<String>, exists: &Vec<bool>, empty_folder: bool) -> (r: Result<(), DesktopError>)
    requires
        paths.len() == exists.len(),
    ensures
        match first_set(exists@, exists.len() as int) {
            None => r is Ok,
            Some(i) => (r matches Err(DesktopError::InvalidExport(d)) && d@ == conflict_text(paths@[i]@, empty_folder)),
        },
{
    let mut i: usize = 0;
    while i < paths.len()
        invariant
            paths.len() == exists.len(),
            i <= paths.len(),
            first_set(exists@, i as int) is None,
        decreases paths.len() - i,
    {
        if exists[i] {
            let mut detail = paths[i].clone();
            if empty_folder {
                push_str(&mut detail, " already exists; choose an empty folder");
            } else {
                push_str(&mut detail, " already exists; rename or remove it, then export again");
            }
            proof {
                assert(first_set(exists@, i + 1) == Some(i as int));
                lemma_first_set_stays(exists@, i + 1, exists.len() as int);
            }
            return Err(DesktopError::InvalidExport(detail));
        }
        i = i + 1;
    }
    Ok(())
}

/// The partition a trade belongs to by its entry time: In-Sample before the
/// Development end, OOS1 before the validation end, OOS2 after.
pub fn trade_sample_label(entry_ms: i64, is_end_ms: i64, oos1_end_ms: i64) -> (r: &'static str)
    ensures
        entry_ms < is_end_ms ==> r@ == "IS"@,
        is_end_ms <= entry_ms < oos1_end_ms ==> r@ == "OOS1"@,
        is_end_ms <= entry_ms && oos1_end_ms <= entry_ms ==> r@ == "OOS2"@,
{
    if entry_ms < is_end_ms {
        "IS"
    } else if entry_ms < oos1_end_ms {
        "OOS1"
    } else {
        "OOS2"
    }
}

/// Tickets are even numbers counting from two, one per trade.
pub fn trade_ticket(index: usize) -> (r: u64)
    requires
        index < u64::MAX / 2,
    ensures
        r == 2 * (index + 1),
{
    ((index as u64) + 1) * 2
}

/// How a trade left the market, for its CSV comment.
#[derive(PartialEq, Eq, Structural, Debug, Clone, Copy)]
pub enum ExitKind {
    StopLoss,
    TakeProfit,
    Indicator,
    TimeStop,
    EndOfDay,
    PartialExit,
    EndOfData,
}

/// The comment of a trade row; stop-loss and take-profit exits show the exit
/// price in the symbol's digits (`price`, formatted by the caller).
pub fn trade_exit_comment(kind: ExitKind, price: &str, strategy_id: &str) -> (r: String)
    ensures
        kind == ExitKind::StopLoss ==> r@ == "sl "@ + price@,
        kind == ExitKind::TakeProfit ==> r@ == "tp "@ + price@,
        kind == ExitKind::Indicator ==> r@ == strategy_id@,
        kind == ExitKind::TimeStop ==> r@ == "time exit"@,
        kind == ExitKind::EndOfDay ==> r@ == "end of day"@,
        kind == ExitKind::PartialExit ==> r@ == "partial exit"@,
        kind == ExitKind::EndOfData ==> r@ == "end of data"@,
{
    match kind {
        ExitKind::StopLoss => {
            let mut text = owned("sl ");
            push_str(&mut text, price);
            text
        },
        ExitKind::TakeProfit => {
            let mut text = owned("tp ");
            push_str(&mut text, price);
            text
        },
        ExitKind::Indicator => owned(strategy_id),
        ExitKind::TimeStop => owned("time exit"),
        ExitKind::EndOfDay => owned("end of day"),
        ExitKind::PartialExit => owned("partial exit"),
        ExitKind::EndOfData => owned("end of data"),
    }
}

/// The column headers of a trade CSV, in the order the rows are written.
pub open spec fn trade_csv_headers() -> Seq<Seq<char>> {
    seq![
        "Ticket"@, "Symbol"@, "Type"@, "Open time"@, "Open price"@, "Size"@, "Close time"@,
        "Close price"@, "Time in trade"@, "Profit/Loss"@, "Cummulative P/L"@, "Comm/Swap"@,
        "P/L in money"@, "Cummulative money P/L"@, "P/L in pips"@, "Cummulative pips P/L"@,
        "P/L in %"@, "Cummulative % P/L"@, "Comment"@, "Sample type"@,
    ]
}

pub fn sqx_trade_headers() -> (r: Vec<&'static str>)
    ensures
        r@.len() == 20,
        forall|i: int| 0 <= i < 20 ==> #[trigger] r@[i]@ == trade_csv_headers()[i],
{
    let r = vec![
        "Ticket", "Symbol", "Type", "Open time", "Open price", "Size", "Close time",
        "Close price", "Time in trade", "Profit/Loss", "Cummulative P/L", "Comm/Swap",
        "P/L in money", "Cummulative money P/L", "P/L in pips", "Cummulative pips P/L",
        "P/L in %", "Cummulative % P/L", "Comment", "Sample type",
    ];
    r
}

/// `Buy` for a long trade, `Sell` for a short one.
pub fn trade_side_label(long: bool) -> (r: &'static str)
    ensures
        long ==> r@ == "Buy"@,
        !long ==> r@ == "Sell"@,
{
    if long { "Buy" } else { "Sell" }
}

/// The text without its trailing run of `c`.
pub open spec fn trim_trailing(s: Seq<char>, c: char) -> Seq<char>
    decreases s.len(),
{
    if s.len() > 0 && s.last() == c {
        trim_trailing(s.drop_last(), c)
    } else {
        s
    }
}

/// A fixed-precision number without trailing zeros, then without a trailing point.
pub open spec fn compact_decimal(formatted: Seq<char>) -> Seq<char> {
    trim_trailing(trim_trailing(formatted, '0'), '.')
}

fn trim_trailing_char(chars: &Vec<char>, len: usize, c: char) -> (r: usize)
    requires
        len <= chars.len(),
    ensures
        r <= len,
        chars@.subrange(0, r as int) == trim_trailing(chars@.subrange(0, len as int), c),
    decreases len,
{
    if len > 0 && chars[len - 1] == c {
        proof {
            assert(chars@.subrange(0, len as int).drop_last() == chars@.subrange(0, len - 1));
        }
        trim_trailing_char(chars, len - 1, c)
    } else {
        len
    }
}

/// Drops the trailing zeros, and then a trailing decimal point, of a number
/// already written with a fixed precision.
pub fn compact_decimal_text(formatted: &str) -> (r: String)
    ensures
        r@ == compact_decimal(formatted@),
{
    let chars = to_char_vec(formatted);
    proof {
        assert(chars@.subrange(0, chars@.len() as int) == chars@);
    }
    let without_zeros = trim_trailing_char(&chars, chars.len(), '0');
    let end = trim_trailing_char(&chars, without_zeros, '.');
    let mut out: Vec<char> = Vec::new();
    let mut i: usize = 0;
    while i < end
        invariant
            end <= chars.len(),
            i <= end,
            out@ == chars@.subrange(0, i as int),
        decreases end - i,
    {
        out.push(chars[i]);
        proof {
            assert(chars@.subrange(0, i + 1) == chars@.subrange(0, i as int).push(chars@[i as int]));
        }
        i = i + 1;
    }
    proof {
        assert(chars@.subrange(0, without_zeros as int).subrange(0, end as int) == chars@.subrange(0, end as int));
    }
    from_chars(&out)
}

/// The timeframe of a source preview: trimmed and upper-cased, one of
/// `M1`, `M15`, `H1`; the magic number must be positive.
pub fn check_source_preview(magic: u64, timeframe: &str) -> (r: Result<String, DesktopError>)
    ensures
        magic == 0 ==> (r matches Err(DesktopError::InvalidExport(d)) && d@ == "magic must be greater than zero"@),
        magic > 0 && ({
            let t = upper_seq(trim(timeframe@));
            t == "M1"@ || t == "M15"@ || t == "H1"@
        }) ==> (r matches Ok(t) && t@ == upper_seq(trim(timeframe@))),
        magic > 0 && !({
            let t = upper_seq(trim(timeframe@));
            t == "M1"@ || t == "M15"@ || t == "H1"@
        }) ==> (r matches Err(DesktopError::InvalidExport(d)) && d@ == "source preview timeframe must be M1, M15 or H1"@),
{
    if magic == 0 {
        return Err(DesktopError::InvalidExport(owned("magic must be greater than zero")));
    }
    let trimmed = trim_str(timeframe);
    let normalized = upper_str(trimmed.as_str());
    if str_eq(normalized.as_str(), "M1") || str_eq(normalized.as_str(), "M15") || str_eq(normalized.as_str(), "H1") {
        Ok(normalized)
    } else {
        Err(DesktopError::InvalidExport(owned("source preview timeframe must be M1, M15 or H1")))
    }
}

/// The text with every character that is not an ASCII letter or digit made `_`.
pub open spec fn alnum_only(text: Seq<char>) -> Seq<char> {
    text.map_values(|c: char| if is_ascii_alnum(c) { c } else { '_' })
}

pub open spec fn legacy_staging_text() -> Seq<char> {
    "Schema-v5 databanks are read-only in QuantForge v6. Results retests are allowed, but staging/certification requires a fresh v6 Discover archive."@
}

/// Schema-v5 archives are never staged for certification.
pub fn check_vault_staging(legacy_read_only: bool) -> (r: Result<(), String>)
    ensures
        legacy_read_only ==> (r matches Err(m) && m@ == legacy_staging_text()),
        !legacy_read_only ==> r is Ok,
{
    if legacy_read_only {
        Err(owned("Schema-v5 databanks are read-only in QuantForge v6. Results retests are allowed, but staging/certification requires a fresh v6 Discover archive."))
    } else {
        Ok(())
    }
}

/// Where an elite is staged in a vault: `candidates/<fingerprint, letters and digits only>.ir.json`.
pub fn vault_candidate_path(vault_directory: &str, fingerprint: &str) -> (r: (String, String))
    ensures
        r.0@ == path_join(vault_directory@, "candidates"@),
        r.1@ == path_join(path_join(vault_directory@, "candidates"@), alnum_only(fingerprint@) + ".ir.json"@),
{
    let candidates = join(vault_directory, "candidates");
    let chars = to_char_vec(fingerprint);
    let mut safe: Vec<char> = Vec::new();
    let mut i: usize = 0;
    while i < chars.len()
        invariant
            chars@ == fingerprint@,
            i <= chars.len(),
            safe@ == alnum_only(fingerprint@.subrange(0, i as int)),
        decreases chars.len() - i,
    {
        let c = chars[i];
        safe.push(if alnum(c) { c } else { '_' });
        proof {
            assert(alnum_only(fingerprint@.subrange(0, i + 1)) =~= alnum_only(fingerprint@.subrange(0, i as int)).push(if is_ascii_alnum(c) { c } else { '_' }));
        }
        i = i + 1;
    }
    proof {
        assert(fingerprint@.subrange(0, chars@.len() as int) == fingerprint@);
    }
    let mut name = from_chars(&safe);
    push_str(&mut name, ".ir.json");
    let path = join(candidates.as_str(), name.as_str());
    (candidates, path)
}

/// A candidate already staged is never overwritten.
pub fn check_vault_candidate(exists: bool, shown: &str) -> (r: Result<(), String>)
    ensures
        exists ==> (r matches Err(m) && m@ == "candidate already staged at "@ + shown@ + "; remove it before promoting again"@),
        !exists ==> r is Ok,
{
    if exists {
        let mut message = owned("candidate already staged at ");
        push_str(&mut message, shown);
        push_str(&mut message, "; remove it before promoting again");
        Err(message)
    } else {
        Ok(())
    }
}

} // verus!
