//! The Challenge workflow's own rules: which strategy files a run covers,
//! how batch indexes expand, where each artifact goes, and how a batch grades.
use vstd::prelude::*;
use crate::databank::portable_char;
use crate::paths::{file_stem, is_file, join, path_file_stem, path_join};
use crate::text::{blank, decimal, is_blank, owned, push_decimal, push_str, str_eq, string_views, to_char_vec, from_chars};

verus! {

/// The requested list with the single legacy path appended when it is
/// given and not already listed.
pub open spec fn requested_strategy_paths(paths: Seq<Seq<char>>, single: Seq<char>) -> Seq<Seq<char>> {
    if !is_blank(single) && !paths.contains(single) { paths.push(single) } else { paths }
}

fn texts_contain(values: &Vec<String>, value: &str) -> (r: bool)
    ensures
        r == string_views(values@).contains(value@),
{
    let mut i: usize = 0;
    while i < values.len()
        invariant
            i <= values@.len(),
            forall|k: int| 0 <= k < i ==> string_views(values@)[k] != value@,
        decreases values.len() - i,
    {
        if str_eq(values[i].as_str(), value) {
            assert(string_views(values@)[i as int] == value@);
            return true;
        }
        i = i + 1;
    }
    false
}

/// The strategy inputs of a Challenge request; none at all is refused.
pub fn strategy_inputs(paths: &Vec<String>, single: &str) -> (r: Result<Vec<String>, String>)
    ensures
        requested_strategy_paths(string_views(paths@), single@).len() == 0 ==> (r matches Err(m)
            && m@ == "at least one strategy IR path (or batch index) is required"@),
        requested_strategy_paths(string_views(paths@), single@).len() > 0 ==> (r matches Ok(v)
            && string_views(v@) == requested_strategy_paths(string_views(paths@), single@)),
{
    let mut raw: Vec<String> = Vec::new();
    let mut i: usize = 0;
    while i < paths.len()
        invariant
            i <= paths@.len(),
            string_views(raw@) == string_views(paths@).subrange(0, i as int),
        decreases paths.len() - i,
    {
        let ghost before = string_views(raw@);
        let next = paths[i].clone();
        raw.push(next);
        assert(string_views(raw@) =~= before.push(paths@[i as int]@));
        assert(string_views(raw@) =~= string_views(paths@).subrange(0, i + 1));
        i = i + 1;
    }
    assert(string_views(paths@).subrange(0, paths@.len() as int) =~= string_views(paths@));
    if !blank(single) && !texts_contain(paths, single) {
        let ghost before = string_views(raw@);
        raw.push(owned(single));
        assert(string_views(raw@) =~= before.push(single@));
    }
    if raw.len() == 0 {
        return Err(owned("at least one strategy IR path (or batch index) is required"));
    }
    Ok(raw)
}

/// The expanded paths with later repeats dropped, in first-seen order.
pub open spec fn first_seen(values: Seq<Seq<char>>) -> Seq<Seq<char>>
    decreases values.len(),
{
    if values.len() == 0 {
        values
    } else {
        let rest = first_seen(values.drop_last());
        if rest.contains(values.last()) { rest } else { rest.push(values.last()) }
    }
}

pub open spec fn flatten(groups: Seq<Seq<Seq<char>>>) -> Seq<Seq<char>>
    decreases groups.len(),
{
    if groups.len() == 0 { Seq::empty() } else { flatten(groups.drop_last()) + groups.last() }
}

pub open spec fn group_views(groups: Seq<Vec<String>>) -> Seq<Seq<Seq<char>>> {
    groups.map_values(|g: Vec<String>| string_views(g@))
}

fn push_first_seen(out: &mut Vec<String>, value: &String)
    ensures
        string_views(final(out)@) == (if string_views(old(out)@).contains(value@) { string_views(old(out)@) } else {
            string_views(old(out)@).push(value@)
        }),
{
    if !texts_contain(out, value.as_str()) {
        let ghost before = string_views(out@);
        out.push(value.clone());
        assert(string_views(out@) =~= before.push(value@));
    }
}

/// The strategies a Challenge runs: every expanded input once, in the order
/// first seen; an expansion with none is refused.
pub fn dedupe_expanded(groups: &Vec<Vec<String>>) -> (r: Result<Vec<String>, String>)
    ensures
        first_seen(flatten(group_views(groups@))).len() == 0 ==> (r matches Err(m)
            && m@ == "batch index contained no strategy paths"@),
        first_seen(flatten(group_views(groups@))).len() > 0 ==> (r matches Ok(v)
            && string_views(v@) == first_seen(flatten(group_views(groups@)))),
{
    let mut out: Vec<String> = Vec::new();
    let ghost mut done: Seq<Seq<char>> = Seq::empty();
    let mut g: usize = 0;
    while g < groups.len()
        invariant
            g <= groups@.len(),
            done == flatten(group_views(groups@).subrange(0, g as int)),
            string_views(out@) == first_seen(done),
        decreases groups.len() - g,
    {
        let group = &groups[g];
        let mut k: usize = 0;
        while k < group.len()
            invariant
                k <= group@.len(),
                *group == groups@[g as int],
                string_views(out@) == first_seen(done + string_views(group@).subrange(0, k as int)),
            decreases group.len() - k,
        {
            proof {
                let prefix = done + string_views(group@).subrange(0, k as int);
                let next = done + string_views(group@).subrange(0, k + 1);
                assert(next.drop_last() =~= prefix);
                assert(next.last() == group@[k as int]@);
            }
            push_first_seen(&mut out, &group[k]);
            k = k + 1;
        }
        proof {
            assert(string_views(group@).subrange(0, group@.len() as int) =~= string_views(group@));
            let next = group_views(groups@).subrange(0, g + 1);
            assert(next.drop_last() =~= group_views(groups@).subrange(0, g as int));
            assert(next.last() == string_views(group@));
            done = done + string_views(group@);
        }
        g = g + 1;
    }
    assert(group_views(groups@).subrange(0, groups@.len() as int) =~= group_views(groups@));
    if out.len() == 0 {
        return Err(owned("batch index contained no strategy paths"));
    }
    Ok(out)
}

/// What a strategy input file holds, as far as its expansion reads it.
#[derive(Debug, Clone, PartialEq, Eq)]
pub enum StrategyInputShape {
    /// A batch index: its `strategies[].path` entries, `None` where an entry has no text path.
    Batch(Vec<Option<String>>),
    /// A Strategy IR document (it has an `id`).
    Strategy,
    Unknown,
}

pub open spec fn missing_path_message(input: Seq<char>, index: int) -> Seq<char> {
    input + " strategies["@ + decimal(index as nat) + "] is missing a string \"path\" field"@
}

pub open spec fn absent_path_message(index: int, path: Seq<char>) -> Seq<char> {
    "batch entry strategies["@ + decimal(index as nat) + "] path does not exist: "@ + path
}

pub open spec fn entries_all_named(entries: Seq<Option<String>>) -> bool {
    forall|i: int| 0 <= i < entries.len() ==> (#[trigger] entries[i]) is Some
}

/// A Strategy IR expands to itself; a batch index to its entries' paths, each
/// of which must name a file; anything else is refused.
pub fn expand_strategy_input(input: &str, shape: &StrategyInputShape) -> (r: Result<Vec<String>, String>)
    ensures
        *shape is Strategy ==> (r matches Ok(v) && string_views(v@) == seq![input@]),
        *shape is Unknown ==> (r matches Err(m) && m@ == input@
            + " is neither a Strategy IR (missing \"id\") nor a QuantForge batch index (missing \"strategies\")"@),
        shape matches StrategyInputShape::Batch(entries) ==> {
            &&& entries@.len() == 0 ==> (r matches Err(m) && m@ == input@ + " is a batch index with an empty strategies list"@)
            &&& (r matches Ok(v) ==> entries_all_named(entries@) && v@.len() == entries@.len()
                && forall|i: int| 0 <= i < v@.len() ==> #[trigger] v@[i]@ == entries@[i]->0@)
            &&& (r matches Err(m) ==> entries@.len() == 0 || exists|i: int| 0 <= i < entries@.len()
                && (forall|j: int| 0 <= j < i ==> (#[trigger] entries@[j]) is Some)
                && (match #[trigger] entries@[i] {
                    None => m@ == missing_path_message(input@, i),
                    Some(p) => m@ == absent_path_message(i, p@),
                }))
        },
{
    match shape {
        StrategyInputShape::Strategy => {
            let mut v: Vec<String> = Vec::new();
            v.push(owned(input));
            assert(string_views(v@) =~= seq![input@]);
            Ok(v)
        },
        StrategyInputShape::Unknown => {
            let mut message = owned(input);
            push_str(&mut message, " is neither a Strategy IR (missing \"id\") nor a QuantForge batch index (missing \"strategies\")");
            Err(message)
        },
        StrategyInputShape::Batch(entries) => {
            let mut paths: Vec<String> = Vec::new();
            let mut i: usize = 0;
            while i < entries.len()
                invariant
                    *shape == StrategyInputShape::Batch(*entries),
                    i <= entries@.len(),
                    paths@.len() == i,
                    forall|j: int| 0 <= j < i ==> (#[trigger] entries@[j]) is Some,
                    forall|j: int| 0 <= j < i ==> #[trigger] paths@[j]@ == entries@[j]->0@,
                decreases entries.len() - i,
            {
                let path = match &entries[i] {
                    Some(p) => p,
                    None => {
                        let mut message = owned(input);
                        push_str(&mut message, " strategies[");
                        push_decimal(&mut message, i as u64);
                        push_str(&mut message, "] is missing a string \"path\" field");
                        assert(entries@[i as int] is None);
                        return Err(message);
                    },
                };
                if !is_file(path.as_str()) {
                    let mut message = owned("batch entry strategies[");
                    push_decimal(&mut message, i as u64);
                    push_str(&mut message, "] path does not exist: ");
                    push_str(&mut message, path.as_str());
                    assert(entries@[i as int] == Some(*path));
                    return Err(message);
                }
                paths.push(path.clone());
                i = i + 1;
            }
            if paths.len() == 0 {
                let mut message = owned(input);
                push_str(&mut message, " is a batch index with an empty strategies list");
                return Err(message);
            }
            Ok(paths)
        },
    }
}

/// `{n:04}`: a decimal number zero-padded to at least four digits.
pub open spec fn padded4(n: nat) -> Seq<char> {
    let d = decimal(n);
    if d.len() >= 4 { d } else { Seq::new((4 - d.len()) as nat, |i: int| '0') + d }
}

/// The artifact of strategy `index`: `{safe stem}-{index:04}.challenge.json`,
/// the stem made portable (`strategy` when the path has none).
pub open spec fn challenge_artifact_name(strategy_path: Seq<char>, index: nat) -> Seq<char> {
    let stem = match path_file_stem(strategy_path) { Some(s) => s, None => "strategy"@ };
    Seq::new(stem.len(), |i: int| portable_char(stem[i])) + "-"@ + padded4(index) + ".challenge.json"@
}

pub fn challenge_artifact_path(output_directory: &str, strategy_path: &str, index: usize) -> (r: String)
    ensures
        r@ == path_join(output_directory@, challenge_artifact_name(strategy_path@, index as nat)),
{
    let stem = match file_stem(strategy_path) { Some(s) => s, None => owned("strategy") };
    let chars = to_char_vec(stem.as_str());
    let mut safe: Vec<char> = Vec::new();
    let mut i: usize = 0;
    while i < chars.len()
        invariant
            chars@ == stem@,
            i <= chars@.len(),
            safe@ == Seq::new(i as nat, |k: int| portable_char(stem@[k])),
        decreases chars.len() - i,
    {
        let c = chars[i];
        safe.push(if crate::text::alnum(c) || c == '-' || c == '_' { c } else { '_' });
        assert(safe@ =~= Seq::new((i + 1) as nat, |k: int| portable_char(stem@[k])));
        i = i + 1;
    }
    let mut name = from_chars(&safe);
    push_str(&mut name, "-");
    let mut digits = String::new();
    push_decimal(&mut digits, index as u64);
    let count = digits.as_str().unicode_len();
    let ghost d = digits@;
    if count < 4 {
        let mut zeros: usize = 0;
        while zeros < 4 - count
            invariant
                count == d.len(),
                count < 4,
                zeros <= 4 - count,
                name@ == Seq::new(stem@.len(), |k: int| portable_char(stem@[k])) + "-"@
                    + Seq::new(zeros as nat, |k: int| '0'),
            decreases 4 - count - zeros,
        {
            name.push('0');
            assert(Seq::new((zeros + 1) as nat, |k: int| '0') =~= Seq::new(zeros as nat, |k: int| '0').push('0'));
            zeros = zeros + 1;
        }
    }
    let ghost head = name@;
    push_str(&mut name, digits.as_str());
    push_str(&mut name, ".challenge.json");
    proof {
        let safe_view = Seq::new(stem@.len(), |k: int| portable_char(stem@[k]));
        let stem_spec = match path_file_stem(strategy_path@) { Some(s) => s, None => "strategy"@ };
        assert(stem@ == stem_spec);
        assert(d == decimal(index as nat));
        if count < 4 {
            let zeros = Seq::new((4 - count) as nat, |k: int| '0');
            assert(head == safe_view + "-"@ + zeros);
            assert(padded4(index as nat) == zeros + d);
            assert(name@ =~= safe_view + "-"@ + padded4(index as nat) + ".challenge.json"@);
        } else {
            assert(head == safe_view + "-"@);
            assert(name@ =~= safe_view + "-"@ + padded4(index as nat) + ".challenge.json"@);
        }
    }
    join(output_directory, name.as_str())
}

/// A Challenge batch's grade.
pub open spec fn batch_grade(passed: nat, failed: nat) -> Seq<char> {
    if passed > 0 && failed == 0 { "challenged"@ } else if passed > 0 { "partial"@ } else { "illuminated"@ }
}

pub open spec fn passed_among(results: Seq<bool>, n: int) -> nat
    decreases n,
{
    if n <= 0 { 0 } else { passed_among(results, n - 1) + if results[n - 1] { 1nat } else { 0nat } }
}

/// A batch passes only when every strategy passed; it is `partial` when
/// some did. A batch with no results is refused.
pub fn challenge_batch_summary(passed: &Vec<bool>) -> (r: Result<(bool, &'static str, usize, usize), String>)
    ensures
        passed@.len() == 0 ==> (r matches Err(m) && m@ == "Challenge produced no results"@),
        passed@.len() > 0 ==> (r matches Ok((all, grade, p, f)) && {
            &&& p == passed_among(passed@, passed@.len() as int)
            &&& p + f == passed@.len()
            &&& all == (p > 0 && f == 0)
            &&& grade@ == batch_grade(p as nat, f as nat)
        }),
{
    let mut count: usize = 0;
    let mut i: usize = 0;
    while i < passed.len()
        invariant
            i <= passed@.len(),
            count == passed_among(passed@, i as int),
            count <= i,
        decreases passed.len() - i,
    {
        if passed[i] {
            count = count + 1;
        }
        i = i + 1;
    }
    if passed.len() == 0 {
        return Err(owned("Challenge produced no results"));
    }
    let failed = passed.len() - count;
    let all = count > 0 && failed == 0;
    let grade = if all { "challenged" } else if count > 0 { "partial" } else { "illuminated" };
    Ok((all, grade, count, failed))
}

/// A Challenge writes into a new folder only.
pub fn check_challenge_output(exists: bool, shown: &str) -> (r: Result<(), String>)
    ensures
        exists ==> (r matches Err(m) && m@ == "Challenge output directory already exists and will not be replaced: "@ + shown@),
        !exists ==> r is Ok,
{
    if exists {
        let mut message = owned("Challenge output directory already exists and will not be replaced: ");
        push_str(&mut message, shown);
        return Err(message);
    }
    Ok(())
}

} // verus!
