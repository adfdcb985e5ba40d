//! The asset library and the bundled market data packs: validating and
//! storing asset profiles, and recognising the files of a pack.
use vstd::prelude::*;
use crate::probes::{first_existing_candidate, first_set, lemma_first_set_is_least};
use crate::clock::{clock_reading, clock_unavailable, millis_of, rfc3339_at};
use crate::paths::{file_stem, is_dir, is_file, parent, join, path_file_stem, path_join, path_with_file_name, with_file_name};
use crate::text::{blank, ends_with, ends_with_str, eq_ignore_ascii_case, eq_ignore_case, is_ascii_alnum, is_ascii_digit, is_ascii_lower, is_blank, lower, alnum, to_lower, owned, push_signed_decimal, push_str, signed_decimal, split, split_str, starts_with, starts_with_str, str_eq, string_views, strip_suffix_str, to_char_vec, from_chars, trim, trim_str};

verus! {

/// A saved asset: a decision-timeframe pack, its M1 execution pack and its
/// broker profile.
#[derive(Debug, Clone, PartialEq, Eq)]
pub struct AssetProfile {
    pub id: String,
    pub name: String,
    pub data_path: String,
    pub metadata_path: Option<String>,
    pub source_timezone: Option<String>,
    pub m1_data_path: Option<String>,
    pub m1_metadata_path: Option<String>,
    pub m1_source_timezone: Option<String>,
    pub broker_path: String,
    pub updated_at: String,
}

/// One complete symbol of a bundled data pack.
#[derive(Debug, Clone, PartialEq, Eq)]
pub struct SymbolPack {
    pub symbol: String,
    pub data_path: String,
    pub metadata_path: String,
    pub m1_data_path: String,
    pub m1_metadata_path: String,
    pub quote_path: Option<String>,
    pub broker_path: String,
    pub default_databank_path: String,
    pub pack_root: String,
}

/// Why an asset profile cannot be saved, checking name, decision path and
/// broker path in that order.
pub open spec fn asset_problem(asset: AssetProfile) -> Option<Seq<char>> {
    if is_blank(asset.name@) {
        Some("asset name is required"@)
    } else if is_blank(asset.data_path@) {
        Some("decision OHLC path is required"@)
    } else if is_blank(asset.broker_path@) {
        Some("broker profile path is required"@)
    } else {
        None
    }
}

pub fn validate_asset(asset: &AssetProfile) -> (r: Result<(), String>)
    ensures
        match asset_problem(*asset) {
            None => r is Ok,
            Some(message) => r matches Err(m) && m@ == message,
        },
{
    if blank(asset.name.as_str()) {
        return Err(owned("asset name is required"));
    }
    if blank(asset.data_path.as_str()) {
        return Err(owned("decision OHLC path is required"));
    }
    if blank(asset.broker_path.as_str()) {
        return Err(owned("broker profile path is required"));
    }
    Ok(())
}

/// A character of a slug: ASCII letters and digits in lower case, anything
/// else a separator.
pub open spec fn slug_char(c: char) -> char {
    if is_ascii_alnum(c) { lower(c) } else { '-' }
}

pub open spec fn slug_chars(value: Seq<char>) -> Seq<char> {
    Seq::new(value.len(), |i: int| slug_char(value[i]))
}

/// The non-empty parts, in order.
pub open spec fn nonempty_parts(parts: Seq<Seq<char>>) -> Seq<Seq<char>>
    decreases parts.len(),
{
    if parts.len() == 0 {
        parts
    } else if parts.last().len() > 0 {
        nonempty_parts(parts.drop_last()).push(parts.last())
    } else {
        nonempty_parts(parts.drop_last())
    }
}

/// Parts joined by single dashes.
pub open spec fn join_dashed(parts: Seq<Seq<char>>) -> Seq<char>
    decreases parts.len(),
{
    if parts.len() == 0 {
        Seq::empty()
    } else if parts.len() == 1 {
        parts[0]
    } else {
        join_dashed(parts.drop_last()) + "-"@ + parts.last()
    }
}

/// The URL-safe slug of a name: runs of other characters become one dash,
/// with no dash at either end; a name with no letters or digits is `asset`.
pub open spec fn slug_of(value: Seq<char>) -> Seq<char> {
    let collapsed = join_dashed(nonempty_parts(split(slug_chars(value), '-')));
    if collapsed.len() == 0 { "asset"@ } else { collapsed }
}

fn slug_text(value: &str) -> (r: String)
    ensures
        r@ == slug_chars(value@),
{
    let chars = to_char_vec(value);
    let mut out: Vec<char> = Vec::new();
    let mut i: usize = 0;
    while i < chars.len()
        invariant
            chars@ == value@,
            i <= chars@.len(),
            out@ == slug_chars(value@).subrange(0, i as int),
        decreases chars.len() - i,
    {
        let c = chars[i];
        out.push(if alnum(c) { to_lower(c) } else { '-' });
        proof {
            assert(out@ =~= slug_chars(value@).subrange(0, i + 1));
        }
        i = i + 1;
    }
    assert(slug_chars(value@).subrange(0, chars@.len() as int) =~= slug_chars(value@));
    from_chars(&out)
}

pub fn slug(value: &str) -> (r: String)
    ensures
        r@ == slug_of(value@),
{
    let cleaned = slug_text(value);
    let parts = split_str(cleaned.as_str(), '-');
    let ghost all = split(slug_chars(value@), '-');
    assert(string_views(parts@) =~= all);
    let mut out = String::new();
    let mut kept: usize = 0;
    let mut i: usize = 0;
    while i < parts.len()
        invariant
            string_views(parts@) == all,
            i <= parts@.len(),
            kept == nonempty_parts(all.subrange(0, i as int)).len(),
            out@ == join_dashed(nonempty_parts(all.subrange(0, i as int))),
            kept <= i,
        decreases parts.len() - i,
    {
        let ghost before = nonempty_parts(all.subrange(0, i as int));
        proof {
            assert(all.subrange(0, i + 1).drop_last() =~= all.subrange(0, i as int));
            assert(all.subrange(0, i + 1).last() == parts@[i as int]@);
        }
        if parts[i].as_str().unicode_len() > 0 {
            if kept > 0 {
                push_str(&mut out, "-");
            }
            push_str(&mut out, parts[i].as_str());
            kept = kept + 1;
            proof {
                let next = before.push(parts@[i as int]@);
                assert(next.drop_last() =~= before);
                if before.len() == 0 {
                    assert(out@ =~= parts@[i as int]@);
                }
            }
        }
        i = i + 1;
    }
    assert(all.subrange(0, all.len() as int) =~= all);
    proof {
        lemma_slug_chars_alphabet(value@);
        lemma_split_parts_alphabet(slug_chars(value@), '-');
        lemma_nonempty_parts_keep(all, '-');
        if kept > 0 {
            lemma_join_dashed_shape(nonempty_parts(all));
        }
    }
    if kept == 0 {
        owned("asset")
    } else {
        out
    }
}

pub open spec fn slug_alphabet(c: char) -> bool {
    is_ascii_lower(c) || is_ascii_digit(c) || c == '-'
}

proof fn lemma_slug_chars_alphabet(value: Seq<char>)
    ensures
        forall|i: int| 0 <= i < slug_chars(value).len() ==> slug_alphabet(#[trigger] slug_chars(value)[i]),
{
}

proof fn lemma_split_parts_alphabet(s: Seq<char>, sep: char)
    requires
        forall|i: int| 0 <= i < s.len() ==> slug_alphabet(#[trigger] s[i]),
    ensures
        forall|p: int, i: int| 0 <= p < split(s, sep).len() && 0 <= i < split(s, sep)[p].len()
            ==> slug_alphabet(#[trigger] split(s, sep)[p][i]) && split(s, sep)[p][i] != sep,
    decreases s.len(),
{
    if s.len() > 0 {
        lemma_split_parts_alphabet(s.drop_last(), sep);
        crate::text::lemma_split_nonempty(s.drop_last(), sep);
        let rest = split(s.drop_last(), sep);
        assert forall|p: int, i: int| 0 <= p < split(s, sep).len() && 0 <= i < split(s, sep)[p].len()
            implies slug_alphabet(#[trigger] split(s, sep)[p][i]) && split(s, sep)[p][i] != sep by {
            if s.last() == sep {
                if p < rest.len() {
                    assert(split(s, sep)[p] == rest[p]);
                }
            } else {
                if p < rest.len() - 1 {
                    assert(split(s, sep)[p] == rest[p]);
                } else {
                    assert(split(s, sep)[p] == rest.last().push(s.last()));
                    if i < rest.last().len() {
                        assert(split(s, sep)[p][i] == rest[rest.len() - 1][i]);
                    }
                }
            }
        }
    }
}

proof fn lemma_nonempty_parts_keep(parts: Seq<Seq<char>>, sep: char)
    requires
        forall|p: int, i: int| 0 <= p < parts.len() && 0 <= i < parts[p].len()
            ==> slug_alphabet(#[trigger] parts[p][i]) && parts[p][i] != sep,
    ensures
        forall|p: int| 0 <= p < nonempty_parts(parts).len() ==> (#[trigger] nonempty_parts(parts)[p]).len() > 0,
        forall|p: int, i: int| 0 <= p < nonempty_parts(parts).len() && 0 <= i < nonempty_parts(parts)[p].len()
            ==> slug_alphabet(#[trigger] nonempty_parts(parts)[p][i]) && nonempty_parts(parts)[p][i] != sep,
    decreases parts.len(),
{
    if parts.len() > 0 {
        lemma_nonempty_parts_keep(parts.drop_last(), sep);
        assert forall|p: int, i: int| 0 <= p < parts.drop_last().len() && 0 <= i < parts.drop_last()[p].len()
            implies slug_alphabet(#[trigger] parts.drop_last()[p][i]) && parts.drop_last()[p][i] != sep by {
            assert(parts.drop_last()[p] == parts[p]);
        }
        lemma_nonempty_parts_keep(parts.drop_last(), sep);
        if parts.last().len() > 0 {
            let rest = nonempty_parts(parts.drop_last());
            assert forall|p: int, i: int| 0 <= p < rest.push(parts.last()).len() && 0 <= i < rest.push(parts.last())[p].len()
                implies slug_alphabet(#[trigger] rest.push(parts.last())[p][i]) && rest.push(parts.last())[p][i] != sep by {
                if p == rest.len() {
                    assert(parts.last() == parts[parts.len() - 1]);
                }
            }
        }
    }
}

/// The joined text of dash-free non-empty parts starts and ends with a part
/// character and never holds two dashes in a row.
proof fn lemma_join_dashed_shape(parts: Seq<Seq<char>>)
    requires
        parts.len() > 0,
        forall|p: int| 0 <= p < parts.len() ==> (#[trigger] parts[p]).len() > 0,
        forall|p: int, i: int| 0 <= p < parts.len() && 0 <= i < parts[p].len()
            ==> slug_alphabet(#[trigger] parts[p][i]) && parts[p][i] != '-',
    ensures
        join_dashed(parts).len() > 0,
        join_dashed(parts)[0] != '-',
        join_dashed(parts).last() != '-',
        forall|i: int| 0 <= i < join_dashed(parts).len() ==> slug_alphabet(#[trigger] join_dashed(parts)[i]),
        forall|i: int| 0 <= i < join_dashed(parts).len() - 1 && join_dashed(parts)[i] == '-'
            ==> #[trigger] join_dashed(parts)[i + 1] != '-',
    decreases parts.len(),
{
    reveal_strlit("-");
    if parts.len() == 1 {
        assert(join_dashed(parts) == parts[0]);
        assert forall|i: int| 0 <= i < join_dashed(parts).len() implies slug_alphabet(#[trigger] join_dashed(parts)[i]) by {
            assert(parts[0][i] == join_dashed(parts)[i]);
        }
        assert(parts[0][0] != '-');
        assert(parts[0][parts[0].len() - 1] != '-');
    } else {
        let head = parts.drop_last();
        assert forall|p: int, i: int| 0 <= p < head.len() && 0 <= i < head[p].len()
            implies slug_alphabet(#[trigger] head[p][i]) && head[p][i] != '-' by {
            assert(head[p] == parts[p]);
        }
        assert forall|p: int| 0 <= p < head.len() implies (#[trigger] head[p]).len() > 0 by {
            assert(head[p] == parts[p]);
        }
        lemma_join_dashed_shape(head);
        let left = join_dashed(head);
        let last = parts.last();
        assert(last == parts[parts.len() - 1]);
        let joined = left + "-"@ + last;
        assert(join_dashed(parts) == joined);
        assert(joined[0] == left[0]);
        assert(joined.last() == last[last.len() - 1]);
        assert forall|i: int| 0 <= i < joined.len() implies slug_alphabet(#[trigger] joined[i]) by {
            if i < left.len() {
                assert(joined[i] == left[i]);
            } else if i > left.len() {
                assert(joined[i] == last[i - left.len() - 1]);
            }
        }
        assert forall|i: int| 0 <= i < joined.len() - 1 && joined[i] == '-' implies #[trigger] joined[i + 1] != '-' by {
            if i + 1 < left.len() {
                assert(joined[i] == left[i]);
                assert(joined[i + 1] == left[i + 1]);
            } else if i + 1 == left.len() {
                assert(joined[i] == left[i]);
                assert(left[i] == left.last());
            } else if i == left.len() {
                assert(joined[i + 1] == last[0]);
            } else {
                assert(joined[i] == last[i - left.len() - 1]);
            }
        }
    }
}

/// Every slug is non-empty, uses only lower-case ASCII letters, digits and
/// dashes, starts and ends with a letter or digit, and never holds two
/// dashes in a row.
pub proof fn lemma_slug_is_url_safe(value: Seq<char>)
    ensures
        slug_of(value).len() > 0,
        slug_of(value)[0] != '-',
        slug_of(value).last() != '-',
        forall|i: int| 0 <= i < slug_of(value).len() ==> slug_alphabet(#[trigger] slug_of(value)[i]),
        forall|i: int| 0 <= i < slug_of(value).len() - 1 && slug_of(value)[i] == '-'
            ==> #[trigger] slug_of(value)[i + 1] != '-',
{
    reveal_strlit("asset");
    let chars = slug_chars(value);
    lemma_slug_chars_alphabet(value);
    lemma_split_parts_alphabet(chars, '-');
    let parts = nonempty_parts(split(chars, '-'));
    lemma_nonempty_parts_keep(split(chars, '-'), '-');
    if parts.len() > 0 {
        lemma_join_dashed_shape(parts);
    } else {
        assert(join_dashed(parts).len() == 0);
        assert(slug_of(value) == "asset"@);
        assert forall|i: int| 0 <= i < slug_of(value).len() implies slug_alphabet(#[trigger] slug_of(value)[i]) by {
        }
    }
}


/// A text already in slug form: non-empty, only lower-case letters, digits and
/// dashes, no dash at either end and no two dashes in a row.
pub open spec fn slug_shaped(s: Seq<char>) -> bool {
    &&& s.len() > 0
    &&& s[0] != '-'
    &&& s.last() != '-'
    &&& forall|i: int| 0 <= i < s.len() ==> slug_alphabet(#[trigger] s[i])
    &&& forall|i: int| 0 <= i < s.len() - 1 && s[i] == '-' ==> #[trigger] s[i + 1] != '-'
}

proof fn lemma_join_dashed_push_char(parts: Seq<Seq<char>>, c: char)
    requires
        parts.len() >= 1,
    ensures
        join_dashed(parts.update(parts.len() - 1, parts.last().push(c))) == join_dashed(parts).push(c),
    decreases parts.len(),
{
    let updated = parts.update(parts.len() - 1, parts.last().push(c));
    if parts.len() == 1 {
        assert(join_dashed(updated) == updated[0]);
    } else {
        assert(updated.drop_last() =~= parts.drop_last());
        assert(join_dashed(updated) == join_dashed(parts.drop_last()) + "-"@ + parts.last().push(c));
        assert(join_dashed(parts.drop_last()) + "-"@ + parts.last().push(c)
            =~= (join_dashed(parts.drop_last()) + "-"@ + parts.last()).push(c));
    }
}

/// Splitting on dashes and joining with dashes gives the text back.
proof fn lemma_join_split(s: Seq<char>)
    ensures
        join_dashed(split(s, '-')) == s,
    decreases s.len(),
{
    reveal_strlit("-");
    crate::text::lemma_split_nonempty(s, '-');
    if s.len() == 0 {
        assert(join_dashed(split(s, '-')) =~= s);
    } else {
        let rest = split(s.drop_last(), '-');
        lemma_join_split(s.drop_last());
        crate::text::lemma_split_nonempty(s.drop_last(), '-');
        if s.last() == '-' {
            let parts = rest.push(Seq::<char>::empty());
            assert(parts.drop_last() =~= rest);
            assert(join_dashed(parts) == join_dashed(rest) + "-"@ + Seq::<char>::empty());
            assert(join_dashed(rest) + "-"@ + Seq::<char>::empty() =~= s);
        } else {
            lemma_join_dashed_push_char(rest, s.last());
            assert(s.drop_last().push(s.last()) =~= s);
        }
    }
}

/// The dash-separated parts of a text that starts with no dash and holds no
/// two dashes in a row are non-empty, but for a last part that is empty
/// exactly when the text is empty or ends with a dash.
proof fn lemma_split_parts_nonempty(t: Seq<char>)
    requires
        t.len() > 0 ==> t[0] != '-',
        forall|i: int| 0 <= i < t.len() - 1 && t[i] == '-' ==> #[trigger] t[i + 1] != '-',
    ensures
        forall|p: int| 0 <= p < split(t, '-').len() - 1 ==> (#[trigger] split(t, '-')[p]).len() > 0,
        split(t, '-').len() >= 1,
        (split(t, '-').last().len() == 0) == (t.len() == 0 || t.last() == '-'),
    decreases t.len(),
{
    crate::text::lemma_split_nonempty(t, '-');
    if t.len() > 0 {
        let u = t.drop_last();
        assert forall|i: int| 0 <= i < u.len() - 1 && u[i] == '-' implies #[trigger] u[i + 1] != '-' by {
            assert(u[i] == t[i] && u[i + 1] == t[i + 1]);
        }
        if u.len() > 0 {
            assert(u[0] == t[0]);
        }
        lemma_split_parts_nonempty(u);
        let rest = split(u, '-');
        if t.last() == '-' {
            if u.len() == 0 {
                assert(t[0] == t.last());
            } else {
                assert(u.last() == t[t.len() - 2]);
                let j = t.len() - 2;
                assert(t[j + 1] == t.last());
                assert(t[j] != '-');
            }
            assert forall|p: int| 0 <= p < split(t, '-').len() - 1 implies (#[trigger] split(t, '-')[p]).len() > 0 by {
                assert(split(t, '-')[p] == rest[p]);
            }
        } else {
            assert forall|p: int| 0 <= p < split(t, '-').len() - 1 implies (#[trigger] split(t, '-')[p]).len() > 0 by {
                assert(split(t, '-')[p] == rest[p]);
            }
        }
    }
}

proof fn lemma_nonempty_parts_all(parts: Seq<Seq<char>>)
    requires
        forall|p: int| 0 <= p < parts.len() ==> (#[trigger] parts[p]).len() > 0,
    ensures
        nonempty_parts(parts) == parts,
    decreases parts.len(),
{
    if parts.len() > 0 {
        assert forall|p: int| 0 <= p < parts.drop_last().len() implies (#[trigger] parts.drop_last()[p]).len() > 0 by {
            assert(parts.drop_last()[p] == parts[p]);
        }
        lemma_nonempty_parts_all(parts.drop_last());
        assert(parts[parts.len() - 1].len() > 0);
        assert(parts.drop_last().push(parts.last()) =~= parts);
    }
}

/// A text in slug form is its own slug.
pub proof fn lemma_slug_of_slug_shaped(s: Seq<char>)
    requires
        slug_shaped(s),
    ensures
        slug_of(s) == s,
{
    assert(slug_chars(s) =~= s) by {
        assert forall|i: int| 0 <= i < s.len() implies slug_char(s[i]) == s[i] by {
            assert(slug_alphabet(s[i]));
        }
    }
    lemma_split_parts_nonempty(s);
    let parts = split(s, '-');
    assert forall|p: int| 0 <= p < parts.len() implies (#[trigger] parts[p]).len() > 0 by {
        if p == parts.len() - 1 {
            assert(parts[p] == parts.last());
        }
    }
    lemma_nonempty_parts_all(parts);
    lemma_join_split(s);
}

/// Slugging is idempotent: the slug of a slug is itself, and every slug is in
/// slug form.
pub proof fn lemma_slug_is_idempotent(value: Seq<char>)
    ensures
        slug_shaped(slug_of(value)),
        slug_of(slug_of(value)) == slug_of(value),
{
    lemma_slug_is_url_safe(value);
    lemma_slug_of_slug_shaped(slug_of(value));
}

/// The ASCII letters and digits of a text, in order, in lower case.
pub open spec fn lower_alnums(value: Seq<char>) -> Seq<char>
    decreases value.len(),
{
    if value.len() == 0 {
        value
    } else if is_ascii_alnum(value.last()) {
        lower_alnums(value.drop_last()).push(lower(value.last()))
    } else {
        lower_alnums(value.drop_last())
    }
}

/// A text with its dashes removed.
pub open spec fn without_dashes(s: Seq<char>) -> Seq<char>
    decreases s.len(),
{
    if s.len() == 0 {
        s
    } else if s.last() == '-' {
        without_dashes(s.drop_last())
    } else {
        without_dashes(s.drop_last()).push(s.last())
    }
}

/// The parts written one after another.
pub open spec fn concat_parts(parts: Seq<Seq<char>>) -> Seq<char>
    decreases parts.len(),
{
    if parts.len() == 0 {
        Seq::empty()
    } else {
        concat_parts(parts.drop_last()) + parts.last()
    }
}

proof fn lemma_without_dashes_slug_chars(value: Seq<char>)
    ensures
        without_dashes(slug_chars(value)) == lower_alnums(value),
    decreases value.len(),
{
    if value.len() > 0 {
        let head = value.drop_last();
        lemma_without_dashes_slug_chars(head);
        assert(slug_chars(value).drop_last() =~= slug_chars(head));
        let c = value.last();
        assert(slug_chars(value).last() == slug_char(c));
        if is_ascii_alnum(c) {
            assert(lower(c) != '-');
        }
    } else {
        assert(slug_chars(value) =~= Seq::<char>::empty());
    }
}

proof fn lemma_without_dashes_append(a: Seq<char>, b: Seq<char>)
    ensures
        without_dashes(a + b) == without_dashes(a) + without_dashes(b),
    decreases b.len(),
{
    if b.len() == 0 {
        assert(a + b =~= a);
        assert(without_dashes(a) + without_dashes(b) =~= without_dashes(a));
    } else {
        lemma_without_dashes_append(a, b.drop_last());
        assert((a + b).drop_last() =~= a + b.drop_last());
        assert((a + b).last() == b.last());
        if b.last() != '-' {
            assert(without_dashes(a) + without_dashes(b.drop_last()).push(b.last())
                =~= (without_dashes(a) + without_dashes(b.drop_last())).push(b.last()));
        }
    }
}

proof fn lemma_without_dashes_dash_free(s: Seq<char>)
    requires
        !s.contains('-'),
    ensures
        without_dashes(s) == s,
    decreases s.len(),
{
    if s.len() > 0 {
        assert(!s.drop_last().contains('-')) by {
            if s.drop_last().contains('-') {
                let i = choose|i: int| 0 <= i < s.drop_last().len() && s.drop_last()[i] == '-';
                assert(s[i] == '-');
            }
        }
        lemma_without_dashes_dash_free(s.drop_last());
        assert(s.last() == s[s.len() - 1]);
        assert(s.drop_last().push(s.last()) =~= s);
    }
}

proof fn lemma_concat_push_char(parts: Seq<Seq<char>>, c: char)
    requires
        parts.len() >= 1,
    ensures
        concat_parts(parts.update(parts.len() - 1, parts.last().push(c))) == concat_parts(parts).push(c),
{
    let updated = parts.update(parts.len() - 1, parts.last().push(c));
    assert(updated.drop_last() =~= parts.drop_last());
    assert(concat_parts(parts.drop_last()) + parts.last().push(c) =~= (concat_parts(parts.drop_last()) + parts.last()).push(c));
}

/// The parts of a split on dashes, written together, are the text without its dashes.
proof fn lemma_concat_split(s: Seq<char>)
    ensures
        concat_parts(split(s, '-')) == without_dashes(s),
    decreases s.len(),
{
    crate::text::lemma_split_nonempty(s, '-');
    if s.len() == 0 {
        let parts = split(s, '-');
        assert(parts.drop_last() =~= Seq::<Seq<char>>::empty());
        assert(parts.last() =~= Seq::<char>::empty());
        assert(concat_parts(parts.drop_last()) =~= Seq::<char>::empty());
        assert(concat_parts(parts) =~= Seq::<char>::empty() + Seq::<char>::empty());
        assert(without_dashes(s) =~= Seq::<char>::empty());
    } else {
        lemma_concat_split(s.drop_last());
        crate::text::lemma_split_nonempty(s.drop_last(), '-');
        let rest = split(s.drop_last(), '-');
        if s.last() == '-' {
            let parts = rest.push(Seq::<char>::empty());
            assert(parts.drop_last() =~= rest);
            assert(concat_parts(rest) + Seq::<char>::empty() =~= concat_parts(rest));
        } else {
            lemma_concat_push_char(rest, s.last());
        }
    }
}

proof fn lemma_concat_nonempty_parts(parts: Seq<Seq<char>>)
    ensures
        concat_parts(nonempty_parts(parts)) == concat_parts(parts),
    decreases parts.len(),
{
    if parts.len() > 0 {
        lemma_concat_nonempty_parts(parts.drop_last());
        let kept = nonempty_parts(parts.drop_last());
        if parts.last().len() > 0 {
            assert(kept.push(parts.last()).drop_last() =~= kept);
        } else {
            assert(concat_parts(parts.drop_last()) + parts.last() =~= concat_parts(parts.drop_last()));
        }
    }
}

/// Joining dash-free parts with dashes and removing the dashes writes the parts together.
proof fn lemma_without_dashes_join(parts: Seq<Seq<char>>)
    requires
        forall|p: int| 0 <= p < parts.len() ==> !(#[trigger] parts[p]).contains('-'),
    ensures
        without_dashes(join_dashed(parts)) == concat_parts(parts),
    decreases parts.len(),
{
    reveal_strlit("-");
    if parts.len() == 0 {
        assert(join_dashed(parts) =~= Seq::<char>::empty());
        assert(without_dashes(Seq::<char>::empty()) =~= Seq::<char>::empty());
    } else if parts.len() == 1 {
        lemma_without_dashes_dash_free(parts[0]);
        assert(parts.drop_last() =~= Seq::<Seq<char>>::empty());
        assert(concat_parts(parts.drop_last()) =~= Seq::<char>::empty());
        assert(parts.last() == parts[0]);
        assert(Seq::<char>::empty() + parts[0] =~= parts[0]);
    } else if parts.len() > 1 {
        let head = parts.drop_last();
        assert forall|p: int| 0 <= p < head.len() implies !(#[trigger] head[p]).contains('-') by {
            assert(head[p] == parts[p]);
        }
        lemma_without_dashes_join(head);
        let last = parts.last();
        assert(last == parts[parts.len() - 1]);
        lemma_without_dashes_dash_free(last);
        lemma_without_dashes_append(join_dashed(head) + "-"@, last);
        lemma_without_dashes_append(join_dashed(head), "-"@);
        assert(without_dashes("-"@) =~= Seq::<char>::empty()) by {
            assert("-"@.len() == 1 && "-"@.last() == '-');
            assert("-"@.drop_last() =~= Seq::<char>::empty());
            assert(without_dashes(Seq::<char>::empty()) =~= Seq::<char>::empty());
        }
        assert(without_dashes(join_dashed(head)) + Seq::<char>::empty() =~= without_dashes(join_dashed(head)));
        assert(join_dashed(parts) == join_dashed(head) + "-"@ + last);
        assert(concat_parts(parts) == concat_parts(head) + last);
    }
}

proof fn lemma_concat_nonempty_has_length(parts: Seq<Seq<char>>)
    requires
        forall|p: int| 0 <= p < parts.len() ==> (#[trigger] parts[p]).len() > 0,
    ensures
        parts.len() > 0 ==> concat_parts(parts).len() > 0,
{
    if parts.len() > 0 {
        assert(parts.last() == parts[parts.len() - 1]);
    }
}

/// What a slug keeps of a name: a name with no ASCII letter or digit is
/// `asset`; any other's slug, once its dashes are removed, is exactly the
/// name's letters and digits in order, in lower case.
pub proof fn lemma_slug_keeps_the_alphanumerics(value: Seq<char>)
    ensures
        lower_alnums(value).len() == 0 ==> slug_of(value) == "asset"@,
        lower_alnums(value).len() > 0 ==> without_dashes(slug_of(value)) == lower_alnums(value),
{
    let chars = slug_chars(value);
    let all = split(chars, '-');
    let parts = nonempty_parts(all);
    lemma_slug_chars_alphabet(value);
    lemma_split_parts_alphabet(chars, '-');
    lemma_nonempty_parts_keep(all, '-');
    assert forall|p: int| 0 <= p < parts.len() implies !(#[trigger] parts[p]).contains('-') by {
        if parts[p].contains('-') {
            let i = choose|i: int| 0 <= i < parts[p].len() && parts[p][i] == '-';
            assert(parts[p][i] != '-');
        }
    }
    lemma_without_dashes_join(parts);
    lemma_concat_nonempty_parts(all);
    lemma_concat_split(chars);
    lemma_without_dashes_slug_chars(value);
    lemma_concat_nonempty_has_length(parts);
    if parts.len() > 0 {
        lemma_join_dashed_shape(parts);
    } else {
        assert(join_dashed(parts).len() == 0);
        assert(concat_parts(parts).len() == 0);
    }
}

/// The first stored asset the incoming one replaces: same id, or the same
/// name ignoring ASCII case.
pub open spec fn asset_slot(assets: Seq<AssetProfile>, id: Seq<char>, name: Seq<char>, i: int) -> Option<int>
    decreases assets.len() - i,
{
    if i < 0 || i >= assets.len() {
        None
    } else if assets[i].id@ == id || eq_ignore_case(assets[i].name@, name) {
        Some(i)
    } else {
        asset_slot(assets, id, name, i + 1)
    }
}

/// The id an asset is saved under: its own, or `{slug}-{millis}` when blank.
pub open spec fn asset_id(asset: AssetProfile, now_ms: i64) -> Seq<char> {
    if is_blank(asset.id@) { slug_of(asset.name@) + "-"@ + signed_decimal(now_ms as int) } else { asset.id@ }
}

/// `stored` is `asset` saved under `id` at `now`, with its name trimmed.
pub open spec fn saved_as(stored: AssetProfile, asset: AssetProfile, id: Seq<char>, now: Seq<char>) -> bool {
    &&& stored.id@ == id
    &&& stored.name@ == trim(asset.name@)
    &&& stored.updated_at@ == now
    &&& stored.data_path == asset.data_path
    &&& stored.metadata_path == asset.metadata_path
    &&& stored.source_timezone == asset.source_timezone
    &&& stored.m1_data_path == asset.m1_data_path
    &&& stored.m1_metadata_path == asset.m1_metadata_path
    &&& stored.m1_source_timezone == asset.m1_source_timezone
    &&& stored.broker_path == asset.broker_path
}

fn find_asset_slot(assets: &Vec<AssetProfile>, id: &str, name: &str) -> (r: Option<usize>)
    ensures
        match r {
            Some(i) => i < assets@.len() && asset_slot(assets@, id@, name@, 0) == Some(i as int),
            None => asset_slot(assets@, id@, name@, 0) is None,
        },
{
    let mut i: usize = 0;
    while i < assets.len()
        invariant
            i <= assets@.len(),
            asset_slot(assets@, id@, name@, 0) == asset_slot(assets@, id@, name@, i as int),
        decreases assets.len() - i,
    {
        if str_eq(assets[i].id.as_str(), id) || eq_ignore_ascii_case(assets[i].name.as_str(), name) {
            return Some(i);
        }
        i = i + 1;
    }
    None
}

/// The library after saving a valid `asset` at time `now` (`now_ms` in
/// milliseconds): the first entry with its id or name is replaced, keeping its
/// id, and otherwise the asset is appended; no other entry changes.
pub open spec fn upserted(before: Seq<AssetProfile>, after: Seq<AssetProfile>, asset: AssetProfile, now: Seq<char>, now_ms: i64) -> bool {
    match asset_slot(before, asset_id(asset, now_ms), trim(asset.name@), 0) {
        Some(i) => after.len() == before.len()
            && saved_as(after[i], asset, before[i].id@, now)
            && forall|j: int| 0 <= j < before.len() && j != i ==> after[j] == before[j],
        None => after.len() == before.len() + 1
            && saved_as(after.last(), asset, asset_id(asset, now_ms), now)
            && forall|j: int| 0 <= j < before.len() ==> after[j] == before[j],
    }
}

/// No two entries of the library share an id.
pub open spec fn ids_unique(assets: Seq<AssetProfile>) -> bool {
    forall|i: int, j: int| 0 <= i < j < assets.len() ==> #[trigger] assets[i].id@ != #[trigger] assets[j].id@
}

/// The slot search stops no later than the first entry with the id or name.
proof fn lemma_asset_slot_reaches_id(assets: Seq<AssetProfile>, id: Seq<char>, name: Seq<char>, start: int, j: int)
    requires
        0 <= start <= j < assets.len(),
        assets[j].id@ == id || eq_ignore_case(assets[j].name@, name),
    ensures
        asset_slot(assets, id, name, start) matches Some(i) && start <= i <= j,
    decreases j - start,
{
    if start < j && !(assets[start].id@ == id || eq_ignore_case(assets[start].name@, name)) {
        lemma_asset_slot_reaches_id(assets, id, name, start + 1, j);
    }
}

/// An empty slot search means no entry from `start` on has the id.
proof fn lemma_asset_slot_none(assets: Seq<AssetProfile>, id: Seq<char>, name: Seq<char>, start: int)
    requires
        0 <= start,
        asset_slot(assets, id, name, start) is None,
    ensures
        forall|j: int| start <= j < assets.len() ==> #[trigger] assets[j].id@ != id,
    decreases assets.len() - start,
{
    if start < assets.len() {
        lemma_asset_slot_none(assets, id, name, start + 1);
    }
}

/// Saving an asset whose id is already stored never adds an entry, whatever
/// its name: the library keeps its length. And a save never gives two entries
/// the same id: a library without repeated ids stays without them.
pub proof fn lemma_upsert_never_duplicates_an_id(before: Seq<AssetProfile>, after: Seq<AssetProfile>, asset: AssetProfile, now: Seq<char>, now_ms: i64)
    requires
        upserted(before, after, asset, now, now_ms),
    ensures
        (exists|j: int| 0 <= j < before.len() && #[trigger] before[j].id@ == asset_id(asset, now_ms))
            ==> after.len() == before.len(),
        ids_unique(before) ==> ids_unique(after),
        forall|j: int| 0 <= j < after.len() ==> (exists|k: int| 0 <= k < before.len() && #[trigger] after[j].id@ == before[k].id@)
            || after[j].id@ == asset_id(asset, now_ms),
{
    let id = asset_id(asset, now_ms);
    let name = trim(asset.name@);
    if exists|j: int| 0 <= j < before.len() && #[trigger] before[j].id@ == id {
        let j = choose|j: int| 0 <= j < before.len() && #[trigger] before[j].id@ == id;
        lemma_asset_slot_reaches_id(before, id, name, 0, j);
    }
    match asset_slot(before, id, name, 0) {
        Some(i) => {
            assert forall|j: int| 0 <= j < after.len() implies (exists|k: int| 0 <= k < before.len() && #[trigger] after[j].id@ == before[k].id@)
                || after[j].id@ == id by {
                if j == i {
                    assert(after[j].id@ == before[i].id@);
                } else {
                    assert(after[j] == before[j]);
                }
            }
            if ids_unique(before) {
                assert forall|a: int, c: int| 0 <= a < c < after.len() implies #[trigger] after[a].id@ != #[trigger] after[c].id@ by {
                    assert(after[a].id@ == before[a].id@) by {
                        if a != i { assert(after[a] == before[a]); }
                    }
                    assert(after[c].id@ == before[c].id@) by {
                        if c != i { assert(after[c] == before[c]); }
                    }
                }
            }
        },
        None => {
            lemma_asset_slot_none(before, id, name, 0);
            assert forall|j: int| 0 <= j < after.len() implies (exists|k: int| 0 <= k < before.len() && #[trigger] after[j].id@ == before[k].id@)
                || after[j].id@ == id by {
                if j < before.len() {
                    assert(after[j] == before[j]);
                } else {
                    assert(after[j] == after.last());
                }
            }
            if ids_unique(before) {
                assert forall|a: int, c: int| 0 <= a < c < after.len() implies #[trigger] after[a].id@ != #[trigger] after[c].id@ by {
                    assert(after[a] == before[a]);
                    if c < before.len() {
                        assert(after[c] == before[c]);
                    } else {
                        assert(after[c] == after.last());
                        assert(before[a].id@ != id);
                    }
                }
            }
        },
    }
}

/// Saving an asset whose name is already stored (ignoring ASCII case and the
/// surrounding blanks of the new name) never adds an entry either: the first
/// entry with its id or name is replaced, keeping that entry's id and taking
/// the new name, and every other entry is left as it was.
pub proof fn lemma_upsert_replaces_a_named_entry(before: Seq<AssetProfile>, after: Seq<AssetProfile>, asset: AssetProfile, now: Seq<char>, now_ms: i64)
    requires
        upserted(before, after, asset, now, now_ms),
        exists|j: int| 0 <= j < before.len() && (#[trigger] before[j].id@ == asset_id(asset, now_ms)
            || eq_ignore_case(before[j].name@, trim(asset.name@))),
    ensures
        after.len() == before.len(),
        exists|i: int| 0 <= i < before.len()
            && #[trigger] after[i].id@ == before[i].id@ && after[i].name@ == trim(asset.name@)
            && (before[i].id@ == asset_id(asset, now_ms) || eq_ignore_case(before[i].name@, trim(asset.name@)))
            && forall|k: int| 0 <= k < before.len() && k != i ==> after[k] == before[k],
{
    let j = choose|j: int| 0 <= j < before.len() && (#[trigger] before[j].id@ == asset_id(asset, now_ms)
        || eq_ignore_case(before[j].name@, trim(asset.name@)));
    lemma_asset_slot_reaches_id(before, asset_id(asset, now_ms), trim(asset.name@), 0, j);
    lemma_asset_slot_found(before, asset_id(asset, now_ms), trim(asset.name@), 0);
}

proof fn lemma_asset_slot_found(assets: Seq<AssetProfile>, id: Seq<char>, name: Seq<char>, start: int)
    requires
        0 <= start,
    ensures
        asset_slot(assets, id, name, start) matches Some(i) ==> start <= i < assets.len()
            && (assets[i].id@ == id || eq_ignore_case(assets[i].name@, name)),
    decreases assets.len() - start,
{
    if start < assets.len() {
        lemma_asset_slot_found(assets, id, name, start + 1);
    }
}

/// Saves an asset into the library: a valid asset replaces the first entry
/// with its id or (case-insensitively) its name, keeping that entry's id,
/// and is appended otherwise. `now` and `now_ms` are the time of the save.
pub fn upsert_asset_in(library: &mut Vec<AssetProfile>, asset: AssetProfile, now: String, now_ms: i64) -> (r: Result<(), String>)
    ensures
        match asset_problem(asset) {
            Some(message) => r matches Err(m) && m@ == message && final(library)@ == old(library)@,
            None => r is Ok && upserted(old(library)@, final(library)@, asset, now@, now_ms),
        },
{
    match validate_asset(&asset) {
        Ok(()) => {},
        Err(message) => return Err(message),
    }
    let id = if blank(asset.id.as_str()) {
        let mut generated = slug(asset.name.as_str());
        push_str(&mut generated, "-");
        push_signed_decimal(&mut generated, now_ms);
        generated
    } else {
        asset.id.clone()
    };
    let name = trim_str(asset.name.as_str());
    match find_asset_slot(library, id.as_str(), name.as_str()) {
        Some(i) => {
            let stored = AssetProfile {
                id: library[i].id.clone(),
                name,
                data_path: asset.data_path,
                metadata_path: asset.metadata_path,
                source_timezone: asset.source_timezone,
                m1_data_path: asset.m1_data_path,
                m1_metadata_path: asset.m1_metadata_path,
                m1_source_timezone: asset.m1_source_timezone,
                broker_path: asset.broker_path,
                updated_at: now,
            };
            library.set(i, stored);
        },
        None => {
            let stored = AssetProfile {
                id,
                name,
                data_path: asset.data_path,
                metadata_path: asset.metadata_path,
                source_timezone: asset.source_timezone,
                m1_data_path: asset.m1_data_path,
                m1_metadata_path: asset.m1_metadata_path,
                m1_source_timezone: asset.m1_source_timezone,
                broker_path: asset.broker_path,
                updated_at: now,
            };
            library.push(stored);
        },
    }
    Ok(())
}

/// Saves an asset stamped with the current time (see `upsert_asset_in`);
/// refused, with the library unchanged, when the system clock gives no reading.
pub fn upsert_asset(library: &mut Vec<AssetProfile>, asset: AssetProfile) -> (r: Result<(), String>)
    ensures
        match asset_problem(asset) {
            Some(message) => r matches Err(m) && m@ == message && final(library)@ == old(library)@,
            None => match r {
                Ok(()) => exists|now: Seq<char>, now_ms: i64| #[trigger] upserted(old(library)@, final(library)@, asset, now, now_ms),
                Err(m) => m@ == clock_unavailable() && final(library)@ == old(library)@,
            },
        },
{
    match validate_asset(&asset) {
        Ok(()) => {},
        Err(message) => return Err(message),
    }
    let reading = match clock_reading() {
        Some(reading) => reading,
        None => return Err(owned("system clock reads before the Unix epoch or beyond the supported range")),
    };
    let now = match rfc3339_at(reading.secs, reading.nanos) {
        Some(now) => now,
        None => return Err(owned("system clock reads before the Unix epoch or beyond the supported range")),
    };
    let now_ms = millis_of(reading);
    let ghost now_view = now@;
    let result = upsert_asset_in(library, asset, now, now_ms);
    assert(upserted(old(library)@, library@, asset, now_view, now_ms));
    result
}

fn copy_text(value: &Option<String>) -> (r: Option<String>)
    ensures
        r == *value,
{
    match value {
        Some(v) => Some(v.clone()),
        None => None,
    }
}

/// An exact copy of a stored asset.
pub fn copy_asset(asset: &AssetProfile) -> (r: AssetProfile)
    ensures
        r == *asset,
{
    AssetProfile {
        id: asset.id.clone(),
        name: asset.name.clone(),
        data_path: asset.data_path.clone(),
        metadata_path: copy_text(&asset.metadata_path),
        source_timezone: copy_text(&asset.source_timezone),
        m1_data_path: copy_text(&asset.m1_data_path),
        m1_metadata_path: copy_text(&asset.m1_metadata_path),
        m1_source_timezone: copy_text(&asset.m1_source_timezone),
        broker_path: asset.broker_path.clone(),
        updated_at: asset.updated_at.clone(),
    }
}

/// The entries whose id is not `id`, in order.
pub open spec fn assets_without(assets: Seq<AssetProfile>, id: Seq<char>) -> Seq<AssetProfile>
    decreases assets.len(),
{
    if assets.len() == 0 {
        assets
    } else if assets.last().id@ == id {
        assets_without(assets.drop_last(), id)
    } else {
        assets_without(assets.drop_last(), id).push(assets.last())
    }
}

/// Removes every asset with this id; refuses when there is none.
pub fn delete_asset(library: &mut Vec<AssetProfile>, id: &str) -> (r: Result<(), String>)
    ensures
        assets_without(old(library)@, id@).len() == old(library)@.len() ==> (r matches Err(m)
            && m@ == "asset `"@ + id@ + "` was not found"@ && final(library)@ == old(library)@),
        assets_without(old(library)@, id@).len() < old(library)@.len() ==> (r is Ok
            && final(library)@ == assets_without(old(library)@, id@)),
{
    let mut kept: Vec<AssetProfile> = Vec::new();
    let mut i: usize = 0;
    while i < library.len()
        invariant
            library@ == old(library)@,
            i <= library@.len(),
            kept@ == assets_without(library@.subrange(0, i as int), id@),
            kept@.len() <= i,
        decreases library.len() - i,
    {
        proof {
            assert(library@.subrange(0, i + 1).drop_last() =~= library@.subrange(0, i as int));
        }
        if !str_eq(library[i].id.as_str(), id) {
            kept.push(copy_asset(&library[i]));
        }
        i = i + 1;
    }
    assert(library@.subrange(0, library@.len() as int) =~= library@);
    if kept.len() == library.len() {
        let mut message = owned("asset `");
        push_str(&mut message, id);
        push_str(&mut message, "` was not found");
        return Err(message);
    }
    *library = kept;
    Ok(())
}

/// A saved search-range or Discover profile, without its payload.
#[derive(Debug, Clone, PartialEq, Eq)]
pub struct ProfileEntry {
    pub id: String,
    pub name: String,
    pub updated_at: String,
}

pub open spec fn profile_slot(profiles: Seq<ProfileEntry>, id: Seq<char>, i: int) -> Option<int>
    decreases profiles.len() - i,
{
    if i < 0 || i >= profiles.len() {
        None
    } else if profiles[i].id@ == id {
        Some(i)
    } else {
        profile_slot(profiles, id, i + 1)
    }
}

/// The id a profile is saved under: its own, or `{prefix}{millis}` when blank.
pub open spec fn profile_id(requested: Seq<char>, prefix: Seq<char>, now_ms: i64) -> Seq<char> {
    if is_blank(requested) { prefix + signed_decimal(now_ms as int) } else { requested }
}

/// Saves a named profile: a blank name is refused with `name_error`; the
/// profile replaces the entry with its id, or is appended. Returns the slot
/// where the caller stores the profile's payload.
pub fn save_profile_entry(
    profiles: &mut Vec<ProfileEntry>,
    requested_id: &str,
    name: &str,
    id_prefix: &str,
    name_error: &str,
    now: String,
    now_ms: i64,
) -> (r: Result<usize, String>)
    ensures
        is_blank(name@) ==> (r matches Err(m) && m@ == name_error@ && final(profiles)@ == old(profiles)@),
        !is_blank(name@) ==> (r matches Ok(slot) && {
            let id = profile_id(requested_id@, id_prefix@, now_ms);
            &&& slot < final(profiles)@.len()
            &&& final(profiles)@[slot as int].id@ == id
            &&& final(profiles)@[slot as int].name@ == trim(name@)
            &&& final(profiles)@[slot as int].updated_at == now
            &&& match profile_slot(old(profiles)@, id, 0) {
                Some(i) => slot == i && final(profiles)@ == old(profiles)@.update(i, final(profiles)@[i]),
                None => slot == old(profiles)@.len() && final(profiles)@.drop_last() == old(profiles)@,
            }
        }),
{
    if blank(name) {
        return Err(owned(name_error));
    }
    let id = if blank(requested_id) {
        let mut generated = owned(id_prefix);
        push_signed_decimal(&mut generated, now_ms);
        generated
    } else {
        owned(requested_id)
    };
    let entry = ProfileEntry { id, name: trim_str(name), updated_at: now };
    let mut i: usize = 0;
    while i < profiles.len()
        invariant
            !is_blank(name@),
            entry.id@ == profile_id(requested_id@, id_prefix@, now_ms),
            entry.name@ == trim(name@),
            entry.updated_at == now,
            profiles@ == old(profiles)@,
            i <= profiles@.len(),
            profile_slot(profiles@, entry.id@, 0) == profile_slot(profiles@, entry.id@, i as int),
        decreases profiles.len() - i,
    {
        if str_eq(profiles[i].id.as_str(), entry.id.as_str()) {
            profiles.set(i, entry);
            return Ok(i);
        }
        i = i + 1;
    }
    let slot = profiles.len();
    profiles.push(entry);
    assert(profiles@.drop_last() =~= old(profiles)@);
    Ok(slot)
}

pub open spec fn profiles_without(profiles: Seq<ProfileEntry>, id: Seq<char>) -> Seq<ProfileEntry>
    decreases profiles.len(),
{
    if profiles.len() == 0 {
        profiles
    } else if profiles.last().id@ == id {
        profiles_without(profiles.drop_last(), id)
    } else {
        profiles_without(profiles.drop_last(), id).push(profiles.last())
    }
}

/// The slots kept when every profile with this id is removed, in order;
/// refuses with `not_found` when there is none.
pub fn delete_profile_entry(profiles: &Vec<ProfileEntry>, id: &str, not_found: &str) -> (r: Result<Vec<usize>, String>)
    ensures
        profiles_without(profiles@, id@).len() == profiles@.len() ==> (r matches Err(m) && m@ == not_found@),
        profiles_without(profiles@, id@).len() < profiles@.len() ==> (r matches Ok(slots)
            && slots@.map_values(|k: usize| profiles@[k as int]) == profiles_without(profiles@, id@)
            && forall|k: int| 0 <= k < slots@.len() ==> #[trigger] slots@[k] < profiles@.len()),
{
    let mut slots: Vec<usize> = Vec::new();
    let mut i: usize = 0;
    while i < profiles.len()
        invariant
            i <= profiles@.len(),
            slots@.map_values(|k: usize| profiles@[k as int]) == profiles_without(profiles@.subrange(0, i as int), id@),
            forall|k: int| 0 <= k < slots@.len() ==> #[trigger] slots@[k] < i,
            slots@.len() <= i,
        decreases profiles.len() - i,
    {
        let ghost before = slots@;
        proof {
            assert(profiles@.subrange(0, i + 1).drop_last() =~= profiles@.subrange(0, i as int));
        }
        if !str_eq(profiles[i].id.as_str(), id) {
            slots.push(i);
            proof {
                assert(slots@.map_values(|k: usize| profiles@[k as int]) =~= before.map_values(|k: usize| profiles@[k as int]).push(profiles@[i as int]));
            }
        }
        i = i + 1;
    }
    assert(profiles@.subrange(0, profiles@.len() as int) =~= profiles@);
    if slots.len() == profiles.len() {
        return Err(owned(not_found));
    }
    Ok(slots)
}

/// The prefix of every data-pack file name.
pub open spec fn demo_prefix() -> Seq<char> {
    "ICMarketsSC-Demo_"@
}

/// `ICMarketsSC-Demo_{symbol}_{timeframe}_…​.tsv`.
pub open spec fn is_pack_file_name(name: Seq<char>, symbol: Seq<char>, timeframe: Seq<char>) -> bool {
    starts_with(name, demo_prefix() + symbol + "_"@ + timeframe + "_"@) && ends_with(name, ".tsv"@)
}

pub fn pack_file_matches(name: &str, symbol: &str, timeframe: &str) -> (r: bool)
    ensures
        r == is_pack_file_name(name@, symbol@, timeframe@),
{
    let mut prefix = owned("ICMarketsSC-Demo_");
    push_str(&mut prefix, symbol);
    push_str(&mut prefix, "_");
    push_str(&mut prefix, timeframe);
    push_str(&mut prefix, "_");
    starts_with_str(name, prefix.as_str()) && ends_with_str(name, ".tsv")
}

/// Strict lexicographic order of texts by code point, the order of their
/// UTF-8 bytes.
pub open spec fn text_less(a: Seq<char>, b: Seq<char>) -> bool
    decreases a.len(),
{
    if a.len() == 0 {
        b.len() > 0
    } else if b.len() == 0 {
        false
    } else if a[0] != b[0] {
        a[0] < b[0]
    } else {
        text_less(a.drop_first(), b.drop_first())
    }
}

pub fn str_less(a: &str, b: &str) -> (r: bool)
    ensures
        r == text_less(a@, b@),
{
    let x = to_char_vec(a);
    let y = to_char_vec(b);
    let mut i: usize = 0;
    proof {
        assert(a@.subrange(0, a@.len() as int) =~= a@);
        assert(b@.subrange(0, b@.len() as int) =~= b@);
    }
    while i < x.len() && i < y.len() && x[i] == y[i]
        invariant
            x@ == a@,
            y@ == b@,
            i <= x@.len(),
            i <= y@.len(),
            text_less(a@, b@) == text_less(a@.subrange(i as int, a@.len() as int), b@.subrange(i as int, b@.len() as int)),
        decreases x.len() - i,
    {
        proof {
            let sa = a@.subrange(i as int, a@.len() as int);
            let sb = b@.subrange(i as int, b@.len() as int);
            assert(sa.drop_first() =~= a@.subrange(i + 1, a@.len() as int));
            assert(sb.drop_first() =~= b@.subrange(i + 1, b@.len() as int));
        }
        i = i + 1;
    }
    let ghost sa = a@.subrange(i as int, a@.len() as int);
    let ghost sb = b@.subrange(i as int, b@.len() as int);
    if i == x.len() {
        assert(sa.len() == 0);
        i < y.len()
    } else if i == y.len() {
        assert(sb.len() == 0);
        false
    } else {
        assert(sa[0] == x@[i as int]);
        assert(sb[0] == y@[i as int]);
        assert(x@[i as int] != y@[i as int]);
        x[i] < y[i]
    }
}

/// The data-pack file a symbol's timeframe uses: of the matching names, the
/// first in lexicographic order, so the pack with the earliest start year (the
/// longest history, `2016_present` over `2020_present`) wins.
pub fn preferred_pack_file(names: &Vec<String>, symbol: &str, timeframe: &str) -> (r: Option<usize>)
    ensures
        match r {
            Some(i) => i < names@.len() && is_pack_file_name(names@[i as int]@, symbol@, timeframe@)
                && forall|j: int| 0 <= j < names@.len() && is_pack_file_name(#[trigger] names@[j]@, symbol@, timeframe@)
                    ==> !text_less(names@[j]@, names@[i as int]@),
            None => forall|j: int| 0 <= j < names@.len() ==> !is_pack_file_name(#[trigger] names@[j]@, symbol@, timeframe@),
        },
{
    let mut best: Option<usize> = None;
    let mut i: usize = 0;
    while i < names.len()
        invariant
            i <= names@.len(),
            match best {
                Some(b) => b < i && is_pack_file_name(names@[b as int]@, symbol@, timeframe@)
                    && forall|j: int| 0 <= j < i && is_pack_file_name(#[trigger] names@[j]@, symbol@, timeframe@)
                        ==> !text_less(names@[j]@, names@[b as int]@),
                None => forall|j: int| 0 <= j < i ==> !is_pack_file_name(#[trigger] names@[j]@, symbol@, timeframe@),
            },
        decreases names.len() - i,
    {
        if pack_file_matches(names[i].as_str(), symbol, timeframe) {
            match best {
                None => {
                    best = Some(i);
                    proof {
                        lemma_text_less_irreflexive(names@[i as int]@);
                    }
                },
                Some(b) => {
                    if str_less(names[i].as_str(), names[b].as_str()) {
                        proof {
                            lemma_text_less_irreflexive(names@[i as int]@);
                            assert forall|j: int| 0 <= j < i + 1 && is_pack_file_name(#[trigger] names@[j]@, symbol@, timeframe@)
                                implies !text_less(names@[j]@, names@[i as int]@) by {
                                if j < i && text_less(names@[j]@, names@[i as int]@) {
                                    lemma_text_less_transitive(names@[j]@, names@[i as int]@, names@[b as int]@);
                                }
                            }
                        }
                        best = Some(i);
                    }
                },
            }
        }
        i = i + 1;
    }
    best
}

pub proof fn lemma_text_less_irreflexive(a: Seq<char>)
    ensures
        !text_less(a, a),
    decreases a.len(),
{
    if a.len() > 0 {
        lemma_text_less_irreflexive(a.drop_first());
    }
}

/// `b < c` and not `b < a`... gives not `c < a` when `a <= b`: used as
/// "if `b < c` then nothing up to `b` is above `c`".
pub proof fn lemma_text_less_order(a: Seq<char>, b: Seq<char>, c: Seq<char>)
    requires
        !text_less(b, a),
        text_less(b, c),
    ensures
        !text_less(c, a),
    decreases a.len(),
{
    if a.len() > 0 && b.len() > 0 && c.len() > 0 && a[0] == b[0] && b[0] == c[0] {
        lemma_text_less_order(a.drop_first(), b.drop_first(), c.drop_first());
    }
}

/// The text order is transitive.
pub proof fn lemma_text_less_transitive(a: Seq<char>, b: Seq<char>, c: Seq<char>)
    requires
        text_less(a, b),
        text_less(b, c),
    ensures
        text_less(a, c),
    decreases a.len(),
{
    if a.len() > 0 && b.len() > 0 && c.len() > 0 && a[0] == b[0] && b[0] == c[0] {
        lemma_text_less_transitive(a.drop_first(), b.drop_first(), c.drop_first());
    }
}

/// Two texts are equal or one is before the other.
pub proof fn lemma_text_less_total(a: Seq<char>, b: Seq<char>)
    ensures
        text_less(a, b) || text_less(b, a) || a =~= b,
    decreases a.len(),
{
    if a.len() > 0 && b.len() > 0 && a[0] == b[0] {
        lemma_text_less_total(a.drop_first(), b.drop_first());
        if a.drop_first() =~= b.drop_first() {
            assert(a =~= b) by {
                assert forall|k: int| 0 <= k < a.len() implies a[k] == b[k] by {
                    if k > 0 {
                        assert(a[k] == a.drop_first()[k - 1]);
                        assert(b[k] == b.drop_first()[k - 1]);
                    }
                }
            }
        }
    }
}

/// `value` with every trailing copy of `suffix` removed.
pub open spec fn strip_all_suffixes(value: Seq<char>, suffix: Seq<char>) -> Seq<char>
    decreases value.len(),
{
    if suffix.len() > 0 && ends_with(value, suffix) {
        strip_all_suffixes(value.subrange(0, value.len() - suffix.len()), suffix)
    } else {
        value
    }
}

/// The symbol of a data-pack broker profile `{SYMBOL}.broker.json`.
pub open spec fn broker_file_symbol_of(name: Seq<char>) -> Option<Seq<char>> {
    if !ends_with(name, ".broker.json"@) {
        None
    } else {
        let symbol = strip_all_suffixes(name, ".broker.json"@);
        if symbol.len() == 0 { None } else { Some(symbol) }
    }
}

pub fn broker_file_symbol(name: &str) -> (r: Option<String>)
    ensures
        match broker_file_symbol_of(name@) {
            Some(symbol) => r matches Some(s) && s@ == symbol,
            None => r is None,
        },
{
    if !ends_with_str(name, ".broker.json") {
        return None;
    }
    proof {
        reveal_strlit(".broker.json");
    }
    let mut symbol = owned(name);
    loop
        invariant
            strip_all_suffixes(symbol@, ".broker.json"@) == strip_all_suffixes(name@, ".broker.json"@),
        ensures
            strip_all_suffixes(symbol@, ".broker.json"@) == strip_all_suffixes(name@, ".broker.json"@),
            !ends_with(symbol@, ".broker.json"@),
        decreases symbol@.len(),
    {
        proof {
            reveal_strlit(".broker.json");
        }
        match strip_suffix_str(symbol.as_str(), ".broker.json") {
            Some(shorter) => {
                symbol = shorter;
            },
            None => break,
        }
    }
    if symbol.as_str().unicode_len() == 0 {
        None
    } else {
        Some(symbol)
    }
}

/// The quote sidecar `{stem}.quotes.csv` beside a pack's M1 file, if it is a file.
pub fn infer_pack_quote_path(m1_path: &str) -> (r: Option<String>)
    ensures
        r matches Some(p) ==> (path_file_stem(m1_path@) matches Some(stem)
            && p@ == path_with_file_name(m1_path@, stem + ".quotes.csv"@)),
        path_file_stem(m1_path@) is None ==> r is None,
{
    let stem = match file_stem(m1_path) {
        Some(s) => s,
        None => return None,
    };
    let mut name = stem;
    push_str(&mut name, ".quotes.csv");
    let candidate = with_file_name(m1_path, name.as_str());
    if is_file(candidate.as_str()) { Some(candidate) } else { None }
}

/// `{runs_root}/{symbol}/Databank/quantforge-databank.json`.
pub fn default_databank_path(runs_root: &str, symbol: &str) -> (r: String)
    ensures
        r@ == path_join(path_join(path_join(runs_root@, symbol@), "Databank"@), "quantforge-databank.json"@),
{
    let symbol_dir = join(runs_root, symbol);
    let databank = join(symbol_dir.as_str(), "Databank");
    join(databank.as_str(), "quantforge-databank.json")
}

pub open spec fn preferred_runs_root(home: Seq<char>) -> Seq<char> {
    path_join(path_join(path_join(home, "Documents"@), "QuantForge"@), "runs"@)
}

/// Where runs are archived: `~/Documents/QuantForge/runs` when the
/// QuantForge folder exists, else `runs` in the working directory.
pub fn quantforge_runs_root(home: Option<&str>) -> (r: String)
    ensures
        home is None ==> r@ == "runs"@,
        home matches Some(h) ==> (r@ == preferred_runs_root(h@) || r@ == "runs"@),
{
    match home {
        Some(h) => {
            let documents = join(h, "Documents");
            let quantforge = join(documents.as_str(), "QuantForge");
            let preferred = join(quantforge.as_str(), "runs");
            let is_home_folder = match parent(preferred.as_str()) {
                Some(p) => is_dir(p.as_str()),
                None => false,
            };
            if is_home_folder { preferred } else { owned("runs") }
        },
        None => owned("runs"),
    }
}

/// The bundled pack folder names, newest first.
pub open spec fn data_pack_names() -> Seq<Seq<char>> {
    seq!["ICMarkets_EST7_2016_present"@, "ICMarkets_EST7_2020_present"@]
}

/// Where a data pack is looked for, in order: the override, each pack name
/// under `~/Documents/QuantForge`, then under the working directory, its
/// parent and its `Documents/QuantForge`.
pub open spec fn data_pack_candidate_paths(override_path: Option<Seq<char>>, home: Option<Seq<char>>, cwd: Option<Seq<char>>) -> Seq<Seq<char>> {
    let names = data_pack_names();
    let first = match override_path { Some(p) => seq![p], None => Seq::empty() };
    let from_home = match home {
        Some(h) => seq![
            path_join(path_join(path_join(h, "Documents"@), "QuantForge"@), names[0]),
            path_join(path_join(path_join(h, "Documents"@), "QuantForge"@), names[1]),
        ],
        None => Seq::empty(),
    };
    let from_cwd = match cwd {
        Some(c) => seq![
            path_join(c, names[0]),
            path_join(path_join(c, ".."@), names[0]),
            path_join(path_join(path_join(c, "Documents"@), "QuantForge"@), names[0]),
            path_join(c, names[1]),
            path_join(path_join(c, ".."@), names[1]),
            path_join(path_join(path_join(c, "Documents"@), "QuantForge"@), names[1]),
        ],
        None => Seq::empty(),
    };
    first + from_home + from_cwd
}

fn push_home_candidates(out: &mut Vec<String>, home: &str, name: &str)
    ensures
        string_views(final(out)@) == string_views(old(out)@)
            .push(path_join(path_join(path_join(home@, "Documents"@), "QuantForge"@), name@)),
{
    let documents = join(home, "Documents");
    let quantforge = join(documents.as_str(), "QuantForge");
    let ghost before = string_views(out@);
    out.push(join(quantforge.as_str(), name));
    assert(string_views(out@) =~= before.push(path_join(path_join(path_join(home@, "Documents"@), "QuantForge"@), name@)));
}

fn push_cwd_candidates(out: &mut Vec<String>, cwd: &str, name: &str)
    ensures
        string_views(final(out)@) == string_views(old(out)@) + seq![
            path_join(cwd@, name@),
            path_join(path_join(cwd@, ".."@), name@),
            path_join(path_join(path_join(cwd@, "Documents"@), "QuantForge"@), name@),
        ],
{
    let ghost before = string_views(out@);
    out.push(join(cwd, name));
    let up = join(cwd, "..");
    out.push(join(up.as_str(), name));
    let documents = join(cwd, "Documents");
    let quantforge = join(documents.as_str(), "QuantForge");
    out.push(join(quantforge.as_str(), name));
    assert(string_views(out@) =~= before + seq![
        path_join(cwd@, name@),
        path_join(path_join(cwd@, ".."@), name@),
        path_join(path_join(path_join(cwd@, "Documents"@), "QuantForge"@), name@),
    ]);
}

pub fn data_pack_candidates(override_path: Option<&str>, home: Option<&str>, cwd: Option<&str>) -> (r: Vec<String>)
    ensures
        string_views(r@) == data_pack_candidate_paths(
            match override_path { Some(p) => Some(p@), None => None },
            match home { Some(h) => Some(h@), None => None },
            match cwd { Some(c) => Some(c@), None => None },
        ),
{
    let mut out: Vec<String> = Vec::new();
    match override_path {
        Some(p) => out.push(owned(p)),
        None => {},
    }
    let ghost first = string_views(out@);
    match home {
        Some(h) => {
            push_home_candidates(&mut out, h, "ICMarkets_EST7_2016_present");
            push_home_candidates(&mut out, h, "ICMarkets_EST7_2020_present");
        },
        None => {},
    }
    let ghost second = string_views(out@);
    match cwd {
        Some(c) => {
            push_cwd_candidates(&mut out, c, "ICMarkets_EST7_2016_present");
            push_cwd_candidates(&mut out, c, "ICMarkets_EST7_2020_present");
        },
        None => {},
    }
    assert(string_views(out@) =~= data_pack_candidate_paths(
        match override_path { Some(p) => Some(p@), None => None },
        match home { Some(h) => Some(h@), None => None },
        match cwd { Some(c) => Some(c@), None => None },
    ));
    out
}

/// The first candidate folder that exists, or the message naming the packs.
pub fn resolve_data_pack_root(override_path: Option<&str>, home: Option<&str>, cwd: Option<&str>) -> (r: Result<String, String>)
    ensures
        r matches Ok(root) ==> data_pack_candidate_paths(
            match override_path { Some(p) => Some(p@), None => None },
            match home { Some(h) => Some(h@), None => None },
            match cwd { Some(c) => Some(c@), None => None },
        ).contains(root@),
        r matches Err(m) ==> m@ == "data pack not found; set QUANTFORGE_DATA_PACK or place one of [ICMarkets_EST7_2016_present, ICMarkets_EST7_2020_present] under Documents/QuantForge"@,
{
    let candidates = data_pack_candidates(override_path, home, cwd);
    let mut found: Vec<bool> = Vec::new();
    let mut i: usize = 0;
    while i < candidates.len()
        invariant
            i <= candidates.len(),
            found.len() == i,
        decreases candidates.len() - i,
    {
        found.push(is_dir(candidates[i].as_str()));
        i = i + 1;
    }
    proof {
        lemma_first_set_is_least(found@, found.len() as int);
        match first_set(found@, found.len() as int) {
            Some(k) => assert(string_views(candidates@)[k] == candidates@[k]@),
            None => {},
        }
    }
    match first_existing_candidate(&candidates, &found) {
        Some(root) => Ok(root),
        None => Err(owned("data pack not found; set QUANTFORGE_DATA_PACK or place one of [ICMarkets_EST7_2016_present, ICMarkets_EST7_2020_present] under Documents/QuantForge")),
    }
}

} // verus!
