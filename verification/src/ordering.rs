//! Stable ordering by text keys, the order every listing of the desktop uses:
//! symbols of a data pack, saved assets and profiles by name (ignoring ASCII
//! case), Challenge results by strategy path, and matching file names.
use vstd::prelude::*;
use vstd::set_lib::{lemma_int_range, lemma_map_size, lemma_subset_equality, set_int_range};
use crate::assets::{
    copy_asset, lemma_text_less_irreflexive, lemma_text_less_total, lemma_text_less_transitive, str_less,
    text_less, AssetProfile, ProfileEntry, SymbolPack,
};
use crate::text::{lower_seq, lower_str, str_eq, string_views};

verus! {

/// Entry `j` comes before entry `i`: a smaller key, or an equal key earlier.
pub open spec fn sorts_before(keys: Seq<Seq<char>>, j: int, i: int) -> bool {
    text_less(keys[j], keys[i]) || (keys[j] == keys[i] && j < i)
}

/// How many of the first `n` entries come before entry `i`.
pub open spec fn count_before(keys: Seq<Seq<char>>, n: int, i: int) -> nat
    decreases n,
{
    if n <= 0 {
        0
    } else {
        count_before(keys, n - 1, i) + if sorts_before(keys, n - 1, i) { 1nat } else { 0nat }
    }
}

/// Where entry `i` lands in a stable sort by key.
pub open spec fn sorted_position(keys: Seq<Seq<char>>, i: int) -> nat {
    count_before(keys, keys.len() as int, i)
}

/// Some entry lands at position `k`.
pub open spec fn position_filled(keys: Seq<Seq<char>>, k: int) -> bool {
    exists|i: int| 0 <= i < keys.len() && #[trigger] sorted_position(keys, i) == k
}

proof fn lemma_sorts_before_transitive(keys: Seq<Seq<char>>, a: int, b: int, c: int)
    requires
        0 <= a < keys.len(),
        0 <= b < keys.len(),
        0 <= c < keys.len(),
        sorts_before(keys, a, b),
        sorts_before(keys, b, c),
    ensures
        sorts_before(keys, a, c),
{
    if text_less(keys[a], keys[b]) && text_less(keys[b], keys[c]) {
        lemma_text_less_transitive(keys[a], keys[b], keys[c]);
    }
}

proof fn lemma_count_bound(keys: Seq<Seq<char>>, n: int, i: int)
    requires
        0 <= n <= keys.len(),
        0 <= i < keys.len(),
    ensures
        count_before(keys, n, i) <= n,
        i < n ==> count_before(keys, n, i) < n,
    decreases n,
{
    if n > 0 {
        lemma_count_bound(keys, n - 1, i);
        if n - 1 == i {
            lemma_text_less_irreflexive(keys[i]);
        }
    }
}

proof fn lemma_count_grows(keys: Seq<Seq<char>>, n: int, a: int, b: int)
    requires
        0 <= n <= keys.len(),
        0 <= a < keys.len(),
        0 <= b < keys.len(),
        sorts_before(keys, a, b),
    ensures
        count_before(keys, n, b) >= count_before(keys, n, a) + if a < n { 1int } else { 0int },
    decreases n,
{
    if n > 0 {
        lemma_count_grows(keys, n - 1, a, b);
        lemma_text_less_irreflexive(keys[a]);
        if sorts_before(keys, n - 1, a) {
            lemma_sorts_before_transitive(keys, n - 1, a, b);
        }
    }
}

proof fn lemma_one_sorts_before_other(keys: Seq<Seq<char>>, a: int, b: int)
    requires
        0 <= a < keys.len(),
        0 <= b < keys.len(),
        a != b,
    ensures
        sorts_before(keys, a, b) || sorts_before(keys, b, a),
{
    lemma_text_less_total(keys[a], keys[b]);
}

/// Distinct entries land at distinct positions.
pub proof fn lemma_positions_distinct(keys: Seq<Seq<char>>, a: int, b: int)
    requires
        0 <= a < keys.len(),
        0 <= b < keys.len(),
        a != b,
    ensures
        sorted_position(keys, a) != sorted_position(keys, b),
{
    lemma_one_sorts_before_other(keys, a, b);
    if sorts_before(keys, a, b) {
        lemma_count_grows(keys, keys.len() as int, a, b);
    } else {
        lemma_count_grows(keys, keys.len() as int, b, a);
    }
}

/// Every position below the number of entries is filled.
pub proof fn lemma_positions_cover(keys: Seq<Seq<char>>, k: int)
    requires
        0 <= k < keys.len(),
    ensures
        position_filled(keys, k),
{
    let n = keys.len() as int;
    let indices = set_int_range(0, n);
    let f = |i: int| sorted_position(keys, i) as int;
    let positions = indices.map(f);
    lemma_int_range(0, n);
    assert forall|x1: int, x2: int| indices.contains(x1) && indices.contains(x2) && #[trigger] f(x1) == #[trigger] f(x2) implies x1 == x2 by {
        if x1 != x2 {
            lemma_positions_distinct(keys, x1, x2);
        }
    }
    lemma_map_size(indices, positions, f);
    assert forall|p: int| positions.contains(p) implies indices.contains(p) by {
        let i = choose|i: int| indices.contains(i) && p == f(i);
        lemma_count_bound(keys, n, i);
    }
    lemma_subset_equality(positions, indices);
    assert(positions.contains(k));
    let i = choose|i: int| indices.contains(i) && k == f(i);
    assert(0 <= i < n && sorted_position(keys, i) == k);
}

fn position_of(keys: &Vec<String>, i: usize) -> (r: usize)
    requires
        i < keys.len(),
    ensures
        r == sorted_position(string_views(keys@), i as int),
        r < keys.len(),
{
    let ghost view = string_views(keys@);
    let mut r: usize = 0;
    let mut j: usize = 0;
    while j < keys.len()
        invariant
            view == string_views(keys@),
            i < keys.len(),
            j <= keys.len(),
            r == count_before(view, j as int, i as int),
        decreases keys.len() - j,
    {
        proof {
            lemma_count_bound(view, j as int, i as int);
        }
        if str_less(keys[j].as_str(), keys[i].as_str()) || (j < i && str_eq(keys[j].as_str(), keys[i].as_str())) {
            r = r + 1;
        }
        j = j + 1;
    }
    proof {
        lemma_count_bound(view, keys.len() as int, i as int);
    }
    r
}

/// The stable sort of the entries by key, as the list of entry indices:
/// entry `i` is listed at its sorted position, and the keys read in the
/// listed order never decrease.
pub fn stable_text_order(keys: &Vec<String>) -> (r: Vec<usize>)
    ensures
        r.len() == keys.len(),
        forall|i: int| 0 <= i < keys.len() ==> #[trigger] sorted_position(string_views(keys@), i) < keys.len(),
        forall|i: int| 0 <= i < keys.len() ==> r@[#[trigger] sorted_position(string_views(keys@), i) as int] == i,
        forall|k: int| 0 <= k < r.len() ==> r@[k] < keys.len() && sorted_position(string_views(keys@), #[trigger] r@[k] as int) == k,
        forall|a: int, b: int| 0 <= a < b < r.len() ==> !text_less(keys@[#[trigger] r@[b] as int]@, keys@[#[trigger] r@[a] as int]@),
{
    let ghost view = string_views(keys@);
    let n = keys.len();
    let mut order: Vec<usize> = Vec::new();
    let mut k: usize = 0;
    while k < n
        invariant
            n == keys.len(),
            k <= n,
            order.len() == k,
        decreases n - k,
    {
        order.push(0);
        k = k + 1;
    }
    let mut i: usize = 0;
    while i < n
        invariant
            view == string_views(keys@),
            n == keys.len(),
            order.len() == n,
            i <= n,
            forall|j: int| 0 <= j < i ==> order@[#[trigger] sorted_position(view, j) as int] == j,
        decreases n - i,
    {
        let position = position_of(keys, i);
        let ghost before = order@;
        order.set(position, i);
        proof {
            assert forall|j: int| 0 <= j < i + 1 implies order@[#[trigger] sorted_position(view, j) as int] == j by {
                if j != i as int {
                    lemma_positions_distinct(view, j, i as int);
                    lemma_count_bound(view, n as int, j);
                    assert(order@[sorted_position(view, j) as int] == before[sorted_position(view, j) as int]);
                }
            }
        }
        i = i + 1;
    }
    proof {
        assert forall|i: int| 0 <= i < keys.len() implies #[trigger] sorted_position(view, i) < keys.len() by {
            lemma_count_bound(view, n as int, i);
        }
        assert forall|k: int| 0 <= k < order.len() implies order@[k] < keys.len() && sorted_position(view, #[trigger] order@[k] as int) == k by {
            lemma_positions_cover(view, k);
            let j = choose|j: int| 0 <= j < view.len() && #[trigger] sorted_position(view, j) == k;
            assert(order@[sorted_position(view, j) as int] == j);
        }
        assert forall|a: int, b: int| 0 <= a < b < order.len() implies !text_less(keys@[#[trigger] order@[b] as int]@, keys@[#[trigger] order@[a] as int]@) by {
            let x = order@[a] as int;
            let y = order@[b] as int;
            assert(sorted_position(view, x) == a);
            assert(sorted_position(view, y) == b);
            if text_less(view[y], view[x]) {
                assert(sorts_before(view, y, x));
                lemma_count_grows(view, n as int, y, x);
            }
        }
    }
    order
}

/// Keys compared without ASCII case.
pub fn ascii_lowercase_keys(values: &Vec<String>) -> (r: Vec<String>)
    ensures
        r.len() == values.len(),
        forall|i: int| 0 <= i < values.len() ==> #[trigger] r@[i]@ == lower_seq(values@[i]@),
{
    let mut out: Vec<String> = Vec::new();
    let mut i: usize = 0;
    while i < values.len()
        invariant
            i <= values.len(),
            out.len() == i,
            forall|k: int| 0 <= k < i ==> #[trigger] out@[k]@ == lower_seq(values@[k]@),
        decreases values.len() - i,
    {
        out.push(lower_str(values[i].as_str()));
        i = i + 1;
    }
    out
}

pub open spec fn asset_name_keys(assets: Seq<AssetProfile>) -> Seq<Seq<char>> {
    assets.map_values(|a: AssetProfile| lower_seq(a.name@))
}

/// The asset library as saved: ordered by name without ASCII case, ties in
/// their stored order.
pub fn sort_assets_by_name(assets: &Vec<AssetProfile>) -> (r: Vec<AssetProfile>)
    ensures
        r.len() == assets.len(),
        forall|i: int| 0 <= i < assets.len() ==> r@[#[trigger] sorted_position(asset_name_keys(assets@), i) as int] == assets@[i],
{
    let mut names: Vec<String> = Vec::new();
    let mut i: usize = 0;
    while i < assets.len()
        invariant
            i <= assets.len(),
            names.len() == i,
            forall|k: int| 0 <= k < i ==> #[trigger] names@[k]@ == assets@[k].name@,
        decreases assets.len() - i,
    {
        names.push(assets[i].name.clone());
        i = i + 1;
    }
    let keys = ascii_lowercase_keys(&names);
    assert(string_views(keys@) =~= asset_name_keys(assets@));
    let order = stable_text_order(&keys);
    let mut out: Vec<AssetProfile> = Vec::new();
    let mut k: usize = 0;
    while k < order.len()
        invariant
            order.len() == assets.len(),
            k <= order.len(),
            out.len() == k,
            forall|m: int| 0 <= m < order.len() ==> order@[m] < assets.len(),
            forall|m: int| 0 <= m < k ==> out@[m] == assets@[order@[m] as int],
        decreases order.len() - k,
    {
        out.push(copy_asset(&assets[order[k]]));
        k = k + 1;
    }
    proof {
        assert forall|i: int| 0 <= i < assets.len() implies out@[#[trigger] sorted_position(asset_name_keys(assets@), i) as int] == assets@[i] by {
            let p = sorted_position(string_views(keys@), i) as int;
            assert(order@[p] == i);
        }
    }
    out
}

pub open spec fn profile_name_keys(profiles: Seq<ProfileEntry>) -> Seq<Seq<char>> {
    profiles.map_values(|p: ProfileEntry| lower_seq(p.name@))
}

/// Saved profiles as listed: by name without ASCII case, ties in stored order.
pub fn sort_profiles_by_name(profiles: &Vec<ProfileEntry>) -> (r: Vec<ProfileEntry>)
    ensures
        r.len() == profiles.len(),
        forall|i: int| 0 <= i < profiles.len() ==> r@[#[trigger] sorted_position(profile_name_keys(profiles@), i) as int] == profiles@[i],
{
    let mut names: Vec<String> = Vec::new();
    let mut i: usize = 0;
    while i < profiles.len()
        invariant
            i <= profiles.len(),
            names.len() == i,
            forall|k: int| 0 <= k < i ==> #[trigger] names@[k]@ == profiles@[k].name@,
        decreases profiles.len() - i,
    {
        names.push(profiles[i].name.clone());
        i = i + 1;
    }
    let keys = ascii_lowercase_keys(&names);
    assert(string_views(keys@) =~= profile_name_keys(profiles@));
    let order = stable_text_order(&keys);
    let mut out: Vec<ProfileEntry> = Vec::new();
    let mut k: usize = 0;
    while k < order.len()
        invariant
            order.len() == profiles.len(),
            k <= order.len(),
            out.len() == k,
            forall|m: int| 0 <= m < order.len() ==> order@[m] < profiles.len(),
            forall|m: int| 0 <= m < k ==> out@[m] == profiles@[order@[m] as int],
        decreases order.len() - k,
    {
        let p = &profiles[order[k]];
        out.push(ProfileEntry { id: p.id.clone(), name: p.name.clone(), updated_at: p.updated_at.clone() });
        k = k + 1;
    }
    proof {
        assert forall|i: int| 0 <= i < profiles.len() implies out@[#[trigger] sorted_position(profile_name_keys(profiles@), i) as int] == profiles@[i] by {
            let p = sorted_position(string_views(keys@), i) as int;
            assert(order@[p] == i);
        }
    }
    out
}

fn copy_optional(value: &Option<String>) -> (r: Option<String>)
    ensures
        r == *value,
{
    match value {
        Some(s) => Some(s.clone()),
        None => None,
    }
}

pub open spec fn pack_symbol_keys(packs: Seq<SymbolPack>) -> Seq<Seq<char>> {
    packs.map_values(|p: SymbolPack| p.symbol@)
}

/// Data-pack symbols as listed: by symbol.
pub fn sort_symbol_packs(packs: &Vec<SymbolPack>) -> (r: Vec<SymbolPack>)
    ensures
        r.len() == packs.len(),
        forall|i: int| 0 <= i < packs.len() ==> r@[#[trigger] sorted_position(pack_symbol_keys(packs@), i) as int] == packs@[i],
{
    let mut keys: Vec<String> = Vec::new();
    let mut i: usize = 0;
    while i < packs.len()
        invariant
            i <= packs.len(),
            keys.len() == i,
            forall|k: int| 0 <= k < i ==> #[trigger] keys@[k]@ == packs@[k].symbol@,
        decreases packs.len() - i,
    {
        keys.push(packs[i].symbol.clone());
        i = i + 1;
    }
    assert(string_views(keys@) =~= pack_symbol_keys(packs@));
    let order = stable_text_order(&keys);
    let mut out: Vec<SymbolPack> = Vec::new();
    let mut k: usize = 0;
    while k < order.len()
        invariant
            order.len() == packs.len(),
            k <= order.len(),
            out.len() == k,
            forall|m: int| 0 <= m < order.len() ==> order@[m] < packs.len(),
            forall|m: int| 0 <= m < k ==> out@[m] == packs@[order@[m] as int],
        decreases order.len() - k,
    {
        let p = &packs[order[k]];
        out.push(SymbolPack {
            symbol: p.symbol.clone(),
            data_path: p.data_path.clone(),
            metadata_path: p.metadata_path.clone(),
            m1_data_path: p.m1_data_path.clone(),
            m1_metadata_path: p.m1_metadata_path.clone(),
            quote_path: copy_optional(&p.quote_path),
            broker_path: p.broker_path.clone(),
            default_databank_path: p.default_databank_path.clone(),
            pack_root: p.pack_root.clone(),
        });
        k = k + 1;
    }
    proof {
        assert forall|i: int| 0 <= i < packs.len() implies out@[#[trigger] sorted_position(pack_symbol_keys(packs@), i) as int] == packs@[i] by {
            let p = sorted_position(string_views(keys@), i) as int;
            assert(order@[p] == i);
        }
    }
    out
}

} // verus!
