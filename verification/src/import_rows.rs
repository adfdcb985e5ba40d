//! How imported market rows become bars: ticks are grouped into the minute
//! that contains them, headerless OHLC rows are keyed by their timestamp, and
//! each imported series is written with a metadata file that describes it.
use vstd::prelude::*;
use crate::paths::{join, path_join};
use crate::text::{contains, contains_str, decimal, owned, push_decimal, push_str, to_char_vec, from_chars};

verus! {

/// The start of the minute containing `timestamp_ms` (floor division, also
/// before 1970).
pub open spec fn minute_start(timestamp_ms: int) -> int {
    timestamp_ms - timestamp_ms % 60_000
}

pub fn minute_bucket(timestamp_ms: i64) -> (r: i64)
    requires
        minute_start(timestamp_ms as int) >= i64::MIN,
    ensures
        r == minute_start(timestamp_ms as int),
{
    let euclid = match timestamp_ms.checked_rem_euclid(60_000) {
        Some(v) => v,
        None => 0,
    };
    timestamp_ms - euclid
}

/// Rows `i < n` whose key is `key`, in row order.
pub open spec fn rows_with_key(keys: Seq<i64>, key: i64, n: int) -> Seq<usize>
    decreases n,
{
    if n <= 0 {
        Seq::empty()
    } else if keys[n - 1] == key {
        rows_with_key(keys, key, n - 1).push((n - 1) as usize)
    } else {
        rows_with_key(keys, key, n - 1)
    }
}

/// All rows that share one key.
pub struct KeyGroup {
    pub key: i64,
    pub rows: Vec<usize>,
}

pub open spec fn keys_ascending(groups: Seq<KeyGroup>) -> bool {
    forall|a: int, b: int| 0 <= a < b < groups.len() ==> groups[a].key < groups[b].key
}

pub open spec fn group_with_key(groups: Seq<KeyGroup>, key: i64) -> bool {
    exists|j: int| 0 <= j < groups.len() && (#[trigger] groups[j]).key == key
}

/// The groups of the first `n` rows: one per distinct key, in ascending key
/// order, each holding exactly the rows with its key.
pub open spec fn grouping_of(keys: Seq<i64>, n: int, groups: Seq<KeyGroup>) -> bool {
    &&& keys_ascending(groups)
    &&& forall|j: int| 0 <= j < groups.len() ==> (#[trigger] groups[j]).rows@ == rows_with_key(keys, groups[j].key, n)
    &&& forall|j: int| 0 <= j < groups.len() ==> (#[trigger] groups[j]).rows@.len() > 0
    &&& forall|t: int| 0 <= t < n ==> group_with_key(groups, #[trigger] keys[t])
}

proof fn lemma_rows_with_other_key(keys: Seq<i64>, key: i64, n: int)
    requires
        0 <= n < keys.len(),
        keys[n] != key,
    ensures
        rows_with_key(keys, key, n + 1) == rows_with_key(keys, key, n),
{
}

proof fn lemma_rows_before_first(keys: Seq<i64>, key: i64, n: int)
    requires
        0 <= n <= keys.len(),
        forall|t: int| 0 <= t < n ==> keys[t] != key,
    ensures
        rows_with_key(keys, key, n) == Seq::<usize>::empty(),
    decreases n,
{
    if n > 0 {
        lemma_rows_before_first(keys, key, n - 1);
    }
}

/// Groups rows by key: ascending keys, each group listing its rows in order.
/// Ticks are grouped by their minute and headerless OHLC rows by their
/// timestamp (where the last row of a group is the one kept).
pub fn group_rows_by_key(keys: &Vec<i64>) -> (r: Vec<KeyGroup>)
    ensures
        grouping_of(keys@, keys.len() as int, r@),
{
    let mut groups: Vec<KeyGroup> = Vec::new();
    let mut i: usize = 0;
    while i < keys.len()
        invariant
            i <= keys.len(),
            grouping_of(keys@, i as int, groups@),
        decreases keys.len() - i,
    {
        let key = keys[i];
        let mut p: usize = 0;
        while p < groups.len() && groups[p].key < key
            invariant
                p <= groups.len(),
                forall|a: int| 0 <= a < p ==> groups@[a].key < key,
            decreases groups.len() - p,
        {
            p = p + 1;
        }
        let ghost before = groups@;
        if p < groups.len() && groups[p].key == key {
            let mut group = groups.remove(p);
            group.rows.push(i);
            groups.insert(p, group);
            proof {
                assert(groups@ =~= before.update(p as int, groups@[p as int]));
                assert forall|j: int| 0 <= j < groups@.len() implies (#[trigger] groups@[j]).rows@ == rows_with_key(keys@, groups@[j].key, i + 1) by {
                    if j != p as int {
                        assert(groups@[j] == before[j]);
                        assert(before[j].key != key);
                        lemma_rows_with_other_key(keys@, before[j].key, i as int);
                    }
                }
                assert forall|t: int| 0 <= t < i + 1 implies group_with_key(groups@, #[trigger] keys@[t]) by {
                    if t < i {
                        let j = choose|j: int| 0 <= j < before.len() && (#[trigger] before[j]).key == keys@[t];
                        assert(groups@[j].key == keys@[t]);
                    } else {
                        assert(groups@[p as int].key == keys@[t]);
                    }
                }
            }
        } else {
            let mut rows: Vec<usize> = Vec::new();
            rows.push(i);
            groups.insert(p, KeyGroup { key, rows });
            proof {
                assert(forall|j: int| 0 <= j < before.len() ==> before[j].key != key);
                assert forall|t: int| 0 <= t < i implies keys@[t] != key by {
                    let j = choose|j: int| 0 <= j < before.len() && (#[trigger] before[j]).key == keys@[t];
                }
                lemma_rows_before_first(keys@, key, i as int);
                assert(rows_with_key(keys@, key, i + 1) =~= seq![i]);
                assert forall|a: int, b: int| 0 <= a < b < groups@.len() implies groups@[a].key < groups@[b].key by {
                    if b < p {
                    } else if a < p && b == p {
                    } else if a < p {
                        assert(groups@[b] == before[b - 1]);
                    } else if a == p {
                        assert(groups@[b] == before[b - 1]);
                        assert(before[p as int].key >= key);
                        if b - 1 > p {
                            assert(before[p as int].key < before[b - 1].key);
                        }
                    } else {
                        assert(groups@[a] == before[a - 1]);
                        assert(groups@[b] == before[b - 1]);
                    }
                }
                assert forall|j: int| 0 <= j < groups@.len() implies (#[trigger] groups@[j]).rows@ == rows_with_key(keys@, groups@[j].key, i + 1) by {
                    if j < p {
                        assert(groups@[j] == before[j]);
                        lemma_rows_with_other_key(keys@, before[j].key, i as int);
                    } else if j > p {
                        assert(groups@[j] == before[j - 1]);
                        lemma_rows_with_other_key(keys@, before[j - 1].key, i as int);
                    }
                }
                assert forall|j: int| 0 <= j < groups@.len() implies (#[trigger] groups@[j]).rows@.len() > 0 by {
                    if j < p {
                        assert(groups@[j] == before[j]);
                    } else if j > p {
                        assert(groups@[j] == before[j - 1]);
                    }
                }
                assert forall|t: int| 0 <= t < i + 1 implies group_with_key(groups@, #[trigger] keys@[t]) by {
                    if t < i {
                        let j = choose|j: int| 0 <= j < before.len() && (#[trigger] before[j]).key == keys@[t];
                        if j < p {
                            assert(groups@[j] == before[j]);
                        } else {
                            assert(groups@[j + 1] == before[j]);
                        }
                    } else {
                        assert(groups@[p as int].key == keys@[t]);
                    }
                }
            }
        }
        i = i + 1;
    }
    groups
}

/// Whether the rows arrived in non-decreasing time order.
pub open spec fn arrived_sorted(timestamps: Seq<i64>) -> bool {
    forall|i: int| 0 < i < timestamps.len() ==> timestamps[i - 1] <= #[trigger] timestamps[i]
}

pub fn input_was_sorted(timestamps: &Vec<i64>) -> (r: bool)
    ensures
        r == arrived_sorted(timestamps@),
{
    let mut i: usize = 1;
    while i < timestamps.len()
        invariant
            1 <= i,
            forall|k: int| 0 < k < i && k < timestamps@.len() ==> timestamps@[k - 1] <= #[trigger] timestamps@[k],
        decreases timestamps.len() - i,
    {
        if timestamps[i] < timestamps[i - 1] {
            return false;
        }
        i = i + 1;
    }
    true
}

/// Sum of the volumes of the listed rows, saturating at `u64::MAX`.
pub open spec fn volume_of(volumes: Seq<u64>, rows: Seq<usize>, n: int) -> int
    decreases n,
{
    if n <= 0 {
        0
    } else {
        let sum = volume_of(volumes, rows, n - 1) + volumes[rows[n - 1] as int];
        if sum > u64::MAX { u64::MAX as int } else { sum }
    }
}

/// The tick volume of a minute: the saturating sum of its rows' volumes.
pub fn group_volume(volumes: &Vec<u64>, rows: &Vec<usize>) -> (r: u64)
    requires
        forall|k: int| 0 <= k < rows.len() ==> (#[trigger] rows@[k]) < volumes.len(),
    ensures
        r == volume_of(volumes@, rows@, rows.len() as int),
{
    let mut total: u64 = 0;
    let mut k: usize = 0;
    while k < rows.len()
        invariant
            k <= rows.len(),
            forall|m: int| 0 <= m < rows.len() ==> (#[trigger] rows@[m]) < volumes.len(),
            total == volume_of(volumes@, rows@, k as int),
        decreases rows.len() - k,
    {
        total = total.saturating_add(volumes[rows[k]]);
        k = k + 1;
    }
    total
}

proof fn lemma_rows_with_key_members(keys: Seq<i64>, key: i64, n: int, t: int)
    requires
        0 <= n <= keys.len(),
        keys.len() <= usize::MAX,
        0 <= t <= usize::MAX,
    ensures
        rows_with_key(keys, key, n).contains(t as usize) <==> (0 <= t < n && keys[t] == key),
    decreases n,
{
    if n > 0 {
        lemma_rows_with_key_members(keys, key, n - 1, t);
        let before = rows_with_key(keys, key, n - 1);
        if keys[n - 1] == key {
            let after = before.push((n - 1) as usize);
            if after.contains(t as usize) && t != n - 1 {
                let k = choose|k: int| 0 <= k < after.len() && after[k] == t as usize;
                if k < before.len() {
                    assert(before[k] == t as usize);
                }
            }
            if before.contains(t as usize) {
                let k = choose|k: int| 0 <= k < before.len() && before[k] == t as usize;
                assert(after[k] == t as usize);
            }
            if t == n - 1 {
                assert(after[before.len() as int] == t as usize);
            }
        }
    }
}

/// Every row lies in exactly one group: the one with its key.
pub proof fn lemma_each_row_in_exactly_one_group(keys: Seq<i64>, groups: Seq<KeyGroup>, t: int)
    requires
        grouping_of(keys, keys.len() as int, groups),
        keys.len() <= usize::MAX,
        0 <= t < keys.len(),
    ensures
        exists|j: int| 0 <= j < groups.len() && (#[trigger] groups[j]).rows@.contains(t as usize),
        forall|a: int, b: int| 0 <= a < groups.len() && 0 <= b < groups.len()
            && (#[trigger] groups[a]).rows@.contains(t as usize) && (#[trigger] groups[b]).rows@.contains(t as usize) ==> a == b,
{
    assert(group_with_key(groups, keys[t]));
    let j = choose|j: int| 0 <= j < groups.len() && (#[trigger] groups[j]).key == keys[t];
    lemma_rows_with_key_members(keys, groups[j].key, keys.len() as int, t);
    assert(groups[j].rows@.contains(t as usize));
    assert forall|a: int, b: int| 0 <= a < groups.len() && 0 <= b < groups.len()
        && (#[trigger] groups[a]).rows@.contains(t as usize) && (#[trigger] groups[b]).rows@.contains(t as usize) implies a == b by {
        lemma_rows_with_key_members(keys, groups[a].key, keys.len() as int, t);
        lemma_rows_with_key_members(keys, groups[b].key, keys.len() as int, t);
        if a < b {
            assert(groups[a].key < groups[b].key);
        } else if b < a {
            assert(groups[b].key < groups[a].key);
        }
    }
}

/// `<base>_<timeframe>.csv` and its `.metadata.csv`, in the output directory.
pub fn imported_bar_files(output_directory: &str, base_stem: &str, timeframe: &str) -> (r: (String, String))
    ensures
        r.0@ == path_join(output_directory@, base_stem@ + "_"@ + timeframe@ + ".csv"@),
        r.1@ == path_join(output_directory@, base_stem@ + "_"@ + timeframe@ + ".metadata.csv"@),
{
    let mut data = owned(base_stem);
    push_str(&mut data, "_");
    push_str(&mut data, timeframe);
    let mut metadata = data.clone();
    push_str(&mut data, ".csv");
    push_str(&mut metadata, ".metadata.csv");
    (join(output_directory, data.as_str()), join(output_directory, metadata.as_str()))
}

/// `<base>_M1.quotes.csv` and `<base>_M1.quotes.metadata.csv`.
pub fn quote_sidecar_files(output_directory: &str, base_stem: &str) -> (r: (String, String))
    ensures
        r.0@ == path_join(output_directory@, base_stem@ + "_M1.quotes.csv"@),
        r.1@ == path_join(output_directory@, base_stem@ + "_M1.quotes.metadata.csv"@),
{
    let mut data = owned(base_stem);
    let mut metadata = owned(base_stem);
    push_str(&mut data, "_M1.quotes.csv");
    push_str(&mut metadata, "_M1.quotes.metadata.csv");
    (join(output_directory, data.as_str()), join(output_directory, metadata.as_str()))
}

/// The text before the first underscore (all of it when there is none).
pub open spec fn before_underscore(s: Seq<char>) -> Seq<char>
    decreases s.len(),
{
    if s.len() == 0 {
        s
    } else if s[0] == '_' {
        Seq::empty()
    } else {
        seq![s[0]] + before_underscore(s.drop_first())
    }
}

proof fn lemma_before_underscore_prefix(s: Seq<char>, i: int)
    requires
        0 <= i <= s.len(),
        forall|k: int| 0 <= k < i ==> s[k] != '_',
    ensures
        before_underscore(s) == s.subrange(0, i) + before_underscore(s.subrange(i, s.len() as int)),
    decreases i,
{
    if i > 0 {
        lemma_before_underscore_prefix(s.drop_first(), i - 1);
        assert(s.drop_first().subrange(0, i - 1) =~= s.subrange(1, i));
        assert(s.drop_first().subrange(i - 1, s.len() - 1) =~= s.subrange(i, s.len() as int));
        assert(seq![s[0]] + s.subrange(1, i) =~= s.subrange(0, i));
    } else {
        assert(s.subrange(0, 0) =~= Seq::<char>::empty());
        assert(s.subrange(0, s.len() as int) =~= s);
    }
}

/// The symbol recorded for an import: the base stem up to its first underscore.
pub fn stem_symbol(base_stem: &str) -> (r: String)
    ensures
        r@ == before_underscore(base_stem@),
{
    let chars = to_char_vec(base_stem);
    let mut out: Vec<char> = Vec::new();
    let mut i: usize = 0;
    while i < chars.len() && chars[i] != '_'
        invariant
            chars@ == base_stem@,
            i <= chars.len(),
            out@ == base_stem@.subrange(0, i as int),
            forall|k: int| 0 <= k < i ==> base_stem@[k] != '_',
        decreases chars.len() - i,
    {
        out.push(chars[i]);
        proof {
            assert(base_stem@.subrange(0, i + 1) == base_stem@.subrange(0, i as int).push(base_stem@[i as int]));
        }
        i = i + 1;
    }
    proof {
        lemma_before_underscore_prefix(base_stem@, i as int);
        let rest = base_stem@.subrange(i as int, base_stem@.len() as int);
        if i < chars.len() {
            assert(rest[0] == '_');
        } else {
            assert(rest.len() == 0);
        }
        assert(before_underscore(rest) =~= Seq::<char>::empty());
        assert(out@ + Seq::<char>::empty() =~= out@);
    }
    from_chars(&out)
}

pub open spec fn metadata_text(rows: Seq<(String, String)>) -> Seq<(Seq<char>, Seq<char>)> {
    rows.map_values(|row: (String, String)| (row.0@, row.1@))
}

/// Bar files record their price basis: bid for bid/ask tick imports, else the source OHLC.
pub open spec fn price_basis_of(import_kind: Seq<char>) -> Seq<char> {
    if contains(import_kind, "bid_ask"@) { "bid"@ } else { "source_ohlc"@ }
}

fn pair(key: &str, value: String) -> (r: (String, String))
    ensures
        r.0@ == key@,
        r.1@ == value@,
{
    (owned(key), value)
}

fn number_text(n: u64) -> (r: String)
    ensures
        r@ == decimal(n as nat),
{
    let mut text = String::new();
    push_decimal(&mut text, n);
    text
}

/// The metadata written beside an imported bar file, property by property.
pub fn import_metadata_rows(
    base_stem: &str,
    timeframe: &str,
    bar_count: usize,
    source_rows: usize,
    timezone: &str,
    import_kind: &str,
    source_file: &str,
    data_hash: &str,
) -> (r: Vec<(String, String)>)
    ensures
        metadata_text(r@) == seq![
            ("schema_version"@, "1"@),
            ("symbol"@, before_underscore(base_stem@)),
            ("timeframe"@, "PERIOD_"@ + timeframe@),
            ("bar_count"@, decimal(bar_count as nat)),
            ("source_rows"@, decimal(source_rows as nat)),
            ("broker_timezone"@, timezone@),
            ("price_basis"@, price_basis_of(import_kind@)),
            ("import_kind"@, import_kind@),
            ("source_file"@, source_file@),
            ("data_hash"@, data_hash@),
        ],
{
    let mut period = owned("PERIOD_");
    push_str(&mut period, timeframe);
    let basis = if contains_str(import_kind, "bid_ask") { owned("bid") } else { owned("source_ohlc") };
    let rows = vec![
        pair("schema_version", owned("1")),
        pair("symbol", stem_symbol(base_stem)),
        pair("timeframe", period),
        pair("bar_count", number_text(bar_count as u64)),
        pair("source_rows", number_text(source_rows as u64)),
        pair("broker_timezone", owned(timezone)),
        pair("price_basis", basis),
        pair("import_kind", owned(import_kind)),
        pair("source_file", owned(source_file)),
        pair("data_hash", owned(data_hash)),
    ];
    assert(metadata_text(rows@) =~= seq![
        ("schema_version"@, "1"@),
        ("symbol"@, before_underscore(base_stem@)),
        ("timeframe"@, "PERIOD_"@ + timeframe@),
        ("bar_count"@, decimal(bar_count as nat)),
        ("source_rows"@, decimal(source_rows as nat)),
        ("broker_timezone"@, timezone@),
        ("price_basis"@, price_basis_of(import_kind@)),
        ("import_kind"@, import_kind@),
        ("source_file"@, source_file@),
        ("data_hash"@, data_hash@),
    ]);
    rows
}

/// The metadata written beside a quote sidecar.
pub fn quote_metadata_rows(
    base_stem: &str,
    bar_count: usize,
    source_rows: usize,
    timezone: &str,
    source_file: &str,
    data_hash: &str,
) -> (r: Vec<(String, String)>)
    ensures
        metadata_text(r@) == seq![
            ("schema_version"@, "1"@),
            ("symbol"@, before_underscore(base_stem@)),
            ("timeframe"@, "PERIOD_M1"@),
            ("bar_count"@, decimal(bar_count as nat)),
            ("source_rows"@, decimal(source_rows as nat)),
            ("broker_timezone"@, timezone@),
            ("price_basis"@, "bid_ask"@),
            ("import_kind"@, "tick_bid_ask_sidecar"@),
            ("source_file"@, source_file@),
            ("data_hash"@, data_hash@),
        ],
{
    let rows = vec![
        pair("schema_version", owned("1")),
        pair("symbol", stem_symbol(base_stem)),
        pair("timeframe", owned("PERIOD_M1")),
        pair("bar_count", number_text(bar_count as u64)),
        pair("source_rows", number_text(source_rows as u64)),
        pair("broker_timezone", owned(timezone)),
        pair("price_basis", owned("bid_ask")),
        pair("import_kind", owned("tick_bid_ask_sidecar")),
        pair("source_file", owned(source_file)),
        pair("data_hash", owned(data_hash)),
    ];
    assert(metadata_text(rows@) =~= seq![
        ("schema_version"@, "1"@),
        ("symbol"@, before_underscore(base_stem@)),
        ("timeframe"@, "PERIOD_M1"@),
        ("bar_count"@, decimal(bar_count as nat)),
        ("source_rows"@, decimal(source_rows as nat)),
        ("broker_timezone"@, timezone@),
        ("price_basis"@, "bid_ask"@),
        ("import_kind"@, "tick_bid_ask_sidecar"@),
        ("source_file"@, source_file@),
        ("data_hash"@, data_hash@),
    ]);
    rows
}

} // verus!
