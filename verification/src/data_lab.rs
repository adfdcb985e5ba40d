//! The Data Lab: classifying broker exports, routing them to the importer,
//! naming imported packs, and judging whether an inspected pack may feed a
//! certified Discover run.
use vstd::prelude::*;
use crate::probes::{free_flags, lemma_first_set_is_least, least_free_suffix};
use crate::paths::{join, path_exists, path_join, path_file_stem, file_stem, extension, path_extension};
use crate::text::{
    TrimClass, trim_class, trim_drops, trim_by, trim, trim_str, upper_seq, upper_str, lower_seq, lower_str,
    eq_ignore_case, eq_ignore_ascii_case, contains, contains_str, is_ascii_alnum, is_ascii_alpha, alnum, alpha,
    is_ascii_lower, is_ascii_upper, owned, push_str, push_decimal, push_signed_decimal, signed_decimal, decimal, split, split_str, string_views,
    str_eq, to_char_vec, from_chars, is_blank, blank,
};

verus! {

/// A request to inspect one data pack.
#[derive(Debug, Clone, PartialEq, Eq)]
pub struct DataLabRequest {
    pub data_path: String,
    pub metadata_path: Option<String>,
    pub source_timezone: Option<String>,
    pub broker_path: Option<String>,
}

/// The quality report of an inspected pack.
#[derive(Debug, Clone, PartialEq, Eq)]
pub struct QualityView {
    pub grade: String,
    pub score: u8,
    pub bar_count: usize,
    pub expected_interval_seconds: Option<u64>,
    pub missing_bar_estimate: u64,
    pub gap_events: usize,
    pub duplicate_rows_removed: usize,
    pub zero_range_bars: usize,
    pub ohlc_violations: usize,
    pub spike_bars: usize,
    pub weekend_bars: usize,
    pub input_was_sorted: bool,
}

/// What the Data Lab reports about an inspected pack.
#[derive(Debug, Clone, PartialEq, Eq)]
pub struct DataLabView {
    pub source_path: String,
    pub metadata_path: Option<String>,
    pub broker_path: Option<String>,
    pub data_hash: String,
    pub metadata_hash: Option<String>,
    pub broker_spec_hash: Option<String>,
    pub symbol: Option<String>,
    pub timeframe: Option<String>,
    pub broker_profile: Option<String>,
    pub source_rows: usize,
    pub bars: usize,
    pub duplicate_rows_removed: usize,
    pub input_was_sorted: bool,
    pub delimiter: String,
    pub source_timezone: String,
    /// The execution-feed class inferred from importer metadata. Midpoint
    /// packs remain readable for diagnostics, but are never eligible for a
    /// certified discovery run.
    pub feed_mode: String,
    pub quote_path: Option<String>,
    pub certification_ready: bool,
    pub first_timestamp_ms: i64,
    pub last_timestamp_ms: i64,
    pub quality: QualityView,
    pub discover_ready: bool,
}

/// A request to import every market file under a folder.
#[derive(Debug, Clone, PartialEq, Eq)]
pub struct MarketFolderImportRequest {
    pub source_directory: String,
    pub output_directory: Option<String>,
    pub source_timezone: String,
    pub aggregate_ticks_to_bars: bool,
}

/// The outcome of importing one market file.
#[derive(Debug, Clone, PartialEq, Eq)]
pub struct MarketFileImportView {
    pub source_path: String,
    pub symbol: Option<String>,
    pub kind: String,
    pub source_rows: usize,
    pub bars: usize,
    pub m1_path: Option<String>,
    pub m1_metadata_path: Option<String>,
    pub h1_path: Option<String>,
    pub h1_metadata_path: Option<String>,
    pub quote_path: Option<String>,
    pub quote_metadata_path: Option<String>,
    pub price_basis: Option<String>,
    pub status: String,
    pub message: Option<String>,
}

/// The outcome of importing a folder.
#[derive(Debug, Clone, PartialEq, Eq)]
pub struct MarketFolderImportView {
    pub source_directory: String,
    pub output_directory: String,
    pub source_timezone: String,
    pub files: Vec<MarketFileImportView>,
    pub imported_count: usize,
    pub skipped_count: usize,
}

/// Tick aggregation is on unless a request turns it off.
pub fn default_true() -> (r: bool)
    ensures
        r,
{
    true
}

/// A file that was looked at but not imported.
pub fn skipped_view(source_path: String, symbol: Option<String>, kind: &str, message: &str) -> (r: MarketFileImportView)
    ensures
        r.source_path == source_path,
        r.symbol == symbol,
        r.kind@ == kind@,
        r.source_rows == 0,
        r.bars == 0,
        r.m1_path is None && r.m1_metadata_path is None,
        r.h1_path is None && r.h1_metadata_path is None,
        r.quote_path is None && r.quote_metadata_path is None,
        r.price_basis is None,
        r.status@ == "skipped"@,
        r.message matches Some(m) && m@ == message@,
{
    MarketFileImportView {
        source_path,
        symbol,
        kind: owned(kind),
        source_rows: 0,
        bars: 0,
        m1_path: None,
        m1_metadata_path: None,
        h1_path: None,
        h1_metadata_path: None,
        quote_path: None,
        quote_metadata_path: None,
        price_basis: None,
        status: owned("skipped"),
        message: Some(owned(message)),
    }
}

/// A file whose import failed: reported with status `error` and the reason.
pub fn failed_view(source_path: String, symbol: Option<String>, error: String) -> (r: MarketFileImportView)
    ensures
        r.source_path == source_path,
        r.symbol == symbol,
        r.kind@ == "unknown"@,
        r.source_rows == 0,
        r.bars == 0,
        r.m1_path is None && r.m1_metadata_path is None,
        r.h1_path is None && r.h1_metadata_path is None,
        r.quote_path is None && r.quote_metadata_path is None,
        r.price_basis is None,
        r.status@ == "error"@,
        r.message == Some(error),
{
    MarketFileImportView {
        source_path,
        symbol,
        kind: owned("unknown"),
        source_rows: 0,
        bars: 0,
        m1_path: None,
        m1_metadata_path: None,
        h1_path: None,
        h1_metadata_path: None,
        quote_path: None,
        quote_metadata_path: None,
        price_basis: None,
        status: owned("error"),
        message: Some(error),
    }
}

/// Files counted as imported among the first `n`.
pub open spec fn imported_files(files: Seq<MarketFileImportView>, n: int) -> int
    decreases n,
{
    if n <= 0 {
        0
    } else {
        imported_files(files, n - 1) + if files[n - 1].status@ == "imported"@ { 1int } else { 0int }
    }
}

/// The folder report: each file counts as imported exactly when its status
/// is `imported`, and as skipped otherwise, so the two counts add up to
/// the number of files.
pub fn summarize_folder_import(
    source_directory: String,
    output_directory: String,
    source_timezone: String,
    files: Vec<MarketFileImportView>,
) -> (r: MarketFolderImportView)
    ensures
        r.source_directory == source_directory,
        r.output_directory == output_directory,
        r.source_timezone == source_timezone,
        r.files == files,
        r.imported_count == imported_files(files@, files@.len() as int),
        r.imported_count + r.skipped_count == files@.len(),
{
    let mut imported: usize = 0;
    let mut i: usize = 0;
    while i < files.len()
        invariant
            i <= files@.len(),
            imported == imported_files(files@, i as int),
            imported <= i,
        decreases files.len() - i,
    {
        if str_eq(files[i].status.as_str(), "imported") {
            imported = imported + 1;
        }
        i = i + 1;
    }
    let skipped = files.len() - imported;
    MarketFolderImportView {
        source_directory,
        output_directory,
        source_timezone,
        files,
        imported_count: imported,
        skipped_count: skipped,
    }
}

/// A requested output folder is used unless it is blank.
pub fn requested_output_directory(output_directory: Option<&str>) -> (r: Option<String>)
    ensures
        match output_directory {
            Some(d) => if is_blank(d@) { r is None } else { r matches Some(o) && o@ == d@ },
            None => r is None,
        },
{
    match output_directory {
        Some(d) => if blank(d) { None } else { Some(owned(d)) },
        None => None,
    }
}

/// `{home}/Documents/QuantForge/imported-data/{stamp}`, with `.` for a missing home.
pub open spec fn import_directory_under(home: Option<Seq<char>>, stamp: Seq<char>) -> Seq<char> {
    let root = match home { Some(h) => h, None => "."@ };
    path_join(path_join(path_join(path_join(root, "Documents"@), "QuantForge"@), "imported-data"@), stamp)
}

/// Where a folder import writes when no output folder was requested.
pub fn default_import_directory(home: Option<&str>, stamp: &str) -> (r: String)
    ensures
        r@ == import_directory_under(match home { Some(h) => Some(h@), None => None }, stamp@),
{
    let root = match home { Some(h) => owned(h), None => owned(".") };
    let documents = join(root.as_str(), "Documents");
    let quantforge = join(documents.as_str(), "QuantForge");
    let imported = join(quantforge.as_str(), "imported-data");
    join(imported.as_str(), stamp)
}

pub open spec fn is_market_extension(ext: Seq<char>) -> bool {
    let e = lower_seq(ext);
    e == "csv"@ || e == "tsv"@ || e == "txt"@
}

/// Market files are recognised by a `csv`, `tsv` or `txt` extension, in any case.
pub fn is_market_file(path: &str) -> (r: bool)
    ensures
        r == (path_extension(path@) matches Some(e) && is_market_extension(e)),
{
    match extension(path) {
        Some(e) => {
            let lowered = lower_str(e.as_str());
            str_eq(lowered.as_str(), "csv") || str_eq(lowered.as_str(), "tsv") || str_eq(lowered.as_str(), "txt")
        },
        None => false,
    }
}


pub open spec fn is_line_break(b: u8) -> bool {
    b == 10u8 || b == 13u8
}

/// Index of the first byte at or after `i` that is not a line break.
pub open spec fn first_content_byte(bytes: Seq<u8>, i: int) -> int
    decreases bytes.len() - i,
{
    if i >= bytes.len() {
        bytes.len() as int
    } else if is_line_break(bytes[i]) {
        first_content_byte(bytes, i + 1)
    } else {
        i
    }
}

/// Index of the first line break at or after `i`, or the end.
pub open spec fn line_end(bytes: Seq<u8>, i: int) -> int
    decreases bytes.len() - i,
{
    if i >= bytes.len() {
        bytes.len() as int
    } else if is_line_break(bytes[i]) {
        i
    } else {
        line_end(bytes, i + 1)
    }
}

pub open spec fn byte_count(line: Seq<u8>, b: u8) -> int
    decreases line.len(),
{
    if line.len() == 0 {
        0
    } else {
        byte_count(line.drop_last(), b) + if line.last() == b { 1int } else { 0int }
    }
}

/// The delimiter of a CSV export: of `,`, tab and `;`, the one found most
/// often on the first non-empty line; on a tie the later of the three.
pub open spec fn detected_delimiter(bytes: Seq<u8>) -> Result<u8, Seq<char>> {
    let start = first_content_byte(bytes, 0);
    if start >= bytes.len() {
        Err("CSV is empty"@)
    } else {
        let line = bytes.subrange(start, line_end(bytes, start));
        let comma = byte_count(line, 44u8);
        let tab = byte_count(line, 9u8);
        let semicolon = byte_count(line, 59u8);
        let best: u8 = if semicolon >= comma && semicolon >= tab { 59u8 } else if tab >= comma { 9u8 } else { 44u8 };
        if byte_count(line, best) > 0 {
            Ok(best)
        } else {
            Err("could not detect CSV delimiter"@)
        }
    }
}

/// Detects the field delimiter of a market CSV (see `detected_delimiter`).
pub fn detect_market_delimiter(bytes: &[u8]) -> (r: Result<u8, String>)
    ensures
        match detected_delimiter(bytes@) {
            Ok(d) => r == Ok::<u8, String>(d),
            Err(message) => r matches Err(m) && m@ == message,
        },
{
    let n = bytes.len();
    let mut start: usize = 0;
    while start < n && (bytes[start] == 10u8 || bytes[start] == 13u8)
        invariant
            n == bytes@.len(),
            start <= n,
            first_content_byte(bytes@, 0) == first_content_byte(bytes@, start as int),
        decreases n - start,
    {
        start = start + 1;
    }
    if start >= n {
        return Err(owned("CSV is empty"));
    }
    let mut end: usize = start;
    let mut comma: usize = 0;
    let mut tab: usize = 0;
    let mut semicolon: usize = 0;
    while end < n && !(bytes[end] == 10u8 || bytes[end] == 13u8)
        invariant
            n == bytes@.len(),
            start < n,
            start <= end <= n,
            first_content_byte(bytes@, 0) == start,
            line_end(bytes@, start as int) == line_end(bytes@, end as int),
            comma == byte_count(bytes@.subrange(start as int, end as int), 44u8),
            tab == byte_count(bytes@.subrange(start as int, end as int), 9u8),
            semicolon == byte_count(bytes@.subrange(start as int, end as int), 59u8),
            comma <= end - start,
            tab <= end - start,
            semicolon <= end - start,
        decreases n - end,
    {
        proof {
            assert(bytes@.subrange(start as int, end + 1).drop_last() =~= bytes@.subrange(start as int, end as int));
        }
        let b = bytes[end];
        if b == 44u8 {
            comma = comma + 1;
        } else if b == 9u8 {
            tab = tab + 1;
        } else if b == 59u8 {
            semicolon = semicolon + 1;
        }
        end = end + 1;
    }
    let best: u8 = if semicolon >= comma && semicolon >= tab { 59u8 } else if tab >= comma { 9u8 } else { 44u8 };
    let count = if best == 59u8 { semicolon } else if best == 9u8 { tab } else { comma };
    if count > 0 {
        Ok(best)
    } else {
        Err(owned("could not detect CSV delimiter"))
    }
}

/// Spaces and dashes become underscores.
pub open spec fn underscored(value: Seq<char>) -> Seq<char> {
    Seq::new(value.len(), |i: int| if value[i] == ' ' || value[i] == '-' { '_' } else { value[i] })
}

/// A header cell as the importer compares it: trimmed, stripped of `<` `>`,
/// with spaces and dashes as underscores, in ASCII upper case.
pub open spec fn normalized_header(value: Seq<char>) -> Seq<char> {
    upper_seq(underscored(trim_by(trim(value), trim_drops(TrimClass::AngleBrackets))))
}

fn underscore_text(value: &str) -> (r: String)
    ensures
        r@ == underscored(value@),
{
    let chars = to_char_vec(value);
    let mut out: Vec<char> = Vec::new();
    let mut i: usize = 0;
    while i < chars.len()
        invariant
            chars@ == value@,
            i <= chars@.len(),
            out@ == underscored(value@).subrange(0, i as int),
        decreases chars.len() - i,
    {
        let c = chars[i];
        out.push(if c == ' ' || c == '-' { '_' } else { c });
        proof {
            assert(out@ =~= underscored(value@).subrange(0, i + 1));
        }
        i = i + 1;
    }
    assert(underscored(value@).subrange(0, chars@.len() as int) =~= underscored(value@));
    from_chars(&out)
}

pub fn normalize_market_header(value: &str) -> (r: String)
    ensures
        r@ == normalized_header(value@),
{
    let trimmed = trim_str(value);
    let unbracketed = trim_class(trimmed.as_str(), TrimClass::AngleBrackets);
    let underscored_text = underscore_text(unbracketed.as_str());
    upper_str(underscored_text.as_str())
}

/// Export headers never name the symbol; it comes from the file name.
pub fn symbol_from_headers(headers: &Vec<String>) -> (r: Option<String>)
    ensures
        r is None,
{
    None
}

/// Where an IC Markets tick export keeps its fields.
#[derive(Debug, Clone, Copy, PartialEq, Eq)]
pub struct TickColumns {
    pub date: Option<usize>,
    pub time: Option<usize>,
    pub timestamp: Option<usize>,
    pub ask: usize,
    pub bid: usize,
    pub volume: Option<usize>,
}

pub open spec fn str_views(v: Seq<&str>) -> Seq<Seq<char>> {
    v.map_values(|s: &str| s@)
}

pub open spec fn normalized_headers(headers: Seq<Seq<char>>) -> Seq<Seq<char>> {
    headers.map_values(|h: Seq<char>| normalized_header(h))
}

fn name_listed(names: &Vec<&str>, value: &str) -> (r: bool)
    ensures
        r == str_views(names@).contains(value@),
{
    let mut k: usize = 0;
    while k < names.len()
        invariant
            k <= names@.len(),
            forall|t: int| 0 <= t < k ==> str_views(names@)[t] != value@,
        decreases names.len() - k,
    {
        if str_eq(names[k], value) {
            assert(str_views(names@)[k as int] == value@);
            return true;
        }
        k = k + 1;
    }
    proof {
        if str_views(names@).contains(value@) {
            let t = choose|t: int| 0 <= t < names@.len() && #[trigger] str_views(names@)[t] == value@;
            assert(t < k);
        }
    }
    false
}

/// The first header whose normalised text is one of `names`.
pub open spec fn header_position(headers: Seq<Seq<char>>, names: Seq<Seq<char>>, i: int) -> Option<int>
    decreases headers.len() - i,
{
    if i < 0 || i >= headers.len() {
        None
    } else if names.contains(normalized_header(headers[i])) {
        Some(i)
    } else {
        header_position(headers, names, i + 1)
    }
}

pub open spec fn position_view(p: Option<int>) -> Option<usize> {
    match p {
        Some(i) => Some(i as usize),
        None => None,
    }
}

/// The tick layout a header row describes, if it is a tick export: it has
/// `ASK` and `BID`, and either a single timestamp column or both `DATE` and
/// `TIME` (a lone `TIME` column is read as the timestamp).
pub open spec fn tick_columns_of(headers: Seq<Seq<char>>) -> Option<TickColumns> {
    let ask = header_position(headers, seq!["ASK"@], 0);
    let bid = header_position(headers, seq!["BID"@], 0);
    let date = header_position(headers, seq!["DATE"@], 0);
    let time = header_position(headers, seq!["TIME"@], 0);
    let stamp = header_position(headers, seq!["DATETIME"@, "TIMESTAMP"@, "DATE_TIME"@], 0);
    let timestamp = if stamp is Some { stamp } else if date is None { time } else { None };
    if ask is None || bid is None {
        None
    } else if timestamp is None && (date is None || time is None) {
        None
    } else {
        Some(TickColumns {
            date: position_view(date),
            time: position_view(time),
            timestamp: position_view(timestamp),
            ask: ask->0 as usize,
            bid: bid->0 as usize,
            volume: position_view(header_position(headers, seq!["VOLUME"@, "VOL"@, "TICKVOL"@, "TICK_VOLUME"@], 0)),
        })
    }
}

fn find_header(normalized: &Vec<String>, names: &Vec<&str>, headers: Ghost<Seq<Seq<char>>>) -> (r: Option<usize>)
    requires
        normalized@.len() == headers@.len(),
        forall|k: int| 0 <= k < headers@.len() ==> (#[trigger] normalized@[k])@ == normalized_header(headers@[k]),
    ensures
        position_view(header_position(headers@, str_views(names@), 0)) == r,
        r matches Some(i) ==> i < normalized@.len(),
{
    let ghost wanted = str_views(names@);
    let mut i: usize = 0;
    while i < normalized.len()
        invariant
            wanted == str_views(names@),
            normalized@.len() == headers@.len(),
            forall|k: int| 0 <= k < headers@.len() ==> (#[trigger] normalized@[k])@ == normalized_header(headers@[k]),
            i <= normalized@.len(),
            header_position(headers@, wanted, 0) == header_position(headers@, wanted, i as int),
        decreases normalized.len() - i,
    {
        if name_listed(names, normalized[i].as_str()) {
            return Some(i);
        }
        i = i + 1;
    }
    None
}

impl TickColumns {
    /// The tick layout described by a raw header row (see `tick_columns_of`).
    pub fn from_headers(headers: &Vec<String>) -> (r: Option<TickColumns>)
        ensures
            r == tick_columns_of(string_views(headers@)),
    {
        let ghost hs = string_views(headers@);
        let mut normalized: Vec<String> = Vec::new();
        let mut i: usize = 0;
        while i < headers.len()
            invariant
                hs == string_views(headers@),
                i <= headers@.len(),
                normalized@.len() == i,
                forall|k: int| 0 <= k < i ==> (#[trigger] normalized@[k])@ == normalized_header(hs[k]),
            decreases headers.len() - i,
        {
            normalized.push(normalize_market_header(headers[i].as_str()));
            i = i + 1;
        }
        let ask_names: Vec<&str> = vec!["ASK"];
        let bid_names: Vec<&str> = vec!["BID"];
        let date_names: Vec<&str> = vec!["DATE"];
        let time_names: Vec<&str> = vec!["TIME"];
        let stamp_names: Vec<&str> = vec!["DATETIME", "TIMESTAMP", "DATE_TIME"];
        let volume_names: Vec<&str> = vec!["VOLUME", "VOL", "TICKVOL", "TICK_VOLUME"];
        assert(str_views(ask_names@) =~= seq!["ASK"@]);
        assert(str_views(bid_names@) =~= seq!["BID"@]);
        assert(str_views(date_names@) =~= seq!["DATE"@]);
        assert(str_views(time_names@) =~= seq!["TIME"@]);
        assert(str_views(stamp_names@) =~= seq!["DATETIME"@, "TIMESTAMP"@, "DATE_TIME"@]);
        assert(str_views(volume_names@) =~= seq!["VOLUME"@, "VOL"@, "TICKVOL"@, "TICK_VOLUME"@]);
        let ask = find_header(&normalized, &ask_names, Ghost(hs));
        let bid = find_header(&normalized, &bid_names, Ghost(hs));
        let date = find_header(&normalized, &date_names, Ghost(hs));
        let time = find_header(&normalized, &time_names, Ghost(hs));
        let stamp = find_header(&normalized, &stamp_names, Ghost(hs));
        let volume = find_header(&normalized, &volume_names, Ghost(hs));
        let ask = match ask { Some(a) => a, None => return None };
        let bid = match bid { Some(b) => b, None => return None };
        let timestamp = if stamp.is_some() { stamp } else if date.is_none() { time } else { None };
        if timestamp.is_none() && (date.is_none() || time.is_none()) {
            return None;
        }
        Some(TickColumns { date, time, timestamp, ask, bid, volume })
    }
}

pub open spec fn row_text(row: usize, tail: Seq<char>) -> Seq<char> {
    "tick row "@ + decimal(row as nat) + tail
}

pub open spec fn record_field(record: Seq<String>, index: usize) -> Option<Seq<char>> {
    if index < record.len() { Some(record[index as int]@) } else { None }
}

/// The timestamp text of a tick row: its timestamp column, or `DATE TIME`.
pub open spec fn tick_timestamp_text(record: Seq<String>, columns: TickColumns, row: usize) -> Result<Seq<char>, Seq<char>> {
    match columns.timestamp {
        Some(index) => match record_field(record, index) {
            Some(v) => Ok(v),
            None => Err(row_text(row, " is short"@)),
        },
        None => match columns.date {
            None => Err(row_text(row, " has no date"@)),
            Some(d) => match record_field(record, d) {
                None => Err(row_text(row, " is short"@)),
                Some(date) => match columns.time {
                    None => Err(row_text(row, " has no time"@)),
                    Some(t) => match record_field(record, t) {
                        None => Err(row_text(row, " is short"@)),
                        Some(time) => Ok(date + " "@ + time),
                    },
                },
            },
        },
    }
}

fn row_error(row: usize, tail: &str) -> (r: Result<String, String>)
    ensures
        r matches Err(m) && m@ == row_text(row, tail@),
{
    let mut text = owned("tick row ");
    push_decimal(&mut text, row as u64);
    push_str(&mut text, tail);
    Err(text)
}

pub fn tick_timestamp(record: &Vec<String>, columns: TickColumns, row: usize) -> (r: Result<String, String>)
    ensures
        match tick_timestamp_text(record@, columns, row) {
            Ok(text) => r matches Ok(t) && t@ == text,
            Err(message) => r matches Err(m) && m@ == message,
        },
{
    match columns.timestamp {
        Some(index) => {
            if index < record.len() {
                return Ok(record[index].clone());
            }
            return row_error(row, " is short");
        },
        None => {},
    }
    let d = match columns.date {
        Some(d) => d,
        None => return row_error(row, " has no date"),
    };
    if d >= record.len() {
        return row_error(row, " is short");
    }
    let t = match columns.time {
        Some(t) => t,
        None => return row_error(row, " has no time"),
    };
    if t >= record.len() {
        return row_error(row, " is short");
    }
    let mut text = record[d].clone();
    push_str(&mut text, " ");
    push_str(&mut text, record[t].as_str());
    Ok(text)
}

/// How the importer handles a file, decided from its normalised header row.
#[derive(Debug, Clone, Copy, PartialEq, Eq)]
pub enum MarketFileRoute {
    /// A Databento multi-symbol export: never a broker pack.
    SkipDatabento,
    /// A tick export while tick aggregation is off.
    SkipTicksDisabled,
    Ticks(TickColumns),
    /// Headerless `DATE,TIME,OPEN,HIGH,LOW,CLOSE[,VOLUME]` rows.
    Headerless,
    Ohlc,
    SkipUnknown,
}

pub open spec fn has_header(normalized: Seq<Seq<char>>, name: Seq<char>) -> bool {
    normalized.contains(name)
}

/// The importer's decision order: Databento exports are refused, tick
/// exports are aggregated (when allowed), headerless M1 rows are re-read,
/// OHLC exports are loaded, and anything else is skipped.
/// `headerless_row` says whether the first row parses as a headerless M1 bar.
pub open spec fn market_file_route(headers: Seq<Seq<char>>, aggregate_ticks: bool, headerless_row: bool) -> MarketFileRoute {
    let normalized = normalized_headers(headers);
    if has_header(normalized, "RTYPE"@) && has_header(normalized, "PUBLISHER_ID"@) {
        MarketFileRoute::SkipDatabento
    } else if tick_columns_of(headers) is Some {
        if aggregate_ticks { MarketFileRoute::Ticks(tick_columns_of(headers)->0) } else { MarketFileRoute::SkipTicksDisabled }
    } else if headerless_row {
        MarketFileRoute::Headerless
    } else if has_header(normalized, "OPEN"@) && has_header(normalized, "HIGH"@)
        && has_header(normalized, "LOW"@) && has_header(normalized, "CLOSE"@) {
        MarketFileRoute::Ohlc
    } else {
        MarketFileRoute::SkipUnknown
    }
}

fn any_header(normalized: &Vec<String>, name: &str) -> (r: bool)
    ensures
        r == string_views(normalized@).contains(name@),
{
    let mut i: usize = 0;
    while i < normalized.len()
        invariant
            i <= normalized@.len(),
            forall|k: int| 0 <= k < i ==> normalized@[k]@ != name@,
        decreases normalized.len() - i,
    {
        if str_eq(normalized[i].as_str(), name) {
            assert(string_views(normalized@)[i as int] == name@);
            return true;
        }
        i = i + 1;
    }
    proof {
        if string_views(normalized@).contains(name@) {
            let t = choose|t: int| 0 <= t < normalized@.len() && #[trigger] string_views(normalized@)[t] == name@;
            assert(normalized@[t]@ == name@);
        }
    }
    false
}

pub fn route_market_file(headers: &Vec<String>, aggregate_ticks: bool, headerless_row: bool) -> (r: MarketFileRoute)
    ensures
        r == market_file_route(string_views(headers@), aggregate_ticks, headerless_row),
{
    let ghost hs = string_views(headers@);
    let mut normalized: Vec<String> = Vec::new();
    let mut i: usize = 0;
    while i < headers.len()
        invariant
            hs == string_views(headers@),
            i <= headers@.len(),
            string_views(normalized@) == normalized_headers(hs.subrange(0, i as int)),
        decreases headers.len() - i,
    {
        let ghost before = string_views(normalized@);
        let h = normalize_market_header(headers[i].as_str());
        normalized.push(h);
        proof {
            assert(hs[i as int] == headers@[i as int]@);
            assert(string_views(normalized@) =~= before.push(h@));
            assert(normalized_headers(hs.subrange(0, i + 1)) =~= normalized_headers(hs.subrange(0, i as int)).push(normalized_header(hs[i as int])));
        }
        i = i + 1;
    }
    assert(hs.subrange(0, hs.len() as int) =~= hs);
    if any_header(&normalized, "RTYPE") && any_header(&normalized, "PUBLISHER_ID") {
        return MarketFileRoute::SkipDatabento;
    }
    match TickColumns::from_headers(headers) {
        Some(columns) => {
            return if aggregate_ticks { MarketFileRoute::Ticks(columns) } else { MarketFileRoute::SkipTicksDisabled };
        },
        None => {},
    }
    if headerless_row {
        return MarketFileRoute::Headerless;
    }
    if any_header(&normalized, "OPEN") && any_header(&normalized, "HIGH") && any_header(&normalized, "LOW")
        && any_header(&normalized, "CLOSE") {
        MarketFileRoute::Ohlc
    } else {
        MarketFileRoute::SkipUnknown
    }
}

/// The kind and message a skip route is reported with; `None` for the routes
/// that import.
pub open spec fn skip_report(route: MarketFileRoute) -> Option<(Seq<char>, Seq<char>)> {
    match route {
        MarketFileRoute::SkipDatabento => Some(("unsupported"@, "Databento multi-symbol OHLCV export"@)),
        MarketFileRoute::SkipTicksDisabled => Some(("tick"@, "tick aggregation is disabled"@)),
        MarketFileRoute::SkipUnknown => Some(("unknown"@, "header is not an OHLC or IC Markets tick export"@)),
        _ => None,
    }
}

/// The view of a file its route skips (see `skip_report`), or `None` when the
/// route imports the file.
pub fn skipped_route_view(source_path: String, symbol: Option<String>, route: MarketFileRoute) -> (r: Option<MarketFileImportView>)
    ensures
        match skip_report(route) {
            None => r is None,
            Some((kind, message)) => r matches Some(v) && v.source_path == source_path && v.symbol == symbol
                && v.kind@ == kind && v.status@ == "skipped"@ && v.source_rows == 0 && v.bars == 0
                && v.m1_path is None && v.h1_path is None && v.quote_path is None && v.price_basis is None
                && (v.message matches Some(m) && m@ == message),
        },
{
    match route {
        MarketFileRoute::SkipDatabento => Some(skipped_view(source_path, symbol, "unsupported", "Databento multi-symbol OHLCV export")),
        MarketFileRoute::SkipTicksDisabled => Some(skipped_view(source_path, symbol, "tick", "tick aggregation is disabled")),
        MarketFileRoute::SkipUnknown => Some(skipped_view(source_path, symbol, "unknown", "header is not an OHLC or IC Markets tick export")),
        _ => None,
    }
}

/// What an OHLC export becomes, by its median bar interval.
#[derive(Debug, Clone, Copy, PartialEq, Eq)]
pub enum OhlcInterval {
    /// M1 or finer: written as M1, with H1 derived from it.
    M1,
    /// Exactly hourly: written as H1 only.
    H1,
    Unsupported,
}

pub fn ohlc_interval(interval_ms: i64) -> (r: OhlcInterval)
    ensures
        interval_ms <= 60000 ==> r == OhlcInterval::M1,
        interval_ms == 3600000 ==> r == OhlcInterval::H1,
        interval_ms > 60000 && interval_ms != 3600000 ==> r == OhlcInterval::Unsupported,
{
    if interval_ms <= 60000 {
        OhlcInterval::M1
    } else if interval_ms == 3600000 {
        OhlcInterval::H1
    } else {
        OhlcInterval::Unsupported
    }
}

/// The skip message for an OHLC export of another interval.
pub fn unsupported_interval_message(interval_ms: i64) -> (r: String)
    ensures
        r@ == "unsupported source interval: "@ + signed_decimal(interval_ms as int) + "ms"@,
{
    let mut text = owned("unsupported source interval: ");
    push_signed_decimal(&mut text, interval_ms);
    push_str(&mut text, "ms");
    text
}

pub open spec fn known_symbols() -> Seq<Seq<char>> {
    seq!["NAS100"@, "US100"@, "US500"@, "XAUUSD"@, "BTCUSD"@, "XTIUSD"@, "US30"@, "DE40"@]
}

/// A token that names a symbol: six ASCII letters, or one of the known index
/// and commodity codes.
pub open spec fn symbol_token(token: Seq<char>) -> bool {
    (token.len() == 6 && forall|i: int| 0 <= i < 6 ==> is_ascii_alpha(#[trigger] token[i]))
        || known_symbols().contains(token)
}

/// The last `_`-separated token of the stem that names a symbol, after
/// trimming non-alphanumerics from its ends.
pub open spec fn last_symbol_token(tokens: Seq<Seq<char>>) -> Option<Seq<char>>
    decreases tokens.len(),
{
    if tokens.len() == 0 {
        None
    } else {
        let token = trim_by(tokens.last(), trim_drops(TrimClass::NonAlphanumeric));
        if symbol_token(token) { Some(token) } else { last_symbol_token(tokens.drop_last()) }
    }
}

/// The symbol named by an upper-cased file stem: the last symbol token, or
/// failing that a first token of three to eight ASCII letters and digits.
pub open spec fn symbol_of_stem(stem: Seq<char>) -> Option<Seq<char>> {
    let tokens = split(stem, '_');
    match last_symbol_token(tokens) {
        Some(token) => Some(token),
        None => {
            let first = trim(tokens[0]);
            if 3 <= first.len() <= 8 && forall|i: int| 0 <= i < first.len() ==> is_ascii_alnum(#[trigger] first[i]) {
                Some(first)
            } else {
                None
            }
        },
    }
}

/// Six ASCII letters.
pub open spec fn six_letters(token: Seq<char>) -> bool {
    token.len() == 6 && forall|i: int| 0 <= i < 6 ==> (is_ascii_lower(#[trigger] token[i]) || is_ascii_upper(token[i]))
}

/// The stem token at `i`, trimmed of non-alphanumerics as the symbol search reads it.
pub open spec fn trimmed_token(tokens: Seq<Seq<char>>, i: int) -> Seq<char> {
    trim_by(tokens[i], trim_drops(TrimClass::NonAlphanumeric))
}

proof fn lemma_last_symbol_token_shape(tokens: Seq<Seq<char>>)
    ensures
        last_symbol_token(tokens) matches Some(t) ==> six_letters(t) || known_symbols().contains(t),
        last_symbol_token(tokens) matches Some(t) ==> exists|i: int| 0 <= i < tokens.len()
            && #[trigger] trimmed_token(tokens, i) == t
            && forall|j: int| i < j < tokens.len() ==> !six_letters(#[trigger] trimmed_token(tokens, j))
                && !known_symbols().contains(trimmed_token(tokens, j)),
        (exists|i: int| 0 <= i < tokens.len() && six_letters(#[trigger] trimmed_token(tokens, i)))
            ==> last_symbol_token(tokens) is Some,
    decreases tokens.len(),
{
    if tokens.len() > 0 {
        let rest = tokens.drop_last();
        lemma_last_symbol_token_shape(rest);
        let token = trim_by(tokens.last(), trim_drops(TrimClass::NonAlphanumeric));
        assert(trimmed_token(tokens, tokens.len() - 1) == token);
        assert forall|j: int| 0 <= j < rest.len() implies #[trigger] trimmed_token(rest, j) == trimmed_token(tokens, j) by {}
        if symbol_token(token) {
            assert(six_letters(token) || known_symbols().contains(token));
        } else {
            assert(!six_letters(token) && !known_symbols().contains(token));
            if last_symbol_token(rest) is Some {
                let t = last_symbol_token(rest)->0;
                let i = choose|i: int| 0 <= i < rest.len()
                    && #[trigger] trimmed_token(rest, i) == t
                    && forall|j: int| i < j < rest.len() ==> !six_letters(#[trigger] trimmed_token(rest, j))
                        && !known_symbols().contains(trimmed_token(rest, j));
                assert(trimmed_token(tokens, i) == t);
                assert forall|j: int| i < j < tokens.len() implies !six_letters(#[trigger] trimmed_token(tokens, j))
                    && !known_symbols().contains(trimmed_token(tokens, j)) by {
                    if j < rest.len() {
                        assert(trimmed_token(rest, j) == trimmed_token(tokens, j));
                    }
                }
            }
        }
        if exists|i: int| 0 <= i < tokens.len() && six_letters(#[trigger] trimmed_token(tokens, i)) {
            let i = choose|i: int| 0 <= i < tokens.len() && six_letters(#[trigger] trimmed_token(tokens, i));
            if i == tokens.len() - 1 {
                assert(trimmed_token(tokens, i) == token);
                assert(symbol_token(token));
            } else {
                assert(trimmed_token(rest, i) == trimmed_token(tokens, i));
            }
        }
    }
}

/// The symbol of a file stem is never a token of digits when the stem holds a
/// token of six ASCII letters: whenever some `_`-separated token (trimmed of
/// non-alphanumerics) is six letters, the symbol found is six letters or one of
/// the listed index and commodity codes. So the symbol of
/// `DAT_ASCII_EURUSD_T_202001` is `EURUSD`, never `202001`. The symbol is
/// the last such token: no token after it is six letters or a listed code.
pub proof fn lemma_symbol_prefers_letter_tokens(stem: Seq<char>)
    ensures
        (exists|i: int| 0 <= i < split(stem, '_').len() && six_letters(#[trigger] trimmed_token(split(stem, '_'), i)))
            ==> (symbol_of_stem(stem) matches Some(t) && (six_letters(t) || known_symbols().contains(t))
                && exists|i: int| 0 <= i < split(stem, '_').len() && #[trigger] trimmed_token(split(stem, '_'), i) == t
                    && forall|j: int| i < j < split(stem, '_').len()
                        ==> !six_letters(#[trigger] trimmed_token(split(stem, '_'), j))
                            && !known_symbols().contains(trimmed_token(split(stem, '_'), j))),
{
    lemma_last_symbol_token_shape(split(stem, '_'));
}

fn is_symbol_token(token: &str) -> (r: bool)
    ensures
        r == symbol_token(token@),
{
    let chars = to_char_vec(token);
    if chars.len() == 6 {
        let mut all_alpha = true;
        let mut i: usize = 0;
        while i < 6
            invariant
                chars@ == token@,
                chars@.len() == 6,
                i <= 6,
                all_alpha == forall|k: int| 0 <= k < i ==> is_ascii_alpha(#[trigger] token@[k]),
            decreases 6 - i,
        {
            if !alpha(chars[i]) {
                all_alpha = false;
            }
            i = i + 1;
        }
        if all_alpha {
            return true;
        }
    }
    let known: Vec<&str> = vec!["NAS100", "US100", "US500", "XAUUSD", "BTCUSD", "XTIUSD", "US30", "DE40"];
    assert(str_views(known@) =~= known_symbols());
    let mut k: usize = 0;
    while k < known.len()
        invariant
            k <= known@.len(),
            str_views(known@) == known_symbols(),
            forall|t: int| 0 <= t < k ==> known_symbols()[t] != token@,
        decreases known.len() - k,
    {
        if str_eq(known[k], token) {
            assert(known_symbols()[k as int] == token@);
            return true;
        }
        k = k + 1;
    }
    proof {
        if known_symbols().contains(token@) {
            let t = choose|t: int| 0 <= t < known_symbols().len() && #[trigger] known_symbols()[t] == token@;
            assert(t < k);
        }
    }
    false
}

fn all_alnum(value: &str) -> (r: bool)
    ensures
        r == forall|i: int| 0 <= i < value@.len() ==> is_ascii_alnum(#[trigger] value@[i]),
{
    let chars = to_char_vec(value);
    let mut i: usize = 0;
    while i < chars.len()
        invariant
            chars@ == value@,
            i <= chars@.len(),
            forall|k: int| 0 <= k < i ==> is_ascii_alnum(#[trigger] value@[k]),
        decreases chars.len() - i,
    {
        if !alnum(chars[i]) {
            return false;
        }
        i = i + 1;
    }
    true
}

/// The symbol a file stem names (see `symbol_of_stem`), as it is written in the stem.
pub fn symbol_in_stem(stem: &str) -> (r: Option<String>)
    ensures
        match symbol_of_stem(stem@) {
            Some(symbol) => r matches Some(s) && s@ == symbol,
            None => r is None,
        },
{
    let tokens = split_str(stem, '_');
    let ghost all = split(stem@, '_');
    assert(string_views(tokens@) =~= all);
    proof {
        crate::text::lemma_split_nonempty(stem@, '_');
    }
    let mut n: usize = tokens.len();
    assert(all.subrange(0, all.len() as int) =~= all);
    while n > 0
        invariant
            n <= tokens@.len(),
            string_views(tokens@) == all,
            all == split(stem@, '_'),
            last_symbol_token(all) == last_symbol_token(all.subrange(0, n as int)),
        decreases n,
    {
        let token = trim_class(tokens[n - 1].as_str(), TrimClass::NonAlphanumeric);
        proof {
            let prefix = all.subrange(0, n as int);
            assert(prefix.drop_last() =~= all.subrange(0, n - 1));
            assert(prefix.last() == tokens@[n - 1]@);
        }
        if is_symbol_token(token.as_str()) {
            return Some(token);
        }
        n = n - 1;
    }
    assert(all.subrange(0, 0).len() == 0);
    let first = trim_str(tokens[0].as_str());
    let count = first.as_str().unicode_len();
    if 3 <= count && count <= 8 && all_alnum(first.as_str()) {
        Some(first)
    } else {
        None
    }
}

/// The symbol an export file is named after (see `symbol_of_stem`).
pub fn symbol_from_path(path: &str) -> (r: Option<String>)
    ensures
        match path_file_stem(path@) {
            None => r is None,
            Some(stem) => match symbol_of_stem(upper_seq(stem)) {
                Some(symbol) => r matches Some(s) && s@ == symbol,
                None => r is None,
            },
        },
{
    let stem = match file_stem(path) {
        Some(s) => s,
        None => return None,
    };
    let upper = upper_str(stem.as_str());
    symbol_in_stem(upper.as_str())
}

/// The letters and digits of a symbol, in order.
pub open spec fn alnum_only(value: Seq<char>) -> Seq<char>
    decreases value.len(),
{
    if value.len() == 0 {
        value
    } else if is_ascii_alnum(value.last()) {
        alnum_only(value.drop_last()).push(value.last())
    } else {
        alnum_only(value.drop_last())
    }
}

/// The stem of the `k`-th attempt: the bare symbol, then `_2`, `_3`, ...
pub open spec fn numbered_stem(clean: Seq<char>, k: nat) -> Seq<char> {
    if k == 1 { clean } else { clean + "_"@ + decimal(k) }
}

/// Attempts made before falling back to `{symbol}_import`.
pub const IMPORT_STEM_ATTEMPTS: u64 = 10000;

fn alnum_text(value: &str) -> (r: String)
    ensures
        r@ == alnum_only(value@),
{
    let chars = to_char_vec(value);
    let mut out = String::new();
    let mut i: usize = 0;
    while i < chars.len()
        invariant
            chars@ == value@,
            i <= chars@.len(),
            out@ == alnum_only(value@.subrange(0, i as int)),
        decreases chars.len() - i,
    {
        proof {
            assert(value@.subrange(0, i + 1).drop_last() =~= value@.subrange(0, i as int));
        }
        if alnum(chars[i]) {
            out.push(chars[i]);
        }
        i = i + 1;
    }
    assert(value@.subrange(0, chars@.len() as int) =~= value@);
    out
}

fn numbered_import_stem(clean: &str, k: u64) -> (r: String)
    requires
        k >= 1,
    ensures
        r@ == numbered_stem(clean@, k as nat),
{
    let mut stem = owned(clean);
    if k != 1 {
        push_str(&mut stem, "_");
        push_decimal(&mut stem, k);
    }
    stem
}

/// A stem for an imported pack that collides with no `{stem}_M1.csv` or
/// `{stem}_H1.csv` already in the output folder at the time of the probe:
/// stems are probed for `k = 1, 2, ...` below `IMPORT_STEM_ATTEMPTS` until one
/// is free, the least free one is chosen from the answers by
/// `least_free_suffix`, and `{symbol}_import` is used when none was free.
pub fn unique_import_stem(output_directory: &str, symbol: &str) -> (r: String)
    ensures
        (exists|k: nat| 1 <= k < IMPORT_STEM_ATTEMPTS && r@ == #[trigger] numbered_stem(alnum_only(symbol@), k))
            || r@ == alnum_only(symbol@) + "_import"@,
{
    let clean = alnum_text(symbol);
    let mut taken: Vec<bool> = Vec::new();
    let mut index: u64 = 1;
    while index < IMPORT_STEM_ATTEMPTS
        invariant_except_break
            1 <= index <= IMPORT_STEM_ATTEMPTS,
            taken.len() + 1 == index,
        ensures
            taken.len() < IMPORT_STEM_ATTEMPTS,
        decreases IMPORT_STEM_ATTEMPTS - index,
    {
        let stem = numbered_import_stem(clean.as_str(), index);
        let mut m1 = stem.clone();
        push_str(&mut m1, "_M1.csv");
        let mut h1 = stem.clone();
        push_str(&mut h1, "_H1.csv");
        let m1_path = join(output_directory, m1.as_str());
        let h1_path = join(output_directory, h1.as_str());
        let in_use = path_exists(m1_path.as_str()) || path_exists(h1_path.as_str());
        taken.push(in_use);
        if !in_use {
            break;
        }
        index = index + 1;
    }
    proof {
        lemma_first_set_is_least(free_flags(taken@), taken.len() as int);
    }
    match least_free_suffix(&taken) {
        Some(k) => {
            let stem = numbered_import_stem(clean.as_str(), k);
            assert(stem@ == numbered_stem(alnum_only(symbol@), k as nat));
            stem
        },
        None => {
            let mut fallback = clean;
            push_str(&mut fallback, "_import");
            fallback
        },
    }
}

/// The execution feed class of an inspected pack.
#[derive(Debug, Clone, Copy, PartialEq, Eq, Structural)]
pub enum FeedMode {
    CanonicalBidAsk,
    DiagnosticMidpoint,
    LegacyOhlc,
}

pub open spec fn feed_mode_name(mode: FeedMode) -> Seq<char> {
    match mode {
        FeedMode::CanonicalBidAsk => "canonical_bid_ask"@,
        FeedMode::DiagnosticMidpoint => "diagnostic_midpoint"@,
        FeedMode::LegacyOhlc => "legacy_ohlc"@,
    }
}

impl FeedMode {
    pub fn name(self) -> (r: &'static str)
        ensures
            r@ == feed_mode_name(self),
    {
        match self {
            FeedMode::CanonicalBidAsk => "canonical_bid_ask",
            FeedMode::DiagnosticMidpoint => "diagnostic_midpoint",
            FeedMode::LegacyOhlc => "legacy_ohlc",
        }
    }
}

/// A pack is a midpoint feed when its metadata says so, by price basis or
/// import kind.
pub open spec fn is_midpoint_feed(price_basis: Option<Seq<char>>, import_kind: Option<Seq<char>>) -> bool {
    (price_basis matches Some(b) && eq_ignore_case(b, "midpoint"@))
        || (import_kind matches Some(k) && contains(lower_seq(k), "midpoint"@))
}

/// A pack carries canonical bid/ask quotes when its price basis is `bid` or
/// `bid_ask` and its import kind mentions `bid_ask`.
pub open spec fn is_canonical_feed(price_basis: Option<Seq<char>>, import_kind: Option<Seq<char>>) -> bool {
    (price_basis matches Some(b) && (eq_ignore_case(b, "bid"@) || eq_ignore_case(b, "bid_ask"@)))
        && (import_kind matches Some(k) && contains(lower_seq(k), "bid_ask"@))
}

pub open spec fn feed_mode_of(price_basis: Option<Seq<char>>, import_kind: Option<Seq<char>>) -> FeedMode {
    if is_canonical_feed(price_basis, import_kind) {
        FeedMode::CanonicalBidAsk
    } else if is_midpoint_feed(price_basis, import_kind) {
        FeedMode::DiagnosticMidpoint
    } else {
        FeedMode::LegacyOhlc
    }
}

pub open spec fn opt_view(value: Option<&str>) -> Option<Seq<char>> {
    match value {
        Some(v) => Some(v@),
        None => None,
    }
}

/// The feed class and the midpoint flag of a pack's metadata.
pub fn classify_feed(price_basis: Option<&str>, import_kind: Option<&str>) -> (r: (FeedMode, bool))
    ensures
        r.0 == feed_mode_of(opt_view(price_basis), opt_view(import_kind)),
        r.1 == is_midpoint_feed(opt_view(price_basis), opt_view(import_kind)),
{
    let kind_lower = match import_kind {
        Some(k) => Some(lower_str(k)),
        None => None,
    };
    let is_midpoint = (match price_basis {
        Some(b) => eq_ignore_ascii_case(b, "midpoint"),
        None => false,
    }) || (match &kind_lower {
        Some(k) => contains_str(k.as_str(), "midpoint"),
        None => false,
    });
    let is_canonical = (match price_basis {
        Some(b) => eq_ignore_ascii_case(b, "bid") || eq_ignore_ascii_case(b, "bid_ask"),
        None => false,
    }) && (match &kind_lower {
        Some(k) => contains_str(k.as_str(), "bid_ask"),
        None => false,
    });
    let mode = if is_canonical {
        FeedMode::CanonicalBidAsk
    } else if is_midpoint {
        FeedMode::DiagnosticMidpoint
    } else {
        FeedMode::LegacyOhlc
    };
    (mode, is_midpoint)
}

/// Whether an inspected pack may feed a certified run, and a Discover run.
pub open spec fn inspection_readiness(
    mode: FeedMode,
    is_midpoint: bool,
    quote_found: bool,
    broker_bound: bool,
    quality_failed: bool,
) -> (bool, bool) {
    (
        mode == FeedMode::CanonicalBidAsk && quote_found && broker_bound,
        !quality_failed && broker_bound && !is_midpoint,
    )
}

/// Certification needs canonical bid/ask quotes with their sidecar and a
/// bound broker; Discover needs a passing quality grade, a bound broker and
/// a non-midpoint feed.
pub fn readiness(mode: FeedMode, is_midpoint: bool, quote_found: bool, broker_bound: bool, quality_failed: bool)
    -> (r: (bool, bool))
    ensures
        r == inspection_readiness(mode, is_midpoint, quote_found, broker_bound, quality_failed),
{
    (
        mode == FeedMode::CanonicalBidAsk && quote_found && broker_bound,
        !quality_failed && broker_bound && !is_midpoint,
    )
}

/// Midpoint packs are never Discover-ready and never certifiable.
pub proof fn lemma_midpoint_is_never_ready(
    price_basis: Option<Seq<char>>,
    import_kind: Option<Seq<char>>,
    quote_found: bool,
    broker_bound: bool,
    quality_failed: bool,
)
    requires
        is_midpoint_feed(price_basis, import_kind),
        !is_canonical_feed(price_basis, import_kind),
    ensures
        !inspection_readiness(feed_mode_of(price_basis, import_kind), true, quote_found, broker_bound, quality_failed).0,
        !inspection_readiness(feed_mode_of(price_basis, import_kind), true, quote_found, broker_bound, quality_failed).1,
{
}

/// Which clock a pack's timestamps are read in.
#[derive(Debug, Clone, Copy, PartialEq, Eq)]
pub enum TimezoneAuthority {
    Metadata,
    Explicit,
}

/// Exactly one of a metadata file and an explicit source timezone decides
/// the clock; both or neither is refused.
pub fn timezone_authority(has_metadata: bool, has_source_timezone: bool) -> (r: Result<TimezoneAuthority, String>)
    ensures
        has_metadata && !has_source_timezone ==> r == Ok::<TimezoneAuthority, String>(TimezoneAuthority::Metadata),
        !has_metadata && has_source_timezone ==> r == Ok::<TimezoneAuthority, String>(TimezoneAuthority::Explicit),
        has_metadata == has_source_timezone ==> (r matches Err(m)
            && m@ == "provide exactly one metadata file or source timezone"@),
{
    if has_metadata && !has_source_timezone {
        Ok(TimezoneAuthority::Metadata)
    } else if !has_metadata && has_source_timezone {
        Ok(TimezoneAuthority::Explicit)
    } else {
        Err(owned("provide exactly one metadata file or source timezone"))
    }
}

/// First and last bar timestamps of a loaded pack; a pack without bars is refused.
pub fn bar_time_range(timestamps: &Vec<i64>) -> (r: Result<(i64, i64), String>)
    ensures
        timestamps@.len() == 0 ==> (r matches Err(m) && m@ == "data source contains no bars"@),
        timestamps@.len() > 0 ==> r == Ok::<(i64, i64), String>((timestamps@[0], timestamps@.last())),
{
    if timestamps.len() == 0 {
        return Err(owned("data source contains no bars"));
    }
    Ok((timestamps[0], timestamps[timestamps.len() - 1]))
}

} // verus!
