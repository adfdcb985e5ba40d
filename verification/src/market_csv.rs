//! Reading a market CSV: its records through the `csv` crate, and the fields
//! each import route takes from them.
use vstd::prelude::*;
use crate::data_lab::{detect_market_delimiter, detected_delimiter, record_field, row_text, tick_timestamp, tick_timestamp_text, TickColumns};
use crate::text::{decimal, is_ascii_digit, owned, push_decimal, push_str, string_views, to_char_vec};

verus! {

/// The records `csv::ReaderBuilder` reads from `bytes` with this delimiter,
/// every field trimmed, rows of any length, no header row set apart: the
/// records read before the first invalid one, and that one's error text.
pub uninterp spec fn market_records(bytes: Seq<u8>, delimiter: u8) -> (Seq<Seq<Seq<char>>>, Option<Seq<char>>);

pub open spec fn record_views(rows: Seq<Vec<String>>) -> Seq<Seq<Seq<char>>> {
    rows.map_values(|row: Vec<String>| string_views(row@))
}

/// Calls `csv::ReaderBuilder` (`delimiter`, `has_headers(false)`,
/// `trim(Trim::All)`, `flexible(true)`) on `bytes` and collects its string
/// records, stopping at the first record it refuses. Claims the result is
/// `market_records` of the arguments.
#[verifier::external_body]
fn read_market_records(bytes: &[u8], delimiter: u8) -> (r: (Vec<Vec<String>>, Option<String>))
    ensures
        market_records(bytes@, delimiter) == (record_views(r.0@), match r.1 { Some(e) => Some(e@), None => None::<Seq<char>> }),
{
    let mut reader = csv::ReaderBuilder::new().delimiter(delimiter).has_headers(false)
        .trim(csv::Trim::All).flexible(true).from_reader(bytes);
    let mut rows: Vec<Vec<String>> = Vec::new();
    for record in reader.records() {
        match record {
            Ok(record) => rows.push(record.iter().map(str::to_owned).collect()),
            Err(error) => return (rows, Some(error.to_string())),
        }
    }
    (rows, None)
}

/// A market CSV read into records: its delimiter, its first (header) row, the
/// data rows after it, and the error of the first unreadable data row.
pub struct MarketTable {
    pub delimiter: u8,
    pub header: Vec<String>,
    pub rows: Vec<Vec<String>>,
    pub row_error: Option<String>,
}

/// What reading `bytes` gives: the delimiter error, a header error, or the
/// header row and the data rows that follow it.
pub open spec fn market_table_of(bytes: Seq<u8>) -> Result<(u8, Seq<Seq<char>>, Seq<Seq<Seq<char>>>, Option<Seq<char>>), Seq<char>> {
    match detected_delimiter(bytes) {
        Err(message) => Err(message),
        Ok(d) => {
            let (records, error) = market_records(bytes, d);
            if records.len() == 0 {
                match error {
                    Some(e) => Err("invalid CSV header: "@ + e),
                    None => Ok((d, Seq::empty(), Seq::empty(), None)),
                }
            } else {
                Ok((d, records[0], records.drop_first(), error))
            }
        },
    }
}

/// Reads a market CSV: detects its delimiter, then reads every record.
pub fn read_market_table(bytes: &[u8]) -> (r: Result<MarketTable, String>)
    ensures
        match market_table_of(bytes@) {
            Err(message) => r matches Err(m) && m@ == message,
            Ok((d, header, rows, error)) => r matches Ok(t) && t.delimiter == d
                && string_views(t.header@) == header && record_views(t.rows@) == rows
                && match error { Some(e) => t.row_error matches Some(x) && x@ == e, None => t.row_error is None },
        },
{
    let delimiter = match detect_market_delimiter(bytes) {
        Ok(d) => d,
        Err(message) => return Err(message),
    };
    let (mut records, error) = read_market_records(bytes, delimiter);
    if records.len() == 0 {
        return match error {
            Some(e) => {
                let mut message = owned("invalid CSV header: ");
                push_str(&mut message, e.as_str());
                Err(message)
            },
            None => Ok(MarketTable { delimiter, header: Vec::new(), rows: Vec::new(), row_error: None }),
        };
    }
    let ghost all = record_views(records@);
    let header = records.remove(0);
    proof {
        assert(record_views(records@) =~= all.drop_first());
    }
    Ok(MarketTable { delimiter, header, rows: records, row_error: error })
}

/// Whether every character is an ASCII digit.
pub open spec fn all_digits(s: Seq<char>) -> bool {
    forall|i: int| 0 <= i < s.len() ==> is_ascii_digit(#[trigger] s[i])
}

/// The number written by decimal digits.
pub open spec fn digits_value(s: Seq<char>) -> int
    decreases s.len(),
{
    if s.len() == 0 {
        0
    } else {
        digits_value(s.drop_last()) * 10 + (s.last() as int - '0' as int)
    }
}

/// The text after an optional leading `+`.
pub open spec fn unsigned_body(s: Seq<char>) -> Seq<char> {
    if s.len() > 0 && s[0] == '+' { s.drop_first() } else { s }
}

/// `str::parse::<u64>`: an optional `+`, then at least one digit, within range.
pub open spec fn parsed_u64(s: Seq<char>) -> Option<u64> {
    let body = unsigned_body(s);
    if body.len() > 0 && all_digits(body) && digits_value(body) <= u64::MAX {
        Some(digits_value(body) as u64)
    } else {
        None
    }
}

proof fn lemma_digits_value_grows(s: Seq<char>, n: int)
    requires
        0 <= n <= s.len(),
        all_digits(s),
    ensures
        digits_value(s.subrange(0, n)) <= digits_value(s),
        0 <= digits_value(s.subrange(0, n)),
    decreases s.len() - n,
{
    if n < s.len() {
        lemma_digits_value_grows(s, n + 1);
        assert(s.subrange(0, n + 1).drop_last() =~= s.subrange(0, n));
        assert(is_ascii_digit(s[n]));
    } else {
        assert(s.subrange(0, n) =~= s);
        lemma_digits_value_nonnegative(s);
    }
}

proof fn lemma_digits_value_nonnegative(s: Seq<char>)
    requires
        all_digits(s),
    ensures
        0 <= digits_value(s),
    decreases s.len(),
{
    if s.len() > 0 {
        assert(all_digits(s.drop_last()));
        assert(is_ascii_digit(s.last()));
        lemma_digits_value_nonnegative(s.drop_last());
    }
}

/// Parses an unsigned decimal as `str::parse::<u64>` does.
pub fn parse_u64(text: &str) -> (r: Option<u64>)
    ensures
        r == parsed_u64(text@),
{
    let chars = to_char_vec(text);
    let start: usize = if chars.len() > 0 && chars[0] == '+' { 1 } else { 0 };
    let ghost body = unsigned_body(text@);
    assert(body =~= text@.subrange(start as int, text@.len() as int));
    if start >= chars.len() {
        return None;
    }
    let mut value: u64 = 0;
    let mut i: usize = start;
    while i < chars.len()
        invariant
            chars@ == text@,
            start <= i <= chars@.len(),
            body == text@.subrange(start as int, text@.len() as int),
            body == unsigned_body(text@),
            all_digits(body.subrange(0, i - start)),
            value == digits_value(body.subrange(0, i - start)),
        decreases chars.len() - i,
    {
        let c = chars[i];
        let ghost prefix = body.subrange(0, i + 1 - start);
        assert(prefix.drop_last() =~= body.subrange(0, i - start));
        assert(prefix.last() == c);
        if !('0' <= c && c <= '9') {
            assert(!is_ascii_digit(body[i - start]));
            assert(!all_digits(body));
            assert(parsed_u64(text@) is None);
            return None;
        }
        let digit = (c as u32 - '0' as u32) as u64;
        assert(digit == c as int - '0' as int);
        assert(all_digits(prefix)) by {
            assert forall|k: int| 0 <= k < prefix.len() implies is_ascii_digit(#[trigger] prefix[k]) by {
                if k < prefix.len() - 1 {
                    assert(prefix[k] == body.subrange(0, i - start)[k]);
                }
            }
        }
        if value > (u64::MAX - digit) / 10 {
            proof {
                assert(digits_value(prefix) == value * 10 + digit);
                assert(digits_value(prefix) > u64::MAX) by (nonlinear_arith)
                    requires value > (u64::MAX - digit) / 10, digit <= 9, digits_value(prefix) == value * 10 + digit;
                if all_digits(body) {
                    lemma_digits_value_grows(body, i + 1 - start);
                    assert(digits_value(body) > u64::MAX);
                }
                assert(parsed_u64(text@) is None);
            }
            return None;
        }
        assert(value * 10 + digit <= u64::MAX) by (nonlinear_arith)
            requires value <= (u64::MAX - digit) / 10, digit <= 9;
        value = value * 10 + digit;
        i = i + 1;
    }
    assert(body.subrange(0, i - start) =~= body);
    Some(value)
}

/// The text fields of one tick row: its timestamp text, the raw ask and bid
/// fields (`None` where the row is too short), and its volume (1 when the
/// volume column is missing or does not parse).
pub struct TickRowFields {
    pub timestamp: String,
    pub ask: Option<String>,
    pub bid: Option<String>,
    pub volume: u64,
}

pub open spec fn opt_text(value: Option<String>) -> Option<Seq<char>> {
    match value {
        Some(v) => Some(v@),
        None => None,
    }
}

pub open spec fn tick_volume_of(record: Seq<String>, columns: TickColumns) -> u64 {
    match columns.volume {
        Some(c) => match record_field(record, c) {
            Some(v) => match parsed_u64(v) {
                Some(n) => n,
                None => 1,
            },
            None => 1,
        },
        None => 1,
    }
}

fn field_of(record: &Vec<String>, index: usize) -> (r: Option<String>)
    ensures
        opt_text(r) == record_field(record@, index),
{
    if index < record.len() { Some(owned(record[index].as_str())) } else { None }
}

/// The fields of data row `index` (reported as CSV line `index + 2`, the
/// header being line 1): the timestamp error of the row, or its fields.
pub fn tick_row_fields(record: &Vec<String>, columns: TickColumns, index: usize) -> (r: Result<TickRowFields, String>)
    requires
        index + 2 <= usize::MAX,
    ensures
        match tick_timestamp_text(record@, columns, (index + 2) as usize) {
            Err(message) => r matches Err(m) && m@ == message,
            Ok(text) => r matches Ok(f) && f.timestamp@ == text
                && opt_text(f.ask) == record_field(record@, columns.ask)
                && opt_text(f.bid) == record_field(record@, columns.bid)
                && f.volume == tick_volume_of(record@, columns),
        },
{
    let timestamp = match tick_timestamp(record, columns, index + 2) {
        Ok(t) => t,
        Err(message) => return Err(message),
    };
    let volume = match columns.volume {
        Some(c) => {
            if c < record.len() {
                match parse_u64(record[c].as_str()) {
                    Some(n) => n,
                    None => 1,
                }
            } else {
                1
            }
        },
        None => 1,
    };
    Ok(TickRowFields { timestamp, ask: field_of(record, columns.ask), bid: field_of(record, columns.bid), volume })
}

/// The error of an unreadable tick row, at CSV line `index + 2`.
pub fn tick_row_invalid(index: usize, error: &str) -> (r: String)
    requires
        index + 2 <= usize::MAX,
    ensures
        r@ == row_text((index + 2) as usize, " is invalid: "@ + error@),
{
    let mut text = owned("tick row ");
    push_decimal(&mut text, (index + 2) as u64);
    push_str(&mut text, " is invalid: ");
    push_str(&mut text, error);
    proof {
        assert("tick row "@ + decimal((index + 2) as nat) + " is invalid: "@ + error@
            == row_text((index + 2) as usize, " is invalid: "@ + error@));
    }
    text
}

/// The text fields of one headerless `DATE,TIME,OPEN,HIGH,LOW,CLOSE[,VOLUME]`
/// row: `DATE TIME`, the four price fields, and the volume (0 when missing or
/// not a number).
pub struct HeaderlessRowFields {
    pub timestamp: String,
    pub open: String,
    pub high: String,
    pub low: String,
    pub close: String,
    pub tick_volume: u64,
}

pub open spec fn headerless_short_text(row: nat) -> Seq<char> {
    "OHLC row "@ + decimal(row) + " has fewer than six fields"@
}

pub open spec fn headerless_volume_of(record: Seq<String>) -> u64 {
    match record_field(record, 6) {
        Some(v) => match parsed_u64(v) {
            Some(n) => n,
            None => 0,
        },
        None => 0,
    }
}

/// The fields of headerless record `index` (reported as row `index + 1`).
pub fn headerless_row_fields(record: &Vec<String>, index: usize) -> (r: Result<HeaderlessRowFields, String>)
    requires
        index + 1 <= usize::MAX,
    ensures
        record@.len() < 6 ==> (r matches Err(m) && m@ == headerless_short_text((index + 1) as nat)),
        record@.len() >= 6 ==> (r matches Ok(f)
            && f.timestamp@ == record@[0]@ + " "@ + record@[1]@
            && f.open@ == record@[2]@ && f.high@ == record@[3]@
            && f.low@ == record@[4]@ && f.close@ == record@[5]@
            && f.tick_volume == headerless_volume_of(record@)),
{
    if record.len() < 6 {
        let mut text = owned("OHLC row ");
        push_decimal(&mut text, (index + 1) as u64);
        push_str(&mut text, " has fewer than six fields");
        return Err(text);
    }
    let mut timestamp = owned(record[0].as_str());
    push_str(&mut timestamp, " ");
    push_str(&mut timestamp, record[1].as_str());
    let tick_volume = if record.len() > 6 {
        match parse_u64(record[6].as_str()) {
            Some(n) => n,
            None => 0,
        }
    } else {
        0
    };
    Ok(HeaderlessRowFields {
        timestamp,
        open: owned(record[2].as_str()),
        high: owned(record[3].as_str()),
        low: owned(record[4].as_str()),
        close: owned(record[5].as_str()),
        tick_volume,
    })
}

} // verus!
