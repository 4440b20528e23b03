//! Sample records and the append-only CSV log that holds them: one header row
//! when the file is created, then one row per sample, in the order
//! `timestamp,adc_value,voltage,pressure_psi,depth_meters`.
use vstd::prelude::*;
use crate::convert::{convert, reading_of, Reading};
use crate::text::{
    fixed9_text, fixed9_value, int_text, int_value, lemma_fixed9_text, lemma_int_text,
    push_fixed9, push_int,
};
use crate::timestamp::{
    file_stamp, lemma_row_stamp_round_trip, push_file_stamp, push_row_stamp, row_stamp,
    row_stamp_value, UtcTime, ROW_STAMP_LEN,
};

verus! {

/// One sample: when it was taken, the raw code, and what the code stands for.
#[derive(Clone, Copy, Debug, PartialEq, Eq, Structural)]
pub struct SampleRecord {
    pub timestamp: UtcTime,
    pub raw_code: i16,
    pub reading: Reading,
}

impl SampleRecord {
    /// A record whose timestamp is a valid instant.
    pub open spec fn wf(&self) -> bool {
        self.timestamp.wf()
    }

    /// The record of `raw_code` taken at `timestamp`, converted.
    pub fn new(timestamp: UtcTime, raw_code: i16) -> (r: SampleRecord)
        ensures
            r == (SampleRecord { timestamp, raw_code, reading: reading_of(raw_code as int) }),
    {
        SampleRecord { timestamp, raw_code, reading: convert(raw_code) }
    }
}

/// `timestamp,adc_value,voltage,pressure_psi,depth_meters` and a line break.
pub open spec fn header_text() -> Seq<u8> {
    seq![
        116u8, 105, 109, 101, 115, 116, 97, 109, 112, 44, 97, 100, 99, 95, 118, 97, 108, 117,
        101, 44, 118, 111, 108, 116, 97, 103, 101, 44, 112, 114, 101, 115, 115, 117, 114, 101,
        95, 112, 115, 105, 44, 100, 101, 112, 116, 104, 95, 109, 101, 116, 101, 114, 115, 10,
    ]
}

/// `_depth_data.csv`, the end of every log file's name.
pub open spec fn file_suffix() -> Seq<u8> {
    seq![95u8, 100, 101, 112, 116, 104, 95, 100, 97, 116, 97, 46, 99, 115, 118]
}

/// The row of one record: its fields separated by commas, and a line break.
pub open spec fn row_text(r: SampleRecord) -> Seq<u8> {
    row_stamp(r.timestamp) + seq![44u8] + int_text(r.raw_code as int) + seq![44u8]
        + fixed9_text(r.reading.voltage_nv as int) + seq![44u8]
        + fixed9_text(r.reading.pressure_npsi as int) + seq![44u8]
        + fixed9_text(r.reading.depth_nm as int) + seq![10u8]
}

/// The rows of a run of records, in order.
pub open spec fn rows_text(rs: Seq<SampleRecord>) -> Seq<u8>
    decreases rs.len(),
{
    if rs.len() == 0 {
        Seq::empty()
    } else {
        rows_text(rs.drop_last()) + row_text(rs.last())
    }
}

/// A whole log: the header, then one row per record.
pub open spec fn log_bytes(rs: Seq<SampleRecord>) -> Seq<u8> {
    header_text() + rows_text(rs)
}

/// What a sink writes when it opens a file that already holds `existing_len`
/// bytes: the header for a new file, nothing for one that has rows already.
pub open spec fn preamble(existing_len: nat) -> Seq<u8> {
    if existing_len == 0 {
        header_text()
    } else {
        Seq::empty()
    }
}

/// Position of the first comma in `s`, or its length where there is none.
pub open spec fn comma_at(s: Seq<u8>) -> int
    decreases s.len(),
{
    if s.len() == 0 {
        0
    } else if s[0] == 44u8 {
        0
    } else {
        1 + comma_at(s.drop_first())
    }
}

/// The field at the start of `s`, up to its first comma.
pub open spec fn first_field(s: Seq<u8>) -> Seq<u8> {
    s.subrange(0, comma_at(s))
}

/// What follows the first comma of `s`.
pub open spec fn after_first_field(s: Seq<u8>) -> Seq<u8> {
    s.subrange(comma_at(s) + 1, s.len() as int)
}

/// Reads a record back from its row.
pub open spec fn row_value(s: Seq<u8>) -> SampleRecord {
    let rest = s.subrange(ROW_STAMP_LEN as int + 1, s.len() - 1);
    let r1 = after_first_field(rest);
    let r2 = after_first_field(r1);
    let r3 = after_first_field(r2);
    SampleRecord {
        timestamp: row_stamp_value(s.subrange(0, ROW_STAMP_LEN as int)),
        raw_code: int_value(first_field(rest)) as i16,
        reading: Reading {
            voltage_nv: fixed9_value(first_field(r1)) as i64,
            pressure_npsi: fixed9_value(first_field(r2)) as i64,
            depth_nm: fixed9_value(r3) as i64,
        },
    }
}

proof fn lemma_comma_at(a: Seq<u8>, b: Seq<u8>)
    requires
        !a.contains(44u8),
    ensures
        comma_at(a + seq![44u8] + b) == a.len(),
        first_field(a + seq![44u8] + b) == a,
        after_first_field(a + seq![44u8] + b) == b,
    decreases a.len(),
{
    let s = a + seq![44u8] + b;
    if a.len() > 0 {
        assert(a[0] != 44u8);
        assert(!a.drop_first().contains(44u8)) by {
            if a.drop_first().contains(44u8) {
                let i = choose|i: int| 0 <= i < a.len() - 1 && a.drop_first()[i] == 44u8;
                assert(a[i + 1] == 44u8);
            }
        }
        lemma_comma_at(a.drop_first(), b);
        assert(s.drop_first() == a.drop_first() + seq![44u8] + b);
    }
    assert(s.subrange(0, a.len() as int) == a);
    assert(s.subrange(a.len() as int + 1, s.len() as int) == b);
}

/// The fields of a row, whatever they hold, are found again where the commas
/// and the fixed width of the timestamp put them.
proof fn lemma_row_fields(ts: Seq<u8>, f0: Seq<u8>, f1: Seq<u8>, f2: Seq<u8>, f3: Seq<u8>)
    requires
        ts.len() == ROW_STAMP_LEN,
        !f0.contains(44u8),
        !f1.contains(44u8),
        !f2.contains(44u8),
    ensures
        ({
            let s = ts + seq![44u8] + f0 + seq![44u8] + f1 + seq![44u8] + f2 + seq![44u8] + f3
                + seq![10u8];
            let rest = s.subrange(ROW_STAMP_LEN as int + 1, s.len() - 1);
            let r1 = after_first_field(rest);
            let r2 = after_first_field(r1);
            &&& s.subrange(0, ROW_STAMP_LEN as int) == ts
            &&& first_field(rest) == f0
            &&& first_field(r1) == f1
            &&& first_field(r2) == f2
            &&& after_first_field(r2) == f3
        }),
{
    let s = ts + seq![44u8] + f0 + seq![44u8] + f1 + seq![44u8] + f2 + seq![44u8] + f3 + seq![
        10u8,
    ];
    let r2 = f2 + seq![44u8] + f3;
    let r1 = f1 + seq![44u8] + r2;
    let rest = f0 + seq![44u8] + r1;
    assert(s.subrange(0, ROW_STAMP_LEN as int) == ts);
    assert(s.subrange(ROW_STAMP_LEN as int + 1, s.len() - 1) == rest);
    lemma_comma_at(f0, r1);
    lemma_comma_at(f1, r2);
    lemma_comma_at(f2, f3);
}

/// Reading a record back from the row it was written as gives the same
/// record: timestamp to the microsecond, and every number exactly.
pub proof fn lemma_row_round_trip(r: SampleRecord)
    requires
        r.wf(),
    ensures
        row_value(row_text(r)) == r,
{
    let ts = row_stamp(r.timestamp);
    let f0 = int_text(r.raw_code as int);
    let f1 = fixed9_text(r.reading.voltage_nv as int);
    let f2 = fixed9_text(r.reading.pressure_npsi as int);
    let f3 = fixed9_text(r.reading.depth_nm as int);
    lemma_row_stamp_round_trip(r.timestamp);
    lemma_int_text(r.raw_code as int);
    lemma_fixed9_text(r.reading.voltage_nv as int);
    lemma_fixed9_text(r.reading.pressure_npsi as int);
    lemma_fixed9_text(r.reading.depth_nm as int);
    lemma_row_fields(ts, f0, f1, f2, f3);
}

proof fn lemma_rows_concat(a: Seq<SampleRecord>, b: Seq<SampleRecord>)
    ensures
        rows_text(a + b) == rows_text(a) + rows_text(b),
    decreases b.len(),
{
    if b.len() == 0 {
        assert(a + b == a);
    } else {
        lemma_rows_concat(a, b.drop_last());
        assert((a + b).drop_last() == a + b.drop_last());
        assert((a + b).last() == b.last());
    }
}

/// Opening a log again and appending keeps what was there: a file that holds
/// the log of `earlier`, followed by what the sink writes on opening it and the
/// rows of `later`, is the log of all the records in order, with a single
/// header. A new, empty file gets the header first.
pub proof fn lemma_reopen_appends(earlier: Seq<SampleRecord>, later: Seq<SampleRecord>)
    ensures
        log_bytes(earlier) + preamble(log_bytes(earlier).len()) + rows_text(later)
            == log_bytes(earlier + later),
        log_bytes(earlier + later).subrange(0, log_bytes(earlier).len() as int)
            == log_bytes(earlier),
        preamble(0) + rows_text(later) == log_bytes(later),
{
    lemma_rows_concat(earlier, later);
    assert(log_bytes(earlier).len() > 0);
    assert(log_bytes(earlier) + preamble(log_bytes(earlier).len()) == log_bytes(earlier));
    assert(log_bytes(earlier + later) == log_bytes(earlier) + rows_text(later));
}

/// The bytes of a row for `record`.
pub fn encode_row(record: &SampleRecord) -> (r: Vec<u8>)
    ensures
        r@ == row_text(*record),
{
    let mut out: Vec<u8> = Vec::new();
    push_row_stamp(&mut out, &record.timestamp);
    out.push(44u8);
    push_int(&mut out, record.raw_code as i64);
    out.push(44u8);
    push_fixed9(&mut out, record.reading.voltage_nv);
    out.push(44u8);
    push_fixed9(&mut out, record.reading.pressure_npsi);
    out.push(44u8);
    push_fixed9(&mut out, record.reading.depth_nm);
    out.push(10u8);
    assert(out@ == row_text(*record));
    out
}

/// The header row.
pub fn header() -> (r: Vec<u8>)
    ensures
        r@ == header_text(),
{
    let r = vec![
        116u8, 105, 109, 101, 115, 116, 97, 109, 112, 44, 97, 100, 99, 95, 118, 97, 108, 117,
        101, 44, 118, 111, 108, 116, 97, 103, 101, 44, 112, 114, 101, 115, 115, 117, 114, 101,
        95, 112, 115, 105, 44, 100, 101, 112, 116, 104, 95, 109, 101, 116, 101, 114, 115, 10,
    ];
    assert(r@ == header_text());
    r
}

/// What to write on opening a log file that already holds `existing_len`
/// bytes: the header if the file is new, nothing if it has content, so that a
/// restart appends rows below the ones already there.
pub fn open_preamble(existing_len: u64) -> (r: Vec<u8>)
    ensures
        r@ == preamble(existing_len as nat),
{
    if existing_len == 0 {
        header()
    } else {
        Vec::new()
    }
}

/// The name of the log file of a run that started at `run_start`:
/// `YYYY-MM-DDTHH-MM-SS_depth_data.csv`.
pub fn log_file_name(run_start: &UtcTime) -> (r: Vec<u8>)
    ensures
        r@ == file_stamp(*run_start) + file_suffix(),
{
    let mut out: Vec<u8> = Vec::new();
    push_file_stamp(&mut out, run_start);
    let mut suffix = vec![95u8, 100, 101, 112, 116, 104, 95, 100, 97, 116, 97, 46, 99, 115, 118];
    assert(suffix@ == file_suffix());
    out.append(&mut suffix);
    out
}

} // verus!
