//! Instants in UTC as calendar fields, as the log writes them: in file names
//! (`2024-03-01T12-30-05`) and in rows (`2024-03-01T12:30:05.123456Z`).
use vstd::prelude::*;
use crate::text::{digits_value, lemma_padded, padded, pow10, push_padded};
use chrono::{Datelike, Timelike};

verus! {

/// An instant in UTC, to the microsecond.
#[derive(Clone, Copy, Debug, PartialEq, Eq, Structural)]
pub struct UtcTime {
    pub year: u16,
    pub month: u8,
    pub day: u8,
    pub hour: u8,
    pub minute: u8,
    pub second: u8,
    pub micros: u32,
}

impl UtcTime {
    /// Fields within the ranges of a four-digit-year calendar instant.
    pub open spec fn wf(&self) -> bool {
        &&& self.year <= 9999
        &&& 1 <= self.month <= 12
        &&& 1 <= self.day <= 31
        &&& self.hour < 24
        &&& self.minute < 60
        &&& self.second < 60
        &&& self.micros < 1_000_000
    }
}

/// Year, month and day of the UTC date that a Unix time falls on.
pub uninterp spec fn civil_date_of(secs: i64) -> (int, int, int);

/// Relies on chrono's `DateTime::from_timestamp` and the `Datelike` and
/// `Timelike` getters of the result: the calendar date (month 1 to 12, day 1
/// to 31), the time of day from the seconds since midnight, and the nanoseconds
/// as given. chrono returns `None` only for seconds whose date falls outside
/// its range of dates, which holds every year from 0 to 9999.
#[verifier::external_body]
fn utc_fields(secs: i64, nanos: u32) -> (r: Option<(i32, u32, u32, u32, u32, u32, u32)>)
    requires
        nanos < 1_000_000_000,
    ensures
        0 <= civil_date_of(secs).0 <= 9999 ==> r is Some,
        r matches Some(f) ==> {
            &&& f.0 == civil_date_of(secs).0
            &&& f.1 == civil_date_of(secs).1
            &&& f.2 == civil_date_of(secs).2
            &&& 1 <= f.1 <= 12
            &&& 1 <= f.2 <= 31
            &&& f.3 == (secs % 86_400) / 3600
            &&& f.4 == (secs % 86_400) / 60 % 60
            &&& f.5 == secs % 60
            &&& f.6 == nanos
        },
{
    chrono::DateTime::from_timestamp(secs, nanos).map(
        |d| (d.year(), d.month(), d.day(), d.hour(), d.minute(), d.second(), d.nanosecond()),
    )
}

/// The instant `secs` seconds and `nanos` nanoseconds after the Unix epoch,
/// truncated to the microsecond.
pub open spec fn utc_time_of(secs: i64, nanos: u32) -> UtcTime {
    let d = civil_date_of(secs);
    UtcTime {
        year: d.0 as u16,
        month: d.1 as u8,
        day: d.2 as u8,
        hour: ((secs % 86_400) / 3600) as u8,
        minute: ((secs % 86_400) / 60 % 60) as u8,
        second: (secs % 60) as u8,
        micros: nanos / 1000,
    }
}

impl UtcTime {
    /// The instant of a Unix time, given as whole seconds and nanoseconds.
    ///
    /// `None` exactly where `nanos` is not below one second or the date's year
    /// is not within 0 to 9999.
    pub fn from_unix(secs: i64, nanos: u32) -> (r: Option<UtcTime>)
        ensures
            r matches Some(t) ==> t.wf() && t == utc_time_of(secs, nanos),
            nanos >= 1_000_000_000 ==> r is None,
            nanos < 1_000_000_000 && 0 <= civil_date_of(secs).0 <= 9999 ==> r is Some,
            !(0 <= civil_date_of(secs).0 <= 9999) ==> r is None,
    {
        if nanos >= 1_000_000_000 {
            return None;
        }
        match utc_fields(secs, nanos) {
            None => None,
            Some(f) => {
                if f.0 < 0 || f.0 > 9999 {
                    None
                } else {
                    Some(
                        UtcTime {
                            year: f.0 as u16,
                            month: f.1 as u8,
                            day: f.2 as u8,
                            hour: f.3 as u8,
                            minute: f.4 as u8,
                            second: f.5 as u8,
                            micros: f.6 / 1000,
                        },
                    )
                }
            },
        }
    }
}

/// The instant as it stands in a log file's name: `YYYY-MM-DDTHH-MM-SS`,
/// with no character that a file system could take for a separator.
pub open spec fn file_stamp(t: UtcTime) -> Seq<u8> {
    padded(t.year as nat, 4) + seq![45u8] + padded(t.month as nat, 2) + seq![45u8]
        + padded(t.day as nat, 2) + seq![84u8] + padded(t.hour as nat, 2) + seq![45u8]
        + padded(t.minute as nat, 2) + seq![45u8] + padded(t.second as nat, 2)
}

/// The instant as it stands in a row: `YYYY-MM-DDTHH:MM:SS.ffffffZ`.
pub open spec fn row_stamp(t: UtcTime) -> Seq<u8> {
    padded(t.year as nat, 4) + seq![45u8] + padded(t.month as nat, 2) + seq![45u8]
        + padded(t.day as nat, 2) + seq![84u8] + padded(t.hour as nat, 2) + seq![58u8]
        + padded(t.minute as nat, 2) + seq![58u8] + padded(t.second as nat, 2) + seq![46u8]
        + padded(t.micros as nat, 6) + seq![90u8]
}

/// Length of `row_stamp`.
pub const ROW_STAMP_LEN: usize = 27;

/// Reads an instant back from its row form, field by field at fixed places.
pub open spec fn row_stamp_value(s: Seq<u8>) -> UtcTime {
    UtcTime {
        year: digits_value(s.subrange(0, 4)) as u16,
        month: digits_value(s.subrange(5, 7)) as u8,
        day: digits_value(s.subrange(8, 10)) as u8,
        hour: digits_value(s.subrange(11, 13)) as u8,
        minute: digits_value(s.subrange(14, 16)) as u8,
        second: digits_value(s.subrange(17, 19)) as u8,
        micros: digits_value(s.subrange(20, 26)) as u32,
    }
}

/// Reading an instant back from its row form gives the same instant.
pub proof fn lemma_row_stamp_round_trip(t: UtcTime)
    requires
        t.wf(),
    ensures
        row_stamp(t).len() == ROW_STAMP_LEN,
        row_stamp_value(row_stamp(t)) == t,
{
    reveal_with_fuel(pow10, 7);
    let y = padded(t.year as nat, 4);
    let mo = padded(t.month as nat, 2);
    let d = padded(t.day as nat, 2);
    let h = padded(t.hour as nat, 2);
    let mi = padded(t.minute as nat, 2);
    let se = padded(t.second as nat, 2);
    let us = padded(t.micros as nat, 6);
    lemma_padded(t.year as nat, 4);
    lemma_padded(t.month as nat, 2);
    lemma_padded(t.day as nat, 2);
    lemma_padded(t.hour as nat, 2);
    lemma_padded(t.minute as nat, 2);
    lemma_padded(t.second as nat, 2);
    lemma_padded(t.micros as nat, 6);
    let s = row_stamp(t);
    assert(s.subrange(0, 4) == y);
    assert(s.subrange(5, 7) == mo);
    assert(s.subrange(8, 10) == d);
    assert(s.subrange(11, 13) == h);
    assert(s.subrange(14, 16) == mi);
    assert(s.subrange(17, 19) == se);
    assert(s.subrange(20, 26) == us);
}

/// Appends a byte that stands between two fields of a stamp.
fn push_sep(out: &mut Vec<u8>, b: u8)
    ensures
        final(out)@ == old(out)@ + seq![b],
{
    out.push(b);
}

/// Appends the date and the time to the second, with `time_sep` between hours,
/// minutes and seconds.
fn push_date_time(out: &mut Vec<u8>, t: &UtcTime, time_sep: u8)
    ensures
        final(out)@ == old(out)@ + padded(t.year as nat, 4) + seq![45u8] + padded(t.month as nat, 2)
            + seq![45u8] + padded(t.day as nat, 2) + seq![84u8] + padded(t.hour as nat, 2)
            + seq![time_sep] + padded(t.minute as nat, 2) + seq![time_sep] + padded(
            t.second as nat,
            2,
        ),
{
    push_padded(out, t.year as u64, 4);
    push_sep(out, 45u8);
    push_padded(out, t.month as u64, 2);
    push_sep(out, 45u8);
    push_padded(out, t.day as u64, 2);
    push_sep(out, 84u8);
    push_padded(out, t.hour as u64, 2);
    push_sep(out, time_sep);
    push_padded(out, t.minute as u64, 2);
    push_sep(out, time_sep);
    push_padded(out, t.second as u64, 2);
}

/// Appends the instant in its file-name form.
pub fn push_file_stamp(out: &mut Vec<u8>, t: &UtcTime)
    ensures
        final(out)@ == old(out)@ + file_stamp(*t),
{
    push_date_time(out, t, 45u8);
}

/// Appends the instant in its row form.
pub fn push_row_stamp(out: &mut Vec<u8>, t: &UtcTime)
    ensures
        final(out)@ == old(out)@ + row_stamp(*t),
{
    push_date_time(out, t, 58u8);
    push_sep(out, 46u8);
    push_padded(out, t.micros as u64, 6);
    push_sep(out, 90u8);
}

} // verus!
