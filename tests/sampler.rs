use depth_logger::convert::convert;
use depth_logger::record::SampleRecord;
use depth_logger::sampler::{Action, Fault, HardwareError, Sampler};
use depth_logger::timestamp::UtcTime;

fn at(second: u8) -> UtcTime {
    UtcTime { year: 2024, month: 3, day: 1, hour: 12, minute: 30, second, micros: 0 }
}

#[test]
fn interval_defaults_to_ten_seconds() {
    let s = Sampler::new(None, 0);
    assert_eq!(s.interval_secs, 10);
    assert_eq!(s.failed_reads, 0);
    assert_eq!(Sampler::new(Some(0), 3).interval_secs, 0);
}

#[test]
fn zero_interval_appends_one_row_per_cycle() {
    let mut s = Sampler::new(Some(0), 0);
    let codes = [-2048i16, -1, 0, 7, 2047];
    let mut appended = Vec::new();
    for (i, code) in codes.iter().enumerate() {
        assert_eq!(s.on_woken(false), Action::Read);
        match s.on_read(Ok(*code), at(i as u8)) {
            Action::Append(r) => appended.push(r),
            other => panic!("expected a record, got {:?}", other),
        }
        assert_eq!(s.on_appended(true), Action::Sleep(0));
    }
    assert_eq!(appended.len(), codes.len());
    for (i, r) in appended.iter().enumerate() {
        assert_eq!(*r, SampleRecord { timestamp: at(i as u8), raw_code: codes[i], reading: convert(codes[i]) });
    }
    assert_eq!(s.on_woken(true), Action::Finish);
}

#[test]
fn failed_read_without_retries_fails_the_run() {
    let mut s = Sampler::new(None, 0);
    assert_eq!(s.on_read(Err(HardwareError), at(0)), Action::Fail(Fault::Hardware));
}

#[test]
fn failed_reads_are_retried_up_to_the_bound() {
    let mut s = Sampler::new(None, 2);
    assert_eq!(s.on_read(Err(HardwareError), at(0)), Action::Read);
    assert_eq!(s.on_read(Err(HardwareError), at(0)), Action::Read);
    assert_eq!(s.on_read(Err(HardwareError), at(0)), Action::Fail(Fault::Hardware));
}

#[test]
fn good_read_resets_the_retry_count() {
    let mut s = Sampler::new(None, 1);
    assert_eq!(s.on_read(Err(HardwareError), at(0)), Action::Read);
    assert_eq!(s.failed_reads, 1);
    assert!(matches!(s.on_read(Ok(5), at(1)), Action::Append(_)));
    assert_eq!(s.failed_reads, 0);
    assert_eq!(s.on_read(Err(HardwareError), at(2)), Action::Read);
}

#[test]
fn failed_append_fails_the_run() {
    let s = Sampler::new(Some(3), 0);
    assert_eq!(s.on_appended(false), Action::Fail(Fault::Io));
    assert_eq!(s.on_appended(true), Action::Sleep(3));
}
