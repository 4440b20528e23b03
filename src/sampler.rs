//! The decisions of the sampling loop, as a state machine: the caller performs
//! each action (read the ADC, append a row, sleep) and reports how it went;
//! the sampler answers with the next action.
//!
//! A cycle is: read a raw code, convert it and append its row, then sleep for
//! the interval. A failed read is tried again up to a bound and then ends the
//! run; a failed append ends the run at once. No cycle is skipped and no
//! record is ever made up for a failed read.
use vstd::prelude::*;
use crate::convert::reading_of;
use crate::record::SampleRecord;
use crate::timestamp::UtcTime;

verus! {

/// Interval between samples, in seconds, where none is configured.
pub const DEFAULT_INTERVAL_SECS: u64 = 10;

/// The bus transaction with the ADC did not complete.
#[derive(Clone, Copy, Debug, PartialEq, Eq, Structural)]
pub struct HardwareError;

/// Why a run ended.
#[derive(Clone, Copy, Debug, PartialEq, Eq, Structural)]
pub enum Fault {
    /// The ADC could not be read, after every retry allowed.
    Hardware,
    /// A row could not be written and flushed to the log.
    Io,
}

/// What the caller does next.
#[derive(Clone, Copy, Debug, PartialEq, Eq, Structural)]
pub enum Action {
    /// Read one raw code from the ADC.
    Read,
    /// Append this record's row to the log and flush it.
    Append(SampleRecord),
    /// Sleep this many seconds.
    Sleep(u64),
    /// Stop: the run was cancelled between two cycles.
    Finish,
    /// Stop: the run failed.
    Fail(Fault),
}

/// The state of a run.
#[derive(Clone, Copy, Debug, PartialEq, Eq, Structural)]
pub struct Sampler {
    /// Seconds to sleep after each appended row.
    pub interval_secs: u64,
    /// Failed reads in a row that are tried again before the run fails.
    pub max_read_retries: u32,
    /// Failed reads since the last good one.
    pub failed_reads: u32,
}

/// The next state and action after a read.
pub open spec fn read_step(s: Sampler, sample: Result<i16, HardwareError>, now: UtcTime) -> (
    Sampler,
    Action,
) {
    match sample {
        Ok(raw) => (
            Sampler { failed_reads: 0, ..s },
            Action::Append(
                SampleRecord { timestamp: now, raw_code: raw, reading: reading_of(raw as int) },
            ),
        ),
        Err(_) => if s.failed_reads < s.max_read_retries {
            (Sampler { failed_reads: (s.failed_reads + 1) as u32, ..s }, Action::Read)
        } else {
            (s, Action::Fail(Fault::Hardware))
        },
    }
}

/// The action after an append, which leaves the state as it was.
pub open spec fn append_step(s: Sampler, written: bool) -> Action {
    if written {
        Action::Sleep(s.interval_secs)
    } else {
        Action::Fail(Fault::Io)
    }
}

/// The action at the boundary between two cycles.
pub open spec fn wake_step(cancelled: bool) -> Action {
    if cancelled {
        Action::Finish
    } else {
        Action::Read
    }
}

/// The actions of one cycle in which the read and the append succeed, and
/// the state after it.
pub open spec fn good_cycle(s: Sampler, raw: i16, now: UtcTime) -> (Sampler, Seq<Action>) {
    let (s1, a1) = read_step(s, Ok(raw), now);
    (s1, seq![wake_step(false), a1, append_step(s1, true)])
}

/// The actions of successive good cycles, one per sample, and the state after.
pub open spec fn good_cycles(s: Sampler, samples: Seq<(i16, UtcTime)>) -> (Sampler, Seq<Action>)
    decreases samples.len(),
{
    if samples.len() == 0 {
        (s, Seq::empty())
    } else {
        let (s1, acts) = good_cycles(s, samples.drop_last());
        let (s2, more) = good_cycle(s1, samples.last().0, samples.last().1);
        (s2, acts + more)
    }
}

/// The records that a run of actions appends, in order.
pub open spec fn appended(actions: Seq<Action>) -> Seq<SampleRecord>
    decreases actions.len(),
{
    if actions.len() == 0 {
        Seq::empty()
    } else {
        let prev = appended(actions.drop_last());
        match actions.last() {
            Action::Append(r) => prev.push(r),
            _ => prev,
        }
    }
}

proof fn lemma_appended_concat(a: Seq<Action>, b: Seq<Action>)
    ensures
        appended(a + b) == appended(a) + appended(b),
    decreases b.len(),
{
    if b.len() == 0 {
        assert(a + b == a);
        assert(appended(a) + Seq::<SampleRecord>::empty() == appended(a));
    } else {
        lemma_appended_concat(a, b.drop_last());
        assert((a + b).drop_last() == a + b.drop_last());
    }
}

/// Every good cycle appends exactly one row, whatever the interval (zero
/// included): `n` samples read without error give `n` records, one for each
/// sample in the order taken, and the run is still in its first state.
pub proof fn lemma_every_cycle_appends(s: Sampler, samples: Seq<(i16, UtcTime)>)
    requires
        s.failed_reads == 0,
    ensures
        good_cycles(s, samples).0 == s,
        appended(good_cycles(s, samples).1).len() == samples.len(),
        forall|i: int|
            0 <= i < samples.len() ==> #[trigger] appended(good_cycles(s, samples).1)[i] == (
            SampleRecord {
                timestamp: samples[i].1,
                raw_code: samples[i].0,
                reading: reading_of(samples[i].0 as int),
            }),
    decreases samples.len(),
{
    if samples.len() > 0 {
        let init = samples.drop_last();
        lemma_every_cycle_appends(s, init);
        let (s1, acts) = good_cycles(s, init);
        let (s2, more) = good_cycle(s1, samples.last().0, samples.last().1);
        lemma_appended_concat(acts, more);
        let rec = SampleRecord {
            timestamp: samples.last().1,
            raw_code: samples.last().0,
            reading: reading_of(samples.last().0 as int),
        };
        assert(more == seq![Action::Read, Action::Append(rec), Action::Sleep(s.interval_secs)]);
        let two = seq![Action::Read, Action::Append(rec)];
        assert(more.drop_last() == two);
        assert(two.drop_last() == seq![Action::Read]);
        assert(seq![Action::Read].drop_last() == Seq::<Action>::empty());
        assert(appended(Seq::<Action>::empty()) == Seq::<SampleRecord>::empty());
        assert(appended(seq![Action::Read]) == Seq::<SampleRecord>::empty());
        assert(appended(two) == seq![rec]);
        assert(appended(more) == seq![rec]);
        assert forall|i: int| 0 <= i < samples.len() implies #[trigger] appended(
            good_cycles(s, samples).1,
        )[i] == (SampleRecord {
            timestamp: samples[i].1,
            raw_code: samples[i].0,
            reading: reading_of(samples[i].0 as int),
        }) by {
            if i < samples.len() - 1 {
                assert(samples[i] == init[i]);
                assert(appended(good_cycles(s, samples).1)[i] == appended(acts)[i]);
            }
        }
    }
}

impl Sampler {
    /// The count of failed reads never passes the bound of retries.
    pub open spec fn wf(&self) -> bool {
        self.failed_reads <= self.max_read_retries
    }

    /// A run that sleeps `interval_secs` between samples (ten seconds where
    /// none is given) and tries a failed read again up to `max_read_retries`
    /// times in a row.
    pub fn new(interval_secs: Option<u64>, max_read_retries: u32) -> (r: Sampler)
        ensures
            r.interval_secs == match interval_secs {
                Some(i) => i,
                None => DEFAULT_INTERVAL_SECS,
            },
            r.max_read_retries == max_read_retries,
            r.failed_reads == 0,
            r.wf(),
    {
        let interval = match interval_secs {
            Some(i) => i,
            None => DEFAULT_INTERVAL_SECS,
        };
        Sampler { interval_secs: interval, max_read_retries, failed_reads: 0 }
    }

    /// The action at the boundary between two cycles: read again, or finish
    /// where the run was cancelled.
    pub fn on_woken(&self, cancelled: bool) -> (a: Action)
        ensures
            a == wake_step(cancelled),
    {
        if cancelled {
            Action::Finish
        } else {
            Action::Read
        }
    }

    /// Takes the outcome of a read taken at `now`. A good code becomes a
    /// record to append; a failed read is tried again while retries are left,
    /// and fails the run after that. A failed read never yields a record.
    pub fn on_read(&mut self, sample: Result<i16, HardwareError>, now: UtcTime) -> (a: Action)
        requires
            now.wf(),
            old(self).wf(),
        ensures
            (*final(self), a) == read_step(*old(self), sample, now),
            final(self).wf(),
            sample is Err ==> !(a is Append),
            a matches Action::Append(r) ==> r.wf(),
    {
        match sample {
            Ok(raw) => {
                self.failed_reads = 0;
                Action::Append(SampleRecord::new(now, raw))
            },
            Err(_) => {
                if self.failed_reads < self.max_read_retries {
                    self.failed_reads = self.failed_reads + 1;
                    Action::Read
                } else {
                    Action::Fail(Fault::Hardware)
                }
            },
        }
    }

    /// Takes the outcome of an append: sleep for the interval once the row is
    /// written and flushed, fail the run where it could not be.
    pub fn on_appended(&self, written: bool) -> (a: Action)
        ensures
            a == append_step(*self, written),
    {
        if written {
            Action::Sleep(self.interval_secs)
        } else {
            Action::Fail(Fault::Io)
        }
    }
}

} // verus!
