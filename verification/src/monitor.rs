//! The windowed rate engine: a fixed-capacity circular recorder of
//! heartbeat samples with running global and per-window accumulators.

use vstd::prelude::*;
use crate::arith::{wcount, wsum};
use crate::record::{Capabilities, HeartbeatRecord, Rate, Rates, Sample, elapsed_of, energy_of};

verus! {

/// Work reported by a sample, for summation.
pub open spec fn work_fn() -> spec_fn(Sample) -> u64 {
    |s: Sample| s.work
}

/// Elapsed time of a sample, for summation.
pub open spec fn time_fn() -> spec_fn(Sample) -> u64 {
    |s: Sample| elapsed_of(s)
}

/// Energy consumed by a sample, for summation.
pub open spec fn energy_fn() -> spec_fn(Sample) -> u64 {
    |s: Sample| energy_of(s)
}

/// Accuracy units of a sample, for summation.
pub open spec fn accuracy_fn() -> spec_fn(Sample) -> u64 {
    |s: Sample| s.accuracy
}

/// Total work over a run of samples (wrapping).
pub open spec fn sum_work(h: Seq<Sample>) -> u64 {
    wsum(h, work_fn())
}

/// Total elapsed time over a run of samples (wrapping).
pub open spec fn sum_time(h: Seq<Sample>) -> u64 {
    wsum(h, time_fn())
}

/// Total energy over a run of samples (wrapping).
pub open spec fn sum_energy(h: Seq<Sample>) -> u64 {
    wsum(h, energy_fn())
}

/// Total accuracy units over a run of samples (wrapping).
pub open spec fn sum_accuracy(h: Seq<Sample>) -> u64 {
    wsum(h, accuracy_fn())
}

/// The four running sums a monitor keeps, either since creation or
/// restricted to the current window.
#[derive(Clone, Copy, PartialEq, Eq, Structural, Debug)]
pub struct Totals {
    /// Sum of reported work.
    pub work: u64,
    /// Sum of elapsed times.
    pub time: u64,
    /// Sum of energy deltas.
    pub energy: u64,
    /// Sum of accuracy units.
    pub accuracy: u64,
}

/// The sums over a run of samples, as one value.
pub open spec fn totals_of(h: Seq<Sample>) -> Totals {
    Totals {
        work: sum_work(h),
        time: sum_time(h),
        energy: sum_energy(h),
        accuracy: sum_accuracy(h),
    }
}

/// The index where the window containing sample `k` begins.
pub open spec fn window_base(k: int, w: int) -> int {
    k - (k % w)
}

/// The record the engine derives for the `k`-th sample of a run, with a
/// window of `w` samples: the sample's inputs, and for each quantity its
/// rate over all samples so far, over the samples of the current window so
/// far, and over this sample alone.
pub open spec fn spec_record(h: Seq<Sample>, w: int, k: int) -> HeartbeatRecord {
    let s = h[k];
    let glob = h.take(k + 1);
    let win = h.subrange(window_base(k, w), k + 1);
    HeartbeatRecord {
        id: wcount(k as nat),
        user_tag: s.user_tag,
        work: s.work,
        start_time: s.start_time,
        end_time: s.end_time,
        perf: Rates {
            global: Rate { amount: sum_work(glob), time: sum_time(glob) },
            window: Rate { amount: sum_work(win), time: sum_time(win) },
            instant: Rate { amount: s.work, time: elapsed_of(s) },
        },
        accuracy: s.accuracy,
        acc: Rates {
            global: Rate { amount: sum_accuracy(glob), time: sum_time(glob) },
            window: Rate { amount: sum_accuracy(win), time: sum_time(win) },
            instant: Rate { amount: s.accuracy, time: elapsed_of(s) },
        },
        start_energy: s.start_energy,
        end_energy: s.end_energy,
        pwr: Rates {
            global: Rate { amount: sum_energy(glob), time: sum_time(glob) },
            window: Rate { amount: sum_energy(win), time: sum_time(win) },
            instant: Rate { amount: energy_of(s), time: elapsed_of(s) },
        },
    }
}

/// A record is derived from the samples up to its own, so feeding one more
/// sample leaves every earlier record's derivation unchanged.
pub proof fn lemma_spec_record_push(h: Seq<Sample>, w: int, s: Sample, k: int)
    requires
        1 <= w,
        0 <= k < h.len(),
    ensures
        spec_record(h.push(s), w, k) == spec_record(h, w, k),
{
    vstd::arithmetic::div_mod::lemma_mod_bound(k, w);
    vstd::arithmetic::div_mod::lemma_mod_decreases(k as nat, w as nat);
    assert(h.push(s).take(k + 1) =~= h.take(k + 1));
    assert(h.push(s).subrange(window_base(k, w), k + 1) =~= h.subrange(
        window_base(k, w),
        k + 1,
    ));
}

/// The slot the next record will be written to.
pub open spec fn slot_of(v: MonitorView) -> int {
    v.samples.len() as int % v.window_size
}

/// The index in the history where the current (not yet complete) window
/// begins.
pub open spec fn base_of(v: MonitorView) -> int {
    v.samples.len() - slot_of(v)
}

/// The samples of the current window.
pub open spec fn window_samples_of(v: MonitorView) -> Seq<Sample> {
    v.samples.skip(base_of(v))
}

/// The tag of the most recent sample, zero before the first one.
pub open spec fn last_tag_of(v: MonitorView) -> u64 {
    if v.samples.len() == 0 {
        0u64
    } else {
        v.samples.last().user_tag
    }
}

/// How many samples the monitor has seen, as its wrapping counter.
pub open spec fn sample_count_of(v: MonitorView) -> u64 {
    wcount(v.samples.len())
}

/// How many windows have completed, as a wrapping counter.
pub open spec fn completed_windows_of(v: MonitorView) -> u64 {
    wcount((v.samples.len() as int / v.window_size) as nat)
}

/// The record most recently written, the all-zero record before the first
/// sample. The current rates a monitor reports are read from it.
pub open spec fn last_record_of(v: MonitorView) -> HeartbeatRecord {
    if v.samples.len() == 0 {
        HeartbeatRecord::spec_zero()
    } else {
        spec_record(v.samples, v.window_size, v.samples.len() - 1)
    }
}

/// The abstract state of a monitor: what it was created with, and every
/// sample it has been fed, oldest first.
pub ghost struct MonitorView {
    /// Window capacity in samples.
    pub window_size: int,
    /// Which optional quantities are tracked.
    pub caps: Capabilities,
    /// Every sample since creation.
    pub samples: Seq<Sample>,
}

/// Failure to construct a monitor.
#[derive(Clone, Copy, PartialEq, Eq, Structural, Debug)]
pub enum InitError {
    /// The requested window size was zero.
    InvalidWindowSize,
}

/// The windowed rate engine. One instance tracks one recurring activity;
/// exclusive access (`&mut`) serializes its callers.
pub struct Heartbeat {
    window_size: usize,
    caps: Capabilities,
    buffer: Vec<HeartbeatRecord>,
    next_slot: usize,
    completed_windows: u64,
    sample_count: u64,
    last_tag: u64,
    started: bool,
    totals: Totals,
    window_totals: Totals,
    history: Ghost<Seq<Sample>>,
}

impl View for Heartbeat {
    type V = MonitorView;

    closed spec fn view(&self) -> MonitorView {
        MonitorView {
            window_size: self.window_size as int,
            caps: self.caps,
            samples: self.history@,
        }
    }
}

impl Heartbeat {
    /// Everything the engine maintains, stated over the sample history:
    /// the slot index walks the window cyclically, the counters count the
    /// samples and completed windows, the totals are the wrapping sums of
    /// the history (all of it, and the current window's part of it), and
    /// every buffer slot a sample has reached holds the record of the most
    /// recent sample to use it.
    pub closed spec fn wf(&self) -> bool {
        let h = self.history@;
        let w = self.window_size as int;
        let base = h.len() - self.next_slot;
        &&& 1 <= w
        &&& self.buffer@.len() == w
        &&& self.next_slot as int == h.len() as int % w
        &&& self.sample_count == wcount(h.len())
        &&& self.completed_windows == wcount((h.len() as int / w) as nat)
        &&& self.last_tag == (if h.len() == 0 { 0u64 } else { h.last().user_tag })
        &&& self.started == (h.len() > 0)
        &&& self.totals == totals_of(h)
        &&& self.window_totals == totals_of(h.skip(base))
        &&& forall|i: int| 0 <= i < self.next_slot ==> self.buffer@[i] == spec_record(h, w, base + i)
        &&& forall|i: int|
            self.next_slot <= i < w && base + i - w >= 0 ==> self.buffer@[i] == spec_record(
                h,
                w,
                base + i - w,
            )
    }

    /// Create a monitor with the given window capacity and capability set.
    /// A window size of zero is rejected; on success every counter and
    /// total starts at zero and the buffer is pre-filled with zero records.
    pub fn new(window_size: usize, caps: Capabilities) -> (r: Result<Heartbeat, InitError>)
        ensures
            match r {
                Ok(m) => {
                    &&& window_size >= 1
                    &&& m.wf()
                    &&& m@.window_size == window_size
                    &&& m@.caps == caps
                    &&& m@.samples == Seq::<Sample>::empty()
                },
                Err(e) => e == InitError::InvalidWindowSize && window_size == 0,
            },
    {
        if window_size == 0 {
            return Err(InitError::InvalidWindowSize);
        }
        let buffer = vec![HeartbeatRecord::zero(); window_size];
        let m = Heartbeat {
            window_size,
            caps,
            buffer,
            next_slot: 0,
            completed_windows: 0,
            sample_count: 0,
            last_tag: 0,
            started: false,
            totals: Totals { work: 0, time: 0, energy: 0, accuracy: 0 },
            window_totals: Totals { work: 0, time: 0, energy: 0, accuracy: 0 },
            history: Ghost(Seq::empty()),
        };
        proof {
            assert(m.history@.len() == 0);
            assert(m.history@.skip(0) =~= m.history@);
        }
        Ok(m)
    }

    /// Record one sample: derive its rates, add it to the running totals,
    /// write its record into the current slot and advance the slot. When
    /// the sample fills the window, the window totals are reset, the
    /// completed-window counter advances, and the call reports `true` so
    /// the caller can observe the completed window.
    pub fn push_sample(&mut self, s: Sample) -> (completed: bool)
        requires
            old(self).wf(),
        ensures
            final(self).wf(),
            final(self)@.samples == old(self)@.samples.push(s),
            final(self)@.window_size == old(self)@.window_size,
            final(self)@.caps == old(self)@.caps,
            completed == ((old(self)@.samples.len() + 1) as int % old(self)@.window_size == 0),
    {
        let ghost h = self.history@;
        let ghost n = h.len() as int;
        let ghost w = self.window_size as int;
        let ghost slot = self.next_slot as int;
        let ghost base = n - slot;
        proof {
            vstd::arithmetic::div_mod::lemma_mod_bound(n, w);
            vstd::arithmetic::div_mod::lemma_mod_decreases(h.len(), w as nat);
            assert(0 <= base <= n);
        }
        let elapsed = s.end_time.wrapping_sub(s.start_time);
        let energy = s.end_energy.wrapping_sub(s.start_energy);

        self.totals.work = self.totals.work.wrapping_add(s.work);
        self.totals.time = self.totals.time.wrapping_add(elapsed);
        self.totals.energy = self.totals.energy.wrapping_add(energy);
        self.totals.accuracy = self.totals.accuracy.wrapping_add(s.accuracy);
        self.window_totals.work = self.window_totals.work.wrapping_add(s.work);
        self.window_totals.time = self.window_totals.time.wrapping_add(elapsed);
        self.window_totals.energy = self.window_totals.energy.wrapping_add(energy);
        self.window_totals.accuracy = self.window_totals.accuracy.wrapping_add(s.accuracy);

        let rec = HeartbeatRecord {
            id: self.sample_count,
            user_tag: s.user_tag,
            work: s.work,
            start_time: s.start_time,
            end_time: s.end_time,
            perf: Rates {
                global: Rate { amount: self.totals.work, time: self.totals.time },
                window: Rate { amount: self.window_totals.work, time: self.window_totals.time },
                instant: Rate { amount: s.work, time: elapsed },
            },
            accuracy: s.accuracy,
            acc: Rates {
                global: Rate { amount: self.totals.accuracy, time: self.totals.time },
                window: Rate {
                    amount: self.window_totals.accuracy,
                    time: self.window_totals.time,
                },
                instant: Rate { amount: s.accuracy, time: elapsed },
            },
            start_energy: s.start_energy,
            end_energy: s.end_energy,
            pwr: Rates {
                global: Rate { amount: self.totals.energy, time: self.totals.time },
                window: Rate { amount: self.window_totals.energy, time: self.window_totals.time },
                instant: Rate { amount: energy, time: elapsed },
            },
        };
        self.buffer[self.next_slot] = rec;
        self.sample_count = self.sample_count.wrapping_add(1);
        self.last_tag = s.user_tag;
        self.started = true;
        self.history = Ghost(h.push(s));
        let ghost h2 = h.push(s);

        proof {
            crate::arith::lemma_wsum_push(h, work_fn(), s);
            crate::arith::lemma_wsum_push(h, time_fn(), s);
            crate::arith::lemma_wsum_push(h, energy_fn(), s);
            crate::arith::lemma_wsum_push(h, accuracy_fn(), s);
            crate::arith::lemma_wsum_skip_push(h, work_fn(), s, base);
            crate::arith::lemma_wsum_skip_push(h, time_fn(), s, base);
            crate::arith::lemma_wsum_skip_push(h, energy_fn(), s, base);
            crate::arith::lemma_wsum_skip_push(h, accuracy_fn(), s, base);
            crate::arith::lemma_wcount_succ(h.len());
            assert(h2.take(n + 1) =~= h2);
            assert(h2.subrange(base, n + 1) =~= h.skip(base).push(s));
            assert(rec == spec_record(h2, w, n));
            assert forall|k: int| 0 <= k < n implies spec_record(h2, w, k) == spec_record(
                h,
                w,
                k,
            ) by {
                lemma_spec_record_push(h, w, s, k);
            }
            vstd::arithmetic::div_mod::lemma_fundamental_div_mod(n, w);
        }

        self.next_slot = self.next_slot + 1;
        if self.next_slot == self.window_size {
            self.next_slot = 0;
            self.window_totals = Totals { work: 0, time: 0, energy: 0, accuracy: 0 };
            self.completed_windows = self.completed_windows.wrapping_add(1);
            proof {
                assert((n / w + 1) * w == (n / w) * w + w) by (nonlinear_arith);
                vstd::arithmetic::div_mod::lemma_fundamental_div_mod_converse(
                    n + 1,
                    w,
                    n / w + 1,
                    0,
                );
                crate::arith::lemma_wcount_succ((n / w) as nat);
                assert(h2.skip(n + 1) =~= Seq::<Sample>::empty());
                assert forall|i: int| 0 <= i < w && (n + 1) + i - w >= 0 implies self.buffer@[i]
                    == spec_record(h2, w, (n + 1) + i - w) by {
                    if i < w - 1 {
                        assert(self.buffer@[i] == spec_record(h, w, base + i));
                        assert(base + i == (n + 1) + i - w);
                    } else {
                        assert(self.buffer@[i] == rec);
                        assert((n + 1) + i - w == n);
                    }
                }
                assert(self.wf());
            }
            true
        } else {
            proof {
                vstd::arithmetic::div_mod::lemma_fundamental_div_mod(n, w);
                assert(0 <= slot + 1 < w);
                assert(n + 1 == (n / w) * w + (slot + 1));
                vstd::arithmetic::div_mod::lemma_fundamental_div_mod_converse(
                    n + 1,
                    w,
                    n / w,
                    slot + 1,
                );
                assert forall|i: int| 0 <= i < self.next_slot implies self.buffer@[i]
                    == spec_record(h2, w, base + i) by {
                    if i < slot {
                        assert(self.buffer@[i] == spec_record(h, w, base + i));
                    } else {
                        assert(self.buffer@[i] == rec);
                    }
                }
                assert forall|i: int|
                    self.next_slot <= i < w && base + i - w >= 0 implies self.buffer@[i]
                    == spec_record(h2, w, base + i - w) by {
                    assert(self.buffer@[i] == spec_record(h, w, base + i - w));
                }
                assert(self.wf());
            }
            false
        }
    }
}

impl Heartbeat {
    /// The window capacity the monitor was created with.
    pub fn window_size(&self) -> (r: u64)
        requires
            self.wf(),
        ensures
            r as int == self@.window_size,
    {
        self.window_size as u64
    }

    /// Which optional quantities this monitor tracks.
    pub fn capabilities(&self) -> (r: Capabilities)
        requires
            self.wf(),
        ensures
            r == self@.caps,
    {
        self.caps
    }

    /// The tag of the most recent sample, zero before the first one.
    pub fn get_tag(&self) -> (r: u64)
        requires
            self.wf(),
        ensures
            r == last_tag_of(self@),
    {
        self.last_tag
    }

    /// Total heartbeats issued since creation (a wrapping counter).
    pub fn get_sample_count(&self) -> (r: u64)
        requires
            self.wf(),
        ensures
            r == sample_count_of(self@),
    {
        self.sample_count
    }

    /// How many windows have filled since creation (a wrapping counter).
    pub fn get_completed_windows(&self) -> (r: u64)
        requires
            self.wf(),
        ensures
            r == completed_windows_of(self@),
    {
        self.completed_windows
    }

    /// Work summed over every sample since creation.
    pub fn get_global_work(&self) -> (r: u64)
        requires
            self.wf(),
        ensures
            r == sum_work(self@.samples),
    {
        self.totals.work
    }

    /// Elapsed time summed over every sample since creation.
    pub fn get_global_time(&self) -> (r: u64)
        requires
            self.wf(),
        ensures
            r == sum_time(self@.samples),
    {
        self.totals.time
    }

    /// Energy summed over every sample since creation.
    pub fn get_global_energy(&self) -> (r: u64)
        requires
            self.wf(),
        ensures
            r == sum_energy(self@.samples),
    {
        self.totals.energy
    }

    /// Accuracy units summed over every sample since creation.
    pub fn get_global_accuracy(&self) -> (r: u64)
        requires
            self.wf(),
        ensures
            r == sum_accuracy(self@.samples),
    {
        self.totals.accuracy
    }

    /// Work summed over the samples of the current window.
    pub fn get_window_work(&self) -> (r: u64)
        requires
            self.wf(),
        ensures
            r == sum_work(window_samples_of(self@)),
    {
        self.window_totals.work
    }

    /// Elapsed time summed over the samples of the current window.
    pub fn get_window_time(&self) -> (r: u64)
        requires
            self.wf(),
        ensures
            r == sum_time(window_samples_of(self@)),
    {
        self.window_totals.time
    }

    /// Energy summed over the samples of the current window.
    pub fn get_window_energy(&self) -> (r: u64)
        requires
            self.wf(),
        ensures
            r == sum_energy(window_samples_of(self@)),
    {
        self.window_totals.energy
    }

    /// Accuracy units summed over the samples of the current window.
    pub fn get_window_accuracy(&self) -> (r: u64)
        requires
            self.wf(),
        ensures
            r == sum_accuracy(window_samples_of(self@)),
    {
        self.window_totals.accuracy
    }

    /// The record most recently written, all zero before the first sample.
    pub fn last_record(&self) -> (r: HeartbeatRecord)
        requires
            self.wf(),
        ensures
            r == last_record_of(self@),
    {
        proof {
            vstd::arithmetic::div_mod::lemma_mod_bound(
                self.history@.len() as int,
                self.window_size as int,
            );
        }
        if !self.started {
            HeartbeatRecord::zero()
        } else if self.next_slot > 0 {
            self.buffer[self.next_slot - 1]
        } else {
            self.buffer[self.window_size - 1]
        }
    }

    /// Throughput since creation, as the most recent record reports it.
    pub fn get_global_perf(&self) -> (r: Rate)
        requires
            self.wf(),
        ensures
            r == last_record_of(self@).perf.global,
    {
        self.last_record().perf.global
    }

    /// Throughput over the most recent record's window.
    pub fn get_window_perf(&self) -> (r: Rate)
        requires
            self.wf(),
        ensures
            r == last_record_of(self@).perf.window,
    {
        self.last_record().perf.window
    }

    /// Throughput of the most recent sample alone.
    pub fn get_instant_perf(&self) -> (r: Rate)
        requires
            self.wf(),
        ensures
            r == last_record_of(self@).perf.instant,
    {
        self.last_record().perf.instant
    }

    /// Power since creation, as the most recent record reports it.
    pub fn get_global_pwr(&self) -> (r: Rate)
        requires
            self.wf(),
        ensures
            r == last_record_of(self@).pwr.global,
    {
        self.last_record().pwr.global
    }

    /// Power over the most recent record's window.
    pub fn get_window_pwr(&self) -> (r: Rate)
        requires
            self.wf(),
        ensures
            r == last_record_of(self@).pwr.window,
    {
        self.last_record().pwr.window
    }

    /// Power of the most recent sample alone.
    pub fn get_instant_pwr(&self) -> (r: Rate)
        requires
            self.wf(),
        ensures
            r == last_record_of(self@).pwr.instant,
    {
        self.last_record().pwr.instant
    }

    /// Accuracy rate since creation, as the most recent record reports it.
    pub fn get_global_accuracy_rate(&self) -> (r: Rate)
        requires
            self.wf(),
        ensures
            r == last_record_of(self@).acc.global,
    {
        self.last_record().acc.global
    }

    /// Accuracy rate over the most recent record's window.
    pub fn get_window_accuracy_rate(&self) -> (r: Rate)
        requires
            self.wf(),
        ensures
            r == last_record_of(self@).acc.window,
    {
        self.last_record().acc.window
    }

    /// Accuracy rate of the most recent sample alone.
    pub fn get_instant_accuracy_rate(&self) -> (r: Rate)
        requires
            self.wf(),
        ensures
            r == last_record_of(self@).acc.instant,
    {
        self.last_record().acc.instant
    }

    /// Shape facts every well-formed monitor satisfies: the window has
    /// room for at least one sample, and the slot index stays inside it.
    pub proof fn lemma_wf_shape(&self)
        requires
            self.wf(),
        ensures
            1 <= self@.window_size,
            0 <= slot_of(self@) < self@.window_size,
            0 <= base_of(self@) <= self@.samples.len(),
    {
        vstd::arithmetic::div_mod::lemma_mod_bound(
            self@.samples.len() as int,
            self@.window_size,
        );
        vstd::arithmetic::div_mod::lemma_mod_decreases(
            self@.samples.len(),
            self@.window_size as nat,
        );
    }

    /// How many records of the current window have been written: the
    /// number of valid slots at the front of the buffer.
    pub fn valid_count(&self) -> (r: usize)
        requires
            self.wf(),
        ensures
            r as int == slot_of(self@),
    {
        self.next_slot
    }

    /// A read-only view of the window buffer. Slots `[0, slot_of)` hold
    /// the records of the current window's samples; the slots after them
    /// still hold the previous lap's records once a full window has gone
    /// by, and zero records before that.
    pub fn records(&self) -> (r: &Vec<HeartbeatRecord>)
        requires
            self.wf(),
        ensures
            r@.len() == self@.window_size,
            forall|i: int|
                0 <= i < slot_of(self@) ==> r@[i] == spec_record(
                    self@.samples,
                    self@.window_size,
                    base_of(self@) + i,
                ),
            forall|i: int|
                slot_of(self@) <= i < self@.window_size && base_of(self@) + i - self@.window_size
                    >= 0 ==> r@[i] == spec_record(
                    self@.samples,
                    self@.window_size,
                    base_of(self@) + i - self@.window_size,
                ),
    {
        &self.buffer
    }
}

} // verus!
