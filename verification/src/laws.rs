//! The engine's general guarantees, proved once and for all histories.

use vstd::prelude::*;
use crate::arith::{u64_modulus, lemma_wsum_pointwise, lemma_wsum_unit};
use crate::monitor::{
    MonitorView, Totals, base_of, completed_windows_of, sample_count_of, slot_of, spec_record,
    totals_of, window_base, window_samples_of, accuracy_fn, energy_fn, time_fn, work_fn,
};
use crate::record::{Sample, elapsed_of, energy_of};

verus! {

/// The window a sample's record is rated over is a well-formed slice of
/// the history ending at the sample itself.
proof fn lemma_window_bounds(k: int, w: int)
    requires
        1 <= w,
        0 <= k,
    ensures
        0 <= window_base(k, w) <= k,
        k - window_base(k, w) < w,
{
    vstd::arithmetic::div_mod::lemma_mod_bound(k, w);
    vstd::arithmetic::div_mod::lemma_mod_decreases(k as nat, w as nat);
}

/// Rate correctness: when every sample reports exactly as much work as the
/// time it spans, every throughput rate the engine ever derives — global,
/// window and instantaneous, for every record — has its amount equal to
/// its elapsed time: the rate is one, whatever the window size and however
/// many windows have passed.
pub proof fn lemma_uniform_rate(h: Seq<Sample>, w: int, k: int)
    requires
        1 <= w,
        0 <= k < h.len(),
        forall|i: int| 0 <= i < h.len() ==> elapsed_of(#[trigger] h[i]) == h[i].work,
    ensures
        spec_record(h, w, k).perf.instant.amount == spec_record(h, w, k).perf.instant.time,
        spec_record(h, w, k).perf.global.amount == spec_record(h, w, k).perf.global.time,
        spec_record(h, w, k).perf.window.amount == spec_record(h, w, k).perf.window.time,
{
    lemma_window_bounds(k, w);
    let glob = h.take(k + 1);
    let win = h.subrange(window_base(k, w), k + 1);
    lemma_wsum_pointwise(glob, work_fn(), time_fn());
    lemma_wsum_pointwise(win, work_fn(), time_fn());
}

/// Rate correctness, unit form: a history of samples that each report one
/// unit of work over one unit of time gives the `k`-th record the exact
/// throughput rates `(k+1)/(k+1)` globally, `(j+1)/(j+1)` over its window
/// (where `j` is its position in the window), and `1/1` instantaneously —
/// all equal to one, with nonzero denominators.
pub proof fn lemma_uniform_rate_unit(h: Seq<Sample>, w: int, k: int)
    requires
        1 <= w,
        0 <= k < h.len(),
        h.len() <= u64::MAX,
        forall|i: int| 0 <= i < h.len() ==> elapsed_of(#[trigger] h[i]) == 1,
        forall|i: int| 0 <= i < h.len() ==> (#[trigger] h[i]).work == 1,
    ensures
        spec_record(h, w, k).perf.global.amount == k + 1,
        spec_record(h, w, k).perf.global.time == k + 1,
        spec_record(h, w, k).perf.window.amount == k - window_base(k, w) + 1,
        spec_record(h, w, k).perf.window.time == k - window_base(k, w) + 1,
        spec_record(h, w, k).perf.instant.amount == 1,
        spec_record(h, w, k).perf.instant.time == 1,
{
    lemma_window_bounds(k, w);
    let glob = h.take(k + 1);
    let win = h.subrange(window_base(k, w), k + 1);
    lemma_wsum_unit(glob, work_fn());
    lemma_wsum_unit(glob, time_fn());
    lemma_wsum_unit(win, work_fn());
    lemma_wsum_unit(win, time_fn());
}

/// Power/accuracy parity: a history whose samples report an energy delta
/// equal to their work gives every record identical power and throughput
/// rates, in all three time bases; likewise for accuracy units.
pub proof fn lemma_power_parity(h: Seq<Sample>, w: int, k: int)
    requires
        1 <= w,
        0 <= k < h.len(),
        forall|i: int| 0 <= i < h.len() ==> energy_of(#[trigger] h[i]) == h[i].work,
    ensures
        spec_record(h, w, k).pwr == spec_record(h, w, k).perf,
{
    lemma_window_bounds(k, w);
    let glob = h.take(k + 1);
    let win = h.subrange(window_base(k, w), k + 1);
    lemma_wsum_pointwise(glob, energy_fn(), work_fn());
    lemma_wsum_pointwise(win, energy_fn(), work_fn());
}

/// The accuracy counterpart of the parity law.
pub proof fn lemma_accuracy_parity(h: Seq<Sample>, w: int, k: int)
    requires
        1 <= w,
        0 <= k < h.len(),
        forall|i: int| 0 <= i < h.len() ==> (#[trigger] h[i]).accuracy == h[i].work,
    ensures
        spec_record(h, w, k).acc == spec_record(h, w, k).perf,
{
    lemma_window_bounds(k, w);
    let glob = h.take(k + 1);
    let win = h.subrange(window_base(k, w), k + 1);
    lemma_wsum_pointwise(glob, accuracy_fn(), work_fn());
    lemma_wsum_pointwise(win, accuracy_fn(), work_fn());
}

/// Monotonic ids: as long as the sample counter has not wrapped, the
/// `k`-th record ever written carries id `k`.
pub proof fn lemma_monotonic_id(h: Seq<Sample>, w: int, k: int)
    requires
        1 <= w,
        0 <= k < h.len(),
        h.len() <= u64_modulus(),
    ensures
        spec_record(h, w, k).id == k,
{
    vstd::arithmetic::div_mod::lemma_small_mod(k as nat, u64_modulus() as nat);
}

/// No id is ever lost or duplicated: two distinct samples of an unwrapped
/// history yield records with distinct ids. With `lemma_monotonic_id`,
/// the ids of a history of `n` samples are exactly `0, 1, ..., n-1`, so
/// `n` heartbeats — however their callers were scheduled — account for
/// every id exactly once.
pub proof fn lemma_distinct_ids(h: Seq<Sample>, w: int, j: int, k: int)
    requires
        1 <= w,
        0 <= j < h.len(),
        0 <= k < h.len(),
        j != k,
        h.len() <= u64_modulus(),
    ensures
        spec_record(h, w, j).id != spec_record(h, w, k).id,
{
    lemma_monotonic_id(h, w, j);
    lemma_monotonic_id(h, w, k);
}

/// The sample counter is exact until it wraps: a monitor that has been fed
/// `n` samples reports a sample count of `n`.
pub proof fn lemma_sample_count_exact(v: MonitorView)
    requires
        v.samples.len() <= u64::MAX,
    ensures
        sample_count_of(v) == v.samples.len(),
{
    vstd::arithmetic::div_mod::lemma_small_mod(v.samples.len(), u64_modulus() as nat);
}

/// Window wrap: after exactly one window's worth of samples, one window
/// has completed, the next slot is back at the start, the window totals
/// have been reset to zero, and every buffer slot `i` holds the record of
/// sample `i` — the completed window in full, as the callback sees it.
pub proof fn lemma_window_wrap(v: MonitorView)
    requires
        1 <= v.window_size <= u64::MAX,
        v.samples.len() == v.window_size,
    ensures
        slot_of(v) == 0,
        completed_windows_of(v) == 1,
        sample_count_of(v) == v.window_size,
        window_samples_of(v) == Seq::<Sample>::empty(),
        totals_of(window_samples_of(v)) == (Totals {
            work: 0u64,
            time: 0u64,
            energy: 0u64,
            accuracy: 0u64,
        }),
        base_of(v) == v.window_size,
{
    let w = v.window_size;
    assert(w == 1 * w + 0) by (nonlinear_arith);
    vstd::arithmetic::div_mod::lemma_fundamental_div_mod_converse(w, w, 1, 0);
    vstd::arithmetic::div_mod::lemma_small_mod(1nat, u64_modulus() as nat);
    vstd::arithmetic::div_mod::lemma_small_mod(w as nat, u64_modulus() as nat);
    assert(window_samples_of(v) =~= Seq::<Sample>::empty());
}

} // verus!
