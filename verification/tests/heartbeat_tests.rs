use heartbeats_simple::monitor::{Heartbeat, InitError};
use heartbeats_simple::record::{Capabilities, Rate};
use heartbeats_simple::simple::{HeartbeatSimple, NoCallback, WindowCallback};
use heartbeats_simple::logfmt::render_header;

fn rate_f64(r: &Rate) -> f64 {
    r.amount as f64 / r.time as f64
}

#[test]
fn test() {
    // the header renders for every capability set
    assert!(!render_header(&Capabilities::base()).is_empty());
    assert!(!render_header(&Capabilities::with_accuracy()).is_empty());
    assert!(!render_header(&Capabilities::with_power()).is_empty());
    assert!(!render_header(&Capabilities::with_power_and_accuracy()).is_empty());
}

struct Capture {
    count: usize,
    sizes: Vec<usize>,
    ids: Vec<u64>,
}

impl WindowCallback for Capture {
    fn on_window_complete(&mut self, monitor: &Heartbeat) {
        self.count += 1;
        let recs = monitor.records();
        self.sizes.push(recs.len());
        for r in recs.iter() {
            self.ids.push(r.id);
        }
    }
}

#[test]
fn heartbeat_test_simple() {
    const TIME_INC: u64 = 1000000000;
    const ENERGY_INC: u64 = 1000000;
    let cb = Capture { count: 0, sizes: Vec::new(), ids: Vec::new() };
    let mut hb: HeartbeatSimple<Capture> =
        HeartbeatSimple::new(5, Capabilities::with_power(), Some(cb)).unwrap();
    let mut start_time: u64 = 0;
    let mut end_time: u64 = TIME_INC;
    let mut start_energy: u64 = 0;
    let mut end_energy: u64 = ENERGY_INC;
    let mut tag: u64 = 0;
    for _ in 0..10 {
        hb.heartbeat_pow(tag, 1, start_time, end_time, start_energy, end_energy);
        assert!(hb.get_tag() == tag);
        assert!(rate_f64(&hb.get_window_perf()) == 1.0 / TIME_INC as f64);
        assert!(rate_f64(&hb.get_window_pwr()) == ENERGY_INC as f64 / TIME_INC as f64);
        tag += 1;
        start_time = end_time;
        end_time += TIME_INC;
        start_energy = end_energy;
        end_energy += ENERGY_INC;
    }
}

#[test]
fn simple_test_simple() {
    const TIME_INC: u64 = 1000000000;
    const ENERGY_INC: u64 = 1000000;
    let mut hb: HeartbeatSimple<NoCallback> =
        HeartbeatSimple::new(5, Capabilities::with_power(), None).unwrap();
    let mut start_time: u64 = 0;
    let mut end_time: u64 = TIME_INC;
    let mut start_energy: u64 = 0;
    let mut end_energy: u64 = ENERGY_INC;
    let mut tag: u64 = 0;
    for _ in 0..10 {
        hb.heartbeat_pow(tag, 1, start_time, end_time, start_energy, end_energy);
        assert!(hb.get_tag() == tag);
        assert!(rate_f64(&hb.get_window_rate()) == 1.0 / TIME_INC as f64);
        assert!(rate_f64(&hb.get_window_pwr()) == ENERGY_INC as f64 / TIME_INC as f64);
        tag += 1;
        start_time = end_time;
        end_time += TIME_INC;
        start_energy = end_energy;
        end_energy += ENERGY_INC;
    }
}

#[test]
fn wrapper_test_simple() {
    const TIME_INC: u64 = 1000000000;
    const ENERGY_INC: u64 = 1000000;
    let mut hb: HeartbeatSimple<NoCallback> =
        HeartbeatSimple::new(5, Capabilities::with_power(), None).unwrap();
    let mut start_time: u64 = 0;
    let mut end_time: u64 = TIME_INC;
    let mut start_energy: u64 = 0;
    let mut end_energy: u64 = ENERGY_INC;
    for tag in 0..10 {
        hb.heartbeat_pow(tag, 1, start_time, end_time, start_energy, end_energy);
        start_time = end_time;
        end_time += TIME_INC;
        start_energy = end_energy;
        end_energy += ENERGY_INC;
    }
}

// Rate correctness: work equal to elapsed time gives rate one in all
// three time bases, at every point of a run that spans several windows.
#[test]
fn uniform_rate_all_bases() {
    let mut hb: HeartbeatSimple<NoCallback> =
        HeartbeatSimple::new(4, Capabilities::base(), None).unwrap();
    for k in 0..10u64 {
        hb.heartbeat(k, 7, 7 * k, 7 * (k + 1));
        assert_eq!(rate_f64(&hb.hb.get_instant_perf()), 1.0);
        assert_eq!(rate_f64(&hb.hb.get_global_perf()), 1.0);
        assert_eq!(rate_f64(&hb.get_window_perf()), 1.0);
    }
}

// Window wrap: after exactly one full window, one window has completed,
// the callback ran exactly once and saw a buffer of exactly W records,
// and the window totals were reset.
#[test]
fn window_wrap() {
    const W: usize = 5;
    let cb = Capture { count: 0, sizes: Vec::new(), ids: Vec::new() };
    let mut hb: HeartbeatSimple<Capture> =
        HeartbeatSimple::new(W, Capabilities::base(), Some(cb)).unwrap();
    for k in 0..W as u64 {
        hb.heartbeat(k, 1, k, k + 1);
    }
    assert_eq!(hb.hb.get_completed_windows(), 1);
    assert_eq!(hb.hb.valid_count(), 0);
    assert_eq!(hb.hb.get_window_work(), 0);
    assert_eq!(hb.hb.get_window_time(), 0);
    assert_eq!(hb.hb.get_sample_count(), W as u64);
    let cap = hb.callback.as_ref().unwrap();
    assert_eq!(cap.count, 1);
    assert_eq!(cap.sizes, vec![W]);
}

// Monotonic ids and last tag: the k-th record carries id k, and the tag
// accessor always reports the most recent heartbeat's tag.
#[test]
fn monotonic_ids_and_tag() {
    let cb = Capture { count: 0, sizes: Vec::new(), ids: Vec::new() };
    let mut hb: HeartbeatSimple<Capture> =
        HeartbeatSimple::new(3, Capabilities::base(), Some(cb)).unwrap();
    for k in 0..9u64 {
        hb.heartbeat(1000 + k, 1, k, k + 1);
        assert_eq!(hb.get_tag(), 1000 + k);
    }
    let cap = hb.callback.as_ref().unwrap();
    assert_eq!(cap.count, 3);
    assert_eq!(cap.ids, (0..9u64).collect::<Vec<u64>>());
    assert_eq!(hb.hb.get_sample_count(), 9);
}

// Power/accuracy parity: energy and accuracy increments equal to the work
// increments give identical rates for all three quantities.
#[test]
fn power_accuracy_parity() {
    let mut hb: HeartbeatSimple<NoCallback> =
        HeartbeatSimple::new(4, Capabilities::with_power_and_accuracy(), None).unwrap();
    let mut t: u64 = 0;
    let mut e: u64 = 0;
    for k in 0..10u64 {
        let work = 3 + (k % 4);
        hb.heartbeat_acc_pow(k, work, t, t + 2 * work, work, e, e + work);
        t += 2 * work;
        e += work;
        assert_eq!(hb.get_window_pwr(), hb.get_window_perf());
        assert_eq!(hb.hb.get_global_pwr(), hb.hb.get_global_perf());
        assert_eq!(hb.hb.get_instant_pwr(), hb.hb.get_instant_perf());
        assert_eq!(hb.hb.get_window_accuracy_rate(), hb.get_window_perf());
        assert_eq!(hb.hb.get_global_accuracy_rate(), hb.hb.get_global_perf());
        assert_eq!(hb.hb.get_instant_accuracy_rate(), hb.hb.get_instant_perf());
    }
}

// Zero-division edge case: a heartbeat whose interval is empty is
// recorded without trapping; the rate's components are exact, and the
// quotient a caller forms follows IEEE double semantics.
#[test]
fn zero_elapsed_is_defined() {
    let mut hb: HeartbeatSimple<NoCallback> =
        HeartbeatSimple::new(3, Capabilities::base(), None).unwrap();
    hb.heartbeat(1, 5, 100, 100);
    let r = hb.hb.get_instant_perf();
    assert_eq!(r, Rate { amount: 5, time: 0 });
    assert!(rate_f64(&r).is_infinite());
    hb.heartbeat(2, 0, 100, 100);
    let r0 = hb.hb.get_instant_perf();
    assert_eq!(r0, Rate { amount: 0, time: 0 });
    assert!(rate_f64(&r0).is_nan());
}

// A zero window size is a caller error; the smallest valid window works
// and completes a window on every heartbeat.
#[test]
fn init_errors_and_window_one() {
    let r: Result<Heartbeat, InitError> = Heartbeat::new(0, Capabilities::base());
    assert_eq!(r.err(), Some(InitError::InvalidWindowSize));
    let cb = Capture { count: 0, sizes: Vec::new(), ids: Vec::new() };
    let mut hb: HeartbeatSimple<Capture> =
        HeartbeatSimple::new(1, Capabilities::base(), Some(cb)).unwrap();
    for k in 0..4u64 {
        hb.heartbeat(k, 1, k, k + 1);
    }
    assert_eq!(hb.hb.get_completed_windows(), 4);
    assert_eq!(hb.callback.as_ref().unwrap().count, 4);
}

// The running totals accumulate across windows; the window totals only
// within one.
#[test]
fn totals_accumulate() {
    let mut hb: HeartbeatSimple<NoCallback> =
        HeartbeatSimple::new(2, Capabilities::with_power_and_accuracy(), None).unwrap();
    hb.heartbeat_acc_pow(0, 10, 0, 4, 2, 0, 6);
    hb.heartbeat_acc_pow(1, 20, 4, 9, 3, 6, 13);
    hb.heartbeat_acc_pow(2, 30, 9, 15, 4, 13, 21);
    assert_eq!(hb.hb.get_global_work(), 60);
    assert_eq!(hb.hb.get_global_time(), 15);
    assert_eq!(hb.hb.get_global_energy(), 21);
    assert_eq!(hb.hb.get_global_accuracy(), 9);
    assert_eq!(hb.hb.get_window_work(), 30);
    assert_eq!(hb.hb.get_window_time(), 6);
    assert_eq!(hb.hb.get_window_energy(), 8);
    assert_eq!(hb.hb.get_window_accuracy(), 4);
    assert_eq!(hb.hb.window_size(), 2);
}
