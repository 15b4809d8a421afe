//! A monitor bundled with an optional window-completion callback, offering
//! the per-capability heartbeat calls.

use vstd::prelude::*;
use crate::monitor::{Heartbeat, InitError, last_record_of, last_tag_of};
use crate::record::{Capabilities, Rate, Sample};

verus! {

/// A handler run synchronously on the heartbeating thread each time a
/// window of samples fills. It receives the monitor read-only, with the
/// buffer still holding every record of the completed window; the wrap
/// itself has already happened, so the slot index is back at the start,
/// the window totals are reset, and the completed-window counter includes
/// the window being reported. The handler cannot issue another heartbeat
/// on the same monitor, because that call needs the exclusive borrow its
/// own caller already holds; keep it short, since it runs inside the
/// caller's critical section.
pub trait WindowCallback {
    /// Called once per completed window, before the next sample
    /// overwrites the buffer.
    fn on_window_complete(&mut self, monitor: &Heartbeat)
        requires
            monitor.wf(),
    ;
}

/// The no-op handler, for monitors created without a callback.
pub struct NoCallback;

impl WindowCallback for NoCallback {
    fn on_window_complete(&mut self, monitor: &Heartbeat) {
    }
}

/// A monitor together with its optional window-completion callback.
pub struct HeartbeatSimple<C: WindowCallback> {
    /// The engine itself; read-only access to it is harmless.
    pub hb: Heartbeat,
    /// The optional window-completion handler.
    pub callback: Option<C>,
}

impl<C: WindowCallback> HeartbeatSimple<C> {
    /// Create a monitor of the given window capacity and capability set,
    /// with an optional window-completion callback. A window size of zero
    /// is rejected.
    pub fn new(window_size: usize, caps: Capabilities, callback: Option<C>) -> (r: Result<
        HeartbeatSimple<C>,
        InitError,
    >)
        ensures
            match r {
                Ok(m) => {
                    &&& window_size >= 1
                    &&& m.hb.wf()
                    &&& m.hb@.window_size == window_size
                    &&& m.hb@.caps == caps
                    &&& m.hb@.samples == Seq::<Sample>::empty()
                },
                Err(e) => e == InitError::InvalidWindowSize && window_size == 0,
            },
    {
        match Heartbeat::new(window_size, caps) {
            Ok(hb) => Ok(HeartbeatSimple { hb, callback }),
            Err(e) => Err(e),
        }
    }

    /// Record a sample and, if it completed a window, run the callback.
    fn push_and_notify(&mut self, s: Sample)
        requires
            old(self).hb.wf(),
        ensures
            final(self).hb.wf(),
            final(self).hb@.samples == old(self).hb@.samples.push(s),
            final(self).hb@.window_size == old(self).hb@.window_size,
            final(self).hb@.caps == old(self).hb@.caps,
    {
        let completed = self.hb.push_sample(s);
        if completed {
            if let Some(cb) = &mut self.callback {
                cb.on_window_complete(&self.hb);
            }
        }
    }

    /// Issue a heartbeat: one sample of `work` units over the interval
    /// from `start_time` to `end_time`, tagged `tag`.
    pub fn heartbeat(&mut self, tag: u64, work: u64, start_time: u64, end_time: u64)
        requires
            old(self).hb.wf(),
        ensures
            final(self).hb.wf(),
            final(self).hb@.samples == old(self).hb@.samples.push(
                (Sample {
                    user_tag: tag,
                    work: work,
                    start_time: start_time,
                    end_time: end_time,
                    start_energy: 0u64,
                    end_energy: 0u64,
                    accuracy: 0u64,
                }),
            ),
            final(self).hb@.window_size == old(self).hb@.window_size,
            final(self).hb@.caps == old(self).hb@.caps,
    {
        self.push_and_notify(
            Sample {
                user_tag: tag,
                work,
                start_time,
                end_time,
                start_energy: 0,
                end_energy: 0,
                accuracy: 0,
            },
        );
    }

    /// Issue a heartbeat with energy data, for a power-capable monitor.
    pub fn heartbeat_pow(
        &mut self,
        tag: u64,
        work: u64,
        start_time: u64,
        end_time: u64,
        start_energy: u64,
        end_energy: u64,
    )
        requires
            old(self).hb.wf(),
            old(self).hb@.caps.power,
        ensures
            final(self).hb.wf(),
            final(self).hb@.samples == old(self).hb@.samples.push(
                (Sample {
                    user_tag: tag,
                    work: work,
                    start_time: start_time,
                    end_time: end_time,
                    start_energy: start_energy,
                    end_energy: end_energy,
                    accuracy: 0u64,
                }),
            ),
            final(self).hb@.window_size == old(self).hb@.window_size,
            final(self).hb@.caps == old(self).hb@.caps,
    {
        self.push_and_notify(
            Sample { user_tag: tag, work, start_time, end_time, start_energy, end_energy, accuracy: 0 },
        );
    }

    /// Issue a heartbeat with accuracy data, for an accuracy-capable
    /// monitor.
    pub fn heartbeat_acc(
        &mut self,
        tag: u64,
        work: u64,
        start_time: u64,
        end_time: u64,
        accuracy: u64,
    )
        requires
            old(self).hb.wf(),
            old(self).hb@.caps.accuracy,
        ensures
            final(self).hb.wf(),
            final(self).hb@.samples == old(self).hb@.samples.push(
                (Sample {
                    user_tag: tag,
                    work: work,
                    start_time: start_time,
                    end_time: end_time,
                    start_energy: 0u64,
                    end_energy: 0u64,
                    accuracy: accuracy,
                }),
            ),
            final(self).hb@.window_size == old(self).hb@.window_size,
            final(self).hb@.caps == old(self).hb@.caps,
    {
        self.push_and_notify(
            Sample { user_tag: tag, work, start_time, end_time, start_energy: 0, end_energy: 0, accuracy },
        );
    }

    /// Issue a heartbeat with energy and accuracy data, for a monitor with
    /// both capabilities.
    pub fn heartbeat_acc_pow(
        &mut self,
        tag: u64,
        work: u64,
        start_time: u64,
        end_time: u64,
        accuracy: u64,
        start_energy: u64,
        end_energy: u64,
    )
        requires
            old(self).hb.wf(),
            old(self).hb@.caps.power,
            old(self).hb@.caps.accuracy,
        ensures
            final(self).hb.wf(),
            final(self).hb@.samples == old(self).hb@.samples.push(
                (Sample {
                    user_tag: tag,
                    work: work,
                    start_time: start_time,
                    end_time: end_time,
                    start_energy: start_energy,
                    end_energy: end_energy,
                    accuracy: accuracy,
                }),
            ),
            final(self).hb@.window_size == old(self).hb@.window_size,
            final(self).hb@.caps == old(self).hb@.caps,
    {
        self.push_and_notify(
            Sample { user_tag: tag, work, start_time, end_time, start_energy, end_energy, accuracy },
        );
    }

    /// The tag of the most recent heartbeat, zero before the first one.
    pub fn get_tag(&self) -> (r: u64)
        requires
            self.hb.wf(),
        ensures
            r == last_tag_of(self.hb@),
    {
        self.hb.get_tag()
    }

    /// Throughput over the most recent record's window.
    pub fn get_window_perf(&self) -> (r: Rate)
        requires
            self.hb.wf(),
        ensures
            r == last_record_of(self.hb@).perf.window,
    {
        self.hb.get_window_perf()
    }

    /// Throughput over the most recent record's window, under the name
    /// the rate is also known by.
    pub fn get_window_rate(&self) -> (r: Rate)
        requires
            self.hb.wf(),
        ensures
            r == last_record_of(self.hb@).perf.window,
    {
        self.hb.get_window_perf()
    }

    /// Power over the most recent record's window.
    pub fn get_window_pwr(&self) -> (r: Rate)
        requires
            self.hb.wf(),
        ensures
            r == last_record_of(self.hb@).pwr.window,
    {
        self.hb.get_window_pwr()
    }

    /// The log text for the valid records of the current window,
    /// optionally preceded by the header line. The caller owns writing the
    /// bytes to its sink; the monitor is not changed.
    pub fn log_window_buffer(&self, print_header: bool) -> (out: Vec<u8>)
        requires
            self.hb.wf(),
        ensures
            out@ == (if print_header {
                crate::logfmt::header_line(self.hb@.caps)
            } else {
                Seq::<u8>::empty()
            }) + crate::logfmt::record_lines(
                self.hb@.samples,
                self.hb@.window_size,
                self.hb@.caps,
                crate::monitor::base_of(self.hb@),
                crate::monitor::slot_of(self.hb@),
            ),
    {
        crate::logfmt::render_window(&self.hb, print_header)
    }
}

} // verus!
