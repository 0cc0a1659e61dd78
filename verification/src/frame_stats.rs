//! Frame rate bookkeeping for the display: frames drawn and CPU time spent
//! since the last report. Every ten seconds a report is due (to spot
//! hardware that can't keep up), and the counts start over. The caller
//! keeps the clock and turns a report into rates for the log.

use vstd::prelude::*;

verus! {

/// How long a stretch each report covers, in nanoseconds (ten seconds).
pub const INTERVAL_NANOS: u128 = 10_000_000_000;

/// Frames and CPU time since the last report.
#[derive(Clone, Copy, Debug, PartialEq, Eq, Structural)]
pub struct FrameStats {
    pub frames: u32,
    /// CPU time spent on those frames, in nanoseconds.
    pub busy_nanos: u128,
}

/// What a finished stretch adds up to: the frames drawn, the CPU time they
/// took and the wall time the stretch lasted (all time in nanoseconds).
#[derive(Clone, Copy, Debug, PartialEq, Eq, Structural)]
pub struct FrameReport {
    pub frames: u32,
    pub busy_nanos: u128,
    pub elapsed_nanos: u128,
}

impl FrameStats {
    /// No frames yet.
    pub fn new() -> (s: FrameStats)
        ensures
            s.frames == 0,
            s.busy_nanos == 0,
    {
        FrameStats { frames: 0, busy_nanos: 0 }
    }

    /// Counts one frame that took `busy_nanos` of CPU time, `elapsed_nanos`
    /// into the current stretch. Once the stretch has lasted the interval,
    /// hands back its totals and starts over from nothing.
    pub fn record(&mut self, busy_nanos: u128, elapsed_nanos: u128) -> (report: Option<FrameReport>)
        requires
            old(self).frames < u32::MAX,
            old(self).busy_nanos + busy_nanos <= u128::MAX,
        ensures
            elapsed_nanos >= INTERVAL_NANOS ==> report == Some(
                (FrameReport {
                    frames: (old(self).frames + 1) as u32,
                    busy_nanos: (old(self).busy_nanos + busy_nanos) as u128,
                    elapsed_nanos,
                }),
            ) && final(self).frames == 0 && final(self).busy_nanos == 0,
            elapsed_nanos < INTERVAL_NANOS ==> report is None && final(self).frames == old(self).frames
                + 1 && final(self).busy_nanos == old(self).busy_nanos + busy_nanos,
    {
        self.frames = self.frames + 1;
        self.busy_nanos = self.busy_nanos + busy_nanos;
        if elapsed_nanos >= INTERVAL_NANOS {
            let report = FrameReport {
                frames: self.frames,
                busy_nanos: self.busy_nanos,
                elapsed_nanos,
            };
            *self = FrameStats::new();
            Some(report)
        } else {
            None
        }
    }
}

} // verus!
