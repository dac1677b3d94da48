use vstd::prelude::*;

use std::sync::atomic::{AtomicBool, AtomicU64, Ordering};

verus! {

/// Counters as read at one moment.
#[derive(Clone, Copy, Debug)]
pub struct StatsSnapshot {
    pub frames: u64,
    pub drops: u64,
    pub decode_us: u64,
}

impl Default for StatsSnapshot {
    fn default() -> (r: Self)
        ensures
            r.frames == 0 && r.drops == 0 && r.decode_us == 0,
    {
        StatsSnapshot { frames: 0, drops: 0, decode_us: 0 }
    }
}

/// Opt-in capture counters shared between the capture thread and readers.
/// Each counter is an independent relaxed atomic: a reader sees some
/// recent value of each, which is all a diagnostic display needs, so
/// nothing is promised here about the values read.
pub struct CaptureStats {
    enabled: AtomicBool,
    frames: AtomicU64,
    drops: AtomicU64,
    decode_us: AtomicU64,
}

impl CaptureStats {
    /// Counters at zero, recording off.
    pub fn new() -> (r: Self) {
        CaptureStats {
            enabled: AtomicBool::new(false),
            frames: AtomicU64::new(0),
            drops: AtomicU64::new(0),
            decode_us: AtomicU64::new(0),
        }
    }

    pub fn set_enabled(&self, enabled: bool) {
        self.enabled.store(enabled, Ordering::Relaxed);
    }

    pub fn enabled(&self) -> (r: bool) {
        self.enabled.load(Ordering::Relaxed)
    }

    /// Sets every counter back to zero.
    pub fn reset(&self) {
        self.frames.store(0, Ordering::Relaxed);
        self.drops.store(0, Ordering::Relaxed);
        self.decode_us.store(0, Ordering::Relaxed);
    }

    /// Counts a delivered frame and keeps its decode time as the latest
    /// sample.
    pub fn on_frame_enabled(&self, decode_us: u64) {
        self.frames.fetch_add(1, Ordering::Relaxed);
        self.decode_us.store(decode_us, Ordering::Relaxed);
    }

    /// Counts a dropped frame.
    pub fn on_drop_enabled(&self) {
        self.drops.fetch_add(1, Ordering::Relaxed);
    }

    /// Turns recording on or off; turning it on starts every counter from
    /// zero.
    pub fn set_recording(&self, enabled: bool) {
        self.set_enabled(enabled);
        if enabled {
            self.reset();
        }
    }

    pub fn snapshot(&self) -> (r: StatsSnapshot) {
        StatsSnapshot {
            frames: self.frames.load(Ordering::Relaxed),
            drops: self.drops.load(Ordering::Relaxed),
            decode_us: self.decode_us.load(Ordering::Relaxed),
        }
    }
}

} // verus!
