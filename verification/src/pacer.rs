//! Frame pacing: how long to wait so that frames follow one another at a
//! fixed interval.

use vstd::prelude::*;

verus! {

/// The frame interval in milliseconds that a frame rate asks for. With no
/// rate there is no interval. A rate of 0 asks for the longest interval there
/// is, so that no frame ends; any other rate for 1000 divided by it, rounded
/// down.
pub open spec fn frame_millis(fps: Option<u32>) -> Option<u64> {
    match fps {
        None => None,
        Some(rate) => Some(
            if rate == 0 {
                u64::MAX
            } else {
                (1000int / (rate as int)) as u64
            },
        ),
    }
}

/// How long to wait at the end of a frame that began at `frame_start` when
/// the clock shows `now` (both in milliseconds on one monotonic clock): what
/// is missing of the interval, and nothing where there is no interval or the
/// frame has taken that long already.
pub open spec fn remaining(target: Option<u64>, frame_start: u64, now: u64) -> u64 {
    match target {
        None => 0,
        Some(interval) => {
            let elapsed = if now >= frame_start {
                now - frame_start
            } else {
                0
            };
            if elapsed < interval {
                (interval - elapsed) as u64
            } else {
                0
            }
        },
    }
}

/// A fixed-delay frame pacer. It reads no clock and does not sleep: its user
/// hands it the time and does the waiting.
#[derive(Clone, Copy, Debug)]
pub struct FramePacer {
    frame_start: u64,
    target: Option<u64>,
}

impl FramePacer {
    /// When the current frame began, in milliseconds.
    pub closed spec fn spec_frame_start(&self) -> u64 {
        self.frame_start
    }

    /// The frame interval in milliseconds, if frames are paced.
    pub closed spec fn spec_target(&self) -> Option<u64> {
        self.target
    }

    /// A pacer that does not pace, for a first frame that begins at `now`.
    pub fn new(now: u64) -> (p: FramePacer)
        ensures
            p.spec_frame_start() == now,
            p.spec_target() == None::<u64>,
    {
        FramePacer { frame_start: now, target: None }
    }

    pub fn frame_start(&self) -> (t: u64)
        ensures
            t == self.spec_frame_start(),
    {
        self.frame_start
    }

    pub fn target(&self) -> (t: Option<u64>)
        ensures
            t == self.spec_target(),
    {
        self.target
    }

    /// Sets the frame rate to pace to; `None` switches pacing off.
    pub fn set_fps(&mut self, fps: Option<u32>)
        ensures
            final(self).spec_target() == frame_millis(fps),
            final(self).spec_frame_start() == old(self).spec_frame_start(),
    {
        self.target = match fps {
            None => None,
            Some(rate) => Some(
                if rate == 0 {
                    u64::MAX
                } else {
                    (1000 / rate) as u64
                },
            ),
        };
    }

    /// How many milliseconds to wait now, at the end of the frame's work, so
    /// that the frame lasts its interval. Never more than the interval; and
    /// after that wait the frame has lasted at least the interval.
    pub fn delay(&self, now: u64) -> (d: u64)
        ensures
            d == remaining(self.spec_target(), self.spec_frame_start(), now),
            self.spec_target() is None ==> d == 0,
            self.spec_target() is Some ==> d <= self.spec_target()->0,
            self.spec_target() is Some && now >= self.spec_frame_start() ==> (now
                - self.spec_frame_start()) + d >= self.spec_target()->0,
    {
        match self.target {
            None => 0,
            Some(interval) => {
                let elapsed: u64 = if now >= self.frame_start {
                    now - self.frame_start
                } else {
                    0
                };
                if elapsed < interval {
                    interval - elapsed
                } else {
                    0
                }
            },
        }
    }

    /// Begins the next frame at `now`. The rate stays as it is.
    pub fn restart(&mut self, now: u64)
        ensures
            final(self).spec_frame_start() == now,
            final(self).spec_target() == old(self).spec_target(),
    {
        self.frame_start = now;
    }
}

} // verus!
