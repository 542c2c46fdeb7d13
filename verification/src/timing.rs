//! Frame timing of the main loops: counting frames per second, measuring the
//! time between frames, and the wait that caps the frame rate.
use vstd::prelude::*;

verus! {

/// The main loop's frame counters: frames since the last whole-second sample,
/// and the clock readings (in whole seconds and in milliseconds since the loop
/// started) of the last sample.
#[derive(Clone, Copy, PartialEq, Eq, Debug, Structural)]
pub struct FrameTimer {
    pub frames: i32,
    pub prev_seconds: u64,
    pub prev_ms: u128,
}

/// A frames-per-second sample: frames counted over whole seconds.
#[derive(Clone, Copy, PartialEq, Eq, Debug, Structural)]
pub struct FpsSample {
    pub frames: i32,
    pub seconds: u64,
}

/// What one frame measured: when a new second has begun, the frames counted
/// and the seconds they took (frames per second is their quotient); when the
/// millisecond clock has moved, the milliseconds since the previous frame.
#[derive(Clone, Copy, PartialEq, Eq, Debug, Structural)]
pub struct FrameTick {
    pub fps_sample: Option<FpsSample>,
    pub frame_time_ms: Option<u128>,
}

impl FrameTimer {
    /// A timer started at the given clock readings.
    pub fn new(prev_seconds: u64, prev_ms: u128) -> (t: FrameTimer)
        ensures
            t == (FrameTimer { frames: 0, prev_seconds, prev_ms }),
    {
        FrameTimer { frames: 0, prev_seconds, prev_ms }
    }

    /// Counts one frame at clock readings `now_seconds` and `now_ms`. When the
    /// second count has advanced the frames so far (this one included) are
    /// reported with the seconds elapsed, and counting restarts; when the
    /// millisecond count has advanced the elapsed milliseconds are reported.
    pub fn tick(&mut self, now_seconds: u64, now_ms: u128) -> (r: FrameTick)
        requires
            old(self).frames < i32::MAX,
        ensures
            now_seconds > old(self).prev_seconds ==> r.fps_sample == Some(
                FpsSample {
                    frames: (old(self).frames + 1) as i32,
                    seconds: (now_seconds - old(self).prev_seconds) as u64,
                },
            ) && final(self).frames == 0 && final(self).prev_seconds == now_seconds,
            now_seconds <= old(self).prev_seconds ==> r.fps_sample is None && final(self).frames
                == old(self).frames + 1 && final(self).prev_seconds == old(self).prev_seconds,
            now_ms > old(self).prev_ms ==> r.frame_time_ms == Some(
                (now_ms - old(self).prev_ms) as u128,
            ) && final(self).prev_ms == now_ms,
            now_ms <= old(self).prev_ms ==> r.frame_time_ms is None && final(self).prev_ms == old(
                self,
            ).prev_ms,
    {
        self.frames = self.frames + 1;
        let mut fps_sample = None;
        if now_seconds > self.prev_seconds {
            fps_sample = Some(FpsSample { frames: self.frames, seconds: now_seconds - self.prev_seconds });
            self.frames = 0;
            self.prev_seconds = now_seconds;
        }
        let mut frame_time_ms = None;
        if now_ms > self.prev_ms {
            frame_time_ms = Some(now_ms - self.prev_ms);
            self.prev_ms = now_ms;
        }
        FrameTick { fps_sample, frame_time_ms }
    }
}

/// How long to sleep after a frame. With a cap of `frame_sleep_time`
/// milliseconds per frame, a frame that ran for fewer milliseconds (the clock
/// now, `elapsed_ms`, less the clock at the frame's start, `prev_ms`, both cut
/// to 64 bits) sleeps for the rest; without a cap, or when the frame took the
/// whole time, there is no sleep.
pub fn fps_sleep(frame_sleep_time: Option<u64>, elapsed_ms: u128, prev_ms: u128) -> (sleep_ms: Option<
    u64,
>)
    requires
        frame_sleep_time is Some ==> elapsed_ms as u64 >= prev_ms as u64,
    ensures
        match frame_sleep_time {
            None => sleep_ms is None,
            Some(wait) => {
                let execute_ms = (elapsed_ms as u64) - (prev_ms as u64);
                if execute_ms < wait {
                    sleep_ms == Some((wait - execute_ms) as u64)
                } else {
                    sleep_ms is None
                }
            },
        },
{
    match frame_sleep_time {
        None => None,
        Some(wait_time) => {
            let execute_ms = elapsed_ms as u64 - prev_ms as u64;
            if execute_ms < wait_time {
                Some(wait_time - execute_ms)
            } else {
                None
            }
        },
    }
}

} // verus!
