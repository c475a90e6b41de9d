//! Counting frames and frames per second.
use vstd::prelude::*;

verus! {

/// The frame counters of the time keeper: frames so far, the frame count
/// of the last full second, and the frame number at which that second
/// ended.
pub struct FrameCounter {
    pub tick_count: u64,
    pub fps: u64,
    pub last_tick: u64,
}

impl FrameCounter {
    /// No frame counted yet.
    pub fn new() -> (c: FrameCounter)
        ensures
            c.tick_count == 0,
            c.fps == 0,
            c.last_tick == 0,
    {
        FrameCounter { tick_count: 0, fps: 0, last_tick: 0 }
    }

    /// Counts one more frame. When `second_elapsed` (the frame timer has
    /// passed another second), the frames since the previous second become
    /// the frame rate.
    pub fn start_frame(&mut self, second_elapsed: bool)
        requires
            old(self).tick_count < u64::MAX,
            second_elapsed ==> old(self).last_tick <= old(self).tick_count + 1,
        ensures
            final(self).tick_count == old(self).tick_count + 1,
            old(self).last_tick <= old(self).tick_count ==> final(self).last_tick
                <= final(self).tick_count,
            second_elapsed ==> final(self).fps == final(self).tick_count - old(self).last_tick
                && final(self).last_tick == final(self).tick_count,
            !second_elapsed ==> final(self).fps == old(self).fps && final(self).last_tick == old(
                self,
            ).last_tick,
    {
        self.tick_count = self.tick_count + 1;
        if second_elapsed {
            self.fps = self.tick_count - self.last_tick;
            self.last_tick = self.tick_count;
        }
    }
}

} // verus!
