use vstd::prelude::*;

verus! {

/// The length of one frame at sixty frames a second, in nanoseconds.
pub const FRAME_NANOS: u128 = 16666667;

/// The delay before the frame that follows a frame planned for `prev`, at time `now`
/// (both in nanoseconds since the controller started): the time left until `prev` plus one
/// frame, or nothing where that time has passed.
pub open spec fn frame_delay(prev: u128, now: u128) -> u64 {
    let next = prev + FRAME_NANOS;
    if next > now {
        (next - now) as u64
    } else {
        0u64
    }
}

/// Paces frames at a fixed rate from the time the controller started.
pub struct SimpleFrameController {
    prev_frame_time: u128,
}

impl SimpleFrameController {
    /// The time of the last frame planned, in nanoseconds since the controller started.
    pub closed spec fn prev_frame_time_spec(&self) -> u128 {
        self.prev_frame_time
    }

    pub fn new() -> (res: SimpleFrameController)
        ensures
            res.prev_frame_time_spec() == 0,
    {
        SimpleFrameController { prev_frame_time: 0 }
    }

    /// The time of the last frame planned, in nanoseconds since the controller started.
    pub fn prev_frame_time(&self) -> (res: u128)
        ensures
            res == self.prev_frame_time_spec(),
    {
        self.prev_frame_time
    }

    /// Plans the next frame at `now` nanoseconds since the controller started, and returns
    /// how many nanoseconds to wait before it runs (zero: at once). The next frame is planned one
    /// frame after the last planned one, whether or not that time has already passed.
    pub fn request_next_frame(&mut self, now: u128) -> (delay: u64)
        requires
            old(self).prev_frame_time_spec() + FRAME_NANOS <= u128::MAX,
        ensures
            final(self).prev_frame_time_spec() == old(self).prev_frame_time_spec() + FRAME_NANOS,
            delay == frame_delay(old(self).prev_frame_time_spec(), now),
    {
        let next_frame_time = self.prev_frame_time + FRAME_NANOS;
        self.prev_frame_time = next_frame_time;
        if next_frame_time > now {
            (next_frame_time - now) as u64
        } else {
            0
        }
    }
}

} // verus!
