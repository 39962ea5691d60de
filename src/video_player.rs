//! The decisions of the playback loop: pacing each frame against the frame
//! interval, and giving up when rendering cannot keep up.
//!
//! The caller runs the loop: it asks for a frame, prints it, measures how
//! long that took, reports it here, and sleeps for as long as it is told.
use vstd::prelude::*;

verus! {

/// Lag credits added by a frame that took longer than the frame interval.
pub const LAG_PENALTY: u32 = 4;

/// Lag credits at which playback is given up.
pub const LAG_LIMIT: u32 = 25;

/// Nanoseconds in a second.
pub const NANOS_PER_SECOND: u64 = 1_000_000_000;

#[derive(Debug, PartialEq, Eq, Structural)]
pub enum VideoPlayerError {
    /// Frames take too much time to render.
    TooMuchLag,
}

#[derive(Clone, Copy, Debug, PartialEq, Eq, Structural)]
pub enum PlaybackState {
    Idle,
    Playing,
    /// The frames ran out: playback ended normally.
    Draining,
    /// Rendering could not keep up: playback was given up.
    Aborted,
}

/// The lag credits after a frame that took `elapsed` nanoseconds, against a
/// frame interval of `interval` nanoseconds: a penalty when it overran, one
/// credit less (but never below zero) when it did not.
pub open spec fn lag_step(lag: nat, interval: nat, elapsed: nat) -> nat {
    if elapsed > interval {
        lag + LAG_PENALTY as nat
    } else if lag == 0 {
        0
    } else {
        (lag - 1) as nat
    }
}

/// The lag credits after frames that took `times` nanoseconds each, from a
/// fresh start.
pub open spec fn lag_after(interval: nat, times: Seq<u64>) -> nat
    decreases times.len(),
{
    if times.len() == 0 {
        0
    } else {
        lag_step(lag_after(interval, times.drop_last()), interval, times.last() as nat)
    }
}

/// When no frame takes any time, the lag credits stay at zero, so playback
/// is never given up.
pub proof fn law_never_aborts_without_lag(interval: nat, times: Seq<u64>, i: nat)
    requires
        i <= times.len(),
        forall|k: int| 0 <= k < times.len() ==> times[k] == 0,
    ensures
        lag_after(interval, times.take(i as int)) == 0,
        lag_after(interval, times.take(i as int)) < LAG_LIMIT,
    decreases i,
{
    if i > 0 {
        law_never_aborts_without_lag(interval, times, (i - 1) as nat);
        assert(times.take(i as int).drop_last() == times.take(i - 1));
    }
}

/// When every frame overruns the interval, playback is given up at the
/// seventh frame and not before: the credits go up by 4 a frame and the
/// limit is 25.
pub proof fn law_aborts_at_seventh_overrun(interval: nat, times: Seq<u64>, i: nat)
    requires
        i <= times.len(),
        forall|k: int| 0 <= k < times.len() ==> times[k] > interval,
    ensures
        lag_after(interval, times.take(i as int)) == 4 * i,
        i < 7 ==> lag_after(interval, times.take(i as int)) < LAG_LIMIT,
        i == 7 ==> lag_after(interval, times.take(i as int)) >= LAG_LIMIT,
    decreases i,
{
    if i > 0 {
        law_aborts_at_seventh_overrun(interval, times, (i - 1) as nat);
        assert(times.take(i as int).drop_last() == times.take(i - 1));
    }
}

/// Paces playback and keeps count of the lag.
pub struct PlaybackClock {
    state: PlaybackState,
    frame_interval: u64,
    lag_count: u32,
}

impl PlaybackClock {
    pub closed spec fn spec_state(&self) -> PlaybackState {
        self.state
    }

    /// Nanoseconds between two frames.
    pub closed spec fn spec_frame_interval(&self) -> nat {
        self.frame_interval as nat
    }

    pub closed spec fn spec_lag(&self) -> nat {
        self.lag_count as nat
    }

    /// Below the limit unless given up.
    pub closed spec fn wf(&self) -> bool {
        self.state != PlaybackState::Aborted ==> self.lag_count < LAG_LIMIT
    }

    /// A clock for `fps` frames a second, not yet playing.
    pub fn new(fps: u32) -> (r: PlaybackClock)
        requires
            fps > 0,
        ensures
            r.wf(),
            r.spec_state() == PlaybackState::Idle,
            r.spec_frame_interval() == (NANOS_PER_SECOND as nat) / (fps as nat),
            r.spec_lag() == 0,
    {
        PlaybackClock { state: PlaybackState::Idle, frame_interval: NANOS_PER_SECOND / (fps as u64), lag_count: 0 }
    }

    pub fn state(&self) -> (r: PlaybackState)
        ensures
            r == self.spec_state(),
    {
        self.state
    }

    pub fn frame_interval(&self) -> (r: u64)
        ensures
            r == self.spec_frame_interval(),
    {
        self.frame_interval
    }

    /// Starts playing; returns whether the clock was idle, which is when
    /// the caller starts the audio.
    pub fn start(&mut self) -> (r: bool)
        requires
            old(self).wf(),
        ensures
            final(self).wf(),
            r == (old(self).spec_state() == PlaybackState::Idle),
            final(self).spec_state() == if r { PlaybackState::Playing } else { old(self).spec_state() },
            final(self).spec_frame_interval() == old(self).spec_frame_interval(),
            final(self).spec_lag() == old(self).spec_lag(),
    {
        if self.state == PlaybackState::Idle {
            self.state = PlaybackState::Playing;
            true
        } else {
            false
        }
    }

    /// Records that no frame is left; playback ends normally.
    pub fn end_of_frames(&mut self)
        requires
            old(self).wf(),
            old(self).spec_state() == PlaybackState::Playing,
        ensures
            final(self).wf(),
            final(self).spec_state() == PlaybackState::Draining,
            final(self).spec_frame_interval() == old(self).spec_frame_interval(),
            final(self).spec_lag() == old(self).spec_lag(),
    {
        self.state = PlaybackState::Draining;
    }

    /// Records that the last frame took `elapsed` nanoseconds to fetch and
    /// print, and returns how long to sleep before the next one: what is
    /// left of the frame interval, or nothing when the frame overran it.
    /// An overrun adds `LAG_PENALTY` credits and a frame on time takes one
    /// away; at `LAG_LIMIT` credits playback is given up.
    pub fn frame_done(&mut self, elapsed: u64) -> (r: Result<u64, VideoPlayerError>)
        requires
            old(self).wf(),
            old(self).spec_state() == PlaybackState::Playing,
        ensures
            final(self).wf(),
            final(self).spec_frame_interval() == old(self).spec_frame_interval(),
            final(self).spec_lag() == lag_step(old(self).spec_lag(), old(self).spec_frame_interval(), elapsed as nat),
            final(self).spec_lag() >= LAG_LIMIT <==> r is Err,
            r is Err ==> r == Err::<u64, VideoPlayerError>(VideoPlayerError::TooMuchLag)
                && final(self).spec_state() == PlaybackState::Aborted,
            r matches Ok(sleep) ==> final(self).spec_state() == PlaybackState::Playing
                && sleep == if elapsed > old(self).spec_frame_interval() { 0 } else { old(self).spec_frame_interval() - elapsed },
    {
        let sleep: u64 = if elapsed > self.frame_interval {
            self.lag_count = self.lag_count + LAG_PENALTY;
            0
        } else {
            if self.lag_count > 0 {
                self.lag_count = self.lag_count - 1;
            }
            self.frame_interval - elapsed
        };
        if self.lag_count >= LAG_LIMIT {
            self.state = PlaybackState::Aborted;
            Err(VideoPlayerError::TooMuchLag)
        } else {
            Ok(sleep)
        }
    }
}

} // verus!
