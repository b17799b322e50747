//! Animation playback and the slideshow timer. Times are readings of a
//! monotonic clock in nanoseconds, taken by the caller.
use vstd::prelude::*;

use crate::decode::{Decoded, Frame};

verus! {

/// What the viewer does with time passing.
#[derive(Debug, Clone, Copy, PartialEq, Eq, Structural)]
pub enum PlaybackState {
    Paused,
    Playing,
    Present,
    PresentRandom,
}

/// A frame shown for no time is shown for 100 ms.
pub open spec fn default_delay() -> int {
    100000000
}

/// How long frame `i` is shown.
pub open spec fn delay_of(fs: Seq<Frame>, i: int) -> int {
    if fs[i].delay_nanos == 0 {
        default_delay()
    } else {
        fs[i].delay_nanos as int
    }
}

/// The frame shown, and when it started, once the animation has run until
/// `now` from frame `frame` started at `started`: each frame whose time is
/// up gives way to the next, wrapping around.
pub open spec fn played(fs: Seq<Frame>, frame: int, started: int, now: int) -> (int, int)
    decreases now - started,
{
    if 0 <= frame < fs.len() && started + delay_of(fs, frame) <= now && delay_of(fs, frame) > 0 {
        played(fs, (frame + 1) % (fs.len() as int), started + delay_of(fs, frame), now)
    } else {
        (frame, started)
    }
}

/// Playing up to a time twice changes nothing the second time, and the
/// frame reached is a frame of the animation.
pub proof fn law_played_settles(fs: Seq<Frame>, frame: int, started: int, now: int)
    ensures
        played(fs, played(fs, frame, started, now).0, played(fs, frame, started, now).1, now)
            == played(fs, frame, started, now),
        0 <= frame < fs.len() ==> 0 <= played(fs, frame, started, now).0 < fs.len(),
    decreases now - started,
{
    if 0 <= frame < fs.len() && started + delay_of(fs, frame) <= now && delay_of(fs, frame) > 0 {
        law_played_settles(fs, (frame + 1) % (fs.len() as int), started + delay_of(fs, frame), now);
    }
}

/// The slideshow interval unless another is set: five seconds.
pub open spec fn default_interval() -> int {
    5000000000
}

/// Animation frame and slideshow timing.
#[derive(Debug)]
pub struct Playback {
    pub state: PlaybackState,
    frame: usize,
    frame_started: u64,
    present_interval: u64,
}

impl Playback {
    /// What playback is doing.
    pub closed spec fn mode(&self) -> PlaybackState {
        self.state
    }

    /// The frame shown.
    pub closed spec fn frame(&self) -> int {
        self.frame as int
    }

    /// When the frame shown, or the slide, started.
    pub closed spec fn started(&self) -> int {
        self.frame_started as int
    }

    /// How long each slide is shown.
    pub closed spec fn interval(&self) -> int {
        self.present_interval as int
    }

    /// Playing from the first frame, started at `now`, with the default interval.
    pub fn new(now: u64) -> (r: Playback)
        ensures
            r.mode() == PlaybackState::Playing,
            r.frame() == 0,
            r.started() == now,
            r.interval() == default_interval(),
    {
        Playback {
            state: PlaybackState::Playing,
            frame: 0,
            frame_started: now,
            present_interval: 5000000000,
        }
    }

    /// What playback is doing.
    pub fn state(&self) -> (r: PlaybackState)
        ensures
            r == self.mode(),
    {
        self.state
    }

    /// How long each slide is shown, in nanoseconds.
    pub fn present_interval(&self) -> (r: u64)
        ensures
            r == self.interval(),
    {
        self.present_interval
    }

    pub fn frame_index(&self) -> (r: usize)
        ensures
            r == self.frame(),
    {
        self.frame
    }

    /// Back to the first frame, started at `now`.
    pub fn reset(&mut self, now: u64)
        ensures
            final(self).mode() == old(self).mode(),
            final(self).frame() == 0,
            final(self).started() == now,
            final(self).interval() == old(self).interval(),
    {
        self.frame = 0;
        self.frame_started = now;
    }

    /// Switches to `state`, timing from `now`.
    pub fn set_state(&mut self, state: PlaybackState, now: u64)
        ensures
            final(self).mode() == state,
            final(self).frame() == old(self).frame(),
            final(self).started() == now,
            final(self).interval() == old(self).interval(),
    {
        self.state = state;
        self.frame_started = now;
    }

    /// Pauses while playing; plays otherwise. Timing restarts at `now`.
    pub fn toggle_play(&mut self, now: u64)
        ensures
            final(self).mode() == (if old(self).mode() == PlaybackState::Playing {
                PlaybackState::Paused
            } else {
                PlaybackState::Playing
            }),
            final(self).frame() == old(self).frame(),
            final(self).started() == now,
            final(self).interval() == old(self).interval(),
    {
        self.state = match self.state {
            PlaybackState::Playing => PlaybackState::Paused,
            _ => PlaybackState::Playing,
        };
        self.frame_started = now;
    }

    /// Sets how long each slide is shown, in nanoseconds.
    pub fn set_present_interval(&mut self, interval: u64)
        ensures
            final(self).mode() == old(self).mode(),
            final(self).frame() == old(self).frame(),
            final(self).started() == old(self).started(),
            final(self).interval() == interval,
    {
        self.present_interval = interval;
    }

    /// How long frame `frame` of an animation is shown; none for a still
    /// image or a frame past the end.
    pub fn frame_delay(decoded: &Decoded, frame: usize) -> (r: Option<u64>)
        ensures
            match decoded {
                Decoded::Still(_) => r is None,
                Decoded::Animation(fs) => if frame < fs@.len() {
                    r == Some(delay_of(fs@, frame as int) as u64)
                } else {
                    r is None
                },
            },
    {
        match decoded {
            Decoded::Still(_) => None,
            Decoded::Animation(frames) => {
                if frame < frames.len() {
                    let d = frames[frame].delay_nanos;
                    if d == 0 {
                        Some(100000000)
                    } else {
                        Some(d)
                    }
                } else {
                    None
                }
            },
        }
    }

    /// Moves an animation on to the frame due at `now`; true when the frame
    /// changed. Only a playing animation of two or more frames moves.
    pub fn advance(&mut self, decoded: &Decoded, now: u64) -> (r: bool)
        ensures
            final(self).mode() == old(self).mode(),
            final(self).interval() == old(self).interval(),
            ({
                let moves = old(self).mode() == PlaybackState::Playing && (match decoded {
                    Decoded::Animation(fs) => fs@.len() >= 2,
                    Decoded::Still(_) => false,
                });
                if moves {
                    let fs = decoded->Animation_0@;
                    let p = played(fs, old(self).frame(), old(self).started(), now as int);
                    &&& final(self).frame() == p.0
                    &&& final(self).started() == p.1
                    &&& r == (p.1 != old(self).started())
                } else {
                    &&& final(self).frame() == old(self).frame()
                    &&& final(self).started() == old(self).started()
                    &&& !r
                }
            }),
    {
        if self.state != PlaybackState::Playing {
            return false;
        }
        let frames = match decoded {
            Decoded::Animation(frames) => frames,
            Decoded::Still(_) => {
                return false;
            },
        };
        if frames.len() < 2 {
            return false;
        }
        let ghost fs = frames@;
        let ghost start = self.frame_started as int;
        let mut advanced = false;
        loop
            invariant
                fs == frames@,
                decoded matches Decoded::Animation(v) && v@ == fs,
                fs.len() >= 2,
                self.state == old(self).mode(),
                self.present_interval == old(self).present_interval,
                start == old(self).frame_started,
                start <= self.frame_started,
                advanced == (self.frame_started != start),
                played(fs, old(self).frame as int, start, now as int) == played(
                    fs,
                    self.frame as int,
                    self.frame_started as int,
                    now as int,
                ),
            ensures
                played(fs, old(self).frame as int, start, now as int) == (
                    self.frame as int,
                    self.frame_started as int,
                ),
                advanced == (self.frame_started != start),
                self.state == old(self).mode(),
                self.present_interval == old(self).present_interval,
            decreases now - self.frame_started,
        {
            if self.frame >= frames.len() {
                break;
            }
            let d = frames[self.frame].delay_nanos;
            let delay: u64 = if d == 0 {
                100000000
            } else {
                d
            };
            if now < self.frame_started || now - self.frame_started < delay {
                break;
            }
            self.frame = (self.frame + 1) % frames.len();
            self.frame_started = self.frame_started + delay;
            advanced = true;
        }
        advanced
    }

    /// Whether the slideshow is due to move on at `now`; when it is, the next
    /// slide is timed from `now`.
    pub fn present_due(&mut self, now: u64) -> (r: bool)
        ensures
            final(self).mode() == old(self).mode(),
            final(self).frame() == old(self).frame(),
            final(self).interval() == old(self).interval(),
            r == ((old(self).mode() == PlaybackState::Present || old(self).mode()
                == PlaybackState::PresentRandom) && now >= old(self).started() && now
                - old(self).started() >= old(self).interval()) || ((old(self).mode()
                == PlaybackState::Present || old(self).mode() == PlaybackState::PresentRandom)
                && now < old(self).started() && old(self).interval() == 0),
            r ==> final(self).started() == now,
            !r ==> final(self).started() == old(self).started(),
    {
        match self.state {
            PlaybackState::Present | PlaybackState::PresentRandom => {},
            _ => {
                return false;
            },
        }
        let elapsed: u64 = if now >= self.frame_started {
            now - self.frame_started
        } else {
            0
        };
        if elapsed >= self.present_interval {
            self.frame_started = now;
            return true;
        }
        false
    }
}

} // verus!
