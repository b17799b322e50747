//! When the window has to wake up again: while a scan, a load or an image
//! asked for is under way, while a slideshow runs, and while an animation
//! plays.
use vstd::prelude::*;

use crate::decode::Decoded;
use crate::playback::{delay_of, Playback, PlaybackState};
use crate::session::Session;

verus! {

/// How long to wait for the next frame when its time is unknown: 16 ms.
pub const FALLBACK_FRAME_NANOS: u64 = 16000000;

/// Whether the image on screen is an animation of two frames or more.
pub open spec fn is_animation(current: Option<&Decoded>) -> bool {
    current matches Some(d) && d matches Decoded::Animation(fs) && fs@.len() > 1
}

pub fn is_animated(current: Option<&Decoded>) -> (r: bool)
    ensures
        r == is_animation(current),
{
    match current {
        Some(Decoded::Animation(frames)) => frames.len() > 1,
        _ => false,
    }
}

/// Whether a slideshow runs.
pub open spec fn presenting(mode: PlaybackState) -> bool {
    mode == PlaybackState::Present || mode == PlaybackState::PresentRandom
}

/// Whether the window has to keep waking up.
pub open spec fn ticking(
    scanning: bool,
    asked: bool,
    loads: nat,
    mode: PlaybackState,
    animated: bool,
) -> bool {
    scanning || asked || loads > 0 || presenting(mode) || (animated && mode == PlaybackState::Playing)
}

pub fn needs_ticking(session: &Session, playback: &Playback, current: Option<&Decoded>) -> (r: bool)
    ensures
        r == ticking(
            session.scanning(),
            session.pending_path() is Some,
            session.cache_state().pending().len(),
            playback.mode(),
            is_animation(current),
        ),
{
    if session.scan_pending() || session.pending().is_some() || session.inflight_len() > 0 {
        return true;
    }
    let state = playback.state();
    if state == PlaybackState::Present || state == PlaybackState::PresentRandom {
        return true;
    }
    is_animated(current) && state == PlaybackState::Playing
}

/// How long until time alone changes the window: a slide's interval while
/// a slideshow runs; while an animation plays, the time of the frame shown,
/// or 16 ms when that is unknown; otherwise nothing.
pub fn next_time_based_delay(playback: &Playback, current: Option<&Decoded>) -> (r: Option<u64>)
    ensures
        presenting(playback.mode()) ==> r == Some(playback.interval() as u64),
        !presenting(playback.mode()) && is_animation(current) && playback.mode()
            == PlaybackState::Playing ==> r == Some(
            if playback.frame() < current->0->Animation_0@.len() {
                delay_of(current->0->Animation_0@, playback.frame()) as u64
            } else {
                FALLBACK_FRAME_NANOS
            },
        ),
        !presenting(playback.mode()) && !(is_animation(current) && playback.mode()
            == PlaybackState::Playing) ==> r is None,
{
    let state = playback.state();
    if state == PlaybackState::Present || state == PlaybackState::PresentRandom {
        return Some(playback.present_interval());
    }
    if is_animated(current) && state == PlaybackState::Playing {
        let frame = playback.frame_index();
        return match current {
            Some(decoded) => match Playback::frame_delay(decoded, frame) {
                Some(d) => Some(d),
                None => Some(FALLBACK_FRAME_NANOS),
            },
            None => Some(FALLBACK_FRAME_NANOS),
        };
    }
    None
}

/// How long the window sleeps between ticks: 16 ms while something is
/// under way, 100 ms otherwise.
pub fn tick_interval_nanos(busy: bool) -> (r: u64)
    ensures
        r == if busy {
            16000000u64
        } else {
            100000000u64
        },
{
    if busy {
        16000000
    } else {
        100000000
    }
}

} // verus!
