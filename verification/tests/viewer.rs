use reveal_viewer::decode::{Decoded, DecodedImage, Frame};
use reveal_viewer::playback::{Playback, PlaybackState};
use reveal_viewer::session::Session;
use reveal_viewer::viewer::{
    is_animated, needs_ticking, next_time_based_delay, tick_interval_nanos, FALLBACK_FRAME_NANOS,
};

fn frame(delay_nanos: u64) -> Frame {
    Frame { image: DecodedImage { rgba: vec![0; 4], width: 1, height: 1 }, delay_nanos }
}

#[test]
fn only_animations_of_several_frames_animate() {
    let still = Decoded::Still(DecodedImage { rgba: vec![0; 4], width: 1, height: 1 });
    let one = Decoded::Animation(vec![frame(5)]);
    let two = Decoded::Animation(vec![frame(5), frame(0)]);
    assert!(!is_animated(Some(&still)));
    assert!(!is_animated(Some(&one)));
    assert!(is_animated(Some(&two)));
    assert!(!is_animated(None));
}

#[test]
fn the_window_ticks_while_something_moves() {
    let session = Session::new();
    let mut playback = Playback::new(0);
    let two = Decoded::Animation(vec![frame(5), frame(0)]);
    assert!(needs_ticking(&session, &playback, Some(&two)));
    assert!(!needs_ticking(&session, &playback, None));
    playback.set_state(PlaybackState::Paused, 0);
    assert!(!needs_ticking(&session, &playback, Some(&two)));
    playback.set_state(PlaybackState::Present, 0);
    assert!(needs_ticking(&session, &playback, None));
    let mut asked = Session::new();
    asked.set_pending(Some("/p/a.png".to_string()));
    playback.set_state(PlaybackState::Paused, 0);
    assert!(needs_ticking(&asked, &playback, None));
}

#[test]
fn delays_follow_the_slideshow_or_the_frame() {
    let mut playback = Playback::new(0);
    let two = Decoded::Animation(vec![frame(5), frame(0)]);
    assert_eq!(next_time_based_delay(&playback, Some(&two)), Some(5));
    assert_eq!(next_time_based_delay(&playback, None), None);
    playback.set_state(PlaybackState::PresentRandom, 0);
    playback.set_present_interval(3_000_000_000);
    assert_eq!(next_time_based_delay(&playback, None), Some(3_000_000_000));
    playback.set_state(PlaybackState::Paused, 0);
    assert_eq!(next_time_based_delay(&playback, Some(&two)), None);
    assert_eq!(FALLBACK_FRAME_NANOS, 16_000_000);
}

#[test]
fn the_window_sleeps_longer_when_idle() {
    assert_eq!(tick_interval_nanos(true), 16_000_000);
    assert_eq!(tick_interval_nanos(false), 100_000_000);
}
