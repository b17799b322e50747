use reveal_viewer::decode::{Decoded, DecodedImage, Frame};
use reveal_viewer::playback::{Playback, PlaybackState};

fn frame(delay_nanos: u64) -> Frame {
    Frame { image: DecodedImage { rgba: vec![0; 4], width: 1, height: 1 }, delay_nanos }
}

const MS: u64 = 1_000_000;

#[test]
fn animations_step_through_due_frames() {
    let anim = Decoded::Animation(vec![frame(50 * MS), frame(0), frame(30 * MS)]);
    let mut p = Playback::new(0);
    assert!(!p.advance(&anim, 49 * MS));
    assert_eq!(p.frame_index(), 0);
    assert!(p.advance(&anim, 50 * MS));
    assert_eq!(p.frame_index(), 1);
    assert!(p.advance(&anim, 180 * MS));
    assert_eq!(p.frame_index(), 0);
    assert_eq!(Playback::frame_delay(&anim, 1), Some(100 * MS));
    assert_eq!(Playback::frame_delay(&anim, 3), None);
}

#[test]
fn paused_and_still_images_do_not_advance() {
    let anim = Decoded::Animation(vec![frame(10), frame(10)]);
    let still = Decoded::Still(DecodedImage { rgba: vec![0; 4], width: 1, height: 1 });
    let mut p = Playback::new(0);
    assert!(!p.advance(&still, 1000));
    assert_eq!(Playback::frame_delay(&still, 0), None);
    p.toggle_play(0);
    assert_eq!(p.state, PlaybackState::Paused);
    assert!(!p.advance(&anim, 1000));
    p.toggle_play(0);
    assert_eq!(p.state, PlaybackState::Playing);
    p.reset(5);
    assert_eq!(p.frame_index(), 0);
}

#[test]
fn slideshows_move_on_each_interval() {
    let mut p = Playback::new(0);
    assert!(!p.present_due(10_000 * MS));
    p.set_state(PlaybackState::Present, 0);
    p.set_present_interval(100);
    assert!(!p.present_due(99));
    assert!(p.present_due(100));
    assert!(!p.present_due(150));
    assert!(p.present_due(200));
}

#[test]
fn advancing_twice_at_one_time_moves_once() {
    let anim = Decoded::Animation(vec![frame(10 * MS), frame(20 * MS), frame(30 * MS)]);
    let mut p = Playback::new(0);
    assert!(p.advance(&anim, 45 * MS));
    let reached = p.frame_index();
    assert_eq!(reached, 2);
    assert!(!p.advance(&anim, 45 * MS));
    assert_eq!(p.frame_index(), reached);
}
