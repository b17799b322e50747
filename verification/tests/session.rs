use std::sync::mpsc::channel;
use std::sync::Arc;

use reveal_viewer::cache::{CachedImage, LoadResult, RequestId};
use reveal_viewer::decode::{DecodeError, DecodeOutput, Decoded, DecodedImage, Orientation};
use reveal_viewer::directory::{Directory, Navigation};
use reveal_viewer::scan::{PendingScan, ScanResult};
use reveal_viewer::session::{Session, SessionEvent};

fn listing(names: &[&str]) -> Directory {
    let paths: Vec<String> = names.iter().map(|n| format!("/p/{n}")).collect();
    Directory::open_at("/p".to_string(), None, &paths, None, &[])
}

fn scan_of(target: Option<&str>) -> (PendingScan, std::sync::mpsc::Sender<ScanResult>) {
    let (tx, rx) = channel();
    (PendingScan::new(target.map(str::to_string), rx), tx)
}

fn loaded(id: u64, path: &str) -> LoadResult {
    let output = Arc::new(DecodeOutput {
        decoded: Decoded::Still(DecodedImage { rgba: vec![0; 8], width: 1, height: 2 }),
        orientation: Orientation::Normal,
    });
    LoadResult {
        id: RequestId(id),
        index: 0,
        path: path.to_string(),
        outcome: Ok(CachedImage { path: path.to_string(), output, bytes: 8 }),
    }
}

#[test]
fn a_new_session_is_empty() {
    let s = Session::new();
    assert!(s.directory().is_empty());
    assert_eq!(s.status(), None);
    assert_eq!(s.pending(), None);
    assert_eq!(s.scan_generation(), 0);
    assert!(!s.scan_pending());
    assert_eq!(s.inflight_len(), 0);
}

#[test]
fn a_scan_shows_its_file_until_the_folder_is_read() {
    let mut s = Session::new();
    let (scan, tx) = scan_of(Some("/p/b.png"));
    assert_eq!(s.begin_scan(scan), Some("/p/b.png".to_string()));
    assert_eq!(s.scan_generation(), 1);
    assert!(s.scan_pending());
    assert_eq!(s.directory().current(), Some("/p/b.png"));
    assert_eq!(s.directory().dir(), "/p");
    assert!(s.take_scan(false).is_none());
    assert!(s.scan_pending());
    tx.send(Ok(listing(&["a.png", "b.png", "c.png"]))).unwrap();
    let result = s.take_scan(true).unwrap();
    assert!(!s.scan_pending());
    let outcome = s.adopt_scan(result, Some("/p/b.png"), true, &[], false).unwrap();
    assert!(outcome.anchored);
    assert_eq!(outcome.first, Some("/p/b.png".to_string()));
    assert_eq!(outcome.realigned, None);
    assert_eq!(s.current_index(), 1);
    assert_eq!(s.directory().len(), 3);
}

#[test]
fn a_closed_scan_reports_a_failure() {
    let mut s = Session::new();
    let (scan, tx) = scan_of(None);
    assert_eq!(s.begin_scan(scan), None);
    drop(tx);
    let result = s.take_scan(true).unwrap();
    assert_eq!(result.as_ref().err().map(String::as_str), Some("directory scan failed"));
    assert!(s.adopt_scan(result, None, false, &[], false).is_none());
    assert_eq!(s.status(), Some("failed to read folder: directory scan failed"));
}

#[test]
fn failures_keep_quiet_while_an_image_is_shown() {
    let mut s = Session::new();
    assert!(s.adopt_scan(Err("gone".to_string()), None, true, &[], false).is_none());
    assert_eq!(s.status(), None);
}

#[test]
fn an_empty_folder_is_reported() {
    let mut s = Session::new();
    let outcome = s.adopt_scan(Ok(listing(&[])), None, false, &[], false).unwrap();
    assert!(!outcome.anchored);
    assert_eq!(outcome.first, None);
    assert_eq!(s.status(), Some("no supported images in /p"));
}

#[test]
fn the_image_asked_for_is_realigned_to_the_same_file() {
    let mut s = Session::new();
    s.set_pending(Some("/q/link.png".to_string()));
    let scanned = listing(&["a.png", "b.png"]);
    assert_eq!(s.scan_would_show(&scanned, None, &[]), Some("/p/a.png".to_string()));
    let outcome = s.adopt_scan(Ok(scanned), None, false, &[], true).unwrap();
    assert_eq!(outcome.realigned, Some("/p/a.png".to_string()));
    assert_eq!(s.pending(), None);

    let mut t = Session::new();
    t.set_pending(Some("/q/other.png".to_string()));
    let outcome = t.adopt_scan(Ok(listing(&["a.png"])), None, false, &[], false).unwrap();
    assert_eq!(outcome.realigned, None);
    assert_eq!(t.pending(), Some("/q/other.png"));
}

#[test]
fn only_the_latest_scan_can_be_discarded() {
    let mut s = Session::new();
    let (scan, _tx) = scan_of(Some("/p/a.png"));
    s.begin_scan(scan);
    assert!(!s.discard_scan(0));
    assert!(s.scan_pending());
    assert!(s.discard_scan(1));
    assert!(!s.scan_pending());
}

#[test]
fn requests_are_made_once() {
    let mut s = Session::new();
    s.adopt_scan(Ok(listing(&["a.png", "b.png", "c.png"])), None, true, &[], false);
    let (path, index) = s.request("/p/a.png").unwrap();
    assert_eq!((path.as_str(), index), ("/p/a.png", 0));
    assert_eq!(s.pending(), Some("/p/a.png"));
    s.record_request(path, RequestId(5));
    assert!(s.request("/p/a.png").is_none());
    let plan = s.prefetch();
    assert_eq!(plan, vec![("/p/b.png".to_string(), 1), ("/p/c.png".to_string(), 2)]);
    match s.absorb_load(loaded(5, "/p/a.png")) {
        SessionEvent::Loaded(p) => assert_eq!(p, "/p/a.png"),
        other => panic!("unexpected {other:?}"),
    }
    assert!(s.is_cached("/p/a.png"));
    assert!(s.output("/p/a.png").is_some());
    assert_eq!(s.inflight_len(), 0);
    let failed = LoadResult {
        id: RequestId(6),
        index: 1,
        path: "/p/b.png".to_string(),
        outcome: Err(DecodeError::NoDecoder),
    };
    match s.absorb_load(failed) {
        SessionEvent::Failed(p, e) => {
            assert_eq!(p, "/p/b.png");
            assert_eq!(e, DecodeError::NoDecoder);
        }
        other => panic!("unexpected {other:?}"),
    }
    s.forget("/p/a.png");
    assert!(!s.is_cached("/p/a.png"));
}

#[test]
fn moving_through_the_folder() {
    let mut s = Session::new();
    s.adopt_scan(Ok(listing(&["a.png", "b.png", "c.png"])), None, true, &[], false);
    assert_eq!(s.neighbour_paths(), vec!["/p/b.png".to_string(), "/p/c.png".to_string()]);
    assert_eq!(
        s.window_paths(),
        vec!["/p/b.png".to_string(), "/p/c.png".to_string(), "/p/a.png".to_string()]
    );
    assert_eq!(s.navigate(Navigation::Prev), Some("/p/c.png".to_string()));
    assert_eq!(s.jump_to_drawn(1), Some("/p/b.png".to_string()));
    assert_eq!(s.current_index(), 1);
    assert_eq!(s.jump_to_drawn(7), None);
    assert_eq!(s.current_index(), 1);
    let paths = vec!["/p/b.png".to_string(), "/p/d.png".to_string()];
    assert_eq!(s.refresh_directory(&paths, Some(3), &[]), Some("/p/b.png".to_string()));
    assert_eq!(s.directory().len(), 2);
}

#[test]
fn a_failed_load_of_the_image_asked_for_is_reported() {
    let mut s = Session::new();
    s.set_pending(Some("/p/a.png".to_string()));
    let other = SessionEvent::Failed("/p/b.png".to_string(), DecodeError::NoDecoder);
    assert!(!s.apply_event(&other));
    assert_eq!(s.pending(), Some("/p/a.png"));
    let mine = SessionEvent::Failed("/p/a.png".to_string(), DecodeError::UnsupportedFormat);
    assert!(s.apply_event(&mine));
    assert_eq!(s.pending(), None);
    assert_eq!(s.status(), Some("/p/a.png: unsupported image format"));
    assert!(!s.apply_event(&SessionEvent::ScanComplete));
}

#[test]
fn the_image_asked_for_is_shown_once_ready() {
    let mut s = Session::new();
    s.adopt_scan(Ok(listing(&["a.png", "b.png"])), None, true, &[], false);
    assert_eq!(s.resolve_pending(true), None);
    s.set_pending(Some("/p/b.png".to_string()));
    assert_eq!(s.resolve_pending(true), None);
    assert_eq!(s.pending(), None);
    s.set_pending(Some("/p/a.png".to_string()));
    assert_eq!(s.resolve_pending(false), None);
    assert_eq!(s.pending(), Some("/p/a.png"));
    assert_eq!(s.resolve_pending(true), Some("/p/a.png".to_string()));
    assert_eq!(s.pending(), None);
}

#[test]
fn a_random_jump_shows_the_image_it_gives() {
    let mut s = Session::new();
    assert_eq!(s.jump_random(), None);
    s.adopt_scan(Ok(listing(&["a.png", "b.png", "c.png"])), None, true, &[], false);
    for _ in 0..20 {
        let picked = s.jump_random().expect("a listed image");
        let at = s.current_index();
        assert_eq!(s.directory().entries()[at], picked);
    }
}
