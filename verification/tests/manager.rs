use std::sync::Arc;

use reveal_viewer::cache::{CachedImage, LoadResult, RequestId};
use reveal_viewer::decode::{DecodeError, DecodeOutput, Decoded, DecodedImage, Orientation};
use reveal_viewer::directory::Directory;
use reveal_viewer::manager::ImageCache;

fn image(path: &str, bytes: usize) -> CachedImage {
    let output = Arc::new(DecodeOutput {
        decoded: Decoded::Still(DecodedImage { rgba: vec![0; bytes], width: 1, height: 1 }),
        orientation: Orientation::Normal,
    });
    CachedImage { path: path.to_string(), output, bytes }
}

fn folder(n: usize, shown: usize) -> Directory {
    let paths: Vec<String> = (0..n).map(|i| format!("/p/{i:02}.png")).collect();
    Directory::open_at("/p".to_string(), Some(paths[shown].clone()), &paths, None, &[])
}

fn loaded(id: u64, index: usize, path: &str, bytes: usize) -> LoadResult {
    LoadResult { id: RequestId(id), index, path: path.to_string(), outcome: Ok(image(path, bytes)) }
}

#[test]
fn prefetch_asks_for_neighbours_nearest_first() {
    let cache = ImageCache::new(1 << 20);
    let dir = folder(10, 5);
    let plan = cache.prefetch_targets(&dir, 2);
    let expected: Vec<(String, usize)> = [6usize, 4, 7, 3]
        .iter()
        .map(|&i| (format!("/p/{i:02}.png"), i))
        .collect();
    assert_eq!(plan, expected);
}

#[test]
fn prefetch_wraps_and_asks_once_in_small_folders() {
    let cache = ImageCache::new(1 << 20);
    let dir = folder(3, 0);
    let plan = cache.prefetch_targets(&dir, 3);
    assert_eq!(plan, vec![("/p/01.png".to_string(), 1), ("/p/02.png".to_string(), 2)]);
    let single = folder(1, 0);
    assert!(cache.prefetch_targets(&single, 3).is_empty());
}

#[test]
fn prefetch_skips_cached_and_pending_images() {
    let mut cache = ImageCache::new(1 << 20);
    let dir = folder(10, 5);
    cache.record_request("/p/06.png".to_string(), RequestId(1));
    assert!(!cache.wants("/p/06.png"));
    let (path, outcome) = cache.absorb(loaded(9, 4, "/p/04.png", 10), 5);
    assert_eq!(path, "/p/04.png");
    assert!(outcome.is_ok());
    assert!(!cache.wants("/p/04.png"));
    let plan = cache.prefetch_targets(&dir, 1);
    assert!(plan.is_empty());
}

#[test]
fn a_finished_load_is_no_longer_pending() {
    let mut cache = ImageCache::new(1 << 20);
    cache.record_request("/p/a.png".to_string(), RequestId(1));
    cache.record_request("/p/b.png".to_string(), RequestId(2));
    assert_eq!(cache.inflight_len(), 2);
    cache.absorb(loaded(1, 0, "/p/a.png", 100), 0);
    assert_eq!(cache.inflight_len(), 1);
    assert_eq!(cache.get("/p/a.png").map(|i| i.bytes), Some(100));
    let failed = LoadResult {
        id: RequestId(2),
        index: 1,
        path: "/p/b.png".to_string(),
        outcome: Err(DecodeError::UnsupportedFormat),
    };
    let (path, outcome) = cache.absorb(failed, 0);
    assert_eq!(path, "/p/b.png");
    assert_eq!(outcome, Err(DecodeError::UnsupportedFormat));
    assert_eq!(cache.inflight_len(), 0);
    assert!(cache.get("/p/b.png").is_none());
}

#[test]
fn cancelled_loads_are_forgotten() {
    let mut cache = ImageCache::new(1 << 20);
    for (i, p) in ["/p/a.png", "/p/b.png", "/p/c.png"].iter().enumerate() {
        cache.record_request(p.to_string(), RequestId(i as u64));
    }
    cache.forget_requests(&[RequestId(1)]);
    assert!(!cache.is_pending("/p/b.png"));
    assert!(cache.is_pending("/p/a.png") && cache.is_pending("/p/c.png"));
    let kept = cache.keep_only(&["/p/c.png".to_string()]);
    assert_eq!(kept, vec![RequestId(2)]);
    assert_eq!(cache.inflight_len(), 1);
    cache.forget_all_requests();
    assert_eq!(cache.inflight_len(), 0);
}

#[test]
fn syncing_drops_images_no_longer_listed() {
    let mut cache = ImageCache::new(1 << 20);
    cache.absorb(loaded(1, 0, "/p/00.png", 10), 0);
    cache.absorb(loaded(2, 7, "/p/gone.png", 10), 0);
    let dir = folder(3, 0);
    cache.sync_to_directory(&dir);
    assert!(cache.get("/p/00.png").is_some());
    assert!(cache.get("/p/gone.png").is_none());
    cache.forget("/p/00.png");
    assert!(cache.get("/p/00.png").is_none());
    cache.set_target_size(640, 480);
    assert_eq!(cache.target(), (640, 480));
}
