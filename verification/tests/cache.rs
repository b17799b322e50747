use std::sync::Arc;

use reveal_viewer::cache::{
    measure, prefetch_offsets, CacheStore, CachedImage, NavigationDirection,
};
use reveal_viewer::decode::{DecodeOutput, Decoded, DecodedImage, Frame, Orientation};

fn output(bytes: usize) -> Arc<DecodeOutput> {
    Arc::new(DecodeOutput {
        decoded: Decoded::Still(DecodedImage { rgba: vec![0; bytes], width: 1, height: 1 }),
        orientation: Orientation::Rotate90,
    })
}

fn image(path: &str, bytes: usize) -> CachedImage {
    CachedImage { path: path.to_string(), output: output(bytes), bytes }
}

#[test]
fn transitions_wrap_at_the_ends_of_the_folder() {
    assert_eq!(NavigationDirection::from_transition(None, 3, 10), NavigationDirection::Unknown);
    assert_eq!(NavigationDirection::from_transition(Some(9), 0, 10), NavigationDirection::Forward);
    assert_eq!(NavigationDirection::from_transition(Some(0), 9, 10), NavigationDirection::Backward);
    assert_eq!(NavigationDirection::from_transition(Some(2), 3, 10), NavigationDirection::Forward);
    assert_eq!(NavigationDirection::from_transition(Some(5), 3, 10), NavigationDirection::Backward);
    assert_eq!(NavigationDirection::from_transition(Some(4), 4, 10), NavigationDirection::Unknown);
}

#[test]
fn prefetch_alternates_forward_and_back() {
    assert_eq!(prefetch_offsets(3), vec![1, -1, 2, -2, 3, -3]);
    assert!(prefetch_offsets(0).is_empty());
    assert!(prefetch_offsets(-2).is_empty());
}

#[test]
fn measure_counts_every_frame() {
    let frames = vec![
        Frame { image: DecodedImage { rgba: vec![0; 16], width: 2, height: 2 }, delay_nanos: 1 },
        Frame { image: DecodedImage { rgba: vec![0; 16], width: 2, height: 2 }, delay_nanos: 1 },
    ];
    let out = DecodeOutput { decoded: Decoded::Animation(frames), orientation: Orientation::Normal };
    assert_eq!(measure(&out), 32);
    assert_eq!(image("a", 5).orientation(), Orientation::Rotate90);
}

#[test]
fn store_counts_bytes_and_replaces_by_path() {
    let mut store = CacheStore::new(100);
    assert!(store.is_empty());
    store.insert(image("/p/a.png", 10), 0, 0);
    store.insert(image("/p/b.png", 20), 1, 0);
    assert_eq!(store.used_bytes(), 30);
    store.insert(image("/p/a.png", 15), 0, 0);
    assert_eq!(store.used_bytes(), 35);
    assert_eq!(store.len(), 2);
    assert_eq!(store.get("/p/a.png").map(|i| i.bytes), Some(15));
    store.remove("/p/b.png");
    assert_eq!(store.used_bytes(), 15);
    assert!(!store.contains("/p/b.png"));
    store.clear();
    assert_eq!(store.used_bytes(), 0);
    assert_eq!(store.capacity_bytes(), 100);
}

#[test]
fn eviction_drops_images_behind_the_direction_of_travel() {
    let mut store = CacheStore::new(30);
    store.set_direction(NavigationDirection::Forward);
    store.insert(image("/p/3.png", 10), 3, 5);
    store.insert(image("/p/6.png", 10), 6, 5);
    store.insert(image("/p/5.png", 10), 5, 5);
    store.insert(image("/p/7.png", 10), 7, 5);
    assert!(store.contains("/p/5.png"));
    assert!(store.contains("/p/6.png"));
    assert!(store.contains("/p/7.png"));
    assert!(!store.contains("/p/3.png"));
    assert_eq!(store.used_bytes(), 30);
}

#[test]
fn eviction_never_drops_the_image_shown() {
    let mut store = CacheStore::new(10);
    store.insert(image("/p/1.png", 50), 1, 1);
    assert!(store.contains("/p/1.png"));
    assert_eq!(store.used_bytes(), 50);
    store.insert(image("/p/2.png", 5), 2, 1);
    assert!(store.contains("/p/1.png"));
    assert!(!store.contains("/p/2.png"));
}

#[test]
fn reindex_follows_the_new_listing() {
    let mut store = CacheStore::new(100);
    store.insert(image("/p/a.png", 10), 0, 0);
    store.insert(image("/p/b.png", 10), 1, 0);
    let listing = vec!["/p/b.png".to_string(), "/p/c.png".to_string()];
    store.reindex(&listing);
    assert!(!store.contains("/p/a.png"));
    assert!(store.contains("/p/b.png"));
    assert_eq!(store.used_bytes(), 10);
    store.insert(image("/p/c.png", 95), 1, 1);
    assert!(!store.contains("/p/b.png"));
}
