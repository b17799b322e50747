use reveal_viewer::decode::{is_avif_extension, is_supported, supported_extensions, AVIF_EXTENSIONS};
use reveal_viewer::dialog::start_directory;

#[test]
fn dialog_filter_only_lists_openable_extensions() {
    let extensions = supported_extensions();
    assert!(extensions.contains(&"png"));
    for ext in &extensions {
        assert!(is_supported(&format!("a.{ext}")), "{ext} not openable");
    }
}

#[test]
fn start_directory_is_the_parent_of_the_open_image() {
    let parent = start_directory(Some("/photos/trip/a.png"));
    assert_eq!(parent, Some("/photos/trip".to_string()));
}

#[test]
fn start_directory_is_none_without_an_open_image() {
    assert_eq!(start_directory(None), None);
}

#[test]
fn every_listed_avif_extension_is_recognised() {
    for ext in AVIF_EXTENSIONS.iter() {
        assert!(is_avif_extension(ext), "{ext} is listed but not recognised");
    }
}
