use reveal_viewer::directory::Directory;
use reveal_viewer::drop::{
    is_droppable, path_from_url, paths_from_urls, percent_decode, request_open, resolve,
    take_requested, target,
};

#[test]
fn file_urls_become_absolute_paths() {
    assert_eq!(path_from_url("file:///home/u/a%20b.png", false), Some("/home/u/a b.png".to_string()));
    assert_eq!(path_from_url("file://host/x.png", false), Some("/x.png".to_string()));
    assert_eq!(path_from_url("file://host", false), None);
    assert_eq!(path_from_url("file:///", false), None);
    assert_eq!(path_from_url("/plain/path.png", false), Some("/plain/path.png".to_string()));
    assert_eq!(path_from_url("https://example.com/a.png", false), None);
    assert_eq!(path_from_url("file:///bad%zz", false), None);
}

#[test]
fn percent_escapes_decode_to_utf8() {
    assert_eq!(percent_decode("caf%C3%A9"), Some("caf\u{e9}".to_string()));
    assert_eq!(percent_decode("%+5x"), Some("\u{5}x".to_string()));
    assert_eq!(percent_decode("%C3"), None);
    assert_eq!(percent_decode("50%"), None);
    assert_eq!(
        paths_from_urls(&["file:///a.png".to_string(), "ftp://x".to_string(), "b.jpg".to_string()], false),
        vec!["/a.png".to_string(), "b.jpg".to_string()]
    );
}

#[test]
fn the_first_droppable_path_is_opened() {
    let candidates = vec![
        ("/tmp/notes.txt".to_string(), false),
        ("/tmp/photo.png".to_string(), false),
        ("/tmp/dir".to_string(), true),
    ];
    assert!(!is_droppable("/tmp/notes.txt", false));
    assert!(is_droppable("/tmp/dir", true));
    assert_eq!(target(&candidates), Some("/tmp/photo.png".to_string()));
    let empty = Directory::empty();
    assert_eq!(resolve(&candidates, &empty), Some("/tmp/photo.png".to_string()));
    let folder_first = vec![("/tmp/dir".to_string(), true)];
    let listing = vec!["/tmp/dir/b.png".to_string(), "/tmp/dir/a.png".to_string()];
    let opened = Directory::open_at("/tmp/dir".to_string(), None, &listing, None, &[]);
    assert_eq!(resolve(&folder_first, &opened), Some("/tmp/dir/a.png".to_string()));
    assert_eq!(target(&[]), None);
}

#[test]
fn requested_paths_queue_in_order() {
    let mut queue = Vec::new();
    request_open(&mut queue, vec!["a".to_string()]);
    request_open(&mut queue, Vec::new());
    request_open(&mut queue, vec!["b".to_string(), "c".to_string()]);
    assert_eq!(take_requested(&mut queue), vec!["a", "b", "c"]);
    assert!(take_requested(&mut queue).is_empty());
}

#[test]
fn windows_file_urls_keep_their_drive_letter() {
    assert_eq!(path_from_url("file:///C:/x.png", true), Some("C:/x.png".to_string()));
    assert_eq!(path_from_url("file:///C:/x.png", false), Some("/C:/x.png".to_string()));
    assert_eq!(path_from_url("file:///home/x.png", true), Some("/home/x.png".to_string()));
    assert_eq!(path_from_url("file:///%C3%A9:/x.png", true), Some("/\u{e9}:/x.png".to_string()));
}
