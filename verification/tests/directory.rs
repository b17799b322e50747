use reveal_viewer::directory::{index_of, sort_openable, split_target, Directory, Navigation};

fn listing(names: &[&str]) -> Vec<String> {
    names.iter().map(|n| format!("/photos/{n}")).collect()
}

#[test]
fn folders_list_openable_images_in_natural_order() {
    let paths = listing(&["img10.png", "notes.txt", "img2.png", "img1.jpg", "IMG3.gif"]);
    let dir = Directory::open_at("/photos".to_string(), None, &paths, Some(7), &[]);
    let names: Vec<&str> = dir.entries().iter().map(|p| p.as_str()).collect();
    assert_eq!(
        names,
        vec!["/photos/img1.jpg", "/photos/img2.png", "/photos/IMG3.gif", "/photos/img10.png"]
    );
    assert_eq!(dir.current_index(), 0);
    assert!(!dir.is_provisional());
    assert!(!dir.changed_on_disk(Some(7)));
    assert!(dir.changed_on_disk(Some(8)));
    assert!(dir.changed_on_disk(None));
}

#[test]
fn opening_a_file_shows_it() {
    let paths = listing(&["b.png", "a.png", "c.png"]);
    let dir = Directory::open_at("/photos".to_string(), Some("/photos/b.png".to_string()), &paths, None, &[]);
    assert_eq!(dir.current(), Some("/photos/b.png"));
    assert_eq!(dir.current_index(), 1);
}

#[test]
fn navigation_wraps_around() {
    let paths = listing(&["a.png", "b.png", "c.png"]);
    let mut dir = Directory::open_at("/photos".to_string(), None, &paths, None, &[]);
    assert_eq!(dir.navigate(Navigation::Prev), Some("/photos/c.png"));
    assert_eq!(dir.navigate(Navigation::Next), Some("/photos/a.png"));
    assert_eq!(dir.navigate(Navigation::Next), Some("/photos/b.png"));
    assert_eq!(dir.offset_index(-4), Some(0));
    assert_eq!(dir.offset_index(7), Some(2));
    assert_eq!(dir.set_index(5), None);
    assert_eq!(dir.set_index(2), Some("/photos/c.png"));
    assert!(dir.jump_to("/photos/a.png", &[]));
    assert!(!dir.jump_to("/photos/z.png", &[]));
    assert_eq!(dir.current_index(), 0);
}

#[test]
fn empty_directories_have_nothing_to_show() {
    let mut dir = Directory::empty();
    assert!(dir.is_empty());
    assert_eq!(dir.current(), None);
    assert_eq!(dir.navigate(Navigation::Next), None);
    assert_eq!(dir.offset_index(1), None);
    assert_eq!(dir.path_at(0), None);
}

#[test]
fn refresh_keeps_the_image_shown() {
    let paths = listing(&["a.png", "b.png", "c.png", "d.png"]);
    let mut dir = Directory::open_at("/photos".to_string(), Some("/photos/c.png".to_string()), &paths, None, &[]);
    dir.refresh(&listing(&["c.png", "d.png"]), Some(2), &[]);
    assert_eq!(dir.current(), Some("/photos/c.png"));
    dir.set_index(1);
    dir.refresh(&listing(&["a.png"]), Some(3), &[]);
    assert_eq!(dir.current_index(), 0);
    dir.refresh(&Vec::new(), Some(4), &[]);
    assert_eq!(dir.current_index(), 0);
    assert_eq!(dir.current(), None);
    assert_eq!(dir.dir(), "/photos");
}

#[test]
fn provisional_listing_holds_the_file_alone() {
    let dir = Directory::single("/photos/a.png", false);
    assert!(dir.is_provisional());
    assert_eq!(dir.len(), 1);
    assert_eq!(dir.dir(), "/photos");
    let folder = Directory::single("/photos", true);
    assert!(folder.is_empty());
    assert_eq!(split_target("a.png", false), (".".to_string(), Some("a.png".to_string())));
    assert_eq!(split_target("/photos", true), ("/photos".to_string(), None));
}

#[test]
fn same_names_in_the_listing_are_found() {
    let paths = listing(&["a.png", "b.png"]);
    let dir = Directory::open_at("/photos".to_string(), None, &paths, None, &[]);
    assert_eq!(dir.same_name_indices("/elsewhere/b.png"), vec![1]);
    assert_eq!(index_of(dir.entries(), "/photos/b.png", &[]), Some(1));
    let sorted = sort_openable(&vec!["x10.png".to_string(), "x9.png".to_string()]);
    assert_eq!(sorted, vec!["x9.png".to_string(), "x10.png".to_string()]);
}

#[test]
fn paths_are_found_by_component_and_by_file() {
    let paths = listing(&["a.png", "b.png", "c.png"]);
    let mut dir = Directory::open_at("/photos".to_string(), None, &paths, None, &[]);
    assert!(dir.jump_to("/photos//c.png", &[]));
    assert_eq!(dir.current_index(), 2);
    assert!(dir.jump_to("/photos/./b.png", &[]));
    assert_eq!(dir.current_index(), 1);
    let same = vec!["/photos/a.png".to_string()];
    assert!(dir.jump_to("/link/a.png", &same));
    assert_eq!(dir.current_index(), 0);
    assert!(!dir.jump_to("/link/x.png", &same));
    assert_eq!(dir.current_index(), 0);
    let shown = Directory::open_at("/photos".to_string(), Some("/link/b.png".to_string()), &paths, None, &["/photos/b.png".to_string()]);
    assert_eq!(shown.current_index(), 1);
}
