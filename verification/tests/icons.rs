use reveal_viewer::icons::{Icon, CAPTION_ICONS, LUCIDE_ICONS};

#[test]
fn icon_sets_are_disjoint_and_complete() {
    let mut seen: Vec<Icon> = Vec::new();
    for icon in LUCIDE_ICONS.iter().chain(CAPTION_ICONS.iter()) {
        assert!(!seen.contains(icon), "{icon:?} is listed in more than one set");
        seen.push(*icon);
    }
    assert_eq!(seen.len(), 18);
}
