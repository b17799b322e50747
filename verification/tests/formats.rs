use reveal_viewer::decode::supported_extensions;
use reveal_viewer::formats::{extensions, formats, info_plist, mime_list};

#[test]
fn every_format_appears_in_the_plist() {
    let plist = info_plist("1.2.3");
    for format in formats() {
        assert!(
            plist.contains(&format!("<string>{}</string>", format.extension)),
            "{} missing from plist",
            format.extension
        );
    }
    assert!(plist.contains("<string>1.2.3</string>"));
}

#[test]
fn every_decodable_extension_can_be_registered() {
    let registered = extensions();
    for ext in supported_extensions() {
        assert!(registered.contains(&ext), "{ext} decodes but is missing from the association table");
    }
}

#[test]
fn mime_types_are_sorted_and_unique() {
    let mimes = mime_list();
    let mut sorted = mimes.clone();
    sorted.sort_unstable();
    sorted.dedup();
    assert_eq!(mimes, sorted);
    assert_eq!(mimes.len(), 22);
    assert_eq!(extensions().len(), 24);
}

#[test]
fn plist_entries_carry_type_identifiers() {
    let plist = info_plist("0.1.0");
    assert!(plist.starts_with("<?xml version=\"1.0\" encoding=\"UTF-8\"?>\n"));
    assert!(plist.contains("<string>public.jpeg-xl</string>"));
    assert!(plist.contains("<string>io.github.knst0.reveal.ff</string>"));
    assert!(plist.ends_with("\t</array>\n</dict>\n</plist>\n"));
}
