use reveal_viewer::actions::{first_frame, paste_from_clipboard, ActionError, Theme};
use reveal_viewer::config::file_in;
use reveal_viewer::decode::{Decoded, DecodedImage, Frame};
use reveal_viewer::fonts::{resolve_generic_families, FontFace};
use reveal_viewer::naming::{compare_names, is_natural_safe};
use reveal_viewer::panic_report::{format_report, format_report_at};
use reveal_viewer::session::{event_for, SessionEvent};
use reveal_viewer::ui::palette;

#[test]
fn clipboard_images_are_sized_to_their_pixels() {
    let img = paste_from_clipboard(2, 1, vec![9; 5]).unwrap();
    assert_eq!((img.width, img.height), (2, 1));
    assert_eq!(img.rgba, vec![9, 9, 9, 9, 9, 0, 0, 0]);
    let img = paste_from_clipboard(1, 1, vec![7; 10]).unwrap();
    assert_eq!(img.rgba, vec![7; 4]);
    assert_eq!(paste_from_clipboard(0, 3, vec![]).unwrap_err(), ActionError::NoImage);
    assert_eq!(ActionError::Clipboard("busy".to_string()).message(), "clipboard: busy");
    assert_eq!(ActionError::NoImage.message(), "no image is open");
}

#[test]
fn first_frame_of_an_animation() {
    let a = DecodedImage { rgba: vec![1; 4], width: 1, height: 1 };
    let b = DecodedImage { rgba: vec![2; 4], width: 1, height: 1 };
    let anim = Decoded::Animation(vec![
        Frame { image: a.clone(), delay_nanos: 1 },
        Frame { image: b, delay_nanos: 1 },
    ]);
    assert_eq!(first_frame(&anim).map(|i| i.rgba.clone()), Some(vec![1; 4]));
    assert!(first_frame(&Decoded::Animation(Vec::new())).is_none());
    assert_eq!(first_frame(&Decoded::Still(a)).map(|i| i.width), Some(1));
}

#[test]
fn themes_toggle_and_colour_the_window() {
    assert_eq!(Theme::Light.toggled(), Theme::Dark);
    assert_eq!(Theme::Dark.toggled().toggled(), Theme::Dark);
    assert!(Theme::from_dark(true).is_dark());
    assert_eq!(Theme::Dark.background(), 0x101010);
    assert_eq!(Theme::Light.text(), 0x202020);
    assert_eq!(palette(Theme::Dark).background, 0x1a1a1a);
    assert_eq!(palette(Theme::Light).text_accent, 0x5c79e2);
}

#[test]
fn names_compare_naturally() {
    assert_eq!(compare_names("img2.png", "img10.png"), -1);
    assert_eq!(compare_names("img10.png", "img2.png"), 1);
    assert_eq!(compare_names("a.png", "a.png"), 0);
    assert!(is_natural_safe("photo_0001.jpg"));
    assert!(!is_natural_safe("12345678901234567890.png"));
    assert_eq!(compare_names("12345678901234567890.png", "2.png"), -1);
}

#[test]
fn generic_families_prefer_common_fonts() {
    let faces = vec![
        FontFace { families: vec!["Fira Mono".to_string()], monospaced: true },
        FontFace { families: vec!["dejavu serif".to_string()], monospaced: false },
    ];
    let f = resolve_generic_families(&faces);
    assert_eq!(f.serif.as_deref(), Some("DejaVu Serif"));
    assert_eq!(f.sans_serif.as_deref(), Some("dejavu serif"));
    assert_eq!(f.monospace.as_deref(), Some("Fira Mono"));
    let none = resolve_generic_families(&[]);
    assert!(none.cursive.is_none());
}

#[test]
fn crash_reports_name_version_and_system() {
    let r = format_report_at("boom", "1.0", "linux", "T");
    assert_eq!(r, "reveal 1.0 panicked\nos: linux\ntime: T\n\nboom\n");
    let live = format_report("boom", "1.0", "linux");
    assert!(live.starts_with("reveal 1.0 panicked\nos: linux\ntime: "));
    assert!(live.ends_with("\n\nboom\n"));
}

#[test]
fn load_outcomes_become_events() {
    assert!(matches!(event_for("/a".to_string(), Ok(())), SessionEvent::Loaded(p) if p == "/a"));
    assert_eq!(file_in(Some("/cfg".to_string()), "cfg.json"), Some("/cfg/cfg.json".to_string()));
    assert_eq!(file_in(None, "cfg.json"), None);
}
