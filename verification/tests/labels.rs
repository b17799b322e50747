use reveal_viewer::input::{Action, Binding, ALL_ACTIONS};
use reveal_viewer::labels::{action_label, format_binding, path_label, pretty_key, title_for};

#[test]
fn title_uses_filename_with_app_suffix() {
    assert_eq!(title_for(Some("/a/b/photo.jpg")), "photo.jpg \u{2014} Reveal");
}

#[test]
fn title_falls_back_to_app_name_when_empty() {
    assert_eq!(title_for(None), "Reveal");
}

#[test]
fn bindings_render_with_modifier_prefixes() {
    let binding = Binding::parse("CmdCtrl+c").unwrap();
    assert_eq!(format_binding(&binding), "Ctrl+C");
}

#[test]
fn arrow_keys_render_as_glyphs() {
    assert_eq!(pretty_key("left"), "\u{2190}");
    assert_eq!(pretty_key("f11"), "F11");
}

#[test]
fn every_action_has_a_menu_label() {
    for action in ALL_ACTIONS.iter() {
        assert!(!action_label(*action).is_empty());
    }
    assert_eq!(action_label(Action::ImgDel), "Move to Trash");
}

#[test]
fn all_modifiers_render_in_order() {
    let binding = Binding::parse("shift+alt+CmdCtrl+pageup").unwrap();
    assert_eq!(format_binding(&binding), "Ctrl+Alt+Shift+PgUp");
    assert_eq!(pretty_key(""), "");
    assert_eq!(pretty_key("\u{e9}t\u{e9}"), "\u{c9}t\u{e9}");
}

#[test]
fn missing_locations_read_unavailable() {
    assert_eq!(path_label(None), "Unavailable");
    assert_eq!(path_label(Some("/home/u/.config/reveal/cfg.json".to_string())), "/home/u/.config/reveal/cfg.json");
}
