use reveal_viewer::config::{Channel, Configuration, Updates};
use reveal_viewer::input::{Action, Binding, Bindings, Modifiers, ALL_ACTIONS};
use reveal_viewer::labels::format_binding;
use reveal_viewer::panels::{
    associations_hint, channel_choices, context_menu, first_key_text, key_rows, keys_hint,
    toggle_rows, update_toast, MenuCommand, MenuLine, Platform,
};
use reveal_viewer::settings::{
    settings_baseline, SettingsState, ToggleField, APPEARANCE_FIELDS, UPDATE_FIELDS,
};
use reveal_viewer::update::UpdateNotice;

fn state() -> SettingsState {
    SettingsState::new(Configuration::default(), Bindings::default())
}

#[test]
fn the_keys_hint_follows_the_capture() {
    let mut s = state();
    assert_eq!(keys_hint(&s), "Click a shortcut to change it.");
    s.begin_capture(Action::ImgNext);
    assert_eq!(keys_hint(&s), "Press a key for \u{201c}Next Image\u{201d}, or Esc to cancel.");
    s.begin_capture(Action::ImgPrev);
    s.capture_key("d", Modifiers::default());
    assert_eq!(keys_hint(&s), "Rebound. \u{201c}Next Image\u{201d} lost that shortcut.");
}

#[test]
fn every_action_has_a_row_of_keys() {
    let mut s = state();
    let rows = key_rows(&s);
    assert_eq!(rows.len(), ALL_ACTIONS.len());
    for (row, action) in rows.iter().zip(ALL_ACTIONS.iter()) {
        assert_eq!(row.action, *action);
        assert_eq!(row.add_text, "+");
    }
    let next = &rows[2];
    assert_eq!(next.label, "Next Image");
    let texts: Vec<String> = next.chips.iter().map(|c| c.text.clone()).collect();
    let expected: Vec<String> = s.bindings.keys_for(Action::ImgNext).iter().map(format_binding).collect();
    assert_eq!(texts, expected);
    assert_eq!(texts.len(), 3);
    assert!(!next.unassigned);

    s.bindings.clear_action(Action::ZoomIn);
    let rows = key_rows(&s);
    let zoom = rows.iter().find(|r| r.action == Action::ZoomIn).unwrap();
    assert!(zoom.unassigned);
    s.begin_capture(Action::ZoomIn);
    let rows = key_rows(&s);
    let zoom = rows.iter().find(|r| r.action == Action::ZoomIn).unwrap();
    assert!(zoom.adding && !zoom.unassigned);
    assert_eq!(zoom.add_text, "Press a key\u{2026}");

    let d = Binding::parse("d").unwrap();
    s.begin_recapture(Action::ImgNext, d.clone());
    let rows = key_rows(&s);
    let chip = rows[2].chips.iter().find(|c| c.binding == d).unwrap();
    assert!(chip.capturing);
    assert_eq!(chip.text, "Press a key\u{2026}");
}

#[test]
fn update_notices_read_as_the_window_shows_them() {
    let t = update_toast(&UpdateNotice::Available { version: "0.2.0".to_string() }, Channel::Beta, false);
    assert_eq!(t.title, "Update available");
    assert_eq!(t.body, "Version 0.2.0 is ready to install (beta channel).");
    assert_eq!(t.buttons, vec![("Don\u{2019}t show again", false), ("Close", false), ("Update", true)]);
    let busy = update_toast(&UpdateNotice::Available { version: "0.2.0".to_string() }, Channel::Stable, true);
    assert_eq!(busy.buttons[2], ("Updating\u{2026}", true));
    assert!(busy.body.contains("(stable channel)"));

    let t = update_toast(&UpdateNotice::Installed { version: "0.2.0".to_string() }, Channel::Stable, false);
    assert_eq!(t.body, "Version 0.2.0 will be used the next time you start Reveal.");
    assert_eq!(t.buttons, vec![("OK", true)]);

    let t = update_toast(
        &UpdateNotice::Upgraded { from: Some("0.1.0".to_string()), to: "0.2.0".to_string() },
        Channel::Stable,
        false,
    );
    assert_eq!(t.title, "Welcome to Reveal 0.2.0");
    assert_eq!(t.body, "Updated from 0.1.0 to 0.2.0.");
    assert_eq!(t.link.as_deref(), Some("https://github.com/knst0/reveal/releases/tag/v0.2.0"));
    let t = update_toast(&UpdateNotice::Upgraded { from: None, to: "0.2.0".to_string() }, Channel::Stable, false);
    assert_eq!(t.body, "Updated to 0.2.0.");
}

#[test]
fn the_context_menu_lists_its_entries() {
    let b = Bindings::default();
    let menu = context_menu(&b, false, false, false);
    let labels: Vec<&str> = menu
        .iter()
        .map(|l| match l {
            MenuLine::Entry(e) => e.label,
            MenuLine::Separator => "-",
        })
        .collect();
    assert_eq!(
        labels,
        vec![
            "Next Image", "Previous Image", "-", "Fit to Window", "Fit Best", "Original Size",
            "Zoom In", "Zoom Out", "-", "Copy Image", "Reveal in Folder", "-", "Toggle Fullscreen",
            "Toggle Theme", "Toggle Status Bar", "Settings\u{2026}", "-", "Move to Trash",
        ]
    );
    match &menu[0] {
        MenuLine::Entry(e) => {
            assert!(e.disabled);
            assert_eq!(e.keys, first_key_text(&b, Action::ImgNext));
            assert_eq!(e.command, MenuCommand::Run(Action::ImgNext));
        }
        MenuLine::Separator => panic!("expected an entry"),
    }
    match menu.last().unwrap() {
        MenuLine::Entry(e) => assert!(e.danger && e.disabled),
        MenuLine::Separator => panic!("expected an entry"),
    }
    let playing = context_menu(&b, true, true, true);
    assert_eq!(playing.len(), menu.len() + 2);
    match &playing[9] {
        MenuLine::Entry(e) => {
            assert_eq!(e.label, "Pause Animation");
            assert!(!e.disabled);
        }
        MenuLine::Separator => panic!("expected an entry"),
    }
}

#[test]
fn preferences_show_their_state() {
    let mut config = Configuration::default();
    config.updates.check = false;
    let rows = toggle_rows(&APPEARANCE_FIELDS, &config);
    assert_eq!(rows.len(), 4);
    assert_eq!(rows[0].label, "Dark theme");
    assert_eq!(rows[0].state_text, if config.window.dark { "On" } else { "Off" });
    let updates = toggle_rows(&UPDATE_FIELDS, &config);
    assert_eq!(updates[0].field, ToggleField::UpdateCheck);
    assert_eq!(updates[0].state_text, "Off");
    assert!(!updates[1].enabled);
    let choices = channel_choices(Channel::Beta);
    assert_eq!(choices, vec![(Channel::Stable, "Stable", false), (Channel::Beta, "Beta", true)]);
    assert_eq!(associations_hint(Platform::Linux), "Claim the supported image types via xdg-mime.");
}

#[test]
fn the_settings_window_opens_with_the_preferences_in_force() {
    let config = Configuration::default();
    let updates = Updates { check: false, auto_install: false, channel: Channel::Beta };
    let c = settings_baseline(config.clone(), false, false, updates.clone());
    assert!(!c.window.dark);
    assert!(!c.window.antialias);
    assert_eq!(c.window.show_bottom_bar, config.window.show_bottom_bar);
    assert_eq!(c.updates, updates);
    assert_eq!(c.title, config.title);
}
