use reveal_viewer::config::Configuration;
use reveal_viewer::input::{Action, Binding, Bindings, Modifiers};
use reveal_viewer::settings::{SettingsState, ToggleField};

fn state() -> SettingsState {
    SettingsState::new(Configuration::default(), Bindings::default())
}

#[test]
fn toggling_a_field_marks_state_dirty() {
    let mut s = state();
    assert!(!s.is_dirty());
    s.toggle(ToggleField::Dark);
    assert!(!s.config.window.dark);
    assert!(s.is_dirty());
}

#[test]
fn disabling_update_check_also_clears_auto_install() {
    let mut s = state();
    s.config.updates.auto_install = true;
    s.toggle(ToggleField::UpdateCheck);
    assert!(!s.config.updates.check);
    assert!(!s.config.updates.auto_install);
}

#[test]
fn auto_install_is_locked_while_checks_are_off() {
    let mut s = state();
    s.config.updates.check = false;
    s.toggle(ToggleField::UpdateAutoInstall);
    assert!(!s.config.updates.auto_install);
}

#[test]
fn capturing_a_key_adds_a_binding_without_dropping_the_others() {
    let mut s = state();
    s.begin_capture(Action::ImgNext);
    assert!(s.capture_key("k", Modifiers::default()));
    assert_eq!(s.bindings.action_for("k", Modifiers::default()), Some(Action::ImgNext));
    assert_eq!(s.bindings.action_for("d", Modifiers::default()), Some(Action::ImgNext));
}

#[test]
fn recapturing_replaces_only_the_selected_binding() {
    let mut s = state();
    s.begin_capture(Action::ImgNext);
    s.capture_key("k", Modifiers::default());
    let existing = Binding { key: "d".to_owned(), modifiers: Modifiers::default() };
    s.begin_recapture(Action::ImgNext, existing);
    s.capture_key("m", Modifiers::default());
    assert_eq!(s.bindings.action_for("d", Modifiers::default()), None);
    assert_eq!(s.bindings.action_for("m", Modifiers::default()), Some(Action::ImgNext));
    assert_eq!(s.bindings.action_for("k", Modifiers::default()), Some(Action::ImgNext));
}

#[test]
fn removing_one_binding_keeps_the_rest() {
    let mut s = state();
    s.begin_capture(Action::ImgNext);
    s.capture_key("k", Modifiers::default());
    s.remove_binding(&Binding { key: "k".to_owned(), modifiers: Modifiers::default() });
    assert_eq!(s.bindings.action_for("k", Modifiers::default()), None);
    assert_eq!(s.bindings.action_for("d", Modifiers::default()), Some(Action::ImgNext));
}

#[test]
fn capture_reports_when_another_action_is_displaced() {
    let mut s = state();
    s.begin_capture(Action::ImgNext);
    s.capture_key("f", Modifiers::default());
    assert_eq!(s.displaced, Some(Action::ImgFit));
    assert_eq!(s.bindings.action_for("f", Modifiers::default()), Some(Action::ImgNext));
}

#[test]
fn escape_cancels_capture_without_rebinding() {
    let mut s = state();
    s.begin_capture(Action::ImgNext);
    s.capture_key("escape", Modifiers::default());
    assert!(s.capturing.is_none());
    assert_eq!(s.bindings.action_for("d", Modifiers::default()), Some(Action::ImgNext));
}

#[test]
fn modifier_only_presses_do_not_end_capture() {
    let mut s = state();
    s.begin_capture(Action::ImgNext);
    s.capture_key("shift", Modifiers { shift: true, ..Default::default() });
    assert_eq!(s.capturing.map(|t| t.action), Some(Action::ImgNext));
}

#[test]
fn overrides_are_only_written_when_bindings_changed() {
    let mut s = state();
    assert!(!s.bindings.differs_from_defaults());
    s.begin_capture(Action::ImgNext);
    s.capture_key("k", Modifiers::default());
    assert!(s.bindings.differs_from_defaults());
}

#[test]
fn resetting_bindings_restores_defaults() {
    let mut s = state();
    s.begin_capture(Action::ImgNext);
    s.capture_key("k", Modifiers::default());
    s.reset_bindings();
    assert!(!s.bindings.differs_from_defaults());
}

#[test]
fn saving_writes_overrides_only_after_a_change() {
    let mut s = state();
    s.persist();
    assert!(s.config.bindings.is_none());
    s.begin_capture(Action::ImgNext);
    s.capture_key("k", Modifiers::default());
    s.persist();
    let overrides = s.config.bindings.clone().unwrap();
    assert_eq!(overrides.len(), 25);
    assert_eq!(overrides[0].0, "escape");
    let next = overrides.iter().find(|(name, _)| name == "img_next").unwrap();
    assert_eq!(next.1, vec!["d".to_owned(), "k".to_owned(), "pagedown".to_owned(), "right".to_owned()]);
    s.finish_save(&Err("disk full".to_string()));
    assert!(s.is_dirty());
    assert_eq!(s.notice.as_deref(), Some("Could not save: disk full"));
    s.finish_save(&Ok(()));
    assert!(!s.is_dirty());
    assert_eq!(s.notice.as_deref(), Some("Settings saved."));
}

#[test]
fn channel_change_only_counts_when_different() {
    let mut s = state();
    s.set_channel(reveal_viewer::config::Channel::Stable);
    assert!(!s.is_dirty());
    s.set_channel(reveal_viewer::config::Channel::Beta);
    assert!(s.is_dirty());
}
