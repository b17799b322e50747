use reveal_viewer::config::CommandDefinition;
use reveal_viewer::input::{
    expand_template, resolve_command, Action, Binding, Bindings, Modifiers, TemplateContext,
    ALL_ACTIONS,
};

fn mods(alt: bool, cmd_ctrl: bool, shift: bool) -> Modifiers {
    Modifiers { alt, cmd_ctrl, shift }
}

#[test]
fn binding_texts_are_read_without_case_or_spaces() {
    let b = Binding::parse(" CmdCtrl + Shift + O ").unwrap();
    assert_eq!(b.key, "o");
    assert_eq!(b.modifiers, mods(false, true, true));
    assert_eq!(Binding::parse("ctrl+alt+x").unwrap().modifiers, mods(true, true, false));
    assert_eq!(Binding::parse("cmd+x").unwrap().modifiers, mods(false, true, false));
    assert!(Binding::parse("shift+").is_none());
    assert!(Binding::parse("").is_none());
}

#[test]
fn binding_texts_round_trip() {
    for text in ["CmdCtrl+alt+shift+f5", "a", "shift+left", "CmdCtrl+o"] {
        let b = Binding::parse(text).unwrap();
        assert_eq!(b.to_config_string(), text);
        assert_eq!(Binding::parse(&b.to_config_string()), Some(b));
    }
}

#[test]
fn action_names_round_trip() {
    for a in ALL_ACTIONS {
        assert_eq!(Action::from_name(a.name()), Some(a));
    }
    assert_eq!(Action::from_name("img_next"), Some(Action::ImgNext));
    assert_eq!(Action::from_name("no_such_action"), None);
}

#[test]
fn default_bindings_find_their_actions() {
    let b = Bindings::default();
    assert_eq!(b.action_for("Right", Modifiers::default()), Some(Action::ImgNext));
    assert_eq!(b.action_for("left", mods(false, false, true)), Some(Action::PanLeft));
    assert_eq!(b.action_for("o", mods(false, true, false)), Some(Action::FileOpen));
    assert_eq!(b.action_for("o", mods(false, true, true)), Some(Action::FolderOpen));
    assert_eq!(b.action_for("z", Modifiers::default()), None);
    assert_eq!(b.keys_for(Action::ImgNext).len(), 3);
}

#[test]
fn binding_a_taken_key_moves_it() {
    let mut b = Bindings::default();
    let d = Binding::parse("d").unwrap();
    assert_eq!(b.set_binding(Action::ImgPrev, d), Some(Action::ImgNext));
    assert_eq!(b.action_for("d", Modifiers::default()), Some(Action::ImgPrev));
    assert_eq!(b.keys_for(Action::ImgNext).len(), 2);
    assert!(b.differs_from_defaults());
    b.reset_to_defaults();
    assert!(!b.differs_from_defaults());
}

#[test]
fn rebinding_replaces_every_key_of_the_action() {
    let mut b = Bindings::default();
    assert_eq!(b.rebind(Action::ImgNext, Binding::parse("n").unwrap()), None);
    assert_eq!(b.keys_for(Action::ImgNext), vec![Binding::parse("n").unwrap()]);
    assert_eq!(b.action_for("right", Modifiers::default()), None);
}

#[test]
fn overrides_survive_a_round_trip() {
    let mut b = Bindings::default();
    b.clear_action(Action::ZoomIn);
    let overrides = b.to_overrides();
    let mut c = Bindings::default();
    c.apply_overrides(&overrides);
    assert!(c.keys_for(Action::ZoomIn).is_empty());
    assert_eq!(c.to_overrides(), overrides);
}

#[test]
fn templates_fill_their_placeholders() {
    let ctx = TemplateContext { file_path: "/p/a.png", folder_path: "/p", file_name: "a.png" };
    assert_eq!(expand_template("open ${file} in ${folder} (${name})", &ctx), "open /p/a.png in /p (a.png)");
    let def = CommandDefinition {
        input: vec![],
        program: "edit".to_string(),
        args: vec!["--in".to_string(), "${file}".to_string()],
        envs: vec![("DIR".to_string(), "${folder}".to_string())],
    };
    let r = resolve_command(&def, &ctx);
    assert_eq!(r.program, "edit");
    assert_eq!(r.args, vec!["--in".to_string(), "/p/a.png".to_string()]);
    assert_eq!(r.envs, vec![("DIR".to_string(), "/p".to_string())]);
}

#[test]
fn a_removed_binding_reads_as_unbound() {
    let mut b = Bindings::default();
    b.remove_binding(&Binding::parse("d").unwrap());
    assert_eq!(b.action_for("d", Modifiers::default()), None);
    assert_eq!(b.action_for("right", Modifiers::default()), Some(Action::ImgNext));
    assert_eq!(b.action_for("a", Modifiers::default()), Some(Action::ImgPrev));
}

#[test]
fn a_table_own_overrides_rebuild_it_over_any_table() {
    let mut b = Bindings::default();
    b.rebind(Action::ImgNext, Binding::parse("n").unwrap());
    b.set_binding(Action::ZoomIn, Binding::parse("alt+z").unwrap());
    let mut c = Bindings::default();
    c.set_binding(Action::Escape, Binding::parse("n").unwrap());
    c.clear_action(Action::PanUp);
    c.apply_overrides(&b.to_overrides());
    for a in ALL_ACTIONS {
        assert_eq!(c.keys_for(a), b.keys_for(a));
    }
}

#[test]
fn unknown_names_read_as_no_action() {
    assert_eq!(Action::from_name("bogus"), None);
    assert_eq!(Action::from_name("File_Open"), None);
    let names: std::collections::HashSet<&str> = ALL_ACTIONS.iter().map(|a| a.name()).collect();
    assert_eq!(names.len(), ALL_ACTIONS.len());
}
