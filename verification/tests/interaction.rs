use reveal_viewer::actions::Theme;
use reveal_viewer::directory::Navigation;
use reveal_viewer::input::Action;
use reveal_viewer::interaction::{
    apply_action, dimensions_label, left_status, position_label, route_key, Command, KeyRoute,
    UiState,
};
use reveal_viewer::playback::PlaybackState;
use reveal_viewer::render::FitMode;

fn idle() -> UiState {
    UiState {
        confirm_delete: false,
        context_menu_open: false,
        zoom_menu_open: false,
        settings_open: false,
        theme: Theme::Dark,
        show_bottom_bar: true,
    }
}

#[test]
fn delete_needs_a_second_press() {
    let mut s = idle();
    assert_eq!(apply_action(&mut s, Action::ImgDel), Command::Nothing);
    assert!(s.confirm_delete);
    assert_eq!(apply_action(&mut s, Action::ImgDel), Command::DeleteCurrent);
    assert!(!s.confirm_delete);
}

#[test]
fn another_action_cancels_a_pending_delete() {
    let mut s = idle();
    apply_action(&mut s, Action::ImgDel);
    assert_eq!(apply_action(&mut s, Action::ImgNext), Command::Navigate(Navigation::Next));
    assert!(!s.confirm_delete);
    assert_eq!(apply_action(&mut s, Action::ImgDel), Command::Nothing);
}

#[test]
fn escape_closes_the_innermost_thing_first() {
    let mut s = UiState { context_menu_open: true, zoom_menu_open: true, settings_open: true, ..idle() };
    assert_eq!(apply_action(&mut s, Action::Escape), Command::Nothing);
    assert!(!s.context_menu_open && s.zoom_menu_open);
    assert_eq!(apply_action(&mut s, Action::Escape), Command::Nothing);
    assert!(!s.zoom_menu_open && s.settings_open);
    assert_eq!(apply_action(&mut s, Action::Escape), Command::CloseSettings);
    assert!(!s.settings_open);
    assert_eq!(apply_action(&mut s, Action::Escape), Command::SetPlayback(PlaybackState::Paused));
}

#[test]
fn actions_map_to_viewer_commands() {
    let mut s = idle();
    assert_eq!(apply_action(&mut s, Action::FileOpen), Command::OpenDialog(false));
    assert_eq!(apply_action(&mut s, Action::FolderOpen), Command::OpenDialog(true));
    assert_eq!(apply_action(&mut s, Action::ImgFitBest), Command::SetFit(FitMode::FitBest));
    assert_eq!(apply_action(&mut s, Action::ImgPaste), Command::Unhandled);
    assert_eq!(apply_action(&mut s, Action::ToggleTheme), Command::Nothing);
    assert_eq!(s.theme, Theme::Light);
    assert_eq!(apply_action(&mut s, Action::ToggleBottomBar), Command::Nothing);
    assert!(!s.show_bottom_bar);
    assert_eq!(apply_action(&mut s, Action::Settings), Command::OpenSettings);
    assert_eq!(apply_action(&mut s, Action::Settings), Command::CloseSettings);
}

#[test]
fn keys_go_to_capture_then_to_their_action() {
    assert_eq!(route_key(true, true, Some(Action::ImgNext)), KeyRoute::Capture);
    assert_eq!(route_key(false, false, None), KeyRoute::Ignore);
    assert_eq!(route_key(false, false, Some(Action::ImgNext)), KeyRoute::Run(Action::ImgNext));
    assert_eq!(route_key(false, true, Some(Action::ImgNext)), KeyRoute::Ignore);
    assert_eq!(route_key(false, true, Some(Action::Escape)), KeyRoute::Run(Action::Escape));
}

#[test]
fn status_bar_texts() {
    assert_eq!(left_status(false, None, Some("/pics/cat.png")), "cat.png");
    assert_eq!(left_status(false, Some("Copied"), Some("/pics/cat.png")), "Copied");
    assert_eq!(left_status(false, None, None), "No image");
    assert!(left_status(true, Some("Copied"), None).starts_with("Delete to trash?"));
    assert_eq!(position_label(true, 2, 12), Some("3 of 12".to_string()));
    assert_eq!(position_label(true, 0, 0), Some("1 of 1".to_string()));
    assert_eq!(position_label(false, 2, 12), None);
    assert_eq!(dimensions_label(640, 480), Some("640 \u{d7} 480".to_string()));
    assert_eq!(dimensions_label(0, 480), None);
}
