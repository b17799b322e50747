//! What the window does with a key or a menu action: the state of its
//! menus and prompts, and the command it hands to the viewer.
use vstd::prelude::*;

use crate::actions::Theme;
use crate::directory::{law_next_then_prev, name_key, nav_step, Navigation};
use crate::input::Action;
use crate::playback::PlaybackState;
use crate::render::FitMode;
use crate::text::{concat, decimal, decimal_string};

verus! {

/// The state of the window's menus and prompts.
#[derive(Debug, Clone, Copy, PartialEq, Eq, Structural)]
pub struct UiState {
    pub confirm_delete: bool,
    pub context_menu_open: bool,
    pub zoom_menu_open: bool,
    pub settings_open: bool,
    pub theme: Theme,
    pub show_bottom_bar: bool,
}

/// A direction to pan the image in.
#[derive(Debug, Clone, Copy, PartialEq, Eq, Structural)]
pub enum PanDirection {
    Up,
    Down,
    Left,
    Right,
}

/// What the window asks of the viewer and the desktop after an action.
#[derive(Debug, Clone, Copy, PartialEq, Eq, Structural)]
pub enum Command {
    /// The action is not one the window carries out.
    Unhandled,
    Nothing,
    OpenDialog(bool),
    Navigate(Navigation),
    SetFit(FitMode),
    Pan(PanDirection),
    ZoomIn,
    ZoomOut,
    TogglePlay,
    SetPlayback(PlaybackState),
    ToggleFullscreen,
    CopyImage,
    DeleteCurrent,
    ToggleAntialias,
    OpenSettings,
    CloseSettings,
}

/// The state after an action, and the command it gives. Deleting takes two
/// presses in a row; Escape closes the innermost open thing, and pauses
/// when nothing is open.
pub open spec fn after_action(s: UiState, a: Action) -> (UiState, Command) {
    let s1 = UiState {
        confirm_delete: if a == Action::ImgDel {
            s.confirm_delete
        } else {
            false
        },
        context_menu_open: if a == Action::Escape {
            s.context_menu_open
        } else {
            false
        },
        ..s
    };
    match a {
        Action::FileOpen => (s1, Command::OpenDialog(false)),
        Action::FolderOpen => (s1, Command::OpenDialog(true)),
        Action::ImgNext => (s1, Command::Navigate(Navigation::Next)),
        Action::ImgPrev => (s1, Command::Navigate(Navigation::Prev)),
        Action::ImgOrig => (s1, Command::SetFit(FitMode::Original)),
        Action::ImgFit => (s1, Command::SetFit(FitMode::Fit)),
        Action::ImgFitBest => (s1, Command::SetFit(FitMode::FitBest)),
        Action::PanUp => (s1, Command::Pan(PanDirection::Up)),
        Action::PanDown => (s1, Command::Pan(PanDirection::Down)),
        Action::PanLeft => (s1, Command::Pan(PanDirection::Left)),
        Action::PanRight => (s1, Command::Pan(PanDirection::Right)),
        Action::ZoomIn => (s1, Command::ZoomIn),
        Action::ZoomOut => (s1, Command::ZoomOut),
        Action::PlayAnim => (s1, Command::TogglePlay),
        Action::PlayPresent => (s1, Command::SetPlayback(PlaybackState::Present)),
        Action::PlayPresentRandom => (s1, Command::SetPlayback(PlaybackState::PresentRandom)),
        Action::ToggleFullscreen => (s1, Command::ToggleFullscreen),
        Action::ImgCopy => (s1, Command::CopyImage),
        Action::ImgPaste => (s1, Command::Unhandled),
        Action::ImgDel => if s1.confirm_delete {
            (UiState { confirm_delete: false, ..s1 }, Command::DeleteCurrent)
        } else {
            (UiState { confirm_delete: true, ..s1 }, Command::Nothing)
        },
        Action::ToggleAntialias => (s1, Command::ToggleAntialias),
        Action::ToggleTheme => (UiState { theme: s1.theme.other(), ..s1 }, Command::Nothing),
        Action::ToggleBottomBar => (
            UiState { show_bottom_bar: !s1.show_bottom_bar, ..s1 },
            Command::Nothing,
        ),
        Action::Settings => if s1.settings_open {
            (UiState { settings_open: false, ..s1 }, Command::CloseSettings)
        } else {
            (UiState { settings_open: true, ..s1 }, Command::OpenSettings)
        },
        Action::Escape => if s1.context_menu_open {
            (UiState { context_menu_open: false, ..s1 }, Command::Nothing)
        } else if s1.zoom_menu_open {
            (UiState { zoom_menu_open: false, ..s1 }, Command::Nothing)
        } else if s1.settings_open {
            (UiState { settings_open: false, ..s1 }, Command::CloseSettings)
        } else {
            (s1, Command::SetPlayback(PlaybackState::Paused))
        },
    }
}

/// Carries out an action on the window's state and gives the command for
/// the viewer.
pub fn apply_action(state: &mut UiState, action: Action) -> (r: Command)
    ensures
        (*final(state), r) == after_action(*old(state), action),
{
    if action != Action::ImgDel {
        state.confirm_delete = false;
    }
    if action != Action::Escape {
        state.context_menu_open = false;
    }
    match action {
        Action::FileOpen => Command::OpenDialog(false),
        Action::FolderOpen => Command::OpenDialog(true),
        Action::ImgNext => Command::Navigate(Navigation::Next),
        Action::ImgPrev => Command::Navigate(Navigation::Prev),
        Action::ImgOrig => Command::SetFit(FitMode::Original),
        Action::ImgFit => Command::SetFit(FitMode::Fit),
        Action::ImgFitBest => Command::SetFit(FitMode::FitBest),
        Action::PanUp => Command::Pan(PanDirection::Up),
        Action::PanDown => Command::Pan(PanDirection::Down),
        Action::PanLeft => Command::Pan(PanDirection::Left),
        Action::PanRight => Command::Pan(PanDirection::Right),
        Action::ZoomIn => Command::ZoomIn,
        Action::ZoomOut => Command::ZoomOut,
        Action::PlayAnim => Command::TogglePlay,
        Action::PlayPresent => Command::SetPlayback(PlaybackState::Present),
        Action::PlayPresentRandom => Command::SetPlayback(PlaybackState::PresentRandom),
        Action::ToggleFullscreen => Command::ToggleFullscreen,
        Action::ImgCopy => Command::CopyImage,
        Action::ImgPaste => Command::Unhandled,
        Action::ImgDel => {
            if state.confirm_delete {
                state.confirm_delete = false;
                Command::DeleteCurrent
            } else {
                state.confirm_delete = true;
                Command::Nothing
            }
        },
        Action::ToggleAntialias => Command::ToggleAntialias,
        Action::ToggleTheme => {
            state.theme = state.theme.toggled();
            Command::Nothing
        },
        Action::ToggleBottomBar => {
            state.show_bottom_bar = !state.show_bottom_bar;
            Command::Nothing
        },
        Action::Settings => {
            if state.settings_open {
                state.settings_open = false;
                Command::CloseSettings
            } else {
                state.settings_open = true;
                Command::OpenSettings
            }
        },
        Action::Escape => {
            if state.context_menu_open {
                state.context_menu_open = false;
                Command::Nothing
            } else if state.zoom_menu_open {
                state.zoom_menu_open = false;
                Command::Nothing
            } else if state.settings_open {
                state.settings_open = false;
                Command::CloseSettings
            } else {
                Command::SetPlayback(PlaybackState::Paused)
            }
        },
    }
}

/// Where a key press goes.
#[derive(Debug, Clone, Copy, PartialEq, Eq, Structural)]
pub enum KeyRoute {
    /// The settings window is waiting for a key to bind.
    Capture,
    /// The key does nothing now.
    Ignore,
    /// The key runs its action.
    Run(Action),
}

/// Where a key press goes: to the binding being captured, else to its
/// action, though while the settings are open only Escape and Settings run.
pub open spec fn key_route(capturing: bool, settings_open: bool, bound: Option<Action>) -> KeyRoute {
    if capturing {
        KeyRoute::Capture
    } else {
        match bound {
            None => KeyRoute::Ignore,
            Some(a) => if settings_open && a != Action::Escape && a != Action::Settings {
                KeyRoute::Ignore
            } else {
                KeyRoute::Run(a)
            },
        }
    }
}

pub fn route_key(capturing: bool, settings_open: bool, bound: Option<Action>) -> (r: KeyRoute)
    ensures
        r == key_route(capturing, settings_open, bound),
{
    if capturing {
        return KeyRoute::Capture;
    }
    match bound {
        None => KeyRoute::Ignore,
        Some(a) => {
            if settings_open && a != Action::Escape && a != Action::Settings {
                KeyRoute::Ignore
            } else {
                KeyRoute::Run(a)
            }
        },
    }
}

/// The left of the status bar: the delete prompt, else the viewer's status,
/// else the file name of the image shown, else `No image`.
pub open spec fn left_status_text(confirm_delete: bool, status: Option<Seq<char>>, current: Option<Seq<char>>) -> Seq<char> {
    if confirm_delete {
        "Delete to trash? Press Delete again to confirm, Esc to cancel"@
    } else {
        match status {
            Some(s) => s,
            None => match current {
                Some(p) => name_key(p),
                None => "No image"@,
            },
        }
    }
}

pub fn left_status(confirm_delete: bool, status: Option<&str>, current: Option<&str>) -> (r: String)
    ensures
        r@ == left_status_text(
            confirm_delete,
            match status {
                Some(s) => Some(s@),
                None => None,
            },
            match current {
                Some(p) => Some(p@),
                None => None,
            },
        ),
{
    if confirm_delete {
        return String::from_str("Delete to trash? Press Delete again to confirm, Esc to cancel");
    }
    if let Some(s) = status {
        return String::from_str(s);
    }
    match current {
        Some(p) => match crate::paths::file_name_of(p) {
            Some(n) => n,
            None => String::new(),
        },
        None => String::from_str("No image"),
    }
}

/// The position of the image shown, as `3 of 12`, when one is shown.
pub fn position_label(shown: bool, index: usize, len: usize) -> (r: Option<String>)
    requires
        index < u64::MAX,
        len <= u64::MAX,
    ensures
        shown ==> (r matches Some(t) && t@ == decimal((index + 1) as nat) + " of "@ + decimal(
            (if len > 1 {
                len
            } else {
                1
            }) as nat,
        )),
        !shown ==> r is None,
{
    if !shown {
        return None;
    }
    let a = decimal_string((index as u64) + 1);
    let total: u64 = if len > 1 {
        len as u64
    } else {
        1
    };
    let b = concat(a.as_str(), " of ");
    let c = decimal_string(total);
    Some(concat(b.as_str(), c.as_str()))
}

/// The size of the image shown, as `640 × 480`, when it has one.
pub fn dimensions_label(width: u32, height: u32) -> (r: Option<String>)
    ensures
        (width > 0 && height > 0) ==> (r matches Some(t) && t@ == decimal(width as nat)
            + " \u{d7} "@ + decimal(height as nat)),
        !(width > 0 && height > 0) ==> r is None,
{
    if width == 0 || height == 0 {
        return None;
    }
    let a = decimal_string(width as u64);
    let b = concat(a.as_str(), " \u{d7} ");
    let c = decimal_string(height as u64);
    Some(concat(b.as_str(), c.as_str()))
}

/// The next-image action steps one place on and the previous-image action
/// one place back, whatever the state of the window: stepping as one asks
/// and then as the other asks, in either order, comes back to the image
/// shown in a listing of any length.
pub proof fn law_prev_undoes_next(s: UiState, t: UiState, position: int, len: int)
    requires
        0 <= position < len,
    ensures
        after_action(s, Action::ImgNext).1 matches Command::Navigate(n) && nav_step(n) == 1,
        after_action(t, Action::ImgPrev).1 matches Command::Navigate(n) && nav_step(n) == -1,
        ({
            let on = nav_step(after_action(s, Action::ImgNext).1->Navigate_0);
            let back = nav_step(after_action(t, Action::ImgPrev).1->Navigate_0);
            &&& ((position + on) % len + back) % len == position
            &&& ((position + back) % len + on) % len == position
        }),
{
    law_next_then_prev(position, len);
}

/// Deleting needs two presses of the delete action in a row: the first only
/// asks, the second deletes, and any other action in between cancels.
pub proof fn law_delete_needs_confirmation(s: UiState, other: Action)
    requires
        other != Action::ImgDel,
        !s.confirm_delete,
    ensures
        after_action(s, Action::ImgDel).1 == Command::Nothing,
        after_action(after_action(s, Action::ImgDel).0, Action::ImgDel).1 == Command::DeleteCurrent,
        after_action(after_action(after_action(s, Action::ImgDel).0, other).0, Action::ImgDel).1
            == Command::Nothing,
{
}

} // verus!
