//! The texts the interface shows for windows, keys and actions.
use vstd::prelude::*;

use crate::directory::name_key;
use crate::input::{Action, Binding, Modifiers};
use crate::text::{char_uppercase, chars_of, concat, same_text, string_of, uppercase_of};

verus! {

/// The application's name.
pub const APP_NAME: &'static str = "Reveal";

/// The window title: the file name and the application's name, or the
/// application's name alone when nothing is open.
pub open spec fn title_text(path: Option<Seq<char>>) -> Seq<char> {
    match path {
        Some(p) => name_key(p) + " \u{2014} "@ + APP_NAME@,
        None => APP_NAME@,
    }
}

pub fn title_for(path: Option<&str>) -> (r: String)
    ensures
        r@ == title_text(
            match path {
                Some(p) => Some(p@),
                None => None,
            },
        ),
{
    match path {
        Some(p) => {
            let name = match crate::paths::file_name_of(p) {
                Some(n) => n,
                None => String::new(),
            };
            let with_dash = concat(name.as_str(), " \u{2014} ");
            concat(with_dash.as_str(), APP_NAME)
        },
        None => String::from_str(APP_NAME),
    }
}

/// How a key is shown: arrows as arrow glyphs, some keys by their usual
/// abbreviations, and any other key with its first character upper-cased.
pub open spec fn key_label(k: Seq<char>) -> Seq<char> {
    if k == "left"@ {
        "\u{2190}"@
    } else if k == "right"@ {
        "\u{2192}"@
    } else if k == "up"@ {
        "\u{2191}"@
    } else if k == "down"@ {
        "\u{2193}"@
    } else if k == "return"@ {
        "Enter"@
    } else if k == "escape"@ {
        "Esc"@
    } else if k == "pagedown"@ {
        "PgDn"@
    } else if k == "pageup"@ {
        "PgUp"@
    } else if k == "delete"@ {
        "Del"@
    } else if k == "plus"@ {
        "+"@
    } else if k == "minus"@ {
        "-"@
    } else if k == "space"@ {
        "Space"@
    } else if k.len() == 0 {
        Seq::empty()
    } else {
        char_uppercase(k[0]) + k.drop_first()
    }
}

pub fn pretty_key(key: &str) -> (r: String)
    ensures
        r@ == key_label(key@),
{
    if same_text(key, "left") {
        String::from_str("\u{2190}")
    } else if same_text(key, "right") {
        String::from_str("\u{2192}")
    } else if same_text(key, "up") {
        String::from_str("\u{2191}")
    } else if same_text(key, "down") {
        String::from_str("\u{2193}")
    } else if same_text(key, "return") {
        String::from_str("Enter")
    } else if same_text(key, "escape") {
        String::from_str("Esc")
    } else if same_text(key, "pagedown") {
        String::from_str("PgDn")
    } else if same_text(key, "pageup") {
        String::from_str("PgUp")
    } else if same_text(key, "delete") {
        String::from_str("Del")
    } else if same_text(key, "plus") {
        String::from_str("+")
    } else if same_text(key, "minus") {
        String::from_str("-")
    } else if same_text(key, "space") {
        String::from_str("Space")
    } else {
        let cs = chars_of(key);
        if cs.len() == 0 {
            return String::new();
        }
        let first = uppercase_of(cs[0]);
        let mut rest: Vec<char> = Vec::new();
        let mut i: usize = 1;
        while i < cs.len()
            invariant
                1 <= i <= cs@.len(),
                rest@ == cs@.subrange(1, i as int),
            decreases cs@.len() - i,
        {
            rest.push(cs[i]);
            proof {
                assert(cs@.subrange(1, i + 1) =~= cs@.subrange(1, i as int).push(cs@[i as int]));
            }
            i = i + 1;
        }
        assert(rest@ =~= key@.drop_first());
        let tail = string_of(rest.as_slice());
        concat(first.as_str(), tail.as_str())
    }
}

/// The modifier prefixes of a binding, in the order Ctrl, Alt, Shift.
pub open spec fn modifier_prefix(m: Modifiers) -> Seq<char> {
    (if m.cmd_ctrl {
        "Ctrl+"@
    } else {
        Seq::empty()
    }) + (if m.alt {
        "Alt+"@
    } else {
        Seq::empty()
    }) + (if m.shift {
        "Shift+"@
    } else {
        Seq::empty()
    })
}

/// How a binding is shown, such as `Ctrl+Shift+O`.
pub open spec fn binding_label(key: Seq<char>, m: Modifiers) -> Seq<char> {
    modifier_prefix(m) + key_label(key)
}

pub fn format_binding(binding: &Binding) -> (r: String)
    ensures
        r@ == binding_label(binding.key@, binding.modifiers),
{
    let mut s = String::new();
    if binding.modifiers.cmd_ctrl {
        s = concat(s.as_str(), "Ctrl+");
    }
    if binding.modifiers.alt {
        s = concat(s.as_str(), "Alt+");
    }
    if binding.modifiers.shift {
        s = concat(s.as_str(), "Shift+");
    }
    assert(s@ =~= modifier_prefix(binding.modifiers));
    let k = pretty_key(binding.key.as_str());
    concat(s.as_str(), k.as_str())
}

/// The menu label of an action.
pub open spec fn action_text(a: Action) -> Seq<char> {
    match a {
        Action::FileOpen => "Open Image"@,
        Action::FolderOpen => "Open Folder"@,
        Action::ImgNext => "Next Image"@,
        Action::ImgPrev => "Previous Image"@,
        Action::ImgOrig => "Original Size"@,
        Action::ImgFit => "Fit to Window"@,
        Action::ImgFitBest => "Fit Best"@,
        Action::ImgDel => "Move to Trash"@,
        Action::ImgCopy => "Copy Image"@,
        Action::ImgPaste => "Paste Image"@,
        Action::PanUp => "Pan Up"@,
        Action::PanDown => "Pan Down"@,
        Action::PanLeft => "Pan Left"@,
        Action::PanRight => "Pan Right"@,
        Action::ZoomIn => "Zoom In"@,
        Action::ZoomOut => "Zoom Out"@,
        Action::PlayAnim => "Play / Pause Animation"@,
        Action::PlayPresent => "Start Slideshow"@,
        Action::PlayPresentRandom => "Start Random Slideshow"@,
        Action::ToggleFullscreen => "Toggle Fullscreen"@,
        Action::ToggleAntialias => "Toggle Smoothing"@,
        Action::ToggleTheme => "Toggle Theme"@,
        Action::ToggleBottomBar => "Toggle Status Bar"@,
        Action::Settings => "Settings"@,
        Action::Escape => "Cancel / Close"@,
    }
}

pub fn action_label(action: Action) -> (r: &'static str)
    ensures
        r@ == action_text(action),
{
    match action {
        Action::FileOpen => "Open Image",
        Action::FolderOpen => "Open Folder",
        Action::ImgNext => "Next Image",
        Action::ImgPrev => "Previous Image",
        Action::ImgOrig => "Original Size",
        Action::ImgFit => "Fit to Window",
        Action::ImgFitBest => "Fit Best",
        Action::ImgDel => "Move to Trash",
        Action::ImgCopy => "Copy Image",
        Action::ImgPaste => "Paste Image",
        Action::PanUp => "Pan Up",
        Action::PanDown => "Pan Down",
        Action::PanLeft => "Pan Left",
        Action::PanRight => "Pan Right",
        Action::ZoomIn => "Zoom In",
        Action::ZoomOut => "Zoom Out",
        Action::PlayAnim => "Play / Pause Animation",
        Action::PlayPresent => "Start Slideshow",
        Action::PlayPresentRandom => "Start Random Slideshow",
        Action::ToggleFullscreen => "Toggle Fullscreen",
        Action::ToggleAntialias => "Toggle Smoothing",
        Action::ToggleTheme => "Toggle Theme",
        Action::ToggleBottomBar => "Toggle Status Bar",
        Action::Settings => "Settings",
        Action::Escape => "Cancel / Close",
    }
}

/// What the settings window shows for a location: the path, or
/// `Unavailable` when there is none.
pub fn path_label(path: Option<String>) -> (r: String)
    ensures
        r@ == (match path {
            Some(p) => p@,
            None => "Unavailable"@,
        }),
{
    match path {
        Some(p) => p,
        None => String::from_str("Unavailable"),
    }
}

} // verus!
