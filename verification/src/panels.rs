//! What the settings window, the update notice and the context menu show:
//! their texts, which entries they list, and which are on, off or disabled.
//! Drawing them is left to the window.
use vstd::prelude::*;

use crate::config::{Channel, Configuration};
use crate::input::{
    all_actions, all_actions_vec, keys_of, Action, Binding, BindingEntry, BindingKey, Bindings,
};
use crate::labels::{action_label, action_text, binding_label, format_binding};
use crate::paths::opt_text;
use crate::settings::{
    field_description, field_enabled, field_label, field_value, CaptureTarget, SettingsState,
    ToggleField,
};
use crate::text::{ascii_lower, concat, to_ascii_lowercase};
use crate::update::{changelog_text, changelog_url, UpdateNotice};

verus! {

/// The label of an action between curly quotes.
pub open spec fn quoted(a: Action) -> Seq<char> {
    "\u{201c}"@ + action_text(a) + "\u{201d}"@
}

/// The line above the key bindings: what to press while a key is being
/// captured, else the action that just lost its key, else the notice, else
/// how to start.
pub open spec fn keys_hint_text(
    capturing: Option<Action>,
    displaced: Option<Action>,
    notice: Option<Seq<char>>,
) -> Seq<char> {
    match capturing {
        Some(a) => "Press a key for "@ + quoted(a) + ", or Esc to cancel."@,
        None => match displaced {
            Some(o) => "Rebound. "@ + quoted(o) + " lost that shortcut."@,
            None => match notice {
                Some(n) => n,
                None => "Click a shortcut to change it."@,
            },
        },
    }
}

pub open spec fn capture_action(c: Option<CaptureTarget>) -> Option<Action> {
    match c {
        Some(t) => Some(t.action),
        None => None,
    }
}

fn quoted_label(a: Action) -> (r: String)
    ensures
        r@ == quoted(a),
{
    let open = concat("\u{201c}", action_label(a));
    concat(open.as_str(), "\u{201d}")
}

/// The line above the key bindings.
pub fn keys_hint(state: &SettingsState) -> (r: String)
    ensures
        r@ == keys_hint_text(capture_action(state.capturing), state.displaced, opt_text(state.notice)),
{
    match &state.capturing {
        Some(t) => {
            let a = concat("Press a key for ", quoted_label(t.action).as_str());
            concat(a.as_str(), ", or Esc to cancel.")
        },
        None => match state.displaced {
            Some(o) => {
                let a = concat("Rebound. ", quoted_label(o).as_str());
                concat(a.as_str(), " lost that shortcut.")
            },
            None => match &state.notice {
                Some(n) => n.clone(),
                None => String::from_str("Click a shortcut to change it."),
            },
        },
    }
}

/// One key of an action, as the keys tab shows it.
#[derive(Debug, Clone)]
pub struct KeyChip {
    pub binding: Binding,
    pub text: String,
    /// The key is being replaced by the next one pressed.
    pub capturing: bool,
}

/// One action of the keys tab: its keys, and the chip that adds one.
#[derive(Debug, Clone)]
pub struct KeyRow {
    pub action: Action,
    pub label: &'static str,
    pub chips: Vec<KeyChip>,
    /// The action has no key and none is being added.
    pub unassigned: bool,
    /// A key is being added to the action.
    pub adding: bool,
    pub add_text: &'static str,
}

pub open spec fn replacing_key(c: Option<CaptureTarget>, k: BindingKey) -> bool {
    c matches Some(t) && t.replacing matches Some(b) && b@ == k
}

pub open spec fn adding_to(c: Option<CaptureTarget>, a: Action) -> bool {
    c matches Some(t) && t.action == a && t.replacing is None
}

/// The text of a key chip.
pub open spec fn chip_text(c: Option<CaptureTarget>, k: BindingKey) -> Seq<char> {
    if replacing_key(c, k) {
        "Press a key\u{2026}"@
    } else {
        binding_label(k.0, k.1)
    }
}

/// Whether `row` shows action `a` as the keys tab does for `state`.
pub open spec fn row_shows(row: KeyRow, a: Action, state: SettingsState) -> bool {
    let keys = keys_of(state.bindings.table(), a);
    &&& row.action == a
    &&& row.label@ == action_text(a)
    &&& row.chips@.len() == keys.len()
    &&& forall|j: int|
        0 <= j < keys.len() ==> {
            &&& (#[trigger] row.chips@[j]).binding@ == keys[j]
            &&& row.chips@[j].capturing == replacing_key(state.capturing, keys[j])
            &&& row.chips@[j].text@ == chip_text(state.capturing, keys[j])
        }
    &&& row.adding == adding_to(state.capturing, a)
    &&& row.unassigned == (keys.len() == 0 && !row.adding)
    &&& row.add_text@ == if row.adding {
        "Press a key\u{2026}"@
    } else {
        "+"@
    }
}

fn replacing(capturing: &Option<CaptureTarget>, b: &Binding) -> (r: bool)
    ensures
        r == replacing_key(*capturing, b@),
{
    match capturing {
        Some(t) => match &t.replacing {
            Some(x) => crate::input::binding_same(x, b),
            None => false,
        },
        None => false,
    }
}

fn key_row(state: &SettingsState, a: Action) -> (r: KeyRow)
    ensures
        row_shows(r, a, *state),
{
    let keys = state.bindings.keys_for(a);
    let ghost ks = keys_of(state.bindings.table(), a);
    let mut chips: Vec<KeyChip> = Vec::new();
    let mut j: usize = 0;
    while j < keys.len()
        invariant
            j <= keys@.len(),
            keys@.map_values(|b: Binding| b@) == ks,
            chips@.len() == j,
            forall|i: int|
                0 <= i < j ==> {
                    &&& (#[trigger] chips@[i]).binding@ == ks[i]
                    &&& chips@[i].capturing == replacing_key(state.capturing, ks[i])
                    &&& chips@[i].text@ == chip_text(state.capturing, ks[i])
                },
        decreases keys@.len() - j,
    {
        let b = keys[j].duplicate();
        assert(b@ == ks[j as int]);
        let capturing = replacing(&state.capturing, &b);
        let text = if capturing {
            String::from_str("Press a key\u{2026}")
        } else {
            format_binding(&b)
        };
        chips.push(KeyChip { binding: b, text, capturing });
        j = j + 1;
    }
    let adding = match &state.capturing {
        Some(t) => t.action == a && t.replacing.is_none(),
        None => false,
    };
    KeyRow {
        action: a,
        label: action_label(a),
        unassigned: keys.len() == 0 && !adding,
        chips,
        adding,
        add_text: if adding {
            "Press a key\u{2026}"
        } else {
            "+"
        },
    }
}

/// Every action with its keys, in declaration order, as the keys tab lists
/// them.
pub fn key_rows(state: &SettingsState) -> (r: Vec<KeyRow>)
    ensures
        r@.len() == all_actions().len(),
        forall|i: int| 0 <= i < r@.len() ==> row_shows(#[trigger] r@[i], all_actions()[i], *state),
{
    let actions = all_actions_vec();
    let mut rows: Vec<KeyRow> = Vec::new();
    let mut i: usize = 0;
    while i < actions.len()
        invariant
            actions@ == all_actions(),
            i <= actions@.len(),
            rows@.len() == i,
            forall|k: int| 0 <= k < i ==> row_shows(#[trigger] rows@[k], all_actions()[k], *state),
        decreases actions@.len() - i,
    {
        rows.push(key_row(state, actions[i]));
        i = i + 1;
    }
    rows
}

/// A notice in the corner of the window: title, text, its buttons (each
/// with whether it is the main one), and the page the main button opens.
#[derive(Debug, Clone)]
pub struct Toast {
    pub title: String,
    pub body: String,
    pub buttons: Vec<(&'static str, bool)>,
    pub link: Option<String>,
}

pub open spec fn channel_name(c: Channel) -> Seq<char> {
    match c {
        Channel::Stable => "Stable"@,
        Channel::Beta => "Beta"@,
    }
}

pub open spec fn buttons_view(b: Seq<(&'static str, bool)>) -> Seq<(Seq<char>, bool)> {
    b.map_values(|x: (&'static str, bool)| (x.0@, x.1))
}

/// Whether `t` is the notice shown for `notice`, with updates coming from
/// `channel` and an install under way when `busy`.
pub open spec fn toast_shows(t: Toast, notice: UpdateNotice, channel: Channel, busy: bool) -> bool {
    match notice {
        UpdateNotice::Available { version } => {
            &&& t.title@ == "Update available"@
            &&& t.body@ == "Version "@ + version@ + " is ready to install ("@ + ascii_lower(channel_name(channel))
                + " channel)."@
            &&& buttons_view(t.buttons@) == seq![
                ("Don\u{2019}t show again"@, false),
                ("Close"@, false),
                (if busy { "Updating\u{2026}"@ } else { "Update"@ }, true),
            ]
            &&& t.link is None
        },
        UpdateNotice::Installed { version } => {
            &&& t.title@ == "Update installed"@
            &&& t.body@ == "Version "@ + version@ + " will be used the next time you start Reveal."@
            &&& buttons_view(t.buttons@) == seq![("OK"@, true)]
            &&& t.link is None
        },
        UpdateNotice::Upgraded { from, to } => {
            &&& t.title@ == "Welcome to Reveal "@ + to@
            &&& t.body@ == match from {
                Some(f) => "Updated from "@ + f@ + " to "@ + to@ + "."@,
                None => "Updated to "@ + to@ + "."@,
            }
            &&& buttons_view(t.buttons@) == seq![("Close"@, false), ("What\u{2019}s new"@, true)]
            &&& t.link matches Some(l) && l@ == changelog_text(to@)
        },
    }
}

/// The notice shown for an update notice.
pub fn update_toast(notice: &UpdateNotice, channel: Channel, busy: bool) -> (r: Toast)
    ensures
        toast_shows(r, *notice, channel, busy),
{
    match notice {
        UpdateNotice::Available { version } => {
            let a = concat("Version ", version.as_str());
            let b = concat(a.as_str(), " is ready to install (");
            let name = to_ascii_lowercase(channel.label());
            let c = concat(b.as_str(), name.as_str());
            let body = concat(c.as_str(), " channel).");
            let mut buttons: Vec<(&'static str, bool)> = Vec::new();
            buttons.push(("Don\u{2019}t show again", false));
            buttons.push(("Close", false));
            buttons.push(
                (
                    if busy {
                        "Updating\u{2026}"
                    } else {
                        "Update"
                    },
                    true,
                ),
            );
            assert(buttons_view(buttons@) =~= seq![
                ("Don\u{2019}t show again"@, false),
                ("Close"@, false),
                (if busy { "Updating\u{2026}"@ } else { "Update"@ }, true),
            ]);
            Toast { title: String::from_str("Update available"), body, buttons, link: None }
        },
        UpdateNotice::Installed { version } => {
            let a = concat("Version ", version.as_str());
            let body = concat(a.as_str(), " will be used the next time you start Reveal.");
            let mut buttons: Vec<(&'static str, bool)> = Vec::new();
            buttons.push(("OK", true));
            assert(buttons_view(buttons@) =~= seq![("OK"@, true)]);
            Toast { title: String::from_str("Update installed"), body, buttons, link: None }
        },
        UpdateNotice::Upgraded { from, to } => {
            let body = match from {
                Some(f) => {
                    let a = concat("Updated from ", f.as_str());
                    let b = concat(a.as_str(), " to ");
                    let c = concat(b.as_str(), to.as_str());
                    concat(c.as_str(), ".")
                },
                None => {
                    let a = concat("Updated to ", to.as_str());
                    concat(a.as_str(), ".")
                },
            };
            let mut buttons: Vec<(&'static str, bool)> = Vec::new();
            buttons.push(("Close", false));
            buttons.push(("What\u{2019}s new", true));
            assert(buttons_view(buttons@) =~= seq![("Close"@, false), ("What\u{2019}s new"@, true)]);
            Toast {
                title: concat("Welcome to Reveal ", to.as_str()),
                body,
                buttons,
                link: Some(changelog_url(to.as_str())),
            }
        },
    }
}

/// What choosing a menu entry does.
#[derive(Debug, Clone, Copy, PartialEq, Eq, Structural)]
pub enum MenuCommand {
    Run(Action),
    RevealInFolder,
    OpenSettings,
}

/// One entry of a menu: its text, the key shown beside it, and whether it
/// is greyed out or marked as dangerous.
#[derive(Debug, Clone)]
pub struct MenuEntry {
    pub label: &'static str,
    pub keys: Option<String>,
    pub disabled: bool,
    pub danger: bool,
    pub command: MenuCommand,
}

/// A line of a menu.
#[derive(Debug, Clone)]
pub enum MenuLine {
    Entry(MenuEntry),
    Separator,
}

/// A menu line as plain values.
pub enum LineView {
    Entry(Seq<char>, Option<Seq<char>>, bool, bool, MenuCommand),
    Separator,
}

pub open spec fn line_view(l: MenuLine) -> LineView {
    match l {
        MenuLine::Entry(e) => LineView::Entry(e.label@, opt_text(e.keys), e.disabled, e.danger, e.command),
        MenuLine::Separator => LineView::Separator,
    }
}

pub open spec fn menu_view(m: Seq<MenuLine>) -> Seq<LineView> {
    m.map_values(|l: MenuLine| line_view(l))
}

/// The first key of an action, as a menu shows it.
pub open spec fn first_key(t: Seq<BindingEntry>, a: Action) -> Option<Seq<char>> {
    if keys_of(t, a).len() > 0 {
        Some(binding_label(keys_of(t, a)[0].0, keys_of(t, a)[0].1))
    } else {
        None
    }
}

pub open spec fn run_entry(label: Seq<char>, t: Seq<BindingEntry>, a: Action, disabled: bool) -> LineView {
    LineView::Entry(label, first_key(t, a), disabled, false, MenuCommand::Run(a))
}

/// The context menu of the image area: moving, fitting and zooming, which
/// need an image; playing, for an animation; copying and revealing the
/// image; the window's toggles and settings; and moving the image to the
/// trash.
pub open spec fn context_menu_view(t: Seq<BindingEntry>, has_image: bool, animated: bool, playing: bool) -> Seq<
    LineView,
> {
    let off = !has_image;
    seq![
        run_entry("Next Image"@, t, Action::ImgNext, off),
        run_entry("Previous Image"@, t, Action::ImgPrev, off),
        LineView::Separator,
        run_entry("Fit to Window"@, t, Action::ImgFit, off),
        run_entry("Fit Best"@, t, Action::ImgFitBest, off),
        run_entry("Original Size"@, t, Action::ImgOrig, off),
        run_entry("Zoom In"@, t, Action::ZoomIn, off),
        run_entry("Zoom Out"@, t, Action::ZoomOut, off),
    ] + (if animated {
        seq![
            LineView::Separator,
            run_entry(
                if playing {
                    "Pause Animation"@
                } else {
                    "Play Animation"@
                },
                t,
                Action::PlayAnim,
                false,
            ),
        ]
    } else {
        Seq::empty()
    }) + seq![
        LineView::Separator,
        run_entry("Copy Image"@, t, Action::ImgCopy, off),
        LineView::Entry("Reveal in Folder"@, None, off, false, MenuCommand::RevealInFolder),
        LineView::Separator,
        run_entry("Toggle Fullscreen"@, t, Action::ToggleFullscreen, false),
        run_entry("Toggle Theme"@, t, Action::ToggleTheme, false),
        run_entry("Toggle Status Bar"@, t, Action::ToggleBottomBar, false),
        LineView::Entry("Settings\u{2026}"@, first_key(t, Action::Settings), false, false, MenuCommand::OpenSettings),
        LineView::Separator,
        LineView::Entry("Move to Trash"@, first_key(t, Action::ImgDel), off, true, MenuCommand::Run(Action::ImgDel)),
    ]
}

/// The first key of an action, as a menu shows it.
pub fn first_key_text(bindings: &Bindings, a: Action) -> (r: Option<String>)
    ensures
        opt_text(r) == first_key(bindings.table(), a),
{
    let keys = bindings.keys_for(a);
    if keys.len() > 0 {
        proof {
            assert(keys@.map_values(|b: Binding| b@)[0] == keys@[0]@);
        }
        Some(format_binding(&keys[0]))
    } else {
        None
    }
}

fn run_line(label: &'static str, bindings: &Bindings, a: Action, disabled: bool) -> (r: MenuLine)
    ensures
        line_view(r) == run_entry(label@, bindings.table(), a, disabled),
{
    MenuLine::Entry(
        MenuEntry { label, keys: first_key_text(bindings, a), disabled, danger: false, command: MenuCommand::Run(a) },
    )
}

/// The context menu of the image area.
pub fn context_menu(bindings: &Bindings, has_image: bool, animated: bool, playing: bool) -> (r: Vec<MenuLine>)
    ensures
        menu_view(r@) == context_menu_view(bindings.table(), has_image, animated, playing),
{
    let off = !has_image;
    let mut m: Vec<MenuLine> = Vec::new();
    m.push(run_line("Next Image", bindings, Action::ImgNext, off));
    m.push(run_line("Previous Image", bindings, Action::ImgPrev, off));
    m.push(MenuLine::Separator);
    m.push(run_line("Fit to Window", bindings, Action::ImgFit, off));
    m.push(run_line("Fit Best", bindings, Action::ImgFitBest, off));
    m.push(run_line("Original Size", bindings, Action::ImgOrig, off));
    m.push(run_line("Zoom In", bindings, Action::ZoomIn, off));
    m.push(run_line("Zoom Out", bindings, Action::ZoomOut, off));
    let ghost head = m@;
    if animated {
        m.push(MenuLine::Separator);
        m.push(
            run_line(
                if playing {
                    "Pause Animation"
                } else {
                    "Play Animation"
                },
                bindings,
                Action::PlayAnim,
                false,
            ),
        );
    }
    let ghost middle = m@;
    m.push(MenuLine::Separator);
    m.push(run_line("Copy Image", bindings, Action::ImgCopy, off));
    m.push(
        MenuLine::Entry(
            MenuEntry {
                label: "Reveal in Folder",
                keys: None,
                disabled: off,
                danger: false,
                command: MenuCommand::RevealInFolder,
            },
        ),
    );
    m.push(MenuLine::Separator);
    m.push(run_line("Toggle Fullscreen", bindings, Action::ToggleFullscreen, false));
    m.push(run_line("Toggle Theme", bindings, Action::ToggleTheme, false));
    m.push(run_line("Toggle Status Bar", bindings, Action::ToggleBottomBar, false));
    m.push(
        MenuLine::Entry(
            MenuEntry {
                label: "Settings\u{2026}",
                keys: first_key_text(bindings, Action::Settings),
                disabled: false,
                danger: false,
                command: MenuCommand::OpenSettings,
            },
        ),
    );
    m.push(MenuLine::Separator);
    m.push(
        MenuLine::Entry(
            MenuEntry {
                label: "Move to Trash",
                keys: first_key_text(bindings, Action::ImgDel),
                disabled: off,
                danger: true,
                command: MenuCommand::Run(Action::ImgDel),
            },
        ),
    );
    assert(menu_view(m@) =~= context_menu_view(bindings.table(), has_image, animated, playing));
    m
}

/// One preference of the general tab: its text, whether it is on, and
/// whether it can be changed (a preference that cannot is shown greyed).
#[derive(Debug, Clone)]
pub struct ToggleRow {
    pub field: ToggleField,
    pub label: &'static str,
    pub description: &'static str,
    pub value: bool,
    pub enabled: bool,
    pub state_text: &'static str,
}

/// Whether `row` shows preference `f` of `config`.
pub open spec fn toggle_shows(row: ToggleRow, f: ToggleField, config: Configuration) -> bool {
    &&& row.field == f
    &&& row.label@ == field_label(f)
    &&& row.description@ == field_description(f)
    &&& row.value == field_value(f, config)
    &&& row.enabled == field_enabled(f, config)
    &&& row.state_text@ == if row.value {
        "On"@
    } else {
        "Off"@
    }
}

/// The row of one preference.
pub fn toggle_row(field: ToggleField, config: &Configuration) -> (r: ToggleRow)
    ensures
        toggle_shows(r, field, *config),
{
    let value = field.get(config);
    ToggleRow {
        field,
        label: field.label(),
        description: field.description(),
        value,
        enabled: field.enabled(config),
        state_text: if value {
            "On"
        } else {
            "Off"
        },
    }
}

/// The rows of a list of preferences, in order.
pub fn toggle_rows(fields: &[ToggleField], config: &Configuration) -> (r: Vec<ToggleRow>)
    ensures
        r@.len() == fields@.len(),
        forall|i: int| 0 <= i < r@.len() ==> toggle_shows(#[trigger] r@[i], fields@[i], *config),
{
    let mut rows: Vec<ToggleRow> = Vec::new();
    let mut i: usize = 0;
    while i < fields.len()
        invariant
            i <= fields@.len(),
            rows@.len() == i,
            forall|k: int| 0 <= k < i ==> toggle_shows(#[trigger] rows@[k], fields@[k], *config),
        decreases fields@.len() - i,
    {
        rows.push(toggle_row(fields[i], config));
        i = i + 1;
    }
    rows
}

/// The release channels to choose from, each with whether it is chosen.
pub fn channel_choices(current: Channel) -> (r: Vec<(Channel, &'static str, bool)>)
    ensures
        r@.len() == 2,
        r@[0].0 == Channel::Stable && r@[0].1@ == "Stable"@ && r@[0].2 == (current == Channel::Stable),
        r@[1].0 == Channel::Beta && r@[1].1@ == "Beta"@ && r@[1].2 == (current == Channel::Beta),
{
    let mut r: Vec<(Channel, &'static str, bool)> = Vec::new();
    r.push((Channel::Stable, Channel::Stable.label(), current == Channel::Stable));
    r.push((Channel::Beta, Channel::Beta.label(), current == Channel::Beta));
    r
}

/// The desktop the viewer runs on.
#[derive(Debug, Clone, Copy, PartialEq, Eq, Structural)]
pub enum Platform {
    Windows,
    MacOs,
    Linux,
}

/// What setting the viewer as the default image viewer does on a platform.
pub fn associations_hint(platform: Platform) -> (r: &'static str)
    ensures
        r@ == match platform {
            Platform::Windows => "Register Reveal for all supported formats, then confirm in Windows Settings."@,
            Platform::MacOs => "Register Reveal.app with Launch Services so it appears under Open With."@,
            Platform::Linux => "Claim the supported image types via xdg-mime."@,
        },
{
    match platform {
        Platform::Windows => "Register Reveal for all supported formats, then confirm in Windows Settings.",
        Platform::MacOs => "Register Reveal.app with Launch Services so it appears under Open With.",
        Platform::Linux => "Claim the supported image types via xdg-mime.",
    }
}

} // verus!
