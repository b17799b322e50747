//! The state of the settings panel: toggles, the update channel and the
//! capture of new key bindings.
use vstd::prelude::*;

use crate::associations::{error_text, Error, Outcome};
use crate::config::{Channel, ConfigWindow, Configuration, Updates};
use crate::input::{
    default_table, displaced, overrides_of, overrides_view, seq_clear, seq_insert, seq_remove,
    Action, Binding, BindingKey, Bindings, Modifiers,
};
use crate::paths::opt_text;
use crate::text::{ascii_lower, chars_of, decimal, decimal_string, lower_chars, string_of};

verus! {

/// The tabs of the settings panel.
#[derive(Debug, Clone, Copy, PartialEq, Eq, Structural)]
pub enum SettingsTab {
    General,
    Keys,
}

impl SettingsTab {
    pub fn label(self) -> (r: &'static str)
        ensures
            r@ == (match self {
                SettingsTab::General => "General"@,
                SettingsTab::Keys => "Keyboard"@,
            }),
    {
        match self {
            SettingsTab::General => "General",
            SettingsTab::Keys => "Keyboard",
        }
    }
}

pub const SETTINGS_TABS: [SettingsTab; 2] = [SettingsTab::General, SettingsTab::Keys];

/// The on/off preferences of the panel.
#[derive(Debug, Clone, Copy, PartialEq, Eq, Structural)]
pub enum ToggleField {
    Dark,
    ShowBottomBar,
    Antialias,
    StartFullscreen,
    UpdateCheck,
    UpdateAutoInstall,
}

/// The value of a preference in a configuration.
pub open spec fn field_value(f: ToggleField, c: Configuration) -> bool {
    match f {
        ToggleField::Dark => c.window.dark,
        ToggleField::ShowBottomBar => c.window.show_bottom_bar,
        ToggleField::Antialias => c.window.antialias,
        ToggleField::StartFullscreen => c.window.start_fullscreen,
        ToggleField::UpdateCheck => c.updates.check,
        ToggleField::UpdateAutoInstall => c.updates.auto_install,
    }
}

/// A configuration with one preference set to `v`.
pub open spec fn with_field(f: ToggleField, c: Configuration, v: bool) -> Configuration {
    match f {
        ToggleField::Dark => Configuration { window: crate::config::ConfigWindow { dark: v, ..c.window }, ..c },
        ToggleField::ShowBottomBar => Configuration {
            window: crate::config::ConfigWindow { show_bottom_bar: v, ..c.window },
            ..c
        },
        ToggleField::Antialias => Configuration {
            window: crate::config::ConfigWindow { antialias: v, ..c.window },
            ..c
        },
        ToggleField::StartFullscreen => Configuration {
            window: crate::config::ConfigWindow { start_fullscreen: v, ..c.window },
            ..c
        },
        ToggleField::UpdateCheck => Configuration {
            updates: crate::config::Updates { check: v, ..c.updates },
            ..c
        },
        ToggleField::UpdateAutoInstall => Configuration {
            updates: crate::config::Updates { auto_install: v, ..c.updates },
            ..c
        },
    }
}

/// Whether a preference can be changed: automatic installs only while
/// update checks are on.
pub open spec fn field_enabled(f: ToggleField, c: Configuration) -> bool {
    match f {
        ToggleField::UpdateAutoInstall => c.updates.check,
        _ => true,
    }
}

/// The name of a preference.
pub open spec fn field_label(f: ToggleField) -> Seq<char> {
    match f {
        ToggleField::Dark => "Dark theme"@,
        ToggleField::ShowBottomBar => "Show status bar"@,
        ToggleField::Antialias => "Smooth scaling"@,
        ToggleField::StartFullscreen => "Start fullscreen"@,
        ToggleField::UpdateCheck => "Check for updates"@,
        ToggleField::UpdateAutoInstall => "Install updates automatically"@,
    }
}

/// What a preference does.
pub open spec fn field_description(f: ToggleField) -> Seq<char> {
    match f {
        ToggleField::Dark => "Use the dark palette for the interface."@,
        ToggleField::ShowBottomBar => "Display the status bar along the bottom edge."@,
        ToggleField::Antialias => "Filter images when they are scaled."@,
        ToggleField::StartFullscreen => "Open new windows in fullscreen."@,
        ToggleField::UpdateCheck => "Look for new releases on startup."@,
        ToggleField::UpdateAutoInstall => "Download and apply updates without asking."@,
    }
}

/// Setting a preference changes that preference alone: it then reads back
/// as set, every other preference reads as before, and the rest of the
/// configuration is kept.
pub proof fn law_setting_changes_only_its_preference(f: ToggleField, c: Configuration, v: bool)
    ensures
        field_value(f, with_field(f, c, v)) == v,
        forall|g: ToggleField| g != f ==> #[trigger] field_value(g, with_field(f, c, v)) == field_value(g, c),
        with_field(f, c, v).title == c.title,
        with_field(f, c, v).bindings == c.bindings,
        with_field(f, c, v).commands == c.commands,
        with_field(f, c, v).updates.channel == c.updates.channel,
{
}

/// The preferences are the window and update switches, each read once: two
/// configurations whose preferences all read alike have the same window
/// settings and the same update switches.
pub proof fn law_preferences_cover_the_switches(c1: Configuration, c2: Configuration)
    requires
        forall|g: ToggleField| #[trigger] field_value(g, c1) == field_value(g, c2),
    ensures
        c1.window == c2.window,
        c1.updates.check == c2.updates.check,
        c1.updates.auto_install == c2.updates.auto_install,
{
    assert(field_value(ToggleField::Dark, c1) == field_value(ToggleField::Dark, c2));
    assert(field_value(ToggleField::ShowBottomBar, c1) == field_value(ToggleField::ShowBottomBar, c2));
    assert(field_value(ToggleField::Antialias, c1) == field_value(ToggleField::Antialias, c2));
    assert(field_value(ToggleField::StartFullscreen, c1) == field_value(ToggleField::StartFullscreen, c2));
    assert(field_value(ToggleField::UpdateCheck, c1) == field_value(ToggleField::UpdateCheck, c2));
    assert(field_value(ToggleField::UpdateAutoInstall, c1) == field_value(ToggleField::UpdateAutoInstall, c2));
}

impl ToggleField {
    pub fn label(self) -> (r: &'static str)
        ensures
            r@ == field_label(self),
    {
        match self {
            ToggleField::Dark => "Dark theme",
            ToggleField::ShowBottomBar => "Show status bar",
            ToggleField::Antialias => "Smooth scaling",
            ToggleField::StartFullscreen => "Start fullscreen",
            ToggleField::UpdateCheck => "Check for updates",
            ToggleField::UpdateAutoInstall => "Install updates automatically",
        }
    }

    pub fn description(self) -> (r: &'static str)
        ensures
            r@ == field_description(self),
    {
        match self {
            ToggleField::Dark => "Use the dark palette for the interface.",
            ToggleField::ShowBottomBar => "Display the status bar along the bottom edge.",
            ToggleField::Antialias => "Filter images when they are scaled.",
            ToggleField::StartFullscreen => "Open new windows in fullscreen.",
            ToggleField::UpdateCheck => "Look for new releases on startup.",
            ToggleField::UpdateAutoInstall => "Download and apply updates without asking.",
        }
    }

    /// The value of this preference in a configuration.
    pub fn get(self, config: &Configuration) -> (r: bool)
        ensures
            r == field_value(self, *config),
    {
        match self {
            ToggleField::Dark => config.window.dark,
            ToggleField::ShowBottomBar => config.window.show_bottom_bar,
            ToggleField::Antialias => config.window.antialias,
            ToggleField::StartFullscreen => config.window.start_fullscreen,
            ToggleField::UpdateCheck => config.updates.check,
            ToggleField::UpdateAutoInstall => config.updates.auto_install,
        }
    }

    /// Sets this preference in a configuration.
    pub fn set(self, config: &mut Configuration, value: bool)
        ensures
            *final(config) == with_field(self, *old(config), value),
    {
        match self {
            ToggleField::Dark => config.window.dark = value,
            ToggleField::ShowBottomBar => config.window.show_bottom_bar = value,
            ToggleField::Antialias => config.window.antialias = value,
            ToggleField::StartFullscreen => config.window.start_fullscreen = value,
            ToggleField::UpdateCheck => config.updates.check = value,
            ToggleField::UpdateAutoInstall => config.updates.auto_install = value,
        }
    }

    /// Whether this preference can be changed in a configuration.
    pub fn enabled(self, config: &Configuration) -> (r: bool)
        ensures
            r == field_enabled(self, *config),
    {
        match self {
            ToggleField::UpdateAutoInstall => config.updates.check,
            _ => true,
        }
    }
}

pub const APPEARANCE_FIELDS: [ToggleField; 4] = [
    ToggleField::Dark,
    ToggleField::ShowBottomBar,
    ToggleField::Antialias,
    ToggleField::StartFullscreen,
];

pub const UPDATE_FIELDS: [ToggleField; 2] = [ToggleField::UpdateCheck, ToggleField::UpdateAutoInstall];

/// The configuration the settings window opens with: the saved one, with
/// the theme, smoothing and update preferences as they are in force now.
pub fn settings_baseline(config: Configuration, dark: bool, antialias: bool, updates: Updates) -> (r:
    Configuration)
    ensures
        r == (Configuration {
            window: ConfigWindow { dark, antialias, ..config.window },
            updates,
            ..config
        }),
{
    let mut c = config;
    c.window.dark = dark;
    c.window.antialias = antialias;
    c.updates = updates;
    c
}

/// The action waiting for a key, and the binding the key will replace.
#[derive(Debug, Clone, PartialEq, Eq)]
pub struct CaptureTarget {
    pub action: Action,
    pub replacing: Option<Binding>,
}

/// The names of the keys that are only modifiers.
pub open spec fn is_modifier_name(k: Seq<char>) -> bool {
    k == "shift"@ || k == "control"@ || k == "ctrl"@ || k == "alt"@ || k == "cmd"@ || k
        == "platform"@ || k == "function"@
}

/// Whether a key name (in any ASCII case) is a modifier key.
pub fn is_modifier_key(key: &str) -> (r: bool)
    ensures
        r == is_modifier_name(ascii_lower(key@)),
{
    let k = crate::text::to_ascii_lowercase(key);
    let names = ["shift", "control", "ctrl", "alt", "cmd", "platform", "function"];
    let mut i: usize = 0;
    while i < 7
        invariant
            k@ == ascii_lower(key@),
            i <= 7,
            names@ == seq!["shift", "control", "ctrl", "alt", "cmd", "platform", "function"],
            forall|j: int| 0 <= j < i ==> k@ != (#[trigger] names@[j])@,
        decreases 7 - i,
    {
        if crate::text::same_text(k.as_str(), names[i]) {
            return true;
        }
        i = i + 1;
    }
    assert(k@ != names@[0]@ && k@ != names@[1]@ && k@ != names@[2]@ && k@ != names@[3]@);
    assert(k@ != names@[4]@ && k@ != names@[5]@ && k@ != names@[6]@);
    false
}

/// The binding a captured key stands for: the key lower-cased.
pub open spec fn captured_key(key: Seq<char>, m: Modifiers) -> BindingKey {
    (ascii_lower(key), m)
}

/// The state of the settings panel.
#[derive(Debug, Clone)]
pub struct SettingsState {
    pub tab: SettingsTab,
    pub config: Configuration,
    pub bindings: Bindings,
    pub capturing: Option<CaptureTarget>,
    pub notice: Option<String>,
    pub displaced: Option<Action>,
    pub dirty: bool,
}

impl SettingsState {
    pub fn new(config: Configuration, bindings: Bindings) -> (r: Self)
        ensures
            r.tab == SettingsTab::General,
            r.config == config,
            r.bindings == bindings,
            r.capturing is None,
            r.notice is None,
            r.displaced is None,
            !r.dirty,
    {
        SettingsState {
            tab: SettingsTab::General,
            config,
            bindings,
            capturing: None,
            notice: None,
            displaced: None,
            dirty: false,
        }
    }

    pub fn is_dirty(&self) -> (r: bool)
        ensures
            r == self.dirty,
    {
        self.dirty
    }

    /// Switches tab, ending any capture and dropping the notices.
    pub fn select_tab(&mut self, tab: SettingsTab)
        ensures
            final(self).tab == tab,
            final(self).capturing is None,
            final(self).notice is None,
            final(self).displaced is None,
            final(self).config == old(self).config,
            final(self).bindings == old(self).bindings,
            final(self).dirty == old(self).dirty,
    {
        self.tab = tab;
        self.capturing = None;
        self.notice = None;
        self.displaced = None;
    }

    /// Flips a preference that can be changed; turning update checks off
    /// also turns automatic installs off.
    pub fn toggle(&mut self, field: ToggleField)
        ensures
            !field_enabled(field, old(self).config) ==> *final(self) == *old(self),
            field_enabled(field, old(self).config) ==> {
                let v = !field_value(field, old(self).config);
                let c = with_field(field, old(self).config, v);
                &&& final(self).config == (if field == ToggleField::UpdateCheck && !v {
                    with_field(ToggleField::UpdateAutoInstall, c, false)
                } else {
                    c
                })
                &&& final(self).notice is None
                &&& final(self).dirty
                &&& final(self).tab == old(self).tab
                &&& final(self).bindings == old(self).bindings
                &&& final(self).capturing == old(self).capturing
                &&& final(self).displaced == old(self).displaced
            },
    {
        if !field.enabled(&self.config) {
            return;
        }
        let value = !field.get(&self.config);
        field.set(&mut self.config, value);
        self.notice = None;
        if field == ToggleField::UpdateCheck && !value {
            self.config.updates.auto_install = false;
        }
        self.dirty = true;
    }

    /// Chooses the update channel; only a different one counts as a change.
    pub fn set_channel(&mut self, channel: Channel)
        ensures
            final(self).config == (Configuration {
                updates: crate::config::Updates { channel, ..old(self).config.updates },
                ..old(self).config
            }),
            final(self).dirty == (old(self).dirty || old(self).config.updates.channel
                != channel),
            final(self).tab == old(self).tab,
            final(self).bindings == old(self).bindings,
            final(self).capturing == old(self).capturing,
            final(self).notice == old(self).notice,
            final(self).displaced == old(self).displaced,
    {
        if self.config.updates.channel != channel {
            self.config.updates.channel = channel;
            self.dirty = true;
        }
    }

    /// Waits for a key to add as a new binding of `action`.
    pub fn begin_capture(&mut self, action: Action)
        ensures
            final(self).capturing == Some(CaptureTarget { action, replacing: None }),
            final(self).notice is None,
            final(self).displaced is None,
            final(self).tab == old(self).tab,
            final(self).config == old(self).config,
            final(self).bindings == old(self).bindings,
            final(self).dirty == old(self).dirty,
    {
        self.capturing = Some(CaptureTarget { action, replacing: None });
        self.notice = None;
        self.displaced = None;
    }

    /// Waits for a key to replace the binding `existing` of `action`.
    pub fn begin_recapture(&mut self, action: Action, existing: Binding)
        ensures
            final(self).capturing == Some(CaptureTarget { action, replacing: Some(existing) }),
            final(self).notice is None,
            final(self).displaced is None,
            final(self).tab == old(self).tab,
            final(self).config == old(self).config,
            final(self).bindings == old(self).bindings,
            final(self).dirty == old(self).dirty,
    {
        self.capturing = Some(CaptureTarget { action, replacing: Some(existing) });
        self.notice = None;
        self.displaced = None;
    }

    /// Stops waiting for a key; says whether a capture was going on.
    pub fn cancel_capture(&mut self) -> (r: bool)
        ensures
            r == (old(self).capturing is Some),
            final(self).capturing is None,
            final(self).tab == old(self).tab,
            final(self).config == old(self).config,
            final(self).bindings == old(self).bindings,
            final(self).notice == old(self).notice,
            final(self).displaced == old(self).displaced,
            final(self).dirty == old(self).dirty,
    {
        let was = self.capturing.is_some();
        self.capturing = None;
        was
    }

    /// Handles a key press while the panel may be capturing. Escape cancels
    /// the capture, a bare modifier keeps waiting, any other key becomes the
    /// binding (replacing the one being recaptured). Returns whether the press
    /// was consumed.
    pub fn capture_key(&mut self, key: &str, modifiers: Modifiers) -> (r: bool)
        ensures
            old(self).capturing is None ==> !r && *final(self) == *old(self),
            old(self).capturing is Some ==> r,
            old(self).capturing is Some && ascii_lower(key@) == "escape"@ ==> {
                &&& final(self).capturing is None
                &&& final(self).tab == old(self).tab
                &&& final(self).config == old(self).config
                &&& final(self).bindings == old(self).bindings
                &&& final(self).notice == old(self).notice
                &&& final(self).displaced == old(self).displaced
                &&& final(self).dirty == old(self).dirty
            },
            old(self).capturing is Some && ascii_lower(key@) != "escape"@ && is_modifier_name(
                ascii_lower(key@),
            ) ==> *final(self) == *old(self),
            old(self).capturing is Some && ascii_lower(key@) != "escape"@ && !is_modifier_name(
                ascii_lower(key@),
            ) ==> {
                let t = old(self).capturing->0;
                let k = captured_key(key@, modifiers);
                let base = match t.replacing {
                    Some(p) => seq_remove(old(self).bindings.table(), p@),
                    None => old(self).bindings.table(),
                };
                &&& final(self).bindings.table() == seq_insert(base, k, t.action)
                &&& final(self).displaced == displaced(base, k, t.action)
                &&& final(self).capturing is None
                &&& final(self).notice is None
                &&& final(self).dirty
                &&& final(self).tab == old(self).tab
                &&& final(self).config == old(self).config
            },
    {
        let (action, replacing) = match &self.capturing {
            None => {
                return false;
            },
            Some(t) => (
                t.action,
                match &t.replacing {
                    Some(b) => Some(b.duplicate()),
                    None => None,
                },
            ),
        };
        let lower = crate::text::to_ascii_lowercase(key);
        if crate::text::same_text(lower.as_str(), "escape") {
            self.capturing = None;
            return true;
        }
        if is_modifier_key(key) {
            return true;
        }
        let binding = Binding { key: lower, modifiers };
        if let Some(previous) = replacing {
            self.bindings.remove_binding(&previous);
        }
        self.displaced = self.bindings.set_binding(action, binding);
        self.capturing = None;
        self.notice = None;
        self.dirty = true;
        true
    }

    /// Removes every binding of an action.
    pub fn clear_binding(&mut self, action: Action)
        ensures
            final(self).bindings.table() == seq_clear(old(self).bindings.table(), action),
            final(self).capturing is None,
            final(self).dirty,
            final(self).tab == old(self).tab,
            final(self).config == old(self).config,
            final(self).notice == old(self).notice,
            final(self).displaced == old(self).displaced,
    {
        self.bindings.clear_action(action);
        self.capturing = None;
        self.dirty = true;
    }

    /// Removes one binding.
    pub fn remove_binding(&mut self, binding: &Binding)
        ensures
            final(self).bindings.table() == seq_remove(old(self).bindings.table(), binding@),
            final(self).capturing is None,
            final(self).dirty,
            final(self).tab == old(self).tab,
            final(self).config == old(self).config,
            final(self).notice == old(self).notice,
            final(self).displaced == old(self).displaced,
    {
        self.bindings.remove_binding(binding);
        self.capturing = None;
        self.dirty = true;
    }

    /// Restores the default bindings and says so.
    pub fn reset_bindings(&mut self)
        ensures
            final(self).bindings.table() == default_table(),
            final(self).capturing is None,
            final(self).notice matches Some(n) && n@ == "Shortcuts restored to defaults."@,
            final(self).dirty,
            final(self).tab == old(self).tab,
            final(self).config == old(self).config,
            final(self).displaced == old(self).displaced,
    {
        self.bindings.reset_to_defaults();
        self.capturing = None;
        self.notice = Some(String::from_str("Shortcuts restored to defaults."));
        self.dirty = true;
    }

    /// Shows the outcome of registering the viewer for the image formats.
    pub fn register_associations(&mut self, result: &Result<Outcome, Error>)
        ensures
            final(self).notice matches Some(n) && n@ == notice_text(*result),
            final(self).tab == old(self).tab,
            final(self).config == old(self).config,
            final(self).bindings == old(self).bindings,
            final(self).capturing == old(self).capturing,
            final(self).displaced == old(self).displaced,
            final(self).dirty == old(self).dirty,
    {
        self.notice = Some(association_notice(result));
    }

    /// Writes the bindings into the configuration before it is saved: the
    /// overrides when they differ from the defaults, nothing otherwise.
    pub fn persist(&mut self)
        ensures
            (old(self).bindings.table() == default_table()) ==> final(self).config.bindings is None,
            (old(self).bindings.table() != default_table()) ==> (final(self).config.bindings matches Some(o)
                && overrides_view(o@) == overrides_of(old(self).bindings.table())),
            final(self).config.window == old(self).config.window,
            final(self).config.title == old(self).config.title,
            final(self).config.commands == old(self).config.commands,
            final(self).config.updates == old(self).config.updates,
            final(self).bindings == old(self).bindings,
            final(self).dirty == old(self).dirty,
    {
        if self.bindings.differs_from_defaults() {
            self.config.bindings = Some(self.bindings.to_overrides());
        } else {
            self.config.bindings = None;
        }
    }

    /// Takes in how writing the configuration went: a save clears the
    /// unsaved mark and says so; a failure says why and keeps the mark.
    pub fn finish_save(&mut self, outcome: &Result<(), String>)
        ensures
            match outcome {
                Ok(()) => !final(self).dirty && opt_text(final(self).notice) == Some("Settings saved."@),
                Err(e) => final(self).dirty == old(self).dirty && opt_text(final(self).notice) == Some(
                    "Could not save: "@ + e@,
                ),
            },
            final(self).tab == old(self).tab,
            final(self).config == old(self).config,
            final(self).bindings == old(self).bindings,
            final(self).capturing == old(self).capturing,
            final(self).displaced == old(self).displaced,
    {
        match outcome {
            Ok(()) => {
                self.dirty = false;
                self.notice = Some(String::from_str("Settings saved."));
            },
            Err(e) => {
                self.notice = Some(crate::text::concat("Could not save: ", e.as_str()));
            },
        }
    }
}

/// The notice shown after registering the viewer for the image formats.
pub open spec fn notice_text(result: Result<Outcome, Error>) -> Seq<char> {
    match result {
        Ok(o) => "Registered "@ + decimal(o.registered as nat) + " formats."@ + match o.needs_user_action {
            Some(extra) => " "@ + extra@,
            None => Seq::empty(),
        },
        Err(e) => "Could not set defaults: "@ + error_text(e),
    }
}

/// The notice shown after registering the viewer for the image formats.
pub fn association_notice(result: &Result<Outcome, Error>) -> (r: String)
    ensures
        r@ == notice_text(*result),
{
    match result {
        Ok(outcome) => {
            let mut text = String::from_str("Registered ");
            let count = decimal_string(outcome.registered as u64);
            text.append(count.as_str());
            text.append(" formats.");
            if let Some(extra) = &outcome.needs_user_action {
                text.append(" ");
                text.append(extra.as_str());
            }
            proof {
                assert(text@ =~= notice_text(*result));
            }
            text
        },
        Err(e) => {
            let mut text = String::from_str("Could not set defaults: ");
            let m = e.message();
            text.append(m.as_str());
            text
        },
    }
}

} // verus!
