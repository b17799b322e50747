//! Actions, key bindings and the command templates of the viewer.
use vstd::prelude::*;

use crate::order::{
    chars_equal, lemma_char_eq, lemma_text_lt_asymmetric, lemma_text_lt_irreflexive,
    lemma_text_lt_total, lemma_text_lt_transitive, text_less, text_lt,
};
use crate::config::CommandDefinition;
use crate::text::{
    ascii_lower, chars_of, is_white, lead_white, lower_chars, replace_all, replace_chars, same_text,
    string_of, trail_white, trim, trim_chars, trim_start,
};

verus! {

/// Everything a key binding or a menu entry can trigger.
#[derive(Debug, Clone, Copy, PartialEq, Eq, Structural, PartialOrd, Ord, Hash)]
pub enum Action {
    FileOpen,
    FolderOpen,
    ImgNext,
    ImgPrev,
    ImgOrig,
    ImgFit,
    ImgFitBest,
    ImgDel,
    ImgCopy,
    ImgPaste,
    PanUp,
    PanDown,
    PanLeft,
    PanRight,
    ZoomIn,
    ZoomOut,
    PlayAnim,
    PlayPresent,
    PlayPresentRandom,
    ToggleFullscreen,
    ToggleAntialias,
    ToggleTheme,
    ToggleBottomBar,
    Settings,
    Escape,
}

/// The name under which an action is stored in the configuration file.
pub open spec fn action_name(a: Action) -> Seq<char> {
    match a {
        Action::FileOpen => "file_open"@,
        Action::FolderOpen => "folder_open"@,
        Action::ImgNext => "img_next"@,
        Action::ImgPrev => "img_prev"@,
        Action::ImgOrig => "img_orig"@,
        Action::ImgFit => "img_fit"@,
        Action::ImgFitBest => "img_fit_best"@,
        Action::ImgDel => "img_del"@,
        Action::ImgCopy => "img_copy"@,
        Action::ImgPaste => "img_paste"@,
        Action::PanUp => "pan_up"@,
        Action::PanDown => "pan_down"@,
        Action::PanLeft => "pan_left"@,
        Action::PanRight => "pan_right"@,
        Action::ZoomIn => "zoom_in"@,
        Action::ZoomOut => "zoom_out"@,
        Action::PlayAnim => "play_anim"@,
        Action::PlayPresent => "play_present"@,
        Action::PlayPresentRandom => "play_present_random"@,
        Action::ToggleFullscreen => "toggle_fullscreen"@,
        Action::ToggleAntialias => "toggle_antialias"@,
        Action::ToggleTheme => "toggle_theme"@,
        Action::ToggleBottomBar => "toggle_bottom_bar"@,
        Action::Settings => "settings"@,
        Action::Escape => "escape"@,
    }
}

/// Position of an action in the canonical list of all actions.
pub open spec fn action_index(a: Action) -> int {
    match a {
        Action::FileOpen => 0,
        Action::FolderOpen => 1,
        Action::ImgNext => 2,
        Action::ImgPrev => 3,
        Action::ImgOrig => 4,
        Action::ImgFit => 5,
        Action::ImgFitBest => 6,
        Action::ImgDel => 7,
        Action::ImgCopy => 8,
        Action::ImgPaste => 9,
        Action::PanUp => 10,
        Action::PanDown => 11,
        Action::PanLeft => 12,
        Action::PanRight => 13,
        Action::ZoomIn => 14,
        Action::ZoomOut => 15,
        Action::PlayAnim => 16,
        Action::PlayPresent => 17,
        Action::PlayPresentRandom => 18,
        Action::ToggleFullscreen => 19,
        Action::ToggleAntialias => 20,
        Action::ToggleTheme => 21,
        Action::ToggleBottomBar => 22,
        Action::Settings => 23,
        Action::Escape => 24,
    }
}

/// Every action, in declaration order.
pub open spec fn all_actions() -> Seq<Action> {
    seq![
        Action::FileOpen,
        Action::FolderOpen,
        Action::ImgNext,
        Action::ImgPrev,
        Action::ImgOrig,
        Action::ImgFit,
        Action::ImgFitBest,
        Action::ImgDel,
        Action::ImgCopy,
        Action::ImgPaste,
        Action::PanUp,
        Action::PanDown,
        Action::PanLeft,
        Action::PanRight,
        Action::ZoomIn,
        Action::ZoomOut,
        Action::PlayAnim,
        Action::PlayPresent,
        Action::PlayPresentRandom,
        Action::ToggleFullscreen,
        Action::ToggleAntialias,
        Action::ToggleTheme,
        Action::ToggleBottomBar,
        Action::Settings,
        Action::Escape,
    ]
}

/// Every action has its place in the list of all actions.
pub proof fn lemma_action_index(a: Action)
    ensures
        0 <= action_index(a) < all_actions().len(),
        all_actions()[action_index(a)] == a,
{
}

/// Every action, in declaration order.
pub const ALL_ACTIONS: [Action; 25] = [
    Action::FileOpen,
    Action::FolderOpen,
    Action::ImgNext,
    Action::ImgPrev,
    Action::ImgOrig,
    Action::ImgFit,
    Action::ImgFitBest,
    Action::ImgDel,
    Action::ImgCopy,
    Action::ImgPaste,
    Action::PanUp,
    Action::PanDown,
    Action::PanLeft,
    Action::PanRight,
    Action::ZoomIn,
    Action::ZoomOut,
    Action::PlayAnim,
    Action::PlayPresent,
    Action::PlayPresentRandom,
    Action::ToggleFullscreen,
    Action::ToggleAntialias,
    Action::ToggleTheme,
    Action::ToggleBottomBar,
    Action::Settings,
    Action::Escape,
];

/// The list of all actions, in declaration order.
pub fn all_actions_vec() -> (v: Vec<Action>)
    ensures
        v@ == all_actions(),
{
    let v = vec![
        Action::FileOpen,
        Action::FolderOpen,
        Action::ImgNext,
        Action::ImgPrev,
        Action::ImgOrig,
        Action::ImgFit,
        Action::ImgFitBest,
        Action::ImgDel,
        Action::ImgCopy,
        Action::ImgPaste,
        Action::PanUp,
        Action::PanDown,
        Action::PanLeft,
        Action::PanRight,
        Action::ZoomIn,
        Action::ZoomOut,
        Action::PlayAnim,
        Action::PlayPresent,
        Action::PlayPresentRandom,
        Action::ToggleFullscreen,
        Action::ToggleAntialias,
        Action::ToggleTheme,
        Action::ToggleBottomBar,
        Action::Settings,
        Action::Escape,
    ];
    assert(v@ =~= all_actions());
    v
}

/// The first action, in declaration order, whose name is `n`.
pub open spec fn action_named_from(n: Seq<char>, i: nat) -> Option<Action>
    decreases all_actions().len() - i,
{
    if i >= all_actions().len() {
        None
    } else if action_name(all_actions()[i as int]) == n {
        Some(all_actions()[i as int])
    } else {
        action_named_from(n, i + 1)
    }
}

pub open spec fn action_named(n: Seq<char>) -> Option<Action> {
    action_named_from(n, 0)
}


/// Length and last two characters of a name: no two action names share them.
spec fn name_code(s: Seq<char>) -> (nat, char, char) {
    (s.len(), s[s.len() - 1], s[s.len() - 2])
}

spec fn action_code(a: Action) -> (nat, char, char) {
    match a {
        Action::FileOpen => (9nat, 'n', 'e'),
        Action::FolderOpen => (11nat, 'n', 'e'),
        Action::ImgNext => (8nat, 't', 'x'),
        Action::ImgPrev => (8nat, 'v', 'e'),
        Action::ImgOrig => (8nat, 'g', 'i'),
        Action::ImgFit => (7nat, 't', 'i'),
        Action::ImgFitBest => (12nat, 't', 's'),
        Action::ImgDel => (7nat, 'l', 'e'),
        Action::ImgCopy => (8nat, 'y', 'p'),
        Action::ImgPaste => (9nat, 'e', 't'),
        Action::PanUp => (6nat, 'p', 'u'),
        Action::PanDown => (8nat, 'n', 'w'),
        Action::PanLeft => (8nat, 't', 'f'),
        Action::PanRight => (9nat, 't', 'h'),
        Action::ZoomIn => (7nat, 'n', 'i'),
        Action::ZoomOut => (8nat, 't', 'u'),
        Action::PlayAnim => (9nat, 'm', 'i'),
        Action::PlayPresent => (12nat, 't', 'n'),
        Action::PlayPresentRandom => (19nat, 'm', 'o'),
        Action::ToggleFullscreen => (17nat, 'n', 'e'),
        Action::ToggleAntialias => (16nat, 's', 'a'),
        Action::ToggleTheme => (12nat, 'e', 'm'),
        Action::ToggleBottomBar => (17nat, 'r', 'a'),
        Action::Settings => (8nat, 's', 'g'),
        Action::Escape => (6nat, 'e', 'p'),
    }
}

proof fn lemma_action_code(a: Action)
    ensures
        name_code(action_name(a)) == action_code(a),
{
    reveal_strlit("file_open");
    reveal_strlit("folder_open");
    reveal_strlit("img_next");
    reveal_strlit("img_prev");
    reveal_strlit("img_orig");
    reveal_strlit("img_fit");
    reveal_strlit("img_fit_best");
    reveal_strlit("img_del");
    reveal_strlit("img_copy");
    reveal_strlit("img_paste");
    reveal_strlit("pan_up");
    reveal_strlit("pan_down");
    reveal_strlit("pan_left");
    reveal_strlit("pan_right");
    reveal_strlit("zoom_in");
    reveal_strlit("zoom_out");
    reveal_strlit("play_anim");
    reveal_strlit("play_present");
    reveal_strlit("play_present_random");
    reveal_strlit("toggle_fullscreen");
    reveal_strlit("toggle_antialias");
    reveal_strlit("toggle_theme");
    reveal_strlit("toggle_bottom_bar");
    reveal_strlit("settings");
    reveal_strlit("escape");
}

/// Every action's name reads back as that action, and no two actions share
/// a name.
pub proof fn law_action_name_round_trip(a: Action)
    ensures
        action_named(action_name(a)) == Some(a),
        forall|b: Action| action_name(b) == action_name(a) ==> b == a,
{
    assert forall|b: Action| action_name(b) == action_name(a) implies b == a by {
        lemma_action_code(a);
        lemma_action_code(b);
    }
    assert forall|j: int| 0 <= j < all_actions().len() && all_actions()[j] != a implies action_name(
        #[trigger] all_actions()[j],
    ) != action_name(a) by {
        lemma_action_code(a);
        lemma_action_code(all_actions()[j]);
    }
    lemma_action_index(a);
    lemma_named_from_reaches(action_name(a), a, 0);
}


/// A text that is no action's name reads as no action.
pub proof fn law_unknown_name(n: Seq<char>)
    requires
        forall|b: Action| action_name(b) != n,
    ensures
        action_named(n) is None,
{
    lemma_named_from_none(n, 0);
}

proof fn lemma_named_from_none(n: Seq<char>, i: nat)
    requires
        forall|b: Action| action_name(b) != n,
    ensures
        action_named_from(n, i) is None,
    decreases all_actions().len() - i,
{
    if i < all_actions().len() {
        assert(action_name(all_actions()[i as int]) != n);
        lemma_named_from_none(n, i + 1);
    }
}

proof fn lemma_named_from_reaches(n: Seq<char>, a: Action, i: nat)
    requires
        i <= action_index(a),
        0 <= action_index(a) < all_actions().len(),
        all_actions()[action_index(a)] == a,
        action_name(a) == n,
        forall|j: int| 0 <= j < all_actions().len() && all_actions()[j] != a ==> action_name(
            #[trigger] all_actions()[j],
        ) != n,
    ensures
        action_named_from(n, i) == Some(a),
    decreases action_index(a) - i,
{
    if i < action_index(a) {
        assert(all_actions()[i as int] != a) by {
            lemma_action_index(all_actions()[i as int]);
        }
        lemma_named_from_reaches(n, a, i + 1);
    }
}

impl Action {
    /// The configuration name of the action.
    pub fn name(self) -> (r: &'static str)
        ensures
            r@ == action_name(self),
    {
        match self {
            Action::FileOpen => "file_open",
            Action::FolderOpen => "folder_open",
            Action::ImgNext => "img_next",
            Action::ImgPrev => "img_prev",
            Action::ImgOrig => "img_orig",
            Action::ImgFit => "img_fit",
            Action::ImgFitBest => "img_fit_best",
            Action::ImgDel => "img_del",
            Action::ImgCopy => "img_copy",
            Action::ImgPaste => "img_paste",
            Action::PanUp => "pan_up",
            Action::PanDown => "pan_down",
            Action::PanLeft => "pan_left",
            Action::PanRight => "pan_right",
            Action::ZoomIn => "zoom_in",
            Action::ZoomOut => "zoom_out",
            Action::PlayAnim => "play_anim",
            Action::PlayPresent => "play_present",
            Action::PlayPresentRandom => "play_present_random",
            Action::ToggleFullscreen => "toggle_fullscreen",
            Action::ToggleAntialias => "toggle_antialias",
            Action::ToggleTheme => "toggle_theme",
            Action::ToggleBottomBar => "toggle_bottom_bar",
            Action::Settings => "settings",
            Action::Escape => "escape",
        }
    }

    /// The action stored under a configuration name, if any.
    pub fn from_name(name: &str) -> (r: Option<Action>)
        ensures
            r == action_named(name@),
    {
        let all = all_actions_vec();
        let mut i: usize = 0;
        while i < all.len()
            invariant
                all@ == all_actions(),
                i <= all@.len(),
                action_named(name@) == action_named_from(name@, i as nat),
            decreases all@.len() - i,
        {
            let a = all[i];
            if same_text(a.name(), name) {
                return Some(a);
            }
            i = i + 1;
        }
        None
    }
}

/// The modifier keys held with a key.
#[derive(Debug, Clone, Copy, PartialEq, Eq, Structural, PartialOrd, Ord, Hash)]
pub struct Modifiers {
    pub alt: bool,
    pub cmd_ctrl: bool,
    pub shift: bool,
}

pub open spec fn no_modifiers() -> Modifiers {
    Modifiers { alt: false, cmd_ctrl: false, shift: false }
}

impl Default for Modifiers {
    fn default() -> (r: Self)
        ensures
            r == no_modifiers(),
    {
        Modifiers { alt: false, cmd_ctrl: false, shift: false }
    }
}

/// A key together with its modifiers.
#[derive(Debug, Clone, PartialEq, Eq, PartialOrd, Ord, Hash)]
pub struct Binding {
    pub key: String,
    pub modifiers: Modifiers,
}

/// A binding as plain values: the key's characters and the modifiers.
pub type BindingKey = (Seq<char>, Modifiers);

impl View for Binding {
    type V = BindingKey;

    open spec fn view(&self) -> BindingKey {
        (self.key@, self.modifiers)
    }
}

/// The effect of one `+`-separated part of a binding text: trimmed and
/// lower-cased, it is a modifier name, or else the key.
pub open spec fn apply_part(m: Modifiers, k: Option<Seq<char>>, part: Seq<char>) -> (
    Modifiers,
    Option<Seq<char>>,
) {
    let p = ascii_lower(trim(part));
    if p.len() == 0 {
        (m, k)
    } else if p == "alt"@ {
        (Modifiers { alt: true, cmd_ctrl: m.cmd_ctrl, shift: m.shift }, k)
    } else if p == "cmdctrl"@ || p == "ctrl"@ || p == "cmd"@ {
        (Modifiers { alt: m.alt, cmd_ctrl: true, shift: m.shift }, k)
    } else if p == "shift"@ {
        (Modifiers { alt: m.alt, cmd_ctrl: m.cmd_ctrl, shift: true }, k)
    } else {
        (m, Some(p))
    }
}

/// The state after reading a binding text left to right: the modifiers and
/// key of the finished parts, and the part being read.
pub open spec fn scan_binding(s: Seq<char>) -> (Modifiers, Option<Seq<char>>, Seq<char>)
    decreases s.len(),
{
    if s.len() == 0 {
        (no_modifiers(), None, Seq::empty())
    } else {
        let prev = scan_binding(s.drop_last());
        if s.last() == '+' {
            let r = apply_part(prev.0, prev.1, prev.2);
            (r.0, r.1, Seq::empty())
        } else {
            (prev.0, prev.1, prev.2.push(s.last()))
        }
    }
}

/// The binding a text such as `CmdCtrl+shift+o` denotes; the last part that
/// is no modifier is the key, and a text without one denotes nothing.
pub open spec fn parse_binding(s: Seq<char>) -> Option<BindingKey> {
    let st = scan_binding(s);
    let r = apply_part(st.0, st.1, st.2);
    match r.1 {
        Some(k) => Some((k, r.0)),
        None => None,
    }
}

/// The text under which a binding is written to the configuration file.
pub open spec fn binding_text(b: BindingKey) -> Seq<char> {
    (if b.1.cmd_ctrl {
        "CmdCtrl+"@
    } else {
        Seq::empty()
    }) + (if b.1.alt {
        "alt+"@
    } else {
        Seq::empty()
    }) + (if b.1.shift {
        "shift+"@
    } else {
        Seq::empty()
    }) + b.0
}

/// A key as the configuration writes it: not empty, lower-case, without
/// surrounding whitespace or `+`, and not the name of a modifier.
pub open spec fn plain_key(k: Seq<char>) -> bool {
    &&& k.len() > 0
    &&& !k.contains('+')
    &&& trim(k) == k
    &&& ascii_lower(k) == k
    &&& k != "alt"@ && k != "cmdctrl"@ && k != "ctrl"@ && k != "cmd"@ && k != "shift"@
}

proof fn lemma_scan_plain(s: Seq<char>, t: Seq<char>)
    requires
        !t.contains('+'),
    ensures
        scan_binding(s + t) == (scan_binding(s).0, scan_binding(s).1, scan_binding(s).2 + t),
    decreases t.len(),
{
    if t.len() > 0 {
        assert(!t.drop_last().contains('+')) by {
            if t.drop_last().contains('+') {
                let i = choose|i: int| 0 <= i < t.drop_last().len() && t.drop_last()[i] == '+';
                assert(t[i] == '+');
            }
        }
        lemma_scan_plain(s, t.drop_last());
        assert((s + t).drop_last() =~= s + t.drop_last());
        assert((s + t).last() == t.last());
        assert(t[t.len() - 1] != '+');
        assert((scan_binding(s).2 + t.drop_last()).push(t.last()) =~= scan_binding(s).2 + t);
    } else {
        assert(s + t =~= s);
        assert(scan_binding(s).2 + t =~= scan_binding(s).2);
    }
}

proof fn lemma_scan_word(s: Seq<char>, w: Seq<char>)
    requires
        !w.contains('+'),
        scan_binding(s).2.len() == 0,
    ensures
        scan_binding(s + (w + seq!['+'])) == (
            apply_part(scan_binding(s).0, scan_binding(s).1, w).0,
            apply_part(scan_binding(s).0, scan_binding(s).1, w).1,
            Seq::<char>::empty(),
        ),
{
    let t = w + seq!['+'];
    assert(s + t =~= (s + w).push('+'));
    assert((s + t).drop_last() =~= s + w);
    lemma_scan_plain(s, w);
    assert(scan_binding(s).2 + w =~= w);
}

proof fn lemma_modifier_word(w: Seq<char>, lw: Seq<char>)
    requires
        w.len() > 0,
        !is_white(w[0]),
        !is_white(w.last()),
        ascii_lower(w) == lw,
    ensures
        ascii_lower(trim(w)) == lw,
{
    assert(lead_white(w) == 0);
    assert(w.skip(0) =~= w);
    assert(trim_start(w) == w);
    assert(trail_white(w) == 0);
    assert(w.take(w.len() as int) =~= w);
}

/// Reading back the text a binding is written as gives the binding again,
/// for keys as the configuration writes them.
pub proof fn law_binding_text_round_trip(k: Seq<char>, m: Modifiers)
    requires
        plain_key(k),
    ensures
        parse_binding(binding_text((k, m))) == Some((k, m)),
{
    reveal_strlit("CmdCtrl+");
    reveal_strlit("alt+");
    reveal_strlit("shift+");
    reveal_strlit("cmdctrl");
    reveal_strlit("alt");
    reveal_strlit("shift");
    reveal_strlit("ctrl");
    reveal_strlit("cmd");
    let cmd_w = seq!['C', 'm', 'd', 'C', 't', 'r', 'l'];
    let alt_w = seq!['a', 'l', 't'];
    let shift_w = seq!['s', 'h', 'i', 'f', 't'];
    assert("CmdCtrl+"@ =~= cmd_w + seq!['+']);
    assert("alt+"@ =~= alt_w + seq!['+']);
    assert("shift+"@ =~= shift_w + seq!['+']);
    assert(ascii_lower(cmd_w) =~= "cmdctrl"@);
    assert(ascii_lower(alt_w) =~= "alt"@);
    assert(ascii_lower(shift_w) =~= "shift"@);
    lemma_modifier_word(cmd_w, "cmdctrl"@);
    lemma_modifier_word(alt_w, "alt"@);
    lemma_modifier_word(shift_w, "shift"@);
    assert(!cmd_w.contains('+')) by {
        if cmd_w.contains('+') {
            let i = choose|i: int| 0 <= i < cmd_w.len() && cmd_w[i] == '+';
        }
    }
    assert(!alt_w.contains('+')) by {
        if alt_w.contains('+') {
            let i = choose|i: int| 0 <= i < alt_w.len() && alt_w[i] == '+';
        }
    }
    assert(!shift_w.contains('+')) by {
        if shift_w.contains('+') {
            let i = choose|i: int| 0 <= i < shift_w.len() && shift_w[i] == '+';
        }
    }
    let e = Seq::<char>::empty();
    let a = if m.cmd_ctrl {
        "CmdCtrl+"@
    } else {
        e
    };
    let b = if m.alt {
        "alt+"@
    } else {
        e
    };
    let c = if m.shift {
        "shift+"@
    } else {
        e
    };
    let m1 = Modifiers { alt: false, cmd_ctrl: m.cmd_ctrl, shift: false };
    let m2 = Modifiers { alt: m.alt, cmd_ctrl: m.cmd_ctrl, shift: false };
    assert(scan_binding(e) == (no_modifiers(), None::<Seq<char>>, e));
    assert(scan_binding(e + a) == (m1, None::<Seq<char>>, e)) by {
        if m.cmd_ctrl {
            lemma_scan_word(e, cmd_w);
            assert(e + a =~= e + (cmd_w + seq!['+']));
        } else {
            assert(e + a =~= e);
        }
    }
    assert(scan_binding(e + a + b) == (m2, None::<Seq<char>>, e)) by {
        if m.alt {
            lemma_scan_word(e + a, alt_w);
            assert(e + a + b =~= (e + a) + (alt_w + seq!['+']));
        } else {
            assert(e + a + b =~= e + a);
        }
    }
    assert(scan_binding(e + a + b + c) == (m, None::<Seq<char>>, e)) by {
        if m.shift {
            lemma_scan_word(e + a + b, shift_w);
            assert(e + a + b + c =~= (e + a + b) + (shift_w + seq!['+']));
        } else {
            assert(e + a + b + c =~= e + a + b);
        }
    }
    assert(binding_text((k, m)) =~= (e + a + b + c) + k);
    lemma_scan_plain(e + a + b + c, k);
    assert(e + k =~= k);
}

pub open spec fn opt_chars(o: Option<Vec<char>>) -> Option<Seq<char>> {
    match o {
        Some(v) => Some(v@),
        None => None,
    }
}

fn apply_part_exec(m: Modifiers, k: Option<Vec<char>>, part: &[char]) -> (r: (
    Modifiers,
    Option<Vec<char>>,
))
    ensures
        (r.0, opt_chars(r.1)) == apply_part(m, opt_chars(k), part@),
{
    let t = trim_chars(part);
    let p = lower_chars(t.as_slice());
    if p.len() == 0 {
        return (m, k);
    }
    let alt = chars_of("alt");
    let cmdctrl = chars_of("cmdctrl");
    let ctrl = chars_of("ctrl");
    let cmd = chars_of("cmd");
    let shift = chars_of("shift");
    if chars_equal(p.as_slice(), alt.as_slice()) {
        (Modifiers { alt: true, cmd_ctrl: m.cmd_ctrl, shift: m.shift }, k)
    } else if chars_equal(p.as_slice(), cmdctrl.as_slice())
        || chars_equal(p.as_slice(), ctrl.as_slice())
        || chars_equal(p.as_slice(), cmd.as_slice()) {
        (Modifiers { alt: m.alt, cmd_ctrl: true, shift: m.shift }, k)
    } else if chars_equal(p.as_slice(), shift.as_slice()) {
        (Modifiers { alt: m.alt, cmd_ctrl: m.cmd_ctrl, shift: true }, k)
    } else {
        (m, Some(p))
    }
}

impl Binding {
    /// Reads a binding text such as `CmdCtrl+shift+o`.
    pub fn parse(text: &str) -> (r: Option<Binding>)
        ensures
            match r {
                Some(b) => parse_binding(text@) == Some(b@),
                None => parse_binding(text@) is None,
            },
    {
        let cs = chars_of(text);
        let mut m = Modifiers { alt: false, cmd_ctrl: false, shift: false };
        let mut k: Option<Vec<char>> = None;
        let mut cur: Vec<char> = Vec::new();
        let mut i: usize = 0;
        while i < cs.len()
            invariant
                cs@ == text@,
                i <= cs@.len(),
                (m, opt_chars(k), cur@) == scan_binding(cs@.take(i as int)),
            decreases cs@.len() - i,
        {
            let c = cs[i];
            proof {
                assert(cs@.take(i + 1).drop_last() =~= cs@.take(i as int));
            }
            if c == '+' {
                let r = apply_part_exec(m, k, cur.as_slice());
                m = r.0;
                k = r.1;
                cur = Vec::new();
            } else {
                cur.push(c);
            }
            i = i + 1;
        }
        proof {
            assert(cs@.take(i as int) =~= text@);
        }
        let r = apply_part_exec(m, k, cur.as_slice());
        match r.1 {
            Some(key) => Some(Binding { key: string_of(key.as_slice()), modifiers: r.0 }),
            None => None,
        }
    }

    /// The configuration text of the binding.
    pub fn to_config_string(&self) -> (r: String)
        ensures
            r@ == binding_text(self@),
    {
        let mut s = String::new();
        if self.modifiers.cmd_ctrl {
            s.append("CmdCtrl+");
        }
        if self.modifiers.alt {
            s.append("alt+");
        }
        if self.modifiers.shift {
            s.append("shift+");
        }
        s.append(self.key.as_str());
        proof {
            assert(s@ =~= binding_text(self@));
        }
        s
    }

    /// A copy of the binding.
    pub fn duplicate(&self) -> (r: Binding)
        ensures
            r@ == self@,
    {
        Binding { key: self.key.clone(), modifiers: self.modifiers }
    }
}

/// Rank of a set of modifiers in the order that `Modifiers` derives.
pub open spec fn mods_rank(m: Modifiers) -> int {
    (if m.alt {
        4int
    } else {
        0int
    }) + (if m.cmd_ctrl {
        2int
    } else {
        0int
    }) + (if m.shift {
        1int
    } else {
        0int
    })
}

/// The order of bindings: by key text, then by modifiers.
pub open spec fn key_lt(x: BindingKey, y: BindingKey) -> bool {
    text_lt(x.0, y.0) || (x.0 == y.0 && mods_rank(x.1) < mods_rank(y.1))
}

pub proof fn lemma_key_lt_irreflexive(x: BindingKey)
    ensures
        !key_lt(x, x),
{
    lemma_text_lt_irreflexive(x.0);
}

pub proof fn lemma_key_lt_transitive(x: BindingKey, y: BindingKey, z: BindingKey)
    requires
        key_lt(x, y),
        key_lt(y, z),
    ensures
        key_lt(x, z),
{
    if text_lt(x.0, y.0) && text_lt(y.0, z.0) {
        lemma_text_lt_transitive(x.0, y.0, z.0);
    }
}

pub proof fn lemma_key_lt_total(x: BindingKey, y: BindingKey)
    ensures
        x == y || key_lt(x, y) || key_lt(y, x),
{
    lemma_text_lt_total(x.0, y.0);
}

/// No two binding keys sort before each other.
pub proof fn lemma_key_lt_asymmetric(x: BindingKey, y: BindingKey)
    ensures
        !(key_lt(x, y) && key_lt(y, x)),
{
    lemma_text_lt_asymmetric(x.0, y.0);
    lemma_text_lt_irreflexive(x.0);
}

/// Whether binding `a` sorts strictly before binding `b`.
pub fn binding_less(a: &Binding, b: &Binding) -> (r: bool)
    ensures
        r == key_lt(a@, b@),
{
    let ka = chars_of(a.key.as_str());
    let kb = chars_of(b.key.as_str());
    if text_less(ka.as_slice(), kb.as_slice()) {
        return true;
    }
    if !chars_equal(ka.as_slice(), kb.as_slice()) {
        return false;
    }
    let ra: u8 = (if a.modifiers.alt { 4u8 } else { 0u8 }) + (if a.modifiers.cmd_ctrl { 2u8 } else { 0u8 }) + (if a.modifiers.shift { 1u8 } else { 0u8 });
    let rb: u8 = (if b.modifiers.alt { 4u8 } else { 0u8 }) + (if b.modifiers.cmd_ctrl { 2u8 } else { 0u8 }) + (if b.modifiers.shift { 1u8 } else { 0u8 });
    ra < rb
}

/// Whether two bindings are the same key with the same modifiers.
pub fn binding_same(a: &Binding, b: &Binding) -> (r: bool)
    ensures
        r == (a@ == b@),
{
    let ka = chars_of(a.key.as_str());
    let kb = chars_of(b.key.as_str());
    chars_equal(ka.as_slice(), kb.as_slice()) && a.modifiers.alt == b.modifiers.alt
        && a.modifiers.cmd_ctrl == b.modifiers.cmd_ctrl && a.modifiers.shift == b.modifiers.shift
}

/// An entry of the binding table as plain values.
pub type BindingEntry = (BindingKey, Action);

/// Entries in strictly increasing order of their bindings.
pub open spec fn sorted_entries(s: Seq<BindingEntry>) -> bool {
    forall|i: int, j: int| 0 <= i < j < s.len() ==> key_lt(#[trigger] s[i].0, #[trigger] s[j].0)
}

/// The table after binding `k` to `a`: an entry for `k` is replaced, or a
/// new one is put where the order wants it.
pub open spec fn seq_insert(s: Seq<BindingEntry>, k: BindingKey, a: Action) -> Seq<BindingEntry>
    decreases s.len(),
{
    if s.len() == 0 {
        seq![(k, a)]
    } else if key_lt(s[0].0, k) {
        seq![s[0]] + seq_insert(s.drop_first(), k, a)
    } else if s[0].0 == k {
        seq![(k, a)] + s.drop_first()
    } else {
        seq![(k, a)] + s
    }
}

/// The table without the entry for `k`.
pub open spec fn seq_remove(s: Seq<BindingEntry>, k: BindingKey) -> Seq<BindingEntry>
    decreases s.len(),
{
    if s.len() == 0 {
        s
    } else {
        (if s[0].0 == k {
            Seq::empty()
        } else {
            seq![s[0]]
        }) + seq_remove(s.drop_first(), k)
    }
}

/// The table without the entries of action `a`.
pub open spec fn seq_clear(s: Seq<BindingEntry>, a: Action) -> Seq<BindingEntry>
    decreases s.len(),
{
    if s.len() == 0 {
        s
    } else {
        (if s[0].1 == a {
            Seq::empty()
        } else {
            seq![s[0]]
        }) + seq_clear(s.drop_first(), a)
    }
}

/// The bindings of action `a`, in table order.
pub open spec fn keys_of(s: Seq<BindingEntry>, a: Action) -> Seq<BindingKey>
    decreases s.len(),
{
    if s.len() == 0 {
        Seq::empty()
    } else {
        (if s[0].1 == a {
            seq![s[0].0]
        } else {
            Seq::empty()
        }) + keys_of(s.drop_first(), a)
    }
}

/// The action bound to `k`, if any.
pub open spec fn lookup(s: Seq<BindingEntry>, k: BindingKey) -> Option<Action>
    decreases s.len(),
{
    if s.len() == 0 {
        None
    } else if s[0].0 == k {
        Some(s[0].1)
    } else {
        lookup(s.drop_first(), k)
    }
}

pub proof fn lemma_sorted_drop_first(s: Seq<BindingEntry>)
    requires
        sorted_entries(s),
        s.len() > 0,
    ensures
        sorted_entries(s.drop_first()),
{
    assert forall|i: int, j: int| 0 <= i < j < s.drop_first().len() implies key_lt(
        #[trigger] s.drop_first()[i].0,
        #[trigger] s.drop_first()[j].0,
    ) by {
        assert(s.drop_first()[i] == s[i + 1]);
        assert(s.drop_first()[j] == s[j + 1]);
    }
}

pub proof fn lemma_lookup_at(s: Seq<BindingEntry>, n: int)
    requires
        sorted_entries(s),
        0 <= n < s.len(),
    ensures
        lookup(s, s[n].0) == Some(s[n].1),
    decreases s.len(),
{
    if n > 0 {
        assert(key_lt(s[0].0, s[n].0));
        lemma_key_lt_irreflexive(s[n].0);
        lemma_sorted_drop_first(s);
        assert(s.drop_first()[n - 1] == s[n]);
        lemma_lookup_at(s.drop_first(), n - 1);
    }
}

pub proof fn lemma_lookup_absent(s: Seq<BindingEntry>, k: BindingKey)
    requires
        forall|i: int| 0 <= i < s.len() ==> (#[trigger] s[i]).0 != k,
    ensures
        lookup(s, k) is None,
    decreases s.len(),
{
    if s.len() > 0 {
        assert(s[0].0 != k);
        assert forall|i: int| 0 <= i < s.drop_first().len() implies (
        #[trigger] s.drop_first()[i]).0 != k by {
            assert(s.drop_first()[i] == s[i + 1]);
        }
        lemma_lookup_absent(s.drop_first(), k);
    }
}

/// The table as a map from binding to action.
pub open spec fn entries_map(s: Seq<BindingEntry>) -> Map<BindingKey, Action> {
    Map::new(|k: BindingKey| lookup(s, k) is Some, |k: BindingKey| lookup(s, k)->0)
}

proof fn lemma_lookup_insert(s: Seq<BindingEntry>, k: BindingKey, a: Action, q: BindingKey)
    ensures
        lookup(seq_insert(s, k, a), q) == (if q == k {
            Some(a)
        } else {
            lookup(s, q)
        }),
    decreases s.len(),
{
    if s.len() == 0 {
        assert(seq![(k, a)].drop_first() =~= Seq::<BindingEntry>::empty());
        assert(lookup(Seq::<BindingEntry>::empty(), q) is None);
    } else {
        if key_lt(s[0].0, k) {
            lemma_key_lt_irreflexive(k);
            lemma_lookup_insert(s.drop_first(), k, a, q);
            let t = seq![s[0]] + seq_insert(s.drop_first(), k, a);
            assert(t.drop_first() =~= seq_insert(s.drop_first(), k, a));
        } else if s[0].0 == k {
            let t = seq![(k, a)] + s.drop_first();
            assert(t.drop_first() =~= s.drop_first());
        } else {
            let t = seq![(k, a)] + s;
            assert(t.drop_first() =~= s);
        }
    }
}

proof fn lemma_lookup_remove(s: Seq<BindingEntry>, k: BindingKey, q: BindingKey)
    ensures
        lookup(seq_remove(s, k), q) == (if q == k {
            None
        } else {
            lookup(s, q)
        }),
    decreases s.len(),
{
    if s.len() > 0 {
        lemma_lookup_remove(s.drop_first(), k, q);
        if s[0].0 == k {
            assert(seq_remove(s, k) =~= seq_remove(s.drop_first(), k));
        } else {
            let t = seq![s[0]] + seq_remove(s.drop_first(), k);
            assert(t.drop_first() =~= seq_remove(s.drop_first(), k));
        }
    }
}

/// Binding a key to an action and then reading the key gives the action
/// back; every other key reads as it did before.
pub proof fn law_bind_then_read(s: Seq<BindingEntry>, k: BindingKey, a: Action)
    ensures
        entries_map(seq_insert(s, k, a)) == entries_map(s).insert(k, a),
{
    assert forall|q: BindingKey| #[trigger] lookup(seq_insert(s, k, a), q) == (if q == k {
        Some(a)
    } else {
        lookup(s, q)
    }) by {
        lemma_lookup_insert(s, k, a, q);
    }
    assert(entries_map(seq_insert(s, k, a)) =~= entries_map(s).insert(k, a));
}

/// After a binding is removed its key reads as unbound; every other key
/// reads as it did before.
pub proof fn law_unbind_then_read(s: Seq<BindingEntry>, k: BindingKey)
    ensures
        entries_map(seq_remove(s, k)) == entries_map(s).remove(k),
{
    assert forall|q: BindingKey| #[trigger] lookup(seq_remove(s, k), q) == (if q == k {
        None
    } else {
        lookup(s, q)
    }) by {
        lemma_lookup_remove(s, k, q);
    }
    assert(entries_map(seq_remove(s, k)) =~= entries_map(s).remove(k));
}

pub proof fn lemma_sorted_cons(x: BindingEntry, r: Seq<BindingEntry>)
    requires
        sorted_entries(r),
        forall|j: int| 0 <= j < r.len() ==> key_lt(x.0, (#[trigger] r[j]).0),
    ensures
        sorted_entries(seq![x] + r),
{
    let t = seq![x] + r;
    assert forall|i: int, j: int| 0 <= i < j < t.len() implies key_lt(
        #[trigger] t[i].0,
        #[trigger] t[j].0,
    ) by {
        assert(t[j] == r[j - 1]);
        if i > 0 {
            assert(t[i] == r[i - 1]);
        }
    }
}

pub proof fn lemma_insert_bound(s: Seq<BindingEntry>, k: BindingKey, a: Action, lo: BindingKey)
    requires
        forall|i: int| 0 <= i < s.len() ==> key_lt(lo, (#[trigger] s[i]).0),
        key_lt(lo, k),
    ensures
        forall|j: int|
            0 <= j < seq_insert(s, k, a).len() ==> key_lt(lo, (#[trigger] seq_insert(s, k, a)[j]).0),
    decreases s.len(),
{
    let t = seq_insert(s, k, a);
    if s.len() > 0 {
        let d = s.drop_first();
        assert forall|i: int| 0 <= i < d.len() implies key_lt(lo, (#[trigger] d[i]).0) by {
            assert(d[i] == s[i + 1]);
        }
        lemma_insert_bound(d, k, a, lo);
        assert forall|j: int| 0 <= j < t.len() implies key_lt(lo, (#[trigger] t[j]).0) by {
            if key_lt(s[0].0, k) {
                if j > 0 {
                    assert(t[j] == seq_insert(d, k, a)[j - 1]);
                }
            } else if s[0].0 == k {
                if j > 0 {
                    assert(t[j] == d[j - 1]);
                }
            } else {
                if j > 0 {
                    assert(t[j] == s[j - 1]);
                }
            }
        }
    }
}

pub proof fn lemma_insert_sorted(s: Seq<BindingEntry>, k: BindingKey, a: Action)
    requires
        sorted_entries(s),
    ensures
        sorted_entries(seq_insert(s, k, a)),
        seq_insert(s, k, a).len() > 0,
    decreases s.len(),
{
    if s.len() > 0 {
        let d = s.drop_first();
        lemma_sorted_drop_first(s);
        assert forall|i: int| 0 <= i < d.len() implies key_lt(s[0].0, (#[trigger] d[i]).0) by {
            assert(d[i] == s[i + 1]);
        }
        if key_lt(s[0].0, k) {
            lemma_insert_sorted(d, k, a);
            lemma_insert_bound(d, k, a, s[0].0);
            lemma_sorted_cons(s[0], seq_insert(d, k, a));
        } else if s[0].0 == k {
            lemma_sorted_cons((k, a), d);
        } else {
            lemma_key_lt_total(s[0].0, k);
            assert forall|i: int| 0 <= i < s.len() implies key_lt(k, (#[trigger] s[i]).0) by {
                if i > 0 {
                    lemma_key_lt_transitive(k, s[0].0, s[i].0);
                }
            }
            lemma_sorted_cons((k, a), s);
        }
    }
}

pub proof fn lemma_remove_sorted(s: Seq<BindingEntry>, k: BindingKey, lo: Option<BindingKey>)
    requires
        sorted_entries(s),
        lo matches Some(l) ==> forall|i: int| 0 <= i < s.len() ==> key_lt(l, (#[trigger] s[i]).0),
    ensures
        sorted_entries(seq_remove(s, k)),
        lo matches Some(l) ==> forall|j: int|
            0 <= j < seq_remove(s, k).len() ==> key_lt(l, (#[trigger] seq_remove(s, k)[j]).0),
    decreases s.len(),
{
    if s.len() > 0 {
        let d = s.drop_first();
        lemma_sorted_drop_first(s);
        assert forall|i: int| 0 <= i < d.len() implies key_lt(s[0].0, (#[trigger] d[i]).0) by {
            assert(d[i] == s[i + 1]);
        }
        lemma_remove_sorted(d, k, Some(s[0].0));
        if let Some(l) = lo {
            assert forall|i: int| 0 <= i < d.len() implies key_lt(l, (#[trigger] d[i]).0) by {
                assert(d[i] == s[i + 1]);
            }
            lemma_remove_sorted(d, k, lo);
        }
        if s[0].0 != k {
            lemma_sorted_cons(s[0], seq_remove(d, k));
        } else {
            assert(seq_remove(s, k) =~= seq_remove(d, k));
        }
    }
}

pub proof fn lemma_clear_sorted(s: Seq<BindingEntry>, a: Action, lo: Option<BindingKey>)
    requires
        sorted_entries(s),
        lo matches Some(l) ==> forall|i: int| 0 <= i < s.len() ==> key_lt(l, (#[trigger] s[i]).0),
    ensures
        sorted_entries(seq_clear(s, a)),
        lo matches Some(l) ==> forall|j: int|
            0 <= j < seq_clear(s, a).len() ==> key_lt(l, (#[trigger] seq_clear(s, a)[j]).0),
    decreases s.len(),
{
    if s.len() > 0 {
        let d = s.drop_first();
        lemma_sorted_drop_first(s);
        assert forall|i: int| 0 <= i < d.len() implies key_lt(s[0].0, (#[trigger] d[i]).0) by {
            assert(d[i] == s[i + 1]);
        }
        lemma_clear_sorted(d, a, Some(s[0].0));
        if let Some(l) = lo {
            assert forall|i: int| 0 <= i < d.len() implies key_lt(l, (#[trigger] d[i]).0) by {
                assert(d[i] == s[i + 1]);
            }
            lemma_clear_sorted(d, a, lo);
        }
        if s[0].1 != a {
            lemma_sorted_cons(s[0], seq_clear(d, a));
        } else {
            assert(seq_clear(s, a) =~= seq_clear(d, a));
        }
    }
}

/// A binding table as plain values.
pub open spec fn table_of(v: Seq<(Binding, Action)>) -> Seq<BindingEntry> {
    v.map_values(|e: (Binding, Action)| (e.0@, e.1))
}

/// The action that loses binding `k` when it is given to `a`.
pub open spec fn displaced(s: Seq<BindingEntry>, k: BindingKey, a: Action) -> Option<Action> {
    match lookup(s, k) {
        Some(p) => if p != a {
            Some(p)
        } else {
            None
        },
        None => None,
    }
}

#[verifier::spinoff_prover]
#[verifier::rlimit(40)]
fn insert_entry(v: &mut Vec<(Binding, Action)>, b: Binding, a: Action) -> (r: Option<Action>)
    requires
        sorted_entries(table_of(old(v)@)),
    ensures
        table_of(final(v)@) == seq_insert(table_of(old(v)@), b@, a),
        r == displaced(table_of(old(v)@), b@, a),
{
    let ghost t = table_of(v@);
    let ghost k = b@;
    let mut i: usize = 0;
    proof {
        assert(t.skip(0) =~= t);
        assert(t.take(0) + t =~= t);
    }
    while i < v.len() && binding_less(&v[i].0, &b)
        invariant
            table_of(v@) == t,
            sorted_entries(t),
            k == b@,
            i <= v@.len(),
            seq_insert(t, k, a) == t.take(i as int) + seq_insert(t.skip(i as int), k, a),
            forall|j: int| 0 <= j < i ==> key_lt((#[trigger] t[j]).0, k),
        decreases v@.len() - i,
    {
        proof {
            assert(t[i as int] == (v@[i as int].0@, v@[i as int].1));
            assert(t.skip(i as int)[0] == t[i as int]);
            assert(t.skip(i as int).drop_first() =~= t.skip(i + 1));
            assert(t.take(i + 1) =~= t.take(i as int).push(t[i as int]));
            assert(t.take(i as int) + seq_insert(t.skip(i as int), k, a) =~= t.take(i + 1)
                + seq_insert(t.skip(i + 1), k, a));
        }
        i = i + 1;
    }
    if i < v.len() && binding_same(&v[i].0, &b) {
        let prev = v[i].1;
        proof {
            assert(t[i as int] == (v@[i as int].0@, v@[i as int].1));
            lemma_lookup_at(t, i as int);
            assert(t.skip(i as int)[0] == t[i as int]);
            assert(t.skip(i as int).drop_first() =~= t.skip(i + 1));
        }
        v.set(i, (b, a));
        proof {
            assert(table_of(v@) =~= t.take(i as int) + (seq![(k, a)] + t.skip(i + 1)));
        }
        if prev != a {
            Some(prev)
        } else {
            None
        }
    } else {
        proof {
            if i < t.len() {
                assert(t[i as int] == (v@[i as int].0@, v@[i as int].1));
                lemma_key_lt_total(t[i as int].0, k);
                assert(t.skip(i as int)[0] == t[i as int]);
            } else {
                assert(t.skip(i as int) =~= Seq::<BindingEntry>::empty());
            }
            assert forall|j: int| 0 <= j < t.len() implies (#[trigger] t[j]).0 != k by {
                if j < i {
                    lemma_key_lt_irreflexive(k);
                } else if j > i {
                    lemma_key_lt_transitive(k, t[i as int].0, t[j].0);
                    lemma_key_lt_irreflexive(k);
                }
            }
            lemma_lookup_absent(t, k);
        }
        v.insert(i, (b, a));
        proof {
            assert(table_of(v@) =~= t.take(i as int) + (seq![(k, a)] + t.skip(i as int)));
        }
        None
    }
}

fn remove_entry(v: &mut Vec<(Binding, Action)>, b: &Binding)
    ensures
        table_of(final(v)@) == seq_remove(table_of(old(v)@), b@),
{
    let ghost t = table_of(v@);
    let mut out: Vec<(Binding, Action)> = Vec::new();
    let mut i: usize = 0;
    proof {
        assert(t.skip(0) =~= t);
    }
    while i < v.len()
        invariant
            table_of(v@) == t,
            i <= v@.len(),
            seq_remove(t, b@) == table_of(out@) + seq_remove(t.skip(i as int), b@),
        decreases v@.len() - i,
    {
        let e = &v[i];
        let same = binding_same(&e.0, b);
        proof {
            assert(t[i as int] == (v@[i as int].0@, v@[i as int].1));
            assert(t.skip(i as int)[0] == t[i as int]);
            assert(t.skip(i as int).drop_first() =~= t.skip(i + 1));
        }
        if !same {
            let ghost before = out@;
            out.push((e.0.duplicate(), e.1));
            proof {
                assert(table_of(out@) =~= table_of(before) + seq![t[i as int]]);
            }
        }
        i = i + 1;
    }
    proof {
        assert(t.skip(i as int) =~= Seq::<BindingEntry>::empty());
        assert(table_of(out@) + Seq::<BindingEntry>::empty() =~= table_of(out@));
    }
    *v = out;
}

fn clear_entries(v: &mut Vec<(Binding, Action)>, a: Action)
    ensures
        table_of(final(v)@) == seq_clear(table_of(old(v)@), a),
{
    let ghost t = table_of(v@);
    let mut out: Vec<(Binding, Action)> = Vec::new();
    let mut i: usize = 0;
    proof {
        assert(t.skip(0) =~= t);
    }
    while i < v.len()
        invariant
            table_of(v@) == t,
            i <= v@.len(),
            seq_clear(t, a) == table_of(out@) + seq_clear(t.skip(i as int), a),
        decreases v@.len() - i,
    {
        let e = &v[i];
        proof {
            assert(t[i as int] == (v@[i as int].0@, v@[i as int].1));
            assert(t.skip(i as int)[0] == t[i as int]);
            assert(t.skip(i as int).drop_first() =~= t.skip(i + 1));
        }
        if e.1 != a {
            let ghost before = out@;
            out.push((e.0.duplicate(), e.1));
            proof {
                assert(table_of(out@) =~= table_of(before) + seq![t[i as int]]);
            }
        }
        i = i + 1;
    }
    proof {
        assert(t.skip(i as int) =~= Seq::<BindingEntry>::empty());
        assert(table_of(out@) + Seq::<BindingEntry>::empty() =~= table_of(out@));
    }
    *v = out;
}

/// The default bindings: each action with one of its key texts, in table order.
pub open spec fn default_keys() -> Seq<(Action, Seq<char>)> {
    seq![
        (Action::FileOpen, "CmdCtrl+o"@),
        (Action::FolderOpen, "CmdCtrl+shift+o"@),
        (Action::ImgNext, "d"@),
        (Action::ImgNext, "right"@),
        (Action::ImgNext, "pagedown"@),
        (Action::ImgPrev, "a"@),
        (Action::ImgPrev, "left"@),
        (Action::ImgPrev, "pageup"@),
        (Action::ImgOrig, "q"@),
        (Action::ImgOrig, "1"@),
        (Action::ImgFit, "f"@),
        (Action::ImgFitBest, "e"@),
        (Action::ImgDel, "delete"@),
        (Action::ImgCopy, "CmdCtrl+c"@),
        (Action::ImgPaste, "CmdCtrl+v"@),
        (Action::PanUp, "up"@),
        (Action::PanDown, "down"@),
        (Action::PanLeft, "shift+left"@),
        (Action::PanRight, "shift+right"@),
        (Action::ZoomIn, "plus"@),
        (Action::ZoomIn, "="@),
        (Action::ZoomOut, "minus"@),
        (Action::ZoomOut, "-"@),
        (Action::PlayAnim, "alt+a"@),
        (Action::PlayAnim, "space"@),
        (Action::PlayPresent, "p"@),
        (Action::PlayPresentRandom, "alt+p"@),
        (Action::ToggleFullscreen, "f11"@),
        (Action::ToggleFullscreen, "return"@),
        (Action::ToggleAntialias, "s"@),
        (Action::ToggleTheme, "t"@),
        (Action::ToggleBottomBar, "b"@),
        (Action::Settings, "h"@),
        (Action::Settings, "f1"@),
        (Action::Escape, "escape"@),
    ]
}

/// The default bindings with their key texts.
pub fn default_key_texts() -> (r: Vec<(Action, &'static str)>)
    ensures
        r@.map_values(|e: (Action, &'static str)| (e.0, e.1@)) == default_keys(),
{
    let r = vec![
        (Action::FileOpen, "CmdCtrl+o"),
        (Action::FolderOpen, "CmdCtrl+shift+o"),
        (Action::ImgNext, "d"),
        (Action::ImgNext, "right"),
        (Action::ImgNext, "pagedown"),
        (Action::ImgPrev, "a"),
        (Action::ImgPrev, "left"),
        (Action::ImgPrev, "pageup"),
        (Action::ImgOrig, "q"),
        (Action::ImgOrig, "1"),
        (Action::ImgFit, "f"),
        (Action::ImgFitBest, "e"),
        (Action::ImgDel, "delete"),
        (Action::ImgCopy, "CmdCtrl+c"),
        (Action::ImgPaste, "CmdCtrl+v"),
        (Action::PanUp, "up"),
        (Action::PanDown, "down"),
        (Action::PanLeft, "shift+left"),
        (Action::PanRight, "shift+right"),
        (Action::ZoomIn, "plus"),
        (Action::ZoomIn, "="),
        (Action::ZoomOut, "minus"),
        (Action::ZoomOut, "-"),
        (Action::PlayAnim, "alt+a"),
        (Action::PlayAnim, "space"),
        (Action::PlayPresent, "p"),
        (Action::PlayPresentRandom, "alt+p"),
        (Action::ToggleFullscreen, "f11"),
        (Action::ToggleFullscreen, "return"),
        (Action::ToggleAntialias, "s"),
        (Action::ToggleTheme, "t"),
        (Action::ToggleBottomBar, "b"),
        (Action::Settings, "h"),
        (Action::Settings, "f1"),
        (Action::Escape, "escape"),
    ];
    assert(r@.map_values(|e: (Action, &'static str)| (e.0, e.1@)) =~= default_keys());
    r
}

/// Every action, ordered by its configuration name.
pub open spec fn actions_by_name() -> Seq<Action> {
    seq![
        Action::Escape,
        Action::FileOpen,
        Action::FolderOpen,
        Action::ImgCopy,
        Action::ImgDel,
        Action::ImgFit,
        Action::ImgFitBest,
        Action::ImgNext,
        Action::ImgOrig,
        Action::ImgPaste,
        Action::ImgPrev,
        Action::PanDown,
        Action::PanLeft,
        Action::PanRight,
        Action::PanUp,
        Action::PlayAnim,
        Action::PlayPresent,
        Action::PlayPresentRandom,
        Action::Settings,
        Action::ToggleAntialias,
        Action::ToggleBottomBar,
        Action::ToggleFullscreen,
        Action::ToggleTheme,
        Action::ZoomIn,
        Action::ZoomOut,
    ]
}

/// Every action, ordered by its configuration name.
pub fn actions_by_name_vec() -> (r: Vec<Action>)
    ensures
        r@ == actions_by_name(),
{
    let r = vec![
        Action::Escape,
        Action::FileOpen,
        Action::FolderOpen,
        Action::ImgCopy,
        Action::ImgDel,
        Action::ImgFit,
        Action::ImgFitBest,
        Action::ImgNext,
        Action::ImgOrig,
        Action::ImgPaste,
        Action::ImgPrev,
        Action::PanDown,
        Action::PanLeft,
        Action::PanRight,
        Action::PanUp,
        Action::PlayAnim,
        Action::PlayPresent,
        Action::PlayPresentRandom,
        Action::Settings,
        Action::ToggleAntialias,
        Action::ToggleBottomBar,
        Action::ToggleFullscreen,
        Action::ToggleTheme,
        Action::ZoomIn,
        Action::ZoomOut,
    ];
    assert(r@ =~= actions_by_name());
    r
}

/// The table that the default bindings build, inserted in table order.
pub open spec fn fold_defaults(t: Seq<(Action, Seq<char>)>) -> Seq<BindingEntry>
    decreases t.len(),
{
    if t.len() == 0 {
        Seq::empty()
    } else {
        let s = fold_defaults(t.drop_last());
        match parse_binding(t.last().1) {
            Some(b) => seq_insert(s, b, t.last().0),
            None => s,
        }
    }
}

pub open spec fn default_table() -> Seq<BindingEntry> {
    fold_defaults(default_keys())
}

/// The table after binding each parsable key text to `a`, in order.
pub open spec fn bind_texts(s: Seq<BindingEntry>, a: Action, keys: Seq<Seq<char>>) -> Seq<
    BindingEntry,
>
    decreases keys.len(),
{
    if keys.len() == 0 {
        s
    } else {
        let s2 = bind_texts(s, a, keys.drop_last());
        match parse_binding(keys.last()) {
            Some(b) => seq_insert(s2, b, a),
            None => s2,
        }
    }
}

/// One configuration override: a known action loses its bindings and
/// gets those of the listed texts that parse; an unknown name changes nothing.
pub open spec fn apply_override(s: Seq<BindingEntry>, name: Seq<char>, keys: Seq<Seq<char>>) -> Seq<
    BindingEntry,
> {
    match action_named(name) {
        Some(a) => bind_texts(seq_clear(s, a), a, keys),
        None => s,
    }
}

/// All overrides, applied in order.
pub open spec fn apply_overrides_seq(
    s: Seq<BindingEntry>,
    ov: Seq<(Seq<char>, Seq<Seq<char>>)>,
) -> Seq<BindingEntry>
    decreases ov.len(),
{
    if ov.len() == 0 {
        s
    } else {
        let prev = apply_overrides_seq(s, ov.drop_last());
        apply_override(prev, ov.last().0, ov.last().1)
    }
}

/// Overrides as plain values.
pub open spec fn overrides_view(o: Seq<(String, Vec<String>)>) -> Seq<(Seq<char>, Seq<Seq<char>>)> {
    o.map_values(|e: (String, Vec<String>)| (e.0@, strings_view(e.1@)))
}

pub open spec fn strings_view(v: Seq<String>) -> Seq<Seq<char>> {
    v.map_values(|x: String| x@)
}

/// The overrides that describe a table: every action by name, with the
/// texts of its bindings.
pub open spec fn overrides_of(s: Seq<BindingEntry>) -> Seq<(Seq<char>, Seq<Seq<char>>)> {
    actions_by_name().map_values(
        |a: Action| (action_name(a), keys_of(s, a).map_values(|k: BindingKey| binding_text(k))),
    )
}

/// Where an action stands among the actions ordered by name.
spec fn name_rank(a: Action) -> int {
    match a {
        Action::Escape => 0,
        Action::FileOpen => 1,
        Action::FolderOpen => 2,
        Action::ImgCopy => 3,
        Action::ImgDel => 4,
        Action::ImgFit => 5,
        Action::ImgFitBest => 6,
        Action::ImgNext => 7,
        Action::ImgOrig => 8,
        Action::ImgPaste => 9,
        Action::ImgPrev => 10,
        Action::PanDown => 11,
        Action::PanLeft => 12,
        Action::PanRight => 13,
        Action::PanUp => 14,
        Action::PlayAnim => 15,
        Action::PlayPresent => 16,
        Action::PlayPresentRandom => 17,
        Action::Settings => 18,
        Action::ToggleAntialias => 19,
        Action::ToggleBottomBar => 20,
        Action::ToggleFullscreen => 21,
        Action::ToggleTheme => 22,
        Action::ZoomIn => 23,
        Action::ZoomOut => 24,
    }
}

proof fn lemma_name_rank(a: Action)
    ensures
        0 <= name_rank(a) < actions_by_name().len(),
        actions_by_name().len() == 25,
        actions_by_name()[name_rank(a)] == a,
{
}

proof fn lemma_rank_at(m: int)
    requires
        0 <= m < 25,
    ensures
        name_rank(actions_by_name()[m]) == m,
{
    lemma_name_rank(actions_by_name()[m]);
    assert forall|i: int, j: int| 0 <= i < j < 25 implies actions_by_name()[i] != actions_by_name()[j] by {
        assert(name_rank(actions_by_name()[i]) == i);
        assert(name_rank(actions_by_name()[j]) == j);
    }
}

proof fn lemma_lookup_clear(s: Seq<BindingEntry>, a: Action, q: BindingKey)
    requires
        sorted_entries(s),
    ensures
        lookup(seq_clear(s, a), q) == (if lookup(s, q) == Some(a) {
            None
        } else {
            lookup(s, q)
        }),
    decreases s.len(),
{
    if s.len() == 0 {
    } else {
        let rest = s.drop_first();
        lemma_sorted_drop_first(s);
        lemma_lookup_clear(rest, a, q);
        if s[0].0 == q {
            assert forall|j: int| 0 <= j < rest.len() implies (#[trigger] rest[j]).0 != q by {
                assert(rest[j] == s[j + 1]);
                lemma_key_lt_irreflexive(q);
            }
            lemma_lookup_absent(rest, q);
        }
        if s[0].1 == a {
            assert(seq_clear(s, a) =~= seq_clear(rest, a));
        } else {
            let t = seq![s[0]] + seq_clear(rest, a);
            assert(seq_clear(s, a) == t);
            assert(t.drop_first() =~= seq_clear(rest, a));
        }
    }
}

proof fn lemma_keys_of_members(t: Seq<BindingEntry>, a: Action)
    ensures
        forall|i: int|
            0 <= i < keys_of(t, a).len() ==> exists|j: int|
                0 <= j < t.len() && t[j].0 == #[trigger] keys_of(t, a)[i],
    decreases t.len(),
{
    if t.len() > 0 {
        let rest = t.drop_first();
        lemma_keys_of_members(rest, a);
        let head: Seq<BindingKey> = if t[0].1 == a {
            seq![t[0].0]
        } else {
            Seq::empty()
        };
        assert(keys_of(t, a) == head + keys_of(rest, a));
        assert forall|i: int| 0 <= i < keys_of(t, a).len() implies exists|j: int|
            0 <= j < t.len() && t[j].0 == #[trigger] keys_of(t, a)[i] by {
            if i < head.len() {
                assert(t[0].0 == keys_of(t, a)[i]);
            } else {
                let k = keys_of(rest, a)[i - head.len()];
                assert(keys_of(t, a)[i] == k);
                let j = choose|j: int| 0 <= j < rest.len() && rest[j].0 == k;
                assert(t[j + 1] == rest[j]);
            }
        }
    }
}

proof fn lemma_keys_of_iff(b: Seq<BindingEntry>, a: Action, q: BindingKey)
    requires
        sorted_entries(b),
    ensures
        keys_of(b, a).contains(q) <==> lookup(b, q) == Some(a),
    decreases b.len(),
{
    if b.len() > 0 {
        let rest = b.drop_first();
        lemma_sorted_drop_first(b);
        lemma_keys_of_iff(rest, a, q);
        let head: Seq<BindingKey> = if b[0].1 == a {
            seq![b[0].0]
        } else {
            Seq::empty()
        };
        assert(keys_of(b, a) == head + keys_of(rest, a));
        if keys_of(b, a).contains(q) {
            let i = choose|i: int| 0 <= i < keys_of(b, a).len() && keys_of(b, a)[i] == q;
            if i >= head.len() {
                assert(keys_of(rest, a)[i - head.len()] == q);
            }
        }
        if b[0].0 == q {
            assert forall|j: int| 0 <= j < rest.len() implies (#[trigger] rest[j]).0 != q by {
                assert(rest[j] == b[j + 1]);
                lemma_key_lt_irreflexive(q);
            }
            lemma_lookup_absent(rest, q);
            if b[0].1 == a {
                assert(keys_of(b, a)[0] == q);
            } else {
                lemma_keys_of_members(rest, a);
                if keys_of(rest, a).contains(q) {
                    let i = choose|i: int| 0 <= i < keys_of(rest, a).len() && keys_of(rest, a)[i] == q;
                    let j = choose|j: int| 0 <= j < rest.len() && rest[j].0 == #[trigger] keys_of(rest, a)[i];
                }
            }
        } else if lookup(rest, q) == Some(a) {
            let i = choose|i: int| 0 <= i < keys_of(rest, a).len() && keys_of(rest, a)[i] == q;
            assert(keys_of(b, a)[i + head.len()] == q);
        }
    }
}

proof fn lemma_bind_texts(s: Seq<BindingEntry>, a: Action, ks: Seq<BindingKey>, q: BindingKey)
    requires
        forall|i: int| 0 <= i < ks.len() ==> plain_key((#[trigger] ks[i]).0),
    ensures
        lookup(bind_texts(s, a, ks.map_values(|k: BindingKey| binding_text(k))), q) == (if ks.contains(q) {
            Some(a)
        } else {
            lookup(s, q)
        }),
        sorted_entries(s) ==> sorted_entries(bind_texts(s, a, ks.map_values(|k: BindingKey| binding_text(k)))),
    decreases ks.len(),
{
    if ks.len() > 0 {
        let texts = ks.map_values(|k: BindingKey| binding_text(k));
        let front = ks.drop_last();
        assert(texts.drop_last() =~= front.map_values(|k: BindingKey| binding_text(k)));
        assert(texts.last() == binding_text(ks.last()));
        law_binding_text_round_trip(ks.last().0, ks.last().1);
        lemma_bind_texts(s, a, front, q);
        let s2 = bind_texts(s, a, texts.drop_last());
        lemma_lookup_insert(s2, ks.last(), a, q);
        if sorted_entries(s) {
            lemma_insert_sorted(s2, ks.last(), a);
        }
        if ks.contains(q) && ks.last() != q {
            let i = choose|i: int| 0 <= i < ks.len() && ks[i] == q;
            assert(front[i] == q);
        }
        if front.contains(q) {
            let i = choose|i: int| 0 <= i < front.len() && front[i] == q;
            assert(ks[i] == q);
        }
    }
}

/// What the table holds once the first `m` actions by name have taken the
/// keys that `b` gives them.
spec fn overridden_lookup(b: Seq<BindingEntry>, c: Seq<BindingEntry>, m: int, q: BindingKey) -> Option<Action> {
    if lookup(b, q) is Some && name_rank(lookup(b, q)->0) < m {
        lookup(b, q)
    } else if lookup(c, q) is Some && name_rank(lookup(c, q)->0) >= m {
        lookup(c, q)
    } else {
        None
    }
}

proof fn lemma_overrides_prefix(b: Seq<BindingEntry>, c: Seq<BindingEntry>, m: int)
    requires
        sorted_entries(b),
        sorted_entries(c),
        forall|j: int| 0 <= j < b.len() ==> plain_key((#[trigger] b[j]).0.0),
        0 <= m <= 25,
    ensures
        sorted_entries(apply_overrides_seq(c, overrides_of(b).take(m))),
        forall|q: BindingKey|
            #[trigger] lookup(apply_overrides_seq(c, overrides_of(b).take(m)), q) == overridden_lookup(b, c, m, q),
    decreases m,
{
    let ov = overrides_of(b);
    lemma_name_rank(Action::Escape);
    if m == 0 {
        assert(ov.take(0) =~= Seq::<(Seq<char>, Seq<Seq<char>>)>::empty());
        assert forall|q: BindingKey| #[trigger] lookup(apply_overrides_seq(c, ov.take(m)), q) == overridden_lookup(b, c, m, q) by {
            if lookup(c, q) is Some {
                lemma_name_rank(lookup(c, q)->0);
            }
        }
    } else {
        lemma_overrides_prefix(b, c, m - 1);
        let prev = apply_overrides_seq(c, ov.take(m - 1));
        let a = actions_by_name()[m - 1];
        lemma_rank_at(m - 1);
        assert(ov.take(m).drop_last() =~= ov.take(m - 1));
        let ks = keys_of(b, a);
        assert(ov.take(m).last() == (action_name(a), ks.map_values(|k: BindingKey| binding_text(k))));
        law_action_name_round_trip(a);
        let cleared = seq_clear(prev, a);
        lemma_clear_sorted(prev, a, None);
        lemma_keys_of_members(b, a);
        assert forall|i: int| 0 <= i < ks.len() implies plain_key((#[trigger] ks[i]).0) by {
            let j = choose|j: int| 0 <= j < b.len() && b[j].0 == #[trigger] ks[i];
        }
        assert(apply_overrides_seq(c, ov.take(m)) == bind_texts(cleared, a, ks.map_values(|k: BindingKey| binding_text(k))));
        let dummy_q = (Seq::<char>::empty(), Modifiers { alt: false, cmd_ctrl: false, shift: false });
        lemma_bind_texts(cleared, a, ks, dummy_q);
        assert forall|q: BindingKey| #[trigger] lookup(apply_overrides_seq(c, ov.take(m)), q) == overridden_lookup(b, c, m, q) by {
            lemma_bind_texts(cleared, a, ks, q);
            lemma_lookup_clear(prev, a, q);
            lemma_keys_of_iff(b, a, q);
            assert(lookup(prev, q) == overridden_lookup(b, c, m - 1, q));
            if lookup(b, q) is Some {
                lemma_name_rank(lookup(b, q)->0);
            }
            if lookup(c, q) is Some {
                lemma_name_rank(lookup(c, q)->0);
            }
        }
    }
}

proof fn lemma_sorted_tables_equal(s1: Seq<BindingEntry>, s2: Seq<BindingEntry>)
    requires
        sorted_entries(s1),
        sorted_entries(s2),
        forall|q: BindingKey| #[trigger] lookup(s1, q) == lookup(s2, q),
    ensures
        s1 == s2,
    decreases s1.len() + s2.len(),
{
    if s1.len() == 0 && s2.len() == 0 {
        assert(s1 =~= s2);
    } else if s1.len() == 0 {
        assert(lookup(s2, s2[0].0) is Some);
        assert(lookup(s1, s2[0].0) is None);
    } else if s2.len() == 0 {
        assert(lookup(s1, s1[0].0) is Some);
        assert(lookup(s2, s1[0].0) is None);
    } else {
        let k1 = s1[0].0;
        let k2 = s2[0].0;
        lemma_key_lt_total(k1, k2);
        if k1 != k2 {
            if key_lt(k1, k2) {
                assert forall|j: int| 0 <= j < s2.len() implies (#[trigger] s2[j]).0 != k1 by {
                    if j > 0 {
                        lemma_key_lt_transitive(k1, k2, s2[j].0);
                    }
                    lemma_key_lt_irreflexive(k1);
                }
                lemma_lookup_absent(s2, k1);
                assert(lookup(s1, k1) is Some);
            } else {
                assert forall|j: int| 0 <= j < s1.len() implies (#[trigger] s1[j]).0 != k2 by {
                    if j > 0 {
                        lemma_key_lt_transitive(k2, k1, s1[j].0);
                    }
                    lemma_key_lt_irreflexive(k2);
                }
                lemma_lookup_absent(s1, k2);
                assert(lookup(s2, k2) is Some);
            }
        } else {
            assert(lookup(s1, k1) == Some(s1[0].1));
            assert(lookup(s2, k1) == Some(s2[0].1));
            let r1 = s1.drop_first();
            let r2 = s2.drop_first();
            lemma_sorted_drop_first(s1);
            lemma_sorted_drop_first(s2);
            assert forall|j: int| 0 <= j < r1.len() implies (#[trigger] r1[j]).0 != k1 by {
                assert(r1[j] == s1[j + 1]);
                lemma_key_lt_irreflexive(k1);
            }
            assert forall|j: int| 0 <= j < r2.len() implies (#[trigger] r2[j]).0 != k1 by {
                assert(r2[j] == s2[j + 1]);
                lemma_key_lt_irreflexive(k1);
            }
            lemma_lookup_absent(r1, k1);
            lemma_lookup_absent(r2, k1);
            assert forall|q: BindingKey| #[trigger] lookup(r1, q) == lookup(r2, q) by {
                if q != k1 {
                    assert(lookup(s1, q) == lookup(r1, q));
                    assert(lookup(s2, q) == lookup(r2, q));
                }
            }
            lemma_sorted_tables_equal(r1, r2);
            assert(s1[0] == s2[0]);
            assert(s1.len() == s2.len());
            assert forall|i: int| 0 <= i < s1.len() implies s1[i] == s2[i] by {
                if i > 0 {
                    assert(s1[i] == r1[i - 1]);
                    assert(s2[i] == r2[i - 1]);
                }
            }
            assert(s1 =~= s2);
        }
    }
}

/// Applying a table's own overrides to any table gives that table back,
/// when its keys are written as the configuration writes them: after
/// `c.apply_overrides(&b.to_overrides())`, `c` binds exactly what `b` binds.
pub proof fn law_overrides_round_trip(b: Seq<BindingEntry>, c: Seq<BindingEntry>)
    requires
        sorted_entries(b),
        sorted_entries(c),
        forall|j: int| 0 <= j < b.len() ==> plain_key((#[trigger] b[j]).0.0),
    ensures
        apply_overrides_seq(c, overrides_of(b)) == b,
        entries_map(apply_overrides_seq(c, overrides_of(b))) == entries_map(b),
{
    lemma_overrides_prefix(b, c, 25);
    lemma_name_rank(Action::Escape);
    assert(overrides_of(b).take(25) =~= overrides_of(b));
    let r = apply_overrides_seq(c, overrides_of(b));
    assert forall|q: BindingKey| #[trigger] lookup(r, q) == lookup(b, q) by {
        if lookup(b, q) is Some {
            lemma_name_rank(lookup(b, q)->0);
        }
        if lookup(c, q) is Some {
            lemma_name_rank(lookup(c, q)->0);
        }
    }
    assert(entries_map(r) =~= entries_map(b));
    lemma_sorted_tables_equal(r, b);
}

/// The key bindings in force: a table from binding to action, kept in the
/// order of the bindings.
#[derive(Debug)]
pub struct Bindings {
    entries: Vec<(Binding, Action)>,
}

impl View for Bindings {
    type V = Map<BindingKey, Action>;

    open spec fn view(&self) -> Map<BindingKey, Action> {
        entries_map(self.table())
    }
}

impl Bindings {
    /// The table, in the order of the bindings.
    pub closed spec fn table(&self) -> Seq<BindingEntry> {
        table_of(self.entries@)
    }

    #[verifier::type_invariant]
    closed spec fn ordered(&self) -> bool {
        sorted_entries(table_of(self.entries@))
    }
}

impl Clone for Bindings {
    fn clone(&self) -> (r: Self)
        ensures
            r.table() == self.table(),
    {
        proof {
            use_type_invariant(self);
        }
        let mut v: Vec<(Binding, Action)> = Vec::new();
        let mut i: usize = 0;
        while i < self.entries.len()
            invariant
                i <= self.entries@.len(),
                table_of(v@) == table_of(self.entries@).take(i as int),
            decreases self.entries@.len() - i,
        {
            let ghost before = v@;
            v.push((self.entries[i].0.duplicate(), self.entries[i].1));
            proof {
                assert(table_of(v@) =~= table_of(before).push(table_of(self.entries@)[i as int]));
                assert(table_of(self.entries@).take(i + 1) =~= table_of(self.entries@).take(
                    i as int,
                ).push(table_of(self.entries@)[i as int]));
            }
            i = i + 1;
        }
        proof {
            assert(table_of(self.entries@).take(i as int) =~= table_of(self.entries@));
        }
        Bindings { entries: v }
    }
}

impl Default for Bindings {
    fn default() -> (r: Self)
        ensures
            r.table() == default_table(),
    {
        let list = default_key_texts();
        let ghost keys = list@.map_values(|e: (Action, &'static str)| (e.0, e.1@));
        let mut v: Vec<(Binding, Action)> = Vec::new();
        let mut i: usize = 0;
        proof {
            assert(keys.take(0) =~= Seq::<(Action, Seq<char>)>::empty());
            assert(table_of(v@) =~= Seq::<BindingEntry>::empty());
        }
        while i < list.len()
            invariant
                keys == list@.map_values(|e: (Action, &'static str)| (e.0, e.1@)),
                keys == default_keys(),
                i <= list@.len(),
                table_of(v@) == fold_defaults(keys.take(i as int)),
                sorted_entries(table_of(v@)),
            decreases list@.len() - i,
        {
            let (a, text) = list[i];
            proof {
                assert(keys.take(i + 1).drop_last() =~= keys.take(i as int));
                assert(keys.take(i + 1).last() == keys[i as int]);
            }
            match Binding::parse(text) {
                Some(b) => {
                    proof {
                        lemma_insert_sorted(table_of(v@), b@, a);
                    }
                    insert_entry(&mut v, b, a);
                },
                None => {},
            }
            i = i + 1;
        }
        proof {
            assert(keys.take(i as int) =~= keys);
        }
        Bindings { entries: v }
    }
}

impl Bindings {
    /// The action bound to a key (compared without ASCII case) and modifiers.
    pub fn action_for(&self, key: &str, modifiers: Modifiers) -> (r: Option<Action>)
        ensures
            r == lookup(self.table(), (ascii_lower(key@), modifiers)),
    {
        let probe = Binding { key: crate::text::to_ascii_lowercase(key), modifiers };
        let ghost t = self.table();
        let ghost k = probe@;
        let mut i: usize = 0;
        proof {
            assert(t.skip(0) =~= t);
        }
        while i < self.entries.len()
            invariant
                t == table_of(self.entries@),
                k == probe@,
                k == (ascii_lower(key@), modifiers),
                i <= self.entries@.len(),
                lookup(t, k) == lookup(t.skip(i as int), k),
            decreases self.entries@.len() - i,
        {
            proof {
                assert(t[i as int] == (self.entries@[i as int].0@, self.entries@[i as int].1));
                assert(t.skip(i as int)[0] == t[i as int]);
                assert(t.skip(i as int).drop_first() =~= t.skip(i + 1));
            }
            if binding_same(&self.entries[i].0, &probe) {
                assert(t[i as int].0 == k);
                assert(lookup(t.skip(i as int), k) == Some(t[i as int].1));
                return Some(self.entries[i].1);
            }
            i = i + 1;
        }
        None
    }

    /// The bindings of an action, in binding order.
    pub fn keys_for(&self, action: Action) -> (r: Vec<Binding>)
        ensures
            r@.map_values(|b: Binding| b@) == keys_of(self.table(), action),
    {
        let ghost t = self.table();
        let mut r: Vec<Binding> = Vec::new();
        let mut i: usize = 0;
        proof {
            assert(t.skip(0) =~= t);
            assert(r@.map_values(|b: Binding| b@) + keys_of(t, action) =~= keys_of(t, action));
        }
        while i < self.entries.len()
            invariant
                t == table_of(self.entries@),
                i <= self.entries@.len(),
                keys_of(t, action) == r@.map_values(|b: Binding| b@) + keys_of(
                    t.skip(i as int),
                    action,
                ),
            decreases self.entries@.len() - i,
        {
            proof {
                assert(t[i as int] == (self.entries@[i as int].0@, self.entries@[i as int].1));
                assert(t.skip(i as int)[0] == t[i as int]);
                assert(t.skip(i as int).drop_first() =~= t.skip(i + 1));
            }
            let ghost before = r@;
            if self.entries[i].1 == action {
                r.push(self.entries[i].0.duplicate());
                proof {
                    assert(r@.map_values(|b: Binding| b@) =~= before.map_values(|b: Binding| b@)
                        + seq![t[i as int].0]);
                }
            }
            i = i + 1;
        }
        proof {
            assert(t.skip(i as int) =~= Seq::<BindingEntry>::empty());
            assert(r@.map_values(|b: Binding| b@) + Seq::<BindingKey>::empty() =~= r@.map_values(
                |b: Binding| b@,
            ));
        }
        r
    }

    /// Binds `binding` to `action`, keeping every other binding; returns the
    /// action that held the binding before, if it was another one.
    pub fn set_binding(&mut self, action: Action, binding: Binding) -> (r: Option<Action>)
        ensures
            final(self).table() == seq_insert(old(self).table(), binding@, action),
            final(self)@ == old(self)@.insert(binding@, action),
            r == displaced(old(self).table(), binding@, action),
    {
        proof {
            use_type_invariant(&*self);
            law_bind_then_read(self.table(), binding@, action);
        }
        let mut v: Vec<(Binding, Action)> = Vec::new();
        std::mem::swap(&mut v, &mut self.entries);
        let ghost t = table_of(v@);
        let r = insert_entry(&mut v, binding, action);
        proof {
            lemma_insert_sorted(t, binding@, action);
        }
        self.entries = v;
        r
    }

    /// Removes one binding.
    pub fn remove_binding(&mut self, binding: &Binding)
        ensures
            final(self).table() == seq_remove(old(self).table(), binding@),
            final(self)@ == old(self)@.remove(binding@),
    {
        proof {
            use_type_invariant(&*self);
            law_unbind_then_read(self.table(), binding@);
        }
        let mut v: Vec<(Binding, Action)> = Vec::new();
        std::mem::swap(&mut v, &mut self.entries);
        let ghost t = table_of(v@);
        remove_entry(&mut v, binding);
        proof {
            lemma_remove_sorted(t, binding@, None);
        }
        self.entries = v;
    }

    /// Removes every binding of an action.
    pub fn clear_action(&mut self, action: Action)
        ensures
            final(self).table() == seq_clear(old(self).table(), action),
    {
        proof {
            use_type_invariant(&*self);
        }
        let mut v: Vec<(Binding, Action)> = Vec::new();
        std::mem::swap(&mut v, &mut self.entries);
        let ghost t = table_of(v@);
        clear_entries(&mut v, action);
        proof {
            lemma_clear_sorted(t, action, None);
        }
        self.entries = v;
    }

    /// Makes `binding` the only binding of `action`.
    pub fn rebind(&mut self, action: Action, binding: Binding) -> (r: Option<Action>)
        ensures
            final(self).table() == seq_insert(seq_clear(old(self).table(), action), binding@, action),
            r == displaced(seq_clear(old(self).table(), action), binding@, action),
    {
        self.clear_action(action);
        self.set_binding(action, binding)
    }

    /// Restores the default bindings.
    pub fn reset_to_defaults(&mut self)
        ensures
            final(self).table() == default_table(),
    {
        *self = Self::default();
    }

    /// The bindings as configuration overrides: every action by name, with
    /// the texts of its bindings.
    pub fn to_overrides(&self) -> (r: Vec<(String, Vec<String>)>)
        ensures
            overrides_view(r@) == overrides_of(self.table()),
            sorted_entries(self.table()),
    {
        proof {
            use_type_invariant(self);
        }
        let names = actions_by_name_vec();
        let mut r: Vec<(String, Vec<String>)> = Vec::new();
        let mut i: usize = 0;
        while i < names.len()
            invariant
                names@ == actions_by_name(),
                i <= names@.len(),
                overrides_view(r@) == overrides_of(self.table()).take(i as int),
            decreases names@.len() - i,
        {
            let a = names[i];
            let keys = self.keys_for(a);
            let mut texts: Vec<String> = Vec::new();
            let mut j: usize = 0;
            while j < keys.len()
                invariant
                    j <= keys@.len(),
                    keys@.map_values(|b: Binding| b@) == keys_of(self.table(), a),
                    strings_view(texts@) == keys_of(self.table(), a).take(j as int).map_values(
                        |k: BindingKey| binding_text(k),
                    ),
                decreases keys@.len() - j,
            {
                let text = keys[j].to_config_string();
                let ghost before = texts@;
                let ghost kv = keys_of(self.table(), a);
                texts.push(text);
                proof {
                    assert(keys@.map_values(|b: Binding| b@)[j as int] == keys@[j as int]@);
                    assert(kv[j as int] == keys@[j as int]@);
                    assert(strings_view(texts@) =~= strings_view(before).push(text@));
                    assert(kv.take(j + 1).map_values(|k: BindingKey| binding_text(k)) =~= kv.take(
                        j as int,
                    ).map_values(|k: BindingKey| binding_text(k)).push(binding_text(kv[j as int])));
                }
                j = j + 1;
            }
            proof {
                assert(keys_of(self.table(), a).take(j as int) =~= keys_of(self.table(), a));
            }
            let ghost before = r@;
            let name = String::from_str(a.name());
            let ghost entry = (name@, strings_view(texts@));
            r.push((name, texts));
            proof {
                assert(entry == overrides_of(self.table())[i as int]);
                assert(overrides_view(r@) =~= overrides_view(before).push(entry));
                assert(overrides_of(self.table()).take(i + 1) =~= overrides_of(self.table()).take(
                    i as int,
                ).push(overrides_of(self.table())[i as int]));
            }
            i = i + 1;
        }
        proof {
            assert(overrides_of(self.table()).take(i as int) =~= overrides_of(self.table()));
        }
        r
    }

    /// Whether the table differs from the default one.
    pub fn differs_from_defaults(&self) -> (r: bool)
        ensures
            r == (self.table() != default_table()),
    {
        let d = Self::default();
        assert(self.table().len() == self.entries@.len());
        assert(d.table().len() == d.entries@.len());
        if d.entries.len() != self.entries.len() {
            return true;
        }
        let ghost t = self.table();
        let ghost u = d.table();
        let mut i: usize = 0;
        while i < self.entries.len()
            invariant
                t == table_of(self.entries@),
                u == table_of(d.entries@),
                u == default_table(),
                t.len() == u.len(),
                i <= t.len(),
                forall|j: int| 0 <= j < i ==> t[j] == u[j],
            decreases t.len() - i,
        {
            proof {
                assert(t[i as int] == (self.entries@[i as int].0@, self.entries@[i as int].1));
                assert(u[i as int] == (d.entries@[i as int].0@, d.entries@[i as int].1));
            }
            if !binding_same(&self.entries[i].0, &d.entries[i].0) || self.entries[i].1
                != d.entries[i].1 {
                assert(t[i as int] != u[i as int]);
                assert(t != u);
                return true;
            }
            i = i + 1;
        }
        assert(t =~= u);
        false
    }

    /// Applies configuration overrides in order: each known action loses its
    /// bindings and gets the listed ones that parse.
    pub fn apply_overrides(&mut self, overrides: &Vec<(String, Vec<String>)>)
        ensures
            final(self).table() == apply_overrides_seq(old(self).table(), overrides_view(overrides@)),
            sorted_entries(old(self).table()),
    {
        proof {
            use_type_invariant(&*self);
        }
        let ghost start = self.table();
        let ghost ov = overrides_view(overrides@);
        let mut i: usize = 0;
        proof {
            assert(ov.take(0) =~= Seq::<(Seq<char>, Seq<Seq<char>>)>::empty());
        }
        while i < overrides.len()
            invariant
                ov == overrides_view(overrides@),
                i <= overrides@.len(),
                self.table() == apply_overrides_seq(start, ov.take(i as int)),
            decreases overrides@.len() - i,
        {
            proof {
                assert(ov.take(i + 1).drop_last() =~= ov.take(i as int));
                assert(ov.take(i + 1).last() == ov[i as int]);
            }
            let name = &overrides[i].0;
            let keys = &overrides[i].1;
            match Action::from_name(name.as_str()) {
                None => {},
                Some(a) => {
                    self.clear_action(a);
                    let ghost cleared = self.table();
                    let ghost texts = strings_view(keys@);
                    let mut j: usize = 0;
                    proof {
                        assert(texts.take(0) =~= Seq::<Seq<char>>::empty());
                    }
                    while j < keys.len()
                        invariant
                            texts == strings_view(keys@),
                            j <= keys@.len(),
                            self.table() == bind_texts(cleared, a, texts.take(j as int)),
                        decreases keys@.len() - j,
                    {
                        proof {
                            assert(texts.take(j + 1).drop_last() =~= texts.take(j as int));
                            assert(texts.take(j + 1).last() == keys@[j as int]@);
                        }
                        match Binding::parse(keys[j].as_str()) {
                            Some(b) => {
                                self.set_binding(a, b);
                            },
                            None => {},
                        }
                        j = j + 1;
                    }
                    proof {
                        assert(texts.take(j as int) =~= texts);
                    }
                },
            }
            i = i + 1;
        }
        proof {
            assert(ov.take(i as int) =~= ov);
        }
    }
}

/// An external command with its template placeholders filled in.
#[derive(Debug, Clone, PartialEq, Eq)]
pub struct ResolvedCommand {
    pub program: String,
    pub args: Vec<String>,
    pub envs: Vec<(String, String)>,
}

/// The values that the placeholders of a command template stand for.
pub struct TemplateContext<'a> {
    pub file_path: &'a str,
    pub folder_path: &'a str,
    pub file_name: &'a str,
}

/// A template with `${file}`, then `${folder}`, then `${name}` replaced.
pub open spec fn expanded(t: Seq<char>, file: Seq<char>, folder: Seq<char>, name: Seq<char>) -> Seq<
    char,
> {
    replace_all(replace_all(replace_all(t, "${file}"@, file), "${folder}"@, folder), "${name}"@, name)
}

/// Fills the placeholders of a command template.
pub fn expand_template(template: &str, ctx: &TemplateContext<'_>) -> (r: String)
    ensures
        r@ == expanded(template@, ctx.file_path@, ctx.folder_path@, ctx.file_name@),
{
    proof {
        reveal_strlit("${file}");
        reveal_strlit("${folder}");
        reveal_strlit("${name}");
    }
    let t = chars_of(template);
    let p1 = chars_of("${file}");
    let p2 = chars_of("${folder}");
    let p3 = chars_of("${name}");
    let v1 = chars_of(ctx.file_path);
    let v2 = chars_of(ctx.folder_path);
    let v3 = chars_of(ctx.file_name);
    let a = replace_chars(t.as_slice(), p1.as_slice(), v1.as_slice());
    let b = replace_chars(a.as_slice(), p2.as_slice(), v2.as_slice());
    let c = replace_chars(b.as_slice(), p3.as_slice(), v3.as_slice());
    string_of(c.as_slice())
}

/// A command definition with its program, arguments and environment values expanded.
pub fn resolve_command(definition: &CommandDefinition, ctx: &TemplateContext<'_>) -> (r:
    ResolvedCommand)
    ensures
        r.program@ == expanded(definition.program@, ctx.file_path@, ctx.folder_path@, ctx.file_name@),
        r.args@.len() == definition.args@.len(),
        forall|i: int|
            0 <= i < r.args@.len() ==> (#[trigger] r.args@[i])@ == expanded(
                definition.args@[i]@,
                ctx.file_path@,
                ctx.folder_path@,
                ctx.file_name@,
            ),
        r.envs@.len() == definition.envs@.len(),
        forall|i: int|
            0 <= i < r.envs@.len() ==> (#[trigger] r.envs@[i]).0@ == definition.envs@[i].0@ && r.envs@[i].1@
                == expanded(definition.envs@[i].1@, ctx.file_path@, ctx.folder_path@, ctx.file_name@),
{
    let program = expand_template(definition.program.as_str(), ctx);
    let mut args: Vec<String> = Vec::new();
    let mut i: usize = 0;
    while i < definition.args.len()
        invariant
            i <= definition.args@.len(),
            args@.len() == i,
            forall|j: int|
                0 <= j < i ==> (#[trigger] args@[j])@ == expanded(
                    definition.args@[j]@,
                    ctx.file_path@,
                    ctx.folder_path@,
                    ctx.file_name@,
                ),
        decreases definition.args@.len() - i,
    {
        args.push(expand_template(definition.args[i].as_str(), ctx));
        i = i + 1;
    }
    let mut envs: Vec<(String, String)> = Vec::new();
    let mut k: usize = 0;
    while k < definition.envs.len()
        invariant
            k <= definition.envs@.len(),
            envs@.len() == k,
            forall|j: int|
                0 <= j < k ==> (#[trigger] envs@[j]).0@ == definition.envs@[j].0@ && envs@[j].1@
                    == expanded(
                    definition.envs@[j].1@,
                    ctx.file_path@,
                    ctx.folder_path@,
                    ctx.file_name@,
                ),
        decreases definition.envs@.len() - k,
    {
        let name = definition.envs[k].0.clone();
        let value = expand_template(definition.envs[k].1.as_str(), ctx);
        envs.push((name, value));
        k = k + 1;
    }
    ResolvedCommand { program, args, envs }
}

} // verus!
