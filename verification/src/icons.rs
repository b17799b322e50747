//! The interface icons and the two sets they come in.
use vstd::prelude::*;

verus! {

#[derive(Debug, Clone, Copy, PartialEq, Eq, Structural)]
pub enum Icon {
    ArrowLeft,
    ArrowRight,
    Maximize,
    Scan,
    Ratio,
    Play,
    Pause,
    Copy,
    Sparkles,
    Settings,
    Minus,
    Plus,
    Square,
    Close,
    CaptionMinimize,
    CaptionMaximize,
    CaptionRestore,
    CaptionClose,
}

/// The icons drawn from the Lucide set, 24 by 24.
pub const LUCIDE_ICONS: [Icon; 14] = [
    Icon::ArrowLeft,
    Icon::ArrowRight,
    Icon::Maximize,
    Icon::Scan,
    Icon::Ratio,
    Icon::Play,
    Icon::Pause,
    Icon::Copy,
    Icon::Sparkles,
    Icon::Settings,
    Icon::Minus,
    Icon::Plus,
    Icon::Square,
    Icon::Close,
];

/// The window-control glyphs, drawn 10 by 10 to match the host's controls.
pub const CAPTION_ICONS: [Icon; 4] = [
    Icon::CaptionMinimize,
    Icon::CaptionMaximize,
    Icon::CaptionRestore,
    Icon::CaptionClose,
];

/// Each icon is in exactly one of the two sets, and neither set lists an
/// icon twice.
pub proof fn law_icon_sets_disjoint_and_complete()
    ensures
        forall|i: int, j: int|
            0 <= i < 14 && 0 <= j < 4 ==> LUCIDE_ICONS@[i] != CAPTION_ICONS@[j],
        forall|i: int, j: int| 0 <= i < j < 14 ==> LUCIDE_ICONS@[i] != LUCIDE_ICONS@[j],
        forall|i: int, j: int| 0 <= i < j < 4 ==> CAPTION_ICONS@[i] != CAPTION_ICONS@[j],
        forall|x: Icon| LUCIDE_ICONS@.contains(x) || CAPTION_ICONS@.contains(x),
{
    let l = LUCIDE_ICONS@;
    let c = CAPTION_ICONS@;
    assert(l =~= seq![
        Icon::ArrowLeft,
        Icon::ArrowRight,
        Icon::Maximize,
        Icon::Scan,
        Icon::Ratio,
        Icon::Play,
        Icon::Pause,
        Icon::Copy,
        Icon::Sparkles,
        Icon::Settings,
        Icon::Minus,
        Icon::Plus,
        Icon::Square,
        Icon::Close,
    ]);
    assert(c =~= seq![
        Icon::CaptionMinimize,
        Icon::CaptionMaximize,
        Icon::CaptionRestore,
        Icon::CaptionClose,
    ]);
    assert forall|x: Icon| l.contains(x) || c.contains(x) by {
        match x {
            Icon::ArrowLeft => assert(l[0] == x),
            Icon::ArrowRight => assert(l[1] == x),
            Icon::Maximize => assert(l[2] == x),
            Icon::Scan => assert(l[3] == x),
            Icon::Ratio => assert(l[4] == x),
            Icon::Play => assert(l[5] == x),
            Icon::Pause => assert(l[6] == x),
            Icon::Copy => assert(l[7] == x),
            Icon::Sparkles => assert(l[8] == x),
            Icon::Settings => assert(l[9] == x),
            Icon::Minus => assert(l[10] == x),
            Icon::Plus => assert(l[11] == x),
            Icon::Square => assert(l[12] == x),
            Icon::Close => assert(l[13] == x),
            Icon::CaptionMinimize => assert(c[0] == x),
            Icon::CaptionMaximize => assert(c[1] == x),
            Icon::CaptionRestore => assert(c[2] == x),
            Icon::CaptionClose => assert(c[3] == x),
        }
    }
}

} // verus!
