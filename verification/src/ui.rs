//! The interface colours of each theme.
use vstd::prelude::*;

use crate::actions::Theme;

verus! {

/// The colours of the interface, each as 0xRRGGBB.
#[derive(Debug, Clone, Copy, PartialEq, Eq, Structural)]
pub struct Palette {
    pub background: u32,
    pub bar: u32,
    pub surface: u32,
    pub elevated: u32,
    pub border: u32,
    pub border_variant: u32,
    pub text: u32,
    pub text_muted: u32,
    pub text_accent: u32,
    pub element_hover: u32,
    pub element_active: u32,
    pub danger: u32,
    pub close_hover: u32,
}

/// The colours of the dark theme.
pub open spec fn dark_colors() -> Palette {
    Palette {
        background: 0x1a1a1a,
        bar: 0x222222,
        surface: 0x222222,
        elevated: 0x2a2a2a,
        border: 0x3a3a3a,
        border_variant: 0x303030,
        text: 0xcccccc,
        text_muted: 0x888888,
        text_accent: 0xe6e6e6,
        element_hover: 0x323232,
        element_active: 0x3c3c3c,
        danger: 0xcc7a72,
        close_hover: 0xc42b1c,
    }
}

/// The colours of the light theme.
pub open spec fn light_colors() -> Palette {
    Palette {
        background: 0xfafafa,
        bar: 0xf0f0ee,
        surface: 0xf0f0ee,
        elevated: 0xffffff,
        border: 0xd8d8d5,
        border_variant: 0xe4e4e1,
        text: 0x383a41,
        text_muted: 0x7f8188,
        text_accent: 0x5c79e2,
        element_hover: 0xe8e8e6,
        element_active: 0xdfdfdc,
        danger: 0xd36151,
        close_hover: 0xc42b1c,
    }
}

/// The colours of a theme.
pub fn palette(theme: Theme) -> (r: Palette)
    ensures
        r == (if theme == Theme::Dark {
            dark_colors()
        } else {
            light_colors()
        }),
{
    if theme.is_dark() {
        Palette {
            background: 0x1a1a1a,
            bar: 0x222222,
            surface: 0x222222,
            elevated: 0x2a2a2a,
            border: 0x3a3a3a,
            border_variant: 0x303030,
            text: 0xcccccc,
            text_muted: 0x888888,
            text_accent: 0xe6e6e6,
            element_hover: 0x323232,
            element_active: 0x3c3c3c,
            danger: 0xcc7a72,
            close_hover: 0xc42b1c,
        }
    } else {
        Palette {
            background: 0xfafafa,
            bar: 0xf0f0ee,
            surface: 0xf0f0ee,
            elevated: 0xffffff,
            border: 0xd8d8d5,
            border_variant: 0xe4e4e1,
            text: 0x383a41,
            text_muted: 0x7f8188,
            text_accent: 0x5c79e2,
            element_hover: 0xe8e8e6,
            element_active: 0xdfdfdc,
            danger: 0xd36151,
            close_hover: 0xc42b1c,
        }
    }
}

} // verus!
