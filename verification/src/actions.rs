//! What the image actions work on: the first frame of an image, an image
//! pasted from the clipboard, and the colour theme.
use vstd::prelude::*;

use crate::decode::{Decoded, DecodedImage};

verus! {

/// Why an action could not be carried out.
#[derive(Debug, Clone, PartialEq, Eq)]
pub enum ActionError {
    NoImage,
    Clipboard(String),
    Trash(String),
}

pub open spec fn action_error_text(e: ActionError) -> Seq<char> {
    match e {
        ActionError::NoImage => "no image is open"@,
        ActionError::Clipboard(m) => "clipboard: "@ + m@,
        ActionError::Trash(m) => "trash: "@ + m@,
    }
}

impl ActionError {
    /// The text shown for the error.
    pub fn message(&self) -> (r: String)
        ensures
            r@ == action_error_text(*self),
    {
        match self {
            ActionError::NoImage => String::from_str("no image is open"),
            ActionError::Clipboard(m) => crate::text::concat("clipboard: ", m.as_str()),
            ActionError::Trash(m) => crate::text::concat("trash: ", m.as_str()),
        }
    }
}

/// The still image, or the first frame of an animation.
pub fn first_frame(decoded: &Decoded) -> (r: Option<&DecodedImage>)
    ensures
        match decoded {
            Decoded::Still(img) => r == Some(img),
            Decoded::Animation(fs) => if fs@.len() > 0 {
                r == Some(&fs@[0].image)
            } else {
                r is None
            },
        },
{
    match decoded {
        Decoded::Still(img) => Some(img),
        Decoded::Animation(frames) => {
            if frames.len() > 0 {
                Some(&frames[0].image)
            } else {
                None
            }
        },
    }
}

/// Bytes cut to `n`, or padded with zeros to `n`.
pub open spec fn resized(b: Seq<u8>, n: int) -> Seq<u8> {
    if n <= b.len() {
        b.take(n)
    } else {
        b + Seq::new((n - b.len()) as nat, |i: int| 0u8)
    }
}

/// The image the clipboard holds, given as the clipboard reports it: its
/// width and height (taken as `u32`, as the clipboard's `usize` values are
/// cast) and its bytes, four per pixel. An image with no pixels is refused;
/// bytes missing at the end are taken as zeros, and bytes past the end dropped.
pub fn paste_from_clipboard(width: usize, height: usize, bytes: Vec<u8>) -> (r: Result<DecodedImage, ActionError>)
    requires
        (width as u32) * (height as u32) * 4 <= usize::MAX,
    ensures
        (width as u32 == 0 || height as u32 == 0) ==> r == Err::<DecodedImage, ActionError>(
            ActionError::NoImage,
        ),
        (width as u32 != 0 && height as u32 != 0) ==> (r matches Ok(img) && img.width == width as u32
            && img.height == height as u32 && img.rgba@ == resized(
            bytes@,
            (width as u32) * (height as u32) * 4,
        ) && img.well_sized()),
{
    let w: u32 = width as u32;
    let h: u32 = height as u32;
    if w == 0 || h == 0 {
        return Err(ActionError::NoImage);
    }
    assert((w as int) * (h as int) <= (w as int) * (h as int) * 4) by (nonlinear_arith)
        requires
            w >= 1,
            h >= 1,
    ;
    let pixels: usize = (w as usize) * (h as usize);
    let expected: usize = pixels * 4;
    let mut rgba = bytes;
    if expected <= rgba.len() {
        rgba.truncate(expected);
    } else {
        let ghost start = rgba@;
        while rgba.len() < expected
            invariant
                start.len() <= rgba@.len() <= expected,
                rgba@ == start + Seq::new((rgba@.len() - start.len()) as nat, |i: int| 0u8),
            decreases expected - rgba@.len(),
        {
            let ghost before = rgba@;
            rgba.push(0);
            proof {
                assert(rgba@ =~= start + Seq::new((rgba@.len() - start.len()) as nat, |i: int| 0u8));
            }
        }
    }
    assert(rgba@ =~= resized(bytes@, (w as int) * (h as int) * 4));
    Ok(DecodedImage { width: w, height: h, rgba })
}

/// The colour theme of the interface.
#[derive(Debug, Clone, Copy, PartialEq, Eq, Structural)]
pub enum Theme {
    Light,
    Dark,
}

impl Theme {
    /// The other theme.
    pub open spec fn other(self) -> Theme {
        match self {
            Theme::Light => Theme::Dark,
            Theme::Dark => Theme::Light,
        }
    }

    pub fn toggled(self) -> (r: Theme)
        ensures
            r == self.other(),
    {
        match self {
            Theme::Light => Theme::Dark,
            Theme::Dark => Theme::Light,
        }
    }

    pub fn from_dark(dark: bool) -> (r: Theme)
        ensures
            r == (if dark {
                Theme::Dark
            } else {
                Theme::Light
            }),
    {
        if dark {
            Theme::Dark
        } else {
            Theme::Light
        }
    }

    pub fn is_dark(self) -> (r: bool)
        ensures
            r == (self == Theme::Dark),
    {
        self == Theme::Dark
    }

    /// The window background, as 0xRRGGBB.
    pub fn background(self) -> (r: u32)
        ensures
            r == (match self {
                Theme::Dark => 0x101010u32,
                Theme::Light => 0xf2f2f2u32,
            }),
    {
        match self {
            Theme::Dark => 0x101010,
            Theme::Light => 0xf2f2f2,
        }
    }

    /// The text colour, as 0xRRGGBB.
    pub fn text(self) -> (r: u32)
        ensures
            r == (match self {
                Theme::Dark => 0xd0d0d0u32,
                Theme::Light => 0x202020u32,
            }),
    {
        match self {
            Theme::Dark => 0xd0d0d0,
            Theme::Light => 0x202020,
        }
    }

    /// Toggling twice gives the theme back, and toggling always changes it.
    pub proof fn law_toggle_twice(t: Theme)
        ensures
            t.other().other() == t,
            t.other() != t,
    {
    }
}

} // verus!
