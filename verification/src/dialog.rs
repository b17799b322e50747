//! Where the open dialogs start.
use vstd::prelude::*;

use crate::paths::{opt_text, parent_of, path_parent};

verus! {

/// The folder an open dialog starts in: the parent of the image shown, if any.
pub fn start_directory(current: Option<&str>) -> (r: Option<String>)
    ensures
        opt_text(r) == (match current {
            Some(p) => path_parent(p@),
            None => None,
        }),
{
    match current {
        Some(p) => parent_of(p),
        None => None,
    }
}

} // verus!
