//! Which installed fonts stand in for the generic families (serif, sans-serif,
//! ...) when SVG text is rendered.
use vstd::prelude::*;

use crate::text::{ascii_lower, to_ascii_lowercase};

verus! {

/// An installed font face: its family names and whether it is monospaced.
#[derive(Debug, Clone)]
pub struct FontFace {
    pub families: Vec<String>,
    pub monospaced: bool,
}

/// The family chosen for each generic family, where one was found.
#[derive(Debug, Clone)]
pub struct GenericFamilies {
    pub serif: Option<String>,
    pub sans_serif: Option<String>,
    pub cursive: Option<String>,
    pub fantasy: Option<String>,
    pub monospace: Option<String>,
}

/// Some face has a family called `name`, ignoring ASCII case.
pub open spec fn family_present(faces: Seq<FontFace>, name: Seq<char>) -> bool {
    exists|i: int, j: int|
        0 <= i < faces.len() && 0 <= j < faces[i].families@.len() && #[trigger] ascii_lower(
            faces[i].families@[j]@,
        ) == ascii_lower(name)
}

/// The first candidate name that is installed.
pub open spec fn first_present_of(faces: Seq<FontFace>, cands: Seq<Seq<char>>) -> Option<Seq<char>>
    decreases cands.len(),
{
    if cands.len() == 0 {
        None
    } else if family_present(faces, cands[0]) {
        Some(cands[0])
    } else {
        first_present_of(faces, cands.drop_first())
    }
}

fn same_ignoring_case(a: &str, b: &str) -> (r: bool)
    ensures
        r == (ascii_lower(a@) == ascii_lower(b@)),
{
    let x = to_ascii_lowercase(a);
    let y = to_ascii_lowercase(b);
    crate::text::same_text(x.as_str(), y.as_str())
}

fn is_present(faces: &[FontFace], name: &str) -> (r: bool)
    ensures
        r == family_present(faces@, name@),
{
    let mut i: usize = 0;
    while i < faces.len()
        invariant
            i <= faces@.len(),
            forall|a: int, b: int|
                0 <= a < i && 0 <= b < faces@[a].families@.len() ==> #[trigger] ascii_lower(
                    faces@[a].families@[b]@,
                ) != ascii_lower(name@),
        decreases faces@.len() - i,
    {
        let fams = &faces[i].families;
        let mut j: usize = 0;
        while j < fams.len()
            invariant
                i < faces@.len(),
                fams@ == faces@[i as int].families@,
                j <= fams@.len(),
                forall|a: int, b: int|
                    0 <= a < i && 0 <= b < faces@[a].families@.len() ==> #[trigger] ascii_lower(
                        faces@[a].families@[b]@,
                    ) != ascii_lower(name@),
                forall|b: int| 0 <= b < j ==> #[trigger] ascii_lower(fams@[b]@) != ascii_lower(name@),
            decreases fams@.len() - j,
        {
            if same_ignoring_case(fams[j].as_str(), name) {
                return true;
            }
            j = j + 1;
        }
        i = i + 1;
    }
    false
}

fn first_present(faces: &[FontFace], candidates: &[&str]) -> (r: Option<String>)
    ensures
        crate::paths::opt_text(r) == first_present_of(faces@, crate::sorting::texts_of(candidates@)),
{
    let ghost all = crate::sorting::texts_of(candidates@);
    let mut k: usize = 0;
    proof {
        assert(all.skip(0) =~= all);
    }
    while k < candidates.len()
        invariant
            k <= candidates@.len(),
            all == crate::sorting::texts_of(candidates@),
            first_present_of(faces@, all) == first_present_of(faces@, all.skip(k as int)),
        decreases candidates@.len() - k,
    {
        proof {
            assert(all.skip(k as int)[0] == candidates@[k as int]@);
            assert(all.skip(k as int).drop_first() =~= all.skip(k + 1));
        }
        if is_present(faces, candidates[k]) {
            return Some(String::from_str(candidates[k]));
        }
        k = k + 1;
    }
    proof {
        assert(all.skip(k as int).len() == 0);
    }
    None
}

/// The face a fallback family comes from: the first face that is (or is
/// not) monospaced as asked, else the first face.
pub open spec fn fallback_face(faces: Seq<FontFace>, monospace: bool) -> Option<int> {
    if exists|i: int| 0 <= i < faces.len() && faces[i].monospaced == monospace {
        Some(
            choose|i: int|
                0 <= i < faces.len() && faces[i].monospaced == monospace && forall|j: int|
                    0 <= j < i ==> (#[trigger] faces[j]).monospaced != monospace,
        )
    } else if faces.len() > 0 {
        Some(0)
    } else {
        None
    }
}

/// The first family of the fallback face, if it has one.
pub open spec fn fallback_family(faces: Seq<FontFace>, monospace: bool) -> Option<Seq<char>> {
    match fallback_face(faces, monospace) {
        Some(i) => if faces[i].families@.len() > 0 {
            Some(faces[i].families@[0]@)
        } else {
            None
        },
        None => None,
    }
}

fn first_of_kind(faces: &[FontFace], monospace: bool) -> (r: Option<usize>)
    ensures
        match r {
            Some(i) => i < faces@.len() && faces@[i as int].monospaced == monospace && forall|j: int|
                0 <= j < i ==> (#[trigger] faces@[j]).monospaced != monospace,
            None => forall|j: int| 0 <= j < faces@.len() ==> (#[trigger] faces@[j]).monospaced != monospace,
        },
{
    let mut i: usize = 0;
    while i < faces.len()
        invariant
            i <= faces@.len(),
            forall|j: int| 0 <= j < i ==> (#[trigger] faces@[j]).monospaced != monospace,
        decreases faces@.len() - i,
    {
        if faces[i].monospaced == monospace {
            return Some(i);
        }
        i = i + 1;
    }
    None
}

fn any_family(faces: &[FontFace], monospace: bool) -> (r: Option<String>)
    ensures
        crate::paths::opt_text(r) == fallback_family(faces@, monospace),
{
    let found = first_of_kind(faces, monospace);
    proof {
        match found {
            Some(index) => {
                let c = choose|c: int|
                    0 <= c < faces@.len() && faces@[c].monospaced == monospace && forall|j: int|
                        0 <= j < c ==> (#[trigger] faces@[j]).monospaced != monospace;
                if c < index {
                    assert(faces@[c].monospaced != monospace);
                }
                if c > index {
                    assert(faces@[index as int].monospaced != monospace);
                }
                assert(fallback_face(faces@, monospace) == Some(index as int));
            },
            None => {
                if exists|c: int| 0 <= c < faces@.len() && faces@[c].monospaced == monospace {
                    let c = choose|c: int| 0 <= c < faces@.len() && faces@[c].monospaced == monospace;
                    assert(faces@[c].monospaced != monospace);
                }
            },
        }
    }
    let index = match found {
        Some(k) => k,
        None => {
            if faces.len() == 0 {
                return None;
            }
            0
        },
    };
    let fams = &faces[index].families;
    if fams.len() > 0 {
        Some(fams[0].clone())
    } else {
        None
    }
}

pub open spec fn or_else(a: Option<Seq<char>>, b: Option<Seq<char>>) -> Option<Seq<char>> {
    match a {
        Some(x) => Some(x),
        None => b,
    }
}

/// The family chosen for each generic family: the first installed of a list
/// of common families, else the first family of the first face of the right
/// kind (monospaced or not), else of the first face.
pub open spec fn generic_choice(faces: Seq<FontFace>) -> (
    Option<Seq<char>>,
    Option<Seq<char>>,
    Option<Seq<char>>,
    Option<Seq<char>>,
    Option<Seq<char>>,
) {
    let fallback = fallback_family(faces, false);
    let mono = or_else(fallback_family(faces, true), fallback);
    (
        or_else(
            first_present_of(
                faces,
                seq![
                    "Times New Roman"@,
                    "Liberation Serif"@,
                    "DejaVu Serif"@,
                    "Noto Serif"@,
                    "Georgia"@,
                ],
            ),
            fallback,
        ),
        or_else(
            first_present_of(
                faces,
                seq![
                    "Arial"@,
                    "Helvetica"@,
                    "Liberation Sans"@,
                    "DejaVu Sans"@,
                    "Noto Sans"@,
                    "Ubuntu"@,
                ],
            ),
            fallback,
        ),
        or_else(
            first_present_of(faces, seq!["Comic Sans MS"@, "Comic Neue"@, "URW Chancery L"@]),
            fallback,
        ),
        or_else(first_present_of(faces, seq!["Impact"@, "Papyrus"@, "Ubuntu"@]), fallback),
        or_else(
            first_present_of(
                faces,
                seq![
                    "Courier New"@,
                    "Liberation Mono"@,
                    "DejaVu Sans Mono"@,
                    "Noto Sans Mono"@,
                    "Ubuntu Mono"@,
                ],
            ),
            mono,
        ),
    )
}

fn pick(found: Option<String>, fallback: &Option<String>) -> (r: Option<String>)
    ensures
        crate::paths::opt_text(r) == or_else(crate::paths::opt_text(found), crate::paths::opt_text(*fallback)),
{
    match found {
        Some(f) => Some(f),
        None => fallback.clone(),
    }
}

/// Chooses an installed family for each generic family.
pub fn resolve_generic_families(faces: &[FontFace]) -> (r: GenericFamilies)
    ensures
        (
            crate::paths::opt_text(r.serif),
            crate::paths::opt_text(r.sans_serif),
            crate::paths::opt_text(r.cursive),
            crate::paths::opt_text(r.fantasy),
            crate::paths::opt_text(r.monospace),
        ) == generic_choice(faces@),
{
    let fallback = any_family(faces, false);
    let mono_first = any_family(faces, true);
    let mono = pick(mono_first, &fallback);
    let serif_list: [&str; 5] = ["Times New Roman", "Liberation Serif", "DejaVu Serif", "Noto Serif", "Georgia"];
    let sans_list: [&str; 6] = ["Arial", "Helvetica", "Liberation Sans", "DejaVu Sans", "Noto Sans", "Ubuntu"];
    let cursive_list: [&str; 3] = ["Comic Sans MS", "Comic Neue", "URW Chancery L"];
    let fantasy_list: [&str; 3] = ["Impact", "Papyrus", "Ubuntu"];
    let mono_list: [&str; 5] = ["Courier New", "Liberation Mono", "DejaVu Sans Mono", "Noto Sans Mono", "Ubuntu Mono"];
    assert(crate::sorting::texts_of(serif_list@) =~= seq![
        "Times New Roman"@,
        "Liberation Serif"@,
        "DejaVu Serif"@,
        "Noto Serif"@,
        "Georgia"@,
    ]);
    assert(crate::sorting::texts_of(sans_list@) =~= seq![
        "Arial"@,
        "Helvetica"@,
        "Liberation Sans"@,
        "DejaVu Sans"@,
        "Noto Sans"@,
        "Ubuntu"@,
    ]);
    assert(crate::sorting::texts_of(cursive_list@) =~= seq!["Comic Sans MS"@, "Comic Neue"@, "URW Chancery L"@]);
    assert(crate::sorting::texts_of(fantasy_list@) =~= seq!["Impact"@, "Papyrus"@, "Ubuntu"@]);
    assert(crate::sorting::texts_of(mono_list@) =~= seq![
        "Courier New"@,
        "Liberation Mono"@,
        "DejaVu Sans Mono"@,
        "Noto Sans Mono"@,
        "Ubuntu Mono"@,
    ]);
    let serif = pick(first_present(faces, serif_list.as_slice()), &fallback);
    let sans_serif = pick(first_present(faces, sans_list.as_slice()), &fallback);
    let cursive = pick(first_present(faces, cursive_list.as_slice()), &fallback);
    let fantasy = pick(first_present(faces, fantasy_list.as_slice()), &fallback);
    let monospace = pick(first_present(faces, mono_list.as_slice()), &mono);
    GenericFamilies { serif, sans_serif, cursive, fantasy, monospace }
}

} // verus!
