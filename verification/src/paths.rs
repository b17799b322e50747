//! The parts of a file path, as `std::path::Path` splits them.
use vstd::prelude::*;

verus! {

/// The parent of a path (`Path::parent`), if it has one.
pub uninterp spec fn path_parent(p: Seq<char>) -> Option<Seq<char>>;

/// The last component of a path (`Path::file_name`), if it is a normal one.
pub uninterp spec fn path_file_name(p: Seq<char>) -> Option<Seq<char>>;

/// The extension of a path's file name (`Path::extension`), if it has one.
pub uninterp spec fn path_extension(p: Seq<char>) -> Option<Seq<char>>;

/// Whether two paths are equal component by component (`Path::eq`).
pub uninterp spec fn path_eq(a: Seq<char>, b: Seq<char>) -> bool;

pub open spec fn opt_text(o: Option<String>) -> Option<Seq<char>> {
    match o {
        Some(s) => Some(s@),
        None => None,
    }
}

/// `Path::parent`, on a path given as text; the result is a prefix of the
/// path and so is converted back without loss. The result is named, not stated.
#[verifier::external_body]
pub(crate) fn parent_of(p: &str) -> (r: Option<String>)
    ensures
        opt_text(r) == path_parent(p@),
{
    std::path::Path::new(p).parent().map(|q| q.to_string_lossy().into_owned())
}

/// `Path::file_name`, on a path given as text. The result is named, not stated.
#[verifier::external_body]
pub(crate) fn file_name_of(p: &str) -> (r: Option<String>)
    ensures
        opt_text(r) == path_file_name(p@),
{
    std::path::Path::new(p).file_name().map(|q| q.to_string_lossy().into_owned())
}

/// An ASCII letter or digit.
pub open spec fn plain_char(c: char) -> bool {
    ('a' <= c && c <= 'z') || ('A' <= c && c <= 'Z') || ('0' <= c && c <= '9')
}

/// A bare file name of ASCII letters and digits with one dot at place `i`,
/// neither first nor last, such as "a.png".
pub open spec fn plain_dotted_name(p: Seq<char>, i: int) -> bool {
    &&& 0 < i < p.len() - 1
    &&& p[i] == '.'
    &&& forall|j: int| 0 <= j < p.len() && j != i ==> plain_char(#[trigger] p[j])
}

/// `Path::extension`, on a path given as text. In general the result is
/// named, not stated; for a bare name such as "a.png" it is what follows
/// the dot, as the documentation of `Path::extension` gives it.
#[verifier::external_body]
pub(crate) fn extension_of_path(p: &str) -> (r: Option<String>)
    ensures
        opt_text(r) == path_extension(p@),
        forall|i: int|
            plain_dotted_name(p@, i) ==> opt_text(r) == Some(p@.subrange(i + 1, p@.len() as int)),
{
    std::path::Path::new(p).extension().map(|q| q.to_string_lossy().into_owned())
}

/// `Path::eq` on paths given as text: they are equal component by
/// component. The result is named; that equal texts are equal paths is
/// stated.
#[verifier::external_body]
pub(crate) fn same_path(a: &str, b: &str) -> (r: bool)
    ensures
        r == path_eq(a@, b@),
        a@ == b@ ==> r,
{
    std::path::Path::new(a) == std::path::Path::new(b)
}

} // verus!
