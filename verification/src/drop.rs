//! Files dropped on the window or handed over by the desktop: which of them
//! to open, and the paths that `file://` URLs stand for.
use vstd::prelude::*;

use vstd::utf8::{decode_utf8, encode_utf8, valid_utf8};

use crate::decode::{is_supported, supported_path};
use crate::directory::Directory;
use crate::paths::opt_text;
use crate::text::{after_first, chars_of, occurs_at, split_once_chars, string_of};

verus! {

/// A path can be dropped when it names a folder or an image the viewer opens.
pub open spec fn droppable(path: Seq<char>, is_dir: bool) -> bool {
    is_dir || supported_path(path)
}

/// Whether a path can be dropped; `is_dir` says whether it names a folder.
pub fn is_droppable(path: &str, is_dir: bool) -> (r: bool)
    ensures
        r == droppable(path@, is_dir),
{
    is_dir || is_supported(path)
}

/// The place of the first droppable path among candidates (a path and
/// whether it names a folder).
pub open spec fn first_droppable(c: Seq<(Seq<char>, bool)>) -> Option<int> {
    if exists|i: int| 0 <= i < c.len() && droppable(c[i].0, c[i].1) {
        Some(
            choose|i: int|
                0 <= i < c.len() && droppable(c[i].0, c[i].1) && forall|j: int|
                    0 <= j < i ==> !droppable(#[trigger] c[j].0, c[j].1),
        )
    } else {
        None
    }
}

pub open spec fn candidate_texts(c: Seq<(String, bool)>) -> Seq<(Seq<char>, bool)> {
    c.map_values(|e: (String, bool)| (e.0@, e.1))
}

fn first_droppable_index(candidates: &[(String, bool)]) -> (r: Option<usize>)
    ensures
        match r {
            Some(i) => i < candidates@.len() && first_droppable(candidate_texts(candidates@)) == Some(i as int),
            None => first_droppable(candidate_texts(candidates@)) is None,
        },
{
    let ghost c = candidate_texts(candidates@);
    let mut i: usize = 0;
    while i < candidates.len()
        invariant
            i <= candidates@.len(),
            c == candidate_texts(candidates@),
            forall|j: int| 0 <= j < i ==> !droppable(#[trigger] c[j].0, c[j].1),
        decreases candidates@.len() - i,
    {
        if is_droppable(candidates[i].0.as_str(), candidates[i].1) {
            proof {
                assert(droppable(c[i as int].0, c[i as int].1));
                let k = choose|k: int|
                    0 <= k < c.len() && droppable(c[k].0, c[k].1) && forall|j: int|
                        0 <= j < k ==> !droppable(#[trigger] c[j].0, c[j].1);
                if k < i {
                    assert(!droppable(c[k].0, c[k].1));
                }
                if k > i {
                    assert(!droppable(c[i as int].0, c[i as int].1));
                }
            }
            return Some(i);
        }
        i = i + 1;
    }
    None
}

/// The first droppable path among the candidates.
pub fn target(candidates: &[(String, bool)]) -> (r: Option<String>)
    ensures
        opt_text(r) == (match first_droppable(candidate_texts(candidates@)) {
            Some(i) => Some(candidate_texts(candidates@)[i].0),
            None => None,
        }),
{
    match first_droppable_index(candidates) {
        Some(i) => Some(candidates[i].0.clone()),
        None => None,
    }
}

/// The image to open for a drop: the first droppable path when it is a
/// file; when it is a folder, the image that `opened`, that folder read by
/// `Directory::open_at`, shows.
pub fn resolve(candidates: &[(String, bool)], opened: &Directory) -> (r: Option<String>)
    ensures
        opt_text(r) == (match first_droppable(candidate_texts(candidates@)) {
            Some(i) => if candidate_texts(candidates@)[i].1 {
                if 0 <= opened.position() < opened.listing().len() {
                    Some(opened.listing()[opened.position()])
                } else {
                    None
                }
            } else {
                Some(candidate_texts(candidates@)[i].0)
            },
            None => None,
        }),
{
    match first_droppable_index(candidates) {
        Some(i) => {
            if candidates[i].1 {
                match opened.current() {
                    Some(p) => Some(String::from_str(p)),
                    None => None,
                }
            } else {
                Some(candidates[i].0.clone())
            }
        },
        None => None,
    }
}

/// Queues paths handed over by the desktop.
pub fn request_open(queue: &mut Vec<String>, paths: Vec<String>)
    ensures
        final(queue)@ == old(queue)@ + paths@,
{
    let mut i: usize = 0;
    let ghost start = queue@;
    while i < paths.len()
        invariant
            i <= paths@.len(),
            queue@ == start + paths@.take(i as int),
        decreases paths@.len() - i,
    {
        queue.push(paths[i].clone());
        proof {
            assert(paths@.take(i + 1) =~= paths@.take(i as int).push(paths@[i as int]));
        }
        i = i + 1;
    }
    assert(paths@.take(i as int) =~= paths@);
}

/// Takes every queued path, oldest first.
pub fn take_requested(queue: &mut Vec<String>) -> (r: Vec<String>)
    ensures
        r@ == old(queue)@,
        final(queue)@ == Seq::<String>::empty(),
{
    let mut taken: Vec<String> = Vec::new();
    std::mem::swap(&mut taken, queue);
    taken
}

/// The value of a hexadecimal digit.
pub open spec fn hex_digit(b: u8) -> Option<int> {
    if 0x30 <= b <= 0x39 {
        Some(b - 0x30)
    } else if 0x41 <= b <= 0x46 {
        Some(b - 0x41 + 10)
    } else if 0x61 <= b <= 0x66 {
        Some(b - 0x61 + 10)
    } else {
        None
    }
}

/// The byte an escape `%` `h1` `h2` stands for: two hexadecimal digits, or
/// one after a `+` sign, as `u8::from_str_radix` reads them.
pub open spec fn escaped_byte(h1: u8, h2: u8) -> Option<u8> {
    match (hex_digit(h1), hex_digit(h2)) {
        (Some(a), Some(b)) => Some((16 * a + b) as u8),
        (None, Some(b)) => if h1 == 0x2b {
            Some(b as u8)
        } else {
            None
        },
        _ => None,
    }
}

/// The bytes that percent-encoded bytes stand for; none when an escape is
/// cut short or malformed.
pub open spec fn percent_decoded(bs: Seq<u8>) -> Option<Seq<u8>>
    decreases bs.len(),
{
    if bs.len() == 0 {
        Some(Seq::empty())
    } else if bs[0] != 0x25 {
        match percent_decoded(bs.drop_first()) {
            Some(r) => Some(seq![bs[0]] + r),
            None => None,
        }
    } else if bs.len() < 3 {
        None
    } else {
        match escaped_byte(bs[1], bs[2]) {
            None => None,
            Some(v) => match percent_decoded(bs.skip(3)) {
                Some(r) => Some(seq![v] + r),
                None => None,
            },
        }
    }
}

spec fn prefixed(out: Seq<u8>, rest: Option<Seq<u8>>) -> Option<Seq<u8>> {
    match rest {
        Some(r) => Some(out + r),
        None => None,
    }
}

fn hex_value(b: u8) -> (r: Option<u8>)
    ensures
        match hex_digit(b) {
            Some(v) => r == Some(v as u8),
            None => r is None,
        },
{
    if 0x30 <= b && b <= 0x39 {
        Some(b - 0x30)
    } else if 0x41 <= b && b <= 0x46 {
        Some(b - 0x41 + 10)
    } else if 0x61 <= b && b <= 0x66 {
        Some(b - 0x61 + 10)
    } else {
        None
    }
}

fn escape_value(h1: u8, h2: u8) -> (r: Option<u8>)
    ensures
        r == escaped_byte(h1, h2),
{
    match (hex_value(h1), hex_value(h2)) {
        (Some(a), Some(b)) => Some(16 * a + b),
        (None, Some(b)) => if h1 == 0x2b {
            Some(b)
        } else {
            None
        },
        _ => None,
    }
}

/// Percent-decodes bytes.
pub fn percent_decode_bytes(bs: &[u8]) -> (r: Option<Vec<u8>>)
    ensures
        match percent_decoded(bs@) {
            Some(d) => r matches Some(v) && v@ == d,
            None => r is None,
        },
{
    let mut out: Vec<u8> = Vec::new();
    let mut i: usize = 0;
    proof {
        assert(bs@.skip(0) =~= bs@);
        assert(prefixed(out@, percent_decoded(bs@.skip(0))) =~= percent_decoded(bs@)) by {
            match percent_decoded(bs@) {
                Some(d) => {
                    assert(out@ + d =~= d);
                },
                None => {},
            }
        }
    }
    while i < bs.len()
        invariant
            i <= bs@.len(),
            percent_decoded(bs@) == prefixed(out@, percent_decoded(bs@.skip(i as int))),
        decreases bs@.len() - i,
    {
        let ghost rest = bs@.skip(i as int);
        let b = bs[i];
        if b != 0x25 {
            proof {
                assert(rest[0] == b);
                assert(rest.drop_first() =~= bs@.skip(i + 1));
                match percent_decoded(bs@.skip(i + 1)) {
                    Some(t) => {
                        assert(out@.push(b) + t =~= out@ + (seq![b] + t));
                    },
                    None => {},
                }
            }
            out.push(b);
            i = i + 1;
        } else {
            if bs.len() - i < 3 {
                return None;
            }
            assert(rest[1] == bs@[i + 1] && rest[2] == bs@[i + 2]);
            match escape_value(bs[i + 1], bs[i + 2]) {
                None => {
                    return None;
                },
                Some(v) => {
                    proof {
                        assert(rest.skip(3) =~= bs@.skip(i + 3));
                        match percent_decoded(bs@.skip(i + 3)) {
                            Some(t) => {
                                assert(out@.push(v) + t =~= out@ + (seq![v] + t));
                            },
                            None => {},
                        }
                    }
                    out.push(v);
                    i = i + 3;
                },
            }
        }
    }
    proof {
        assert(bs@.skip(i as int) =~= Seq::<u8>::empty());
        assert(out@ + Seq::<u8>::empty() =~= out@);
    }
    Some(out)
}

/// `String::from_utf8`: bytes that are valid UTF-8 are taken as the text
/// they encode; other bytes are refused.
#[verifier::external_body]
fn string_from_utf8(bytes: Vec<u8>) -> (r: Option<String>)
    ensures
        match r {
            Some(s) => valid_utf8(bytes@) && s@ == decode_utf8(bytes@),
            None => !valid_utf8(bytes@),
        },
{
    String::from_utf8(bytes).ok()
}

/// The text that percent-encoded text stands for; none when an escape is
/// malformed or the bytes are not UTF-8.
pub open spec fn percent_decoded_text(s: Seq<char>) -> Option<Seq<char>> {
    match percent_decoded(encode_utf8(s)) {
        Some(b) => if valid_utf8(b) {
            Some(decode_utf8(b))
        } else {
            None
        },
        None => None,
    }
}

/// Percent-decodes text.
pub fn percent_decode(input: &str) -> (r: Option<String>)
    ensures
        opt_text(r) == percent_decoded_text(input@),
{
    let bytes = input.as_bytes();
    match percent_decode_bytes(bytes) {
        Some(d) => string_from_utf8(d),
        None => None,
    }
}

/// `pat` occurs somewhere in `s`.
pub open spec fn has_text(s: Seq<char>, pat: Seq<char>) -> bool {
    exists|i: int| 0 <= i && i + pat.len() <= s.len() && #[trigger] s.subrange(i, i + pat.len()) == pat
}

fn contains_text(s: &[char], pat: &[char]) -> (r: bool)
    ensures
        r == has_text(s@, pat@),
{
    if pat.len() > s.len() {
        return false;
    }
    let last = s.len() - pat.len();
    let mut i: usize = 0;
    loop
        invariant
            last == s@.len() - pat@.len(),
            i <= last,
            forall|k: int|
                0 <= k < i && k + pat@.len() <= s@.len() ==> #[trigger] s@.subrange(k, k + pat@.len())
                    != pat@,
        decreases last - i,
    {
        if occurs_at(s, pat, i) {
            return true;
        }
        if i == last {
            return false;
        }
        i = i + 1;
    }
}

/// Whether a decoded URL path starts with a drive letter, as `C:`: its
/// second byte is a colon.
pub open spec fn drive_path(d: Seq<char>) -> bool {
    d.len() >= 2 && (d[0] as u32) < 128 && d[1] == ':'
}

/// The path a URL names: a `file://` URL's path after its host, percent-
/// decoded, with a `/` put in front unless, on Windows, it starts with a
/// drive letter; text with no scheme as it is; none for another scheme, a
/// URL without a path, or an empty or undecodable one.
pub open spec fn url_path(u: Seq<char>, windows: bool) -> Option<Seq<char>> {
    if u.len() >= 7 && u.take(7) == "file://"@ {
        match after_first(u.skip(7), '/') {
            None => None,
            Some(p) => match percent_decoded_text(p) {
                Some(d) => if d.len() == 0 {
                    None
                } else if windows && drive_path(d) {
                    Some(d)
                } else {
                    Some(seq!['/'] + d)
                },
                None => None,
            },
        }
    } else if !has_text(u, "://"@) {
        Some(u)
    } else {
        None
    }
}

/// The path a URL names, if it names one; `windows` says whether paths are
/// Windows paths.
pub fn path_from_url(url: &str, windows: bool) -> (r: Option<String>)
    ensures
        opt_text(r) == url_path(url@, windows),
{
    let cs = chars_of(url);
    let scheme: [char; 7] = ['f', 'i', 'l', 'e', ':', '/', '/'];
    let sep: [char; 3] = [':', '/', '/'];
    proof {
        reveal_strlit("file://");
        reveal_strlit("://");
        assert(scheme@ =~= "file://"@);
        assert(sep@ =~= "://"@);
    }
    if occurs_at(cs.as_slice(), scheme.as_slice(), 0) {
        assert(cs@.subrange(0, 7) =~= cs@.take(7));
        let mut rest: Vec<char> = Vec::new();
        let mut i: usize = 7;
        while i < cs.len()
            invariant
                7 <= i <= cs@.len(),
                rest@ == cs@.subrange(7, i as int),
            decreases cs@.len() - i,
        {
            rest.push(cs[i]);
            proof {
                assert(cs@.subrange(7, i + 1) =~= cs@.subrange(7, i as int).push(cs@[i as int]));
            }
            i = i + 1;
        }
        assert(rest@ =~= cs@.skip(7));
        let (_host, path) = split_once_chars(rest.as_slice(), '/');
        let path = match path {
            Some(p) => p,
            None => {
                return None;
            },
        };
        let encoded = string_of(path.as_slice());
        let decoded = match percent_decode(encoded.as_str()) {
            Some(d) => d,
            None => {
                return None;
            },
        };
        let dc = chars_of(decoded.as_str());
        if dc.len() == 0 {
            return None;
        }
        if windows && dc.len() >= 2 && (dc[0] as u32) < 128 && dc[1] == ':' {
            return Some(decoded);
        }
        let mut full: Vec<char> = Vec::new();
        full.push('/');
        let mut j: usize = 0;
        while j < dc.len()
            invariant
                j <= dc@.len(),
                full@ == seq!['/'] + dc@.take(j as int),
            decreases dc@.len() - j,
        {
            full.push(dc[j]);
            proof {
                assert(dc@.take(j + 1) =~= dc@.take(j as int).push(dc@[j as int]));
                assert(seq!['/'] + dc@.take(j + 1) =~= (seq!['/'] + dc@.take(j as int)).push(dc@[j as int]));
            }
            j = j + 1;
        }
        assert(dc@.take(j as int) =~= dc@);
        Some(string_of(full.as_slice()))
    } else {
        proof {
            if cs@.len() >= 7 && cs@.take(7) == "file://"@ {
                assert(cs@.subrange(0, 7) =~= cs@.take(7));
            }
        }
        if contains_text(cs.as_slice(), sep.as_slice()) {
            None
        } else {
            Some(String::from_str(url))
        }
    }
}

/// The texts of some strings.
pub open spec fn url_paths(us: Seq<Seq<char>>, windows: bool) -> Seq<Seq<char>>
    decreases us.len(),
{
    if us.len() == 0 {
        Seq::empty()
    } else {
        url_paths(us.drop_last(), windows) + match url_path(us.last(), windows) {
            Some(p) => seq![p],
            None => Seq::<Seq<char>>::empty(),
        }
    }
}

/// The paths that URLs name, in order, skipping those that name none.
pub fn paths_from_urls(urls: &[String], windows: bool) -> (r: Vec<String>)
    ensures
        crate::text::string_texts(r@) == url_paths(crate::text::string_texts(urls@), windows),
{
    let ghost us = crate::text::string_texts(urls@);
    let mut out: Vec<String> = Vec::new();
    let mut i: usize = 0;
    proof {
        assert(crate::text::string_texts(out@) =~= url_paths(us.take(0), windows));
    }
    while i < urls.len()
        invariant
            i <= urls@.len(),
            us == crate::text::string_texts(urls@),
            crate::text::string_texts(out@) == url_paths(us.take(i as int), windows),
        decreases urls@.len() - i,
    {
        proof {
            assert(us.take(i + 1).drop_last() =~= us.take(i as int));
            assert(us.take(i + 1).last() == urls@[i as int]@);
        }
        match path_from_url(urls[i].as_str(), windows) {
            Some(p) => {
                let ghost before = out@;
                out.push(p);
                proof {
                    assert(crate::text::string_texts(out@) =~= crate::text::string_texts(before).push(
                        p@,
                    ));
                    assert(url_paths(us.take(i + 1), windows) =~= url_paths(us.take(i as int), windows) + seq![p@]);
                }
            },
            None => {
                proof {
                    assert(url_paths(us.take(i + 1), windows) =~= url_paths(us.take(i as int), windows));
                }
            },
        }
        i = i + 1;
    }
    assert(us.take(i as int) =~= us);
    out
}

} // verus!
