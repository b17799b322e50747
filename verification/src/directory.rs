//! The images of one folder, in the order in which the viewer walks them,
//! and which of them is shown.
use vstd::prelude::*;

use crate::decode::{is_supported, supported_path};
use crate::naming::{compare_names, name_order};
use crate::paths::{file_name_of, parent_of, path_eq, path_file_name, path_parent, same_path};
use crate::text::{first_place, position_of, string_texts};

verus! {

/// A step through the folder.
#[derive(Debug, Clone, Copy, PartialEq, Eq, Structural)]
pub enum Navigation {
    Next,
    Prev,
}

/// The places a step moves through the listing: one on for the next
/// image, one back for the previous.
pub open spec fn nav_step(nav: Navigation) -> int {
    match nav {
        Navigation::Next => 1,
        Navigation::Prev => -1,
    }
}

/// The name a path is sorted by: its file name, or nothing.
pub open spec fn name_key(p: Seq<char>) -> Seq<char> {
    match path_file_name(p) {
        Some(n) => n,
        None => Seq::<char>::empty(),
    }
}

fn key_of_path(p: &str) -> (r: String)
    ensures
        r@ == name_key(p@),
{
    match file_name_of(p) {
        Some(n) => n,
        None => String::new(),
    }
}

/// The path at `i` is not named after the next one.
pub open spec fn in_order_at(s: Seq<Seq<char>>, i: int) -> bool {
    name_order(name_key(s[i]), name_key(s[i + 1])) != 1
}

/// No path is named after the next one.
pub open spec fn sorted_by_name(s: Seq<Seq<char>>) -> bool {
    forall|i: int| 0 <= i < s.len() - 1 ==> #[trigger] in_order_at(s, i)
}

/// The paths of a listing that the viewer can open.
pub open spec fn openable(s: Seq<Seq<char>>) -> Seq<Seq<char>> {
    s.filter(|t: Seq<char>| supported_path(t))
}

proof fn lemma_insert_multiset(s: Seq<Seq<char>>, pos: int, x: Seq<char>)
    requires
        0 <= pos <= s.len(),
    ensures
        s.insert(pos, x).to_multiset() == s.to_multiset().insert(x),
{
    broadcast use vstd::seq_lib::group_to_multiset_ensures;

    let t = s.insert(pos, x);
    s.insert_ensures(pos, x);
    assert(t.remove(pos) =~= s);
    assert(t.contains(x)) by {
        assert(t[pos] == x);
    }
    assert(t.to_multiset().remove(x) == s.to_multiset());
    assert(t.to_multiset().count(x) > 0);
    assert(t.to_multiset() =~= s.to_multiset().insert(x));
}

/// Puts a path into a listing sorted by name, before the first path named
/// after it.
fn insert_by_name(out: &mut Vec<String>, p: String)
    requires
        sorted_by_name(string_texts(old(out)@)),
    ensures
        sorted_by_name(string_texts(final(out)@)),
        string_texts(final(out)@).to_multiset() == string_texts(old(out)@).to_multiset().insert(p@),
{
    let kp = key_of_path(p.as_str());
    let ghost s = string_texts(out@);
    let mut pos: usize = 0;
    while pos < out.len()
        invariant
            pos <= out@.len(),
            s == string_texts(out@),
            sorted_by_name(s),
            kp@ == name_key(p@),
            pos > 0 ==> name_order(name_key(s[pos - 1]), kp@) != 1,
        ensures
            pos <= out@.len(),
            pos > 0 ==> name_order(name_key(s[pos - 1]), kp@) != 1,
            pos < out@.len() ==> name_order(kp@, name_key(s[pos as int])) == -1,
        decreases out@.len() - pos,
    {
        let k = key_of_path(out[pos].as_str());
        let c = compare_names(k.as_str(), kp.as_str());
        if c == 1 {
            break;
        }
        pos = pos + 1;
    }
    out.insert(pos, p);
    proof {
        let t = string_texts(out@);
        assert(t =~= s.insert(pos as int, p@));
        s.insert_ensures(pos as int, p@);
        lemma_insert_multiset(s, pos as int, p@);
        assert forall|i: int| 0 <= i < t.len() - 1 implies #[trigger] in_order_at(t, i) by {
            if i + 1 < pos {
                assert(in_order_at(s, i));
                assert(t[i] == s[i] && t[i + 1] == s[i + 1]);
            } else if i + 1 == pos {
                assert(t[i] == s[i] && t[i + 1] == p@);
            } else if i == pos {
                assert(t[i] == p@ && t[i + 1] == s[i]);
            } else {
                assert(in_order_at(s, i - 1));
                assert(t[i] == s[i - 1] && t[i + 1] == s[i]);
            }
        }
    }
}

/// The openable paths of a listing, sorted by name.
pub fn sort_openable(paths: &Vec<String>) -> (r: Vec<String>)
    ensures
        string_texts(r@).to_multiset() == openable(string_texts(paths@)).to_multiset(),
        sorted_by_name(string_texts(r@)),
{
    let ghost all = string_texts(paths@);
    let mut out: Vec<String> = Vec::new();
    let mut i: usize = 0;
    proof {
        reveal(Seq::filter);
        assert(openable(all.take(0)) =~= Seq::<Seq<char>>::empty());
        assert(string_texts(out@) =~= Seq::<Seq<char>>::empty());
    }
    while i < paths.len()
        invariant
            i <= paths@.len(),
            all == string_texts(paths@),
            sorted_by_name(string_texts(out@)),
            string_texts(out@).to_multiset() == openable(all.take(i as int)).to_multiset(),
        decreases paths@.len() - i,
    {
        let ghost x = paths@[i as int]@;
        proof {
            assert(all.len() == paths@.len());
            assert(all.take(i + 1).drop_last() =~= all.take(i as int));
            assert(all.take(i + 1).last() == x);
            assert(all.take(i + 1).len() == i + 1);
            reveal(Seq::filter);
            assert(openable(all.take(i + 1)) == if supported_path(x) {
                openable(all.take(i as int)).push(x)
            } else {
                openable(all.take(i as int))
            });
        }
        if is_supported(paths[i].as_str()) {
            let p = paths[i].clone();
            assert(p@ == x);
            insert_by_name(&mut out, p);
            proof {
                vstd::seq_lib::to_multiset_build(openable(all.take(i as int)), x);
            }
        }
        i = i + 1;
    }
    assert(all.take(i as int) =~= all);
    out
}

/// Whether listed path `e` is `path` under another name: it has the same
/// file name and is among `same`, the paths that the disk says name the
/// same file as `path`.
pub open spec fn alias_of(e: Seq<char>, path: Seq<char>, same: Seq<Seq<char>>) -> bool {
    path_file_name(e) == path_file_name(path) && same.contains(e)
}

/// Whether `path` is found in the listing: a listed path equals it
/// component by component, or is the same file under its file name.
pub open spec fn found_in(es: Seq<Seq<char>>, path: Seq<char>, same: Seq<Seq<char>>) -> bool {
    exists|j: int| 0 <= j < es.len() && (path_eq(#[trigger] es[j], path) || alias_of(es[j], path, same))
}

/// Whether `path` is found at place `i`: the first listed path equal to it,
/// or, where none is, the first that is the same file.
pub open spec fn found_at(es: Seq<Seq<char>>, path: Seq<char>, same: Seq<Seq<char>>, i: int) -> bool {
    &&& 0 <= i < es.len()
    &&& {
        ||| path_eq(es[i], path) && forall|j: int| 0 <= j < i ==> !path_eq(#[trigger] es[j], path)
        ||| (forall|j: int| 0 <= j < es.len() ==> !path_eq(#[trigger] es[j], path)) && alias_of(
            es[i],
            path,
            same,
        ) && forall|j: int| 0 <= j < i ==> !alias_of(#[trigger] es[j], path, same)
    }
}

/// Where `path` is found, it is found at one place only.
pub proof fn lemma_found_at_unique(es: Seq<Seq<char>>, path: Seq<char>, same: Seq<Seq<char>>, i: int, k: int)
    requires
        found_at(es, path, same, i),
        found_at(es, path, same, k),
    ensures
        i == k,
{
    let a = es[i];
    let b = es[k];
}

/// Where a path is listed: the first listed path equal to it, else the
/// first with its file name among `same`, the listed paths that name the
/// same file on disk.
pub fn index_of(entries: &[String], path: &str, same: &[String]) -> (r: Option<usize>)
    ensures
        match r {
            Some(i) => found_at(string_texts(entries@), path@, string_texts(same@), i as int),
            None => !found_in(string_texts(entries@), path@, string_texts(same@)),
        },
        string_texts(entries@).contains(path@) ==> r is Some,
{
    let ghost es = string_texts(entries@);
    let ghost sm = string_texts(same@);
    let mut i: usize = 0;
    while i < entries.len()
        invariant
            i <= entries@.len(),
            es == string_texts(entries@),
            forall|j: int| 0 <= j < i ==> !path_eq(#[trigger] es[j], path@),
            forall|j: int| 0 <= j < i ==> #[trigger] es[j] != path@,
        decreases entries@.len() - i,
    {
        assert(es[i as int] == entries@[i as int]@);
        if same_path(entries[i].as_str(), path) {
            return Some(i);
        }
        i = i + 1;
    }
    let name = file_name_of(path);
    let mut k: usize = 0;
    while k < entries.len()
        invariant
            k <= entries@.len(),
            es == string_texts(entries@),
            sm == string_texts(same@),
            crate::paths::opt_text(name) == path_file_name(path@),
            forall|j: int| 0 <= j < entries@.len() ==> !path_eq(#[trigger] es[j], path@),
            forall|j: int| 0 <= j < k ==> !alias_of(#[trigger] es[j], path@, sm),
        decreases entries@.len() - k,
    {
        assert(es[k as int] == entries@[k as int]@);
        let own = file_name_of(entries[k].as_str());
        let same_name = match (&own, &name) {
            (Some(a), Some(b)) => crate::text::same_text(a.as_str(), b.as_str()),
            (None, None) => true,
            _ => false,
        };
        if same_name && position_of(same, entries[k].as_str()).is_some() {
            return Some(k);
        }
        k = k + 1;
    }
    proof {
        assert forall|j: int| 0 <= j < es.len() implies !(path_eq(#[trigger] es[j], path@) || alias_of(
            es[j],
            path@,
            sm,
        )) by {}
    }
    None
}

/// The folder to list for a path and the file in it to show: a folder is
/// listed itself; a file is shown within its parent, or within `.` when
/// it has none.
pub open spec fn target_of(path: Seq<char>, is_dir: bool) -> (Seq<char>, Option<Seq<char>>) {
    if is_dir {
        (path, None)
    } else {
        let dir = match path_parent(path) {
            Some(p) => if p.len() > 0 {
                p
            } else {
                "."@
            },
            None => "."@,
        };
        (dir, Some(path))
    }
}

/// Splits a path into the folder to list and the file to show; `is_dir`
/// says whether the path names a folder.
pub fn split_target(path: &str, is_dir: bool) -> (r: (String, Option<String>))
    ensures
        r.0@ == target_of(path@, is_dir).0,
        crate::paths::opt_text(r.1) == target_of(path@, is_dir).1,
{
    if is_dir {
        (String::from_str(path), None)
    } else {
        let dir = match parent_of(path) {
            Some(p) => if p.as_str().unicode_len() > 0 {
                p
            } else {
                String::from_str(".")
            },
            None => String::from_str("."),
        };
        proof {
            reveal_strlit(".");
        }
        (dir, Some(String::from_str(path)))
    }
}

/// Stepping forward and then back, or back and then forward, returns to the
/// image shown, in a listing of any length.
pub proof fn law_next_then_prev(position: int, len: int)
    requires
        0 <= position < len,
    ensures
        (((position + 1) % len) + (-1)) % len == position,
        (((position + (-1)) % len) + 1) % len == position,
        0 <= (position + 1) % len < len,
        0 <= (position + (-1)) % len < len,
{
    vstd::arithmetic::div_mod::lemma_mod_add_multiples_vanish(-1, len);
    vstd::arithmetic::div_mod::lemma_small_mod((len - 1) as nat, len as nat);
    vstd::arithmetic::div_mod::lemma_small_mod(position as nat, len as nat);
    vstd::arithmetic::div_mod::lemma_mod_self_0(len);
    assert((-1) % len == len - 1);
    if position + 1 < len {
        vstd::arithmetic::div_mod::lemma_small_mod((position + 1) as nat, len as nat);
    } else {
        assert((position + 1) % len == 0);
    }
    if position > 0 {
        vstd::arithmetic::div_mod::lemma_small_mod((position - 1) as nat, len as nat);
    } else {
        assert((position + (-1)) % len == len - 1);
    }
    vstd::arithmetic::div_mod::lemma_mod_bound(position + 1, len);
    vstd::arithmetic::div_mod::lemma_mod_bound(position - 1, len);
}

/// The images of a folder, sorted by name, and the one shown.
#[derive(Debug)]
pub struct Directory {
    dir: String,
    entries: Vec<String>,
    current: usize,
    last_modified: Option<i128>,
}

/// The position shown is within the listing, or 0 for an empty one.
pub open spec fn position_ok(position: int, len: int) -> bool {
    position < len || (len == 0 && position == 0)
}

impl Directory {
    #[verifier::type_invariant]
    spec fn wf(self) -> bool {
        position_ok(self.current as int, self.entries@.len() as int)
    }

    /// The listed paths, in order.
    pub closed spec fn listing(&self) -> Seq<Seq<char>> {
        string_texts(self.entries@)
    }

    /// The position of the image shown.
    pub closed spec fn position(&self) -> int {
        self.current as int
    }

    /// The folder listed.
    pub closed spec fn folder(&self) -> Seq<char> {
        self.dir@
    }

    /// When the folder was last seen changed, if that is known.
    pub closed spec fn stamp(&self) -> Option<i128> {
        self.last_modified
    }

    /// The position shown is within the listing, or 0 when it is empty.
    pub proof fn law_position_in_range(d: &Directory)
        requires
            d.well_placed(),
        ensures
            position_ok(d.position(), d.listing().len() as int),
    {
    }

    /// Whether the position shown is within the listing.
    pub open spec fn well_placed(&self) -> bool {
        position_ok(self.position(), self.listing().len() as int)
    }

    /// A directory with no folder and no images.
    pub fn empty() -> (r: Directory)
        ensures
            r.listing() == Seq::<Seq<char>>::empty(),
            r.position() == 0,
            r.folder() == Seq::<char>::empty(),
            r.stamp() is None,
            r.well_placed(),
    {
        let r = Directory { dir: String::new(), entries: Vec::new(), current: 0, last_modified: None };
        assert(r.listing() =~= Seq::<Seq<char>>::empty());
        r
    }

    /// A provisional listing of the one file to show, before its folder is read.
    pub fn single(path: &str, is_dir: bool) -> (r: Directory)
        ensures
            r.folder() == target_of(path@, is_dir).0,
            r.listing() == (match target_of(path@, is_dir).1 {
                Some(f) => seq![f],
                None => Seq::<Seq<char>>::empty(),
            }),
            r.position() == 0,
            r.stamp() is None,
            r.well_placed(),
    {
        let (dir, file) = split_target(path, is_dir);
        let mut entries: Vec<String> = Vec::new();
        match file {
            Some(f) => entries.push(f),
            None => {},
        }
        let r = Directory { dir, entries, current: 0, last_modified: None };
        assert(r.listing() =~= (match target_of(path@, is_dir).1 {
            Some(f) => seq![f],
            None => Seq::<Seq<char>>::empty(),
        }));
        r
    }

    /// A listing not yet confirmed by reading its folder.
    pub fn is_provisional(&self) -> (r: bool)
        ensures
            r == (self.stamp() is None && self.listing().len() > 0),
    {
        self.last_modified.is_none() && self.entries.len() > 0
    }

    /// The directory for a path once its folder has been read: `paths` are
    /// the files found in `dir`, `file` the one to show, `modified` when the
    /// folder last changed, and `same` the found paths that the disk says
    /// name the same file as `file`. The openable files are listed by name;
    /// the one shown is where `file` is found (see `found_at`), else the
    /// first.
    pub fn open_at(
        dir: String,
        file: Option<String>,
        paths: &Vec<String>,
        modified: Option<i128>,
        same: &[String],
    ) -> (r: Directory)
        ensures
            r.folder() == dir@,
            r.listing().to_multiset() == openable(string_texts(paths@)).to_multiset(),
            sorted_by_name(r.listing()),
            r.stamp() == modified,
            match file {
                Some(f) => if found_in(r.listing(), f@, string_texts(same@)) {
                    found_at(r.listing(), f@, string_texts(same@), r.position())
                } else {
                    r.position() == 0
                },
                None => r.position() == 0,
            },
            r.well_placed(),
    {
        let entries = sort_openable(paths);
        let current = match &file {
            Some(f) => match index_of(entries.as_slice(), f.as_str(), same) {
                Some(i) => i,
                None => 0,
            },
            None => 0,
        };
        Directory { dir, entries, current, last_modified: modified }
    }

    pub fn dir(&self) -> (r: &str)
        ensures
            r@ == self.folder(),
    {
        self.dir.as_str()
    }

    pub fn entries(&self) -> (r: &[String])
        ensures
            string_texts(r@) == self.listing(),
    {
        self.entries.as_slice()
    }

    pub fn len(&self) -> (r: usize)
        ensures
            r == self.listing().len(),
    {
        self.entries.len()
    }

    pub fn is_empty(&self) -> (r: bool)
        ensures
            r == (self.listing().len() == 0),
    {
        self.entries.len() == 0
    }

    pub fn current_index(&self) -> (r: usize)
        ensures
            r == self.position(),
    {
        self.current
    }

    /// The path shown, unless the listing is empty.
    pub fn current(&self) -> (r: Option<&str>)
        ensures
            match r {
                Some(p) => 0 <= self.position() < self.listing().len() && p@ == self.listing()[self.position()],
                None => !(0 <= self.position() < self.listing().len()),
            },
    {
        self.path_at(self.current)
    }

    /// The path listed at `index`.
    pub fn path_at(&self, index: usize) -> (r: Option<&str>)
        ensures
            match r {
                Some(p) => index < self.listing().len() && p@ == self.listing()[index as int],
                None => index >= self.listing().len(),
            },
    {
        if index < self.entries.len() {
            Some(self.entries[index].as_str())
        } else {
            None
        }
    }

    /// The position `offset` steps away from the one shown, wrapping around
    /// the listing; none for an empty listing.
    pub fn offset_index(&self, offset: isize) -> (r: Option<usize>)
        ensures
            match r {
                Some(i) => self.listing().len() > 0 && i == (self.position() + offset) % (self.listing().len() as int),
                None => self.listing().len() == 0,
            },
    {
        let len = self.entries.len();
        if len == 0 {
            return None;
        }
        let n: u128 = len as u128;
        let c: u128 = self.current as u128;
        let ghost ni = n as int;
        let ghost ci = c as int;
        let ghost oi = offset as int;
        if offset >= 0 {
            let o: u128 = (offset as u128) % n;
            let r: u128 = (c + o) % n;
            proof {
                vstd::arithmetic::div_mod::lemma_add_mod_noop_right(ci, oi, ni);
            }
            Some(r as usize)
        } else {
            let a: u128 = (0i128 - (offset as i128)) as u128;
            let o: u128 = a % n;
            let r: u128 = (c + n - o) % n;
            proof {
                vstd::arithmetic::div_mod::lemma_mod_add_multiples_vanish(ci - (a as int % ni), ni);
                vstd::arithmetic::div_mod::lemma_sub_mod_noop_right(ci, a as int, ni);
                assert(ci - (a as int) == ci + oi);
            }
            Some(r as usize)
        }
    }
    /// Steps to the next or previous image, wrapping around the listing, and
    /// gives the path now shown; nothing changes in an empty listing.
    pub fn navigate(&mut self, nav: Navigation) -> (r: Option<&str>)
        ensures
            final(self).listing() == old(self).listing(),
            final(self).folder() == old(self).folder(),
            final(self).stamp() == old(self).stamp(),
            final(self).well_placed(),
            old(self).listing().len() == 0 ==> r is None && final(self).position() == old(self).position(),
            old(self).listing().len() > 0 ==> {
                &&& final(self).position() == (old(self).position() + (match nav {
                    Navigation::Next => 1int,
                    Navigation::Prev => -1int,
                })) % (old(self).listing().len() as int)
                &&& r matches Some(p) && p@ == final(self).listing()[final(self).position()]
            },
            old(self).listing().len() > 0 ==> final(self).position() == (old(self).position()
                + nav_step(nav)) % (old(self).listing().len() as int),
    {
        proof {
            use_type_invariant(&*self);
        }
        let offset: isize = match nav {
            Navigation::Next => 1,
            Navigation::Prev => -1,
        };
        match self.offset_index(offset) {
            None => None,
            Some(i) => {
                self.current = i;
                self.current()
            },
        }
    }

    /// Shows where `path` is found (see `found_at`; `same` are the listed
    /// paths that the disk says name the same file); false, and nothing
    /// changes, when it is not found.
    pub fn jump_to(&mut self, path: &str, same: &[String]) -> (r: bool)
        ensures
            final(self).listing() == old(self).listing(),
            final(self).folder() == old(self).folder(),
            final(self).stamp() == old(self).stamp(),
            final(self).well_placed(),
            r == found_in(old(self).listing(), path@, string_texts(same@)),
            old(self).listing().contains(path@) ==> r,
            r ==> found_at(old(self).listing(), path@, string_texts(same@), final(self).position()),
            !r ==> final(self).position() == old(self).position(),
    {
        proof {
            use_type_invariant(&*self);
        }
        match index_of(self.entries.as_slice(), path, same) {
            Some(i) => {
                self.current = i;
                true
            },
            None => false,
        }
    }

    /// Shows the image at `index` and gives its path; none, and nothing
    /// changes, when `index` is past the listing.
    pub fn set_index(&mut self, index: usize) -> (r: Option<&str>)
        ensures
            final(self).listing() == old(self).listing(),
            final(self).folder() == old(self).folder(),
            final(self).stamp() == old(self).stamp(),
            final(self).well_placed(),
            index >= old(self).listing().len() ==> r is None && final(self).position() == old(self).position(),
            index < old(self).listing().len() ==> final(self).position() == index && (r matches Some(p)
                && p@ == old(self).listing()[index as int]),
    {
        proof {
            use_type_invariant(&*self);
        }
        if index >= self.entries.len() {
            return None;
        }
        self.current = index;
        self.current()
    }

    /// Whether the folder changed since it was read, given when it last changed.
    pub fn changed_on_disk(&self, modified: Option<i128>) -> (r: bool)
        ensures
            r == (modified != self.stamp()),
    {
        match (modified, self.last_modified) {
            (Some(a), Some(b)) => a != b,
            (None, None) => false,
            _ => true,
        }
    }

    /// Lists the folder anew from `paths`, the files now in it, changed last
    /// at `modified`; `same` are the paths that the disk says name the same
    /// file as the image shown. The image shown stays shown where it is
    /// found (see `found_at`); otherwise the position is kept, moved back to
    /// the last image if the listing got shorter.
    pub fn refresh(&mut self, paths: &Vec<String>, modified: Option<i128>, same: &[String])
        ensures
            final(self).folder() == old(self).folder(),
            final(self).stamp() == modified,
            final(self).listing().to_multiset() == openable(string_texts(paths@)).to_multiset(),
            sorted_by_name(final(self).listing()),
            final(self).well_placed(),
            ({
                let shown = if 0 <= old(self).position() < old(self).listing().len() {
                    Some(old(self).listing()[old(self).position()])
                } else {
                    None
                };
                let n = final(self).listing().len() as int;
                if shown is Some && found_in(final(self).listing(), shown->0, string_texts(same@)) {
                    found_at(final(self).listing(), shown->0, string_texts(same@), final(self).position())
                } else {
                    final(self).position() == (if old(self).position() < n - 1 {
                        old(self).position()
                    } else if n > 0 {
                        n - 1
                    } else {
                        0
                    })
                }
            }),
    {
        proof {
            use_type_invariant(&*self);
        }
        let previous: Option<String> = match self.current() {
            Some(p) => Some(String::from_str(p)),
            None => None,
        };
        let entries = sort_openable(paths);
        let n = entries.len();
        let last: usize = if n > 0 {
            n - 1
        } else {
            0
        };
        let fallback: usize = if self.current < last {
            self.current
        } else {
            last
        };
        let current = match &previous {
            Some(p) => match index_of(entries.as_slice(), p.as_str(), same) {
                Some(i) => i,
                None => fallback,
            },
            None => fallback,
        };
        let dir = String::from_str(self.dir.as_str());
        *self = Directory { dir, entries, current, last_modified: modified };
    }

    /// The places of the listed paths with the same file name as `path`, in order.
    pub fn same_name_indices(&self, path: &str) -> (r: Vec<usize>)
        ensures
            forall|j: int| 0 <= j < r@.len() ==> r@[j] < self.listing().len() && name_key(
                self.listing()[r@[j] as int],
            ) == name_key(path@),
            forall|j: int, k: int| 0 <= j < k < r@.len() ==> r@[j] < r@[k],
            forall|i: int|
                0 <= i < self.listing().len() && name_key(self.listing()[i]) == name_key(path@)
                    ==> r@.contains(i as usize),
    {
        let target = key_of_path(path);
        let mut out: Vec<usize> = Vec::new();
        let mut i: usize = 0;
        while i < self.entries.len()
            invariant
                i <= self.entries@.len(),
                target@ == name_key(path@),
                forall|j: int| 0 <= j < out@.len() ==> out@[j] < i && name_key(
                    self.listing()[out@[j] as int],
                ) == name_key(path@),
                forall|j: int, k: int| 0 <= j < k < out@.len() ==> out@[j] < out@[k],
                forall|m: int|
                    0 <= m < i && name_key(self.listing()[m]) == name_key(path@) ==> out@.contains(
                        m as usize,
                    ),
            decreases self.entries@.len() - i,
        {
            let k = key_of_path(self.entries[i].as_str());
            assert(self.listing()[i as int] == self.entries@[i as int]@);
            if crate::text::same_text(k.as_str(), target.as_str()) {
                let ghost before = out@;
                out.push(i);
                proof {
                    assert(out@ == before.push(i));
                    assert(out@[out@.len() - 1] == i);
                    assert forall|m: int|
                        0 <= m < i + 1 && name_key(self.listing()[m]) == name_key(path@) implies out@.contains(
                        m as usize,
                    ) by {
                        if m < i {
                            assert(before.contains(m as usize));
                            let j = choose|j: int| 0 <= j < before.len() && before[j] == m as usize;
                            assert(out@[j] == m as usize);
                        } else {
                            assert(out@[out@.len() - 1] == m as usize);
                        }
                    }
                }
            }
            i = i + 1;
        }
        out
    }
}

} // verus!
