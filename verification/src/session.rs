//! What the viewer session reports back: loads that finished, folder scans,
//! and the first image opened.
use vstd::prelude::*;

use std::sync::Arc;

use crate::cache::{
    evicted_from, map_total, LoadResult, RequestId, DEFAULT_CAPACITY_BYTES, PREFETCH_RADIUS,
};
use crate::decode::{decode_error_text, DecodeError, DecodeOutput};
use crate::directory::{found_at, found_in, target_of, Directory, Navigation};
use crate::manager::{without_ids, ImageCache};
use crate::paths::opt_text;
use crate::scan::{PendingScan, ScanResult};
use crate::text::{concat, first_place, same_text};

verus! {

/// Something that happened while the viewer worked in the background.
#[derive(Debug)]
pub enum SessionEvent {
    Loaded(String),
    Failed(String, DecodeError),
    ScanComplete,
}

/// The event for a finished load of `path`.
pub fn event_for(path: String, outcome: Result<(), DecodeError>) -> (r: SessionEvent)
    ensures
        match outcome {
            Ok(()) => r == SessionEvent::Loaded(path),
            Err(e) => r == SessionEvent::Failed(path, e),
        },
{
    match outcome {
        Ok(()) => SessionEvent::Loaded(path),
        Err(e) => SessionEvent::Failed(path, e),
    }
}

/// What a finished folder scan changed: whether the image shown was found
/// in the listing, the path it was found under if that differs, and the
/// image to show when none was shown.
#[derive(Debug, Clone)]
pub struct ScanOutcome {
    pub anchored: bool,
    pub realigned: Option<String>,
    pub first: Option<String>,
}

/// The first image opened, and whether it could be decoded.
#[derive(Debug)]
pub struct FirstImage {
    pub path: String,
    pub result: Result<(), DecodeError>,
}

/// The path a directory shows, if any.
pub open spec fn shown_path(d: Directory) -> Option<Seq<char>> {
    if 0 <= d.position() < d.listing().len() {
        Some(d.listing()[d.position()])
    } else {
        None
    }
}

pub open spec fn opt_str(o: Option<&str>) -> Option<Seq<char>> {
    match o {
        Some(s) => Some(s@),
        None => None,
    }
}

/// The first of three that is there.
pub open spec fn first_some(a: Option<Seq<char>>, b: Option<Seq<char>>, c: Option<Seq<char>>) -> Option<
    Seq<char>,
> {
    if a is Some {
        a
    } else if b is Some {
        b
    } else {
        c
    }
}

/// The scan number after `g`, wrapping around.
pub open spec fn next_generation(g: u64) -> u64 {
    if g == u64::MAX {
        0
    } else {
        (g + 1) as u64
    }
}

/// The paths `offsets` away from position `pos`, wrapping around, one for
/// each offset; none when the listing is empty.
pub open spec fn paths_at_offsets(listing: Seq<Seq<char>>, pos: int, offsets: Seq<isize>) -> Seq<
    Seq<char>,
>
    decreases offsets.len(),
{
    if offsets.len() == 0 || listing.len() == 0 {
        Seq::empty()
    } else {
        paths_at_offsets(listing, pos, offsets.drop_last()).push(
            listing[(pos + offsets.last()) % (listing.len() as int)],
        )
    }
}

/// The folder being viewed with its cache, the status line, the image
/// asked for last, and the folder scan under way.
pub struct Session {
    directory: Directory,
    cache: ImageCache,
    status: Option<String>,
    pending: Option<String>,
    scan_generation: u64,
    scan: Option<PendingScan>,
}

impl Session {
    /// The folder being viewed.
    pub closed spec fn dir_state(&self) -> Directory {
        self.directory
    }

    /// The decode cache and the loads on their way.
    pub closed spec fn cache_state(&self) -> ImageCache {
        self.cache
    }

    pub closed spec fn status_text(&self) -> Option<Seq<char>> {
        opt_text(self.status)
    }

    pub closed spec fn pending_path(&self) -> Option<Seq<char>> {
        opt_text(self.pending)
    }

    pub closed spec fn generation(&self) -> u64 {
        self.scan_generation
    }

    pub closed spec fn scanning(&self) -> bool {
        self.scan is Some
    }

    /// An empty session: no folder, an empty cache, nothing under way.
    pub fn new() -> (r: Session)
        ensures
            r.dir_state().listing() == Seq::<Seq<char>>::empty(),
            r.cache_state().cache_store()@ == Map::<Seq<char>, crate::cache::Slot>::empty(),
            r.cache_state().cache_store().capacity() == DEFAULT_CAPACITY_BYTES,
            r.cache_state().pending() == Seq::<(Seq<char>, RequestId)>::empty(),
            r.status_text() is None,
            r.pending_path() is None,
            r.generation() == 0,
            !r.scanning(),
    {
        Session {
            directory: Directory::empty(),
            cache: ImageCache::new(DEFAULT_CAPACITY_BYTES),
            status: None,
            pending: None,
            scan_generation: 0,
            scan: None,
        }
    }

    pub fn status(&self) -> (r: Option<&str>)
        ensures
            opt_str(r) == self.status_text(),
    {
        match &self.status {
            Some(s) => Some(s.as_str()),
            None => None,
        }
    }

    pub fn set_status(&mut self, status: Option<String>)
        ensures
            final(self).status_text() == opt_text(status),
            final(self).pending_path() == old(self).pending_path(),
            final(self).generation() == old(self).generation(),
            final(self).scanning() == old(self).scanning(),
            final(self).dir_state() == old(self).dir_state(),
            final(self).cache_state() == old(self).cache_state(),
    {
        self.status = status;
    }

    pub fn pending(&self) -> (r: Option<&str>)
        ensures
            opt_str(r) == self.pending_path(),
    {
        match &self.pending {
            Some(s) => Some(s.as_str()),
            None => None,
        }
    }

    pub fn set_pending(&mut self, pending: Option<String>)
        ensures
            final(self).pending_path() == opt_text(pending),
            final(self).status_text() == old(self).status_text(),
            final(self).generation() == old(self).generation(),
            final(self).scanning() == old(self).scanning(),
            final(self).dir_state() == old(self).dir_state(),
            final(self).cache_state() == old(self).cache_state(),
    {
        self.pending = pending;
    }

    pub fn scan_generation(&self) -> (r: u64)
        ensures
            r == self.generation(),
    {
        self.scan_generation
    }

    pub fn scan_pending(&self) -> (r: bool)
        ensures
            r == self.scanning(),
    {
        self.scan.is_some()
    }

    pub fn directory(&self) -> (r: &Directory)
        ensures
            *r == self.dir_state(),
    {
        &self.directory
    }

    pub fn cache(&self) -> (r: &ImageCache)
        ensures
            *r == self.cache_state(),
    {
        &self.cache
    }

    pub fn current_index(&self) -> (r: usize)
        ensures
            r == self.dir_state().position(),
    {
        self.directory.current_index()
    }
}

impl Session {
    /// Starts viewing what `scan` reads: the loads on their way are dropped
    /// (the loader is told to cancel them all), the status and the image
    /// asked for are cleared, the scan count moves on, and until the folder
    /// is read the listing holds just the file the scan will show. Gives
    /// that file.
    pub fn begin_scan(&mut self, scan: PendingScan) -> (r: Option<String>)
        ensures
            opt_text(r) == scan.shows(),
            final(self).cache_state().pending() == Seq::<(Seq<char>, RequestId)>::empty(),
            final(self).pending_path() is None,
            final(self).status_text() is None,
            final(self).generation() == next_generation(old(self).generation()),
            final(self).scanning(),
            final(self).dir_state().position() == 0,
            match scan.shows() {
                Some(t) => {
                    &&& final(self).dir_state().folder() == target_of(t, false).0
                    &&& final(self).dir_state().listing() == match target_of(t, false).1 {
                        Some(f) => seq![f],
                        None => Seq::<Seq<char>>::empty(),
                    }
                },
                None => final(self).dir_state().listing() == Seq::<Seq<char>>::empty(),
            },
            forall|k: Seq<char>| #[trigger]
                final(self).cache_state().cache_store()@.dom().contains(k) <==> (old(
                self).cache_state().cache_store()@.dom().contains(k) && final(self).dir_state().listing().contains(k)),
    {
        self.cache.forget_all_requests();
        self.pending = None;
        self.status = None;
        self.scan_generation = if self.scan_generation == u64::MAX {
            0
        } else {
            self.scan_generation + 1
        };
        let target: Option<String> = match scan.target() {
            Some(t) => Some(String::from_str(t)),
            None => None,
        };
        match &target {
            Some(t) => {
                self.directory = Directory::single(t.as_str(), false);
            },
            None => {
                self.directory = Directory::empty();
            },
        }
        self.cache.sync_to_directory(&self.directory);
        self.scan = Some(scan);
        target
    }

    /// The result of the scan under way, waiting for it when `blocking`;
    /// once a result is given the scan is over.
    pub fn take_scan(&mut self, blocking: bool) -> (r: Option<ScanResult>)
        ensures
            !old(self).scanning() ==> r is None,
            old(self).scanning() && blocking ==> r is Some,
            r is Some ==> !final(self).scanning(),
            r is None ==> final(self).scanning() == old(self).scanning(),
            final(self).dir_state() == old(self).dir_state(),
            final(self).cache_state() == old(self).cache_state(),
            final(self).status_text() == old(self).status_text(),
            final(self).pending_path() == old(self).pending_path(),
            final(self).generation() == old(self).generation(),
    {
        let mut taken: Option<PendingScan> = None;
        std::mem::swap(&mut taken, &mut self.scan);
        match taken {
            None => None,
            Some(mut scan) => {
                let result = if blocking {
                    Some(scan.wait())
                } else {
                    scan.take()
                };
                if result.is_none() {
                    self.scan = Some(scan);
                }
                result
            },
        }
    }

    /// Ends the scan numbered `generation`, if it is the latest one.
    pub fn discard_scan(&mut self, generation: u64) -> (r: bool)
        ensures
            r == (generation == old(self).generation()),
            r ==> !final(self).scanning(),
            !r ==> final(self).scanning() == old(self).scanning(),
            final(self).dir_state() == old(self).dir_state(),
            final(self).cache_state() == old(self).cache_state(),
            final(self).status_text() == old(self).status_text(),
            final(self).pending_path() == old(self).pending_path(),
            final(self).generation() == old(self).generation(),
    {
        if generation != self.scan_generation {
            return false;
        }
        self.scan = None;
        true
    }

    /// Asks for the image at `path` to be shown: it becomes the image asked
    /// for, and the load to send, at the place shown, is given unless the
    /// image is cached or already on its way.
    pub fn request(&mut self, path: &str) -> (r: Option<(String, usize)>)
        ensures
            final(self).pending_path() == Some(path@),
            (old(self).cache_state().cache_store()@.dom().contains(path@) || crate::manager::pending_has(
                old(self).cache_state().pending(),
                path@,
            )) ==> r is None,
            !(old(self).cache_state().cache_store()@.dom().contains(path@) || crate::manager::pending_has(
                old(self).cache_state().pending(),
                path@,
            )) ==> (r matches Some(q) && q.0@ == path@ && q.1 == old(self).dir_state().position()),
            final(self).dir_state() == old(self).dir_state(),
            final(self).cache_state() == old(self).cache_state(),
            final(self).status_text() == old(self).status_text(),
            final(self).generation() == old(self).generation(),
            final(self).scanning() == old(self).scanning(),
    {
        let index = self.directory.current_index();
        self.pending = Some(String::from_str(path));
        if self.cache.wants(path) {
            Some((String::from_str(path), index))
        } else {
            None
        }
    }

    /// Notes that a load of `path` was sent under `id`.
    pub fn record_request(&mut self, path: String, id: RequestId)
        ensures
            final(self).cache_state().pending() == old(self).cache_state().pending().push((path@, id)),
            final(self).cache_state().cache_store() == old(self).cache_state().cache_store(),
            final(self).dir_state() == old(self).dir_state(),
            final(self).status_text() == old(self).status_text(),
            final(self).pending_path() == old(self).pending_path(),
            final(self).generation() == old(self).generation(),
            final(self).scanning() == old(self).scanning(),
    {
        self.cache.record_request(path, id);
    }

    /// Forgets the loads that the loader dropped (`dropped`) when it was
    /// told to keep only those near the image shown.
    pub fn focus(&mut self, dropped: &[RequestId])
        ensures
            final(self).cache_state().pending() == without_ids(old(self).cache_state().pending(), dropped@),
            final(self).cache_state().cache_store() == old(self).cache_state().cache_store(),
            final(self).dir_state() == old(self).dir_state(),
            final(self).status_text() == old(self).status_text(),
            final(self).pending_path() == old(self).pending_path(),
            final(self).generation() == old(self).generation(),
            final(self).scanning() == old(self).scanning(),
    {
        self.cache.forget_requests(dropped);
    }

    /// The loads a prefetch around the image shown asks for.
    pub fn prefetch(&self) -> (r: Vec<(String, usize)>)
        ensures
            crate::manager::plan_view(r@) == crate::manager::plan(
                self.dir_state().listing(),
                self.dir_state().position(),
                crate::cache::prefetch_order(PREFETCH_RADIUS as int),
                self.cache_state().cache_store()@.dom(),
                self.cache_state().pending(),
            ),
    {
        self.cache.prefetch_targets(&self.directory, PREFETCH_RADIUS)
    }

    /// What the cache holds for `path`.
    pub fn output(&self, path: &str) -> (r: Option<Arc<DecodeOutput>>)
        ensures
            match r {
                Some(o) => self.cache_state().cache_store()@.dom().contains(path@) && o
                    == self.cache_state().cache_store()@[path@].0.output,
                None => !self.cache_state().cache_store()@.dom().contains(path@),
            },
    {
        match self.cache.get(path) {
            Some(entry) => Some(Arc::clone(&entry.output)),
            None => None,
        }
    }

    pub fn is_cached(&self, path: &str) -> (r: bool)
        ensures
            r == self.cache_state().cache_store()@.dom().contains(path@),
    {
        self.cache.get(path).is_some()
    }

    fn paths_at(&self, offsets: &Vec<isize>) -> (r: Vec<String>)
        ensures
            crate::text::string_texts(r@) == paths_at_offsets(
                self.dir_state().listing(),
                self.dir_state().position(),
                offsets@,
            ),
    {
        let ghost listing = self.dir_state().listing();
        let ghost pos = self.dir_state().position();
        let mut out: Vec<String> = Vec::new();
        let mut k: usize = 0;
        proof {
            assert(offsets@.take(0) =~= Seq::<isize>::empty());
            assert(crate::text::string_texts(out@) =~= Seq::<Seq<char>>::empty());
        }
        while k < offsets.len()
            invariant
                k <= offsets@.len(),
                listing == self.dir_state().listing(),
                pos == self.dir_state().position(),
                crate::text::string_texts(out@) == paths_at_offsets(listing, pos, offsets@.take(k as int)),
            decreases offsets@.len() - k,
        {
            let ghost before = out@;
            proof {
                assert(offsets@.take(k + 1).drop_last() =~= offsets@.take(k as int));
                assert(offsets@.take(k + 1).last() == offsets@[k as int]);
            }
            match self.directory.offset_index(offsets[k]) {
                Some(i) => {
                    match self.directory.path_at(i) {
                        Some(p) => {
                            out.push(String::from_str(p));
                            proof {
                                assert(crate::text::string_texts(out@) =~= crate::text::string_texts(
                                    before,
                                ).push(p@));
                            }
                        },
                        None => {},
                    }
                },
                None => {},
            }
            k = k + 1;
        }
        proof {
            assert(offsets@.take(k as int) =~= offsets@);
        }
        out
    }

    /// The images next after and next before the one shown.
    pub fn neighbour_paths(&self) -> (r: Vec<String>)
        ensures
            crate::text::string_texts(r@) == paths_at_offsets(
                self.dir_state().listing(),
                self.dir_state().position(),
                seq![1isize, -1isize],
            ),
    {
        let mut offsets: Vec<isize> = Vec::new();
        offsets.push(1);
        offsets.push(-1);
        assert(offsets@ =~= seq![1isize, -1isize]);
        self.paths_at(&offsets)
    }

    /// The images next after and next before the one shown, then that one.
    pub fn window_paths(&self) -> (r: Vec<String>)
        ensures
            crate::text::string_texts(r@) == paths_at_offsets(
                self.dir_state().listing(),
                self.dir_state().position(),
                seq![1isize, -1isize, 0isize],
            ),
    {
        let mut offsets: Vec<isize> = Vec::new();
        offsets.push(1);
        offsets.push(-1);
        offsets.push(0);
        assert(offsets@ =~= seq![1isize, -1isize, 0isize]);
        self.paths_at(&offsets)
    }

    pub fn inflight_len(&self) -> (r: usize)
        ensures
            r == self.cache_state().pending().len(),
    {
        self.cache.inflight_len()
    }

    pub fn set_target_size(&mut self, width: u32, height: u32)
        ensures
            final(self).cache_state().target_size() == (width, height),
            final(self).cache_state().cache_store() == old(self).cache_state().cache_store(),
            final(self).cache_state().pending() == old(self).cache_state().pending(),
            final(self).dir_state() == old(self).dir_state(),
            final(self).status_text() == old(self).status_text(),
            final(self).pending_path() == old(self).pending_path(),
            final(self).generation() == old(self).generation(),
            final(self).scanning() == old(self).scanning(),
    {
        self.cache.set_target_size(width, height);
    }
}

impl Session {
    /// Takes in a finished load as `ImageCache::absorb` does, with the place
    /// shown as the current one, and gives the event it makes.
    pub fn absorb_load(&mut self, result: LoadResult) -> (r: SessionEvent)
        requires
            result.outcome matches Ok(img) ==> old(self).cache_state().cache_store().used() - (
            if old(self).cache_state().cache_store()@.dom().contains(img.path@) {
                old(self).cache_state().cache_store()@[img.path@].0.bytes as int
            } else {
                0
            }) + img.bytes <= usize::MAX,
        ensures
            final(self).cache_state().pending() == without_ids(
                old(self).cache_state().pending(),
                seq![result.id],
            ),
            final(self).cache_state().target_size() == old(self).cache_state().target_size(),
            final(self).cache_state().cache_store().capacity() == old(self).cache_state().cache_store().capacity(),
            final(self).cache_state().cache_store().heading() == old(self).cache_state().cache_store().heading(),
            final(self).dir_state() == old(self).dir_state(),
            final(self).status_text() == old(self).status_text(),
            final(self).pending_path() == old(self).pending_path(),
            final(self).generation() == old(self).generation(),
            final(self).scanning() == old(self).scanning(),
            match result.outcome {
                Ok(img) => {
                    let staged = old(self).cache_state().cache_store()@.insert(
                        img.path@,
                        (img, result.index),
                    );
                    &&& r matches SessionEvent::Loaded(p) && p@ == img.path@
                    &&& evicted_from(
                        final(self).cache_state().cache_store()@,
                        staged,
                        old(self).cache_state().cache_store().capacity(),
                        old(self).dir_state().position() as usize,
                        old(self).cache_state().cache_store().heading(),
                    )
                    &&& map_total(staged) <= old(self).cache_state().cache_store().capacity() ==> final(self).cache_state().cache_store()@ == staged
                },
                Err(e) => {
                    &&& r == SessionEvent::Failed(result.path, e)
                    &&& final(self).cache_state().cache_store()@ == old(self).cache_state().cache_store()@
                },
            },
    {
        let index = self.directory.current_index();
        let (path, outcome) = self.cache.absorb(result, index);
        event_for(path, outcome)
    }

    /// The image asked for, when the scan shows it under another path of the
    /// same file (`same_file` says whether the two are one file on disk): it
    /// is no longer the image asked for, its cache entry goes, and the path
    /// the scan shows is given.
    fn realign_pending(&mut self, scanned: &Directory, same_file: bool) -> (r: Option<String>)
        ensures
            ({
                let moved = old(self).pending_path() matches Some(p) && shown_path(*scanned) matches Some(
                    s,
                ) && p != s && same_file;
                &&& moved ==> opt_text(r) == shown_path(*scanned) && final(self).pending_path() is None
                    && final(self).cache_state().cache_store()@ == old(self).cache_state().cache_store()@.remove(
                    old(self).pending_path()->0,
                )
                &&& !moved ==> r is None && final(self).pending_path() == old(self).pending_path()
                    && final(self).cache_state().cache_store()@ == old(self).cache_state().cache_store()@
            }),
            final(self).cache_state().pending() == old(self).cache_state().pending(),
            final(self).cache_state().target_size() == old(self).cache_state().target_size(),
            final(self).cache_state().cache_store().capacity() == old(self).cache_state().cache_store().capacity(),
            final(self).cache_state().cache_store().heading() == old(self).cache_state().cache_store().heading(),
            final(self).dir_state() == old(self).dir_state(),
            final(self).status_text() == old(self).status_text(),
            final(self).generation() == old(self).generation(),
            final(self).scanning() == old(self).scanning(),
    {
        let stale = match &self.pending {
            Some(p) => p.clone(),
            None => return None,
        };
        let shown = match scanned.current() {
            Some(s) => s,
            None => return None,
        };
        if same_text(stale.as_str(), shown) || !same_file {
            return None;
        }
        let realigned = String::from_str(shown);
        self.pending = None;
        self.cache.forget(stale.as_str());
        Some(realigned)
    }
}

/// The image a scanned folder shows once it is turned to `anchor`: where
/// the anchor is found (see `found_at`; `same` are the listed paths that
/// name the same file as the anchor), else the image the scan shows.
pub open spec fn shown_after(scanned: Directory, anchor: Option<Seq<char>>, same: Seq<Seq<char>>) -> Option<
    Seq<char>,
> {
    if anchor is Some && found_in(scanned.listing(), anchor->0, same) {
        Some(scanned.listing()[choose|i: int| found_at(scanned.listing(), anchor->0, same, i)])
    } else {
        shown_path(scanned)
    }
}

impl Session {
    /// The image a finished scan is turned to: the one on screen, else the
    /// one asked for, else the one the session shows.
    pub open spec fn anchor_for(&self, current: Option<Seq<char>>) -> Option<Seq<char>> {
        first_some(current, self.pending_path(), shown_path(self.dir_state()))
    }

    /// The image a finished scan will be turned to.
    pub fn scan_anchor(&self, current: Option<&str>) -> (r: Option<String>)
        ensures
            opt_text(r) == self.anchor_for(opt_str(current)),
    {
        match current {
            Some(c) => Some(String::from_str(c)),
            None => match &self.pending {
                Some(p) => Some(p.clone()),
                None => match self.directory.current() {
                    Some(p) => Some(String::from_str(p)),
                    None => None,
                },
            },
        }
    }

    /// The image `scanned` will show once `adopt_scan` takes it in with
    /// `current` on screen and `anchor_same` the listed paths that name the
    /// same file as the anchor; whether it is the same file as the image
    /// asked for is what `adopt_scan` is then told.
    pub fn scan_would_show(&self, scanned: &Directory, current: Option<&str>, anchor_same: &[String]) -> (r:
        Option<String>)
        ensures
            opt_text(r) == shown_after(
                *scanned,
                self.anchor_for(opt_str(current)),
                crate::text::string_texts(anchor_same@),
            ),
    {
        let anchor = self.scan_anchor(current);
        match &anchor {
            Some(a) => match crate::directory::index_of(scanned.entries(), a.as_str(), anchor_same) {
                Some(i) => {
                    proof {
                        let sm = crate::text::string_texts(anchor_same@);
                        let c = choose|k: int| found_at(scanned.listing(), a@, sm, k);
                        crate::directory::lemma_found_at_unique(scanned.listing(), a@, sm, i as int, c);
                    }
                    return Some(String::from_str(scanned.entries()[i].as_str()));
                },
                None => {},
            },
            None => {},
        }
        match scanned.current() {
            Some(p) => Some(String::from_str(p)),
            None => None,
        }
    }

    /// Takes in a finished folder scan. A failed one only sets the status,
    /// and only when no image is on screen. Otherwise the listing is turned
    /// to the anchor (see `anchor_for`), the image asked for is realigned to
    /// the path the scan shows when `same_file` says it is the same file
    /// under another path, the cache keeps only listed images, and the
    /// outcome says what to show.
    pub fn adopt_scan(
        &mut self,
        result: ScanResult,
        current: Option<&str>,
        has_current: bool,
        anchor_same: &[String],
        same_file: bool,
    ) -> (r: Option<ScanOutcome>)
        ensures
            final(self).cache_state().pending() == old(self).cache_state().pending(),
            final(self).cache_state().target_size() == old(self).cache_state().target_size(),
            final(self).generation() == old(self).generation(),
            final(self).scanning() == old(self).scanning(),
            match result {
                Err(e) => {
                    &&& r is None
                    &&& final(self).dir_state() == old(self).dir_state()
                    &&& final(self).cache_state() == old(self).cache_state()
                    &&& final(self).pending_path() == old(self).pending_path()
                    &&& final(self).status_text() == if has_current {
                        old(self).status_text()
                    } else {
                        Some("failed to read folder: "@ + e@)
                    }
                },
                Ok(scanned) => {
                    let anchor = old(self).anchor_for(opt_str(current));
                    let d = final(self).dir_state();
                    let sm = crate::text::string_texts(anchor_same@);
                    let shown = shown_after(scanned, anchor, sm);
                    let moved = old(self).pending_path() matches Some(p) && shown matches Some(s) && p
                        != s && same_file;
                    &&& d.listing() == scanned.listing()
                    &&& d.folder() == scanned.folder()
                    &&& d.stamp() == scanned.stamp()
                    &&& if anchor is Some && found_in(scanned.listing(), anchor->0, sm) {
                        found_at(scanned.listing(), anchor->0, sm, d.position())
                    } else {
                        d.position() == scanned.position()
                    }
                    &&& shown_path(d) == shown
                    &&& final(self).status_text() == if scanned.listing().len() == 0 && !has_current {
                        Some("no supported images in "@ + scanned.folder())
                    } else {
                        old(self).status_text()
                    }
                    &&& r matches Some(o) && o.anchored == (anchor is Some) && opt_text(o.first) == shown
                        && (if moved {
                        opt_text(o.realigned) == shown && final(self).pending_path() is None
                    } else {
                        o.realigned is None && final(self).pending_path() == old(self).pending_path()
                    })
                    &&& forall|k: Seq<char>| #[trigger]
                        final(self).cache_state().cache_store()@.dom().contains(k) <==> (old(
                        self).cache_state().cache_store()@.dom().contains(k) && d.listing().contains(k)
                            && !(moved && old(self).pending_path() == Some(k)))
                },
            },
    {
        let mut scanned = match result {
            Ok(d) => d,
            Err(e) => {
                if !has_current {
                    self.status = Some(concat("failed to read folder: ", e.as_str()));
                }
                return None;
            },
        };
        if scanned.is_empty() && !has_current {
            self.status = Some(concat("no supported images in ", scanned.dir()));
        }
        let anchor = self.scan_anchor(current);
        let anchored = anchor.is_some();
        match &anchor {
            Some(a) => {
                let found = scanned.jump_to(a.as_str(), anchor_same);
                proof {
                    if found {
                        let sm = crate::text::string_texts(anchor_same@);
                        let c = choose|k: int| found_at(scanned.listing(), a@, sm, k);
                        crate::directory::lemma_found_at_unique(
                            scanned.listing(),
                            a@,
                            sm,
                            scanned.position(),
                            c,
                        );
                    }
                }
            },
            None => {},
        }
        let realigned = self.realign_pending(&scanned, same_file);
        self.directory = scanned;
        self.cache.sync_to_directory(&self.directory);
        let first = match self.directory.current() {
            Some(p) => Some(String::from_str(p)),
            None => None,
        };
        Some(ScanOutcome { anchored, realigned, first })
    }

    /// Forgets the image cached for a path.
    pub fn forget(&mut self, path: &str)
        ensures
            final(self).cache_state().cache_store()@ == old(self).cache_state().cache_store()@.remove(path@),
            final(self).cache_state().pending() == old(self).cache_state().pending(),
            final(self).dir_state() == old(self).dir_state(),
            final(self).status_text() == old(self).status_text(),
            final(self).pending_path() == old(self).pending_path(),
            final(self).generation() == old(self).generation(),
            final(self).scanning() == old(self).scanning(),
    {
        self.cache.forget(path);
    }

    /// Lists the folder anew from `paths`, changed last at `modified`, as
    /// `Directory::refresh` does (`same` are the paths that name the same
    /// file as the image shown), and gives the image shown.
    pub fn refresh_directory(&mut self, paths: &Vec<String>, modified: Option<i128>, same: &[String]) -> (r:
        Option<String>)
        ensures
            final(self).dir_state().folder() == old(self).dir_state().folder(),
            final(self).dir_state().stamp() == modified,
            final(self).dir_state().listing().to_multiset() == crate::directory::openable(
                crate::text::string_texts(paths@),
            ).to_multiset(),
            opt_text(r) == shown_path(final(self).dir_state()),
            final(self).cache_state() == old(self).cache_state(),
            final(self).status_text() == old(self).status_text(),
            final(self).pending_path() == old(self).pending_path(),
            final(self).generation() == old(self).generation(),
            final(self).scanning() == old(self).scanning(),
    {
        self.directory.refresh(paths, modified, same);
        match self.directory.current() {
            Some(p) => Some(String::from_str(p)),
            None => None,
        }
    }

    /// Moves to the next or previous image, wrapping around, and gives it.
    pub fn navigate(&mut self, nav: Navigation) -> (r: Option<String>)
        ensures
            final(self).dir_state().listing() == old(self).dir_state().listing(),
            old(self).dir_state().listing().len() == 0 ==> r is None,
            old(self).dir_state().listing().len() > 0 ==> {
                &&& final(self).dir_state().position() == (old(self).dir_state().position() + (match nav {
                    Navigation::Next => 1int,
                    Navigation::Prev => -1int,
                })) % (old(self).dir_state().listing().len() as int)
                &&& opt_text(r) == shown_path(final(self).dir_state())
            },
            final(self).cache_state() == old(self).cache_state(),
            final(self).status_text() == old(self).status_text(),
            final(self).pending_path() == old(self).pending_path(),
            final(self).generation() == old(self).generation(),
            final(self).scanning() == old(self).scanning(),
    {
        match self.directory.navigate(nav) {
            Some(p) => Some(String::from_str(p)),
            None => None,
        }
    }

    /// Jumps to the image at `pick`, a place drawn at random below the
    /// length of the listing, and gives it; nothing happens for a place
    /// past the end.
    pub fn jump_to_drawn(&mut self, pick: usize) -> (r: Option<String>)
        ensures
            final(self).dir_state().listing() == old(self).dir_state().listing(),
            pick < old(self).dir_state().listing().len() ==> (r matches Some(p) && p@
                == old(self).dir_state().listing()[pick as int] && found_at(
                old(self).dir_state().listing(),
                p@,
                Seq::<Seq<char>>::empty(),
                final(self).dir_state().position(),
            )),
            pick >= old(self).dir_state().listing().len() ==> r is None && final(self).dir_state()
                == old(self).dir_state(),
            final(self).cache_state() == old(self).cache_state(),
            final(self).status_text() == old(self).status_text(),
            final(self).pending_path() == old(self).pending_path(),
            final(self).generation() == old(self).generation(),
            final(self).scanning() == old(self).scanning(),
    {
        let path = match self.directory.path_at(pick) {
            Some(p) => String::from_str(p),
            None => return None,
        };
        let none: Vec<String> = Vec::new();
        proof {
            assert(crate::text::string_texts(none@) =~= Seq::<Seq<char>>::empty());
            assert(self.dir_state().listing()[pick as int] == path@);
        }
        self.directory.jump_to(path.as_str(), none.as_slice());
        Some(path)
    }

    /// Jumps to an image of the listing drawn at random and gives it; none,
    /// and nothing changed, for an empty listing. Whatever place is drawn,
    /// the image shown is the one given.
    pub fn jump_random(&mut self) -> (r: Option<String>)
        ensures
            final(self).dir_state().listing() == old(self).dir_state().listing(),
            old(self).dir_state().listing().len() == 0 ==> r is None && final(self).dir_state()
                == old(self).dir_state(),
            old(self).dir_state().listing().len() > 0 ==> (r matches Some(p) && old(
                self,
            ).dir_state().listing().contains(p@) && found_at(
                old(self).dir_state().listing(),
                p@,
                Seq::<Seq<char>>::empty(),
                final(self).dir_state().position(),
            )),
            final(self).cache_state() == old(self).cache_state(),
            final(self).status_text() == old(self).status_text(),
            final(self).pending_path() == old(self).pending_path(),
            final(self).generation() == old(self).generation(),
            final(self).scanning() == old(self).scanning(),
    {
        let len = self.directory.len();
        if len == 0 {
            return None;
        }
        let pick = random_below(len);
        let r = self.jump_to_drawn(pick);
        proof {
            assert(old(self).dir_state().listing().contains(opt_text(r)->0));
        }
        r
    }
}

/// `rand::random_range(..len)`, as the slice method `choose` draws a place:
/// a place below `len`, uniformly at random. It panics on an empty range,
/// which the precondition leaves out (and, like every use of the thread's
/// generator, where the system gives it no seed).
#[verifier::external_body]
fn random_below(len: usize) -> (r: usize)
    requires
        len > 0,
    ensures
        r < len,
{
    rand::random_range(..len)
}

impl Session {
    /// Takes in a load event: a failure of the image asked for ends the
    /// request and puts the path and the error on the status line. Gives
    /// whether the image on screen is to be cleared.
    pub fn apply_event(&mut self, event: &SessionEvent) -> (r: bool)
        ensures
            ({
                let failed = event matches SessionEvent::Failed(p, _) && old(self).pending_path() == Some(p@);
                &&& r == failed
                &&& failed ==> final(self).pending_path() is None && final(self).status_text() == Some(
                    (event->Failed_0)@ + ": "@ + decode_error_text(event->Failed_1),
                )
                &&& !failed ==> final(self).pending_path() == old(self).pending_path()
                    && final(self).status_text() == old(self).status_text()
            }),
            final(self).dir_state() == old(self).dir_state(),
            final(self).cache_state() == old(self).cache_state(),
            final(self).generation() == old(self).generation(),
            final(self).scanning() == old(self).scanning(),
    {
        match event {
            SessionEvent::Failed(path, e) => {
                let asked = match &self.pending {
                    Some(p) => same_text(p.as_str(), path.as_str()),
                    None => false,
                };
                if asked {
                    self.pending = None;
                    let head = concat(path.as_str(), ": ");
                    let text = e.message();
                    self.status = Some(concat(head.as_str(), text.as_str()));
                }
                asked
            },
            _ => false,
        }
    }

    /// Settles the image asked for: one that is no longer the image shown
    /// is dropped; one that is ready (`prepared` for display, or cached) is
    /// given to be put on screen. Otherwise it stays asked for.
    pub fn resolve_pending(&mut self, prepared: bool) -> (r: Option<String>)
        ensures
            ({
                let pending = old(self).pending_path();
                let shown = shown_path(old(self).dir_state());
                let ready = pending is Some && (prepared || old(self).cache_state().cache_store()@.dom().contains(
                    pending->0,
                ));
                &&& pending is None ==> r is None && final(self).pending_path() is None
                &&& pending is Some && shown != pending ==> r is None && final(self).pending_path() is None
                &&& pending is Some && shown == pending && ready ==> opt_text(r) == pending
                    && final(self).pending_path() is None
                &&& pending is Some && shown == pending && !ready ==> r is None && final(self).pending_path()
                    == pending
            }),
            final(self).dir_state() == old(self).dir_state(),
            final(self).cache_state() == old(self).cache_state(),
            final(self).status_text() == old(self).status_text(),
            final(self).generation() == old(self).generation(),
            final(self).scanning() == old(self).scanning(),
    {
        let pending = match &self.pending {
            Some(p) => p.clone(),
            None => return None,
        };
        let on_screen = match self.directory.current() {
            Some(c) => same_text(c, pending.as_str()),
            None => false,
        };
        if !on_screen {
            self.pending = None;
            return None;
        }
        if prepared || self.is_cached(pending.as_str()) {
            self.pending = None;
            return Some(pending);
        }
        None
    }
}

} // verus!
