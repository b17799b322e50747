//! The decode cache together with the loads still on their way: which
//! neighbours of the image shown to ask for, which requests to drop, and what
//! a finished load does to the cache. The loader threads themselves are run
//! by the caller, which hands their request ids and results to this type.
use vstd::prelude::*;

use crate::cache::{
    evicted_from, map_total, prefetch_offsets, prefetch_order, CacheStore, CachedImage, LoadResult,
    NavigationDirection, RequestId, Slot,
};
use crate::decode::DecodeError;
use crate::directory::Directory;
use crate::text::{first_place, same_text, string_texts};

verus! {

/// Requests sent and not answered yet, as paths and request ids.
pub type Pending = Seq<(Seq<char>, RequestId)>;

/// Whether a request for path `p` is on its way.
pub open spec fn pending_has(s: Pending, p: Seq<char>) -> bool {
    exists|j: int| 0 <= j < s.len() && (#[trigger] s[j]).0 == p
}

/// Whether path `p` is among the planned requests.
pub open spec fn planned_has(s: Seq<(Seq<char>, int)>, p: Seq<char>) -> bool {
    exists|j: int| 0 <= j < s.len() && (#[trigger] s[j]).0 == p
}

/// The requests a prefetch makes, in order, with the place of each image in
/// the folder: for each offset, the image that far from the one shown
/// (wrapping around), unless it is the one shown, is cached, is being
/// loaded, or was already asked for.
pub open spec fn plan(
    listing: Seq<Seq<char>>,
    current: int,
    offsets: Seq<isize>,
    cached: Set<Seq<char>>,
    pending: Pending,
) -> Seq<(Seq<char>, int)>
    decreases offsets.len(),
{
    if offsets.len() == 0 || listing.len() == 0 {
        Seq::empty()
    } else {
        let before = plan(listing, current, offsets.drop_last(), cached, pending);
        let i = (current + offsets.last()) % (listing.len() as int);
        let p = listing[i];
        if i == current || cached.contains(p) || pending_has(pending, p) || planned_has(before, p) {
            before
        } else {
            before.push((p, i))
        }
    }
}

/// A prefetch asks only for images that are neither shown, cached nor on
/// their way, each at its place in the listing, and never twice.
pub proof fn law_prefetch_asks_once(
    listing: Seq<Seq<char>>,
    current: int,
    offsets: Seq<isize>,
    cached: Set<Seq<char>>,
    pending: Pending,
)
    ensures
        ({
            let r = plan(listing, current, offsets, cached, pending);
            &&& forall|j: int|
                0 <= j < r.len() ==> {
                    &&& 0 <= (#[trigger] r[j]).1 < listing.len()
                    &&& r[j].1 != current
                    &&& r[j].0 == listing[r[j].1]
                    &&& !cached.contains(r[j].0)
                    &&& !pending_has(pending, r[j].0)
                }
            &&& forall|i: int, j: int| 0 <= i < j < r.len() ==> (#[trigger] r[i]).0 != (#[trigger] r[j]).0
        }),
    decreases offsets.len(),
{
    if offsets.len() > 0 && listing.len() > 0 {
        law_prefetch_asks_once(listing, current, offsets.drop_last(), cached, pending);
        let before = plan(listing, current, offsets.drop_last(), cached, pending);
        let i = (current + offsets.last()) % (listing.len() as int);
        let p = listing[i];
        let r = plan(listing, current, offsets, cached, pending);
        if !(i == current || cached.contains(p) || pending_has(pending, p) || planned_has(before, p)) {
            assert(r == before.push((p, i)));
            assert forall|j: int| 0 <= j < before.len() implies (#[trigger] before[j]).0 != p by {
                if before[j].0 == p {
                    assert(planned_has(before, p));
                }
            }
            assert forall|a: int, b: int| 0 <= a < b < r.len() implies (#[trigger] r[a]).0 != (
            #[trigger] r[b]).0 by {
                assert(r[a] == before[a]);
                if b < before.len() {
                    assert(r[b] == before[b]);
                }
            }
        }
    }
}

/// The requests in `s` whose id is not in `ids`, in order.
pub open spec fn without_ids(s: Pending, ids: Seq<RequestId>) -> Pending
    decreases s.len(),
{
    if s.len() == 0 {
        s
    } else {
        let rest = without_ids(s.drop_last(), ids);
        if ids.contains(s.last().1) {
            rest
        } else {
            rest.push(s.last())
        }
    }
}

/// The requests in `s` whose path is in `keep`, in order.
pub open spec fn with_paths(s: Pending, keep: Seq<Seq<char>>) -> Pending
    decreases s.len(),
{
    if s.len() == 0 {
        s
    } else {
        let rest = with_paths(s.drop_last(), keep);
        if keep.contains(s.last().0) {
            rest.push(s.last())
        } else {
            rest
        }
    }
}

/// The ids of a run of requests.
pub open spec fn ids_of(s: Pending) -> Seq<RequestId> {
    s.map_values(|e: (Seq<char>, RequestId)| e.1)
}

/// Planned requests as plain values.
pub open spec fn plan_view(s: Seq<(String, usize)>) -> Seq<(Seq<char>, int)> {
    s.map_values(|e: (String, usize)| (e.0@, e.1 as int))
}

/// Decoded images by path, the loads on their way, and the size images are
/// decoded for.
pub struct ImageCache {
    store: CacheStore,
    inflight: Vec<(String, RequestId)>,
    target: (u32, u32),
}

impl ImageCache {
    /// The cache of decoded images.
    pub closed spec fn cache_store(&self) -> CacheStore {
        self.store
    }

    /// The requests sent and not answered yet, oldest first.
    pub closed spec fn pending(&self) -> Pending {
        self.inflight@.map_values(|e: (String, RequestId)| (e.0@, e.1))
    }

    /// The size images are decoded for; `(0, 0)` for their own size.
    pub closed spec fn target_size(&self) -> (u32, u32) {
        self.target
    }

    /// An empty cache with a byte budget, nothing on its way.
    pub fn new(capacity_bytes: usize) -> (r: ImageCache)
        ensures
            r.cache_store()@ == Map::<Seq<char>, Slot>::empty(),
            r.cache_store().capacity() == capacity_bytes,
            r.cache_store().heading() == NavigationDirection::Unknown,
            r.pending() == Seq::<(Seq<char>, RequestId)>::empty(),
            r.target_size() == (0u32, 0u32),
    {
        let r = ImageCache { store: CacheStore::new(capacity_bytes), inflight: Vec::new(), target: (0, 0) };
        assert(r.pending() =~= Seq::<(Seq<char>, RequestId)>::empty());
        r
    }

    pub fn set_target_size(&mut self, width: u32, height: u32)
        ensures
            final(self).target_size() == (width, height),
            final(self).cache_store() == old(self).cache_store(),
            final(self).pending() == old(self).pending(),
    {
        self.target = (width, height);
    }

    pub fn target(&self) -> (r: (u32, u32))
        ensures
            r == self.target_size(),
    {
        self.target
    }

    pub fn store(&self) -> (r: &CacheStore)
        ensures
            *r == self.cache_store(),
    {
        &self.store
    }

    pub fn get(&self, path: &str) -> (r: Option<&CachedImage>)
        ensures
            match r {
                Some(img) => self.cache_store()@.dom().contains(path@) && *img == self.cache_store()@[path@].0,
                None => !self.cache_store()@.dom().contains(path@),
            },
    {
        self.store.get(path)
    }

    /// The number of loads on their way.
    pub fn inflight_len(&self) -> (r: usize)
        ensures
            r == self.pending().len(),
    {
        self.inflight.len()
    }

    /// Whether a load of `path` is on its way.
    pub fn is_pending(&self, path: &str) -> (r: bool)
        ensures
            r == pending_has(self.pending(), path@),
    {
        let mut i: usize = 0;
        while i < self.inflight.len()
            invariant
                i <= self.inflight@.len(),
                forall|j: int| 0 <= j < i ==> (#[trigger] self.pending()[j]).0 != path@,
            decreases self.inflight@.len() - i,
        {
            if same_text(self.inflight[i].0.as_str(), path) {
                assert(self.pending()[i as int].0 == path@);
                return true;
            }
            i = i + 1;
        }
        false
    }

    /// Whether `path` should be asked for: it is neither cached nor on its way.
    pub fn wants(&self, path: &str) -> (r: bool)
        ensures
            r == !(self.cache_store()@.dom().contains(path@) || pending_has(self.pending(), path@)),
    {
        !(self.store.contains(path) || self.is_pending(path))
    }

    /// Notes that a load of `path` was sent under `id`.
    pub fn record_request(&mut self, path: String, id: RequestId)
        ensures
            final(self).pending() == old(self).pending().push((path@, id)),
            final(self).cache_store() == old(self).cache_store(),
            final(self).target_size() == old(self).target_size(),
    {
        self.inflight.push((path, id));
        assert(self.pending() =~= old(self).pending().push((path@, id)));
    }
}

fn planned_contains(out: &Vec<(String, usize)>, path: &str) -> (r: bool)
    ensures
        r == planned_has(plan_view(out@), path@),
{
    let mut i: usize = 0;
    while i < out.len()
        invariant
            i <= out@.len(),
            forall|j: int| 0 <= j < i ==> (#[trigger] plan_view(out@)[j]).0 != path@,
        decreases out@.len() - i,
    {
        if same_text(out[i].0.as_str(), path) {
            assert(plan_view(out@)[i as int].0 == path@);
            return true;
        }
        i = i + 1;
    }
    false
}

impl ImageCache {
    /// The loads a prefetch within `radius` of the image shown asks for, in
    /// the order it asks, each with the place of its image in the folder.
    pub fn prefetch_targets(&self, dir: &Directory, radius: isize) -> (r: Vec<(String, usize)>)
        ensures
            plan_view(r@) == plan(
                dir.listing(),
                dir.position(),
                prefetch_order(radius as int),
                self.cache_store()@.dom(),
                self.pending(),
            ),
    {
        let offsets = prefetch_offsets(radius);
        let ghost listing = dir.listing();
        let ghost cached = self.cache_store()@.dom();
        let ghost pending = self.pending();
        let mut out: Vec<(String, usize)> = Vec::new();
        let mut k: usize = 0;
        proof {
            assert(offsets@.take(0) =~= Seq::<isize>::empty());
            assert(plan_view(out@) =~= Seq::<(Seq<char>, int)>::empty());
        }
        while k < offsets.len()
            invariant
                k <= offsets@.len(),
                listing == dir.listing(),
                cached == self.cache_store()@.dom(),
                pending == self.pending(),
                plan_view(out@) == plan(listing, dir.position(), offsets@.take(k as int), cached, pending),
            decreases offsets@.len() - k,
        {
            let ghost before = out@;
            proof {
                assert(offsets@.take(k + 1).drop_last() =~= offsets@.take(k as int));
                assert(offsets@.take(k + 1).last() == offsets@[k as int]);
            }
            match dir.offset_index(offsets[k]) {
                None => {},
                Some(index) => {
                    if index != dir.current_index() {
                        match dir.path_at(index) {
                            Some(path) => {
                                if self.wants(path) && !planned_contains(&out, path) {
                                    out.push((String::from_str(path), index));
                                    proof {
                                        assert(plan_view(out@) =~= plan_view(before).push(
                                            (path@, index as int),
                                        ));
                                    }
                                }
                            },
                            None => {},
                        }
                    }
                },
            }
            k = k + 1;
        }
        proof {
            assert(offsets@.take(k as int) =~= offsets@);
        }
        out
    }
}

fn has_id(ids: &[RequestId], id: RequestId) -> (r: bool)
    ensures
        r == ids@.contains(id),
{
    let mut i: usize = 0;
    while i < ids.len()
        invariant
            i <= ids@.len(),
            forall|j: int| 0 <= j < i ==> ids@[j] != id,
        decreases ids@.len() - i,
    {
        if ids[i] == id {
            return true;
        }
        i = i + 1;
    }
    false
}

fn has_path(keep: &[String], path: &str) -> (r: bool)
    ensures
        r == string_texts(keep@).contains(path@),
{
    let mut i: usize = 0;
    while i < keep.len()
        invariant
            i <= keep@.len(),
            forall|j: int| 0 <= j < i ==> (#[trigger] string_texts(keep@)[j]) != path@,
        decreases keep@.len() - i,
    {
        if same_text(keep[i].as_str(), path) {
            assert(string_texts(keep@)[i as int] == path@);
            return true;
        }
        i = i + 1;
    }
    false
}

impl ImageCache {
    /// Forgets the loads whose ids are in `dropped`, as after the loader
    /// cancelled them.
    pub fn forget_requests(&mut self, dropped: &[RequestId])
        ensures
            final(self).pending() == without_ids(old(self).pending(), dropped@),
            final(self).cache_store() == old(self).cache_store(),
            final(self).target_size() == old(self).target_size(),
    {
        let ghost s = old(self).pending();
        let mut kept: Vec<(String, RequestId)> = Vec::new();
        let mut v: Vec<(String, RequestId)> = Vec::new();
        std::mem::swap(&mut v, &mut self.inflight);
        assert(v@.map_values(|e: (String, RequestId)| (e.0@, e.1)) == s);
        let mut i: usize = 0;
        proof {
            assert(s.take(0) =~= Seq::<(Seq<char>, RequestId)>::empty());
        }
        while i < v.len()
            invariant
                i <= v@.len(),
                s == v@.map_values(|e: (String, RequestId)| (e.0@, e.1)),
                kept@.map_values(|e: (String, RequestId)| (e.0@, e.1)) == without_ids(s.take(i as int), dropped@),
            decreases v@.len() - i,
        {
            let ghost before = kept@;
            proof {
                assert(s.take(i + 1).drop_last() =~= s.take(i as int));
                assert(s.take(i + 1).last() == s[i as int]);
            }
            if !has_id(dropped, v[i].1) {
                kept.push((v[i].0.clone(), v[i].1));
                proof {
                    assert(kept@.map_values(|e: (String, RequestId)| (e.0@, e.1)) =~= before.map_values(
                        |e: (String, RequestId)| (e.0@, e.1),
                    ).push(s[i as int]));
                }
            }
            i = i + 1;
        }
        proof {
            assert(s.take(i as int) =~= s);
        }
        self.inflight = kept;
    }

    /// Keeps only the loads of the paths in `keep`, and gives their ids, in
    /// order, for the loader to keep too.
    pub fn keep_only(&mut self, keep: &[String]) -> (r: Vec<RequestId>)
        ensures
            final(self).pending() == with_paths(old(self).pending(), string_texts(keep@)),
            r@ == ids_of(final(self).pending()),
            final(self).cache_store() == old(self).cache_store(),
            final(self).target_size() == old(self).target_size(),
    {
        let ghost s = old(self).pending();
        let ghost ks = string_texts(keep@);
        let mut kept: Vec<(String, RequestId)> = Vec::new();
        let mut ids: Vec<RequestId> = Vec::new();
        let mut v: Vec<(String, RequestId)> = Vec::new();
        std::mem::swap(&mut v, &mut self.inflight);
        assert(v@.map_values(|e: (String, RequestId)| (e.0@, e.1)) == s);
        let mut i: usize = 0;
        proof {
            assert(s.take(0) =~= Seq::<(Seq<char>, RequestId)>::empty());
        }
        while i < v.len()
            invariant
                i <= v@.len(),
                s == v@.map_values(|e: (String, RequestId)| (e.0@, e.1)),
                ks == string_texts(keep@),
                kept@.map_values(|e: (String, RequestId)| (e.0@, e.1)) == with_paths(s.take(i as int), ks),
                ids@ == ids_of(kept@.map_values(|e: (String, RequestId)| (e.0@, e.1))),
            decreases v@.len() - i,
        {
            let ghost before = kept@;
            proof {
                assert(s.take(i + 1).drop_last() =~= s.take(i as int));
                assert(s.take(i + 1).last() == s[i as int]);
            }
            if has_path(keep, v[i].0.as_str()) {
                kept.push((v[i].0.clone(), v[i].1));
                ids.push(v[i].1);
                proof {
                    assert(kept@.map_values(|e: (String, RequestId)| (e.0@, e.1)) =~= before.map_values(
                        |e: (String, RequestId)| (e.0@, e.1),
                    ).push(s[i as int]));
                    assert(ids@ =~= ids_of(kept@.map_values(|e: (String, RequestId)| (e.0@, e.1))));
                }
            }
            i = i + 1;
        }
        proof {
            assert(s.take(i as int) =~= s);
        }
        self.inflight = kept;
        ids
    }

    /// Forgets every load on its way, as after the loader cancelled them all.
    pub fn forget_all_requests(&mut self)
        ensures
            final(self).pending() == Seq::<(Seq<char>, RequestId)>::empty(),
            final(self).cache_store() == old(self).cache_store(),
            final(self).target_size() == old(self).target_size(),
    {
        self.inflight = Vec::new();
        assert(self.pending() =~= Seq::<(Seq<char>, RequestId)>::empty());
    }
}

impl ImageCache {
    /// Takes in a finished load: it is no longer on its way, and a decoded
    /// image is cached as `CacheStore::insert` caches it, with `current_index`
    /// the place of the image shown. Gives the path and whether it decoded.
    pub fn absorb(&mut self, result: LoadResult, current_index: usize) -> (r: (
        String,
        Result<(), DecodeError>,
    ))
        requires
            result.outcome matches Ok(img) ==> old(self).cache_store().used() - (
            if old(self).cache_store()@.dom().contains(img.path@) {
                old(self).cache_store()@[img.path@].0.bytes as int
            } else {
                0
            }) + img.bytes <= usize::MAX,
        ensures
            final(self).pending() == without_ids(old(self).pending(), seq![result.id]),
            final(self).target_size() == old(self).target_size(),
            final(self).cache_store().capacity() == old(self).cache_store().capacity(),
            final(self).cache_store().heading() == old(self).cache_store().heading(),
            match result.outcome {
                Ok(img) => {
                    let staged = old(self).cache_store()@.insert(img.path@, (img, result.index));
                    &&& r.0@ == img.path@
                    &&& r.1 is Ok
                    &&& evicted_from(
                        final(self).cache_store()@,
                        staged,
                        old(self).cache_store().capacity(),
                        current_index,
                        old(self).cache_store().heading(),
                    )
                    &&& map_total(staged) <= old(self).cache_store().capacity() ==> final(self).cache_store()@ == staged
                },
                Err(e) => {
                    &&& r.0 == result.path
                    &&& r.1 == Err::<(), DecodeError>(e)
                    &&& final(self).cache_store()@ == old(self).cache_store()@
                },
            },
    {
        let LoadResult { id, index, path, outcome } = result;
        let mut ids: Vec<RequestId> = Vec::new();
        ids.push(id);
        assert(ids@ =~= seq![id]);
        self.forget_requests(ids.as_slice());
        match outcome {
            Ok(image) => {
                let p = image.path.clone();
                self.store.insert(image, index, current_index);
                (p, Ok(()))
            },
            Err(e) => (path, Err(e)),
        }
    }

    /// Brings the cache in line with the listing of `dir`, as
    /// `CacheStore::reindex` does.
    pub fn sync_to_directory(&mut self, dir: &Directory)
        ensures
            forall|k: Seq<char>| #[trigger]
                final(self).cache_store()@.dom().contains(k) <==> (old(self).cache_store()@.dom().contains(k) && dir.listing().contains(k)),
            forall|k: Seq<char>| #[trigger]
                final(self).cache_store()@.dom().contains(k) ==> final(self).cache_store()@[k].0 == old(self).cache_store()@[k].0 && first_place(
                    dir.listing(),
                    k,
                    final(self).cache_store()@[k].1 as int,
                ),
            final(self).cache_store().capacity() == old(self).cache_store().capacity(),
            final(self).cache_store().heading() == old(self).cache_store().heading(),
            final(self).pending() == old(self).pending(),
            final(self).target_size() == old(self).target_size(),
    {
        self.store.reindex(dir.entries());
    }

    /// Forgets the image cached for a path.
    pub fn forget(&mut self, path: &str)
        ensures
            final(self).cache_store()@ == old(self).cache_store()@.remove(path@),
            final(self).cache_store().capacity() == old(self).cache_store().capacity(),
            final(self).cache_store().heading() == old(self).cache_store().heading(),
            final(self).pending() == old(self).pending(),
            final(self).target_size() == old(self).target_size(),
    {
        self.store.remove(path);
    }
}

} // verus!
