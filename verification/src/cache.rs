//! The cache of decoded images: what an entry costs, which entries are
//! evicted first when the cache is over its byte budget, and the requests
//! the loader works through.
use vstd::prelude::*;

use std::sync::Arc;

use crate::decode::{DecodeError, DecodeOutput, Decoded, Frame, Orientation};
use crate::render::Resample;
use crate::text::{first_place, string_texts};

verus! {

/// The byte budget of the cache unless another is chosen.
pub const DEFAULT_CAPACITY_BYTES: usize = 536870912;

/// A decoded image held by the cache, with the bytes it takes.
#[derive(Debug)]
pub struct CachedImage {
    pub path: String,
    pub output: Arc<DecodeOutput>,
    pub bytes: usize,
}

impl Clone for CachedImage {
    fn clone(&self) -> (r: Self)
        ensures
            r == *self,
    {
        CachedImage { path: self.path.clone(), output: Arc::clone(&self.output), bytes: self.bytes }
    }
}

impl CachedImage {
    /// The EXIF orientation of the decoded image.
    pub fn orientation(&self) -> (r: Orientation)
        ensures
            r == self.output.orientation,
    {
        self.output.orientation
    }
}

/// Identifies one load request.
#[derive(Debug, Clone, Copy, PartialEq, Eq, Structural, PartialOrd, Ord, Hash)]
pub struct RequestId(pub u64);

/// A file the loader is asked to decode, and where it stands in its folder.
#[derive(Debug)]
pub struct LoadRequest {
    pub id: RequestId,
    pub path: String,
    pub index: usize,
    pub target_width: u32,
    pub target_height: u32,
    pub resample: Resample,
}

impl Clone for LoadRequest {
    fn clone(&self) -> (r: Self)
        ensures
            r == *self,
    {
        LoadRequest {
            id: self.id,
            path: self.path.clone(),
            index: self.index,
            target_width: self.target_width,
            target_height: self.target_height,
            resample: self.resample,
        }
    }
}

/// What the loader hands back for a request.
#[derive(Debug)]
pub struct LoadResult {
    pub id: RequestId,
    pub index: usize,
    pub path: String,
    pub outcome: Result<CachedImage, DecodeError>,
}

/// The pixel bytes of a run of frames.
pub open spec fn frames_bytes(fs: Seq<Frame>) -> int
    decreases fs.len(),
{
    if fs.len() == 0 {
        0
    } else {
        frames_bytes(fs.drop_last()) + fs.last().image.rgba@.len()
    }
}

/// The pixel bytes of a decoded file.
pub open spec fn decoded_bytes(d: Decoded) -> int {
    match d {
        Decoded::Still(img) => img.rgba@.len() as int,
        Decoded::Animation(fs) => frames_bytes(fs@),
    }
}

/// A count of bytes, held at `usize::MAX` when it is larger.
pub open spec fn saturated(n: int) -> int {
    if n > usize::MAX {
        usize::MAX as int
    } else {
        n
    }
}

proof fn lemma_frames_bytes_nonneg(fs: Seq<Frame>)
    ensures
        frames_bytes(fs) >= 0,
    decreases fs.len(),
{
    if fs.len() > 0 {
        lemma_frames_bytes_nonneg(fs.drop_last());
    }
}

/// The bytes a decoded file takes in the cache: its pixel buffers, all frames counted.
pub fn measure(output: &DecodeOutput) -> (r: usize)
    ensures
        r == saturated(decoded_bytes(output.decoded)),
{
    match &output.decoded {
        Decoded::Still(img) => img.rgba.len(),
        Decoded::Animation(frames) => {
            let mut total: usize = 0;
            let mut i: usize = 0;
            while i < frames.len()
                invariant
                    i <= frames@.len(),
                    total == saturated(frames_bytes(frames@.take(i as int))),
                decreases frames@.len() - i,
            {
                proof {
                    assert(frames@.take(i + 1).drop_last() =~= frames@.take(i as int));
                    lemma_frames_bytes_nonneg(frames@.take(i as int));
                }
                total = total.saturating_add(frames[i].image.rgba.len());
                i = i + 1;
            }
            assert(frames@.take(i as int) =~= frames@);
            total
        },
    }
}

/// How far around the image shown the cache loads ahead.
pub const PREFETCH_RADIUS: isize = 3;

/// The offsets to prefetch within `radius` of the image shown, nearest
/// first, each forward before backward: 1, -1, 2, -2, ...
pub open spec fn prefetch_order(radius: int) -> Seq<isize>
    decreases radius,
{
    if radius <= 0 {
        Seq::empty()
    } else {
        prefetch_order(radius - 1) + seq![radius as isize, (-radius) as isize]
    }
}

pub fn prefetch_offsets(radius: isize) -> (r: Vec<isize>)
    ensures
        r@ == prefetch_order(radius as int),
{
    let mut offsets: Vec<isize> = Vec::new();
    if radius <= 0 {
        return offsets;
    }
    let mut step: isize = 1;
    loop
        invariant
            1 <= step <= radius,
            offsets@ == prefetch_order(step - 1),
        decreases radius - step,
    {
        offsets.push(step);
        offsets.push(-step);
        assert(offsets@ =~= prefetch_order(step as int));
        if step == radius {
            return offsets;
        }
        step = step + 1;
    }
}

/// The way the viewer last moved through the folder.
#[derive(Debug, Clone, Copy, PartialEq, Eq, Structural)]
pub enum NavigationDirection {
    Forward,
    Backward,
    Unknown,
}

impl Default for NavigationDirection {
    fn default() -> (r: Self)
        ensures
            r == NavigationDirection::Unknown,
    {
        NavigationDirection::Unknown
    }
}

/// The direction of a move from `previous` to `current` in a folder of
/// `length` images; a step from the last to the first image is forward and
/// the reverse is backward.
pub open spec fn transition(previous: Option<usize>, current: usize, length: usize) -> NavigationDirection {
    match previous {
        None => NavigationDirection::Unknown,
        Some(prev) => if length > 1 && prev == length - 1 && current == 0 {
            NavigationDirection::Forward
        } else if length > 1 && prev == 0 && current == length - 1 {
            NavigationDirection::Backward
        } else if prev < current {
            NavigationDirection::Forward
        } else if prev > current {
            NavigationDirection::Backward
        } else {
            NavigationDirection::Unknown
        },
    }
}

impl NavigationDirection {
    pub fn from_transition(previous: Option<usize>, current: usize, length: usize) -> (r: Self)
        ensures
            r == transition(previous, current, length),
    {
        let prev = match previous {
            None => {
                return NavigationDirection::Unknown;
            },
            Some(p) => p,
        };
        if length > 1 && prev == length - 1 && current == 0 {
            return NavigationDirection::Forward;
        }
        if length > 1 && prev == 0 && current == length - 1 {
            return NavigationDirection::Backward;
        }
        if prev < current {
            NavigationDirection::Forward
        } else if prev > current {
            NavigationDirection::Backward
        } else {
            NavigationDirection::Unknown
        }
    }
}

/// What keeps images ahead of the direction of travel above all others.
pub open spec fn ahead_base() -> int {
    1099511627776
}

/// How much an entry at `index` is worth keeping while `current` is shown:
/// images ahead in the direction of travel come first, nearer ones before
/// farther ones; without a direction, nearer is better either way. Entries
/// with the lowest cost are evicted first.
pub open spec fn keep_cost(index: int, current: int, direction: NavigationDirection) -> int {
    let d = index - current;
    match direction {
        NavigationDirection::Forward => if d < 0 {
            d
        } else {
            ahead_base() - d
        },
        NavigationDirection::Backward => if d > 0 {
            -d
        } else {
            ahead_base() + d
        },
        NavigationDirection::Unknown => if d < 0 {
            d
        } else {
            -d
        },
    }
}

fn keep_cost_of(index: usize, current: usize, direction: NavigationDirection) -> (r: i128)
    ensures
        r == keep_cost(index as int, current as int, direction),
{
    let d: i128 = index as i128 - current as i128;
    match direction {
        NavigationDirection::Forward => if d < 0 {
            d
        } else {
            1099511627776i128 - d
        },
        NavigationDirection::Backward => if d > 0 {
            -d
        } else {
            1099511627776i128 + d
        },
        NavigationDirection::Unknown => if d < 0 {
            d
        } else {
            -d
        },
    }
}

/// What the cache holds for a path: the image and its place in the folder.
pub type Slot = (CachedImage, usize);

/// The total bytes of the images in a cache's contents.
pub open spec fn map_total(m: Map<Seq<char>, Slot>) -> nat
    decreases m.dom().len(),
    when m.dom().finite()
{
    if m.dom().finite() && m.dom().len() > 0 {
        let k = m.dom().choose();
        (m[k].0.bytes + map_total(m.remove(k))) as nat
    } else {
        0
    }
}

/// Taking one entry out of the contents takes its bytes out of the total.
pub proof fn lemma_map_total_remove(m: Map<Seq<char>, Slot>, k: Seq<char>)
    requires
        m.dom().finite(),
        m.dom().contains(k),
    ensures
        map_total(m) == m[k].0.bytes + map_total(m.remove(k)),
    decreases m.dom().len(),
{
    let c = m.dom().choose();
    assert(m.dom().contains(c));
    if c != k {
        let mc = m.remove(c);
        let mk = m.remove(k);
        lemma_map_total_remove(mc, k);
        lemma_map_total_remove(mk, c);
        assert(mc.remove(k) =~= mk.remove(c));
    }
}

/// Adding an entry under a new path adds its bytes to the total.
pub proof fn lemma_map_total_insert(m: Map<Seq<char>, Slot>, k: Seq<char>, v: Slot)
    requires
        m.dom().finite(),
        !m.dom().contains(k),
    ensures
        map_total(m.insert(k, v)) == v.0.bytes + map_total(m),
{
    lemma_map_total_remove(m.insert(k, v), k);
    assert(m.insert(k, v).remove(k) =~= m);
}

/// The total of some of the contents is at most the total of all of them.
pub proof fn lemma_map_total_submap(small: Map<Seq<char>, Slot>, big: Map<Seq<char>, Slot>)
    requires
        big.dom().finite(),
        small.submap_of(big),
    ensures
        map_total(small) <= map_total(big),
    decreases big.dom().len(),
{
    vstd::set_lib::lemma_len_subset(small.dom(), big.dom());
    if big.dom().len() > 0 {
        let k = big.dom().choose();
        assert(big.dom().contains(k));
        lemma_map_total_remove(big, k);
        if small.dom().contains(k) {
            vstd::set_lib::lemma_set_subset_finite(big.dom(), small.dom());
            lemma_map_total_remove(small, k);
            lemma_map_total_submap(small.remove(k), big.remove(k));
        } else {
            assert(small.submap_of(big.remove(k))) by {
                assert forall|x: Seq<char>| #[trigger] small.dom().contains(x) implies big.remove(k).dom().contains(x)
                    && small[x] == big.remove(k)[x] by {
                    assert(big.dom().contains(x));
                    assert(x != k);
                }
            }
            lemma_map_total_submap(small, big.remove(k));
        }
    } else {
        assert(small.dom().len() == 0);
        vstd::set_lib::lemma_set_subset_finite(big.dom(), small.dom());
    }
}

struct Entry {
    image: CachedImage,
    index: usize,
}

spec fn key_of(e: Entry) -> Seq<char> {
    e.image.path@
}

spec fn slot_of(e: Entry) -> Slot {
    (e.image, e.index)
}

spec fn map_of(s: Seq<Entry>) -> Map<Seq<char>, Slot>
    decreases s.len(),
{
    if s.len() == 0 {
        Map::empty()
    } else {
        map_of(s.drop_last()).insert(key_of(s.last()), slot_of(s.last()))
    }
}

spec fn distinct_keys(s: Seq<Entry>) -> bool {
    forall|i: int, j: int| 0 <= i < j < s.len() ==> key_of(s[i]) != key_of(s[j])
}

proof fn lemma_map_of_finite(s: Seq<Entry>)
    ensures
        map_of(s).dom().finite(),
    decreases s.len(),
{
    if s.len() > 0 {
        lemma_map_of_finite(s.drop_last());
    }
}

proof fn lemma_map_of_facts(s: Seq<Entry>)
    requires
        distinct_keys(s),
    ensures
        map_of(s).dom().finite(),
        map_of(s).dom().len() == s.len(),
        forall|k: Seq<char>| #[trigger]
            map_of(s).dom().contains(k) <==> exists|i: int| 0 <= i < s.len() && key_of(s[i]) == k,
        forall|i: int| 0 <= i < s.len() ==> #[trigger] map_of(s)[key_of(s[i])] == slot_of(s[i]),
    decreases s.len(),
{
    if s.len() > 0 {
        let d = s.drop_last();
        lemma_map_of_facts(d);
        assert forall|k: Seq<char>| #[trigger]
            map_of(s).dom().contains(k) <==> exists|i: int| 0 <= i < s.len() && key_of(s[i]) == k by {
            if map_of(s).dom().contains(k) {
                if k == key_of(s.last()) {
                    assert(key_of(s[s.len() - 1]) == k);
                } else {
                    let i = choose|i: int| 0 <= i < d.len() && key_of(d[i]) == k;
                    assert(key_of(s[i]) == k);
                }
            }
            if exists|i: int| 0 <= i < s.len() && key_of(s[i]) == k {
                let i = choose|i: int| 0 <= i < s.len() && key_of(s[i]) == k;
                if i < s.len() - 1 {
                    assert(key_of(d[i]) == k);
                }
            }
        }
        assert(!map_of(d).dom().contains(key_of(s.last()))) by {
            if map_of(d).dom().contains(key_of(s.last())) {
                let i = choose|i: int| 0 <= i < d.len() && key_of(d[i]) == key_of(s.last());
                assert(key_of(s[i]) == key_of(s[s.len() - 1]));
            }
        }
        assert forall|i: int| 0 <= i < s.len() implies #[trigger] map_of(s)[key_of(s[i])] == slot_of(
            s[i],
        ) by {
            if i < s.len() - 1 {
                assert(d[i] == s[i]);
                assert(key_of(s[i]) != key_of(s[s.len() - 1]));
            }
        }
    }
}

proof fn lemma_map_of_remove(s: Seq<Entry>, i: int)
    requires
        distinct_keys(s),
        0 <= i < s.len(),
    ensures
        map_of(s.remove(i)) == map_of(s).remove(key_of(s[i])),
        distinct_keys(s.remove(i)),
    decreases s.len(),
{
    let d = s.drop_last();
    lemma_map_of_facts(d);
    if i == s.len() - 1 {
        assert(s.remove(i) =~= d);
        assert(!map_of(d).dom().contains(key_of(s.last()))) by {
            if map_of(d).dom().contains(key_of(s.last())) {
                let j = choose|j: int| 0 <= j < d.len() && key_of(d[j]) == key_of(s.last());
                assert(key_of(s[j]) == key_of(s[s.len() - 1]));
            }
        }
        assert(map_of(s).remove(key_of(s[i])) =~= map_of(d));
    } else {
        lemma_map_of_remove(d, i);
        assert(s.remove(i).drop_last() =~= d.remove(i));
        assert(s.remove(i).last() == s.last());
        assert(key_of(s[i]) != key_of(s.last()));
        assert(map_of(s.remove(i)) =~= map_of(s).remove(key_of(s[i])));
    }
}

proof fn lemma_push_distinct(s: Seq<Entry>, e: Entry)
    requires
        distinct_keys(s),
        !map_of(s).dom().contains(key_of(e)),
    ensures
        distinct_keys(s.push(e)),
        map_of(s.push(e)) == map_of(s).insert(key_of(e), slot_of(e)),
{
    lemma_map_of_facts(s);
    assert(s.push(e).drop_last() =~= s);
    assert forall|i: int, j: int| 0 <= i < j < s.push(e).len() implies key_of(s.push(e)[i]) != key_of(
        s.push(e)[j],
    ) by {
        if j == s.len() {
            assert(key_of(s[i]) != key_of(e));
        }
    }
}


fn find_entry(v: &Vec<Entry>, path: &str) -> (r: Option<usize>)
    ensures
        match r {
            Some(i) => i < v@.len() && key_of(v@[i as int]) == path@,
            None => forall|i: int| 0 <= i < v@.len() ==> key_of(v@[i]) != path@,
        },
{
    let mut i: usize = 0;
    while i < v.len()
        invariant
            i <= v@.len(),
            forall|j: int| 0 <= j < i ==> key_of(v@[j]) != path@,
        decreases v@.len() - i,
    {
        if crate::text::same_text(v[i].image.path.as_str(), path) {
            return Some(i);
        }
        i = i + 1;
    }
    None
}

spec fn cost_of(e: Entry, current: usize, direction: NavigationDirection) -> int {
    keep_cost(e.index as int, current as int, direction)
}

/// The entry to evict next: the one, not at `current`, that is cheapest to lose.
fn pick_victim(v: &Vec<Entry>, current: usize, direction: NavigationDirection) -> (r: Option<usize>)
    ensures
        match r {
            Some(j) => {
                &&& j < v@.len()
                &&& v@[j as int].index != current
                &&& forall|i: int|
                    0 <= i < v@.len() && v@[i].index != current ==> cost_of(v@[j as int], current, direction)
                        <= cost_of(v@[i], current, direction)
            },
            None => forall|i: int| 0 <= i < v@.len() ==> v@[i].index == current,
        },
{
    let mut best: Option<usize> = None;
    let mut best_cost: i128 = 0;
    let mut i: usize = 0;
    while i < v.len()
        invariant
            i <= v@.len(),
            match best {
                Some(j) => {
                    &&& j < i
                    &&& v@[j as int].index != current
                    &&& best_cost == cost_of(v@[j as int], current, direction)
                    &&& forall|k: int|
                        0 <= k < i && v@[k].index != current ==> cost_of(v@[j as int], current, direction)
                            <= cost_of(v@[k], current, direction)
                },
                None => forall|k: int| 0 <= k < i ==> v@[k].index == current,
            },
        decreases v@.len() - i,
    {
        if v[i].index != current {
            let c = keep_cost_of(v[i].index, current, direction);
            match best {
                None => {
                    best = Some(i);
                    best_cost = c;
                },
                Some(_) => {
                    if c < best_cost {
                        best = Some(i);
                        best_cost = c;
                    }
                },
            }
        }
        i = i + 1;
    }
    best
}

/// Evicts the cheapest entries, never one at `current`, until the total fits
/// `capacity` or only entries at `current` are left.
fn evict_to_fit(
    v: &mut Vec<Entry>,
    used: &mut usize,
    capacity: usize,
    current: usize,
    direction: NavigationDirection,
)
    requires
        distinct_keys(old(v)@),
        *old(used) == map_total(map_of(old(v)@)),
    ensures
        distinct_keys(final(v)@),
        *final(used) == map_total(map_of(final(v)@)),
        evicted_from(map_of(final(v)@), map_of(old(v)@), capacity as int, current, direction),
        map_total(map_of(old(v)@)) <= capacity ==> map_of(final(v)@) == map_of(old(v)@),
        *final(used) <= capacity || forall|k: Seq<char>| #[trigger]
            map_of(final(v)@).dom().contains(k) ==> map_of(final(v)@)[k].1 == current,
{
    let ghost staged = map_of(v@);
    proof {
        lemma_map_of_finite(v@);
        assert(staged.submap_of(staged));
    }
    while *used > capacity
        invariant
            distinct_keys(v@),
            *used == map_total(map_of(v@)),
            staged.dom().finite(),
            evicted_from(map_of(v@), staged, capacity as int, current, direction),
            map_total(staged) <= capacity ==> map_of(v@) == staged,
        ensures
            *used <= capacity || forall|k: Seq<char>| #[trigger]
                map_of(v@).dom().contains(k) ==> map_of(v@)[k].1 == current,
        decreases v@.len(),
    {
        let ghost kept = map_of(v@);
        proof {
            lemma_map_of_facts(v@);
            lemma_map_total_submap(kept, staged);
        }
        match pick_victim(v, current, direction) {
            None => {
                proof {
                    assert forall|k: Seq<char>| #[trigger] kept.dom().contains(k) implies kept[k].1
                        == current by {
                        let i = choose|i: int| 0 <= i < v@.len() && key_of(v@[i]) == k;
                        assert(kept[key_of(v@[i])] == slot_of(v@[i]));
                    }
                }
                break;
            },
            Some(j) => {
                let ghost kj = key_of(v@[j as int]);
                let ghost old_v = v@;
                proof {
                    lemma_map_of_remove(v@, j as int);
                    lemma_map_total_remove(kept, kj);
                    assert(kept[kj] == slot_of(v@[j as int]));
                }
                let e = v.remove(j);
                *used = *used - e.image.bytes;
                proof {
                    let kept2 = map_of(v@);
                    assert(kept2 == kept.remove(kj));
                    assert(kept2.submap_of(staged));
                    assert forall|k: Seq<char>| #[trigger]
                        staged.dom().contains(k) && staged[k].1 == current implies kept2.dom().contains(
                        k,
                    ) by {
                        assert(kept.dom().contains(k));
                    }
                    assert forall|a: Seq<char>, b: Seq<char>|
                        #![trigger staged.dom().contains(a), kept2.dom().contains(b)]
                        staged.dom().contains(a) && !kept2.dom().contains(a) && kept2.dom().contains(b)
                            && kept2[b].1 != current implies keep_cost(
                        staged[a].1 as int,
                        current as int,
                        direction,
                    ) <= keep_cost(kept2[b].1 as int, current as int, direction) by {
                        assert(kept.dom().contains(b));
                        if a == kj {
                            let i = choose|i: int| 0 <= i < old_v.len() && key_of(old_v[i]) == b;
                            assert(kept[key_of(old_v[i])] == slot_of(old_v[i]));
                        } else {
                            assert(!kept.dom().contains(a));
                        }
                    }
                    assert(staged.dom().contains(kj) && !kept2.dom().contains(kj));
                    assert(map_total(kept2) + staged[kj].0.bytes > capacity);
                }
            },
        }
    }
}

/// Decoded images by path, kept within a byte budget.
pub struct CacheStore {
    capacity_bytes: usize,
    used_bytes: usize,
    direction: NavigationDirection,
    entries: Vec<Entry>,
}

impl View for CacheStore {
    type V = Map<Seq<char>, Slot>;

    closed spec fn view(&self) -> Map<Seq<char>, Slot> {
        map_of(self.entries@)
    }
}

/// Whether the cache's contents are `staged` minus a set of evicted
/// entries chosen as `insert` chooses them.
pub open spec fn evicted_from(
    kept: Map<Seq<char>, Slot>,
    staged: Map<Seq<char>, Slot>,
    capacity: int,
    current: usize,
    direction: NavigationDirection,
) -> bool {
    &&& kept.submap_of(staged)
    &&& forall|k: Seq<char>| #[trigger]
        staged.dom().contains(k) && staged[k].1 == current ==> kept.dom().contains(k)
    &&& forall|e: Seq<char>, s: Seq<char>|
        #![trigger staged.dom().contains(e), kept.dom().contains(s)]
        staged.dom().contains(e) && !kept.dom().contains(e) && kept.dom().contains(s) && kept[s].1
            != current ==> keep_cost(staged[e].1 as int, current as int, direction) <= keep_cost(
            kept[s].1 as int,
            current as int,
            direction,
        )
    &&& (exists|e: Seq<char>| staged.dom().contains(e) && !kept.dom().contains(e)) ==> exists|
        e: Seq<char>,
    |
        #![trigger staged.dom().contains(e)]
        staged.dom().contains(e) && !kept.dom().contains(e) && map_total(kept) + staged[e].0.bytes
            > capacity
}

/// Heading forward, eviction never drops an image ahead of the one shown
/// while it keeps one farther ahead: of two staged images ahead, the nearer
/// is kept whenever the farther is.
pub proof fn law_forward_keeps_nearer_ahead(
    kept: Map<Seq<char>, Slot>,
    staged: Map<Seq<char>, Slot>,
    capacity: int,
    current: usize,
    near: Seq<char>,
    far: Seq<char>,
)
    requires
        evicted_from(kept, staged, capacity, current, NavigationDirection::Forward),
        staged.dom().contains(near),
        staged.dom().contains(far),
        current < staged[near].1 < staged[far].1,
        kept.dom().contains(far),
    ensures
        kept.dom().contains(near),
{
    assert(kept[far] == staged[far]);
}

/// Heading backward, the same holds of the images behind the one shown: of
/// two staged images behind it, the nearer is kept whenever the farther is.
pub proof fn law_backward_keeps_nearer_behind(
    kept: Map<Seq<char>, Slot>,
    staged: Map<Seq<char>, Slot>,
    capacity: int,
    current: usize,
    near: Seq<char>,
    far: Seq<char>,
)
    requires
        evicted_from(kept, staged, capacity, current, NavigationDirection::Backward),
        staged.dom().contains(near),
        staged.dom().contains(far),
        staged[far].1 < staged[near].1 < current,
        kept.dom().contains(far),
    ensures
        kept.dom().contains(near),
{
    assert(kept[far] == staged[far]);
}

/// Heading forward, an image ahead of the one shown outlasts every image
/// behind it: where one behind is kept, each one ahead is kept too.
pub proof fn law_forward_keeps_ahead_before_behind(
    kept: Map<Seq<char>, Slot>,
    staged: Map<Seq<char>, Slot>,
    capacity: int,
    current: usize,
    ahead: Seq<char>,
    behind: Seq<char>,
)
    requires
        evicted_from(kept, staged, capacity, current, NavigationDirection::Forward),
        staged.dom().contains(ahead),
        staged.dom().contains(behind),
        current <= staged[ahead].1 < current + ahead_base(),
        staged[behind].1 < current,
        kept.dom().contains(behind),
    ensures
        kept.dom().contains(ahead),
{
    assert(kept[behind] == staged[behind]);
}

/// Heading backward, an image behind the one shown outlasts every image
/// ahead of it: where one ahead is kept, each one behind is kept too.
pub proof fn law_backward_keeps_behind_before_ahead(
    kept: Map<Seq<char>, Slot>,
    staged: Map<Seq<char>, Slot>,
    capacity: int,
    current: usize,
    behind: Seq<char>,
    ahead: Seq<char>,
)
    requires
        evicted_from(kept, staged, capacity, current, NavigationDirection::Backward),
        staged.dom().contains(ahead),
        staged.dom().contains(behind),
        current - ahead_base() < staged[behind].1 <= current,
        current < staged[ahead].1,
        kept.dom().contains(ahead),
    ensures
        kept.dom().contains(behind),
{
    assert(kept[ahead] == staged[ahead]);
}

/// With no direction of travel, of two staged images on the same side of
/// the one shown, the nearer is kept whenever the farther is.
pub proof fn law_undirected_keeps_nearer(
    kept: Map<Seq<char>, Slot>,
    staged: Map<Seq<char>, Slot>,
    capacity: int,
    current: usize,
    near: Seq<char>,
    far: Seq<char>,
)
    requires
        evicted_from(kept, staged, capacity, current, NavigationDirection::Unknown),
        staged.dom().contains(near),
        staged.dom().contains(far),
        (current < staged[near].1 < staged[far].1) || (staged[far].1 < staged[near].1 < current),
        kept.dom().contains(far),
    ensures
        kept.dom().contains(near),
{
    assert(kept[far] == staged[far]);
}

impl CacheStore {
    #[verifier::type_invariant]
    spec fn wf(self) -> bool {
        &&& distinct_keys(self.entries@)
        &&& self.used_bytes == map_total(map_of(self.entries@))
    }

    /// The bytes the cached images take.
    pub closed spec fn used(&self) -> int {
        map_total(self@) as int
    }

    /// The byte budget.
    pub closed spec fn capacity(&self) -> int {
        self.capacity_bytes as int
    }

    /// The direction of travel that ranks entries for eviction.
    pub closed spec fn heading(&self) -> NavigationDirection {
        self.direction
    }

    /// The count of used bytes is the total of the cached images' sizes,
    /// and the contents are finite.
    pub proof fn law_used_is_total(store: CacheStore)
        ensures
            store.used() == map_total(store@),
            store@.dom().finite(),
    {
        lemma_map_of_finite(store.entries@);
    }

    /// An empty cache with the given byte budget.
    pub fn new(capacity_bytes: usize) -> (r: CacheStore)
        ensures
            r@ == Map::<Seq<char>, Slot>::empty(),
            r.used() == 0,
            r.capacity() == capacity_bytes,
            r.heading() == NavigationDirection::Unknown,
    {
        let r = CacheStore {
            capacity_bytes,
            used_bytes: 0,
            direction: NavigationDirection::Unknown,
            entries: Vec::new(),
        };
        assert(map_of(r.entries@) =~= Map::<Seq<char>, Slot>::empty());
        r
    }

    /// Sets the direction of travel that ranks entries for eviction.
    pub fn set_direction(&mut self, direction: NavigationDirection)
        ensures
            final(self)@ == old(self)@,
            final(self).used() == old(self).used(),
            final(self).capacity() == old(self).capacity(),
            final(self).heading() == direction,
    {
        proof {
            use_type_invariant(&*self);
        }
        self.direction = direction;
    }

    pub fn used_bytes(&self) -> (r: usize)
        ensures
            r == self.used(),
    {
        proof {
            use_type_invariant(self);
        }
        self.used_bytes
    }

    pub fn capacity_bytes(&self) -> (r: usize)
        ensures
            r == self.capacity(),
    {
        self.capacity_bytes
    }

    /// The number of cached images.
    pub fn len(&self) -> (r: usize)
        ensures
            r == self@.dom().len(),
    {
        proof {
            use_type_invariant(self);
            lemma_map_of_facts(self.entries@);
        }
        self.entries.len()
    }

    pub fn is_empty(&self) -> (r: bool)
        ensures
            r == (self@.dom().len() == 0),
    {
        proof {
            use_type_invariant(self);
            lemma_map_of_facts(self.entries@);
        }
        self.entries.len() == 0
    }

    fn position(&self, path: &str) -> (r: Option<usize>)
        ensures
            match r {
                Some(i) => i < self.entries@.len() && key_of(self.entries@[i as int]) == path@,
                None => forall|i: int| 0 <= i < self.entries@.len() ==> key_of(self.entries@[i]) != path@,
            },
    {
        find_entry(&self.entries, path)
    }

    /// Whether an image is cached for the path.
    pub fn contains(&self, path: &str) -> (r: bool)
        ensures
            r == self@.dom().contains(path@),
    {
        proof {
            use_type_invariant(self);
            lemma_map_of_facts(self.entries@);
        }
        let p = self.position(path);
        proof {
            if p is None && self@.dom().contains(path@) {
                let i = choose|i: int|
                    0 <= i < self.entries@.len() && key_of(self.entries@[i]) == path@;
                assert(key_of(self.entries@[i]) != path@);
            }
        }
        p.is_some()
    }

    /// The cached image for a path.
    pub fn get(&self, path: &str) -> (r: Option<&CachedImage>)
        ensures
            match r {
                Some(img) => self@.dom().contains(path@) && *img == self@[path@].0,
                None => !self@.dom().contains(path@),
            },
    {
        proof {
            use_type_invariant(self);
            lemma_map_of_facts(self.entries@);
        }
        match self.position(path) {
            Some(i) => {
                assert(self@[key_of(self.entries@[i as int])] == slot_of(self.entries@[i as int]));
                Some(&self.entries[i].image)
            },
            None => {
                proof {
                    if self@.dom().contains(path@) {
                        let i = choose|i: int|
                            0 <= i < self.entries@.len() && key_of(self.entries@[i]) == path@;
                        assert(key_of(self.entries@[i]) != path@);
                    }
                }
                None
            },
        }
    }

    fn take_parts(&mut self) -> (r: (usize, usize, NavigationDirection, Vec<Entry>))
        ensures
            r.0 == old(self).capacity_bytes,
            r.1 == old(self).used_bytes,
            r.2 == old(self).direction,
            r.3@ == old(self).entries@,
            distinct_keys(r.3@),
            r.1 == map_total(map_of(r.3@)),
            final(self).capacity_bytes == old(self).capacity_bytes,
            final(self).direction == old(self).direction,
    {
        proof {
            use_type_invariant(&*self);
        }
        let mut tmp = CacheStore::new(self.capacity_bytes);
        proof {
            use_type_invariant(&tmp);
        }
        tmp.direction = self.direction;
        std::mem::swap(&mut tmp, self);
        proof {
            use_type_invariant(&tmp);
        }
        let CacheStore { capacity_bytes, used_bytes, direction, entries } = tmp;
        (capacity_bytes, used_bytes, direction, entries)
    }

    /// Forgets the image cached for a path, if there is one.
    pub fn remove(&mut self, path: &str)
        ensures
            final(self)@ == old(self)@.remove(path@),
            final(self).used() == old(self).used() - (if old(self)@.dom().contains(path@) {
                old(self)@[path@].0.bytes as int
            } else {
                0
            }),
            final(self).capacity() == old(self).capacity(),
            final(self).heading() == old(self).heading(),
    {
        proof {
            use_type_invariant(&*self);
            lemma_map_of_facts(self.entries@);
        }
        match self.position(path) {
            None => {
                proof {
                    if self@.dom().contains(path@) {
                        let i = choose|i: int|
                            0 <= i < self.entries@.len() && key_of(self.entries@[i]) == path@;
                        assert(key_of(self.entries@[i]) != path@);
                    }
                    assert(old(self)@.remove(path@) =~= old(self)@);
                }
            },
            Some(i) => {
                let (cap, used, dir, mut v) = self.take_parts();
                let ghost m = map_of(v@);
                let ghost k = key_of(v@[i as int]);
                proof {
                    lemma_map_of_facts(v@);
                    lemma_map_of_remove(v@, i as int);
                    lemma_map_total_remove(m, k);
                }
                let e = v.remove(i);
                let used2 = used - e.image.bytes;
                *self = CacheStore { capacity_bytes: cap, used_bytes: used2, direction: dir, entries: v };
            },
        }
    }

    /// Caches an image for its path, at `index` in the folder, in place of
    /// what was cached for that path; then, while the cache is over budget,
    /// evicts the entries cheapest to lose while `current_index` is shown,
    /// never one at `current_index`.
    pub fn insert(&mut self, image: CachedImage, index: usize, current_index: usize)
        requires
            old(self).used() - (if old(self)@.dom().contains(image.path@) {
                old(self)@[image.path@].0.bytes as int
            } else {
                0
            }) + image.bytes <= usize::MAX,
        ensures
            ({
                let staged = old(self)@.insert(image.path@, (image, index));
                &&& evicted_from(final(self)@, staged, old(self).capacity(), current_index, old(self).heading())
                &&& map_total(staged) <= old(self).capacity() ==> final(self)@ == staged
                &&& final(self).used() <= old(self).capacity() || forall|k: Seq<char>| #[trigger]
                    final(self)@.dom().contains(k) ==> final(self)@[k].1 == current_index
            }),
            final(self).capacity() == old(self).capacity(),
            final(self).heading() == old(self).heading(),
    {
        proof {
            use_type_invariant(&*self);
        }
        let (cap, used0, dir, mut v) = self.take_parts();
        let mut used = used0;
        let ghost m0 = map_of(v@);
        let ghost key = image.path@;
        proof {
            lemma_map_of_facts(v@);
        }
        match find_entry(&v, image.path.as_str()) {
            Some(p) => {
                proof {
                    lemma_map_of_remove(v@, p as int);
                    lemma_map_total_remove(m0, key);
                    assert(m0[key_of(v@[p as int])] == slot_of(v@[p as int]));
                }
                let old_entry = v.remove(p);
                used = used - old_entry.image.bytes;
            },
            None => {
                proof {
                    if m0.dom().contains(key) {
                        let i = choose|i: int| 0 <= i < v@.len() && key_of(v@[i]) == key;
                        assert(key_of(v@[i]) != key);
                    }
                    assert(m0.remove(key) =~= m0);
                }
            },
        }
        let ghost m1 = map_of(v@);
        assert(m1 == m0.remove(key));
        let bytes = image.bytes;
        let entry = Entry { image, index };
        proof {
            lemma_map_of_finite(v@);
            lemma_push_distinct(v@, entry);
            lemma_map_total_insert(m1, key, slot_of(entry));
            assert(m1.insert(key, slot_of(entry)) =~= m0.insert(key, slot_of(entry)));
        }
        v.push(entry);
        used = used + bytes;
        evict_to_fit(&mut v, &mut used, cap, current_index, dir);
        *self = CacheStore { capacity_bytes: cap, used_bytes: used, direction: dir, entries: v };
    }

    /// Brings the cache in line with a new folder listing: entries whose path
    /// is no longer listed are forgotten, and the others take the place at
    /// which their path is first listed.
    pub fn reindex(&mut self, listing: &[String])
        ensures
            forall|k: Seq<char>| #[trigger]
                final(self)@.dom().contains(k) <==> (old(self)@.dom().contains(k) && string_texts(
                    listing@,
                ).contains(k)),
            forall|k: Seq<char>| #[trigger]
                final(self)@.dom().contains(k) ==> final(self)@[k].0 == old(self)@[k].0 && first_place(
                    string_texts(listing@),
                    k,
                    final(self)@[k].1 as int,
                ),
            final(self).capacity() == old(self).capacity(),
            final(self).heading() == old(self).heading(),
    {
        proof {
            use_type_invariant(&*self);
        }
        let (cap, used0, dir, mut v) = self.take_parts();
        let ghost orig = v@;
        let ghost list = string_texts(listing@);
        let mut out: Vec<Entry> = Vec::new();
        let mut used: usize = 0;
        proof {
            lemma_map_of_facts(orig);
            assert(map_of(out@) =~= Map::<Seq<char>, Slot>::empty());
            assert(v@ =~= orig.take(v@.len() as int));
        }
        while v.len() > 0
            invariant
                distinct_keys(orig),
                v@ == orig.take(v@.len() as int),
                v@.len() <= orig.len(),
                distinct_keys(out@),
                used == map_total(map_of(out@)),
                used + map_total(map_of(v@)) <= used0,
                used0 == map_total(map_of(orig)),
                used0 <= usize::MAX,
                list == string_texts(listing@),
                forall|k: Seq<char>| #[trigger]
                    map_of(out@).dom().contains(k) <==> (map_of(orig).dom().contains(k)
                        && !map_of(v@).dom().contains(k) && list.contains(k)),
                forall|k: Seq<char>| #[trigger]
                    map_of(out@).dom().contains(k) ==> map_of(out@)[k].0 == map_of(orig)[k].0
                        && first_place(list, k, map_of(out@)[k].1 as int),
            decreases v@.len(),
        {
            let ghost vb = v@;
            let ghost n = vb.len() - 1;
            proof {
                assert(vb.drop_last() =~= orig.take(n));
                assert(vb.last() == orig[n]);
                lemma_map_of_facts(vb);
                lemma_map_of_facts(vb.drop_last());
                assert(!map_of(vb.drop_last()).dom().contains(key_of(vb.last()))) by {
                    if map_of(vb.drop_last()).dom().contains(key_of(vb.last())) {
                        let i = choose|i: int|
                            0 <= i < vb.drop_last().len() && key_of(vb.drop_last()[i]) == key_of(
                                vb.last(),
                            );
                        assert(key_of(orig[i]) == key_of(orig[n]));
                    }
                }
                lemma_map_total_insert(map_of(vb.drop_last()), key_of(vb.last()), slot_of(vb.last()));
                lemma_map_of_facts(orig);
                assert(map_of(orig)[key_of(orig[n])] == slot_of(orig[n]));
            }
            let e = v.pop().unwrap();
            match crate::text::position_of(listing, e.image.path.as_str()) {
                Some(p) => {
                    let ne = Entry { image: e.image, index: p };
                    proof {
                        lemma_map_of_finite(out@);
                        assert(!map_of(out@).dom().contains(key_of(ne)));
                        lemma_push_distinct(out@, ne);
                        lemma_map_total_insert(map_of(out@), key_of(ne), slot_of(ne));
                    }
                    used = used + ne.image.bytes;
                    out.push(ne);
                },
                None => {},
            }
        }
        proof {
            assert(map_of(v@) =~= Map::<Seq<char>, Slot>::empty());
        }
        *self = CacheStore { capacity_bytes: cap, used_bytes: used, direction: dir, entries: out };
    }

    /// Forgets every cached image.
    pub fn clear(&mut self)
        ensures
            final(self)@ == Map::<Seq<char>, Slot>::empty(),
            final(self).used() == 0,
            final(self).capacity() == old(self).capacity(),
            final(self).heading() == old(self).heading(),
    {
        let cap = self.capacity_bytes;
        let dir = self.direction;
        let r = CacheStore { capacity_bytes: cap, used_bytes: 0, direction: dir, entries: Vec::new() };
        assert(map_of(r.entries@) =~= Map::<Seq<char>, Slot>::empty());
        *self = r;
    }
}

} // verus!
