//! The queue of load requests the decoding threads work through: which
//! request is taken next, and which are cancelled.
use vstd::prelude::*;

use crate::cache::{LoadRequest, RequestId};

verus! {

/// How far a request's place is from the image shown.
pub open spec fn distance(index: usize, current: usize) -> int {
    if index >= current {
        index - current
    } else {
        current - index
    }
}

/// Whether `a` is taken before `b`: nearer the image shown first, and
/// between two as near, the newer (higher id) first.
pub open spec fn goes_before(a: LoadRequest, b: LoadRequest, current: usize) -> bool {
    distance(a.index, current) < distance(b.index, current) || (distance(a.index, current)
        == distance(b.index, current) && a.id.0 > b.id.0)
}

/// The place of the first request that none goes before.
pub open spec fn best_index(s: Seq<LoadRequest>, current: usize) -> int
    decreases s.len(),
{
    if s.len() <= 1 {
        0
    } else {
        let b = best_index(s.drop_last(), current);
        if goes_before(s.last(), s[b], current) {
            s.len() - 1
        } else {
            b
        }
    }
}

proof fn lemma_best_index_bounds(s: Seq<LoadRequest>, current: usize)
    requires
        s.len() > 0,
    ensures
        0 <= best_index(s, current) < s.len(),
    decreases s.len(),
{
    if s.len() > 1 {
        lemma_best_index_bounds(s.drop_last(), current);
    }
}

/// The request taken next and what is left: the best pending request that
/// is not cancelled; cancelled requests met on the way are dropped and
/// their cancellation forgotten.
pub open spec fn next_request(pending: Seq<LoadRequest>, cancelled: Set<RequestId>, current: usize) -> (
    Option<LoadRequest>,
    Seq<LoadRequest>,
    Set<RequestId>,
)
    decreases pending.len(),
{
    if pending.len() == 0 {
        (None, pending, cancelled)
    } else {
        let i = best_index(pending, current);
        let r = pending[i];
        if 0 <= i < pending.len() && cancelled.contains(r.id) {
            next_request(pending.remove(i), cancelled.remove(r.id), current)
        } else {
            (Some(r), pending.remove(i), cancelled)
        }
    }
}

/// Which pending requests an operation keeps.
enum Keep<'a> {
    Near(usize, usize),
    Listed(&'a [RequestId]),
    AllBut(RequestId),
}

spec fn keeps(q: LoadRequest, k: Keep) -> bool {
    match k {
        Keep::Near(index, radius) => distance(q.index, index) <= radius,
        Keep::Listed(ids) => ids@.contains(q.id),
        Keep::AllBut(id) => q.id != id,
    }
}

/// The requests of `s` kept (`want`) or dropped (`!want`) by `k`, in order.
spec fn selected(s: Seq<LoadRequest>, k: Keep, want: bool) -> Seq<LoadRequest>
    decreases s.len(),
{
    if s.len() == 0 {
        s
    } else {
        let rest = selected(s.drop_last(), k, want);
        if keeps(s.last(), k) == want {
            rest.push(s.last())
        } else {
            rest
        }
    }
}

/// The requests within `radius` places of `index`, in order.
pub open spec fn near(s: Seq<LoadRequest>, index: usize, radius: usize) -> Seq<LoadRequest>
    decreases s.len(),
{
    if s.len() == 0 {
        s
    } else if distance(s.last().index, index) <= radius {
        near(s.drop_last(), index, radius).push(s.last())
    } else {
        near(s.drop_last(), index, radius)
    }
}

/// The requests farther than `radius` places from `index`, in order.
pub open spec fn far(s: Seq<LoadRequest>, index: usize, radius: usize) -> Seq<LoadRequest>
    decreases s.len(),
{
    if s.len() == 0 {
        s
    } else if distance(s.last().index, index) > radius {
        far(s.drop_last(), index, radius).push(s.last())
    } else {
        far(s.drop_last(), index, radius)
    }
}

/// The requests whose id is (`want`) or is not (`!want`) listed, in order.
pub open spec fn listed(s: Seq<LoadRequest>, ids: Seq<RequestId>, want: bool) -> Seq<LoadRequest>
    decreases s.len(),
{
    if s.len() == 0 {
        s
    } else if ids.contains(s.last().id) == want {
        listed(s.drop_last(), ids, want).push(s.last())
    } else {
        listed(s.drop_last(), ids, want)
    }
}

/// The requests with another id than `id`, in order.
pub open spec fn without(s: Seq<LoadRequest>, id: RequestId) -> Seq<LoadRequest>
    decreases s.len(),
{
    if s.len() == 0 {
        s
    } else if s.last().id != id {
        without(s.drop_last(), id).push(s.last())
    } else {
        without(s.drop_last(), id)
    }
}

proof fn lemma_selected_near(s: Seq<LoadRequest>, index: usize, radius: usize)
    ensures
        selected(s, Keep::Near(index, radius), true) == near(s, index, radius),
        selected(s, Keep::Near(index, radius), false) == far(s, index, radius),
    decreases s.len(),
{
    if s.len() > 0 {
        lemma_selected_near(s.drop_last(), index, radius);
    }
}

proof fn lemma_selected_listed(s: Seq<LoadRequest>, ids: &[RequestId])
    ensures
        selected(s, Keep::Listed(ids), true) == listed(s, ids@, true),
        selected(s, Keep::Listed(ids), false) == listed(s, ids@, false),
    decreases s.len(),
{
    if s.len() > 0 {
        lemma_selected_listed(s.drop_last(), ids);
    }
}

proof fn lemma_selected_without(s: Seq<LoadRequest>, id: RequestId)
    ensures
        selected(s, Keep::AllBut(id), true) == without(s, id),
    decreases s.len(),
{
    if s.len() > 0 {
        lemma_selected_without(s.drop_last(), id);
    }
}

/// The ids of some requests.
pub open spec fn ids_of(s: Seq<LoadRequest>) -> Seq<RequestId> {
    s.map_values(|r: LoadRequest| r.id)
}

/// The ids held in a list, as a set.
pub open spec fn id_set(v: Seq<RequestId>) -> Set<RequestId> {
    Set::new(|x: RequestId| v.contains(x))
}

fn pick_best(pending: &Vec<LoadRequest>, current: usize) -> (r: usize)
    requires
        pending@.len() > 0,
    ensures
        r == best_index(pending@, current),
        r < pending@.len(),
{
    let mut best: usize = 0;
    let mut k: usize = 1;
    while k < pending.len()
        invariant
            1 <= k <= pending@.len(),
            best < k,
            best == best_index(pending@.take(k as int), current),
        decreases pending@.len() - k,
    {
        proof {
            assert(pending@.take(k + 1).drop_last() =~= pending@.take(k as int));
            assert(pending@.take(k + 1).last() == pending@[k as int]);
            assert(pending@.take(k as int)[best as int] == pending@[best as int]);
        }
        let a = &pending[k];
        let b = &pending[best];
        let da: usize = if a.index >= current {
            a.index - current
        } else {
            current - a.index
        };
        let db: usize = if b.index >= current {
            b.index - current
        } else {
            current - b.index
        };
        if da < db || (da == db && a.id.0 > b.id.0) {
            best = k;
        }
        k = k + 1;
    }
    assert(pending@.take(k as int) =~= pending@);
    best
}

/// The requests waiting to be decoded, and the ids of those cancelled.
pub struct LoadQueue {
    pending: Vec<LoadRequest>,
    cancelled: Vec<RequestId>,
    shutdown: bool,
}

impl LoadQueue {
    pub closed spec fn waiting(&self) -> Seq<LoadRequest> {
        self.pending@
    }

    pub closed spec fn cancelled_ids(&self) -> Set<RequestId> {
        id_set(self.cancelled@)
    }

    pub closed spec fn stopping(&self) -> bool {
        self.shutdown
    }

    pub fn new() -> (r: LoadQueue)
        ensures
            r.waiting() == Seq::<LoadRequest>::empty(),
            r.cancelled_ids() == Set::<RequestId>::empty(),
            !r.stopping(),
    {
        let r = LoadQueue { pending: Vec::new(), cancelled: Vec::new(), shutdown: false };
        assert(id_set(r.cancelled@) =~= Set::<RequestId>::empty());
        r
    }

    /// Adds a request.
    pub fn push(&mut self, request: LoadRequest)
        ensures
            final(self).waiting() == old(self).waiting().push(request),
            final(self).cancelled_ids() == old(self).cancelled_ids(),
            final(self).stopping() == old(self).stopping(),
    {
        self.pending.push(request);
    }

    pub fn pending_len(&self) -> (r: usize)
        ensures
            r == self.waiting().len(),
    {
        self.pending.len()
    }

    pub fn is_shut_down(&self) -> (r: bool)
        ensures
            r == self.stopping(),
    {
        self.shutdown
    }

    /// Stops the queue: pending requests are dropped and nothing more is taken.
    pub fn shut_down(&mut self)
        ensures
            final(self).waiting() == Seq::<LoadRequest>::empty(),
            final(self).cancelled_ids() == old(self).cancelled_ids(),
            final(self).stopping(),
    {
        self.shutdown = true;
        self.pending = Vec::new();
    }

    fn add_cancelled(&mut self, ids: &Vec<RequestId>)
        ensures
            final(self).pending@ == old(self).pending@,
            final(self).shutdown == old(self).shutdown,
            final(self).cancelled_ids() == old(self).cancelled_ids().union(id_set(ids@)),
    {
        let ghost start = self.cancelled@;
        let mut i: usize = 0;
        proof {
            assert(id_set(ids@.take(0)) =~= Set::<RequestId>::empty());
            assert(id_set(start).union(id_set(ids@.take(0))) =~= id_set(start));
        }
        while i < ids.len()
            invariant
                i <= ids@.len(),
                self.pending@ == old(self).pending@,
                self.shutdown == old(self).shutdown,
                start == old(self).cancelled@,
                id_set(self.cancelled@) == id_set(start).union(id_set(ids@.take(i as int))),
            decreases ids@.len() - i,
        {
            let ghost before = self.cancelled@;
            self.cancelled.push(ids[i]);
            proof {
                let t = ids@.take(i + 1);
                assert(t =~= ids@.take(i as int).push(ids@[i as int]));
                assert forall|x: RequestId| #[trigger] id_set(self.cancelled@).contains(x) == id_set(
                    start,
                ).union(id_set(t)).contains(x) by {
                    if self.cancelled@.contains(x) {
                        let k = choose|k: int| 0 <= k < self.cancelled@.len() && self.cancelled@[k] == x;
                        if k < before.len() {
                            assert(before[k] == x);
                            assert(id_set(before).contains(x));
                        } else {
                            assert(t[i as int] == x);
                        }
                    }
                    if t.contains(x) {
                        let k = choose|k: int| 0 <= k < t.len() && t[k] == x;
                        if k < i {
                            assert(ids@.take(i as int)[k] == x);
                            assert(id_set(before).contains(x));
                            let m = choose|m: int| 0 <= m < before.len() && before[m] == x;
                            assert(self.cancelled@[m] == x);
                        } else {
                            assert(self.cancelled@[before.len() as int] == x);
                        }
                    }
                    if start.contains(x) {
                        assert(id_set(before).contains(x));
                        let m = choose|m: int| 0 <= m < before.len() && before[m] == x;
                        assert(self.cancelled@[m] == x);
                    }
                }
                assert(id_set(self.cancelled@) =~= id_set(start).union(id_set(t)));
            }
            i = i + 1;
        }
        assert(ids@.take(i as int) =~= ids@);
    }

    /// Keeps the pending requests that `k` keeps and gives the ids of the others.
    fn split_off(&mut self, k: Keep) -> (r: Vec<RequestId>)
        ensures
            final(self).pending@ == selected(old(self).pending@, k, true),
            r@ == ids_of(selected(old(self).pending@, k, false)),
            final(self).cancelled@ == old(self).cancelled@,
            final(self).shutdown == old(self).shutdown,
    {
        let ghost orig = self.pending@;
        let mut stay: Vec<LoadRequest> = Vec::new();
        let mut gone: Vec<RequestId> = Vec::new();
        let mut i: usize = 0;
        proof {
            assert(orig.take(0) =~= Seq::<LoadRequest>::empty());
            assert(ids_of(Seq::<LoadRequest>::empty()) =~= Seq::<RequestId>::empty());
        }
        while i < self.pending.len()
            invariant
                i <= self.pending@.len(),
                self.pending@ == orig,
                orig == old(self).pending@,
                self.cancelled@ == old(self).cancelled@,
                self.shutdown == old(self).shutdown,
                stay@ == selected(orig.take(i as int), k, true),
                gone@ == ids_of(selected(orig.take(i as int), k, false)),
            decreases self.pending@.len() - i,
        {
            let q = self.pending[i].clone();
            proof {
                assert(orig.take(i + 1).drop_last() =~= orig.take(i as int));
                assert(orig.take(i + 1).last() == orig[i as int]);
            }
            let stays = match k {
                Keep::Near(index, radius) => {
                    let d: usize = if q.index >= index {
                        q.index - index
                    } else {
                        index - q.index
                    };
                    d <= radius
                },
                Keep::Listed(ids) => contains_id(ids, q.id),
                Keep::AllBut(id) => q.id.0 != id.0,
            };
            assert(stays == keeps(orig[i as int], k));
            if stays {
                stay.push(q);
            } else {
                let qid = q.id;
                gone.push(qid);
                proof {
                    assert(gone@ =~= ids_of(selected(orig.take(i as int), k, false).push(orig[i as int])));
                }
            }
            i = i + 1;
        }
        assert(orig.take(i as int) =~= orig);
        self.pending = stay;
        gone
    }

    /// Cancels the pending requests farther than `radius` places from
    /// `index`, and gives their ids in queue order.
    pub fn cancel_far_from(&mut self, index: usize, radius: usize) -> (r: Vec<RequestId>)
        ensures
            final(self).waiting() == near(old(self).waiting(), index, radius),
            r@ == ids_of(far(old(self).waiting(), index, radius)),
            final(self).cancelled_ids() == old(self).cancelled_ids().union(id_set(r@)),
            final(self).stopping() == old(self).stopping(),
    {
        proof {
            lemma_selected_near(self.pending@, index, radius);
        }
        let dropped = self.split_off(Keep::Near(index, radius));
        self.add_cancelled(&dropped);
        dropped
    }

    /// Cancels every pending request, and gives their ids in queue order.
    pub fn cancel_everything(&mut self) -> (r: Vec<RequestId>)
        ensures
            final(self).waiting() == Seq::<LoadRequest>::empty(),
            r@ == ids_of(old(self).waiting()),
            final(self).cancelled_ids() == old(self).cancelled_ids().union(id_set(r@)),
            final(self).stopping() == old(self).stopping(),
    {
        let none: [RequestId; 0] = [];
        let none_listed: &[RequestId] = none.as_slice();
        proof {
            lemma_selected_listed(self.pending@, none_listed);
            lemma_listed_none(self.pending@, none_listed@);
        }
        let dropped = self.split_off(Keep::Listed(none_listed));
        self.add_cancelled(&dropped);
        dropped
    }

    /// Cancels one request.
    pub fn cancel(&mut self, id: RequestId)
        ensures
            final(self).waiting() == without(old(self).waiting(), id),
            final(self).cancelled_ids() == old(self).cancelled_ids().insert(id),
            final(self).stopping() == old(self).stopping(),
    {
        proof {
            lemma_selected_without(self.pending@, id);
        }
        let _ = self.split_off(Keep::AllBut(id));
        let mut one: Vec<RequestId> = Vec::new();
        one.push(id);
        self.add_cancelled(&one);
        proof {
            assert(id_set(one@) =~= Set::<RequestId>::empty().insert(id)) by {
                assert forall|x: RequestId| id_set(one@).contains(x) == (x == id) by {
                    if x == id {
                        assert(one@[0] == x);
                    }
                }
            }
            assert(old(self).cancelled_ids().union(id_set(one@)) =~= old(self).cancelled_ids().insert(id));
        }
    }

    /// Cancels every pending request whose id is not listed in `keep`.
    pub fn cancel_all_except(&mut self, keep: &[RequestId])
        ensures
            final(self).waiting() == listed(old(self).waiting(), keep@, true),
            final(self).cancelled_ids() == old(self).cancelled_ids().union(
                id_set(ids_of(listed(old(self).waiting(), keep@, false))),
            ),
            final(self).stopping() == old(self).stopping(),
    {
        proof {
            lemma_selected_listed(self.pending@, keep);
        }
        let dropped = self.split_off(Keep::Listed(keep));
        self.add_cancelled(&dropped);
    }

    /// Forgets that a request was cancelled; true when it was.
    pub fn take_cancelled(&mut self, id: RequestId) -> (r: bool)
        ensures
            r == old(self).cancelled_ids().contains(id),
            final(self).cancelled_ids() == old(self).cancelled_ids().remove(id),
            final(self).waiting() == old(self).waiting(),
            final(self).stopping() == old(self).stopping(),
    {
        let ghost orig = self.cancelled@;
        let mut rest: Vec<RequestId> = Vec::new();
        let mut found = false;
        let mut i: usize = 0;
        while i < self.cancelled.len()
            invariant
                i <= self.cancelled@.len(),
                self.cancelled@ == orig,
                self.pending@ == old(self).pending@,
                self.shutdown == old(self).shutdown,
                orig == old(self).cancelled@,
                found == orig.take(i as int).contains(id),
                forall|x: RequestId| #[trigger] rest@.contains(x) == (x != id && orig.take(i as int).contains(x)),
            decreases self.cancelled@.len() - i,
        {
            let x = self.cancelled[i];
            proof {
                let t = orig.take(i + 1);
                assert(t =~= orig.take(i as int).push(x));
                assert forall|y: RequestId| t.contains(y) == (orig.take(i as int).contains(y) || y == x) by {
                    if t.contains(y) {
                        let k = choose|k: int| 0 <= k < t.len() && t[k] == y;
                        if k < i {
                            assert(orig.take(i as int)[k] == y);
                        }
                    }
                    if orig.take(i as int).contains(y) {
                        let k = choose|k: int| 0 <= k < i && orig.take(i as int)[k] == y;
                        assert(t[k] == y);
                    }
                    if y == x {
                        assert(t[i as int] == y);
                    }
                }
            }
            if x.0 == id.0 {
                found = true;
            } else {
                let ghost before = rest@;
                rest.push(x);
                proof {
                    assert forall|y: RequestId| #[trigger] rest@.contains(y) == (before.contains(y) || y == x) by {
                        if rest@.contains(y) {
                            let k = choose|k: int| 0 <= k < rest@.len() && rest@[k] == y;
                            if k < before.len() {
                                assert(before[k] == y);
                            }
                        }
                        if before.contains(y) {
                            let k = choose|k: int| 0 <= k < before.len() && before[k] == y;
                            assert(rest@[k] == y);
                        }
                        if y == x {
                            assert(rest@[before.len() as int] == y);
                        }
                    }
                }
            }
            i = i + 1;
        }
        assert(orig.take(i as int) =~= orig);
        self.cancelled = rest;
        proof {
            assert(id_set(self.cancelled@) =~= id_set(orig).remove(id));
        }
        found
    }

    /// Takes the next request to decode while `current` is shown: the one
    /// nearest to it, the newest among those as near; cancelled requests met
    /// on the way are dropped.
    pub fn take_next(&mut self, current: usize) -> (r: Option<LoadRequest>)
        ensures
            ({
                let n = next_request(old(self).waiting(), old(self).cancelled_ids(), current);
                &&& r == n.0
                &&& final(self).waiting() == n.1
                &&& final(self).cancelled_ids() == n.2
            }),
            final(self).stopping() == old(self).stopping(),
    {
        let ghost goal = next_request(self.pending@, id_set(self.cancelled@), current);
        loop
            invariant
                next_request(self.pending@, id_set(self.cancelled@), current) == goal,
                self.shutdown == old(self).shutdown,
                goal == next_request(old(self).pending@, id_set(old(self).cancelled@), current),
            decreases self.pending@.len(),
        {
            if self.pending.len() == 0 {
                return None;
            }
            let i = pick_best(&self.pending, current);
            let r = self.pending.remove(i);
            if self.take_cancelled(r.id) {
                continue;
            }
            return Some(r);
        }
    }
}

/// A request taken from the queue was pending, and is not among the
/// cancelled ones at the time it is taken.
pub proof fn law_taken_not_cancelled(pending: Seq<LoadRequest>, cancelled: Set<RequestId>, current: usize)
    ensures
        next_request(pending, cancelled, current).0 matches Some(r) ==> pending.contains(r)
            && !next_request(pending, cancelled, current).2.contains(r.id),
        next_request(pending, cancelled, current).1.len() < pending.len() || pending.len() == 0,
    decreases pending.len(),
{
    if pending.len() > 0 {
        lemma_best_index_bounds(pending, current);
        let i = best_index(pending, current);
        let r = pending[i];
        if cancelled.contains(r.id) {
            law_taken_not_cancelled(pending.remove(i), cancelled.remove(r.id), current);
            let n = next_request(pending.remove(i), cancelled.remove(r.id), current);
            if n.0 is Some {
                let q = n.0->0;
                let k = choose|k: int| 0 <= k < pending.remove(i).len() && pending.remove(i)[k] == q;
                if k < i {
                    assert(pending[k] == q);
                } else {
                    assert(pending[k + 1] == q);
                }
            }
        } else {
            assert(pending[i] == r);
        }
    }
}

proof fn lemma_listed_none(s: Seq<LoadRequest>, none: Seq<RequestId>)
    requires
        none.len() == 0,
    ensures
        listed(s, none, true) == Seq::<LoadRequest>::empty(),
        listed(s, none, false) == s,
    decreases s.len(),
{
    if s.len() > 0 {
        lemma_listed_none(s.drop_last(), none);
        assert(!none.contains(s.last().id));
        assert(s.drop_last().push(s.last()) =~= s);
    }
}

fn contains_id(ids: &[RequestId], id: RequestId) -> (r: bool)
    ensures
        r == ids@.contains(id),
{
    let mut i: usize = 0;
    while i < ids.len()
        invariant
            i <= ids@.len(),
            forall|j: int| 0 <= j < i ==> ids@[j] != id,
        decreases ids@.len() - i,
    {
        if ids[i].0 == id.0 {
            assert(ids@[i as int] == id);
            return true;
        }
        i = i + 1;
    }
    false
}

} // verus!
