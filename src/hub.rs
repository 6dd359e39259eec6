//! Fan-out of market views to many subscribers, each with a bounded buffer
//! of its own. A full buffer drops its oldest undelivered view, so a slow
//! subscriber never holds up `publish`.
use vstd::prelude::*;

use crate::bounded::{
    bounded_push, bounded_push_all, keep_last, lemma_bounded_push_all,
    lemma_bounded_push_all_below_cap, lemma_bounded_push_len, lemma_bounded_push_map, push_bounded,
};
use crate::market::{MarketModel, MarketView};

verus! {

pub open spec fn market_model(m: MarketView) -> MarketModel {
    m@
}

/// The views of a buffer of market views.
pub open spec fn models(s: Seq<MarketView>) -> Seq<MarketModel> {
    s.map_values(|m: MarketView| market_model(m))
}

struct Subscriber {
    id: u64,
    buffer: Vec<MarketView>,
}

/// The registry of subscribers and their undelivered views, oldest first.
pub struct Hub {
    subscribers: Vec<Subscriber>,
    next_id: u64,
    capacity: usize,
}

impl Hub {
    /// The ids of the live subscribers, in order of registration.
    pub closed spec fn ids(&self) -> Seq<u64> {
        self.subscribers@.map_values(|s: Subscriber| s.id)
    }

    /// The undelivered views of each live subscriber, aligned with `ids`.
    pub closed spec fn buffers(&self) -> Seq<Seq<MarketModel>> {
        self.subscribers@.map_values(|s: Subscriber| models(s.buffer@))
    }

    /// How many views each subscriber's buffer holds at most.
    pub closed spec fn capacity(&self) -> nat {
        self.capacity as nat
    }

    /// The id that the next subscriber gets.
    pub closed spec fn next_id(&self) -> nat {
        self.next_id as nat
    }

    /// The hub's invariant: ids are distinct and below `next_id`, and no
    /// buffer holds more than `capacity` views.
    pub open spec fn wf(&self) -> bool {
        &&& self.capacity() > 0
        &&& self.ids().len() == self.buffers().len()
        &&& forall|i: int, j: int|
            0 <= i < j < self.ids().len() ==> self.ids()[i] != self.ids()[j]
        &&& forall|i: int| 0 <= i < self.ids().len() ==> self.ids()[i] < self.next_id()
        &&& forall|i: int|
            0 <= i < self.buffers().len() ==> #[trigger] self.buffers()[i].len() <= self.capacity()
    }

    /// A hub with no subscribers whose buffers hold up to `capacity` views.
    pub fn new(capacity: usize) -> (r: Hub)
        requires
            capacity > 0,
        ensures
            r.wf(),
            r.capacity() == capacity,
            r.ids().len() == 0,
            r.next_id() == 0,
    {
        let r = Hub { subscribers: Vec::new(), next_id: 0, capacity };
        assert(r.ids() =~= Seq::<u64>::empty());
        assert(r.buffers() =~= Seq::<Seq<MarketModel>>::empty());
        r
    }

    /// Registers a new subscriber with an empty buffer and returns its id;
    /// it receives only views published from now on. `None` once every id
    /// has been handed out.
    pub fn subscribe(&mut self) -> (r: Option<u64>)
        requires
            old(self).wf(),
        ensures
            final(self).wf(),
            final(self).capacity() == old(self).capacity(),
            old(self).next_id() == u64::MAX ==> r is None && *final(self) == *old(self),
            old(self).next_id() < u64::MAX ==> r == Some(old(self).next_id() as u64)
                && final(self).ids() == old(self).ids().push(old(self).next_id() as u64)
                && final(self).buffers() == old(self).buffers().push(Seq::empty())
                && final(self).next_id() == old(self).next_id() + 1,
            r matches Some(id) ==> !old(self).ids().contains(id),
    {
        if self.next_id == u64::MAX {
            return None;
        }
        let id = self.next_id;
        let sub = Subscriber { id, buffer: Vec::new() };
        self.subscribers.push(sub);
        self.next_id = id + 1;
        proof {
            assert(self.ids() =~= old(self).ids().push(id));
            assert(models(sub.buffer@) =~= Seq::empty());
            assert(self.buffers() =~= old(self).buffers().push(Seq::empty()));
            assert(!old(self).ids().contains(id)) by {
                if old(self).ids().contains(id) {
                    let k = choose|k: int| 0 <= k < old(self).ids().len() && old(self).ids()[k] == id;
                    assert(old(self).ids()[k] < old(self).next_id());
                }
            }
        }
        Some(id)
    }

    /// Hands a copy of `view` to every live subscriber. A buffer that is
    /// full drops its oldest view to make room.
    pub fn publish(&mut self, view: &MarketView)
        requires
            old(self).wf(),
        ensures
            final(self).wf(),
            final(self).capacity() == old(self).capacity(),
            final(self).next_id() == old(self).next_id(),
            final(self).ids() == old(self).ids(),
            final(self).buffers().len() == old(self).buffers().len(),
            forall|i: int|
                0 <= i < old(self).buffers().len() ==> #[trigger] final(self).buffers()[i]
                    == bounded_push(old(self).buffers()[i], view@, old(self).capacity()),
    {
        let ghost old_ids = self.ids();
        let ghost old_bufs = self.buffers();
        let n = self.subscribers.len();
        let mut i: usize = 0;
        while i < n
            invariant
                n == self.subscribers@.len(),
                n == old_bufs.len(),
                n == old_ids.len(),
                i <= n,
                self.capacity() == old(self).capacity(),
                self.next_id() == old(self).next_id(),
                self.ids() == old_ids,
                old(self).wf(),
                old_ids == old(self).ids(),
                old_bufs == old(self).buffers(),
                forall|j: int| #![trigger self.buffers()[j]]
                    0 <= j < i ==> self.buffers()[j] == bounded_push(
                        old_bufs[j],
                        view@,
                        self.capacity(),
                    ),
                forall|j: int| #![trigger self.buffers()[j]]
                    i <= j < n ==> self.buffers()[j] == old_bufs[j],
            decreases n - i,
        {
            let copy = view.snapshot();
            let ghost before = self.subscribers@;
            let ghost bufs_before = self.buffers();
            assert(self.buffers()[i as int] == models(before[i as int].buffer@));
            assert(before[i as int].buffer@.len() == old_bufs[i as int].len());
            proof {
                lemma_bounded_push_map(
                    before[i as int].buffer@,
                    copy,
                    self.capacity(),
                    |m: MarketView| market_model(m),
                );
            }
            push_bounded(&mut self.subscribers[i].buffer, copy, self.capacity);
            proof {
                assert(self.subscribers@ == before.update(
                    i as int,
                    self.subscribers@[i as int],
                ));
                assert(self.ids() =~= old_ids);
                assert forall|j: int| 0 <= j < n && j != i implies #[trigger] self.buffers()[j]
                    == bufs_before[j] by {
                    assert(self.subscribers@[j] == before[j]);
                }
                assert(self.buffers()[i as int] == bounded_push(
                    old_bufs[i as int],
                    view@,
                    self.capacity(),
                ));
            }
            i = i + 1;
        }
        proof {
            assert forall|j: int| 0 <= j < self.buffers().len() implies #[trigger] self.buffers()[j].len()
                <= self.capacity() by {
                lemma_bounded_push_len(old_bufs[j], view@, self.capacity());
            }
        }
    }

    fn position(&self, id: u64) -> (r: Option<usize>)
        requires
            self.wf(),
        ensures
            r matches Some(k) ==> k < self.ids().len() && self.ids()[k as int] == id,
            r is None ==> !self.ids().contains(id),
    {
        let mut k: usize = 0;
        while k < self.subscribers.len()
            invariant
                k <= self.ids().len(),
                self.ids().len() == self.subscribers@.len(),
                forall|j: int| 0 <= j < k ==> self.ids()[j] != id,
            decreases self.subscribers@.len() - k,
        {
            if self.subscribers[k].id == id {
                return Some(k);
            }
            k = k + 1;
        }
        None
    }

    /// Removes the subscriber `id` and its undelivered views. Returns
    /// whether it was subscribed; removing an absent id changes nothing.
    pub fn unsubscribe(&mut self, id: u64) -> (r: bool)
        requires
            old(self).wf(),
        ensures
            final(self).wf(),
            final(self).capacity() == old(self).capacity(),
            final(self).next_id() == old(self).next_id(),
            r == old(self).ids().contains(id),
            !final(self).ids().contains(id),
            !r ==> final(self).ids() == old(self).ids() && final(self).buffers()
                == old(self).buffers(),
            r ==> exists|k: int|
                0 <= k < old(self).ids().len() && old(self).ids()[k] == id && final(self).ids()
                    == old(self).ids().remove(k) && final(self).buffers()
                    == old(self).buffers().remove(k),
    {
        match self.position(id) {
            None => false,
            Some(k) => {
                let ghost old_ids = self.ids();
                let ghost old_subs = self.subscribers@;
                self.subscribers.remove(k);
                proof {
                    assert(self.ids() =~= old_ids.remove(k as int));
                    assert(self.buffers() =~= old(self).buffers().remove(k as int));
                    assert(old_ids.contains(id));
                    assert forall|i: int| 0 <= i < self.ids().len() implies self.ids()[i]
                        != id by {
                        if i < k {
                            assert(self.ids()[i] == old_ids[i]);
                        } else {
                            assert(self.ids()[i] == old_ids[i + 1]);
                        }
                    }
                    assert forall|i: int, j: int|
                        0 <= i < j < self.ids().len() implies self.ids()[i] != self.ids()[j] by {
                        let a = if i < k { i } else { i + 1 };
                        let b = if j < k { j } else { j + 1 };
                        assert(self.ids()[i] == old_ids[a]);
                        assert(self.ids()[j] == old_ids[b]);
                    }
                    assert forall|i: int| 0 <= i < self.ids().len() implies self.ids()[i]
                        < self.next_id() by {
                        let a = if i < k { i } else { i + 1 };
                        assert(self.ids()[i] == old_ids[a]);
                    }
                    assert forall|i: int| 0 <= i < self.buffers().len() implies #[trigger] self.buffers()[i].len()
                        <= self.capacity() by {
                        let a = if i < k { i } else { i + 1 };
                        assert(self.buffers()[i] == old(self).buffers()[a]);
                    }
                }
                true
            },
        }
    }

    /// Takes the oldest undelivered view of subscriber `id`. `None` when its
    /// buffer is empty or `id` is not subscribed.
    pub fn recv(&mut self, id: u64) -> (r: Option<MarketView>)
        requires
            old(self).wf(),
        ensures
            final(self).wf(),
            final(self).capacity() == old(self).capacity(),
            final(self).next_id() == old(self).next_id(),
            final(self).ids() == old(self).ids(),
            !old(self).ids().contains(id) ==> r is None && final(self).buffers()
                == old(self).buffers(),
            forall|k: int|
                0 <= k < old(self).ids().len() && old(self).ids()[k] == id ==> if old(
                    self,
                ).buffers()[k].len() > 0 {
                    &&& r matches Some(v) && v@ == old(self).buffers()[k][0]
                    &&& final(self).buffers() == old(self).buffers().update(
                        k,
                        old(self).buffers()[k].drop_first(),
                    )
                } else {
                    r is None && final(self).buffers() == old(self).buffers()
                },
    {
        match self.position(id) {
            None => None,
            Some(k) => {
                if self.subscribers[k].buffer.len() == 0 {
                    return None;
                }
                let ghost old_subs = self.subscribers@;
                let ghost old_bufs = self.buffers();
                let v = self.subscribers[k].buffer.remove(0);
                proof {
                    assert(self.subscribers@ == old_subs.update(k as int, self.subscribers@[k as int]));
                    assert(self.ids() =~= old(self).ids());
                    assert(models(self.subscribers@[k as int].buffer@) =~= old_bufs[k as int].drop_first());
                    assert(self.buffers() =~= old_bufs.update(k as int, old_bufs[k as int].drop_first()));
                    assert forall|j: int| 0 <= j < old(self).ids().len() && old(self).ids()[j] == id
                        implies j == k by {}
                    assert forall|i: int| 0 <= i < self.buffers().len() implies #[trigger] self.buffers()[i].len()
                        <= self.capacity() by {
                        assert(old_bufs[i].len() <= self.capacity());
                    }
                }
                Some(v)
            },
        }
    }

    /// How many undelivered views subscriber `id` has; `None` when `id` is
    /// not subscribed.
    pub fn pending(&self, id: u64) -> (r: Option<usize>)
        requires
            self.wf(),
        ensures
            !self.ids().contains(id) ==> r is None,
            forall|k: int|
                0 <= k < self.ids().len() && self.ids()[k] == id ==> r == Some(
                    self.buffers()[k].len() as usize,
                ),
    {
        match self.position(id) {
            None => None,
            Some(k) => {
                assert(self.buffers()[k as int].len() == self.subscribers@[k as int].buffer@.len());
                Some(self.subscribers[k].buffer.len())
            },
        }
    }

    /// How many subscribers are live.
    pub fn subscriber_count(&self) -> (r: usize)
        ensures
            r == self.ids().len(),
    {
        self.subscribers.len()
    }
}

/// A subscriber starts with an empty buffer, so after the views `vs` are
/// published (and nothing is taken) it holds the newest `cap` of them, in
/// publish order; views published before it subscribed never reach it. If
/// its buffer never fills, it holds every one of them, with no gaps.
pub proof fn lemma_late_subscriber_sees_later_views(vs: Seq<MarketModel>, cap: nat)
    requires
        0 < cap,
    ensures
        bounded_push_all(Seq::empty(), vs, cap) == keep_last(vs, cap),
        vs.len() <= cap ==> bounded_push_all(Seq::empty(), vs, cap) == vs,
{
    lemma_bounded_push_all(Seq::empty(), vs, cap);
    assert(Seq::<MarketModel>::empty() + vs =~= vs);
    if vs.len() <= cap {
        lemma_bounded_push_all_below_cap(Seq::empty(), vs, cap);
    }
}

} // verus!
