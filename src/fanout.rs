//! Server-side fan-out: one producer publishes encoded frames, each
//! subscriber drains its own bounded queue. A subscriber that falls behind
//! loses its own oldest frames and nothing else; the producer never waits.

use vstd::prelude::*;

verus! {

/// One subscriber's handle and delivery queue (oldest frame first).
#[derive(Clone, Debug)]
pub struct Subscriber {
    pub id: u64,
    pub queue: Vec<String>,
    /// Frames this subscriber lost to overruns (saturating).
    pub lagged: u64,
}

/// The fan-out point between the upstream feed and its subscribers.
#[derive(Clone, Debug)]
pub struct Broadcaster {
    pub subscribers: Vec<Subscriber>,
    /// Bound of every subscriber's queue; at least 1.
    pub capacity: usize,
    /// The id the next subscriber gets.
    pub next_id: u64,
}

/// The queue `q` after one frame `m` arrives: appended, and when the queue
/// was already full its oldest frame is dropped first.
pub open spec fn delivered(q: Seq<String>, m: String, cap: nat) -> Seq<String> {
    if q.len() < cap { q.push(m) } else { q.drop_first().push(m) }
}

/// The queue `q` after the frames `ms` arrive in order.
pub open spec fn delivered_all(q: Seq<String>, ms: Seq<String>, cap: nat) -> Seq<String>
    decreases ms.len(),
{
    if ms.len() == 0 { q } else { delivered(delivered_all(q, ms.drop_last(), cap), ms.last(), cap) }
}

/// The last `n` elements of `s`, or all of them when there are fewer.
pub open spec fn latest(s: Seq<String>, n: nat) -> Seq<String> {
    if s.len() <= n { s } else { s.subrange(s.len() - n, s.len() as int) }
}

/// Whatever is published, a queue holds exactly the latest `cap` of the
/// frames it held and received, in order: an overrun costs a subscriber its
/// own oldest frames only, and a subscriber with room for everything
/// receives every frame unaltered.
pub proof fn lemma_queue_keeps_latest(q: Seq<String>, ms: Seq<String>, cap: nat)
    requires
        1 <= cap,
        q.len() <= cap,
    ensures
        delivered_all(q, ms, cap) == latest(q + ms, cap),
        q.len() + ms.len() <= cap ==> delivered_all(q, ms, cap) == q + ms,
    decreases ms.len(),
{
    if ms.len() > 0 {
        let rest = ms.drop_last();
        lemma_queue_keeps_latest(q, rest, cap);
        let p = q + rest;
        assert(q + ms =~= p.push(ms.last()));
        if p.len() >= cap {
            assert(latest(p, cap).drop_first().push(ms.last()) =~= latest(p.push(ms.last()), cap));
        } else {
            assert(latest(p, cap) == p);
        }
    }
}

impl Broadcaster {
    /// Queues are within capacity and ids are unique and below `next_id`.
    pub open spec fn wf(&self) -> bool {
        &&& self.capacity >= 1
        &&& forall|i: int| 0 <= i < self.subscribers@.len() ==> {
            &&& (#[trigger] self.subscribers@[i]).queue@.len() <= self.capacity
            &&& self.subscribers@[i].id < self.next_id
        }
        &&& forall|i: int, j: int| 0 <= i < j < self.subscribers@.len()
            ==> #[trigger] self.subscribers@[i].id != #[trigger] self.subscribers@[j].id
    }

    /// No subscribers yet; each future queue holds up to `capacity` frames.
    pub fn new(capacity: usize) -> (r: Broadcaster)
        requires
            capacity >= 1,
        ensures
            r.wf(),
            r.subscribers@.len() == 0,
            r.capacity == capacity,
            r.next_id == 0,
    {
        Broadcaster { subscribers: Vec::new(), capacity, next_id: 0 }
    }

    /// Registers a subscriber with an empty queue and returns its id; `None`
    /// only once every `u64` id has been handed out.
    pub fn subscribe(&mut self) -> (r: Option<u64>)
        requires
            old(self).wf(),
        ensures
            final(self).wf(),
            final(self).capacity == old(self).capacity,
            old(self).next_id == u64::MAX ==> r is None && *final(self) == *old(self),
            old(self).next_id < u64::MAX ==> {
                &&& r == Some(old(self).next_id)
                &&& final(self).next_id == old(self).next_id + 1
                &&& final(self).subscribers@.len() == old(self).subscribers@.len() + 1
                &&& final(self).subscribers@.drop_last() == old(self).subscribers@
                &&& final(self).subscribers@.last().id == old(self).next_id
                &&& final(self).subscribers@.last().queue@.len() == 0
                &&& final(self).subscribers@.last().lagged == 0
            },
    {
        if self.next_id == u64::MAX {
            return None;
        }
        let id = self.next_id;
        self.subscribers.push(Subscriber { id, queue: Vec::new(), lagged: 0 });
        self.next_id = id + 1;
        assert(self.subscribers@.drop_last() =~= old(self).subscribers@);
        Some(id)
    }

    /// Releases subscriber `id` and its queue; the others are untouched.
    /// Returns whether such a subscriber existed.
    pub fn unsubscribe(&mut self, id: u64) -> (r: bool)
        requires
            old(self).wf(),
        ensures
            final(self).wf(),
            final(self).capacity == old(self).capacity,
            final(self).next_id == old(self).next_id,
            r == (exists|i: int| 0 <= i < old(self).subscribers@.len() && #[trigger] old(self).subscribers@[i].id == id),
            !r ==> final(self).subscribers@ == old(self).subscribers@,
            forall|i: int| 0 <= i < old(self).subscribers@.len() && #[trigger] old(self).subscribers@[i].id == id
                ==> final(self).subscribers@ == old(self).subscribers@.remove(i),
    {
        let n = self.subscribers.len();
        let mut i: usize = 0;
        while i < n
            invariant
                n == self.subscribers@.len(),
                *self == *old(self),
                old(self).wf(),
                i <= n,
                forall|k: int| 0 <= k < i ==> #[trigger] self.subscribers@[k].id != id,
            decreases n - i,
        {
            if self.subscribers[i].id == id {
                self.subscribers.remove(i);
                let ghost s = old(self).subscribers@;
                assert forall|k: int| 0 <= k < s.len() && #[trigger] s[k].id == id implies k == i by {
                    if k > i {
                        assert(s[i as int].id != s[k].id);
                    }
                }
                assert forall|a: int, b: int| 0 <= a < b < self.subscribers@.len() implies
                    #[trigger] self.subscribers@[a].id != #[trigger] self.subscribers@[b].id by {
                    let oa = if a < i { a } else { a + 1 };
                    let ob = if b < i { b } else { b + 1 };
                    assert(self.subscribers@[a] == s[oa]);
                    assert(self.subscribers@[b] == s[ob]);
                }
                assert forall|a: int| 0 <= a < self.subscribers@.len() implies
                    (#[trigger] self.subscribers@[a]).queue@.len() <= self.capacity && self.subscribers@[a].id < self.next_id by {
                    let oa = if a < i { a } else { a + 1 };
                    assert(self.subscribers@[a] == s[oa]);
                }
                return true;
            }
            i = i + 1;
        }
        false
    }

    /// Hands `frame` to every subscriber without waiting on any of them. A
    /// full queue first drops its oldest frame and counts the loss.
    pub fn publish(&mut self, frame: &String)
        requires
            old(self).wf(),
        ensures
            final(self).wf(),
            final(self).capacity == old(self).capacity,
            final(self).next_id == old(self).next_id,
            final(self).subscribers@.len() == old(self).subscribers@.len(),
            forall|i: int| 0 <= i < old(self).subscribers@.len() ==> {
                let was = #[trigger] old(self).subscribers@[i];
                let now = final(self).subscribers@[i];
                &&& now.id == was.id
                &&& now.queue@ == delivered(was.queue@, *frame, old(self).capacity as nat)
                &&& now.lagged == if was.queue@.len() < old(self).capacity || was.lagged == u64::MAX {
                    was.lagged
                } else {
                    (was.lagged + 1) as u64
                }
            },
    {
        let n = self.subscribers.len();
        let cap = self.capacity;
        let mut i: usize = 0;
        while i < n
            invariant
                n == self.subscribers@.len(),
                n == old(self).subscribers@.len(),
                cap == self.capacity,
                self.capacity == old(self).capacity,
                self.next_id == old(self).next_id,
                i <= n,
                old(self).wf(),
                forall|k: int| i <= k < n ==> #[trigger] self.subscribers@[k] == old(self).subscribers@[k],
                forall|k: int| 0 <= k < i ==> {
                    let was = #[trigger] old(self).subscribers@[k];
                    let now = self.subscribers@[k];
                    &&& now.id == was.id
                    &&& now.queue@ == delivered(was.queue@, *frame, cap as nat)
                    &&& now.lagged == if was.queue@.len() < cap || was.lagged == u64::MAX {
                        was.lagged
                    } else {
                        (was.lagged + 1) as u64
                    }
                },
            decreases n - i,
        {
            let sub = &mut self.subscribers[i];
            if sub.queue.len() >= cap {
                sub.queue.remove(0);
                if sub.lagged < u64::MAX {
                    sub.lagged = sub.lagged + 1;
                }
            }
            sub.queue.push(frame.clone());
            i = i + 1;
        }
        assert forall|a: int| 0 <= a < n implies
            (#[trigger] self.subscribers@[a]).queue@.len() <= self.capacity && self.subscribers@[a].id < self.next_id by {
            assert(old(self).subscribers@[a].queue@.len() <= cap);
        }
        assert forall|a: int, b: int| 0 <= a < b < n implies
            #[trigger] self.subscribers@[a].id != #[trigger] self.subscribers@[b].id by {
            assert(old(self).subscribers@[a].id != old(self).subscribers@[b].id);
        }
    }

    /// Takes the oldest frame queued for subscriber `id`; `None` when there
    /// is no such subscriber or its queue is empty.
    pub fn receive(&mut self, id: u64) -> (r: Option<String>)
        requires
            old(self).wf(),
        ensures
            final(self).wf(),
            final(self).capacity == old(self).capacity,
            final(self).next_id == old(self).next_id,
            final(self).subscribers@.len() == old(self).subscribers@.len(),
            r is None ==> *final(self) == *old(self),
            r is None <==> forall|i: int| 0 <= i < old(self).subscribers@.len()
                && #[trigger] old(self).subscribers@[i].id == id ==> old(self).subscribers@[i].queue@.len() == 0,
            forall|i: int| 0 <= i < old(self).subscribers@.len() && #[trigger] old(self).subscribers@[i].id == id
                && old(self).subscribers@[i].queue@.len() > 0 ==> {
                &&& r == Some(old(self).subscribers@[i].queue@[0])
                &&& final(self).subscribers@[i].queue@ == old(self).subscribers@[i].queue@.drop_first()
                &&& final(self).subscribers@[i].id == id
                &&& final(self).subscribers@[i].lagged == old(self).subscribers@[i].lagged
                &&& forall|k: int| 0 <= k < old(self).subscribers@.len() && k != i
                    ==> #[trigger] final(self).subscribers@[k] == old(self).subscribers@[k]
            },
    {
        let n = self.subscribers.len();
        let mut i: usize = 0;
        while i < n
            invariant
                n == self.subscribers@.len(),
                *self == *old(self),
                old(self).wf(),
                i <= n,
                forall|k: int| 0 <= k < i ==> #[trigger] self.subscribers@[k].id != id,
            decreases n - i,
        {
            if self.subscribers[i].id == id {
                let ghost s = old(self).subscribers@;
                assert forall|k: int| 0 <= k < s.len() && #[trigger] s[k].id == id implies k == i by {
                    if k > i {
                        assert(s[i as int].id != s[k].id);
                    }
                }
                if self.subscribers[i].queue.len() == 0 {
                    return None;
                }
                let sub = &mut self.subscribers[i];
                let m = sub.queue.remove(0);
                return Some(m);
            }
            i = i + 1;
        }
        None
    }
}

} // verus!
