//! The local fanout hub: an in-process broadcast of rendered lines to
//! every live connection.
//!
//! Each subscriber owns a bounded queue with a drop-oldest overflow
//! policy: posting never blocks and never fails, and a subscriber that
//! stopped reading merely loses its oldest pending lines. What a
//! subscriber still has pending is always a contiguous suffix of
//! everything posted to it, in posting order.

use vstd::prelude::*;
use vstd::string::StringExecFns;

verus! {

/// One subscriber's bounded view into the broadcast.
pub struct SubscriberQueue {
    items: Vec<String>,
    capacity: usize,
    live: bool,
    posted: Ghost<Seq<Seq<char>>>,
}

impl SubscriberQueue {
    /// The lines still pending for this subscriber, oldest first.
    pub closed spec fn lines(self) -> Seq<Seq<char>> {
        self.items@.map_values(|s: String| s@)
    }

    /// Everything ever posted to this subscriber, in order.
    pub closed spec fn spec_posted(self) -> Seq<Seq<char>> {
        self.posted@
    }

    /// The most pending lines this subscriber may hold.
    pub closed spec fn spec_capacity(self) -> int {
        self.capacity as int
    }

    /// Whether the subscription is still attached to a session.
    pub closed spec fn is_live(self) -> bool {
        self.live
    }

    /// Structural invariant: the queue is bounded, and its content is the
    /// newest suffix of what was posted.
    pub closed spec fn wf(self) -> bool {
        &&& self.capacity >= 1
        &&& self.items@.len() <= self.capacity
        &&& self.lines().len() <= self.spec_posted().len()
        &&& forall|k: int| 0 <= k < self.lines().len() ==> #[trigger] self.lines()[k]
            == self.spec_posted()[self.spec_posted().len() - self.lines().len() + k]
    }

    /// A fresh, empty subscription.
    pub fn new(capacity: usize) -> (q: SubscriberQueue)
        requires
            capacity >= 1,
        ensures
            q.wf(),
            q.is_live(),
            q.lines() == Seq::<Seq<char>>::empty(),
            q.spec_posted() == Seq::<Seq<char>>::empty(),
            q.spec_capacity() == capacity,
    {
        let q = SubscriberQueue {
            items: Vec::new(),
            capacity,
            live: true,
            posted: Ghost(Seq::empty()),
        };
        proof {
            assert(q.lines() =~= Seq::<Seq<char>>::empty());
            assert(q.spec_posted().skip(0) =~= Seq::<Seq<char>>::empty());
        }
        q
    }

    /// Post one line. This never blocks and never fails: when the queue
    /// is full, the oldest pending line is evicted instead.
    pub fn push(&mut self, line: &str)
        requires
            old(self).wf(),
        ensures
            final(self).wf(),
            final(self).is_live() == old(self).is_live(),
            final(self).spec_capacity() == old(self).spec_capacity(),
            final(self).spec_posted() == old(self).spec_posted().push(line@),
            final(self).lines() == if old(self).lines().len() < old(self).spec_capacity() {
                old(self).lines().push(line@)
            } else {
                old(self).lines().drop_first().push(line@)
            },
            final(self).lines().len() <= final(self).spec_capacity(),
    {
        let ghost items_before = self.items@;
        if self.items.len() == self.capacity {
            self.items.remove(0);
            proof {
                assert(self.items@ =~= items_before.drop_first());
            }
        }
        let ghost kept = self.items@;
        self.items.push(String::from_str(line));
        proof {
            self.posted@ = self.posted@.push(line@);
            assert(self.lines() =~= kept.map_values(|s: String| s@).push(line@));
            if items_before.len() == self.capacity {
                assert(kept.map_values(|s: String| s@) =~= items_before.map_values(
                    |s: String| s@,
                ).drop_first());
                assert(self.lines() =~= old(self).lines().drop_first().push(line@));
            } else {
                assert(self.lines() =~= old(self).lines().push(line@));
            }
        }
    }

    /// Take the oldest pending line, if any. A subscriber that resumes
    /// reading after falling behind simply continues from here.
    pub fn pop(&mut self) -> (r: Option<String>)
        requires
            old(self).wf(),
        ensures
            final(self).wf(),
            final(self).is_live() == old(self).is_live(),
            final(self).spec_capacity() == old(self).spec_capacity(),
            final(self).spec_posted() == old(self).spec_posted(),
            match r {
                Some(line) => old(self).lines().len() > 0 && line@ == old(self).lines()[0]
                    && final(self).lines() == old(self).lines().drop_first(),
                None => old(self).lines().len() == 0 && final(self).lines() == old(
                    self,
                ).lines(),
            },
    {
        if self.items.len() == 0 {
            proof {
                assert(self.lines() =~= old(self).lines());
            }
            return None;
        }
        let ghost items_before = self.items@;
        let line = self.items.remove(0);
        proof {
            assert(self.items@ =~= items_before.drop_first());
            assert(self.lines() =~= old(self).lines().drop_first());
        }
        Some(line)
    }

    /// Detach the subscription: nothing further is delivered to it.
    pub fn close(&mut self)
        requires
            old(self).wf(),
        ensures
            final(self).wf(),
            !final(self).is_live(),
            final(self).spec_capacity() == old(self).spec_capacity(),
            final(self).lines() == old(self).lines(),
            final(self).spec_posted() == old(self).spec_posted(),
    {
        self.live = false;
    }
}

/// The pending lines of every subscriber are a suffix of what was posted:
/// a slow subscriber loses only its oldest lines and, on resuming, sees
/// exactly the lines posted after some point, in posting order.
pub proof fn lemma_subscriber_sees_suffix(q: SubscriberQueue)
    requires
        q.wf(),
    ensures
        q.lines() == q.spec_posted().skip(q.spec_posted().len() - q.lines().len()),
        q.lines().len() <= q.spec_capacity(),
{
    let p = q.spec_posted();
    let l = q.lines();
    assert forall|k: int| 0 <= k < l.len() implies p.skip(p.len() - l.len())[k] == l[k] by {
        assert(p.skip(p.len() - l.len())[k] == p[p.len() - l.len() + k]);
    }
    assert(l =~= p.skip(p.len() - l.len()));
}

/// The per-process broadcast point: every line posted by any producer is
/// offered to every live subscriber.
pub struct LocalFanoutHub {
    subs: Vec<SubscriberQueue>,
    capacity: usize,
}

impl LocalFanoutHub {
    /// The subscriber queues, by subscription handle.
    pub closed spec fn sub(self, k: int) -> SubscriberQueue {
        self.subs@[k]
    }

    /// How many subscriptions exist (including closed ones).
    pub closed spec fn sub_count(self) -> int {
        self.subs@.len() as int
    }

    /// The bound every subscription is created with.
    pub closed spec fn spec_capacity(self) -> int {
        self.capacity as int
    }

    /// Structural invariant: every queue is well-formed and carries the
    /// hub's bound.
    pub closed spec fn wf(self) -> bool {
        &&& self.capacity >= 1
        &&& forall|k: int| 0 <= k < self.subs@.len() ==> (#[trigger] self.subs@[k]).wf()
            && self.subs@[k].spec_capacity() == self.capacity
    }

    /// A hub whose subscribers each buffer at most `capacity` lines.
    pub fn new(capacity: usize) -> (h: LocalFanoutHub)
        requires
            capacity >= 1,
        ensures
            h.wf(),
            h.sub_count() == 0,
            h.spec_capacity() == capacity,
    {
        LocalFanoutHub { subs: Vec::new(), capacity }
    }

    /// Attach a new subscriber; it sees only lines posted from now on.
    pub fn subscribe(&mut self) -> (id: usize)
        requires
            old(self).wf(),
        ensures
            final(self).wf(),
            final(self).spec_capacity() == old(self).spec_capacity(),
            final(self).sub_count() == old(self).sub_count() + 1,
            id == old(self).sub_count(),
            forall|k: int| 0 <= k < old(self).sub_count() ==> final(self).sub(k) == old(
                self,
            ).sub(k),
            final(self).sub(id as int).is_live(),
            final(self).sub(id as int).lines() == Seq::<Seq<char>>::empty(),
            final(self).sub(id as int).spec_posted() == Seq::<Seq<char>>::empty(),
    {
        let id = self.subs.len();
        let q = SubscriberQueue::new(self.capacity);
        self.subs.push(q);
        id
    }

    /// Broadcast one line: posted to every live subscriber, never
    /// blocking on any of them.
    pub fn publish(&mut self, line: &str)
        requires
            old(self).wf(),
        ensures
            final(self).wf(),
            final(self).spec_capacity() == old(self).spec_capacity(),
            final(self).sub_count() == old(self).sub_count(),
            forall|k: int| 0 <= k < old(self).sub_count() && (#[trigger] old(self).sub(
                k,
            )).is_live() ==> final(self).sub(k).spec_posted() == old(self).sub(
                k,
            ).spec_posted().push(line@),
            forall|k: int| 0 <= k < old(self).sub_count() && !(#[trigger] old(self).sub(
                k,
            )).is_live() ==> final(self).sub(k) == old(self).sub(k),
    {
        let n = self.subs.len();
        let mut j: usize = 0;
        while j < n
            invariant
                j <= n,
                n == self.subs@.len(),
                self.subs@.len() == old(self).subs@.len(),
                self.capacity == old(self).capacity,
                self.capacity >= 1,
                forall|k: int| 0 <= k < n ==> (#[trigger] self.subs@[k]).wf()
                    && self.subs@[k].spec_capacity() == self.capacity,
                forall|k: int| j <= k < n ==> #[trigger] self.subs@[k] == old(self).subs@[k],
                forall|k: int| 0 <= k < j && (#[trigger] old(self).subs@[k]).is_live()
                    ==> self.subs@[k].spec_posted() == old(self).subs@[k].spec_posted().push(
                    line@,
                ),
                forall|k: int| 0 <= k < j && !(#[trigger] old(self).subs@[k]).is_live()
                    ==> self.subs@[k] == old(self).subs@[k],
            decreases n - j,
        {
            let is_live = self.subs[j].live_check();
            if is_live {
                let q = &mut self.subs[j];
                q.push(line);
            }
            j = j + 1;
        }
    }

    /// Take the oldest pending line of one subscription.
    pub fn recv(&mut self, id: usize) -> (r: Option<String>)
        requires
            old(self).wf(),
            0 <= id < old(self).sub_count(),
        ensures
            final(self).wf(),
            final(self).spec_capacity() == old(self).spec_capacity(),
            final(self).sub_count() == old(self).sub_count(),
            forall|k: int| 0 <= k < old(self).sub_count() && k != id ==> final(self).sub(k)
                == old(self).sub(k),
            match r {
                Some(line) => old(self).sub(id as int).lines().len() > 0 && line@ == old(
                    self,
                ).sub(id as int).lines()[0] && final(self).sub(id as int).lines() == old(
                    self,
                ).sub(id as int).lines().drop_first(),
                None => old(self).sub(id as int).lines().len() == 0 && final(self).sub(
                    id as int,
                ).lines() == old(self).sub(id as int).lines(),
            },
    {
        let q = &mut self.subs[id];
        q.pop()
    }

    /// Detach one subscription.
    pub fn unsubscribe(&mut self, id: usize)
        requires
            old(self).wf(),
            0 <= id < old(self).sub_count(),
        ensures
            final(self).wf(),
            final(self).sub_count() == old(self).sub_count(),
            !final(self).sub(id as int).is_live(),
            forall|k: int| 0 <= k < old(self).sub_count() && k != id ==> final(self).sub(k)
                == old(self).sub(k),
    {
        let q = &mut self.subs[id];
        q.close();
    }
}

impl SubscriberQueue {
    /// Whether this subscription is still attached.
    pub fn live_check(&self) -> (r: bool)
        ensures
            r == self.is_live(),
    {
        self.live
    }
}

} // verus!
