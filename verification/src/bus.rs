//! The notification broadcast channel, modelled exactly: one producer (the
//! reader task), any number of subscribers, a bounded retention window, the
//! oldest unread messages dropped for a subscriber that falls behind. The
//! model keeps only the retention window in memory; the full publication
//! history is ghost state the contracts are written over.

use vstd::prelude::*;

verus! {

/// The broadcast channel: a bounded window of the most recently published
/// messages, plus the ghost history of everything ever published.
pub struct UrcBus {
    capacity: usize,
    window: Vec<Vec<u8>>,
    evicted: usize,
    history: Ghost<Seq<Seq<u8>>>,
}

/// One session's read cursor into the channel.
pub struct UrcSubscriber {
    cursor: usize,
}

/// What one receive attempt yields.
pub enum RecvOutcome {
    /// Nothing new has been published.
    Empty,
    /// The next message, in publication order.
    Message(Vec<u8>),
    /// The subscriber fell behind and this many of its unread messages were
    /// dropped, oldest first; its cursor now stands at the oldest retained.
    Lagged(usize),
}

impl UrcBus {
    /// Everything ever published, in order.
    pub closed spec fn log(&self) -> Seq<Seq<u8>> {
        self.history@
    }

    /// How many messages the window retains.
    pub closed spec fn cap(&self) -> int {
        self.capacity as int
    }

    /// How many messages have been dropped from the front of the window.
    pub closed spec fn evicted_count(&self) -> int {
        self.evicted as int
    }

    /// The window holds exactly the most recent publications.
    pub closed spec fn wf(&self) -> bool {
        &&& self.capacity >= 1
        &&& self.history@.len() <= usize::MAX
        &&& self.window@.len() <= self.capacity
        &&& self.evicted + self.window@.len() == self.history@.len()
        &&& self.window.deep_view() == self.history@.skip(self.evicted as int)
        &&& self.evicted == if self.history@.len() <= self.capacity {
            0int
        } else {
            self.history@.len() - self.capacity
        }
    }

    pub fn new(capacity: usize) -> (r: Self)
        requires
            capacity >= 1,
        ensures
            r.wf(),
            r.cap() == capacity,
            r.log() == Seq::<Seq<u8>>::empty(),
    {
        let r = UrcBus {
            capacity,
            window: Vec::new(),
            evicted: 0,
            history: Ghost(Seq::empty()),
        };
        proof {
            assert(r.window.deep_view() =~~= r.history@.skip(0));
        }
        r
    }

    /// Publish one message: it is appended to the history, and the oldest
    /// retained message falls out of the window if the window is full.
    pub fn publish(&mut self, msg: Vec<u8>)
        requires
            old(self).wf(),
            old(self).log().len() < usize::MAX,
        ensures
            final(self).wf(),
            final(self).cap() == old(self).cap(),
            final(self).log() == old(self).log().push(msg@),
    {
        if self.window.len() == self.capacity {
            let ghost w0 = self.window.deep_view();
            self.window.remove(0);
            proof {
                assert(self.window.deep_view() =~~= w0.skip(1));
            }
            self.evicted = self.evicted + 1;
        }
        let ghost prev_window = self.window.deep_view();
        self.window.push(msg);
        proof {
            assert(self.window.deep_view() =~~= prev_window.push(msg@));
            self.history@ = self.history@.push(msg@);
            assert(self.window.deep_view() =~~= self.history@.skip(self.evicted as int));
        }
    }

    /// A new subscriber stands at the end of the history: it will see what is
    /// published from now on and nothing published before.
    pub fn subscribe(&self) -> (s: UrcSubscriber)
        requires
            self.wf(),
        ensures
            s.position() == self.log().len(),
            s.wf(self),
    {
        let s = UrcSubscriber { cursor: self.evicted + self.window.len() };
        s
    }
}

impl UrcSubscriber {
    /// The position in the publication history this subscriber reads next.
    pub closed spec fn position(&self) -> int {
        self.cursor as int
    }

    /// The cursor never points past the history.
    pub open spec fn wf(&self, bus: &UrcBus) -> bool {
        self.position() <= bus.log().len()
    }

    /// Receive the next message: the one at the cursor, in publication
    /// order, exactly once — unless the channel has already dropped it, which
    /// is reported, never silently skipped.
    pub fn recv(&mut self, bus: &UrcBus) -> (r: RecvOutcome)
        requires
            bus.wf(),
            old(self).wf(bus),
        ensures
            final(self).wf(bus),
            final(self).position() >= old(self).position(),
            match r {
                RecvOutcome::Empty => {
                    &&& old(self).position() == bus.log().len()
                    &&& final(self).position() == old(self).position()
                },
                RecvOutcome::Message(m) => {
                    &&& old(self).position() < bus.log().len()
                    &&& old(self).position() >= bus.evicted_count()
                    &&& m@ == bus.log()[old(self).position()]
                    &&& final(self).position() == old(self).position() + 1
                },
                RecvOutcome::Lagged(n) => {
                    &&& old(self).position() < bus.evicted_count()
                    &&& n == bus.evicted_count() - old(self).position()
                    &&& final(self).position() == bus.evicted_count()
                },
            },
    {
        if self.cursor < bus.evicted {
            let missed = bus.evicted - self.cursor;
            self.cursor = bus.evicted;
            return RecvOutcome::Lagged(missed);
        }
        if self.cursor == bus.evicted + bus.window.len() {
            return RecvOutcome::Empty;
        }
        let idx = self.cursor - bus.evicted;
        let m = vstd::slice::slice_to_vec(bus.window[idx].as_slice());
        proof {
            assert(bus.window.deep_view()[idx as int] == bus.log()[self.cursor as int]);
        }
        self.cursor = self.cursor + 1;
        RecvOutcome::Message(m)
    }

    /// Everything published and retained that this subscriber has not yet
    /// seen, received in order; afterwards it stands at the end of the
    /// history. This is the fan-out guarantee: each message published at or
    /// after the subscriber's position is delivered to it exactly once, in
    /// publication order, and nothing published before its position appears.
    pub fn drain(&mut self, bus: &UrcBus) -> (r: Vec<Vec<u8>>)
        requires
            bus.wf(),
            old(self).wf(bus),
            old(self).position() >= bus.evicted_count(),
        ensures
            final(self).wf(bus),
            final(self).position() == bus.log().len(),
            r.deep_view() == bus.log().skip(old(self).position()),
    {
        let mut r: Vec<Vec<u8>> = Vec::new();
        proof {
            assert(r.deep_view() =~~= bus.log().subrange(
                old(self).position(),
                old(self).position(),
            ));
        }
        loop
            invariant
                bus.wf(),
                self.wf(bus),
                old(self).position() <= self.position() <= bus.log().len(),
                self.position() >= bus.evicted_count(),
                r.deep_view() == bus.log().subrange(old(self).position(), self.position()),
            ensures
                self.position() == bus.log().len(),
                r.deep_view() == bus.log().subrange(old(self).position(), bus.log().len() as int),
            decreases bus.log().len() - self.position(),
        {
            let ghost prev = r.deep_view();
            let ghost pos = self.position();
            match self.recv(bus) {
                RecvOutcome::Message(m) => {
                    r.push(m);
                    proof {
                        assert(r.deep_view() =~~= prev.push(bus.log()[pos]));
                        assert(r.deep_view() =~~= bus.log().subrange(
                            old(self).position(),
                            self.position(),
                        ));
                    }
                },
                RecvOutcome::Empty => {
                    break ;
                },
                RecvOutcome::Lagged(_) => {
                    proof {
                        assert(false);
                    }
                },
            }
        }
        proof {
            assert(bus.log().subrange(old(self).position(), bus.log().len() as int) =~~= bus.log()
                .skip(old(self).position()));
        }
        r
    }
}

/// Fan-out order, spelled out: a subscriber standing at position `c` receives
/// the messages published at positions `c, c+1, ...` — each exactly once, in
/// publication order — and a message published before `c` (before the
/// subscriber existed) is at no position of what it receives.
pub proof fn lemma_fanout_order(log: Seq<Seq<u8>>, c: int, k: int)
    requires
        0 <= c <= log.len(),
        c <= k < log.len(),
    ensures
        log.skip(c)[k - c] == log[k],
        log.skip(c).len() == log.len() - c,
{
}

} // verus!

