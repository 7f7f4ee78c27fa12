use crate::bus::{take_next, Bus, Message, QueueView, Received, publish_all};
use crate::endpoint::{Endpoint, Event, Phase};
use crate::ids::{generate_uid, UidCounter};
use vstd::prelude::*;

verus! {

/// A new endpoint together with the key of its bus subscription.
pub struct Attachment {
    pub endpoint: Endpoint,
    pub key: u64,
}

/// The shared state of a relay: the bus and the counter that names
/// endpoints. Attaching an endpoint gives it a fresh id and its own
/// subscription.
pub struct Hub {
    bus: Bus,
    uids: UidCounter,
}

impl Hub {
    pub closed spec fn subscriptions(&self) -> Map<u64, QueueView> {
        self.bus.subscriptions()
    }

    pub closed spec fn cap(&self) -> nat {
        self.bus.cap()
    }

    /// The endpoint ids handed out so far.
    pub closed spec fn issued(&self) -> Set<int> {
        self.uids.issued()
    }

    /// Whether another endpoint can be attached: ids and keys are left.
    pub closed spec fn has_room(&self) -> bool {
        self.uids.peek() < usize::MAX && self.bus.next_key_spec() < u64::MAX
    }

    pub closed spec fn wf(&self) -> bool {
        self.bus.wf() && self.uids.wf()
    }

    /// Whether another endpoint can be attached.
    pub fn can_attach(&self) -> (r: bool)
        ensures
            r == self.has_room(),
    {
        self.uids.can_issue() && self.bus.can_subscribe()
    }

    /// A hub with no endpoints whose subscriptions hold `capacity` messages.
    pub fn new(capacity: usize) -> (r: Hub)
        requires
            capacity >= 1,
        ensures
            r.wf(),
            r.subscriptions() == Map::<u64, QueueView>::empty(),
            r.cap() == capacity,
            r.issued() == Set::<int>::empty(),
            r.has_room(),
    {
        Hub { bus: Bus::new(capacity), uids: UidCounter::new() }
    }

    /// Creates an endpoint with an id never issued before and subscribes it
    /// to the bus. Returns `None`, changing nothing, only when the ids or the
    /// subscription keys are used up.
    pub fn attach(&mut self) -> (r: Option<Attachment>)
        requires
            old(self).wf(),
        ensures
            final(self).wf(),
            final(self).cap() == old(self).cap(),
            match r {
                Some(att) => {
                    &&& !old(self).issued().contains(att.endpoint.id_spec() as int)
                    &&& final(self).issued() == old(self).issued().insert(
                        att.endpoint.id_spec() as int,
                    )
                    &&& att.endpoint.phase_spec() == Phase::Active
                    &&& !old(self).subscriptions().contains_key(att.key)
                    &&& final(self).subscriptions() == old(self).subscriptions().insert(
                        att.key,
                        (Seq::empty(), 0nat),
                    )
                },
                None => {
                    &&& final(self).subscriptions() == old(self).subscriptions()
                    &&& final(self).issued() == old(self).issued()
                },
            },
            r is None <==> !old(self).has_room(),
    {
        if !self.uids.can_issue() || !self.bus.can_subscribe() {
            return None;
        }
        let id = generate_uid(&mut self.uids);
        let key = self.bus.subscribe();
        Some(Attachment { endpoint: Endpoint::new(id), key })
    }

    /// Drops the subscription `key`; the others are untouched.
    pub fn detach(&mut self, key: u64) -> (r: bool)
        requires
            old(self).wf(),
        ensures
            final(self).wf(),
            final(self).cap() == old(self).cap(),
            final(self).issued() == old(self).issued(),
            r == old(self).subscriptions().contains_key(key),
            final(self).subscriptions() == old(self).subscriptions().remove(key),
    {
        self.bus.unsubscribe(key)
    }

    /// Publishes `m` to every subscription, the publisher's own included.
    pub fn publish(&mut self, m: &Message) -> (r: usize)
        requires
            old(self).wf(),
        ensures
            final(self).wf(),
            final(self).cap() == old(self).cap(),
            final(self).issued() == old(self).issued(),
            final(self).subscriptions() == publish_all(
                old(self).subscriptions(),
                m@,
                old(self).cap(),
            ),
            r == old(self).subscriptions().len(),
    {
        self.bus.publish(m)
    }

    /// The next event of subscription `key` for its endpoint: a lag report,
    /// a message, or `Drained` when nothing waits or the subscription is gone.
    pub fn poll(&mut self, key: u64) -> (r: Event)
        requires
            old(self).wf(),
        ensures
            final(self).wf(),
            final(self).cap() == old(self).cap(),
            final(self).issued() == old(self).issued(),
            !old(self).subscriptions().contains_key(key) ==> {
                &&& r is Drained
                &&& final(self).subscriptions() == old(self).subscriptions()
            },
            old(self).subscriptions().contains_key(key) ==> {
                let s = old(self).subscriptions()[key];
                &&& final(self).subscriptions() == old(self).subscriptions().insert(
                    key,
                    take_next(s),
                )
                &&& s.1 > 0 ==> (r matches Event::Lagged(n) && n == s.1)
                &&& s.1 == 0 && s.0.len() == 0 ==> r is Drained
                &&& s.1 == 0 && s.0.len() > 0 ==> (r matches Event::Delivered(msg) && msg@
                    == s.0[0])
            },
    {
        match self.bus.recv(key) {
            Received::Message(m) => Event::Delivered(m),
            Received::Lagged(n) => Event::Lagged(n),
            Received::Empty => Event::Drained,
            Received::Closed => Event::Drained,
        }
    }
}

} // verus!
