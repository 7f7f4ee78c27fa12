use std::collections::VecDeque;
use vstd::prelude::*;

verus! {

/// The abstract value of a message: its payload and the id of the endpoint
/// that published it.
pub type Envelope = (Seq<u8>, usize);

/// The abstract value of one subscription: the messages waiting in it, oldest
/// first, and how many messages it has lost to overflow since it last
/// reported a lag.
pub type QueueView = (Seq<Envelope>, nat);

/// A chunk of bytes read from one endpoint, tagged with that endpoint's id.
pub struct Message {
    pub payload: Vec<u8>,
    pub origin: usize,
}

impl View for Message {
    type V = Envelope;

    open spec fn view(&self) -> Envelope {
        (self.payload@, self.origin)
    }
}

/// Copies a byte vector element by element.
pub fn copy_bytes(b: &Vec<u8>) -> (r: Vec<u8>)
    ensures
        r@ == b@,
{
    let mut r: Vec<u8> = Vec::with_capacity(b.len());
    let mut i: usize = 0;
    while i < b.len()
        invariant
            i <= b@.len(),
            r@ == b@.subrange(0, i as int),
        decreases b@.len() - i,
    {
        r.push(b[i]);
        i = i + 1;
    }
    assert(r@ =~= b@);
    r
}

impl Message {
    pub fn new(payload: Vec<u8>, origin: usize) -> (r: Message)
        ensures
            r@ == (payload@, origin),
    {
        Message { payload, origin }
    }

    /// An independent copy of this message.
    pub fn duplicate(&self) -> (r: Message)
        ensures
            r@ == self@,
    {
        Message { payload: copy_bytes(&self.payload), origin: self.origin }
    }
}

/// Appends `m` to a queue that holds at most `cap` messages; when the queue
/// is full its oldest message is dropped first.
pub open spec fn push_bounded(q: Seq<Envelope>, m: Envelope, cap: nat) -> Seq<Envelope> {
    if q.len() < cap {
        q.push(m)
    } else {
        q.drop_first().push(m)
    }
}

/// One more, unless the count is already at the largest `u64`.
pub open spec fn saturating_inc(n: nat) -> nat {
    if n < u64::MAX { n + 1 } else { n }
}

/// What publishing `m` does to one subscription: a full queue loses its
/// oldest message and counts one more lost message.
pub open spec fn deliver(s: QueueView, m: Envelope, cap: nat) -> QueueView {
    (push_bounded(s.0, m, cap), if s.0.len() < cap { s.1 } else { saturating_inc(s.1) })
}

/// What taking the next item does to one subscription: a pending lag report
/// is handed out first; otherwise the oldest message leaves, if any.
pub open spec fn take_next(s: QueueView) -> QueueView {
    if s.1 > 0 {
        (s.0, 0nat)
    } else if s.0.len() == 0 {
        s
    } else {
        (s.0.drop_first(), 0nat)
    }
}

/// What publishing `m` does to every subscription of a bus.
pub open spec fn publish_all(subs: Map<u64, QueueView>, m: Envelope, cap: nat) -> Map<
    u64,
    QueueView,
> {
    Map::new(|k: u64| subs.contains_key(k), |k: u64| deliver(subs[k], m, cap))
}

/// Removing the entry at `i` from a sequence without duplicates removes
/// exactly that entry from its set of elements.
proof fn lemma_remove_to_set(s: Seq<u64>, i: int)
    requires
        s.no_duplicates(),
        0 <= i < s.len(),
    ensures
        s.remove(i).to_set() == s.to_set().remove(s[i]),
{
    let r = s.remove(i);
    s.remove_ensures(i);
    assert forall|x: u64| r.contains(x) <==> s.contains(x) && x != s[i] by {
        if r.contains(x) {
            let j = choose|j: int| 0 <= j < r.len() && r[j] == x;
            if j < i {
                assert(s[j] == x);
            } else {
                assert(s[j + 1] == x);
            }
        }
        if s.contains(x) && x != s[i] {
            let j = choose|j: int| 0 <= j < s.len() && s[j] == x;
            if j < i {
                assert(r[j] == x);
            } else {
                assert(r[j - 1] == x);
            }
        }
    }
    assert(r.to_set() =~= s.to_set().remove(s[i]));
}

/// The outcome of taking the next item off a subscription.
pub enum Received {
    /// The oldest waiting message.
    Message(Message),
    /// This many messages were dropped since the last report, because the
    /// subscription was full when they were published.
    Lagged(u64),
    /// Nothing is waiting.
    Empty,
    /// The subscription does not exist (never made, or already removed).
    Closed,
}

fn deliver_to(slot: &mut Slot, m: &Message, capacity: usize)
    requires
        capacity >= 1,
        old(slot).queue@.len() <= capacity,
    ensures
        final(slot).key == old(slot).key,
        final(slot).view() == deliver(old(slot).view(), m@, capacity as nat),
        final(slot).queue@.len() <= capacity,
{
    let ghost q0 = slot.queue@;
    if slot.queue.len() >= capacity {
        let _oldest = slot.queue.pop_front();
        if slot.lagged < u64::MAX {
            slot.lagged = slot.lagged + 1;
        }
    }
    slot.queue.push_back(m.duplicate());
    proof {
        let f = |x: Message| x@;
        if q0.len() < capacity {
            assert(slot.queue@.map_values(f) =~= q0.map_values(f).push(m@));
        } else {
            assert(slot.queue@.map_values(f) =~= q0.map_values(f).drop_first().push(m@));
        }
    }
}

fn take_from(slot: &mut Slot) -> (r: Received)
    ensures
        final(slot).key == old(slot).key,
        final(slot).queue@.len() <= old(slot).queue@.len(),
        final(slot).view() == take_next(old(slot).view()),
        old(slot).view().1 > 0 ==> (r matches Received::Lagged(n) && n == old(slot).view().1),
        old(slot).view().1 == 0 && old(slot).view().0.len() == 0 ==> r is Empty,
        old(slot).view().1 == 0 && old(slot).view().0.len() > 0 ==> (r matches Received::Message(
            msg,
        ) && msg@ == old(slot).view().0[0]),
{
    if slot.lagged > 0 {
        let n = slot.lagged;
        slot.lagged = 0;
        return Received::Lagged(n);
    }
    let ghost q0 = slot.queue@;
    match slot.queue.pop_front() {
        Some(msg) => {
            proof {
                let f = |x: Message| x@;
                assert(slot.queue@.map_values(f) =~= q0.map_values(f).drop_first());
            }
            Received::Message(msg)
        },
        None => Received::Empty,
    }
}

struct Slot {
    key: u64,
    queue: VecDeque<Message>,
    lagged: u64,
}

impl Slot {
    spec fn view(&self) -> QueueView {
        (self.queue@.map_values(|m: Message| m@), self.lagged as nat)
    }
}

/// A fan-out channel. Every subscription has its own bounded queue: a
/// publish appends to all of them, and a full queue drops its oldest
/// message, so a slow subscriber never holds up the publisher or the others.
pub struct Bus {
    slots: Vec<Slot>,
    capacity: usize,
    next_key: u64,
    model: Ghost<Map<u64, QueueView>>,
}

impl Bus {
    /// The subscriptions, each with its waiting messages and lag count.
    pub closed spec fn subscriptions(&self) -> Map<u64, QueueView> {
        self.model@
    }

    /// How many messages each subscription holds at most.
    pub closed spec fn cap(&self) -> nat {
        self.capacity as nat
    }

    /// The key the next subscription will get.
    pub closed spec fn next_key_spec(&self) -> u64 {
        self.next_key
    }

    spec fn key_seq(&self) -> Seq<u64> {
        self.slots@.map_values(|s: Slot| s.key)
    }

    proof fn lemma_keys(&self)
        ensures
            self.key_seq().len() == self.slots@.len(),
            forall|i: int|
                0 <= i < self.slots@.len() ==> #[trigger] self.key_seq()[i] == self.slots@[i].key,
    {
    }

    pub closed spec fn wf(&self) -> bool {
        &&& self.capacity >= 1
        &&& self.key_seq().no_duplicates()
        &&& self.model@.dom() == self.key_seq().to_set()
        &&& forall|i: int|
            0 <= i < self.slots@.len() ==> {
                &&& self.model@[(#[trigger] self.slots@[i]).key] == self.slots@[i].view()
                &&& self.slots@[i].key < self.next_key
                &&& self.slots@[i].queue@.len() <= self.capacity
            }
    }

    /// A bus with no subscriptions whose queues hold `capacity` messages each.
    pub fn new(capacity: usize) -> (r: Bus)
        requires
            capacity >= 1,
        ensures
            r.wf(),
            r.subscriptions() == Map::<u64, QueueView>::empty(),
            r.cap() == capacity,
            r.next_key_spec() == 0,
    {
        let r = Bus { slots: Vec::new(), capacity, next_key: 0, model: Ghost(Map::empty()) };
        assert(r.key_seq().to_set() =~= Set::<u64>::empty());
        r
    }

    /// How many messages each subscription holds at most.
    pub fn capacity(&self) -> (r: usize)
        ensures
            r == self.cap(),
    {
        self.capacity
    }

    /// How many subscriptions there are.
    pub fn subscriber_count(&self) -> (r: usize)
        requires
            self.wf(),
        ensures
            r == self.subscriptions().len(),
    {
        proof {
            self.lemma_len();
        }
        self.slots.len()
    }

    proof fn lemma_len(&self)
        requires
            self.wf(),
        ensures
            self.model@.dom().finite(),
            self.model@.len() == self.slots@.len(),
    {
        self.key_seq().unique_seq_to_set();
    }

    /// Whether another subscription can be made.
    pub fn can_subscribe(&self) -> (r: bool)
        ensures
            r == (self.next_key_spec() < u64::MAX),
    {
        self.next_key < u64::MAX
    }

    /// Opens a new subscription with an empty queue. It sees every message
    /// published from now on, and none published before.
    pub fn subscribe(&mut self) -> (r: u64)
        requires
            old(self).wf(),
            old(self).next_key_spec() < u64::MAX,
        ensures
            final(self).wf(),
            final(self).cap() == old(self).cap(),
            !old(self).subscriptions().contains_key(r),
            final(self).subscriptions() == old(self).subscriptions().insert(
                r,
                (Seq::<Envelope>::empty(), 0nat),
            ),
            final(self).next_key_spec() == old(self).next_key_spec() + 1,
    {
        let key = self.next_key;
        proof {
            self.lemma_keys();
            if self.model@.contains_key(key) {
                let i = self.key_seq().index_of(key);
                assert(self.slots@[i].key == key);
            }
        }
        let slot = Slot { key, queue: VecDeque::new(), lagged: 0 };
        assert(slot.view().0 =~= Seq::<Envelope>::empty());
        let ghost old_keys = self.key_seq();
        self.slots.push(slot);
        self.next_key = self.next_key + 1;
        self.model = Ghost(self.model@.insert(key, (Seq::<Envelope>::empty(), 0nat)));
        proof {
            self.lemma_keys();
            assert(self.key_seq() =~= old_keys.push(key));
            assert(!old_keys.contains(key));
            old_keys.lemma_push_to_set_commute(key);
            assert forall|i: int| 0 <= i < self.slots@.len() implies {
                &&& self.model@[#[trigger] self.slots@[i].key] == self.slots@[i].view()
                &&& self.slots@[i].key < self.next_key
                &&& self.slots@[i].queue@.len() <= self.capacity
            } by {
                if i < self.slots@.len() - 1 {
                    assert(old_keys[i] == self.slots@[i].key);
                }
            }
        }
        key
    }

    /// Removes a subscription and whatever waits in it. Reports whether it
    /// existed. The other subscriptions are left as they were.
    pub fn unsubscribe(&mut self, key: u64) -> (r: bool)
        requires
            old(self).wf(),
        ensures
            final(self).wf(),
            final(self).cap() == old(self).cap(),
            final(self).next_key_spec() == old(self).next_key_spec(),
            r == old(self).subscriptions().contains_key(key),
            final(self).subscriptions() == old(self).subscriptions().remove(key),
    {
        let mut i: usize = 0;
        while i < self.slots.len()
            invariant
                i <= self.slots@.len(),
                forall|j: int| 0 <= j < i ==> self.slots@[j].key != key,
                self.wf(),
                self.slots@ == old(self).slots@,
                self.model@ == old(self).model@,
                self.capacity == old(self).capacity,
                self.next_key == old(self).next_key,
            decreases self.slots@.len() - i,
        {
            if self.slots[i].key == key {
                let ghost old_keys = self.key_seq();
                proof {
                    self.lemma_keys();
                    assert(old_keys[i as int] == key);
                }
                let ghost old_slots = self.slots@;
                let _gone = self.slots.remove(i);
                self.model = Ghost(self.model@.remove(key));
                proof {
                    self.lemma_keys();
                    assert(self.key_seq() =~= old_keys.remove(i as int));
                    lemma_remove_to_set(old_keys, i as int);
                    assert forall|a: int, b: int|
                        0 <= a < self.key_seq().len() && 0 <= b < self.key_seq().len() && a
                            != b implies self.key_seq()[a] != self.key_seq()[b] by {
                        let a2 = if a < i { a } else { a + 1 };
                        let b2 = if b < i { b } else { b + 1 };
                        assert(old_keys[a2] != old_keys[b2]);
                    }
                    assert forall|j: int| 0 <= j < self.slots@.len() implies {
                        &&& self.model@[(#[trigger] self.slots@[j]).key] == self.slots@[j].view()
                        &&& self.slots@[j].key < self.next_key
                        &&& self.slots@[j].queue@.len() <= self.capacity
                    } by {
                        let j2 = if j < i { j } else { j + 1 };
                        assert(old_slots[j2] == self.slots@[j]);
                        assert(old_keys[j2] != key);
                    }
                }
                return true;
            }
            i = i + 1;
        }
        proof {
            self.lemma_keys();
            if self.model@.contains_key(key) {
                let j = self.key_seq().index_of(key);
                assert(self.slots@[j].key == key);
            }
            assert(self.model@.remove(key) =~= self.model@);
        }
        false
    }

    /// Appends `m` to every subscription's queue. A full queue first drops its
    /// oldest message and counts the loss. Never waits on any subscriber.
    /// Returns how many subscriptions the message went to.
    pub fn publish(&mut self, m: &Message) -> (r: usize)
        requires
            old(self).wf(),
        ensures
            final(self).wf(),
            final(self).cap() == old(self).cap(),
            final(self).next_key_spec() == old(self).next_key_spec(),
            final(self).subscriptions() == publish_all(
                old(self).subscriptions(),
                m@,
                old(self).cap(),
            ),
            r == old(self).subscriptions().len(),
    {
        proof {
            self.lemma_len();
            self.lemma_keys();
        }
        let ghost old_slots = self.slots@;
        let ghost old_model = self.model@;
        let ghost old_keys = self.key_seq();
        let capacity = self.capacity;
        let n = self.slots.len();
        let mut i: usize = 0;
        while i < n
            invariant
                n == self.slots@.len(),
                n == old_slots.len(),
                i <= n,
                capacity == self.capacity,
                capacity >= 1,
                self.model@ == old_model,
                self.next_key == old(self).next_key,
                old_model == old(self).model@,
                forall|j: int| 0 <= j < n ==> #[trigger] self.slots@[j].key == old_slots[j].key,
                forall|j: int|
                    0 <= j < i ==> #[trigger] self.slots@[j].view() == deliver(
                        old_slots[j].view(),
                        m@,
                        capacity as nat,
                    ),
                forall|j: int| i <= j < n ==> #[trigger] self.slots@[j] == old_slots[j],
                forall|j: int| 0 <= j < n ==> #[trigger] self.slots@[j].queue@.len() <= capacity,
            decreases n - i,
        {
            deliver_to(&mut self.slots[i], m, capacity);
            i = i + 1;
        }
        self.model = Ghost(publish_all(old_model, m@, capacity as nat));
        proof {
            self.lemma_keys();
            assert(self.key_seq() =~= old_keys);
            assert(self.model@.dom() =~= old_model.dom());
            assert forall|j: int| 0 <= j < self.slots@.len() implies {
                &&& self.model@[(#[trigger] self.slots@[j]).key] == self.slots@[j].view()
                &&& self.slots@[j].key < self.next_key
                &&& self.slots@[j].queue@.len() <= self.capacity
            } by {
                assert(old_keys[j] == old_slots[j].key);
                assert(old_model[old_slots[j].key] == old_slots[j].view());
            }
        }
        n
    }

    /// Takes the next item off subscription `key`: first a pending lag report,
    /// then the oldest waiting message.
    pub fn recv(&mut self, key: u64) -> (r: Received)
        requires
            old(self).wf(),
        ensures
            final(self).wf(),
            final(self).cap() == old(self).cap(),
            final(self).next_key_spec() == old(self).next_key_spec(),
            !old(self).subscriptions().contains_key(key) ==> {
                &&& r is Closed
                &&& final(self).subscriptions() == old(self).subscriptions()
            },
            old(self).subscriptions().contains_key(key) ==> {
                let s = old(self).subscriptions()[key];
                &&& final(self).subscriptions() == old(self).subscriptions().insert(
                    key,
                    take_next(s),
                )
                &&& s.1 > 0 ==> (r matches Received::Lagged(n) && n == s.1)
                &&& s.1 == 0 && s.0.len() == 0 ==> r is Empty
                &&& s.1 == 0 && s.0.len() > 0 ==> (r matches Received::Message(msg) && msg@
                    == s.0[0])
            },
    {
        proof {
            self.lemma_keys();
        }
        let mut i: usize = 0;
        while i < self.slots.len()
            invariant
                i <= self.slots@.len(),
                forall|j: int| 0 <= j < i ==> self.slots@[j].key != key,
                self.wf(),
                self.slots@ == old(self).slots@,
                self.model@ == old(self).model@,
                self.capacity == old(self).capacity,
                self.next_key == old(self).next_key,
            decreases self.slots@.len() - i,
        {
            if self.slots[i].key == key {
                let ghost old_slots = self.slots@;
                let ghost old_keys = self.key_seq();
                proof {
                    assert(old_keys[i as int] == key);
                    assert(old_keys.to_set().contains(key));
                }
                let r = take_from(&mut self.slots[i]);
                let ghost s = self.slots@[i as int].view();
                self.model = Ghost(self.model@.insert(key, s));
                proof {
                    self.lemma_keys();
                    assert(self.key_seq() =~= old_keys);
                    assert(self.model@.dom() =~= old(self).model@.dom());
                    assert forall|j: int| 0 <= j < self.slots@.len() implies {
                        &&& self.model@[(#[trigger] self.slots@[j]).key] == self.slots@[j].view()
                        &&& self.slots@[j].key < self.next_key
                        &&& self.slots@[j].queue@.len() <= self.capacity
                    } by {
                        if j != i {
                            assert(old_keys[j] != old_keys[i as int]);
                            assert(old_slots[j] == self.slots@[j]);
                        }
                    }
                }
                return r;
            }
            i = i + 1;
        }
        proof {
            if self.model@.contains_key(key) {
                let j = self.key_seq().index_of(key);
                assert(self.slots@[j].key == key);
            }
        }
        Received::Closed
    }
}

/// Removing one subscription changes nothing for the others: publishing to
/// the rest gives the same queues as publishing to all and then removing it.
pub proof fn lemma_removal_independent(subs: Map<u64, QueueView>, k: u64, m: Envelope, cap: nat)
    ensures
        publish_all(subs.remove(k), m, cap) == publish_all(subs, m, cap).remove(k),
{
    assert(publish_all(subs.remove(k), m, cap) =~= publish_all(subs, m, cap).remove(k));
}

/// Publishing to a full subscription drops its oldest message, keeps it at
/// its bound and counts the loss. The other subscriptions come out the same
/// whatever that subscription held: its state never reaches their queues.
pub proof fn lemma_overflow_drops_oldest(
    subs: Map<u64, QueueView>,
    k: u64,
    other: QueueView,
    m: Envelope,
    cap: nat,
)
    requires
        cap >= 1,
        subs.contains_key(k),
        subs[k].0.len() == cap,
    ensures
        publish_all(subs, m, cap)[k] == (
            subs[k].0.drop_first().push(m),
            saturating_inc(subs[k].1),
        ),
        publish_all(subs, m, cap)[k].0.len() == cap,
        publish_all(subs, m, cap)[k].0.last() == m,
        publish_all(subs.insert(k, other), m, cap).remove(k) == publish_all(subs, m, cap).remove(k),
{
    assert(publish_all(subs.insert(k, other), m, cap).remove(k) =~= publish_all(subs, m, cap).remove(
        k,
    ));
}

} // verus!
