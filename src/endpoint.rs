use crate::bus::{publish_all, Envelope, Message, QueueView};
use vstd::prelude::*;

verus! {

/// Where an endpoint is in its life.
#[derive(PartialEq, Eq, Structural, Clone, Copy, Debug)]
pub enum Phase {
    /// Reading its transport and writing what others publish.
    Active,
    /// Its transport will give no more input; it still writes what is
    /// waiting for it until its subscription runs dry.
    Closing,
    /// Done: the transport is to be closed and the subscription dropped.
    Terminated,
}

/// Why reading or writing a transport failed.
#[derive(PartialEq, Eq, Structural, Clone, Copy, Debug)]
pub enum TransportError {
    TimedOut,
    WouldBlock,
    Interrupted,
    BrokenPipe,
    ConnectionReset,
    ConnectionAborted,
    UnexpectedEof,
    Other,
}

/// A failure that says nothing about the health of the transport: the read
/// is simply tried again.
pub open spec fn transient(e: TransportError) -> bool {
    e == TransportError::TimedOut || e == TransportError::WouldBlock || e
        == TransportError::Interrupted
}

/// Whether a read failure is transient (the endpoint keeps reading) rather
/// than fatal (the endpoint stops reading).
pub fn is_transient(e: TransportError) -> (r: bool)
    ensures
        r == transient(e),
{
    match e {
        TransportError::TimedOut | TransportError::WouldBlock | TransportError::Interrupted => true,
        _ => false,
    }
}

/// What happened to an endpoint: one of its two operations completed.
pub enum Event {
    /// A read of the transport returned these bytes; none means end of stream.
    Read(Vec<u8>),
    /// A read of the transport failed.
    ReadFailed(TransportError),
    /// The subscription handed out this message.
    Delivered(Message),
    /// The subscription lost this many messages to overflow.
    Lagged(u64),
    /// Writing to the transport failed.
    WriteFailed(TransportError),
    /// The subscription has nothing more waiting.
    Drained,
}

/// What the endpoint asks its driver to do next.
pub enum Action {
    /// Publish this message on the bus.
    Publish(Message),
    /// Write these bytes in full to the transport, then flush.
    Write(Vec<u8>),
    /// Report that this many messages were lost; keep going.
    ReportLag(u64),
    /// Stop reading the transport.
    StopReading,
    /// Close the transport and drop the subscription.
    Close,
    /// Nothing to do.
    Nothing,
}

/// The bytes an action writes to the transport, if it writes any.
pub open spec fn written(a: Action) -> Option<Seq<u8>> {
    match a {
        Action::Write(p) => Some(p@),
        _ => None,
    }
}

/// What an endpoint with id `id` in phase `phase` writes when its
/// subscription hands it `m`: the payload, unless the message is its own or
/// the endpoint is done.
pub open spec fn delivery_output(id: usize, phase: Phase, m: Envelope) -> Option<Seq<u8>> {
    if phase != Phase::Terminated && m.1 != id {
        Some(m.0)
    } else {
        None
    }
}

/// The relay logic of one endpoint, driven by events from its transport and
/// its bus subscription.
pub struct Endpoint {
    id: usize,
    phase: Phase,
}

impl Endpoint {
    pub closed spec fn id_spec(&self) -> usize {
        self.id
    }

    pub closed spec fn phase_spec(&self) -> Phase {
        self.phase
    }

    /// A new, active endpoint with the given id.
    pub fn new(id: usize) -> (r: Endpoint)
        ensures
            r.id_spec() == id,
            r.phase_spec() == Phase::Active,
    {
        Endpoint { id, phase: Phase::Active }
    }

    pub fn id(&self) -> (r: usize)
        ensures
            r == self.id_spec(),
    {
        self.id
    }

    pub fn phase(&self) -> (r: Phase)
        ensures
            r == self.phase_spec(),
    {
        self.phase
    }

    /// Whether the transport should still be read.
    pub fn reads_enabled(&self) -> (r: bool)
        ensures
            r == (self.phase_spec() == Phase::Active),
    {
        self.phase == Phase::Active
    }

    /// Whether the endpoint is done.
    pub fn is_terminated(&self) -> (r: bool)
        ensures
            r == (self.phase_spec() == Phase::Terminated),
    {
        self.phase == Phase::Terminated
    }

    /// Decides what one event leads to. A successful read becomes a message
    /// tagged with this endpoint's id; a delivered message is written unless
    /// this endpoint published it.
    pub fn handle(&mut self, ev: Event) -> (a: Action)
        ensures
            final(self).id_spec() == old(self).id_spec(),
            old(self).phase_spec() == Phase::Terminated ==> {
                &&& a is Nothing
                &&& final(self).phase_spec() == Phase::Terminated
            },
            old(self).phase_spec() == Phase::Active ==> match ev {
                Event::Read(b) => if b@.len() > 0 {
                    &&& (a matches Action::Publish(m) && m@ == (b@, old(self).id_spec()))
                    &&& final(self).phase_spec() == Phase::Active
                } else {
                    &&& a is StopReading
                    &&& final(self).phase_spec() == Phase::Closing
                },
                Event::ReadFailed(e) => if transient(e) {
                    &&& a is Nothing
                    &&& final(self).phase_spec() == Phase::Active
                } else {
                    &&& a is StopReading
                    &&& final(self).phase_spec() == Phase::Closing
                },
                Event::Drained => {
                    &&& a is Nothing
                    &&& final(self).phase_spec() == Phase::Active
                },
                _ => true,
            },
            old(self).phase_spec() == Phase::Closing ==> match ev {
                Event::Read(_) | Event::ReadFailed(_) => {
                    &&& a is Nothing
                    &&& final(self).phase_spec() == Phase::Closing
                },
                Event::Drained => {
                    &&& a is Close
                    &&& final(self).phase_spec() == Phase::Terminated
                },
                _ => true,
            },
            old(self).phase_spec() != Phase::Terminated ==> match ev {
                Event::Delivered(m) => {
                    &&& written(a) == delivery_output(
                        old(self).id_spec(),
                        old(self).phase_spec(),
                        m@,
                    )
                    &&& (a is Write || a is Nothing)
                    &&& final(self).phase_spec() == old(self).phase_spec()
                },
                Event::Lagged(n) => {
                    &&& (a matches Action::ReportLag(k) && k == n)
                    &&& final(self).phase_spec() == old(self).phase_spec()
                },
                Event::WriteFailed(_) => {
                    &&& a is Close
                    &&& final(self).phase_spec() == Phase::Terminated
                },
                _ => true,
            },
    {
        if self.phase == Phase::Terminated {
            return Action::Nothing;
        }
        match ev {
            Event::Read(b) => {
                if self.phase != Phase::Active {
                    Action::Nothing
                } else if b.len() > 0 {
                    Action::Publish(Message::new(b, self.id))
                } else {
                    self.phase = Phase::Closing;
                    Action::StopReading
                }
            },
            Event::ReadFailed(e) => {
                if self.phase != Phase::Active || is_transient(e) {
                    Action::Nothing
                } else {
                    self.phase = Phase::Closing;
                    Action::StopReading
                }
            },
            Event::Delivered(m) => {
                if m.origin == self.id {
                    Action::Nothing
                } else {
                    Action::Write(m.payload)
                }
            },
            Event::Lagged(n) => Action::ReportLag(n),
            Event::WriteFailed(_) => {
                self.phase = Phase::Terminated;
                Action::Close
            },
            Event::Drained => {
                if self.phase == Phase::Closing {
                    self.phase = Phase::Terminated;
                    Action::Close
                } else {
                    Action::Nothing
                }
            },
        }
    }
}

/// An endpoint never writes a message that it published itself, whatever
/// its phase.
pub proof fn lemma_no_self_echo(id: usize, phase: Phase, m: Envelope)
    requires
        m.1 == id,
    ensures
        delivery_output(id, phase, m) is None,
{
}

/// A message published while every subscription has room reaches the back
/// of each of them, and every endpoint other than its publisher that has not
/// terminated writes its payload when the message comes up.
pub proof fn lemma_fan_out(
    subs: Map<u64, QueueView>,
    m: Envelope,
    cap: nat,
    id: usize,
    phase: Phase,
)
    requires
        forall|k: u64| #[trigger] subs.contains_key(k) ==> subs[k].0.len() < cap,
        id != m.1,
        phase != Phase::Terminated,
    ensures
        publish_all(subs, m, cap).dom() == subs.dom(),
        forall|k: u64| #[trigger]
            subs.contains_key(k) ==> publish_all(subs, m, cap)[k] == (subs[k].0.push(m), subs[k].1),
        delivery_output(id, phase, m) == Some(m.0),
{
    assert(publish_all(subs, m, cap).dom() =~= subs.dom());
}

} // verus!
