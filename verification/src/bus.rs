use vstd::prelude::*;

use crate::errors::CoreError;

verus! {

/// One typed argument of a control-protocol message.  A 32-bit float
/// travels by its bit pattern, which the unverified shell converts at the
/// wire boundary.
pub enum OscValue {
    Bool(bool),
    Int(i32),
    FloatBits(u32),
    Str(String),
}

/// Ghost image of an [`OscValue`].
pub enum ValueView {
    Bool(bool),
    Int(i32),
    FloatBits(u32),
    Str(Seq<char>),
}

impl View for OscValue {
    type V = ValueView;

    open spec fn view(&self) -> ValueView {
        match self {
            OscValue::Bool(b) => ValueView::Bool(*b),
            OscValue::Int(n) => ValueView::Int(*n),
            OscValue::FloatBits(bits) => ValueView::FloatBits(*bits),
            OscValue::Str(s) => ValueView::Str(s@),
        }
    }
}

/// A message on the bus: an address and its ordered arguments.  Messages
/// have no identity beyond structural equality and are never persisted.
pub struct Envelope {
    pub addr: String,
    pub args: Vec<OscValue>,
}

/// Ghost image of an [`Envelope`].
#[verifier::ext_equal]
pub struct EnvelopeView {
    pub addr: Seq<char>,
    pub args: Seq<ValueView>,
}

impl View for Envelope {
    type V = EnvelopeView;

    open spec fn view(&self) -> EnvelopeView {
        EnvelopeView { addr: self.addr@, args: self.args@.map_values(|v: OscValue| v@) }
    }
}

impl Envelope {
    /// A structurally equal copy of the message.
    pub fn duplicate(&self) -> (r: Envelope)
        ensures
            r@ == self@,
    {
        let mut args: Vec<OscValue> = Vec::new();
        let n = self.args.len();
        let mut i: usize = 0;
        while i < n
            invariant
                0 <= i <= n,
                n == self.args@.len(),
                args@.map_values(|v: OscValue| v@) =~= self.args@.subrange(0, i as int).map_values(
                    |v: OscValue| v@,
                ),
            decreases n - i,
        {
            let copy = match &self.args[i] {
                OscValue::Bool(b) => OscValue::Bool(*b),
                OscValue::Int(v) => OscValue::Int(*v),
                OscValue::FloatBits(bits) => OscValue::FloatBits(*bits),
                OscValue::Str(s) => OscValue::Str(s.clone()),
            };
            let ghost pre = args@;
            args.push(copy);
            proof {
                assert(args@.map_values(|v: OscValue| v@) =~= pre.map_values(
                    |v: OscValue| v@,
                ).push(copy@));
                assert(self.args@.subrange(0, i + 1) =~= self.args@.subrange(0, i as int).push(
                    self.args@[i as int],
                ));
                assert(self.args@.subrange(0, i + 1).map_values(|v: OscValue| v@)
                    =~= self.args@.subrange(0, i as int).map_values(|v: OscValue| v@).push(
                    self.args@[i as int]@,
                ));
                assert(copy@ == self.args@[i as int]@);
                assert(args@.map_values(|v: OscValue| v@) =~= self.args@.subrange(
                    0,
                    i + 1,
                ).map_values(|v: OscValue| v@));
            }
            i = i + 1;
        }
        let r = Envelope { addr: self.addr.clone(), args };
        proof {
            assert(self.args@.subrange(0, n as int) =~= self.args@);
            assert(r@ =~~= self@);
        }
        r
    }
}

/// What one receive attempt on the inbound fan-out yields.
pub enum RecvOutcome {
    /// Nothing published beyond this subscriber's cursor.
    Empty,
    /// The subscriber fell behind: this many older messages were dropped
    /// for it alone, and its cursor moved past them.
    Lagged(u64),
    /// The next message, in publish order.
    Message(Envelope),
}

/// The inbound fan-out channel: one producer, many independent consumers,
/// each with its own cursor into the publish history and a bounded buffer
/// of unread messages.  Slow consumers lose old messages — for themselves
/// only — and never block the producer or each other.
pub struct InboundBus {
    pub capacity: usize,
    pub history: Vec<Envelope>,
}

/// One subscriber's cursor into the publish history.
pub struct Subscription {
    pub cursor: usize,
}

impl InboundBus {
    /// A fan-out channel whose subscribers each buffer at most `capacity`
    /// unread messages.
    pub fn new(capacity: usize) -> (r: Self)
        requires
            capacity >= 1,
        ensures
            r.capacity == capacity,
            r.history@ =~= Seq::<Envelope>::empty(),
    {
        InboundBus { capacity, history: Vec::new() }
    }

    /// Publishes one message to every present and future subscriber that
    /// keeps up.  Publishing never blocks.
    pub fn publish(&mut self, msg: Envelope)
        ensures
            final(self).capacity == old(self).capacity,
            final(self).history@ == old(self).history@.push(msg),
    {
        self.history.push(msg);
    }

    /// A new subscription: it sees every message published after this
    /// point and none published before.
    pub fn subscribe(&self) -> (r: Subscription)
        ensures
            r.cursor == self.history@.len(),
    {
        Subscription { cursor: self.history.len() }
    }

    /// One receive attempt for `sub`: either nothing is pending, or the
    /// subscriber lagged and is told how many messages it lost, or the
    /// next message in publish order is handed out and the cursor advances.
    pub fn recv(&self, sub: &mut Subscription) -> (r: RecvOutcome)
        ensures
            ({
                let len = self.history@.len();
                let cur = old(sub).cursor as int;
                if cur >= len {
                    r is Empty && final(sub).cursor == old(sub).cursor
                } else if len - cur > self.capacity {
                    &&& r == RecvOutcome::Lagged((len - self.capacity - cur) as u64)
                    &&& final(sub).cursor == len - self.capacity
                } else {
                    &&& r matches RecvOutcome::Message(m) && m@ == self.history@[cur]@
                    &&& final(sub).cursor == cur + 1
                }
            }),
    {
        let len = self.history.len();
        if sub.cursor >= len {
            RecvOutcome::Empty
        } else if len - sub.cursor > self.capacity {
            let lag = (len - self.capacity - sub.cursor) as u64;
            sub.cursor = len - self.capacity;
            RecvOutcome::Lagged(lag)
        } else {
            let msg = self.history[sub.cursor].duplicate();
            sub.cursor = sub.cursor + 1;
            RecvOutcome::Message(msg)
        }
    }
}

/// The outbound ordered queue: any number of producers, one consumer, a
/// bounded buffer, strict FIFO delivery.  A full queue back-pressures the
/// producer; a closed queue rejects every send with `BusClosed`.
pub struct OutboundQueue {
    pub capacity: usize,
    pub items: Vec<Envelope>,
    pub closed: bool,
}

impl OutboundQueue {
    pub fn new(capacity: usize) -> (r: Self)
        requires
            capacity >= 1,
        ensures
            r.capacity == capacity,
            r.items@ =~= Seq::<Envelope>::empty(),
            !r.closed,
    {
        OutboundQueue { capacity, items: Vec::new(), closed: false }
    }

    /// Offers one message.  `Ok(true)`: accepted at the back of the queue.
    /// `Ok(false)`: the queue is full — the producer must wait until the
    /// consumer drains it (backpressure).  `Err(BusClosed)`: the bus has
    /// shut down and the message is dropped.
    pub fn try_send(&mut self, msg: Envelope) -> (r: Result<bool, CoreError>)
        ensures
            final(self).capacity == old(self).capacity,
            final(self).closed == old(self).closed,
            match r {
                Ok(true) => !old(self).closed && old(self).items@.len() < old(self).capacity
                    && final(self).items@ == old(self).items@.push(msg),
                Ok(false) => !old(self).closed && old(self).items@.len() >= old(self).capacity
                    && final(self).items@ == old(self).items@,
                Err(e) => e == CoreError::BusClosed && old(self).closed && final(self).items@
                    == old(self).items@,
            },
    {
        if self.closed {
            Err(CoreError::BusClosed)
        } else if self.items.len() >= self.capacity {
            Ok(false)
        } else {
            self.items.push(msg);
            Ok(true)
        }
    }

    /// Takes the oldest queued message, in strict enqueue order.
    pub fn pop(&mut self) -> (r: Option<Envelope>)
        ensures
            final(self).capacity == old(self).capacity,
            final(self).closed == old(self).closed,
            match r {
                Some(m) => old(self).items@.len() > 0 && m == old(self).items@[0]
                    && final(self).items@ == old(self).items@.subrange(
                    1,
                    old(self).items@.len() as int,
                ),
                None => old(self).items@.len() == 0 && final(self).items@ == old(self).items@,
            },
    {
        if self.items.len() == 0 {
            None
        } else {
            let m = self.items.remove(0);
            proof {
                assert(self.items@ =~= old(self).items@.subrange(
                    1,
                    old(self).items@.len() as int,
                ));
            }
            Some(m)
        }
    }

    /// Shuts the bus down: pending sends fail with `BusClosed` from now
    /// on; already queued messages can still be drained.
    pub fn close(&mut self)
        ensures
            *final(self) == (OutboundQueue { closed: true, ..*old(self) }),
    {
        self.closed = true;
    }
}

} // verus!
