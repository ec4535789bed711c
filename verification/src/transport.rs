//! The byte transport between the runtime and a physical backend, and an
//! in-memory transport that replays injected responses.

use vstd::prelude::*;
use crate::wire::copy_bytes;

verus! {

#[verifier::external_type_specification]
#[verifier::external_body]
pub struct ExIoError(std::io::Error);

/// Transport error.
#[derive(Debug)]
pub enum TransportError {
    Io(std::io::Error),
    Timeout,
    Disconnected,
    InvalidResponse(String),
}

/// The byte contents of a list of messages.
pub open spec fn messages(v: Seq<Vec<u8>>) -> Seq<Seq<u8>> {
    v.map_values(|m: Vec<u8>| m@)
}

/// What one receive hands back, by kind.
pub ghost enum Reception {
    Message(Seq<u8>),
    Disconnected,
    Timeout,
    Failure,
}

/// The reception a receive's result stands for.
pub open spec fn reception_of(r: Result<Vec<u8>, TransportError>) -> Reception {
    match r {
        Ok(m) => Reception::Message(m@),
        Err(TransportError::Disconnected) => Reception::Disconnected,
        Err(TransportError::Timeout) => Reception::Timeout,
        Err(_) => Reception::Failure,
    }
}

/// One receive from a queue of `pending` responses, `armed` to report a
/// disconnection when empty: the reception, the queue left, and whether it
/// is still armed.
pub open spec fn receive_step(pending: Seq<Seq<u8>>, armed: bool) -> (Reception, Seq<Seq<u8>>, bool) {
    if pending.len() > 0 {
        (Reception::Message(pending[0]), pending.drop_first(), armed)
    } else if armed {
        (Reception::Disconnected, pending, false)
    } else {
        (Reception::Timeout, pending, false)
    }
}

/// The receptions of `n` receives in a row.
pub open spec fn receptions(pending: Seq<Seq<u8>>, armed: bool, n: nat) -> Seq<Reception>
    decreases n,
{
    if n == 0 {
        Seq::empty()
    } else {
        let (r, p, a) = receive_step(pending, armed);
        seq![r] + receptions(p, a, (n - 1) as nat)
    }
}

/// The log of messages after sending each of `ds` in order onto `log`.
pub open spec fn sent_after(log: Seq<Seq<u8>>, ds: Seq<Seq<u8>>) -> Seq<Seq<u8>>
    decreases ds.len(),
{
    if ds.len() == 0 {
        log
    } else {
        sent_after(log, ds.drop_last()).push(ds.last())
    }
}

/// In-memory transport: records what is sent and answers each receive with
/// the oldest injected response.
pub struct FakeTransport {
    sent: Vec<Vec<u8>>,
    responses: Vec<Vec<u8>>,
    connected: bool,
    disconnect_on_empty: bool,
}

impl FakeTransport {
    /// Messages sent so far, oldest first.
    pub closed spec fn sent_spec(&self) -> Seq<Seq<u8>> {
        messages(self.sent@)
    }

    /// Responses waiting to be received, oldest first.
    pub closed spec fn pending(&self) -> Seq<Seq<u8>> {
        messages(self.responses@)
    }

    /// Whether the transport is connected.
    pub closed spec fn connected_spec(&self) -> bool {
        self.connected
    }

    /// Whether the next receive on an empty queue reports a disconnection.
    pub closed spec fn drops_when_empty(&self) -> bool {
        self.disconnect_on_empty
    }

    pub fn new() -> (t: Self)
        ensures
            t.sent_spec() == Seq::<Seq<u8>>::empty(),
            t.pending() == Seq::<Seq<u8>>::empty(),
            !t.connected_spec(),
            !t.drops_when_empty(),
    {
        let t = FakeTransport {
            sent: Vec::new(),
            responses: Vec::new(),
            connected: false,
            disconnect_on_empty: false,
        };
        proof {
            assert(messages(t.sent@) =~= Seq::<Seq<u8>>::empty());
        }
        t
    }

    /// Arms the transport so that the next receive that finds no queued
    /// response reports a disconnection.
    pub fn disconnect_on_empty_queue(&mut self)
        ensures
            final(self).drops_when_empty(),
            final(self).sent_spec() == old(self).sent_spec(),
            final(self).pending() == old(self).pending(),
            final(self).connected_spec() == old(self).connected_spec(),
    {
        self.disconnect_on_empty = true;
    }

    /// Queues a response for a later receive.
    pub fn inject_response(&mut self, data: Vec<u8>)
        ensures
            final(self).pending() == old(self).pending().push(data@),
            final(self).sent_spec() == old(self).sent_spec(),
            final(self).connected_spec() == old(self).connected_spec(),
            final(self).drops_when_empty() == old(self).drops_when_empty(),
    {
        self.responses.push(data);
        proof {
            assert(messages(self.responses@) =~= messages(old(self).responses@).push(data@));
        }
    }

    /// A copy of the messages sent so far, oldest first.
    pub fn sent_commands(&self) -> (r: Vec<Vec<u8>>)
        ensures
            messages(r@) == self.sent_spec(),
    {
        let mut r: Vec<Vec<u8>> = Vec::new();
        let mut i: usize = 0;
        while i < self.sent.len()
            invariant
                i <= self.sent@.len(),
                r@.len() == i,
                forall|k: int| 0 <= k < i ==> (#[trigger] r@[k])@ == self.sent@[k]@,
            decreases self.sent@.len() - i,
        {
            let m = copy_bytes(&self.sent[i]);
            r.push(m);
            i = i + 1;
        }
        proof {
            assert(messages(r@) =~= messages(self.sent@));
        }
        r
    }

    /// Forgets the messages sent so far.
    pub fn clear_sent(&mut self)
        ensures
            final(self).sent_spec() == Seq::<Seq<u8>>::empty(),
            final(self).pending() == old(self).pending(),
            final(self).connected_spec() == old(self).connected_spec(),
            final(self).drops_when_empty() == old(self).drops_when_empty(),
    {
        self.sent.clear();
        proof {
            assert(messages(self.sent@) =~= Seq::<Seq<u8>>::empty());
        }
    }

    pub fn connect(&mut self) -> (r: Result<(), TransportError>)
        ensures
            r is Ok,
            final(self).connected_spec(),
            final(self).sent_spec() == old(self).sent_spec(),
            final(self).pending() == old(self).pending(),
            final(self).drops_when_empty() == old(self).drops_when_empty(),
    {
        self.connected = true;
        Ok(())
    }

    pub fn disconnect(&mut self) -> (r: Result<(), TransportError>)
        ensures
            r is Ok,
            !final(self).connected_spec(),
            final(self).sent_spec() == old(self).sent_spec(),
            final(self).pending() == old(self).pending(),
            final(self).drops_when_empty() == old(self).drops_when_empty(),
    {
        self.connected = false;
        Ok(())
    }

    /// Records `data` as sent.
    pub fn send(&mut self, data: &[u8]) -> (r: Result<(), TransportError>)
        ensures
            r is Ok,
            final(self).sent_spec() == old(self).sent_spec().push(data@),
            final(self).pending() == old(self).pending(),
            final(self).connected_spec() == old(self).connected_spec(),
            final(self).drops_when_empty() == old(self).drops_when_empty(),
    {
        let m = vstd::slice::slice_to_vec(data);
        self.sent.push(m);
        proof {
            assert(messages(self.sent@) =~= messages(old(self).sent@).push(data@));
        }
        Ok(())
    }

    /// The oldest queued response. With none queued: a disconnection if the
    /// transport was armed to report one (which disarms it), a timeout
    /// otherwise.
    pub fn receive(&mut self) -> (r: Result<Vec<u8>, TransportError>)
        ensures
            final(self).sent_spec() == old(self).sent_spec(),
            final(self).connected_spec() == old(self).connected_spec(),
            (reception_of(r), final(self).pending(), final(self).drops_when_empty())
                == receive_step(old(self).pending(), old(self).drops_when_empty()),
            old(self).pending().len() > 0 ==> {
                &&& (r matches Ok(m) && m@ == old(self).pending()[0])
                &&& final(self).pending() == old(self).pending().drop_first()
                &&& final(self).drops_when_empty() == old(self).drops_when_empty()
            },
            old(self).pending().len() == 0 ==> {
                &&& old(self).drops_when_empty() ==> (r matches Err(TransportError::Disconnected))
                &&& !old(self).drops_when_empty() ==> (r matches Err(TransportError::Timeout))
                &&& !final(self).drops_when_empty()
                &&& final(self).pending() == old(self).pending()
            },
    {
        if self.responses.len() == 0 {
            if self.disconnect_on_empty {
                self.disconnect_on_empty = false;
                return Err(TransportError::Disconnected);
            }
            return Err(TransportError::Timeout);
        }
        let m = self.responses.remove(0);
        proof {
            assert(messages(self.responses@) =~= messages(old(self).responses@).drop_first());
        }
        Ok(m)
    }
}

proof fn lemma_timeouts(n: nat)
    ensures
        receptions(Seq::empty(), false, n) == Seq::new(n, |i: int| Reception::Timeout),
    decreases n,
{
    if n > 0 {
        lemma_timeouts((n - 1) as nat);
        assert(receptions(Seq::empty(), false, n) =~= Seq::new(n, |i: int| Reception::Timeout));
    }
}

/// Law: receives hand out the queued responses in the order they were
/// injected; then a transport armed to drop reports one disconnection, an
/// unarmed one a timeout, and every later receive on the empty queue times
/// out.
pub proof fn lemma_receive_sequence(msgs: Seq<Seq<u8>>, armed: bool, extra: nat)
    ensures
        receptions(msgs, armed, msgs.len() + 1 + extra) == msgs.map_values(
            |m: Seq<u8>| Reception::Message(m),
        ) + seq![if armed { Reception::Disconnected } else { Reception::Timeout }] + Seq::new(
            extra,
            |i: int| Reception::Timeout,
        ),
    decreases msgs.len(),
{
    let last = if armed {
        Reception::Disconnected
    } else {
        Reception::Timeout
    };
    let tail = Seq::new(extra, |i: int| Reception::Timeout);
    if msgs.len() == 0 {
        lemma_timeouts(extra);
        assert(msgs =~= Seq::<Seq<u8>>::empty());
        assert(((1 + extra) - 1) as nat == extra);
        assert(receptions(msgs, armed, 1 + extra) == seq![last] + receptions(msgs, false, extra));
        assert(msgs.map_values(|m: Seq<u8>| Reception::Message(m)) =~= Seq::<Reception>::empty());
        assert(receptions(msgs, armed, 1 + extra) =~= seq![last] + tail);
        assert(Seq::<Reception>::empty() + seq![last] + tail =~= seq![last] + tail);
    } else {
        let rest = msgs.drop_first();
        lemma_receive_sequence(rest, armed, extra);
        assert((msgs.len() + 1 + extra - 1) as nat == rest.len() + 1 + extra);
        let mm = msgs.map_values(|m: Seq<u8>| Reception::Message(m));
        let rm = rest.map_values(|m: Seq<u8>| Reception::Message(m));
        assert(mm =~= seq![Reception::Message(msgs[0])] + rm);
        assert(receptions(msgs, armed, msgs.len() + 1 + extra) =~= seq![Reception::Message(msgs[0])]
            + (rm + seq![last] + tail));
        assert(mm + seq![last] + tail =~= seq![Reception::Message(msgs[0])] + (rm + seq![last]
            + tail));
    }
}

/// Law: after sending each of `ds` in order onto an empty log, the log holds
/// exactly `ds`, in send order.
pub proof fn lemma_sends_in_order(ds: Seq<Seq<u8>>)
    ensures
        sent_after(Seq::empty(), ds) == ds,
    decreases ds.len(),
{
    if ds.len() > 0 {
        lemma_sends_in_order(ds.drop_last());
        assert(ds.drop_last().push(ds.last()) =~= ds);
    }
}

} // verus!
