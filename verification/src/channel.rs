//! One direction of an in-memory loopback connection: a FIFO of envelopes
//! with parked receivers. A push hands its envelope to the oldest parked
//! receiver, else buffers it; a pop takes the oldest buffered envelope,
//! else parks. Closing drops the buffer and every parked receiver, and
//! rejects every later push and pop.
//!
//! The parked receivers are opaque handles (`W`) owned by the caller.

use vstd::prelude::*;
use std::collections::VecDeque;

verus! {

/// The content of a channel.
pub struct ChannelView<W> {
    pub closed: bool,
    pub buffer: Seq<Vec<u8>>,
    pub waiters: Seq<W>,
}

/// The outcome of a push.
#[derive(Debug)]
pub enum PushOutcome<W> {
    /// The channel is closed: the envelope is refused.
    Closed,
    /// Hand the envelope to this (the oldest) parked receiver.
    Deliver(W, Vec<u8>),
    /// The envelope was buffered.
    Buffered,
}

/// The outcome of a pop.
#[derive(Debug)]
pub enum PopOutcome {
    /// The channel is closed.
    Closed,
    /// The oldest buffered envelope.
    Ready(Vec<u8>),
    /// Nothing buffered: park a receiver with `park`.
    Park,
}

/// A loopback channel direction.
pub struct LoopbackChannel<W> {
    closed: bool,
    buffer: VecDeque<Vec<u8>>,
    waiters: VecDeque<W>,
}

impl<W> View for LoopbackChannel<W> {
    type V = ChannelView<W>;

    closed spec fn view(&self) -> ChannelView<W> {
        ChannelView { closed: self.closed, buffer: self.buffer@, waiters: self.waiters@ }
    }
}

/// The channel after a push (see `push`).
pub open spec fn after_push<W>(c: ChannelView<W>, bytes: Vec<u8>) -> ChannelView<W> {
    if c.closed {
        c
    } else if c.waiters.len() > 0 {
        ChannelView { waiters: c.waiters.drop_first(), ..c }
    } else {
        ChannelView { buffer: c.buffer.push(bytes), ..c }
    }
}

/// The channel after a pop (see `pop`).
pub open spec fn after_pop<W>(c: ChannelView<W>) -> ChannelView<W> {
    if c.closed || c.buffer.len() == 0 {
        c
    } else {
        ChannelView { buffer: c.buffer.drop_first(), ..c }
    }
}

/// The channel after a close: closed, nothing buffered, nobody parked;
/// a closed channel is left as it is.
pub open spec fn after_channel_close<W>(c: ChannelView<W>) -> ChannelView<W> {
    if c.closed {
        c
    } else {
        ChannelView { closed: true, buffer: Seq::empty(), waiters: Seq::empty() }
    }
}

impl<W> LoopbackChannel<W> {
    /// An open, empty channel.
    pub fn new() -> (res: Self)
        ensures
            !res@.closed,
            res@.buffer == Seq::<Vec<u8>>::empty(),
            res@.waiters == Seq::<W>::empty(),
    {
        LoopbackChannel { closed: false, buffer: VecDeque::new(), waiters: VecDeque::new() }
    }

    /// Whether the channel is closed.
    pub fn is_closed(&self) -> (res: bool)
        ensures
            res == self@.closed,
    {
        self.closed
    }

    /// Pushes one envelope: refused when closed, handed to the oldest
    /// parked receiver when there is one, buffered otherwise.
    pub fn push(&mut self, bytes: Vec<u8>) -> (res: PushOutcome<W>)
        ensures
            final(self)@ == after_push(old(self)@, bytes),
            old(self)@.closed ==> res is Closed,
            !old(self)@.closed && old(self)@.waiters.len() > 0 ==> (res matches PushOutcome::Deliver(w, b)
                && w == old(self)@.waiters[0] && b == bytes),
            !old(self)@.closed && old(self)@.waiters.len() == 0 ==> res is Buffered,
    {
        if self.closed {
            return PushOutcome::Closed;
        }
        match self.waiters.pop_front() {
            Some(w) => PushOutcome::Deliver(w, bytes),
            None => {
                self.buffer.push_back(bytes);
                PushOutcome::Buffered
            },
        }
    }

    /// Pops the oldest buffered envelope: `Closed` when closed, `Park`
    /// when nothing is buffered.
    pub fn pop(&mut self) -> (res: PopOutcome)
        ensures
            final(self)@ == after_pop(old(self)@),
            old(self)@.closed ==> res is Closed,
            !old(self)@.closed && old(self)@.buffer.len() > 0 ==> res == PopOutcome::Ready(old(self)@.buffer[0]),
            !old(self)@.closed && old(self)@.buffer.len() == 0 ==> res is Park,
    {
        if self.closed {
            return PopOutcome::Closed;
        }
        match self.buffer.pop_front() {
            Some(bytes) => PopOutcome::Ready(bytes),
            None => PopOutcome::Park,
        }
    }

    /// Parks a receiver behind the ones already parked; a closed channel
    /// hands it back (to be failed).
    pub fn park(&mut self, waiter: W) -> (res: Option<W>)
        ensures
            old(self)@.closed ==> final(self)@ == old(self)@ && res == Some(waiter),
            !old(self)@.closed ==> res is None
                && final(self)@ == (ChannelView { waiters: old(self)@.waiters.push(waiter), ..old(self)@ }),
    {
        if self.closed {
            return Some(waiter);
        }
        self.waiters.push_back(waiter);
        None
    }

    /// Closes the channel, dropping the buffer and returning the parked
    /// receivers (to be failed); a closed channel returns none.
    pub fn close(&mut self) -> (res: Vec<W>)
        ensures
            final(self)@ == after_channel_close(old(self)@),
            old(self)@.closed ==> res@.len() == 0,
            !old(self)@.closed ==> res@ == old(self)@.waiters,
    {
        let mut dropped: Vec<W> = Vec::new();
        if self.closed {
            return dropped;
        }
        self.closed = true;
        self.buffer = VecDeque::new();
        let ghost parked = self.waiters@;
        let mut waiters: VecDeque<W> = VecDeque::new();
        std::mem::swap(&mut waiters, &mut self.waiters);
        let ghost total = waiters@;
        while waiters.len() > 0
            invariant
                total == dropped@ + waiters@,
            decreases waiters@.len(),
        {
            match waiters.pop_front() {
                Some(w) => {
                    dropped.push(w);
                    assert(total =~= dropped@ + waiters@);
                },
                None => {},
            }
        }
        assert(dropped@ =~= total);
        dropped
    }
}

/// The envelope a pop hands out, if any.
pub open spec fn pop_value<W>(c: ChannelView<W>) -> Option<Vec<u8>> {
    if !c.closed && c.buffer.len() > 0 {
        Some(c.buffer[0])
    } else {
        None
    }
}

/// Envelopes come out in the order they went in: on an open channel with
/// no parked receiver, two pushes then two pops return them in order.
pub proof fn law_channel_fifo<W>(c: ChannelView<W>, first: Vec<u8>, second: Vec<u8>)
    requires
        !c.closed,
        c.waiters.len() == 0,
        c.buffer.len() == 0,
    ensures
        pop_value(after_push(after_push(c, first), second)) == Some(first),
        pop_value(after_pop(after_push(after_push(c, first), second))) == Some(second),
        after_pop(after_pop(after_push(after_push(c, first), second))).buffer.len() == 0,
{
    let c2 = after_push(after_push(c, first), second);
    assert(c2.buffer =~= seq![first, second]);
    assert(after_pop(c2).buffer =~= seq![second]);
    assert(after_pop(after_pop(c2)).buffer =~= Seq::<Vec<u8>>::empty());
}

/// A closed channel stays closed and inert: pushes and pops change
/// nothing and hand nothing out, and closing again changes nothing.
pub proof fn law_closed_channel_inert<W>(c: ChannelView<W>, bytes: Vec<u8>)
    requires
        c.closed,
    ensures
        after_push(c, bytes) == c,
        after_pop(c) == c,
        pop_value(c) is None,
        after_channel_close(c) == c,
{
}

/// Closing is idempotent.
pub proof fn law_channel_close_idempotent<W>(c: ChannelView<W>)
    ensures
        after_channel_close(after_channel_close(c)) == after_channel_close(c),
        after_channel_close(c).closed,
{
}

/// Which end of the connection an end is.
#[derive(Debug, Clone, Copy, PartialEq, Eq, Structural)]
pub enum LoopbackDirection {
    ClientToServer,
    ServerToClient,
}

/// A bidirectional in-memory connection: one channel per direction;
/// both close together.
pub struct LoopbackConnection<W> {
    pub client_to_server: LoopbackChannel<W>,
    pub server_to_client: LoopbackChannel<W>,
}

impl<W> LoopbackConnection<W> {
    /// An open connection with both directions empty.
    pub fn new() -> (res: Self)
        ensures
            !res.client_to_server@.closed && !res.server_to_client@.closed,
            res.client_to_server@.buffer.len() == 0 && res.server_to_client@.buffer.len() == 0,
            res.client_to_server@.waiters.len() == 0 && res.server_to_client@.waiters.len() == 0,
    {
        LoopbackConnection { client_to_server: LoopbackChannel::new(), server_to_client: LoopbackChannel::new() }
    }

    /// Sends from the end `direction`: pushes on that end's outbound
    /// channel.
    pub fn send(&mut self, direction: LoopbackDirection, bytes: Vec<u8>) -> (res: PushOutcome<W>)
        ensures
            direction == LoopbackDirection::ClientToServer ==> final(self).client_to_server@
                == after_push(old(self).client_to_server@, bytes)
                && final(self).server_to_client@ == old(self).server_to_client@,
            direction == LoopbackDirection::ServerToClient ==> final(self).server_to_client@
                == after_push(old(self).server_to_client@, bytes)
                && final(self).client_to_server@ == old(self).client_to_server@,
    {
        match direction {
            LoopbackDirection::ClientToServer => self.client_to_server.push(bytes),
            LoopbackDirection::ServerToClient => self.server_to_client.push(bytes),
        }
    }

    /// Receives at the end `direction`: pops that end's inbound channel
    /// (the peer's outbound one).
    pub fn recv(&mut self, direction: LoopbackDirection) -> (res: PopOutcome)
        ensures
            direction == LoopbackDirection::ClientToServer ==> final(self).server_to_client@
                == after_pop(old(self).server_to_client@)
                && final(self).client_to_server@ == old(self).client_to_server@
                && match pop_value(old(self).server_to_client@) {
                    Some(b) => res == PopOutcome::Ready(b),
                    None => !(res is Ready),
                },
            direction == LoopbackDirection::ServerToClient ==> final(self).client_to_server@
                == after_pop(old(self).client_to_server@)
                && final(self).server_to_client@ == old(self).server_to_client@
                && match pop_value(old(self).client_to_server@) {
                    Some(b) => res == PopOutcome::Ready(b),
                    None => !(res is Ready),
                },
    {
        match direction {
            LoopbackDirection::ClientToServer => self.server_to_client.pop(),
            LoopbackDirection::ServerToClient => self.client_to_server.pop(),
        }
    }

    /// Closes both directions; returns the parked receivers of each.
    pub fn close(&mut self) -> (res: (Vec<W>, Vec<W>))
        ensures
            final(self).client_to_server@ == after_channel_close(old(self).client_to_server@),
            final(self).server_to_client@ == after_channel_close(old(self).server_to_client@),
    {
        let a = self.client_to_server.close();
        let b = self.server_to_client.close();
        (a, b)
    }
}

} // verus!
