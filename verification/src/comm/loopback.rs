//! An in-memory link between two devices, for demonstrations and tests.
//!
//! Each direction is a `Wire`: an unbounded queue with a sending and a receiving
//! end. A device holds the sending end of one wire and the receiving end of the
//! other. The ends know who they are; the wire is handed to them on every call.

use super::link::Packet;
use std::collections::VecDeque;
use vstd::prelude::*;

verus! {

/// Longest frame that the link is meant for.
pub const MAX_FRAME_LEN: usize = 64;

/// The address that stands for everybody. On a link between two devices it makes
/// no difference.
pub const BROADCAST: [u8; 6] = [0xFF, 0xFF, 0xFF, 0xFF, 0xFF, 0xFF];

/// Failures of either end.
#[derive(Debug, Clone, Copy, PartialEq, Eq, Structural)]
pub enum LoopbackError {
    /// The other end is gone, or this end does not work in that direction.
    Disconnected,
}

/// What travels: the sender's address and the bytes.
#[derive(Debug)]
pub struct WirePayload {
    pub src: [u8; 6],
    pub bytes: Vec<u8>,
}

impl View for WirePayload {
    type V = ([u8; 6], Seq<u8>);

    open spec fn view(&self) -> ([u8; 6], Seq<u8>) {
        (self.src, self.bytes@)
    }
}

/// One direction of the link.
#[derive(Debug)]
pub struct Wire {
    pub queue: VecDeque<WirePayload>,
    pub sender_gone: bool,
    pub receiver_gone: bool,
}

impl View for Wire {
    type V = Seq<([u8; 6], Seq<u8>)>;

    open spec fn view(&self) -> Seq<([u8; 6], Seq<u8>)> {
        self.queue@.map_values(|p: WirePayload| p@)
    }
}

impl Wire {
    /// A wire with nothing on it and both ends in place.
    pub fn new() -> (w: Wire)
        ensures
            w@ == Seq::<([u8; 6], Seq<u8>)>::empty(),
            !w.sender_gone,
            !w.receiver_gone,
    {
        let w = Wire { queue: VecDeque::new(), sender_gone: false, receiver_gone: false };
        assert(w@ =~= Seq::<([u8; 6], Seq<u8>)>::empty());
        w
    }
}

/// The sending end of a wire.
#[derive(Debug)]
pub struct LoopbackSendEnd {
    pub my_mac: [u8; 6],
}

impl LoopbackSendEnd {
    /// Puts bytes on the wire, under this end's own address. The destination does
    /// not matter: there is one device at the other end.
    pub fn send(&mut self, wire: &mut Wire, _dst: [u8; 6], bytes: &[u8]) -> (r: Result<(), LoopbackError>)
        ensures
            *final(self) == *old(self),
            r is Err <==> old(wire).receiver_gone,
            final(wire)@ == (if old(wire).receiver_gone {
                old(wire)@
            } else {
                old(wire)@.push((old(self).my_mac, bytes@))
            }),
            final(wire).sender_gone == old(wire).sender_gone,
            final(wire).receiver_gone == old(wire).receiver_gone,
    {
        if wire.receiver_gone {
            return Err(LoopbackError::Disconnected);
        }
        let mut copy: Vec<u8> = Vec::new();
        copy.extend_from_slice(bytes);
        assert(copy@ =~= bytes@);
        wire.queue.push_back(WirePayload { src: self.my_mac, bytes: copy });
        assert(wire@ =~= old(wire)@.push((old(self).my_mac, bytes@)));
        Ok(())
    }

    /// A sending end receives nothing.
    pub fn recv(&mut self) -> (r: Result<WirePayload, LoopbackError>)
        ensures
            r == Err::<WirePayload, LoopbackError>(LoopbackError::Disconnected),
            *final(self) == *old(self),
    {
        Err(LoopbackError::Disconnected)
    }

    /// Gives the end up. What is already on the wire can still be received.
    pub fn close(self, wire: &mut Wire)
        ensures
            final(wire).sender_gone,
            final(wire)@ == old(wire)@,
            final(wire).receiver_gone == old(wire).receiver_gone,
    {
        wire.sender_gone = true;
    }
}

/// The receiving end of a wire, with the last packet that it took.
#[derive(Debug)]
pub struct LoopbackRecvEnd {
    pub scratch: Vec<u8>,
    pub scratch_src: [u8; 6],
}

/// What one look at a wire found.
#[derive(Debug, Clone, Copy, PartialEq, Eq, Structural)]
pub enum TryRecv {
    /// A packet, now in the receiving end.
    Received,
    /// Nothing yet: look again later.
    Empty,
}

/// What a look at a wire finds.
pub open spec fn found(queue: Seq<([u8; 6], Seq<u8>)>, sender_gone: bool) -> Result<TryRecv, LoopbackError> {
    if queue.len() > 0 {
        Ok(TryRecv::Received)
    } else if sender_gone {
        Err(LoopbackError::Disconnected)
    } else {
        Ok(TryRecv::Empty)
    }
}

impl LoopbackRecvEnd {
    /// The last packet that this end took.
    pub open spec fn last(self) -> ([u8; 6], Seq<u8>) {
        (self.scratch_src, self.scratch@)
    }

    /// A receiving end sends nothing.
    pub fn send(&mut self, _dst: [u8; 6], _bytes: &[u8]) -> (r: Result<(), LoopbackError>)
        ensures
            r == Err::<(), LoopbackError>(LoopbackError::Disconnected),
            *final(self) == *old(self),
    {
        Err(LoopbackError::Disconnected)
    }

    /// Takes the oldest packet off the wire, if there is one.
    pub fn recv(&mut self, wire: &mut Wire) -> (r: Result<TryRecv, LoopbackError>)
        ensures
            r == found(old(wire)@, old(wire).sender_gone),
            if old(wire)@.len() > 0 {
                &&& final(self).last() == old(wire)@[0]
                &&& final(wire)@ == old(wire)@.drop_first()
            } else {
                &&& *final(self) == *old(self)
                &&& final(wire)@ == old(wire)@
            },
            final(wire).sender_gone == old(wire).sender_gone,
            final(wire).receiver_gone == old(wire).receiver_gone,
    {
        match wire.queue.pop_front() {
            Some(payload) => {
                self.scratch_src = payload.src;
                self.scratch = payload.bytes;
                assert(wire@ =~= old(wire)@.drop_first());
                Ok(TryRecv::Received)
            },
            None => {
                if wire.sender_gone {
                    Err(LoopbackError::Disconnected)
                } else {
                    Ok(TryRecv::Empty)
                }
            },
        }
    }

    /// The last packet that this end took.
    pub fn packet(&self) -> (p: Packet<'_, [u8; 6]>)
        ensures
            p.src == self.scratch_src,
            p.data@ == self.scratch@,
    {
        Packet { src: self.scratch_src, data: self.scratch.as_slice() }
    }

    /// Gives the end up: from now on sending fails.
    pub fn close(self, wire: &mut Wire)
        ensures
            final(wire).receiver_gone,
            final(wire)@ == old(wire)@,
            final(wire).sender_gone == old(wire).sender_gone,
    {
        wire.receiver_gone = true;
    }
}

/// Two connected devices: the wire from `a` to `b`, the wire back, and the four
/// ends of them.
pub struct Loopback {
    pub ab: Wire,
    pub ba: Wire,
    /// Sends on `ab`.
    pub a_send: LoopbackSendEnd,
    /// Receives from `ba`.
    pub a_recv: LoopbackRecvEnd,
    /// Sends on `ba`.
    pub b_send: LoopbackSendEnd,
    /// Receives from `ab`.
    pub b_recv: LoopbackRecvEnd,
}

/// Connects two devices.
pub fn pair(mac_a: [u8; 6], mac_b: [u8; 6]) -> (l: Loopback)
    ensures
        l.a_send.my_mac == mac_a,
        l.b_send.my_mac == mac_b,
        l.ab@ == Seq::<([u8; 6], Seq<u8>)>::empty(),
        l.ba@ == Seq::<([u8; 6], Seq<u8>)>::empty(),
        !l.ab.sender_gone && !l.ab.receiver_gone,
        !l.ba.sender_gone && !l.ba.receiver_gone,
        l.a_recv.scratch@.len() == 0,
        l.a_recv.scratch_src@ == Seq::new(6, |i: int| 0u8),
        l.b_recv.scratch@.len() == 0,
        l.b_recv.scratch_src@ == Seq::new(6, |i: int| 0u8),
{
    let l = Loopback {
        ab: Wire::new(),
        ba: Wire::new(),
        a_send: LoopbackSendEnd { my_mac: mac_a },
        a_recv: LoopbackRecvEnd { scratch: Vec::with_capacity(MAX_FRAME_LEN), scratch_src: [0; 6] },
        b_send: LoopbackSendEnd { my_mac: mac_b },
        b_recv: LoopbackRecvEnd { scratch: Vec::with_capacity(MAX_FRAME_LEN), scratch_src: [0; 6] },
    };
    assert(l.a_recv.scratch_src@ =~= Seq::new(6, |i: int| 0u8));
    assert(l.b_recv.scratch_src@ =~= Seq::new(6, |i: int| 0u8));
    l
}

// ---- Laws ----

/// A wire after `n` packets were taken off it.
pub open spec fn after_taking(queue: Seq<([u8; 6], Seq<u8>)>, n: nat) -> Seq<([u8; 6], Seq<u8>)>
    decreases n,
{
    if n == 0 {
        queue
    } else {
        after_taking(queue, (n - 1) as nat).drop_first()
    }
}

/// A look at a wire finds a packet exactly if one is on it, even after the sender is gone;
/// an empty wire is cut off exactly if the sender is gone.
pub proof fn lemma_wire_is_drained_before_it_is_cut(queue: Seq<([u8; 6], Seq<u8>)>, sender_gone: bool)
    ensures
        queue.len() > 0 <==> found(queue, sender_gone) == Ok::<TryRecv, LoopbackError>(TryRecv::Received),
        queue.len() == 0 && !sender_gone <==> found(queue, sender_gone) == Ok::<TryRecv, LoopbackError>(TryRecv::Empty),
        queue.len() == 0 && sender_gone <==> found(queue, sender_gone) is Err,
{
}

/// Packets arrive in the order in which they were sent, each exactly once: the
/// packet taken after `n` others is the one that was sent after `n` others, and
/// once as many were taken as were sent the wire is empty.
pub proof fn lemma_packets_arrive_in_order(queue: Seq<([u8; 6], Seq<u8>)>, n: nat)
    requires
        n <= queue.len(),
    ensures
        after_taking(queue, n) == queue.skip(n as int),
        n < queue.len() ==> after_taking(queue, n)[0] == queue[n as int],
        n == queue.len() ==> after_taking(queue, n).len() == 0,
    decreases n,
{
    if n > 0 {
        lemma_packets_arrive_in_order(queue, (n - 1) as nat);
    }
    assert(after_taking(queue, n) =~= queue.skip(n as int));
}

} // verus!
