//! Outgoing paths of a device.
//!
//! Frames are a stream of states: only the newest one matters, so a frame that
//! was not sent yet is overwritten. Commands and responses matter one by one:
//! they wait in bounded queues, and one that finds its queue full is dropped and
//! counted.

use crate::comm::metrics::{record_dropped_command, record_dropped_response, DropMetrics};
use crate::protocol::{CommandResponse, Frame, COMMAND_LEN};
use embassy_sync::blocking_mutex::raw::CriticalSectionRawMutex;
use embassy_sync::channel::Channel;
use embassy_sync::signal::Signal;
use vstd::prelude::*;

verus! {

/// How many commands, and how many responses, may wait to be sent.
pub const OUTBOUND_QUEUE_DEPTH: usize = 8;

/// Where a command goes.
#[derive(Debug, Clone, Copy, PartialEq, Eq)]
pub enum CommandDest {
    /// To everybody who listens.
    Broadcast,
    /// To one address.
    Unicast([u8; 6]),
}

/// An encoded command and where it goes.
#[derive(Debug, Clone, Copy, PartialEq, Eq)]
pub struct OutboundCommand {
    pub dest: CommandDest,
    pub bytes: [u8; COMMAND_LEN],
}

impl OutboundCommand {
    /// A command for everybody.
    pub fn broadcast(bytes: [u8; COMMAND_LEN]) -> (c: OutboundCommand)
        ensures
            c == (OutboundCommand { dest: CommandDest::Broadcast, bytes }),
    {
        OutboundCommand { dest: CommandDest::Broadcast, bytes }
    }

    /// A command for one address.
    pub fn unicast(mac: [u8; 6], bytes: [u8; COMMAND_LEN]) -> (c: OutboundCommand)
        ensures
            c == (OutboundCommand { dest: CommandDest::Unicast(mac), bytes }),
    {
        OutboundCommand { dest: CommandDest::Unicast(mac), bytes }
    }
}

// ---- Frames: one slot, the newest wins ----

/// The slot for the next frame, an `embassy_sync::signal::Signal`.
#[verifier::external_body]
pub struct FrameSignal {
    slot: Signal<CriticalSectionRawMutex, Frame>,
}

/// The frame that waits in the slot.
pub uninterp spec fn pending_frame(signal: FrameSignal) -> Option<Frame>;

impl View for FrameSignal {
    type V = Option<Frame>;

    open spec fn view(&self) -> Option<Frame> {
        pending_frame(*self)
    }
}

/// `Signal::new`: nothing waits.
#[verifier::external_body]
fn frame_slot_new() -> (signal: FrameSignal)
    ensures
        pending_frame(signal) == None::<Frame>,
{
    FrameSignal { slot: Signal::new() }
}

/// `Signal::signal`: the value waits, whatever waited before is gone.
#[verifier::external_body]
fn frame_slot_put(signal: &mut FrameSignal, frame: Frame)
    ensures
        pending_frame(*final(signal)) == Some(frame),
{
    signal.slot.signal(frame)
}

/// `Signal::try_take`: hands out what waits and leaves nothing.
#[verifier::external_body]
fn frame_slot_take(signal: &mut FrameSignal) -> (frame: Option<Frame>)
    ensures
        frame == pending_frame(*old(signal)),
        pending_frame(*final(signal)) == None::<Frame>,
{
    signal.slot.try_take()
}

impl FrameSignal {
    /// An empty slot.
    pub fn new() -> (s: FrameSignal)
        ensures
            s@ == None::<Frame>,
    {
        frame_slot_new()
    }

    /// Leaves a frame to be sent, in place of one that was not sent yet.
    pub fn signal(&mut self, frame: Frame)
        ensures
            final(self)@ == Some(frame),
    {
        frame_slot_put(self, frame)
    }

    /// Takes the frame that waits.
    pub fn try_take(&mut self) -> (frame: Option<Frame>)
        ensures
            frame == old(self)@,
            final(self)@ == None::<Frame>,
    {
        frame_slot_take(self)
    }
}

// ---- Commands: a bounded queue ----

/// The queue of outgoing commands, an `embassy_sync::channel::Channel` of depth
/// `OUTBOUND_QUEUE_DEPTH`.
#[verifier::external_body]
pub struct CommandOutChannel {
    queue: Channel<CriticalSectionRawMutex, OutboundCommand, OUTBOUND_QUEUE_DEPTH>,
}

/// The commands that wait, oldest first.
pub uninterp spec fn queued_commands(chan: CommandOutChannel) -> Seq<OutboundCommand>;

impl View for CommandOutChannel {
    type V = Seq<OutboundCommand>;

    open spec fn view(&self) -> Seq<OutboundCommand> {
        queued_commands(*self)
    }
}

/// `Channel::new`: nothing waits.
#[verifier::external_body]
fn command_queue_new() -> (chan: CommandOutChannel)
    ensures
        queued_commands(chan) == Seq::<OutboundCommand>::empty(),
{
    CommandOutChannel { queue: Channel::new() }
}

/// `Channel::try_send`: the message waits behind the others, unless the channel
/// holds as many as its depth; then nothing changes.
#[verifier::external_body]
fn command_queue_send(chan: &mut CommandOutChannel, cmd: OutboundCommand) -> (sent: bool)
    ensures
        sent == (queued_commands(*old(chan)).len() < OUTBOUND_QUEUE_DEPTH),
        queued_commands(*final(chan)) == (if sent {
            queued_commands(*old(chan)).push(cmd)
        } else {
            queued_commands(*old(chan))
        }),
{
    chan.queue.try_send(cmd).is_ok()
}

/// `Channel::try_receive`: hands out the oldest message, if one waits.
#[verifier::external_body]
fn command_queue_receive(chan: &mut CommandOutChannel) -> (cmd: Option<OutboundCommand>)
    ensures
        cmd == (if queued_commands(*old(chan)).len() > 0 {
            Some(queued_commands(*old(chan))[0])
        } else {
            None
        }),
        queued_commands(*final(chan)) == (if queued_commands(*old(chan)).len() > 0 {
            queued_commands(*old(chan)).subrange(1, queued_commands(*old(chan)).len() as int)
        } else {
            queued_commands(*old(chan))
        }),
{
    chan.queue.try_receive().ok()
}

impl CommandOutChannel {
    /// An empty queue.
    pub fn new() -> (c: CommandOutChannel)
        ensures
            c@ == Seq::<OutboundCommand>::empty(),
    {
        command_queue_new()
    }

    /// Takes the oldest command.
    pub fn try_receive(&mut self) -> (cmd: Option<OutboundCommand>)
        ensures
            cmd == (if old(self)@.len() > 0 {
                Some(old(self)@[0])
            } else {
                None
            }),
            final(self)@ == (if old(self)@.len() > 0 {
                old(self)@.subrange(1, old(self)@.len() as int)
            } else {
                old(self)@
            }),
    {
        command_queue_receive(self)
    }
}

// ---- Responses: a bounded queue ----

/// The queue of outgoing responses, an `embassy_sync::channel::Channel` of depth
/// `OUTBOUND_QUEUE_DEPTH`.
#[verifier::external_body]
pub struct ResponseChannel {
    queue: Channel<CriticalSectionRawMutex, CommandResponse, OUTBOUND_QUEUE_DEPTH>,
}

/// The responses that wait, oldest first.
pub uninterp spec fn queued_responses(chan: ResponseChannel) -> Seq<CommandResponse>;

impl View for ResponseChannel {
    type V = Seq<CommandResponse>;

    open spec fn view(&self) -> Seq<CommandResponse> {
        queued_responses(*self)
    }
}

/// `Channel::new`: nothing waits.
#[verifier::external_body]
fn response_queue_new() -> (chan: ResponseChannel)
    ensures
        queued_responses(chan) == Seq::<CommandResponse>::empty(),
{
    ResponseChannel { queue: Channel::new() }
}

/// `Channel::try_send`: the message waits behind the others, unless the channel
/// holds as many as its depth; then nothing changes.
#[verifier::external_body]
fn response_queue_send(chan: &mut ResponseChannel, resp: CommandResponse) -> (sent: bool)
    ensures
        sent == (queued_responses(*old(chan)).len() < OUTBOUND_QUEUE_DEPTH),
        queued_responses(*final(chan)) == (if sent {
            queued_responses(*old(chan)).push(resp)
        } else {
            queued_responses(*old(chan))
        }),
{
    chan.queue.try_send(resp).is_ok()
}

/// `Channel::try_receive`: hands out the oldest message, if one waits.
#[verifier::external_body]
fn response_queue_receive(chan: &mut ResponseChannel) -> (resp: Option<CommandResponse>)
    ensures
        resp == (if queued_responses(*old(chan)).len() > 0 {
            Some(queued_responses(*old(chan))[0])
        } else {
            None
        }),
        queued_responses(*final(chan)) == (if queued_responses(*old(chan)).len() > 0 {
            queued_responses(*old(chan)).subrange(1, queued_responses(*old(chan)).len() as int)
        } else {
            queued_responses(*old(chan))
        }),
{
    chan.queue.try_receive().ok()
}

/// `Channel::free_capacity`: the depth less the messages that wait, of which there
/// are never more than the depth.
#[verifier::external_body]
fn response_queue_free(chan: &ResponseChannel) -> (free: usize)
    ensures
        free == OUTBOUND_QUEUE_DEPTH - queued_responses(*chan).len(),
{
    chan.queue.free_capacity()
}

impl ResponseChannel {
    /// An empty queue.
    pub fn new() -> (c: ResponseChannel)
        ensures
            c@ == Seq::<CommandResponse>::empty(),
    {
        response_queue_new()
    }

    /// Takes the oldest response.
    pub fn try_receive(&mut self) -> (resp: Option<CommandResponse>)
        ensures
            resp == (if old(self)@.len() > 0 {
                Some(old(self)@[0])
            } else {
                None
            }),
            final(self)@ == (if old(self)@.len() > 0 {
                old(self)@.subrange(1, old(self)@.len() as int)
            } else {
                old(self)@
            }),
    {
        response_queue_receive(self)
    }

    /// How many more responses may wait.
    pub fn free_capacity(&self) -> (free: usize)
        ensures
            free == OUTBOUND_QUEUE_DEPTH - self@.len(),
    {
        response_queue_free(self)
    }
}

// ---- Queueing with drop counting ----

/// A queue and its drop count after a message was offered: the message waits at
/// the end, or the queue was full and the message was counted as dropped.
pub open spec fn offered<T>(
    queue: Seq<T>,
    drops: u32,
    message: T,
    next_queue: Seq<T>,
    next_drops: u32,
) -> bool {
    if queue.len() < OUTBOUND_QUEUE_DEPTH {
        next_queue == queue.push(message) && next_drops == drops
    } else {
        next_queue == queue && next_drops == crate::comm::metrics::bumped(drops)
    }
}

/// Queues a command; a full queue drops it and counts that.
pub fn enqueue_command(chan: &mut CommandOutChannel, metrics: &mut DropMetrics, cmd: OutboundCommand)
    ensures
        offered(
            old(chan)@,
            old(metrics).commands,
            cmd,
            final(chan)@,
            final(metrics).commands,
        ),
        final(metrics).responses == old(metrics).responses,
{
    if !command_queue_send(chan, cmd) {
        record_dropped_command(metrics);
    }
}

/// Queues a response; a full queue drops it and counts that.
pub fn enqueue_response(chan: &mut ResponseChannel, metrics: &mut DropMetrics, resp: CommandResponse)
    ensures
        offered(
            old(chan)@,
            old(metrics).responses,
            resp,
            final(chan)@,
            final(metrics).responses,
        ),
        final(metrics).commands == old(metrics).commands,
{
    if !response_queue_send(chan, resp) {
        record_dropped_response(metrics);
    }
}

/// Offering a message never disturbs what already waits: the queue before is the
/// front of the queue after.
pub proof fn lemma_offer_keeps_the_waiting<T>(
    queue: Seq<T>,
    drops: u32,
    message: T,
    next_queue: Seq<T>,
    next_drops: u32,
)
    requires
        offered(queue, drops, message, next_queue, next_drops),
    ensures
        queue.len() <= next_queue.len(),
        next_queue.subrange(0, queue.len() as int) == queue,
{
    assert(next_queue.subrange(0, queue.len() as int) =~= queue);
}

/// A message that finds fewer than eight waiting waits behind them as it was offered and
/// is not counted; one that finds eight is gone and counted once.
pub proof fn lemma_message_waits_or_counts<T>(
    queue: Seq<T>,
    drops: u32,
    message: T,
    next_queue: Seq<T>,
    next_drops: u32,
)
    requires
        offered(queue, drops, message, next_queue, next_drops),
    ensures
        queue.len() < 8 ==> next_queue.len() == queue.len() + 1 && next_queue[queue.len() as int] == message
            && next_drops == drops,
        queue.len() >= 8 ==> next_queue == queue,
        queue.len() >= 8 && drops < 0xFFFF_FFFF ==> next_drops == drops + 1,
        queue.len() >= 8 && drops == 0xFFFF_FFFF ==> next_drops == 0,
{
}

/// The queue contents after messages were offered one after another.
pub open spec fn after_offers<T>(queue: Seq<T>, messages: Seq<T>) -> Seq<T>
    decreases messages.len(),
{
    if messages.len() == 0 {
        queue
    } else {
        let before = after_offers(queue, messages.drop_last());
        if before.len() < OUTBOUND_QUEUE_DEPTH {
            before.push(messages.last())
        } else {
            before
        }
    }
}

/// Messages offered to an empty queue come out first in, first out: the first
/// `OUTBOUND_QUEUE_DEPTH` of them wait in the order they were offered, the rest
/// are dropped.
pub proof fn lemma_queue_is_bounded_fifo<T>(messages: Seq<T>)
    ensures
        after_offers(Seq::<T>::empty(), messages) == messages.subrange(
            0,
            if messages.len() < OUTBOUND_QUEUE_DEPTH {
                messages.len() as int
            } else {
                OUTBOUND_QUEUE_DEPTH as int
            },
        ),
    decreases messages.len(),
{
    if messages.len() > 0 {
        lemma_queue_is_bounded_fifo(messages.drop_last());
        assert(after_offers(Seq::<T>::empty(), messages) =~= messages.subrange(
            0,
            if messages.len() < OUTBOUND_QUEUE_DEPTH {
                messages.len() as int
            } else {
                OUTBOUND_QUEUE_DEPTH as int
            },
        ));
    } else {
        assert(messages.subrange(0, 0) =~= Seq::<T>::empty());
    }
}

} // verus!
