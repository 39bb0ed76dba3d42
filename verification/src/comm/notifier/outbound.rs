//! What a device sends next, and to whom.

use super::signals::{CommandDest, CommandOutChannel, FrameSignal, OutboundCommand, ResponseChannel};
use crate::bits;
use crate::comm::peer_registry::{self, PeerEntry, PeerRegistry};
use crate::protocol::{CommandResponse, Frame};
use vstd::prelude::*;

verus! {

/// A message that is ready to be sent.
#[derive(Debug, Clone, Copy, PartialEq, Eq)]
pub enum Outbound {
    Frame { dest: CommandDest, frame: Frame },
    /// Responses go to everybody.
    Response(CommandResponse),
    Command(OutboundCommand),
}

/// Where a frame with this mask goes: to one address if the mask selects a single
/// endpoint whose address is known, to everybody otherwise.
pub open spec fn frame_goes_to(mask: u32, entries: Seq<PeerEntry>, dest: CommandDest) -> bool {
    match dest {
        CommandDest::Unicast(mac) => exists|k: int|
            0 <= k < 32 && mask == #[trigger] bits::one_bit(k) && peer_registry::mac_of(entries, k, Some(mac)),
        CommandDest::Broadcast => forall|k: int|
            0 <= k < 32 && mask == #[trigger] bits::one_bit(k) ==> !peer_registry::id_taken(entries, k),
    }
}

/// The entries of a directory, none without a directory.
pub open spec fn entries_of(peers: Option<&PeerRegistry>) -> Seq<PeerEntry> {
    match peers {
        Some(p) => p@,
        None => Seq::empty(),
    }
}

/// Where a frame with this mask goes.
pub fn frame_dest(mask: u32, peers: Option<&PeerRegistry>) -> (dest: CommandDest)
    ensures
        frame_goes_to(mask, entries_of(peers), dest),
{
    let registry = match peers {
        Some(r) => r,
        None => {
            return CommandDest::Broadcast;
        },
    };
    let n: u32 = bits::count_ones(mask);
    if n != 1 {
        assert forall|k: int| 0 <= k < 32 implies mask != #[trigger] bits::one_bit(k) by {
            if mask == bits::one_bit(k) {
                lemma_one_bit_counts_one(k);
            }
        }
        return CommandDest::Broadcast;
    }
    let id: u32 = mask.trailing_zeros();
    proof {
        bits::lemma_trailing_zeros(mask, id);
        if mask == 0 {
            bits::lemma_none_and_all();
            bits::lemma_ones_zero(mask, 32);
        }
        bits::lemma_ones_is_one(mask, id as int, 32);
        bits::lemma_single_bit(mask, id as int);
        assert forall|k: int| 0 <= k < 32 && mask == #[trigger] bits::one_bit(k) implies k == id by {
            lemma_one_bit_counts_one(k);
            assert(bits::has_bit(mask, k));
        }
    }
    match registry.lookup_mac_for_id(id as u8) {
        Some(mac) => {
            assert(bits::one_bit(id as int) == mask);
            CommandDest::Unicast(mac)
        },
        None => CommandDest::Broadcast,
    }
}

/// A mask with a single bit has that bit, and counts as one.
pub proof fn lemma_one_bit_counts_one(k: int)
    requires
        0 <= k < 32,
    ensures
        bits::has_bit(bits::one_bit(k), k),
        bits::ones(bits::one_bit(k)) == 1,
{
    bits::lemma_set_bit(0u32, k);
    bits::lemma_none_and_all();
    let kb = k as u32;
    assert(0u32 | (1u32 << kb) == 1u32 << kb) by (bit_vector);
    assert forall|i: int| #[trigger] bits::has_bit(bits::one_bit(k), i) <==> i == k by {
        assert(bits::has_bit(0u32 | bits::one_bit(k), i) <==> i == k || bits::has_bit(0u32, i));
    }
    bits::lemma_ones_is_one(bits::one_bit(k), k, 32);
}

/// What was taken from the three outgoing paths: a frame goes before a response,
/// a response before a command, and within each path the oldest goes first.
pub open spec fn taken(
    frame: Option<Frame>,
    responses: Seq<CommandResponse>,
    commands: Seq<OutboundCommand>,
    out: Option<Outbound>,
    next_frame: Option<Frame>,
    next_responses: Seq<CommandResponse>,
    next_commands: Seq<OutboundCommand>,
) -> bool {
    match frame {
        Some(f) => {
            &&& out is Some
            &&& out->0 is Frame
            &&& out->0->frame == f
            &&& next_frame is None
            &&& next_responses == responses
            &&& next_commands == commands
        },
        None => {
            &&& next_frame is None
            &&& if responses.len() > 0 {
                &&& out == Some(Outbound::Response(responses[0]))
                &&& next_responses == responses.subrange(1, responses.len() as int)
                &&& next_commands == commands
            } else if commands.len() > 0 {
                &&& out == Some(Outbound::Command(commands[0]))
                &&& next_responses == responses
                &&& next_commands == commands.subrange(1, commands.len() as int)
            } else {
                &&& out is None
                &&& next_responses == responses
                &&& next_commands == commands
            }
        },
    }
}

/// Takes the next message to send. Only with a directory is a frame for a single
/// endpoint sent to that endpoint's address.
pub fn next_outbound(
    frames: &mut FrameSignal,
    responses: &mut ResponseChannel,
    commands: &mut CommandOutChannel,
    peers: Option<&PeerRegistry>,
) -> (out: Option<Outbound>)
    ensures
        taken(
            old(frames)@,
            old(responses)@,
            old(commands)@,
            out,
            final(frames)@,
            final(responses)@,
            final(commands)@,
        ),
        match out {
            Some(Outbound::Frame { dest, frame }) => frame_goes_to(frame.dest_mask, entries_of(peers), dest),
            _ => true,
        },
        peers is None ==> match out {
            Some(Outbound::Frame { dest, .. }) => dest == CommandDest::Broadcast,
            _ => true,
        },
{
    match frames.try_take() {
        Some(frame) => {
            let dest = frame_dest(frame.dest_mask, peers);
            proof {
                if peers is None {
                    match dest {
                        CommandDest::Unicast(mac) => {
                            let k = choose|k: int|
                                0 <= k < 32 && frame.dest_mask == #[trigger] bits::one_bit(k) && peer_registry::mac_of(
                                    Seq::empty(),
                                    k,
                                    Some(mac),
                                );
                            assert(false);
                        },
                        CommandDest::Broadcast => {},
                    }
                }
            }
            Some(Outbound::Frame { dest, frame })
        },
        None => {
            match responses.try_receive() {
                Some(resp) => Some(Outbound::Response(resp)),
                None => {
                    match commands.try_receive() {
                        Some(cmd) => Some(Outbound::Command(cmd)),
                        None => None,
                    }
                },
            }
        },
    }
}

/// Whether a command whose transmission failed is sent again: a single address
/// acknowledges, so a failure there is known and tried again up to `max_retries`
/// times. A broadcast is never repeated.
pub fn resend_command(dest: &CommandDest, failed: bool, retries_done: u8, max_retries: u8) -> (again: bool)
    ensures
        again == (failed && dest is Unicast && retries_done < max_retries),
{
    match dest {
        CommandDest::Unicast(_) => failed && retries_done < max_retries,
        CommandDest::Broadcast => false,
    }
}

// ---- Laws ----

/// A frame goes to one address exactly if its mask has a single bit, of an endpoint that
/// is known, and then to that endpoint's address. Every other frame goes to everybody.
pub proof fn lemma_frame_for_one_goes_to_its_address(mask: u32, entries: Seq<PeerEntry>, dest: CommandDest, i: int)
    requires
        peer_registry::entries_wf(entries),
        frame_goes_to(mask, entries, dest),
        0 <= i < entries.len(),
    ensures
        mask == 1u32 << (entries[i].info.receiver_id as u32) <==> dest == CommandDest::Unicast(entries[i].info.mac),
{
    let id = entries[i].info.receiver_id as int;
    assert(id < 32);
    if mask == bits::one_bit(id) {
        lemma_one_bit_counts_one(id);
        match dest {
            CommandDest::Unicast(mac) => {
                let k = choose|k: int|
                    0 <= k < 32 && mask == #[trigger] bits::one_bit(k) && peer_registry::mac_of(entries, k, Some(mac));
                lemma_one_bit_counts_one(k);
                bits::lemma_ones_is_one(mask, k, 32);
                assert(k == id);
            },
            CommandDest::Broadcast => {
                assert(peer_registry::id_taken(entries, id));
            },
        }
    }
}

/// A frame for several endpoints, for nobody, or for an endpoint that is not known goes
/// to everybody.
pub proof fn lemma_other_frames_go_to_everybody(mask: u32, entries: Seq<PeerEntry>, dest: CommandDest, a: u32, b: u32)
    requires
        frame_goes_to(mask, entries, dest),
        a < b < 32,
    ensures
        mask == 0 ==> dest == CommandDest::Broadcast,
        mask & (1u32 << a) != 0 && mask & (1u32 << b) != 0 ==> dest == CommandDest::Broadcast,
        dest is Unicast ==> exists|i: int|
            #![trigger entries[i]]
            0 <= i < entries.len() && dest == CommandDest::Unicast(entries[i].info.mac) && mask == 1u32 << (
            entries[i].info.receiver_id as u32),
{
    if dest is Unicast {
        let mac = dest->0;
        let k = choose|k: int|
            0 <= k < 32 && mask == #[trigger] bits::one_bit(k) && peer_registry::mac_of(entries, k, Some(mac));
        lemma_one_bit_counts_one(k);
        bits::lemma_ones_is_one(mask, k, 32);
        bits::lemma_none_and_all();
        assert(bits::has_bit(mask, a as int) ==> a == k);
        assert(bits::has_bit(mask, b as int) ==> b == k);
        let i = choose|i: int|
            0 <= i < entries.len() && (#[trigger] entries[i]).info.mac == mac && entries[i].info.receiver_id == k;
        assert(dest == CommandDest::Unicast(entries[i].info.mac));
    }
}

/// Sending loses and repeats nothing: what was taken is what waited at the front of one
/// path, what still waits is the rest, and as long as anything waits something is taken.
/// A frame is newest, so it goes before responses, and responses go before commands.
pub proof fn lemma_sending_takes_the_front_of_one_path(
    frame: Option<Frame>,
    responses: Seq<CommandResponse>,
    commands: Seq<OutboundCommand>,
    out: Option<Outbound>,
    next_frame: Option<Frame>,
    next_responses: Seq<CommandResponse>,
    next_commands: Seq<OutboundCommand>,
)
    requires
        taken(frame, responses, commands, out, next_frame, next_responses, next_commands),
    ensures
        out is None <==> frame is None && responses.len() == 0 && commands.len() == 0,
        next_frame is None,
        frame is Some ==> out->0 is Frame && Some(out->0->frame) == frame && next_responses == responses
            && next_commands == commands,
        frame is None && responses.len() > 0 ==> out->0 is Response && seq![out->0->Response_0] + next_responses
            == responses && next_commands == commands,
        frame is None && responses.len() == 0 && commands.len() > 0 ==> out->0 is Command && seq![out->0->Command_0]
            + next_commands == commands && next_responses == responses,
{
    if frame is None && responses.len() > 0 {
        assert(seq![responses[0]] + next_responses =~= responses);
    } else if frame is None && commands.len() > 0 {
        assert(seq![commands[0]] + next_commands =~= commands);
    }
}

} // verus!
