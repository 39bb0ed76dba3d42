//! Tells the host that is connected directly about the session and the endpoints.
//!
//! Every round the session nonce goes first, so that the host can check what
//! follows, and then one report for each known endpoint. The queue to the host also
//! carries answers to commands, so a report waits until there is room to spare, and
//! a host that does not read ends the round.

use crate::comm::metrics::DropMetrics;
use crate::comm::notifier::signals::{enqueue_response, ResponseChannel, OUTBOUND_QUEUE_DEPTH};
use crate::comm::peer_registry::{self, PeerEntry, PeerInfo, PeerRegistry, MAX_PEERS, RSSI_UNKNOWN};
use crate::protocol::{CommandResponse, KeyId, ResponseBody};
use vstd::prelude::*;

verus! {

/// Milliseconds between two rounds.
pub const BLE_RELAY_PERIOD_MS: u64 = 2000;

/// Places in the queue that must be free before a report goes in.
pub const BLE_RELAY_MIN_FREE_SLOTS: usize = 2;

/// Milliseconds between two looks at a full queue.
pub const BLE_RELAY_POLL_MS: u64 = 20;

/// A round ends when a report has waited this long.
pub const BLE_RELAY_SEND_TIMEOUT_MS: u64 = 500;

/// What the protocol says for an unknown signal strength.
pub const WIRE_RSSI_UNKNOWN: i8 = -127;

/// Where a round stands.
#[derive(Debug, Clone, Copy)]
pub enum RelayState {
    /// Between two rounds.
    Idle,
    /// A report waits for room; the next endpoint to report has at least this id.
    Sending { resp: CommandResponse, next_id: u8, waited_ms: u64 },
}

/// The report of an endpoint.
pub open spec fn report(info: PeerInfo) -> CommandResponse {
    CommandResponse {
        req_seq: 0,
        key_id: KeyId::spec_default(),
        body: ResponseBody::AnnounceReply {
            mac: info.mac,
            rssi_dbm: if info.rssi_dbm == RSSI_UNKNOWN {
                WIRE_RSSI_UNKNOWN
            } else {
                info.rssi_dbm
            },
            role_tag: info.role,
        },
    }
}

/// The first id in use that is not below `from`, `MAX_PEERS` if there is none.
pub open spec fn next_used(entries: Seq<PeerEntry>, from: int) -> int
    decreases MAX_PEERS - from,
{
    if from >= MAX_PEERS {
        MAX_PEERS as int
    } else if peer_registry::id_taken(entries, from) {
        from
    } else {
        next_used(entries, from + 1)
    }
}

/// The endpoint with an id.
pub open spec fn endpoint(entries: Seq<PeerEntry>, id: int) -> PeerInfo {
    choose|info: PeerInfo| #[trigger] peer_registry::info_of(entries, id, Some(info))
}

/// How far a round gets without waiting: the queue then, where the round stands, and
/// for how long to wait.
pub open spec fn progress(
    entries: Seq<PeerEntry>,
    queue: Seq<CommandResponse>,
    resp: CommandResponse,
    next_id: int,
    waited_ms: int,
) -> (Seq<CommandResponse>, RelayState, int)
    decreases MAX_PEERS - next_id,
{
    if queue.len() + BLE_RELAY_MIN_FREE_SLOTS <= OUTBOUND_QUEUE_DEPTH {
        let id = next_used(entries, next_id);
        if id >= MAX_PEERS || id < next_id {
            (queue.push(resp), RelayState::Idle, BLE_RELAY_PERIOD_MS as int)
        } else {
            progress(entries, queue.push(resp), report(endpoint(entries, id)), id + 1, 0)
        }
    } else if waited_ms >= BLE_RELAY_SEND_TIMEOUT_MS {
        (queue, RelayState::Idle, BLE_RELAY_PERIOD_MS as int)
    } else {
        (
            queue,
            RelayState::Sending {
                resp,
                next_id: next_id as u8,
                waited_ms: (waited_ms + BLE_RELAY_POLL_MS) as u64,
            },
            BLE_RELAY_POLL_MS as int,
        )
    }
}

/// Where a round stands after it was resumed.
pub open spec fn resumed(
    state: RelayState,
    connected: bool,
    nonce: u32,
    entries: Seq<PeerEntry>,
    queue: Seq<CommandResponse>,
) -> (Seq<CommandResponse>, RelayState, int) {
    match state {
        RelayState::Idle => if connected {
            progress(entries, queue, CommandResponse::spec_nonce_hello(nonce), 0, 0)
        } else {
            (queue, RelayState::Idle, BLE_RELAY_PERIOD_MS as int)
        },
        RelayState::Sending { resp, next_id, waited_ms } => progress(
            entries,
            queue,
            resp,
            next_id as int,
            waited_ms as int,
        ),
    }
}

proof fn lemma_next_used(entries: Seq<PeerEntry>, from: int)
    requires
        0 <= from <= MAX_PEERS,
    ensures
        from <= next_used(entries, from) <= MAX_PEERS,
        next_used(entries, from) < MAX_PEERS ==> peer_registry::id_taken(
            entries,
            next_used(entries, from),
        ),
        forall|id: int|
            from <= id < next_used(entries, from) ==> !#[trigger] peer_registry::id_taken(entries, id),
    decreases MAX_PEERS - from,
{
    if from < MAX_PEERS && !peer_registry::id_taken(entries, from) {
        lemma_next_used(entries, from + 1);
    }
}

proof fn lemma_endpoint_is_unique(entries: Seq<PeerEntry>, id: int, info: PeerInfo)
    requires
        peer_registry::entries_wf(entries),
        peer_registry::info_of(entries, id, Some(info)),
    ensures
        endpoint(entries, id) == info,
{
    let other = endpoint(entries, id);
    assert(peer_registry::info_of(entries, id, Some(other)));
    let i = choose|i: int| 0 <= i < entries.len() && (#[trigger] entries[i]).info == info;
    let j = choose|j: int| 0 <= j < entries.len() && (#[trigger] entries[j]).info == other;
    assert(entries[i].info.receiver_id == entries[j].info.receiver_id);
    if i < j {
        assert(entries[i].info.receiver_id < entries[j].info.receiver_id);
    } else if j < i {
        assert(entries[j].info.receiver_id < entries[i].info.receiver_id);
    }
}

/// The report of the first endpoint whose id is not below `from`, and the id after
/// it.
pub fn next_report(registry: &PeerRegistry, from: u8) -> (r: Option<(CommandResponse, u8)>)
    requires
        registry.wf(),
        from <= MAX_PEERS,
    ensures
        match r {
            Some((resp, next_id)) => {
                &&& next_used(registry@, from as int) < MAX_PEERS
                &&& next_id == next_used(registry@, from as int) + 1
                &&& resp == report(endpoint(registry@, next_id - 1))
            },
            None => next_used(registry@, from as int) == MAX_PEERS,
        },
{
    let mut id: u8 = from;
    while id < MAX_PEERS as u8
        invariant
            from <= id <= MAX_PEERS,
            registry.wf(),
            next_used(registry@, from as int) == next_used(registry@, id as int),
        decreases MAX_PEERS - id,
    {
        match registry.peer_by_id(id) {
            Some(peer) => {
                proof {
                    lemma_endpoint_is_unique(registry@, id as int, peer);
                    assert(peer_registry::id_taken(registry@, id as int));
                }
                let rssi: i8 = if peer.rssi_dbm == RSSI_UNKNOWN {
                    WIRE_RSSI_UNKNOWN
                } else {
                    peer.rssi_dbm
                };
                let resp = CommandResponse::announce_reply(0, KeyId::default(), peer.mac, rssi, peer.role);
                return Some((resp, id + 1));
            },
            None => {},
        }
        id = id + 1;
    }
    None
}

impl RelayState {
    /// The next endpoint has an id within the directory, or there is none left.
    pub open spec fn wf(self) -> bool {
        match self {
            RelayState::Idle => true,
            RelayState::Sending { next_id, waited_ms, .. } => {
                &&& next_id <= MAX_PEERS
                &&& waited_ms <= BLE_RELAY_SEND_TIMEOUT_MS + BLE_RELAY_POLL_MS
            },
        }
    }

    /// Carries on with a round as far as there is room, or starts one if the host is
    /// connected. Returns for how many milliseconds to wait before the next call.
    pub fn resume(
        &mut self,
        connected: bool,
        nonce: u32,
        registry: &PeerRegistry,
        chan: &mut ResponseChannel,
        drops: &mut DropMetrics,
    ) -> (wait_ms: u64)
        requires
            old(self).wf(),
            registry.wf(),
        ensures
            final(self).wf(),
            (final(chan)@, *final(self), wait_ms as int) == resumed(
                *old(self),
                connected,
                nonce,
                registry@,
                old(chan)@,
            ),
            *final(drops) == *old(drops),
    {
        let (first, first_id, first_waited): (CommandResponse, u8, u64) = match *self {
            RelayState::Idle => {
                if !connected {
                    return BLE_RELAY_PERIOD_MS;
                }
                (CommandResponse::nonce_hello(nonce), 0, 0)
            },
            RelayState::Sending { resp, next_id, waited_ms } => (resp, next_id, waited_ms),
        };
        let mut resp = first;
        let mut next_id: u8 = first_id;
        let mut waited_ms: u64 = first_waited;
        loop
            invariant
                registry.wf(),
                next_id <= MAX_PEERS,
                waited_ms <= BLE_RELAY_SEND_TIMEOUT_MS + BLE_RELAY_POLL_MS,
                *drops == *old(drops),
                progress(registry@, chan@, resp, next_id as int, waited_ms as int) == resumed(
                    *old(self),
                    connected,
                    nonce,
                    registry@,
                    old(chan)@,
                ),
            decreases MAX_PEERS - next_id,
        {
            if chan.free_capacity() < BLE_RELAY_MIN_FREE_SLOTS {
                if waited_ms >= BLE_RELAY_SEND_TIMEOUT_MS {
                    *self = RelayState::Idle;
                    return BLE_RELAY_PERIOD_MS;
                }
                *self = RelayState::Sending { resp, next_id, waited_ms: waited_ms + BLE_RELAY_POLL_MS };
                return BLE_RELAY_POLL_MS;
            }
            enqueue_response(chan, drops, resp);
            proof {
                lemma_next_used(registry@, next_id as int);
            }
            match next_report(registry, next_id) {
                Some((next_resp, after)) => {
                    resp = next_resp;
                    next_id = after;
                    waited_ms = 0;
                },
                None => {
                    *self = RelayState::Idle;
                    return BLE_RELAY_PERIOD_MS;
                },
            }
        }
    }
}

// ---- Laws ----

/// A round never pushes an answer to a command out: what waits keeps its place, and
/// a round that put something in leaves a place free.
pub proof fn lemma_answers_keep_their_place(
    entries: Seq<PeerEntry>,
    queue: Seq<CommandResponse>,
    resp: CommandResponse,
    next_id: int,
    waited_ms: int,
)
    requires
        0 <= next_id <= MAX_PEERS,
    ensures
        ({
            let after = progress(entries, queue, resp, next_id, waited_ms).0;
            &&& queue.len() <= after.len()
            &&& after.subrange(0, queue.len() as int) == queue
            &&& after.len() > queue.len() ==> after.len() < OUTBOUND_QUEUE_DEPTH
        }),
    decreases MAX_PEERS - next_id,
{
    let after = progress(entries, queue, resp, next_id, waited_ms).0;
    if queue.len() + BLE_RELAY_MIN_FREE_SLOTS <= OUTBOUND_QUEUE_DEPTH {
        let id = next_used(entries, next_id);
        lemma_next_used(entries, next_id);
        let more = queue.push(resp);
        if id < MAX_PEERS {
            lemma_answers_keep_their_place(entries, more, report(endpoint(entries, id)), id + 1, 0);
            assert(after.subrange(0, more.len() as int) == more);
            assert(after.subrange(0, queue.len() as int) =~= after.subrange(0, more.len() as int).subrange(
                0,
                queue.len() as int,
            ));
        }
        assert(more.subrange(0, queue.len() as int) =~= queue);
    }
    assert(queue.subrange(0, queue.len() as int) =~= queue);
}

/// The reports of the endpoints whose ids are not below `next_id`, in id order.
pub open spec fn reports_from(entries: Seq<PeerEntry>, next_id: int) -> Seq<CommandResponse>
    decreases MAX_PEERS - next_id,
{
    let id = next_used(entries, next_id);
    if id >= MAX_PEERS || id < next_id {
        Seq::empty()
    } else {
        seq![report(endpoint(entries, id))] + reports_from(entries, id + 1)
    }
}

/// What is left of a round.
pub open spec fn left(entries: Seq<PeerEntry>, resp: CommandResponse, next_id: int) -> Seq<CommandResponse> {
    seq![resp] + reports_from(entries, next_id)
}

/// A round leaves nobody out, repeats nobody and keeps the order, however often it
/// has to wait for room: what is in the queue and what is left are together always
/// the same. A round that does not give up puts everything into the queue.
pub proof fn lemma_round_leaves_nobody_out(
    entries: Seq<PeerEntry>,
    queue: Seq<CommandResponse>,
    resp: CommandResponse,
    next_id: int,
    waited_ms: int,
)
    requires
        0 <= next_id <= MAX_PEERS,
        0 <= waited_ms < BLE_RELAY_SEND_TIMEOUT_MS,
    ensures
        ({
            let (after, state, _) = progress(entries, queue, resp, next_id, waited_ms);
            match state {
                RelayState::Idle => after == queue + left(entries, resp, next_id),
                RelayState::Sending { resp: waiting, next_id: next, .. } => after + left(
                    entries,
                    waiting,
                    next as int,
                ) == queue + left(entries, resp, next_id),
            }
        }),
    decreases MAX_PEERS - next_id,
{
    let (after, state, _) = progress(entries, queue, resp, next_id, waited_ms);
    if queue.len() + BLE_RELAY_MIN_FREE_SLOTS <= OUTBOUND_QUEUE_DEPTH {
        let id = next_used(entries, next_id);
        lemma_next_used(entries, next_id);
        let more = queue.push(resp);
        if id < MAX_PEERS {
            let next = report(endpoint(entries, id));
            lemma_round_leaves_nobody_out(entries, more, next, id + 1, 0);
            assert(reports_from(entries, next_id) == left(entries, next, id + 1));
            assert(more + left(entries, next, id + 1) =~= queue + left(entries, resp, next_id));
        } else {
            assert(more =~= queue + left(entries, resp, next_id));
        }
    }
}

/// A host always learns the session nonce before any endpoint.
pub proof fn lemma_nonce_comes_first(nonce: u32, entries: Seq<PeerEntry>, queue: Seq<CommandResponse>)
    requires
        queue.len() + BLE_RELAY_MIN_FREE_SLOTS <= OUTBOUND_QUEUE_DEPTH,
    ensures
        ({
            let after = resumed(RelayState::Idle, true, nonce, entries, queue).0;
            &&& after.len() > queue.len()
            &&& after[queue.len() as int] == CommandResponse::spec_nonce_hello(nonce)
        }),
{
    let hello = CommandResponse::spec_nonce_hello(nonce);
    let more = queue.push(hello);
    let id = next_used(entries, 0);
    lemma_next_used(entries, 0);
    if id < MAX_PEERS {
        let after = progress(entries, queue, hello, 0, 0).0;
        lemma_answers_keep_their_place(entries, more, report(endpoint(entries, id)), id + 1, 0);
        assert(after.subrange(0, more.len() as int)[queue.len() as int] == more[queue.len() as int]);
    }
}

/// A report tells what is known of an endpoint: its address and role, and its signal
/// strength, for which the wire has its own sign when it is not known. It answers no
/// command and is signed with the first key.
pub proof fn lemma_report_tells_what_is_known(info: PeerInfo)
    ensures
        report(info).req_seq == 0,
        report(info).key_id.raw == 0,
        report(info).body is AnnounceReply,
        report(info).body->mac == info.mac,
        report(info).body->role_tag == info.role,
        info.rssi_dbm != -128 ==> report(info).body->rssi_dbm == info.rssi_dbm,
        info.rssi_dbm == -128 ==> report(info).body->rssi_dbm == -127,
{
}

/// A whole round reports every endpoint of the directory, each once, in its order.
pub proof fn lemma_round_reports_the_directory(entries: Seq<PeerEntry>)
    requires
        peer_registry::entries_wf(entries),
    ensures
        reports_from(entries, 0).len() == entries.len(),
        forall|i: int|
            0 <= i < entries.len() ==> #[trigger] reports_from(entries, 0)[i] == report(entries[i].info),
{
    lemma_reports_of_the_rest(entries, 0, 0);
}

proof fn lemma_reports_of_the_rest(entries: Seq<PeerEntry>, next_id: int, at: int)
    requires
        peer_registry::entries_wf(entries),
        0 <= next_id <= MAX_PEERS,
        0 <= at <= entries.len(),
        forall|i: int| 0 <= i < at ==> (#[trigger] entries[i]).info.receiver_id < next_id,
        forall|i: int| at <= i < entries.len() ==> (#[trigger] entries[i]).info.receiver_id >= next_id,
    ensures
        reports_from(entries, next_id).len() == entries.len() - at,
        forall|k: int|
            0 <= k < entries.len() - at ==> #[trigger] reports_from(entries, next_id)[k] == report(entries[at + k].info),
    decreases entries.len() - at,
{
    let id = next_used(entries, next_id);
    lemma_next_used(entries, next_id);
    if at < entries.len() {
        let first = entries[at].info.receiver_id as int;
        assert(peer_registry::id_taken(entries, first));
        assert(id <= first);
        let j = choose|j: int| 0 <= j < entries.len() && (#[trigger] entries[j]).info.receiver_id == id;
        if at < j {
            assert(entries[at].info.receiver_id < entries[j].info.receiver_id);
        }
        assert(j == at);
        assert forall|i: int| at + 1 <= i < entries.len() implies (#[trigger] entries[i]).info.receiver_id >= id + 1 by {
            assert(entries[at].info.receiver_id < entries[i].info.receiver_id);
        }
        assert forall|i: int| 0 <= i < at + 1 implies (#[trigger] entries[i]).info.receiver_id < id + 1 by {}
        lemma_reports_of_the_rest(entries, id + 1, at + 1);
        assert(peer_registry::info_of(entries, id, Some(entries[at].info)));
        lemma_endpoint_is_unique(entries, id, entries[at].info);
        let rest = reports_from(entries, id + 1);
        assert(reports_from(entries, next_id) == seq![report(entries[at].info)] + rest);
        assert forall|k: int| 0 <= k < entries.len() - at implies #[trigger] reports_from(entries, next_id)[k] == report(
            entries[at + k].info,
        ) by {
            if k > 0 {
                assert(reports_from(entries, next_id)[k] == rest[k - 1]);
                assert(rest[k - 1] == report(entries[at + 1 + (k - 1)].info));
            }
        }
    } else if id < MAX_PEERS {
        let j = choose|j: int| 0 <= j < entries.len() && (#[trigger] entries[j]).info.receiver_id == id;
        assert(entries[j].info.receiver_id < next_id);
    }
}

/// A report waits while fewer than two places are free: it is looked at again every
/// 20 ms, and after half a second of waiting the round ends. Rounds are two seconds
/// apart, and without a host none begins.
pub proof fn lemma_round_waits_for_room_and_gives_up(
    entries: Seq<PeerEntry>,
    queue: Seq<CommandResponse>,
    resp: CommandResponse,
    next_id: u8,
    waited_ms: u64,
    nonce: u32,
)
    requires
        queue.len() >= 7,
        next_id <= MAX_PEERS,
        waited_ms <= 1000,
    ensures
        ({
            let (after, state, wait) = resumed(
                RelayState::Sending { resp, next_id, waited_ms },
                true,
                nonce,
                entries,
                queue,
            );
            &&& after == queue
            &&& waited_ms >= 500 ==> state is Idle && wait == 2000
            &&& waited_ms < 500 ==> state == (RelayState::Sending { resp, next_id, waited_ms: (waited_ms + 20) as u64 })
                && wait == 20
        }),
        resumed(RelayState::Idle, false, nonce, entries, queue) == (queue, RelayState::Idle, 2000int),
{
}

} // verus!
