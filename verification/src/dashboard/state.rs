//! Everything that the dashboard knows.

use crate::bits;
use crate::comm::peer_registry::{self, role_len, same_mac};
use crate::protocol::{ErrorCode, GamepadState, KeyId, ResponseBody};
use crate::text;
use std::collections::VecDeque;
use vstd::prelude::*;

verus! {

/// What a log entry is about.
#[derive(Debug, Clone, Copy, PartialEq, Eq, Structural)]
pub enum EventDirection {
    /// From the gamepad.
    Rx,
    /// To the gamepad.
    Tx,
    /// Of the dashboard itself.
    Info,
    /// Something went wrong.
    Warn,
}

impl EventDirection {
    /// The class of the entry's badge.
    pub open spec fn badge_class_text(self) -> Seq<char> {
        match self {
            EventDirection::Rx => "badge-rx"@,
            EventDirection::Tx => "badge-tx"@,
            EventDirection::Info => "badge-info"@,
            EventDirection::Warn => "badge-warn"@,
        }
    }

    /// The text of the entry's badge.
    pub open spec fn label_text(self) -> Seq<char> {
        match self {
            EventDirection::Rx => "RX"@,
            EventDirection::Tx => "TX"@,
            EventDirection::Info => "IN"@,
            EventDirection::Warn => "WN"@,
        }
    }

    /// The class of the entry's badge.
    pub fn badge_class(self) -> (s: &'static str)
        ensures
            s@ == self.badge_class_text(),
    {
        match self {
            EventDirection::Rx => "badge-rx",
            EventDirection::Tx => "badge-tx",
            EventDirection::Info => "badge-info",
            EventDirection::Warn => "badge-warn",
        }
    }

    /// The text of the entry's badge.
    pub fn label(self) -> (s: &'static str)
        ensures
            s@ == self.label_text(),
    {
        match self {
            EventDirection::Rx => "RX",
            EventDirection::Tx => "TX",
            EventDirection::Info => "IN",
            EventDirection::Warn => "WN",
        }
    }
}

/// A log entry.
#[derive(Debug)]
pub struct EventEntry {
    /// When, in microseconds since the page was loaded.
    pub ts_us: u64,
    pub dir: EventDirection,
    pub summary: String,
    /// The bytes that went over the air, if any.
    pub bytes: Option<Vec<u8>>,
}

/// The contents of a log entry.
pub struct EventView {
    pub ts_us: u64,
    pub dir: EventDirection,
    pub summary: Seq<char>,
    pub bytes: Option<Seq<u8>>,
}

impl View for EventEntry {
    type V = EventView;

    open spec fn view(&self) -> EventView {
        EventView {
            ts_us: self.ts_us,
            dir: self.dir,
            summary: self.summary@,
            bytes: match self.bytes {
                Some(b) => Some(b@),
                None => None,
            },
        }
    }
}

impl EventEntry {
    /// Something that the dashboard did.
    pub fn info(summary: String, now_us: u64) -> (e: EventEntry)
        ensures
            e@ == (EventView { ts_us: now_us, dir: EventDirection::Info, summary: summary@, bytes: None }),
    {
        EventEntry { ts_us: now_us, dir: EventDirection::Info, summary, bytes: None }
    }

    /// Something that went wrong.
    pub fn warn(summary: String, now_us: u64) -> (e: EventEntry)
        ensures
            e@ == (EventView { ts_us: now_us, dir: EventDirection::Warn, summary: summary@, bytes: None }),
    {
        EventEntry { ts_us: now_us, dir: EventDirection::Warn, summary, bytes: None }
    }

    /// Something received.
    pub fn rx(summary: String, bytes: Vec<u8>, now_us: u64) -> (e: EventEntry)
        ensures
            e@ == (EventView {
                ts_us: now_us,
                dir: EventDirection::Rx,
                summary: summary@,
                bytes: Some(bytes@),
            }),
    {
        EventEntry { ts_us: now_us, dir: EventDirection::Rx, summary, bytes: Some(bytes) }
    }

    /// Something sent.
    pub fn tx(summary: String, bytes: Vec<u8>, now_us: u64) -> (e: EventEntry)
        ensures
            e@ == (EventView {
                ts_us: now_us,
                dir: EventDirection::Tx,
                summary: summary@,
                bytes: Some(bytes@),
            }),
    {
        EventEntry { ts_us: now_us, dir: EventDirection::Tx, summary, bytes: Some(bytes) }
    }
}

/// The state of the connection.
#[derive(Debug, Clone, Copy, PartialEq, Eq, Structural)]
pub enum ConnState {
    Disconnected,
    Connecting,
    Connected,
}

impl Default for ConnState {
    fn default() -> (c: ConnState)
        ensures
            c == ConnState::Disconnected,
    {
        ConnState::Disconnected
    }
}

impl ConnState {
    /// What the page shows.
    pub open spec fn label_text(self) -> Seq<char> {
        match self {
            ConnState::Disconnected => "未连接"@,
            ConnState::Connecting => "连接中..."@,
            ConnState::Connected => "已连接"@,
        }
    }

    /// The class of the connection pill.
    pub open spec fn css_text(self) -> Seq<char> {
        match self {
            ConnState::Disconnected => "conn-off"@,
            ConnState::Connecting => "conn-connecting"@,
            ConnState::Connected => "conn-on"@,
        }
    }

    /// What the page shows.
    pub fn label(self) -> (s: &'static str)
        ensures
            s@ == self.label_text(),
    {
        match self {
            ConnState::Disconnected => "未连接",
            ConnState::Connecting => "连接中...",
            ConnState::Connected => "已连接",
        }
    }

    /// The class of the connection pill.
    pub fn css_state(self) -> (s: &'static str)
        ensures
            s@ == self.css_text(),
    {
        match self {
            ConnState::Disconnected => "conn-off",
            ConnState::Connecting => "conn-connecting",
            ConnState::Connected => "conn-on",
        }
    }
}

/// Most entries in the log; the oldest makes room for a new one.
pub const EVENT_LOG_MAX_LEN: usize = 200;

/// Most endpoints that can be listed.
pub const MAX_PEERS: usize = 32;

/// Bytes of a role tag.
pub const ROLE_TAG_LEN: usize = 3;

/// Bytes of an address.
pub const MAC_LEN: usize = 6;

/// Stands for a signal strength that is not known.
pub const RSSI_UNKNOWN: i8 = -127;

/// An endpoint that was reported.
#[derive(Debug, Clone, Copy, PartialEq, Eq)]
pub struct PeerInfo {
    pub receiver_id: u8,
    pub mac: [u8; MAC_LEN],
    pub role: [u8; ROLE_TAG_LEN],
    pub rssi_dbm: i8,
    /// When it was last heard, in microseconds since the page was loaded.
    pub last_seen_us: u64,
}

/// An address as pairs of hexadecimal digits with colons between them.
pub open spec fn mac_text(mac: Seq<u8>) -> Seq<char>
    decreases mac.len(),
{
    if mac.len() == 0 {
        Seq::empty()
    } else if mac.len() == 1 {
        text::hex_byte(mac[0])
    } else {
        mac_text(mac.drop_last()) + ":"@ + text::hex_byte(mac.last())
    }
}

/// Appends an address as pairs of hexadecimal digits with colons between them.
pub fn push_mac(out: &mut String, mac: &[u8; MAC_LEN])
    ensures
        final(out)@ == old(out)@ + mac_text(mac@),
{
    let mut i: usize = 0;
    let ghost start = out@;
    assert(start + mac_text(mac@.subrange(0, 0)) =~= start);
    while i < MAC_LEN
        invariant
            i <= MAC_LEN,
            out@ == start + mac_text(mac@.subrange(0, i as int)),
        decreases MAC_LEN - i,
    {
        let ghost done = mac@.subrange(0, i as int);
        if i > 0 {
            out.append(":");
        }
        text::push_hex_byte(out, mac[i]);
        i = i + 1;
        proof {
            let now = mac@.subrange(0, i as int);
            assert(now.drop_last() =~= done);
            assert(now.last() == mac@[i - 1]);
            assert(out@ =~= start + mac_text(now));
        }
    }
    assert(mac@.subrange(0, MAC_LEN as int) =~= mac@);
}

impl PeerInfo {
    /// The role tag without its padding.
    pub fn role_bytes(&self) -> (trimmed: &[u8])
        ensures
            trimmed@ == peer_registry::role_head(self.role@),
    {
        let n: usize = role_len(&self.role);
        let trimmed = vstd::slice::slice_subrange(self.role.as_slice(), 0, n);
        proof {
            peer_registry::lemma_trimmed_is_head(self.role@, trimmed@);
        }
        trimmed
    }

    /// The role tag as text.
    pub fn role_str(&self) -> (s: &str)
        ensures
            s@ == text::readable(peer_registry::role_head(self.role@)),
    {
        text::readable_text(self.role_bytes())
    }

    /// The address as text.
    pub fn mac_str(&self) -> (s: String)
        ensures
            s@ == mac_text(self.mac@),
    {
        let mut s = String::new();
        push_mac(&mut s, &self.mac);
        assert(s@ =~= mac_text(self.mac@));
        s
    }
}

/// Everything that the dashboard knows.
pub struct AppState {
    pub conn: ConnState,
    /// Battery level in percent, once it was reported.
    pub battery: Option<u8>,
    /// The session nonce, once it was announced.
    pub session_nonce: Option<u32>,
    /// The key that signs commands.
    pub key_id: KeyId,
    /// What the newest frame reported.
    pub gamepad: GamepadState,
    /// Number of the newest frame.
    pub last_frame_seq: u32,
    /// Number of the last command.
    pub tx_counter: u32,
    /// The newest response.
    pub last_response: Option<(u32, ResponseBody)>,
    /// The log, oldest entry first.
    pub events: VecDeque<EventEntry>,
    /// The endpoints, in ascending id order.
    pub receivers: Vec<PeerInfo>,
}

/// The contents of the dashboard's state.
pub struct AppView {
    pub conn: ConnState,
    pub battery: Option<u8>,
    pub session_nonce: Option<u32>,
    pub key_id: KeyId,
    pub gamepad: GamepadState,
    pub last_frame_seq: u32,
    pub tx_counter: u32,
    pub last_response: Option<(u32, ResponseBody)>,
    pub events: Seq<EventView>,
    pub receivers: Seq<PeerInfo>,
}

/// The contents of log entries.
pub open spec fn log_view(events: Seq<EventEntry>) -> Seq<EventView> {
    Seq::new(events.len(), |i: int| events[i]@)
}

impl View for AppState {
    type V = AppView;

    open spec fn view(&self) -> AppView {
        AppView {
            conn: self.conn,
            battery: self.battery,
            session_nonce: self.session_nonce,
            key_id: self.key_id,
            gamepad: self.gamepad,
            last_frame_seq: self.last_frame_seq,
            tx_counter: self.tx_counter,
            last_response: self.last_response,
            events: log_view(self.events@),
            receivers: self.receivers@,
        }
    }
}

/// The log with one more entry: a full log loses its oldest one.
pub open spec fn logged(log: Seq<EventView>, entry: EventView) -> Seq<EventView> {
    if log.len() >= EVENT_LOG_MAX_LEN {
        log.subrange(1, log.len() as int).push(entry)
    } else {
        log.push(entry)
    }
}

impl AppView {
    /// With one more log entry.
    pub open spec fn with_event(self, entry: EventView) -> AppView {
        AppView { events: logged(self.events, entry), ..self }
    }

    /// With a note on what the dashboard did.
    pub open spec fn noting(self, summary: Seq<char>, now_us: u64) -> AppView {
        self.with_event(EventView { ts_us: now_us, dir: EventDirection::Info, summary, bytes: None })
    }

    /// With a warning.
    pub open spec fn warning(self, summary: Seq<char>, now_us: u64) -> AppView {
        self.with_event(EventView { ts_us: now_us, dir: EventDirection::Warn, summary, bytes: None })
    }
}

/// An endpoint of the list has this id.
pub open spec fn id_listed(list: Seq<PeerInfo>, id: int) -> bool {
    exists|i: int| 0 <= i < list.len() && (#[trigger] list[i]).receiver_id == id
}

/// An endpoint of the list has this address.
pub open spec fn mac_listed(list: Seq<PeerInfo>, mac: [u8; MAC_LEN]) -> bool {
    exists|i: int| 0 <= i < list.len() && (#[trigger] list[i]).mac == mac
}

/// The smallest id that no endpoint of the list has.
pub open spec fn smallest_unlisted(list: Seq<PeerInfo>, id: int) -> bool {
    &&& 0 <= id < MAX_PEERS
    &&& !id_listed(list, id)
    &&& forall|k: int| 0 <= k < id ==> #[trigger] id_listed(list, k)
}

/// A list of endpoints: ids below `MAX_PEERS` in strictly ascending order, no
/// address twice.
pub open spec fn list_wf(list: Seq<PeerInfo>) -> bool {
    &&& forall|i: int| 0 <= i < list.len() ==> (#[trigger] list[i]).receiver_id < MAX_PEERS
    &&& forall|i: int, j: int|
        0 <= i < j < list.len() ==> (#[trigger] list[i]).receiver_id < (#[trigger] list[j]).receiver_id
    &&& forall|i: int, j: int|
        0 <= i < j < list.len() ==> (#[trigger] list[i]).mac != (#[trigger] list[j]).mac
}

/// `next` is `list` with `peer` put at its place in id order.
pub open spec fn put_in_order(list: Seq<PeerInfo>, peer: PeerInfo, next: Seq<PeerInfo>) -> bool {
    exists|pos: int|
        {
            &&& 0 <= pos <= list.len()
            &&& next == #[trigger] list.insert(pos, peer)
            &&& forall|k: int| 0 <= k < pos ==> (#[trigger] list[k]).receiver_id < peer.receiver_id
            &&& forall|k: int| pos <= k < list.len() ==> (#[trigger] list[k]).receiver_id > peer.receiver_id
        }
}

/// The list after a report: a known address keeps its id, a new one gets the
/// smallest free id, and without a free id the report is dropped.
pub open spec fn reported(
    list: Seq<PeerInfo>,
    mac: [u8; MAC_LEN],
    role: [u8; ROLE_TAG_LEN],
    rssi_dbm: i8,
    now_us: u64,
    next: Seq<PeerInfo>,
) -> bool {
    if mac_listed(list, mac) {
        exists|i: int|
            {
                &&& 0 <= i < list.len()
                &&& (#[trigger] list[i]).mac == mac
                &&& next == list.update(
                    i,
                    PeerInfo { role, rssi_dbm, last_seen_us: now_us, ..list[i] },
                )
            }
    } else if exists|id: int| smallest_unlisted(list, id) {
        exists|id: u8|
            {
                &&& #[trigger] smallest_unlisted(list, id as int)
                &&& put_in_order(
                    list,
                    PeerInfo { receiver_id: id, mac, role, rssi_dbm, last_seen_us: now_us },
                    next,
                )
            }
    } else {
        next == list
    }
}

impl AppState {
    /// The log is within its limit and the endpoints are in order.
    pub open spec fn wf(self) -> bool {
        &&& self.events@.len() <= EVENT_LOG_MAX_LEN
        &&& list_wf(self.receivers@)
    }

    /// A dashboard that has just been opened.
    pub fn new(now_us: u64) -> (s: AppState)
        ensures
            s.wf(),
            s@ == (AppView {
                conn: ConnState::Disconnected,
                battery: None,
                session_nonce: None,
                key_id: KeyId::spec_default(),
                gamepad: GamepadState::spec_empty(),
                last_frame_seq: 0,
                tx_counter: 0,
                last_response: None,
                events: seq![
                    EventView {
                        ts_us: now_us,
                        dir: EventDirection::Info,
                        summary: "Dashboard 已启动，等待连接手柄"@,
                        bytes: None,
                    },
                ],
                receivers: Seq::empty(),
            }),
    {
        let mut s = AppState {
            conn: ConnState::Disconnected,
            battery: None,
            session_nonce: None,
            key_id: KeyId::default(),
            gamepad: GamepadState::default(),
            last_frame_seq: 0,
            tx_counter: 0,
            last_response: None,
            events: VecDeque::with_capacity(EVENT_LOG_MAX_LEN),
            receivers: Vec::with_capacity(MAX_PEERS),
        };
        s.push_event(EventEntry::info("Dashboard 已启动，等待连接手柄".to_string(), now_us));
        proof {
            let first = EventView {
                ts_us: now_us,
                dir: EventDirection::Info,
                summary: "Dashboard 已启动，等待连接手柄"@,
                bytes: None,
            };
            assert(s@.events =~= seq![first]);
            assert(s@.receivers =~= Seq::<PeerInfo>::empty());
        }
        s
    }

    /// Appends to the log; a full log loses its oldest entry.
    pub fn push_event(&mut self, entry: EventEntry)
        ensures
            final(self)@ == old(self)@.with_event(entry@),
            old(self).wf() ==> final(self).wf(),
    {
        if self.events.len() >= EVENT_LOG_MAX_LEN {
            let oldest = self.events.pop_front();
        }
        self.events.push_back(entry);
        assert(log_view(self.events@) =~= logged(log_view(old(self).events@), entry@));
    }

    /// Notes what the dashboard did.
    pub fn note(&mut self, summary: String, now_us: u64)
        ensures
            final(self)@ == old(self)@.noting(summary@, now_us),
            old(self).wf() ==> final(self).wf(),
    {
        self.push_event(EventEntry::info(summary, now_us));
    }

    /// Notes what went wrong.
    pub fn warn(&mut self, summary: String, now_us: u64)
        ensures
            final(self)@ == old(self)@.warning(summary@, now_us),
            old(self).wf() ==> final(self).wf(),
    {
        self.push_event(EventEntry::warn(summary, now_us));
    }

    /// The number for the next command: at least one, and never going back to
    /// zero.
    pub fn next_tx_seq(&mut self) -> (seq: u32)
        ensures
            seq == next_seq(old(self).tx_counter),
            final(self)@ == (AppView { tx_counter: seq, ..old(self)@ }),
            old(self).wf() ==> final(self).wf(),
    {
        self.tx_counter = self.tx_counter.saturating_add(1);
        self.tx_counter
    }

    fn lowest_free_id(&self) -> (id: Option<u8>)
        ensures
            match id {
                Some(id) => smallest_unlisted(self.receivers@, id as int),
                None => forall|k: int| 0 <= k < MAX_PEERS ==> #[trigger] id_listed(self.receivers@, k),
            },
    {
        let mut used_mask: u32 = 0;
        let mut i: usize = 0;
        proof {
            bits::lemma_none_and_all();
        }
        while i < self.receivers.len()
            invariant
                i <= self.receivers@.len(),
                forall|k: int|
                    0 <= k < MAX_PEERS ==> (#[trigger] bits::has_bit(used_mask, k) <==> exists|m: int|
                        0 <= m < i && (#[trigger] self.receivers@[m]).receiver_id == k),
            decreases self.receivers@.len() - i,
        {
            let id: u8 = self.receivers[i].receiver_id;
            let ghost before = used_mask;
            if id < 32 {
                proof {
                    bits::lemma_set_bit(before, id as int);
                }
                used_mask = used_mask | (1u32 << (id as u32));
            }
            proof {
                assert forall|k: int| 0 <= k < MAX_PEERS implies (#[trigger] bits::has_bit(used_mask, k)
                    <==> exists|m: int| 0 <= m < i + 1 && (#[trigger] self.receivers@[m]).receiver_id == k) by {
                    if id < 32 {
                        assert(bits::has_bit(before | bits::one_bit(id as int), k) <==> k == id
                            || bits::has_bit(before, k));
                    }
                    if k == id {
                        assert(self.receivers@[i as int].receiver_id == k);
                    }
                }
            }
            i = i + 1;
        }
        let free_bit: u32 = used_mask.trailing_ones();
        proof {
            assert forall|k: int| 0 <= k < MAX_PEERS implies (#[trigger] id_listed(self.receivers@, k)
                <==> bits::has_bit(used_mask, k)) by {
                if bits::has_bit(used_mask, k) {
                    let m = choose|m: int| 0 <= m < i && (#[trigger] self.receivers@[m]).receiver_id == k;
                    assert(self.receivers@[m].receiver_id == k);
                }
            }
            bits::lemma_trailing_ones(used_mask, free_bit);
        }
        if free_bit >= 32 {
            None
        } else {
            Some(free_bit as u8)
        }
    }

    /// Takes an endpoint's report into the list.
    pub fn upsert_receiver(
        &mut self,
        mac: [u8; MAC_LEN],
        role: [u8; ROLE_TAG_LEN],
        rssi_dbm: i8,
        now_us: u64,
    )
        requires
            list_wf(old(self).receivers@),
        ensures
            list_wf(final(self).receivers@),
            old(self).wf() ==> final(self).wf(),
            reported(
                old(self).receivers@,
                mac,
                role,
                rssi_dbm,
                now_us,
                final(self).receivers@,
            ),
            final(self)@ == (AppView { receivers: final(self).receivers@, ..old(self)@ }),
    {
        let ghost list = self.receivers@;
        let mut i: usize = 0;
        while i < self.receivers.len()
            invariant
                i <= self.receivers@.len(),
                self.receivers@ == list,
                list_wf(list),
                self@ == old(self)@,
                self.events@ == old(self).events@,
                old(self).receivers@ == list,
                forall|k: int| 0 <= k < i ==> (#[trigger] list[k]).mac != mac,
            decreases self.receivers@.len() - i,
        {
            if same_mac(&self.receivers[i].mac, &mac) {
                let id: u8 = self.receivers[i].receiver_id;
                self.receivers.set(
                    i,
                    PeerInfo { receiver_id: id, mac, role, rssi_dbm, last_seen_us: now_us },
                );
                proof {
                    assert(list[i as int].mac == mac);
                    assert(self.receivers@ =~= list.update(
                        i as int,
                        PeerInfo { role, rssi_dbm, last_seen_us: now_us, ..list[i as int] },
                    ));
                    lemma_refresh_keeps_order(list, i as int, role, rssi_dbm, now_us);
                }
                return;
            }
            i = i + 1;
        }
        assert(!mac_listed(list, mac));
        let free_id: u8 = match self.lowest_free_id() {
            Some(id) => id,
            None => {
                assert(!exists|id: int| smallest_unlisted(list, id));
                return;
            },
        };
        let peer = PeerInfo { receiver_id: free_id, mac, role, rssi_dbm, last_seen_us: now_us };
        let mut pos: usize = 0;
        while pos < self.receivers.len() && self.receivers[pos].receiver_id < free_id
            invariant
                pos <= self.receivers@.len(),
                self.receivers@ == list,
                forall|k: int| 0 <= k < pos ==> (#[trigger] list[k]).receiver_id < free_id,
            decreases self.receivers@.len() - pos,
        {
            pos = pos + 1;
        }
        proof {
            assert forall|k: int| pos <= k < list.len() implies (#[trigger] list[k]).receiver_id
                > free_id by {
                assert(list[k].receiver_id != free_id) by {
                    if list[k].receiver_id == free_id {
                        assert(id_listed(list, free_id as int));
                    }
                }
                if k > pos {
                    assert(list[pos as int].receiver_id < list[k].receiver_id);
                }
            }
            lemma_insert_keeps_order(list, pos as int, peer);
        }
        self.receivers.insert(pos, peer);
        assert(self.receivers@ == list.insert(pos as int, peer));
        assert(smallest_unlisted(list, free_id as int));
    }
}

/// The number after `count`, which stays at the end of its range.
pub open spec fn next_seq(count: u32) -> u32 {
    if count == u32::MAX {
        count
    } else {
        (count + 1) as u32
    }
}

proof fn lemma_refresh_keeps_order(
    list: Seq<PeerInfo>,
    at: int,
    role: [u8; ROLE_TAG_LEN],
    rssi_dbm: i8,
    now_us: u64,
)
    requires
        list_wf(list),
        0 <= at < list.len(),
    ensures
        list_wf(list.update(at, PeerInfo { role, rssi_dbm, last_seen_us: now_us, ..list[at] })),
{
    let next = list.update(at, PeerInfo { role, rssi_dbm, last_seen_us: now_us, ..list[at] });
    assert forall|i: int, j: int| 0 <= i < j < next.len() implies (#[trigger] next[i]).receiver_id < (
    #[trigger] next[j]).receiver_id && next[i].mac != next[j].mac by {
        assert(list[i].receiver_id < list[j].receiver_id);
    }
}

proof fn lemma_insert_keeps_order(list: Seq<PeerInfo>, pos: int, peer: PeerInfo)
    requires
        list_wf(list),
        0 <= pos <= list.len(),
        peer.receiver_id < MAX_PEERS,
        !mac_listed(list, peer.mac),
        forall|k: int| 0 <= k < pos ==> (#[trigger] list[k]).receiver_id < peer.receiver_id,
        forall|k: int| pos <= k < list.len() ==> (#[trigger] list[k]).receiver_id > peer.receiver_id,
    ensures
        list_wf(list.insert(pos, peer)),
{
    let next = list.insert(pos, peer);
    assert forall|i: int| 0 <= i < next.len() implies (#[trigger] next[i]) == (if i < pos {
        list[i]
    } else if i == pos {
        peer
    } else {
        list[i - 1]
    }) by {
    }
    assert forall|i: int, j: int| 0 <= i < j < next.len() implies (#[trigger] next[i]).receiver_id < (
    #[trigger] next[j]).receiver_id && next[i].mac != next[j].mac by {
        let a = if i < pos {
            i
        } else {
            i - 1
        };
        let b = if j < pos {
            j
        } else {
            j - 1
        };
        if i != pos && j != pos {
            assert(list[a].receiver_id < list[b].receiver_id);
        } else if i == pos {
            assert(list[b].mac != peer.mac);
        } else {
            assert(list[a].mac != peer.mac);
        }
    }
}

/// What the page says of a refusal.
pub open spec fn error_text(code: ErrorCode) -> Seq<char> {
    match code {
        ErrorCode::InvalidArgument => "参数不合法"@,
        ErrorCode::Unsupported => "命令暂不支持"@,
        ErrorCode::Busy => "内部忙"@,
    }
}

/// What the page says of a refusal.
pub fn error_code_label(code: ErrorCode) -> (s: &'static str)
    ensures
        s@ == error_text(code),
{
    match code {
        ErrorCode::InvalidArgument => "参数不合法",
        ErrorCode::Unsupported => "命令暂不支持",
        ErrorCode::Busy => "内部忙",
    }
}

// ---- Laws ----

/// The log never holds more than its limit, and always ends with the newest entry.
pub proof fn lemma_log_is_bounded(log: Seq<EventView>, entry: EventView)
    requires
        log.len() <= EVENT_LOG_MAX_LEN,
    ensures
        logged(log, entry).len() <= EVENT_LOG_MAX_LEN,
        logged(log, entry).last() == entry,
{
}

/// A report never changes the id of an endpoint that is already listed.
pub proof fn lemma_report_keeps_ids(
    list: Seq<PeerInfo>,
    mac: [u8; MAC_LEN],
    role: [u8; ROLE_TAG_LEN],
    rssi_dbm: i8,
    now_us: u64,
    next: Seq<PeerInfo>,
    i: int,
)
    requires
        list_wf(list),
        reported(list, mac, role, rssi_dbm, now_us, next),
        0 <= i < list.len(),
    ensures
        exists|j: int|
            0 <= j < next.len() && (#[trigger] next[j]).mac == list[i].mac && next[j].receiver_id
                == list[i].receiver_id,
{
    if mac_listed(list, mac) {
        assert(next[i].mac == list[i].mac);
    } else if exists|id: int| smallest_unlisted(list, id) {
        let id = choose|id: u8|
            {
                &&& #[trigger] smallest_unlisted(list, id as int)
                &&& put_in_order(
                    list,
                    PeerInfo { receiver_id: id, mac, role, rssi_dbm, last_seen_us: now_us },
                    next,
                )
            };
        let peer = PeerInfo { receiver_id: id, mac, role, rssi_dbm, last_seen_us: now_us };
        let pos = choose|pos: int|
            {
                &&& 0 <= pos <= list.len()
                &&& next == #[trigger] list.insert(pos, peer)
            };
        let j = if i < pos {
            i
        } else {
            i + 1
        };
        assert(next[j] == list[i]);
    } else {
        assert(next[i] == list[i]);
    }
}

/// A new entry is added at the end as it is, and the entries before it keep their order.
/// Nothing is lost until two hundred are there; then it is the oldest.
pub proof fn lemma_log_loses_only_the_oldest(log: Seq<EventView>, entry: EventView, i: int)
    requires
        log.len() <= 200,
    ensures
        logged(log, entry).last() == entry,
        log.len() < 200 ==> logged(log, entry).len() == log.len() + 1,
        log.len() == 200 ==> logged(log, entry).len() == 200,
        log.len() < 200 && 0 <= i < log.len() ==> logged(log, entry)[i] == log[i],
        log.len() == 200 && 0 <= i < 199 ==> logged(log, entry)[i] == log[i + 1],
{
}

/// A note and a warning are logged with their words and their time, and change nothing
/// else.
pub proof fn lemma_notes_and_warnings_are_only_logged(app: AppView, summary: Seq<char>, now_us: u64)
    ensures
        app.noting(summary, now_us).events.last() == (EventView {
            ts_us: now_us,
            dir: EventDirection::Info,
            summary,
            bytes: None,
        }),
        app.warning(summary, now_us).events.last() == (EventView {
            ts_us: now_us,
            dir: EventDirection::Warn,
            summary,
            bytes: None,
        }),
        app.noting(summary, now_us) == (AppView { events: app.noting(summary, now_us).events, ..app }),
        app.warning(summary, now_us) == (AppView { events: app.warning(summary, now_us).events, ..app }),
{
}

/// Command numbers go up by one and stop at the largest: they never start over.
pub proof fn lemma_command_numbers_go_up(count: u32)
    ensures
        count < 0xFFFF_FFFF ==> next_seq(count) == count + 1,
        count == 0xFFFF_FFFF ==> next_seq(count) == 0xFFFF_FFFF,
{
}

/// What a report leaves in the list. A listed endpoint has the role, the signal strength
/// and the time of its newest report, under the id it had; all others are as they were.
pub proof fn lemma_report_refreshes_its_endpoint(
    list: Seq<PeerInfo>,
    role: [u8; ROLE_TAG_LEN],
    rssi_dbm: i8,
    now_us: u64,
    next: Seq<PeerInfo>,
    at: int,
    i: int,
)
    requires
        list_wf(list),
        0 <= at < list.len(),
        0 <= i < list.len(),
        reported(list, list[at].mac, role, rssi_dbm, now_us, next),
    ensures
        next.len() == list.len(),
        i != at ==> next[i] == list[i],
        i == at ==> next[i] == (PeerInfo {
            receiver_id: list[at].receiver_id,
            mac: list[at].mac,
            role,
            rssi_dbm,
            last_seen_us: now_us,
        }),
{
    assert(mac_listed(list, list[at].mac));
    let j = choose|j: int|
        {
            &&& 0 <= j < list.len()
            &&& (#[trigger] list[j]).mac == list[at].mac
            &&& next == list.update(j, PeerInfo { role, rssi_dbm, last_seen_us: now_us, ..list[j] })
        };
    if j < at {
        assert(list[j].mac != list[at].mac);
    } else if at < j {
        assert(list[at].mac != list[j].mac);
    }
}

/// A new endpoint enters the list as it was reported, under the smallest id that nobody
/// has, and nobody else changes. With all 32 ids in use the report is dropped.
pub proof fn lemma_report_lists_a_new_endpoint(
    list: Seq<PeerInfo>,
    mac: [u8; MAC_LEN],
    role: [u8; ROLE_TAG_LEN],
    rssi_dbm: i8,
    now_us: u64,
    next: Seq<PeerInfo>,
    free: u8,
)
    requires
        list_wf(list),
        forall|i: int| 0 <= i < list.len() ==> (#[trigger] list[i]).mac != mac,
        reported(list, mac, role, rssi_dbm, now_us, next),
    ensures
        free < 32 && (forall|i: int| 0 <= i < list.len() ==> (#[trigger] list[i]).receiver_id != free) ==> {
            &&& next.len() == list.len() + 1
            &&& exists|j: int|
                #![trigger next[j]]
                0 <= j < next.len() && next[j].mac == mac && next[j].role == role && next[j].rssi_dbm == rssi_dbm
                    && next[j].last_seen_us == now_us && next[j].receiver_id <= free && (forall|i: int|
                    0 <= i < list.len() ==> (#[trigger] list[i]).receiver_id != next[j].receiver_id)
        },
        next != list ==> next.len() == list.len() + 1,
        next == list ==> id_listed(list, free as int) || free >= 32,
{
    if free < 32 && !id_listed(list, free as int) {
        lemma_smallest_unlisted_exists(list, free as int);
    }
    if exists|id: int| smallest_unlisted(list, id) {
        let id = choose|id: u8|
            {
                &&& #[trigger] smallest_unlisted(list, id as int)
                &&& put_in_order(
                    list,
                    PeerInfo { receiver_id: id, mac, role, rssi_dbm, last_seen_us: now_us },
                    next,
                )
            };
        let peer = PeerInfo { receiver_id: id, mac, role, rssi_dbm, last_seen_us: now_us };
        let pos = choose|pos: int|
            {
                &&& 0 <= pos <= list.len()
                &&& next == #[trigger] list.insert(pos, peer)
            };
        assert(next[pos] == peer);
        if free < id {
            assert(id_listed(list, free as int));
        }
    }
}

proof fn lemma_smallest_unlisted_exists(list: Seq<PeerInfo>, free: int)
    requires
        0 <= free < MAX_PEERS,
        !id_listed(list, free),
    ensures
        exists|id: int| 0 <= id <= free && smallest_unlisted(list, id),
    decreases free,
{
    if !smallest_unlisted(list, free) {
        let k = choose|k: int| 0 <= k < free && !#[trigger] id_listed(list, k);
        lemma_smallest_unlisted_exists(list, k);
    }
}

/// An address as text reads back byte by byte: two hexadecimal digits for each, with a
/// colon between two bytes and none at the end.
pub proof fn lemma_address_reads_back(mac: Seq<u8>, i: int)
    requires
        0 <= i < mac.len(),
    ensures
        mac_text(mac).len() == 3 * mac.len() - 1,
        text::sign_value(mac_text(mac)[3 * i]) * 16 + text::sign_value(mac_text(mac)[3 * i + 1]) == mac[i],
        i < mac.len() - 1 ==> mac_text(mac)[3 * i + 2] == ':',
    decreases mac.len(),
{
    reveal_strlit(":");
    text::lemma_byte_reads_back(mac.last());
    if mac.len() > 1 {
        let front = mac.drop_last();
        let j = if i < front.len() {
            i
        } else {
            0
        };
        lemma_address_reads_back(front, j);
        assert(mac_text(mac) == mac_text(front) + ":"@ + text::hex_byte(mac.last()));
        assert(mac_text(front).len() == 3 * front.len() - 1);
    }
}

/// Every state of the connection, and every kind of entry, has its own class.
pub proof fn lemma_classes_tell_states_apart()
    ensures
        ConnState::Disconnected.css_text() == "conn-off"@,
        ConnState::Connecting.css_text() == "conn-connecting"@,
        ConnState::Connected.css_text() == "conn-on"@,
        EventDirection::Rx.badge_class_text() == "badge-rx"@,
        EventDirection::Tx.badge_class_text() == "badge-tx"@,
        EventDirection::Info.badge_class_text() == "badge-info"@,
        EventDirection::Warn.badge_class_text() == "badge-warn"@,
        EventDirection::Rx.label_text() == "RX"@,
        EventDirection::Tx.label_text() == "TX"@,
        EventDirection::Info.label_text() == "IN"@,
        EventDirection::Warn.label_text() == "WN"@,
{
}

} // verus!
