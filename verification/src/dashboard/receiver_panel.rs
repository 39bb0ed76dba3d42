//! The list of endpoints.

use super::state::{self, AppState, PeerInfo, RSSI_UNKNOWN};
use crate::comm::peer_registry;
use crate::text;
use vstd::prelude::*;

verus! {

/// The class of a signal strength: strong from -40 dBm up, weak from -66 dBm down.
pub open spec fn rssi_class_text(rssi_dbm: i8) -> Seq<char> {
    if rssi_dbm == RSSI_UNKNOWN {
        "rssi-unknown"@
    } else if rssi_dbm <= -66 {
        "rssi-weak"@
    } else if rssi_dbm <= -41 {
        "rssi-medium"@
    } else {
        "rssi-strong"@
    }
}

/// The class of a signal strength.
#[must_use]
pub fn rssi_class(rssi_dbm: i8) -> (s: &'static str)
    ensures
        s@ == rssi_class_text(rssi_dbm),
{
    if rssi_dbm == RSSI_UNKNOWN {
        "rssi-unknown"
    } else if rssi_dbm <= -66 {
        "rssi-weak"
    } else if rssi_dbm <= -41 {
        "rssi-medium"
    } else {
        "rssi-strong"
    }
}

/// A signal strength as text, dashes if it is not known.
pub open spec fn rssi_shown(rssi_dbm: i8) -> Seq<char> {
    if rssi_dbm == RSSI_UNKNOWN {
        "--"@
    } else {
        text::integer(rssi_dbm as int)
    }
}

/// A signal strength as text.
#[must_use]
pub fn rssi_text(rssi_dbm: i8) -> (s: String)
    ensures
        s@ == rssi_shown(rssi_dbm),
{
    let mut s = String::new();
    if rssi_dbm == RSSI_UNKNOWN {
        s.append("--");
    } else {
        text::push_integer(&mut s, rssi_dbm as i32);
    }
    assert(s@ =~= rssi_shown(rssi_dbm));
    s
}

/// Whole seconds since an endpoint was heard, zero if it was heard in the future.
pub open spec fn seconds_between(last_seen_us: u64, now_us: u64) -> int {
    if now_us <= last_seen_us {
        0
    } else {
        (now_us - last_seen_us) / 1_000_000
    }
}

/// Whole seconds since an endpoint was heard.
#[must_use]
pub fn seconds_since(last_seen_us: u64, now_us: u64) -> (s: u64)
    ensures
        s == seconds_between(last_seen_us, now_us),
{
    if now_us <= last_seen_us {
        0
    } else {
        (now_us - last_seen_us) / 1_000_000
    }
}

/// One line of the list.
pub struct ReceiverRow {
    pub id: u8,
    pub aria: String,
    pub role: String,
    pub mac: String,
    pub rssi_class: String,
    pub rssi: String,
    pub seen: String,
}

impl ReceiverRow {
    /// The line shows this endpoint at this time.
    pub open spec fn shows(self, peer: PeerInfo, now_us: u64) -> bool {
        let role = text::readable(peer_registry::role_head(peer.role@));
        &&& self.id == peer.receiver_id
        &&& self.aria@ == "接收方 "@ + text::decimal(peer.receiver_id as nat) + " "@ + role
        &&& self.role@ == role
        &&& self.mac@ == state::mac_text(peer.mac@)
        &&& self.rssi_class@ == "receiver-rssi mono "@ + rssi_class_text(peer.rssi_dbm)
        &&& self.rssi@ == rssi_shown(peer.rssi_dbm) + "dBm"@
        &&& self.seen@ == text::decimal(seconds_between(peer.last_seen_us, now_us) as nat) + "s 前"@
    }

    /// The line of an endpoint.
    pub fn new(peer: &PeerInfo, now_us: u64) -> (row: ReceiverRow)
        ensures
            row.shows(*peer, now_us),
    {
        let role = peer.role_str();
        let mut aria = String::new();
        aria.append("接收方 ");
        text::push_decimal(&mut aria, peer.receiver_id as u64);
        aria.append(" ");
        aria.append(role);
        assert(aria@ =~= "接收方 "@ + text::decimal(peer.receiver_id as nat) + " "@ + role@);
        let mut class = String::new();
        class.append("receiver-rssi mono ");
        class.append(rssi_class(peer.rssi_dbm));
        assert(class@ =~= "receiver-rssi mono "@ + rssi_class_text(peer.rssi_dbm));
        let mut rssi = rssi_text(peer.rssi_dbm);
        rssi.append("dBm");
        let mut seen = text::decimal_text(seconds_since(peer.last_seen_us, now_us));
        seen.append("s 前");
        ReceiverRow {
            id: peer.receiver_id,
            aria,
            role: role.to_string(),
            mac: peer.mac_str(),
            rssi_class: class,
            rssi,
            seen,
        }
    }
}

/// What the list of endpoints shows.
pub struct ReceiverPanel {
    pub count: usize,
    pub rows: Vec<ReceiverRow>,
}

impl ReceiverPanel {
    /// The list of a dashboard: one line per endpoint, in order.
    pub fn new(app: &AppState, now_us: u64) -> (p: ReceiverPanel)
        ensures
            p.count == app.receivers@.len(),
            p.rows@.len() == app.receivers@.len(),
            forall|i: int|
                0 <= i < p.rows@.len() ==> (#[trigger] p.rows@[i]).shows(app.receivers@[i], now_us),
    {
        let mut rows: Vec<ReceiverRow> = Vec::new();
        let mut i: usize = 0;
        while i < app.receivers.len()
            invariant
                i <= app.receivers@.len(),
                rows@.len() == i,
                forall|k: int| 0 <= k < i ==> (#[trigger] rows@[k]).shows(app.receivers@[k], now_us),
            decreases app.receivers@.len() - i,
        {
            rows.push(ReceiverRow::new(&app.receivers[i], now_us));
            i = i + 1;
        }
        ReceiverPanel { count: app.receivers.len(), rows }
    }
}

// ---- Laws ----

/// The limits of the classes: strong from -40 dBm up, medium from -65 dBm up, weak below,
/// and -127 dBm stands for a strength that is not known.
pub proof fn lemma_limits_of_the_signal_classes(rssi_dbm: i8)
    ensures
        rssi_dbm >= -40 ==> rssi_class_text(rssi_dbm) == "rssi-strong"@,
        -65 <= rssi_dbm < -40 ==> rssi_class_text(rssi_dbm) == "rssi-medium"@,
        rssi_dbm < -65 && rssi_dbm != -127 ==> rssi_class_text(rssi_dbm) == "rssi-weak"@,
        rssi_dbm == -127 ==> rssi_class_text(rssi_dbm) == "rssi-unknown"@,
        rssi_dbm == -127 ==> rssi_shown(rssi_dbm) == "--"@,
        rssi_dbm != -127 ==> rssi_shown(rssi_dbm) == text::integer(rssi_dbm as int),
{
}

/// Ages are whole seconds, rounded down; the future counts as now.
pub proof fn lemma_ages_are_whole_seconds(last_seen_us: u64, now_us: u64)
    ensures
        now_us >= last_seen_us ==> seconds_between(last_seen_us, now_us) * 1_000_000 <= now_us - last_seen_us < (
        seconds_between(last_seen_us, now_us) + 1) * 1_000_000,
        now_us < last_seen_us ==> seconds_between(last_seen_us, now_us) == 0,
{
}

} // verus!
