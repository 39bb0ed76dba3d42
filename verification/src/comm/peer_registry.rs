//! The coordinator's directory of endpoints.
//!
//! An endpoint is known by its address and addressed by a small id, which is its
//! bit in a frame's `dest_mask`. The directory hands out ids, keeps the entries
//! in ascending id order, and forgets endpoints that fall silent: when it is full
//! the one heard least recently makes room, and `prune` drops all that were not
//! heard for a given time.

use crate::bits;
use crate::time::{Duration, Instant};
use vstd::prelude::*;

verus! {

/// Most endpoints that can be known at once: one per bit of `dest_mask`.
pub const MAX_PEERS: usize = 32;

/// Bytes of a role tag.
pub const ROLE_TAG_LEN: usize = 3;

/// Bytes of an address.
pub const MAC_LEN: usize = 6;

/// Stands for a signal strength that is not known.
pub const RSSI_UNKNOWN: i8 = -128;

/// What is known of an endpoint.
#[derive(Debug, Clone, Copy, PartialEq, Eq)]
pub struct PeerInfo {
    pub receiver_id: u8,
    pub mac: [u8; MAC_LEN],
    pub role: [u8; ROLE_TAG_LEN],
    pub rssi_dbm: i8,
}

/// The part of a role tag before its first zero byte.
pub open spec fn trimmed_role(role: Seq<u8>, trimmed: Seq<u8>) -> bool {
    &&& trimmed.len() <= role.len()
    &&& trimmed == role.subrange(0, trimmed.len() as int)
    &&& forall|i: int| 0 <= i < trimmed.len() ==> #[trigger] role[i] != 0
    &&& trimmed.len() < role.len() ==> role[trimmed.len() as int] == 0
}

/// The part of a role tag before its first zero byte.
pub open spec fn role_head(role: Seq<u8>) -> Seq<u8>
    decreases role.len(),
{
    if role.len() == 0 || role[0] == 0 {
        Seq::empty()
    } else {
        seq![role[0]] + role_head(role.subrange(1, role.len() as int))
    }
}

/// The trimmed role is that part.
pub proof fn lemma_trimmed_is_head(role: Seq<u8>, trimmed: Seq<u8>)
    requires
        trimmed_role(role, trimmed),
    ensures
        trimmed == role_head(role),
    decreases role.len(),
{
    if role.len() > 0 && role[0] != 0 {
        let rest = role.subrange(1, role.len() as int);
        let t = trimmed.subrange(1, trimmed.len() as int);
        assert(t =~= rest.subrange(0, t.len() as int));
        lemma_trimmed_is_head(rest, t);
        assert(trimmed =~= seq![role[0]] + role_head(rest));
    } else {
        assert(trimmed =~= Seq::<u8>::empty());
    }
}

/// How many bytes of a role tag come before its first zero byte.
pub fn role_len(role: &[u8; ROLE_TAG_LEN]) -> (n: usize)
    ensures
        n <= ROLE_TAG_LEN,
        trimmed_role(role@, role@.subrange(0, n as int)),
{
    let mut n: usize = 0;
    while n < ROLE_TAG_LEN && role[n] != 0
        invariant
            n <= ROLE_TAG_LEN,
            forall|i: int| 0 <= i < n ==> #[trigger] role@[i] != 0,
        decreases ROLE_TAG_LEN - n,
    {
        n = n + 1;
    }
    n
}

impl PeerInfo {
    /// The role tag without its padding.
    pub fn role_bytes(&self) -> (trimmed: &[u8])
        ensures
            trimmed_role(self.role@, trimmed@),
            trimmed@ == role_head(self.role@),
    {
        let n: usize = role_len(&self.role);
        let trimmed = vstd::slice::slice_subrange(self.role.as_slice(), 0, n);
        proof {
            lemma_trimmed_is_head(self.role@, trimmed@);
        }
        trimmed
    }
}

/// What became of a report.
#[derive(Debug, Clone, Copy, PartialEq, Eq, Structural)]
pub enum UpsertOutcome {
    /// A new endpoint got an id.
    Inserted { receiver_id: u8 },
    /// A known endpoint was refreshed.
    Updated { receiver_id: u8 },
    /// A new endpoint took the place of the one heard least recently.
    Evicted { receiver_id: u8, evicted_id: u8 },
    /// Nothing could be written. Does not happen: eviction always makes room.
    Full,
}

/// A directory entry: an endpoint and when it was last heard.
#[derive(Debug, Clone, Copy, PartialEq, Eq)]
pub struct PeerEntry {
    pub info: PeerInfo,
    pub last_seen: Instant,
}

/// Compares two addresses.
pub fn same_mac(a: &[u8; MAC_LEN], b: &[u8; MAC_LEN]) -> (same: bool)
    ensures
        same == (*a == *b),
{
    let mut i: usize = 0;
    while i < MAC_LEN
        invariant
            i <= MAC_LEN,
            forall|k: int| 0 <= k < i ==> #[trigger] a@[k] == b@[k],
        decreases MAC_LEN - i,
    {
        if a[i] != b[i] {
            assert(a@[i as int] != b@[i as int]);
            return false;
        }
        i = i + 1;
    }
    assert(*a =~= *b);
    true
}

// ---- The fixed-capacity vectors that hold the directory and its snapshots ----

/// The entries of a directory, in a `heapless::Vec` of capacity `MAX_PEERS`.
#[verifier::external_body]
pub struct PeerTable {
    items: heapless::Vec<PeerEntry, MAX_PEERS>,
}

/// What a table holds, in order.
pub uninterp spec fn table_entries(table: PeerTable) -> Seq<PeerEntry>;

impl View for PeerTable {
    type V = Seq<PeerEntry>;

    open spec fn view(&self) -> Seq<PeerEntry> {
        table_entries(*self)
    }
}

/// `heapless::Vec::new`: holds nothing.
#[verifier::external_body]
fn table_new() -> (table: PeerTable)
    ensures
        table_entries(table) == Seq::<PeerEntry>::empty(),
{
    PeerTable { items: heapless::Vec::new() }
}

/// `heapless::Vec::as_slice`: the items in order. There are never more than the
/// capacity.
#[verifier::external_body]
fn table_slice(table: &PeerTable) -> (items: &[PeerEntry])
    ensures
        items@ == table_entries(*table),
        items@.len() <= MAX_PEERS,
{
    table.items.as_slice()
}

/// `heapless::Vec::as_mut_slice`, for one assignment: the item at `index` is
/// replaced.
#[verifier::external_body]
fn table_set(table: &mut PeerTable, index: usize, entry: PeerEntry)
    requires
        index < table_entries(*old(table)).len(),
    ensures
        table_entries(*final(table)) == table_entries(*old(table)).update(index as int, entry),
{
    table.items.as_mut_slice()[index] = entry;
}

/// `heapless::Vec::push`: appends, unless the vector is at its capacity.
#[verifier::external_body]
fn table_push(table: &mut PeerTable, entry: PeerEntry) -> (pushed: bool)
    ensures
        pushed == (table_entries(*old(table)).len() < MAX_PEERS),
        table_entries(*final(table)) == (if pushed {
            table_entries(*old(table)).push(entry)
        } else {
            table_entries(*old(table))
        }),
{
    table.items.push(entry).is_ok()
}

/// `heapless::Vec::remove`: takes the item at `index` out and closes the gap.
#[verifier::external_body]
fn table_remove(table: &mut PeerTable, index: usize) -> (removed: PeerEntry)
    requires
        index < table_entries(*old(table)).len(),
    ensures
        removed == table_entries(*old(table))[index as int],
        table_entries(*final(table)) == table_entries(*old(table)).remove(index as int),
{
    table.items.remove(index)
}

/// `heapless::Vec::clear`: holds nothing.
#[verifier::external_body]
fn table_clear(table: &mut PeerTable)
    ensures
        table_entries(*final(table)) == Seq::<PeerEntry>::empty(),
{
    table.items.clear()
}

/// `heapless::Vec::retain` with `is_fresh` as the predicate: the fresh items stay,
/// in their order, the others leave.
#[verifier::external_body]
fn table_retain_fresh(table: &mut PeerTable, now: Instant, ttl: Duration)
    ensures
        table_entries(*final(table)) == table_entries(*old(table)).filter(
            |e: PeerEntry| fresh(e, now, ttl),
        ),
{
    table.items.retain(|entry| is_fresh(entry, now, ttl))
}

/// A snapshot of the directory, in a `heapless::Vec` of capacity `MAX_PEERS`.
#[verifier::external_body]
pub struct PeerList {
    items: heapless::Vec<PeerInfo, MAX_PEERS>,
}

/// What a snapshot holds, in order.
pub uninterp spec fn list_items(list: PeerList) -> Seq<PeerInfo>;

impl View for PeerList {
    type V = Seq<PeerInfo>;

    open spec fn view(&self) -> Seq<PeerInfo> {
        list_items(*self)
    }
}

/// `heapless::Vec::new`: holds nothing.
#[verifier::external_body]
fn list_new() -> (list: PeerList)
    ensures
        list_items(list) == Seq::<PeerInfo>::empty(),
{
    PeerList { items: heapless::Vec::new() }
}

/// `heapless::Vec::push`: appends, unless the vector is at its capacity.
#[verifier::external_body]
fn list_push(list: &mut PeerList, info: PeerInfo) -> (pushed: bool)
    ensures
        pushed == (list_items(*old(list)).len() < MAX_PEERS),
        list_items(*final(list)) == (if pushed {
            list_items(*old(list)).push(info)
        } else {
            list_items(*old(list))
        }),
{
    list.items.push(info).is_ok()
}

/// `heapless::Vec::as_slice`: the items in order. There are never more than the
/// capacity.
#[verifier::external_body]
fn list_slice(list: &PeerList) -> (items: &[PeerInfo])
    ensures
        items@ == list_items(*list),
        items@.len() <= MAX_PEERS,
{
    list.items.as_slice()
}

impl PeerList {
    /// An empty list.
    pub fn new() -> (list: PeerList)
        ensures
            list@ == Seq::<PeerInfo>::empty(),
    {
        list_new()
    }

    /// The endpoints in order.
    pub fn as_slice(&self) -> (items: &[PeerInfo])
        ensures
            items@ == self@,
            items@.len() <= MAX_PEERS,
    {
        list_slice(self)
    }

    /// Number of endpoints.
    pub fn len(&self) -> (n: usize)
        ensures
            n == self@.len(),
            n <= MAX_PEERS,
    {
        list_slice(self).len()
    }

    /// Whether the list is empty.
    pub fn is_empty(&self) -> (r: bool)
        ensures
            r == (self@.len() == 0),
    {
        list_slice(self).len() == 0
    }
}

// ---- What the directory means ----

/// Some entry of the directory has this id.
pub open spec fn id_taken(entries: Seq<PeerEntry>, id: int) -> bool {
    exists|i: int| 0 <= i < entries.len() && (#[trigger] entries[i]).info.receiver_id == id
}

/// Some entry of the directory has this address.
pub open spec fn mac_known(entries: Seq<PeerEntry>, mac: [u8; MAC_LEN]) -> bool {
    exists|i: int| 0 <= i < entries.len() && (#[trigger] entries[i]).info.mac == mac
}

/// The smallest id that no entry has.
pub open spec fn smallest_free(entries: Seq<PeerEntry>, id: int) -> bool {
    &&& 0 <= id < MAX_PEERS
    &&& !id_taken(entries, id)
    &&& forall|k: int| 0 <= k < id ==> #[trigger] id_taken(entries, k)
}

/// The entry at `i` is the one heard least recently, the first of them if several
/// were last heard at the same time.
pub open spec fn least_recent(entries: Seq<PeerEntry>, i: int) -> bool {
    &&& 0 <= i < entries.len()
    &&& forall|k: int|
        0 <= k < entries.len() ==> entries[i].last_seen.ticks <= (#[trigger] entries[k]).last_seen.ticks
    &&& forall|k: int| 0 <= k < i ==> entries[i].last_seen.ticks < (#[trigger] entries[k]).last_seen.ticks
}

/// An entry is kept by `prune`: it was heard within `ttl`, or it claims to have
/// been heard in the future.
pub open spec fn fresh(e: PeerEntry, now: Instant, ttl: Duration) -> bool {
    now.ticks < e.last_seen.ticks || now.ticks - e.last_seen.ticks <= ttl.ticks
}

/// Whether `prune` keeps an entry.
pub fn is_fresh(e: &PeerEntry, now: Instant, ttl: Duration) -> (r: bool)
    ensures
        r == fresh(*e, now, ttl),
        r == (now.ticks - e.last_seen.ticks <= ttl.ticks),
{
    match now.checked_duration_since(e.last_seen) {
        None => true,
        Some(age) => age.ticks <= ttl.ticks,
    }
}

/// `next` is `entries` with `entry` put at its place in id order.
pub open spec fn inserted(entries: Seq<PeerEntry>, entry: PeerEntry, next: Seq<PeerEntry>) -> bool {
    exists|pos: int|
        0 <= pos <= entries.len() && next == #[trigger] entries.insert(pos, entry) && (forall|k: int|
            0 <= k < pos ==> (#[trigger] entries[k]).info.receiver_id < entry.info.receiver_id) && (
        forall|k: int| pos <= k < entries.len() ==> (#[trigger] entries[k]).info.receiver_id > entry.info.receiver_id)
}

/// A directory's entries: ids below `MAX_PEERS` in strictly ascending order, and
/// no address twice.
pub open spec fn entries_wf(entries: Seq<PeerEntry>) -> bool {
    &&& entries.len() <= MAX_PEERS
    &&& forall|i: int| 0 <= i < entries.len() ==> (#[trigger] entries[i]).info.receiver_id < MAX_PEERS
    &&& forall|i: int, j: int|
        0 <= i < j < entries.len() ==> (#[trigger] entries[i]).info.receiver_id < (#[trigger] entries[j]).info.receiver_id
    &&& forall|i: int, j: int|
        0 <= i < j < entries.len() ==> (#[trigger] entries[i]).info.mac != (#[trigger] entries[j]).info.mac
}

/// In id order an entry's id is at least its position.
proof fn lemma_id_at_least_index(entries: Seq<PeerEntry>, i: int)
    requires
        entries_wf(entries),
        0 <= i < entries.len(),
    ensures
        entries[i].info.receiver_id >= i,
    decreases i,
{
    if i > 0 {
        lemma_id_at_least_index(entries, i - 1);
    }
}

/// If the ids `0..=k` are all taken, id `k` stands at position `k`.
proof fn lemma_dense_ids(entries: Seq<PeerEntry>, k: int)
    requires
        entries_wf(entries),
        0 <= k,
        forall|m: int| 0 <= m <= k ==> #[trigger] id_taken(entries, m),
    ensures
        k < entries.len(),
        entries[k].info.receiver_id == k,
    decreases k,
{
    assert(id_taken(entries, k));
    let j = choose|j: int| 0 <= j < entries.len() && (#[trigger] entries[j]).info.receiver_id == k;
    lemma_id_at_least_index(entries, j);
    if j < k {
        lemma_dense_ids(entries, j);
        assert(false);
    }
}

/// The directory is full exactly when every id is taken.
pub proof fn lemma_full_iff_no_free_id(entries: Seq<PeerEntry>)
    requires
        entries_wf(entries),
    ensures
        entries.len() == MAX_PEERS <==> forall|k: int| 0 <= k < MAX_PEERS ==> #[trigger] id_taken(entries, k),
{
    if forall|k: int| 0 <= k < MAX_PEERS ==> #[trigger] id_taken(entries, k) {
        lemma_dense_ids(entries, MAX_PEERS - 1);
    }
    if entries.len() == MAX_PEERS {
        assert forall|k: int| 0 <= k < MAX_PEERS implies #[trigger] id_taken(entries, k) by {
            lemma_full_ids(entries, k);
        }
    }
}

/// In a full directory id `k` stands at position `k`.
proof fn lemma_full_ids(entries: Seq<PeerEntry>, k: int)
    requires
        entries_wf(entries),
        entries.len() == MAX_PEERS,
        0 <= k < MAX_PEERS,
    ensures
        entries[k].info.receiver_id == k,
    decreases MAX_PEERS - k,
{
    lemma_id_at_least_index(entries, k);
    if k < MAX_PEERS - 1 {
        lemma_full_ids(entries, k + 1);
    }
}

/// Putting an entry with a free id and a new address at its place keeps the
/// directory in order.
proof fn lemma_inserted_wf(entries: Seq<PeerEntry>, entry: PeerEntry, next: Seq<PeerEntry>)
    requires
        entries_wf(entries),
        entries.len() < MAX_PEERS,
        entry.info.receiver_id < MAX_PEERS,
        !mac_known(entries, entry.info.mac),
        inserted(entries, entry, next),
    ensures
        entries_wf(next),
        next.len() == entries.len() + 1,
{
    let pos = choose|pos: int|
        0 <= pos <= entries.len() && next == #[trigger] entries.insert(pos, entry) && (forall|k: int|
            0 <= k < pos ==> (#[trigger] entries[k]).info.receiver_id < entry.info.receiver_id) && (
        forall|k: int| pos <= k < entries.len() ==> (#[trigger] entries[k]).info.receiver_id > entry.info.receiver_id);
    assert(next.len() == entries.len() + 1);
    assert(forall|i: int| 0 <= i < pos ==> next[i] == entries[i]);
    assert(next[pos] == entry);
    assert(forall|i: int| pos < i < next.len() ==> next[i] == entries[i - 1]);
    assert forall|i: int, j: int| 0 <= i < j < next.len() implies (#[trigger] next[i]).info.receiver_id
        < (#[trigger] next[j]).info.receiver_id && next[i].info.mac != next[j].info.mac by {
        let a = if i < pos {
            i
        } else {
            i - 1
        };
        let b = if j < pos {
            j
        } else {
            j - 1
        };
        if i != pos && j != pos {
            assert(entries[a].info.receiver_id < entries[b].info.receiver_id);
        } else if i == pos {
            assert(entries[b].info.mac != entry.info.mac);
        } else {
            assert(entries[a].info.mac != entry.info.mac);
        }
    }
}

/// Filtering keeps order, bounds and distinctness.
proof fn lemma_filter_wf(entries: Seq<PeerEntry>, keep: spec_fn(PeerEntry) -> bool)
    requires
        entries_wf(entries),
    ensures
        entries_wf(entries.filter(keep)),
        entries.filter(keep).len() <= entries.len(),
        forall|e: PeerEntry| #[trigger] entries.filter(keep).contains(e) <==> entries.contains(e) && keep(e),
    decreases entries.len(),
{
    reveal(Seq::filter);
    if entries.len() > 0 {
        let front = entries.drop_last();
        lemma_filter_wf(front, keep);
        let kept = front.filter(keep);
        let last = entries.last();
        assert(entries == front.push(last));
        assert(entries.filter(keep) == if keep(last) {
            kept.push(last)
        } else {
            kept
        });
        assert forall|e: PeerEntry| #[trigger] entries.contains(e) <==> front.contains(e) || e == last by {
            if front.contains(e) {
                let i = choose|i: int| 0 <= i < front.len() && front[i] == e;
                assert(entries[i] == e);
            }
            if e == last {
                assert(entries[entries.len() - 1] == e);
            }
        }
        assert forall|i: int| 0 <= i < kept.len() implies (#[trigger] kept[i]).info.receiver_id
            < last.info.receiver_id && kept[i].info.mac != last.info.mac && kept[i].info.receiver_id
            < MAX_PEERS by {
            assert(kept.contains(kept[i]));
            let j = choose|j: int| 0 <= j < front.len() && front[j] == kept[i];
            assert(entries[j] == kept[i]);
        }
        let out = entries.filter(keep);
        assert forall|e: PeerEntry| #[trigger] out.contains(e) <==> entries.contains(e) && keep(e) by {
            if keep(last) {
                if kept.contains(e) {
                    let i = choose|i: int| 0 <= i < kept.len() && kept[i] == e;
                    assert(out[i] == e);
                }
                if e == last {
                    assert(out[out.len() - 1] == e);
                }
            }
        }
    }
}

/// The directory of endpoints.
pub struct PeerRegistry {
    table: PeerTable,
}

impl View for PeerRegistry {
    type V = Seq<PeerEntry>;

    closed spec fn view(&self) -> Seq<PeerEntry> {
        self.table@
    }
}

impl PeerRegistry {
    /// The directory's invariant, which every operation keeps.
    pub open spec fn wf(self) -> bool {
        entries_wf(self@)
    }

    /// An empty directory.
    pub fn new() -> (r: PeerRegistry)
        ensures
            r.wf(),
            r@ == Seq::<PeerEntry>::empty(),
    {
        PeerRegistry { table: table_new() }
    }

    /// The smallest free id, if there is one.
    fn allocate_id(&self) -> (id: Option<u8>)
        requires
            self.wf(),
        ensures
            match id {
                Some(id) => smallest_free(self@, id as int),
                None => forall|k: int| 0 <= k < MAX_PEERS ==> #[trigger] id_taken(self@, k),
            },
    {
        let entries = table_slice(&self.table);
        let mut used_mask: u32 = 0;
        let mut i: usize = 0;
        proof {
            bits::lemma_none_and_all();
        }
        while i < entries.len()
            invariant
                i <= entries@.len(),
                entries@ == self@,
                self.wf(),
                forall|k: int|
                    0 <= k < MAX_PEERS ==> (#[trigger] bits::has_bit(used_mask, k) <==> exists|m: int|
                        0 <= m < i && (#[trigger] entries@[m]).info.receiver_id == k),
            decreases entries@.len() - i,
        {
            let id: u8 = entries[i].info.receiver_id;
            let before: u32 = used_mask;
            proof {
                bits::lemma_set_bit(before, id as int);
            }
            used_mask = before | (1u32 << (id as u32));
            proof {
                assert forall|k: int| 0 <= k < MAX_PEERS implies (#[trigger] bits::has_bit(used_mask, k) <==> exists|
                    m: int,
                | 0 <= m < i + 1 && (#[trigger] entries@[m]).info.receiver_id == k) by {
                    assert(bits::has_bit(before | bits::one_bit(id as int), k) <==> k == id || bits::has_bit(before, k));
                    if k == id {
                        assert(entries@[i as int].info.receiver_id == k);
                    }
                }
            }
            i = i + 1;
        }
        let free_bit: u32 = used_mask.trailing_ones();
        proof {
            assert forall|k: int| 0 <= k < MAX_PEERS implies (#[trigger] id_taken(self@, k) <==> bits::has_bit(used_mask, k)) by {
                if bits::has_bit(used_mask, k) {
                    let m = choose|m: int| 0 <= m < i && (#[trigger] entries@[m]).info.receiver_id == k;
                    assert(self@[m].info.receiver_id == k);
                }
            }
            bits::lemma_trailing_ones(used_mask, free_bit);
        }
        if free_bit >= 32 {
            None
        } else {
            Some(free_bit as u8)
        }
    }

    /// The position of an address in the directory.
    fn find_mac(&self, mac: &[u8; MAC_LEN]) -> (at: Option<usize>)
        ensures
            match at {
                Some(i) => i < self@.len() && self@[i as int].info.mac == *mac,
                None => !mac_known(self@, *mac),
            },
    {
        let entries = table_slice(&self.table);
        let mut i: usize = 0;
        while i < entries.len()
            invariant
                i <= entries@.len(),
                entries@ == self@,
                forall|k: int| 0 <= k < i ==> (#[trigger] entries@[k]).info.mac != *mac,
            decreases entries@.len() - i,
        {
            if same_mac(&entries[i].info.mac, mac) {
                return Some(i);
            }
            i = i + 1;
        }
        None
    }

    /// The position of an id in the directory.
    fn find_id(&self, receiver_id: u8) -> (at: Option<usize>)
        ensures
            match at {
                Some(i) => i < self@.len() && self@[i as int].info.receiver_id == receiver_id,
                None => !id_taken(self@, receiver_id as int),
            },
    {
        let entries = table_slice(&self.table);
        let mut i: usize = 0;
        while i < entries.len()
            invariant
                i <= entries@.len(),
                entries@ == self@,
                forall|k: int| 0 <= k < i ==> (#[trigger] entries@[k]).info.receiver_id != receiver_id,
            decreases entries@.len() - i,
        {
            if entries[i].info.receiver_id == receiver_id {
                return Some(i);
            }
            i = i + 1;
        }
        None
    }

    /// The position of the entry heard least recently.
    fn find_least_recent(&self) -> (at: usize)
        requires
            self@.len() > 0,
        ensures
            least_recent(self@, at as int),
    {
        let entries = table_slice(&self.table);
        let mut oldest: usize = 0;
        let mut i: usize = 1;
        while i < entries.len()
            invariant
                1 <= i <= entries@.len(),
                oldest < i,
                entries@ == self@,
                forall|k: int|
                    0 <= k < i ==> entries@[oldest as int].last_seen.ticks <= (#[trigger] entries@[k]).last_seen.ticks,
                forall|k: int|
                    0 <= k < oldest ==> entries@[oldest as int].last_seen.ticks < (#[trigger] entries@[k]).last_seen.ticks,
            decreases entries@.len() - i,
        {
            if entries[i].last_seen.ticks < entries[oldest].last_seen.ticks {
                oldest = i;
            }
            i = i + 1;
        }
        oldest
    }

    /// Puts a new entry at its place in id order.
    fn insert_in_order(&mut self, entry: PeerEntry)
        requires
            old(self).wf(),
            old(self)@.len() < MAX_PEERS,
            entry.info.receiver_id < MAX_PEERS,
            !id_taken(old(self)@, entry.info.receiver_id as int),
            !mac_known(old(self)@, entry.info.mac),
        ensures
            inserted(old(self)@, entry, final(self)@),
            final(self).wf(),
    {
        let ghost before = self@;
        let mut pos: usize = 0;
        let n: usize = {
            let entries = table_slice(&self.table);
            while pos < entries.len() && entries[pos].info.receiver_id <= entry.info.receiver_id
                invariant
                    pos <= entries@.len(),
                    entries@ == before,
                    forall|k: int|
                        0 <= k < pos ==> (#[trigger] before[k]).info.receiver_id <= entry.info.receiver_id,
                decreases entries@.len() - pos,
            {
                pos = pos + 1;
            }
            entries.len()
        };
        let _ = table_push(&mut self.table, entry);
        let mut i: usize = n;
        assert(self@ =~= before.push(entry));
        while i > pos
            invariant
                pos <= i <= n,
                n == before.len(),
                self@ == before.insert(i as int, entry),
            decreases i - pos,
        {
            let (lower, upper) = {
                let entries = table_slice(&self.table);
                (entries[i - 1], entries[i])
            };
            table_set(&mut self.table, i - 1, upper);
            table_set(&mut self.table, i, lower);
            assert(self@ =~= before.insert(i - 1, entry));
            i = i - 1;
        }
        proof {
            assert forall|k: int| 0 <= k < pos implies (#[trigger] before[k]).info.receiver_id
                < entry.info.receiver_id by {
                assert(before[k].info.receiver_id != entry.info.receiver_id);
            }
            assert(self@ == before.insert(pos as int, entry));
            lemma_inserted_wf(before, entry, self@);
        }
    }

    /// Records that an endpoint was heard.
    ///
    /// A known address keeps its id and is refreshed. A new one gets the smallest
    /// free id; in a full directory it takes the place, and the id, of the endpoint
    /// heard least recently.
    pub fn upsert(
        &mut self,
        mac: [u8; MAC_LEN],
        role: [u8; ROLE_TAG_LEN],
        rssi_dbm: i8,
        now: Instant,
    ) -> (outcome: UpsertOutcome)
        requires
            old(self).wf(),
        ensures
            final(self).wf(),
            upserted(old(self)@, mac, role, rssi_dbm, now, outcome, final(self)@),
    {
        let ghost before = self@;
        if let Some(at) = self.find_mac(&mac) {
            let id: u8 = table_slice(&self.table)[at].info.receiver_id;
            table_set(
                &mut self.table,
                at,
                PeerEntry { info: PeerInfo { receiver_id: id, mac, role, rssi_dbm }, last_seen: now },
            );
            proof {
                assert(self@ == before.update(at as int, self@[at as int]));
                assert forall|i: int, j: int| 0 <= i < j < self@.len() implies (#[trigger] self@[i]).info.receiver_id
                    < (#[trigger] self@[j]).info.receiver_id && self@[i].info.mac != self@[j].info.mac by {
                    assert(before[i].info.receiver_id < before[j].info.receiver_id);
                }
                assert(refreshed(before, at as int, role, rssi_dbm, now, self@));
            }
            return UpsertOutcome::Updated { receiver_id: id };
        }
        let mut evicted: Option<u8> = None;
        let new_id: u8 = match self.allocate_id() {
            Some(id) => id,
            None => {
                proof {
                    lemma_full_iff_no_free_id(before);
                }
                let oldest: usize = self.find_least_recent();
                let gone = table_remove(&mut self.table, oldest);
                evicted = Some(gone.info.receiver_id);
                proof {
                    lemma_removed(before, oldest as int);
                }
                match self.allocate_id() {
                    Some(id) => id,
                    None => gone.info.receiver_id,
                }
            },
        };
        let ghost room = self@;
        proof {
            lemma_full_iff_no_free_id(before);
            if evicted is None {
                assert(!id_taken(before, new_id as int));
            }
            assert(!mac_known(room, mac)) by {
                if evicted is Some {
                    let o = choose|o: int| least_recent(before, o) && room == before.remove(o);
                    assert forall|k: int| 0 <= k < room.len() implies (#[trigger] room[k]).info.mac != mac by {
                        assert(room[k] == if k < o {
                            before[k]
                        } else {
                            before[k + 1]
                        });
                    }
                }
            }
        }
        let entry = PeerEntry {
            info: PeerInfo { receiver_id: new_id, mac, role, rssi_dbm },
            last_seen: now,
        };
        self.insert_in_order(entry);
        match evicted {
            Some(evicted_id) => UpsertOutcome::Evicted { receiver_id: new_id, evicted_id },
            None => UpsertOutcome::Inserted { receiver_id: new_id },
        }
    }
}

/// `next` is the directory after the entry at `at` was refreshed.
pub open spec fn refreshed(
    entries: Seq<PeerEntry>,
    at: int,
    role: [u8; ROLE_TAG_LEN],
    rssi_dbm: i8,
    now: Instant,
    next: Seq<PeerEntry>,
) -> bool {
    &&& 0 <= at < entries.len()
    &&& next == entries.update(
        at,
        PeerEntry {
            info: PeerInfo { role, rssi_dbm, ..entries[at].info },
            last_seen: now,
        },
    )
}

/// What `upsert` does to the directory and what it answers.
pub open spec fn upserted(
    entries: Seq<PeerEntry>,
    mac: [u8; MAC_LEN],
    role: [u8; ROLE_TAG_LEN],
    rssi_dbm: i8,
    now: Instant,
    outcome: UpsertOutcome,
    next: Seq<PeerEntry>,
) -> bool {
    if mac_known(entries, mac) {
        exists|at: int|
            {
                &&& #[trigger] refreshed(entries, at, role, rssi_dbm, now, next)
                &&& entries[at].info.mac == mac
                &&& outcome == UpsertOutcome::Updated { receiver_id: entries[at].info.receiver_id }
            }
    } else if entries.len() < MAX_PEERS {
        match outcome {
            UpsertOutcome::Inserted { receiver_id } => {
                &&& smallest_free(entries, receiver_id as int)
                &&& inserted(
                    entries,
                    PeerEntry {
                        info: PeerInfo { receiver_id, mac, role, rssi_dbm },
                        last_seen: now,
                    },
                    next,
                )
            },
            _ => false,
        }
    } else {
        match outcome {
            UpsertOutcome::Evicted { receiver_id, evicted_id } => {
                &&& receiver_id == evicted_id
                &&& exists|o: int|
                    {
                        &&& #[trigger] least_recent(entries, o)
                        &&& entries[o].info.receiver_id == evicted_id
                        &&& inserted(
                            entries.remove(o),
                            PeerEntry {
                                info: PeerInfo { receiver_id, mac, role, rssi_dbm },
                                last_seen: now,
                            },
                            next,
                        )
                    }
            },
            _ => false,
        }
    }
}

/// Taking an entry out keeps the directory in order and frees exactly its id.
proof fn lemma_removed(entries: Seq<PeerEntry>, o: int)
    requires
        entries_wf(entries),
        0 <= o < entries.len(),
    ensures
        entries_wf(entries.remove(o)),
        forall|k: int| #[trigger] id_taken(entries.remove(o), k) <==> id_taken(entries, k) && k != entries[o].info.receiver_id,
{
    let next = entries.remove(o);
    assert(forall|i: int| 0 <= i < next.len() ==> next[i] == if i < o {
        entries[i]
    } else {
        entries[i + 1]
    });
    assert forall|i: int, j: int| 0 <= i < j < next.len() implies (#[trigger] next[i]).info.receiver_id
        < (#[trigger] next[j]).info.receiver_id && next[i].info.mac != next[j].info.mac by {
        let a = if i < o {
            i
        } else {
            i + 1
        };
        let b = if j < o {
            j
        } else {
            j + 1
        };
        assert(entries[a].info.receiver_id < entries[b].info.receiver_id);
    }
    assert forall|k: int| #[trigger] id_taken(next, k) <==> id_taken(entries, k) && k
        != entries[o].info.receiver_id by {
        if id_taken(next, k) {
            let i = choose|i: int| 0 <= i < next.len() && (#[trigger] next[i]).info.receiver_id == k;
            let a = if i < o {
                i
            } else {
                i + 1
            };
            assert(entries[a].info.receiver_id == k);
            if a < o {
                assert(entries[a].info.receiver_id < entries[o].info.receiver_id);
            } else {
                assert(entries[o].info.receiver_id < entries[a].info.receiver_id);
            }
        }
        if id_taken(entries, k) && k != entries[o].info.receiver_id {
            let a = choose|a: int| 0 <= a < entries.len() && (#[trigger] entries[a]).info.receiver_id == k;
            let i = if a < o {
                a
            } else {
                a - 1
            };
            assert(next[i].info.receiver_id == k);
        }
    }
}

/// The id under which an address is known, if it is.
pub open spec fn id_of(entries: Seq<PeerEntry>, mac: [u8; MAC_LEN], id: Option<u8>) -> bool {
    match id {
        Some(id) => exists|i: int|
            0 <= i < entries.len() && (#[trigger] entries[i]).info.mac == mac && entries[i].info.receiver_id == id,
        None => !mac_known(entries, mac),
    }
}

/// What is known of the endpoint with an id, if there is one.
pub open spec fn info_of(entries: Seq<PeerEntry>, id: int, info: Option<PeerInfo>) -> bool {
    match info {
        Some(info) => info.receiver_id == id && exists|i: int|
            0 <= i < entries.len() && (#[trigger] entries[i]).info == info,
        None => !id_taken(entries, id),
    }
}

/// The address of the endpoint with an id, if there is one.
pub open spec fn mac_of(entries: Seq<PeerEntry>, id: int, mac: Option<[u8; MAC_LEN]>) -> bool {
    match mac {
        Some(mac) => exists|i: int|
            0 <= i < entries.len() && (#[trigger] entries[i]).info.mac == mac && entries[i].info.receiver_id == id,
        None => !id_taken(entries, id),
    }
}

/// The endpoints of the entries, in order.
pub open spec fn infos(entries: Seq<PeerEntry>) -> Seq<PeerInfo> {
    Seq::new(entries.len(), |i: int| entries[i].info)
}

impl PeerRegistry {
    /// Drops every endpoint that was not heard for longer than `ttl` and says how
    /// many were dropped. An entry stamped in the future counts as heard.
    pub fn prune(&mut self, now: Instant, ttl: Duration) -> (removed: usize)
        requires
            old(self).wf(),
        ensures
            final(self).wf(),
            final(self)@ == old(self)@.filter(|e: PeerEntry| fresh(e, now, ttl)),
            forall|e: PeerEntry| #[trigger]
                final(self)@.contains(e) <==> old(self)@.contains(e) && now.ticks - e.last_seen.ticks <= ttl.ticks,
            removed == old(self)@.len() - final(self)@.len(),
    {
        let ghost entries = self@;
        let before: usize = table_slice(&self.table).len();
        table_retain_fresh(&mut self.table, now, ttl);
        proof {
            lemma_filter_wf(entries, |e: PeerEntry| fresh(e, now, ttl));
        }
        let after: usize = table_slice(&self.table).len();
        before - after
    }

    /// The id of an address.
    pub fn lookup_id_for_mac(&self, mac: &[u8; MAC_LEN]) -> (id: Option<u8>)
        ensures
            id_of(self@, *mac, id),
    {
        match self.find_mac(mac) {
            Some(i) => Some(table_slice(&self.table)[i].info.receiver_id),
            None => None,
        }
    }

    /// The address of an id.
    pub fn lookup_mac_for_id(&self, receiver_id: u8) -> (mac: Option<[u8; MAC_LEN]>)
        ensures
            mac_of(self@, receiver_id as int, mac),
    {
        match self.find_id(receiver_id) {
            Some(i) => Some(table_slice(&self.table)[i].info.mac),
            None => None,
        }
    }

    /// Everything known of the endpoint with an id.
    pub fn peer_by_id(&self, receiver_id: u8) -> (info: Option<PeerInfo>)
        ensures
            info_of(self@, receiver_id as int, info),
    {
        match self.find_id(receiver_id) {
            Some(i) => Some(table_slice(&self.table)[i].info),
            None => None,
        }
    }

    /// All endpoints, in ascending id order.
    pub fn snapshot(&self) -> (list: PeerList)
        ensures
            list@ == infos(self@),
    {
        let entries = table_slice(&self.table);
        let mut list = list_new();
        let mut i: usize = 0;
        while i < entries.len()
            invariant
                i <= entries@.len(),
                entries@.len() <= MAX_PEERS,
                entries@ == self@,
                list@ == infos(self@.subrange(0, i as int)),
            decreases entries@.len() - i,
        {
            let _ = list_push(&mut list, entries[i].info);
            i = i + 1;
            assert(list@ =~= infos(self@.subrange(0, i as int)));
        }
        assert(self@.subrange(0, i as int) =~= self@);
        list
    }

    /// Number of endpoints.
    pub fn len(&self) -> (n: usize)
        ensures
            n == self@.len(),
    {
        table_slice(&self.table).len()
    }

    /// Whether no endpoint is known.
    pub fn is_empty(&self) -> (r: bool)
        ensures
            r == (self@.len() == 0),
    {
        table_slice(&self.table).len() == 0
    }

    /// Forgets every endpoint.
    pub fn clear_for_test(&mut self)
        ensures
            final(self)@ == Seq::<PeerEntry>::empty(),
            final(self).wf(),
    {
        table_clear(&mut self.table);
    }
}

impl Default for PeerRegistry {
    fn default() -> (r: PeerRegistry)
        ensures
            r.wf(),
            r@ == Seq::<PeerEntry>::empty(),
    {
        PeerRegistry::new()
    }
}

// ---- Laws ----

/// Looking up an address by id and an id by address are inverse to each other.
pub proof fn lemma_lookups_are_inverse(entries: Seq<PeerEntry>, mac: [u8; MAC_LEN], id: u8)
    requires
        entries_wf(entries),
    ensures
        id_of(entries, mac, Some(id)) <==> mac_of(entries, id as int, Some(mac)),
{
}

/// A lookup finds what is in the directory, and only that: an entry's address gives its
/// id, its id gives its address and everything known of it, and what is in no entry is
/// not found.
pub proof fn lemma_lookups_find_exactly_the_entries(
    entries: Seq<PeerEntry>,
    i: int,
    id: Option<u8>,
    mac: Option<[u8; MAC_LEN]>,
    info: Option<PeerInfo>,
)
    requires
        entries_wf(entries),
        0 <= i < entries.len(),
        id_of(entries, entries[i].info.mac, id),
        mac_of(entries, entries[i].info.receiver_id as int, mac),
        info_of(entries, entries[i].info.receiver_id as int, info),
    ensures
        id == Some(entries[i].info.receiver_id),
        mac == Some(entries[i].info.mac),
        info == Some(entries[i].info),
{
}

/// What is in no entry is not found.
pub proof fn lemma_lookups_find_nothing_else(
    entries: Seq<PeerEntry>,
    unknown_mac: [u8; MAC_LEN],
    unknown_id: u8,
    id: Option<u8>,
    mac: Option<[u8; MAC_LEN]>,
    info: Option<PeerInfo>,
)
    requires
        forall|i: int| 0 <= i < entries.len() ==> (#[trigger] entries[i]).info.mac != unknown_mac,
        forall|i: int| 0 <= i < entries.len() ==> (#[trigger] entries[i]).info.receiver_id != unknown_id,
        id_of(entries, unknown_mac, id),
        mac_of(entries, unknown_id as int, mac),
        info_of(entries, unknown_id as int, info),
    ensures
        id is None,
        mac is None,
        info is None,
{
}

/// The list of endpoints is the directory without the times, entry by entry.
pub proof fn lemma_list_is_the_directory(entries: Seq<PeerEntry>)
    ensures
        infos(entries).len() == entries.len(),
        forall|i: int| 0 <= i < entries.len() ==> #[trigger] infos(entries)[i] == entries[i].info,
{
}

/// An address has at most one id and an id at most one address.
pub proof fn lemma_lookups_are_unique(
    entries: Seq<PeerEntry>,
    mac: [u8; MAC_LEN],
    id: Option<u8>,
    other: Option<u8>,
)
    requires
        entries_wf(entries),
        id_of(entries, mac, id),
        id_of(entries, mac, other),
    ensures
        id == other,
{
}

/// After a report the endpoint is known under the id that the report answered,
/// with what the report said.
pub proof fn lemma_upsert_then_lookup(
    entries: Seq<PeerEntry>,
    mac: [u8; MAC_LEN],
    role: [u8; ROLE_TAG_LEN],
    rssi_dbm: i8,
    now: Instant,
    outcome: UpsertOutcome,
    next: Seq<PeerEntry>,
)
    requires
        entries_wf(entries),
        upserted(entries, mac, role, rssi_dbm, now, outcome, next),
    ensures
        outcome.assigned() is Some,
        id_of(next, mac, outcome.assigned()),
        info_of(
            next,
            outcome.assigned()->0 as int,
            Some(PeerInfo { receiver_id: outcome.assigned()->0, mac, role, rssi_dbm }),
        ),
{
    if mac_known(entries, mac) {
        let at = choose|at: int|
            {
                &&& #[trigger] refreshed(entries, at, role, rssi_dbm, now, next)
                &&& entries[at].info.mac == mac
                &&& outcome == UpsertOutcome::Updated { receiver_id: entries[at].info.receiver_id }
            };
        assert(next[at].info.mac == mac);
    } else if entries.len() < MAX_PEERS {
        let entry = PeerEntry {
            info: PeerInfo { receiver_id: outcome.assigned()->0, mac, role, rssi_dbm },
            last_seen: now,
        };
        lemma_inserted_contains(entries, entry, next);
    } else {
        let o = choose|o: int|
            {
                &&& #[trigger] least_recent(entries, o)
                &&& inserted(
                    entries.remove(o),
                    PeerEntry {
                        info: PeerInfo { receiver_id: outcome.assigned()->0, mac, role, rssi_dbm },
                        last_seen: now,
                    },
                    next,
                )
            };
        let entry = PeerEntry {
            info: PeerInfo { receiver_id: outcome.assigned()->0, mac, role, rssi_dbm },
            last_seen: now,
        };
        lemma_inserted_contains(entries.remove(o), entry, next);
    }
}

/// A report changes no other endpoint's id: whoever is still known afterwards is
/// known under the id it had before.
pub proof fn lemma_upsert_keeps_other_ids(
    entries: Seq<PeerEntry>,
    mac: [u8; MAC_LEN],
    role: [u8; ROLE_TAG_LEN],
    rssi_dbm: i8,
    now: Instant,
    outcome: UpsertOutcome,
    next: Seq<PeerEntry>,
    other: [u8; MAC_LEN],
    id: u8,
)
    requires
        entries_wf(entries),
        upserted(entries, mac, role, rssi_dbm, now, outcome, next),
        other != mac,
        id_of(next, other, Some(id)),
    ensures
        id_of(entries, other, Some(id)),
{
    let j = choose|j: int|
        0 <= j < next.len() && (#[trigger] next[j]).info.mac == other && next[j].info.receiver_id == id;
    if mac_known(entries, mac) {
        let at = choose|at: int|
            {
                &&& #[trigger] refreshed(entries, at, role, rssi_dbm, now, next)
                &&& entries[at].info.mac == mac
            };
        assert(entries[j].info == next[j].info);
    } else if entries.len() < MAX_PEERS {
        let entry = PeerEntry {
            info: PeerInfo { receiver_id: outcome.assigned()->0, mac, role, rssi_dbm },
            last_seen: now,
        };
        lemma_inserted_from(entries, entry, next, j);
    } else {
        let entry = PeerEntry {
            info: PeerInfo { receiver_id: outcome.assigned()->0, mac, role, rssi_dbm },
            last_seen: now,
        };
        let o = choose|o: int|
            {
                &&& #[trigger] least_recent(entries, o)
                &&& inserted(entries.remove(o), entry, next)
            };
        let room = entries.remove(o);
        lemma_inserted_from(room, entry, next, j);
        let k = choose|k: int| 0 <= k < room.len() && #[trigger] room[k] == next[j];
        assert(room[k] == if k < o {
            entries[k]
        } else {
            entries[k + 1]
        });
    }
}

/// A report makes the directory forget nobody but the endpoint that it says was
/// evicted: whoever was known before is known afterwards under the same id.
pub proof fn lemma_upsert_forgets_only_the_evicted(
    entries: Seq<PeerEntry>,
    mac: [u8; MAC_LEN],
    role: [u8; ROLE_TAG_LEN],
    rssi_dbm: i8,
    now: Instant,
    outcome: UpsertOutcome,
    next: Seq<PeerEntry>,
    other: [u8; MAC_LEN],
    id: u8,
)
    requires
        entries_wf(entries),
        upserted(entries, mac, role, rssi_dbm, now, outcome, next),
        id_of(entries, other, Some(id)),
    ensures
        id_of(next, other, Some(id)) || outcome == (UpsertOutcome::Evicted { receiver_id: id, evicted_id: id }),
{
    let j = choose|j: int|
        0 <= j < entries.len() && (#[trigger] entries[j]).info.mac == other && entries[j].info.receiver_id == id;
    let entry = PeerEntry {
        info: PeerInfo { receiver_id: outcome.assigned()->0, mac, role, rssi_dbm },
        last_seen: now,
    };
    if mac_known(entries, mac) {
        let at = choose|at: int|
            {
                &&& #[trigger] refreshed(entries, at, role, rssi_dbm, now, next)
                &&& entries[at].info.mac == mac
            };
        assert(next[j].info.mac == other && next[j].info.receiver_id == id);
    } else if entries.len() < MAX_PEERS {
        lemma_inserted_keeps(entries, entry, next, j);
    } else {
        let o = choose|o: int|
            {
                &&& #[trigger] least_recent(entries, o)
                &&& entries[o].info.receiver_id == outcome->evicted_id
                &&& inserted(entries.remove(o), entry, next)
            };
        let room = entries.remove(o);
        if j < o {
            assert(room[j] == entries[j]);
            lemma_inserted_keeps(room, entry, next, j);
        } else if j > o {
            assert(room[j - 1] == entries[j]);
            lemma_inserted_keeps(room, entry, next, j - 1);
        }
    }
}

/// The endpoint that was heard stands in the directory, with its address, the role and
/// the signal strength of the report, and the time of the report.
pub proof fn lemma_report_is_written(
    entries: Seq<PeerEntry>,
    mac: [u8; MAC_LEN],
    role: [u8; ROLE_TAG_LEN],
    rssi_dbm: i8,
    now: Instant,
    outcome: UpsertOutcome,
    next: Seq<PeerEntry>,
)
    requires
        entries_wf(entries),
        upserted(entries, mac, role, rssi_dbm, now, outcome, next),
    ensures
        exists|j: int|
            #![trigger next[j]]
            0 <= j < next.len() && next[j].info.mac == mac && next[j].info.role == role && next[j].info.rssi_dbm
                == rssi_dbm && next[j].last_seen == now && Some(next[j].info.receiver_id) == outcome.assigned(),
{
    if entries.len() > 0 {
        lemma_upsert_writes_the_report(entries, mac, role, rssi_dbm, now, outcome, next, 0);
    } else {
        let entry = PeerEntry {
            info: PeerInfo { receiver_id: outcome.assigned()->0, mac, role, rssi_dbm },
            last_seen: now,
        };
        lemma_inserted_contains(entries, entry, next);
    }
}

/// What a report leaves in the directory. The endpoint that was heard stands there once,
/// with its address, the role and the signal strength of the report, and the time of
/// the report. Of the others every one stays as it was, except that a full directory
/// drops one to make room: one that was heard no later than any other, the one with the
/// smallest id if there are several.
pub proof fn lemma_upsert_writes_the_report(
    entries: Seq<PeerEntry>,
    mac: [u8; MAC_LEN],
    role: [u8; ROLE_TAG_LEN],
    rssi_dbm: i8,
    now: Instant,
    outcome: UpsertOutcome,
    next: Seq<PeerEntry>,
    k: int,
)
    requires
        entries_wf(entries),
        upserted(entries, mac, role, rssi_dbm, now, outcome, next),
        0 <= k < entries.len(),
    ensures
        exists|j: int|
            #![trigger next[j]]
            0 <= j < next.len() && next[j].info.mac == mac && next[j].info.role == role && next[j].info.rssi_dbm
                == rssi_dbm && next[j].last_seen == now && Some(next[j].info.receiver_id) == outcome.assigned(),
        entries[k].info.mac == mac ==> outcome == (UpsertOutcome::Updated { receiver_id: entries[k].info.receiver_id })
            && next.len() == entries.len(),
        entries[k].info.mac != mac ==> (exists|j: int| 0 <= j < next.len() && #[trigger] next[j] == entries[k]) || (
        entries.len() == 32 && outcome == (UpsertOutcome::Evicted {
            receiver_id: entries[k].info.receiver_id,
            evicted_id: entries[k].info.receiver_id,
        }) && (forall|m: int|
            0 <= m < entries.len() ==> entries[k].last_seen.ticks <= (#[trigger] entries[m]).last_seen.ticks) && (
        forall|m: int| 0 <= m < k ==> entries[k].last_seen.ticks < (#[trigger] entries[m]).last_seen.ticks)),
{
    let entry = PeerEntry {
        info: PeerInfo { receiver_id: outcome.assigned()->0, mac, role, rssi_dbm },
        last_seen: now,
    };
    if mac_known(entries, mac) {
        let at = choose|at: int|
            {
                &&& #[trigger] refreshed(entries, at, role, rssi_dbm, now, next)
                &&& entries[at].info.mac == mac
                &&& outcome == UpsertOutcome::Updated { receiver_id: entries[at].info.receiver_id }
            };
        assert(next[at].info.mac == mac);
        assert(next[k] == if k == at {
            next[at]
        } else {
            entries[k]
        });
    } else if entries.len() < MAX_PEERS {
        lemma_inserted_contains(entries, entry, next);
        lemma_inserted_keeps(entries, entry, next, k);
    } else {
        let o = choose|o: int|
            {
                &&& #[trigger] least_recent(entries, o)
                &&& entries[o].info.receiver_id == outcome->evicted_id
                &&& inserted(entries.remove(o), entry, next)
            };
        let room = entries.remove(o);
        lemma_inserted_contains(room, entry, next);
        if k < o {
            assert(room[k] == entries[k]);
            lemma_inserted_keeps(room, entry, next, k);
        } else if k > o {
            assert(room[k - 1] == entries[k]);
            lemma_inserted_keeps(room, entry, next, k - 1);
        }
    }
}

/// A new endpoint gets the smallest id that nobody has, as long as there is one, and
/// nobody has to go; in a full directory it gets the id of the one that goes. The
/// directory stays in ascending order of ids.
pub proof fn lemma_new_endpoint_gets_the_smallest_free_id(
    entries: Seq<PeerEntry>,
    mac: [u8; MAC_LEN],
    role: [u8; ROLE_TAG_LEN],
    rssi_dbm: i8,
    now: Instant,
    outcome: UpsertOutcome,
    next: Seq<PeerEntry>,
    smaller: u8,
)
    requires
        entries_wf(entries),
        upserted(entries, mac, role, rssi_dbm, now, outcome, next),
        forall|i: int| 0 <= i < entries.len() ==> (#[trigger] entries[i]).info.mac != mac,
    ensures
        entries.len() < 32 ==> {
            &&& outcome is Inserted
            &&& outcome->Inserted_receiver_id < 32
            &&& next.len() == entries.len() + 1
            &&& forall|i: int|
                0 <= i < entries.len() ==> (#[trigger] entries[i]).info.receiver_id != outcome->Inserted_receiver_id
            &&& smaller < outcome->Inserted_receiver_id ==> exists|i: int|
                0 <= i < entries.len() && (#[trigger] entries[i]).info.receiver_id == smaller
        },
        entries.len() == 32 ==> {
            &&& outcome is Evicted
            &&& outcome->Evicted_receiver_id == outcome->evicted_id
            &&& next.len() == 32
            &&& exists|i: int| 0 <= i < entries.len() && (#[trigger] entries[i]).info.receiver_id == outcome->evicted_id
        },
        forall|a: int, b: int|
            0 <= a < b < next.len() ==> (#[trigger] next[a]).info.receiver_id < (#[trigger] next[b]).info.receiver_id,
{
    let entry = PeerEntry {
        info: PeerInfo { receiver_id: outcome.assigned()->0, mac, role, rssi_dbm },
        last_seen: now,
    };
    if entries.len() < MAX_PEERS {
        lemma_inserted_wf(entries, entry, next);
        assert(smaller < outcome->Inserted_receiver_id ==> id_taken(entries, smaller as int));
    } else {
        let o = choose|o: int|
            {
                &&& #[trigger] least_recent(entries, o)
                &&& entries[o].info.receiver_id == outcome->evicted_id
                &&& inserted(entries.remove(o), entry, next)
            };
        let room = entries.remove(o);
        lemma_removed(entries, o);
        assert forall|i: int| 0 <= i < room.len() implies (#[trigger] room[i]).info.mac != mac by {
            assert(room[i] == if i < o {
                entries[i]
            } else {
                entries[i + 1]
            });
        }
        lemma_inserted_wf(room, entry, next);
    }
}

/// Pruning keeps every endpoint whose age is at most the limit, with everything
/// known of it, and drops every endpoint that is older. It adds none, and the ones
/// that stay keep their order.
pub proof fn lemma_prune_goes_by_age(
    entries: Seq<PeerEntry>,
    now: Instant,
    ttl: Duration,
    i: int,
)
    requires
        entries_wf(entries),
        0 <= i < entries.len(),
    ensures
        ({
            let kept = entries.filter(|e: PeerEntry| fresh(e, now, ttl));
            &&& now.ticks - entries[i].last_seen.ticks <= ttl.ticks ==> kept.contains(entries[i])
            &&& now.ticks - entries[i].last_seen.ticks > ttl.ticks ==> !kept.contains(entries[i]) && !id_taken(
                kept,
                entries[i].info.receiver_id as int,
            ) && !mac_known(kept, entries[i].info.mac)
            &&& forall|e: PeerEntry| #[trigger] kept.contains(e) ==> entries.contains(e)
            &&& forall|a: int, b: int|
                0 <= a < b < kept.len() ==> (#[trigger] kept[a]).info.receiver_id < (#[trigger] kept[b]).info.receiver_id
        }),
{
    let kept = entries.filter(|e: PeerEntry| fresh(e, now, ttl));
    lemma_filter_wf(entries, |e: PeerEntry| fresh(e, now, ttl));
    assert(entries.contains(entries[i]));
    assert forall|k: int| 0 <= k < kept.len() && now.ticks - entries[i].last_seen.ticks > ttl.ticks implies (
    #[trigger] kept[k]).info.receiver_id != entries[i].info.receiver_id && kept[k].info.mac != entries[i].info.mac by {
        assert(kept.contains(kept[k]));
        let j = choose|j: int| 0 <= j < entries.len() && entries[j] == kept[k];
        if j < i {
            assert(entries[j].info.receiver_id < entries[i].info.receiver_id);
        } else if i < j {
            assert(entries[i].info.receiver_id < entries[j].info.receiver_id);
        }
    }
}

/// Pruning forgets exactly the endpoints that were not heard in time, and keeps
/// everything known of the others.
pub proof fn lemma_prune_keeps_exactly_the_fresh(
    entries: Seq<PeerEntry>,
    now: Instant,
    ttl: Duration,
    e: PeerEntry,
)
    requires
        entries_wf(entries),
    ensures
        entries.filter(|e: PeerEntry| fresh(e, now, ttl)).contains(e) <==> entries.contains(e) && fresh(e, now, ttl),
{
    lemma_filter_wf(entries, |e: PeerEntry| fresh(e, now, ttl));
}

impl UpsertOutcome {
    /// The id that the reporting endpoint has now.
    pub open spec fn assigned(self) -> Option<u8> {
        match self {
            UpsertOutcome::Inserted { receiver_id } => Some(receiver_id),
            UpsertOutcome::Updated { receiver_id } => Some(receiver_id),
            UpsertOutcome::Evicted { receiver_id, .. } => Some(receiver_id),
            UpsertOutcome::Full => None,
        }
    }

    /// The id that the reporting endpoint has now.
    pub fn assigned_id(&self) -> (id: Option<u8>)
        ensures
            id == self.assigned(),
    {
        match self {
            UpsertOutcome::Inserted { receiver_id } => Some(*receiver_id),
            UpsertOutcome::Updated { receiver_id } => Some(*receiver_id),
            UpsertOutcome::Evicted { receiver_id, .. } => Some(*receiver_id),
            UpsertOutcome::Full => None,
        }
    }
}

proof fn lemma_inserted_contains(entries: Seq<PeerEntry>, entry: PeerEntry, next: Seq<PeerEntry>)
    requires
        inserted(entries, entry, next),
    ensures
        exists|i: int| 0 <= i < next.len() && #[trigger] next[i] == entry,
{
    let pos = choose|pos: int|
        0 <= pos <= entries.len() && next == #[trigger] entries.insert(pos, entry) && (forall|k: int|
            0 <= k < pos ==> (#[trigger] entries[k]).info.receiver_id < entry.info.receiver_id) && (
        forall|k: int| pos <= k < entries.len() ==> (#[trigger] entries[k]).info.receiver_id > entry.info.receiver_id);
    assert(next[pos] == entry);
}

proof fn lemma_inserted_keeps(entries: Seq<PeerEntry>, entry: PeerEntry, next: Seq<PeerEntry>, k: int)
    requires
        inserted(entries, entry, next),
        0 <= k < entries.len(),
    ensures
        exists|i: int| 0 <= i < next.len() && #[trigger] next[i] == entries[k],
{
    let pos = choose|pos: int|
        0 <= pos <= entries.len() && next == #[trigger] entries.insert(pos, entry) && (forall|k: int|
            0 <= k < pos ==> (#[trigger] entries[k]).info.receiver_id < entry.info.receiver_id) && (
        forall|k: int| pos <= k < entries.len() ==> (#[trigger] entries[k]).info.receiver_id > entry.info.receiver_id);
    if k < pos {
        assert(next[k] == entries[k]);
    } else {
        assert(next[k + 1] == entries[k]);
    }
}

proof fn lemma_inserted_from(
    entries: Seq<PeerEntry>,
    entry: PeerEntry,
    next: Seq<PeerEntry>,
    j: int,
)
    requires
        inserted(entries, entry, next),
        0 <= j < next.len(),
        next[j] != entry,
    ensures
        exists|k: int| 0 <= k < entries.len() && #[trigger] entries[k] == next[j],
{
    let pos = choose|pos: int|
        0 <= pos <= entries.len() && next == #[trigger] entries.insert(pos, entry) && (forall|k: int|
            0 <= k < pos ==> (#[trigger] entries[k]).info.receiver_id < entry.info.receiver_id) && (
        forall|k: int| pos <= k < entries.len() ==> (#[trigger] entries[k]).info.receiver_id > entry.info.receiver_id);
    if j < pos {
        assert(entries[j] == next[j]);
    } else {
        assert(entries[j - 1] == next[j]);
    }
}

} // verus!
