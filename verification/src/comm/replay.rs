//! One anti-replay window per key slot.

use crate::protocol::auth::{KeyId, KEY_SLOTS};
use crate::protocol::replay::{self, AntiReplayWindow, ReplayError};
use vstd::prelude::*;
use vstd::std_specs::convert::FromSpecImpl;

verus! {

/// Why a sequence number was refused.
#[derive(Debug, Clone, Copy, PartialEq, Eq, Structural)]
pub enum ReplayCheckError {
    /// The key id names no slot of this device.
    KeyIdOutOfRange(u8),
    /// The slot's window refused the number.
    Window(ReplayError),
}

impl From<ReplayError> for ReplayCheckError {
    fn from(e: ReplayError) -> (r: ReplayCheckError) {
        ReplayCheckError::Window(e)
    }
}

impl FromSpecImpl<ReplayError> for ReplayCheckError {
    open spec fn obeys_from_spec() -> bool {
        true
    }

    open spec fn from_spec(e: ReplayError) -> ReplayCheckError {
        ReplayCheckError::Window(e)
    }
}

/// One window per key slot: every key has its own sequence space.
#[derive(Debug, Clone, Copy)]
pub struct ReplayGuard {
    windows: [AntiReplayWindow; KEY_SLOTS],
}

impl View for ReplayGuard {
    type V = Seq<AntiReplayWindow>;

    closed spec fn view(&self) -> Seq<AntiReplayWindow> {
        self.windows@
    }
}

/// The guard's verdict on a number under a key.
pub open spec fn guard_verdict(
    windows: Seq<AntiReplayWindow>,
    key_id: KeyId,
    seq: u32,
) -> Result<(), ReplayCheckError> {
    if !key_id.in_slots() {
        Err(ReplayCheckError::KeyIdOutOfRange(key_id.raw))
    } else {
        match windows[key_id.raw as int].verdict(seq) {
            Ok(()) => Ok(()),
            Err(e) => Err(ReplayCheckError::Window(e)),
        }
    }
}

/// `next` is `windows` after the guard judged a number: the slot's own window
/// judged it, no other slot changed.
pub open spec fn guard_judged(
    windows: Seq<AntiReplayWindow>,
    key_id: KeyId,
    seq: u32,
    next: Seq<AntiReplayWindow>,
) -> bool {
    &&& next.len() == windows.len()
    &&& key_id.in_slots() ==> windows[key_id.raw as int].judged(seq, next[key_id.raw as int])
    &&& forall|k: int| 0 <= k < windows.len() && k != key_id.raw ==> #[trigger] next[k] == windows[k]
}

impl ReplayGuard {
    /// Windows that have accepted nothing.
    pub fn new() -> (g: ReplayGuard)
        ensures
            g@.len() == KEY_SLOTS,
            forall|k: int| 0 <= k < KEY_SLOTS ==> #[trigger] g@[k] == (AntiReplayWindow { last_seq: 0, bitmap: 0 }),
    {
        let w = AntiReplayWindow::new();
        ReplayGuard { windows: [w, w, w, w] }
    }

    /// A guard that continues from saved windows.
    pub fn from_snapshot(snapshot: [AntiReplayWindow; KEY_SLOTS]) -> (g: ReplayGuard)
        ensures
            g@ == snapshot@,
    {
        ReplayGuard { windows: snapshot }
    }

    /// Continues from saved windows in place.
    pub fn restore_from_snapshot(&mut self, snapshot: [AntiReplayWindow; KEY_SLOTS])
        ensures
            final(self)@ == snapshot@,
    {
        self.windows = snapshot;
    }

    /// Judges a number under a key and, if it is fresh, remembers it.
    pub fn check(&mut self, key_id: KeyId, seq: u32) -> (r: Result<(), ReplayCheckError>)
        ensures
            r == guard_verdict(old(self)@, key_id, seq),
            guard_judged(old(self)@, key_id, seq, final(self)@),
            r is Err ==> final(self)@ == old(self)@,
    {
        let slot: usize = key_id.as_u8() as usize;
        if slot >= KEY_SLOTS {
            return Err(ReplayCheckError::KeyIdOutOfRange(key_id.as_u8()));
        }
        let mut window = self.windows[slot];
        let verdict = window.check_and_update(seq);
        self.windows[slot] = window;
        match verdict {
            Ok(()) => Ok(()),
            Err(e) => {
                assert(self@ =~= old(self)@);
                Err(ReplayCheckError::from(e))
            },
        }
    }

    /// All windows, for saving.
    pub fn snapshot(&self) -> (snapshot: [AntiReplayWindow; KEY_SLOTS])
        ensures
            snapshot@ == self@,
    {
        self.windows
    }

    /// The newest number accepted under a key, zero for an unknown slot.
    pub fn last_seq(&self, key_id: KeyId) -> (seq: u32)
        ensures
            seq == (if key_id.in_slots() {
                self@[key_id.raw as int].last_seq
            } else {
                0
            }),
    {
        let slot: usize = key_id.as_u8() as usize;
        if slot >= KEY_SLOTS {
            return 0;
        }
        self.windows[slot].last_seq()
    }
}

impl Default for ReplayGuard {
    fn default() -> (g: ReplayGuard)
        ensures
            g@.len() == KEY_SLOTS,
            forall|k: int| 0 <= k < KEY_SLOTS ==> #[trigger] g@[k] == (AntiReplayWindow { last_seq: 0, bitmap: 0 }),
    {
        ReplayGuard::new()
    }
}

/// Judging a number under one key changes no verdict under another key.
pub proof fn lemma_keys_are_independent(
    windows: Seq<AntiReplayWindow>,
    key_id: KeyId,
    seq: u32,
    next: Seq<AntiReplayWindow>,
    other_key: KeyId,
    other_seq: u32,
)
    requires
        windows.len() == KEY_SLOTS,
        guard_judged(windows, key_id, seq, next),
        other_key != key_id,
    ensures
        guard_verdict(next, other_key, other_seq) == guard_verdict(windows, other_key, other_seq),
{
}

/// The verdict in terms of the key's own window: a key past the four slots is refused
/// by name, and otherwise a number is accepted exactly if it is not zero and either
/// above the newest, or less than 64 below it with its bit clear.
pub proof fn lemma_guard_goes_by_the_window_of_the_key(windows: Seq<AntiReplayWindow>, key_id: KeyId, seq: u32)
    ensures
        key_id.raw >= 4 ==> guard_verdict(windows, key_id, seq) == Err::<(), ReplayCheckError>(
            ReplayCheckError::KeyIdOutOfRange(key_id.raw),
        ),
        key_id.raw < 4 ==> ({
            let w = windows[key_id.raw as int];
            guard_verdict(windows, key_id, seq) is Ok <==> seq != 0 && (seq > w.last_seq || (w.last_seq - seq < 64
                && w.bitmap & (1u64 << ((w.last_seq - seq) as u64)) == 0))
        }),
        key_id.raw < 4 && guard_verdict(windows, key_id, seq) is Err ==> guard_verdict(windows, key_id, seq)->Err_0 is Window,
{
}

/// An accepted number becomes the newest of its key if it is above it, and never makes
/// the newest smaller; no other key's window changes, and a refused number changes none.
pub proof fn lemma_accepted_number_moves_its_key_only(
    windows: Seq<AntiReplayWindow>,
    key_id: KeyId,
    seq: u32,
    next: Seq<AntiReplayWindow>,
    k: int,
)
    requires
        windows.len() == KEY_SLOTS,
        guard_judged(windows, key_id, seq, next),
        0 <= k < 4,
    ensures
        k != key_id.raw ==> next[k] == windows[k],
        k == key_id.raw && guard_verdict(windows, key_id, seq) is Err ==> next[k] == windows[k],
        k == key_id.raw && guard_verdict(windows, key_id, seq) is Ok ==> next[k].last_seq == (if seq
            > windows[k].last_seq {
            seq
        } else {
            windows[k].last_seq
        }),
{
}

/// `states` is the history of one guard that judged the numbers `seqs` under the
/// keys `keys`, one after another.
pub open spec fn guard_history(
    keys: Seq<KeyId>,
    seqs: Seq<u32>,
    states: Seq<Seq<AntiReplayWindow>>,
) -> bool {
    &&& keys.len() == seqs.len()
    &&& states.len() == seqs.len() + 1
    &&& states[0].len() == KEY_SLOTS
    &&& forall|t: int|
        #![trigger seqs[t]]
        0 <= t < seqs.len() ==> guard_judged(states[t], keys[t], seqs[t], states[t + 1])
}

/// No command is accepted twice: a number accepted under a key at step `i` is
/// refused under that key at every later step `j`, whatever came in between.
pub proof fn lemma_command_accepted_at_most_once(
    keys: Seq<KeyId>,
    seqs: Seq<u32>,
    states: Seq<Seq<AntiReplayWindow>>,
    i: int,
    j: int,
)
    requires
        guard_history(keys, seqs, states),
        0 <= i < j < seqs.len(),
        keys[i] == keys[j],
        seqs[i] == seqs[j],
        guard_verdict(states[i], keys[i], seqs[i]) is Ok,
    ensures
        guard_verdict(states[j], keys[j], seqs[j]) is Err,
{
    lemma_refused_from(keys, seqs, states, i, j);
}

/// A guard restored from windows saved after a command was accepted still refuses
/// that command.
pub proof fn lemma_restored_guard_refuses(
    before: Seq<AntiReplayWindow>,
    key_id: KeyId,
    seq: u32,
    saved: Seq<AntiReplayWindow>,
    restored: ReplayGuard,
)
    requires
        before.len() == KEY_SLOTS,
        guard_verdict(before, key_id, seq) is Ok,
        guard_judged(before, key_id, seq, saved),
        restored@ == saved,
    ensures
        guard_verdict(restored@, key_id, seq) is Err,
{
    let w = saved[key_id.raw as int];
    assert(w.seen(seq as int));
}

/// What a guard refuses it keeps refusing, whatever else it judges.
pub proof fn lemma_guard_keeps_refusing(
    windows: Seq<AntiReplayWindow>,
    key_id: KeyId,
    seq: u32,
    other_key: KeyId,
    other_seq: u32,
    next: Seq<AntiReplayWindow>,
)
    requires
        windows.len() == KEY_SLOTS,
        guard_verdict(windows, key_id, seq) is Err,
        guard_judged(windows, other_key, other_seq, next),
    ensures
        guard_verdict(next, key_id, seq) is Err,
{
    if key_id.in_slots() && other_key.raw == key_id.raw {
        let slot = key_id.raw as int;
        replay::lemma_refused_stays_refused(windows[slot], seq, other_seq, next[slot]);
    }
}

proof fn lemma_refused_from(
    keys: Seq<KeyId>,
    seqs: Seq<u32>,
    states: Seq<Seq<AntiReplayWindow>>,
    i: int,
    j: int,
)
    requires
        guard_history(keys, seqs, states),
        0 <= i < j <= seqs.len(),
        guard_verdict(states[i], keys[i], seqs[i]) is Ok,
    ensures
        guard_verdict(states[j], keys[i], seqs[i]) is Err,
        states[j].len() == KEY_SLOTS,
        states[i].len() == KEY_SLOTS,
    decreases j,
{
    let slot = keys[i].raw as int;
    assert(guard_judged(states[j - 1], keys[j - 1], seqs[j - 1], states[j - 1 + 1]));
    if j == i + 1 {
        lemma_lengths(keys, seqs, states, i);
        assert(states[j][slot].seen(seqs[i] as int));
    } else {
        lemma_refused_from(keys, seqs, states, i, j - 1);
        lemma_guard_keeps_refusing(
            states[j - 1],
            keys[i],
            seqs[i],
            keys[j - 1],
            seqs[j - 1],
            states[j],
        );
    }
}

proof fn lemma_lengths(keys: Seq<KeyId>, seqs: Seq<u32>, states: Seq<Seq<AntiReplayWindow>>, t: int)
    requires
        guard_history(keys, seqs, states),
        0 <= t <= seqs.len(),
    ensures
        states[t].len() == KEY_SLOTS,
    decreases t,
{
    if t > 0 {
        lemma_lengths(keys, seqs, states, t - 1);
        assert(guard_judged(states[t - 1], keys[t - 1], seqs[t - 1], states[t - 1 + 1]));
    }
}

} // verus!
