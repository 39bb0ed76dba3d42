//! Sliding anti-replay window over 32-bit sequence numbers.

use vstd::prelude::*;

verus! {

/// How many sequence numbers below the newest one are remembered.
pub const WINDOW_WIDTH: u32 = 64;

/// Why a sequence number was refused.
#[derive(Debug, Clone, Copy, PartialEq, Eq, Structural)]
pub enum ReplayError {
    /// Zero is reserved and never used.
    InvalidSeq,
    /// The number was accepted before.
    AlreadySeen,
    /// The number lies below the window.
    TooOld,
}

/// The newest accepted number and a bitmap of the numbers just below it: bit `d`
/// stands for `last_seq - d`.
#[derive(Debug, Clone, Copy, PartialEq, Eq, Structural)]
pub struct AntiReplayWindow {
    pub last_seq: u32,
    pub bitmap: u64,
}

/// Bit `d` of the bitmap.
pub open spec fn marked(bitmap: u64, d: int) -> bool {
    0 <= d < 64 && bitmap & (1u64 << (d as u64)) != 0
}

impl AntiReplayWindow {
    /// `seq` lies within the window and was accepted before.
    pub open spec fn seen(self, seq: int) -> bool {
        0 < seq <= self.last_seq && marked(self.bitmap, self.last_seq - seq)
    }

    /// The verdict on `seq`.
    pub open spec fn verdict(self, seq: u32) -> Result<(), ReplayError> {
        if seq == 0 {
            Err(ReplayError::InvalidSeq)
        } else if seq > self.last_seq {
            Ok(())
        } else if self.last_seq - seq >= WINDOW_WIDTH {
            Err(ReplayError::TooOld)
        } else if self.seen(seq as int) {
            Err(ReplayError::AlreadySeen)
        } else {
            Ok(())
        }
    }

    /// `next` is this window after `seq` was accepted: the newest number has
    /// moved up if needed, and inside the window exactly `seq` has been added.
    pub open spec fn accepted(self, seq: u32, next: AntiReplayWindow) -> bool {
        &&& next.last_seq == (if seq > self.last_seq {
            seq
        } else {
            self.last_seq
        })
        &&& forall|s: int|
            0 < s <= next.last_seq && next.last_seq - s < WINDOW_WIDTH ==> (#[trigger] next.seen(s)
                <==> s == seq || self.seen(s))
    }

    /// A window that has accepted nothing.
    pub fn new() -> (w: AntiReplayWindow)
        ensures
            w.last_seq == 0,
            w.bitmap == 0,
            forall|s: int| !#[trigger] w.seen(s),
    {
        AntiReplayWindow { last_seq: 0, bitmap: 0 }
    }

    /// The newest accepted number, zero before the first.
    pub fn last_seq(&self) -> (s: u32)
        ensures
            s == self.last_seq,
    {
        self.last_seq
    }

    /// Judges `seq` and, if it is fresh, remembers it. A refused number leaves
    /// the window as it was.
    pub fn check_and_update(&mut self, seq: u32) -> (r: Result<(), ReplayError>)
        ensures
            r == old(self).verdict(seq),
            r is Ok ==> old(self).accepted(seq, *final(self)),
            r is Err ==> *final(self) == *old(self),
    {
        if seq == 0 {
            return Err(ReplayError::InvalidSeq);
        }
        let before: u64 = self.bitmap;
        let last: u32 = self.last_seq;
        if seq > last {
            let step: u32 = seq - last;
            if step >= WINDOW_WIDTH {
                self.bitmap = 1;
            } else {
                self.bitmap = (before << (step as u64)) | 1;
            }
            self.last_seq = seq;
            proof {
                let after = self.bitmap;
                let n = step as u64;
                assert forall|s: int|
                    0 < s <= seq && seq - s < WINDOW_WIDTH implies (#[trigger] self.seen(s) <==> s
                    == seq || old(self).seen(s)) by {
                    let d = (seq - s) as u64;
                    if step >= WINDOW_WIDTH {
                        assert(1u64 & (1u64 << d) != 0 <==> d == 0) by (bit_vector)
                            requires
                                d < 64,
                        ;
                    } else {
                        if d >= n {
                            let e = (d - n) as u64;
                            assert(((before << n) | 1u64) & (1u64 << d) != 0 <==> before & (1u64 << e)
                                != 0) by (bit_vector)
                                requires
                                    0 < n < 64,
                                    d < 64,
                                    d == e + n,
                            ;
                        } else {
                            assert(((before << n) | 1u64) & (1u64 << d) != 0 <==> d == 0) by (bit_vector)
                                requires
                                    0 < n < 64,
                                    d < n,
                            ;
                        }
                    }
                }
            }
            return Ok(());
        }
        let age: u32 = last - seq;
        if age >= WINDOW_WIDTH {
            return Err(ReplayError::TooOld);
        }
        let bit: u64 = 1u64 << (age as u64);
        if before & bit != 0 {
            return Err(ReplayError::AlreadySeen);
        }
        self.bitmap = before | bit;
        proof {
            let a = age as u64;
            assert forall|s: int|
                0 < s <= last && last - s < WINDOW_WIDTH implies (#[trigger] self.seen(s) <==> s
                == seq || old(self).seen(s)) by {
                let d = (last - s) as u64;
                assert((before | (1u64 << a)) & (1u64 << d) != 0 <==> (d == a || before & (1u64 << d)
                    != 0)) by (bit_vector)
                    requires
                        a < 64,
                        d < 64,
                ;
            }
        }
        Ok(())
    }

    /// `next` is this window after it judged `seq`.
    pub open spec fn judged(self, seq: u32, next: AntiReplayWindow) -> bool {
        if self.verdict(seq) is Ok {
            self.accepted(seq, next)
        } else {
            next == self
        }
    }
}

/// The verdict in terms of the window itself: zero is never valid, a number above the
/// newest is always fresh, one that lies 64 or more below it is too old, and of the
/// others exactly those are fresh whose bit is clear.
pub proof fn lemma_verdict_goes_by_distance_and_bit(w: AntiReplayWindow, seq: u32)
    ensures
        seq == 0 <==> w.verdict(seq) == Err::<(), ReplayError>(ReplayError::InvalidSeq),
        seq > w.last_seq ==> w.verdict(seq) is Ok,
        seq != 0 && w.last_seq - seq >= 64 <==> w.verdict(seq) == Err::<(), ReplayError>(ReplayError::TooOld),
        seq != 0 && 0 <= w.last_seq - seq < 64 ==> (w.verdict(seq) is Ok <==> w.bitmap & (1u64 << ((w.last_seq
            - seq) as u64)) == 0),
        seq != 0 && 0 <= w.last_seq - seq < 64 && w.verdict(seq) is Err ==> w.verdict(seq) == Err::<(), ReplayError>(
            ReplayError::AlreadySeen,
        ),
{
}

/// `windows` is the history of one window that judged `seqs` one after another.
pub open spec fn window_history(seqs: Seq<u32>, windows: Seq<AntiReplayWindow>) -> bool {
    &&& windows.len() == seqs.len() + 1
    &&& forall|t: int|
        #![trigger seqs[t]]
        0 <= t < seqs.len() ==> windows[t].judged(seqs[t], windows[t + 1])
}

/// A number that was just accepted is refused from then on.
proof fn lemma_refused_after_acceptance(w: AntiReplayWindow, seq: u32, next: AntiReplayWindow)
    requires
        w.verdict(seq) is Ok,
        w.accepted(seq, next),
    ensures
        next.verdict(seq) is Err,
{
    assert(next.seen(seq as int));
}

/// What a window refuses it keeps refusing, whatever else it judges.
pub proof fn lemma_refused_stays_refused(
    w: AntiReplayWindow,
    seq: u32,
    other: u32,
    next: AntiReplayWindow,
)
    requires
        w.verdict(seq) is Err,
        w.judged(other, next),
    ensures
        next.verdict(seq) is Err,
{
    if w.verdict(other) is Ok && seq != 0 && next.last_seq - seq < WINDOW_WIDTH {
        assert(next.seen(seq as int) <==> seq == other || w.seen(seq as int));
    }
}

/// No number is accepted twice: whatever a window judges in between, a number it
/// accepted at step `i` is refused at every later step `j`.
pub proof fn lemma_accepted_at_most_once(
    seqs: Seq<u32>,
    windows: Seq<AntiReplayWindow>,
    i: int,
    j: int,
)
    requires
        window_history(seqs, windows),
        0 <= i < j < seqs.len(),
        seqs[i] == seqs[j],
        windows[i].verdict(seqs[i]) is Ok,
    ensures
        windows[j].verdict(seqs[j]) is Err,
{
    lemma_refused_from(seqs, windows, i, j);
}

proof fn lemma_refused_from(seqs: Seq<u32>, windows: Seq<AntiReplayWindow>, i: int, j: int)
    requires
        window_history(seqs, windows),
        0 <= i < j <= seqs.len(),
        windows[i].verdict(seqs[i]) is Ok,
    ensures
        windows[j].verdict(seqs[i]) is Err,
    decreases j,
{
    if j == i + 1 {
        lemma_refused_after_acceptance(windows[i], seqs[i], windows[j]);
    } else {
        lemma_refused_from(seqs, windows, i, j - 1);
        assert(windows[j - 1].judged(seqs[j - 1], windows[j - 1 + 1]));
        lemma_refused_stays_refused(windows[j - 1], seqs[i], seqs[j - 1], windows[j]);
    }
}

/// A window that starts empty accepts every number that is new to it and not too far
/// behind: one that it did not judge before, and that no number before it was 64 or
/// more above.
pub proof fn lemma_fresh_number_is_accepted(seqs: Seq<u32>, windows: Seq<AntiReplayWindow>, j: int)
    requires
        window_history(seqs, windows),
        windows[0].last_seq == 0,
        windows[0].bitmap == 0,
        0 <= j < seqs.len(),
        seqs[j] != 0,
        forall|i: int| 0 <= i < j ==> #[trigger] seqs[i] != seqs[j] && seqs[i] - seqs[j] < 64,
    ensures
        windows[j].verdict(seqs[j]) is Ok,
{
    lemma_window_holds_what_was_judged(seqs, windows, j);
}

/// A window that starts empty accepts numbers that only grow, all of them.
pub proof fn lemma_growing_numbers_are_accepted(seqs: Seq<u32>, windows: Seq<AntiReplayWindow>, j: int)
    requires
        window_history(seqs, windows),
        windows[0].last_seq == 0,
        windows[0].bitmap == 0,
        0 <= j < seqs.len(),
        seqs[0] != 0,
        forall|a: int, b: int| 0 <= a < b < seqs.len() ==> #[trigger] seqs[a] < #[trigger] seqs[b],
    ensures
        windows[j].verdict(seqs[j]) is Ok,
        windows[j + 1].last_seq == seqs[j],
{
    lemma_window_holds_what_was_judged(seqs, windows, j);
    assert(windows[j].judged(seqs[j], windows[j + 1]));
    if j > 0 {
        assert(seqs[0] < seqs[j]);
    }
}

/// A window that starts empty only knows numbers that it judged.
proof fn lemma_window_holds_what_was_judged(seqs: Seq<u32>, windows: Seq<AntiReplayWindow>, t: int)
    requires
        window_history(seqs, windows),
        windows[0].last_seq == 0,
        windows[0].bitmap == 0,
        0 <= t < windows.len(),
    ensures
        windows[t].last_seq == 0 || exists|i: int| 0 <= i < t && #[trigger] seqs[i] == windows[t].last_seq,
        forall|s: int| #[trigger]
            windows[t].seen(s) ==> exists|i: int| 0 <= i < t && #[trigger] seqs[i] == s,
    decreases t,
{
    if t > 0 {
        let w = windows[t - 1];
        let next = windows[t];
        let seq = seqs[t - 1];
        lemma_window_holds_what_was_judged(seqs, windows, t - 1);
        assert(windows[t - 1].judged(seqs[t - 1], windows[t - 1 + 1]));
        assert forall|s: int| #[trigger] next.seen(s) implies exists|i: int| 0 <= i < t && #[trigger] seqs[i] == s by {
            if w.verdict(seq) is Ok {
                assert(next.seen(s) <==> s == seq || w.seen(s));
            }
            if s != seq {
                let i = choose|i: int| 0 <= i < t - 1 && #[trigger] seqs[i] == s;
                assert(seqs[i] == s);
            }
        }
        if next.last_seq == w.last_seq && w.last_seq != 0 {
            let i = choose|i: int| 0 <= i < t - 1 && #[trigger] seqs[i] == w.last_seq;
            assert(seqs[i] == next.last_seq);
        }
    }
}

impl Default for AntiReplayWindow {
    fn default() -> (w: AntiReplayWindow)
        ensures
            w.last_seq == 0,
            w.bitmap == 0,
    {
        AntiReplayWindow::new()
    }
}

} // verus!
