//! Short texts over the screen.

use vstd::prelude::*;

verus! {

/// Most bytes of a short text.
pub const TOAST_MAX: usize = 5;

/// A short text: the first `len` bytes count.
#[derive(Debug, Clone, Copy, PartialEq, Eq)]
pub struct Toast {
    len: u8,
    bytes: [u8; TOAST_MAX],
}

impl View for Toast {
    type V = Seq<u8>;

    closed spec fn view(&self) -> Seq<u8> {
        self.bytes@.subrange(
            0,
            if self.len < TOAST_MAX {
                self.len as int
            } else {
                TOAST_MAX as int
            },
        )
    }
}

/// The first bytes of a message, as many as a short text can hold.
pub open spec fn toast_of(msg: Seq<u8>) -> Seq<u8> {
    if msg.len() < TOAST_MAX {
        msg
    } else {
        msg.subrange(0, TOAST_MAX as int)
    }
}

impl Toast {
    /// A short text of the first bytes of a message.
    pub fn new(msg: &[u8]) -> (t: Toast)
        ensures
            t@ == toast_of(msg@),
    {
        let mut bytes: [u8; TOAST_MAX] = [0u8, 0u8, 0u8, 0u8, 0u8];
        let mut i: usize = 0;
        while i < TOAST_MAX && i < msg.len()
            invariant
                i <= TOAST_MAX,
                i <= msg@.len(),
                forall|k: int| 0 <= k < i ==> #[trigger] bytes@[k] == msg@[k],
            decreases TOAST_MAX - i,
        {
            bytes[i] = msg[i];
            i = i + 1;
        }
        let t = Toast { len: i as u8, bytes };
        assert(t@ =~= toast_of(msg@));
        t
    }

    /// The text's bytes.
    pub fn as_bytes(&self) -> (b: &[u8])
        ensures
            b@ == self@,
            b@.len() <= TOAST_MAX,
    {
        let n: usize = if (self.len as usize) < TOAST_MAX {
            self.len as usize
        } else {
            TOAST_MAX
        };
        vstd::slice::slice_subrange(self.bytes.as_slice(), 0, n)
    }
}

/// A short text holds the first five bytes of a message, or all of a shorter one, as they
/// are.
pub proof fn lemma_toast_holds_the_first_five_bytes(msg: Seq<u8>)
    ensures
        toast_of(msg).len() == (if msg.len() < 5 {
            msg.len()
        } else {
            5
        }),
        forall|i: int| 0 <= i < toast_of(msg).len() ==> #[trigger] toast_of(msg)[i] == msg[i],
{
}

} // verus!
