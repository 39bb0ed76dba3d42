//! The session nonce: drawn once at boot, announced again and again.

use super::signals::{enqueue_response, ResponseChannel};
use crate::comm::metrics::DropMetrics;
use crate::protocol::{CommandResponse, SessionNonce};
use vstd::prelude::*;

verus! {

/// Milliseconds between two announcements of the nonce.
pub const DEFAULT_NONCE_BROADCAST_INTERVAL_MS: u64 = 5_000;

/// A source of one 32-bit random value.
pub trait EntropySource: Sized {
    /// A value that a source may give, and the source after that.
    spec fn may_draw(before: Self, value: u32, after: Self) -> bool;

    /// Draws a value.
    fn read_u32(&mut self) -> (value: u32)
        ensures
            Self::may_draw(*old(self), value, *final(self)),
    ;
}

/// Draws a seed and adopts it as the session nonce, which it returns. Whatever is
/// drawn, the nonce is not zero.
pub fn init_session<E: EntropySource>(entropy: &mut E, nonce: &mut SessionNonce) -> (written: u32)
    ensures
        exists|seed: u32| #[trigger]
            E::may_draw(*old(entropy), seed, *final(entropy)) && written == SessionNonce::from_seed(seed),
        final(nonce).value == written,
        written != 0,
{
    let seed: u32 = entropy.read_u32();
    assert(E::may_draw(*old(entropy), seed, *entropy));
    nonce.init_session_nonce(seed);
    nonce.session_nonce()
}

/// Queues an announcement of the current nonce.
pub fn broadcast_once(nonce: &SessionNonce, resp: &mut ResponseChannel, metrics: &mut DropMetrics)
    ensures
        crate::comm::notifier::signals::offered(
            old(resp)@,
            old(metrics).responses,
            CommandResponse::spec_nonce_hello(nonce.value),
            final(resp)@,
            final(metrics).responses,
        ),
        final(metrics).commands == old(metrics).commands,
{
    enqueue_response(resp, metrics, CommandResponse::nonce_hello(nonce.session_nonce()));
}

} // verus!
