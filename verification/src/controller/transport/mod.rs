//! The ways on which frames leave the gamepad.
//!
//! Sending never waits: a way that is slow keeps the frame for later.

pub mod control;
pub mod defmt_log;
pub mod esp_now;

pub use defmt_log::DefmtLogTransport;

use crate::protocol::Frame;
use vstd::prelude::*;

verus! {

/// A way on which frames leave the gamepad.
pub trait Transport: Sized {
    type Error;

    /// What sending a frame may do to the way, and what it may return.
    spec fn sends(before: Self, frame: Frame, after: Self, result: Result<(), Self::Error>) -> bool;

    /// Hands a frame over.
    fn send(&mut self, frame: &Frame) -> (result: Result<(), Self::Error>)
        ensures
            Self::sends(*old(self), *frame, *final(self), result),
    ;
}

/// Two ways used together. Nest it for more.
pub struct CompositeTransport<A, B> {
    pub first: A,
    pub second: B,
}

impl<A, B> CompositeTransport<A, B> {
    /// Uses two ways together.
    pub fn new(first: A, second: B) -> (t: CompositeTransport<A, B>)
        ensures
            t == (CompositeTransport { first, second }),
    {
        CompositeTransport { first, second }
    }
}

/// Which of two ways failed; the first one if both did.
#[derive(Debug, PartialEq, Eq)]
pub enum CompositeError<E1, E2> {
    First(E1),
    Second(E2),
}

/// The result of using two ways.
pub open spec fn combined<E1, E2>(r1: Result<(), E1>, r2: Result<(), E2>) -> Result<
    (),
    CompositeError<E1, E2>,
> {
    match (r1, r2) {
        (Err(e), _) => Err(CompositeError::First(e)),
        (Ok(_), Err(e)) => Err(CompositeError::Second(e)),
        (Ok(_), Ok(_)) => Ok(()),
    }
}

impl<A: Transport, B: Transport> Transport for CompositeTransport<A, B> {
    type Error = CompositeError<A::Error, B::Error>;

    /// Both ways are used, whether or not the other one fails.
    open spec fn sends(
        before: CompositeTransport<A, B>,
        frame: Frame,
        after: CompositeTransport<A, B>,
        result: Result<(), CompositeError<A::Error, B::Error>>,
    ) -> bool {
        exists|r1: Result<(), A::Error>, r2: Result<(), B::Error>|
            #![trigger A::sends(before.first, frame, after.first, r1), B::sends(before.second, frame, after.second, r2)]
            {
                &&& A::sends(before.first, frame, after.first, r1)
                &&& B::sends(before.second, frame, after.second, r2)
                &&& result == combined(r1, r2)
            }
    }

    fn send(&mut self, frame: &Frame) -> (result: Result<(), CompositeError<A::Error, B::Error>>) {
        let r1 = self.first.send(frame);
        let r2 = self.second.send(frame);
        assert(A::sends(old(self).first, *frame, self.first, r1));
        assert(B::sends(old(self).second, *frame, self.second, r2));
        match (r1, r2) {
            (Ok(_), Ok(_)) => Ok(()),
            (Err(e), _) => Err(CompositeError::First(e)),
            (Ok(_), Err(e)) => Err(CompositeError::Second(e)),
        }
    }
}

/// Two ways together succeed exactly if both do; otherwise the failure of the first one
/// that failed is told.
pub proof fn lemma_both_ways_must_succeed<E1, E2>(r1: Result<(), E1>, r2: Result<(), E2>)
    ensures
        combined(r1, r2) is Ok <==> r1 is Ok && r2 is Ok,
        r1 is Err ==> combined(r1, r2) == Err::<(), CompositeError<E1, E2>>(CompositeError::First(r1->Err_0)),
        r1 is Ok && r2 is Err ==> combined(r1, r2) == Err::<(), CompositeError<E1, E2>>(
            CompositeError::Second(r2->Err_0),
        ),
{
}

} // verus!
