//! Loop iteration result type.
//!
//! [`LoopResult`] is the return type of loop body tasks. It tells the
//! runtime whether to execute another iteration (`Again`) or exit the
//! loop (`Done`).
use crate::codec::LoopDecision;
use vstd::prelude::*;

verus! {

/// The result of a single loop iteration.
#[derive(Debug, Clone)]
pub enum LoopResult<T> {
    /// Continue looping with the wrapped value as the next iteration's input.
    Again(T),
    /// Exit the loop with the wrapped value as the loop's output.
    Done(T),
}

/// The inner type of a `LoopResult<T>`: a loop body returns `LoopResult<T>`, the
/// loop itself outputs `T`.
pub trait LoopOutput {
    /// The inner type after unwrapping the `LoopResult` envelope.
    type Inner;
}

impl<T> LoopOutput for LoopResult<T> {
    type Inner = T;
}

/// The value of a loop result, whichever way it goes.
pub open spec fn inner<T>(r: LoopResult<T>) -> T {
    match r {
        LoopResult::Again(v) => v,
        LoopResult::Done(v) => v,
    }
}

impl<T> LoopResult<T> {
    /// Returns `true` if this is a `Done` variant.
    pub fn is_done(&self) -> (r: bool)
        ensures
            r == (*self is Done),
    {
        match self {
            LoopResult::Done(_) => true,
            LoopResult::Again(_) => false,
        }
    }

    /// Returns `true` if this is an `Again` variant.
    pub fn is_again(&self) -> (r: bool)
        ensures
            r == (*self is Again),
    {
        match self {
            LoopResult::Again(_) => true,
            LoopResult::Done(_) => false,
        }
    }

    /// Unwrap the inner value regardless of variant.
    pub fn into_inner(self) -> (r: T)
        ensures
            r == inner(self),
    {
        match self {
            LoopResult::Again(v) => v,
            LoopResult::Done(v) => v,
        }
    }

    /// Split into a [`LoopDecision`] and the inner value.
    pub fn into_decision(self) -> (r: (LoopDecision, T))
        ensures
            r.0 == (if self is Done {
                LoopDecision::Done
            } else {
                LoopDecision::Again
            }),
            r.1 == inner(self),
    {
        match self {
            LoopResult::Again(v) => (LoopDecision::Again, v),
            LoopResult::Done(v) => (LoopDecision::Done, v),
        }
    }
}

} // verus!
