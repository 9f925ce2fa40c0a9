//! The sequence allocator: identifiers that only grow.

use vstd::prelude::*;
use crate::error::EngineError;

verus! {

/// Issues the identifiers of new wallets: 1, 2, 3 and so on.
///
/// The allocator remembers the identifier it issued last, so that none is
/// ever issued twice.
#[derive(Clone, Copy, Debug)]
pub struct SequenceAllocator {
    last: u64,
}

impl View for SequenceAllocator {
    type V = nat;

    /// The identifier issued last, or 0 when none was issued.
    closed spec fn view(&self) -> nat {
        self.last as nat
    }
}

impl SequenceAllocator {
    /// An allocator that has issued nothing.
    pub fn new() -> (allocator: SequenceAllocator)
        ensures
            allocator@ == 0,
    {
        SequenceAllocator { last: 0 }
    }

    /// An allocator that issued `last` last.
    pub fn restore(last: u64) -> (allocator: SequenceAllocator)
        ensures
            allocator@ == last,
    {
        SequenceAllocator { last }
    }

    /// The identifier issued last, or 0 when none was issued.
    pub fn last(&self) -> (last: u64)
        ensures
            last == self@,
    {
        self.last
    }

    /// Issues the next identifier: one more than the last.
    ///
    /// Fails with `Overflow`, and issues nothing, exactly when the last
    /// identifier is the largest `u64`.
    pub fn next_id(&mut self) -> (r: Result<u64, EngineError>)
        ensures
            old(self)@ < u64::MAX ==> r == Ok::<u64, EngineError>((old(self)@ + 1) as u64)
                && final(self)@ == old(self)@ + 1,
            old(self)@ >= u64::MAX ==> r == Err::<u64, EngineError>(EngineError::Overflow)
                && *final(self) == *old(self),
    {
        if self.last == u64::MAX {
            Err(EngineError::Overflow)
        } else {
            self.last = self.last + 1;
            Ok(self.last)
        }
    }
}

} // verus!
