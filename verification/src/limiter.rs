//! The byte budget that bounds how far a guest may grow its memory.

use crate::error::BridgeError;
use vstd::prelude::*;

verus! {

/// Size in bytes of one page of linear memory.
pub const PAGE_SIZE: u64 = 65536;

/// The number of bytes in `pages` pages.
pub open spec fn page_bytes(pages: nat) -> nat {
    pages * 65536
}

/// What a request to grow a memory from `current` to `desired` bytes leaves
/// of a budget of `left` bytes: `None` where the request is rejected. A
/// request for less than the current size is no growth, and is rejected.
pub open spec fn after_memory_growth(
    left: nat,
    current: nat,
    desired: nat,
    maximum: Option<nat>,
) -> Option<nat> {
    if maximum is Some && desired >= maximum->0 {
        None
    } else if desired < current {
        None
    } else if desired - current > left {
        None
    } else {
        Some((left - (desired - current)) as nat)
    }
}

/// Whether a table may grow to `desired` elements.
pub open spec fn table_growth_allowed(desired: nat, maximum: Option<nat>) -> bool {
    maximum is Some ==> desired <= maximum->0
}

/// No request leaves more budget than there was before it: a granted
/// request takes what it asks for out of the budget, whatever sizes the
/// engine reports.
pub proof fn lemma_budget_never_grows(left: nat, current: nat, desired: nat, maximum: Option<nat>)
    ensures
        after_memory_growth(left, current, desired, maximum) matches Some(rest) ==> rest <= left
            && left - rest == desired - current,
{
}

/// Tracks how many bytes of memory growth remain for one guest instance.
#[derive(Debug)]
pub struct MemoryLimiter {
    bytes_left: u64,
    max_bytes: u64,
}

impl MemoryLimiter {
    #[verifier::type_invariant]
    spec fn within_budget(&self) -> bool {
        self.bytes_left <= self.max_bytes
    }

    /// The bytes that may still be granted.
    pub closed spec fn left(&self) -> nat {
        self.bytes_left as nat
    }

    /// The whole budget.
    pub closed spec fn budget(&self) -> nat {
        self.max_bytes as nat
    }

    /// A limiter with a full budget of `pages` pages.
    pub fn new(pages: u32) -> (limiter: Self)
        ensures
            limiter.budget() == page_bytes(pages as nat),
            limiter.left() == limiter.budget(),
    {
        let n: u64 = (pages as u64) * PAGE_SIZE;
        MemoryLimiter { bytes_left: n, max_bytes: n }
    }

    /// The bytes that may still be granted.
    pub fn bytes_left(&self) -> (n: u64)
        ensures
            n == self.left(),
            self.left() <= self.budget(),
    {
        proof {
            use_type_invariant(self);
        }
        self.bytes_left
    }

    /// The whole budget in bytes.
    pub fn max_bytes(&self) -> (n: u64)
        ensures
            n == self.budget(),
    {
        self.max_bytes
    }

    /// Restores the full budget.
    pub fn reset(&mut self)
        ensures
            final(self).left() == old(self).budget(),
            final(self).budget() == old(self).budget(),
    {
        self.bytes_left = self.max_bytes;
    }

    /// Decides a request to grow a linear memory from `current` to `desired`
    /// bytes, and takes what it grants out of the budget. A request is
    /// rejected, and the budget left as it is, where the memory has a
    /// maximum that `desired` reaches, where `desired` is less than
    /// `current`, and where the growth is more than the budget has left.
    pub fn memory_growing(&mut self, current: usize, desired: usize, maximum: Option<usize>) -> (r:
        Result<bool, BridgeError>)
        ensures
            final(self).budget() == old(self).budget(),
            final(self).left() <= old(self).left(),
            match after_memory_growth(
                old(self).left(),
                current as nat,
                desired as nat,
                match maximum {
                    Some(m) => Some(m as nat),
                    None => None,
                },
            ) {
                Some(rest) => r == Ok::<bool, BridgeError>(true) && final(self).left() == rest,
                None => r == Err::<bool, BridgeError>(BridgeError::OutOfMemory) && final(self).left()
                    == old(self).left(),
            },
    {
        proof {
            use_type_invariant(&*self);
        }
        if let Some(max) = maximum {
            if desired >= max {
                return Err(BridgeError::OutOfMemory);
            }
        }
        if desired < current {
            return Err(BridgeError::OutOfMemory);
        }
        let d: u64 = (desired - current) as u64;
        if d > self.bytes_left {
            return Err(BridgeError::OutOfMemory);
        }
        self.bytes_left = self.bytes_left - d;
        Ok(true)
    }

    /// Decides a request to grow a table to `desired` elements. Tables do not
    /// count against the byte budget.
    pub fn table_growing(&mut self, current: usize, desired: usize, maximum: Option<usize>) -> (r:
        Result<bool, BridgeError>)
        ensures
            final(self).budget() == old(self).budget(),
            final(self).left() == old(self).left(),
            r == Ok::<bool, BridgeError>(
                table_growth_allowed(
                    desired as nat,
                    match maximum {
                        Some(m) => Some(m as nat),
                        None => None,
                    },
                ),
            ),
    {
        if let Some(max) = maximum {
            return Ok(desired <= max);
        }
        Ok(true)
    }
}

} // verus!
