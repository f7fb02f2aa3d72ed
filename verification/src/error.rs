//! The error reported by the allocators.

use vstd::prelude::*;

verus! {

/// Why an allocation request was turned down.
#[derive(Clone, Copy, Debug, PartialEq, Eq, Structural)]
pub enum AllocFailure {
    /// The region, or the part of it that serves the request, is exhausted,
    /// or no address can satisfy the requested size and alignment.
    NoMemory,
}

/// The result of a request, given the address that the model of an
/// allocator gives it, if any.
pub open spec fn outcome(address: Option<int>) -> Result<usize, AllocFailure> {
    match address {
        Some(addr) => Ok(addr as usize),
        None => Err(AllocFailure::NoMemory),
    }
}

} // verus!
