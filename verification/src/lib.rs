//! Fixed-region memory allocators for the early phases of a kernel.
//!
//! Two allocators are provided, both working on plain addresses:
//!
//! - [`EarlyAllocator`] serves bytes from the low end of one region and pages
//!   from its high end, and reclaims the byte area in bulk.
//! - [`LabByteAllocator`] hands requests aligned to eight bytes to a TLSF
//!   pool and serves every other request from one of two bump cursors,
//!   chosen by the position of the request within a round.
//!
//! Every operation is specified over a mathematical model of the allocator's
//! state, so that the properties of whole request sequences can be stated and
//! proved next to the code.

use vstd::prelude::*;

pub mod align;
pub mod early;
pub mod early_lemmas;
pub mod error;
pub mod lab;
pub mod lab_lemmas;
pub mod pool;

pub use early::EarlyAllocator;
pub use error::AllocFailure;
pub use lab::LabByteAllocator;
