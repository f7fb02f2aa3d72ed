//! A byte allocator that mixes a TLSF pool with two bump cursors.
//!
//! Requests aligned to [`POOL_ALIGN`] go to the pool, which lives in the
//! first [`POOL_SIZE`] bytes of the memory given to `init`. Every other
//! request is served from the range that follows the pool and runs up to
//! [`MEMORY_END`]: the requests are numbered from one, and the number decides
//! whether a request is taken from the high end of the range, where the
//! short-lived blocks sit, or from its low end, where the long-lived ones
//! stay for good.

use crate::align::{
    lemma_round_down_is_greatest_multiple, lemma_round_up_is_least_multiple, next_multiple_of,
    prev_multiple_of, round_down, round_up,
};
use crate::error::{outcome, AllocFailure};
use crate::pool::{
    blocks_valid, pool_alloc, pool_answer, pool_blocks, pool_dealloc, pool_init, pool_memory,
    pool_new, pool_used, pool_used_bytes, span,
};
use axallocator::TlsfByteAllocator;
use vstd::arithmetic::power2::is_pow2;
use vstd::layout::valid_layout;
use vstd::prelude::*;

verus! {

/// The number of bump requests that make up one round.
pub const ALLOC_PER_ROUND: usize = 15;

/// The number of bytes at the front of the memory that belong to the pool.
pub const POOL_SIZE: usize = 0x4_0000;

/// The address at which the bump range ends, whatever size `init` is given.
pub const MEMORY_END: u64 = 0xffff_ffc0_8800_0000;

/// The alignment whose requests are served by the pool.
pub const POOL_ALIGN: usize = 8;

/// The bump part of a [`LabByteAllocator`], as mathematical integers.
pub struct LabState {
    /// Whether `init` has been called.
    pub initialized: bool,
    /// The first address of the bump range.
    pub start: int,
    /// The address just past the bump range.
    pub end: int,
    /// The address just past the long-lived blocks, which grow up from
    /// `start`.
    pub long_live: int,
    /// The address of the lowest short-lived block; these grow down from
    /// `end`.
    pub short_live: int,
    /// The number of bump requests made so far.
    pub count: int,
}

impl LabState {
    /// The cursors are ordered within the range, the range of an allocator
    /// that was initialized does not start at address zero, and everything
    /// fits in a machine word.
    pub open spec fn wf(self) -> bool {
        &&& 0 <= self.start <= self.long_live <= self.short_live <= self.end <= usize::MAX
        &&& 0 <= self.count <= usize::MAX
        &&& self.initialized ==> 0 < self.start
    }

    /// The size of the bump range.
    pub open spec fn total(self) -> int {
        self.end - self.start
    }

    /// The bytes taken at both ends of the bump range.
    pub open spec fn used(self) -> int {
        (self.long_live - self.start) + (self.end - self.short_live)
    }

    /// The gap between the two cursors.
    pub open spec fn available(self) -> int {
        self.short_live - self.long_live
    }
}

/// Whether the bump request with the given number, counted from one, is
/// served from the short-lived end: within a round of [`ALLOC_PER_ROUND`]
/// requests the two ends take turns, and every round starts with the
/// short-lived one.
pub open spec fn is_short_lived(number: int) -> bool {
    ((number - 1) % (ALLOC_PER_ROUND as int)) % 2 == 0
}

/// The state after a bump request for `size` bytes aligned to `align`, and
/// the address it is given, if any.
///
/// The request is counted whether it succeeds or not. A short-lived block is
/// put as high as it can go below the short-lived cursor: at the greatest
/// multiple of `align` that leaves `size` bytes below the cursor. A
/// long-lived block is put as low as it can go above the long-lived cursor:
/// at the least multiple of `align` at or above it. The request succeeds
/// when the allocator was initialized, `align` is not zero and the block
/// does not pass the other cursor; the cursor of its end then moves over the
/// block.
pub open spec fn bump_alloc(s: LabState, size: int, align: int) -> (LabState, Option<int>) {
    let counted = LabState { count: s.count + 1, ..s };
    if is_short_lived(s.count + 1) {
        let addr = round_down(s.short_live - size, align);
        if s.initialized && align > 0 && s.long_live <= addr {
            (LabState { short_live: addr, ..counted }, Some(addr))
        } else {
            (counted, None)
        }
    } else {
        let addr = round_up(s.long_live, align);
        if s.initialized && align > 0 && addr + size <= s.short_live {
            (LabState { long_live: addr + size, ..counted }, Some(addr))
        } else {
            (counted, None)
        }
    }
}

/// The state after the bump block of `size` bytes at `pos` is freed.
///
/// Only the block that starts at the short-lived cursor and is as large as
/// the whole short-lived area is taken back, and that area is then empty
/// again. Any other free changes nothing.
pub open spec fn bump_dealloc(s: LabState, pos: int, size: int) -> LabState {
    if pos == s.short_live && s.end - s.short_live == size {
        LabState { short_live: s.end, ..s }
    } else {
        s
    }
}

/// What a request aligned to [`POOL_ALIGN`] returns, given the pool's
/// answer: the address on success, `NoMemory` on any error of the pool.
pub fn pool_outcome(answer: Result<usize, axallocator::AllocError>) -> (res: Result<
    usize,
    AllocFailure,
>)
    ensures
        res == match answer {
            Ok(addr) => Ok::<usize, AllocFailure>(addr),
            Err(_) => Err::<usize, AllocFailure>(AllocFailure::NoMemory),
        },
{
    match answer {
        Ok(addr) => Ok(addr),
        Err(_) => Err(AllocFailure::NoMemory),
    }
}

/// A byte allocator made of a TLSF pool and two bump cursors.
pub struct LabByteAllocator {
    pool_alloc: TlsfByteAllocator,
    start: usize,
    end: usize,
    long_live: usize,
    short_live: usize,
    count: usize,
    initialized: bool,
}

impl View for LabByteAllocator {
    type V = LabState;

    closed spec fn view(&self) -> LabState {
        LabState {
            initialized: self.initialized,
            start: self.start as int,
            end: self.end as int,
            long_live: self.long_live as int,
            short_live: self.short_live as int,
            count: self.count as int,
        }
    }
}

impl LabByteAllocator {
    #[verifier::type_invariant]
    spec fn inv(&self) -> bool {
        &&& self@.wf()
        &&& !self.initialized ==> pool_memory(self.pool_alloc) == Set::<int>::empty()
        &&& blocks_valid(pool_blocks(self.pool_alloc))
    }

    /// The blocks of the pool that are in use: the address of each, with the
    /// size and alignment it was requested with.
    pub closed spec fn pool_blocks(&self) -> Map<usize, (usize, usize)> {
        pool_blocks(self.pool_alloc)
    }

    /// The number of bytes of the pool that are in use.
    pub closed spec fn pool_used(&self) -> nat {
        pool_used(self.pool_alloc)
    }

    /// The memory that the pool serves from, as a set of addresses.
    pub closed spec fn pool_memory(&self) -> Set<int> {
        pool_memory(self.pool_alloc)
    }

    /// What the pool answers to a request for `size` bytes aligned to
    /// `align`: the address it picks, or nothing when it finds no room.
    pub closed spec fn pool_answer(&self, size: usize, align: usize) -> Option<usize> {
        pool_answer(self.pool_alloc, size, align)
    }

    /// What a request for `size` bytes that goes to the pool returns: the
    /// pool's answer when `size`, rounded up to [`POOL_ALIGN`], is a size
    /// that a block can have, and `NoMemory` when it is not or the pool finds
    /// no room.
    pub open spec fn pool_result(&self, size: usize) -> Result<usize, AllocFailure> {
        if size <= isize::MAX - (POOL_ALIGN - 1) && self.pool_answer(size, POOL_ALIGN) is Some {
            Ok(self.pool_answer(size, POOL_ALIGN)->0)
        } else {
            Err(AllocFailure::NoMemory)
        }
    }

    /// An allocator without memory: the pool is empty, and the bump range is
    /// the empty range at address zero.
    pub fn new() -> (a: Self)
        ensures
            a@ == (LabState {
                initialized: false,
                start: 0,
                end: 0,
                long_live: 0,
                short_live: 0,
                count: 0,
            }),
            a@.wf(),
            (a.pool_blocks() == Map::<usize, (usize, usize)>::empty()),
            a.pool_used() == 0,
            a.pool_memory() == Set::<int>::empty(),
    {
        Self {
            pool_alloc: pool_new(),
            start: 0,
            end: 0,
            long_live: 0,
            short_live: 0,
            count: 0,
            initialized: false,
        }
    }

    /// Whether `init` has been called.
    pub fn is_initialized(&self) -> (b: bool)
        ensures
            b == self@.initialized,
    {
        self.initialized
    }

    /// The number of bump requests made so far.
    pub fn count(&self) -> (n: usize)
        ensures
            n == self@.count,
    {
        self.count
    }

    /// Takes over the memory that starts at `start`. This is done once.
    ///
    /// The first [`POOL_SIZE`] bytes are given to the pool. The bump range
    /// follows them and ends at [`MEMORY_END`], whatever `size` is; it is
    /// empty of blocks, and the count of bump requests stays as it was.
    ///
    /// The pool refuses a null `start`, and the bump range needs its end to
    /// be an address of this machine that does not lie below its start.
    #[allow(unused_variables)]
    pub fn init(&mut self, start: usize, size: usize)
        requires
            !old(self)@.initialized,
            start != 0,
            start + POOL_SIZE <= MEMORY_END <= usize::MAX,
        ensures
            final(self)@ == (LabState {
                initialized: true,
                start: start + POOL_SIZE,
                end: MEMORY_END as int,
                long_live: start + POOL_SIZE,
                short_live: MEMORY_END as int,
                count: old(self)@.count,
            }),
            final(self)@.wf(),
            final(self)@.total() == MEMORY_END - start - POOL_SIZE,
            final(self).pool_memory() == span(start as int, POOL_SIZE as int),
            final(self).pool_blocks() == old(self).pool_blocks(),
            final(self).pool_used() == old(self).pool_used(),
    {
        proof {
            use_type_invariant(&*self);
        }
        let low: usize = start + POOL_SIZE;
        let high: usize = MEMORY_END as usize;
        // The cursors stay ordered at every step: the old range shrinks to
        // nothing at address zero, and the new one opens up from there.
        self.start = 0;
        self.long_live = 0;
        self.short_live = 0;
        self.end = high;
        self.short_live = high;
        self.long_live = low;
        self.start = low;
        self.initialized = true;
        pool_init(&mut self.pool_alloc, start, POOL_SIZE);
        assert(self.pool_memory() =~= span(start as int, POOL_SIZE as int));
    }

    /// Serves a request for `size` bytes aligned to `align`.
    ///
    /// A request aligned to [`POOL_ALIGN`] is handed to the pool and leaves
    /// the bump range alone; it returns what [`Self::pool_result`] says.
    /// Every other request is a bump request: it is counted, and served as
    /// [`bump_alloc`] says, from the short-lived end when an even number of
    /// bump requests of its round came before it and from the long-lived end
    /// otherwise. An address that is returned is not null and is a multiple
    /// of `align`.
    pub fn allocate(&mut self, size: usize, align: usize) -> (res: Result<usize, AllocFailure>)
        requires
            align != POOL_ALIGN ==> old(self)@.count < usize::MAX,
        ensures
            final(self)@.wf(),
            final(self).pool_memory() == old(self).pool_memory(),
            res is Ok ==> res->Ok_0 != 0 && res->Ok_0 as int % align as int == 0,
            align == POOL_ALIGN ==> {
                &&& final(self)@ == old(self)@
                &&& res == old(self).pool_result(size)
                &&& match res {
                    Ok(addr) => {
                        &&& span(addr as int, size as int).subset_of(old(self).pool_memory())
                        &&& !old(self).pool_blocks().contains_key(addr)
                        &&& final(self).pool_blocks() == old(self).pool_blocks().insert(
                            addr,
                            (size, align),
                        )
                        &&& final(self).pool_used() == old(self).pool_used() + size
                    },
                    Err(_) => {
                        &&& final(self).pool_blocks() == old(self).pool_blocks()
                        &&& final(self).pool_used() == old(self).pool_used()
                    },
                }
            },
            align != POOL_ALIGN ==> {
                &&& final(self)@ == bump_alloc(old(self)@, size as int, align as int).0
                &&& res == outcome(bump_alloc(old(self)@, size as int, align as int).1)
                &&& final(self).pool_blocks() == old(self).pool_blocks()
                &&& final(self).pool_used() == old(self).pool_used()
            },
            align != POOL_ALIGN && (old(self)@.count % (ALLOC_PER_ROUND as int)) % 2 == 0
                ==> final(self)@.long_live == old(self)@.long_live,
            align != POOL_ALIGN && (old(self)@.count % (ALLOC_PER_ROUND as int)) % 2 == 1
                ==> final(self)@.short_live == old(self)@.short_live,
    {
        proof {
            use_type_invariant(&*self);
        }
        if align == POOL_ALIGN {
            if size > isize::MAX as usize - (POOL_ALIGN - 1) {
                return Err(AllocFailure::NoMemory);
            }
            assert(valid_layout(size, align)) by {
                reveal_with_fuel(is_pow2, 4);
            }
            return pool_outcome(pool_alloc(&mut self.pool_alloc, size, align));
        }
        self.count = self.count + 1;
        if !self.initialized {
            return Err(AllocFailure::NoMemory);
        }
        if (self.count - 1) % ALLOC_PER_ROUND % 2 == 0 {
            proof {
                if align > 0 {
                    lemma_round_down_is_greatest_multiple(self.short_live - size, align as int);
                }
            }
            if size > self.short_live {
                return Err(AllocFailure::NoMemory);
            }
            match prev_multiple_of(self.short_live - size, align) {
                Some(addr) => {
                    if addr < self.long_live {
                        return Err(AllocFailure::NoMemory);
                    }
                    self.short_live = addr;
                    Ok(addr)
                },
                None => Err(AllocFailure::NoMemory),
            }
        } else {
            proof {
                if align > 0 {
                    lemma_round_up_is_least_multiple(self.long_live as int, align as int);
                }
            }
            match next_multiple_of(self.long_live, align) {
                Some(addr) => {
                    if addr > self.short_live || size > self.short_live - addr {
                        return Err(AllocFailure::NoMemory);
                    }
                    self.long_live = addr + size;
                    Ok(addr)
                },
                None => Err(AllocFailure::NoMemory),
            }
        }
    }

    /// Takes back the block of `size` bytes at `pos` that was requested with
    /// alignment `align`.
    ///
    /// A block aligned to [`POOL_ALIGN`] goes back to the pool, which must
    /// have handed it out with this size and not have it back yet. Any other
    /// block is a bump block and is treated as [`bump_dealloc`] says.
    pub fn dealloc(&mut self, pos: usize, size: usize, align: usize)
        requires
            align == POOL_ALIGN ==> old(self).pool_blocks().contains_key(pos) && old(
                self,
            ).pool_blocks()[pos] == (size, align),
        ensures
            final(self)@.wf(),
            final(self).pool_memory() == old(self).pool_memory(),
            align == POOL_ALIGN ==> {
                &&& final(self)@ == old(self)@
                &&& final(self).pool_blocks() == old(self).pool_blocks().remove(pos)
                &&& final(self).pool_used() == old(self).pool_used() - size
            },
            align != POOL_ALIGN ==> {
                &&& final(self)@ == bump_dealloc(old(self)@, pos as int, size as int)
                &&& final(self).pool_blocks() == old(self).pool_blocks()
                &&& final(self).pool_used() == old(self).pool_used()
            },
    {
        proof {
            use_type_invariant(&*self);
        }
        if align == POOL_ALIGN {
            pool_dealloc(&mut self.pool_alloc, pos, size, align);
        } else if pos == self.short_live && self.end - self.short_live == size {
            self.short_live = self.end;
        }
    }

    /// The size of the bump range. The pool's bytes are not part of it.
    pub fn total_bytes(&self) -> (n: usize)
        ensures
            n == self@.total(),
    {
        proof {
            use_type_invariant(self);
        }
        self.end - self.start
    }

    /// The bytes taken at both ends of the bump range.
    pub fn used_bytes(&self) -> (n: usize)
        ensures
            n == self@.used(),
    {
        proof {
            use_type_invariant(self);
        }
        self.long_live - self.start + (self.end - self.short_live)
    }

    /// The bytes left between the two cursors.
    pub fn available_bytes(&self) -> (n: usize)
        ensures
            n == self@.available(),
    {
        proof {
            use_type_invariant(self);
        }
        self.short_live - self.long_live
    }

    /// The number of bytes of the pool that are in use.
    pub fn pool_used_bytes(&self) -> (n: usize)
        ensures
            n == self.pool_used(),
    {
        pool_used_bytes(&self.pool_alloc)
    }
}

} // verus!
