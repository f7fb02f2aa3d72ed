//! The TLSF pool that serves the requests aligned to eight bytes.
//!
//! The pool is `axallocator::TlsfByteAllocator`. Verus does not look inside
//! it: what this module says of it is taken from its source and is believed,
//! not proved. The pool writes its bookkeeping into the memory it is given, so
//! every statement here also rests on that memory being real, writable and
//! owned by nobody else, which no contract in this crate can express.
//!
//! The record of blocks is a history of the calls made on a pool, not
//! something that can be read off its fields. It is sound to speak of it as
//! long as a pool is only ever reached through the calls of this module.

use axallocator::{BaseAllocator, ByteAllocator, TlsfByteAllocator};
use core::alloc::Layout;
use core::ptr::NonNull;
use vstd::layout::valid_layout;
use vstd::prelude::*;

verus! {

/// `axallocator::TlsfByteAllocator`, carried as an opaque value.
#[verifier::external_type_specification]
#[verifier::external_body]
pub struct ExTlsfByteAllocator(axallocator::TlsfByteAllocator);

/// `axallocator::AllocError`, carried as an opaque value.
#[verifier::external_type_specification]
#[verifier::external_body]
pub struct ExPoolError(axallocator::AllocError);

/// The blocks that the pool has handed out and not taken back: the address of
/// each, with the size and alignment it was requested with.
pub uninterp spec fn pool_blocks(pool: TlsfByteAllocator) -> Map<usize, (usize, usize)>;

/// The pool's own count of used bytes: the sum of the requested sizes of the
/// blocks it has handed out and not taken back.
pub uninterp spec fn pool_used(pool: TlsfByteAllocator) -> nat;

/// The memory that the pool has been given to serve from, as a set of
/// addresses.
pub uninterp spec fn pool_memory(pool: TlsfByteAllocator) -> Set<int>;

/// What the pool answers to a request for `size` bytes aligned to `align`:
/// the address it picks, or nothing when it finds no room. The pool decides
/// by its free lists alone, so the answer is fixed by the pool and the
/// request.
pub uninterp spec fn pool_answer(pool: TlsfByteAllocator, size: usize, align: usize) -> Option<
    usize,
>;

/// The addresses of the `size` bytes that start at `start`.
pub open spec fn span(start: int, size: int) -> Set<int> {
    Set::new(|a: int| start <= a < start + size)
}

/// Every block of the record has an address that is not null and a size and
/// alignment that make a layout.
pub open spec fn blocks_valid(blocks: Map<usize, (usize, usize)>) -> bool {
    forall|addr: usize| #[trigger]
        blocks.contains_key(addr) ==> addr != 0 && valid_layout(blocks[addr].0, blocks[addr].1)
}

/// The least region size that `pool_init` accepts: enough for one block of
/// the pool after both ends of the region are trimmed to the pool's
/// granularity.
pub const POOL_MIN_SIZE: usize = 128;

/// Calls `TlsfByteAllocator::new`: a pool without memory, which has handed
/// out nothing.
#[verifier::external_body]
pub(crate) fn pool_new() -> (pool: TlsfByteAllocator)
    ensures
        (pool_blocks(pool) == Map::<usize, (usize, usize)>::empty()),
        pool_used(pool) == 0,
        pool_memory(pool) == Set::<int>::empty(),
{
    TlsfByteAllocator::new()
}

/// Calls `BaseAllocator::init` of the pool, which gives it the region of
/// `size` bytes at `start` to serve from.
///
/// The call panics on a null `start` and on a region too small to hold a
/// block, and it writes a free block over the region without looking at what
/// is there: so a null start, a small region and a region that shares an
/// address with the pool's memory are excluded. The region is added to the
/// pool's memory; the blocks handed out so far and the count of used bytes
/// are not touched.
#[verifier::external_body]
pub(crate) fn pool_init(pool: &mut TlsfByteAllocator, start: usize, size: usize)
    requires
        start != 0,
        POOL_MIN_SIZE <= size <= isize::MAX,
        start + size <= usize::MAX,
        pool_memory(*old(pool)).disjoint(span(start as int, size as int)),
    ensures
        pool_memory(*final(pool)) == pool_memory(*old(pool)).union(
            span(start as int, size as int),
        ),
        pool_blocks(*final(pool)) == pool_blocks(*old(pool)),
        pool_used(*final(pool)) == pool_used(*old(pool)),
    no_unwind
{
    pool.init(start, size)
}

/// Calls `ByteAllocator::alloc` of the pool with the layout made of `size`
/// and `align`.
///
/// The result is the pool's answer to the request. When the pool finds
/// room, the block lies in the pool's memory, and its address is not null,
/// is a multiple of `align` and belongs to no block handed out before; the
/// block is recorded and the count of used bytes grows by `size`. When it
/// does not, nothing changes. The pool's memory stays what it was either way.
#[verifier::external_body]
pub(crate) fn pool_alloc(pool: &mut TlsfByteAllocator, size: usize, align: usize) -> (res: Result<
    usize,
    axallocator::AllocError,
>)
    requires
        valid_layout(size, align),
    ensures
        pool_memory(*final(pool)) == pool_memory(*old(pool)),
        match res {
            Ok(addr) => {
                &&& pool_answer(*old(pool), size, align) == Some(addr)
                &&& addr != 0
                &&& addr as int % align as int == 0
                &&& span(addr as int, size as int).subset_of(pool_memory(*old(pool)))
                &&& !pool_blocks(*old(pool)).contains_key(addr)
                &&& pool_blocks(*final(pool)) == pool_blocks(*old(pool)).insert(
                    addr,
                    (size, align),
                )
                &&& pool_used(*final(pool)) == pool_used(*old(pool)) + size
            },
            Err(_) => {
                &&& pool_answer(*old(pool), size, align) is None
                &&& pool_blocks(*final(pool)) == pool_blocks(*old(pool))
                &&& pool_used(*final(pool)) == pool_used(*old(pool))
            },
        },
    no_unwind
{
    match pool.alloc(Layout::from_size_align(size, align).unwrap()) {
        Ok(block) => Ok(block.addr().get()),
        Err(e) => Err(e),
    }
}

/// Calls `ByteAllocator::dealloc` of the pool for the block at `pos`.
///
/// The pool trusts its caller: the block must be one that it handed out with
/// this very size and alignment and has not taken back. The block leaves the
/// record and the count of used bytes shrinks by `size`; the pool's memory
/// stays what it was.
#[verifier::external_body]
pub(crate) fn pool_dealloc(pool: &mut TlsfByteAllocator, pos: usize, size: usize, align: usize)
    requires
        pos != 0,
        valid_layout(size, align),
        pool_blocks(*old(pool)).contains_key(pos),
        pool_blocks(*old(pool))[pos] == (size, align),
    ensures
        pool_memory(*final(pool)) == pool_memory(*old(pool)),
        pool_blocks(*final(pool)) == pool_blocks(*old(pool)).remove(pos),
        pool_used(*final(pool)) == pool_used(*old(pool)) - size,
    no_unwind
{
    let block = NonNull::new(core::ptr::with_exposed_provenance_mut::<u8>(pos)).unwrap();
    pool.dealloc(block, Layout::from_size_align(size, align).unwrap())
}

/// Calls `ByteAllocator::used_bytes` of the pool, which reads its count of
/// used bytes.
#[verifier::external_body]
pub(crate) fn pool_used_bytes(pool: &TlsfByteAllocator) -> (used: usize)
    ensures
        used == pool_used(*pool),
{
    pool.used_bytes()
}

} // verus!
