//! What holds of the requests and frees of a
//! [`LabByteAllocator`](crate::lab::LabByteAllocator).

use crate::align::{
    is_aligned, lemma_round_down_is_greatest_multiple, lemma_round_up_is_least_multiple,
    round_down,
};
use crate::lab::{
    bump_alloc, bump_dealloc, is_short_lived, LabState, ALLOC_PER_ROUND, POOL_ALIGN, POOL_SIZE,
};
use crate::pool::span;
use vstd::prelude::*;

verus! {

/// A call on the allocator, as far as the bump range is concerned.
pub enum LabCall {
    /// A request for `size` bytes aligned to `align`.
    Allocate { size: int, align: int },
    /// A free of the block of `size` bytes at `pos` that was requested with
    /// alignment `align`.
    Dealloc { pos: int, size: int, align: int },
}

impl LabCall {
    /// The size is that of a block: not negative.
    pub open spec fn wf(self) -> bool {
        match self {
            LabCall::Allocate { size, align } => 0 <= size,
            LabCall::Dealloc { pos, size, align } => 0 <= size,
        }
    }

    /// Whether the call goes to the bump range, not to the pool.
    pub open spec fn is_bump(self) -> bool {
        match self {
            LabCall::Allocate { size, align } => align != POOL_ALIGN,
            LabCall::Dealloc { pos, size, align } => align != POOL_ALIGN,
        }
    }
}

/// The state of the bump range after a call: a call that goes to the pool
/// leaves it as it is.
pub open spec fn lab_step(s: LabState, call: LabCall) -> LabState {
    match call {
        LabCall::Allocate { size, align } => if align == POOL_ALIGN {
            s
        } else {
            bump_alloc(s, size, align).0
        },
        LabCall::Dealloc { pos, size, align } => if align == POOL_ALIGN {
            s
        } else {
            bump_dealloc(s, pos, size)
        },
    }
}

/// The state of the bump range after the calls are made in order.
pub open spec fn lab_run(s: LabState, calls: Seq<LabCall>) -> LabState
    decreases calls.len(),
{
    if calls.len() == 0 {
        s
    } else {
        lab_step(lab_run(s, calls.drop_last()), calls.last())
    }
}

/// A bump block that is served starts at a multiple of its alignment, not
/// at address zero, and lies in what was the gap between the cursors; the
/// gap that is left lies clear of it. A short-lived block starts where the
/// short-lived cursor then stands; a long-lived one ends where the
/// long-lived cursor then stands.
pub proof fn lemma_bump_block_placement(s: LabState, size: int, align: int)
    requires
        s.wf(),
        0 <= size,
        s.count < usize::MAX,
        bump_alloc(s, size, align).1 is Some,
    ensures
        is_aligned(bump_alloc(s, size, align).1->0, align),
        0 < s.long_live <= bump_alloc(s, size, align).1->0,
        bump_alloc(s, size, align).1->0 + size <= s.short_live,
        is_short_lived(s.count + 1) ==> bump_alloc(s, size, align).0.short_live == bump_alloc(
            s,
            size,
            align,
        ).1->0 && bump_alloc(s, size, align).0.long_live == s.long_live,
        !is_short_lived(s.count + 1) ==> bump_alloc(s, size, align).0.long_live == bump_alloc(
            s,
            size,
            align,
        ).1->0 + size && bump_alloc(s, size, align).0.short_live == s.short_live,
        bump_alloc(s, size, align).0.wf(),
{
    lemma_round_down_is_greatest_multiple(s.short_live - size, align);
    lemma_round_up_is_least_multiple(s.long_live, align);
}

/// A bump request keeps the state well formed and the range where it is,
/// whether it succeeds or not.
pub proof fn lemma_bump_alloc_keeps_range(s: LabState, size: int, align: int)
    requires
        s.wf(),
        0 <= size,
        s.count < usize::MAX,
    ensures
        bump_alloc(s, size, align).0.wf(),
        bump_alloc(s, size, align).0.count == s.count + 1,
        bump_alloc(s, size, align).0.start == s.start,
        bump_alloc(s, size, align).0.end == s.end,
        bump_alloc(s, size, align).0.initialized == s.initialized,
{
    if bump_alloc(s, size, align).1 is Some {
        lemma_bump_block_placement(s, size, align);
    }
}

/// Calls raise the count of bump requests by one for each bump request
/// among them, so by no more than their number.
pub proof fn lemma_run_count(s: LabState, calls: Seq<LabCall>)
    ensures
        s.count <= lab_run(s, calls).count <= s.count + calls.len(),
    decreases calls.len(),
{
    if calls.len() > 0 {
        lemma_run_count(s, calls.drop_last());
    }
}

/// The bump range is fixed: whatever calls are made, to the pool or to the
/// bump range, served or not, the range starts and ends where it did, so the
/// total number of bytes stays what `init` made it, and the state stays well
/// formed.
pub proof fn lemma_range_is_fixed(s: LabState, calls: Seq<LabCall>)
    requires
        s.wf(),
        s.count + calls.len() <= usize::MAX,
        forall|i: int| 0 <= i < calls.len() ==> (#[trigger] calls[i]).wf(),
    ensures
        lab_run(s, calls).wf(),
        lab_run(s, calls).start == s.start,
        lab_run(s, calls).end == s.end,
        lab_run(s, calls).initialized == s.initialized,
        lab_run(s, calls).total() == s.total(),
    decreases calls.len(),
{
    if calls.len() > 0 {
        let init = calls.drop_last();
        assert forall|i: int| 0 <= i < init.len() implies (#[trigger] init[i]).wf() by {
            assert(init[i] == calls[i]);
        }
        lemma_range_is_fixed(s, init);
        lemma_run_count(s, init);
        assert(calls.last() == calls[calls.len() - 1]);
        match calls.last() {
            LabCall::Allocate { size, align } => {
                if align != POOL_ALIGN {
                    lemma_bump_alloc_keeps_range(lab_run(s, init), size, align);
                }
            },
            LabCall::Dealloc { pos, size, align } => {},
        }
    }
}

/// A call that goes to the pool changes nothing of the bump range: not the
/// cursors, not the ends, not the count.
pub proof fn lemma_pool_call_keeps_bump_state(s: LabState, call: LabCall)
    requires
        !call.is_bump(),
    ensures
        lab_step(s, call) == s,
{
}

/// Within a round that starts after `done` requests, the request at
/// `place`, counted from one, is short-lived exactly when `place` is odd.
pub proof fn lemma_round_alternates(done: int, place: int)
    requires
        0 <= done,
        done % (ALLOC_PER_ROUND as int) == 0,
        1 <= place <= ALLOC_PER_ROUND,
    ensures
        is_short_lived(done + place) <==> place % 2 == 1,
{
    assert((done + place - 1) % 15 == place - 1) by (nonlinear_arith)
        requires
            0 <= done,
            done % 15 == 0,
            1 <= place <= 15,
    ;
}

/// Round-robin classification: of fifteen bump requests in a row that make
/// up a round, the first, third, and so on to the fifteenth are served from
/// the short-lived end, which grows down, and the second, fourth, and so on
/// to the fourteenth from the long-lived end, which grows up.
///
/// `place` is the place of a request among the fifteen calls, counted from
/// one; all of them are bump requests. A request that is served is given a
/// block at the cursor of its end, which moves over the block; served or
/// not, it leaves the other cursor alone. The fifteen make up a round when
/// the count of earlier bump requests is a multiple of fifteen.
pub proof fn lemma_round_robin(s: LabState, calls: Seq<LabCall>, place: int)
    requires
        s.wf(),
        s.count + ALLOC_PER_ROUND <= usize::MAX,
        s.count % (ALLOC_PER_ROUND as int) == 0,
        calls.len() == ALLOC_PER_ROUND,
        forall|i: int|
            0 <= i < calls.len() ==> (#[trigger] calls[i]) is Allocate && calls[i].is_bump()
                && calls[i].wf(),
        1 <= place <= ALLOC_PER_ROUND,
    ensures
        ({
            let before = lab_run(s, calls.take(place - 1));
            let size = calls[place - 1]->Allocate_size;
            let align = calls[place - 1]->Allocate_align;
            let (after, addr) = bump_alloc(before, size, align);
            &&& lab_run(s, calls.take(place)) == after
            &&& place % 2 == 1 ==> {
                &&& after.long_live == before.long_live
                &&& addr is Some ==> addr == Some(round_down(before.short_live - size, align))
                    && after.short_live == addr->0
            }
            &&& place % 2 == 0 ==> {
                &&& after.short_live == before.short_live
                &&& addr is Some ==> before.long_live <= addr->0 && after.long_live == addr->0
                    + size
            }
        }),
{
    let earlier = calls.take(place - 1);
    lemma_round_count(s, earlier);
    lemma_round_alternates(s.count, place);
    assert(calls.take(place).drop_last() =~= earlier);
    assert(calls.take(place).last() == calls[place - 1]);
    let before = lab_run(s, earlier);
    if bump_alloc(before, calls[place - 1]->Allocate_size, calls[place - 1]->Allocate_align).1
        is Some {
        assert forall|i: int| 0 <= i < earlier.len() implies (#[trigger] earlier[i]).wf() by {
            assert(earlier[i] == calls[i]);
        }
        lemma_range_is_fixed(s, earlier);
        lemma_bump_block_placement(
            before,
            calls[place - 1]->Allocate_size,
            calls[place - 1]->Allocate_align,
        );
    }
}

/// Bump requests raise the count by their number.
pub proof fn lemma_round_count(s: LabState, calls: Seq<LabCall>)
    requires
        forall|i: int|
            0 <= i < calls.len() ==> (#[trigger] calls[i]) is Allocate && calls[i].is_bump(),
    ensures
        lab_run(s, calls).count == s.count + calls.len(),
    decreases calls.len(),
{
    if calls.len() > 0 {
        let init = calls.drop_last();
        assert forall|i: int| 0 <= i < init.len() implies (#[trigger] init[i]) is Allocate
            && init[i].is_bump() by {
            assert(init[i] == calls[i]);
        }
        lemma_round_count(s, init);
        assert(calls.last() == calls[calls.len() - 1]);
    }
}

/// Partial free: freeing a bump block that does not start at the
/// short-lived cursor changes nothing, so the number of available bytes
/// stays what it was. The most recent short-lived block is the one that
/// starts at the cursor; every older short-lived block starts above it.
pub proof fn lemma_partial_free_is_noop(s: LabState, pos: int, size: int)
    requires
        s.wf(),
        pos != s.short_live,
    ensures
        bump_dealloc(s, pos, size) == s,
        bump_dealloc(s, pos, size).available() == s.available(),
{
}

/// Freeing a long-lived block changes nothing, whatever its size: such a
/// block ends at or below the long-lived cursor.
pub proof fn lemma_long_lived_free_is_noop(s: LabState, pos: int, size: int)
    requires
        s.wf(),
        0 <= size,
        pos + size <= s.long_live,
    ensures
        bump_dealloc(s, pos, size) == s,
        bump_dealloc(s, pos, size).available() == s.available(),
{
}

/// A short-lived block that is served while the short-lived area is empty
/// and that ends at the end of the range is taken back whole by its free:
/// the state is then what it was before the request, but for the count.
pub proof fn lemma_short_lived_free_restores(s: LabState, size: int, align: int)
    requires
        s.wf(),
        s.short_live == s.end,
        0 <= size,
        is_short_lived(s.count + 1),
        bump_alloc(s, size, align).1 == Some(s.end - size),
    ensures
        bump_dealloc(bump_alloc(s, size, align).0, s.end - size, size) == (LabState {
            count: s.count + 1,
            ..s
        }),
{
}

/// The pool and the bump range keep apart: while the pool's memory is the
/// [`POOL_SIZE`] bytes at `region` and the bump range starts right after
/// them, as `init` leaves them, a block of the pool ends at or below the
/// start of the bump range, and every bump block lies at or above it.
pub proof fn lemma_pool_block_below_bump_range(region: int, s: LabState, addr: int, size: int)
    requires
        s.wf(),
        s.start == region + POOL_SIZE,
        0 < size,
        span(addr, size).subset_of(span(region, POOL_SIZE as int)),
    ensures
        region <= addr,
        addr + size <= s.start <= s.long_live,
{
    assert(span(addr, size).contains(addr));
    assert(span(addr, size).contains(addr + size - 1));
}

} // verus!
