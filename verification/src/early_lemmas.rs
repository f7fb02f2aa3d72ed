//! What holds of whole sequences of requests to an
//! [`EarlyAllocator`](crate::early::EarlyAllocator).

use crate::align::{
    is_aligned, lemma_round_down_is_greatest_multiple, lemma_round_up_is_least_multiple,
    round_down,
};
use crate::early::{byte_alloc, byte_dealloc, page_alloc, EarlyState};
use vstd::arithmetic::div_mod::{lemma_fundamental_div_mod, lemma_mod_multiples_vanish};
use vstd::prelude::*;

verus! {

/// A byte request: a size and an alignment.
pub struct ByteRequest {
    pub size: int,
    pub align: int,
}

/// The state after the byte requests `reqs` are made in order, provided that
/// every one of them succeeds.
pub open spec fn byte_alloc_all(s: EarlyState, reqs: Seq<ByteRequest>) -> Option<EarlyState>
    decreases reqs.len(),
{
    if reqs.len() == 0 {
        Some(s)
    } else {
        match byte_alloc_all(s, reqs.drop_last()) {
            Some(before) => {
                let (after, addr) = byte_alloc(before, reqs.last().size, reqs.last().align);
                if addr is Some {
                    Some(after)
                } else {
                    None
                }
            },
            None => None,
        }
    }
}

/// The state after `n` byte blocks are freed.
pub open spec fn byte_dealloc_times(s: EarlyState, n: nat) -> EarlyState
    decreases n,
{
    if n == 0 {
        s
    } else {
        byte_dealloc(byte_dealloc_times(s, (n - 1) as nat))
    }
}

/// A page request: a number of pages and an alignment.
pub struct PageRequest {
    pub num_pages: int,
    pub align: int,
}

/// The state after the page requests `reqs` are made in order.
pub open spec fn page_alloc_seq(s: EarlyState, reqs: Seq<PageRequest>, page_size: int) -> EarlyState
    decreases reqs.len(),
{
    if reqs.len() == 0 {
        s
    } else {
        page_alloc(
            page_alloc_seq(s, reqs.drop_last(), page_size),
            reqs.last().num_pages,
            reqs.last().align,
            page_size,
        ).0
    }
}

/// The page of a run of `k` pages at `base` that goes to the request at
/// `place` among those that follow the reservation, counted from zero: the
/// first is given the highest page, the last the page at `base`.
pub open spec fn page_of_run(base: int, k: int, place: int, page_size: int) -> int {
    base + (k - 1 - place) * page_size
}

/// A byte block that is served starts at a multiple of its alignment, not
/// at address zero, and lies in what was the gap between the cursors: at or above the byte cursor,
/// and so clear of every byte block served since the byte area was last
/// reclaimed, and at or below the page cursor, and so clear of every page.
pub proof fn lemma_byte_block_placement(s: EarlyState, size: int, align: int)
    requires
        s.wf(),
        s.count < usize::MAX,
        0 <= size,
        byte_alloc(s, size, align).1 is Some,
    ensures
        is_aligned(byte_alloc(s, size, align).1->0, align),
        0 < byte_alloc(s, size, align).1->0,
        s.start <= s.b_pos <= byte_alloc(s, size, align).1->0,
        byte_alloc(s, size, align).1->0 + size == byte_alloc(s, size, align).0.b_pos,
        byte_alloc(s, size, align).0.b_pos <= s.p_pos,
        byte_alloc(s, size, align).0.wf(),
{
    lemma_round_up_is_least_multiple(s.b_pos, align);
}

/// Byte requests that all succeed raise the counter by their number, move
/// the byte cursor up or leave it, and keep the state well formed.
pub proof fn lemma_byte_alloc_all(s: EarlyState, reqs: Seq<ByteRequest>)
    requires
        s.wf(),
        s.count + reqs.len() <= usize::MAX,
        forall|i: int| 0 <= i < reqs.len() ==> (#[trigger] reqs[i]).size >= 0,
        byte_alloc_all(s, reqs) is Some,
    ensures
        byte_alloc_all(s, reqs)->0.wf(),
        byte_alloc_all(s, reqs)->0.count == s.count + reqs.len(),
        byte_alloc_all(s, reqs)->0.b_pos >= s.b_pos,
        byte_alloc_all(s, reqs)->0.p_pos == s.p_pos,
        byte_alloc_all(s, reqs)->0.start == s.start,
        byte_alloc_all(s, reqs)->0.size == s.size,
    decreases reqs.len(),
{
    if reqs.len() > 0 {
        let init = reqs.drop_last();
        assert forall|i: int| 0 <= i < init.len() implies (#[trigger] init[i]).size >= 0 by {
            assert(init[i] == reqs[i]);
        }
        lemma_byte_alloc_all(s, init);
        let before = byte_alloc_all(s, init)->0;
        lemma_byte_block_placement(before, reqs.last().size, reqs.last().align);
    }
}

/// Frees that never find the counter at zero lower it by their number, and
/// move the byte cursor only when the counter reaches zero, back to the
/// start of the region.
pub proof fn lemma_byte_dealloc_times(s: EarlyState, n: nat)
    requires
        s.wf(),
        n <= s.count,
    ensures
        byte_dealloc_times(s, n).wf(),
        byte_dealloc_times(s, n).count == s.count - n,
        byte_dealloc_times(s, n).b_pos == if n > 0 && s.count == n {
            s.start
        } else {
            s.b_pos
        },
        byte_dealloc_times(s, n).p_pos == s.p_pos,
        byte_dealloc_times(s, n).start == s.start,
        byte_dealloc_times(s, n).size == s.size,
    decreases n,
{
    if n > 0 {
        lemma_byte_dealloc_times(s, (n - 1) as nat);
    }
}

/// Bulk reclaim: when byte requests that all succeed are followed by as many
/// frees, the number of available bytes is what it was before the first
/// request.
///
/// The frees carry no address, so their order plays no part. The byte area
/// comes back only when the counter returns to zero, so the law is stated
/// for the cases in which that restores the byte cursor: nothing was
/// outstanding and no byte was in use before the first request, or else the
/// requests left the cursor where it was.
pub proof fn lemma_bulk_reclaim(s: EarlyState, reqs: Seq<ByteRequest>)
    requires
        s.wf(),
        s.count + reqs.len() <= usize::MAX,
        forall|i: int| 0 <= i < reqs.len() ==> (#[trigger] reqs[i]).size >= 0,
        byte_alloc_all(s, reqs) is Some,
        s.count == 0 && reqs.len() > 0 ==> s.b_pos == s.start,
        s.count != 0 ==> byte_alloc_all(s, reqs)->0.b_pos == s.b_pos,
    ensures
        byte_dealloc_times(byte_alloc_all(s, reqs)->0, reqs.len()).span() == s.span(),
        byte_dealloc_times(byte_alloc_all(s, reqs)->0, reqs.len()).count == s.count,
{
    lemma_byte_alloc_all(s, reqs);
    lemma_byte_dealloc_times(byte_alloc_all(s, reqs)->0, reqs.len());
}

/// The pages of a run are apart and inside it: of two requests that follow
/// a reservation, the later is given a page that ends at or below the page
/// of the earlier, and every page lies between the base and the end of the
/// run.
pub proof fn lemma_run_pages_apart(base: int, k: int, earlier: int, later: int, page_size: int)
    requires
        0 <= earlier < later < k,
        0 <= page_size,
    ensures
        page_of_run(base, k, later, page_size) + page_size <= page_of_run(
            base,
            k,
            earlier,
            page_size,
        ),
        base <= page_of_run(base, k, later, page_size),
        page_of_run(base, k, earlier, page_size) + page_size <= base + k * page_size,
{
    assert((k - 1 - later) * page_size + page_size <= (k - 1 - earlier) * page_size
        && 0 <= (k - 1 - later) * page_size && (k - 1 - earlier) * page_size + page_size <= k
        * page_size) by (nonlinear_arith)
        requires
            0 <= earlier < later < k,
            0 <= page_size,
    ;
}

/// Every page of a run is aligned as the run is, when the alignment divides
/// the page size.
pub proof fn lemma_run_pages_aligned(base: int, k: int, place: int, page_size: int, align: int)
    requires
        0 < align,
        base % align == 0,
        page_size % align == 0,
    ensures
        page_of_run(base, k, place, page_size) % align == 0,
{
    let factor = page_size / align;
    lemma_fundamental_div_mod(page_size, align);
    assert((k - 1 - place) * page_size == align * ((k - 1 - place) * factor))
        by (nonlinear_arith)
        requires
            page_size == align * factor,
    ;
    lemma_mod_multiples_vanish((k - 1 - place) * factor, base, align);
}

/// The state after a reservation of `k` pages that succeeds on `s`.
pub open spec fn reserved(s: EarlyState, k: int, align: int, page_size: int) -> EarlyState {
    EarlyState { p_pos: round_down(s.p_pos - k * page_size, align), count: k, ..s }
}

/// Whether each of the requests that follow a reservation of `k` pages at
/// `base` asks for an alignment that its page has.
pub open spec fn pages_fit_requests(base: int, k: int, reqs: Seq<PageRequest>, page_size: int)
    -> bool {
    forall|i: int|
        0 <= i < reqs.len() ==> (#[trigger] reqs[i]).align > 0 && page_of_run(
            base,
            k,
            i,
            page_size,
        ) % reqs[i].align == 0
}

/// After a run of `k` pages is reserved, page requests draw on it: the state
/// after `reqs.len()` of them, at most `k`, is the state after the
/// reservation with the counter lowered by their number.
pub proof fn lemma_page_run_state(
    s: EarlyState,
    k: int,
    align: int,
    reqs: Seq<PageRequest>,
    page_size: int,
)
    requires
        s.wf(),
        s.count == 0,
        0 <= page_size,
        page_alloc(s, k, align, page_size).1 is Some,
        reqs.len() <= k,
        pages_fit_requests(reserved(s, k, align, page_size).p_pos, k, reqs, page_size),
    ensures
        page_alloc(s, k, align, page_size).0 == reserved(s, k, align, page_size),
        page_alloc_seq(reserved(s, k, align, page_size), reqs, page_size) == (EarlyState {
            count: k - reqs.len(),
            ..reserved(s, k, align, page_size)
        }),
    decreases reqs.len(),
{
    if reqs.len() > 0 {
        let run = reserved(s, k, align, page_size);
        let init = reqs.drop_last();
        let place = reqs.len() - 1;
        assert(pages_fit_requests(run.p_pos, k, init, page_size)) by {
            assert forall|i: int| 0 <= i < init.len() implies (#[trigger] init[i]).align > 0
                && page_of_run(run.p_pos, k, i, page_size) % init[i].align == 0 by {
                assert(init[i] == reqs[i]);
            }
        }
        lemma_page_run_state(s, k, align, init, page_size);
        lemma_round_down_is_greatest_multiple(s.p_pos - k * page_size, align);
        assert(reqs.last() == reqs[place]);
        assert(0 <= (k - 1 - place) * page_size && (k - 1 - place) * page_size + page_size <= k
            * page_size) by (nonlinear_arith)
            requires
                0 <= place < k,
                0 <= page_size,
        ;
    }
}

/// Page reservation: a request for `k` pages that finds the counter at zero
/// and room for the pages reserves a run, and exactly the `k` page requests
/// that follow are served from it, whatever number of pages they ask for:
/// each is given a page of the run of its own, from the highest down, and
/// moves nothing. The pages lie in the run and apart from each other, as
/// [`lemma_run_pages_apart`] shows. The run is then used up, and the request
/// after them stands where the first stood: it fails when it asks for no
/// page or finds no room for a run of its own, and reserves one otherwise.
///
/// A request that is served from the run must ask for an alignment that its
/// page has; by [`lemma_run_pages_aligned`] that is so when every request
/// asks for the alignment of the run and that alignment divides the page
/// size.
pub proof fn lemma_page_reservation(
    s: EarlyState,
    k: int,
    align: int,
    reqs: Seq<PageRequest>,
    next: PageRequest,
    page_size: int,
)
    requires
        s.wf(),
        s.count == 0,
        0 <= page_size,
        page_alloc(s, k, align, page_size).1 is Some,
        reqs.len() == k,
        pages_fit_requests(reserved(s, k, align, page_size).p_pos, k, reqs, page_size),
    ensures
        page_alloc(s, k, align, page_size) == (
            reserved(s, k, align, page_size),
            Some(reserved(s, k, align, page_size).p_pos),
        ),
        is_aligned(reserved(s, k, align, page_size).p_pos, align),
        s.b_pos <= reserved(s, k, align, page_size).p_pos,
        reserved(s, k, align, page_size).p_pos + k * page_size <= s.p_pos,
        forall|i: int|
            0 <= i < k ==> (#[trigger] page_alloc(
                page_alloc_seq(reserved(s, k, align, page_size), reqs.take(i), page_size),
                reqs[i].num_pages,
                reqs[i].align,
                page_size,
            )).1 == Some(page_of_run(reserved(s, k, align, page_size).p_pos, k, i, page_size)),
        page_alloc_seq(reserved(s, k, align, page_size), reqs, page_size) == (EarlyState {
            count: 0,
            ..reserved(s, k, align, page_size)
        }),
        page_alloc(
            page_alloc_seq(reserved(s, k, align, page_size), reqs, page_size),
            next.num_pages,
            next.align,
            page_size,
        ).1 is None <==> next.num_pages <= 0 || next.align <= 0 || round_down(
            reserved(s, k, align, page_size).p_pos - next.num_pages * page_size,
            next.align,
        ) < s.b_pos || round_down(
            reserved(s, k, align, page_size).p_pos - next.num_pages * page_size,
            next.align,
        ) <= 0,
{
    let run = reserved(s, k, align, page_size);
    lemma_round_down_is_greatest_multiple(s.p_pos - k * page_size, align);
    lemma_page_run_state(s, k, align, reqs, page_size);
    assert forall|i: int| 0 <= i < k implies (#[trigger] page_alloc(
        page_alloc_seq(run, reqs.take(i), page_size),
        reqs[i].num_pages,
        reqs[i].align,
        page_size,
    )).1 == Some(page_of_run(run.p_pos, k, i, page_size)) by {
        let taken = reqs.take(i);
        assert(pages_fit_requests(run.p_pos, k, taken, page_size)) by {
            assert forall|j: int| 0 <= j < taken.len() implies (#[trigger] taken[j]).align > 0
                && page_of_run(run.p_pos, k, j, page_size) % taken[j].align == 0 by {
                assert(taken[j] == reqs[j]);
            }
        }
        lemma_page_run_state(s, k, align, taken, page_size);
        assert(0 <= (k - 1 - i) * page_size && (k - 1 - i) * page_size + page_size <= k
            * page_size) by (nonlinear_arith)
            requires
                0 <= i < k,
                0 <= page_size,
        ;
    }
}

} // verus!
