//! An allocator for the time before any heap exists.
//!
//! One region is served from both ends: bytes are taken from the low end,
//! going up, and pages from the high end, going down.
//!
//! ```text
//! [ bytes in use | free | pages in use ]
//! start        b_pos   p_pos         start + size
//! ```
//!
//! The allocator keeps no record of single blocks. One counter stands for
//! everything that is outstanding: byte requests raise it and byte frees
//! lower it, and when it comes back to zero the whole byte area is free
//! again. The page side shares that counter: a page request made while it is
//! zero reserves a run of pages and sets the counter to their number, and
//! each page request made while it is not zero lowers it by one and is given
//! the page of the run that the counter then points at. Pages never go back
//! to the region.

use crate::align::{
    lemma_round_down_is_greatest_multiple, lemma_round_up_is_least_multiple, next_multiple_of,
    prev_multiple_of, round_down, round_up,
};
use crate::error::{outcome, AllocFailure};
use vstd::prelude::*;

verus! {

/// The state of an [`EarlyAllocator`], as mathematical integers.
pub struct EarlyState {
    /// The first address of the region.
    pub start: int,
    /// The number of bytes in the region.
    pub size: int,
    /// The address just past the bytes in use.
    pub b_pos: int,
    /// The address of the lowest page in use.
    pub p_pos: int,
    /// The shared counter.
    pub count: int,
}

impl EarlyState {
    /// The two cursors are ordered within the region, and everything fits in
    /// a machine word.
    pub open spec fn wf(self) -> bool {
        &&& 0 <= self.start <= self.b_pos <= self.p_pos <= self.start + self.size <= usize::MAX
        &&& 0 <= self.count <= usize::MAX
    }

    /// The number of bytes between the two cursors.
    pub open spec fn span(self) -> int {
        self.p_pos - self.b_pos
    }
}

/// The state after a byte request for `size` bytes aligned to `align`, and
/// the address it is given, if any.
///
/// The block starts at the first multiple of `align` at or above the byte
/// cursor. The request succeeds when `align` is not zero, the block does not
/// start at address zero and it ends at or below the page cursor; the byte
/// cursor then moves to the block's end and the counter goes up by one. A
/// request that fails changes nothing.
pub open spec fn byte_alloc(s: EarlyState, size: int, align: int) -> (EarlyState, Option<int>) {
    let base = round_up(s.b_pos, align);
    if align > 0 && 0 < base && base + size <= s.p_pos {
        (EarlyState { b_pos: base + size, count: s.count + 1, ..s }, Some(base))
    } else {
        (s, None)
    }
}

/// The state after a byte block is freed: the counter goes down by one, and
/// when it reaches zero the byte cursor goes back to the region's start.
/// Which block is freed plays no part.
pub open spec fn byte_dealloc(s: EarlyState) -> EarlyState {
    if s.count - 1 == 0 {
        EarlyState { b_pos: s.start, count: 0, ..s }
    } else {
        EarlyState { count: s.count - 1, ..s }
    }
}

/// The address of the page that a request is served with while the counter
/// stands at `count`, which is not zero: the pages of a run are handed out
/// from the highest down to the one at the page cursor.
pub open spec fn run_page(s: EarlyState, page_size: int) -> int {
    s.p_pos + (s.count - 1) * page_size
}

/// The state after a page request for `num_pages` pages of `page_size`
/// bytes aligned to `align`, and the address it is given, if any.
///
/// While the counter is zero the request reserves a run: the run is put as
/// high as it can go below the page cursor, at the greatest multiple of
/// `align` that leaves room for the pages. The request fails when it asks
/// for no page, when `align` is zero, or when the run would start below the
/// byte cursor or at address zero; otherwise the page cursor moves down to
/// the run, the counter is set to `num_pages`, and the request is given the
/// address of the run.
///
/// While the counter is not zero the request is served with one page, the
/// one at [`run_page`], and lowers the counter by one, whatever number of
/// pages it asks for. It fails, and changes nothing, when that page is not
/// a multiple of `align`, does not end within the region, or starts at
/// address zero.
pub open spec fn page_alloc(s: EarlyState, num_pages: int, align: int, page_size: int) -> (
    EarlyState,
    Option<int>,
) {
    if s.count != 0 {
        let page = run_page(s, page_size);
        if align > 0 && page % align == 0 && 0 < page && page + page_size <= s.start + s.size {
            (EarlyState { count: s.count - 1, ..s }, Some(page))
        } else {
            (s, None)
        }
    } else {
        let base = round_down(s.p_pos - num_pages * page_size, align);
        if num_pages > 0 && align > 0 && 0 < base && s.b_pos <= base {
            (EarlyState { p_pos: base, count: num_pages, ..s }, Some(base))
        } else {
            (s, None)
        }
    }
}

/// The number of whole pages of `page_size` bytes in `bytes` bytes; none
/// when pages have no size.
pub open spec fn page_count(bytes: int, page_size: int) -> int {
    if page_size > 0 {
        bytes / page_size
    } else {
        0
    }
}

/// The state after pages are freed: the counter goes up by one, and the page
/// cursor stays where it is.
pub open spec fn page_dealloc(s: EarlyState) -> EarlyState {
    EarlyState { count: s.count + 1, ..s }
}

/// An allocator of bytes and of pages of `PAGE_SIZE` bytes over one region.
pub struct EarlyAllocator<const PAGE_SIZE: usize> {
    b_pos: usize,
    p_pos: usize,
    count: usize,
    start: usize,
    size: usize,
}

impl<const PAGE_SIZE: usize> View for EarlyAllocator<PAGE_SIZE> {
    type V = EarlyState;

    closed spec fn view(&self) -> EarlyState {
        EarlyState {
            start: self.start as int,
            size: self.size as int,
            b_pos: self.b_pos as int,
            p_pos: self.p_pos as int,
            count: self.count as int,
        }
    }
}

impl<const PAGE_SIZE: usize> EarlyAllocator<PAGE_SIZE> {
    #[verifier::type_invariant]
    spec fn inv(&self) -> bool {
        self@.wf()
    }

    /// An allocator over the empty region at address zero.
    pub fn new() -> (a: Self)
        ensures
            a@ == (EarlyState { start: 0, size: 0, b_pos: 0, p_pos: 0, count: 0 }),
            a@.wf(),
    {
        Self { b_pos: 0, p_pos: 0, count: 0, start: 0, size: 0 }
    }

    /// The shared counter: what is outstanding, as far as the allocator
    /// knows.
    pub fn count(&self) -> (n: usize)
        ensures
            n == self@.count,
    {
        self.count
    }

    /// Takes over the region of `size` bytes at `start`, all of it free.
    /// The region does not start at address zero, so that no block does.
    pub fn init(&mut self, start: usize, size: usize)
        requires
            start != 0,
            start + size <= usize::MAX,
        ensures
            final(self)@ == (EarlyState {
                start: start as int,
                size: size as int,
                b_pos: start as int,
                p_pos: start + size,
                count: 0,
            }),
            final(self)@.wf(),
    {
        *self = Self { b_pos: start, p_pos: start + size, count: 0, start, size };
    }

    /// Serves a request for `size` bytes aligned to `align`, as
    /// [`byte_alloc`] says.
    pub fn allocate(&mut self, size: usize, align: usize) -> (res: Result<usize, AllocFailure>)
        requires
            old(self)@.count < usize::MAX,
        ensures
            final(self)@ == byte_alloc(old(self)@, size as int, align as int).0,
            res == outcome(byte_alloc(old(self)@, size as int, align as int).1),
            res is Ok ==> res->Ok_0 != 0 && res->Ok_0 as int % align as int == 0,
            final(self)@.wf(),
    {
        proof {
            use_type_invariant(&*self);
            if align > 0 {
                lemma_round_up_is_least_multiple(self.b_pos as int, align as int);
            }
        }
        let base: usize = match next_multiple_of(self.b_pos, align) {
            Some(base) => base,
            None => { return Err(AllocFailure::NoMemory); },
        };
        if base == 0 || base > self.p_pos || size > self.p_pos - base {
            return Err(AllocFailure::NoMemory);
        }
        self.b_pos = base + size;
        self.count = self.count + 1;
        Ok(base)
    }

    /// Takes back a byte block, as [`byte_dealloc`] says. The block itself
    /// is not looked at.
    #[allow(unused_variables)]
    pub fn dealloc(&mut self, pos: usize, size: usize, align: usize)
        requires
            old(self)@.count > 0,
        ensures
            final(self)@ == byte_dealloc(old(self)@),
            final(self)@.wf(),
    {
        proof {
            use_type_invariant(&*self);
        }
        self.count = self.count - 1;
        if self.count == 0 {
            self.b_pos = self.start;
        }
    }

    /// The number of bytes between the two cursors.
    pub fn total_bytes(&self) -> (n: usize)
        ensures
            n == self@.span(),
    {
        proof {
            use_type_invariant(self);
        }
        self.p_pos - self.b_pos
    }

    /// The number of bytes between the two cursors: the allocator cannot
    /// tell the bytes in use from the free ones.
    pub fn used_bytes(&self) -> (n: usize)
        ensures
            n == self@.span(),
    {
        proof {
            use_type_invariant(self);
        }
        self.p_pos - self.b_pos
    }

    /// The number of bytes between the two cursors.
    pub fn available_bytes(&self) -> (n: usize)
        ensures
            n == self@.span(),
    {
        proof {
            use_type_invariant(self);
        }
        self.p_pos - self.b_pos
    }

    /// Serves a request for `num_pages` pages aligned to `align_pow2`, as
    /// [`page_alloc`] says.
    pub fn alloc_pages(&mut self, num_pages: usize, align_pow2: usize) -> (res: Result<
        usize,
        AllocFailure,
    >)
        ensures
            final(self)@ == page_alloc(
                old(self)@,
                num_pages as int,
                align_pow2 as int,
                PAGE_SIZE as int,
            ).0,
            res == outcome(
                page_alloc(old(self)@, num_pages as int, align_pow2 as int, PAGE_SIZE as int).1,
            ),
            res is Ok ==> res->Ok_0 != 0 && res->Ok_0 as int % align_pow2 as int == 0,
            final(self)@.wf(),
    {
        proof {
            use_type_invariant(&*self);
        }
        if align_pow2 == 0 {
            return Err(AllocFailure::NoMemory);
        }
        if self.count != 0 {
            let page: usize = match self.page_in_run() {
                Some(page) => page,
                None => { return Err(AllocFailure::NoMemory); },
            };
            if page % align_pow2 != 0 {
                return Err(AllocFailure::NoMemory);
            }
            self.count = self.count - 1;
            return Ok(page);
        }
        if num_pages == 0 {
            return Err(AllocFailure::NoMemory);
        }
        proof {
            lemma_round_down_is_greatest_multiple(
                self.p_pos - num_pages * PAGE_SIZE,
                align_pow2 as int,
            );
        }
        let bytes: usize = match num_pages.checked_mul(PAGE_SIZE) {
            Some(bytes) => bytes,
            None => { return Err(AllocFailure::NoMemory); },
        };
        if bytes > self.p_pos {
            return Err(AllocFailure::NoMemory);
        }
        let base: usize = match prev_multiple_of(self.p_pos - bytes, align_pow2) {
            Some(base) => base,
            None => { return Err(AllocFailure::NoMemory); },
        };
        if base == 0 || base < self.b_pos {
            return Err(AllocFailure::NoMemory);
        }
        self.p_pos = base;
        self.count = num_pages;
        Ok(base)
    }

    /// The page that the counter points at, when it is not zero, starts
    /// above address zero and ends within the region.
    fn page_in_run(&self) -> (res: Option<usize>)
        requires
            self@.count != 0,
        ensures
            res is Some <==> 0 < run_page(self@, PAGE_SIZE as int) && run_page(
                self@,
                PAGE_SIZE as int,
            ) + PAGE_SIZE <= self@.start + self@.size,
            res is Some ==> res->0 == run_page(self@, PAGE_SIZE as int),
    {
        proof {
            use_type_invariant(self);
        }
        let limit: usize = self.start + self.size;
        let offset: usize = match (self.count - 1).checked_mul(PAGE_SIZE) {
            Some(offset) => offset,
            None => { return None; },
        };
        let page: usize = match self.p_pos.checked_add(offset) {
            Some(page) => page,
            None => { return None; },
        };
        if page == 0 || page > limit || PAGE_SIZE > limit - page {
            None
        } else {
            Some(page)
        }
    }

    /// Takes back pages, as [`page_dealloc`] says. The pages themselves are
    /// not looked at, and none of their memory returns to the region.
    #[allow(unused_variables)]
    pub fn dealloc_pages(&mut self, pos: usize, num_pages: usize)
        requires
            old(self)@.count < usize::MAX,
        ensures
            final(self)@ == page_dealloc(old(self)@),
            final(self)@.wf(),
    {
        proof {
            use_type_invariant(&*self);
        }
        self.count = self.count + 1;
    }

    /// The number of whole pages between the two cursors.
    pub fn total_pages(&self) -> (n: usize)
        ensures
            n == page_count(self@.span(), PAGE_SIZE as int),
    {
        self.pages_between()
    }

    /// The number of whole pages between the two cursors: the allocator
    /// cannot tell the pages in use from the free ones.
    pub fn used_pages(&self) -> (n: usize)
        ensures
            n == page_count(self@.span(), PAGE_SIZE as int),
    {
        self.pages_between()
    }

    /// The number of whole pages between the two cursors.
    pub fn available_pages(&self) -> (n: usize)
        ensures
            n == page_count(self@.span(), PAGE_SIZE as int),
    {
        self.pages_between()
    }

    fn pages_between(&self) -> (n: usize)
        ensures
            n == page_count(self@.span(), PAGE_SIZE as int),
    {
        proof {
            use_type_invariant(self);
        }
        if PAGE_SIZE == 0 {
            0
        } else {
            (self.p_pos - self.b_pos) / PAGE_SIZE
        }
    }
}

} // verus!
