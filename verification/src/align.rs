//! Rounding an address to a multiple of an alignment.

use vstd::prelude::*;

verus! {

/// Whether `pos` is a multiple of `align`.
pub open spec fn is_aligned(pos: int, align: int) -> bool {
    pos % align == 0
}

/// The least multiple of `align` that is not below `pos`, for a positive
/// `align`.
pub open spec fn round_up(pos: int, align: int) -> int {
    if pos % align == 0 {
        pos
    } else {
        pos + (align - pos % align)
    }
}

/// `round_up(pos, align)` is a multiple of `align`, lies less than `align`
/// above `pos`, and no multiple of `align` lies between the two.
pub proof fn lemma_round_up_is_least_multiple(pos: int, align: int)
    requires
        0 <= pos,
        0 < align,
    ensures
        is_aligned(round_up(pos, align), align),
        pos <= round_up(pos, align) < pos + align,
        forall|m: int| pos <= m && #[trigger] is_aligned(m, align) ==> round_up(pos, align) <= m,
{
    let r = round_up(pos, align);
    assert(r % align == 0 && pos <= r < pos + align) by (nonlinear_arith)
        requires
            0 <= pos,
            0 < align,
            r == if pos % align == 0 {
                pos
            } else {
                pos + (align - pos % align)
            },
    ;
    assert forall|m: int| pos <= m && #[trigger] is_aligned(m, align) implies r <= m by {
        assert(r <= m) by (nonlinear_arith)
            requires
                pos <= m,
                m % align == 0,
                r % align == 0,
                r < pos + align,
                0 < align,
        ;
    }
}

/// The greatest multiple of `align` that is not above `pos`, for a positive
/// `align`.
pub open spec fn round_down(pos: int, align: int) -> int {
    pos - pos % align
}

/// `round_down(pos, align)` is a multiple of `align`, lies less than `align`
/// below `pos`, and no multiple of `align` lies between the two.
pub proof fn lemma_round_down_is_greatest_multiple(pos: int, align: int)
    requires
        0 < align,
    ensures
        is_aligned(round_down(pos, align), align),
        pos - align < round_down(pos, align) <= pos,
        forall|m: int| m <= pos && #[trigger] is_aligned(m, align) ==> m <= round_down(pos, align),
{
    let r = round_down(pos, align);
    assert(r % align == 0 && pos - align < r <= pos) by (nonlinear_arith)
        requires
            0 < align,
            r == pos - pos % align,
    ;
    assert forall|m: int| m <= pos && #[trigger] is_aligned(m, align) implies m <= r by {
        assert(m <= r) by (nonlinear_arith)
            requires
                m <= pos,
                m % align == 0,
                r % align == 0,
                pos - align < r,
                0 < align,
        ;
    }
}

/// Rounds `pos` down to a multiple of `align`.
///
/// Returns `None` when `align` is zero.
pub fn prev_multiple_of(pos: usize, align: usize) -> (res: Option<usize>)
    ensures
        res is Some <==> align > 0,
        res is Some ==> res->0 == round_down(pos as int, align as int),
{
    if align == 0 {
        None
    } else {
        let rem: usize = pos % align;
        assert(rem <= pos) by (nonlinear_arith)
            requires
                rem == pos as int % align as int,
                0 < align,
                0 <= pos,
        ;
        Some(pos - rem)
    }
}

/// Rounds `pos` up to the next multiple of `align`.
///
/// Returns `None` when `align` is zero or the multiple does not fit in a
/// `usize`.
pub fn next_multiple_of(pos: usize, align: usize) -> (res: Option<usize>)
    ensures
        res is Some <==> align > 0 && round_up(pos as int, align as int) <= usize::MAX,
        res is Some ==> res->0 == round_up(pos as int, align as int),
{
    if align == 0 {
        return None;
    }
    let rem: usize = pos % align;
    if rem == 0 {
        Some(pos)
    } else {
        pos.checked_add(align - rem)
    }
}

} // verus!
