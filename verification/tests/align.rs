use bump_allocator::align::{next_multiple_of, prev_multiple_of};

#[test]
fn aligned_position_stays() {
    assert_eq!(next_multiple_of(0, 8), Some(0));
    assert_eq!(next_multiple_of(64, 16), Some(64));
    assert_eq!(next_multiple_of(7, 1), Some(7));
}

#[test]
fn unaligned_position_moves_up() {
    assert_eq!(next_multiple_of(1, 8), Some(8));
    assert_eq!(next_multiple_of(0x1001, 0x1000), Some(0x2000));
    assert_eq!(next_multiple_of(17, 16), Some(32));
}

#[test]
fn any_positive_alignment_is_taken() {
    assert_eq!(next_multiple_of(10, 3), Some(12));
    assert_eq!(next_multiple_of(12, 3), Some(12));
}

#[test]
fn zero_alignment_gives_nothing() {
    assert_eq!(next_multiple_of(10, 0), None);
    assert_eq!(next_multiple_of(0, 0), None);
}

#[test]
fn multiple_past_the_last_address_gives_nothing() {
    assert_eq!(next_multiple_of(usize::MAX, 2), None);
    assert_eq!(next_multiple_of(usize::MAX - 6, 8), None);
    assert_eq!(next_multiple_of(usize::MAX, 1), Some(usize::MAX));
    assert_eq!(next_multiple_of(usize::MAX - 7, 8), Some(usize::MAX - 7));
}

#[test]
fn position_moves_down_to_a_multiple() {
    assert_eq!(prev_multiple_of(0, 8), Some(0));
    assert_eq!(prev_multiple_of(64, 16), Some(64));
    assert_eq!(prev_multiple_of(79, 16), Some(64));
    assert_eq!(prev_multiple_of(0x1fff, 0x1000), Some(0x1000));
    assert_eq!(prev_multiple_of(10, 3), Some(9));
    assert_eq!(prev_multiple_of(usize::MAX, 2), Some(usize::MAX - 1));
    assert_eq!(prev_multiple_of(5, 8), Some(0));
}

#[test]
fn zero_alignment_gives_nothing_downwards() {
    assert_eq!(prev_multiple_of(10, 0), None);
}
