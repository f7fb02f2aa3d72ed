use bump_allocator::lab::{pool_outcome, ALLOC_PER_ROUND, MEMORY_END, POOL_ALIGN, POOL_SIZE};
use bump_allocator::{AllocFailure, LabByteAllocator};

const END: usize = MEMORY_END as usize;

/// Memory for the pool to live in, with room to start it on a page. The
/// bump range is never touched, so it needs none.
fn pool_memory() -> Vec<u8> {
    vec![0u8; POOL_SIZE + 0x1000]
}

fn fresh(memory: &mut Vec<u8>) -> (LabByteAllocator, usize) {
    let region = (memory.as_mut_ptr() as usize).next_multiple_of(0x1000);
    let mut a = LabByteAllocator::new();
    a.init(region, 0x20000);
    (a, region)
}

#[test]
fn constants_have_their_values() {
    assert_eq!(ALLOC_PER_ROUND, 15);
    assert_eq!(POOL_SIZE, 1 << 18);
    assert_eq!(MEMORY_END, 0xffffffc088000000);
    assert_eq!(POOL_ALIGN, 8);
}

#[test]
fn new_lab_allocator_has_no_memory() {
    let mut a = LabByteAllocator::new();
    assert_eq!(a.total_bytes(), 0);
    assert_eq!(a.used_bytes(), 0);
    assert_eq!(a.available_bytes(), 0);
    assert_eq!(a.pool_used_bytes(), 0);
    assert_eq!(a.count(), 0);
    assert!(!a.is_initialized());
    assert_eq!(a.allocate(16, 8), Err(AllocFailure::NoMemory));
    assert_eq!(a.allocate(16, 16), Err(AllocFailure::NoMemory));
    assert_eq!(a.allocate(0, 16), Err(AllocFailure::NoMemory));
    assert_eq!(a.allocate(0, 16), Err(AllocFailure::NoMemory));
    assert_eq!(a.count(), 3);
}

#[test]
fn bump_range_follows_the_pool_and_ends_at_the_ceiling() {
    let mut memory = pool_memory();
    let (a, region) = fresh(&mut memory);
    assert!(a.is_initialized());
    assert_eq!(a.total_bytes(), END - (region + POOL_SIZE));
    assert_eq!(a.used_bytes(), 0);
    assert_eq!(a.available_bytes(), END - (region + POOL_SIZE));
}

#[test]
fn pool_and_bump_requests_in_turn() {
    let mut memory = pool_memory();
    let (mut a, region) = fresh(&mut memory);
    let start = region + POOL_SIZE;

    let used = a.pool_used_bytes();
    let p = a.allocate(16, 8).unwrap();
    assert!(a.pool_used_bytes() >= used + 16);
    assert!(region <= p && p + 16 <= start);
    assert_eq!(p % 8, 0);

    assert_eq!(a.allocate(64, 16), Ok(END - 64));
    assert_eq!(a.allocate(32, 16), Ok(start));

    a.dealloc(END - 64, 64, 16);
    assert_eq!(a.available_bytes(), (END - start) - 32);
    assert_eq!(a.used_bytes(), 32);
    assert_eq!(a.allocate(8, 4), Ok(END - 8));
}

#[test]
fn pool_counts_the_bytes_it_hands_out() {
    let mut memory = pool_memory();
    let (mut a, _) = fresh(&mut memory);
    let p = a.allocate(16, 8).unwrap();
    assert_eq!(a.pool_used_bytes(), 16);
    let q = a.allocate(100, 8).unwrap();
    assert_eq!(a.pool_used_bytes(), 116);
    assert_ne!(p, q);
    assert!(q + 100 <= p || p + 16 <= q);
    a.dealloc(p, 16, 8);
    assert_eq!(a.pool_used_bytes(), 100);
    a.dealloc(q, 100, 8);
    assert_eq!(a.pool_used_bytes(), 0);
}

#[test]
fn pool_requests_leave_the_bump_range_alone() {
    let mut memory = pool_memory();
    let (mut a, _) = fresh(&mut memory);
    assert_eq!(a.allocate(48, 32), Ok(END - 64));
    assert_eq!(a.allocate(48, 32), Ok(END - a.total_bytes()));
    let (total, used, left, count) =
        (a.total_bytes(), a.used_bytes(), a.available_bytes(), a.count());
    let p = a.allocate(24, 8).unwrap();
    let q = a.allocate(0, 8).unwrap();
    assert_eq!(a.allocate(POOL_SIZE, 8), Err(AllocFailure::NoMemory));
    a.dealloc(p, 24, 8);
    a.dealloc(q, 0, 8);
    assert_eq!(
        (a.total_bytes(), a.used_bytes(), a.available_bytes(), a.count()),
        (total, used, left, count)
    );
    assert_eq!(a.allocate(16, 2), Ok(END - 80));
}

#[test]
fn pool_runs_out() {
    let mut memory = pool_memory();
    let (mut a, _) = fresh(&mut memory);
    let mut served = 0;
    while a.allocate(0x1000, 8).is_ok() {
        served += 1;
        assert!(served <= POOL_SIZE / 0x1000);
    }
    assert!(served > 0);
    assert_eq!(a.pool_used_bytes(), served * 0x1000);
    assert_eq!(a.allocate(0x1000, 8), Err(AllocFailure::NoMemory));
    assert_eq!(a.count(), 0);
}

#[test]
fn pool_request_too_large_for_any_layout_fails() {
    let mut memory = pool_memory();
    let (mut a, _) = fresh(&mut memory);
    assert_eq!(a.allocate(usize::MAX, 8), Err(AllocFailure::NoMemory));
    assert_eq!(a.allocate(isize::MAX as usize, 8), Err(AllocFailure::NoMemory));
    assert_eq!(a.allocate(isize::MAX as usize - 6, 8), Err(AllocFailure::NoMemory));
    assert_eq!(a.allocate(isize::MAX as usize - 7, 8), Err(AllocFailure::NoMemory));
    assert_eq!(a.pool_used_bytes(), 0);
}

#[test]
fn pool_answer_becomes_the_result() {
    assert_eq!(pool_outcome(Ok(0x1234)), Ok(0x1234));
    assert_eq!(pool_outcome(Err(axallocator::AllocError::NoMemory)), Err(AllocFailure::NoMemory));
    assert_eq!(
        pool_outcome(Err(axallocator::AllocError::InvalidParam)),
        Err(AllocFailure::NoMemory)
    );
}

#[test]
fn round_takes_the_two_ends_in_turn() {
    let mut memory = pool_memory();
    let (mut a, region) = fresh(&mut memory);
    let start = region + POOL_SIZE;
    let mut high = END;
    let mut low = start;
    for place in 1..=15 {
        let size = 16 * place;
        let addr = a.allocate(size, 16).unwrap();
        if place % 2 == 1 {
            high -= size;
            assert_eq!(addr, high);
        } else {
            assert_eq!(addr, low);
            low += size;
        }
        assert_eq!(a.available_bytes(), high - low);
    }
    assert_eq!(a.count(), 15);
}

#[test]
fn next_round_starts_with_the_short_lived_end() {
    let mut memory = pool_memory();
    let (mut a, region) = fresh(&mut memory);
    let start = region + POOL_SIZE;
    for _ in 0..14 {
        a.allocate(1, 1).unwrap();
    }
    assert_eq!(a.allocate(4, 4), Ok(END - 12));
    assert_eq!(a.allocate(4, 4), Ok(END - 16));
    assert_eq!(a.allocate(4, 4), Ok(start + 8));
}

#[test]
fn total_bytes_stay_what_init_made_them() {
    let mut memory = pool_memory();
    let (mut a, region) = fresh(&mut memory);
    let total = END - (region + POOL_SIZE);
    let p = a.allocate(40, 8).unwrap();
    assert_eq!(a.total_bytes(), total);
    let s = a.allocate(100, 4).unwrap();
    let l = a.allocate(100, 4).unwrap();
    assert_eq!(a.total_bytes(), total);
    a.dealloc(l, 100, 4);
    a.dealloc(s, 100, 4);
    a.dealloc(p, 40, 8);
    assert_eq!(a.allocate(total + 1, 4), Err(AllocFailure::NoMemory));
    assert_eq!(a.total_bytes(), total);
    assert_eq!(a.used_bytes() + a.available_bytes(), total);
}

#[test]
fn bump_blocks_are_aligned() {
    let mut memory = pool_memory();
    let (mut a, region) = fresh(&mut memory);
    let start = region + POOL_SIZE;
    assert_eq!(a.allocate(33, 16), Ok(END - 48));
    assert_eq!(a.allocate(5, 64), Ok(start));
    assert_eq!(a.allocate(1, 1), Ok(END - 49));
    assert_eq!(a.allocate(8, 64), Ok(start + 64));
    assert_eq!(a.allocate(8, 0x1000), Ok(END - 0x1000));
    assert_eq!(a.allocate(8, 0x1000), Ok(start + 0x1000));
    assert_eq!(a.used_bytes(), 0x1000 + 0x1008);
    assert_eq!(a.available_bytes(), END - start - 0x2008);
}

#[test]
fn bump_alignment_of_zero_is_refused() {
    let mut memory = pool_memory();
    let (mut a, _) = fresh(&mut memory);
    let left = a.available_bytes();
    assert_eq!(a.allocate(16, 0), Err(AllocFailure::NoMemory));
    assert_eq!(a.allocate(16, 0), Err(AllocFailure::NoMemory));
    assert_eq!(a.count(), 2);
    assert_eq!(a.available_bytes(), left);
}

#[test]
fn failed_bump_request_is_counted() {
    let mut memory = pool_memory();
    let (mut a, region) = fresh(&mut memory);
    let start = region + POOL_SIZE;
    assert_eq!(a.allocate(usize::MAX, 4), Err(AllocFailure::NoMemory));
    assert_eq!(a.count(), 1);
    assert_eq!(a.allocate(16, 4), Ok(start));
    assert_eq!(a.allocate(16, 4), Ok(END - 16));
    assert_eq!(a.count(), 3);
}

#[test]
fn bump_request_larger_than_the_gap_fails() {
    let mut memory = pool_memory();
    let (mut a, region) = fresh(&mut memory);
    let start = region + POOL_SIZE;
    let gap = END - start;
    assert_eq!(a.allocate(gap + 1, 16), Err(AllocFailure::NoMemory));
    assert_eq!(a.allocate(gap + 1, 16), Err(AllocFailure::NoMemory));
    assert_eq!(a.available_bytes(), gap);
    assert_eq!(a.allocate(gap, 16), Ok(start));
    assert_eq!(a.available_bytes(), 0);
    assert_eq!(a.used_bytes(), gap);
    assert_eq!(a.allocate(1, 16), Err(AllocFailure::NoMemory));
    assert_eq!(a.allocate(1, 16), Err(AllocFailure::NoMemory));
}

#[test]
fn long_lived_block_does_not_pass_the_short_lived_ones() {
    let mut memory = pool_memory();
    let (mut a, region) = fresh(&mut memory);
    let start = region + POOL_SIZE;
    let gap = END - start;
    assert_eq!(a.allocate(gap - 64, 16), Ok(start + 64));
    assert_eq!(a.allocate(65, 16), Err(AllocFailure::NoMemory));
    assert_eq!(a.allocate(0, 16), Ok(start + 64));
    assert_eq!(a.allocate(64, 16), Ok(start));
    assert_eq!(a.available_bytes(), 0);
}

#[test]
fn free_of_another_block_changes_nothing() {
    let mut memory = pool_memory();
    let (mut a, region) = fresh(&mut memory);
    let start = region + POOL_SIZE;
    assert_eq!(a.allocate(64, 16), Ok(END - 64));
    assert_eq!(a.allocate(32, 16), Ok(start));
    assert_eq!(a.allocate(16, 16), Ok(END - 80));
    let left = a.available_bytes();
    a.dealloc(start, 32, 16);
    assert_eq!(a.available_bytes(), left);
    a.dealloc(END - 64, 64, 16);
    assert_eq!(a.available_bytes(), left);
    a.dealloc(END - 64, 80, 16);
    assert_eq!(a.available_bytes(), left);
    a.dealloc(END - 80, 16, 16);
    assert_eq!(a.available_bytes(), left);
    assert_eq!(a.used_bytes(), 112);
}

#[test]
fn free_of_a_long_lived_block_changes_nothing() {
    let mut memory = pool_memory();
    let (mut a, region) = fresh(&mut memory);
    let start = region + POOL_SIZE;
    let s = a.allocate(64, 16).unwrap();
    let l = a.allocate(64, 16).unwrap();
    assert_eq!((s, l), (END - 64, start));
    let left = a.available_bytes();
    assert_eq!(left, (END - start) - 128);
    a.dealloc(l, 64, 16);
    assert_eq!(a.available_bytes(), left);
    assert_eq!(a.used_bytes(), 128);
    a.dealloc(s, 64, 16);
    assert_eq!(a.available_bytes(), left + 64);
    assert_eq!(a.used_bytes(), 64);
}

#[test]
fn free_of_the_only_short_lived_block_empties_the_area() {
    let mut memory = pool_memory();
    let (mut a, _) = fresh(&mut memory);
    let total = a.total_bytes();
    let s = a.allocate(256, 32).unwrap();
    assert_eq!(a.available_bytes(), total - 256);
    a.dealloc(s, 255, 32);
    assert_eq!(a.available_bytes(), total - 256);
    a.dealloc(s, 256, 32);
    assert_eq!(a.available_bytes(), total);
    assert_eq!(a.used_bytes(), 0);
}
