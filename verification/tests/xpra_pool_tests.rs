//! Tests for the bounded display-number allocator.

use sshx::xpra_pool::{DisplayPool, MAX_DISPLAY, MIN_DISPLAY};
use sshx::XpraError;

#[test]
fn test_display_allocation() {
    let mut pool = DisplayPool::new();

    // Allocate display
    let display = pool.allocate().unwrap();
    assert!(display >= MIN_DISPLAY);
    assert!(display <= MAX_DISPLAY);

    // Verify it's marked as used
    assert_eq!(pool.allocated_count(), 1);

    // Release display
    pool.release(display);
    assert_eq!(pool.allocated_count(), 0);

    // Should be able to allocate same number again
    let new_display = pool.allocate().unwrap();
    assert_eq!(display, new_display);
}

#[test]
fn test_multiple_allocations() {
    let mut pool = DisplayPool::new();
    let mut displays = Vec::new();

    // Allocate 10 displays
    for _ in 0..10 {
        displays.push(pool.allocate().unwrap());
    }

    assert_eq!(pool.allocated_count(), 10);

    // All numbers should be unique
    let mut unique = std::collections::HashSet::new();
    displays.iter().for_each(|d| {
        assert!(unique.insert(d));
    });

    // Release all
    for display in displays {
        pool.release(display);
    }

    assert_eq!(pool.allocated_count(), 0);
}

#[test]
fn test_range_exhaustion_and_reuse() {
    // Range [100, 102]: three allocations in ascending order, then the
    // capacity error; a released number is the next one handed out.
    let mut pool = DisplayPool::with_range(100, 102);
    assert_eq!(pool.allocate().unwrap(), 100);
    assert_eq!(pool.allocate().unwrap(), 101);
    assert_eq!(pool.allocate().unwrap(), 102);
    assert_eq!(pool.allocate(), Err(XpraError::Exhausted));
    assert!(pool.release(101));
    assert_eq!(pool.allocate().unwrap(), 101);
}

#[test]
fn test_release_unallocated_is_noop() {
    let mut pool = DisplayPool::with_range(100, 102);
    assert_eq!(pool.allocate().unwrap(), 100);
    assert_eq!(pool.allocate().unwrap(), 101);
    // Releasing a number that is not held reports false and leaves the
    // other allocations untouched.
    assert!(!pool.release(102));
    assert!(!pool.release(99));
    assert_eq!(pool.allocated_count(), 2);
    // Releasing twice: the second release is the no-op.
    assert!(pool.release(100));
    assert!(!pool.release(100));
    assert_eq!(pool.allocated_count(), 1);
}

#[test]
fn test_count_balances_allocations_and_releases() {
    // After k allocations and j <= k releases the count is k - j.
    let mut pool = DisplayPool::new();
    let mut displays = Vec::new();
    for _ in 0..7 {
        displays.push(pool.allocate().unwrap());
    }
    for d in displays.iter().take(3) {
        assert!(pool.release(*d));
    }
    assert_eq!(pool.allocated_count(), 7 - 3);
}

#[test]
fn test_default_pool_range() {
    let mut pool = DisplayPool::default();
    assert_eq!(pool.min_display(), 100);
    assert_eq!(pool.max_display(), 599);
    assert_eq!(pool.allocate().unwrap(), 100);
}

#[test]
fn test_full_default_range_exhausts() {
    // The default range holds exactly 500 displays, handed out in order.
    let mut pool = DisplayPool::new();
    for expected in 100..=599u16 {
        assert_eq!(pool.allocate().unwrap(), expected);
    }
    assert_eq!(pool.allocated_count(), 500);
    assert_eq!(pool.allocate(), Err(XpraError::Exhausted));
}
