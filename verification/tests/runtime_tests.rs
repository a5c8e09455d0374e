use qedc::runtime::Arena;
use qedc::runtime::QueryContext;
use qedc::runtime::Table;

#[test]
fn test_arena_creation() {
    let arena = Arena::new(1024);
    assert_eq!(arena.size(), 0);
    assert_eq!(arena.capacity(), 1024);
}

#[test]
fn test_arena_allocation() {
    let mut arena = Arena::new(1024);
    let off1 = arena.allocate(64, 8);
    let off2 = arena.allocate(64, 8);

    assert_eq!(off1, 0);
    assert_eq!(off2, 64);
    assert_ne!(off1, off2);
}

#[test]
fn test_arena_reset() {
    let mut arena = Arena::new(1024);
    arena.allocate(64, 8);
    assert_eq!(arena.size(), 64);

    arena.reset();
    assert_eq!(arena.size(), 0);
}

#[test]
fn test_arena_alignment_padding() {
    let mut arena = Arena::new(64);
    arena.allocate(3, 1);
    // offset 3 rounds up to 8
    let off = arena.allocate(8, 8);
    assert_eq!(off, 8);
    assert_eq!(arena.size(), 16);
}

#[test]
fn test_arena_exhaustion_reported() {
    let mut arena = Arena::new(16);
    assert_eq!(arena.try_allocate(16, 8), Some(0));
    assert_eq!(arena.try_allocate(1, 1), None);
    assert_eq!(arena.size(), 16);
}

#[test]
fn test_arena_reset_reuses_from_zero() {
    let mut arena = Arena::new(32);
    assert_eq!(arena.try_allocate(32, 8), Some(0));
    assert_eq!(arena.try_allocate(1, 1), None);
    arena.reset();
    assert_eq!(arena.try_allocate(32, 8), Some(0));
}

#[test]
fn test_query_context_creation() {
    let ctx = QueryContext::new(4096, true);
    assert_eq!(ctx.arena.size(), 0);
    assert_eq!(ctx.arena.capacity(), 4096);
    assert!(ctx.proof_root.is_none());
    assert!(ctx.track_proofs);
}

#[test]
fn test_table_creation() {
    let table = Table::new(16);
    assert_eq!(table.bucket_count(), 16);
    assert_eq!(table.entry_count(), 0);
}

#[test]
fn test_table_insert_lookup() {
    let mut table = Table::new(16);

    table.insert(12345, 42, 100);
    assert_eq!(table.entry_count(), 1);

    let result = table.lookup(12345, 42);
    assert!(result.is_some());
    assert_eq!(result.unwrap(), 100);
}

#[test]
fn test_table_distinct_keys_all_found() {
    let mut table = Table::new(4);
    // more keys than buckets, so chains collide
    for i in 0..32u64 {
        table.insert(i * 7, i, i + 1000);
    }
    for i in 0..32u64 {
        assert_eq!(table.lookup(i * 7, i), Some(i + 1000));
    }
    assert_eq!(table.entry_count(), 32);
}

#[test]
fn test_table_duplicate_key_shadows() {
    let mut table = Table::new(8);
    table.insert(5, 9, 1);
    table.insert(5, 9, 2);
    assert_eq!(table.lookup(5, 9), Some(2));
}

#[test]
fn test_table_hash_collision_needs_key_equality() {
    let mut table = Table::new(8);
    // same hash, different keys: both must be found under their own key
    table.insert(3, 100, 1);
    table.insert(3, 200, 2);
    assert_eq!(table.lookup(3, 100), Some(1));
    assert_eq!(table.lookup(3, 200), Some(2));
    // a key that was never inserted is not found, hash match or not
    assert_eq!(table.lookup(3, 300), None);
}
