use diskfs::buf::{Buf, B_DIRTY, B_VALID};
use diskfs::cache::BufCache;

#[test]
fn get_on_empty_cache_misses() {
    let mut cache = BufCache::new(3);
    assert!(cache.get(0, 1).is_none());
}

#[test]
fn capacity_never_exceeded() {
    let mut cache = BufCache::new(3);
    for blockno in 0..10 {
        cache.buf_get(0, blockno);
        assert!(cache.bufs.len() <= 3);
    }
    assert_eq!(cache.bufs.len(), 3);
}

#[test]
fn fourth_key_evicts_least_recently_used() {
    let mut cache = BufCache::new(3);
    cache.buf_get(0, 1);
    cache.buf_get(0, 2);
    cache.buf_get(0, 3);
    cache.buf_get(0, 4);
    // block 1 was least recently used and is the one evicted
    assert!(cache.get(0, 1).is_none());
    assert!(cache.get(0, 2).is_some());
    assert!(cache.get(0, 3).is_some());
    assert!(cache.get(0, 4).is_some());
}

#[test]
fn access_promotes_to_most_recently_used() {
    let mut cache = BufCache::new(3);
    cache.buf_get(0, 1);
    cache.buf_get(0, 2);
    cache.buf_get(0, 3);
    // touch 1 again: 2 becomes least recently used
    cache.buf_get(0, 1);
    cache.buf_get(0, 4);
    assert!(cache.get(0, 1).is_some());
    assert!(cache.get(0, 2).is_none());
}

#[test]
fn promoted_key_survives_capacity_minus_one_other_accesses() {
    let mut cache = BufCache::new(3);
    cache.buf_get(0, 7);
    cache.buf_get(0, 8);
    cache.buf_get(0, 9);
    cache.buf_get(0, 7);
    // two (= capacity - 1) accesses of other keys cannot evict 7
    cache.buf_get(0, 10);
    cache.buf_get(0, 11);
    assert!(cache.bufs.iter().any(|b| b.blockno == 7));
    // a third access of a new key finally does
    cache.buf_get(0, 12);
    assert!(!cache.bufs.iter().any(|b| b.blockno == 7));
}

#[test]
fn same_key_is_cached_once() {
    let mut cache = BufCache::new(3);
    let s1 = cache.buf_get(0, 5);
    let s2 = cache.buf_get(0, 5);
    assert_eq!(cache.bufs.len(), 1);
    assert_eq!(s1, s2);
}

#[test]
fn distinct_devices_are_distinct_keys() {
    let mut cache = BufCache::new(3);
    cache.buf_get(0, 5);
    cache.buf_get(1, 5);
    assert_eq!(cache.bufs.len(), 2);
}

#[test]
fn buf_get_returns_fresh_invalid_zeroed_block() {
    let mut cache = BufCache::new(3);
    let slot = cache.buf_get(2, 17);
    let b = &cache.bufs[slot];
    assert_eq!(b.dev, 2);
    assert_eq!(b.blockno, 17);
    assert_eq!(b.flags, 0);
    assert_eq!(b.data.len(), 512);
    assert!(b.data.iter().all(|&x| x == 0));
}

#[test]
fn install_updates_cached_entry() {
    let mut cache = BufCache::new(3);
    let slot = cache.buf_get(0, 24);
    assert_eq!(cache.bufs[slot].flags & B_VALID, 0);
    let done = Buf { dev: 0, blockno: 24, flags: B_VALID, data: vec![7u8; 512] };
    cache.install(done);
    let slot = match cache.get(0, 24) {
        Some(s) => s,
        None => panic!("entry vanished"),
    };
    assert_ne!(cache.bufs[slot].flags & B_VALID, 0);
    assert_eq!(cache.bufs[slot].flags & B_DIRTY, 0);
    assert!(cache.bufs[slot].data.iter().all(|&x| x == 7));
}

#[test]
fn install_of_evicted_key_changes_nothing() {
    let mut cache = BufCache::new(2);
    cache.buf_get(0, 1);
    cache.buf_get(0, 2);
    let stray = Buf { dev: 0, blockno: 99, flags: B_VALID, data: vec![1u8; 512] };
    cache.install(stray);
    assert_eq!(cache.bufs.len(), 2);
    assert!(cache.get(0, 99).is_none());
}

#[test]
fn buf_release_changes_nothing() {
    let mut cache = BufCache::new(2);
    cache.buf_get(0, 1);
    cache.buf_release();
    assert_eq!(cache.bufs.len(), 1);
    assert!(cache.get(0, 1).is_some());
}
