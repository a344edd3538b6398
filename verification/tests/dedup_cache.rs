use untracker::dedup::{DedupCache, MsgId, DEDUP_CAPACITY};

#[test]
fn record_and_seen_basics() {
    let mut cache = DedupCache::new();
    let a = MsgId { hi: 1, lo: 2 };
    let b = MsgId { hi: 1, lo: 3 };
    let c = MsgId { hi: 9, lo: 2 };
    assert!(!cache.seen(&a));
    cache.record(a);
    assert!(cache.seen(&a));
    assert!(!cache.seen(&b));
    assert!(!cache.seen(&c));
    cache.record(b);
    cache.record(c);
    assert_eq!(cache.len(), 3);
    // recording an already-seen id changes nothing
    cache.record(a);
    assert_eq!(cache.len(), 3);
}

#[test]
fn overflowing_insert_clears_and_keeps_only_the_newest() {
    let mut cache = DedupCache::new();
    let mut i: u128 = 0;
    while i < DEDUP_CAPACITY as u128 {
        cache.record(MsgId { hi: 0, lo: i });
        i += 1;
    }
    assert_eq!(cache.len(), DEDUP_CAPACITY);
    assert!(cache.seen(&MsgId { hi: 0, lo: 0 }));
    assert!(cache.seen(&MsgId { hi: 0, lo: DEDUP_CAPACITY as u128 - 1 }));

    let newest = MsgId { hi: 0, lo: DEDUP_CAPACITY as u128 };
    cache.record(newest);
    assert_eq!(cache.len(), 1);
    assert!(cache.seen(&newest));
    assert!(!cache.seen(&MsgId { hi: 0, lo: 0 }));
    assert!(!cache.seen(&MsgId { hi: 0, lo: 1 }));
    assert!(!cache.seen(&MsgId { hi: 0, lo: DEDUP_CAPACITY as u128 - 1 }));
}
