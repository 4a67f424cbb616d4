use rust_proxy_server::cache::{CacheEntry, CacheMeta, ProxyCache};
use rust_proxy_server::constants::{MAX_CACHE_SIZE, MAX_FILE_SIZE};
use rust_proxy_server::utils::generate_cache_key;

fn entry(byte: u8, len: usize) -> CacheEntry {
    CacheEntry {
        content: vec![byte; len],
        meta: CacheMeta {
            content_type: "application/octet-stream".to_string(),
            is_complete: true,
            total_size: Some(len as u64),
        },
    }
}

#[test]
fn key_is_deterministic_and_distinct() {
    let a = String::from("http://origin/a");
    let b = String::from("http://origin/b");
    let k1 = generate_cache_key(&a);
    let k2 = generate_cache_key(&a);
    let k3 = generate_cache_key(&b);
    assert_eq!(k1, k2);
    assert_ne!(k1, k3);
    assert_eq!(k1.len(), 64);
    assert_eq!(k3.len(), 64);
}

#[test]
fn key_matches_known_digests() {
    // SHA-256 of the empty string and of "abc", hex-encoded.
    assert_eq!(
        generate_cache_key(&String::new()),
        "e3b0c44298fc1c149afbf4c8996fb92427ae41e4649b934ca495991b7852b855"
    );
    assert_eq!(
        generate_cache_key(&String::from("abc")),
        "ba7816bf8f01cfea414140de5dae2223b00361a396177a9cb410ff61f20015ad"
    );
}

#[test]
fn set_then_get_round_trips() {
    let mut cache = ProxyCache::new();
    let key = String::from("k1");
    let e = entry(9, 1234);
    cache.set(&key, &e);
    let got = cache.get(&key).expect("entry should be served from memory");
    assert_eq!(got.content, e.content);
    assert_eq!(got.meta.content_type, e.meta.content_type);
    assert_eq!(got.meta.is_complete, e.meta.is_complete);
    assert_eq!(got.meta.total_size, e.meta.total_size);
}

#[test]
fn get_misses_on_unknown_key() {
    let mut cache = ProxyCache::new();
    assert!(cache.get(&String::from("nope")).is_none());
}

#[test]
fn oversized_entry_is_not_held_in_memory() {
    let mut cache = ProxyCache::new();
    let key = String::from("big");
    let e = entry(1, MAX_FILE_SIZE + 1);
    cache.set(&key, &e);
    assert!(cache.get(&key).is_none());
}

#[test]
fn entry_at_the_threshold_is_held() {
    let mut cache = ProxyCache::new();
    let key = String::from("edge");
    let e = entry(1, MAX_FILE_SIZE);
    cache.set(&key, &e);
    assert!(cache.get(&key).is_some());
}

#[test]
fn eviction_drops_least_recently_used() {
    let mut cache = ProxyCache::new();
    for i in 0..MAX_CACHE_SIZE + 1 {
        cache.set(&format!("key-{}", i), &entry(i as u8, 10));
    }
    // The first key went in first and was never touched again.
    assert!(cache.get(&String::from("key-0")).is_none());
    // Every later key is still served from memory.
    for i in 1..MAX_CACHE_SIZE + 1 {
        assert!(cache.get(&format!("key-{}", i)).is_some());
    }
}

#[test]
fn get_refreshes_recency() {
    let mut cache = ProxyCache::new();
    for i in 0..MAX_CACHE_SIZE {
        cache.set(&format!("key-{}", i), &entry(i as u8, 10));
    }
    // Touch the oldest key, then insert one more.
    assert!(cache.get(&String::from("key-0")).is_some());
    cache.set(&String::from("fresh"), &entry(7, 10));
    // The refreshed key survives; the next-oldest was evicted instead.
    assert!(cache.get(&String::from("key-0")).is_some());
    assert!(cache.get(&String::from("key-1")).is_none());
}

#[test]
fn set_refreshes_recency() {
    let mut cache = ProxyCache::new();
    for i in 0..MAX_CACHE_SIZE {
        cache.set(&format!("key-{}", i), &entry(i as u8, 10));
    }
    // Rewrite the oldest key, then insert one more.
    cache.set(&String::from("key-0"), &entry(42, 11));
    cache.set(&String::from("fresh"), &entry(7, 10));
    let kept = cache.get(&String::from("key-0")).expect("rewritten key stays");
    assert_eq!(kept.content.len(), 11);
    assert!(cache.get(&String::from("key-1")).is_none());
}

#[test]
fn promote_loads_a_durable_hit_into_memory() {
    let mut cache = ProxyCache::new();
    let key = String::from("from-disk");
    let e = entry(3, 64);
    // As on a durable-tier hit: the caller hands the decoded records over.
    cache.promote(&key, &e);
    let got = cache.get(&key).expect("promoted entry is served from memory");
    assert_eq!(got.content, e.content);
}

#[test]
fn promote_skips_oversized_bodies() {
    let mut cache = ProxyCache::new();
    let key = String::from("from-disk-big");
    cache.promote(&key, &entry(3, MAX_FILE_SIZE + 1));
    assert!(cache.get(&key).is_none());
}
