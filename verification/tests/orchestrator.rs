use rust_proxy_server::cache::{CacheEntry, CacheMeta, ProxyCache};
use rust_proxy_server::constants::{MAX_FILE_SIZE, MAX_RETRIES, RETRY_DELAY_MS};
use rust_proxy_server::response::OriginHeaders;
use rust_proxy_server::server::{
    BodyCollector, ExtensionCollector, ExtensionOutcome, Orchestrator, Reply, Step,
};
use rust_proxy_server::utils::{generate_cache_key, retry_decision, AttemptOutcome, RetryDecision};

fn headers(
    content_type: Option<&str>,
    content_range: Option<&str>,
    content_length: Option<&str>,
) -> OriginHeaders {
    OriginHeaders {
        content_type: content_type.map(|s| s.to_string()),
        content_range: content_range.map(|s| s.to_string()),
        content_length: content_length.map(|s| s.to_string()),
    }
}

fn cached(content: Vec<u8>, is_complete: bool, total_size: Option<u64>) -> CacheEntry {
    CacheEntry {
        content,
        meta: CacheMeta {
            content_type: "text/plain".to_string(),
            is_complete,
            total_size,
        },
    }
}

/// Cache empty; origin answers 200 with a 1000-byte body and
/// `Content-Length: 1000`: the body is cached as complete with
/// `total_size = 1000`, and a following `bytes=0-99` request is answered
/// with 100 bytes, status 206, without any origin step.
#[test]
fn full_fetch_then_range_is_served_from_cache() {
    let mut cache = ProxyCache::new();
    let uri = String::from("http://origin/file");
    let key = generate_cache_key(&uri);

    let mut o = Orchestrator::new(None, None);
    assert!(matches!(o.begin(), Step::FetchFull));
    assert!(matches!(o.on_full_status(200), Step::CollectFull));

    let mut collector = BodyCollector::new();
    assert!(!collector.push(vec![7u8; 1000]));
    let h = headers(Some("text/plain"), None, Some("1000"));
    let step = o.on_full_body(&h, collector.into_body(), false);
    let entry = match step {
        Step::StoreEntry { entry } => entry,
        _ => panic!("a successful fetch is cached"),
    };
    assert_eq!(entry.content.len(), 1000);
    assert!(entry.meta.is_complete);
    assert_eq!(entry.meta.total_size, Some(1000));
    assert_eq!(entry.meta.content_type, "text/plain");
    cache.set(&key, &entry);
    match o.on_stored() {
        Step::Reply(Reply::Fetched { status, body }) => {
            assert_eq!(status, 200);
            assert_eq!(body, vec![7u8; 1000]);
        },
        _ => panic!("the fetched body is delivered"),
    }

    // Second request: a range, answered straight from the cache.
    let found = cache.get(&key);
    assert!(found.is_some());
    let header = String::from("bytes=0-99");
    let mut o2 = Orchestrator::new(found, Some(&header));
    match o2.begin() {
        Step::Reply(Reply::Partial { content_type, start, end, total, body }) => {
            assert_eq!(content_type, "text/plain");
            assert_eq!((start, end, total), (0, 99, 1000));
            assert_eq!(body, vec![7u8; 100]);
        },
        _ => panic!("an in-cache range must not contact origin"),
    }
}

/// Cache holds 500 of 1000 bytes, incomplete, total 1000; `bytes=600-700`
/// makes the orchestrator fetch `bytes=500-700`, merge, persist 701 bytes —
/// still incomplete, since the known total of 1000 is kept — and return
/// bytes 600 through 700.
#[test]
fn range_past_cached_bytes_extends_the_entry() {
    let mut cache = ProxyCache::new();
    let key = String::from("resource");
    let mut content = Vec::new();
    for i in 0..500u32 {
        content.push((i % 251) as u8);
    }
    let entry = cached(content.clone(), false, Some(1000));
    cache.set(&key, &entry);

    let header = String::from("bytes=600-700");
    let mut o = Orchestrator::new(cache.get(&key), Some(&header));
    match o.begin() {
        Step::FetchRange { start, end } => {
            assert_eq!((start, end), (500, 700));
        },
        other => panic!("expected a range fetch, got {}", step_name(&other)),
    }
    assert!(matches!(o.on_range_status(206), Step::CollectRange));
    let mut fetched = Vec::new();
    for i in 500..701u32 {
        fetched.push((i % 251) as u8);
    }
    let step = o.on_range_body(fetched);
    let merged_entry = match step {
        Step::StoreEntry { entry } => entry,
        _ => panic!("the merged entry is written back"),
    };
    assert_eq!(merged_entry.content.len(), 701);
    assert!(!merged_entry.meta.is_complete);
    assert_eq!(merged_entry.meta.total_size, Some(1000));
    for i in 0..701u32 {
        assert_eq!(merged_entry.content[i as usize], (i % 251) as u8);
    }
    cache.set(&key, &merged_entry);
    match o.on_stored() {
        Step::Reply(Reply::Partial { start, end, total, body, .. }) => {
            assert_eq!((start, end, total), (600, 700, 701));
            assert_eq!(body.len(), 101);
            for i in 0..101u32 {
                assert_eq!(body[i as usize], ((600 + i) % 251) as u8);
            }
        },
        _ => panic!("the requested slice is served as partial content"),
    }
    let persisted = cache.get(&key).expect("the extension was persisted");
    assert_eq!(persisted.content.len(), 701);
    assert!(!persisted.meta.is_complete);
    assert_eq!(persisted.meta.total_size, Some(1000));
}

/// An extension that reaches a known total completes the entry against it.
#[test]
fn range_extension_to_known_total_completes() {
    let entry = cached(vec![1u8; 500], false, Some(1000));
    let header = String::from("bytes=900-999");
    let mut o = Orchestrator::new(Some(entry), Some(&header));
    assert!(matches!(o.begin(), Step::FetchRange { start: 500, end: 999 }));
    assert!(matches!(o.on_range_status(206), Step::CollectRange));
    match o.on_range_body(vec![2u8; 500]) {
        Step::StoreEntry { entry } => {
            assert_eq!(entry.content.len(), 1000);
            assert!(entry.meta.is_complete);
            assert_eq!(entry.meta.total_size, Some(1000));
        },
        _ => panic!("the merged entry is written back"),
    }
}

/// With no recorded total, the merged length stands in as a provisional
/// total, complete exactly when the request's end was the last merged byte.
#[test]
fn range_extension_without_total_records_provisional() {
    let entry = cached(vec![1u8; 10], false, None);
    let header = String::from("bytes=0-19");
    let mut o = Orchestrator::new(Some(entry), Some(&header));
    assert!(matches!(o.begin(), Step::FetchRange { start: 10, end: 19 }));
    assert!(matches!(o.on_range_status(206), Step::CollectRange));
    match o.on_range_body(vec![2u8; 10]) {
        Step::StoreEntry { entry } => {
            assert_eq!(entry.content.len(), 20);
            assert!(entry.meta.is_complete);
            assert_eq!(entry.meta.total_size, Some(20));
        },
        _ => panic!("the merged entry is written back"),
    }
}

/// A recorded total the merged bytes overran is untrustworthy: the merged
/// length replaces it as the provisional total.
#[test]
fn range_extension_past_stale_total_records_provisional() {
    // The entry claims a total of 5, but origin serves bytes well past it.
    let entry = cached(vec![1u8; 4], false, Some(5));
    let header = String::from("bytes=0-9");
    let mut o = Orchestrator::new(Some(entry), Some(&header));
    assert!(matches!(o.begin(), Step::FetchRange { start: 4, end: 9 }));
    assert!(matches!(o.on_range_status(206), Step::CollectRange));
    match o.on_range_body(vec![2u8; 6]) {
        Step::StoreEntry { entry } => {
            assert_eq!(entry.content.len(), 10);
            assert!(entry.meta.is_complete);
            assert_eq!(entry.meta.total_size, Some(10));
        },
        _ => panic!("the merged entry is written back"),
    }
}

#[test]
fn complete_entry_serves_ranges_without_origin() {
    let entry = cached(vec![5u8; 1000], true, Some(1000));
    let header = String::from("bytes=100-899");
    let mut o = Orchestrator::new(Some(entry), Some(&header));
    match o.begin() {
        Step::Reply(Reply::Partial { start, end, total, body, .. }) => {
            assert_eq!((start, end, total), (100, 899, 1000));
            assert_eq!(body.len(), 800);
        },
        other => panic!("no origin step is allowed, got {}", step_name(&other)),
    }
}

#[test]
fn inverted_range_is_refused() {
    let entry = cached(vec![5u8; 10], true, Some(10));
    let header = String::from("bytes=5-3");
    let mut o = Orchestrator::new(Some(entry), Some(&header));
    assert!(matches!(o.begin(), Step::Reply(Reply::InvalidRange)));
}

#[test]
fn range_beyond_resource_is_refused_after_extension() {
    // 10 bytes cached of a 12-byte resource; the client asks for byte 50.
    let entry = cached(vec![1u8; 10], false, Some(12));
    let header = String::from("bytes=0-50");
    let mut o = Orchestrator::new(Some(entry), Some(&header));
    assert!(matches!(o.begin(), Step::FetchRange { start: 10, end: 50 }));
    assert!(matches!(o.on_range_status(206), Step::CollectRange));
    // Origin only had 2 more bytes.
    assert!(matches!(
        o.on_range_body(vec![1u8; 2]),
        Step::Reply(Reply::InvalidRange)
    ));
}

#[test]
fn unparseable_range_header_counts_as_absent() {
    let entry = cached(vec![9u8; 4], true, Some(4));
    let header = String::from("bytes=whenever");
    let mut o = Orchestrator::new(Some(entry), Some(&header));
    match o.begin() {
        Step::Reply(Reply::Full { content_type, body }) => {
            assert_eq!(content_type, "text/plain");
            assert_eq!(body, vec![9u8; 4]);
        },
        _ => panic!("an unparseable range falls through to the no-range path"),
    }
}

#[test]
fn complete_entry_without_range_is_served_whole() {
    let entry = cached(vec![8u8; 42], true, Some(42));
    let mut o = Orchestrator::new(Some(entry), None);
    match o.begin() {
        Step::Reply(Reply::Full { body, .. }) => assert_eq!(body, vec![8u8; 42]),
        _ => panic!("a complete entry answers a plain request directly"),
    }
}

#[test]
fn stale_incomplete_flag_heals_itself() {
    // The entry has all 42 bytes but is still marked incomplete.
    let entry = cached(vec![8u8; 42], false, Some(42));
    let mut o = Orchestrator::new(Some(entry), None);
    match o.begin() {
        Step::Reply(Reply::Full { body, .. }) => assert_eq!(body.len(), 42),
        _ => panic!("an entry at its total is served as complete"),
    }
}

#[test]
fn incomplete_entry_fetches_the_rest_and_completes() {
    let entry = cached(vec![1u8; 500], false, Some(1000));
    let mut o = Orchestrator::new(Some(entry), None);
    match o.begin() {
        Step::FetchRemaining { start, end } => assert_eq!((start, end), (500, 999)),
        _ => panic!("the rest of the resource is fetched"),
    }
    match o.on_remaining_status(206) {
        Step::CollectRemaining { cached_len, total } => {
            assert_eq!((cached_len, total), (500, 1000));
        },
        _ => panic!("partial content is collected"),
    }
    let mut collector = ExtensionCollector::new(500, 1000);
    assert!(!collector.push(vec![2u8; 500]));
    let step = o.on_remaining_collected(ExtensionOutcome::Collected(collector.into_body()));
    let entry = match step {
        Step::StoreEntry { entry } => entry,
        _ => panic!("the completed entry is written back"),
    };
    assert_eq!(entry.content.len(), 1000);
    assert!(entry.meta.is_complete);
    assert_eq!(entry.meta.total_size, Some(1000));
    match o.on_stored() {
        Step::Reply(Reply::Full { body, .. }) => {
            assert_eq!(body.len(), 1000);
            assert_eq!(body[499], 1);
            assert_eq!(body[500], 2);
        },
        _ => panic!("the merged body is delivered whole"),
    }
}

/// A 206 that delivers fewer bytes than the declared total has room for is
/// still merged and delivered, but the entry stays incomplete: it never
/// claims to be whole while holding fewer bytes than its declared total.
#[test]
fn truncated_extension_stays_incomplete() {
    let entry = cached(vec![1u8; 500], false, Some(1000));
    let mut o = Orchestrator::new(Some(entry), None);
    assert!(matches!(o.begin(), Step::FetchRemaining { .. }));
    assert!(matches!(o.on_remaining_status(206), Step::CollectRemaining { .. }));
    let mut collector = ExtensionCollector::new(500, 1000);
    assert!(!collector.push(vec![2u8; 100]));
    let step = o.on_remaining_collected(ExtensionOutcome::Collected(collector.into_body()));
    match step {
        Step::StoreEntry { entry } => {
            assert_eq!(entry.content.len(), 600);
            assert!(!entry.meta.is_complete);
            assert_eq!(entry.meta.total_size, Some(1000));
        },
        _ => panic!("the partial merge is still written back"),
    }
    match o.on_stored() {
        Step::Reply(Reply::Full { body, .. }) => assert_eq!(body.len(), 600),
        _ => panic!("the merged bytes are still delivered"),
    }
}

#[test]
fn incomplete_entry_without_total_probes_origin() {
    let entry = cached(vec![1u8; 500], false, None);
    let mut o = Orchestrator::new(Some(entry), None);
    assert!(matches!(o.begin(), Step::ProbeTotal));
    let h = headers(None, Some("bytes 0-0/1000"), None);
    match o.on_probe_response(&h) {
        Step::FetchRemaining { start, end } => assert_eq!((start, end), (500, 999)),
        _ => panic!("the probe's total drives a remaining fetch"),
    }
}

#[test]
fn unanswered_probe_falls_through_to_full_fetch() {
    let entry = cached(vec![1u8; 500], false, None);
    let mut o = Orchestrator::new(Some(entry), None);
    assert!(matches!(o.begin(), Step::ProbeTotal));
    let h = headers(None, None, None);
    assert!(matches!(o.on_probe_response(&h), Step::FetchFull));
}

#[test]
fn overrunning_extension_abandons_the_merge() {
    let entry = cached(vec![1u8; 500], false, Some(1000));
    let mut o = Orchestrator::new(Some(entry), None);
    assert!(matches!(o.begin(), Step::FetchRemaining { .. }));
    assert!(matches!(o.on_remaining_status(206), Step::CollectRemaining { .. }));
    let mut collector = ExtensionCollector::new(500, 1000);
    // Origin streams more than the declared total has room for.
    assert!(collector.push(vec![2u8; 501]));
    assert!(matches!(
        o.on_remaining_collected(ExtensionOutcome::Exceeded),
        Step::FetchFull
    ));
}

#[test]
fn non_partial_remaining_response_falls_through() {
    let entry = cached(vec![1u8; 500], false, Some(1000));
    let mut o = Orchestrator::new(Some(entry), None);
    assert!(matches!(o.begin(), Step::FetchRemaining { .. }));
    assert!(matches!(o.on_remaining_status(200), Step::FetchFull));
}

#[test]
fn non_partial_range_response_passes_through() {
    let entry = cached(vec![1u8; 10], false, Some(100));
    let header = String::from("bytes=0-50");
    let mut o = Orchestrator::new(Some(entry), Some(&header));
    assert!(matches!(o.begin(), Step::FetchRange { .. }));
    assert!(matches!(
        o.on_range_status(200),
        Step::Reply(Reply::Passthrough)
    ));
}

#[test]
fn non_success_full_fetch_passes_through_uncached() {
    let mut o = Orchestrator::new(None, None);
    assert!(matches!(o.begin(), Step::FetchFull));
    assert!(matches!(
        o.on_full_status(404),
        Step::Reply(Reply::Passthrough)
    ));
}

#[test]
fn exhausted_fetch_surfaces_the_failure() {
    let mut o = Orchestrator::new(None, None);
    assert!(matches!(o.begin(), Step::FetchFull));
    assert!(matches!(
        o.on_fetch_failed(),
        Step::Reply(Reply::FetchFailed)
    ));
}

/// A body that passes the cacheable bound is delivered whole but never
/// cached: a later lookup finds nothing.
#[test]
fn oversized_body_bypasses_the_cache() {
    let mut cache = ProxyCache::new();
    let uri = String::from("http://origin/huge");
    let key = generate_cache_key(&uri);

    let mut o = Orchestrator::new(cache.get(&key), None);
    assert!(matches!(o.begin(), Step::FetchFull));
    assert!(matches!(o.on_full_status(200), Step::CollectFull));
    let mut collector = BodyCollector::new();
    assert!(!collector.push(vec![0u8; MAX_FILE_SIZE]));
    // The chunk that crosses the bound stops the stream.
    assert!(collector.push(vec![0u8; 1]));
    let h = headers(None, None, None);
    match o.on_full_body(&h, collector.into_body(), true) {
        Step::Reply(Reply::Uncached { status, body }) => {
            assert_eq!(status, 200);
            assert_eq!(body.len(), MAX_FILE_SIZE + 1);
        },
        _ => panic!("an oversized body is delivered but not stored"),
    }
    assert!(cache.get(&key).is_none());
}

#[test]
fn full_fetch_without_signals_is_presumed_complete() {
    let mut o = Orchestrator::new(None, None);
    assert!(matches!(o.begin(), Step::FetchFull));
    assert!(matches!(o.on_full_status(204), Step::CollectFull));
    let h = headers(None, None, None);
    match o.on_full_body(&h, vec![3u8; 10], false) {
        Step::StoreEntry { entry } => {
            assert!(entry.meta.is_complete);
            assert_eq!(entry.meta.total_size, Some(10));
            assert_eq!(entry.meta.content_type, "application/octet-stream");
        },
        _ => panic!("the body is cached"),
    }
}

/// An origin that declares a total smaller than the bytes it actually sent
/// is untrustworthy bookkeeping: the entry records the accumulated length as
/// its total instead, so it never claims fewer bytes than it holds.
#[test]
fn understated_declared_total_is_clamped() {
    let mut o = Orchestrator::new(None, None);
    assert!(matches!(o.begin(), Step::FetchFull));
    assert!(matches!(o.on_full_status(200), Step::CollectFull));
    let h = headers(None, None, Some("3"));
    match o.on_full_body(&h, vec![3u8; 10], false) {
        Step::StoreEntry { entry } => {
            assert!(!entry.meta.is_complete);
            assert_eq!(entry.meta.total_size, Some(10));
        },
        _ => panic!("the body is cached with a consistent total"),
    }

    let mut o2 = Orchestrator::new(None, None);
    assert!(matches!(o2.begin(), Step::FetchFull));
    assert!(matches!(o2.on_full_status(200), Step::CollectFull));
    let h = headers(None, Some("bytes 0-2/3"), None);
    match o2.on_full_body(&h, vec![3u8; 10], false) {
        Step::StoreEntry { entry } => {
            assert!(!entry.meta.is_complete);
            assert_eq!(entry.meta.total_size, Some(10));
        },
        _ => panic!("the body is cached with a consistent total"),
    }
}

#[test]
fn full_fetch_shorter_than_declared_is_incomplete() {
    let mut o = Orchestrator::new(None, None);
    assert!(matches!(o.begin(), Step::FetchFull));
    assert!(matches!(o.on_full_status(200), Step::CollectFull));
    let h = headers(Some("video/mp4"), Some("bytes 0-9/100"), None);
    match o.on_full_body(&h, vec![3u8; 10], false) {
        Step::StoreEntry { entry } => {
            assert!(!entry.meta.is_complete);
            assert_eq!(entry.meta.total_size, Some(100));
            assert_eq!(entry.meta.content_type, "video/mp4");
        },
        _ => panic!("the partial body is still cached"),
    }
}

/// A fetch that fails on every attempt is retried exactly MAX_RETRIES times,
/// each after the fixed delay, so 1 + MAX_RETRIES attempts are made in all.
#[test]
fn retry_budget_is_one_plus_max_retries() {
    let mut attempts: u32 = 0;
    let mut delays: u32 = 0;
    loop {
        attempts += 1;
        // Every attempt times out.
        match retry_decision(attempts - 1, &AttemptOutcome::TimedOut) {
            RetryDecision::Accept => panic!("nothing was delivered"),
            RetryDecision::GiveUp => break,
            RetryDecision::RetryAfter { delay_ms } => {
                assert_eq!(delay_ms, RETRY_DELAY_MS);
                delays += 1;
            },
        }
    }
    assert_eq!(attempts, 1 + MAX_RETRIES);
    assert_eq!(delays, MAX_RETRIES);
}

#[test]
fn delivered_response_is_never_retried() {
    assert!(matches!(
        retry_decision(0, &AttemptOutcome::Delivered),
        RetryDecision::Accept
    ));
    assert!(matches!(
        retry_decision(MAX_RETRIES, &AttemptOutcome::Delivered),
        RetryDecision::Accept
    ));
    assert!(matches!(
        retry_decision(MAX_RETRIES, &AttemptOutcome::TransportError),
        RetryDecision::GiveUp
    ));
}

fn step_name(s: &Step) -> &'static str {
    match s {
        Step::Reply(_) => "Reply",
        Step::FetchFull => "FetchFull",
        Step::FetchRange { .. } => "FetchRange",
        Step::FetchRemaining { .. } => "FetchRemaining",
        Step::ProbeTotal => "ProbeTotal",
        Step::CollectRange => "CollectRange",
        Step::CollectRemaining { .. } => "CollectRemaining",
        Step::CollectFull => "CollectFull",
        Step::StoreEntry { .. } => "StoreEntry",
    }
}
