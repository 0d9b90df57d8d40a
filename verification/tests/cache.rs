use rustway::cache::{cache_key, CachedResponse, ResponseCache};

fn response(status: u16, body: &str, inserted_at_ms: u64) -> CachedResponse {
    CachedResponse {
        status,
        headers: vec![("content-type".to_string(), "text/plain".to_string())],
        body: body.as_bytes().to_vec(),
        inserted_at_ms,
    }
}

#[test]
fn key_is_method_path_and_query() {
    assert_eq!(
        cache_key("GET", "/api/v1/users/123", "include=profile&fields=name,email"),
        "GET:/api/v1/users/123:include=profile&fields=name,email"
    );
    assert_eq!(cache_key("GET", "/api/v1/users/123", ""), "GET:/api/v1/users/123:");
    assert_ne!(cache_key("GET", "/a", "x=1&y=2"), cache_key("GET", "/a", "y=2&x=1"));
}

#[test]
fn entry_is_replayed_until_its_ttl_has_passed() {
    let mut cache = ResponseCache::new(10);
    let key = cache_key("GET", "/api/v1/users/123", "");
    assert!(cache.get(&key, 0).is_none());
    cache.put(&key, response(200, "alice", 0), 30_000);
    let hit = cache.get(&key, 29_000).unwrap();
    assert_eq!(hit.status, 200);
    assert_eq!(hit.headers, vec![("content-type".to_string(), "text/plain".to_string())]);
    assert_eq!(hit.body, b"alice".to_vec());
    assert_eq!(hit.inserted_at_ms, 0);
    assert!(cache.get(&key, 31_000).is_none());
    assert_eq!(cache.len(), 0);
}

#[test]
fn ttl_boundary_is_exclusive() {
    let mut cache = ResponseCache::new(10);
    cache.put("k", response(200, "v", 1_000), 30_000);
    assert!(cache.get("k", 30_999).is_some());
    assert!(cache.get("k", 31_000).is_none());
    assert!(cache.get("k", 30_999).is_none());
}

#[test]
fn entry_inserted_in_the_future_is_fresh() {
    let mut cache = ResponseCache::new(10);
    cache.put("k", response(200, "v", 5_000), 10);
    assert!(cache.get("k", 0).is_some());
    assert!(cache.get("k", 5_009).is_some());
    assert!(cache.get("k", 5_010).is_none());
}

#[test]
fn ttl_of_zero_is_never_fresh() {
    let mut cache = ResponseCache::new(10);
    cache.put("k", response(200, "v", 7), 0);
    assert_eq!(cache.len(), 1);
    assert!(cache.get("k", 7).is_none());
    assert_eq!(cache.len(), 0);
}

#[test]
fn large_times_do_not_overflow() {
    let mut cache = ResponseCache::new(10);
    cache.put("k", response(200, "v", u64::MAX), u64::MAX);
    assert!(cache.get("k", u64::MAX).is_some());
    cache.put("z", response(200, "v", u64::MAX - 1), 1);
    assert!(cache.get("z", u64::MAX).is_none());
}

#[test]
fn last_write_wins() {
    let mut cache = ResponseCache::new(10);
    cache.put("k", response(200, "one", 0), 100);
    cache.put("k", response(201, "two", 10), 100);
    assert_eq!(cache.len(), 1);
    let hit = cache.get("k", 50).unwrap();
    assert_eq!(hit.status, 201);
    assert_eq!(hit.body, b"two".to_vec());
}

#[test]
fn least_recently_used_entry_is_evicted() {
    let mut cache = ResponseCache::new(2);
    cache.put("a", response(200, "a", 0), 1_000);
    cache.put("b", response(200, "b", 0), 1_000);
    assert!(cache.get("a", 1).is_some());
    cache.put("c", response(200, "c", 0), 1_000);
    assert_eq!(cache.len(), 2);
    assert!(cache.get("b", 2).is_none());
    assert!(cache.get("a", 2).is_some());
    assert!(cache.get("c", 2).is_some());
}

#[test]
fn storing_counts_as_use() {
    let mut cache = ResponseCache::new(2);
    cache.put("a", response(200, "a", 0), 1_000);
    cache.put("b", response(200, "b", 0), 1_000);
    cache.put("a", response(200, "a2", 0), 1_000);
    cache.put("c", response(200, "c", 0), 1_000);
    assert!(cache.get("b", 1).is_none());
    assert_eq!(cache.get("a", 1).unwrap().body, b"a2".to_vec());
}

#[test]
fn cache_never_exceeds_its_capacity() {
    let mut cache = ResponseCache::new(3);
    assert_eq!(cache.max_entries(), 3);
    for i in 0..20u64 {
        cache.put(&format!("k{}", i), response(200, "v", i), 1_000);
        assert!(cache.len() <= 3);
    }
    assert_eq!(cache.len(), 3);
    assert!(cache.get("k16", 20).is_none());
    assert!(cache.get("k17", 20).is_some());
    assert!(cache.get("k18", 20).is_some());
    assert!(cache.get("k19", 20).is_some());
}

#[test]
fn cache_of_capacity_zero_stores_nothing() {
    let mut cache = ResponseCache::new(0);
    cache.put("k", response(200, "v", 0), 1_000);
    assert_eq!(cache.len(), 0);
    assert!(cache.get("k", 1).is_none());
}

#[test]
fn purge_drops_stale_entries_and_keeps_the_order() {
    let mut cache = ResponseCache::new(4);
    cache.put("a", response(200, "a", 0), 10);
    cache.put("b", response(200, "b", 0), 100);
    cache.put("c", response(200, "c", 0), 20);
    cache.put("d", response(200, "d", 0), 200);
    assert_eq!(cache.purge_expired(50), 2);
    assert_eq!(cache.len(), 2);
    assert!(cache.get("a", 50).is_none());
    assert!(cache.get("c", 50).is_none());
    cache.put("e", response(200, "e", 50), 100);
    cache.put("f", response(200, "f", 50), 100);
    cache.put("g", response(200, "g", 50), 100);
    assert!(cache.get("b", 60).is_none());
    assert!(cache.get("d", 60).is_some());
    assert_eq!(cache.purge_expired(60), 0);
    assert_eq!(cache.purge_expired(1_000), 4);
    assert_eq!(cache.len(), 0);
}

#[test]
fn stale_entries_make_room_before_fresh_ones() {
    let mut cache = ResponseCache::new(2);
    cache.put("long", response(200, "l", 0), 1_000);
    cache.put("short", response(200, "s", 0), 10);
    cache.put("new", response(200, "n", 50), 1_000);
    assert_eq!(cache.len(), 2);
    assert!(cache.get("short", 50).is_none());
    assert_eq!(cache.get("long", 50).unwrap().body, b"l".to_vec());
    assert_eq!(cache.get("new", 50).unwrap().body, b"n".to_vec());
}
