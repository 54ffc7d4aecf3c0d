use swiss_transport_mcp::cache::TtlCache;

const SECOND: u128 = 1_000_000_000;

#[test]
fn entry_lives_its_time_and_no_longer() {
    let mut cache: TtlCache<String, String> = TtlCache::new(10);
    let key = "a".to_string();
    cache.insert_at(5 * SECOND, "a".to_string(), "one".to_string());
    assert_eq!(cache.get_at(15 * SECOND - 1, &key), Some("one".to_string()));
    assert_eq!(cache.get_at(15 * SECOND, &key), None);
    assert_eq!(cache.get_stale(&key), None);
}

#[test]
fn stale_entry_can_be_had_until_the_cache_is_pruned() {
    let mut cache: TtlCache<String, String> = TtlCache::with_ttl(1);
    let key = "a".to_string();
    cache.insert_at(0, "a".to_string(), "one".to_string());
    assert_eq!(cache.get_stale(&key), Some("one".to_string()));
    cache.prune_at(SECOND);
    assert_eq!(cache.get_stale(&key), None);
}

#[test]
fn later_value_replaces_the_earlier_one_only_under_its_key() {
    let mut cache: TtlCache<String, String> = TtlCache::new(10);
    cache.insert_at(0, "a".to_string(), "one".to_string());
    cache.insert_at(0, "b".to_string(), "two".to_string());
    cache.insert_at(5 * SECOND, "a".to_string(), "three".to_string());
    assert_eq!(cache.get_stale(&"a".to_string()), Some("three".to_string()));
    assert_eq!(cache.get_stale(&"b".to_string()), Some("two".to_string()));
    cache.prune_at(12 * SECOND);
    assert_eq!(cache.get_stale(&"a".to_string()), Some("three".to_string()));
    assert_eq!(cache.get_stale(&"b".to_string()), None);
}

#[test]
fn clock_of_the_cache_is_read() {
    let mut cache: TtlCache<String, String> = TtlCache::new(3600);
    let key = "a".to_string();
    let before = cache.now();
    cache.insert("a".to_string(), "one".to_string());
    assert_eq!(cache.get(&key), Some("one".to_string()));
    cache.prune_expired();
    assert_eq!(cache.get_stale(&key), Some("one".to_string()));
    assert!(cache.now() >= before);
    let mut gone: TtlCache<String, String> = TtlCache::new(0);
    gone.insert("a".to_string(), "one".to_string());
    assert_eq!(gone.get(&key), None);
}
