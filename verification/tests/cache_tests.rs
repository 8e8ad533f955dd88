use rust_expect::expect::cache::RegexCache;

#[test]
fn cache_basic() {
    let mut cache = RegexCache::new(10);

    let r1 = cache.get_or_compile(r"\d+").unwrap();
    let r2 = cache.get_or_compile(r"\d+").unwrap();

    assert_eq!(r1.pattern(), r2.pattern());
    assert_eq!(cache.len(), 1);
    assert_eq!(cache.total_hits(), 1);
}

#[test]
fn cache_eviction() {
    let mut cache = RegexCache::new(2);

    cache.get_or_compile(r"a+").unwrap();
    cache.get_or_compile(r"b+").unwrap();
    assert_eq!(cache.len(), 2);

    cache.get_or_compile(r"c+").unwrap();
    assert_eq!(cache.len(), 2);
    assert!(!cache.contains(r"a+"));
    assert!(cache.contains(r"b+"));
    assert!(cache.contains(r"c+"));
}

#[test]
fn cache_invalid_pattern() {
    let mut cache = RegexCache::new(10);
    let result = cache.get_or_compile(r"[invalid");
    assert!(result.is_err());
    assert_eq!(cache.total_misses(), 1);
    assert!(cache.is_empty());
}

#[test]
fn cache_stats_tracking() {
    let mut cache = RegexCache::new(10);

    let stats = cache.stats();
    assert_eq!(stats.size, 0);
    assert_eq!(stats.total_hits, 0);
    assert_eq!(stats.total_misses, 0);

    cache.get_or_compile(r"\d+").unwrap();
    assert_eq!(cache.total_misses(), 1);
    assert_eq!(cache.total_hits(), 0);

    cache.get_or_compile(r"\d+").unwrap();
    assert_eq!(cache.total_misses(), 1);
    assert_eq!(cache.total_hits(), 1);

    cache.get_or_compile(r"\d+").unwrap();
    assert_eq!(cache.total_hits(), 2);

    cache.get_or_compile(r"\w+").unwrap();
    assert_eq!(cache.total_misses(), 2);
    let stats = cache.stats();
    assert_eq!(stats.size, 2);
    assert_eq!(stats.max_size, 10);
}
