use lanjing::plan_cache::PlanCache;

#[test]
fn lookups_find_what_was_stored() {
    let mut cache: PlanCache<u32> = PlanCache::new(2);
    assert_eq!(cache.get("a"), None);
    cache.insert("a".to_string(), 1);
    assert_eq!(cache.get("a"), Some(&1));
    cache.insert("a".to_string(), 5);
    assert_eq!(cache.get("a"), Some(&5));
}

#[test]
fn least_recently_used_entry_is_dropped() {
    let mut cache: PlanCache<u32> = PlanCache::new(2);
    cache.insert("a".to_string(), 1);
    cache.insert("b".to_string(), 2);
    assert_eq!(cache.get("a"), Some(&1));
    cache.insert("c".to_string(), 3);
    assert_eq!(cache.get("b"), None);
    assert_eq!(cache.get("a"), Some(&1));
    assert_eq!(cache.get("c"), Some(&3));
}

#[test]
fn zero_capacity_keeps_nothing() {
    let mut cache: PlanCache<u32> = PlanCache::new(0);
    cache.insert("a".to_string(), 1);
    assert_eq!(cache.get("a"), None);
}
