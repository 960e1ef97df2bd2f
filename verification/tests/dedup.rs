use wazuh_slack::dedup::DedupCache;

#[test]
fn dedups_within_capacity() {
    let mut cache = DedupCache::new(4);
    assert!(cache.record("a"));
    assert!(cache.record("b"));
    assert!(!cache.record("a"));
    assert!(cache.record("c"));
    assert!(cache.record("d"));
    cache.record("e");
    assert!(!cache.record("e"));
}

#[test]
fn the_oldest_id_makes_room_for_a_new_one() {
    let mut cache = DedupCache::new(2);
    assert!(cache.record("a"));
    assert!(cache.record("b"));
    // Asking again does not make an id younger.
    assert!(!cache.record("a"));
    assert!(cache.record("c"));
    assert!(!cache.knows("a"));
    assert!(cache.knows("b"));
    assert!(cache.knows("c"));
    assert!(cache.record("a"));
    assert!(!cache.knows("b"));
}

#[test]
fn a_redelivery_within_the_window_is_known() {
    let mut cache = DedupCache::new(3);
    assert!(cache.record("x"));
    assert!(cache.record("1"));
    assert!(cache.record("2"));
    assert!(!cache.record("x"));
    assert!(cache.record("3"));
    assert!(cache.record("x"));
}

#[test]
fn a_cache_for_nothing_holds_one() {
    let mut cache = DedupCache::new(0);
    assert!(cache.record("a"));
    assert!(!cache.record("a"));
    assert!(cache.record("b"));
    assert!(cache.record("a"));
}

#[test]
fn within_capacity_an_id_is_new_where_it_was_not_recorded() {
    let mut cache = DedupCache::new(3);
    let mut recorded: Vec<&str> = Vec::new();
    for id in ["a", "b", "a", "c", "b", "c", "a"] {
        assert_eq!(cache.record(id), !recorded.contains(&id));
        recorded.push(id);
    }
    assert!(!cache.knows("d"));
}

#[test]
fn an_id_is_forgotten_after_as_many_new_ones_as_fit() {
    let mut cache = DedupCache::new(3);
    assert!(cache.record("x"));
    assert!(cache.record("1"));
    assert!(!cache.record("1"));
    assert!(cache.record("2"));
    assert!(cache.knows("x"));
    assert!(cache.record("3"));
    assert!(!cache.knows("x"));
    assert!(cache.record("x"));
}
