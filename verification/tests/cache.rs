use advanced_dtn_node::cache::{Cache, CachedMsg};

#[test]
fn test_cache_put_and_take() {
    let mut cache = Cache::new();
    let msg = CachedMsg {
        dest: "peer1".to_string(),
        data: vec![1, 2, 3],
    };
    cache.put(msg);

    let entries = cache.take_all();
    assert_eq!(entries.len(), 1);
    assert_eq!(entries[0].dest, "peer1");
    assert_eq!(entries[0].data, vec![1, 2, 3]);
}

#[test]
fn test_cache_empty_after_take_all() {
    let mut cache = Cache::new();
    cache.put(CachedMsg {
        dest: "d".to_string(),
        data: vec![9],
    });
    let _ = cache.take_all();
    assert_eq!(cache.len(), 0);
    assert_eq!(cache.take_all().len(), 0);
}

#[test]
fn test_cache_keeps_duplicate_destinations() {
    let mut cache = Cache::new();
    cache.put(CachedMsg {
        dest: "same".to_string(),
        data: vec![1],
    });
    cache.put(CachedMsg {
        dest: "same".to_string(),
        data: vec![2],
    });
    assert_eq!(cache.len(), 2);
    let entries = cache.take_all();
    assert_eq!(entries.len(), 2);
    assert_eq!(entries[0].dest, "same");
    assert_eq!(entries[0].data, vec![1]);
    assert_eq!(entries[1].dest, "same");
    assert_eq!(entries[1].data, vec![2]);
}

#[test]
fn test_cache_preserves_order_across_destinations() {
    let mut cache = Cache::new();
    cache.put(CachedMsg {
        dest: "a".to_string(),
        data: vec![1],
    });
    cache.put(CachedMsg {
        dest: "b".to_string(),
        data: vec![2],
    });
    cache.put(CachedMsg {
        dest: "a".to_string(),
        data: vec![3],
    });
    let entries = cache.take_all();
    let pairs: Vec<(String, Vec<u8>)> = entries.into_iter().map(|m| (m.dest, m.data)).collect();
    assert_eq!(
        pairs,
        vec![
            ("a".to_string(), vec![1]),
            ("b".to_string(), vec![2]),
            ("a".to_string(), vec![3]),
        ]
    );
}
