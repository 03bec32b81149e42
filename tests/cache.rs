use anchor_metrics::cache::{get_or_fetch, CacheConfig, MemoryCache};
use anchor_metrics::error::ApiError;

#[test]
fn repeated_request_is_served_from_cache() {
    let mut cache = MemoryCache::new();
    let key = "anchor:list:50:0".to_string();
    let mut calls = 0;
    let (first, computed) = get_or_fetch(&mut cache, &key, 60, || {
        calls += 1;
        Ok(vec![1, 2, 3])
    });
    assert!(computed);
    assert_eq!(first.ok(), Some(vec![1, 2, 3]));
    let (second, computed_again) = get_or_fetch(&mut cache, &key, 60, || {
        calls += 1;
        Ok(vec![9])
    });
    assert!(!computed_again);
    assert_eq!(second.ok(), Some(vec![1, 2, 3]));
    assert_eq!(calls, 1);
}

#[test]
fn failed_computation_is_not_cached() {
    let mut cache = MemoryCache::new();
    let key = "corridor:list:50:0:x".to_string();
    let (r, computed) = get_or_fetch(&mut cache, &key, 30, || Err(ApiError::internal("store down".to_string())));
    assert!(computed);
    match r {
        Err(e) => {
            assert_eq!(e.status_code(), 500);
            assert_eq!(e.message(), "store down");
        }
        Ok(_) => panic!("failure expected"),
    }
    assert_eq!(cache.get(&key), None);
    let (r2, computed2) = get_or_fetch(&mut cache, &key, 30, || Ok(vec![7]));
    assert!(computed2);
    assert_eq!(r2.ok(), Some(vec![7]));
    assert_eq!(cache.get(&key), Some(vec![7]));
}

#[test]
fn set_overwrites_one_key_only() {
    let mut cache = MemoryCache::new();
    cache.set("a".to_string(), vec![1], 5);
    cache.set("b".to_string(), vec![2], 5);
    cache.set("a".to_string(), vec![3], 5);
    assert_eq!(cache.get(&"a".to_string()), Some(vec![3]));
    assert_eq!(cache.get(&"b".to_string()), Some(vec![2]));
    assert_eq!(cache.get(&"c".to_string()), None);
}

#[test]
fn ttl_by_resource_tag() {
    let config = CacheConfig { anchor_ttl_secs: 60, corridor_ttl_secs: 30, default_ttl_secs: 300 };
    assert_eq!(config.get_ttl("anchor"), 60);
    assert_eq!(config.get_ttl("corridor"), 30);
    assert_eq!(config.get_ttl("metrics"), 300);
}

#[test]
fn error_status_codes() {
    assert_eq!(ApiError::NotFound("x".to_string()).status_code(), 404);
    assert_eq!(ApiError::BadRequest("x".to_string()).status_code(), 400);
    assert_eq!(ApiError::InternalError("x".to_string()).status_code(), 500);
}
