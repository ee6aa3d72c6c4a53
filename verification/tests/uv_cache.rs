use vauth::uv_cache::UvCache;

const SEC: u64 = 1_000_000_000;

#[test]
fn stored_proof_is_consumed_once() {
    let mut c = UvCache::new(10);
    c.store_at(7, "example.com", 0);
    assert!(c.consume_at(7, "example.com", 3 * SEC));
    assert!(!c.consume_at(7, "example.com", 3 * SEC));
}

#[test]
fn proof_expires_after_ttl() {
    let mut c = UvCache::new(10);
    c.store_at(7, "example.com", 0);
    assert!(!c.consume_at(7, "example.com", 10 * SEC));
    let mut c = UvCache::new(10);
    c.store_at(7, "example.com", 0);
    assert!(c.consume_at(7, "example.com", 10 * SEC - 1));
}

#[test]
fn proof_is_bound_to_channel_and_relying_party() {
    let mut c = UvCache::new(10);
    c.store_at(7, "example.com", 0);
    assert!(!c.consume_at(8, "example.com", 1));
    assert!(!c.consume_at(7, "evil.com", 1));
    assert!(c.consume_at(7, "example.com", 1));
}

#[test]
fn store_replaces_and_refreshes() {
    let mut c = UvCache::new(10);
    c.store_at(1, "a", 0);
    c.store_at(1, "a", 8 * SEC);
    assert!(c.consume_at(1, "a", 15 * SEC));
}

#[test]
fn failed_consumption_still_removes_expired_proof() {
    let mut c = UvCache::new(1);
    c.store_at(1, "a", 0);
    assert!(!c.consume_at(1, "a", 5 * SEC));
    c.store_at(2, "b", 5 * SEC);
    assert!(!c.consume_at(1, "a", 5 * SEC));
}

#[test]
fn several_keys_coexist() {
    let mut c = UvCache::new(10);
    c.store_at(1, "a", 0);
    c.store_at(2, "a", 1);
    c.store_at(1, "b", 2);
    assert!(c.consume_at(2, "a", 3));
    assert!(c.consume_at(1, "b", 3));
    assert!(c.consume_at(1, "a", 3));
}

#[test]
fn clock_based_methods_work() {
    let mut c = UvCache::new(10);
    c.store(5, "rp");
    assert!(c.consume(5, "rp"));
    assert!(!c.consume(5, "rp"));
}

#[test]
fn huge_ttl_is_exact() {
    let mut c = UvCache::new(u64::MAX);
    c.store_at(1, "rp", 0);
    assert!(c.consume_at(1, "rp", u64::MAX));
}

#[test]
fn proof_survives_other_keys() {
    let mut c = UvCache::new(10);
    c.store_at(1, "a", 0);
    c.store_at(2, "b", 5 * SEC);
    assert!(c.consume_at(2, "b", 6 * SEC));
    c.store_at(3, "c", 9 * SEC);
    assert!(c.consume_at(1, "a", 9 * SEC));
}

#[test]
fn clock_store_then_consume() {
    let mut c = UvCache::new(10);
    c.store(5, "rp");
    assert!(!c.consume(5, "other"));
    assert!(c.consume(5, "rp"));
    assert!(!c.consume(5, "rp"));
}
