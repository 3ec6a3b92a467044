use url_shortener::record::{
    check_expired, creation_millis, is_expired, new_record, short_link_of, Data, DEFAULT_TTL,
};
use url_shortener::store::RedirectStore;

const T0: i64 = 1_700_000_000_000;

#[test]
fn test_ttl() {
    let mut db = RedirectStore::new();
    let short_url_id = "test_key";
    assert!(db
        .put_at(short_url_id, "http://example.com/some/long/url", 2, T0)
        .is_ok());
    assert!(db.get_at(short_url_id, T0).unwrap().is_some());
    assert!(db.get_at(short_url_id, T0 + 5000).unwrap().is_none());
    match db.delete(short_url_id) {
        Ok(_) => (),
        Err(e) => panic!("Error deleting data: {:?}", e),
    }
}

#[test]
fn test_retrieve_nonexistent_data() {
    let db = RedirectStore::new();
    assert!(db.get_at("nonexistent_key", T0).unwrap().is_none());
}

#[test]
fn test_delete_data() {
    let mut db = RedirectStore::new();
    db.put_at("delete_key", "http://example.com/some/long/url", 30, T0)
        .unwrap();
    assert!(db.delete("delete_key").is_ok());
    assert!(db.get_at("delete_key", T0).unwrap().is_none());
}

#[test]
fn test_concurrent_store_and_retrieve() {
    let mut db = RedirectStore::new();
    let ids = ["test_key1", "test_key2", "test_key3"];
    let urls = [
        "http://example.com/url1",
        "http://example.com/url2",
        "http://example.com/url3",
    ];
    for i in 0..3 {
        assert!(db.put_at(ids[i], urls[i], 30, T0).is_ok());
    }
    for i in 0..3 {
        let got = db.get_at(ids[i], T0 + 10).unwrap().unwrap();
        assert_eq!(got.long_url, urls[i]);
        assert_eq!(got.ttl, 30);
        assert_eq!(got.shortened_url, format!("http://rustyshortener/dns_resolver/{}", ids[i]));
    }
}

#[test]
fn test_concurrent_ttl() {
    let mut db = RedirectStore::new();
    let ids = ["ttl_key1", "ttl_key2", "ttl_key3"];
    for id in ids {
        assert!(db.put_at(id, "http://example.com/some/long/url", 2, T0).is_ok());
    }
    for id in ids {
        assert!(db.get_at(id, T0 + 5000).unwrap().is_none());
    }
}

#[test]
fn test_concurrent_delete() {
    let mut db = RedirectStore::new();
    let ids = ["delete_key1", "delete_key2", "delete_key3"];
    for id in ids {
        db.put_at(id, "http://example.com/some/long/url", 30, T0).unwrap();
    }
    for id in ids {
        assert!(db.delete(id).is_ok());
    }
    for id in ids {
        assert!(db.get_at(id, T0).unwrap().is_none());
    }
}

#[test]
fn put_then_get_returns_the_long_url() {
    let mut db = RedirectStore::new();
    db.put("abc1234", "http://example.com/x", 30).unwrap();
    let got = db.get("abc1234").unwrap().unwrap();
    assert_eq!(got.long_url, "http://example.com/x");
}

#[test]
fn record_expires_after_its_lifetime() {
    let mut db = RedirectStore::new();
    db.put_at("k", "http://example.com/y", 1, T0).unwrap();
    assert!(db.get_at("k", T0 + 1000).unwrap().is_some());
    assert!(db.get_at("k", T0 + 2000).unwrap().is_none());
}

#[test]
fn delete_twice_succeeds() {
    let mut db = RedirectStore::new();
    db.put_at("k2", "http://example.com/z", 30, T0).unwrap();
    assert!(db.delete("k2").is_ok());
    assert!(db.get_at("k2", T0).unwrap().is_none());
    assert!(db.delete("k2").is_ok());
}

#[test]
fn absent_code_is_none_not_an_error() {
    let db = RedirectStore::new();
    assert!(matches!(db.get("never-existed"), Ok(None)));
}

#[test]
fn put_overwrites_an_existing_code() {
    let mut db = RedirectStore::new();
    db.put_at("dup", "http://example.com/a", 30, T0).unwrap();
    db.put_at("dup", "http://example.com/b", 30, T0).unwrap();
    assert_eq!(db.get_at("dup", T0).unwrap().unwrap().long_url, "http://example.com/b");
}

#[test]
fn put_rejects_a_zero_lifetime() {
    let mut db = RedirectStore::new();
    assert!(db.put_at("zero", "http://example.com/a", 0, T0).is_err());
    assert!(db.get_at("zero", T0).unwrap().is_none());
}

#[test]
fn is_expired_is_strictly_after_the_lifetime() {
    assert!(!is_expired(1000, 30, 31000));
    assert!(is_expired(1000, 30, 31001));
    assert!(!is_expired(i64::MAX, u32::MAX, i64::MAX));
}

#[test]
fn new_record_writes_rfc3339_creation_time() {
    let d = new_record("abc", "http://example.com/x", DEFAULT_TTL, 1609459200000).unwrap();
    assert_eq!(d.creation_data, "2021-01-01T00:00:00+00:00");
    assert_eq!(d.shortened_url, "http://rustyshortener/dns_resolver/abc");
    assert_eq!(d.long_url, "http://example.com/x");
    assert_eq!(d.ttl, 30);
    assert!(new_record("abc", "http://example.com/x", 30, i64::MAX).is_err());
}

#[test]
fn creation_millis_reads_rfc3339() {
    let mut d = Data {
        creation_data: "2021-01-01T01:00:00+01:00".to_string(),
        shortened_url: short_link_of("q"),
        long_url: "http://example.com".to_string(),
        ttl: 30,
    };
    assert_eq!(creation_millis(&d), Some(1609459200000));
    assert_eq!(check_expired(&d, 1609459230000).unwrap(), false);
    assert_eq!(check_expired(&d, 1609459230001).unwrap(), true);
    d.creation_data = "dummy time".to_string();
    assert_eq!(creation_millis(&d), None);
    assert!(check_expired(&d, 0).is_err());
}
