use url_shortener::handlers::{check_request, prepare_short_url, redirect_outcome, GenerateError, RedirectOutcome};
use url_shortener::record::{new_record, Data};
use url_shortener::snowflake::SnowflakeGenerator;
use url_shortener::store::RedirectStore;

const T0: i64 = 1_700_000_000_000;

#[test]
fn test_handle_generate_url() {
    let mut g = SnowflakeGenerator::new(1).unwrap();
    let (code, data) = prepare_short_url(
        &mut g,
        "test_api_key",
        "test_api_key",
        "http://example.com/some/long/url",
        T0,
        1000,
    )
    .unwrap();
    assert_eq!(code.len(), 7);
    assert_eq!(data.shortened_url, format!("http://rustyshortener/dns_resolver/{}", code));
    assert_eq!(data.long_url, "http://example.com/some/long/url");
    assert_eq!(data.ttl, 30);
}

#[test]
fn test_handle_redirect_url() {
    let mut db = RedirectStore::new();
    db.put_at("test_redirect_key", "http://example.com/some/long/url", 30, T0)
        .unwrap();
    let found = db.get_at("test_redirect_key", T0 + 1).unwrap();
    match redirect_outcome(found.as_ref(), T0 + 1) {
        RedirectOutcome::Redirect(u) => assert_eq!(u, "http://example.com/some/long/url"),
        other => panic!("unexpected outcome {:?}", other),
    }
}

#[test]
fn check_request_turns_down_a_wrong_key_first() {
    assert!(matches!(check_request("bad", "good", ""), Err(GenerateError::Unauthorized)));
    assert!(matches!(check_request("good", "good", ""), Err(GenerateError::InvalidUrl)));
    assert!(check_request("good", "good", "http://example.com").is_ok());
}

#[test]
fn prepare_short_url_leaves_the_generator_alone_when_refused() {
    let mut g = SnowflakeGenerator::new(1).unwrap();
    assert!(matches!(
        prepare_short_url(&mut g, "k", "other", "http://example.com", T0, 10),
        Err(GenerateError::Unauthorized)
    ));
    assert_eq!(g.next_id(3), Some((3 << 22) | (1 << 12)));
}

#[test]
fn prepare_short_url_reports_an_unrepresentable_time() {
    let mut g = SnowflakeGenerator::new(1).unwrap();
    assert!(matches!(
        prepare_short_url(&mut g, "k", "k", "http://example.com", i64::MAX, 10),
        Err(GenerateError::Store(_))
    ));
}

fn record(created: &str, long_url: &str, ttl: u32) -> Data {
    Data {
        creation_data: created.to_string(),
        shortened_url: "http://rustyshortener/dns_resolver/abc".to_string(),
        long_url: long_url.to_string(),
        ttl,
    }
}

#[test]
fn redirect_outcome_covers_each_case() {
    let created = 1609459200000;
    assert!(matches!(redirect_outcome(None, created), RedirectOutcome::NotFound));
    let bad_time = record("yesterday", "http://example.com", 30);
    assert!(matches!(
        redirect_outcome(Some(&bad_time), created),
        RedirectOutcome::Unreadable
    ));
    let live = new_record("abc", "http://example.com/x", 30, created).unwrap();
    assert!(matches!(
        redirect_outcome(Some(&live), created + 31000),
        RedirectOutcome::Expired
    ));
    match redirect_outcome(Some(&live), created + 30000) {
        RedirectOutcome::Redirect(u) => assert_eq!(u, "http://example.com/x"),
        other => panic!("unexpected outcome {:?}", other),
    }
    let bad_target = record("2021-01-01T00:00:00+00:00", "not a uri", 30);
    assert!(matches!(
        redirect_outcome(Some(&bad_target), created),
        RedirectOutcome::InvalidTarget
    ));
}
