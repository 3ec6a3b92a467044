//! Redirect records and the read-time expiry check.
use vstd::prelude::*;

verus! {

/// Lifetime of a record created by the generation handler, in seconds.
pub const DEFAULT_TTL: u32 = 30;

/// One redirect: when it was created (RFC 3339 text), its short link, its target and
/// its lifetime in seconds.
#[derive(Debug, Clone)]
pub struct Data {
    pub creation_data: String,
    pub shortened_url: String,
    pub long_url: String,
    pub ttl: u32,
}

pub struct RecordView {
    pub creation_data: Seq<char>,
    pub shortened_url: Seq<char>,
    pub long_url: Seq<char>,
    pub ttl: nat,
}

impl View for Data {
    type V = RecordView;

    open spec fn view(&self) -> RecordView {
        RecordView {
            creation_data: self.creation_data@,
            shortened_url: self.shortened_url@,
            long_url: self.long_url@,
            ttl: self.ttl as nat,
        }
    }
}

/// A store or record operation could not be completed.
#[derive(Debug, Clone)]
pub enum StoreError {
    Backend(String),
}

/// RFC 3339 text of the Unix-millisecond instant `unix_millis` in UTC, where chrono
/// can represent it.
pub uninterp spec fn rfc3339_text(unix_millis: int) -> Option<Seq<char>>;

/// Unix-millisecond instant named by an RFC 3339 text, where it is one.
pub uninterp spec fn rfc3339_instant(text: Seq<char>) -> Option<int>;

/// Relies on chrono::DateTime::<Utc>::from_timestamp_millis and DateTime::to_rfc3339:
/// the instant as RFC 3339 text, or `None` outside chrono's range of dates.
#[verifier::external_body]
fn format_rfc3339(unix_millis: i64) -> (r: Option<String>)
    ensures
        match r {
            Some(s) => rfc3339_text(unix_millis as int) == Some(s@),
            None => rfc3339_text(unix_millis as int) is None,
        },
{
    match chrono::DateTime::<chrono::Utc>::from_timestamp_millis(unix_millis) {
        Some(t) => Some(t.to_rfc3339()),
        None => None,
    }
}

/// Relies on chrono::DateTime::parse_from_rfc3339 and DateTime::timestamp_millis: the
/// instant that an RFC 3339 text names, or `None` when the text is not RFC 3339.
#[verifier::external_body]
fn parse_rfc3339(text: &str) -> (r: Option<i64>)
    ensures
        match r {
            Some(ms) => rfc3339_instant(text@) == Some(ms as int),
            None => rfc3339_instant(text@) is None,
        },
{
    match chrono::DateTime::parse_from_rfc3339(text) {
        Ok(t) => Some(t.timestamp_millis()),
        Err(_) => None,
    }
}

/// Prefix of every short link; the code follows it.
pub open spec fn link_prefix() -> Seq<char> {
    "http://rustyshortener/dns_resolver/"@
}

pub open spec fn short_link(code: Seq<char>) -> Seq<char> {
    link_prefix() + code
}

/// Instant, in Unix milliseconds, after which a record created at `created` with a
/// lifetime of `ttl` seconds has expired.
pub open spec fn expires_at(created: int, ttl: int) -> int {
    created + ttl * 1000
}

/// The record that `new_record` builds from these values and creation text.
pub open spec fn record_of(
    code: Seq<char>,
    long_url: Seq<char>,
    ttl: nat,
    creation: Seq<char>,
) -> RecordView {
    RecordView { creation_data: creation, shortened_url: short_link(code), long_url, ttl }
}

/// The short link of `code`.
pub fn short_link_of(code: &str) -> (r: String)
    ensures
        r@ == short_link(code@),
{
    let mut link = String::from_str("http://rustyshortener/dns_resolver/");
    link.append(code);
    link
}

/// Whether a record created at `created_ms` with a lifetime of `ttl` seconds has
/// expired at `now_ms` (all instants in Unix milliseconds).
pub fn is_expired(created_ms: i64, ttl: u32, now_ms: i64) -> (r: bool)
    ensures
        r == (now_ms > expires_at(created_ms as int, ttl as int)),
{
    (now_ms as i128) > (created_ms as i128) + (ttl as i128) * 1000
}

/// The creation instant of a record in Unix milliseconds, `None` when its creation
/// text is not RFC 3339.
pub fn creation_millis(data: &Data) -> (r: Option<i64>)
    ensures
        match r {
            Some(ms) => rfc3339_instant(data.creation_data@) == Some(ms as int),
            None => rfc3339_instant(data.creation_data@) is None,
        },
{
    parse_rfc3339(data.creation_data.as_str())
}

/// Whether `data` has expired at `now_ms` by its own creation time and lifetime; an
/// error when its creation time cannot be read.
pub fn check_expired(data: &Data, now_ms: i64) -> (r: Result<bool, StoreError>)
    ensures
        match rfc3339_instant(data.creation_data@) {
            Some(c) => r matches Ok(b) && b == (now_ms > expires_at(c, data.ttl as int)),
            None => r is Err,
        },
{
    match creation_millis(data) {
        Some(created) => Ok(is_expired(created, data.ttl, now_ms)),
        None => Err(StoreError::Backend(String::from_str("unreadable creation time"))),
    }
}

/// A record for `code` pointing at `long_url`, created at `now_ms` and living `ttl`
/// seconds; an error when the instant has no RFC 3339 text.
pub fn new_record(code: &str, long_url: &str, ttl: u32, now_ms: i64) -> (r: Result<
    Data,
    StoreError,
>)
    ensures
        match rfc3339_text(now_ms as int) {
            Some(text) => r matches Ok(d) && d@ == record_of(code@, long_url@, ttl as nat, text),
            None => r is Err,
        },
{
    match format_rfc3339(now_ms) {
        Some(creation_data) => Ok(
            Data {
                creation_data,
                shortened_url: short_link_of(code),
                long_url: String::from_str(long_url),
                ttl,
            },
        ),
        None => Err(StoreError::Backend(String::from_str("creation time out of range"))),
    }
}

/// A copy of `data` with every field equal.
pub fn copy_record(data: &Data) -> (r: Data)
    ensures
        r@ == data@,
{
    Data {
        creation_data: data.creation_data.clone(),
        shortened_url: data.shortened_url.clone(),
        long_url: data.long_url.clone(),
        ttl: data.ttl,
    }
}

} // verus!
