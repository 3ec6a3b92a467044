//! Decisions of the two request handlers: minting a short link for a long URL, and
//! resolving a short code to where it redirects.
use vstd::prelude::*;

use crate::code::{generate_short_url_id, short_code};
use crate::record::{
    check_expired, expires_at, new_record, record_of, rfc3339_instant, rfc3339_text,
    Data, StoreError, DEFAULT_TTL,
};
use crate::snowflake::{id_of, successor, SnowflakeGenerator, MAX_SEQUENCE};

verus! {

/// Why a request for a short link was turned down.
#[derive(Debug, Clone)]
pub enum GenerateError {
    /// The API key does not match.
    Unauthorized,
    /// The long URL is empty.
    InvalidUrl,
    /// The generator's sequence stayed used up for the whole wait.
    Busy,
    /// The record could not be built.
    Store(StoreError),
}

/// How a short code resolves.
#[derive(Debug, Clone)]
pub enum RedirectOutcome {
    /// Redirect to this URL.
    Redirect(String),
    /// The record exists but its lifetime has passed.
    Expired,
    /// No record under the code.
    NotFound,
    /// The record's target is not a valid URI.
    InvalidTarget,
    /// The record's creation time cannot be read.
    Unreadable,
}

/// Whether `text` is a URI that `http::Uri` accepts.
pub uninterp spec fn uri_accepted(text: Seq<char>) -> bool;

/// Relies on `FromStr for warp::http::Uri`: whether the text parses as a URI.
#[verifier::external_body]
fn parses_as_uri(text: &str) -> (r: bool)
    ensures
        r == uri_accepted(text@),
{
    text.parse::<warp::http::Uri>().is_ok()
}

fn same_text(a: &str, b: &str) -> (r: bool)
    ensures
        r == (a@ == b@),
{
    String::from_str(a) == String::from_str(b)
}

/// Admits a request carrying `key` for `long_url` when `key` is `api_key` and the
/// URL is not empty; the key is checked first.
pub fn check_request(key: &str, api_key: &str, long_url: &str) -> (r: Result<(), GenerateError>)
    ensures
        key@ != api_key@ ==> r matches Err(GenerateError::Unauthorized),
        key@ == api_key@ && long_url@.len() == 0 ==> r matches Err(GenerateError::InvalidUrl),
        key@ == api_key@ && long_url@.len() > 0 ==> r is Ok,
{
    if !same_text(key, api_key) {
        return Err(GenerateError::Unauthorized);
    }
    if long_url.unicode_len() == 0 {
        return Err(GenerateError::InvalidUrl);
    }
    Ok(())
}

/// For an admitted request, mints a code with `generator` and builds its record,
/// created at `now_ms` and living `DEFAULT_TTL` seconds, returning both; the caller
/// stores the record under the code. A turned-down request leaves the generator alone.
pub fn prepare_short_url(
    generator: &mut SnowflakeGenerator,
    key: &str,
    api_key: &str,
    long_url: &str,
    now_ms: i64,
    max_polls: u64,
) -> (r: Result<(String, Data), GenerateError>)
    requires
        old(generator).wf(),
    ensures
        final(generator).wf(),
        key@ != api_key@ ==> r matches Err(GenerateError::Unauthorized),
        key@ == api_key@ && long_url@.len() == 0 ==> r matches Err(GenerateError::InvalidUrl),
        key@ != api_key@ || long_url@.len() == 0 ==> final(generator)@ == old(generator)@,
        key@ == api_key@ && long_url@.len() > 0 ==> {
            &&& r matches Err(GenerateError::Busy) ==> final(generator)@ == old(generator)@
                && old(generator)@.sequence == MAX_SEQUENCE
            &&& r matches Err(GenerateError::Store(_)) ==> rfc3339_text(now_ms as int) is None
            &&& r matches Ok((code, d)) ==> successor(old(generator)@, final(generator)@)
                && code@ == short_code(id_of(final(generator)@) as nat) && rfc3339_text(
                now_ms as int,
            ) is Some && d@ == record_of(
                code@,
                long_url@,
                DEFAULT_TTL as nat,
                rfc3339_text(now_ms as int)->0,
            )
            &&& r is Err ==> (r matches Err(GenerateError::Busy) || r matches Err(
                GenerateError::Store(_),
            ))
            &&& old(generator)@.sequence < MAX_SEQUENCE && rfc3339_text(now_ms as int) is Some
                ==> r is Ok
        },
{
    match check_request(key, api_key, long_url) {
        Ok(()) => {},
        Err(e) => {
            return Err(e);
        },
    }
    let code = match generate_short_url_id(generator, max_polls) {
        Some(c) => c,
        None => {
            return Err(GenerateError::Busy);
        },
    };
    match new_record(code.as_str(), long_url, DEFAULT_TTL, now_ms) {
        Ok(d) => Ok((code, d)),
        Err(e) => Err(GenerateError::Store(e)),
    }
}

/// How a lookup that found `found` resolves at `now_ms` (Unix milliseconds): not
/// found without a record; else unreadable, expired, an invalid target, or a
/// redirect to its long URL, checked in that order.
pub fn redirect_outcome(found: Option<&Data>, now_ms: i64) -> (r: RedirectOutcome)
    ensures
        match found {
            None => r is NotFound,
            Some(d) => match rfc3339_instant(d.creation_data@) {
                None => r is Unreadable,
                Some(c) => if now_ms > expires_at(c, d.ttl as int) {
                    r is Expired
                } else if !uri_accepted(d.long_url@) {
                    r is InvalidTarget
                } else {
                    r matches RedirectOutcome::Redirect(u) && u@ == d.long_url@
                },
            },
        },
{
    match found {
        None => RedirectOutcome::NotFound,
        Some(d) => match check_expired(d, now_ms) {
            Err(_) => RedirectOutcome::Unreadable,
            Ok(true) => RedirectOutcome::Expired,
            Ok(false) => {
                if parses_as_uri(d.long_url.as_str()) {
                    RedirectOutcome::Redirect(d.long_url.clone())
                } else {
                    RedirectOutcome::InvalidTarget
                }
            },
        },
    }
}

} // verus!
