use vstd::prelude::*;

use crate::web::auth::{SESSION_COOKIE_NAME, SESSION_TTL_DAYS};
use crate::web::error::RequestError;

verus! {

/// The lower-case hex digit of `n` (from 0 to 15).
pub open spec fn hex_char(n: int) -> char {
    if n < 10 {
        (n + 48) as char
    } else {
        (n + 87) as char
    }
}

/// The lowest `n` hex digits of `v`, the most significant first.
pub open spec fn hex_digits(v: nat, n: nat) -> Seq<char>
    decreases n,
{
    if n == 0 {
        Seq::empty()
    } else {
        hex_digits(v / 16, (n - 1) as nat).push(hex_char((v % 16) as int))
    }
}

/// The hyphenated lower-case text of a UUID: its 32 hex digits, the most significant first,
/// in groups of 8, 4, 4, 4 and 12 joined by '-'.
pub open spec fn spec_uuid_text(id: u128) -> Seq<char> {
    let d = hex_digits(id as nat, 32);
    d.subrange(0, 8) + "-"@ + d.subrange(8, 12) + "-"@ + d.subrange(12, 16) + "-"@ + d.subrange(
        16,
        20,
    ) + "-"@ + d.subrange(20, 32)
}

/// The UUID, as a `u128`, that `uuid::Uuid::parse_str` reads from a text, if it reads one
/// (it takes the simple, hyphenated, braced and URN forms, in either case).
pub uninterp spec fn spec_parse_uuid(s: Seq<char>) -> Option<u128>;

/// Calls `uuid::Uuid::from_u128(id).to_string()`. Claims the crate's `Display` form, which is
/// the hyphenated lower-case text, and that `Uuid::parse_str` reads that text back as `id`.
#[verifier::external_body]
pub(crate) fn uuid_text(id: u128) -> (r: String)
    ensures
        r@ == spec_uuid_text(id),
        spec_parse_uuid(r@) == Some(id),
{
    uuid::Uuid::from_u128(id).to_string()
}

/// Calls `uuid::Uuid::parse_str` and takes the parsed UUID as a `u128` (`Uuid::as_u128`).
/// Claims only the named result.
#[verifier::external_body]
fn parse_uuid(s: &str) -> (r: Option<u128>)
    ensures
        r == spec_parse_uuid(s@),
{
    match uuid::Uuid::parse_str(s) {
        Ok(u) => Some(u.as_u128()),
        Err(_) => None,
    }
}

/// The session that a cookie's value names, if it names one: the value read as a UUID.
pub open spec fn spec_session_from_cookie(value: Option<Seq<char>>) -> Option<u128> {
    match value {
        Some(v) => spec_parse_uuid(v),
        None => None,
    }
}

/// The session id carried by a request's session cookie; a missing or unreadable cookie is
/// refused as unauthorized. (Whether the session exists and has not expired is the
/// database's to say.)
pub fn session_id_from_cookie(value: Option<&str>) -> (r: Result<u128, RequestError>)
    ensures
        match spec_session_from_cookie(
            match value {
                Some(v) => Some(v@),
                None => None,
            },
        ) {
            Some(id) => r matches Ok(x) && x == id,
            None => r matches Err(RequestError::Unauthorized),
        },
{
    match value {
        Some(v) => match parse_uuid(v) {
            Some(id) => Ok(id),
            None => Err(RequestError::Unauthorized),
        },
        None => Err(RequestError::Unauthorized),
    }
}

/// Cross-site sending policy of a cookie.
#[derive(Clone, Copy, Debug, PartialEq, Eq, Structural)]
pub enum SameSite {
    Strict,
    Lax,
}

/// A cookie as the service sets it.
pub struct CookieSpec {
    pub name: String,
    pub value: String,
    pub http_only: bool,
    pub secure: bool,
    pub same_site: SameSite,
    pub path: String,
    /// Lifetime in seconds; 0 removes the cookie from the browser.
    pub max_age_seconds: i64,
}

/// Seconds in a day.
pub const SECONDS_PER_DAY: i64 = 86400;

/// Lifetime of the cookies that carry a sign-in through a provider, in seconds (ten minutes).
pub const OAUTH_COOKIE_MAX_AGE_SECONDS: i64 = 600;

/// The cookie that carries a new session: named `SESSION_COOKIE_NAME`, valued with the
/// session's id, sent only over HTTP to the whole site, for `SESSION_TTL_DAYS` days.
pub fn build_session_cookie(session_id: u128, secure: bool) -> (c: CookieSpec)
    ensures
        c.name@ == SESSION_COOKIE_NAME@,
        c.value@ == spec_uuid_text(session_id),
        c.http_only,
        c.secure == secure,
        c.same_site == SameSite::Lax,
        c.path@ == "/"@,
        c.max_age_seconds == SESSION_TTL_DAYS * SECONDS_PER_DAY,
        spec_session_from_cookie(Some(c.value@)) == Some(session_id),
{
    CookieSpec {
        name: String::from_str(SESSION_COOKIE_NAME),
        value: uuid_text(session_id),
        http_only: true,
        secure,
        same_site: SameSite::Lax,
        path: String::from_str("/"),
        max_age_seconds: SESSION_TTL_DAYS * SECONDS_PER_DAY,
    }
}

/// The cookie that ends a session in the browser: it replaces the session cookie (same name
/// and path) with an empty value that expires at once, and names no session.
pub fn build_logout_cookie(secure: bool) -> (c: CookieSpec)
    ensures
        c.name@ == SESSION_COOKIE_NAME@,
        c.value@ == Seq::<char>::empty(),
        c.http_only,
        c.secure == secure,
        c.same_site == SameSite::Lax,
        c.path@ == "/"@,
        c.max_age_seconds == 0,
{
    CookieSpec {
        name: String::from_str(SESSION_COOKIE_NAME),
        value: String::new(),
        http_only: true,
        secure,
        same_site: SameSite::Lax,
        path: String::from_str("/"),
        max_age_seconds: 0,
    }
}

/// A cookie of the sign-in flow through a provider: `name` (`OAUTH_STATE_COOKIE` or
/// `PENDING_OAUTH_COOKIE`), holding `payload`, sent only over HTTP to the auth routes, for ten minutes.
pub fn build_oauth_cookie(name: &str, payload: String, secure: bool) -> (c: CookieSpec)
    ensures
        c.name@ == name@,
        c.value@ == payload@,
        c.http_only,
        c.secure == secure,
        c.same_site == SameSite::Lax,
        c.path@ == "/api/auth"@,
        c.max_age_seconds == OAUTH_COOKIE_MAX_AGE_SECONDS,
{
    CookieSpec {
        name: String::from_str(name),
        value: payload,
        http_only: true,
        secure,
        same_site: SameSite::Lax,
        path: String::from_str("/api/auth"),
        max_age_seconds: OAUTH_COOKIE_MAX_AGE_SECONDS,
    }
}

} // verus!
