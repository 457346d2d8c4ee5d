//! Validity of cached SSO tokens.

use vstd::prelude::*;

use crate::aws::profiles::AwsConfig;
use crate::config;
use crate::json;
use crate::json::Json;
use crate::text;

verus! {

/// Below this many seconds a token counts as expiring.
pub const EXPIRING_THRESHOLD_SECS: i64 = 900;

/// Validity of an SSO session's cached token.
#[derive(Debug, Clone, Copy, PartialEq, Eq, Structural)]
pub enum TokenStatus {
    /// Valid with this many seconds remaining.
    Valid(i64),
    /// Valid but expiring soon (< 15 min), with seconds remaining.
    Expiring(i64),
    /// Token present but past its expiry.
    Expired,
    /// No cached token for this session: never logged in (or logged out).
    NoToken,
}

/// A point in time: seconds since the Unix epoch and nanoseconds into that
/// second. A leap second has a billion nanoseconds or more.
#[derive(Debug, Clone, Copy, PartialEq, Eq, Structural)]
pub struct UnixTime {
    pub secs: i64,
    pub nanos: u32,
}

impl UnixTime {
    /// Within the range of the calendar; a leap second only at the end of a minute.
    pub open spec fn valid(self) -> bool {
        &&& -8_000_000_000_000 <= self.secs <= 8_000_000_000_000
        &&& self.nanos < 2_000_000_000
        &&& self.nanos >= 1_000_000_000 ==> self.secs % 60 == 59
    }
}

/// The time from `start` to `end` in nanoseconds. A leap second at one end is
/// counted when the other end lies at a later (earlier) time of day.
pub open spec fn nanos_between(end: UnixTime, start: UnixTime) -> int {
    let leap: int = if end.secs % 86_400 > start.secs % 86_400 && start.nanos >= 1_000_000_000 {
        1_000_000_000
    } else if end.secs % 86_400 < start.secs % 86_400 && end.nanos >= 1_000_000_000 {
        -1_000_000_000
    } else {
        0
    };
    (end.secs - start.secs) * 1_000_000_000 + (end.nanos - start.nanos) + leap
}

/// Whole seconds in a number of nanoseconds, rounded towards zero.
pub open spec fn whole_seconds(nanos: int) -> int {
    if nanos >= 0 {
        nanos / 1_000_000_000
    } else {
        -((-nanos) / 1_000_000_000)
    }
}

/// The difference of two `chrono::DateTime<Utc>` and its `num_seconds`: the
/// whole seconds from `start` to `end`, rounded towards zero.
#[verifier::external_body]
fn seconds_between(end: UnixTime, start: UnixTime) -> (r: i64)
    requires
        end.valid(),
        start.valid(),
    ensures
        r == whole_seconds(nanos_between(end, start)),
{
    let end = chrono::DateTime::from_timestamp(end.secs, end.nanos).unwrap();
    let start = chrono::DateTime::from_timestamp(start.secs, start.nanos).unwrap();
    (end - start).num_seconds()
}

/// The point in time that `chrono::DateTime::parse_from_rfc3339` reads out of a
/// text; `None` where it reports an error.
pub uninterp spec fn rfc3339_instant(s: Seq<char>) -> Option<UnixTime>;

/// `chrono::DateTime::parse_from_rfc3339`, a function of the text alone, with
/// the result as `timestamp` and `timestamp_subsec_nanos` give it. Years have
/// four digits and offsets whole minutes, so the result is a valid point in time.
#[verifier::external_body]
fn parse_rfc3339(s: &str) -> (r: Option<UnixTime>)
    ensures
        r == rfc3339_instant(s@),
        r matches Some(t) ==> t.valid(),
{
    match chrono::DateTime::parse_from_rfc3339(s) {
        Ok(t) => Some(UnixTime { secs: t.timestamp(), nanos: t.timestamp_subsec_nanos() }),
        Err(_) => None,
    }
}

/// The SHA-1 digest of a message.
pub uninterp spec fn sha1_digest(message: Seq<u8>) -> Seq<u8>;

/// `sha1::Sha1::digest`, a function of the message alone; twenty bytes.
#[verifier::external_body]
fn sha1(message: &[u8]) -> (r: Vec<u8>)
    ensures
        r@ == sha1_digest(message@),
        r@.len() == 20,
{
    <sha1::Sha1 as sha1::Digest>::digest(message).to_vec()
}

/// The name of the file for a digest: the digest in hexadecimal, then `.json`.
pub fn cache_file_name(digest: &Vec<u8>) -> (r: String)
    ensures
        r@ == text::hex_digits(digest@) + ".json"@,
{
    let mut r = text::hex(digest);
    r.append(".json");
    r
}

/// The name of a session's file in the token cache. The AWS CLI v2 keys the
/// file by `sha1(session_name)`.
pub open spec fn token_file(session_name: Seq<char>) -> Seq<char> {
    text::hex_digits(sha1_digest(vstd::utf8::encode_utf8(session_name))) + ".json"@
}

/// The name of a session's file in the token cache: forty digits and `.json`.
pub fn token_file_name(session_name: &str) -> (r: String)
    ensures
        r@ == token_file(session_name@),
        r@.len() == 45,
{
    let digest = sha1(session_name.as_bytes());
    proof {
        text::lemma_hex_length(digest@);
        reveal_strlit(".json");
    }
    cache_file_name(&digest)
}

/// Where the token of a session is cached.
pub open spec fn token_path(session_name: Seq<char>, home: Seq<char>) -> Seq<char> {
    config::below(config::token_cache(home), token_file(session_name))
}

/// Where the tokens of the sessions are cached, in the order of the sessions.
pub fn token_paths(aws: &AwsConfig, home: &str) -> (r: Vec<String>)
    ensures
        text::views(r@) == aws.sessions.key_seq().map_values(
            |session: Seq<char>| token_path(session, home@),
        ),
{
    let dir = config::sso_cache_dir(home);
    let names = aws.sessions.keys();
    let ghost wanted = aws.sessions.key_seq().map_values(
        |session: Seq<char>| token_path(session, home@),
    );
    assert(names@.len() == text::views(names@).len());
    let mut r: Vec<String> = Vec::new();
    assert(text::views(r@) =~= wanted.take(0));
    for i in 0..names.len()
        invariant
            dir@ == config::token_cache(home@),
            text::views(names@) == aws.sessions.key_seq(),
            wanted == aws.sessions.key_seq().map_values(
                |session: Seq<char>| token_path(session, home@),
            ),
            wanted.len() == names@.len(),
            text::views(r@) == wanted.take(i as int),
    {
        let ghost before = text::views(r@);
        r.push(config::join_path(dir.as_str(), token_file_name(names[i].as_str()).as_str()));
        assert(text::views(names@)[i as int] == names@[i as int]@);
        assert(text::views(r@) =~= before.push(wanted[i as int]));
        assert(wanted.take(i + 1) =~= wanted.take(i as int).push(wanted[i as int]));
    }
    assert(wanted.take(names@.len() as int) =~= wanted);
    r
}

/// The validity of a token with this many seconds left.
pub open spec fn status_after(secs: int) -> TokenStatus {
    if secs <= 0 {
        TokenStatus::Expired
    } else if secs < EXPIRING_THRESHOLD_SECS {
        TokenStatus::Expiring(secs as i64)
    } else {
        TokenStatus::Valid(secs as i64)
    }
}

/// The validity of a token with this many seconds left.
pub fn classify(secs: i64) -> (r: TokenStatus)
    ensures
        r == status_after(secs as int),
{
    if secs <= 0 {
        TokenStatus::Expired
    } else if secs < EXPIRING_THRESHOLD_SECS {
        TokenStatus::Expiring(secs)
    } else {
        TokenStatus::Valid(secs)
    }
}

/// The validity at `now` of a token that expires at `expiry`; none is known for
/// a token without an expiry.
pub open spec fn status_at(expiry: Option<UnixTime>, now: UnixTime) -> TokenStatus {
    match expiry {
        Some(t) => status_after(whole_seconds(nanos_between(t, now))),
        None => TokenStatus::NoToken,
    }
}

/// The validity at `now` of a token that expires at `expiry`.
pub fn expiry_status(expiry: Option<UnixTime>, now: UnixTime) -> (r: TokenStatus)
    requires
        now.valid(),
        expiry matches Some(t) ==> t.valid(),
    ensures
        r == status_at(expiry, now),
{
    match expiry {
        Some(t) => classify(seconds_between(t, now)),
        None => TokenStatus::NoToken,
    }
}

/// The expiry that a token document states. A real token document has an
/// `accessToken`; client registrations do not.
pub open spec fn stated_expiry(doc: json::JsonView) -> Option<Seq<char>> {
    if doc.member("accessToken"@) is Some {
        doc.member_text("expiresAt"@)
    } else {
        None
    }
}

/// The expiry that a token document states.
pub fn token_expiry(doc: &Json) -> (r: Option<String>)
    ensures
        text::opt_view(r) == stated_expiry(doc@),
{
    if doc.get("accessToken").is_none() {
        return None;
    }
    match doc.get_str("expiresAt") {
        Some(s) => Some(s.clone()),
        None => None,
    }
}

/// The validity at `now` of the token in a cache file, if there is a file.
pub open spec fn scanned(file: Option<Seq<char>>, now: UnixTime) -> TokenStatus {
    let doc = match file {
        Some(s) => json::text_document(s),
        None => None,
    };
    let expiry = match doc {
        Some(d) => stated_expiry(d),
        None => None,
    };
    match expiry {
        Some(e) => status_at(rfc3339_instant(e), now),
        None => TokenStatus::NoToken,
    }
}

/// The validity at `now` of the token in a session's cache file, given what the
/// file holds; `None` where there is no readable file.
pub fn scan_session(file: &Option<String>, now: UnixTime) -> (r: TokenStatus)
    requires
        now.valid(),
    ensures
        r == scanned(text::opt_view(*file), now),
{
    match file {
        Some(s) => match Json::from_text(s.as_str()) {
            Some(doc) => match token_expiry(&doc) {
                Some(e) => expiry_status(parse_rfc3339(e.as_str()), now),
                None => TokenStatus::NoToken,
            },
            None => TokenStatus::NoToken,
        },
        None => TokenStatus::NoToken,
    }
}

/// The arguments of `aws` that open a login for a session in the browser.
pub open spec fn login_call(session_name: Seq<char>) -> Seq<Seq<char>> {
    seq!["sso"@, "login"@, "--sso-session"@, session_name]
}

/// The arguments of `aws` that open a login for a session in the browser.
pub fn login(session_name: &str) -> (r: Vec<String>)
    ensures
        text::views(r@) == login_call(session_name@),
{
    let mut r: Vec<String> = Vec::new();
    r.push("sso".to_string());
    r.push("login".to_string());
    r.push("--sso-session".to_string());
    r.push(session_name.to_owned());
    assert(text::views(r@) =~= login_call(session_name@));
    r
}

/// A token never gets better while time passes: between two points in time
/// without leap seconds, a token that is expired stays so, and one that is
/// valid or expiring later was so before, with at least as many seconds left.
pub proof fn law_status_declines(expiry: UnixTime, earlier: UnixTime, later: UnixTime)
    requires
        expiry.nanos < 1_000_000_000,
        earlier.nanos < 1_000_000_000,
        later.nanos < 1_000_000_000,
        earlier.secs < later.secs || earlier.secs == later.secs && earlier.nanos <= later.nanos,
    ensures
        status_at(Some(expiry), earlier) is Expired ==> status_at(Some(expiry), later) is Expired,
        whole_seconds(nanos_between(expiry, later)) <= whole_seconds(
            nanos_between(expiry, earlier),
        ),
{
}

/// Of the three ways to have a token, a badge shows exactly one: expired from
/// the expiry on, expiring in the quarter of an hour before, valid until then.
pub proof fn law_status_thresholds(secs: i64)
    ensures
        status_after(secs as int) is Expired <==> secs <= 0,
        status_after(secs as int) is Expiring <==> 0 < secs < 15 * 60,
        status_after(secs as int) is Valid <==> secs >= 15 * 60,
        status_after(secs as int) !is NoToken,
{
}

} // verus!
