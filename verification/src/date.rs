//! The `Date` header: RFC 2822 text with the zone label `GMT`, and the
//! clock-skew window within which a request counts as fresh.
use crate::text::{replace_all, replaced_from};
use time::format_description::well_known::Rfc2822;
use vstd::prelude::*;

verus! {

/// The clock-skew window, in seconds, that is used where none is chosen.
pub const DEFAULT_WINDOW_SECONDS: u64 = 300;

/// The RFC 2822 text, in UTC, of the moment that lies `seconds` seconds after
/// the Unix epoch, where the format can express it.
pub uninterp spec fn rfc2822_text(seconds: int) -> Option<Seq<char>>;

/// The moment that an RFC 2822 text names, in seconds after the Unix epoch,
/// where the text is well formed.
pub uninterp spec fn rfc2822_seconds(text: Seq<char>) -> Option<int>;

/// Makes the moment with `time::OffsetDateTime::from_unix_timestamp` and
/// writes it with `format` and `Rfc2822`. Trusted: the result depends on
/// `seconds` alone; `None` stands for a moment that the crate or the format
/// cannot express.
#[verifier::external_body]
fn format_rfc2822(seconds: i64) -> (r: Option<String>)
    ensures
        match r {
            Some(text) => rfc2822_text(seconds as int) == Some(text@),
            None => rfc2822_text(seconds as int) is None,
        },
{
    let moment = time::OffsetDateTime::from_unix_timestamp(seconds).ok()?;
    moment.format(&Rfc2822).ok()
}

/// Reads a text with `time::OffsetDateTime::parse` and `Rfc2822` and gives
/// the moment's `unix_timestamp`. Trusted: the result depends on the text
/// alone; `None` stands for a text that the crate refuses.
#[verifier::external_body]
fn parse_rfc2822(text: &str) -> (r: Option<i64>)
    ensures
        match r {
            Some(seconds) => rfc2822_seconds(text@) == Some(seconds as int),
            None => rfc2822_seconds(text@) is None,
        },
{
    let moment = time::OffsetDateTime::parse(text, &Rfc2822).ok()?;
    Some(moment.unix_timestamp())
}

/// The `unix_timestamp` of `time::OffsetDateTime::now_utc`. Nothing is
/// promised of the result: it is the clock's.
#[verifier::external_body]
fn unix_now() -> i64 {
    time::OffsetDateTime::now_utc().unix_timestamp()
}

/// A date text with the numeric zone `+0000` written as `GMT`.
pub open spec fn gmt_labelled(text: Seq<char>) -> Seq<char> {
    replaced_from(text, "+0000"@, "GMT"@, 0)
}

/// The `Date` header value for the moment `seconds` seconds after the Unix epoch.
pub open spec fn http_date_text(seconds: int) -> Option<Seq<char>> {
    match rfc2822_text(seconds) {
        Some(text) => Some(gmt_labelled(text)),
        None => None,
    }
}

/// Writes the numeric zone `+0000` of a date text as `GMT`, the one form that
/// receivers expect.
pub fn gmt_label(text: &str) -> (r: String)
    ensures
        r@ == gmt_labelled(text@),
{
    replace_all(text, "+0000", "GMT")
}

/// The `Date` header value for a moment given in seconds after the Unix
/// epoch: RFC 2822 text in UTC with the zone label `GMT`. `None` where the
/// format cannot express the moment.
pub fn http_date(seconds: i64) -> (r: Option<String>)
    ensures
        match http_date_text(seconds as int) {
            Some(text) => r matches Some(date) && date@ == text,
            None => r is None,
        },
{
    match format_rfc2822(seconds) {
        Some(text) => Some(gmt_label(text.as_str())),
        None => None,
    }
}

/// The moment that a `Date` header value names, in seconds after the Unix
/// epoch, or `None` where the value is no RFC 2822 date.
pub fn parse_http_date(text: &str) -> (r: Option<i64>)
    ensures
        match rfc2822_seconds(text@) {
            Some(seconds) => r matches Some(found) && found == seconds,
            None => r is None,
        },
{
    parse_rfc2822(text)
}

/// The present moment, in seconds after the Unix epoch, with the `Date`
/// header value that names it. The moment is whatever the clock says; the text
/// is the header value of that moment.
pub fn current_date() -> (r: (i64, Option<String>))
    ensures
        match http_date_text(r.0 as int) {
            Some(text) => r.1 matches Some(date) && date@ == text,
            None => r.1 is None,
        },
{
    let now = unix_now();
    (now, http_date(now))
}

/// Whether two moments lie at most `window` seconds apart.
pub open spec fn within_window(now: int, then: int, window: int) -> bool {
    now - then <= window && then - now <= window
}

/// Whether a request dated `then` is fresh at `now`: the two moments, in
/// seconds, lie at most `window` seconds apart, whichever comes first.
pub fn is_fresh(now: i64, then: i64, window: u64) -> (r: bool)
    ensures
        r == within_window(now as int, then as int, window as int),
{
    let gap: i128 = now as i128 - then as i128;
    let limit: i128 = window as i128;
    gap <= limit && -gap <= limit
}

} // verus!
