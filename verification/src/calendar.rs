//! Calendar texts of Unix seconds, and the timezone of this machine.

use vstd::prelude::*;

verus! {

/// The UTC instant as `chrono` renders it in RFC 3339 with whole seconds and `Z`; `None` where
/// the instant is outside the range of `chrono`.
pub uninterp spec fn utc_seconds_text(at: i64) -> Option<Seq<char>>;

/// The UTC instant as `chrono` renders it in RFC 3339 with a numeric offset; `None` where the
/// instant is outside the range of `chrono`.
pub uninterp spec fn utc_offset_text(at: i64) -> Option<Seq<char>>;

/// The UTC instant as `chrono` renders it to the minute; `None` where the instant is outside the
/// range of `chrono`.
pub uninterp spec fn utc_minute_text(at: i64) -> Option<Seq<char>>;

/// What `chrono` reads from an RFC 3339 text: its Unix seconds, or the message of its error.
pub uninterp spec fn rfc3339_seconds(text: Seq<char>) -> Result<i64, Seq<char>>;

/// Whether `chrono` reads the instant `at` from a text.
pub open spec fn reads_as(text: Seq<char>, at: i64) -> bool {
    rfc3339_seconds(text) == Ok::<i64, Seq<char>>(at)
}

/// Whether an instant falls in the years 0 to 9999 of UTC.
pub open spec fn in_four_digit_years(at: i64) -> bool {
    -62_167_219_200 <= at <= 253_402_300_799
}

/// Whether a character can stand in an RFC 3339 text with a numeric offset.
pub open spec fn is_instant_char(c: char) -> bool {
    ('0' <= c && c <= '9') || c == '+' || c == '-' || c == ':' || c == 'T'
}

/// Calls `chrono::DateTime::<Utc>::from_timestamp` with no nanoseconds, and `to_rfc3339_opts` with
/// whole seconds and `Z` on the instant that it gives. The rendering is named, not described; an
/// instant in the years 0 to 9999 always has one.
#[verifier::external_body]
pub(crate) fn render_utc_seconds(at: i64) -> (text: Option<String>)
    ensures
        text.deep_view() == utc_seconds_text(at),
        in_four_digit_years(at) ==> text is Some,
{
    chrono::DateTime::<chrono::Utc>::from_timestamp(at, 0).map(
        |instant| instant.to_rfc3339_opts(chrono::SecondsFormat::Secs, true),
    )
}

/// Calls `chrono::DateTime::<Utc>::from_timestamp` with no nanoseconds, and `to_rfc3339` on the
/// instant that it gives. The rendering is named, not described. It is not empty and holds digits,
/// signs, colons and the letter `T` only. An instant in the years 0 to 9999 always has one, and
/// `chrono` reads that instant back from it.
#[verifier::external_body]
pub(crate) fn render_utc_offset(at: i64) -> (text: Option<String>)
    ensures
        text.deep_view() == utc_offset_text(at),
        text matches Some(t) ==> t@.len() > 0 && forall|i: int|
            0 <= i < t@.len() ==> is_instant_char(#[trigger] t@[i]),
        in_four_digit_years(at) ==> text is Some && reads_as(text->0@, at),
{
    chrono::DateTime::<chrono::Utc>::from_timestamp(at, 0).map(|instant| instant.to_rfc3339())
}

/// Calls `chrono::DateTime::<Utc>::from_timestamp` with no nanoseconds, and `format` on the instant
/// that it gives, with the year, month, day, hour, minute and the letters `UTC`. The rendering is
/// named, not described; an instant in the years 0 to 9999 always has one.
#[verifier::external_body]
pub(crate) fn render_utc_minute(at: i64) -> (text: Option<String>)
    ensures
        text.deep_view() == utc_minute_text(at),
        in_four_digit_years(at) ==> text is Some,
{
    chrono::DateTime::<chrono::Utc>::from_timestamp(at, 0).map(
        |instant| instant.format("%Y-%m-%d %H:%M UTC").to_string(),
    )
}

/// Calls `chrono::DateTime::parse_from_rfc3339`, and `timestamp` on the instant that it gives. What
/// it reads, or the message of its error, is named, not described.
#[verifier::external_body]
pub(crate) fn parse_rfc3339(text: &str) -> (seconds: Result<i64, String>)
    ensures
        match seconds {
            Ok(at) => rfc3339_seconds(text@) == Ok::<i64, Seq<char>>(at),
            Err(message) => rfc3339_seconds(text@) == Err::<i64, Seq<char>>(message@),
        },
{
    match chrono::DateTime::parse_from_rfc3339(text) {
        Ok(instant) => Ok(instant.timestamp()),
        Err(error) => Err(error.to_string()),
    }
}

/// Calls `iana_time_zone::get_timezone`. Its answer depends on the machine: nothing is promised.
#[verifier::external_body]
fn system_timezone() -> (name: Option<String>) {
    iana_time_zone::get_timezone().ok()
}

/// Whether a character is a decimal digit.
pub open spec fn is_digit(c: char) -> bool {
    '0' <= c && c <= '9'
}

/// Whether a text is an offset from UTC: a sign, two digits of hours, a colon and two digits of
/// minutes.
pub open spec fn is_utc_offset(text: Seq<char>) -> bool {
    &&& text.len() == 6
    &&& text[0] == '+' || text[0] == '-'
    &&& is_digit(text[1])
    &&& is_digit(text[2])
    &&& text[3] == ':'
    &&& is_digit(text[4])
    &&& is_digit(text[5])
}

/// Calls `chrono::Local::now` and `format` with the offset of local time from UTC. Which offset it
/// is depends on the machine; its form does not.
#[verifier::external_body]
fn local_utc_offset() -> (offset: String)
    ensures
        is_utc_offset(offset@),
{
    chrono::Local::now().format("%:z").to_string()
}

/// Whether a timezone is the name that `system` gave, or the offset that `offset` gave where
/// `system` gave no name.
pub open spec fn is_named_or_offset<S: Fn() -> Option<String>, O: Fn() -> String>(
    system: S,
    offset: O,
    timezone: String,
) -> bool {
    ||| call_ensures(system, (), Some(timezone))
    ||| call_ensures(system, (), None) && call_ensures(offset, (), timezone)
}

/// Whether a timezone is the one of this machine, as the system gave its name or, without a name,
/// as the clock gave its offset from UTC.
pub closed spec fn is_local_timezone(timezone: String) -> bool {
    is_named_or_offset(system_timezone, local_utc_offset, timezone)
}

/// The timezone that has the name `name`, or else the offset that `offset` gives. The offset is not
/// asked for where there is a name.
pub fn timezone_from<O: Fn() -> String>(name: Option<String>, offset: O) -> (timezone: String)
    requires
        call_requires(offset, ()),
    ensures
        match name {
            Some(name) => timezone == name,
            None => call_ensures(offset, (), timezone),
        },
{
    match name {
        Some(name) => name,
        None => offset(),
    }
}

fn ask_timezone<S: Fn() -> Option<String>, O: Fn() -> String>(system: S, offset: O) -> (timezone:
    String)
    requires
        call_requires(system, ()),
        call_requires(offset, ()),
    ensures
        is_named_or_offset(system, offset, timezone),
{
    timezone_from(system(), offset)
}

/// The timezone of this machine: its IANA name, or else its offset from UTC.
pub fn local_goal_timezone() -> (timezone: String)
    ensures
        is_local_timezone(timezone),
{
    ask_timezone(system_timezone, local_utc_offset)
}

} // verus!
