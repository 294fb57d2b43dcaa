//! Points in time and their RFC 3339 form.

use vstd::prelude::*;

use crate::text;

verus! {

/// A point in time, in nanoseconds from the Unix epoch (negative before it).
#[derive(Debug, Clone, Copy, PartialEq, Eq, Structural)]
pub struct Timestamp {
    pub nanos: i128,
}

/// Nanoseconds in a minute.
pub const MINUTE_NANOS: i128 = 60_000_000_000;

/// Nanoseconds in a day.
pub const DAY_NANOS: i128 = 86_400_000_000_000;

/// The RFC 3339 form, in UTC, of the time that many nanoseconds from the epoch,
/// where its year has four digits.
pub uninterp spec fn rfc3339_text(nanos: int) -> Option<Seq<char>>;

/// `time::OffsetDateTime::from_unix_timestamp_nanos` and `format` with the
/// well-known `Rfc3339` description. `None` where the time is out of range for
/// either. The characters of the result are not stated.
#[verifier::external_body]
fn format_rfc3339(nanos: i128) -> (r: Option<String>)
    ensures
        text::opt_view(r) == rfc3339_text(nanos as int),
{
    let moment = ::time::OffsetDateTime::from_unix_timestamp_nanos(nanos).ok()?;
    moment.format(&::time::format_description::well_known::Rfc3339).ok()
}

/// The point in time, in nanoseconds from the epoch, that an RFC 3339 text names.
pub uninterp spec fn rfc3339_instant(raw: Seq<char>) -> Option<int>;

/// `time::OffsetDateTime::parse` with the well-known `Rfc3339` description, and
/// `unix_timestamp_nanos`. `None` where the text is not RFC 3339. Which texts
/// are, and what time they name, is not stated.
#[verifier::external_body]
fn read_rfc3339(raw: &str) -> (r: Option<i128>)
    ensures
        match r {
            Some(nanos) => rfc3339_instant(raw@) == Some(nanos as int),
            None => rfc3339_instant(raw@) is None,
        },
{
    let format = &::time::format_description::well_known::Rfc3339;
    ::time::OffsetDateTime::parse(raw, format).ok().map(|moment| moment.unix_timestamp_nanos())
}

/// What stands for a time that cannot be written.
pub open spec fn or_epoch(formatted: Option<Seq<char>>) -> Seq<char> {
    match formatted {
        Some(s) => s,
        None => "1970-01-01T00:00:00Z"@,
    }
}

/// The formatted time, or a recognizable sentinel where there is none.
pub fn formatted_or_epoch(formatted: Option<String>) -> (s: String)
    ensures
        s@ == or_epoch(text::opt_view(formatted)),
{
    match formatted {
        Some(s) => s,
        None => "1970-01-01T00:00:00Z".to_owned(),
    }
}

/// The RFC 3339 form of a time, for every time.
pub open spec fn rfc3339_of(t: Timestamp) -> Seq<char> {
    or_epoch(rfc3339_text(t.nanos as int))
}

/// Format `t` as RFC 3339 UTC. A value that cannot be written, such as a
/// corrupted one read back from storage, degrades to a recognizable sentinel.
pub fn rfc3339(t: Timestamp) -> (s: String)
    ensures
        s@ == rfc3339_of(t),
{
    formatted_or_epoch(format_rfc3339(t.nanos))
}

/// The RFC 3339 form of a time, or nothing where it cannot be written.
pub open spec fn blank_or_rfc3339(t: Timestamp) -> Seq<char> {
    match rfc3339_text(t.nanos as int) {
        Some(s) => s,
        None => seq![],
    }
}

/// Format `t` as RFC 3339 UTC; a value that cannot be written is left blank.
pub fn rfc3339_or_blank(t: Timestamp) -> (s: String)
    ensures
        s@ == blank_or_rfc3339(t),
{
    match format_rfc3339(t.nanos) {
        Some(s) => s,
        None => String::new(),
    }
}

/// The time that an RFC 3339 text names.
pub fn parse_rfc3339(raw: &str) -> (r: Option<Timestamp>)
    ensures
        match r {
            Some(t) => rfc3339_instant(raw@) == Some(t.nanos as int),
            None => rfc3339_instant(raw@) is None,
        },
{
    match read_rfc3339(raw) {
        Some(nanos) => Some(Timestamp { nanos }),
        None => None,
    }
}

/// `t` rounded down to whole microseconds. A time before the epoch stays as it
/// is.
pub open spec fn whole_micros(t: Timestamp) -> Timestamp {
    if t.nanos >= 0 {
        Timestamp { nanos: (t.nanos as int / 1000 * 1000) as i128 }
    } else {
        t
    }
}

/// Round `t` down to microsecond precision, the resolution of the store, so
/// that a value written and read back compares equal.
pub fn truncate_to_micros(t: Timestamp) -> (r: Timestamp)
    ensures
        r == whole_micros(t),
{
    if t.nanos < 0 {
        return t;
    }
    Timestamp { nanos: t.nanos - t.nanos % 1000 }
}

/// Rounding a second time changes nothing, and what is lost is less than one
/// microsecond.
pub proof fn law_truncation_settles(t: Timestamp)
    ensures
        whole_micros(whole_micros(t)) == whole_micros(t),
        whole_micros(t).nanos <= t.nanos < whole_micros(t).nanos + 1000,
{
}

/// An instant after the epoch loses what is less than a microsecond and nothing
/// else; one before it is kept. Later instants stay later or become the same.
pub proof fn law_instants_are_cut_to_microseconds(t: Timestamp, u: Timestamp)
    ensures
        t.nanos >= 0 ==> whole_micros(t).nanos as int % 1000 == 0 && 0 <= t.nanos - whole_micros(
            t,
        ).nanos < 1000,
        t.nanos < 0 ==> whole_micros(t) == t,
        t.nanos <= u.nanos ==> whole_micros(t).nanos <= whole_micros(u).nanos,
{
}

/// A time that can be written is shown as it is written; one that cannot is
/// shown as the epoch, or left blank.
pub proof fn law_times_are_shown_as_written(t: Timestamp)
    ensures
        rfc3339_text(t.nanos as int) matches Some(s) ==> rfc3339_of(t) == s && blank_or_rfc3339(t) == s,
        rfc3339_text(t.nanos as int) is None ==> rfc3339_of(t) == "1970-01-01T00:00:00Z"@
            && blank_or_rfc3339(t).len() == 0,
{
}

} // verus!
