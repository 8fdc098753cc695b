//! Instants and their ISO 8601 text.
//!
//! An instant is written in the default ISO 8601 form, with every leading
//! `+00` taken off the front of the text; reading takes the default ISO 8601
//! form as it stands.

use vstd::prelude::*;
use vstd::string::StrSliceExecFns;

verus! {

/// An instant in UTC, in nanoseconds since the Unix epoch.
#[derive(Clone, Copy, Debug, PartialEq, Eq, Structural)]
pub struct Timestamp {
    pub unix_nanos: i128,
}

/// Why an instant could not be written or read.
#[derive(Clone, Copy, Debug, PartialEq, Eq, Structural)]
pub enum TimeError {
    /// The instant has no ISO 8601 text.
    Unformattable,
    /// The text is not an ISO 8601 date and time with an offset.
    Unparsable,
}

/// The default ISO 8601 text of the UTC instant `unix_nanos`, where it has one.
pub uninterp spec fn iso8601_text(unix_nanos: i128) -> Option<Seq<char>>;

/// The instant that a text in the default ISO 8601 form denotes, where it
/// denotes one.
pub uninterp spec fn iso8601_instant(text: Seq<char>) -> Option<i128>;

/// Calls `time::OffsetDateTime::now_utc` and hands out the instant in
/// nanoseconds since the Unix epoch. Nothing is claimed of the clock.
#[verifier::external_body]
fn clock_nanos() -> (r: i128) {
    time::OffsetDateTime::now_utc().unix_timestamp_nanos()
}

/// Calls `time::OffsetDateTime::format` with `Iso8601::DEFAULT` on the UTC
/// instant `unix_nanos`. The text depends on the instant alone; there is none
/// where the instant lies outside the dates that the `time` crate represents
/// or the formatter fails.
#[verifier::external_body]
fn format_iso8601(unix_nanos: i128) -> (r: Option<String>)
    ensures
        match r {
            Some(text) => iso8601_text(unix_nanos) == Some(text@),
            None => iso8601_text(unix_nanos) is None,
        },
{
    match time::OffsetDateTime::from_unix_timestamp_nanos(unix_nanos) {
        Ok(moment) => moment.format(&time::format_description::well_known::Iso8601::DEFAULT).ok(),
        Err(_) => None,
    }
}

/// Calls `time::OffsetDateTime::parse` with `Iso8601::DEFAULT` and hands out
/// the instant that was read, in nanoseconds since the Unix epoch. The instant
/// depends on the text alone.
#[verifier::external_body]
fn parse_iso8601(text: &str) -> (r: Option<i128>)
    ensures
        r == iso8601_instant(text@),
{
    match time::OffsetDateTime::parse(
        text,
        &time::format_description::well_known::Iso8601::DEFAULT,
    ) {
        Ok(moment) => Some(moment.unix_timestamp_nanos()),
        Err(_) => None,
    }
}

/// Whether a text begins with `+00`.
pub open spec fn starts_with_plus_zero(text: Seq<char>) -> bool {
    text.len() >= 3 && text[0] == '+' && text[1] == '0' && text[2] == '0'
}

/// A text without the run of `+00` at its front.
pub open spec fn without_plus_zero(text: Seq<char>) -> Seq<char>
    decreases text.len(),
{
    if starts_with_plus_zero(text) {
        without_plus_zero(text.subrange(3, text.len() as int))
    } else {
        text
    }
}

/// Takes every leading `+00` off the front of a text.
pub fn trim_plus_zero(text: &str) -> (r: String)
    ensures
        r@ == without_plus_zero(text@),
{
    let n = text.unicode_len();
    let mut start: usize = 0;
    proof {
        assert(text@.subrange(0, n as int) == text@);
    }
    while n - start >= 3 && text.get_char(start) == '+' && text.get_char(start + 1) == '0'
        && text.get_char(start + 2) == '0'
        invariant
            start <= n,
            n == text@.len(),
            without_plus_zero(text@) == without_plus_zero(text@.subrange(start as int, n as int)),
        decreases n - start,
    {
        proof {
            let rest = text@.subrange(start as int, n as int);
            assert(starts_with_plus_zero(rest));
            assert(rest.subrange(3, rest.len() as int) == text@.subrange(
                start as int + 3,
                n as int,
            ));
        }
        start = start + 3;
    }
    proof {
        let rest = text@.subrange(start as int, n as int);
        assert(!starts_with_plus_zero(rest));
    }
    text.substring_char(start, n).to_owned()
}

impl Timestamp {
    /// The current instant.
    pub fn now() -> (r: Timestamp) {
        Timestamp { unix_nanos: clock_nanos() }
    }
}

/// The text that an instant is written as, where it can be written.
pub open spec fn serialized(instant: Timestamp) -> Option<Seq<char>> {
    match iso8601_text(instant.unix_nanos) {
        Some(text) => Some(without_plus_zero(text)),
        None => None,
    }
}

/// Writes an instant as ISO 8601 text without a leading `+00`.
pub fn serialize_datetime(instant: &Timestamp) -> (r: Result<String, TimeError>)
    ensures
        match r {
            Ok(text) => serialized(*instant) == Some(text@),
            Err(e) => serialized(*instant) is None && e == TimeError::Unformattable,
        },
{
    match format_iso8601(instant.unix_nanos) {
        Some(text) => Ok(trim_plus_zero(text.as_str())),
        None => Err(TimeError::Unformattable),
    }
}

/// Reads an instant from ISO 8601 text.
pub fn deserialize_datetime(text: &str) -> (r: Result<Timestamp, TimeError>)
    ensures
        match r {
            Ok(instant) => iso8601_instant(text@) == Some(instant.unix_nanos),
            Err(e) => iso8601_instant(text@) is None && e == TimeError::Unparsable,
        },
{
    match parse_iso8601(text) {
        Some(unix_nanos) => Ok(Timestamp { unix_nanos }),
        None => Err(TimeError::Unparsable),
    }
}

/// A text that does not begin with `+00` is left as it is.
pub proof fn lemma_trim_is_identity_without_prefix(text: Seq<char>)
    requires
        !starts_with_plus_zero(text),
    ensures
        without_plus_zero(text) == text,
{
}

/// What is left after trimming does not begin with `+00`, and trimming it
/// again changes nothing.
pub proof fn lemma_trim_is_idempotent(text: Seq<char>)
    ensures
        !starts_with_plus_zero(without_plus_zero(text)),
        without_plus_zero(without_plus_zero(text)) == without_plus_zero(text),
    decreases text.len(),
{
    if starts_with_plus_zero(text) {
        lemma_trim_is_idempotent(text.subrange(3, text.len() as int));
    }
}

} // verus!
