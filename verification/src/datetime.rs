//! RFC 3339 timestamps and their nanosecond Unix times, through the `time`
//! crate.
use time::format_description::well_known::Rfc3339;
use time::OffsetDateTime;
use vstd::prelude::*;

verus! {

/// What the `time` crate gives for `text` parsed as an RFC 3339 timestamp
/// (`OffsetDateTime::parse` with `Rfc3339`), taken as nanoseconds since the
/// Unix epoch (`unix_timestamp_nanos`): `None` when the text is no RFC 3339
/// timestamp.
pub uninterp spec fn rfc3339_unix_nanos(text: Seq<char>) -> Option<int>;

/// What the `time` crate writes for the UTC instant `nanos` nanoseconds
/// after the Unix epoch (`OffsetDateTime::from_unix_timestamp_nanos`, then
/// `format` with `Rfc3339`): `None` when the instant is out of the crate's
/// range or cannot be written as RFC 3339.
pub uninterp spec fn rfc3339_text(nanos: int) -> Option<Seq<char>>;

/// Whether `n` lies in the range of `i64`.
pub open spec fn fits_i64(n: int) -> bool {
    i64::MIN <= n <= i64::MAX
}

/// Parses an RFC 3339 timestamp into nanoseconds since the Unix epoch.
///
/// Trusted: calls `time::OffsetDateTime::parse(text, &Rfc3339)` and reads
/// the parsed instant with `unix_timestamp_nanos`; the result is named
/// `rfc3339_unix_nanos`.
#[verifier::external_body]
pub(crate) fn parse_rfc3339_nanos(text: &str) -> (r: Option<i128>)
    ensures
        match r {
            Some(n) => rfc3339_unix_nanos(text@) == Some(n as int),
            None => rfc3339_unix_nanos(text@) is None,
        },
{
    match OffsetDateTime::parse(text, &Rfc3339) {
        Ok(dt) => Some(dt.unix_timestamp_nanos()),
        Err(_) => None,
    }
}

/// Writes the UTC instant `nanos` nanoseconds after the Unix epoch as an
/// RFC 3339 timestamp.
///
/// Trusted: calls `time::OffsetDateTime::from_unix_timestamp_nanos(nanos)`
/// and `format(&Rfc3339)` on the instant; the result is named
/// `rfc3339_text`.
#[verifier::external_body]
pub(crate) fn format_rfc3339(nanos: i128) -> (r: Option<String>)
    ensures
        match r {
            Some(s) => rfc3339_text(nanos as int) == Some(s@),
            None => rfc3339_text(nanos as int) is None,
        },
{
    match OffsetDateTime::from_unix_timestamp_nanos(nanos) {
        Ok(dt) => dt.format(&Rfc3339).ok(),
        Err(_) => None,
    }
}

/// What the `datetime()` filter function makes of a string.
#[derive(Debug, Clone, Copy, PartialEq, Eq)]
pub enum DatetimeValue {
    /// The timestamp, in nanoseconds since the Unix epoch.
    Nanos(i64),
    /// The string is no RFC 3339 timestamp.
    NotRfc3339,
    /// The timestamp's nanoseconds do not fit in an `i64` (past about the
    /// year 2262, or before about 1677).
    OutOfRange,
    /// The argument is missing or is no string.
    NotText,
}

/// The argument that `datetime()` receives in a query.
#[derive(Debug, Clone, PartialEq, Eq)]
pub enum DatetimeArg {
    /// The query gave nothing (a path that selects no node).
    Nothing,
    /// A JSON value that is no string.
    NotText,
    /// A JSON string.
    Text(String),
}

/// What `datetime()` gives for a parse result.
pub open spec fn datetime_of(parsed: Option<int>) -> DatetimeValue {
    match parsed {
        Some(n) => if fits_i64(n) {
            DatetimeValue::Nanos(n as i64)
        } else {
            DatetimeValue::OutOfRange
        },
        None => DatetimeValue::NotRfc3339,
    }
}

/// The value of the `datetime()` filter function, given what parsing the
/// string as RFC 3339 gave: the nanoseconds when they fit in an `i64`.
pub fn datetime_from_parsed(parsed: Option<i128>) -> (r: DatetimeValue)
    ensures
        r == datetime_of(
            match parsed {
                Some(n) => Some(n as int),
                None => None,
            },
        ),
{
    match parsed {
        Some(n) => {
            if i64::MIN as i128 <= n && n <= i64::MAX as i128 {
                DatetimeValue::Nanos(n as i64)
            } else {
                DatetimeValue::OutOfRange
            }
        },
        None => DatetimeValue::NotRfc3339,
    }
}

/// The value of the `datetime()` filter function for a string: the
/// timestamp's nanoseconds since the Unix epoch when the string is an
/// RFC 3339 timestamp whose nanoseconds fit in an `i64`.
pub fn datetime_value(text: &str) -> (r: DatetimeValue)
    ensures
        r == datetime_of(rfc3339_unix_nanos(text@)),
{
    datetime_from_parsed(parse_rfc3339_nanos(text))
}

/// The `datetime()` filter function: for a string, its timestamp's
/// nanoseconds since the Unix epoch as `datetime_value` gives them; for
/// anything else, nothing.
pub fn datetime_function(arg: &DatetimeArg) -> (r: DatetimeValue)
    ensures
        match arg {
            DatetimeArg::Text(s) => r == datetime_of(rfc3339_unix_nanos(s@)),
            _ => r == DatetimeValue::NotText,
        },
{
    match arg {
        DatetimeArg::Text(s) => datetime_value(s.as_str()),
        _ => DatetimeValue::NotText,
    }
}

} // verus!
