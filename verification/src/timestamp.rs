//! Normalizing a local date-time and its UTC offset to a sort key.
//!
//! A sort key is the UTC date and time as fourteen decimal digits,
//! `YYYYMMDDhhmmss`, so that keys compare as text in the order of the
//! instants they stand for.

use chrono::DateTime;
use chrono::ParseError;
use vstd::prelude::*;
use vstd::string::StrSliceExecFns;
use vstd::string::StringExecFns;

use crate::error::TimestampError;

verus! {

/// The chrono format of a local date-time followed by its offset:
/// `YYYY-MM-DD HH:MM:SS ±HH:MM`.
pub const PARSE_FORMAT: &'static str = "%F %T %:z";

/// The chrono format of a sort key.
pub const KEY_FORMAT: &'static str = "%Y%m%d%H%M%S";

/// Whether `c` is one of the ten ASCII decimal digits.
pub open spec fn is_digit(c: char) -> bool {
    '0' <= c && c <= '9'
}

/// Whether `c` may stand at index `i` of a local date-time, `YYYY-MM-DD HH:MM:SS`.
pub open spec fn date_time_char(i: int, c: char) -> bool {
    if i == 4 || i == 7 {
        c == '-'
    } else if i == 10 {
        c == ' '
    } else if i == 13 || i == 16 {
        c == ':'
    } else {
        is_digit(c)
    }
}

/// Whether `s` has the shape `YYYY-MM-DD HH:MM:SS`: nineteen characters, all
/// fields of fixed width and made of ASCII digits.
pub open spec fn is_local_date_time(s: Seq<char>) -> bool {
    &&& s.len() == 19
    &&& forall|i: int| 0 <= i < 19 ==> date_time_char(i, #[trigger] s[i])
}

/// Whether `c` may stand at index `i` of an offset, `±HH:MM`.
pub open spec fn offset_char(i: int, c: char) -> bool {
    if i == 0 {
        c == '+' || c == '-'
    } else if i == 3 {
        c == ':'
    } else {
        is_digit(c)
    }
}

/// Whether `s` has the shape `±HH:MM`.
pub open spec fn is_utc_offset(s: Seq<char>) -> bool {
    &&& s.len() == 6
    &&& forall|i: int| 0 <= i < 6 ==> offset_char(i, #[trigger] s[i])
}

/// Whether `s` is a sort key: fourteen ASCII digits.
pub open spec fn is_sort_key(s: Seq<char>) -> bool {
    &&& s.len() == 14
    &&& forall|i: int| 0 <= i < 14 ==> is_digit(#[trigger] s[i])
}

/// The text handed to chrono: the local date-time, one space, the offset.
pub open spec fn zoned_text(date_time: Seq<char>, offset: Seq<char>) -> Seq<char> {
    date_time + seq![' '] + offset
}

/// What is kept of chrono's rendering: a rendering that is a sort key.
pub open spec fn accepted_key(rendered: Option<Seq<char>>) -> Option<Seq<char>> {
    match rendered {
        Some(key) => if is_sort_key(key) {
            Some(key)
        } else {
            None
        },
        None => None,
    }
}

/// The sort key of a local date-time and its offset: both must have their
/// fixed shape, chrono must accept them as a calendar date and time, and the
/// instant in UTC must fall in the years that four digits can express.
pub open spec fn normalized_key(date_time: Seq<char>, offset: Seq<char>) -> Option<Seq<char>> {
    if is_local_date_time(date_time) && is_utc_offset(offset) {
        accepted_key(utc_rendering(zoned_text(date_time, offset), PARSE_FORMAT@, KEY_FORMAT@))
    } else {
        None
    }
}

/// There is a key only for a date-time and an offset of the fixed shapes,
/// and it is then a sort key.
pub proof fn lemma_key_needs_shapes(date_time: Seq<char>, offset: Seq<char>)
    ensures
        normalized_key(date_time, offset) matches Some(key) ==> is_local_date_time(date_time)
            && is_utc_offset(offset) && is_sort_key(key),
{
}

/// chrono's error for a text that it does not accept. It is only told apart
/// from success.
#[verifier::external_type_specification]
#[verifier::external_body]
pub struct ExParseError(ParseError);

/// What chrono makes of `text`: parsed with `parse_format` as a date and time
/// with an offset, moved to UTC, and written out with `key_format`; `None`
/// where chrono does not accept `text`.
pub uninterp spec fn utc_rendering(
    text: Seq<char>,
    parse_format: Seq<char>,
    key_format: Seq<char>,
) -> Option<Seq<char>>;

/// Parses `text` with chrono's `DateTime::parse_from_str`, drops the offset
/// with `DateTime::to_utc`, and writes the instant with `DateTime::format`.
///
/// Trusted: the three calls depend on nothing but their arguments, so the
/// outcome is `utc_rendering` of the three texts, and chrono's error comes
/// back exactly where that is `None`. The key format is fixed to
/// `KEY_FORMAT` because writing with a format that chrono cannot read panics.
#[verifier::external_body]
fn render_utc(text: &str, parse_format: &str, key_format: &str) -> (rendered: Result<
    String,
    ParseError,
>)
    requires
        key_format@ == KEY_FORMAT@,
    ensures
        match rendered {
            Ok(key) => utc_rendering(text@, parse_format@, key_format@) == Some(key@),
            Err(_) => utc_rendering(text@, parse_format@, key_format@) is None,
        },
{
    let parsed = DateTime::parse_from_str(text, parse_format)?;
    Ok(parsed.to_utc().format(key_format).to_string())
}

fn is_digit_char(c: char) -> (b: bool)
    ensures
        b == is_digit(c),
{
    '0' <= c && c <= '9'
}

/// Tells whether `text` has the shape `YYYY-MM-DD HH:MM:SS`.
pub fn has_date_time_shape(text: &str) -> (b: bool)
    ensures
        b == is_local_date_time(text@),
{
    if text.unicode_len() != 19 {
        return false;
    }
    let mut i: usize = 0;
    while i < 19
        invariant
            i <= 19,
            text@.len() == 19,
            forall|j: int| 0 <= j < i ==> date_time_char(j, #[trigger] text@[j]),
        decreases 19 - i,
    {
        let c = text.get_char(i);
        let ok = if i == 4 || i == 7 {
            c == '-'
        } else if i == 10 {
            c == ' '
        } else if i == 13 || i == 16 {
            c == ':'
        } else {
            is_digit_char(c)
        };
        if !ok {
            return false;
        }
        i += 1;
    }
    true
}

/// Tells whether `text` has the shape `±HH:MM`.
pub fn has_offset_shape(text: &str) -> (b: bool)
    ensures
        b == is_utc_offset(text@),
{
    if text.unicode_len() != 6 {
        return false;
    }
    let mut i: usize = 0;
    while i < 6
        invariant
            i <= 6,
            text@.len() == 6,
            forall|j: int| 0 <= j < i ==> offset_char(j, #[trigger] text@[j]),
        decreases 6 - i,
    {
        let c = text.get_char(i);
        let ok = if i == 0 {
            c == '+' || c == '-'
        } else if i == 3 {
            c == ':'
        } else {
            is_digit_char(c)
        };
        if !ok {
            return false;
        }
        i += 1;
    }
    true
}

/// Tells whether `text` is a sort key.
pub fn has_sort_key_shape(text: &str) -> (b: bool)
    ensures
        b == is_sort_key(text@),
{
    if text.unicode_len() != 14 {
        return false;
    }
    let mut i: usize = 0;
    while i < 14
        invariant
            i <= 14,
            text@.len() == 14,
            forall|j: int| 0 <= j < i ==> is_digit(#[trigger] text@[j]),
        decreases 14 - i,
    {
        if !is_digit_char(text.get_char(i)) {
            return false;
        }
        i += 1;
    }
    true
}

/// Accepts a rendering of chrono's as a sort key if it has the shape of one.
///
/// A rendering has another shape where the instant in UTC lies before the
/// year 0 or after the year 9999: chrono then writes a sign and more digits.
pub fn check_sort_key(rendered: String) -> (key: Result<String, TimestampError>)
    ensures
        match key {
            Ok(k) => is_sort_key(rendered@) && k == rendered,
            Err(e) => !is_sort_key(rendered@) && e == TimestampError::MalformedTimestamp,
        },
{
    if has_sort_key_shape(rendered.as_str()) {
        Ok(rendered)
    } else {
        Err(TimestampError::MalformedTimestamp)
    }
}

/// Normalizes a local date-time `YYYY-MM-DD HH:MM:SS` and its offset `±HH:MM`
/// to the sort key of the same instant in UTC.
pub fn parse_date_time(date_time_str: &str, offset: &str) -> (key: Result<String, TimestampError>)
    ensures
        match key {
            Ok(k) => normalized_key(date_time_str@, offset@) == Some(k@) && is_sort_key(k@),
            Err(e) => e == TimestampError::MalformedTimestamp && normalized_key(
                date_time_str@,
                offset@,
            ) is None,
        },
{
    if !has_date_time_shape(date_time_str) || !has_offset_shape(offset) {
        return Err(TimestampError::MalformedTimestamp);
    }
    let mut text = String::from_str(date_time_str);
    text.append(" ");
    text.append(offset);
    proof {
        reveal_strlit(" ");
        assert(text@ == zoned_text(date_time_str@, offset@));
    }
    match render_utc(text.as_str(), PARSE_FORMAT, KEY_FORMAT) {
        Ok(rendered) => check_sort_key(rendered),
        Err(_) => Err(TimestampError::MalformedTimestamp),
    }
}

} // verus!
