//! The calls this library makes into other crates, and the functions of
//! the standard library that it calls without a specification of theirs at
//! hand. Every contract here is believed, not proved: the verifier reads
//! no body behind it. Each says no more than the called code documents;
//! where that would take pages, the result only gets a name.

use crate::text::{text_of, texts};
use vstd::prelude::*;
use vstd::string::*;

verus! {

/// The bytes that percent-encoding leaves as they are: ASCII letters and
/// digits, and `-`, `.`, `_`, `~`.
pub open spec fn is_unreserved(byte: u8) -> bool {
    ||| 0x30 <= byte <= 0x39
    ||| 0x41 <= byte <= 0x5a
    ||| 0x61 <= byte <= 0x7a
    ||| byte == 0x2d
    ||| byte == 0x2e
    ||| byte == 0x5f
    ||| byte == 0x7e
}

/// The upper-case hexadecimal digit for a value below sixteen.
pub open spec fn hex_upper(digit: u8) -> char {
    if digit < 10 {
        (0x30 + digit) as char
    } else {
        (0x41 + digit - 10) as char
    }
}

/// One byte, percent-encoded: itself if unreserved, else `%` and its two
/// hexadecimal digits.
pub open spec fn percent_encoded_byte(byte: u8) -> Seq<char> {
    if is_unreserved(byte) {
        seq![byte as char]
    } else {
        seq!['%', hex_upper(byte / 16), hex_upper(byte % 16)]
    }
}

/// A byte string, percent-encoded byte by byte.
pub open spec fn percent_encoded(bytes: Seq<u8>) -> Seq<char>
    decreases bytes.len(),
{
    if bytes.len() == 0 {
        Seq::empty()
    } else {
        percent_encoded(bytes.drop_last()) + percent_encoded_byte(bytes.last())
    }
}

/// Percent-encodes a text for use in a URL, by `urlencoding::encode`.
///
/// Believed of that function: every byte of the text's UTF-8 encoding
/// comes out unchanged if it is an ASCII letter, a digit or one of
/// `-`, `.`, `_`, `~`, and as `%` with two upper-case hexadecimal digits
/// otherwise.
#[verifier::external_body]
pub(crate) fn url_encode(text: &str) -> (encoded: String)
    ensures
        encoded@ == percent_encoded(text.spec_bytes()),
{
    urlencoding::encode(text).into_owned()
}

/// What the first capture group holds in the leftmost match of the regular
/// expression `pattern` in `text`, as the `regex` crate finds it; `None`
/// where the pattern does not compile, nothing matches, or the group took
/// no part in the match.
pub uninterp spec fn regex_first_group(pattern: Seq<char>, text: Seq<char>) -> Option<Seq<char>>;

/// Searches `text` for `pattern` and hands back the text of capture group
/// one, by `regex::Regex::new`, `Regex::captures` and `Captures::get`.
///
/// Believed of those functions: the outcome depends on the pattern and the
/// text alone.
#[verifier::external_body]
pub(crate) fn first_group(pattern: &str, text: &str) -> (group: Option<String>)
    ensures
        group is Some == regex_first_group(pattern@, text@) is Some,
        group matches Some(found) ==> regex_first_group(pattern@, text@) == Some(found@),
{
    let regex = regex::Regex::new(pattern).ok()?;
    let captures = regex.captures(text)?;
    captures.get(1).map(|found| found.as_str().to_string())
}

/// A fresh random identifier in hyphenated form, by `uuid::Uuid::new_v4`.
///
/// Nothing is believed of the result: two calls may give any two texts.
#[verifier::external_body]
pub(crate) fn random_id() -> (id: String) {
    uuid::Uuid::new_v4().to_string()
}

/// How `chrono` writes the instant that lies `millis` milliseconds after
/// the Unix epoch as an RFC 3339 date and time in UTC; `None` for an
/// instant outside the range of dates that `chrono` can hold.
pub uninterp spec fn rfc3339_text(millis: i64) -> Option<Seq<char>>;

/// Writes an instant as an RFC 3339 date and time in UTC, by
/// `chrono::DateTime::from_timestamp_millis` and `DateTime::to_rfc3339`.
///
/// Believed of those functions: the outcome depends on the number alone.
#[verifier::external_body]
pub(crate) fn format_rfc3339(millis: i64) -> (text: Option<String>)
    ensures
        text_of(text) == rfc3339_text(millis),
{
    chrono::DateTime::<chrono::Utc>::from_timestamp_millis(millis).map(
        |instant| instant.to_rfc3339(),
    )
}

/// The instant, in milliseconds after the Unix epoch, that `chrono` reads
/// from `text` as an RFC 3339 date and time; `None` where `text` is none.
pub uninterp spec fn rfc3339_instant(text: Seq<char>) -> Option<i64>;

/// Reads an RFC 3339 date and time, by
/// `chrono::DateTime::parse_from_rfc3339` and `DateTime::timestamp_millis`.
///
/// Believed of those functions: the outcome depends on the text alone.
#[verifier::external_body]
pub(crate) fn parse_rfc3339(text: &str) -> (millis: Option<i64>)
    ensures
        millis == rfc3339_instant(text@),
{
    chrono::DateTime::parse_from_rfc3339(text).ok().map(|instant| instant.timestamp_millis())
}

/// Whether the standard library counts a character as alphanumeric:
/// as a letter or a number of Unicode.
pub uninterp spec fn alphanumeric(c: char) -> bool;

/// `char::is_alphanumeric` of the standard library.
///
/// Believed of it: the answer depends on the character alone.
pub assume_specification[ char::is_alphanumeric ](c: char) -> (answer: bool)
    ensures
        answer == alphanumeric(c),
;

/// The lower-case form that the standard library gives a text.
pub uninterp spec fn lowercase(text: Seq<char>) -> Seq<char>;

/// `str::to_lowercase` of the standard library.
///
/// Believed of it: the outcome depends on the text alone.
pub assume_specification[ str::to_lowercase ](s: &str) -> (lower: String)
    ensures
        lower@ == lowercase(s@),
;

/// `String::push` of the standard library: it appends one character.
pub assume_specification[ String::push ](s: &mut String, c: char)
    ensures
        final(s)@ == old(s)@.push(c),
;

/// How the standard library writes a list of texts for debugging.
pub uninterp spec fn debug_list(items: Seq<Seq<char>>) -> Seq<char>;

/// Writes a list of texts as the standard library writes it for
/// debugging, by `format!` with `{:?}`.
///
/// Believed of it: the outcome depends on the texts alone.
#[verifier::external_body]
pub(crate) fn format_debug_list(items: &Vec<String>) -> (text: String)
    ensures
        text@ == debug_list(texts(items@)),
{
    format!("{:?}", items)
}

/// How the standard library writes an optional text for debugging.
pub uninterp spec fn debug_optional_text(text: Option<Seq<char>>) -> Seq<char>;

/// Writes an optional text as the standard library writes it for
/// debugging, by `format!` with `{:?}`.
///
/// Believed of it: the outcome depends on the text alone.
#[verifier::external_body]
pub(crate) fn format_debug_optional_text(value: &Option<String>) -> (text: String)
    ensures
        text@ == debug_optional_text(text_of(*value)),
{
    format!("{:?}", value)
}

} // verus!
