//! Calls into outside crates. Each function here is trusted: Verus believes
//! its contract and does not read its body. Where the outside result takes
//! pages to state but depends on the arguments alone, the contract ties it
//! to a name (a spec function without a body) applied to those arguments.

use base64::Engine;

use crate::byte_counts::declared_bytes_total;
use crate::name_case::names_lower_in_place;
use vstd::prelude::*;

verus! {

/// What `regex::Regex::new(pattern)` followed by `is_match(text)` gives:
/// `None` where the pattern does not compile, else whether the pattern
/// matches somewhere in `text`.
pub uninterp spec fn regex_match(pattern: Seq<char>, text: Seq<char>) -> Option<bool>;

/// Compiles `pattern` with `regex::Regex::new` and calls `Regex::is_match`
/// on `text`. The result is `regex_match(pattern, text)`; that the regex
/// crate decides it from the two strings alone is all that is claimed.
#[verifier::external_body]
pub(crate) fn regex_is_match(pattern: &str, text: &str) -> (r: Option<bool>)
    ensures
        r == regex_match(pattern@, text@),
{
    match regex::Regex::new(pattern) {
        Ok(re) => Some(re.is_match(text)),
        Err(_) => None,
    }
}

/// What `regex::Regex::new(pattern)` followed by `captures(text)` and the
/// text of capture group `group` gives: `None` where the pattern does not
/// compile, `Some(None)` where nothing matches or the group took no part in
/// the leftmost-first match, else the group's text.
pub uninterp spec fn regex_capture_group(pattern: Seq<char>, text: Seq<char>, group: nat) -> Option<
    Option<Seq<char>>,
>;

/// Compiles `pattern` with `regex::Regex::new`, calls `Regex::captures` on
/// `text` and takes the text of group `group`. The result is
/// `regex_capture_group(pattern, text, group)`.
#[verifier::external_body]
pub(crate) fn regex_capture(pattern: &str, text: &str, group: usize) -> (r: Option<Option<String>>)
    ensures
        match r {
            None => regex_capture_group(pattern@, text@, group as nat) is None,
            Some(None) => regex_capture_group(pattern@, text@, group as nat) == Some(
                None::<Seq<char>>,
            ),
            Some(Some(s)) => regex_capture_group(pattern@, text@, group as nat) == Some(
                Some(s@),
            ),
        },
{
    match regex::Regex::new(pattern) {
        Ok(re) => Some(re.captures(text).and_then(|c| c.get(group).map(|m| m.as_str().to_string()))),
        Err(_) => None,
    }
}

/// What `regex::Regex::new(pattern)` followed by
/// `replace_all(text, replacement)` gives: `None` where the pattern does not
/// compile, else the text with every non-overlapping match replaced.
pub uninterp spec fn regex_replaced(pattern: Seq<char>, text: Seq<char>, replacement: Seq<char>) -> Option<
    Seq<char>,
>;

/// Compiles `pattern` with `regex::Regex::new` and calls
/// `Regex::replace_all(text, replacement)`. The result is
/// `regex_replaced(pattern, text, replacement)`.
#[verifier::external_body]
pub(crate) fn regex_replace_all(pattern: &str, text: &str, replacement: &str) -> (r: Option<String>)
    ensures
        match r {
            None => regex_replaced(pattern@, text@, replacement@) is None,
            Some(s) => regex_replaced(pattern@, text@, replacement@) == Some(s@),
        },
{
    match regex::Regex::new(pattern) {
        Ok(re) => Some(re.replace_all(text, replacement).into_owned()),
        Err(_) => None,
    }
}

/// What `glob::Pattern::new(pattern)` followed by `matches(text)` gives:
/// `None` where the pattern does not compile, else whether the whole of
/// `text` matches it.
pub uninterp spec fn glob_match(pattern: Seq<char>, text: Seq<char>) -> Option<bool>;

/// Compiles `pattern` with `glob::Pattern::new` and calls
/// `Pattern::matches(text)`. The result is `glob_match(pattern, text)`.
#[verifier::external_body]
pub(crate) fn glob_matches(pattern: &str, text: &str) -> (r: Option<bool>)
    ensures
        r == glob_match(pattern@, text@),
{
    match glob::Pattern::new(pattern) {
        Ok(p) => Some(p.matches(text)),
        Err(_) => None,
    }
}

/// Draws a random version-4 identifier with `uuid::Uuid::new_v4` and hands
/// back its 128-bit value. The value comes from the operating system's
/// random source, so nothing is stated of it.
#[verifier::external_body]
pub(crate) fn new_v4_uuid() -> (r: u128) {
    uuid::Uuid::new_v4().as_u128()
}

/// What `uuid::Uuid::try_parse(text)` gives, taken by the 128-bit value of
/// the identifier (`Uuid::as_u128`): `None` where the text is no UUID.
pub uninterp spec fn uuid_parsed(text: Seq<char>) -> Option<u128>;

/// Calls `uuid::Uuid::try_parse(text)` and hands back the identifier's
/// 128-bit value. The result is `uuid_parsed(text)`.
#[verifier::external_body]
pub(crate) fn uuid_try_parse(text: &str) -> (r: Option<u128>)
    ensures
        r == uuid_parsed(text@),
{
    uuid::Uuid::try_parse(text).ok().map(|u| u.as_u128())
}

} // verus!

verus! {

/// What `mime_guess::from_path(name).first_or_octet_stream().to_string()`
/// gives: the first MIME type that the crate's table holds for the name's
/// extension, else `application/octet-stream`.
pub uninterp spec fn mime_of(name: Seq<char>) -> Seq<char>;

/// Guesses a MIME type from a file name with `mime_guess::from_path` and
/// `MimeGuess::first_or_octet_stream`. The result is `mime_of(name)`.
#[verifier::external_body]
pub(crate) fn mime_from_name(name: &str) -> (r: String)
    ensures
        r@ == mime_of(name@),
{
    mime_guess::from_path(name).first_or_octet_stream().to_string()
}

/// XML text escaping as `quick_xml::escape::escape` does it.
pub open spec fn xml_escape_char(c: char) -> Seq<char> {
    if c == '<' {
        "&lt;"@
    } else if c == '>' {
        "&gt;"@
    } else if c == '&' {
        "&amp;"@
    } else if c == '\'' {
        "&apos;"@
    } else if c == '"' {
        "&quot;"@
    } else {
        seq![c]
    }
}

pub open spec fn xml_escape(s: Seq<char>) -> Seq<char>
    decreases s.len(),
{
    if s.len() == 0 {
        Seq::empty()
    } else {
        xml_escape(s.drop_last()) + xml_escape_char(s.last())
    }
}

/// Calls `quick_xml::escape::escape`, which replaces `<`, `>`, `&`, `'` and
/// `"` by `&lt;`, `&gt;`, `&amp;`, `&apos;` and `&quot;` and leaves every
/// other character as it is (its documented table).
#[verifier::external_body]
pub(crate) fn xml_escape_text(s: &str) -> (r: String)
    ensures
        r@ == xml_escape(s@),
{
    quick_xml::escape::escape(s).into_owned()
}

/// What `chrono::DateTime::from_timestamp(secs, 0)` followed by
/// `format(fmt).to_string()` gives: `None` where the second count lies
/// outside chrono's range of dates, else the formatted UTC time.
pub uninterp spec fn utc_formatted(secs: i64, fmt: Seq<char>) -> Option<Seq<char>>;

/// Formats the UTC time `secs` seconds after the Unix epoch with chrono's
/// `format`. The result is `utc_formatted(secs, fmt)`. Only the two formats
/// of the WebDAV properties are admitted: writing a format that chrono
/// cannot read panics.
#[verifier::external_body]
pub(crate) fn format_utc(secs: i64, fmt: &str) -> (r: Option<String>)
    requires
        fmt@ == "%Y-%m-%dT%H:%M:%SZ"@ || fmt@ == "%a, %d %b %Y %H:%M:%S GMT"@,
    ensures
        match r {
            Some(s) => utc_formatted(secs, fmt@) == Some(s@),
            None => utc_formatted(secs, fmt@) is None,
        },
{
    chrono::DateTime::from_timestamp(secs, 0).map(|t| t.format(fmt).to_string())
}

} // verus!

verus! {

/// What `nzb_core::nzb_parser::parse_nzb(name, data)` gives, taken as the
/// byte counts of the files it found (`NzbFile::bytes`, in order) or the
/// text of its error (`Display`).
pub uninterp spec fn nzb_file_bytes(name: Seq<char>, data: Seq<u8>) -> Result<Seq<u64>, Seq<char>>;

/// Parses an NZB document with `nzb_core::nzb_parser::parse_nzb` and hands
/// back the byte count of each file, or the error's text. The result is
/// `nzb_file_bytes(name, data)`.
///
/// The parser can panic on two kinds of input, which `requires` leaves out.
/// It adds up the `bytes` attributes of the segments of a file, and then
/// the file sizes, with `u64` sums that panic on overflow in a debug
/// build; each value it adds is the value of a `bytes` attribute as `u64`
/// parsing reads it, so where those values add up to less than 2^64
/// neither sum can overflow. And for a PAR2 file it finds `.vol` in the
/// lower-cased name and slices the name as it was at that position, which
/// panics where lower-casing changed the byte length before it. A file's
/// name comes from its `subject` attribute: every character of it is a
/// character of that attribute's text, one that a numeric character
/// reference in it names, or an ASCII character (Unicode composition can
/// build a character whose width changes only from `I` and U+0307), so
/// where all of those keep their width the positions agree.
#[verifier::external_body]
pub(crate) fn parse_nzb_file_bytes(name: &str, data: &[u8]) -> (r: Result<Vec<u64>, String>)
    requires
        declared_bytes_total(data@) < 0x1_0000_0000_0000_0000,
        names_lower_in_place(data@),
    ensures
        match r {
            Ok(v) => nzb_file_bytes(name@, data@) == Ok::<Seq<u64>, Seq<char>>(v@),
            Err(e) => nzb_file_bytes(name@, data@) == Err::<Seq<u64>, Seq<char>>(e@),
        },
{
    match nzb_core::nzb_parser::parse_nzb(name, data) {
        Ok(job) => Ok(job.files.iter().map(|f| f.bytes).collect()),
        Err(e) => Err(e.to_string()),
    }
}

/// What `String::from_utf8_lossy` gives: the bytes read as UTF-8, with
/// U+FFFD in place of every invalid sequence.
pub uninterp spec fn utf8_lossy(bytes: Seq<u8>) -> Seq<char>;

/// Calls `String::from_utf8_lossy`. The result is `utf8_lossy(bytes)`.
#[verifier::external_body]
pub(crate) fn lossy_text(bytes: &[u8]) -> (r: String)
    ensures
        r@ == utf8_lossy(bytes@),
{
    String::from_utf8_lossy(bytes).into_owned()
}

/// Calls `char::from_u32`, which gives the character with the code `v`,
/// or `None` where `v` is a surrogate or beyond U+10FFFF.
#[verifier::external_body]
pub(crate) fn char_of_code(v: u32) -> (r: Option<char>)
    ensures
        match r {
            Some(c) => c as u32 == v,
            None => v > 0x10FFFF || (0xD800 <= v && v <= 0xDFFF),
        },
{
    char::from_u32(v)
}

/// What `str::to_lowercase` gives: the Unicode lower-case mapping of every
/// character.
pub uninterp spec fn unicode_lower(s: Seq<char>) -> Seq<char>;

/// Calls `str::to_lowercase`. The result is `unicode_lower(s)`.
#[verifier::external_body]
pub(crate) fn to_lowercase(s: &str) -> (r: String)
    ensures
        r@ == unicode_lower(s@),
{
    s.to_lowercase()
}

/// What `percent_encoding::percent_decode_str(text).decode_utf8_lossy()`
/// gives: `%XX` escapes turned into bytes, the bytes read as UTF-8 with
/// invalid sequences replaced.
pub uninterp spec fn percent_decoded(text: Seq<char>) -> Seq<char>;

/// Percent-decodes `text` with `percent_encoding::percent_decode_str` and
/// `decode_utf8_lossy`. The result is `percent_decoded(text)`.
#[verifier::external_body]
pub(crate) fn percent_decode(text: &str) -> (r: String)
    ensures
        r@ == percent_decoded(text@),
{
    percent_encoding::percent_decode_str(text).decode_utf8_lossy().into_owned()
}

/// What the standard base64 engine of the `base64` crate decodes `text` to,
/// or `None` where it reports an error.
pub uninterp spec fn base64_decoded(text: Seq<char>) -> Option<Seq<u8>>;

/// Decodes `text` with `base64::engine::general_purpose::STANDARD`. The
/// result is `base64_decoded(text)`.
#[verifier::external_body]
pub(crate) fn base64_decode(text: &str) -> (r: Option<Vec<u8>>)
    ensures
        match r {
            Some(v) => base64_decoded(text@) == Some(v@),
            None => base64_decoded(text@) is None,
        },
{
    base64::engine::general_purpose::STANDARD.decode(text).ok()
}

/// What `String::from_utf8` reads from `bytes`, or `None` where they are no
/// valid UTF-8.
pub uninterp spec fn utf8_decoded(bytes: Seq<u8>) -> Option<Seq<char>>;

/// Reads `bytes` as UTF-8 with `String::from_utf8`. The result is
/// `utf8_decoded(bytes)`.
#[verifier::external_body]
pub(crate) fn utf8_decode(bytes: Vec<u8>) -> (r: Option<String>)
    ensures
        match r {
            Some(s) => utf8_decoded(bytes@) == Some(s@),
            None => utf8_decoded(bytes@) is None,
        },
{
    String::from_utf8(bytes).ok()
}

/// What parsing `text` as an `http::Uri` and taking its path gives, or
/// `None` where it is no URI.
pub uninterp spec fn uri_path_of(text: Seq<char>) -> Option<Seq<char>>;

/// Parses `text` as an `http::Uri` (`str::parse`) and hands back
/// `Uri::path`. The result is `uri_path_of(text)`.
#[verifier::external_body]
pub(crate) fn uri_path(text: &str) -> (r: Option<String>)
    ensures
        match r {
            Some(p) => uri_path_of(text@) == Some(p@),
            None => uri_path_of(text@) is None,
        },
{
    match text.parse::<http::Uri>() {
        Ok(u) => Some(u.path().to_string()),
        Err(_) => None,
    }
}

/// What `chrono::NaiveDateTime::parse_from_str(text, fmt)` reads, as
/// seconds since the Unix epoch (the time taken as UTC), or `None` where it
/// reports an error.
pub uninterp spec fn naive_datetime_parsed(text: Seq<char>, fmt: Seq<char>) -> Option<i64>;

/// Reads a time with `chrono::NaiveDateTime::parse_from_str` and hands back
/// its Unix timestamp. The result is `naive_datetime_parsed(text, fmt)`.
#[verifier::external_body]
pub(crate) fn parse_naive_datetime(text: &str, fmt: &str) -> (r: Option<i64>)
    ensures
        r == naive_datetime_parsed(text@, fmt@),
{
    chrono::NaiveDateTime::parse_from_str(text, fmt).ok().map(|t| t.and_utc().timestamp())
}

/// What `chrono::DateTime::parse_from_rfc3339(text)` reads, as seconds
/// since the Unix epoch, or `None` where it reports an error.
pub uninterp spec fn rfc3339_parsed(text: Seq<char>) -> Option<i64>;

/// Reads an RFC 3339 time with `chrono::DateTime::parse_from_rfc3339` and
/// hands back its Unix timestamp. The result is `rfc3339_parsed(text)`.
#[verifier::external_body]
pub(crate) fn parse_rfc3339(text: &str) -> (r: Option<i64>)
    ensures
        r == rfc3339_parsed(text@),
{
    chrono::DateTime::parse_from_rfc3339(text).ok().map(|t| t.timestamp())
}

/// What `uuid::Uuid::new_v5(namespace, text.as_bytes())` gives (the
/// name-based identifier hashed with SHA-1), as a 128-bit value.
pub uninterp spec fn uuid_v5_of(namespace: u128, text: Seq<char>) -> u128;

/// Derives a name-based identifier with `uuid::Uuid::new_v5` from the
/// namespace and the UTF-8 bytes of `text`. The result is
/// `uuid_v5_of(namespace, text)`.
#[verifier::external_body]
pub(crate) fn uuid_v5(namespace: u128, text: &str) -> (r: u128)
    ensures
        r == uuid_v5_of(namespace, text@),
{
    uuid::Uuid::new_v5(&uuid::Uuid::from_u128(namespace), text.as_bytes()).as_u128()
}

} // verus!
