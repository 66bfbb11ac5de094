//! What the library takes from other crates and from std on trust: one small function for each
//! outside function, with the contract that its callers rely on.

use base64::engine::general_purpose::URL_SAFE;
use base64::Engine;
use chrono::{DateTime, SecondsFormat, Utc};
use rand::seq::SliceRandom;
use random_word::Lang;
use sha2::{Digest, Sha512};
use url::Url;
use vstd::prelude::*;

verus! {

// ---------------------------------------------------------------------------------------------
// Digests and base64
// ---------------------------------------------------------------------------------------------

/// The SHA-512 digest of a byte string.
pub uninterp spec fn sha512_digest(data: Seq<u8>) -> Seq<u8>;

/// `Sha512` of the sha2 crate, fed `data` and finalized. The digest is a function of the data
/// alone and is 64 bytes long.
#[verifier::external_body]
pub(crate) fn sha512(data: &[u8]) -> (digest: Vec<u8>)
    ensures
        digest@ == sha512_digest(data@),
        digest@.len() == 64,
{
    let mut hasher = Sha512::new();
    hasher.update(data);
    hasher.finalize().to_vec()
}

/// The character that stands for a six-bit value in the URL-safe base64 alphabet.
pub open spec fn symbol(value: int) -> char
    recommends
        0 <= value < 64,
{
    if value < 26 {
        (65 + value) as char
    } else if value < 52 {
        (97 + (value - 26)) as char
    } else if value < 62 {
        (48 + (value - 52)) as char
    } else if value == 62 {
        '-'
    } else {
        '_'
    }
}

/// The byte at position `i`, or zero past the end.
pub open spec fn byte_or_zero(data: Seq<u8>, i: int) -> int {
    if 0 <= i < data.len() {
        data[i] as int
    } else {
        0
    }
}

/// The `i`-th group of six bits of a byte string, most significant bits first, with zero bits
/// past the end.
pub open spec fn sextet(data: Seq<u8>, i: int) -> int {
    let first = 6 * i / 8;
    let offset = 6 * i % 8;
    let pair = byte_or_zero(data, first) * 256 + byte_or_zero(data, first + 1);
    let unit: int = if offset == 0 {
        1024
    } else if offset == 2 {
        256
    } else if offset == 4 {
        64
    } else {
        16
    };
    pair / unit % 64
}

/// The URL-safe base64 text of a byte string, padded with `=` to a multiple of four characters.
pub open spec fn base64_text(data: Seq<u8>) -> Seq<char> {
    Seq::new(
        ((data.len() + 2) / 3 * 4) as nat,
        |i: int|
            if 6 * i < 8 * data.len() {
                symbol(sextet(data, i))
            } else {
                '='
            },
    )
}

/// `Engine::encode` of the base64 crate with the engine `URL_SAFE`: RFC 4648 with the URL-safe
/// alphabet and padding. It panics where the length of the text overflows, which the
/// precondition rules out.
#[verifier::external_body]
pub(crate) fn base64_url_safe(data: &[u8]) -> (text: String)
    requires
        base64_text(data@).len() <= usize::MAX,
    ensures
        text@ == base64_text(data@),
{
    URL_SAFE.encode(data)
}

// ---------------------------------------------------------------------------------------------
// URLs
// ---------------------------------------------------------------------------------------------

/// What parsing a text as an absolute URL gives: the serialization of the URL, or the message of
/// the parse error.
pub uninterp spec fn parsed_url(input: Seq<char>) -> Result<Seq<char>, Seq<char>>;

/// Whether `part` occurs in `text`.
pub open spec fn occurs(part: Seq<char>, text: Seq<char>) -> bool {
    exists|i: int| 0 <= i <= text.len() && part.is_prefix_of(#[trigger] text.skip(i))
}

/// Whether a character ends the authority or a segment of the path of a URL.
pub open spec fn is_delimiter(c: char) -> bool {
    c == '/' || c == '?' || c == '#'
}

/// The position of the first delimiter in a text, or its length where there is none.
pub open spec fn first_delimiter(text: Seq<char>) -> int
    decreases text.len(),
{
    if text.len() == 0 || is_delimiter(text[0]) {
        0
    } else {
        1 + first_delimiter(text.drop_first())
    }
}

/// What stands behind the scheme of a URL and its colon.
pub open spec fn after_scheme(url: Seq<char>) -> Seq<char> {
    url.skip(first_position(url, ':') + 1)
}

/// Whether a URL has an authority, which stands behind two slashes.
pub open spec fn has_authority(url: Seq<char>) -> bool {
    "//"@.is_prefix_of(after_scheme(url))
}

/// The authority of a URL that has one: the user, the host and the port.
pub open spec fn authority(url: Seq<char>) -> Seq<char> {
    let rest = after_scheme(url).skip(2);
    rest.take(first_delimiter(rest))
}

/// What stands behind the authority of a URL that has one: its path, query and fragment.
pub open spec fn after_authority(url: Seq<char>) -> Seq<char> {
    let rest = after_scheme(url).skip(2);
    rest.skip(first_delimiter(rest))
}

/// The host and the port of a URL that has an authority.
pub open spec fn host_and_port(url: Seq<char>) -> Seq<char> {
    let at = first_position(authority(url), '@');
    if at < authority(url).len() {
        authority(url).skip(at + 1)
    } else {
        authority(url)
    }
}

/// Whether some label of the host of a URL is in Punycode.
pub open spec fn has_punycode(url: Seq<char>) -> bool {
    has_authority(url) && ("xn--"@.is_prefix_of(host_and_port(url)) || occurs(
        ".xn--"@,
        host_and_port(url),
    ))
}

/// Whether a URL is that of a file whose path starts with a drive letter: a letter, and a colon or
/// a bar.
pub open spec fn has_drive_letter(url: Seq<char>) -> bool {
    let path = after_authority(url);
    &&& "file://"@.is_prefix_of(url)
    &&& path.len() >= 3
    &&& 'a' <= path[1] <= 'z' || 'A' <= path[1] <= 'Z'
    &&& path[2] == ':' || path[2] == '|'
    &&& path.len() == 3 || is_delimiter(path[3])
}

/// Whether a URL has neither Punycode in its host nor a drive letter in its path.
pub open spec fn is_plain(url: Seq<char>) -> bool {
    !has_punycode(url) && !has_drive_letter(url)
}

/// `Url::parse` of the url crate. The URL is handed on as its serialization, an error as its
/// message; both depend on the input alone. A plain serialization parses to itself: its host is
/// in lower case, its path has no dot segments, and what has to be percent-encoded is. Nothing is
/// said of the others: `file://a//C:` parses to `file://a/C:`, but that to `file:///C:`, and a host
/// in Punycode can be longer than the parser takes.
#[verifier::external_body]
pub(crate) fn parse_url(input: &str) -> (parsed: Result<String, String>)
    ensures
        match parsed {
            Ok(url) => parsed_url(input@) == Ok::<Seq<char>, Seq<char>>(url@) && (is_plain(url@)
                ==> parsed_url(url@) == Ok::<Seq<char>, Seq<char>>(url@)),
            Err(message) => parsed_url(input@) == Err::<Seq<char>, Seq<char>>(message@),
        },
{
    match Url::parse(input) {
        Ok(url) => Ok(String::from(url)),
        Err(error) => Err(error.to_string()),
    }
}

/// The position of the first `mark` in a text, or its length where there is none.
pub open spec fn first_position(text: Seq<char>, mark: char) -> int
    decreases text.len(),
{
    if text.len() == 0 || text[0] == mark {
        0
    } else {
        1 + first_position(text.drop_first(), mark)
    }
}

/// The text without the spaces at its end.
pub open spec fn trimmed_end(text: Seq<char>) -> Seq<char>
    decreases text.len(),
{
    if text.len() > 0 && text.last() == ' ' {
        trimmed_end(text.drop_last())
    } else {
        text
    }
}

/// A URL's serialization without its query: what stands before the first `?` of the part before
/// the fragment, followed by the fragment. Without a fragment, spaces that the query kept from
/// the end of the URL go with it.
pub open spec fn without_query(url: Seq<char>) -> Seq<char> {
    let fragment = first_position(url, '#');
    let base = url.take(fragment);
    let kept = base.take(first_position(base, '?'));
    if fragment < url.len() {
        kept + url.skip(fragment)
    } else {
        trimmed_end(kept)
    }
}

/// `Url::set_query` of the url crate with `None`, on the URL that `input` parses to. In a
/// serialization the first `#` opens the fragment and the first `?` before it opens the query;
/// an opaque path that then ends the URL loses its trailing spaces, and no other URL has any.
#[verifier::external_body]
pub(crate) fn clear_query(input: &str) -> (url: String)
    requires
        parsed_url(input@) is Ok,
    ensures
        url@ == without_query(parsed_url(input@)->Ok_0),
{
    let mut url = Url::parse(input).unwrap();
    url.set_query(None);
    String::from(url)
}

// ---------------------------------------------------------------------------------------------
// Chance
// ---------------------------------------------------------------------------------------------

/// `SliceRandom::choose` of the rand crate with its thread-local generator: some element of the
/// slice, or `None` if and only if the slice is empty. Which element it is, is left open.
#[verifier::external_body]
pub(crate) fn choose_one(options: &[usize]) -> (chosen: Option<usize>)
    ensures
        match chosen {
            Some(value) => options@.contains(value),
            None => options@.len() == 0,
        },
{
    options.choose(&mut rand::thread_rng()).copied()
}

/// `random_word::gen_len` for English: some word of the word list that has `len` characters, or
/// `None` where the list has none of that length. Which word it is, is left open, and so is which
/// lengths the list, which comes compressed, has words of.
#[verifier::external_body]
pub(crate) fn draw_word(len: usize) -> (word: Option<String>)
    ensures
        word matches Some(drawn) ==> drawn@.len() == len,
{
    random_word::gen_len(len, Lang::En).map(String::from)
}

// ---------------------------------------------------------------------------------------------
// Time
// ---------------------------------------------------------------------------------------------

/// The last second that the chrono crate can represent, counted from the Unix epoch: the end of
/// the year 262142.
pub const LAST_SECOND: i64 = 8_210_266_876_799;

/// The last second of the year 9999, counted from the Unix epoch.
pub const LAST_FOUR_DIGIT_SECOND: i64 = 253_402_300_799;

/// `Utc::now` of the chrono crate, as the seconds since the Unix epoch and the nanoseconds since
/// the last full second. It reads the system clock and panics where that clock stands before the
/// epoch or past what chrono can represent.
#[verifier::external_body]
pub(crate) fn utc_now() -> (now: (i64, u32))
    ensures
        0 <= now.0 <= LAST_SECOND,
        now.1 < 1_000_000_000,
{
    let now = Utc::now();
    (now.timestamp(), now.timestamp_subsec_nanos())
}

/// The RFC 3339 text, in UTC and with milliseconds, of an instant given as seconds since the Unix
/// epoch and nanoseconds since the last full second.
pub uninterp spec fn rfc3339_text(seconds: i64, nanos: u32) -> Seq<char>;

/// The instant that an RFC 3339 text denotes, as seconds since the Unix epoch and nanoseconds
/// since the last full second; `None` where the text is not RFC 3339.
pub uninterp spec fn rfc3339_instant(text: Seq<char>) -> Option<(i64, u32)>;

/// The mark that stands at a place of a time text of the form `0000-00-00T00:00:00.000Z`, where it
/// is no digit.
pub open spec fn time_mark(place: int) -> Option<char> {
    if place == 4 || place == 7 {
        Some('-')
    } else if place == 10 {
        Some('T')
    } else if place == 13 || place == 16 {
        Some(':')
    } else if place == 19 {
        Some('.')
    } else if place == 23 {
        Some('Z')
    } else {
        None
    }
}

/// Whether a text has the form `0000-00-00T00:00:00.000Z`, with any digits.
pub open spec fn is_time_text(text: Seq<char>) -> bool {
    &&& text.len() == 24
    &&& forall|i: int|
        0 <= i < 24 ==> match time_mark(i) {
            Some(mark) => #[trigger] text[i] == mark,
            None => '0' <= text[i] <= '9',
        }
}

/// `DateTime::to_rfc3339_opts` of the chrono crate with `SecondsFormat::Millis` and a `Z` for
/// UTC. The text depends on the instant alone; for years of four digits, it has the form
/// `0000-00-00T00:00:00.000Z`, and parsing it gives the instant back, cut to milliseconds.
#[verifier::external_body]
pub(crate) fn format_rfc3339(seconds: i64, nanos: u32) -> (text: String)
    requires
        0 <= seconds <= LAST_SECOND,
        nanos < 1_000_000_000,
    ensures
        text@ == rfc3339_text(seconds, nanos),
        seconds <= LAST_FOUR_DIGIT_SECOND ==> rfc3339_instant(text@) == Some(
            (seconds, (nanos - nanos % 1_000_000) as u32),
        ),
        seconds <= LAST_FOUR_DIGIT_SECOND ==> is_time_text(text@),
{
    let instant = DateTime::from_timestamp(seconds, nanos).unwrap();
    instant.to_rfc3339_opts(SecondsFormat::Millis, true)
}

/// `DateTime::parse_from_rfc3339` of the chrono crate, as the instant's timestamp and its
/// sub-second nanoseconds, which pass 999,999,999 only in a leap second. The result depends on
/// the text alone; what the error says is not kept.
#[verifier::external_body]
pub(crate) fn parse_rfc3339(text: &str) -> (instant: Option<(i64, u32)>)
    ensures
        instant == rfc3339_instant(text@),
{
    match DateTime::parse_from_rfc3339(text) {
        Ok(instant) => Some((instant.timestamp(), instant.timestamp_subsec_nanos())),
        Err(_) => None,
    }
}

// ---------------------------------------------------------------------------------------------
// UTF-8
// ---------------------------------------------------------------------------------------------

/// The message of the error for bytes that are not UTF-8.
pub uninterp spec fn utf8_error(bytes: Seq<u8>) -> Seq<char>;

/// `String::from_utf8` of std: the text that the bytes encode, or, if and only if they are not
/// UTF-8, an error, which is handed on as its message.
#[verifier::external_body]
pub(crate) fn decode_utf8(bytes: Vec<u8>) -> (decoded: Result<String, String>)
    ensures
        match decoded {
            Ok(text) => vstd::utf8::valid_utf8(bytes@) && text@ == vstd::utf8::decode_utf8(bytes@),
            Err(message) => !vstd::utf8::valid_utf8(bytes@) && message@ == utf8_error(bytes@),
        },
{
    match String::from_utf8(bytes) {
        Ok(text) => Ok(text),
        Err(error) => Err(error.to_string()),
    }
}

} // verus!
