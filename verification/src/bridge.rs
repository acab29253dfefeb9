//! Contracts for the URL, percent-encoding, JSON and header libraries that
//! request synthesis calls. Nothing in this file is proved: each contract
//! restates what the library's source shows.

use crate::text::ascii_lowercase;
use reqwest::header::{HeaderMap, HeaderName, HeaderValue, InvalidHeaderName, InvalidHeaderValue};
use vstd::prelude::*;
use vstd::utf8::encode_utf8;

verus! {

/// `url::Url`: a URL record, its serialization together with the offsets of
/// its parts. The contracts speak of it through `url_text`, `url_as_parsed`
/// and `url_query_in_place`.
#[verifier::external_type_specification]
#[verifier::external_body]
pub struct ExUrl(url::Url);

/// `url::ParseError`: why a text is no URL.
#[verifier::external_type_specification]
#[verifier::external_body]
pub struct ExUrlParseError(url::ParseError);

/// `serde_json::Value`: a JSON value. The contracts speak of it through
/// `json_text`.
#[verifier::external_type_specification]
#[verifier::external_body]
pub struct ExJsonValue(serde_json::Value);

/// `serde_json::Error`: why a text is not JSON.
#[verifier::external_type_specification]
#[verifier::external_body]
pub struct ExJsonError(serde_json::Error);

/// `http::header::HeaderName`, as `reqwest::header` hands it on.
#[verifier::external_type_specification]
#[verifier::external_body]
pub struct ExHeaderName(HeaderName);

/// `http::header::HeaderValue`, as `reqwest::header` hands it on.
#[verifier::external_type_specification]
#[verifier::external_body]
pub struct ExHeaderValue(HeaderValue);

/// `http::header::InvalidHeaderName`: why a text is no header name.
#[verifier::external_type_specification]
#[verifier::external_body]
pub struct ExInvalidHeaderName(InvalidHeaderName);

/// `http::header::InvalidHeaderValue`: why a text is no header value.
#[verifier::external_type_specification]
#[verifier::external_body]
pub struct ExInvalidHeaderValue(InvalidHeaderValue);

/// `http::header::HeaderMap`, as `reqwest::header` hands it on. The
/// contracts speak of it through `header_entries`.
#[verifier::external_type_specification]
#[verifier::external_body]
#[verifier::reject_recursive_types(T)]
pub struct ExHeaderMap<T>(HeaderMap<T>);

/// The serialization that a URL holds, as `Url::as_str` returns it.
pub uninterp spec fn url_text(url: url::Url) -> Seq<char>;

/// Whether a URL holds every part where parsing its serialization puts it.
/// A URL fresh from `Url::parse` does; a setter may leave one that does not.
pub uninterp spec fn url_as_parsed(url: url::Url) -> bool;

/// Whether a URL holds its query and its fragment where parsing its
/// serialization puts them: the fragment from the first `#`, the query from
/// the first `?` that stands before it.
pub uninterp spec fn url_query_in_place(url: url::Url) -> bool;

/// The serialization of the URL that `Url::parse` makes of `input`, or `None`
/// where it refuses `input`.
pub uninterp spec fn parsed_url(input: Seq<char>) -> Option<Seq<char>>;

/// What `Url::cannot_be_a_base` returns for the URL that parsing `url`
/// gives.
pub uninterp spec fn url_cannot_be_a_base(url: Seq<char>) -> bool;

/// What `Url::path` returns for the URL that parsing `url` gives.
pub uninterp spec fn url_path(url: Seq<char>) -> Seq<char>;

/// The serialization after `Url::set_path(path)` on the URL that parsing
/// `url` gives.
pub uninterp spec fn url_with_path(url: Seq<char>, path: Seq<char>) -> Seq<char>;

/// The name and value pairs that `Url::query_pairs` reads, decoded, from the
/// query of a URL of serialization `url` that holds its query and fragment
/// in place.
pub uninterp spec fn url_query_pairs(url: Seq<char>) -> Seq<(Seq<char>, Seq<char>)>;

/// The serialization after one `append_pair(name, value)` on the query of a
/// URL of serialization `url` that holds its query and fragment in place.
pub uninterp spec fn url_with_query_pair(url: Seq<char>, name: Seq<char>, value: Seq<char>) -> Seq<
    char,
>;

/// What percent-decoding followed by lossy UTF-8 decoding makes of `text`.
pub uninterp spec fn percent_decoded(text: Seq<char>) -> Seq<char>;

/// What a JSON value holds: its compact text, as `serde_json::to_string`
/// writes it.
pub uninterp spec fn json_text(value: serde_json::Value) -> Seq<char>;

/// The compact text of the value that `serde_json::from_str` reads from
/// `text`, or `None` where `text` is not JSON.
pub uninterp spec fn parsed_json(text: Seq<char>) -> Option<Seq<char>>;

/// The name that a `HeaderName` holds, as `HeaderName::as_str` returns it.
pub uninterp spec fn header_name_text(name: HeaderName) -> Seq<char>;

/// The bytes that a `HeaderValue` holds, as `HeaderValue::as_bytes` returns
/// them.
pub uninterp spec fn header_value_bytes(value: HeaderValue) -> Seq<u8>;

/// What a header map holds: for each name in it, the bytes of the value
/// that `HeaderMap::get` returns for that name.
pub uninterp spec fn header_entries(map: HeaderMap<HeaderValue>) -> Map<Seq<char>, Seq<u8>>;

/// The entries of a header map that holds nothing.
pub open spec fn no_headers() -> Map<Seq<char>, Seq<u8>> {
    Map::empty()
}

/// The number of bytes of the UTF-8 encoding of `text`.
pub open spec fn byte_len(text: Seq<char>) -> nat {
    encode_utf8(text).len()
}

/// The longest serialization, in bytes, that a `Url` can hold.
pub const URL_MAX_BYTES: u64 = 0xffff_ffff;

/// A header map with fewer names than this accepts one more.
pub const HEADER_NAMES_ROOM: usize = 4096;

/// The longest header name, in bytes.
pub const HEADER_NAME_MAX_BYTES: usize = 0xffff;

/// `Url::parse`: a function of the input text alone. It returns an error for
/// text that is no absolute URL and does not panic. The URL that it returns
/// holds its parts where parsing put them.
#[verifier::external_body]
pub(crate) fn parse_url(input: &str) -> (r: Result<url::Url, url::ParseError>)
    ensures
        match r {
            Ok(url) => parsed_url(input@) == Some(url_text(url)) && url_as_parsed(url),
            Err(_) => parsed_url(input@) is None,
        },
{
    url::Url::parse(input)
}

/// `Url::as_str`: the serialization.
#[verifier::external_body]
pub(crate) fn url_as_str(url: &url::Url) -> (r: &str)
    ensures
        r@ == url_text(*url),
{
    url.as_str()
}

/// `Url::cannot_be_a_base`: whether the serialization goes on without a
/// slash after the scheme and its colon. It reads the serialization from the
/// end of the scheme that the URL holds.
#[verifier::external_body]
pub(crate) fn cannot_be_a_base(url: &url::Url) -> (r: bool)
    requires
        url_as_parsed(*url),
    ensures
        r == url_cannot_be_a_base(url_text(*url)),
{
    url.cannot_be_a_base()
}

/// `Url::path`: the slice of the serialization from the start of the path
/// to the query or fragment, at the offsets that the URL holds.
#[verifier::external_body]
pub(crate) fn path_of_url(url: &url::Url) -> (r: &str)
    requires
        url_as_parsed(*url),
    ensures
        r@ == url_path(url_text(*url)),
{
    url.path()
}

/// `Url::set_path`, on a URL that can be a base: replaces the path, at the
/// offsets that the URL holds, and keeps the rest, so the query reads as
/// before. It escapes `?` and `#` in the new path, so the query and the
/// fragment stay where parsing puts them; the other offsets may come to
/// differ from those of the new serialization, of which nothing is said.
/// Each byte of `path` becomes at most three bytes and at most one slash is
/// added; the call panics only where the new serialization would not fit in
/// 32 bits.
#[verifier::external_body]
pub(crate) fn set_url_path(url: &mut url::Url, path: &str)
    requires
        url_as_parsed(*old(url)),
        !url_cannot_be_a_base(url_text(*old(url))),
        byte_len(url_text(*old(url))) + 3 * byte_len(path@) + 4 <= URL_MAX_BYTES,
    ensures
        url_text(*final(url)) == url_with_path(url_text(*old(url)), path@),
        url_query_in_place(*final(url)),
        url_query_pairs(url_text(*final(url))) == url_query_pairs(url_text(*old(url))),
{
    url.set_path(path)
}

/// `Url::query_pairs_mut` followed by `append_pair`: appends `name=value` to
/// the query, form-encoded, at the query and fragment offsets that the URL
/// holds. What it appends holds neither `?` nor `#`, so query and fragment
/// stay in place. Name and value are escaped apart from letters, digits and
/// `*-._`, with `+` for a space, and `&` is put before them where the query
/// holds something; so reading the pairs of the query gives those that were
/// there, then this one. Each byte becomes at most three bytes, and `?`, `&` and
/// `=` may be added; the call panics only where the new serialization would
/// not fit in 32 bits.
#[verifier::external_body]
pub(crate) fn append_query_pair(url: &mut url::Url, name: &str, value: &str)
    requires
        url_query_in_place(*old(url)),
        byte_len(url_text(*old(url))) + 3 * byte_len(name@) + 3 * byte_len(value@) + 4
            <= URL_MAX_BYTES,
    ensures
        url_text(*final(url)) == url_with_query_pair(url_text(*old(url)), name@, value@),
        url_query_in_place(*final(url)),
        url_query_pairs(url_text(*final(url))) == url_query_pairs(url_text(*old(url))).push(
            (name@, value@),
        ),
{
    url.query_pairs_mut().append_pair(name, value);
}

/// `percent_decode_str` followed by `decode_utf8_lossy`. Only `%` followed by
/// two hexadecimal digits is decoded, so text without `%` comes back as it
/// is.
#[verifier::external_body]
pub(crate) fn percent_decode(text: &str) -> (r: String)
    ensures
        r@ == percent_decoded(text@),
        !text@.contains('%') ==> r@ == text@,
{
    percent_encoding::percent_decode_str(text).decode_utf8_lossy().into_owned()
}

/// `serde_json::from_str` at type `Value`: a function of the text alone. It
/// returns an error for text that is not JSON and does not panic.
#[verifier::external_body]
pub(crate) fn parse_json(text: &str) -> (r: Result<serde_json::Value, serde_json::Error>)
    ensures
        match r {
            Ok(value) => parsed_json(text@) == Some(json_text(value)),
            Err(_) => parsed_json(text@) is None,
        },
{
    serde_json::from_str(text)
}

/// Whether `c` may stand in a header name: a letter, a digit, or one of
/// ``!#$%&'*+-.^_`|~``.
pub open spec fn is_header_name_char(c: char) -> bool {
    ||| 'a' <= c <= 'z'
    ||| 'A' <= c <= 'Z'
    ||| '0' <= c <= '9'
    ||| c == '!'
    ||| c == '#'
    ||| c == '$'
    ||| c == '%'
    ||| c == '&'
    ||| c == '\''
    ||| c == '*'
    ||| c == '+'
    ||| c == '-'
    ||| c == '.'
    ||| c == '^'
    ||| c == '_'
    ||| c == '`'
    ||| c == '|'
    ||| c == '~'
}

/// Whether `name` is accepted as a header name.
pub open spec fn is_header_name(name: Seq<char>) -> bool {
    &&& 0 < name.len() <= HEADER_NAME_MAX_BYTES
    &&& forall|i: int| 0 <= i < name.len() ==> is_header_name_char(#[trigger] name[i])
}

/// `HeaderName::from_bytes` on the bytes of `name`: accepts between 1 and
/// 65535 bytes that all are name characters, and holds them with ASCII
/// capitals in lower case.
#[verifier::external_body]
pub(crate) fn header_name_of(name: &str) -> (r: Result<HeaderName, InvalidHeaderName>)
    ensures
        r is Ok <==> is_header_name(name@),
        r matches Ok(n) ==> header_name_text(n) == ascii_lowercase(name@),
{
    HeaderName::from_bytes(name.as_bytes())
}

/// Whether `b` may stand in a header value: a tab, or any byte from 32 up
/// but 127.
pub open spec fn is_header_value_byte(b: u8) -> bool {
    (b >= 32 && b != 127) || b == 9
}

/// Whether `value` is accepted as a header value.
pub open spec fn is_header_value(value: Seq<char>) -> bool {
    forall|i: int|
        0 <= i < encode_utf8(value).len() ==> is_header_value_byte(
            #[trigger] encode_utf8(value)[i],
        )
}

/// `HeaderValue::from_str`: accepts text whose bytes all are value bytes, and
/// holds those bytes.
#[verifier::external_body]
pub(crate) fn header_value_of(value: &str) -> (r: Result<HeaderValue, InvalidHeaderValue>)
    ensures
        r is Ok <==> is_header_value(value@),
        r matches Ok(v) ==> header_value_bytes(v) == encode_utf8(value@),
{
    HeaderValue::from_str(value)
}

/// `HeaderMap::new`: an empty map.
#[verifier::external_body]
pub(crate) fn new_header_map() -> (r: HeaderMap<HeaderValue>)
    ensures
        header_entries(r) == no_headers(),
{
    HeaderMap::new()
}

/// `HeaderMap::keys_len`: the number of names in the map.
#[verifier::external_body]
pub(crate) fn header_names(map: &HeaderMap<HeaderValue>) -> (n: usize)
    ensures
        n == header_entries(*map).dom().len(),
{
    map.keys_len()
}

/// `HeaderMap::insert`: `value` becomes the only value of `name`; the other
/// names keep theirs. The call panics only where the map cannot grow, which
/// takes a table of 32768 slots holding at least a fifth as many names; the
/// precondition stays below that.
#[verifier::external_body]
pub(crate) fn insert_header(map: &mut HeaderMap<HeaderValue>, name: HeaderName, value: HeaderValue)
    requires
        header_entries(*old(map)).dom().len() < HEADER_NAMES_ROOM,
    ensures
        header_entries(*final(map)) == header_entries(*old(map)).insert(
            header_name_text(name),
            header_value_bytes(value),
        ),
{
    map.insert(name, value);
}

} // verus!
