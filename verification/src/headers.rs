//! HTTP methods, header names, header values and header maps, as the `http` crate keeps them.

use vstd::prelude::*;

verus! {

/// `http::HeaderName`, known by its text; see [`name_text`].
#[verifier::external_type_specification]
#[verifier::external_body]
pub struct ExHeaderName(http::HeaderName);

/// `http::HeaderValue`, known by its bytes; see [`value_bytes`].
#[verifier::external_type_specification]
#[verifier::external_body]
pub struct ExHeaderValue(http::HeaderValue);

/// `http::HeaderMap`, known by what it holds; see [`contents`].
#[verifier::external_type_specification]
#[verifier::external_body]
#[verifier::reject_recursive_types(T)]
pub struct ExHeaderMap<T>(http::HeaderMap<T>);

/// The text of a header name, always in lower case.
pub uninterp spec fn name_text(name: http::HeaderName) -> Seq<char>;

/// The bytes of a header value.
pub uninterp spec fn value_bytes(value: http::HeaderValue) -> Seq<u8>;

/// What a header map holds: under each name its values, in the order in which they came.
pub uninterp spec fn contents(headers: http::HeaderMap) -> Map<Seq<char>, Seq<Seq<u8>>>;

/// What a header map holds once nothing has been put into it.
pub open spec fn no_headers() -> Map<Seq<char>, Seq<Seq<u8>>> {
    Map::empty()
}

/// The number of distinct names below which a header map always takes another value. The
/// `http` crate refuses one only in a table of 2^15 slots that is at least a fifth full.
pub open spec fn roomy_names() -> nat {
    6554
}

/// Whether `c` may stand in a token: an HTTP method or a header name.
pub open spec fn is_token_char(c: char) -> bool {
    ||| 'a' <= c <= 'z'
    ||| 'A' <= c <= 'Z'
    ||| '0' <= c <= '9'
    ||| c == '!'
    ||| c == '#'
    ||| c == '$'
    ||| c == '%'
    ||| c == '&'
    ||| c == '\''
    ||| c == '*'
    ||| c == '+'
    ||| c == '-'
    ||| c == '.'
    ||| c == '^'
    ||| c == '_'
    ||| c == '`'
    ||| c == '|'
    ||| c == '~'
}

/// Whether `text` is a token: one or more token characters.
pub open spec fn is_token(text: Seq<char>) -> bool {
    text.len() > 0 && forall|i: int| 0 <= i < text.len() ==> is_token_char(#[trigger] text[i])
}

/// Whether `text` is a header name: a token of at most 65535 characters.
pub open spec fn is_header_name(text: Seq<char>) -> bool {
    is_token(text) && text.len() <= 65535
}

/// Whether `b` may stand in a header value: no control character but the tab.
pub open spec fn is_value_byte(b: u8) -> bool {
    (b >= 32 && b != 127) || b == 9
}

/// Whether `b` is a visible ASCII character, a space or a tab.
pub open spec fn is_visible_byte(b: u8) -> bool {
    32 <= b < 127 || b == 9
}

/// Whether `text` has the form in which a header map keeps its names: up to 65535 characters, and
/// no capital letter of ASCII.
pub open spec fn is_kept_name(text: Seq<char>) -> bool {
    0 < text.len() <= 65535 && crate::text::ascii_lowered(text) == text
}

/// Whether `bytes` may be a header value.
pub open spec fn is_value(bytes: Seq<u8>) -> bool {
    forall|i: int| 0 <= i < bytes.len() ==> is_value_byte(#[trigger] bytes[i])
}

/// Whether `text` can be a header value.
pub open spec fn is_header_value(text: Seq<char>) -> bool {
    is_value(vstd::utf8::encode_utf8(text))
}

/// Whether `bytes` are visible ASCII characters, spaces and tabs.
pub open spec fn is_visible(bytes: Seq<u8>) -> bool {
    forall|i: int| 0 <= i < bytes.len() ==> is_visible_byte(#[trigger] bytes[i])
}

/// ASCII bytes as text.
pub open spec fn ascii_text(bytes: Seq<u8>) -> Seq<char> {
    Seq::new(bytes.len(), |i: int| bytes[i] as char)
}

/// `held` with one more value under `name`, behind those that are there.
pub open spec fn appended(
    held: Map<Seq<char>, Seq<Seq<u8>>>,
    name: Seq<char>,
    value: Seq<u8>,
) -> Map<Seq<char>, Seq<Seq<u8>>> {
    if held.dom().contains(name) {
        held.insert(name, held[name].push(value))
    } else {
        held.insert(name, seq![value])
    }
}

/// The header map content that arises from appending `items` one by one.
pub open spec fn gathered(items: Seq<(Seq<char>, Seq<u8>)>) -> Map<Seq<char>, Seq<Seq<u8>>>
    decreases items.len(),
{
    if items.len() == 0 {
        no_headers()
    } else {
        appended(gathered(items.drop_last()), items.last().0, items.last().1)
    }
}

/// The names and values of `items`.
pub open spec fn item_views(items: Seq<(String, http::HeaderValue)>) -> Seq<(Seq<char>, Seq<u8>)> {
    Seq::new(items.len(), |i: int| (items[i].0@, value_bytes(items[i].1)))
}

/// The bytes of `values`.
pub open spec fn value_views(values: Seq<http::HeaderValue>) -> Seq<Seq<u8>> {
    Seq::new(values.len(), |i: int| value_bytes(values[i]))
}

/// The values under `name` in `held`, none where there is no such name.
pub open spec fn values_under(held: Map<Seq<char>, Seq<Seq<u8>>>, name: Seq<char>) -> Seq<Seq<u8>> {
    if held.dom().contains(name) {
        held[name]
    } else {
        Seq::empty()
    }
}

/// Calls `http::HeaderMap::new`: the map holds nothing.
#[verifier::external_body]
pub(crate) fn empty_headers() -> (r: http::HeaderMap)
    ensures
        contents(r) == no_headers(),
{
    http::HeaderMap::new()
}

/// The constant `http::header::HOST`, whose text is `host`.
#[verifier::external_body]
pub(crate) fn host_name() -> (r: http::HeaderName)
    ensures
        name_text(r) == "host"@,
{
    http::header::HOST
}

/// The constant `http::header::CONTENT_TYPE`, whose text is `content-type`.
#[verifier::external_body]
pub(crate) fn content_type_name() -> (r: http::HeaderName)
    ensures
        name_text(r) == "content-type"@,
{
    http::header::CONTENT_TYPE
}

/// Calls `http::HeaderMap::get`: the first value under `name`, and nothing where the map has
/// no such name.
#[verifier::external_body]
pub(crate) fn first_value<'a>(
    headers: &'a http::HeaderMap,
    name: &http::HeaderName,
) -> (r: Option<&'a http::HeaderValue>)
    ensures
        r is Some <==> contents(*headers).dom().contains(name_text(*name)),
        r matches Some(value) ==> contents(*headers)[name_text(*name)].len() > 0
            && value_bytes(*value) == contents(*headers)[name_text(*name)][0],
{
    headers.get(name)
}

/// Calls `http::HeaderMap::get_all`: the values under `name`, in their order.
#[verifier::external_body]
pub(crate) fn all_values(headers: &http::HeaderMap, name: &http::HeaderName) -> (r: Vec<
    http::HeaderValue,
>)
    ensures
        value_views(r@) == values_under(contents(*headers), name_text(*name)),
{
    headers.get_all(name).iter().cloned().collect()
}

/// Calls `http::HeaderMap::iter`: every value with its name, the values of one name in their
/// order. No name is empty, too long, or in capital letters. Which name comes first is left open,
/// and so is which other characters a name has.
#[verifier::external_body]
pub(crate) fn items(headers: &http::HeaderMap) -> (r: Vec<(String, http::HeaderValue)>)
    ensures
        gathered(item_views(r@)) == contents(*headers),
        forall|i: int| 0 <= i < r@.len() ==> is_kept_name((#[trigger] r@[i]).0@),
{
    headers.iter().map(|(name, value)| (name.as_str().to_owned(), value.clone())).collect()
}

/// Calls `http::HeaderMap::try_append`: the value comes behind those under its name. The call
/// is refused, and the map left as it was, only where the map already has very many names. Which
/// of the calls on such a map are refused is not said: it depends on how the map has grown.
#[verifier::external_body]
pub(crate) fn append(
    headers: &mut http::HeaderMap,
    name: &http::HeaderName,
    value: http::HeaderValue,
) -> (r: Result<bool, String>)
    ensures
        r matches Ok(present) ==> contents(*final(headers)) == appended(
            contents(*old(headers)),
            name_text(*name),
            value_bytes(value),
        ) && present == contents(*old(headers)).dom().contains(name_text(*name)),
        r matches Err(error) ==> contents(*final(headers)) == contents(*old(headers)) && error@
            == "max size reached"@ && contents(*old(headers)).dom().len() >= roomy_names(),
{
    headers.try_append(name, value).map_err(|error| error.to_string())
}

/// Calls `http::HeaderMap::try_insert`: the value replaces those under its name. The call is
/// refused, and the map left as it was, only where the map already has very many names. Which of
/// the calls on such a map are refused is not said: it depends on how the map has grown.
#[verifier::external_body]
pub(crate) fn replace(
    headers: &mut http::HeaderMap,
    name: &http::HeaderName,
    value: http::HeaderValue,
) -> (r: Result<(), String>)
    ensures
        r is Ok ==> contents(*final(headers)) == contents(*old(headers)).insert(
            name_text(*name),
            seq![value_bytes(value)],
        ),
        r matches Err(error) ==> contents(*final(headers)) == contents(*old(headers)) && error@
            == "max size reached"@ && contents(*old(headers)).dom().len() >= roomy_names(),
{
    headers.try_insert(name, value).map(|_previous| ()).map_err(|error| error.to_string())
}

/// Calls `http::HeaderName::from_str`: a valid name is taken in lower case.
#[verifier::external_body]
pub(crate) fn parse_name(text: &str) -> (r: Result<http::HeaderName, String>)
    ensures
        r is Ok <==> is_header_name(text@),
        r matches Ok(name) ==> name_text(name) == crate::text::ascii_lowered(text@),
        r matches Err(error) ==> error@ == "invalid HTTP header name"@,
{
    text.parse::<http::HeaderName>().map_err(|error| error.to_string())
}

/// Calls `http::HeaderValue::from_str`: the value holds the UTF-8 bytes of the text.
#[verifier::external_body]
pub(crate) fn parse_value(text: &str) -> (r: Result<http::HeaderValue, String>)
    ensures
        r is Ok <==> is_header_value(text@),
        r matches Ok(value) ==> value_bytes(value) == vstd::utf8::encode_utf8(text@),
        r matches Err(error) ==> error@ == "failed to parse header value"@,
{
    http::HeaderValue::from_str(text).map_err(|error| error.to_string())
}

/// Calls `http::HeaderValue::as_bytes`.
#[verifier::external_body]
pub(crate) fn value_slice(value: &http::HeaderValue) -> (r: &[u8])
    ensures
        r@ == value_bytes(*value),
{
    value.as_bytes()
}

/// Calls `http::HeaderValue::to_str`: only a value of visible ASCII characters is text.
#[verifier::external_body]
pub(crate) fn value_text(value: &http::HeaderValue) -> (r: Result<String, String>)
    ensures
        r is Ok <==> is_visible(value_bytes(*value)),
        r matches Ok(text) ==> text@ == ascii_text(value_bytes(*value)),
        r matches Err(error) ==> error@ == "failed to convert header to a str"@,
{
    value.to_str().map(|text| text.to_owned()).map_err(|error| error.to_string())
}

/// Calls `http::Method::from_str`: any token is a method, and is kept as it stands.
#[verifier::external_body]
pub(crate) fn parse_method(text: &str) -> (r: Result<String, String>)
    ensures
        r is Ok <==> is_token(text@),
        r matches Ok(method) ==> method@ == text@,
        r matches Err(error) ==> error@ == "invalid HTTP method"@,
{
    text.parse::<http::Method>().map(|method| method.to_string()).map_err(|error| error.to_string())
}

/// Calls `http::StatusCode::from_u16`: a status code has three digits.
#[verifier::external_body]
pub(crate) fn parse_status(code: u16) -> (r: Result<u16, String>)
    ensures
        r is Ok <==> 100 <= code <= 999,
        r matches Ok(status) ==> status == code,
        r matches Err(error) ==> error@ == "invalid status code"@,
{
    http::StatusCode::from_u16(code)
        .map(|status| status.as_u16())
        .map_err(|error| error.to_string())
}

} // verus!
