//! Parts of HTTP requests: headers, connection URLs and percent-encoded texts.
use vstd::prelude::*;
use vstd::utf8::*;

verus! {

/// The value of a header, `hyper::http::HeaderValue`.
#[verifier::external_type_specification]
#[verifier::external_body]
pub struct ExHeaderValue(hyper::http::HeaderValue);

/// The headers of a request, `hyper::HeaderMap`.
#[verifier::external_type_specification]
#[verifier::external_body]
#[verifier::reject_recursive_types(T)]
pub struct ExHeaderMap<T>(hyper::HeaderMap<T>);

/// The bytes of a header value.
pub uninterp spec fn header_value_bytes(value: hyper::http::HeaderValue) -> Seq<u8>;

/// The first value under each name, in lower case, that headers hold.
pub uninterp spec fn header_contents(
    headers: hyper::HeaderMap<hyper::http::HeaderValue>,
) -> Map<Seq<char>, Seq<u8>>;

/// Whether a name consists of lower-case letters and hyphens, and is not too long.
pub open spec fn is_plain_name(name: Seq<char>) -> bool {
    &&& 0 < name.len() <= 64
    &&& forall|i: int|
        0 <= i < name.len() ==> ('a' <= #[trigger] name[i] && name[i] <= 'z') || name[i] == '-'
}

/// Calls `hyper::HeaderMap::get`: the first value under a name, where there is one.
#[verifier::external_body]
pub(crate) fn header_get<'a>(
    headers: &'a hyper::HeaderMap<hyper::http::HeaderValue>,
    name: &str,
) -> (r: Option<&'a hyper::http::HeaderValue>)
    requires
        is_plain_name(name@),
    ensures
        match r {
            Some(value) => header_contents(*headers).dom().contains(name@)
                && header_value_bytes(*value) == header_contents(*headers)[name@],
            None => !header_contents(*headers).dom().contains(name@),
        },
{
    headers.get(name)
}

/// Calls `hyper::http::HeaderValue::as_bytes`: the bytes of a value.
#[verifier::external_body]
pub(crate) fn header_bytes(value: &hyper::http::HeaderValue) -> (r: &[u8])
    ensures
        r@ == header_value_bytes(*value),
{
    value.as_bytes()
}

/// Whether a byte is a visible ASCII character, a space or a tab.
pub open spec fn is_visible_ascii(b: u8) -> bool {
    (32 <= b && b < 127) || b == 9
}

/// Whether all bytes are visible.
pub open spec fn all_visible(s: Seq<u8>) -> bool {
    forall|i: int| 0 <= i < s.len() ==> is_visible_ascii(#[trigger] s[i])
}

/// ASCII characters as a text.
pub open spec fn ascii_text(s: Seq<u8>) -> Seq<char> {
    Seq::new(s.len(), |i: int| s[i] as char)
}

/// Calls `hyper::http::HeaderValue::to_str`: the value as a text, where all its bytes are
/// visible ASCII characters.
#[verifier::external_body]
pub(crate) fn header_to_str(value: &hyper::http::HeaderValue) -> (r: Option<String>)
    ensures
        match r {
            Some(t) => all_visible(header_value_bytes(*value)) && t@ == ascii_text(
                header_value_bytes(*value),
            ),
            None => !all_visible(header_value_bytes(*value)),
        },
{
    match value.to_str() {
        Ok(t) => Some(t.to_string()),
        Err(_) => None,
    }
}

/// The parts of a URL that matter for a connection.
pub struct ConnectionUrl {
    pub scheme: String,
    /// The segments of the path; none where it does not begin with a slash.
    pub path_segments: Option<Vec<String>>,
    /// Percent-encoded.
    pub username: String,
    /// Percent-encoded.
    pub password: Option<String>,
    pub host: Option<String>,
    /// The keys and values of the query, decoded, in order.
    pub query_pairs: Vec<(String, String)>,
}

/// The parts of a URL as mathematical values.
pub struct UrlModel {
    pub scheme: Seq<char>,
    pub path_segments: Option<Seq<Seq<char>>>,
    pub username: Seq<char>,
    pub password: Option<Seq<char>>,
    pub host: Option<Seq<char>>,
    pub query_pairs: Seq<(Seq<char>, Seq<char>)>,
}

/// A text that may be missing.
pub open spec fn optional_text(t: Option<String>) -> Option<Seq<char>> {
    match t {
        Some(t) => Some(t@),
        None => None,
    }
}

/// The texts of a list.
pub open spec fn texts(s: Seq<String>) -> Seq<Seq<char>> {
    Seq::new(s.len(), |i: int| s[i]@)
}

/// The keys and values of a list.
pub open spec fn pairs(s: Seq<(String, String)>) -> Seq<(Seq<char>, Seq<char>)> {
    Seq::new(s.len(), |i: int| (s[i].0@, s[i].1@))
}

impl View for ConnectionUrl {
    type V = UrlModel;

    open spec fn view(&self) -> UrlModel {
        UrlModel {
            scheme: self.scheme@,
            path_segments: match self.path_segments {
                Some(segments) => Some(texts(segments@)),
                None => None,
            },
            username: self.username@,
            password: optional_text(self.password),
            host: optional_text(self.host),
            query_pairs: pairs(self.query_pairs@),
        }
    }
}

/// What `url::Url::parse` makes of a text: the parts of the URL, or what is wrong with it.
pub uninterp spec fn url_parts(text: Seq<char>) -> Result<UrlModel, Seq<char>>;

/// Calls `url::Url::parse`, and reads the parts of the URL with `scheme`, `path_segments`,
/// `username`, `password`, `host_str` and `query_pairs`.  Claimed is that they depend on the
/// text alone.
#[verifier::external_body]
pub(crate) fn parse_url(text: &str) -> (r: Result<ConnectionUrl, String>)
    ensures
        match r {
            Ok(url) => url_parts(text@) == Ok::<UrlModel, Seq<char>>(url@),
            Err(e) => url_parts(text@) == Err::<UrlModel, Seq<char>>(e@),
        },
{
    let u = url::Url::parse(text).map_err(|e| e.to_string())?;
    Ok(
        ConnectionUrl {
            scheme: u.scheme().to_string(),
            path_segments: u.path_segments().map(|s| s.map(String::from).collect()),
            username: u.username().to_string(),
            password: u.password().map(String::from),
            host: u.host_str().map(String::from),
            query_pairs: u.query_pairs().map(|(k, v)| (k.into_owned(), v.into_owned())).collect(),
        },
    )
}

/// The number that a hexadecimal digit stands for.
pub open spec fn hex_digit(b: u8) -> Option<u8> {
    if 48 <= b && b <= 57 {
        Some((b - 48) as u8)
    } else if 65 <= b && b <= 70 {
        Some((b - 55) as u8)
    } else if 97 <= b && b <= 102 {
        Some((b - 87) as u8)
    } else {
        None
    }
}

/// Bytes with each percent sign and the two hexadecimal digits behind it replaced by the byte
/// that they stand for; other percent signs stay.
pub open spec fn percent_decoded(s: Seq<u8>) -> Seq<u8>
    decreases s.len(),
{
    if s.len() == 0 {
        s
    } else if s[0] == 37 && s.len() >= 3 && hex_digit(s[1]) is Some && hex_digit(s[2]) is Some {
        seq![(hex_digit(s[1])->0 * 16 + hex_digit(s[2])->0) as u8] + percent_decoded(s.skip(3))
    } else {
        seq![s[0]] + percent_decoded(s.skip(1))
    }
}

/// Calls `urlencoding::decode_binary`: percent-decodes bytes.
#[verifier::external_body]
pub(crate) fn decode_binary(data: &[u8]) -> (r: Vec<u8>)
    ensures
        r@ == percent_decoded(data@),
{
    urlencoding::decode_binary(data).into_owned()
}

/// What `std::string::FromUtf8Error` says of bytes that are not UTF-8.
pub uninterp spec fn utf8_error_text(bytes: Seq<u8>) -> Seq<char>;

/// Calls `urlencoding::decode`: percent-decodes a text, unless what comes out is not UTF-8.
#[verifier::external_body]
pub(crate) fn decode(data: &str) -> (r: Result<String, String>)
    ensures
        ({
            let bytes = percent_decoded(encode_utf8(data@));
            match r {
                Ok(t) => valid_utf8(bytes) && t@ == decode_utf8(bytes),
                Err(e) => !valid_utf8(bytes) && e@ == utf8_error_text(bytes),
            }
        }),
{
    match urlencoding::decode(data) {
        Ok(t) => Ok(t.into_owned()),
        Err(e) => Err(e.to_string()),
    }
}

/// Bytes without a percent sign are not changed by percent-decoding.
pub proof fn unescaped_bytes_are_kept(s: Seq<u8>)
    requires
        forall|i: int| 0 <= i < s.len() ==> #[trigger] s[i] != 37,
    ensures
        percent_decoded(s) == s,
    decreases s.len(),
{
    if s.len() > 0 {
        assert(s[0] != 37);
        assert forall|i: int| 0 <= i < s.skip(1).len() implies #[trigger] s.skip(1)[i] != 37 by {
            assert(s[i + 1] != 37);
        }
        unescaped_bytes_are_kept(s.skip(1));
        assert(seq![s[0]] + s.skip(1) =~= s);
    }
}

/// The visible bytes are the tab and those from the space to the tilde.
pub proof fn visible_bytes_are_printable(b: u8)
    ensures
        is_visible_ascii(b) <==> b == 9 || 0x20 <= b <= 0x7e,
{
}

/// A hexadecimal digit is one of ten figures, or one of six letters in either case.
pub proof fn hex_digits_have_either_case(b: u8, v: u8)
    ensures
        hex_digit(b) == Some(v) <==> (v < 10 && b == 0x30 + v) || (10 <= v < 16 && (b == 0x41 + (v
            - 10) || b == 0x61 + (v - 10))),
{
}

/// A percent sign and two hexadecimal digits stand for the byte with that number, wherever they
/// come in otherwise unescaped bytes; what follows is decoded on its own.
pub proof fn escapes_stand_for_their_byte(before: Seq<u8>, hi: u8, lo: u8, rest: Seq<u8>)
    requires
        forall|i: int| 0 <= i < before.len() ==> #[trigger] before[i] != 37,
        hex_digit(hi) is Some,
        hex_digit(lo) is Some,
    ensures
        percent_decoded(before + seq![37u8, hi, lo] + rest) == before + seq![
            (hex_digit(hi)->0 * 16 + hex_digit(lo)->0) as u8,
        ] + percent_decoded(rest),
    decreases before.len(),
{
    let s = before + seq![37u8, hi, lo] + rest;
    let byte = (hex_digit(hi)->0 * 16 + hex_digit(lo)->0) as u8;
    if before.len() == 0 {
        assert(s.skip(3) =~= rest);
        assert(s[0] == 37 && s[1] == hi && s[2] == lo);
        assert(before + seq![byte] + percent_decoded(rest) =~= seq![byte] + percent_decoded(rest));
    } else {
        let tail = before.skip(1);
        assert(before[0] != 37);
        assert(s.skip(1) =~= tail + seq![37u8, hi, lo] + rest);
        assert forall|i: int| 0 <= i < tail.len() implies #[trigger] tail[i] != 37 by {
            assert(before[i + 1] != 37);
        }
        escapes_stand_for_their_byte(tail, hi, lo, rest);
        assert(s[0] == before[0]);
        assert(seq![before[0]] + (tail + seq![byte] + percent_decoded(rest)) =~= before + seq![
            byte,
        ] + percent_decoded(rest));
    }
}

/// A percent sign that two hexadecimal digits do not follow stays.
pub proof fn lone_percent_signs_stay(rest: Seq<u8>)
    requires
        rest.len() < 2 || hex_digit(rest[0]) is None || hex_digit(rest[1]) is None,
    ensures
        percent_decoded(seq![37u8] + rest) == seq![37u8] + percent_decoded(rest),
{
    let s = seq![37u8] + rest;
    assert(s.skip(1) =~= rest);
    if rest.len() >= 2 {
        assert(s[1] == rest[0] && s[2] == rest[1]);
    }
}

} // verus!
