//! The calls this library makes into other crates and into parts of std that
//! vstd leaves unspecified. Each item here is trusted: its contract states what
//! the called code's source or documentation shows, and nothing more.
use vstd::prelude::*;

verus! {

/// `c` is a lowercase hexadecimal digit.
pub open spec fn is_lower_hex(c: char) -> bool {
    ('0' <= c && c <= '9') || ('a' <= c && c <= 'f')
}

/// The shape of a version-4 UUID in its lowercase hyphenated text form:
/// 36 characters, hyphens at 8, 13, 18 and 23, lowercase hex digits elsewhere,
/// and the version digit `4` at position 14.
pub open spec fn is_v4_uuid_text(s: Seq<char>) -> bool {
    &&& s.len() == 36
    &&& forall|i: int|
        0 <= i < 36 ==> if i == 8 || i == 13 || i == 18 || i == 23 {
            s[i] == '-'
        } else {
            is_lower_hex(#[trigger] s[i])
        }
    &&& s[14] == '4'
}

/// Calls `uuid::Uuid::new_v4` and renders it with `to_string`. The value is
/// random; the contract states only the text form that `new_v4` (which sets
/// the version bits to 4) and the `Display` impl (lowercase hyphenated hex)
/// give every outcome.
#[verifier::external_body]
pub fn new_uuid_string() -> (s: String)
    ensures
        is_v4_uuid_text(s@),
{
    uuid::Uuid::new_v4().to_string()
}

/// What `str::to_lowercase` returns for the characters `s`: the Unicode
/// lowercase mapping, which takes tables to state.
pub uninterp spec fn lowercase(s: Seq<char>) -> Seq<char>;

/// Calls `str::to_lowercase`. The result is a function of the argument alone
/// and is named `lowercase`.
#[verifier::external_body]
pub fn to_lowercase(s: &str) -> (r: String)
    ensures
        r@ == lowercase(s@),
{
    s.to_lowercase()
}

} // verus!

verus! {

/// What `String::from_utf8_lossy` returns for the bytes `b`: their UTF-8
/// decoding, with each invalid sequence replaced by U+FFFD.
pub uninterp spec fn lossy_decode(b: Seq<u8>) -> Seq<char>;

/// Calls `String::from_utf8_lossy`. The result is named `lossy_decode`; for
/// valid UTF-8 the documentation says it is the decoded text.
#[verifier::external_body]
pub fn utf8_lossy(b: &[u8]) -> (s: String)
    ensures
        s@ == lossy_decode(b@),
        vstd::utf8::valid_utf8(b@) ==> s@ == vstd::utf8::decode_utf8(b@),
{
    String::from_utf8_lossy(b).into_owned()
}

} // verus!

verus! {

/// The error type of `base64` decoding.
#[verifier::external_type_specification]
#[verifier::external_body]
pub struct ExDecodeError(base64::DecodeError);

/// What decoding `s` with the `base64` crate's `STANDARD` engine (standard
/// alphabet, canonical padding required) gives: the bytes, or `None` when
/// the engine rejects the input.
pub uninterp spec fn base64_standard_decoded(s: Seq<char>) -> Option<Seq<u8>>;

/// Calls `base64::engine::general_purpose::STANDARD.decode`. Its result is a
/// function of the input alone and is named `base64_standard_decoded`.
#[verifier::external_body]
pub fn base64_decode(input: &str) -> (r: Result<Vec<u8>, base64::DecodeError>)
    ensures
        match r {
            Ok(v) => base64_standard_decoded(input@) == Some(v@),
            Err(_) => base64_standard_decoded(input@) is None,
        },
{
    base64::Engine::decode(&base64::engine::general_purpose::STANDARD, input)
}

/// Renders a `base64::DecodeError` with its `Display` impl. Nothing is
/// claimed of the text.
#[verifier::external_body]
pub fn decode_error_text(e: &base64::DecodeError) -> String {
    format!("{}", e)
}

} // verus!

verus! {

/// A byte that URL encoding leaves as it is: an ASCII letter or digit, or
/// one of `-`, `.`, `_`, `~`.
pub open spec fn is_unreserved_byte(b: u8) -> bool {
    (0x30 <= b && b <= 0x39) || (0x41 <= b && b <= 0x5A) || (0x61 <= b && b <= 0x7A) || b == 0x2D
        || b == 0x2E || b == 0x5F || b == 0x7E
}

/// The uppercase hexadecimal digit for `d < 16`.
pub open spec fn hex_digit_upper(d: u8) -> char {
    if d < 10 {
        (0x30 + d) as char
    } else {
        (0x41 + d - 10) as char
    }
}

/// How URL encoding writes one byte: unchanged when unreserved, else `%`
/// and two uppercase hexadecimal digits.
pub open spec fn percent_encoded_byte(b: u8) -> Seq<char> {
    if is_unreserved_byte(b) {
        seq![b as char]
    } else {
        seq!['%', hex_digit_upper(b / 16), hex_digit_upper(b % 16)]
    }
}

/// The URL encoding of `bytes`, byte by byte.
pub open spec fn percent_encoded(bytes: Seq<u8>) -> Seq<char>
    decreases bytes.len(),
{
    if bytes.len() == 0 {
        Seq::empty()
    } else {
        percent_encoded_byte(bytes[0]) + percent_encoded(bytes.drop_first())
    }
}

/// Calls `urlencoding::encode`, which percent-encodes each byte of the UTF-8
/// text except the unreserved ones, with uppercase hexadecimal digits.
#[verifier::external_body]
pub fn url_encode(s: &str) -> (r: String)
    ensures
        r@ == percent_encoded(vstd::utf8::encode_utf8(s@)),
{
    urlencoding::encode(s).into_owned()
}

} // verus!

verus! {

/// The successive non-overlapping matches of the regular expression
/// `pattern` (with the `regex` crate's syntax, on bytes) in `haystack`, as
/// `captures_iter` yields them: each match's start and end, and where its
/// first group matched if it did (byte offsets). `None` when `pattern` does
/// not compile.
pub uninterp spec fn regex_matches(pattern: Seq<char>, haystack: Seq<u8>) -> Option<
    Seq<(usize, usize, Option<(usize, usize)>)>,
>;

/// Compiles `pattern` with `regex::bytes::Regex::new` and collects the
/// matches of `captures_iter` on `haystack`. The result is a function of
/// the two arguments alone and is named `regex_matches`.
#[verifier::external_body]
pub fn regex_captures(pattern: &str, haystack: &[u8]) -> (r: Option<
    Vec<(usize, usize, Option<(usize, usize)>)>,
>)
    ensures
        match r {
            Some(v) => regex_matches(pattern@, haystack@) == Some(v@),
            None => regex_matches(pattern@, haystack@) is None,
        },
{
    let re = match regex::bytes::Regex::new(pattern) {
        Ok(re) => re,
        Err(_) => return None,
    };
    let mut found = Vec::new();
    for c in re.captures_iter(haystack) {
        let group = match c.get(1) {
            Some(g) => Some((g.start(), g.end())),
            None => None,
        };
        found.push((c.get_match().start(), c.get_match().end(), group));
    }
    Some(found)
}

} // verus!
