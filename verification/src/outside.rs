//! Calls into outside crates (regex, chrono, encoding_rs, rand, urlencoding) and into std functions that vstd gives
//! no specification. Each item here is trusted: its contract is believed, not proved.
use vstd::prelude::*;
use crate::json::opt_str_view;
use crate::text::is_ascii_alphanumeric;
use crate::numbers::digit_char;

verus! {

/// What group 1 of the first match of the regular expression `pattern` in `text` holds,
/// when `pattern` compiles and matches.
pub uninterp spec fn spec_regex_group1(pattern: Seq<char>, text: Seq<char>) -> Option<Seq<char>>;

/// `text` with every match of the regular expression `pattern` removed (`text` itself when
/// `pattern` does not compile).
pub uninterp spec fn spec_regex_remove_all(pattern: Seq<char>, text: Seq<char>) -> Seq<char>;

/// What `str::to_lowercase` gives (Unicode lowercase mapping).
pub uninterp spec fn spec_lowercase(s: Seq<char>) -> Seq<char>;

/// What chrono renders as "%Y-%m-%d %H:%M:%S UTC" for the UTC instant `secs` seconds after
/// the Unix epoch, when that instant is within chrono's range.
pub uninterp spec fn spec_utc_text(secs: i64) -> Option<Seq<char>>;

/// What `encoding_rs::GBK.decode` gives for `bytes`: a UTF-8 or UTF-16 byte-order mark at the
/// start switches to that encoding, otherwise GBK; malformed input becomes U+FFFD.
pub uninterp spec fn spec_gbk_decode(bytes: Seq<u8>) -> Seq<char>;

/// Calls `regex::Regex::new(pattern)` and `Regex::captures(text)`, and copies capture group 1.
/// The contract only names the result: it is the same for the same pattern and text. Which
/// text a pattern matches is regex's semantics and is not restated here.
#[verifier::external_body]
pub(crate) fn regex_group1(pattern: &str, text: &str) -> (r: Option<String>)
    ensures
        opt_str_view(r) == spec_regex_group1(pattern@, text@),
{
    let re = match regex::Regex::new(pattern) {
        Ok(re) => re,
        Err(_) => return None,
    };
    match re.captures(text) {
        Some(caps) => caps.get(1).map(|m| m.as_str().to_string()),
        None => None,
    }
}

/// Calls `regex::Regex::new(pattern)` and `Regex::replace_all(text, "")`. The contract only
/// names the result, as for `regex_group1`.
#[verifier::external_body]
pub(crate) fn regex_remove_all(pattern: &str, text: &str) -> (r: String)
    ensures
        r@ == spec_regex_remove_all(pattern@, text@),
{
    match regex::Regex::new(pattern) {
        Ok(re) => re.replace_all(text, "").into_owned(),
        Err(_) => text.to_string(),
    }
}

/// Calls `str::to_lowercase`. The contract names the result; the Unicode case tables are
/// not restated.
#[verifier::external_body]
pub(crate) fn to_lowercase(s: &str) -> (r: String)
    ensures
        r@ == spec_lowercase(s@),
{
    s.to_lowercase()
}

/// Calls chrono's `DateTime::from_timestamp(secs, 0)` and formats the instant as
/// "%Y-%m-%d %H:%M:%S UTC". The contract names the result; chrono's calendar is not restated.
#[verifier::external_body]
pub(crate) fn utc_text(secs: i64) -> (r: Option<String>)
    ensures
        opt_str_view(r) == spec_utc_text(secs),
{
    match chrono::DateTime::from_timestamp(secs, 0) {
        Some(dt) => Some(dt.format("%Y-%m-%d %H:%M:%S UTC").to_string()),
        None => None,
    }
}

/// Calls `std::str::from_utf8`: it succeeds exactly on valid UTF-8 and then decodes it.
#[verifier::external_body]
pub(crate) fn utf8_text(bytes: &[u8]) -> (r: Option<String>)
    ensures
        r is Some <==> vstd::utf8::valid_utf8(bytes@),
        r matches Some(s) ==> s@ == vstd::utf8::decode_utf8(bytes@),
{
    match std::str::from_utf8(bytes) {
        Ok(s) => Some(s.to_string()),
        Err(_) => None,
    }
}

/// Calls `encoding_rs::GBK.decode(bytes)` (which sniffs a byte-order mark first) and keeps the
/// text. The contract names the result; the decoding tables are not restated.
#[verifier::external_body]
pub(crate) fn gbk_text(bytes: &[u8]) -> (r: String)
    ensures
        r@ == spec_gbk_decode(bytes@),
{
    let (text, _, _) = encoding_rs::GBK.decode(bytes);
    text.into_owned()
}

/// Draws one byte from rand's `Alphanumeric` distribution with the thread-local generator and
/// turns it into a `char`. rand's source draws from the 62 characters A-Z, a-z and 0-9; which
/// one comes is chance, so only that is stated.
#[verifier::external_body]
pub(crate) fn random_alphanumeric() -> (c: char)
    ensures
        is_ascii_alphanumeric(c),
{
    char::from(rand::Rng::sample(&mut rand::thread_rng(), rand::distributions::Alphanumeric))
}

/// Draws an integer of `lo..=hi` with `rand::Rng::gen_range` on the thread-local generator
/// (which panics on an empty range). Which value comes is chance; only the range is stated.
#[verifier::external_body]
pub(crate) fn random_in_range(lo: u64, hi: u64) -> (r: u64)
    requires
        lo <= hi,
    ensures
        lo <= r <= hi,
{
    rand::Rng::gen_range(&mut rand::thread_rng(), lo..=hi)
}

/// A byte that urlencoding leaves as it is: an ASCII letter or digit, `-`, `.`, `_` or `~`.
pub open spec fn url_unreserved(b: u8) -> bool {
    ||| (0x30 <= b && b <= 0x39)
    ||| (0x41 <= b && b <= 0x5a)
    ||| (0x61 <= b && b <= 0x7a)
    ||| b == 0x2d || b == 0x2e || b == 0x5f || b == 0x7e
}

/// An upper-case hexadecimal digit for `d` (0..16).
pub open spec fn upper_hex_digit(d: int) -> char {
    if d < 10 { digit_char(d) } else { ((d - 10) + 0x41) as char }
}

/// How one byte is written in a percent-encoded text.
pub open spec fn url_encode_byte(b: u8) -> Seq<char> {
    if url_unreserved(b) {
        seq![b as char]
    } else {
        seq!['%', upper_hex_digit(b as int / 16), upper_hex_digit(b as int % 16)]
    }
}

/// The percent-encoding of the bytes `b`, byte by byte.
pub open spec fn spec_url_encode_bytes(b: Seq<u8>) -> Seq<char>
    decreases b.len(),
{
    if b.len() == 0 {
        seq![]
    } else {
        spec_url_encode_bytes(b.drop_last()) + url_encode_byte(b.last())
    }
}

/// The percent-encoding of the UTF-8 bytes of `s`.
pub open spec fn spec_url_encode(s: Seq<char>) -> Seq<char> {
    spec_url_encode_bytes(vstd::utf8::encode_utf8(s))
}

/// Calls `urlencoding::encode(s)`. As its source and documentation show, it percent-encodes
/// every byte of the UTF-8 text except ASCII letters, digits, `-`, `.`, `_` and `~`, writing
/// `%` and two upper-case hexadecimal digits.
#[verifier::external_body]
pub(crate) fn url_encode(s: &str) -> (r: String)
    ensures
        r@ == spec_url_encode(s@),
{
    urlencoding::encode(s).into_owned()
}

} // verus!
