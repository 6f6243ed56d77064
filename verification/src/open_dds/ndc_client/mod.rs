//! What the engine exchanges with data connectors.

use vstd::prelude::*;
use vstd::string::*;

use crate::json::JsonValue;

pub mod models;

verus! {

/// The error a data connector answers with.
#[derive(Debug, PartialEq)]
pub struct ErrorResponse {
    /// A human-readable summary of the error
    pub message: String,
    /// Any additional structured information about the error
    pub details: JsonValue,
}

/// Whether `application/x-www-form-urlencoded` keeps a byte as it is:
/// `*`, `-`, `.`, `_`, ASCII digits and ASCII letters.
pub open spec fn form_unchanged(b: u8) -> bool {
    b == 42 || b == 45 || b == 46 || b == 95 || (48 <= b <= 57) || (65 <= b <= 90) || (97
        <= b <= 122)
}

/// The upper-case hexadecimal digit of a number below sixteen.
pub open spec fn hex_upper(d: int) -> char {
    if d < 10 {
        (48 + d) as char
    } else {
        (55 + d) as char
    }
}

/// How one byte is written: kept, `+` for a space, else `%` and two
/// upper-case hexadecimal digits.
pub open spec fn form_encode_byte(b: u8) -> Seq<char> {
    if form_unchanged(b) {
        seq![b as char]
    } else if b == 32 {
        seq!['+']
    } else {
        seq!['%', hex_upper(b as int / 16), hex_upper(b as int % 16)]
    }
}

/// The `application/x-www-form-urlencoded` form of a byte string.
pub open spec fn form_urlencoded(bytes: Seq<u8>) -> Seq<char>
    decreases bytes.len(),
{
    if bytes.len() == 0 {
        Seq::empty()
    } else {
        form_encode_byte(bytes[0]) + form_urlencoded(bytes.drop_first())
    }
}

/// Calls `url::form_urlencoded::byte_serialize` on the UTF-8 bytes of `s`
/// and joins the pieces it yields. Its source writes each byte of
/// `*-._0-9A-Za-z` as it is, a space as `+`, and every other byte as `%`
/// followed by two upper-case hexadecimal digits; the contract states that.
#[verifier::external_body]
fn form_urlencode_str(s: &str) -> (r: String)
    ensures
        r@ == form_urlencoded(s.spec_bytes()),
{
    url::form_urlencoded::byte_serialize(s.as_bytes()).collect()
}

/// Encodes a string for use in a URL query or form body.
pub fn urlencode(s: &str) -> (r: String)
    ensures
        r@ == form_urlencoded(s.spec_bytes()),
{
    form_urlencode_str(s)
}

} // verus!
