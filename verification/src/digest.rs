//! Fingerprints of text: MD5 over the UTF-8 bytes, rendered as lower-case hex.

use vstd::prelude::*;
use vstd::string::*;
use vstd::utf8::encode_utf8;

verus! {

/// The number of hex digits in a fingerprint.
pub const FINGERPRINT_LEN: usize = 32;

/// The sixteen bytes that MD5 assigns to a byte string.
pub uninterp spec fn md5_digest(data: Seq<u8>) -> Seq<u8>;

/// Runs `md5::compute` over `data` and returns the bytes of the digest it builds.
/// Trusted: the result is MD5 of exactly these bytes, the same on every call.
#[verifier::external_body]
fn md5_compute(data: &[u8]) -> (out: [u8; 16])
    ensures
        out@ == md5_digest(data@),
{
    md5::compute(data).0
}

/// The sixteen digits of base sixteen, lower case, in order of value.
pub open spec fn digit_chars() -> Seq<char> {
    seq!['0', '1', '2', '3', '4', '5', '6', '7', '8', '9', 'a', 'b', 'c', 'd', 'e', 'f']
}

/// The character that stands for the digit value `d`, for `0 <= d < 16`.
pub open spec fn digit_char(d: int) -> char {
    digit_chars()[d]
}

/// Two hex digits per byte, high nibble first.
pub open spec fn hex_text(bytes: Seq<u8>) -> Seq<char> {
    Seq::new(
        2 * bytes.len(),
        |i: int|
            if i % 2 == 0 {
                digit_char(bytes[i / 2] as int / 16)
            } else {
                digit_char(bytes[i / 2] as int % 16)
            },
    )
}

/// The fingerprint of a text: MD5 of its UTF-8 encoding, as 32 hex digits.
pub open spec fn text_digest(text: Seq<char>) -> Seq<char> {
    hex_text(md5_digest(encode_utf8(text)))
}

/// A one-character string for a digit value.
pub fn digit_str(d: u8) -> (s: &'static str)
    requires
        d < 16,
    ensures
        s@ == seq![digit_char(d as int)],
{
    let s: &'static str = match d {
        0 => "0",
        1 => "1",
        2 => "2",
        3 => "3",
        4 => "4",
        5 => "5",
        6 => "6",
        7 => "7",
        8 => "8",
        9 => "9",
        10 => "a",
        11 => "b",
        12 => "c",
        13 => "d",
        14 => "e",
        _ => "f",
    };
    proof {
        reveal_strlit("0");
        reveal_strlit("1");
        reveal_strlit("2");
        reveal_strlit("3");
        reveal_strlit("4");
        reveal_strlit("5");
        reveal_strlit("6");
        reveal_strlit("7");
        reveal_strlit("8");
        reveal_strlit("9");
        reveal_strlit("a");
        reveal_strlit("b");
        reveal_strlit("c");
        reveal_strlit("d");
        reveal_strlit("e");
        reveal_strlit("f");
        assert(s@ =~= seq![digit_char(d as int)]);
    }
    s
}

/// Renders a digest as lower-case hex.
pub fn to_hex(bytes: &[u8; 16]) -> (out: String)
    ensures
        out@ == hex_text(bytes@),
{
    let mut out = String::new();
    let mut i: usize = 0;
    while i < 16
        invariant
            i <= 16,
            out@ == hex_text(bytes@.take(i as int)),
        decreases 16 - i,
    {
        let b: u8 = bytes[i];
        out.append(digit_str(b / 16));
        out.append(digit_str(b % 16));
        i += 1;
        assert(out@ =~= hex_text(bytes@.take(i as int)));
    }
    assert(bytes@.take(16) =~= bytes@);
    out
}

/// Fingerprints a text.
pub fn digest_text(text: &str) -> (out: String)
    ensures
        out@ == text_digest(text@),
        out@.len() == FINGERPRINT_LEN,
{
    let d = md5_compute(text.as_bytes());
    to_hex(&d)
}

} // verus!
