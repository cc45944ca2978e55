//! Text encodings of bytes: base64 in its standard and its URL-safe form,
//! and hexadecimal.

use vstd::prelude::*;

verus! {

/// The longest input that the base64 encoder is given: its output, a third
/// longer, must fit in a `usize` of 32 bits.
pub const MAX_ENCODE_LEN: usize = 0x3000_0000;

/// The standard base64 text of `bytes`, with padding, as `base64::encode`
/// returns it.
pub uninterp spec fn base64_text(bytes: Seq<u8>) -> Seq<char>;

/// The bytes that `base64::decode` reads from `text`, if it accepts it.
pub uninterp spec fn base64_bytes(text: Seq<char>) -> Option<Seq<u8>>;

/// The URL-safe base64 text of `bytes` without padding, as
/// `base64::encode_config` returns it for `URL_SAFE_NO_PAD`.
pub uninterp spec fn base64url_text(bytes: Seq<u8>) -> Seq<char>;

/// Calls `base64::encode`. The result is a function of the input alone and
/// is named, not spelled out. The encoder panics where the output's length
/// overflows, so the input is bounded.
#[verifier::external_body]
pub(crate) fn base64_encode(bytes: &[u8]) -> (text: String)
    requires
        bytes@.len() <= MAX_ENCODE_LEN,
    ensures
        text@ == base64_text(bytes@),
{
    base64::encode(bytes)
}

/// Calls `base64::decode`. The result is named; beside the name stands the
/// one fact that the decoder reads back what the encoder wrote, which the
/// crate documents by example and tests.
#[verifier::external_body]
pub(crate) fn base64_decode(text: &str) -> (out: Option<Vec<u8>>)
    ensures
        out is Some <==> base64_bytes(text@) is Some,
        out matches Some(v) ==> base64_bytes(text@) == Some(v@),
        forall|b: Seq<u8>| out == None::<Vec<u8>> ==> #[trigger] base64_text(b) != text@,
        forall|b: Seq<u8>| out matches Some(v) ==> (#[trigger] base64_text(b) == text@ ==> v@ == b),
{
    base64::decode(text).ok()
}

/// Calls `base64::encode_config` with `URL_SAFE_NO_PAD`. The result is
/// named.
#[verifier::external_body]
pub(crate) fn base64url_encode(bytes: &[u8]) -> (text: String)
    requires
        bytes@.len() <= MAX_ENCODE_LEN,
    ensures
        text@ == base64url_text(bytes@),
{
    base64::encode_config(bytes, base64::URL_SAFE_NO_PAD)
}

/// The value of a hexadecimal digit of either case.
pub open spec fn hex_value(c: char) -> Option<u8> {
    if '0' <= c <= '9' {
        Some((c as u8 - '0' as u8) as u8)
    } else if 'a' <= c <= 'f' {
        Some((c as u8 - 'a' as u8 + 10) as u8)
    } else if 'A' <= c <= 'F' {
        Some((c as u8 - 'A' as u8 + 10) as u8)
    } else {
        None
    }
}

/// The bytes that a hexadecimal text spells, two digits to a byte, the high
/// digit first; `None` for an odd length or a character that is no digit.
pub open spec fn hex_bytes(text: Seq<char>) -> Option<Seq<u8>> {
    if text.len() % 2 != 0 || exists|i: int| 0 <= i < text.len() && hex_value(#[trigger] text[i]) is None {
        None
    } else {
        Some(
            Seq::new(
                text.len() / 2,
                |i: int| (16 * hex_value(text[2 * i])->Some_0 + hex_value(text[2 * i + 1])->Some_0) as u8,
            ),
        )
    }
}

/// Calls `hex::decode`, which reads two digits of either case for each
/// byte and refuses an odd length or any other character.
#[verifier::external_body]
pub(crate) fn hex_decode(text: &str) -> (bytes: Option<Vec<u8>>)
    ensures
        bytes is Some <==> hex_bytes(text@) is Some,
        bytes matches Some(v) ==> hex_bytes(text@) == Some(v@),
{
    hex::decode(text).ok()
}

} // verus!
