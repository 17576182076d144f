//! Text forms of bytes: base64, in which archives travel inside requests,
//! and UTF-8.

use vstd::prelude::*;
use vstd::string::StringSliceAdditionalSpecFns;
use vstd::utf8::decode_utf8;
use vstd::utf8::encode_utf8;
use vstd::utf8::valid_utf8;

verus! {

/// The standard base64 text of `bytes`, padded.
pub uninterp spec fn base64_encoding(bytes: Seq<u8>) -> Seq<char>;

/// The bytes that `text` stands for in standard base64, or `None` for a
/// text that is no such encoding.
pub uninterp spec fn base64_decoding(text: Seq<char>) -> Option<Seq<u8>>;

/// Whether `length` bytes are few enough for their base64 text to have a
/// length that a machine word holds.
pub open spec fn spec_fits_base64(length: nat) -> bool {
    length / 3 * 4 + 4 <= usize::MAX
}

/// Whether a text of `length` bytes is short enough to be decoded.
pub open spec fn spec_fits_decoding(length: nat) -> bool {
    length + 7 <= usize::MAX
}

/// The bytes that `text` stands for in base64, as far as it can be decoded.
pub open spec fn spec_from_base64(text: Seq<char>) -> Option<Seq<u8>> {
    if spec_fits_decoding(encode_utf8(text).len()) {
        base64_decoding(text)
    } else {
        None
    }
}

/// Encodes `bytes` with `base64::encode`. Trusted: the text depends on the
/// bytes alone. The length bound keeps the call from the one input on which
/// it panics, a text too long for a machine word.
#[verifier::external_body]
fn base64_encode(bytes: &[u8]) -> (text: String)
    requires
        spec_fits_base64(bytes@.len()),
    ensures
        text@ == base64_encoding(bytes@),
{
    base64::encode(bytes)
}

/// Decodes `text` with `base64::decode`. Trusted: the outcome depends on the
/// text alone. The length bound keeps the call from the inputs on which it
/// panics while it sizes its buffer.
#[verifier::external_body]
fn base64_decode(text: &str) -> (bytes: Option<Vec<u8>>)
    requires
        spec_fits_decoding(encode_utf8(text@).len()),
    ensures
        bytes is Some <==> base64_decoding(text@) is Some,
        bytes matches Some(decoded) ==> decoded@ == base64_decoding(text@)->Some_0,
{
    base64::decode(text).ok()
}

/// Reads `bytes` as UTF-8 with `String::from_utf8`. Trusted: the call
/// succeeds on valid UTF-8 and on nothing else, and the text holds the
/// characters that the bytes encode.
#[verifier::external_body]
fn utf8_decode(bytes: Vec<u8>) -> (text: Option<String>)
    ensures
        text is Some <==> valid_utf8(bytes@),
        text matches Some(decoded) ==> decoded@ == decode_utf8(bytes@),
{
    String::from_utf8(bytes).ok()
}

/// The base64 text of `bytes`, or `None` when there are too many of them
/// for the text to have a length that a machine word holds.
pub fn to_base64(bytes: &[u8]) -> (text: Option<String>)
    ensures
        text is Some <==> spec_fits_base64(bytes@.len()),
        text matches Some(encoded) ==> encoded@ == base64_encoding(bytes@),
{
    if bytes.len() / 3 <= (usize::MAX - 4) / 4 {
        Some(base64_encode(bytes))
    } else {
        None
    }
}

/// The bytes that `text` stands for in base64, or `None` when it stands for
/// none or is too long to be decoded.
pub fn from_base64(text: &str) -> (bytes: Option<Vec<u8>>)
    ensures
        bytes is Some <==> spec_from_base64(text@) is Some,
        bytes matches Some(decoded) ==> decoded@ == spec_from_base64(text@)->Some_0,
{
    if text.as_bytes().len() <= usize::MAX - 7 {
        base64_decode(text)
    } else {
        None
    }
}

/// The text that `bytes` encode in UTF-8, or `None` when they encode none.
pub fn text_of(bytes: &Vec<u8>) -> (text: Option<String>)
    ensures
        text is Some <==> valid_utf8(bytes@),
        text matches Some(decoded) ==> decoded@ == decode_utf8(bytes@),
{
    utf8_decode(bytes.clone())
}

/// Tells whether two texts hold the same characters.
pub fn same_text(left: &str, right: &str) -> (same: bool)
    ensures
        same == (left@ == right@),
{
    left.to_owned() == right.to_owned()
}

} // verus!
