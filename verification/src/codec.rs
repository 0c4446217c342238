//! Byte encodings used on the queue: base64 bodies and UTF-8 text.
use base64::Engine as _;
use vstd::prelude::*;
use vstd::utf8::*;

verus! {

/// The standard base64 encoding (with padding) of the UTF-8 bytes of `text`.
pub uninterp spec fn base64_of(text: Seq<char>) -> Seq<char>;

/// The bytes that the standard base64 text `text` decodes to, or `None` when
/// it is not valid standard base64.
pub uninterp spec fn base64_decoded(text: Seq<char>) -> Option<Seq<u8>>;

/// The text that `bytes` read as UTF-8 gives, each invalid sequence replaced
/// by U+FFFD.
pub uninterp spec fn lossy_text(bytes: Seq<u8>) -> Seq<char>;

/// `base64::engine::general_purpose::STANDARD.encode`: the padded standard
/// base64 encoding of the body's UTF-8 bytes; four characters for every three
/// bytes begun; `STANDARD.decode` reads it back as exactly those bytes.
#[verifier::external_body]
pub fn encode_base64(body: &str) -> (r: String)
    requires
        encode_utf8(body@).len() < usize::MAX / 2,
    ensures
        r@ == base64_of(body@),
        r@.len() == 4 * ((encode_utf8(body@).len() + 2) / 3),
        base64_decoded(r@) == Some(encode_utf8(body@)),
{
    base64::engine::general_purpose::STANDARD.encode(body)
}

/// `base64::engine::general_purpose::STANDARD.decode`: the decoded bytes, or
/// `None` when the crate reports a `DecodeError`.
#[verifier::external_body]
pub fn decode_base64(text: &str) -> (r: Option<Vec<u8>>)
    ensures
        match r {
            Some(b) => base64_decoded(text@) == Some(b@),
            None => base64_decoded(text@) is None,
        },
{
    base64::engine::general_purpose::STANDARD.decode(text).ok()
}

/// `String::from_utf8_lossy`: the bytes read as UTF-8; valid UTF-8 reads as
/// exactly the text it encodes.
#[verifier::external_body]
pub fn utf8_lossy(bytes: &[u8]) -> (r: String)
    ensures
        r@ == lossy_text(bytes@),
        valid_utf8(bytes@) ==> r@ == decode_utf8(bytes@),
{
    String::from_utf8_lossy(bytes).into_owned()
}

} // verus!
