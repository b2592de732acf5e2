//! base64 as the `base64` crate computes it.

use base64::DecodeError;
use vstd::prelude::*;
use vstd::utf8::encode_utf8;

verus! {

/// `base64::DecodeError`, why the decoder refused a text.
#[verifier::external_type_specification]
#[verifier::external_body]
pub struct ExDecodeError(DecodeError);

/// The base64url text of `bytes`: the alphabet with `-` and `_`, no padding.
pub uninterp spec fn base64url_text(bytes: Seq<u8>) -> Seq<char>;

/// What the decoder of the `base64` crate makes of the text `text`, in the
/// alphabet with `-` and `_` where `url_safe`, else in the standard alphabet
/// with `+` and `/`: the bytes that the text stands for, or why it refuses.
pub uninterp spec fn base64_decoded(text: Seq<u8>, url_safe: bool) -> Result<Seq<u8>, DecodeError>;

/// The `Display` text of a refusal of the decoder.
pub uninterp spec fn decode_error_text(error: DecodeError) -> Seq<char>;

/// The bytes that the base64 text `text` stands for, if the decoder takes
/// it.
pub open spec fn base64_bytes(text: Seq<u8>, url_safe: bool) -> Option<Seq<u8>> {
    match base64_decoded(text, url_safe) {
        Ok(bytes) => Some(bytes),
        Err(_) => None,
    }
}

/// Whether a text of this length can be handed to the decoder, which counts
/// in chunks of eight and so adds seven to the length.
pub open spec fn decodable_len(len: nat) -> bool {
    len + 7 <= usize::MAX
}

/// Whether the base64 text of `bytes` has a length that this machine can
/// address and that the decoder can be handed: the condition on which this
/// library writes the text, and on which it can read the text back.
pub open spec fn encodable(bytes: Seq<u8>) -> bool {
    (bytes.len() / 3) * 4 + 10 <= usize::MAX
}

/// `base64::encode_config` with `URL_SAFE_NO_PAD`. The result is a function
/// of the bytes alone, named `base64url_text`. Its length in bytes is the
/// one that `base64::encoded_size` computes, four for every three bytes and
/// up to three more, and the decoder of the crate reads it back as the bytes
/// that went in, to which the crate's own tests hold it. The outside function
/// panics where the length of the text overflows, which `encodable` rules
/// out.
#[verifier::external_body]
pub(crate) fn encode_url_safe(bytes: &[u8]) -> (text: String)
    requires
        encodable(bytes@),
    ensures
        text@ == base64url_text(bytes@),
        encode_utf8(text@).len() <= (bytes@.len() / 3) * 4 + 3,
        base64_bytes(encode_utf8(text@), true) == Some(bytes@),
{
    base64::encode_config(bytes, base64::URL_SAFE_NO_PAD)
}

/// `base64::decode_config` with `URL_SAFE_NO_PAD`. Whether the text is
/// accepted, what it gives and why it is refused is a function of the text
/// alone, named `base64_decoded`. The outside function panics where the
/// length of the text plus seven overflows.
#[verifier::external_body]
pub(crate) fn decode_url_safe(text: &[u8]) -> (res: Result<Vec<u8>, DecodeError>)
    requires
        decodable_len(text@.len()),
    ensures
        match res {
            Ok(bytes) => base64_decoded(text@, true) is Ok && base64_decoded(text@, true)->Ok_0
                == bytes@,
            Err(error) => base64_decoded(text@, true) is Err && base64_decoded(text@, true)->Err_0
                == error,
        },
{
    base64::decode_config(text, base64::URL_SAFE_NO_PAD)
}

/// `base64::decode_config` with `STANDARD`. Whether the text is accepted,
/// what it gives and why it is refused is a function of the text alone,
/// named `base64_decoded`. The outside function panics where the length of
/// the text plus seven overflows.
#[verifier::external_body]
pub(crate) fn decode_standard(text: &[u8]) -> (res: Result<Vec<u8>, DecodeError>)
    requires
        decodable_len(text@.len()),
    ensures
        match res {
            Ok(bytes) => base64_decoded(text@, false) is Ok && base64_decoded(text@, false)->Ok_0
                == bytes@,
            Err(error) => base64_decoded(text@, false) is Err && base64_decoded(text@, false)->Err_0
                == error,
        },
{
    base64::decode_config(text, base64::STANDARD)
}

/// The `Display` text of a `base64::DecodeError`, which is a function of the
/// error alone, named `decode_error_text`.
#[verifier::external_body]
pub(crate) fn decode_error_words(error: &DecodeError) -> (words: String)
    ensures
        words@ == decode_error_text(*error),
{
    error.to_string()
}

} // verus!
