//! Base64 and SHA-1, as the `base64` and `sha1` crates compute them.
//!
//! Neither algorithm is restated here. Each gets a name for its result, and
//! the functions below are taken on trust to return what the name stands for.

use vstd::prelude::*;

verus! {

/// What `base64::decode` makes of `input` with the standard alphabet: the
/// decoded bytes, or `None` where it reports an error.
pub uninterp spec fn base64_decoded(input: Seq<u8>) -> Option<Seq<u8>>;

/// The text that `base64::encode` gives for `data`: standard alphabet, padded.
pub uninterp spec fn base64_encoded(data: Seq<u8>) -> Seq<char>;

/// The SHA-1 digest of `data` as the `sha1` crate computes it.
pub uninterp spec fn sha1_digest(data: Seq<u8>) -> Seq<u8>;

/// The longest input that `decode` accepts: four times its length has to fit
/// in a `usize`.
pub open spec fn max_decode_len() -> int {
    (usize::MAX / 4) as int
}

/// The longest input that `sha1` accepts: its length in bits has to fit in a
/// `u64`.
pub open spec fn max_digest_len() -> int {
    (u64::MAX / 8) as int
}

/// `base64::DecodeError`, the reason `base64::decode` gives for a refusal.
/// It is carried, never looked into.
#[verifier::external_type_specification]
#[verifier::external_body]
pub struct ExDecodeError(base64::DecodeError);

/// `base64::decode`. Trusted: the call returns what `base64_decoded` names,
/// `Ok` with the bytes or `Err` where the input is not valid base64. Longer
/// inputs than `max_decode_len` are kept out because the crate sizes its
/// buffer as four thirds of the input length.
#[verifier::external_body]
pub(crate) fn decode(input: &[u8]) -> (res: Result<Vec<u8>, base64::DecodeError>)
    requires
        input@.len() <= max_decode_len(),
    ensures
        match res {
            Ok(bytes) => base64_decoded(input@) == Some(bytes@),
            Err(_) => base64_decoded(input@) is None,
        },
{
    base64::decode(input)
}

/// `base64::encode` on a twenty-byte digest. Trusted: the call returns the
/// text that `base64_encoded` names.
#[verifier::external_body]
pub(crate) fn encode(data: &[u8; 20]) -> (text: String)
    ensures
        text@ == base64_encoded(data@),
{
    base64::encode(data)
}

/// `sha1::Sha1::from`, which hashes `data`, then `digest` and `bytes`, which
/// hand out the result as twenty bytes. Trusted: the call returns the digest
/// that `sha1_digest` names. Longer inputs than `max_digest_len` are kept out
/// because the crate counts the input in bits in a `u64`.
#[verifier::external_body]
pub(crate) fn sha1_of(data: &[u8]) -> (digest: [u8; 20])
    requires
        data@.len() <= max_digest_len(),
    ensures
        digest@ == sha1_digest(data@),
{
    sha1::Sha1::from(data).digest().bytes()
}

} // verus!
