//! The P-256 operations behind VAPID, over plain bytes.
//!
//! A secret key is the big-endian encoding of its scalar in 32 bytes.

use p256::ecdsa::signature::{Signer, Verifier};
use p256::elliptic_curve::sec1::ToEncodedPoint;
use vstd::prelude::*;

verus! {

/// The number that `bytes` writes, most significant byte first.
pub open spec fn big_endian(bytes: Seq<u8>) -> nat
    decreases bytes.len(),
{
    if bytes.len() == 0 {
        0
    } else {
        big_endian(bytes.drop_last()) * 256 + bytes.last() as nat
    }
}

/// The order of the P-256 group.
pub open spec fn group_order() -> nat {
    0xffffffff00000000ffffffffffffffffbce6faada7179e84f3b9cac2fc632551nat
}

/// Whether `bytes` is the 32-byte encoding of a P-256 secret scalar.
pub open spec fn is_scalar(bytes: Seq<u8>) -> bool {
    &&& bytes.len() == 32
    &&& 0 < big_endian(bytes) < group_order()
}

/// Whether `p256` reads `raw` as a secret scalar: it allows for up to eight
/// leading zero bytes to be missing.
pub open spec fn is_raw_scalar(raw: Seq<u8>) -> bool {
    &&& 24 <= raw.len() <= 32
    &&& 0 < big_endian(raw) < group_order()
}

/// `raw` with the zero bytes in front that bring it to 32 bytes.
pub open spec fn padded(raw: Seq<u8>) -> Seq<u8> {
    Seq::new((32 - raw.len()) as nat, |i: int| 0u8) + raw
}

/// The uncompressed SEC1 encoding of the public point of the secret `scalar`.
pub uninterp spec fn public_point(scalar: Seq<u8>) -> Seq<u8>;

/// The deterministic ECDSA signature of `message` under the secret `scalar`, as
/// `r` followed by `s`; `None` where `r` or `s` comes out as zero.
pub uninterp spec fn ecdsa_signature(scalar: Seq<u8>, message: Seq<u8>) -> Option<Seq<u8>>;

/// Whether the public key at `point` accepts `signature`, `r` followed by `s`, for
/// `message`. It does not where either of the two is malformed.
pub uninterp spec fn signature_verifies(
    point: Seq<u8>,
    message: Seq<u8>,
    signature: Seq<u8>,
) -> bool;

/// `p256::SecretKey::from_slice`, with the key handed on as its 32 bytes. The
/// call accepts 24 to 32 bytes that write a number between zero and the group
/// order, both excluded, and pads them with zeros in front. Its one error reads
/// `crypto error`.
#[verifier::external_body]
pub(crate) fn parse_scalar(raw: &[u8]) -> (r: Result<Vec<u8>, String>)
    ensures
        match r {
            Ok(scalar) => is_raw_scalar(raw@) && scalar@ == padded(raw@),
            Err(fault) => !is_raw_scalar(raw@) && fault@ == "crypto error"@,
        },
{
    p256::SecretKey::from_slice(raw).map(|k| k.to_bytes().to_vec()).map_err(|e| e.to_string())
}

/// `p256::SecretKey::random` on the operating system's generator, with the key
/// handed on as its 32 bytes. Every outcome is a secret scalar; which one is
/// left to chance.
#[verifier::external_body]
pub(crate) fn random_scalar() -> (scalar: Vec<u8>)
    ensures
        is_scalar(scalar@),
{
    p256::SecretKey::random(&mut p256::elliptic_curve::rand_core::OsRng).to_bytes().to_vec()
}

/// `p256::SecretKey::public_key`, with the point handed on in its uncompressed
/// encoding: 65 bytes, the first of them 4. Beyond that the point is only named.
#[verifier::external_body]
pub(crate) fn derive_public_point(scalar: &[u8]) -> (point: Vec<u8>)
    requires
        is_scalar(scalar@),
    ensures
        point@ == public_point(scalar@),
        point@.len() == 65,
        point@[0] == 4,
{
    let secret = p256::SecretKey::from_slice(scalar).unwrap();
    secret.public_key().to_encoded_point(false).as_bytes().to_vec()
}

/// `Signer::try_sign` of `p256::ecdsa::SigningKey`, with the signature handed on
/// as its 64 bytes. The nonce is derived from the key and the message
/// (RFC 6979), so the outcome depends on the arguments alone. A signature is one
/// that the matching public key accepts.
#[verifier::external_body]
pub(crate) fn sign(scalar: &[u8], message: &[u8]) -> (signature: Option<Vec<u8>>)
    requires
        is_scalar(scalar@),
    ensures
        match signature {
            Some(s) => {
                &&& ecdsa_signature(scalar@, message@) == Some(s@)
                &&& s@.len() == 64
                &&& signature_verifies(public_point(scalar@), message@, s@)
            },
            None => ecdsa_signature(scalar@, message@) is None,
        },
{
    let key = p256::ecdsa::SigningKey::from_slice(scalar).unwrap();
    let signature: Result<p256::ecdsa::Signature, _> = key.try_sign(message);
    signature.ok().map(|s| s.to_bytes().to_vec())
}

/// `Verifier::verify` of `p256::ecdsa::VerifyingKey`, on a key that
/// `VerifyingKey::from_sec1_bytes` reads and a signature that
/// `Signature::from_slice` reads. The outcome is a function of the three
/// arguments, false where a key or a signature cannot be read; beyond that it is
/// only named.
#[verifier::external_body]
pub(crate) fn verify(point: &[u8], message: &[u8], signature: &[u8]) -> (accepted: bool)
    ensures
        accepted == signature_verifies(point@, message@, signature@),
{
    let key = match p256::ecdsa::VerifyingKey::from_sec1_bytes(point) {
        Ok(key) => key,
        Err(_) => return false,
    };
    match p256::ecdsa::Signature::from_slice(signature) {
        Ok(signature) => key.verify(message, &signature).is_ok(),
        Err(_) => false,
    }
}

/// A full-length scalar is read as it is.
pub(crate) proof fn lemma_full_length_is_kept(raw: Seq<u8>)
    requires
        raw.len() == 32,
    ensures
        is_raw_scalar(raw) <==> is_scalar(raw),
        padded(raw) == raw,
{
    assert(padded(raw) =~= raw);
}

/// A secret scalar has 32 bytes and is a number from one up to the order of the
/// P-256 group, which is left out. Bytes are read from the most significant one on.
pub proof fn law_secret_scalars(bytes: Seq<u8>, last: u8)
    ensures
        is_scalar(bytes) <==> bytes.len() == 32 && 1 <= big_endian(bytes)
            < 115792089210356248762697446949407573529996955224135760342422259061068512044369int,
        big_endian(Seq::empty()) == 0,
        big_endian(bytes.push(last)) == 256 * big_endian(bytes) + last,
{
    assert(bytes.push(last).drop_last() =~= bytes);
}

} // verus!
