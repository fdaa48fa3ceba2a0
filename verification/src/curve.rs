//! The calls into `secp256k1`, `bitcoin_hashes` and `rand`, each with what is
//! taken on trust about it, and the names under which the rest of the
//! library speaks of their results.

use vstd::prelude::*;

verus! {

/// A context of the curve library that can verify signatures. It holds the
/// library's precomputed tables and nothing that a result depends on.
#[verifier::external_body]
pub struct VerifyContext {
    inner: secp256k1::Secp256k1<secp256k1::VerifyOnly>,
}

impl VerifyContext {
    /// A fresh context.
    pub fn new() -> Self {
        verification_context()
    }
}

impl Clone for VerifyContext {
    fn clone(&self) -> Self {
        cloned_context(self)
    }
}

/// The SHA-256 digest of `data`.
pub uninterp spec fn sha256_digest(data: Seq<u8>) -> Seq<u8>;

/// Whether `sig` is the 64-byte compact encoding of an ECDSA signature.
pub uninterp spec fn compact_signature_valid(sig: Seq<u8>) -> bool;

/// The compact encoding of the signature that the DER encoding `sig` holds,
/// or `None` where `sig` is not DER for a signature.
pub uninterp spec fn der_signature(sig: Seq<u8>) -> Option<Seq<u8>>;

/// Whether `key` is the serialisation of a point on the curve.
pub uninterp spec fn public_key_valid(key: Seq<u8>) -> bool;

/// Whether the compact signature `sig` is a valid ECDSA signature of the
/// 32-byte message `digest` under the public key `key`.
pub uninterp spec fn ecdsa_valid(digest: Seq<u8>, sig: Seq<u8>, key: Seq<u8>) -> bool;

/// What the curve library takes as a message: 32 bytes that are not all zero.
pub open spec fn message_valid(digest: Seq<u8>) -> bool {
    digest.len() == 32 && exists|i: int| 0 <= i < 32 && #[trigger] digest[i] != 0
}

/// Calls `Secp256k1::verification_only`, which allocates a context that can
/// verify signatures. Nothing is claimed of it.
#[verifier::external_body]
pub(crate) fn verification_context() -> VerifyContext {
    VerifyContext { inner: secp256k1::Secp256k1::verification_only() }
}

/// Calls `Clone::clone` on the curve library's context, which copies its
/// tables. Nothing is claimed of the copy.
#[verifier::external_body]
pub(crate) fn cloned_context(context: &VerifyContext) -> VerifyContext {
    VerifyContext { inner: context.inner.clone() }
}

/// Calls `sha256::Hash::hash` of `bitcoin_hashes`. The digest is a function
/// of the data alone and has 32 bytes.
#[verifier::external_body]
pub(crate) fn sha256(data: &[u8]) -> (digest: [u8; 32])
    ensures
        digest@ == sha256_digest(data@),
{
    let digest = <bitcoin_hashes::sha256::Hash as bitcoin_hashes::Hash>::hash(data);
    bitcoin_hashes::Hash::into_inner(digest)
}

/// Calls `Signature::from_compact` and says whether it took the bytes, which
/// is a function of the bytes alone.
#[verifier::external_body]
pub(crate) fn signature_parses(sig: &[u8]) -> (ok: bool)
    ensures
        ok == compact_signature_valid(sig@),
{
    secp256k1::Signature::from_compact(sig).is_ok()
}

/// Calls `Signature::from_der` and hands the signature back in compact form
/// (`serialize_compact`), or `None` where the bytes are not DER for a
/// signature. Which of the two, and the 64 bytes, are a function of the
/// input alone.
#[verifier::external_body]
pub(crate) fn signature_from_der(sig: &[u8]) -> (r: Option<[u8; 64]>)
    ensures
        match r {
            Some(c) => der_signature(sig@) == Some(c@),
            None => der_signature(sig@) is None,
        },
{
    match secp256k1::Signature::from_der(sig) {
        Ok(signature) => Some(signature.serialize_compact()),
        Err(_) => None,
    }
}

/// Calls `PublicKey::from_slice` and says whether it took the bytes, which
/// is a function of the bytes alone.
#[verifier::external_body]
pub(crate) fn public_key_parses(key: &[u8]) -> (ok: bool)
    ensures
        ok == public_key_valid(key@),
{
    secp256k1::PublicKey::from_slice(key).is_ok()
}

/// Parses the three values (`Message::from_slice`, `Signature::from_compact`,
/// `PublicKey::from_slice`) and calls `Secp256k1::verify` on them. Under the
/// precondition all three parse, and the answer is a function of the three
/// byte strings alone.
#[verifier::external_body]
pub(crate) fn ecdsa_verifies(
    secp: &VerifyContext,
    digest: &[u8],
    sig: &[u8],
    key: &[u8],
) -> (ok: bool)
    requires
        message_valid(digest@),
        compact_signature_valid(sig@),
        public_key_valid(key@),
    ensures
        ok == ecdsa_valid(digest@, sig@, key@),
{
    match (
        secp256k1::Message::from_slice(digest),
        secp256k1::Signature::from_compact(sig),
        secp256k1::PublicKey::from_slice(key),
    ) {
        (Ok(m), Ok(s), Ok(k)) => secp.inner.verify(&m, &s, &k).is_ok(),
        _ => false,
    }
}

/// Calls `rand::random` for 32 bytes from the thread's generator. Nothing is
/// claimed of them.
#[verifier::external_body]
pub(crate) fn random_bytes() -> [u8; 32] {
    rand::random()
}

/// Whether `digest` is a message for the curve library: 32 bytes, not all
/// zero.
pub fn is_message(digest: &[u8]) -> (ok: bool)
    ensures
        ok == message_valid(digest@),
{
    if digest.len() != 32 {
        return false;
    }
    let mut i: usize = 0;
    while i < 32
        invariant
            i <= 32,
            digest@.len() == 32,
            forall|j: int| 0 <= j < i ==> digest@[j] == 0,
        decreases 32 - i,
    {
        if digest[i] != 0 {
            return true;
        }
        i += 1;
    }
    false
}

} // verus!
