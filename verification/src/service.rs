//! The signature check in the wire profile that the login protocol uses: the
//! message is hashed with SHA-256 before it is checked, and the signature is
//! in the 64-byte compact encoding.

use crate::curve::{
    compact_signature_valid, ecdsa_valid, ecdsa_verifies, is_message, message_valid,
    public_key_parses, public_key_valid, sha256, sha256_digest, signature_parses, VerifyContext,
};
use crate::encoding::{decode_hex, hex_decoded, is_hex};
use vstd::prelude::*;

verus! {

/// Why a message, a signature or a key could not be read.
#[derive(Debug, PartialEq, Eq, Structural, Clone, Copy)]
pub enum VerifierError {
    /// The message is not hex, or not a message for the curve library.
    MalformedMessage,
    /// The signature is not hex, or not an encoding of a signature.
    MalformedSignature,
    /// The public key is not hex, or not an encoding of a point on the curve.
    MalformedPublicKey,
}

/// The outcome of a check, given which of the three values could be read and
/// whether the signature was valid. The first value that could not be read
/// decides: message, then signature, then key.
pub open spec fn verdict_of(message_ok: bool, signature_ok: bool, key_ok: bool, valid: bool)
    -> Result<bool, VerifierError> {
    if !message_ok {
        Err(VerifierError::MalformedMessage)
    } else if !signature_ok {
        Err(VerifierError::MalformedSignature)
    } else if !key_ok {
        Err(VerifierError::MalformedPublicKey)
    } else {
        Ok(valid)
    }
}

/// The outcome of checking the compact signature `sig` of the message `msg`
/// under the key `pubkey`.
pub open spec fn verify_sig_spec(msg: Seq<u8>, sig: Seq<u8>, pubkey: Seq<u8>) -> Result<
    bool,
    VerifierError,
> {
    let digest = sha256_digest(msg);
    verdict_of(
        message_valid(digest),
        compact_signature_valid(sig),
        public_key_valid(pubkey),
        ecdsa_valid(digest, sig, pubkey),
    )
}

/// The outcome of checking three hex strings: the first that is not hex
/// decides, message, then signature, then key; where all are hex, the check
/// of the bytes they stand for.
pub open spec fn verify_spec(hk1: Seq<char>, hsig: Seq<char>, hpubkey: Seq<char>) -> Result<
    bool,
    VerifierError,
> {
    if !is_hex(hk1) {
        Err(VerifierError::MalformedMessage)
    } else if !is_hex(hsig) {
        Err(VerifierError::MalformedSignature)
    } else if !is_hex(hpubkey) {
        Err(VerifierError::MalformedPublicKey)
    } else {
        verify_sig_spec(hex_decoded(hk1), hex_decoded(hsig), hex_decoded(hpubkey))
    }
}

/// Decides the outcome of a check from what was found of its parts.
pub fn verdict(message_ok: bool, signature_ok: bool, key_ok: bool, valid: bool) -> (r: Result<
    bool,
    VerifierError,
>)
    ensures
        r == verdict_of(message_ok, signature_ok, key_ok, valid),
{
    if !message_ok {
        Err(VerifierError::MalformedMessage)
    } else if !signature_ok {
        Err(VerifierError::MalformedSignature)
    } else if !key_ok {
        Err(VerifierError::MalformedPublicKey)
    } else {
        Ok(valid)
    }
}

/// Verifies the secp256k1 signature of a message with a given public key.
pub struct AuthVerifier {
    secp: VerifyContext,
}

impl Clone for AuthVerifier {
    fn clone(&self) -> Self {
        AuthVerifier { secp: self.secp.clone() }
    }
}

impl AuthVerifier {
    pub fn new() -> Self {
        AuthVerifier { secp: VerifyContext::new() }
    }

    /// Verifies the signature `hsig` of the message `hk1` under the key
    /// `hpubkey`, all three given in hex.
    pub fn verify(self, hk1: &str, hsig: &str, hpubkey: &str) -> (r: Result<bool, VerifierError>)
        ensures
            r == verify_spec(hk1@, hsig@, hpubkey@),
    {
        self.check(hk1, hsig, hpubkey)
    }

    /// As `verify`, on a verifier that stays in use.
    pub fn check(&self, hk1: &str, hsig: &str, hpubkey: &str) -> (r: Result<bool, VerifierError>)
        ensures
            r == verify_spec(hk1@, hsig@, hpubkey@),
    {
        let msg = match decode_hex(hk1) {
            Ok(bytes) => bytes,
            Err(_) => {
                return Err(VerifierError::MalformedMessage);
            },
        };
        let sig = match decode_hex(hsig) {
            Ok(bytes) => bytes,
            Err(_) => {
                return Err(VerifierError::MalformedSignature);
            },
        };
        let pubkey = match decode_hex(hpubkey) {
            Ok(bytes) => bytes,
            Err(_) => {
                return Err(VerifierError::MalformedPublicKey);
            },
        };
        verify_sig(&self.secp, msg.as_slice(), sig.as_slice(), pubkey.as_slice())
    }
}

/// Checks whether `sig` is a valid signature of the SHA-256 digest of `msg`
/// under `pubkey`.
pub fn verify_sig(secp: &VerifyContext, msg: &[u8], sig: &[u8], pubkey: &[u8]) -> (r: Result<
    bool,
    VerifierError,
>)
    ensures
        r == verify_sig_spec(msg@, sig@, pubkey@),
{
    let digest = sha256(msg);
    let message_ok = is_message(digest.as_slice());
    let signature_ok = signature_parses(sig);
    let key_ok = public_key_parses(pubkey);
    let valid = message_ok && signature_ok && key_ok && ecdsa_verifies(
        secp,
        digest.as_slice(),
        sig,
        pubkey,
    );
    verdict(message_ok, signature_ok, key_ok, valid)
}

} // verus!
