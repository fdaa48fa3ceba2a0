//! The signature check in the second wire profile: the message is the 32
//! bytes themselves, not hashed, and the signature is DER-encoded.

use crate::curve::{
    compact_signature_valid, der_signature, ecdsa_valid, ecdsa_verifies, is_message,
    message_valid, public_key_parses, public_key_valid, signature_from_der, signature_parses,
    VerifyContext,
};
use crate::encoding::{decode_hex, hex_decoded, is_hex};
use crate::service::{verdict, verdict_of};
pub use crate::service::VerifierError;
use vstd::prelude::*;

verus! {

/// The outcome of checking the DER signature `sig` of the 32-byte message
/// `msg` under the key `pubkey`. A signature counts as read where it is DER
/// for a signature whose compact form the curve library takes.
pub open spec fn verify_sig_spec(msg: Seq<u8>, sig: Seq<u8>, pubkey: Seq<u8>) -> Result<
    bool,
    VerifierError,
> {
    match der_signature(sig) {
        Some(compact) => verdict_of(
            message_valid(msg),
            compact_signature_valid(compact),
            public_key_valid(pubkey),
            ecdsa_valid(msg, compact, pubkey),
        ),
        None => verdict_of(message_valid(msg), false, public_key_valid(pubkey), false),
    }
}

/// The outcome of checking three hex strings: the first that is not hex
/// decides, message, then signature, then key; where all are hex, the check
/// of the bytes they stand for.
pub open spec fn verify_spec(hk1: Seq<char>, hsig: Seq<char>, hpubkey: Seq<char>) -> Result<
    bool,
    VerifierError,
> {
    if !is_hex(hk1) {
        Err(VerifierError::MalformedMessage)
    } else if !is_hex(hsig) {
        Err(VerifierError::MalformedSignature)
    } else if !is_hex(hpubkey) {
        Err(VerifierError::MalformedPublicKey)
    } else {
        verify_sig_spec(hex_decoded(hk1), hex_decoded(hsig), hex_decoded(hpubkey))
    }
}

/// Verifies the secp256k1 signature of a message with a given public key.
pub struct AuthVerifier {
    secp: VerifyContext,
}

impl Clone for AuthVerifier {
    fn clone(&self) -> Self {
        AuthVerifier { secp: self.secp.clone() }
    }
}

impl AuthVerifier {
    pub fn new() -> Self {
        AuthVerifier { secp: VerifyContext::new() }
    }

    /// Verifies the signature `hsig` of the message `hk1` under the key
    /// `hpubkey`, all three given in hex.
    pub fn verify(self, hk1: &str, hsig: &str, hpubkey: &str) -> (r: Result<bool, VerifierError>)
        ensures
            r == verify_spec(hk1@, hsig@, hpubkey@),
    {
        self.check(hk1, hsig, hpubkey)
    }

    /// As `verify`, on a verifier that stays in use.
    pub fn check(&self, hk1: &str, hsig: &str, hpubkey: &str) -> (r: Result<bool, VerifierError>)
        ensures
            r == verify_spec(hk1@, hsig@, hpubkey@),
    {
        let msg = match decode_hex(hk1) {
            Ok(bytes) => bytes,
            Err(_) => {
                return Err(VerifierError::MalformedMessage);
            },
        };
        let sig = match decode_hex(hsig) {
            Ok(bytes) => bytes,
            Err(_) => {
                return Err(VerifierError::MalformedSignature);
            },
        };
        let pubkey = match decode_hex(hpubkey) {
            Ok(bytes) => bytes,
            Err(_) => {
                return Err(VerifierError::MalformedPublicKey);
            },
        };
        verify_sig(&self.secp, msg.as_slice(), sig.as_slice(), pubkey.as_slice())
    }
}

/// Checks whether the DER-encoded `sig` is a valid signature of the 32-byte
/// message `msg` under `pubkey`.
pub fn verify_sig(secp: &VerifyContext, msg: &[u8], sig: &[u8], pubkey: &[u8]) -> (r: Result<
    bool,
    VerifierError,
>)
    ensures
        r == verify_sig_spec(msg@, sig@, pubkey@),
{
    let message_ok = is_message(msg);
    let key_ok = public_key_parses(pubkey);
    match signature_from_der(sig) {
        Some(compact) => {
            let signature_ok = signature_parses(compact.as_slice());
            let valid = message_ok && signature_ok && key_ok && ecdsa_verifies(
                secp,
                msg,
                compact.as_slice(),
                pubkey,
            );
            verdict(message_ok, signature_ok, key_ok, valid)
        },
        None => verdict(message_ok, false, key_ok, false),
    }
}

} // verus!
