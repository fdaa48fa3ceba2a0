use bitcoin_hashes::sha256;
use lnurl::curve::{is_message, VerifyContext};
use lnurl::service::{verdict, verify_sig, AuthVerifier, VerifierError};
use secp256k1::{Error, Message, PublicKey, Secp256k1, SecretKey, Signature, Signing};

const SECKEY: [u8; 32] = [
    59, 148, 11, 85, 134, 130, 61, 253, 2, 174, 59, 70, 27, 180, 51, 107, 94, 203, 174, 253, 102,
    39, 170, 146, 46, 252, 4, 143, 236, 12, 136, 28,
];

const PUBKEY: [u8; 33] = [
    2, 29, 21, 35, 7, 198, 183, 43, 14, 208, 65, 139, 14, 112, 205, 128, 231, 245, 41, 91, 141,
    134, 245, 114, 45, 63, 82, 19, 251, 210, 57, 79, 54,
];

fn sign<C: Signing>(secp: &Secp256k1<C>, msg: &[u8], seckey: [u8; 32]) -> Result<Signature, Error> {
    let msg: sha256::Hash = bitcoin_hashes::Hash::hash(msg);
    let msg = Message::from_slice(&msg)?;
    let seckey = SecretKey::from_slice(&seckey)?;
    Ok(secp.sign(&msg, &seckey))
}

fn signed(msg: &[u8]) -> [u8; 64] {
    sign(&Secp256k1::new(), msg, SECKEY).unwrap().serialize_compact()
}

#[test]
fn test_verify_sig() {
    let secp = Secp256k1::new();
    let seckey = [
        59, 148, 11, 85, 134, 130, 61, 253, 2, 174, 59, 70, 27, 180, 51, 107, 94, 203, 174, 253,
        102, 39, 170, 146, 46, 252, 4, 143, 236, 12, 136, 28,
    ];
    let pubkey = [
        2, 29, 21, 35, 7, 198, 183, 43, 14, 208, 65, 139, 14, 112, 205, 128, 231, 245, 41, 91,
        141, 134, 245, 114, 45, 63, 82, 19, 251, 210, 57, 79, 54,
    ];
    let msg = b"This is some message";

    let signature = sign(&secp, msg, seckey).unwrap();

    let serialize_sig = signature.serialize_compact();

    assert!(verify_sig(&VerifyContext::new(), msg, &serialize_sig, &pubkey).unwrap());
}

#[test]
fn known_key_matches_secret() {
    let secp = Secp256k1::new();
    let secret = SecretKey::from_slice(&SECKEY).unwrap();
    let public = PublicKey::from_secret_key(&secp, &secret);
    assert_eq!(public.serialize().to_vec(), PUBKEY.to_vec());
}

#[test]
fn verify_sig_is_repeatable() {
    let ctx = VerifyContext::new();
    let msg = b"This is some message";
    let sig = signed(msg);
    for _ in 0..3 {
        assert_eq!(verify_sig(&ctx, msg, &sig, &PUBKEY), Ok(true));
    }
    assert_eq!(verify_sig(&ctx.clone(), msg, &sig, &PUBKEY), Ok(true));
}

#[test]
fn verify_sig_rejects_other_message() {
    let ctx = VerifyContext::new();
    let sig = signed(b"This is some message");
    assert_eq!(verify_sig(&ctx, b"This is some messagf", &sig, &PUBKEY), Ok(false));
    assert_eq!(verify_sig(&ctx, b"", &sig, &PUBKEY), Ok(false));
}

#[test]
fn verify_sig_rejects_every_flipped_message_bit() {
    let ctx = VerifyContext::new();
    let msg = b"This is some message".to_vec();
    let sig = signed(&msg);
    for i in 0..msg.len() {
        for bit in 0..8 {
            let mut other = msg.clone();
            other[i] ^= 1 << bit;
            assert_eq!(verify_sig(&ctx, &other, &sig, &PUBKEY), Ok(false));
        }
    }
}

#[test]
fn verify_sig_never_accepts_a_flipped_signature_bit() {
    let ctx = VerifyContext::new();
    let msg = b"This is some message";
    let sig = signed(msg);
    for i in 0..sig.len() {
        for bit in 0..8 {
            let mut other = sig;
            other[i] ^= 1 << bit;
            let r = verify_sig(&ctx, msg, &other, &PUBKEY);
            assert!(r == Ok(false) || r == Err(VerifierError::MalformedSignature));
        }
    }
}

#[test]
fn verify_sig_never_accepts_a_flipped_key_bit() {
    let ctx = VerifyContext::new();
    let msg = b"This is some message";
    let sig = signed(msg);
    for i in 0..PUBKEY.len() {
        for bit in 0..8 {
            let mut other = PUBKEY;
            other[i] ^= 1 << bit;
            let r = verify_sig(&ctx, msg, &sig, &other);
            assert!(r == Ok(false) || r == Err(VerifierError::MalformedPublicKey));
        }
    }
}

#[test]
fn verify_sig_reports_malformed_signature() {
    let ctx = VerifyContext::new();
    let msg = b"This is some message";
    let sig = signed(msg);
    assert_eq!(verify_sig(&ctx, msg, &sig[..63], &PUBKEY), Err(VerifierError::MalformedSignature));
    assert_eq!(verify_sig(&ctx, msg, &[], &PUBKEY), Err(VerifierError::MalformedSignature));
    assert_eq!(verify_sig(&ctx, msg, &[0xff; 64], &PUBKEY), Err(VerifierError::MalformedSignature));
    let mut long = sig.to_vec();
    long.push(0);
    assert_eq!(verify_sig(&ctx, msg, &long, &PUBKEY), Err(VerifierError::MalformedSignature));
}

#[test]
fn verify_sig_reports_malformed_key() {
    let ctx = VerifyContext::new();
    let msg = b"This is some message";
    let sig = signed(msg);
    assert_eq!(verify_sig(&ctx, msg, &sig, &[]), Err(VerifierError::MalformedPublicKey));
    assert_eq!(verify_sig(&ctx, msg, &sig, &PUBKEY[..32]), Err(VerifierError::MalformedPublicKey));
    assert_eq!(verify_sig(&ctx, msg, &sig, &[0u8; 33]), Err(VerifierError::MalformedPublicKey));
}

#[test]
fn verify_sig_reports_signature_before_key() {
    let ctx = VerifyContext::new();
    assert_eq!(verify_sig(&ctx, b"m", &[1, 2, 3], &[4, 5]), Err(VerifierError::MalformedSignature));
}

#[test]
fn verify_sig_takes_uncompressed_key() {
    let secp = Secp256k1::new();
    let secret = SecretKey::from_slice(&SECKEY).unwrap();
    let public = PublicKey::from_secret_key(&secp, &secret).serialize_uncompressed();
    let msg = b"This is some message";
    assert_eq!(verify_sig(&VerifyContext::new(), msg, &signed(msg), &public), Ok(true));
}

#[test]
fn verify_takes_hex_of_either_case() {
    let msg = b"This is some message";
    let hmsg = hex::encode(msg);
    let hsig = hex::encode(&signed(msg)[..]);
    let hkey = hex::encode(&PUBKEY[..]);
    assert_eq!(AuthVerifier::new().verify(&hmsg, &hsig, &hkey), Ok(true));
    assert_eq!(
        AuthVerifier::new().verify(&hmsg.to_uppercase(), &hsig.to_uppercase(), &hkey.to_uppercase()),
        Ok(true)
    );
    let verifier = AuthVerifier::new();
    assert_eq!(verifier.clone().verify(&hmsg, &hsig, &hkey), Ok(true));
    assert_eq!(verifier.check(&hmsg, &hsig, &hkey), Ok(true));
    assert_eq!(verifier.check(&hmsg, "0g", &hkey), Err(VerifierError::MalformedSignature));
    assert_eq!(verifier.verify("00", &hsig, &hkey), Ok(false));
}

#[test]
fn verify_reads_the_digits_of_a_byte_high_half_first() {
    let msg = [0x1f_u8, 0xa0, 0x07];
    let hsig = hex::encode(&signed(&msg)[..]);
    let hkey = hex::encode(&PUBKEY[..]);
    assert_eq!(AuthVerifier::new().verify("1fa007", &hsig, &hkey), Ok(true));
    assert_eq!(AuthVerifier::new().verify("1Fa007", &hsig, &hkey), Ok(true));
    assert_eq!(AuthVerifier::new().verify("f10a70", &hsig, &hkey), Ok(false));
}

#[test]
fn verify_reports_the_first_string_that_is_not_hex() {
    let msg = b"This is some message";
    let hmsg = hex::encode(msg);
    let hsig = hex::encode(&signed(msg)[..]);
    let hkey = hex::encode(&PUBKEY[..]);
    let v = AuthVerifier::new();
    assert_eq!(v.clone().verify("zz", "zz", "zz"), Err(VerifierError::MalformedMessage));
    assert_eq!(v.clone().verify("abc", &hsig, &hkey), Err(VerifierError::MalformedMessage));
    assert_eq!(v.clone().verify("\u{e9}", &hsig, &hkey), Err(VerifierError::MalformedMessage));
    assert_eq!(v.clone().verify(&hmsg, "not hex", "zz"), Err(VerifierError::MalformedSignature));
    assert_eq!(v.clone().verify(&hmsg, &hsig[1..], &hkey), Err(VerifierError::MalformedSignature));
    assert_eq!(v.clone().verify(&hmsg, &hsig, "0g"), Err(VerifierError::MalformedPublicKey));
    assert_eq!(v.clone().verify(&hmsg, &hsig, ""), Err(VerifierError::MalformedPublicKey));
    assert_eq!(v.clone().verify(&hmsg, "", &hkey), Err(VerifierError::MalformedSignature));
    assert_eq!(v.verify("", &hsig, &hkey), Ok(false));
}

#[test]
fn verdict_names_the_first_part_that_failed() {
    assert_eq!(verdict(false, false, false, false), Err(VerifierError::MalformedMessage));
    assert_eq!(verdict(false, true, true, true), Err(VerifierError::MalformedMessage));
    assert_eq!(verdict(true, false, false, true), Err(VerifierError::MalformedSignature));
    assert_eq!(verdict(true, true, false, true), Err(VerifierError::MalformedPublicKey));
    assert_eq!(verdict(true, true, true, true), Ok(true));
    assert_eq!(verdict(true, true, true, false), Ok(false));
}

#[test]
fn is_message_wants_32_bytes_not_all_zero() {
    assert!(!is_message(&[]));
    assert!(!is_message(&[1; 31]));
    assert!(!is_message(&[1; 33]));
    assert!(!is_message(&[0; 32]));
    assert!(is_message(&[1; 32]));
    let mut last = [0u8; 32];
    last[31] = 1;
    assert!(is_message(&last));
    let mut first = [0u8; 32];
    first[0] = 0x80;
    assert!(is_message(&first));
    for data in [&[0u8; 32][..], &[1u8; 32][..], &last[..], &[1u8; 31][..], &[][..]] {
        assert_eq!(is_message(data), Message::from_slice(data).is_ok());
    }
}
