//! Ed25519 verification of the manifest's canonical bytes against a detached
//! base64 signature and a base64 or hexadecimal public key.

use vstd::prelude::*;
use crate::manifest::is_hex_digit;
use crate::text::{trim, trimmed};
use base64::Engine as _;
use ed25519_dalek::Verifier as _;

verus! {

/// Why a signature check could not be carried out.
#[derive(PartialEq, Eq, Structural, Clone, Copy, Debug)]
pub enum CryptoError {
    /// The signature is not base64, or does not decode to 64 bytes.
    BadSignatureEncoding,
    /// The key is neither base64 nor hexadecimal, is not 32 bytes, or is not a curve point.
    BadKey,
}

/// What the standard base64 alphabet, with padding, decodes `s` to.
pub uninterp spec fn base64_decoded(s: Seq<char>) -> Option<Seq<u8>>;

/// Whether 32 bytes are the compressed form of a point on the curve.
pub uninterp spec fn ed25519_key_ok(key: Seq<u8>) -> bool;

/// Whether `sig` is a valid Ed25519 signature of `msg` under `key`.
pub uninterp spec fn ed25519_accepts(key: Seq<u8>, msg: Seq<u8>, sig: Seq<u8>) -> bool;

/// Relies on `base64::engine::general_purpose::STANDARD.decode`.
#[verifier::external_body]
fn decode_base64(s: &str) -> (r: Option<Vec<u8>>)
    ensures
        r is Some <==> base64_decoded(s@) is Some,
        r is Some ==> r->0@ == base64_decoded(s@)->0,
{
    base64::engine::general_purpose::STANDARD.decode(s).ok()
}

/// The value of a hexadecimal digit.
pub open spec fn hex_value(c: char) -> int {
    if '0' <= c && c <= '9' {
        c as int - '0' as int
    } else if 'a' <= c && c <= 'f' {
        c as int - 'a' as int + 10
    } else {
        c as int - 'A' as int + 10
    }
}

/// Hexadecimal decoding: digits of either case, two per byte.
pub open spec fn hex_decoded(s: Seq<char>) -> Option<Seq<u8>> {
    if s.len() % 2 == 0 && forall|i: int| 0 <= i < s.len() ==> #[trigger] is_hex_digit(s[i]) {
        Some(Seq::new((s.len() / 2) as nat, |i: int| (hex_value(s[2 * i]) * 16 + hex_value(s[2 * i + 1])) as u8))
    } else {
        None
    }
}

/// Relies on `hex::decode`, which fails on an odd length or a non-digit.
#[verifier::external_body]
fn decode_hex(s: &str) -> (r: Option<Vec<u8>>)
    ensures
        r is Some <==> hex_decoded(s@) is Some,
        r is Some ==> r->0@ == hex_decoded(s@)->0,
{
    hex::decode(s).ok()
}

/// Relies on `ed25519_dalek::VerifyingKey::from_bytes`, which fails unless the
/// bytes decompress to a curve point.
#[verifier::external_body]
fn key_is_point(key: &[u8]) -> (r: bool)
    requires
        key@.len() == 32,
    ensures
        r == ed25519_key_ok(key@),
{
    let k: [u8; 32] = key.try_into().unwrap();
    ed25519_dalek::VerifyingKey::from_bytes(&k).is_ok()
}

/// Relies on `ed25519_dalek::Verifier::verify` for a `VerifyingKey` built from
/// `key` and a `Signature` built from `sig`.
#[verifier::external_body]
fn signature_holds(key: &[u8], msg: &[u8], sig: &[u8]) -> (r: bool)
    requires
        key@.len() == 32,
        sig@.len() == 64,
    ensures
        r == ed25519_accepts(key@, msg@, sig@),
{
    let k: [u8; 32] = key.try_into().unwrap();
    let s: [u8; 64] = sig.try_into().unwrap();
    match ed25519_dalek::VerifyingKey::from_bytes(&k) {
        Ok(vk) => vk.verify(msg, &ed25519_dalek::Signature::from_bytes(&s)).is_ok(),
        Err(_) => false,
    }
}

/// The key bytes that a key text stands for: base64 first, hexadecimal when
/// that fails.
pub open spec fn decoded_key(text: Seq<char>) -> Option<Seq<u8>> {
    let t = trimmed(text);
    match base64_decoded(t) {
        Some(b) => Some(b),
        None => hex_decoded(t),
    }
}

/// The outcome of checking signature text `sig_text` of `msg` under key text `key_text`.
pub open spec fn signature_outcome(msg: Seq<u8>, sig_text: Seq<char>, key_text: Seq<char>) -> Result<bool, CryptoError> {
    match base64_decoded(trimmed(sig_text)) {
        None => Err(CryptoError::BadSignatureEncoding),
        Some(sig) => if sig.len() != 64 {
            Err(CryptoError::BadSignatureEncoding)
        } else {
            match decoded_key(key_text) {
                None => Err(CryptoError::BadKey),
                Some(k) => if k.len() != 32 || !ed25519_key_ok(k) {
                    Err(CryptoError::BadKey)
                } else {
                    Ok(ed25519_accepts(k, msg, sig))
                },
            }
        },
    }
}

/// Decodes a public key given as base64 or, failing that, as hexadecimal.
pub fn decode_public_key(text: &str) -> (r: Option<Vec<u8>>)
    ensures
        r is Some <==> decoded_key(text@) is Some,
        r is Some ==> r->0@ == decoded_key(text@)->0,
{
    let t = trim(text);
    match decode_base64(t.as_str()) {
        Some(b) => Some(b),
        None => decode_hex(t.as_str()),
    }
}

/// Checks an Ed25519 signature (base64) over `canonical_bytes` under a public key
/// (base64 or hexadecimal). A signature that does not match is `Ok(false)`; only
/// malformed input is an error.
pub fn ed25519_verify(canonical_bytes: &[u8], signature_b64: &str, pubkey_b64_or_hex: &str) -> (r: Result<bool, CryptoError>)
    ensures
        r == signature_outcome(canonical_bytes@, signature_b64@, pubkey_b64_or_hex@),
{
    let st = trim(signature_b64);
    let sig = match decode_base64(st.as_str()) {
        Some(b) => b,
        None => return Err(CryptoError::BadSignatureEncoding),
    };
    if sig.len() != 64 {
        return Err(CryptoError::BadSignatureEncoding);
    }
    let key = match decode_public_key(pubkey_b64_or_hex) {
        Some(k) => k,
        None => return Err(CryptoError::BadKey),
    };
    if key.len() != 32 {
        return Err(CryptoError::BadKey);
    }
    if !key_is_point(key.as_slice()) {
        return Err(CryptoError::BadKey);
    }
    Ok(signature_holds(key.as_slice(), canonical_bytes, sig.as_slice()))
}

} // verus!
