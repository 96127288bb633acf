//! Trusted bindings to the cryptographic primitives the library relies on:
//! the Keccak-256 digest, secp256k1 point decompression and signature
//! recovery, and hexadecimal rendering. Each binding names or states what
//! the outside call returns; everything built on top of them is verified.

use vstd::prelude::*;

verus! {

/// The Keccak-256 digest of a byte sequence. The digest is a function of
/// the input alone; its definition lives in the outside crate.
pub uninterp spec fn keccak_of(s: Seq<u8>) -> Seq<u8>;

/// Relies on tiny_keccak's Keccak v256 (`update` then `finalize`): the
/// digest depends on the input bytes alone and fills exactly 32 bytes.
#[verifier::external_body]
pub(crate) fn keccak256(bytes: &[u8]) -> (r: Vec<u8>)
    ensures
        r@ == keccak_of(bytes@),
        r@.len() == 32,
{
    let mut hasher = tiny_keccak::Keccak::v256();
    let mut out = [0u8; 32];
    tiny_keccak::Hasher::update(&mut hasher, bytes);
    tiny_keccak::Hasher::finalize(hasher, &mut out);
    out.to_vec()
}

/// The uncompressed (65-byte, tagged) form of a compressed secp256k1
/// public key, when the bytes are a valid compressed point; `None` when
/// they are not.
pub uninterp spec fn decompressed_pubkey(c: Seq<u8>) -> Option<Seq<u8>>;

/// Relies on libsecp256k1's `PublicKey::parse_slice` (compressed form) and
/// `PublicKey::serialize`: both depend on the input bytes alone, and the
/// serialized form is 65 bytes.
#[verifier::external_body]
pub(crate) fn secp_decompress(pubkey: &[u8]) -> (r: Option<Vec<u8>>)
    ensures
        match r {
            Some(u) => decompressed_pubkey(pubkey@) == Some(u@) && u@.len() == 65,
            None => decompressed_pubkey(pubkey@) is None,
        },
{
    let format = Some(libsecp256k1::PublicKeyFormat::Compressed);
    match libsecp256k1::PublicKey::parse_slice(pubkey, format) {
        Ok(key) => Some(key.serialize().to_vec()),
        Err(_) => None,
    }
}

/// The uncompressed public key that ECDSA recovery yields from a 32-byte
/// message hash, a 64-byte `r||s` signature and a recovery id; `None` when
/// any part is malformed or recovery fails.
pub uninterp spec fn recovered_pubkey(msg: Seq<u8>, sig: Seq<u8>, rec_id: u8) -> Option<Seq<u8>>;

/// Relies on libsecp256k1's `recover`, with `Message::parse_slice`,
/// `Signature::parse_overflowing_slice` and `RecoveryId::parse` converting
/// the arguments and `PublicKey::serialize` the result: the outcome
/// depends on the arguments alone; a recovered key serializes to 65 bytes.
#[verifier::external_body]
pub(crate) fn secp_recover(msg: &[u8], sig: &[u8], rec_id: u8) -> (r: Option<Vec<u8>>)
    ensures
        match r {
            Some(u) => recovered_pubkey(msg@, sig@, rec_id) == Some(u@) && u@.len() == 65,
            None => recovered_pubkey(msg@, sig@, rec_id) is None,
        },
{
    let message = match libsecp256k1::Message::parse_slice(msg) { Ok(m) => m, Err(_) => return None };
    let signature = match libsecp256k1::Signature::parse_overflowing_slice(sig) { Ok(s) => s, Err(_) => return None };
    let rid = match libsecp256k1::RecoveryId::parse(rec_id) { Ok(i) => i, Err(_) => return None };
    match libsecp256k1::recover(&message, &signature, &rid) {
        Ok(pk) => Some(pk.serialize().to_vec()),
        Err(_) => None,
    }
}

/// The lowercase hexadecimal digit for a nibble.
pub open spec fn hex_digit(n: u8) -> char {
    if n < 10 {
        (((n + 0x30) as u8) as char)
    } else {
        (((n + 0x57) as u8) as char)
    }
}

/// Lowercase hexadecimal rendering of a byte sequence: two digits per
/// byte, high nibble first.
pub open spec fn hex_of(s: Seq<u8>) -> Seq<char>
    decreases s.len(),
{
    if s.len() == 0 {
        Seq::empty()
    } else {
        hex_of(s.drop_last()).push(hex_digit(s.last() / 16)).push(hex_digit(s.last() % 16))
    }
}

/// Relies on hex::encode: lowercase hexadecimal, two digits per byte, high
/// nibble first.
#[verifier::external_body]
pub(crate) fn hex_encode(bytes: &[u8]) -> (r: String)
    ensures
        r@ == hex_of(bytes@),
{
    hex::encode(bytes)
}

} // verus!
