//! Signature/address codec and the delegated-signing client's pure half:
//! deriving an Ethereum address from a public key, recovering an address
//! from a signature, and assembling a threshold-ECDSA signing request.
//! The asynchronous round trips themselves live outside the library.

use vstd::prelude::*;

verus! {

use crate::crypto::{
    keccak_of, keccak256, decompressed_pubkey, secp_decompress, recovered_pubkey, secp_recover,
    hex_of, hex_encode,
};

/// Cost charged for one threshold-ECDSA signing call when the caller
/// names no other amount.
pub const ECDSA_SIGN_CYCLES: u64 = 10_000_000_000;

/// Names the externally held key a signing request is served with. It
/// carries no secret material.
#[derive(Debug, Clone)]
pub struct KeyInfo {
    /// BIP32-style child-derivation path: an ordered sequence of opaque
    /// byte strings.
    pub derivation_path: Vec<Vec<u8>>,
    pub key_name: String,
    /// Cost to attach to the signing call; the default applies when absent.
    pub ecdsa_sign_cycles: Option<u64>,
}

/// The Ethereum address borne by an uncompressed (65-byte, tagged) public
/// key: the low 20 bytes of the Keccak-256 digest of the 64 coordinate
/// bytes, the format tag excluded.
pub open spec fn eth_address_of_uncompressed(u: Seq<u8>) -> Seq<u8> {
    keccak_of(u.subrange(1, 65)).subrange(12, 32)
}

/// The address of a compressed public key, when it is a valid point.
pub open spec fn spec_pubkey_to_address(c: Seq<u8>) -> Option<Seq<u8>> {
    match decompressed_pubkey(c) {
        Some(u) => Some(eth_address_of_uncompressed(u)),
        None => None,
    }
}

/// Converts a compressed public key to an Ethereum address: decompress,
/// hash the 64 coordinate bytes, keep the low 20 bytes of the digest.
/// Fails exactly when the bytes are not a valid compressed point.
pub fn pubkey_to_address(pubkey: &[u8]) -> (r: Result<Vec<u8>, String>)
    ensures
        match r {
            Ok(a) => spec_pubkey_to_address(pubkey@) == Some(a@) && a@.len() == 20,
            Err(_) => spec_pubkey_to_address(pubkey@) is None,
        },
{
    let uncompressed = match secp_decompress(pubkey) {
        Some(u) => u,
        None => {
            return Err("uncompress public key failed: ".to_owned());
        },
    };
    let hash = keccak256(vstd::slice::slice_subrange(uncompressed.as_slice(), 1, 65));
    let addr = vstd::slice::slice_to_vec(vstd::slice::slice_subrange(hash.as_slice(), 12, 32));
    proof {
        assert(addr@ == eth_address_of_uncompressed(uncompressed@));
    }
    Ok(addr)
}

/// The address that signature recovery yields, when it succeeds.
pub open spec fn recovered_address(msg: Seq<u8>, sig: Seq<u8>, rec_id: u8) -> Option<Seq<u8>> {
    match recovered_pubkey(msg, sig, rec_id) {
        Some(u) => Some(eth_address_of_uncompressed(u)),
        None => None,
    }
}

/// What `recover_address` renders: the recovered address in lowercase
/// hexadecimal, or the empty string when recovery fails.
pub open spec fn spec_recover_address(msg: Seq<u8>, sig: Seq<u8>, rec_id: u8) -> Seq<char> {
    match recovered_address(msg, sig, rec_id) {
        Some(a) => hex_of(a),
        None => Seq::empty(),
    }
}

/// Recovers the signing address from a 32-byte message hash, a 64-byte
/// `r||s` signature and a recovery id below four, as lowercase
/// hexadecimal. Any failure — malformed input or unrecoverable signature —
/// yields the empty string, a sentinel the caller must treat as a
/// recoverable failure.
pub fn recover_address(msg: Vec<u8>, sig: Vec<u8>, rec_id: u8) -> (r: String)
    ensures
        r@ == spec_recover_address(msg@, sig@, rec_id),
{
    match recover_address_bytes(msg.as_slice(), sig.as_slice(), rec_id) {
        Some(addr) => hex_encode(addr.as_slice()),
        None => String::new(),
    }
}

/// Recovers the signing address as its 20 raw bytes.
pub fn recover_address_bytes(msg: &[u8], sig: &[u8], rec_id: u8) -> (r: Option<Vec<u8>>)
    ensures
        match r {
            Some(a) => recovered_address(msg@, sig@, rec_id) == Some(a@) && a@.len() == 20,
            None => recovered_address(msg@, sig@, rec_id) is None,
        },
{
    match secp_recover(msg, sig, rec_id) {
        Some(pubkey) => {
            let hash = keccak256(vstd::slice::slice_subrange(pubkey.as_slice(), 1, 65));
            let addr = vstd::slice::slice_to_vec(
                vstd::slice::slice_subrange(hash.as_slice(), 12, 32),
            );
            proof {
                assert(addr@ == eth_address_of_uncompressed(pubkey@));
            }
            Some(addr)
        },
        None => None,
    }
}

/// When a signature over `msg` recovers, under the right recovery id, to
/// the very key whose compressed form is `pk` — that is, when that key
/// made the signature — the recovered address equals the address derived
/// from the public key.
pub proof fn lemma_recover_matches_pubkey_address(
    msg: Seq<u8>,
    sig: Seq<u8>,
    rec_id: u8,
    pk: Seq<u8>,
    u: Seq<u8>,
)
    requires
        recovered_pubkey(msg, sig, rec_id) == Some(u),
        decompressed_pubkey(pk) == Some(u),
    ensures
        spec_pubkey_to_address(pk) == Some(eth_address_of_uncompressed(u)),
        recovered_address(msg, sig, rec_id) == spec_pubkey_to_address(pk),
        spec_recover_address(msg, sig, rec_id) == hex_of(eth_address_of_uncompressed(u)),
{
}

/// One assembled threshold-ECDSA signing request: everything the
/// asynchronous channel needs, as plain values.
pub struct SignRequest {
    /// Exactly 32 bytes.
    pub message_hash: Vec<u8>,
    pub derivation_path: Vec<Vec<u8>>,
    pub key_name: String,
    /// Cost to attach to the call.
    pub cycles: u64,
}

/// The cost a signing call carries: the caller's figure, or the default.
pub open spec fn spec_signing_cycles(key_info: KeyInfo) -> u64 {
    match key_info.ecdsa_sign_cycles {
        Some(c) => c,
        None => ECDSA_SIGN_CYCLES,
    }
}

/// Assembles a signing request. The message must be exactly 32 bytes — a
/// hash, never the message itself; anything else is rejected before any
/// external call is made.
pub fn build_sign_request(message: Vec<u8>, key_info: KeyInfo) -> (r: Result<SignRequest, String>)
    ensures
        match r {
            Ok(req) => {
                &&& message@.len() == 32
                &&& req.message_hash@ == message@
                &&& req.derivation_path@.map_values(|p: Vec<u8>| p@)
                    == key_info.derivation_path@.map_values(|p: Vec<u8>| p@)
                &&& req.key_name@ == key_info.key_name@
                &&& req.cycles == spec_signing_cycles(key_info)
            },
            Err(_) => message@.len() != 32,
        },
{
    if message.len() != 32 {
        return Err("message must be a 32-byte hash".to_owned());
    }
    let cycles = match key_info.ecdsa_sign_cycles {
        Some(c) => c,
        None => ECDSA_SIGN_CYCLES,
    };
    Ok(
        SignRequest {
            message_hash: message,
            derivation_path: key_info.derivation_path,
            key_name: key_info.key_name,
            cycles,
        },
    )
}

} // verus!
