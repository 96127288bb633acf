//! The signing pass: hashing, parity disambiguation, re-encoding, and the
//! signing-request assembly for the remote channel.

use ic_web3::ic::{build_sign_request, pubkey_to_address, KeyInfo, ECDSA_SIGN_CYCLES};
use ic_web3::tx::Transaction;
use ic_web3::SignerError;

fn sample_tx(tx_type: Option<u64>) -> Transaction {
    Transaction {
        to: Some(vec![0x42; 20]),
        nonce: 1,
        gas: 21_000,
        gas_price: 10_000_000_000,
        value: 5,
        data: vec![],
        transaction_type: tx_type,
        access_list: vec![],
        max_priority_fee_per_gas: 10_000_000_000,
    }
}

fn signer() -> (libsecp256k1::SecretKey, Vec<u8>) {
    let mut k = [0u8; 32];
    k[31] = 0x2a;
    let sk = libsecp256k1::SecretKey::parse(&k).unwrap();
    let pk = libsecp256k1::PublicKey::from_secret_key(&sk);
    let addr = pubkey_to_address(&pk.serialize_compressed()).unwrap();
    (sk, addr)
}

fn sign_hash(sk: &libsecp256k1::SecretKey, hash: &[u8]) -> (Vec<u8>, u8) {
    let mut h = [0u8; 32];
    h.copy_from_slice(hash);
    let message = libsecp256k1::Message::parse(&h);
    let (sig, rec_id) = libsecp256k1::sign(&message, sk);
    (sig.serialize().to_vec(), rec_id.serialize())
}

#[test]
fn legacy_signing_selects_the_matching_parity() {
    let (sk, addr) = signer();
    let chain_id = 5u64;
    // Vary the nonce until the signature's true parity is 1: then the
    // pass must pick parity 1, having found that parity 0 does not
    // recover the signer's address.
    let mut found = false;
    for nonce in 1..40u128 {
        let mut tx = sample_tx(None);
        tx.nonce = nonce;
        let hash = tx.signing_hash(chain_id).unwrap();
        let (raw_sig, true_parity) = sign_hash(&sk, &hash);
        let signed = tx.finalize_signature(chain_id, hash.clone(), raw_sig, &addr).unwrap();
        assert_eq!(signed.v, 2 * chain_id + 35 + true_parity as u64);
        assert_eq!(signed.message_hash, hash);
        if true_parity == 1 {
            found = true;
            break;
        }
    }
    assert!(found, "no parity-1 signature among the samples");
}

#[test]
fn typed_transaction_carries_bare_parity() {
    let (sk, addr) = signer();
    let mut tx = sample_tx(Some(2));
    tx.max_priority_fee_per_gas = 1_000_000_000;
    let hash = tx.signing_hash(1).unwrap();
    let (raw_sig, true_parity) = sign_hash(&sk, &hash);
    let signed = tx.finalize_signature(1, hash, raw_sig, &addr).unwrap();
    assert_eq!(signed.v, true_parity as u64);
    assert_eq!(signed.raw_transaction[0], 0x02);
}

#[test]
fn signed_encoding_carries_the_signature_words() {
    let (sk, addr) = signer();
    let tx = sample_tx(None);
    let hash = tx.signing_hash(5).unwrap();
    let (raw_sig, _) = sign_hash(&sk, &hash);
    let signed = tx.finalize_signature(5, hash, raw_sig.clone(), &addr).unwrap();
    assert_eq!(signed.r, raw_sig[..32].to_vec());
    assert_eq!(signed.s, raw_sig[32..].to_vec());
    // The canonical identifier hashes the signed form, not the unsigned:
    // the two hashes differ.
    assert_ne!(signed.transaction_hash, signed.message_hash);
    assert_eq!(signed.transaction_hash.len(), 32);
}

#[test]
fn mismatched_signer_address_aborts_the_pass() {
    let (sk, _) = signer();
    let tx = sample_tx(None);
    let hash = tx.signing_hash(5).unwrap();
    let (raw_sig, _) = sign_hash(&sk, &hash);
    let stranger = vec![0x01; 20];
    assert_eq!(
        tx.finalize_signature(5, hash, raw_sig, &stranger).unwrap_err(),
        SignerError::RecoveryMismatch
    );
}

#[test]
fn short_signature_is_malformed() {
    let tx = sample_tx(None);
    let hash = tx.signing_hash(5).unwrap();
    assert_eq!(
        tx.finalize_signature(5, hash, vec![0u8; 63], &vec![0u8; 20]).unwrap_err(),
        SignerError::MalformedSignature
    );
}

#[test]
fn unsupported_type_surfaces_as_an_encoding_error() {
    let (sk, addr) = signer();
    // Hash under a supported shape, then ask for a signed encoding of an
    // unsupported kind: the pass fails at re-encoding, after the parity
    // was found.
    let tx = sample_tx(None);
    let hash = tx.signing_hash(5).unwrap();
    let (raw_sig, _) = sign_hash(&sk, &hash);
    let mut bad = sample_tx(Some(9));
    bad.nonce = tx.nonce;
    assert_eq!(
        bad.finalize_signature(5, hash, raw_sig, &addr).unwrap_err(),
        SignerError::Encoding(ic_web3::EncodingError::UnsupportedTransactionType)
    );
}

#[test]
fn sign_request_requires_a_32_byte_hash() {
    let key_info = KeyInfo {
        derivation_path: vec![vec![0, 0, 0, 1]],
        key_name: "test_key".to_owned(),
        ecdsa_sign_cycles: None,
    };
    assert!(build_sign_request(vec![0u8; 31], key_info.clone()).is_err());
    let req = build_sign_request(vec![0u8; 32], key_info).unwrap();
    assert_eq!(req.cycles, ECDSA_SIGN_CYCLES);
    assert_eq!(req.key_name, "test_key");
    assert_eq!(req.derivation_path, vec![vec![0, 0, 0, 1]]);
}

#[test]
fn sign_request_keeps_caller_cycles() {
    let key_info = KeyInfo {
        derivation_path: vec![],
        key_name: "k".to_owned(),
        ecdsa_sign_cycles: Some(123_456),
    };
    let req = build_sign_request(vec![7u8; 32], key_info).unwrap();
    assert_eq!(req.cycles, 123_456);
    assert_eq!(req.message_hash, vec![7u8; 32]);
}
