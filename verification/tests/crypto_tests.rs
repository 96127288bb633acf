//! The codec against known vectors and against live secp256k1 signatures.

use ic_web3::ic::{pubkey_to_address, recover_address, recover_address_bytes};

fn secret_key_one() -> libsecp256k1::SecretKey {
    let mut k = [0u8; 32];
    k[31] = 1;
    libsecp256k1::SecretKey::parse(&k).unwrap()
}

#[test]
fn keccak_empty_digest_matches_known_vector() {
    // Probe the digest through the public pipeline: the address of a key
    // is the low 20 bytes of Keccak-256 of its coordinates, so a wrong
    // digest would surface here. The direct vector for the generator key:
    let compressed =
        hex::decode("0279be667ef9dcbbac55a06295ce870b07029bfcdb2dce28d959f2815b16f81798").unwrap();
    let addr = pubkey_to_address(&compressed).unwrap();
    assert_eq!(hex::encode(&addr), "7e5f4552091a69125d5dfcb7b8c2659029395bdf");
}

#[test]
fn invalid_public_key_is_rejected() {
    // 0x05 is no compressed-point tag.
    assert!(pubkey_to_address(&[0x05; 33]).is_err());
    assert!(pubkey_to_address(&[]).is_err());
}

#[test]
fn recover_address_returns_empty_string_on_failure() {
    // 31-byte message hash: malformed, recovery must yield the sentinel.
    assert_eq!(recover_address(vec![0u8; 31], vec![0u8; 64], 0), String::new());
    // Recovery id out of range.
    assert_eq!(recover_address(vec![0u8; 32], vec![0u8; 64], 4), String::new());
    // All-zero signature is not recoverable.
    assert_eq!(recover_address(vec![0u8; 32], vec![0u8; 64], 0), String::new());
}

#[test]
fn recovered_address_matches_signer_address() {
    // Sign with a known key and recover under the reported parity: the
    // recovered address must equal the address derived from the public key.
    let sk = secret_key_one();
    let pk = libsecp256k1::PublicKey::from_secret_key(&sk);
    let expected = pubkey_to_address(&pk.serialize_compressed()).unwrap();

    let mut hash = [0u8; 32];
    hash[0] = 0x42;
    let message = libsecp256k1::Message::parse(&hash);
    let (sig, rec_id) = libsecp256k1::sign(&message, &sk);

    let recovered = recover_address(hash.to_vec(), sig.serialize().to_vec(), rec_id.serialize());
    assert_eq!(recovered, hex::encode(&expected));
}

#[test]
fn recovery_with_wrong_parity_gives_other_address() {
    let sk = secret_key_one();
    let pk = libsecp256k1::PublicKey::from_secret_key(&sk);
    let expected = pubkey_to_address(&pk.serialize_compressed()).unwrap();

    let mut hash = [0u8; 32];
    hash[5] = 0x99;
    let message = libsecp256k1::Message::parse(&hash);
    let (sig, rec_id) = libsecp256k1::sign(&message, &sk);
    let wrong = rec_id.serialize() ^ 1;

    match recover_address_bytes(&hash, &sig.serialize(), wrong) {
        Some(addr) => assert_ne!(addr, expected),
        None => {},
    }
}

#[test]
fn hex_rendering_is_lowercase_two_digits_per_byte() {
    // Through the public pipeline: recover yields lowercase hex of 20
    // bytes, i.e. 40 characters.
    let sk = secret_key_one();
    let mut hash = [0u8; 32];
    hash[31] = 7;
    let message = libsecp256k1::Message::parse(&hash);
    let (sig, rec_id) = libsecp256k1::sign(&message, &sk);
    let s = recover_address(hash.to_vec(), sig.serialize().to_vec(), rec_id.serialize());
    assert_eq!(s.len(), 40);
    assert!(s.chars().all(|c| c.is_ascii_hexdigit() && !c.is_ascii_uppercase()));
}
