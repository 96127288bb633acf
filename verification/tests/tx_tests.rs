//! Transaction serialization: the three formats, determinism, the
//! round trip through the decoder, and the conversion from requests.

use ic_web3::decode::decode_unsigned;
use ic_web3::tx::{AccessListItem, Transaction, TransactionRequest};
use ic_web3::EncodingError;

fn sample_to() -> Vec<u8> {
    // 20 bytes: 0xabc...def
    let mut a = vec![0xabu8, 0xc0];
    a.extend_from_slice(&[0x11; 16]);
    a.extend_from_slice(&[0xde, 0xef]);
    a
}

fn legacy_tx() -> Transaction {
    Transaction {
        to: Some(sample_to()),
        nonce: 5,
        gas: 21_000,
        gas_price: 10_000_000_000,
        value: 1_000_000_000_000_000_000,
        data: vec![],
        transaction_type: None,
        access_list: vec![],
        max_priority_fee_per_gas: 10_000_000_000,
    }
}

fn access_list() -> Vec<AccessListItem> {
    vec![
        AccessListItem { address: vec![0x11; 20], storage_keys: vec![vec![0x22; 32], vec![0x33; 32]] },
        AccessListItem { address: vec![0x44; 20], storage_keys: vec![] },
    ]
}

#[test]
fn legacy_unsigned_encoding_has_known_shape() {
    // Scenario: nonce 5, gas price 10 gwei, gas 21000, 20-byte recipient,
    // value 1e18, no data, chain id 5. Field items take 1+6+3+21+9+1
    // bytes, the EIP-155 markers [5, 0, 0] take 3, so the list payload is
    // 44 bytes and the whole encoding 45, led by the one-byte list header.
    let tx = legacy_tx();
    let bytes = tx.encode(5, None).unwrap();
    assert_eq!(bytes.len(), 45);
    assert_eq!(bytes[0], 0xc0 + 44);
    // The EIP-155 tail is [chain_id, 0, 0]: v carries the chain marker 5,
    // r and s are zero (empty items).
    assert_eq!(&bytes[42..], &[0x05, 0x80, 0x80]);
}

#[test]
fn legacy_matches_rlp_crate() {
    let tx = legacy_tx();
    let ours = tx.encode(5, None).unwrap();

    let mut stream = rlp::RlpStream::new();
    stream.begin_list(9);
    stream.append(&5u64); // nonce
    stream.append(&10_000_000_000u64); // gas price
    stream.append(&21_000u64); // gas
    stream.append(&sample_to()); // to
    stream.append(&1_000_000_000_000_000_000u64); // value
    stream.append(&Vec::<u8>::new()); // data
    stream.append(&5u64); // chain id
    stream.append(&0u8);
    stream.append(&0u8);
    assert_eq!(ours, stream.out().to_vec());
}

#[test]
fn eip1559_unsigned_encoding_starts_with_type_byte() {
    // Scenario: transaction_type 2, max priority fee 1 gwei, gas price
    // 10 gwei: the payload begins with byte 0x02 followed by a 9-item
    // unsigned list.
    let mut tx = legacy_tx();
    tx.transaction_type = Some(2);
    tx.max_priority_fee_per_gas = 1_000_000_000;
    let bytes = tx.encode(5, None).unwrap();
    assert_eq!(bytes[0], 0x02);
    assert!(bytes[1] >= 0xc0);
    // Its nine items: chain, nonce, priority fee, gas price, gas, to,
    // value, data, access list; the last is the empty list 0xc0.
    assert_eq!(*bytes.last().unwrap(), 0xc0);
}

#[test]
fn encode_is_deterministic() {
    let tx = legacy_tx();
    assert_eq!(tx.encode(5, None).unwrap(), tx.encode(5, None).unwrap());
    let mut t2 = legacy_tx();
    t2.transaction_type = Some(2);
    t2.access_list = access_list();
    assert_eq!(t2.encode(1, None).unwrap(), t2.encode(1, None).unwrap());
}

#[test]
fn unsupported_type_is_a_fatal_encoding_error() {
    let mut tx = legacy_tx();
    tx.transaction_type = Some(3);
    assert_eq!(tx.encode(5, None), Err(EncodingError::UnsupportedTransactionType));
}

fn assert_tx_eq(a: &Transaction, b: &Transaction) {
    assert_eq!(a.to, b.to);
    assert_eq!(a.nonce, b.nonce);
    assert_eq!(a.gas, b.gas);
    assert_eq!(a.gas_price, b.gas_price);
    assert_eq!(a.value, b.value);
    assert_eq!(a.data, b.data);
    assert_eq!(a.transaction_type, b.transaction_type);
    assert_eq!(a.access_list.len(), b.access_list.len());
    for (x, y) in a.access_list.iter().zip(b.access_list.iter()) {
        assert_eq!(x.address, y.address);
        assert_eq!(x.storage_keys, y.storage_keys);
    }
    assert_eq!(a.max_priority_fee_per_gas, b.max_priority_fee_per_gas);
}

#[test]
fn legacy_round_trips_through_decoder() {
    let tx = legacy_tx();
    let bytes = tx.encode(5, None).unwrap();
    let (decoded, chain_id) = decode_unsigned(&bytes).unwrap();
    assert_eq!(chain_id, 5);
    assert_tx_eq(&decoded, &tx);
}

#[test]
fn access_list_round_trips_through_decoder() {
    let mut tx = legacy_tx();
    tx.transaction_type = Some(1);
    tx.access_list = access_list();
    let bytes = tx.encode(42, None).unwrap();
    let (decoded, chain_id) = decode_unsigned(&bytes).unwrap();
    assert_eq!(chain_id, 42);
    assert_tx_eq(&decoded, &tx);
}

#[test]
fn eip1559_round_trips_through_decoder() {
    let mut tx = legacy_tx();
    tx.transaction_type = Some(2);
    tx.max_priority_fee_per_gas = 1_000_000_000;
    tx.access_list = access_list();
    tx.data = vec![0xde, 0xad, 0xbe, 0xef];
    let bytes = tx.encode(1, None).unwrap();
    let (decoded, chain_id) = decode_unsigned(&bytes).unwrap();
    assert_eq!(chain_id, 1);
    assert_tx_eq(&decoded, &tx);
}

#[test]
fn type_zero_encodes_as_legacy_and_decodes_normalized() {
    let mut tx = legacy_tx();
    tx.transaction_type = Some(0);
    let bytes = tx.encode(5, None).unwrap();
    assert_eq!(bytes, legacy_tx().encode(5, None).unwrap());
    let (decoded, _) = decode_unsigned(&bytes).unwrap();
    assert_eq!(decoded.transaction_type, None);
}

#[test]
fn contract_creation_round_trips_through_decoder() {
    let mut tx = legacy_tx();
    tx.to = None;
    tx.data = vec![0x60, 0x80, 0x60, 0x40];
    let bytes = tx.encode(5, None).unwrap();
    let (decoded, _) = decode_unsigned(&bytes).unwrap();
    assert_eq!(decoded.to, None);
    assert_eq!(decoded.data, tx.data);
}

fn full_request() -> TransactionRequest {
    TransactionRequest {
        to: Some(sample_to()),
        nonce: Some(7),
        gas: Some(21_000),
        gas_price: Some(10_000_000_000),
        value: Some(123),
        data: Some(vec![1, 2, 3]),
        transaction_type: None,
        access_list: None,
        max_fee_per_gas: None,
        max_priority_fee_per_gas: None,
    }
}

#[test]
fn request_conversion_fills_legacy_defaults() {
    let tx = Transaction::from_transaction_request(full_request()).unwrap();
    assert_eq!(tx.nonce, 7);
    assert_eq!(tx.gas_price, 10_000_000_000);
    // For a non-fee-market request the priority fee inherits the price.
    assert_eq!(tx.max_priority_fee_per_gas, 10_000_000_000);
    assert!(tx.access_list.is_empty());
}

#[test]
fn request_conversion_uses_max_fee_for_fee_market() {
    let mut req = full_request();
    req.transaction_type = Some(2);
    req.gas_price = None;
    req.max_fee_per_gas = Some(20_000_000_000);
    let tx = Transaction::from_transaction_request(req).unwrap();
    assert_eq!(tx.gas_price, 20_000_000_000);
    // No explicit priority fee: it defaults to the effective gas price.
    assert_eq!(tx.max_priority_fee_per_gas, 20_000_000_000);
}

#[test]
fn request_conversion_keeps_explicit_priority_fee() {
    let mut req = full_request();
    req.transaction_type = Some(2);
    req.max_fee_per_gas = Some(20_000_000_000);
    req.max_priority_fee_per_gas = Some(1_000_000_000);
    let tx = Transaction::from_transaction_request(req).unwrap();
    assert_eq!(tx.gas_price, 20_000_000_000);
    assert_eq!(tx.max_priority_fee_per_gas, 1_000_000_000);
}

#[test]
fn request_conversion_reports_missing_fields() {
    let mut req = full_request();
    req.nonce = None;
    assert_eq!(
        Transaction::from_transaction_request(req).unwrap_err(),
        EncodingError::MissingField
    );
    let mut req = full_request();
    req.gas_price = None;
    assert_eq!(
        Transaction::from_transaction_request(req).unwrap_err(),
        EncodingError::MissingField
    );
}
