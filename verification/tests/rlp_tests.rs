//! RLP primitives against known vectors and against the rlp crate.

use ic_web3::rlp::{append_list, append_str, append_uint, append_uint_be};

#[test]
fn encodes_single_low_byte_as_itself() {
    let mut out: Vec<u8> = Vec::new();
    append_str(&mut out, &[0x0f]);
    assert_eq!(out, vec![0x0f]);
}

#[test]
fn encodes_empty_string_as_0x80() {
    let mut out: Vec<u8> = Vec::new();
    append_str(&mut out, &[]);
    assert_eq!(out, vec![0x80]);
}

#[test]
fn encodes_dog() {
    let mut out: Vec<u8> = Vec::new();
    append_str(&mut out, b"dog");
    assert_eq!(out, vec![0x83, b'd', b'o', b'g']);
}

#[test]
fn encodes_long_string_with_length_of_length() {
    let payload = [0x61u8; 56];
    let mut out: Vec<u8> = Vec::new();
    append_str(&mut out, &payload);
    let mut expected = vec![0xb8, 56];
    expected.extend_from_slice(&payload);
    assert_eq!(out, expected);
}

#[test]
fn encodes_zero_as_empty_string() {
    let mut out: Vec<u8> = Vec::new();
    append_uint(&mut out, 0);
    assert_eq!(out, vec![0x80]);
}

#[test]
fn encodes_1024() {
    let mut out: Vec<u8> = Vec::new();
    append_uint(&mut out, 1024);
    assert_eq!(out, vec![0x82, 0x04, 0x00]);
}

#[test]
fn encodes_integers_like_the_rlp_crate() {
    for v in [0u64, 1, 15, 127, 128, 255, 256, 1024, 0xffffff, u64::MAX] {
        let mut ours: Vec<u8> = Vec::new();
        append_uint(&mut ours, v as u128);
        let theirs = rlp::encode(&v);
        assert_eq!(ours, theirs.to_vec(), "value {v}");
    }
}

#[test]
fn encodes_strings_like_the_rlp_crate() {
    let cases: Vec<Vec<u8>> = vec![
        vec![],
        vec![0x00],
        vec![0x7f],
        vec![0x80],
        b"hello world".to_vec(),
        vec![0xaa; 55],
        vec![0xbb; 56],
        vec![0xcc; 300],
    ];
    for c in cases {
        let mut ours: Vec<u8> = Vec::new();
        append_str(&mut ours, &c);
        let theirs = rlp::encode(&c);
        assert_eq!(ours, theirs.to_vec(), "len {}", c.len());
    }
}

#[test]
fn encodes_big_endian_word_dropping_leading_zeros() {
    let word = {
        let mut w = [0u8; 32];
        w[30] = 0x01;
        w[31] = 0x02;
        w
    };
    let mut ours: Vec<u8> = Vec::new();
    append_uint_be(&mut ours, &word);
    assert_eq!(ours, vec![0x82, 0x01, 0x02]);

    let mut zero: Vec<u8> = Vec::new();
    append_uint_be(&mut zero, &[0u8; 32]);
    assert_eq!(zero, vec![0x80]);
}

#[test]
fn encodes_lists_like_the_rlp_crate() {
    // ["cat", "dog"] as a two-item list.
    let mut payload: Vec<u8> = Vec::new();
    append_str(&mut payload, b"cat");
    append_str(&mut payload, b"dog");
    let mut ours: Vec<u8> = Vec::new();
    append_list(&mut ours, &payload);

    let mut stream = rlp::RlpStream::new();
    stream.begin_list(2);
    stream.append(&b"cat".to_vec());
    stream.append(&b"dog".to_vec());
    assert_eq!(ours, stream.out().to_vec());
}
