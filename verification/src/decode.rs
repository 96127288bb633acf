//! Decoding of unsigned transaction serializations, and the proof that it
//! undoes the encoder: the round trip over all three transaction formats.

use vstd::prelude::*;

verus! {

use crate::rlp::{
    rlp_str, rlp_uint, rlp_list, rlp_len_prefix, be_bytes, be_val,
    parse_str, parse_uint, parse_list,
    lemma_parse_str_inverts, lemma_parse_uint_inverts, lemma_parse_list_inverts,
    lemma_be_bytes_len, lemma_pow256_8_16, pow256, lemma_add_assoc, lemma_add_empty,
};
use crate::tx::{
    TxView, AccessItemView, AccessListItem, Transaction, opt_vec_view, enc_to, enc_legacy_fields, enc_storage_keys, enc_access_item,
    enc_access_items, enc_access_list, enc_legacy_tx, enc_access_list_tx, enc_eip1559_tx,
    spec_encode,
};

/// Bound under which a field value is representable in the transaction model.
pub open spec fn fits_u128(n: nat) -> bool {
    n < 0x1_0000_0000_0000_0000_0000_0000_0000_0000
}

pub open spec fn fits_u64(n: nat) -> bool {
    n < 0x1_0000_0000_0000_0000
}

/// Well-formedness of a transaction image: field widths as the Ethereum
/// formats fix them, and sizes small enough that every length prefix in the
/// serialization is meaningful.
pub open spec fn wf_tx(t: TxView) -> bool {
    &&& match t.to {
        Some(a) => a.len() == 20,
        None => true,
    }
    &&& fits_u128(t.nonce)
    &&& fits_u128(t.gas)
    &&& fits_u128(t.gas_price)
    &&& fits_u128(t.value)
    &&& fits_u128(t.max_priority_fee_per_gas)
    &&& t.data.len() <= 0x1_0000_0000
    &&& t.access_list.len() <= 0x1_0000
    &&& wf_access_list(t.access_list)
}

pub open spec fn wf_access_list(items: Seq<AccessItemView>) -> bool {
    forall|i: int|
        0 <= i < items.len() ==> {
            &&& (#[trigger] items[i]).address.len() == 20
            &&& items[i].storage_keys.len() <= 0x1_0000
            &&& forall|j: int|
                0 <= j < items[i].storage_keys.len()
                    ==> (#[trigger] items[i].storage_keys[j]).len() == 32
        }
}

/// The snoc-style encoders seen from the front: what a parser meets first.
pub proof fn lemma_enc_storage_keys_cons(keys: Seq<Seq<u8>>)
    requires
        keys.len() > 0,
    ensures
        enc_storage_keys(keys) == rlp_str(keys.first()) + enc_storage_keys(keys.skip(1)),
    decreases keys.len(),
{
    if keys.len() == 1 {
        assert(keys.drop_last() =~= Seq::<Seq<u8>>::empty());
        assert(keys.skip(1) =~= Seq::<Seq<u8>>::empty());
        assert(enc_storage_keys(keys) =~= rlp_str(keys.first()) + enc_storage_keys(keys.skip(1)));
    } else {
        let k0 = keys.drop_last();
        lemma_enc_storage_keys_cons(k0);
        assert(k0.first() == keys.first());
        assert(k0.skip(1) =~= keys.skip(1).drop_last());
        assert(keys.skip(1).last() == keys.last());
        assert(rlp_str(keys.first()) + enc_storage_keys(k0.skip(1)) + rlp_str(keys.last())
            =~= rlp_str(keys.first()) + enc_storage_keys(keys.skip(1)));
        assert(enc_storage_keys(keys) =~= rlp_str(keys.first()) + enc_storage_keys(keys.skip(1)));
    }
}

pub proof fn lemma_enc_access_items_cons(items: Seq<AccessItemView>)
    requires
        items.len() > 0,
    ensures
        enc_access_items(items) == enc_access_item(items.first()) + enc_access_items(
            items.skip(1),
        ),
    decreases items.len(),
{
    if items.len() == 1 {
        assert(items.drop_last() =~= Seq::<AccessItemView>::empty());
        assert(items.skip(1) =~= Seq::<AccessItemView>::empty());
        assert(enc_access_items(items) =~= enc_access_item(items.first()) + enc_access_items(
            items.skip(1),
        ));
    } else {
        let i0 = items.drop_last();
        lemma_enc_access_items_cons(i0);
        assert(i0.first() == items.first());
        assert(i0.skip(1) =~= items.skip(1).drop_last());
        assert(items.skip(1).last() == items.last());
        assert(enc_access_item(items.first()) + enc_access_items(i0.skip(1)) + enc_access_item(
            items.last(),
        ) =~= enc_access_item(items.first()) + enc_access_items(items.skip(1)));
        assert(enc_access_items(items) =~= enc_access_item(items.first()) + enc_access_items(
            items.skip(1),
        ));
    }
}

/// Length of a string item: at most nine header bytes plus the payload.
pub proof fn lemma_rlp_str_len(s: Seq<u8>)
    requires
        s.len() < 0x1_0000_0000_0000_0000,
    ensures
        rlp_str(s).len() <= 9 + s.len(),
        rlp_str(s).len() >= 1,
{
    lemma_pow256_8_16();
    lemma_be_bytes_len(s.len(), 8);
}

/// Length of an integer item: a 128-bit value takes at most 17 bytes.
pub proof fn lemma_rlp_uint_len(n: nat)
    requires
        fits_u128(n),
    ensures
        rlp_uint(n).len() <= 17,
        rlp_uint(n).len() >= 1,
{
    lemma_pow256_8_16();
    lemma_be_bytes_len(n, 16);
    lemma_rlp_str_len(be_bytes(n));
}

/// A 32-byte storage key always encodes to exactly 33 bytes.
pub proof fn lemma_enc_storage_keys_len(keys: Seq<Seq<u8>>)
    requires
        forall|j: int| 0 <= j < keys.len() ==> (#[trigger] keys[j]).len() == 32,
    ensures
        enc_storage_keys(keys).len() == 33 * keys.len(),
    decreases keys.len(),
{
    if keys.len() > 0 {
        lemma_enc_storage_keys_len(keys.drop_last());
        assert(rlp_str(keys.last()) =~= rlp_len_prefix(0x80, 32) + keys.last());
    }
}

/// A well-formed access-list entry encodes to a bounded number of bytes.
pub proof fn lemma_enc_access_item_len(it: AccessItemView)
    requires
        it.address.len() == 20,
        it.storage_keys.len() <= 0x1_0000,
        forall|j: int| 0 <= j < it.storage_keys.len() ==> (#[trigger] it.storage_keys[j]).len() == 32,
    ensures
        enc_access_item(it).len() <= 39 + 33 * it.storage_keys.len(),
        enc_access_item(it).len() <= 0x21_0027,
{
    lemma_enc_storage_keys_len(it.storage_keys);
    let keys_payload = enc_storage_keys(it.storage_keys);
    lemma_pow256_8_16();
    lemma_be_bytes_len(keys_payload.len(), 8);
    assert(rlp_list(keys_payload).len() <= 9 + keys_payload.len());
    assert(rlp_str(it.address).len() == 21);
    let pair = rlp_str(it.address) + rlp_list(keys_payload);
    lemma_be_bytes_len(pair.len(), 8);
    assert(rlp_list(pair).len() <= 9 + pair.len());
}

pub proof fn lemma_enc_access_items_len(items: Seq<AccessItemView>)
    requires
        wf_access_list(items),
    ensures
        enc_access_items(items).len() <= 0x21_0027 * items.len(),
    decreases items.len(),
{
    if items.len() > 0 {
        let i0 = items.drop_last();
        assert(wf_access_list(i0)) by {
            assert(forall|i: int| 0 <= i < i0.len() ==> i0[i] == items[i]);
        }
        lemma_enc_access_items_len(i0);
        lemma_enc_access_item_len(items.last());
    }
}

/// Every list payload in a well-formed transaction's serialization is
/// shorter than 2^64 bytes, so its length prefixes parse back exactly.
pub proof fn lemma_enc_field_lens(t: TxView)
    requires
        wf_tx(t),
    ensures
        enc_legacy_fields(t).len() <= 0x1_0000_0100,
        enc_access_list(t.access_list).len() <= 0x2100_3300_0009,
{
    lemma_rlp_uint_len(t.nonce);
    lemma_rlp_uint_len(t.gas_price);
    lemma_rlp_uint_len(t.gas);
    lemma_rlp_uint_len(t.value);
    lemma_rlp_str_len(t.data);
    match t.to {
        Some(a) => {
            lemma_rlp_str_len(a);
        },
        None => {
            lemma_rlp_str_len(Seq::<u8>::empty());
        },
    }
    lemma_enc_access_items_len(t.access_list);
    assert(0x21_0027 * t.access_list.len() <= 0x21_0027 * 0x1_0000) by (nonlinear_arith)
        requires t.access_list.len() <= 0x1_0000;
    lemma_pow256_8_16();
    lemma_be_bytes_len(enc_access_items(t.access_list).len(), 8);
}

/// A decoded `to` field: the empty string is an absent recipient.
pub open spec fn dec_to(p: Seq<u8>) -> Option<Seq<u8>> {
    if p.len() == 0 {
        None
    } else {
        Some(p)
    }
}

/// Splits a storage-key list payload into its keys.
pub open spec fn dec_storage_keys(p: Seq<u8>) -> Option<Seq<Seq<u8>>>
    decreases p.len(),
{
    if p.len() == 0 {
        Some(Seq::empty())
    } else {
        match parse_str(p) {
            None => None,
            Some((k, rest)) => if rest.len() < p.len() {
                match dec_storage_keys(rest) {
                    None => None,
                    Some(ks) => Some(seq![k] + ks),
                }
            } else {
                None
            },
        }
    }
}

/// Splits an access-list payload into its `[address, [storage_key, ...]]`
/// entries.
pub open spec fn dec_access_items(p: Seq<u8>) -> Option<Seq<AccessItemView>>
    decreases p.len(),
{
    if p.len() == 0 {
        Some(Seq::empty())
    } else {
        match parse_list(p) {
            None => None,
            Some((pair, rest)) => if rest.len() < p.len() {
                match parse_str(pair) {
                    None => None,
                    Some((addr, r1)) => match parse_list(r1) {
                        None => None,
                        Some((keys_payload, r2)) => if r2.len() == 0 {
                            match dec_storage_keys(keys_payload) {
                                None => None,
                                Some(ks) => match dec_access_items(rest) {
                                    None => None,
                                    Some(its) => Some(
                                        seq![AccessItemView { address: addr, storage_keys: ks }]
                                            + its,
                                    ),
                                },
                            }
                        } else {
                            None
                        },
                    },
                }
            } else {
                None
            },
        }
    }
}

/// Parses the six shared fields in legacy order, returning them and the
/// remainder of the payload.
pub open spec fn dec_fields(p: Seq<u8>) -> Option<
    (nat, nat, nat, Option<Seq<u8>>, nat, Seq<u8>, Seq<u8>),
> {
    match parse_uint(p) {
        None => None,
        Some((nonce, p1)) => if !fits_u128(nonce) {
            None
        } else {
            match parse_uint(p1) {
                None => None,
                Some((gas_price, p2)) => if !fits_u128(gas_price) {
                    None
                } else {
                    match parse_uint(p2) {
                        None => None,
                        Some((gas, p3)) => if !fits_u128(gas) {
                            None
                        } else {
                            match parse_str(p3) {
                                None => None,
                                Some((to_b, p4)) => match parse_uint(p4) {
                                    None => None,
                                    Some((value, p5)) => if !fits_u128(value) {
                                        None
                                    } else {
                                        match parse_str(p5) {
                                            None => None,
                                            Some((data, rest)) => Some(
                                                (nonce, gas_price, gas, dec_to(to_b), value, data, rest),
                                            ),
                                        }
                                    },
                                },
                            }
                        },
                    }
                },
            }
        },
    }
}

/// Decodes an unsigned legacy serialization: a 9-item list ending in the
/// EIP-155 markers `[chain_id, 0, 0]`.
pub open spec fn dec_legacy(bytes: Seq<u8>) -> Option<(TxView, nat)> {
    match parse_list(bytes) {
        None => None,
        Some((payload, after)) => if after.len() != 0 {
            None
        } else {
            match dec_fields(payload) {
                None => None,
                Some((nonce, gas_price, gas, to, value, data, rest)) => match parse_uint(rest) {
                    None => None,
                    Some((chain_id, r1)) => if !fits_u64(chain_id) {
                        None
                    } else {
                        match parse_uint(r1) {
                            None => None,
                            Some((z1, r2)) => if z1 != 0 {
                                None
                            } else {
                                match parse_uint(r2) {
                                    None => None,
                                    Some((z2, r3)) => if z2 != 0 || r3.len() != 0 {
                                        None
                                    } else {
                                        Some(
                                            (
                                                TxView {
                                                    to,
                                                    nonce,
                                                    gas,
                                                    gas_price,
                                                    value,
                                                    data,
                                                    transaction_type: None,
                                                    access_list: Seq::empty(),
                                                    max_priority_fee_per_gas: gas_price,
                                                },
                                                chain_id,
                                            ),
                                        )
                                    },
                                }
                            },
                        }
                    },
                },
            }
        },
    }
}

/// Decodes the list part of an access-list serialization (after the 0x01
/// type byte).
pub open spec fn dec_access_list_tx(bytes: Seq<u8>) -> Option<(TxView, nat)> {
    match parse_list(bytes) {
        None => None,
        Some((payload, after)) => if after.len() != 0 {
            None
        } else {
            match parse_uint(payload) {
                None => None,
                Some((chain_id, p1)) => if !fits_u64(chain_id) {
                    None
                } else {
                    match dec_fields(p1) {
                        None => None,
                        Some((nonce, gas_price, gas, to, value, data, rest)) => match parse_list(
                            rest,
                        ) {
                            None => None,
                            Some((al_payload, r1)) => if r1.len() != 0 {
                                None
                            } else {
                                match dec_access_items(al_payload) {
                                    None => None,
                                    Some(items) => Some(
                                        (
                                            TxView {
                                                to,
                                                nonce,
                                                gas,
                                                gas_price,
                                                value,
                                                data,
                                                transaction_type: Some(crate::tx::ACCESSLISTS_TX_ID),
                                                access_list: items,
                                                max_priority_fee_per_gas: gas_price,
                                            },
                                            chain_id,
                                        ),
                                    ),
                                }
                            },
                        },
                    }
                },
            }
        },
    }
}

/// Decodes the list part of a fee-market serialization (after the 0x02
/// type byte).
pub open spec fn dec_eip1559_tx(bytes: Seq<u8>) -> Option<(TxView, nat)> {
    match parse_list(bytes) {
        None => None,
        Some((payload, after)) => if after.len() != 0 {
            None
        } else {
            match parse_uint(payload) {
                None => None,
                Some((chain_id, p1)) => if !fits_u64(chain_id) {
                    None
                } else {
                    match parse_uint(p1) {
                        None => None,
                        Some((nonce, p2)) => if !fits_u128(nonce) {
                            None
                        } else {
                            match parse_uint(p2) {
                                None => None,
                                Some((max_priority, p3)) => if !fits_u128(max_priority) {
                                    None
                                } else {
                                    match parse_uint(p3) {
                                        None => None,
                                        Some((gas_price, p4)) => if !fits_u128(gas_price) {
                                            None
                                        } else {
                                            match parse_uint(p4) {
                                                None => None,
                                                Some((gas, p5)) => if !fits_u128(gas) {
                                                    None
                                                } else {
                                                    match parse_str(p5) {
                                                        None => None,
                                                        Some((to_b, p6)) => match parse_uint(p6) {
                                                            None => None,
                                                            Some((value, p7)) => if !fits_u128(
                                                                value,
                                                            ) {
                                                                None
                                                            } else {
                                                                match parse_str(p7) {
                                                                    None => None,
                                                                    Some((data, p8)) => match parse_list(
                                                                        p8,
                                                                    ) {
                                                                        None => None,
                                                                        Some(
                                                                            (al_payload, r1),
                                                                        ) => if r1.len() != 0 {
                                                                            None
                                                                        } else {
                                                                            match dec_access_items(
                                                                                al_payload,
                                                                            ) {
                                                                                None => None,
                                                                                Some(items) => Some(
                                                                                    (
                                                                                        TxView {
                                                                                            to: dec_to(to_b),
                                                                                            nonce,
                                                                                            gas,
                                                                                            gas_price,
                                                                                            value,
                                                                                            data,
                                                                                            transaction_type: Some(
                                                                                                crate::tx::EIP1559_TX_ID,
                                                                                            ),
                                                                                            access_list: items,
                                                                                            max_priority_fee_per_gas:
                                                                                                max_priority,
                                                                                        },
                                                                                        chain_id,
                                                                                    ),
                                                                                ),
                                                                            }
                                                                        },
                                                                    },
                                                                }
                                                            },
                                                        },
                                                    }
                                                },
                                            }
                                        },
                                    }
                                },
                            }
                        },
                    }
                },
            }
        },
    }
}

/// Decodes any unsigned transaction serialization, keyed on its first byte.
pub open spec fn dec_unsigned(bytes: Seq<u8>) -> Option<(TxView, nat)> {
    if bytes.len() == 0 {
        None
    } else if bytes[0] == 1 {
        dec_access_list_tx(bytes.skip(1))
    } else if bytes[0] == 2 {
        dec_eip1559_tx(bytes.skip(1))
    } else {
        dec_legacy(bytes)
    }
}

pub proof fn lemma_dec_storage_keys_inverts(keys: Seq<Seq<u8>>)
    requires
        forall|j: int| 0 <= j < keys.len() ==> (#[trigger] keys[j]).len() == 32,
    ensures
        dec_storage_keys(enc_storage_keys(keys)) == Some(keys),
    decreases keys.len(),
{
    if keys.len() == 0 {
        assert(enc_storage_keys(keys).len() == 0);
        assert(dec_storage_keys(enc_storage_keys(keys)) == Some(Seq::<Seq<u8>>::empty()));
        assert(keys =~= Seq::<Seq<u8>>::empty());
    } else {
        let p = enc_storage_keys(keys);
        let tail = keys.skip(1);
        lemma_enc_storage_keys_cons(keys);
        lemma_parse_str_inverts(keys.first(), enc_storage_keys(tail));
        assert(parse_str(p) == Some((keys.first(), enc_storage_keys(tail))));
        lemma_rlp_str_len(keys.first());
        assert(enc_storage_keys(tail).len() < p.len());
        assert(forall|j: int| 0 <= j < tail.len() ==> (#[trigger] tail[j]).len() == 32);
        lemma_dec_storage_keys_inverts(tail);
        assert(seq![keys.first()] + tail =~= keys);
    }
}

pub proof fn lemma_dec_access_items_inverts(items: Seq<AccessItemView>)
    requires
        wf_access_list(items),
    ensures
        dec_access_items(enc_access_items(items)) == Some(items),
    decreases items.len(),
{
    if items.len() == 0 {
        assert(enc_access_items(items).len() == 0);
        assert(items =~= Seq::<AccessItemView>::empty());
    } else {
        let p = enc_access_items(items);
        let it = items.first();
        let tail = items.skip(1);
        assert(it == items[0]);
        lemma_enc_access_items_cons(items);

        let keys_payload = enc_storage_keys(it.storage_keys);
        let pair = rlp_str(it.address) + rlp_list(keys_payload);
        lemma_enc_storage_keys_len(it.storage_keys);
        lemma_pow256_8_16();
        lemma_be_bytes_len(keys_payload.len(), 8);
        assert(pair.len() < 0x1_0000_0000_0000_0000);
        lemma_parse_list_inverts(pair, enc_access_items(tail));
        assert(enc_access_item(it) + enc_access_items(tail) =~= rlp_list(pair)
            + enc_access_items(tail));
        assert(parse_list(p) == Some((pair, enc_access_items(tail))));
        assert(enc_access_items(tail).len() < p.len());

        lemma_parse_str_inverts(it.address, rlp_list(keys_payload));
        assert(pair =~= rlp_str(it.address) + rlp_list(keys_payload));
        lemma_parse_list_inverts(keys_payload, Seq::empty());
        assert(rlp_list(keys_payload) + Seq::<u8>::empty() =~= rlp_list(keys_payload));
        assert(parse_list(rlp_list(keys_payload)) == Some((keys_payload, Seq::<u8>::empty())));
        lemma_dec_storage_keys_inverts(it.storage_keys);

        assert(wf_access_list(tail)) by {
            assert(forall|i: int| 0 <= i < tail.len() ==> tail[i] == items[i + 1]);
        }
        lemma_dec_access_items_inverts(tail);
        assert(AccessItemView { address: it.address, storage_keys: it.storage_keys } == it);
        assert(seq![it] + tail =~= items);
    }
}

/// Evaluates `dec_fields` given the result of each parsing step.
#[verifier::rlimit(100)]
proof fn lemma_dec_fields_steps(
    p: Seq<u8>,
    s1: Seq<u8>,
    s2: Seq<u8>,
    s3: Seq<u8>,
    s4: Seq<u8>,
    s5: Seq<u8>,
    rest: Seq<u8>,
    nonce: nat,
    gas_price: nat,
    gas: nat,
    tob: Seq<u8>,
    to: Option<Seq<u8>>,
    value: nat,
    data: Seq<u8>,
)
    requires
        dec_to(tob) == to,
        parse_uint(p) == Some((nonce, s1)),
        fits_u128(nonce),
        parse_uint(s1) == Some((gas_price, s2)),
        fits_u128(gas_price),
        parse_uint(s2) == Some((gas, s3)),
        fits_u128(gas),
        parse_str(s3) == Some((tob, s4)),
        parse_uint(s4) == Some((value, s5)),
        fits_u128(value),
        parse_str(s5) == Some((data, rest)),
    ensures
        dec_fields(p) == Some((nonce, gas_price, gas, to, value, data, rest)),
{
}

pub proof fn lemma_dec_fields_inverts(t: TxView, rest: Seq<u8>)
    requires
        wf_tx(t),
    ensures
        dec_fields(enc_legacy_fields(t) + rest) == Some(
            (t.nonce, t.gas_price, t.gas, t.to, t.value, t.data, rest),
        ),
{
    let f5 = rlp_str(t.data);
    let f4 = rlp_uint(t.value) + f5;
    let f3 = enc_to(t.to) + f4;
    let f2 = rlp_uint(t.gas) + f3;
    let f1 = rlp_uint(t.gas_price) + f2;
    let s0 = enc_legacy_fields(t) + rest;
    let s1 = f1 + rest;
    let s2 = f2 + rest;
    let s3 = f3 + rest;
    let s4 = f4 + rest;
    let s5 = f5 + rest;
    lemma_add_assoc(rlp_uint(t.nonce), f1, rest);
    lemma_parse_uint_inverts(t.nonce, s1);
    assert(parse_uint(s0) == Some((t.nonce, s1)));
    lemma_add_assoc(rlp_uint(t.gas_price), f2, rest);
    lemma_parse_uint_inverts(t.gas_price, s2);
    assert(parse_uint(s1) == Some((t.gas_price, s2)));
    lemma_add_assoc(rlp_uint(t.gas), f3, rest);
    lemma_parse_uint_inverts(t.gas, s3);
    assert(parse_uint(s2) == Some((t.gas, s3)));
    let tob = match t.to {
        Some(a) => a,
        None => Seq::<u8>::empty(),
    };
    assert(enc_to(t.to) == rlp_str(tob));
    assert(dec_to(tob) == t.to);
    lemma_add_assoc(rlp_str(tob), f4, rest);
    lemma_parse_str_inverts(tob, s4);
    assert(parse_str(s3) == Some((tob, s4)));
    lemma_add_assoc(rlp_uint(t.value), f5, rest);
    lemma_parse_uint_inverts(t.value, s5);
    assert(parse_uint(s4) == Some((t.value, s5)));
    lemma_parse_str_inverts(t.data, rest);
    assert(parse_str(s5) == Some((t.data, rest)));
    lemma_dec_fields_steps(
        s0, s1, s2, s3, s4, s5, rest, t.nonce, t.gas_price, t.gas, tob, t.to, t.value, t.data,
    );
}

pub proof fn lemma_dec_legacy_inverts(t: TxView, chain_id: nat)
    requires
        wf_tx(t),
        fits_u64(chain_id),
    ensures
        dec_legacy(enc_legacy_tx(t, chain_id, None)) == Some(
            (
                TxView {
                    transaction_type: None,
                    access_list: Seq::empty(),
                    max_priority_fee_per_gas: t.gas_price,
                    ..t
                },
                chain_id,
            ),
        ),
{
    let markers = rlp_uint(chain_id) + (rlp_uint(0) + rlp_uint(0));
    let payload = enc_legacy_fields(t) + markers;
    assert(payload.len() < 0x1_0000_0000_0000_0000) by {
        lemma_enc_field_lens(t);
        lemma_rlp_uint_len(chain_id);
        lemma_rlp_uint_len(0);
    }
    lemma_parse_list_inverts(payload, Seq::empty());
    lemma_add_empty(rlp_list(payload));
    assert(parse_list(enc_legacy_tx(t, chain_id, None)) == Some((payload, Seq::<u8>::empty())));
    lemma_dec_fields_inverts(t, markers);
    let m1 = rlp_uint(0) + rlp_uint(0);
    lemma_parse_uint_inverts(chain_id, m1);
    assert(parse_uint(markers) == Some((chain_id, m1)));
    lemma_parse_uint_inverts(0, rlp_uint(0));
    assert(parse_uint(m1) == Some((0 as nat, rlp_uint(0))));
    lemma_add_empty(rlp_uint(0));
    lemma_parse_uint_inverts(0, Seq::empty());
    assert(parse_uint(rlp_uint(0)) == Some((0 as nat, Seq::<u8>::empty())));
}

pub proof fn lemma_dec_access_list_tx_inverts(t: TxView, chain_id: nat)
    requires
        wf_tx(t),
        fits_u64(chain_id),
    ensures
        dec_access_list_tx(enc_access_list_tx(t, chain_id, None).skip(1)) == Some(
            (
                TxView {
                    transaction_type: Some(crate::tx::ACCESSLISTS_TX_ID),
                    max_priority_fee_per_gas: t.gas_price,
                    ..t
                },
                chain_id,
            ),
        ),
{
    let al_tail = enc_access_list(t.access_list) + Seq::<u8>::empty();
    let p1 = enc_legacy_fields(t) + al_tail;
    let payload = rlp_uint(chain_id) + p1;
    assert(payload.len() < 0x1_0000_0000_0000_0000) by {
        lemma_enc_field_lens(t);
        lemma_rlp_uint_len(chain_id);
    }
    lemma_parse_list_inverts(payload, Seq::empty());
    lemma_add_empty(rlp_list(payload));
    assert(enc_access_list_tx(t, chain_id, None).skip(1) =~= rlp_list(payload));
    assert(parse_list(enc_access_list_tx(t, chain_id, None).skip(1)) == Some(
        (payload, Seq::<u8>::empty()),
    ));
    lemma_parse_uint_inverts(chain_id, p1);
    assert(parse_uint(payload) == Some((chain_id, p1)));
    lemma_dec_fields_inverts(t, al_tail);
    assert(enc_access_items(t.access_list).len() < 0x1_0000_0000_0000_0000) by {
        lemma_enc_access_items_len(t.access_list);
        assert(0x21_0027 * t.access_list.len() <= 0x21_0027 * 0x1_0000) by (nonlinear_arith)
            requires t.access_list.len() <= 0x1_0000;
    }
    lemma_parse_list_inverts(enc_access_items(t.access_list), Seq::empty());
    assert(parse_list(al_tail) == Some((enc_access_items(t.access_list), Seq::<u8>::empty())));
    lemma_dec_access_items_inverts(t.access_list);
}

/// Evaluates `dec_eip1559_tx` given the result of each parsing step.
proof fn lemma_dec_eip1559_steps(
    bytes: Seq<u8>,
    payload: Seq<u8>,
    s1: Seq<u8>,
    s2: Seq<u8>,
    s3: Seq<u8>,
    s4: Seq<u8>,
    s5: Seq<u8>,
    s6: Seq<u8>,
    s7: Seq<u8>,
    s8: Seq<u8>,
    al_payload: Seq<u8>,
    chain_id: nat,
    nonce: nat,
    max_priority: nat,
    gas_price: nat,
    gas: nat,
    tob: Seq<u8>,
    to: Option<Seq<u8>>,
    value: nat,
    data: Seq<u8>,
    items: Seq<AccessItemView>,
)
    requires
        dec_to(tob) == to,
        parse_list(bytes) == Some((payload, Seq::<u8>::empty())),
        parse_uint(payload) == Some((chain_id, s1)),
        fits_u64(chain_id),
        parse_uint(s1) == Some((nonce, s2)),
        fits_u128(nonce),
        parse_uint(s2) == Some((max_priority, s3)),
        fits_u128(max_priority),
        parse_uint(s3) == Some((gas_price, s4)),
        fits_u128(gas_price),
        parse_uint(s4) == Some((gas, s5)),
        fits_u128(gas),
        parse_str(s5) == Some((tob, s6)),
        parse_uint(s6) == Some((value, s7)),
        fits_u128(value),
        parse_str(s7) == Some((data, s8)),
        parse_list(s8) == Some((al_payload, Seq::<u8>::empty())),
        dec_access_items(al_payload) == Some(items),
    ensures
        dec_eip1559_tx(bytes) == Some(
            (
                TxView {
                    to,
                    nonce,
                    gas,
                    gas_price,
                    value,
                    data,
                    transaction_type: Some(crate::tx::EIP1559_TX_ID),
                    access_list: items,
                    max_priority_fee_per_gas: max_priority,
                },
                chain_id,
            ),
        ),
{
}

#[verifier::rlimit(100)]
pub proof fn lemma_dec_eip1559_tx_inverts(t: TxView, chain_id: nat)
    requires
        wf_tx(t),
        fits_u64(chain_id),
    ensures
        dec_eip1559_tx(enc_eip1559_tx(t, chain_id, None).skip(1)) == Some(
            (TxView { transaction_type: Some(crate::tx::EIP1559_TX_ID), ..t }, chain_id),
        ),
{
    let e9 = enc_access_list(t.access_list) + Seq::<u8>::empty();
    let e8 = rlp_str(t.data) + e9;
    let e7 = rlp_uint(t.value) + e8;
    let e6 = enc_to(t.to) + e7;
    let e5 = rlp_uint(t.gas) + e6;
    let e4 = rlp_uint(t.gas_price) + e5;
    let e3 = rlp_uint(t.max_priority_fee_per_gas) + e4;
    let e2 = rlp_uint(t.nonce) + e3;
    let payload = rlp_uint(chain_id) + e2;
    assert(payload.len() < 0x1_0000_0000_0000_0000) by {
        lemma_enc_field_lens(t);
        lemma_rlp_uint_len(chain_id);
        lemma_rlp_uint_len(t.nonce);
        lemma_rlp_uint_len(t.max_priority_fee_per_gas);
    }
    lemma_parse_list_inverts(payload, Seq::empty());
    lemma_add_empty(rlp_list(payload));
    assert(enc_eip1559_tx(t, chain_id, None).skip(1) =~= rlp_list(payload));
    assert(parse_list(enc_eip1559_tx(t, chain_id, None).skip(1)) == Some(
        (payload, Seq::<u8>::empty()),
    ));
    lemma_parse_uint_inverts(chain_id, e2);
    lemma_parse_uint_inverts(t.nonce, e3);
    lemma_parse_uint_inverts(t.max_priority_fee_per_gas, e4);
    lemma_parse_uint_inverts(t.gas_price, e5);
    lemma_parse_uint_inverts(t.gas, e6);
    let tob = match t.to {
        Some(a) => a,
        None => Seq::<u8>::empty(),
    };
    assert(enc_to(t.to) == rlp_str(tob));
    assert(dec_to(tob) == t.to);
    lemma_parse_str_inverts(tob, e7);
    assert(parse_str(e6) == Some((tob, e7)));
    lemma_parse_uint_inverts(t.value, e8);
    lemma_parse_str_inverts(t.data, e9);
    assert(enc_access_items(t.access_list).len() < 0x1_0000_0000_0000_0000) by {
        lemma_enc_access_items_len(t.access_list);
        assert(0x21_0027 * t.access_list.len() <= 0x21_0027 * 0x1_0000) by (nonlinear_arith)
            requires t.access_list.len() <= 0x1_0000;
    }
    lemma_parse_list_inverts(enc_access_items(t.access_list), Seq::empty());
    assert(parse_list(e9) == Some((enc_access_items(t.access_list), Seq::<u8>::empty())));
    lemma_dec_access_items_inverts(t.access_list);
    lemma_dec_eip1559_steps(
        enc_eip1559_tx(t, chain_id, None).skip(1),
        payload,
        e2,
        e3,
        e4,
        e5,
        e6,
        e7,
        e8,
        e9,
        enc_access_items(t.access_list),
        chain_id,
        t.nonce,
        t.max_priority_fee_per_gas,
        t.gas_price,
        t.gas,
        tob,
        t.to,
        t.value,
        t.data,
        t.access_list,
    );
    assert(TxView {
        to: t.to,
        nonce: t.nonce,
        gas: t.gas,
        gas_price: t.gas_price,
        value: t.value,
        data: t.data,
        transaction_type: Some(crate::tx::EIP1559_TX_ID),
        access_list: t.access_list,
        max_priority_fee_per_gas: t.max_priority_fee_per_gas,
    } == TxView { transaction_type: Some(crate::tx::EIP1559_TX_ID), ..t });
}

/// Round trip: decoding the unsigned serialization of a well-formed
/// transaction returns every field value unchanged, together with the
/// chain id, for each of the three formats. (Fields a format does not
/// carry are required to hold their neutral values: a legacy transaction
/// has no access list in its serialization, and only a fee-market
/// transaction carries `max_priority_fee_per_gas`.)
pub proof fn lemma_decode_encode_roundtrip(t: TxView, chain_id: nat)
    requires
        wf_tx(t),
        fits_u64(chain_id),
        t.transaction_type is None || t.transaction_type == Some(crate::tx::ACCESSLISTS_TX_ID)
            || t.transaction_type == Some(crate::tx::EIP1559_TX_ID),
        t.transaction_type is None ==> t.access_list.len() == 0,
        t.transaction_type != Some(crate::tx::EIP1559_TX_ID) ==> t.max_priority_fee_per_gas
            == t.gas_price,
    ensures
        spec_encode(t, chain_id, None) is Some,
        spec_encode(t, chain_id, None) matches Some(bytes) ==> dec_unsigned(bytes) == Some(
            (t, chain_id),
        ),
{
    if t.transaction_type is None {
        let bytes = enc_legacy_tx(t, chain_id, None);
        lemma_dec_legacy_inverts(t, chain_id);
        assert(bytes.len() > 0 && bytes[0] >= 0xc0) by {
            lemma_enc_field_lens(t);
            lemma_rlp_uint_len(chain_id);
            lemma_rlp_uint_len(0);
            lemma_pow256_8_16();
            let payload = enc_legacy_fields(t) + (rlp_uint(chain_id) + (rlp_uint(0) + rlp_uint(
                0,
            )));
            lemma_be_bytes_len(payload.len(), 8);
        }
        assert(t.access_list =~= Seq::<AccessItemView>::empty());
        assert(TxView {
            transaction_type: None,
            access_list: Seq::empty(),
            max_priority_fee_per_gas: t.gas_price,
            ..t
        } == t);
    } else if t.transaction_type == Some(crate::tx::ACCESSLISTS_TX_ID) {
        let bytes = enc_access_list_tx(t, chain_id, None);
        lemma_dec_access_list_tx_inverts(t, chain_id);
        assert(bytes.len() > 0 && bytes[0] == 1);
        assert(TxView {
            transaction_type: Some(crate::tx::ACCESSLISTS_TX_ID),
            max_priority_fee_per_gas: t.gas_price,
            ..t
        } == t);
    } else {
        let bytes = enc_eip1559_tx(t, chain_id, None);
        lemma_dec_eip1559_tx_inverts(t, chain_id);
        assert(bytes.len() > 0 && bytes[0] == 2);
        assert(TxView { transaction_type: Some(crate::tx::EIP1559_TX_ID), ..t } == t);
    }
}


/// `be_val` of a minimal (no leading zero) sequence of `k` bytes is at
/// least `256^(k-1)`.
pub proof fn lemma_be_val_lower(s: Seq<u8>)
    requires
        s.len() > 0,
        s.first() != 0,
    ensures
        be_val(s) >= pow256((s.len() - 1) as nat),
    decreases s.len(),
{
    if s.len() == 1 {
        reveal_with_fuel(crate::rlp::pow256, 2);
        reveal_with_fuel(be_val, 2);
        assert(s.drop_last() =~= Seq::<u8>::empty());
    } else {
        assert(s.drop_last().first() == s.first());
        lemma_be_val_lower(s.drop_last());
        assert(be_val(s) == be_val(s.drop_last()) * 256 + s.last());
        assert(be_val(s.drop_last()) * 256 >= pow256((s.len() - 2) as nat) * 256)
            by (nonlinear_arith)
            requires be_val(s.drop_last()) >= pow256((s.len() - 2) as nat);
        assert(pow256((s.len() - 1) as nat) == 256 * pow256((s.len() - 2) as nat));
    }
}

/// Reads one byte-string item starting at `pos`: its payload bytes and the
/// position just past the item.
fn take_str(bytes: &Vec<u8>, pos: usize) -> (r: Option<(Vec<u8>, usize)>)
    requires
        pos <= bytes@.len(),
    ensures
        match r {
            Some(p) => {
                &&& pos < p.1 <= bytes@.len()
                &&& parse_str(bytes@.skip(pos as int)) == Some((p.0@, bytes@.skip(p.1 as int)))
            },
            None => parse_str(bytes@.skip(pos as int)) is None,
        },
{
    proof {
        reveal(parse_str);
    }
    let ghost s = bytes@.skip(pos as int);
    if pos >= bytes.len() {
        return None;
    }
    let b0 = bytes[pos];
    assert(s[0] == b0);
    if b0 < 0x80 {
        let mut payload: Vec<u8> = Vec::new();
        payload.push(b0);
        proof {
            assert(payload@ =~= seq![s[0]]);
            assert(bytes@.skip(pos + 1) =~= s.skip(1));
        }
        Some((payload, pos + 1))
    } else if b0 <= 0xb7 {
        let n = (b0 - 0x80) as usize;
        if bytes.len() - pos - 1 < n {
            return None;
        }
        let endp = pos + 1 + n;
        let payload = vstd::slice::slice_to_vec(
            vstd::slice::slice_subrange(bytes.as_slice(), pos + 1, endp),
        );
        proof {
            assert(payload@ =~= s.subrange(1, 1 + n));
            assert(bytes@.skip(endp as int) =~= s.skip(1 + n));
        }
        Some((payload, endp))
    } else if b0 <= 0xbf {
        let k = (b0 - 0xb7) as usize;
        if bytes.len() - pos - 1 < k {
            return None;
        }
        let n = read_be_len(bytes, pos + 1, k);
        proof {
            assert(bytes@.subrange(pos + 1, pos + 1 + k) =~= s.subrange(1, 1 + k));
        }
        if ((bytes.len() - pos - 1 - k) as u128) < n {
            return None;
        }
        let n_us = n as usize;
        let endp = pos + 1 + k + n_us;
        let payload = vstd::slice::slice_to_vec(
            vstd::slice::slice_subrange(bytes.as_slice(), pos + 1 + k, endp),
        );
        proof {
            assert(payload@ =~= s.subrange(1 + k, 1 + k + n_us));
            assert(bytes@.skip(endp as int) =~= s.skip(1 + k + n_us));
        }
        Some((payload, endp))
    } else {
        None
    }
}

/// Reads one list header starting at `pos`: a copy of the concatenated
/// item encodings inside the list, and the position just past the list.
fn take_list(bytes: &Vec<u8>, pos: usize) -> (r: Option<(Vec<u8>, usize)>)
    requires
        pos <= bytes@.len(),
    ensures
        match r {
            Some(p) => {
                &&& pos < p.1 <= bytes@.len()
                &&& parse_list(bytes@.skip(pos as int)) == Some((p.0@, bytes@.skip(p.1 as int)))
            },
            None => parse_list(bytes@.skip(pos as int)) is None,
        },
{
    proof {
        reveal(parse_list);
    }
    let ghost s = bytes@.skip(pos as int);
    if pos >= bytes.len() {
        return None;
    }
    let b0 = bytes[pos];
    assert(s[0] == b0);
    if b0 < 0xc0 {
        None
    } else if b0 <= 0xf7 {
        let n = (b0 - 0xc0) as usize;
        if bytes.len() - pos - 1 < n {
            return None;
        }
        let endp = pos + 1 + n;
        let payload = vstd::slice::slice_to_vec(
            vstd::slice::slice_subrange(bytes.as_slice(), pos + 1, endp),
        );
        proof {
            assert(payload@ =~= s.subrange(1, 1 + n));
            assert(bytes@.skip(endp as int) =~= s.skip(1 + n));
        }
        Some((payload, endp))
    } else {
        let k = (b0 - 0xf7) as usize;
        if bytes.len() - pos - 1 < k {
            return None;
        }
        let n = read_be_len(bytes, pos + 1, k);
        proof {
            assert(bytes@.subrange(pos + 1, pos + 1 + k) =~= s.subrange(1, 1 + k));
        }
        if ((bytes.len() - pos - 1 - k) as u128) < n {
            return None;
        }
        let n_us = n as usize;
        let endp = pos + 1 + k + n_us;
        let payload = vstd::slice::slice_to_vec(
            vstd::slice::slice_subrange(bytes.as_slice(), pos + 1 + k, endp),
        );
        proof {
            assert(payload@ =~= s.subrange(1 + k, 1 + k + n_us));
            assert(bytes@.skip(endp as int) =~= s.skip(1 + k + n_us));
        }
        Some((payload, endp))
    }
}

/// Reads a `k`-byte big-endian length word (`k` at most 8).
fn read_be_len(bytes: &Vec<u8>, start: usize, k: usize) -> (n: u128)
    requires
        k <= 8,
        start + k <= bytes@.len(),
    ensures
        n == be_val(bytes@.subrange(start as int, start + k)),
{
    proof {
        lemma_pow256_8_16();
    }
    let blen: usize = bytes.len();
    let mut n: u128 = 0;
    let mut i: usize = 0;
    while i < k
        invariant
            i <= k,
            k <= 8,
            blen == bytes@.len(),
            start + k <= blen,
            n == be_val(bytes@.subrange(start as int, start + i)),
            n < pow256(i as nat),
        decreases k - i,
    {
        let b = bytes[start + i];
        proof {
            lemma_pow256_8_16();
            assert(pow256(i as nat) * 256 == pow256((i + 1) as nat));
            assert(n * 256 + b < pow256((i + 1) as nat)) by (nonlinear_arith)
                requires
                    n < pow256(i as nat),
                    b < 256,
                    pow256(i as nat) * 256 == pow256((i + 1) as nat),
            ;
            assert(pow256((i + 1) as nat) <= pow256(8)) by {
                lemma_pow256_monotone((i + 1) as nat, 8);
            }
            assert(n * 256 + b < 0x1_0000_0000_0000_0000);
        }
        n = n * 256 + (b as u128);
        i = i + 1;
        proof {
            let sub = bytes@.subrange(start as int, start + i);
            assert(sub.drop_last() =~= bytes@.subrange(start as int, start + i - 1));
            assert(sub.last() == bytes@[start + i - 1]);
        }
    }
    proof {
        assert(bytes@.subrange(start as int, start + i) =~= bytes@.subrange(
            start as int,
            start + k,
        ));
    }
    n
}

pub proof fn lemma_pow256_monotone(a: nat, b: nat)
    requires
        a <= b,
    ensures
        pow256(a) <= pow256(b),
    decreases b,
{
    if a < b {
        lemma_pow256_monotone(a, (b - 1) as nat);
        assert(pow256(b) == 256 * pow256((b - 1) as nat));
    }
}


/// Reads one integer item: `None` when no byte-string item starts here or
/// the value does not fit in 128 bits.
fn take_uint(bytes: &Vec<u8>, pos: usize) -> (r: Option<(u128, usize)>)
    requires
        pos <= bytes@.len(),
    ensures
        match r {
            Some(p) => {
                &&& pos < p.1 <= bytes@.len()
                &&& parse_uint(bytes@.skip(pos as int)) == Some(
                    (p.0 as nat, bytes@.skip(p.1 as int)),
                )
            },
            None => parse_uint(bytes@.skip(pos as int)) is None || (parse_uint(
                bytes@.skip(pos as int),
            ) matches Some(q) && !fits_u128(q.0)),
        },
{
    let (payload, endp) = match take_str(bytes, pos) {
        Some(x) => x,
        None => {
            return None;
        },
    };
    let mut i: usize = 0;
    proof {
        assert(payload@.skip(0) =~= payload@);
    }
    while i < payload.len() && payload[i] == 0
        invariant
            i <= payload@.len(),
            crate::rlp::strip_zeros(payload@) == crate::rlp::strip_zeros(
                payload@.skip(i as int),
            ),
        decreases payload@.len() - i,
    {
        proof {
            assert(payload@.skip(i as int).skip(1) =~= payload@.skip(i + 1));
        }
        i = i + 1;
    }
    proof {
        if i < payload@.len() {
            assert(crate::rlp::strip_zeros(payload@.skip(i as int)) =~= payload@.skip(i as int));
        } else {
            assert(payload@.skip(i as int) =~= Seq::<u8>::empty());
            assert(crate::rlp::strip_zeros(payload@.skip(i as int)) =~= Seq::<u8>::empty());
        }
        crate::rlp::lemma_strip_zeros_val(payload@);
    }
    let klen = payload.len() - i;
    if klen > 16 {
        proof {
            lemma_be_val_lower(payload@.skip(i as int));
            lemma_pow256_monotone(16, (klen - 1) as nat);
            lemma_pow256_8_16();
        }
        return None;
    }
    let v = read_be_val(&payload, i, klen);
    proof {
        assert(payload@.subrange(i as int, i + klen) =~= payload@.skip(i as int));
        crate::rlp::lemma_be_val_bound(payload@.skip(i as int));
        lemma_pow256_monotone(payload@.skip(i as int).len() as nat, 16);
        lemma_pow256_8_16();
    }
    Some((v, endp))
}

/// Reads a `k`-byte big-endian word, `k` at most 16.
fn read_be_val(bytes: &Vec<u8>, start: usize, k: usize) -> (n: u128)
    requires
        k <= 16,
        start + k <= bytes@.len(),
    ensures
        n == be_val(bytes@.subrange(start as int, start + k)),
{
    proof {
        lemma_pow256_8_16();
    }
    let blen: usize = bytes.len();
    let mut n: u128 = 0;
    let mut i: usize = 0;
    while i < k
        invariant
            i <= k,
            k <= 16,
            blen == bytes@.len(),
            start + k <= blen,
            n == be_val(bytes@.subrange(start as int, start + i)),
            n < pow256(i as nat),
        decreases k - i,
    {
        let b = bytes[start + i];
        proof {
            lemma_pow256_8_16();
            assert(pow256(i as nat) * 256 == pow256((i + 1) as nat));
            assert(n * 256 + b < pow256((i + 1) as nat)) by (nonlinear_arith)
                requires
                    n < pow256(i as nat),
                    b < 256,
                    pow256(i as nat) * 256 == pow256((i + 1) as nat),
            ;
            assert(pow256((i + 1) as nat) <= pow256(16)) by {
                lemma_pow256_monotone((i + 1) as nat, 16);
            }
            assert(n * 256 + b < 0x1_0000_0000_0000_0000_0000_0000_0000_0000);
        }
        n = n * 256 + (b as u128);
        i = i + 1;
        proof {
            let sub = bytes@.subrange(start as int, start + i);
            assert(sub.drop_last() =~= bytes@.subrange(start as int, start + i - 1));
            assert(sub.last() == bytes@[start + i - 1]);
        }
    }
    proof {
        assert(bytes@.subrange(start as int, start + i) =~= bytes@.subrange(
            start as int,
            start + k,
        ));
    }
    n
}

/// The six shared fields read off an item stream.
struct FieldsOut {
    nonce: u128,
    gas_price: u128,
    gas: u128,
    to: Option<Vec<u8>>,
    value: u128,
    data: Vec<u8>,
    end: usize,
}

/// Reads the six shared fields in legacy order.
fn take_fields(bytes: &Vec<u8>, pos: usize) -> (r: Option<FieldsOut>)
    requires
        pos <= bytes@.len(),
    ensures
        match r {
            Some(f) => {
                &&& pos < f.end <= bytes@.len()
                &&& dec_fields(bytes@.skip(pos as int)) == Some(
                    (
                        f.nonce as nat,
                        f.gas_price as nat,
                        f.gas as nat,
                        opt_vec_view(f.to),
                        f.value as nat,
                        f.data@,
                        bytes@.skip(f.end as int),
                    ),
                )
            },
            None => dec_fields(bytes@.skip(pos as int)) is None,
        },
{
    let (nonce, p1) = match take_uint(bytes, pos) {
        Some(x) => x,
        None => {
            return None;
        },
    };
    let (gas_price, p2) = match take_uint(bytes, p1) {
        Some(x) => x,
        None => {
            return None;
        },
    };
    let (gas, p3) = match take_uint(bytes, p2) {
        Some(x) => x,
        None => {
            return None;
        },
    };
    let (to_b, p4) = match take_str(bytes, p3) {
        Some(x) => x,
        None => {
            return None;
        },
    };
    let (value, p5) = match take_uint(bytes, p4) {
        Some(x) => x,
        None => {
            return None;
        },
    };
    let (data, p6) = match take_str(bytes, p5) {
        Some(x) => x,
        None => {
            return None;
        },
    };
    let ghost tobv = to_b@;
    let to: Option<Vec<u8>> = if to_b.len() == 0 {
        None
    } else {
        Some(to_b)
    };
    proof {
        assert(dec_to(tobv) == opt_vec_view(to));
        lemma_dec_fields_steps(
            bytes@.skip(pos as int),
            bytes@.skip(p1 as int),
            bytes@.skip(p2 as int),
            bytes@.skip(p3 as int),
            bytes@.skip(p4 as int),
            bytes@.skip(p5 as int),
            bytes@.skip(p6 as int),
            nonce as nat,
            gas_price as nat,
            gas as nat,
            tobv,
            opt_vec_view(to),
            value as nat,
            data@,
        );
    }
    Some(FieldsOut { nonce, gas_price, gas, to, value, data, end: p6 })
}

/// Splits a storage-key list payload into its keys.
fn take_storage_keys(payload: &Vec<u8>) -> (r: Option<Vec<Vec<u8>>>)
    ensures
        match r {
            Some(ks) => dec_storage_keys(payload@) == Some(
                ks@.map_values(|k: Vec<u8>| k@),
            ),
            None => dec_storage_keys(payload@) is None,
        },
{
    let mut ks: Vec<Vec<u8>> = Vec::new();
    let mut pos: usize = 0;
    proof {
        assert(payload@.skip(0) =~= payload@);
        assert(ks@.map_values(|k: Vec<u8>| k@) =~= Seq::<Seq<u8>>::empty());
    }
    while pos < payload.len()
        invariant
            pos <= payload@.len(),
            match dec_storage_keys(payload@.skip(pos as int)) {
                Some(rest) => dec_storage_keys(payload@) == Some(
                    ks@.map_values(|k: Vec<u8>| k@) + rest,
                ),
                None => dec_storage_keys(payload@) is None,
            },
        decreases payload@.len() - pos,
    {
        let ghost ks0 = ks@;
        let (k, np) = match take_str(payload, pos) {
            Some(x) => x,
            None => {
                return None;
            },
        };
        ks.push(k);
        proof {
            assert(ks@.map_values(|k: Vec<u8>| k@) =~= ks0.map_values(|k: Vec<u8>| k@)
                + seq![k@]);
            match dec_storage_keys(payload@.skip(np as int)) {
                Some(rest) => {
                    assert(dec_storage_keys(payload@.skip(pos as int)) == Some(
                        seq![k@] + rest,
                    ));
                    assert(ks0.map_values(|k: Vec<u8>| k@) + (seq![k@] + rest)
                        =~= ks@.map_values(|k: Vec<u8>| k@) + rest);
                },
                None => {
                    assert(dec_storage_keys(payload@.skip(pos as int)) is None);
                },
            }
        }
        pos = np;
    }
    proof {
        assert(payload@.skip(pos as int) =~= Seq::<u8>::empty());
        assert(dec_storage_keys(Seq::<u8>::empty()) == Some(Seq::<Seq<u8>>::empty()));
        assert(ks@.map_values(|k: Vec<u8>| k@) + Seq::<Seq<u8>>::empty() =~= ks@.map_values(
            |k: Vec<u8>| k@,
        ));
    }
    Some(ks)
}

/// Splits an access-list payload into its entries.
fn take_access_items(payload: &Vec<u8>) -> (r: Option<Vec<AccessListItem>>)
    ensures
        match r {
            Some(items) => dec_access_items(payload@) == Some(
                items@.map_values(|it: AccessListItem| it@),
            ),
            None => dec_access_items(payload@) is None,
        },
{
    let mut items: Vec<AccessListItem> = Vec::new();
    let mut pos: usize = 0;
    proof {
        assert(payload@.skip(0) =~= payload@);
        assert(items@.map_values(|it: AccessListItem| it@) =~= Seq::<AccessItemView>::empty());
    }
    while pos < payload.len()
        invariant
            pos <= payload@.len(),
            match dec_access_items(payload@.skip(pos as int)) {
                Some(rest) => dec_access_items(payload@) == Some(
                    items@.map_values(|it: AccessListItem| it@) + rest,
                ),
                None => dec_access_items(payload@) is None,
            },
        decreases payload@.len() - pos,
    {
        let ghost items0 = items@;
        let (pair, np) = match take_list(payload, pos) {
            Some(x) => x,
            None => {
                return None;
            },
        };
        proof {
            assert(pair@.skip(0) =~= pair@);
        }
        let (addr, ap) = match take_str(&pair, 0) {
            Some(x) => x,
            None => {
                return None;
            },
        };
        let (kp, kend) = match take_list(&pair, ap) {
            Some(x) => x,
            None => {
                return None;
            },
        };
        if kend != pair.len() {
            proof {
                assert(pair@.skip(kend as int).len() != 0);
            }
            return None;
        }
        proof {
            assert(pair@.skip(kend as int) =~= Seq::<u8>::empty());
        }
        let keys = match take_storage_keys(&kp) {
            Some(x) => x,
            None => {
                return None;
            },
        };
        let item = AccessListItem { address: addr, storage_keys: keys };
        items.push(item);
        proof {
            assert(items@.map_values(|it: AccessListItem| it@) =~= items0.map_values(
                |it: AccessListItem| it@,
            ) + seq![items@.last()@]);
            match dec_access_items(payload@.skip(np as int)) {
                Some(rest) => {
                    assert(items0.map_values(|it: AccessListItem| it@) + (seq![
                        items@.last()@,
                    ] + rest) =~= items@.map_values(|it: AccessListItem| it@) + rest);
                },
                None => {},
            }
        }
        pos = np;
    }
    proof {
        assert(payload@.skip(pos as int) =~= Seq::<u8>::empty());
        assert(items@.map_values(|it: AccessListItem| it@) + Seq::<AccessItemView>::empty()
            =~= items@.map_values(|it: AccessListItem| it@));
    }
    Some(items)
}


/// Decodes an unsigned legacy serialization into a transaction and its
/// chain id.
fn decode_legacy_bytes(bytes: &Vec<u8>) -> (r: Option<(Transaction, u64)>)
    ensures
        match r {
            Some(p) => dec_legacy(bytes@) == Some((p.0@, p.1 as nat)),
            None => dec_legacy(bytes@) is None,
        },
{
    proof {
        assert(bytes@.skip(0) =~= bytes@);
    }
    let (payload, end) = match take_list(bytes, 0) {
        Some(x) => x,
        None => {
            return None;
        },
    };
    if end != bytes.len() {
        proof {
            assert(bytes@.skip(end as int).len() != 0);
        }
        return None;
    }
    proof {
        assert(bytes@.skip(end as int) =~= Seq::<u8>::empty());
        assert(payload@.skip(0) =~= payload@);
    }
    let f = match take_fields(&payload, 0) {
        Some(x) => x,
        None => {
            return None;
        },
    };
    let (chain, p1) = match take_uint(&payload, f.end) {
        Some(x) => x,
        None => {
            return None;
        },
    };
    if chain > 0xFFFF_FFFF_FFFF_FFFF {
        return None;
    }
    let (z1, p2) = match take_uint(&payload, p1) {
        Some(x) => x,
        None => {
            return None;
        },
    };
    if z1 != 0 {
        return None;
    }
    let (z2, p3) = match take_uint(&payload, p2) {
        Some(x) => x,
        None => {
            return None;
        },
    };
    if z2 != 0 {
        return None;
    }
    if p3 != payload.len() {
        proof {
            assert(payload@.skip(p3 as int).len() != 0);
        }
        return None;
    }
    let tx = Transaction {
        to: f.to,
        nonce: f.nonce,
        gas: f.gas,
        gas_price: f.gas_price,
        value: f.value,
        data: f.data,
        transaction_type: None,
        access_list: Vec::new(),
        max_priority_fee_per_gas: f.gas_price,
    };
    proof {
        assert(payload@.skip(p3 as int).len() == 0);
        assert(tx@.access_list =~= Seq::<AccessItemView>::empty());
        assert(tx@ == TxView {
            to: opt_vec_view(tx.to),
            nonce: tx.nonce as nat,
            gas: tx.gas as nat,
            gas_price: tx.gas_price as nat,
            value: tx.value as nat,
            data: tx.data@,
            transaction_type: None,
            access_list: Seq::empty(),
            max_priority_fee_per_gas: tx.gas_price as nat,
        });
    }
    Some((tx, chain as u64))
}

/// Decodes the list part of an access-list serialization (after the 0x01
/// type byte).
fn decode_access_list_bytes(bytes: &Vec<u8>) -> (r: Option<(Transaction, u64)>)
    ensures
        match r {
            Some(p) => dec_access_list_tx(bytes@) == Some((p.0@, p.1 as nat)),
            None => dec_access_list_tx(bytes@) is None,
        },
{
    proof {
        assert(bytes@.skip(0) =~= bytes@);
    }
    let (payload, end) = match take_list(bytes, 0) {
        Some(x) => x,
        None => {
            return None;
        },
    };
    if end != bytes.len() {
        proof {
            assert(bytes@.skip(end as int).len() != 0);
        }
        return None;
    }
    proof {
        assert(bytes@.skip(end as int) =~= Seq::<u8>::empty());
        assert(payload@.skip(0) =~= payload@);
    }
    let (chain, p0) = match take_uint(&payload, 0) {
        Some(x) => x,
        None => {
            return None;
        },
    };
    if chain > 0xFFFF_FFFF_FFFF_FFFF {
        return None;
    }
    let f = match take_fields(&payload, p0) {
        Some(x) => x,
        None => {
            return None;
        },
    };
    let (alp, p2) = match take_list(&payload, f.end) {
        Some(x) => x,
        None => {
            return None;
        },
    };
    if p2 != payload.len() {
        proof {
            assert(payload@.skip(p2 as int).len() != 0);
        }
        return None;
    }
    proof {
        assert(payload@.skip(p2 as int) =~= Seq::<u8>::empty());
    }
    let items = match take_access_items(&alp) {
        Some(x) => x,
        None => {
            return None;
        },
    };
    let tx = Transaction {
        to: f.to,
        nonce: f.nonce,
        gas: f.gas,
        gas_price: f.gas_price,
        value: f.value,
        data: f.data,
        transaction_type: Some(crate::tx::ACCESSLISTS_TX_ID),
        access_list: items,
        max_priority_fee_per_gas: f.gas_price,
    };
    proof {
        assert(tx@.access_list == tx.access_list@.map_values(|it: AccessListItem| it@));
    }
    Some((tx, chain as u64))
}

/// Decodes the list part of a fee-market serialization (after the 0x02
/// type byte).
fn decode_eip1559_bytes(bytes: &Vec<u8>) -> (r: Option<(Transaction, u64)>)
    ensures
        match r {
            Some(p) => dec_eip1559_tx(bytes@) == Some((p.0@, p.1 as nat)),
            None => dec_eip1559_tx(bytes@) is None,
        },
{
    proof {
        assert(bytes@.skip(0) =~= bytes@);
    }
    let (payload, end) = match take_list(bytes, 0) {
        Some(x) => x,
        None => {
            return None;
        },
    };
    if end != bytes.len() {
        proof {
            assert(bytes@.skip(end as int).len() != 0);
        }
        return None;
    }
    proof {
        assert(bytes@.skip(end as int) =~= Seq::<u8>::empty());
        assert(payload@.skip(0) =~= payload@);
    }
    let (chain, p1) = match take_uint(&payload, 0) {
        Some(x) => x,
        None => {
            return None;
        },
    };
    if chain > 0xFFFF_FFFF_FFFF_FFFF {
        return None;
    }
    let (nonce, p2) = match take_uint(&payload, p1) {
        Some(x) => x,
        None => {
            return None;
        },
    };
    let (max_priority, p3) = match take_uint(&payload, p2) {
        Some(x) => x,
        None => {
            return None;
        },
    };
    let (gas_price, p4) = match take_uint(&payload, p3) {
        Some(x) => x,
        None => {
            return None;
        },
    };
    let (gas, p5) = match take_uint(&payload, p4) {
        Some(x) => x,
        None => {
            return None;
        },
    };
    let (to_b, p6) = match take_str(&payload, p5) {
        Some(x) => x,
        None => {
            return None;
        },
    };
    let (value, p7) = match take_uint(&payload, p6) {
        Some(x) => x,
        None => {
            return None;
        },
    };
    let (data, p8) = match take_str(&payload, p7) {
        Some(x) => x,
        None => {
            return None;
        },
    };
    let (alp, p9) = match take_list(&payload, p8) {
        Some(x) => x,
        None => {
            return None;
        },
    };
    if p9 != payload.len() {
        proof {
            assert(payload@.skip(p9 as int).len() != 0);
        }
        return None;
    }
    proof {
        assert(payload@.skip(p9 as int) =~= Seq::<u8>::empty());
    }
    let items = match take_access_items(&alp) {
        Some(x) => x,
        None => {
            return None;
        },
    };
    let ghost tobv = to_b@;
    let to: Option<Vec<u8>> = if to_b.len() == 0 {
        None
    } else {
        Some(to_b)
    };
    let tx = Transaction {
        to,
        nonce,
        gas,
        gas_price,
        value,
        data,
        transaction_type: Some(crate::tx::EIP1559_TX_ID),
        access_list: items,
        max_priority_fee_per_gas: max_priority,
    };
    proof {
        assert(dec_to(tobv) == opt_vec_view(tx.to));
        lemma_dec_eip1559_steps(
            bytes@,
            payload@,
            payload@.skip(p1 as int),
            payload@.skip(p2 as int),
            payload@.skip(p3 as int),
            payload@.skip(p4 as int),
            payload@.skip(p5 as int),
            payload@.skip(p6 as int),
            payload@.skip(p7 as int),
            payload@.skip(p8 as int),
            alp@,
            chain as nat,
            nonce as nat,
            max_priority as nat,
            gas_price as nat,
            gas as nat,
            tobv,
            opt_vec_view(tx.to),
            value as nat,
            data@,
            tx.access_list@.map_values(|it: AccessListItem| it@),
        );
        assert(tx@.access_list == tx.access_list@.map_values(|it: AccessListItem| it@));
    }
    Some((tx, chain as u64))
}

/// Decodes any unsigned transaction serialization produced by
/// `Transaction::encode` without a signature, returning the transaction
/// and the chain id it was encoded for.
pub fn decode_unsigned(bytes: &Vec<u8>) -> (r: Option<(Transaction, u64)>)
    ensures
        match r {
            Some(p) => dec_unsigned(bytes@) == Some((p.0@, p.1 as nat)),
            None => dec_unsigned(bytes@) is None,
        },
{
    if bytes.len() == 0 {
        return None;
    }
    let b0 = bytes[0];
    if b0 == 1 {
        let rest = vstd::slice::slice_to_vec(
            vstd::slice::slice_subrange(bytes.as_slice(), 1, bytes.len()),
        );
        proof {
            assert(rest@ =~= bytes@.skip(1));
        }
        decode_access_list_bytes(&rest)
    } else if b0 == 2 {
        let rest = vstd::slice::slice_to_vec(
            vstd::slice::slice_subrange(bytes.as_slice(), 1, bytes.len()),
        );
        proof {
            assert(rest@ =~= bytes@.skip(1));
        }
        decode_eip1559_bytes(&rest)
    } else {
        decode_legacy_bytes(bytes)
    }
}

/// A transaction marked with kind 0 serializes exactly as one with the
/// kind absent, so decoding returns it with the marker normalized away:
/// the only field the round trip does not carry for kind 0.
pub proof fn lemma_decode_encode_type_zero(t: TxView, chain_id: nat)
    requires
        wf_tx(t),
        fits_u64(chain_id),
        t.transaction_type == Some(crate::tx::LEGACY_TX_ID),
        t.access_list.len() == 0,
        t.max_priority_fee_per_gas == t.gas_price,
    ensures
        spec_encode(t, chain_id, None) is Some,
        spec_encode(t, chain_id, None) matches Some(bytes) ==> dec_unsigned(bytes) == Some(
            (TxView { transaction_type: None, ..t }, chain_id),
        ),
{
    let bytes = enc_legacy_tx(t, chain_id, None);
    lemma_dec_legacy_inverts(t, chain_id);
    assert(bytes.len() > 0 && bytes[0] >= 0xc0) by {
        lemma_enc_field_lens(t);
        lemma_rlp_uint_len(chain_id);
        lemma_rlp_uint_len(0);
        lemma_pow256_8_16();
        let payload = enc_legacy_fields(t) + (rlp_uint(chain_id) + (rlp_uint(0) + rlp_uint(0)));
        lemma_be_bytes_len(payload.len(), 8);
    }
    assert(t.access_list =~= Seq::<AccessItemView>::empty());
    assert(TxView {
        transaction_type: None,
        access_list: Seq::empty(),
        max_priority_fee_per_gas: t.gas_price,
        ..t
    } == TxView { transaction_type: None, ..t });
}

} // verus!
