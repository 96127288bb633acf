//! Ethereum transaction model and its canonical byte serializations: the
//! legacy, access-list and fee-market formats, for hashing (unsigned) and
//! for broadcast (signed), together with a decoder and round-trip proofs.

use vstd::prelude::*;

verus! {

use crate::rlp::{
    rlp_str, rlp_uint, rlp_list, be_val, be_bytes,
    append_str, append_uint, append_uint_be, append_list, append_bytes,
};
use crate::{EncodingError, SignerError};
use crate::crypto::{keccak_of, keccak256};
use crate::ic::{recovered_address, recover_address_bytes};

/// Transaction kind markers carried in `transaction_type`.
pub const LEGACY_TX_ID: u64 = 0;
pub const ACCESSLISTS_TX_ID: u64 = 1;
pub const EIP1559_TX_ID: u64 = 2;

/// One pre-declared address together with the storage keys the transaction
/// may touch there. Order is significant and is preserved exactly.
#[derive(Debug)]
pub struct AccessListItem {
    /// 20-byte account address.
    pub address: Vec<u8>,
    /// 32-byte storage keys, in caller order.
    pub storage_keys: Vec<Vec<u8>>,
}

/// Mathematical image of an access-list entry.
pub struct AccessItemView {
    pub address: Seq<u8>,
    pub storage_keys: Seq<Seq<u8>>,
}

impl View for AccessListItem {
    type V = AccessItemView;

    open spec fn view(&self) -> AccessItemView {
        AccessItemView {
            address: self.address@,
            storage_keys: self.storage_keys@.map_values(|k: Vec<u8>| k@),
        }
    }
}

/// A transaction to be RLP-encoded, hashed and signed.
#[derive(Debug)]
pub struct Transaction {
    /// Recipient; `None` is contract creation and encodes as an empty string.
    pub to: Option<Vec<u8>>,
    pub nonce: u128,
    pub gas: u128,
    pub gas_price: u128,
    pub value: u128,
    pub data: Vec<u8>,
    /// Absent means legacy; 0, 1 and 2 are the supported kinds.
    pub transaction_type: Option<u64>,
    pub access_list: Vec<AccessListItem>,
    /// Only meaningful for fee-market (kind 2) transactions.
    pub max_priority_fee_per_gas: u128,
}

/// Mathematical image of a transaction.
pub struct TxView {
    pub to: Option<Seq<u8>>,
    pub nonce: nat,
    pub gas: nat,
    pub gas_price: nat,
    pub value: nat,
    pub data: Seq<u8>,
    pub transaction_type: Option<u64>,
    pub access_list: Seq<AccessItemView>,
    pub max_priority_fee_per_gas: nat,
}

impl View for Transaction {
    type V = TxView;

    open spec fn view(&self) -> TxView {
        TxView {
            to: match self.to {
                Some(a) => Some(a@),
                None => None,
            },
            nonce: self.nonce as nat,
            gas: self.gas as nat,
            gas_price: self.gas_price as nat,
            value: self.value as nat,
            data: self.data@,
            transaction_type: self.transaction_type,
            access_list: self.access_list@.map_values(|it: AccessListItem| it@),
            max_priority_fee_per_gas: self.max_priority_fee_per_gas as nat,
        }
    }
}

/// An ECDSA signature as carried in a signed transaction: `v` is the
/// recovery word, `r` and `s` are 32-byte big-endian words.
pub struct Signature {
    pub v: u64,
    pub r: Vec<u8>,
    pub s: Vec<u8>,
}

/// Mathematical image of a signature.
pub struct SigView {
    pub v: nat,
    pub r: Seq<u8>,
    pub s: Seq<u8>,
}

impl View for Signature {
    type V = SigView;

    open spec fn view(&self) -> SigView {
        SigView { v: self.v as nat, r: self.r@, s: self.s@ }
    }
}

/// The `to` field encodes as the address bytes, or as the empty string when
/// absent: it is never omitted from the list.
pub open spec fn enc_to(to: Option<Seq<u8>>) -> Seq<u8> {
    match to {
        Some(a) => rlp_str(a),
        None => rlp_str(Seq::empty()),
    }
}

/// The six fields shared by all formats, in legacy order. (Grouped from
/// the right, as a parser peels them off.)
pub open spec fn enc_legacy_fields(t: TxView) -> Seq<u8> {
    rlp_uint(t.nonce) + (rlp_uint(t.gas_price) + (rlp_uint(t.gas) + (enc_to(t.to) + (rlp_uint(
        t.value,
    ) + rlp_str(t.data)))))
}

/// The three signature items `[v, r, s]`; `r` and `s` encode as integers,
/// so their leading zero bytes are dropped.
pub open spec fn enc_sig(sig: SigView) -> Seq<u8> {
    rlp_uint(sig.v) + rlp_uint(be_val(sig.r)) + rlp_uint(be_val(sig.s))
}

/// Concatenated encodings of the storage keys of one access-list entry.
pub open spec fn enc_storage_keys(keys: Seq<Seq<u8>>) -> Seq<u8>
    decreases keys.len(),
{
    if keys.len() == 0 {
        Seq::empty()
    } else {
        enc_storage_keys(keys.drop_last()) + rlp_str(keys.last())
    }
}

/// One access-list entry: a two-item list `[address, [storage_key, ...]]`.
pub open spec fn enc_access_item(it: AccessItemView) -> Seq<u8> {
    rlp_list(rlp_str(it.address) + rlp_list(enc_storage_keys(it.storage_keys)))
}

/// Concatenated encodings of the access-list entries, in caller order.
pub open spec fn enc_access_items(items: Seq<AccessItemView>) -> Seq<u8>
    decreases items.len(),
{
    if items.len() == 0 {
        Seq::empty()
    } else {
        enc_access_items(items.drop_last()) + enc_access_item(items.last())
    }
}

/// The access list as one RLP list of entry pairs.
pub open spec fn enc_access_list(items: Seq<AccessItemView>) -> Seq<u8> {
    rlp_list(enc_access_items(items))
}

/// Legacy format: a 9-item list, no type prefix. Unsigned it ends with the
/// EIP-155 markers `[chain_id, 0, 0]`, signed with `[v, r, s]`.
pub open spec fn enc_legacy_tx(t: TxView, chain_id: nat, sig: Option<SigView>) -> Seq<u8> {
    match sig {
        None => rlp_list(
            enc_legacy_fields(t) + (rlp_uint(chain_id) + (rlp_uint(0) + rlp_uint(0))),
        ),
        Some(s) => rlp_list(enc_legacy_fields(t) + enc_sig(s)),
    }
}

/// Access-list format: byte 0x01, then an 8-item list (11 signed).
pub open spec fn enc_access_list_tx(t: TxView, chain_id: nat, sig: Option<SigView>) -> Seq<u8> {
    seq![1u8] + rlp_list(
        rlp_uint(chain_id) + (enc_legacy_fields(t) + (enc_access_list(t.access_list) + match sig {
            None => Seq::empty(),
            Some(s) => enc_sig(s),
        })),
    )
}

/// Fee-market format: byte 0x02, then a 9-item list (12 signed), with
/// `max_priority_fee_per_gas` before the gas price.
pub open spec fn enc_eip1559_tx(t: TxView, chain_id: nat, sig: Option<SigView>) -> Seq<u8> {
    seq![2u8] + rlp_list(
        rlp_uint(chain_id) + (rlp_uint(t.nonce) + (rlp_uint(t.max_priority_fee_per_gas)
            + (rlp_uint(t.gas_price) + (rlp_uint(t.gas) + (enc_to(t.to) + (rlp_uint(t.value)
            + (rlp_str(t.data) + (enc_access_list(t.access_list) + match sig {
            None => Seq::empty(),
            Some(s) => enc_sig(s),
        })))))))),
    )
}

/// The canonical serialization of a transaction, or `None` when
/// `transaction_type` is present but unsupported.
pub open spec fn spec_encode(t: TxView, chain_id: nat, sig: Option<SigView>) -> Option<Seq<u8>> {
    match t.transaction_type {
        None => Some(enc_legacy_tx(t, chain_id, sig)),
        Some(k) => if k == LEGACY_TX_ID {
            Some(enc_legacy_tx(t, chain_id, sig))
        } else if k == ACCESSLISTS_TX_ID {
            Some(enc_access_list_tx(t, chain_id, sig))
        } else if k == EIP1559_TX_ID {
            Some(enc_eip1559_tx(t, chain_id, sig))
        } else {
            None
        },
    }
}

/// View of an optional borrowed signature.
pub open spec fn sig_view(sig: Option<&Signature>) -> Option<SigView> {
    match sig {
        Some(s) => Some(s@),
        None => None,
    }
}

/// Regroups six items appended one after another into the nested form the
/// encoding specifications use.
proof fn lemma_regroup6(
    o: Seq<u8>,
    a: Seq<u8>,
    b: Seq<u8>,
    c: Seq<u8>,
    d: Seq<u8>,
    e: Seq<u8>,
    f: Seq<u8>,
)
    ensures
        o + a + b + c + d + e + f == o + (a + (b + (c + (d + (e + f))))),
{
    assert(o + a + b + c + d + e + f =~= o + (a + (b + (c + (d + (e + f))))));
}

/// Regroups three items and a tail into nested form.
proof fn lemma_regroup3tail(a: Seq<u8>, b: Seq<u8>, c: Seq<u8>, tail: Seq<u8>)
    ensures
        a + b + c + tail == a + (b + (c + tail)),
{
    assert(a + b + c + tail =~= a + (b + (c + tail)));
}

/// Regroups nine items and a tail into nested form.
proof fn lemma_regroup9tail(
    a: Seq<u8>,
    b: Seq<u8>,
    c: Seq<u8>,
    d: Seq<u8>,
    e: Seq<u8>,
    f: Seq<u8>,
    g: Seq<u8>,
    h: Seq<u8>,
    i: Seq<u8>,
    tail: Seq<u8>,
)
    ensures
        a + b + c + d + e + f + g + h + i + tail == a + (b + (c + (d + (e + (f + (g + (h + (i
            + tail)))))))),
{
    assert(a + b + c + d + e + f + g + h + i + tail =~= a + (b + (c + (d + (e + (f + (g + (h + (i
        + tail)))))))));
}

impl Transaction {
    /// Appends the six shared fields in legacy order.
    fn rlp_append_legacy(&self, stream: &mut Vec<u8>)
        ensures
            final(stream)@ == old(stream)@ + enc_legacy_fields(self@),
    {
        append_uint(stream, self.nonce);
        append_uint(stream, self.gas_price);
        append_uint(stream, self.gas);
        match &self.to {
            Some(to) => {
                append_str(stream, to.as_slice());
            },
            None => {
                let empty: Vec<u8> = Vec::new();
                append_str(stream, empty.as_slice());
            },
        }
        append_uint(stream, self.value);
        append_str(stream, self.data.as_slice());
        proof {
            lemma_regroup6(
                old(stream)@,
                rlp_uint(self@.nonce),
                rlp_uint(self@.gas_price),
                rlp_uint(self@.gas),
                enc_to(self@.to),
                rlp_uint(self@.value),
                rlp_str(self@.data),
            );
        }
    }

    /// Appends the three signature items `[v, r, s]`.
    fn rlp_append_signature(&self, stream: &mut Vec<u8>, signature: &Signature)
        ensures
            final(stream)@ == old(stream)@ + enc_sig(signature@),
    {
        append_uint(stream, signature.v as u128);
        append_uint_be(stream, signature.r.as_slice());
        append_uint_be(stream, signature.s.as_slice());
        proof {
            assert(final(stream)@ =~= old(stream)@ + enc_sig(signature@));
        }
    }

    /// Appends the access list as a list of `[address, [storage_key, ...]]`
    /// pairs, order preserved exactly as supplied.
    fn rlp_append_access_list(&self, stream: &mut Vec<u8>)
        ensures
            final(stream)@ == old(stream)@ + enc_access_list(self@.access_list),
    {
        let mut payload: Vec<u8> = Vec::new();
        let mut i: usize = 0;
        while i < self.access_list.len()
            invariant
                i <= self.access_list@.len(),
                payload@ == enc_access_items(self@.access_list.take(i as int)),
            decreases self.access_list@.len() - i,
        {
            let item = &self.access_list[i];
            let mut keys_payload: Vec<u8> = Vec::new();
            let mut j: usize = 0;
            while j < item.storage_keys.len()
                invariant
                    j <= item.storage_keys@.len(),
                    keys_payload@ == enc_storage_keys(item@.storage_keys.take(j as int)),
                decreases item.storage_keys@.len() - j,
            {
                append_str(&mut keys_payload, item.storage_keys[j].as_slice());
                j = j + 1;
                proof {
                    assert(item@.storage_keys.take(j as int).drop_last()
                        =~= item@.storage_keys.take(j - 1));
                    assert(item@.storage_keys.take(j as int).last() == item@.storage_keys[j - 1]);
                }
            }
            proof {
                assert(item@.storage_keys.take(item.storage_keys@.len() as int)
                    =~= item@.storage_keys);
            }
            let mut pair_payload: Vec<u8> = Vec::new();
            append_str(&mut pair_payload, item.address.as_slice());
            append_list(&mut pair_payload, &keys_payload);
            append_list(&mut payload, &pair_payload);
            i = i + 1;
            proof {
                assert(self@.access_list.take(i as int).drop_last()
                    =~= self@.access_list.take(i - 1));
                assert(self@.access_list.take(i as int).last() == self@.access_list[i - 1]);
                assert(enc_access_item(self@.access_list[i - 1]) =~= rlp_list(
                    rlp_str(item@.address) + rlp_list(enc_storage_keys(item@.storage_keys)),
                ));
            }
        }
        proof {
            assert(self@.access_list.take(self.access_list@.len() as int) =~= self@.access_list);
        }
        append_list(stream, &payload);
    }

    /// Legacy serialization: a 9-item list, ending in the EIP-155 markers
    /// when unsigned and in the signature items when signed.
    fn encode_legacy(&self, chain_id: u64, signature: Option<&Signature>) -> (out: Vec<u8>)
        ensures
            out@ == enc_legacy_tx(self@, chain_id as nat, sig_view(signature)),
    {
        let mut fields: Vec<u8> = Vec::new();
        self.rlp_append_legacy(&mut fields);
        match signature {
            Some(sig) => {
                self.rlp_append_signature(&mut fields, sig);
            },
            None => {
                append_uint(&mut fields, chain_id as u128);
                append_uint(&mut fields, 0);
                append_uint(&mut fields, 0);
                proof {
                    assert(fields@ =~= enc_legacy_fields(self@) + rlp_uint(chain_id as nat)
                        + rlp_uint(0) + rlp_uint(0));
                }
            },
        }
        let mut out: Vec<u8> = Vec::new();
        append_list(&mut out, &fields);
        out
    }

    /// Access-list payload: the list part after the 0x01 type byte.
    fn encode_access_list_payload(&self, chain_id: u64, signature: Option<&Signature>) -> (out:
        Vec<u8>)
        ensures
            seq![1u8] + out@ == enc_access_list_tx(self@, chain_id as nat, sig_view(signature)),
    {
        let mut fields: Vec<u8> = Vec::new();
        append_uint(&mut fields, chain_id as u128);
        self.rlp_append_legacy(&mut fields);
        self.rlp_append_access_list(&mut fields);
        if let Some(sig) = signature {
            self.rlp_append_signature(&mut fields, sig);
        }
        proof {
            let tail = match sig_view(signature) {
                None => Seq::<u8>::empty(),
                Some(s) => enc_sig(s),
            };
            if signature is None {
                crate::rlp::lemma_add_empty(
                    rlp_uint(chain_id as nat) + enc_legacy_fields(self@) + enc_access_list(
                        self@.access_list,
                    ),
                );
            }
            lemma_regroup3tail(
                rlp_uint(chain_id as nat),
                enc_legacy_fields(self@),
                enc_access_list(self@.access_list),
                tail,
            );
        }
        let mut out: Vec<u8> = Vec::new();
        append_list(&mut out, &fields);
        out
    }

    /// Fee-market payload: the list part after the 0x02 type byte.
    fn encode_eip1559_payload(&self, chain_id: u64, signature: Option<&Signature>) -> (out: Vec<
        u8>)
        ensures
            seq![2u8] + out@ == enc_eip1559_tx(self@, chain_id as nat, sig_view(signature)),
    {
        let mut fields: Vec<u8> = Vec::new();
        append_uint(&mut fields, chain_id as u128);
        append_uint(&mut fields, self.nonce);
        append_uint(&mut fields, self.max_priority_fee_per_gas);
        append_uint(&mut fields, self.gas_price);
        append_uint(&mut fields, self.gas);
        match &self.to {
            Some(to) => {
                append_str(&mut fields, to.as_slice());
            },
            None => {
                let empty: Vec<u8> = Vec::new();
                append_str(&mut fields, empty.as_slice());
            },
        }
        append_uint(&mut fields, self.value);
        append_str(&mut fields, self.data.as_slice());
        self.rlp_append_access_list(&mut fields);
        if let Some(sig) = signature {
            self.rlp_append_signature(&mut fields, sig);
        }
        proof {
            let tail = match sig_view(signature) {
                None => Seq::<u8>::empty(),
                Some(s) => enc_sig(s),
            };
            if signature is None {
                crate::rlp::lemma_add_empty(
                    rlp_uint(chain_id as nat) + rlp_uint(self@.nonce) + rlp_uint(
                        self@.max_priority_fee_per_gas,
                    ) + rlp_uint(self@.gas_price) + rlp_uint(self@.gas) + enc_to(self@.to)
                        + rlp_uint(self@.value) + rlp_str(self@.data) + enc_access_list(
                        self@.access_list,
                    ),
                );
            }
            lemma_regroup9tail(
                rlp_uint(chain_id as nat),
                rlp_uint(self@.nonce),
                rlp_uint(self@.max_priority_fee_per_gas),
                rlp_uint(self@.gas_price),
                rlp_uint(self@.gas),
                enc_to(self@.to),
                rlp_uint(self@.value),
                rlp_str(self@.data),
                enc_access_list(self@.access_list),
                tail,
            );
        }
        let mut out: Vec<u8> = Vec::new();
        append_list(&mut out, &fields);
        out
    }

    /// The canonical byte serialization of this transaction: unsigned (for
    /// hashing) when `signature` is absent, signed (for broadcast) when it
    /// is present. An unsupported `transaction_type` is a fatal encoding
    /// error, never a silent fallback to legacy.
    pub fn encode(&self, chain_id: u64, signature: Option<&Signature>) -> (r: Result<
        Vec<u8>,
        EncodingError,
    >)
        ensures
            match r {
                Ok(bytes) => spec_encode(self@, chain_id as nat, sig_view(signature)) == Some(
                    bytes@,
                ),
                Err(e) => {
                    &&& spec_encode(self@, chain_id as nat, sig_view(signature)) is None
                    &&& e == EncodingError::UnsupportedTransactionType
                },
            },
    {
        let type_id = match self.transaction_type {
            Some(t) => t,
            None => LEGACY_TX_ID,
        };
        if type_id == LEGACY_TX_ID {
            Ok(self.encode_legacy(chain_id, signature))
        } else if type_id == ACCESSLISTS_TX_ID {
            let payload = self.encode_access_list_payload(chain_id, signature);
            let mut out: Vec<u8> = Vec::new();
            out.push(1u8);
            append_bytes(&mut out, payload.as_slice());
            proof {
                assert(out@ =~= seq![1u8] + payload@);
            }
            Ok(out)
        } else if type_id == EIP1559_TX_ID {
            let payload = self.encode_eip1559_payload(chain_id, signature);
            let mut out: Vec<u8> = Vec::new();
            out.push(2u8);
            append_bytes(&mut out, payload.as_slice());
            proof {
                assert(out@ =~= seq![2u8] + payload@);
            }
            Ok(out)
        } else {
            Err(EncodingError::UnsupportedTransactionType)
        }
    }
}

/// Two encodings of the same transaction under the same chain and signature
/// are the same bytes: serialization is deterministic.
pub proof fn lemma_encode_deterministic(
    t: TxView,
    chain_id: nat,
    sig: Option<SigView>,
    b1: Seq<u8>,
    b2: Seq<u8>,
)
    requires
        spec_encode(t, chain_id, sig) == Some(b1),
        spec_encode(t, chain_id, sig) == Some(b2),
    ensures
        b1 == b2,
{
}


/// View of an optional owned byte vector.
pub open spec fn opt_vec_view(o: Option<Vec<u8>>) -> Option<Seq<u8>> {
    match o {
        Some(v) => Some(v@),
        None => None,
    }
}

/// A terminal, caller-owned signing result. `message_hash` is the hash of
/// the unsigned serialization; `transaction_hash` is the hash of the
/// signed one, the canonical on-chain identifier.
#[derive(Debug)]
pub struct SignedTransaction {
    pub message_hash: Vec<u8>,
    pub v: u64,
    pub r: Vec<u8>,
    pub s: Vec<u8>,
    pub raw_transaction: Vec<u8>,
    pub transaction_hash: Vec<u8>,
}

/// Byte-for-byte equality of two vectors.
fn bytes_equal(a: &Vec<u8>, b: &Vec<u8>) -> (r: bool)
    ensures
        r == (a@ == b@),
{
    if a.len() != b.len() {
        return false;
    }
    let mut i: usize = 0;
    while i < a.len()
        invariant
            i <= a@.len(),
            a@.len() == b@.len(),
            forall|j: int| 0 <= j < i ==> a@[j] == b@[j],
        decreases a@.len() - i,
    {
        if a[i] != b[i] {
            return false;
        }
        i = i + 1;
    }
    proof {
        assert(a@ =~= b@);
    }
    true
}

/// The recovery parity selected for a signature: candidate 0 is tried
/// first, candidate 1 only if 0 does not recover the expected address;
/// `None` when neither does.
pub open spec fn spec_find_parity(msg: Seq<u8>, sig: Seq<u8>, expected: Seq<u8>) -> Option<u8> {
    if recovered_address(msg, sig, 0) == Some(expected) {
        Some(0u8)
    } else if recovered_address(msg, sig, 1) == Some(expected) {
        Some(1u8)
    } else {
        None
    }
}

/// Tries both candidate recovery parities against the expected signer
/// address: the remote signer returns only `r||s`, so the parity must be
/// found by this bounded, two-candidate disambiguation.
fn find_parity(msg: &Vec<u8>, sig: &Vec<u8>, expected: &Vec<u8>) -> (r: Option<u8>)
    ensures
        r == spec_find_parity(msg@, sig@, expected@),
{
    let c0 = recover_address_bytes(msg.as_slice(), sig.as_slice(), 0);
    let m0 = match &c0 {
        Some(a) => bytes_equal(a, expected),
        None => false,
    };
    if m0 {
        return Some(0);
    }
    proof {
        assert(recovered_address(msg@, sig@, 0) != Some(expected@));
    }
    let c1 = recover_address_bytes(msg.as_slice(), sig.as_slice(), 1);
    let m1 = match &c1 {
        Some(a) => bytes_equal(a, expected),
        None => false,
    };
    if m1 {
        Some(1)
    } else {
        proof {
            assert(recovered_address(msg@, sig@, 1) != Some(expected@));
        }
        None
    }
}

/// The `v` word of a signature: `2*chain_id + 35 + parity` for legacy
/// transactions (EIP-155), the bare parity for typed ones.
pub open spec fn spec_v(ty: Option<u64>, chain_id: u64, parity: u8) -> nat {
    if ty is None || ty == Some(LEGACY_TX_ID) {
        2 * (chain_id as nat) + 35 + parity as nat
    } else {
        parity as nat
    }
}

impl Transaction {
    /// The 32-byte value a signature is requested over: the Keccak-256
    /// digest of the unsigned serialization under the given chain id.
    pub fn signing_hash(&self, chain_id: u64) -> (r: Result<Vec<u8>, EncodingError>)
        ensures
            match r {
                Ok(h) => spec_encode(self@, chain_id as nat, None) matches Some(b) && h@
                    == keccak_of(b) && h@.len() == 32,
                Err(e) => {
                    &&& spec_encode(self@, chain_id as nat, None) is None
                    &&& e == EncodingError::UnsupportedTransactionType
                },
            },
    {
        let encoded = self.encode(chain_id, None)?;
        Ok(keccak256(encoded.as_slice()))
    }

    /// The last steps of a signing pass, after the remote signer returned
    /// `r||s`: pick the recovery parity by testing both candidates against
    /// the signer's known address, re-encode with the signature attached,
    /// and hash the signed form. A parity that matches under neither
    /// candidate aborts the pass rather than guess.
    pub fn finalize_signature(
        &self,
        chain_id: u64,
        message_hash: Vec<u8>,
        raw_signature: Vec<u8>,
        expected_address: &Vec<u8>,
    ) -> (res: Result<SignedTransaction, SignerError>)
        requires
            2 * chain_id + 36 < 0x1_0000_0000_0000_0000,
        ensures
            res is Ok <==> {
                &&& raw_signature@.len() == 64
                &&& spec_find_parity(message_hash@, raw_signature@, expected_address@) is Some
                &&& spec_encode(self@, chain_id as nat, None) is Some
            },
            res matches Ok(st) ==> {
                &&& spec_find_parity(message_hash@, raw_signature@, expected_address@)
                    matches Some(p) && st.v == spec_v(self@.transaction_type, chain_id, p)
                &&& st.message_hash@ == message_hash@
                &&& st.r@ == raw_signature@.subrange(0, 32)
                &&& st.s@ == raw_signature@.subrange(32, 64)
                &&& spec_encode(
                    self@,
                    chain_id as nat,
                    Some(SigView { v: st.v as nat, r: st.r@, s: st.s@ }),
                ) == Some(st.raw_transaction@)
                &&& st.transaction_hash@ == keccak_of(st.raw_transaction@)
            },
            res matches Err(e) ==> {
                ||| (e == SignerError::MalformedSignature && raw_signature@.len() != 64)
                ||| (e == SignerError::RecoveryMismatch && spec_find_parity(
                    message_hash@,
                    raw_signature@,
                    expected_address@,
                ) is None)
                ||| (e == SignerError::Encoding(EncodingError::UnsupportedTransactionType)
                    && spec_encode(self@, chain_id as nat, None) is None)
            },
    {
        if raw_signature.len() != 64 {
            return Err(SignerError::MalformedSignature);
        }
        let parity = match find_parity(&message_hash, &raw_signature, expected_address) {
            Some(p) => p,
            None => {
                return Err(SignerError::RecoveryMismatch);
            },
        };
        let is_legacy = match self.transaction_type {
            Some(t) => t == LEGACY_TX_ID,
            None => true,
        };
        let v: u64 = if is_legacy {
            2 * chain_id + 35 + (parity as u64)
        } else {
            parity as u64
        };
        let r_bytes = vstd::slice::slice_to_vec(
            vstd::slice::slice_subrange(raw_signature.as_slice(), 0, 32),
        );
        let s_bytes = vstd::slice::slice_to_vec(
            vstd::slice::slice_subrange(raw_signature.as_slice(), 32, 64),
        );
        let sig = Signature { v, r: r_bytes, s: s_bytes };
        let signed = match self.encode(chain_id, Some(&sig)) {
            Ok(b) => b,
            Err(e) => {
                return Err(SignerError::Encoding(e));
            },
        };
        let transaction_hash = keccak256(signed.as_slice());
        Ok(
            SignedTransaction {
                message_hash,
                v,
                r: sig.r,
                s: sig.s,
                raw_transaction: signed,
                transaction_hash,
            },
        )
    }
}

/// A caller-supplied request, every field optional; converting it to a
/// `Transaction` fills the gas-price and priority-fee defaults.
pub struct TransactionRequest {
    pub to: Option<Vec<u8>>,
    pub nonce: Option<u128>,
    pub gas: Option<u128>,
    pub gas_price: Option<u128>,
    pub value: Option<u128>,
    pub data: Option<Vec<u8>>,
    pub transaction_type: Option<u64>,
    pub access_list: Option<Vec<AccessListItem>>,
    pub max_fee_per_gas: Option<u128>,
    pub max_priority_fee_per_gas: Option<u128>,
}

/// The gas price a request resolves to: for a fee-market request that
/// names `max_fee_per_gas`, that value stands in for the gas price; every
/// other request must name `gas_price` itself.
pub open spec fn spec_effective_gas_price(req: TransactionRequest) -> Option<u128> {
    if req.transaction_type == Some(EIP1559_TX_ID) && req.max_fee_per_gas is Some {
        req.max_fee_per_gas
    } else {
        req.gas_price
    }
}

/// The priority fee a request resolves to: only a fee-market request
/// carries its own; when it names none, the effective gas price is the
/// default. Other kinds inherit the effective gas price outright.
pub open spec fn spec_effective_max_priority(req: TransactionRequest) -> Option<u128> {
    if req.transaction_type == Some(EIP1559_TX_ID) {
        if req.max_priority_fee_per_gas is Some {
            req.max_priority_fee_per_gas
        } else {
            spec_effective_gas_price(req)
        }
    } else {
        spec_effective_gas_price(req)
    }
}

impl Transaction {
    /// Builds a transaction from a request. A request is complete when it
    /// names nonce, gas, value and data, and a gas price can be resolved;
    /// anything less is a `MissingField` error, never a crash.
    pub fn from_transaction_request(req: TransactionRequest) -> (r: Result<
        Transaction,
        EncodingError,
    >)
        ensures
            r is Ok <==> {
                &&& req.nonce is Some
                &&& req.gas is Some
                &&& req.value is Some
                &&& req.data is Some
                &&& spec_effective_gas_price(req) is Some
            },
            r matches Ok(t) ==> {
                &&& opt_vec_view(t.to) == opt_vec_view(req.to)
                &&& Some(t.nonce) == req.nonce
                &&& Some(t.gas) == req.gas
                &&& Some(t.gas_price) == spec_effective_gas_price(req)
                &&& Some(t.value) == req.value
                &&& (match req.data {
                    Some(d) => t.data@ == d@,
                    None => false,
                })
                &&& t.transaction_type == req.transaction_type
                &&& t@.access_list == (match req.access_list {
                    Some(al) => al@.map_values(|it: AccessListItem| it@),
                    None => Seq::<AccessItemView>::empty(),
                })
                &&& Some(t.max_priority_fee_per_gas) == spec_effective_max_priority(req)
            },
            r matches Err(e) ==> e == EncodingError::MissingField,
    {
        let gas_price = if req.transaction_type == Some(EIP1559_TX_ID)
            && req.max_fee_per_gas.is_some() {
            match req.max_fee_per_gas {
                Some(g) => g,
                None => {
                    return Err(EncodingError::MissingField);
                },
            }
        } else {
            match req.gas_price {
                Some(g) => g,
                None => {
                    return Err(EncodingError::MissingField);
                },
            }
        };
        let max_priority_fee_per_gas = if req.transaction_type == Some(EIP1559_TX_ID) {
            match req.max_priority_fee_per_gas {
                Some(m) => m,
                None => gas_price,
            }
        } else {
            gas_price
        };
        let nonce = match req.nonce {
            Some(n) => n,
            None => {
                return Err(EncodingError::MissingField);
            },
        };
        let gas = match req.gas {
            Some(g) => g,
            None => {
                return Err(EncodingError::MissingField);
            },
        };
        let value = match req.value {
            Some(v) => v,
            None => {
                return Err(EncodingError::MissingField);
            },
        };
        let data = match req.data {
            Some(d) => d,
            None => {
                return Err(EncodingError::MissingField);
            },
        };
        let access_list = match req.access_list {
            Some(al) => al,
            None => Vec::new(),
        };
        proof {
            assert(access_list@.map_values(|it: AccessListItem| it@)
                =~= (match req.access_list {
                Some(al) => al@.map_values(|it: AccessListItem| it@),
                None => Seq::<AccessItemView>::empty(),
            }));
        }
        Ok(
            Transaction {
                to: req.to,
                nonce,
                gas,
                gas_price,
                value,
                data,
                transaction_type: req.transaction_type,
                access_list,
                max_priority_fee_per_gas,
            },
        )
    }
}

} // verus!
