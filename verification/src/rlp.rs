//! Recursive-length-prefix (RLP) serialization: the deterministic byte
//! encoding of byte strings, integers and nested lists used by the Ethereum
//! transaction formats, together with the inverse parsing functions and the
//! round-trip proofs connecting them.

use vstd::prelude::*;

verus! {

use vstd::slice::slice_subrange;

/// Minimal big-endian byte encoding of a natural number: no leading zero
/// byte, and the zero value encodes as the empty sequence.
pub open spec fn be_bytes(n: nat) -> Seq<u8>
    decreases n,
{
    if n == 0 {
        Seq::empty()
    } else {
        be_bytes(n / 256) + seq![(n % 256) as u8]
    }
}

/// The natural number a big-endian byte sequence stands for.
pub open spec fn be_val(s: Seq<u8>) -> nat
    decreases s.len(),
{
    if s.len() == 0 {
        0
    } else {
        be_val(s.drop_last()) * 256 + s.last() as nat
    }
}

pub proof fn lemma_be_bytes_val(n: nat)
    ensures
        be_val(be_bytes(n)) == n,
    decreases n,
{
    if n > 0 {
        lemma_be_bytes_val(n / 256);
        assert(be_bytes(n).drop_last() =~= be_bytes(n / 256));
    }
}

/// A nonzero value's encoding starts with a nonzero byte.
pub proof fn lemma_be_bytes_no_leading_zero(n: nat)
    ensures
        n > 0 ==> be_bytes(n).len() > 0 && be_bytes(n).first() != 0,
    decreases n,
{
    if n > 0 {
        lemma_be_bytes_no_leading_zero(n / 256);
        if n / 256 == 0 {
            assert(be_bytes((n / 256) as nat) =~= Seq::<u8>::empty());
            assert(be_bytes(n) =~= seq![(n % 256) as u8]);
        } else {
            assert(be_bytes(n).first() == be_bytes(n / 256).first());
        }
    }
}

/// `n < 256^k` exactly when the encoding fits in `k` bytes.
pub proof fn lemma_be_bytes_len(n: nat, k: nat)
    requires
        n < pow256(k),
    ensures
        be_bytes(n).len() <= k,
    decreases n,
{
    if n > 0 {
        if k == 0 {
            assert(pow256(0) == 1);
        } else {
            assert(pow256(k) == 256 * pow256((k - 1) as nat));
            lemma_be_bytes_len(n / 256, (k - 1) as nat);
        }
    }
}

pub open spec fn pow256(k: nat) -> nat
    decreases k,
{
    if k == 0 {
        1
    } else {
        256 * pow256((k - 1) as nat)
    }
}

pub proof fn lemma_pow256_8_16()
    ensures
        pow256(8) == 0x1_0000_0000_0000_0000,
        pow256(16) == 0x1_0000_0000_0000_0000_0000_0000_0000_0000,
{
    reveal_with_fuel(pow256, 17);
}

/// The value a sequence stands for is positive as soon as its first byte is.
pub proof fn lemma_be_val_pos(s: Seq<u8>)
    requires
        s.len() > 0,
        s.first() != 0,
    ensures
        be_val(s) > 0,
    decreases s.len(),
{
    if s.len() > 1 {
        lemma_be_val_pos(s.drop_last());
    }
}

/// Values are bounded by the length of their encoding.
pub proof fn lemma_be_val_bound(s: Seq<u8>)
    ensures
        be_val(s) < pow256(s.len()),
    decreases s.len(),
{
    if s.len() > 0 {
        lemma_be_val_bound(s.drop_last());
    }
}

/// On minimal encodings (no leading zero), `be_bytes` inverts `be_val`.
pub proof fn lemma_be_bytes_of_canonical(s: Seq<u8>)
    requires
        s.len() == 0 || s.first() != 0,
    ensures
        be_bytes(be_val(s)) == s,
    decreases s.len(),
{
    if s.len() == 1 {
        reveal_with_fuel(be_val, 2);
        reveal_with_fuel(be_bytes, 2);
        assert(s.drop_last() =~= Seq::<u8>::empty());
        assert(be_val(s) == s[0]);
        if s[0] != 0 {
            assert(be_bytes(s[0] as nat) =~= seq![s[0]]);
        }
    } else if s.len() > 1 {
        let s0 = s.drop_last();
        let b = s.last();
        assert(s0.first() == s.first());
        lemma_be_bytes_of_canonical(s0);
        lemma_be_val_pos(s0);
        let n = be_val(s);
        assert(n == be_val(s0) * 256 + b);
        vstd::arithmetic::div_mod::lemma_fundamental_div_mod_converse_div(
            n as int, 256, be_val(s0) as int, b as int);
        vstd::arithmetic::div_mod::lemma_fundamental_div_mod_converse_mod(
            n as int, 256, be_val(s0) as int, b as int);
        assert(n / 256 == be_val(s0) && n % 256 == b);
        assert(be_bytes(n) =~= s);
    }
}

/// The given sequence with its leading zero bytes removed.
pub open spec fn strip_zeros(s: Seq<u8>) -> Seq<u8>
    decreases s.len(),
{
    if s.len() == 0 {
        Seq::empty()
    } else if s.first() == 0 {
        strip_zeros(s.skip(1))
    } else {
        s
    }
}

pub proof fn lemma_strip_zeros_val(s: Seq<u8>)
    ensures
        be_val(strip_zeros(s)) == be_val(s),
        strip_zeros(s).len() == 0 || strip_zeros(s).first() != 0,
        strip_zeros(s).len() <= s.len(),
    decreases s.len(),
{
    if s.len() > 0 && s.first() == 0 {
        lemma_strip_zeros_val(s.skip(1));
        lemma_be_val_drop_first(s);
    }
}

/// Dropping a leading zero byte does not change the value.
pub proof fn lemma_be_val_drop_first(s: Seq<u8>)
    requires
        s.len() > 0,
        s.first() == 0,
    ensures
        be_val(s.skip(1)) == be_val(s),
    decreases s.len(),
{
    reveal_with_fuel(be_val, 2);
    if s.len() == 1 {
        assert(s.skip(1) =~= Seq::<u8>::empty());
        assert(s.drop_last() =~= Seq::<u8>::empty());
        assert(s.last() == s.first());
    } else {
        assert(s.drop_last().first() == 0);
        lemma_be_val_drop_first(s.drop_last());
        assert(s.skip(1).drop_last() =~= s.drop_last().skip(1));
        assert(s.skip(1).last() == s.last());
    }
}

/// Stripping leading zeros yields exactly the minimal encoding of the value.
pub proof fn lemma_strip_zeros_is_be_bytes(s: Seq<u8>)
    ensures
        strip_zeros(s) == be_bytes(be_val(s)),
{
    lemma_strip_zeros_val(s);
    lemma_be_bytes_of_canonical(strip_zeros(s));
}

/// The length prefix of an RLP item: `base` is 0x80 for byte strings and
/// 0xc0 for lists; payloads over 55 bytes get a length-of-length form.
pub open spec fn rlp_len_prefix(base: u8, n: nat) -> Seq<u8> {
    if n <= 55 {
        seq![(base + n) as u8]
    } else {
        seq![(base + 55 + be_bytes(n).len()) as u8] + be_bytes(n)
    }
}

/// RLP encoding of a byte string: a single byte below 0x80 stands for
/// itself; anything else is a length prefix followed by the bytes.
pub open spec fn rlp_str(s: Seq<u8>) -> Seq<u8> {
    if s.len() == 1 && s[0] < 0x80 {
        s
    } else {
        rlp_len_prefix(0x80, s.len()) + s
    }
}

/// RLP encoding of a list whose item encodings concatenate to `payload`.
pub open spec fn rlp_list(payload: Seq<u8>) -> Seq<u8> {
    rlp_len_prefix(0xc0, payload.len()) + payload
}

/// RLP encoding of an unsigned integer: its minimal big-endian bytes as a
/// string, so zero becomes the empty string.
pub open spec fn rlp_uint(n: nat) -> Seq<u8> {
    rlp_str(be_bytes(n))
}

/// Parses one RLP byte string from the front of `s`: the payload bytes and
/// the remainder after the item. `None` when `s` does not start with a
/// complete byte-string item.
#[verifier::opaque]
pub open spec fn parse_str(s: Seq<u8>) -> Option<(Seq<u8>, Seq<u8>)> {
    if s.len() == 0 {
        None
    } else {
        let b0 = s[0];
        if b0 < 0x80 {
            Some((seq![b0], s.skip(1)))
        } else if b0 <= 0xb7 {
            let n = b0 - 0x80;
            if s.len() >= 1 + n {
                Some((s.subrange(1, 1 + n), s.skip(1 + n)))
            } else {
                None
            }
        } else if b0 <= 0xbf {
            let k = b0 - 0xb7;
            if s.len() >= 1 + k {
                let n = be_val(s.subrange(1, 1 + k)) as int;
                if s.len() >= 1 + k + n {
                    Some((s.subrange(1 + k, 1 + k + n), s.skip(1 + k + n)))
                } else {
                    None
                }
            } else {
                None
            }
        } else {
            None
        }
    }
}

/// Parses one RLP list header from the front of `s`: the concatenated item
/// encodings inside the list, and the remainder after the whole list.
#[verifier::opaque]
pub open spec fn parse_list(s: Seq<u8>) -> Option<(Seq<u8>, Seq<u8>)> {
    if s.len() == 0 {
        None
    } else {
        let b0 = s[0];
        if b0 < 0xc0 {
            None
        } else if b0 <= 0xf7 {
            let n = b0 - 0xc0;
            if s.len() >= 1 + n {
                Some((s.subrange(1, 1 + n), s.skip(1 + n)))
            } else {
                None
            }
        } else {
            let k = b0 - 0xf7;
            if s.len() >= 1 + k {
                let n = be_val(s.subrange(1, 1 + k)) as int;
                if s.len() >= 1 + k + n {
                    Some((s.subrange(1 + k, 1 + k + n), s.skip(1 + k + n)))
                } else {
                    None
                }
            } else {
                None
            }
        }
    }
}

/// Parses an RLP byte string as an unsigned big-endian integer.
pub open spec fn parse_uint(s: Seq<u8>) -> Option<(nat, Seq<u8>)> {
    match parse_str(s) {
        Some((p, rest)) => Some((be_val(p), rest)),
        None => None,
    }
}

/// Concatenation is associative; regroups a head item off a byte stream.
pub proof fn lemma_add_assoc(a: Seq<u8>, b: Seq<u8>, c: Seq<u8>)
    ensures
        (a + b) + c == a + (b + c),
{
    assert((a + b) + c =~= a + (b + c));
}

/// The empty sequence is a right identity of concatenation.
pub proof fn lemma_add_empty(a: Seq<u8>)
    ensures
        a + Seq::<u8>::empty() == a,
{
    assert(a + Seq::<u8>::empty() =~= a);
}

/// Parsing undoes string encoding, whatever follows it.
pub proof fn lemma_parse_str_inverts(p: Seq<u8>, rest: Seq<u8>)
    requires
        p.len() < 0x1_0000_0000_0000_0000,
    ensures
        parse_str(rlp_str(p) + rest) == Some((p, rest)),
{
    reveal(parse_str);
    let s = rlp_str(p) + rest;
    if p.len() == 1 && p[0] < 0x80 {
        assert(s[0] == p[0]);
        assert(seq![s[0]] =~= p);
        assert(s.skip(1) =~= rest);
    } else if p.len() <= 55 {
        let b0: u8 = (0x80 + p.len()) as u8;
        assert(rlp_len_prefix(0x80, p.len() as nat) =~= seq![b0]);
        assert(s[0] == b0);
        let n = b0 - 0x80;
        assert(n == p.len());
        assert(s.subrange(1, 1 + n) =~= p);
        assert(s.skip(1 + n) =~= rest);
    } else {
        let len = p.len() as nat;
        lemma_pow256_8_16();
        lemma_be_bytes_len(len, 8);
        lemma_be_bytes_no_leading_zero(len);
        let lb = be_bytes(len);
        let k = lb.len() as int;
        assert(1 <= k <= 8);
        let b0: u8 = (0x80 + 55 + k) as u8;
        assert(rlp_len_prefix(0x80, len) =~= seq![b0] + lb);
        assert(s[0] == b0);
        assert(0xb7 < b0 <= 0xbf);
        assert(b0 - 0xb7 == k);
        assert(s.len() >= 1 + k);
        assert(s.subrange(1, 1 + k) =~= lb);
        lemma_be_bytes_val(len);
        assert(be_val(s.subrange(1, 1 + k)) == len);
        assert(s.len() == 1 + k + len + rest.len());
        assert(s.subrange(1 + k, 1 + k + len) =~= p);
        assert(s.skip(1 + k + len) =~= rest);
    }
}

/// Parsing undoes list encoding, whatever follows it.
pub proof fn lemma_parse_list_inverts(payload: Seq<u8>, rest: Seq<u8>)
    requires
        payload.len() < 0x1_0000_0000_0000_0000,
    ensures
        parse_list(rlp_list(payload) + rest) == Some((payload, rest)),
{
    reveal(parse_list);
    let s = rlp_list(payload) + rest;
    if payload.len() <= 55 {
        let b0: u8 = (0xc0 + payload.len()) as u8;
        assert(rlp_len_prefix(0xc0, payload.len() as nat) =~= seq![b0]);
        assert(s[0] == b0);
        let n = b0 - 0xc0;
        assert(n == payload.len());
        assert(s.subrange(1, 1 + n) =~= payload);
        assert(s.skip(1 + n) =~= rest);
    } else {
        let len = payload.len() as nat;
        lemma_pow256_8_16();
        lemma_be_bytes_len(len, 8);
        lemma_be_bytes_no_leading_zero(len);
        let lb = be_bytes(len);
        let k = lb.len() as int;
        assert(1 <= k <= 8);
        let b0: u8 = (0xc0 + 55 + k) as u8;
        assert(rlp_len_prefix(0xc0, len) =~= seq![b0] + lb);
        assert(s[0] == b0);
        assert(b0 > 0xf7);
        assert(b0 - 0xf7 == k);
        assert(s.len() >= 1 + k);
        assert(s.subrange(1, 1 + k) =~= lb);
        lemma_be_bytes_val(len);
        assert(be_val(s.subrange(1, 1 + k)) == len);
        assert(s.len() == 1 + k + len + rest.len());
        assert(s.subrange(1 + k, 1 + k + len) =~= payload);
        assert(s.skip(1 + k + len) =~= rest);
    }
}

/// Parsing undoes integer encoding, whatever follows it.
pub proof fn lemma_parse_uint_inverts(n: nat, rest: Seq<u8>)
    requires
        n < 0x1_0000_0000_0000_0000_0000_0000_0000_0000,
    ensures
        parse_uint(rlp_uint(n) + rest) == Some((n, rest)),
{
    lemma_pow256_8_16();
    lemma_be_bytes_len(n, 16);
    lemma_parse_str_inverts(be_bytes(n), rest);
    lemma_be_bytes_val(n);
}

/// Appends a plain byte slice, without any RLP framing.
pub fn append_bytes(out: &mut Vec<u8>, s: &[u8])
    ensures
        final(out)@ == old(out)@ + s@,
{
    let ghost base = out@;
    let mut i: usize = 0;
    while i < s.len()
        invariant
            i <= s@.len(),
            out@ == base + s@.take(i as int),
        decreases s@.len() - i,
    {
        out.push(s[i]);
        i = i + 1;
        proof {
            assert(base + s@.take(i - 1) + seq![s@[i - 1]] =~= base + s@.take(i as int));
        }
    }
    proof {
        assert(base + s@.take(s@.len() as int) =~= base + s@);
    }
}

/// Appends the minimal big-endian encoding of `n`.
pub fn append_be_bytes(out: &mut Vec<u8>, n: u128)
    ensures
        final(out)@ == old(out)@ + be_bytes(n as nat),
{
    let mut rev: Vec<u8> = Vec::new();
    let mut m: u128 = n;
    while m > 0
        invariant
            be_bytes(n as nat) == be_bytes(m as nat) + rev@.reverse(),
        decreases m,
    {
        let ghost rev0 = rev@;
        rev.push((m % 256) as u8);
        proof {
            assert(be_bytes(m as nat) == be_bytes((m as nat) / 256) + seq![((m as nat) % 256) as u8]);
            assert(rev@.reverse() =~= seq![(m % 256) as u8] + rev0.reverse());
            assert(be_bytes((m as nat) / 256) + seq![((m as nat) % 256) as u8] + rev0.reverse()
                =~= be_bytes((m as nat) / 256) + rev@.reverse());
            assert((m / 256) as nat == (m as nat) / 256);
        }
        m = m / 256;
    }
    proof {
        assert(be_bytes(n as nat) =~= rev@.reverse());
    }
    let ghost base = out@;
    let mut i: usize = rev.len();
    while i > 0
        invariant
            i <= rev@.len(),
            out@ == base + rev@.reverse().take((rev@.len() - i) as int),
            be_bytes(n as nat) == rev@.reverse(),
        decreases i,
    {
        i = i - 1;
        out.push(rev[i]);
        proof {
            let r = rev@.reverse();
            assert(r[(rev@.len() - i - 1) as int] == rev@[i as int]);
            assert(base + r.take((rev@.len() - i - 1) as int) + seq![rev@[i as int]]
                =~= base + r.take((rev@.len() - i) as int));
        }
    }
    proof {
        assert(base + rev@.reverse().take(rev@.len() as int) =~= base + rev@.reverse());
    }
}

/// Appends an RLP length prefix; `base` is 0x80 for strings, 0xc0 for lists.
pub fn append_len_prefix(out: &mut Vec<u8>, base: u8, n: usize)
    requires
        base == 0x80 || base == 0xc0,
    ensures
        final(out)@ == old(out)@ + rlp_len_prefix(base, n as nat),
{
    if n <= 55 {
        out.push(base + (n as u8));
        proof {
            assert(old(out)@ + rlp_len_prefix(base, n as nat) =~= out@);
        }
    } else {
        proof {
            lemma_pow256_8_16();
            lemma_be_bytes_len(n as nat, 8);
            lemma_be_bytes_no_leading_zero(n as nat);
            assert(be_bytes(n as nat).len() >= 1);
        }
        let mut len_bytes: Vec<u8> = Vec::new();
        append_be_bytes(&mut len_bytes, n as u128);
        assert(len_bytes@ == be_bytes(n as nat));
        out.push(base + 55 + (len_bytes.len() as u8));
        append_bytes(out, len_bytes.as_slice());
        proof {
            assert(old(out)@ + rlp_len_prefix(base, n as nat) =~= out@);
        }
    }
}

/// Appends the RLP encoding of a byte string.
pub fn append_str(out: &mut Vec<u8>, s: &[u8])
    ensures
        final(out)@ == old(out)@ + rlp_str(s@),
{
    if s.len() == 1 && s[0] < 0x80 {
        out.push(s[0]);
        proof {
            assert(old(out)@ + rlp_str(s@) =~= out@);
        }
    } else {
        append_len_prefix(out, 0x80, s.len());
        append_bytes(out, s);
        proof {
            assert(old(out)@ + rlp_str(s@) =~= out@);
        }
    }
}

/// Appends the RLP encoding of an unsigned integer.
pub fn append_uint(out: &mut Vec<u8>, n: u128)
    ensures
        final(out)@ == old(out)@ + rlp_uint(n as nat),
{
    let mut bytes: Vec<u8> = Vec::new();
    append_be_bytes(&mut bytes, n);
    proof {
        lemma_pow256_8_16();
        lemma_be_bytes_len(n as nat, 16);
    }
    append_str(out, bytes.as_slice());
}

/// Appends the RLP encoding of the integer whose big-endian bytes are `s`
/// (leading zeros ignored), as for the `r` and `s` signature words.
pub fn append_uint_be(out: &mut Vec<u8>, s: &[u8])
    ensures
        final(out)@ == old(out)@ + rlp_uint(be_val(s@)),
{
    let mut i: usize = 0;
    proof {
        assert(s@.skip(0) =~= s@);
    }
    while i < s.len() && s[i] == 0
        invariant
            i <= s@.len(),
            strip_zeros(s@) == strip_zeros(s@.skip(i as int)),
        decreases s@.len() - i,
    {
        proof {
            assert(s@.skip(i as int).skip(1) =~= s@.skip(i + 1));
        }
        i = i + 1;
    }
    proof {
        if i < s@.len() {
            assert(strip_zeros(s@.skip(i as int)) =~= s@.skip(i as int));
        } else {
            assert(s@.skip(i as int) =~= Seq::<u8>::empty());
            assert(strip_zeros(s@.skip(i as int)) =~= Seq::<u8>::empty());
        }
        lemma_strip_zeros_is_be_bytes(s@);
    }
    let ghost base = out@;
    let mut tail: Vec<u8> = Vec::new();
    append_bytes(&mut tail, slice_subrange(s, i, s.len()));
    append_str(out, tail.as_slice());
    proof {
        assert(tail@ == s@.skip(i as int));
    }
}

/// Appends an RLP list whose already-encoded items concatenate to `payload`.
pub fn append_list(out: &mut Vec<u8>, payload: &Vec<u8>)
    ensures
        final(out)@ == old(out)@ + rlp_list(payload@),
{
    append_len_prefix(out, 0xc0, payload.len());
    append_bytes(out, payload.as_slice());
    proof {
        assert(old(out)@ + rlp_list(payload@) =~= out@);
    }
}

} // verus!
