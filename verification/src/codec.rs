//! The wire format of transactions and blocks: length-prefixed fields
//! and little-endian integers, the same canonical framing the digests
//! cover. Decoding inverts encoding exactly: a decoder returns a value
//! whose encoding is the input, and succeeds on every encoded value.

use vstd::prelude::*;

verus! {

use crate::address::Address;
use crate::block::Block;
use crate::block::BlockV;
use crate::block::Header;
use crate::block::header_preimage;
use crate::block::header_preimage_bytes;
use crate::bytes::append_bytes;
use crate::bytes::append_len_prefixed;
use crate::bytes::le_value;
use crate::bytes::lemma_le_bytes_canonical;
use crate::bytes::lemma_le_bytes_len;
use crate::bytes::lemma_le_roundtrip;
use crate::bytes::lemma_pow256_16;
use crate::bytes::lemma_pow256_8;
use crate::bytes::lemma_pow256_monotone;
use crate::bytes::len_prefixed;
use crate::bytes::pow256;
use crate::bytes::u128_le;
use crate::bytes::u64_le;
use crate::bytes::u64_to_le;
use crate::hash::HashDigest;
use crate::signature::Signature;
use crate::transaction::Transaction;
use crate::transaction::TransactionV;
use crate::transaction::tx_full_encoding;
use crate::transaction::tx_views;

/// Reads a little-endian `u64` at a position: the eight bytes there,
/// exactly when they fit.
pub fn read_u64(bytes: &Vec<u8>, pos: usize) -> (r: Option<(u64, usize)>)
    ensures
        match r {
            Some(v) => pos + 8 <= bytes@.len() && v.1 == pos + 8 && v.0 as nat == le_value(
                bytes@.subrange(pos as int, pos as int + 8),
            ) && bytes@.subrange(pos as int, pos as int + 8) == u64_le(v.0),
            None => bytes@.len() < pos + 8,
        },
{
    let n = bytes.len();
    if n < 8 || pos > n - 8 {
        return None;
    }
    let ghost s = bytes@.subrange(pos as int, pos as int + 8);
    proof {
        lemma_pow256_8();
    }
    let mut v: u64 = 0;
    let mut j: usize = 8;
    while j > 0
        invariant
            j <= 8,
            pos + 8 <= bytes@.len(),
            bytes@.len() <= usize::MAX,
            s == bytes@.subrange(pos as int, pos as int + 8),
            v as nat == le_value(s.subrange(j as int, 8)),
            v < pow256((8 - j) as nat),
        decreases j,
    {
        j = j - 1;
        let b = bytes[pos + j];
        proof {
            let tail = s.subrange(j as int, 8);
            assert(tail[0] == s[j as int]);
            assert(s[j as int] == bytes@[pos + j]);
            assert(tail.drop_first() =~= s.subrange(j as int + 1, 8));
            assert(le_value(tail) == tail[0] + 256 * le_value(tail.drop_first()));
            assert(pow256((8 - j) as nat) == 256 * pow256((8 - j - 1) as nat));
            assert(256 * (v as nat) + b < pow256((8 - j) as nat)) by (nonlinear_arith)
                requires
                    (v as nat) < pow256((8 - j - 1) as nat),
                    b < 256,
                    pow256((8 - j) as nat) == 256 * pow256((8 - j - 1) as nat),
            ;
            lemma_pow256_monotone((8 - j) as nat, 8);
            lemma_pow256_8();
        }
        v = v * 256 + (b as u64);
        proof {
            assert(v as nat == le_value(s.subrange(j as int, 8)));
        }
    }
    proof {
        assert(s.subrange(0, 8) =~= s);
        lemma_le_bytes_canonical(s);
        assert(u64_le(v) == s);
    }
    Some((v, pos + 8))
}

/// Reads a little-endian `u128` at a position: the sixteen bytes there,
/// exactly when they fit.
pub fn read_u128(bytes: &Vec<u8>, pos: usize) -> (r: Option<(u128, usize)>)
    ensures
        match r {
            Some(v) => pos + 16 <= bytes@.len() && v.1 == pos + 16 && v.0 as nat == le_value(
                bytes@.subrange(pos as int, pos as int + 16),
            ) && bytes@.subrange(pos as int, pos as int + 16) == u128_le(v.0),
            None => bytes@.len() < pos + 16,
        },
{
    let n = bytes.len();
    if n < 16 || pos > n - 16 {
        return None;
    }
    let ghost s = bytes@.subrange(pos as int, pos as int + 16);
    proof {
        lemma_pow256_16();
    }
    let mut v: u128 = 0;
    let mut j: usize = 16;
    while j > 0
        invariant
            j <= 16,
            pos + 16 <= bytes@.len(),
            bytes@.len() <= usize::MAX,
            s == bytes@.subrange(pos as int, pos as int + 16),
            v as nat == le_value(s.subrange(j as int, 16)),
            v < pow256((16 - j) as nat),
        decreases j,
    {
        j = j - 1;
        let b = bytes[pos + j];
        proof {
            let tail = s.subrange(j as int, 16);
            assert(tail[0] == s[j as int]);
            assert(s[j as int] == bytes@[pos + j]);
            assert(tail.drop_first() =~= s.subrange(j as int + 1, 16));
            assert(le_value(tail) == tail[0] + 256 * le_value(tail.drop_first()));
            assert(pow256((16 - j) as nat) == 256 * pow256((16 - j - 1) as nat));
            assert(256 * (v as nat) + b < pow256((16 - j) as nat)) by (nonlinear_arith)
                requires
                    (v as nat) < pow256((16 - j - 1) as nat),
                    b < 256,
                    pow256((16 - j) as nat) == 256 * pow256((16 - j - 1) as nat),
            ;
            lemma_pow256_monotone((16 - j) as nat, 16);
            lemma_pow256_16();
        }
        v = v * 256 + (b as u128);
        proof {
            assert(v as nat == le_value(s.subrange(j as int, 16)));
        }
    }
    proof {
        assert(s.subrange(0, 16) =~= s);
        lemma_le_bytes_canonical(s);
        assert(u128_le(v) == s);
    }
    Some((v, pos + 16))
}

/// Reads a length-prefixed byte string at a position: exactly when its
/// length word and that many bytes fit.
pub fn read_bytes(bytes: &Vec<u8>, pos: usize) -> (r: Option<(Vec<u8>, usize)>)
    ensures
        match r {
            Some(v) => pos + 8 <= bytes@.len() && v.1 as int == pos + 8 + v.0@.len() && v.1
                <= bytes@.len() && v.0@.len() as nat == le_value(
                bytes@.subrange(pos as int, pos as int + 8),
            ) && bytes@.subrange(pos as int, v.1 as int) == len_prefixed(v.0@) && v.0@
                == bytes@.subrange(pos as int + 8, v.1 as int),
            None => bytes@.len() < pos + 8 || le_value(
                bytes@.subrange(pos as int, pos as int + 8),
            ) + pos + 8 > bytes@.len(),
        },
{
    let (len_val, p1) = match read_u64(bytes, pos) {
        Some(v) => v,
        None => {
            return None;
        },
    };
    let n = bytes.len();
    let remaining = n - p1;
    if len_val > remaining as u64 {
        return None;
    }
    let m = len_val as usize;
    let mut out: Vec<u8> = Vec::new();
    let mut i: usize = 0;
    while i < m
        invariant
            i <= m,
            p1 + m <= bytes@.len(),
            bytes@.len() <= usize::MAX,
            p1 == pos + 8,
            out@ =~= bytes@.subrange(p1 as int, p1 as int + i as int),
        decreases m - i,
    {
        out.push(bytes[p1 + i]);
        i = i + 1;
        proof {
            assert(out@ =~= bytes@.subrange(p1 as int, p1 as int + i as int));
        }
    }
    proof {
        lemma_le_bytes_len(len_val as nat, 8);
        assert(bytes@.subrange(pos as int, pos as int + 8 + m as int) =~= len_prefixed(out@));
    }
    Some((out, p1 + m))
}

/// The length of a transaction's wire form.
pub open spec fn tx_wire_len(t: TransactionV) -> int {
    56 + t.submitter.len() as int + t.payload.len() as int + t.hash.len() as int
        + t.signature.len() as int
}

/// What the wire form of a transaction determines: each field at its
/// fixed offset, with every field length below the length-word range.
pub proof fn lemma_tx_wire_fields(t: TransactionV, b: Seq<u8>)
    requires
        b == tx_full_encoding(t),
        b.len() < pow256(8),
    ensures
        b.len() == tx_wire_len(t),
        t.submitter.len() < pow256(8),
        t.payload.len() < pow256(8),
        t.hash.len() < pow256(8),
        t.signature.len() < pow256(8),
        b.subrange(0, 8) == u64_le(t.submitter.len() as u64),
        b.subrange(8, 8 + t.submitter.len() as int) == t.submitter,
        b.subrange(8 + t.submitter.len() as int, 16 + t.submitter.len() as int) == u64_le(
            t.timestamp,
        ),
        b.subrange(16 + t.submitter.len() as int, 24 + t.submitter.len() as int) == u64_le(
            t.payload.len() as u64,
        ),
        b.subrange(
            24 + t.submitter.len() as int,
            24 + t.submitter.len() as int + t.payload.len() as int,
        ) == t.payload,
        b.subrange(
            24 + t.submitter.len() as int + t.payload.len() as int,
            40 + t.submitter.len() as int + t.payload.len() as int,
        ) == u128_le(t.nonce),
        b.subrange(
            40 + t.submitter.len() as int + t.payload.len() as int,
            48 + t.submitter.len() as int + t.payload.len() as int,
        ) == u64_le(t.hash.len() as u64),
        b.subrange(
            48 + t.submitter.len() as int + t.payload.len() as int,
            48 + t.submitter.len() as int + t.payload.len() as int + t.hash.len() as int,
        ) == t.hash,
        b.subrange(
            48 + t.submitter.len() as int + t.payload.len() as int + t.hash.len() as int,
            56 + t.submitter.len() as int + t.payload.len() as int + t.hash.len() as int,
        ) == u64_le(t.signature.len() as u64),
        b.subrange(
            56 + t.submitter.len() as int + t.payload.len() as int + t.hash.len() as int,
            b.len() as int,
        ) == t.signature,
{
    let l1 = t.submitter.len() as int;
    let l2 = t.payload.len() as int;
    let l3 = t.hash.len() as int;
    let l4 = t.signature.len() as int;
    lemma_le_bytes_len(t.submitter.len() as u64 as nat, 8);
    lemma_le_bytes_len(t.timestamp as nat, 8);
    lemma_le_bytes_len(t.payload.len() as u64 as nat, 8);
    lemma_le_bytes_len(t.nonce as nat, 16);
    lemma_le_bytes_len(t.hash.len() as u64 as nat, 8);
    lemma_le_bytes_len(t.signature.len() as u64 as nat, 8);
    assert(b.len() == 56 + l1 + l2 + l3 + l4);
    assert(b.subrange(0, 8) =~= u64_le(t.submitter.len() as u64));
    assert(b.subrange(8, 8 + l1) =~= t.submitter);
    assert(b.subrange(8 + l1, 16 + l1) =~= u64_le(t.timestamp));
    assert(b.subrange(16 + l1, 24 + l1) =~= u64_le(t.payload.len() as u64));
    assert(b.subrange(24 + l1, 24 + l1 + l2) =~= t.payload);
    assert(b.subrange(24 + l1 + l2, 40 + l1 + l2) =~= u128_le(t.nonce));
    assert(b.subrange(40 + l1 + l2, 48 + l1 + l2) =~= u64_le(t.hash.len() as u64));
    assert(b.subrange(48 + l1 + l2, 48 + l1 + l2 + l3) =~= t.hash);
    assert(b.subrange(48 + l1 + l2 + l3, 56 + l1 + l2 + l3) =~= u64_le(t.signature.len() as u64));
    assert(b.subrange(56 + l1 + l2 + l3, b.len() as int) =~= t.signature);
}

/// The wire form of a transaction: its canonical full encoding.
pub fn encode_transaction(t: &Transaction) -> (r: Vec<u8>)
    ensures
        r@ == tx_full_encoding(t@),
{
    t.encoded()
}

/// Decodes a transaction from its wire form. The result's encoding is
/// the input, and decoding succeeds on every encoded transaction, with
/// that transaction as the value: together with `encode_transaction`,
/// a round trip yields a transaction with identical fields, so an
/// identical hash and a signature that still verifies.
#[verifier::rlimit(100)]
#[verifier::spinoff_prover]
pub fn decode_transaction(bytes: &Vec<u8>) -> (r: Option<Transaction>)
    ensures
        r matches Some(res) ==> bytes@ == tx_full_encoding(res@),
        forall|t: TransactionV| bytes@ == tx_full_encoding(t) ==> r is Some && r->0@ == t,
{
    let ghost bv = bytes@;
    let n = bytes.len();
    proof {
        lemma_pow256_8();
    }
    let (submitter, p1) = match read_bytes(bytes, 0) {
        Some(v) => v,
        None => {
            proof {
                assert forall|t: TransactionV| bv != tx_full_encoding(t) by {
                    if bv == tx_full_encoding(t) {
                        lemma_tx_wire_fields(t, bv);
                        lemma_le_roundtrip(t.submitter.len() as nat, 8);
                    }
                }
            }
            return None;
        },
    };
    let (timestamp, p2) = match read_u64(bytes, p1) {
        Some(v) => v,
        None => {
            proof {
                assert forall|t: TransactionV| bv != tx_full_encoding(t) by {
                    if bv == tx_full_encoding(t) {
                        lemma_tx_wire_fields(t, bv);
                        lemma_le_roundtrip(t.submitter.len() as nat, 8);
                    }
                }
            }
            return None;
        },
    };
    let (payload, p3) = match read_bytes(bytes, p2) {
        Some(v) => v,
        None => {
            proof {
                assert forall|t: TransactionV| bv != tx_full_encoding(t) by {
                    if bv == tx_full_encoding(t) {
                        lemma_tx_wire_fields(t, bv);
                        lemma_le_roundtrip(t.submitter.len() as nat, 8);
                        lemma_le_roundtrip(t.payload.len() as nat, 8);
                    }
                }
            }
            return None;
        },
    };
    let (nonce, p4) = match read_u128(bytes, p3) {
        Some(v) => v,
        None => {
            proof {
                assert forall|t: TransactionV| bv != tx_full_encoding(t) by {
                    if bv == tx_full_encoding(t) {
                        lemma_tx_wire_fields(t, bv);
                        lemma_le_roundtrip(t.submitter.len() as nat, 8);
                        lemma_le_roundtrip(t.payload.len() as nat, 8);
                    }
                }
            }
            return None;
        },
    };
    let (hash, p5) = match read_bytes(bytes, p4) {
        Some(v) => v,
        None => {
            proof {
                assert forall|t: TransactionV| bv != tx_full_encoding(t) by {
                    if bv == tx_full_encoding(t) {
                        lemma_tx_wire_fields(t, bv);
                        lemma_le_roundtrip(t.submitter.len() as nat, 8);
                        lemma_le_roundtrip(t.payload.len() as nat, 8);
                        lemma_le_roundtrip(t.hash.len() as nat, 8);
                    }
                }
            }
            return None;
        },
    };
    let (sig, p6) = match read_bytes(bytes, p5) {
        Some(v) => v,
        None => {
            proof {
                assert forall|t: TransactionV| bv != tx_full_encoding(t) by {
                    if bv == tx_full_encoding(t) {
                        lemma_tx_wire_fields(t, bv);
                        lemma_le_roundtrip(t.submitter.len() as nat, 8);
                        lemma_le_roundtrip(t.payload.len() as nat, 8);
                        lemma_le_roundtrip(t.hash.len() as nat, 8);
                        lemma_le_roundtrip(t.signature.len() as nat, 8);
                    }
                }
            }
            return None;
        },
    };
    if p6 != n {
        proof {
            assert forall|t: TransactionV| bv != tx_full_encoding(t) by {
                if bv == tx_full_encoding(t) {
                    lemma_tx_wire_fields(t, bv);
                    lemma_le_roundtrip(t.submitter.len() as nat, 8);
                    lemma_le_roundtrip(t.payload.len() as nat, 8);
                    lemma_le_roundtrip(t.hash.len() as nat, 8);
                    lemma_le_roundtrip(t.signature.len() as nat, 8);
                }
            }
        }
        return None;
    }
    let result = Transaction::from_fields(
        Address::from_bytes(submitter),
        timestamp,
        payload,
        nonce,
        HashDigest::from_bytes(hash),
        Signature::from_bytes(sig),
    );
    proof {
        assert(bv =~= tx_full_encoding(result@));
        assert forall|t: TransactionV| bv == tx_full_encoding(t) implies result@ == t by {
            lemma_tx_wire_fields(t, bv);
            lemma_le_roundtrip(t.submitter.len() as nat, 8);
            lemma_le_roundtrip(t.payload.len() as nat, 8);
            lemma_le_roundtrip(t.hash.len() as nat, 8);
            lemma_le_roundtrip(t.signature.len() as nat, 8);
            lemma_le_roundtrip(t.timestamp as nat, 8);
            lemma_pow256_16();
            lemma_le_roundtrip(t.nonce as nat, 16);
            assert(result@ =~= t);
        }
    }
    Some(result)
}


/// The wire form of an ordered transaction list: each transaction's
/// full encoding, length-prefixed, in order.
pub open spec fn txs_wire(ts: Seq<TransactionV>) -> Seq<u8>
    decreases ts.len(),
{
    if ts.len() == 0 {
        Seq::empty()
    } else {
        len_prefixed(tx_full_encoding(ts[0])) + txs_wire(ts.drop_first())
    }
}

/// The wire form of a block: the header fields, the header hash, the
/// transaction count, the transactions, the committer key material and
/// the block signature.
pub open spec fn block_wire(b: BlockV) -> Seq<u8> {
    header_preimage(b.header) + len_prefixed(b.header.hash) + u64_le(b.transactions.len() as u64)
        + txs_wire(b.transactions) + len_prefixed(b.public_key) + len_prefixed(b.signature)
}

pub proof fn lemma_txs_wire_push(ts: Seq<TransactionV>, t: TransactionV)
    ensures
        txs_wire(ts.push(t)) == txs_wire(ts) + len_prefixed(tx_full_encoding(t)),
    decreases ts.len(),
{
    let p = ts.push(t);
    if ts.len() == 0 {
        assert(p[0] == t);
        assert(p.drop_first() =~= Seq::<TransactionV>::empty());
        assert(txs_wire(p) == len_prefixed(tx_full_encoding(t)) + txs_wire(
            Seq::<TransactionV>::empty(),
        ));
        assert(txs_wire(p) =~= txs_wire(ts) + len_prefixed(tx_full_encoding(t)));
    } else {
        lemma_txs_wire_push(ts.drop_first(), t);
        assert(p[0] == ts[0]);
        assert(p.drop_first() =~= ts.drop_first().push(t));
        assert(txs_wire(p) == len_prefixed(tx_full_encoding(ts[0])) + txs_wire(
            ts.drop_first().push(t),
        ));
        assert(txs_wire(ts) == len_prefixed(tx_full_encoding(ts[0])) + txs_wire(ts.drop_first()));
        assert(txs_wire(p) =~= txs_wire(ts) + len_prefixed(tx_full_encoding(t)));
    }
}

pub proof fn lemma_txs_wire_len(ts: Seq<TransactionV>)
    ensures
        txs_wire(ts).len() >= 8 * ts.len(),
    decreases ts.len(),
{
    if ts.len() > 0 {
        lemma_txs_wire_len(ts.drop_first());
        lemma_le_bytes_len(tx_full_encoding(ts[0]).len() as u64 as nat, 8);
    }
}

/// Whether a byte string stands at a position of a larger one.
pub open spec fn wire_prefix_at(b: Seq<u8>, pos: int, s: Seq<u8>) -> bool {
    0 <= pos && pos + s.len() <= b.len() && b.subrange(pos, pos + s.len()) == s
}

/// A window into a byte string standing at a position of a larger one
/// is the same window into the larger one.
pub proof fn lemma_subrange_of_prefix(b: Seq<u8>, pos: int, s: Seq<u8>, lo: int, hi: int)
    requires
        wire_prefix_at(b, pos, s),
        0 <= lo <= hi <= s.len(),
    ensures
        b.subrange(pos + lo, pos + hi) == s.subrange(lo, hi),
{
    assert forall|i: int| 0 <= i < hi - lo implies b.subrange(pos + lo, pos + hi)[i] == s.subrange(
        lo,
        hi,
    )[i] by {
        assert(b.subrange(pos, pos + s.len() as int)[lo + i] == s[lo + i]);
    }
    assert(b.subrange(pos + lo, pos + hi) =~= s.subrange(lo, hi));
}

/// What a transaction list's wire form at a position determines: the
/// head transaction's length-prefixed encoding stands first, the rest
/// of the list's wire form after it.
pub proof fn lemma_txs_wire_head(ts: Seq<TransactionV>, b: Seq<u8>, pos: int)
    requires
        ts.len() > 0,
        b.len() < pow256(8),
        wire_prefix_at(b, pos, txs_wire(ts)),
    ensures
        tx_full_encoding(ts[0]).len() < pow256(8),
        pos + 8 + tx_full_encoding(ts[0]).len() <= b.len(),
        le_value(b.subrange(pos, pos + 8)) == tx_full_encoding(ts[0]).len(),
        b.subrange(pos + 8, pos + 8 + tx_full_encoding(ts[0]).len() as int) == tx_full_encoding(
            ts[0],
        ),
        wire_prefix_at(
            b,
            pos + 8 + tx_full_encoding(ts[0]).len() as int,
            txs_wire(ts.drop_first()),
        ),
        txs_wire(ts).len() == 8 + tx_full_encoding(ts[0]).len() + txs_wire(ts.drop_first()).len(),
{
    let e0 = tx_full_encoding(ts[0]);
    let w = txs_wire(ts);
    let rest = txs_wire(ts.drop_first());
    lemma_pow256_8();
    lemma_le_bytes_len(e0.len() as u64 as nat, 8);
    assert(w == len_prefixed(e0) + rest);
    assert(w.len() == 8 + e0.len() + rest.len());
    assert(e0.len() < pow256(8));
    lemma_le_roundtrip(e0.len() as nat, 8);
    lemma_subrange_of_prefix(b, pos, w, 0, 8);
    assert(w.subrange(0, 8) =~= u64_le(e0.len() as u64));
    lemma_subrange_of_prefix(b, pos, w, 8, 8 + e0.len() as int);
    assert(w.subrange(8, 8 + e0.len() as int) =~= e0);
    lemma_subrange_of_prefix(b, pos, w, 8 + e0.len() as int, w.len() as int);
    assert(w.subrange(8 + e0.len() as int, w.len() as int) =~= rest);
}

/// Decodes `count` length-prefixed transactions at a position.
/// Succeeds on every position where that many encoded transactions
/// stand, and returns exactly them.
#[verifier::rlimit(100)]
#[verifier::spinoff_prover]
fn decode_txs(bytes: &Vec<u8>, pos: usize, count: u64) -> (r: Option<(Vec<Transaction>, usize)>)
    ensures
        r matches Some(v) ==> v.0@.len() == count && pos <= v.1 <= bytes@.len()
            && bytes@.subrange(pos as int, v.1 as int) == txs_wire(tx_views(v.0@)),
        forall|ts: Seq<TransactionV>|
            ts.len() == count && wire_prefix_at(bytes@, pos as int, txs_wire(ts)) ==> r is Some
                && tx_views((r->0).0@) == ts && (r->0).1 == pos + txs_wire(ts).len(),
    decreases count,
{
    let ghost bv = bytes@;
    let n = bytes.len();
    proof {
        lemma_pow256_8();
    }
    if pos > n {
        proof {
            assert forall|ts: Seq<TransactionV>|
                !(ts.len() == count && wire_prefix_at(bv, pos as int, txs_wire(ts))) by {}
        }
        return None;
    }
    if count == 0 {
        let empty: Vec<Transaction> = Vec::new();
        proof {
            assert(tx_views(empty@) =~= Seq::<TransactionV>::empty());
            assert(bv.subrange(pos as int, pos as int) =~= Seq::<u8>::empty());
            assert forall|ts: Seq<TransactionV>|
                ts.len() == 0 && wire_prefix_at(bv, pos as int, txs_wire(ts)) implies tx_views(
                empty@,
            ) == ts && pos == pos + txs_wire(ts).len() by {
                assert(ts =~= Seq::<TransactionV>::empty());
            }
        }
        return Some((empty, pos));
    }
    let (chunk, p1) = match read_bytes(bytes, pos) {
        Some(v) => v,
        None => {
            proof {
                assert forall|ts: Seq<TransactionV>|
                    !(ts.len() == count && wire_prefix_at(bv, pos as int, txs_wire(ts))) by {
                    if ts.len() == count && wire_prefix_at(bv, pos as int, txs_wire(ts)) {
                        lemma_txs_wire_head(ts, bv, pos as int);
                    }
                }
            }
            return None;
        },
    };
    let tx = match decode_transaction(&chunk) {
        Some(t) => t,
        None => {
            proof {
                assert forall|ts: Seq<TransactionV>|
                    !(ts.len() == count && wire_prefix_at(bv, pos as int, txs_wire(ts))) by {
                    if ts.len() == count && wire_prefix_at(bv, pos as int, txs_wire(ts)) {
                        lemma_txs_wire_head(ts, bv, pos as int);
                        assert(chunk@ == tx_full_encoding(ts[0]));
                    }
                }
            }
            return None;
        },
    };
    let (mut rest, p2) = match decode_txs(bytes, p1, count - 1) {
        Some(v) => v,
        None => {
            proof {
                assert forall|ts: Seq<TransactionV>|
                    !(ts.len() == count && wire_prefix_at(bv, pos as int, txs_wire(ts))) by {
                    if ts.len() == count && wire_prefix_at(bv, pos as int, txs_wire(ts)) {
                        lemma_txs_wire_head(ts, bv, pos as int);
                        assert(chunk@ == tx_full_encoding(ts[0]));
                        assert(p1 as int == pos + 8 + tx_full_encoding(ts[0]).len());
                        assert(ts.drop_first().len() == count - 1);
                        assert(wire_prefix_at(bv, p1 as int, txs_wire(ts.drop_first())));
                    }
                }
            }
            return None;
        },
    };
    let ghost rv = rest@;
    rest.insert(0, tx);
    proof {
        assert(rest@ =~= seq![tx] + rv);
        assert(rest@[0] == tx);
        assert(rest@.drop_first() =~= rv);
        let views = tx_views(rest@);
        assert(views[0] == tx@);
        assert(views.drop_first() =~= tx_views(rv)) by {
            assert forall|j: int| 0 <= j < views.drop_first().len() implies views.drop_first()[j]
                == tx_views(rv)[j] by {
                assert(views[j + 1] == rest@[j + 1]@);
                assert(rest@[j + 1] == rv[j]);
                assert(tx_views(rv)[j] == rv[j]@);
            }
        }
        assert(views.len() == count);
        assert(txs_wire(views) == len_prefixed(tx_full_encoding(views[0])) + txs_wire(
            views.drop_first(),
        ));
        assert(chunk@ == tx_full_encoding(tx@));
        assert(bv.subrange(pos as int, p1 as int) == len_prefixed(chunk@));
        assert(bv.subrange(p1 as int, p2 as int) == txs_wire(tx_views(rv)));
        assert(bv.subrange(pos as int, p2 as int) =~= bv.subrange(pos as int, p1 as int)
            + bv.subrange(p1 as int, p2 as int));
        assert(bv.subrange(pos as int, p2 as int) == txs_wire(views));
        assert forall|ts: Seq<TransactionV>|
            ts.len() == count && wire_prefix_at(bv, pos as int, txs_wire(ts)) implies tx_views(
            rest@,
        ) == ts && p2 == pos + txs_wire(ts).len() by {
            lemma_txs_wire_head(ts, bv, pos as int);
            assert(chunk@ == tx_full_encoding(ts[0]));
            assert(tx@ == ts[0]);
            assert(p1 as int == pos + 8 + tx_full_encoding(ts[0]).len());
            assert(ts.drop_first().len() == count - 1);
            assert(wire_prefix_at(bv, p1 as int, txs_wire(ts.drop_first())));
            assert(tx_views(rv) == ts.drop_first());
            assert(p2 == p1 + txs_wire(ts.drop_first()).len());
            assert forall|j: int| 0 <= j < views.len() implies views[j] == ts[j] by {
                if j == 0 {
                } else {
                    assert(views.drop_first()[j - 1] == tx_views(rv)[j - 1]);
                    assert(ts.drop_first()[j - 1] == ts[j]);
                }
            }
            assert(tx_views(rest@) =~= ts);
        }
    }
    Some((rest, p2))
}


/// The offset of each piece inside a block's wire form.
pub open spec fn bw_o1(v: BlockV) -> int {
    8 + v.header.parent_hash.len() as int
}

pub open spec fn bw_o2(v: BlockV) -> int {
    bw_o1(v) + 8 + v.header.transactions_hash.len() as int
}

pub open spec fn bw_o3(v: BlockV) -> int {
    bw_o2(v) + 8 + v.header.committer.len() as int
}

pub open spec fn bw_o4(v: BlockV) -> int {
    bw_o3(v) + 8
}

pub open spec fn bw_o5(v: BlockV) -> int {
    bw_o4(v) + 16
}

pub open spec fn bw_o6(v: BlockV) -> int {
    bw_o5(v) + 16
}

pub open spec fn bw_o7(v: BlockV) -> int {
    bw_o6(v) + 8 + v.header.hash.len() as int
}

pub open spec fn bw_o8(v: BlockV) -> int {
    bw_o7(v) + 8
}

pub open spec fn bw_o9(v: BlockV) -> int {
    bw_o8(v) + txs_wire(v.transactions).len() as int
}

pub open spec fn bw_o10(v: BlockV) -> int {
    bw_o9(v) + 8 + v.public_key.len() as int
}

/// The length of a block's wire form.
pub open spec fn block_wire_len(v: BlockV) -> int {
    bw_o10(v) + 8 + v.signature.len() as int
}

/// What the wire form of a block determines: each piece at its offset,
/// with every length below the length-word range.
#[verifier::rlimit(100)]
#[verifier::spinoff_prover]
pub proof fn lemma_block_wire_all(v: BlockV, b: Seq<u8>)
    requires
        b == block_wire(v),
        b.len() < pow256(8),
    ensures
        b.len() == block_wire_len(v),
        v.header.parent_hash.len() < pow256(8),
        v.header.transactions_hash.len() < pow256(8),
        v.header.committer.len() < pow256(8),
        v.header.hash.len() < pow256(8),
        v.public_key.len() < pow256(8),
        v.signature.len() < pow256(8),
        v.transactions.len() < pow256(8),
        le_value(b.subrange(0, 8)) == v.header.parent_hash.len(),
        b.subrange(8, bw_o1(v)) == v.header.parent_hash,
        le_value(b.subrange(bw_o1(v), bw_o1(v) + 8)) == v.header.transactions_hash.len(),
        b.subrange(bw_o1(v) + 8, bw_o2(v)) == v.header.transactions_hash,
        le_value(b.subrange(bw_o2(v), bw_o2(v) + 8)) == v.header.committer.len(),
        b.subrange(bw_o2(v) + 8, bw_o3(v)) == v.header.committer,
        le_value(b.subrange(bw_o3(v), bw_o4(v))) == v.header.timestamp,
        le_value(b.subrange(bw_o4(v), bw_o5(v))) == v.header.ordinal,
        le_value(b.subrange(bw_o5(v), bw_o6(v))) == v.header.nonce,
        le_value(b.subrange(bw_o6(v), bw_o6(v) + 8)) == v.header.hash.len(),
        b.subrange(bw_o6(v) + 8, bw_o7(v)) == v.header.hash,
        le_value(b.subrange(bw_o7(v), bw_o8(v))) == v.transactions.len(),
        wire_prefix_at(b, bw_o8(v), txs_wire(v.transactions)),
        le_value(b.subrange(bw_o9(v), bw_o9(v) + 8)) == v.public_key.len(),
        b.subrange(bw_o9(v) + 8, bw_o10(v)) == v.public_key,
        le_value(b.subrange(bw_o10(v), bw_o10(v) + 8)) == v.signature.len(),
        b.subrange(bw_o10(v) + 8, b.len() as int) == v.signature,
{
    lemma_pow256_8();
    lemma_pow256_16();
    lemma_le_bytes_len(v.header.parent_hash.len() as u64 as nat, 8);
    lemma_le_bytes_len(v.header.transactions_hash.len() as u64 as nat, 8);
    lemma_le_bytes_len(v.header.committer.len() as u64 as nat, 8);
    lemma_le_bytes_len(v.header.timestamp as nat, 8);
    lemma_le_bytes_len(v.header.ordinal as nat, 16);
    lemma_le_bytes_len(v.header.nonce as nat, 16);
    lemma_le_bytes_len(v.header.hash.len() as u64 as nat, 8);
    lemma_le_bytes_len(v.transactions.len() as u64 as nat, 8);
    lemma_le_bytes_len(v.public_key.len() as u64 as nat, 8);
    lemma_le_bytes_len(v.signature.len() as u64 as nat, 8);
    lemma_txs_wire_len(v.transactions);
    assert(b.len() == block_wire_len(v));
    assert(b.subrange(0, 8) =~= u64_le(v.header.parent_hash.len() as u64));
    assert(b.subrange(8, bw_o1(v)) =~= v.header.parent_hash);
    assert(b.subrange(bw_o1(v), bw_o1(v) + 8) =~= u64_le(
        v.header.transactions_hash.len() as u64,
    ));
    assert(b.subrange(bw_o1(v) + 8, bw_o2(v)) =~= v.header.transactions_hash);
    assert(b.subrange(bw_o2(v), bw_o2(v) + 8) =~= u64_le(v.header.committer.len() as u64));
    assert(b.subrange(bw_o2(v) + 8, bw_o3(v)) =~= v.header.committer);
    assert(b.subrange(bw_o3(v), bw_o4(v)) =~= u64_le(v.header.timestamp));
    assert(b.subrange(bw_o4(v), bw_o5(v)) =~= u128_le(v.header.ordinal));
    assert(b.subrange(bw_o5(v), bw_o6(v)) =~= u128_le(v.header.nonce));
    assert(b.subrange(bw_o6(v), bw_o6(v) + 8) =~= u64_le(v.header.hash.len() as u64));
    assert(b.subrange(bw_o6(v) + 8, bw_o7(v)) =~= v.header.hash);
    assert(b.subrange(bw_o7(v), bw_o8(v)) =~= u64_le(v.transactions.len() as u64));
    assert(b.subrange(bw_o8(v), bw_o9(v)) =~= txs_wire(v.transactions));
    assert(b.subrange(bw_o9(v), bw_o9(v) + 8) =~= u64_le(v.public_key.len() as u64));
    assert(b.subrange(bw_o9(v) + 8, bw_o10(v)) =~= v.public_key);
    assert(b.subrange(bw_o10(v), bw_o10(v) + 8) =~= u64_le(v.signature.len() as u64));
    assert(b.subrange(bw_o10(v) + 8, b.len() as int) =~= v.signature);
    lemma_le_roundtrip(v.header.parent_hash.len() as nat, 8);
    lemma_le_roundtrip(v.header.transactions_hash.len() as nat, 8);
    lemma_le_roundtrip(v.header.committer.len() as nat, 8);
    lemma_le_roundtrip(v.header.timestamp as nat, 8);
    lemma_le_roundtrip(v.header.ordinal as nat, 16);
    lemma_le_roundtrip(v.header.nonce as nat, 16);
    lemma_le_roundtrip(v.header.hash.len() as nat, 8);
    lemma_le_roundtrip(v.transactions.len() as nat, 8);
    lemma_le_roundtrip(v.public_key.len() as nat, 8);
    lemma_le_roundtrip(v.signature.len() as nat, 8);
}

/// The wire form of a block.
pub fn encode_block(b: &Block) -> (r: Vec<u8>)
    ensures
        r@ == block_wire(b@),
{
    let mut r = header_preimage_bytes(
        &b.header.parent_hash,
        &b.header.transactions_hash,
        &b.header.committer,
        b.header.timestamp,
        b.header.ordinal,
        b.header.nonce,
    );
    proof {
        assert(r@ =~= header_preimage(b@.header));
    }
    append_len_prefixed(&mut r, b.header.hash.as_bytes());
    let count = u64_to_le(b.transactions.len() as u64);
    append_bytes(&mut r, &count);
    let ghost base = r@;
    let mut i: usize = 0;
    proof {
        assert(tx_views(b.transactions@.subrange(0, 0)) =~= Seq::<TransactionV>::empty());
    }
    while i < b.transactions.len()
        invariant
            i <= b.transactions@.len(),
            r@ =~= base + txs_wire(tx_views(b.transactions@.subrange(0, i as int))),
        decreases b.transactions@.len() - i,
    {
        let enc = b.transactions[i].encoded();
        append_len_prefixed(&mut r, &enc);
        i = i + 1;
        proof {
            lemma_txs_wire_push(
                tx_views(b.transactions@.subrange(0, i - 1)),
                b.transactions@[i - 1]@,
            );
            assert(tx_views(b.transactions@.subrange(0, i as int)) =~= tx_views(
                b.transactions@.subrange(0, i - 1),
            ).push(b.transactions@[i - 1]@));
        }
    }
    proof {
        assert(b.transactions@.subrange(0, b.transactions@.len() as int) =~= b.transactions@);
    }
    append_len_prefixed(&mut r, &b.public_key);
    append_len_prefixed(&mut r, b.signature.as_bytes());
    proof {
        assert(b@.transactions.len() == b.transactions@.len());
        assert(r@ =~= block_wire(b@));
    }
    r
}

/// Decodes a block from its wire form. The result's encoding is the
/// input, and decoding succeeds on every encoded block, with that block
/// as the value: together with `encode_block`, a round trip yields a
/// block with identical fields, so an identical header hash, an
/// identical transactions root and a signature that still verifies.
#[verifier::rlimit(100)]
#[verifier::spinoff_prover]
pub fn decode_block(bytes: &Vec<u8>) -> (r: Option<Block>)
    ensures
        r matches Some(res) ==> bytes@ == block_wire(res@),
        forall|v: BlockV| bytes@ == block_wire(v) ==> r is Some && r->0@ == v,
{
    let ghost bv = bytes@;
    let n = bytes.len();
    proof {
        lemma_pow256_8();
        lemma_pow256_16();
    }
    let (parent, p1) = match read_bytes(bytes, 0) {
        Some(v) => v,
        None => {
            proof {
                assert forall|v: BlockV| bv != block_wire(v) by {
                    if bv == block_wire(v) {
                        lemma_block_wire_all(v, bv);
                    }
                }
            }
            return None;
        },
    };
    let (root, p2) = match read_bytes(bytes, p1) {
        Some(v) => v,
        None => {
            proof {
                assert forall|v: BlockV| bv != block_wire(v) by {
                    if bv == block_wire(v) {
                        lemma_block_wire_all(v, bv);
                    }
                }
            }
            return None;
        },
    };
    let (committer, p3) = match read_bytes(bytes, p2) {
        Some(v) => v,
        None => {
            proof {
                assert forall|v: BlockV| bv != block_wire(v) by {
                    if bv == block_wire(v) {
                        lemma_block_wire_all(v, bv);
                    }
                }
            }
            return None;
        },
    };
    let (timestamp, p4) = match read_u64(bytes, p3) {
        Some(v) => v,
        None => {
            proof {
                assert forall|v: BlockV| bv != block_wire(v) by {
                    if bv == block_wire(v) {
                        lemma_block_wire_all(v, bv);
                    }
                }
            }
            return None;
        },
    };
    let (ordinal, p5) = match read_u128(bytes, p4) {
        Some(v) => v,
        None => {
            proof {
                assert forall|v: BlockV| bv != block_wire(v) by {
                    if bv == block_wire(v) {
                        lemma_block_wire_all(v, bv);
                    }
                }
            }
            return None;
        },
    };
    let (nonce, p6) = match read_u128(bytes, p5) {
        Some(v) => v,
        None => {
            proof {
                assert forall|v: BlockV| bv != block_wire(v) by {
                    if bv == block_wire(v) {
                        lemma_block_wire_all(v, bv);
                    }
                }
            }
            return None;
        },
    };
    let (header_hash, p7) = match read_bytes(bytes, p6) {
        Some(v) => v,
        None => {
            proof {
                assert forall|v: BlockV| bv != block_wire(v) by {
                    if bv == block_wire(v) {
                        lemma_block_wire_all(v, bv);
                    }
                }
            }
            return None;
        },
    };
    let (count, p8) = match read_u64(bytes, p7) {
        Some(v) => v,
        None => {
            proof {
                assert forall|v: BlockV| bv != block_wire(v) by {
                    if bv == block_wire(v) {
                        lemma_block_wire_all(v, bv);
                    }
                }
            }
            return None;
        },
    };
    let (transactions, p9) = match decode_txs(bytes, p8, count) {
        Some(v) => v,
        None => {
            proof {
                assert forall|v: BlockV| bv != block_wire(v) by {
                    if bv == block_wire(v) {
                        lemma_block_wire_all(v, bv);
                        assert(count as nat == v.transactions.len());
                        assert(wire_prefix_at(bv, p8 as int, txs_wire(v.transactions)));
                    }
                }
            }
            return None;
        },
    };
    let (public_key, p10) = match read_bytes(bytes, p9) {
        Some(v) => v,
        None => {
            proof {
                assert forall|v: BlockV| bv != block_wire(v) by {
                    if bv == block_wire(v) {
                        lemma_block_wire_all(v, bv);
                        assert(count as nat == v.transactions.len());
                        assert(wire_prefix_at(bv, p8 as int, txs_wire(v.transactions)));
                        assert(p9 as int == bw_o9(v));
                    }
                }
            }
            return None;
        },
    };
    let (sig, p11) = match read_bytes(bytes, p10) {
        Some(v) => v,
        None => {
            proof {
                assert forall|v: BlockV| bv != block_wire(v) by {
                    if bv == block_wire(v) {
                        lemma_block_wire_all(v, bv);
                        assert(count as nat == v.transactions.len());
                        assert(wire_prefix_at(bv, p8 as int, txs_wire(v.transactions)));
                        assert(p9 as int == bw_o9(v));
                        assert(p10 as int == bw_o10(v));
                    }
                }
            }
            return None;
        },
    };
    if p11 != n {
        proof {
            assert forall|v: BlockV| bv != block_wire(v) by {
                if bv == block_wire(v) {
                    lemma_block_wire_all(v, bv);
                    assert(count as nat == v.transactions.len());
                    assert(wire_prefix_at(bv, p8 as int, txs_wire(v.transactions)));
                    assert(p9 as int == bw_o9(v));
                    assert(p10 as int == bw_o10(v));
                }
            }
        }
        return None;
    }
    let header = Header {
        parent_hash: HashDigest::from_bytes(parent),
        transactions_hash: HashDigest::from_bytes(root),
        committer: Address::from_bytes(committer),
        timestamp,
        ordinal,
        nonce,
        hash: HashDigest::from_bytes(header_hash),
    };
    let result = Block::from_fields(header, transactions, public_key, Signature::from_bytes(sig));
    proof {
        assert(bv =~= block_wire(result@));
        assert forall|v: BlockV| bv == block_wire(v) implies result@ == v by {
            lemma_block_wire_all(v, bv);
            assert(count as nat == v.transactions.len());
            assert(wire_prefix_at(bv, p8 as int, txs_wire(v.transactions)));
            assert(tx_views(transactions@) == v.transactions);
            assert(result@.header =~= v.header);
            assert(result@ =~= v);
        }
    }
    Some(result)
}

} // verus!
