//! Signed, content-addressed units of submitted work. A transaction
//! carries its submitter, a creation timestamp, an opaque payload, an
//! anti-collision nonce, the digest of those four fields, and a
//! signature over that digest. Digest and signature are fixed at
//! construction and never mutated.

use vstd::prelude::*;

verus! {

use crate::address::Address;
use crate::bytes::append_bytes;
use crate::bytes::append_len_prefixed;
use crate::bytes::bytes_eq;
use crate::bytes::copy_bytes;
use crate::bytes::len_prefixed;
use crate::bytes::u128_le;
use crate::bytes::u128_to_le;
use crate::bytes::u64_le;
use crate::bytes::u64_to_le;
use crate::crypto::BlockKeypair;
use crate::crypto::now_seconds;
use crate::crypto::random_nonce;
use crate::crypto::verified_by;
use crate::hash::HashDigest;
use crate::hash::hash_bytes_of;
use crate::signature::Signature;

/// The mathematical value of a transaction: every field as plain bytes
/// and numbers.
#[verifier::ext_equal]
pub ghost struct TransactionV {
    pub submitter: Seq<u8>,
    pub timestamp: u64,
    pub payload: Seq<u8>,
    pub nonce: u128,
    pub hash: Seq<u8>,
    pub signature: Seq<u8>,
}

/// The canonical bytes whose digest is a transaction's hash: the
/// length-prefixed submitter, the timestamp, the length-prefixed
/// payload and the nonce.
pub open spec fn tx_preimage(
    submitter: Seq<u8>,
    timestamp: u64,
    payload: Seq<u8>,
    nonce: u128,
) -> Seq<u8> {
    len_prefixed(submitter) + u64_le(timestamp) + len_prefixed(payload) + u128_le(nonce)
}

/// A transaction is well formed when its stored hash is the digest of
/// its own fields.
pub open spec fn tx_wf(t: TransactionV) -> bool {
    t.hash == hash_bytes_of(tx_preimage(t.submitter, t.timestamp, t.payload, t.nonce))
}

/// The canonical bytes of a whole transaction, hash and signature
/// included, as covered by a block's transactions root.
pub open spec fn tx_full_encoding(t: TransactionV) -> Seq<u8> {
    tx_preimage(t.submitter, t.timestamp, t.payload, t.nonce) + len_prefixed(t.hash)
        + len_prefixed(t.signature)
}

/// A signed, content-addressed unit of submitted work.
#[derive(Debug)]
pub struct Transaction {
    submitter: Address,
    timestamp: u64,
    payload: Vec<u8>,
    nonce: u128,
    hash: HashDigest,
    signature: Signature,
}

impl View for Transaction {
    type V = TransactionV;

    closed spec fn view(&self) -> TransactionV {
        TransactionV {
            submitter: self.submitter@,
            timestamp: self.timestamp,
            payload: self.payload@,
            nonce: self.nonce,
            hash: self.hash@,
            signature: self.signature@,
        }
    }
}

/// The views of a sequence of transactions.
pub open spec fn tx_views(s: Seq<Transaction>) -> Seq<TransactionV> {
    s.map_values(|t: Transaction| t@)
}

/// The hashing preimage of a transaction's identifying fields.
pub fn tx_preimage_bytes(
    submitter: &Address,
    timestamp: u64,
    payload: &Vec<u8>,
    nonce: u128,
) -> (r: Vec<u8>)
    ensures
        r@ == tx_preimage(submitter@, timestamp, payload@, nonce),
{
    let mut r: Vec<u8> = Vec::new();
    append_len_prefixed(&mut r, submitter.as_bytes());
    let ts = u64_to_le(timestamp);
    append_bytes(&mut r, &ts);
    append_len_prefixed(&mut r, payload);
    let nb = u128_to_le(nonce);
    append_bytes(&mut r, &nb);
    proof {
        assert(r@ =~= tx_preimage(submitter@, timestamp, payload@, nonce));
    }
    r
}

impl Transaction {
    /// Builds a transaction over a payload: the timestamp is the
    /// current time, the nonce a fresh random value, the hash the
    /// digest of the four identifying fields, and the signature covers
    /// that hash with the keypair's secret half.
    pub fn new(submitter: Address, payload: Vec<u8>, keypair: &BlockKeypair) -> (r: Transaction)
        ensures
            r@.submitter == submitter@,
            r@.payload == payload@,
            tx_wf(r@),
            r@.hash.len() == crate::hash::HASH_BUFFER_LEN,
            verified_by(keypair.pk(), r@.hash, r@.signature),
            r@.signature.len() == 64,
    {
        let timestamp = now_seconds();
        let nonce = random_nonce();
        let preimage = tx_preimage_bytes(&submitter, timestamp, &payload, nonce);
        let hash = HashDigest::new(&preimage);
        let msg = copy_bytes(hash.as_bytes());
        let signature = Signature::new(&msg, keypair);
        Transaction { submitter, timestamp, payload, nonce, hash, signature }
    }

    /// Assembles a transaction from stored fields, as read back from a
    /// persisted form. Nothing is checked: well-formedness is a
    /// property of the values, re-established by verification.
    pub fn from_fields(
        submitter: Address,
        timestamp: u64,
        payload: Vec<u8>,
        nonce: u128,
        hash: HashDigest,
        signature: Signature,
    ) -> (r: Transaction)
        ensures
            r@.submitter == submitter@,
            r@.timestamp == timestamp,
            r@.payload == payload@,
            r@.nonce == nonce,
            r@.hash == hash@,
            r@.signature == signature@,
    {
        Transaction { submitter, timestamp, payload, nonce, hash, signature }
    }

    /// The submitter's address.
    pub fn submitter(&self) -> (r: &Address)
        ensures
            r@ == self@.submitter,
    {
        &self.submitter
    }

    /// The creation timestamp, in seconds since the epoch.
    pub fn timestamp(&self) -> (r: u64)
        ensures
            r == self@.timestamp,
    {
        self.timestamp
    }

    /// A copy of the opaque payload bytes.
    pub fn payload(&self) -> (r: Vec<u8>)
        ensures
            r@ == self@.payload,
    {
        copy_bytes(&self.payload)
    }

    /// The anti-collision nonce.
    pub fn nonce(&self) -> (r: u128)
        ensures
            r == self@.nonce,
    {
        self.nonce
    }

    /// The content hash fixed at construction.
    pub fn digest(&self) -> (r: HashDigest)
        ensures
            r@ == self@.hash,
    {
        self.hash.clone()
    }

    /// The signature over the content hash.
    pub fn signature(&self) -> (r: Signature)
        ensures
            r@ == self@.signature,
    {
        self.signature.clone()
    }

    /// The canonical bytes of the whole transaction, as covered by a
    /// block's transactions root.
    pub fn encoded(&self) -> (r: Vec<u8>)
        ensures
            r@ == tx_full_encoding(self@),
    {
        let mut r = tx_preimage_bytes(&self.submitter, self.timestamp, &self.payload, self.nonce);
        append_len_prefixed(&mut r, self.hash.as_bytes());
        append_len_prefixed(&mut r, self.signature.as_bytes());
        proof {
            assert(r@ =~= tx_full_encoding(self@));
        }
        r
    }

    /// Byte-wise equality of every field.
    pub fn equals(&self, other: &Transaction) -> (r: bool)
        ensures
            r == (self@ == other@),
    {
        let r = self.submitter.equals(&other.submitter) && self.timestamp == other.timestamp
            && bytes_eq(&self.payload, &other.payload) && self.nonce == other.nonce
            && self.hash.equals(&other.hash) && self.signature.equals(&other.signature);
        proof {
            if r {
                assert(self@ =~= other@);
            }
        }
        r
    }
}

/// Copies an ordered transaction list, value for value.
pub fn clone_transactions(ts: &Vec<Transaction>) -> (r: Vec<Transaction>)
    ensures
        tx_views(r@) == tx_views(ts@),
{
    let mut r: Vec<Transaction> = Vec::new();
    let mut i: usize = 0;
    while i < ts.len()
        invariant
            i <= ts@.len(),
            r@.len() == i,
            forall|j: int| 0 <= j < i ==> r@[j]@ == ts@[j]@,
        decreases ts@.len() - i,
    {
        r.push(ts[i].clone());
        i = i + 1;
    }
    proof {
        assert forall|j: int| 0 <= j < r@.len() implies tx_views(r@)[j] == tx_views(ts@)[j] by {
            assert(tx_views(r@)[j] == r@[j]@);
            assert(tx_views(ts@)[j] == ts@[j]@);
        }
        assert(tx_views(r@) =~= tx_views(ts@));
    }
    r
}

impl Clone for Transaction {
    fn clone(&self) -> (res: Transaction)
        ensures
            res@ == self@,
    {
        let res = Transaction {
            submitter: self.submitter.clone(),
            timestamp: self.timestamp,
            payload: copy_bytes(&self.payload),
            nonce: self.nonce,
            hash: self.hash.clone(),
            signature: self.signature.clone(),
        };
        proof {
            assert(res@ =~= self@);
        }
        res
    }
}

impl PartialEq for Transaction {
    fn eq(&self, other: &Transaction) -> (r: bool) {
        self.equals(other)
    }
}

impl vstd::std_specs::cmp::PartialEqSpecImpl for Transaction {
    open spec fn obeys_eq_spec() -> bool {
        true
    }

    open spec fn eq_spec(&self, other: &Transaction) -> bool {
        self@ == other@
    }
}

} // verus!
