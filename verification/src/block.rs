//! Block headers and blocks. A header fixes its own digest over its
//! fields at construction; a block carries an ordered transaction list
//! summarized by a transactions root, the committer's public key
//! material, and a signature over the header's digest. Verification
//! recomputes the header digest, then the root, then checks the
//! signature, and names which check failed.

use vstd::prelude::*;

verus! {

use crate::address::Address;
use crate::address::address_bytes;
use crate::bytes::append_bytes;
use crate::bytes::append_len_prefixed;
use crate::bytes::bytes_eq;
use crate::bytes::copy_bytes;
use crate::bytes::hex_of;
use crate::bytes::len_prefixed;
use crate::bytes::u128_le;
use crate::bytes::u128_to_le;
use crate::bytes::u64_le;
use crate::bytes::u64_to_le;
use crate::crypto::BlockKeypair;
use crate::crypto::is_public_key;
use crate::crypto::now_seconds;
use crate::crypto::random_nonce;
use crate::crypto::verified_by;
use crate::hash::HashDigest;
use crate::hash::hash_bytes_of;
use crate::signature::Signature;
use crate::transaction::Transaction;
use crate::transaction::TransactionV;
use crate::transaction::tx_full_encoding;
use crate::transaction::tx_views;

/// The mathematical value of a header.
#[verifier::ext_equal]
pub ghost struct HeaderV {
    pub parent_hash: Seq<u8>,
    pub transactions_hash: Seq<u8>,
    pub committer: Seq<u8>,
    pub timestamp: u64,
    pub ordinal: u128,
    pub nonce: u128,
    pub hash: Seq<u8>,
}

/// The canonical bytes whose digest is a header's own hash: every
/// header field but that hash itself.
pub open spec fn header_preimage(h: HeaderV) -> Seq<u8> {
    len_prefixed(h.parent_hash) + len_prefixed(h.transactions_hash) + len_prefixed(h.committer)
        + u64_le(h.timestamp) + u128_le(h.ordinal) + u128_le(h.nonce)
}

/// A header is well formed when its stored hash is the digest of its
/// own fields.
pub open spec fn header_wf(h: HeaderV) -> bool {
    h.hash == hash_bytes_of(header_preimage(h))
}

/// The canonical bytes of an ordered transaction list: a count followed
/// by each transaction's full encoding. Its digest is the transactions
/// root.
pub open spec fn txs_encoding(ts: Seq<TransactionV>) -> Seq<u8>
    decreases ts.len(),
{
    if ts.len() == 0 {
        Seq::empty()
    } else {
        tx_full_encoding(ts[0]) + txs_encoding(ts.drop_first())
    }
}

/// The transactions-root preimage of an ordered transaction list.
pub open spec fn txs_root_preimage(ts: Seq<TransactionV>) -> Seq<u8> {
    u64_le(ts.len() as u64) + txs_encoding(ts)
}

pub proof fn lemma_txs_encoding_push(ts: Seq<TransactionV>, t: TransactionV)
    ensures
        txs_encoding(ts.push(t)) == txs_encoding(ts) + tx_full_encoding(t),
    decreases ts.len(),
{
    let p = ts.push(t);
    assert(p.len() == ts.len() + 1);
    if ts.len() == 0 {
        assert(p[0] == t);
        assert(p.drop_first() =~= Seq::<TransactionV>::empty());
        assert(txs_encoding(p) == tx_full_encoding(t) + txs_encoding(Seq::<TransactionV>::empty()));
        assert(txs_encoding(p) =~= txs_encoding(ts) + tx_full_encoding(t));
    } else {
        lemma_txs_encoding_push(ts.drop_first(), t);
        assert(p[0] == ts[0]);
        assert(p.drop_first() =~= ts.drop_first().push(t));
        assert(txs_encoding(p) == tx_full_encoding(ts[0]) + txs_encoding(ts.drop_first().push(t)));
        assert(txs_encoding(p) =~= txs_encoding(ts) + tx_full_encoding(t));
    }
}

/// The transactions-root preimage of an ordered transaction list.
pub fn txs_root_bytes(ts: &Vec<Transaction>) -> (r: Vec<u8>)
    ensures
        r@ == txs_root_preimage(tx_views(ts@)),
{
    let mut r = u64_to_le(ts.len() as u64);
    let mut i: usize = 0;
    proof {
        assert(tx_views(ts@.subrange(0, 0)) =~= Seq::<TransactionV>::empty());
    }
    while i < ts.len()
        invariant
            i <= ts@.len(),
            r@ =~= u64_le(ts@.len() as u64) + txs_encoding(tx_views(ts@.subrange(0, i as int))),
        decreases ts@.len() - i,
    {
        let enc = ts[i].encoded();
        proof {
            lemma_txs_encoding_push(tx_views(ts@.subrange(0, i as int)), ts@[i as int]@);
            assert(tx_views(ts@.subrange(0, i + 1 as int)) =~= tx_views(
                ts@.subrange(0, i as int),
            ).push(ts@[i as int]@));
        }
        append_bytes(&mut r, &enc);
        i = i + 1;
    }
    proof {
        assert(ts@.subrange(0, ts@.len() as int) =~= ts@);
        assert(r@ =~= txs_root_preimage(tx_views(ts@)));
    }
    r
}

/// A block's metadata. The stored hash is fixed at construction; any
/// later field mutation makes verification fail.
#[derive(Debug)]
pub struct Header {
    pub parent_hash: HashDigest,
    pub transactions_hash: HashDigest,
    pub committer: Address,
    pub timestamp: u64,
    pub ordinal: u128,
    pub nonce: u128,
    pub hash: HashDigest,
}

impl View for Header {
    type V = HeaderV;

    open spec fn view(&self) -> HeaderV {
        HeaderV {
            parent_hash: self.parent_hash@,
            transactions_hash: self.transactions_hash@,
            committer: self.committer@,
            timestamp: self.timestamp,
            ordinal: self.ordinal,
            nonce: self.nonce,
            hash: self.hash@,
        }
    }
}

/// The hashing preimage of a header's fields.
pub fn header_preimage_bytes(
    parent_hash: &HashDigest,
    transactions_hash: &HashDigest,
    committer: &Address,
    timestamp: u64,
    ordinal: u128,
    nonce: u128,
) -> (r: Vec<u8>)
    ensures
        r@ == header_preimage(
            HeaderV {
                parent_hash: parent_hash@,
                transactions_hash: transactions_hash@,
                committer: committer@,
                timestamp,
                ordinal,
                nonce,
                hash: Seq::empty(),
            },
        ),
{
    let mut r: Vec<u8> = Vec::new();
    append_len_prefixed(&mut r, parent_hash.as_bytes());
    append_len_prefixed(&mut r, transactions_hash.as_bytes());
    append_len_prefixed(&mut r, committer.as_bytes());
    let ts = u64_to_le(timestamp);
    append_bytes(&mut r, &ts);
    let ord = u128_to_le(ordinal);
    append_bytes(&mut r, &ord);
    let non = u128_to_le(nonce);
    append_bytes(&mut r, &non);
    proof {
        assert(r@ =~= len_prefixed(parent_hash@) + len_prefixed(transactions_hash@)
            + len_prefixed(committer@) + u64_le(timestamp) + u128_le(ordinal) + u128_le(nonce));
    }
    r
}

impl Header {
    /// Builds a header over a parent hash, a transactions root, a
    /// committer and an ordinal: the timestamp is the current time, the
    /// nonce a fresh random value, and the stored hash the digest of
    /// all the other fields.
    pub fn new(
        parent_hash: HashDigest,
        transactions_hash: HashDigest,
        committer: Address,
        ordinal: u128,
    ) -> (r: Header)
        ensures
            r@.parent_hash == parent_hash@,
            r@.transactions_hash == transactions_hash@,
            r@.committer == committer@,
            r@.ordinal == ordinal,
            header_wf(r@),
            r@.hash.len() == crate::hash::HASH_BUFFER_LEN,
    {
        let timestamp = now_seconds();
        let nonce = random_nonce();
        let preimage = header_preimage_bytes(
            &parent_hash,
            &transactions_hash,
            &committer,
            timestamp,
            ordinal,
            nonce,
        );
        let hash = HashDigest::new(&preimage);
        let r = Header { parent_hash, transactions_hash, committer, timestamp, ordinal, nonce, hash };
        proof {
            assert(header_preimage(r@) =~= preimage@);
        }
        r
    }

    /// A copy of the header's stored hash.
    pub fn hash(&self) -> (r: HashDigest)
        ensures
            r@ == self@.hash,
    {
        self.hash.clone()
    }

    /// Byte-wise equality of every field.
    pub fn equals(&self, other: &Header) -> (r: bool)
        ensures
            r == (self@ == other@),
    {
        let r = self.parent_hash.equals(&other.parent_hash)
            && self.transactions_hash.equals(&other.transactions_hash)
            && self.committer.equals(&other.committer) && self.timestamp == other.timestamp
            && self.ordinal == other.ordinal && self.nonce == other.nonce
            && self.hash.equals(&other.hash);
        proof {
            if r {
                assert(self@ =~= other@);
            }
        }
        r
    }
}

impl Clone for Header {
    fn clone(&self) -> (res: Header)
        ensures
            res@ == self@,
    {
        let res = Header {
            parent_hash: self.parent_hash.clone(),
            transactions_hash: self.transactions_hash.clone(),
            committer: self.committer.clone(),
            timestamp: self.timestamp,
            ordinal: self.ordinal,
            nonce: self.nonce,
            hash: self.hash.clone(),
        };
        proof {
            assert(res@ =~= self@);
        }
        res
    }
}

impl PartialEq for Header {
    fn eq(&self, other: &Header) -> (r: bool) {
        self.equals(other)
    }
}

impl vstd::std_specs::cmp::PartialEqSpecImpl for Header {
    open spec fn obeys_eq_spec() -> bool {
        true
    }

    open spec fn eq_spec(&self, other: &Header) -> bool {
        self@ == other@
    }
}

/// The mathematical value of a block.
#[verifier::ext_equal]
pub ghost struct BlockV {
    pub header: HeaderV,
    pub transactions: Seq<TransactionV>,
    pub public_key: Seq<u8>,
    pub signature: Seq<u8>,
}

/// A block's stored header hash matches its header fields.
pub open spec fn block_header_ok(b: BlockV) -> bool {
    header_wf(b.header)
}

/// A block's stored transactions root matches its transaction list.
pub open spec fn block_root_ok(b: BlockV) -> bool {
    b.header.transactions_hash == hash_bytes_of(txs_root_preimage(b.transactions))
}

/// A block's signature verifies over its header hash under its own
/// public key material, and its committer is derived from that key.
pub open spec fn block_sig_ok(b: BlockV) -> bool {
    &&& is_public_key(b.public_key)
    &&& verified_by(b.public_key, b.header.hash, b.signature)
    &&& b.header.committer == address_bytes(b.public_key)
}

/// A block is well formed when all three checks pass.
pub open spec fn block_wf(b: BlockV) -> bool {
    block_header_ok(b) && block_root_ok(b) && block_sig_ok(b)
}

/// Tampering with a block's transaction list, with the header and the
/// signature left as they are, is caught by the transactions-root
/// check, not reported as a signature failure: the header's own hash
/// still checks, the root no longer does, and `verify` names the first
/// failed check. The last premise says the altered list digests to
/// something other than the stored root; a digest collision, which no
/// contract over an uninterpreted digest can rule out, is the one case
/// left out.
pub proof fn lemma_tampered_transactions_detected(b: BlockV, tampered: BlockV)
    requires
        block_wf(b),
        tampered.header == b.header,
        tampered.public_key == b.public_key,
        tampered.signature == b.signature,
        hash_bytes_of(txs_root_preimage(tampered.transactions)) != b.header.transactions_hash,
    ensures
        block_header_ok(tampered),
        !block_root_ok(tampered),
        tampered.transactions != b.transactions,
{
}

/// The check a block failed, named so that callers can tell tampering
/// from corruption: the header's own hash, the transactions root, or
/// the signature.
#[derive(Clone, Copy, Debug, PartialEq, Eq, Structural)]
pub enum BlockVerifyError {
    HeaderMismatch,
    TransactionsRootMismatch,
    SignatureInvalid,
}

/// A header, an ordered transaction list, the committer's public key
/// material and a signature over the header hash. Immutable once
/// constructed.
#[derive(Debug)]
pub struct Block {
    pub header: Header,
    pub transactions: Vec<Transaction>,
    pub public_key: Vec<u8>,
    pub signature: Signature,
}

impl View for Block {
    type V = BlockV;

    open spec fn view(&self) -> BlockV {
        BlockV {
            header: self.header@,
            transactions: tx_views(self.transactions@),
            public_key: self.public_key@,
            signature: self.signature@,
        }
    }
}

impl Block {
    /// Builds and signs a block over a parent hash, an ordinal and an
    /// ordered transaction list. The header's root summarizes the
    /// list, the committer is derived from the signing key, and the
    /// signature covers the header's hash.
    pub fn new(
        parent_hash: HashDigest,
        ordinal: u128,
        transactions: Vec<Transaction>,
        signing_key: &BlockKeypair,
    ) -> (r: Block)
        ensures
            r@.header.parent_hash == parent_hash@,
            r@.header.ordinal == ordinal,
            r@.transactions == tx_views(transactions@),
            r@.public_key == signing_key.pk(),
            block_header_ok(r@),
            block_root_ok(r@),
            verified_by(r@.public_key, r@.header.hash, r@.signature),
            r@.header.committer == address_bytes(r@.public_key),
            is_public_key(signing_key.pk()) ==> block_wf(r@),
    {
        let root_preimage = txs_root_bytes(&transactions);
        let transactions_hash = HashDigest::new(&root_preimage);
        let public_key = signing_key.public();
        let committer = Address::from_public_key(&public_key);
        let header = Header::new(parent_hash, transactions_hash, committer, ordinal);
        let msg = copy_bytes(header.hash.as_bytes());
        let signature = Signature::new(&msg, signing_key);
        Block { header, transactions, public_key, signature }
    }

    /// Assembles a block from stored fields, as read back from a
    /// persisted form. Nothing is checked: well-formedness is
    /// re-established by verification.
    pub fn from_fields(
        header: Header,
        transactions: Vec<Transaction>,
        public_key: Vec<u8>,
        signature: Signature,
    ) -> (r: Block)
        ensures
            r@.header == header@,
            r@.transactions == tx_views(transactions@),
            r@.public_key == public_key@,
            r@.signature == signature@,
    {
        Block { header, transactions, public_key, signature }
    }

    /// The block's identifier: its header hash in hexadecimal.
    pub fn id(&self) -> (r: String)
        ensures
            r@ == hex_of(self@.header.hash),
    {
        self.header.hash.as_string()
    }

    /// The block's position in the chain.
    pub fn ordinal(&self) -> (r: u128)
        ensures
            r == self@.header.ordinal,
    {
        self.header.ordinal
    }

    /// The block signature in hexadecimal.
    pub fn signature(&self) -> (r: String)
        ensures
            r@ == hex_of(self@.signature),
    {
        self.signature.as_string()
    }

    /// Verifies the block: the header's own hash first, then the
    /// transactions root, then the signature. The error names the
    /// first check that failed.
    pub fn verify(&self) -> (r: Result<(), BlockVerifyError>)
        ensures
            !block_header_ok(self@) ==> r == Err::<(), BlockVerifyError>(
                BlockVerifyError::HeaderMismatch,
            ),
            block_header_ok(self@) && !block_root_ok(self@) ==> r == Err::<(), BlockVerifyError>(
                BlockVerifyError::TransactionsRootMismatch,
            ),
            block_header_ok(self@) && block_root_ok(self@) && !block_sig_ok(self@) ==> r == Err::<
                (),
                BlockVerifyError,
            >(BlockVerifyError::SignatureInvalid),
            (r is Ok) == block_wf(self@),
    {
        let header_preimage = header_preimage_bytes(
            &self.header.parent_hash,
            &self.header.transactions_hash,
            &self.header.committer,
            self.header.timestamp,
            self.header.ordinal,
            self.header.nonce,
        );
        proof {
            assert(header_preimage@ =~= crate::block::header_preimage(self@.header));
        }
        let expected_hash = HashDigest::new(&header_preimage);
        if !expected_hash.equals(&self.header.hash) {
            return Err(BlockVerifyError::HeaderMismatch);
        }
        let root_preimage = txs_root_bytes(&self.transactions);
        let expected_root = HashDigest::new(&root_preimage);
        if !expected_root.equals(&self.header.transactions_hash) {
            return Err(BlockVerifyError::TransactionsRootMismatch);
        }
        let committer = Address::from_public_key(&self.public_key);
        if !committer.equals(&self.header.committer) {
            return Err(BlockVerifyError::SignatureInvalid);
        }
        let msg = copy_bytes(self.header.hash.as_bytes());
        if !self.signature.verify_with_key(&self.public_key, &msg) {
            return Err(BlockVerifyError::SignatureInvalid);
        }
        Ok(())
    }

    /// Byte-wise equality of two transaction lists.
    pub fn transactions_equal(a: &Vec<Transaction>, b: &Vec<Transaction>) -> (r: bool)
        ensures
            r == (tx_views(a@) == tx_views(b@)),
    {
        proof {
            assert(tx_views(a@).len() == a@.len());
            assert(tx_views(b@).len() == b@.len());
        }
        if a.len() != b.len() {
            return false;
        }
        let mut i: usize = 0;
        while i < a.len()
            invariant
                i <= a@.len(),
                a@.len() == b@.len(),
                forall|j: int| 0 <= j < i ==> a@[j]@ == b@[j]@,
            decreases a@.len() - i,
        {
            if !a[i].equals(&b[i]) {
                proof {
                    assert(tx_views(a@)[i as int] == a@[i as int]@);
                    assert(tx_views(b@)[i as int] == b@[i as int]@);
                }
                return false;
            }
            i = i + 1;
        }
        proof {
            assert forall|j: int| 0 <= j < a@.len() implies tx_views(a@)[j] == tx_views(b@)[j] by {
                assert(tx_views(a@)[j] == a@[j]@);
                assert(tx_views(b@)[j] == b@[j]@);
            }
            assert(tx_views(a@) =~= tx_views(b@));
        }
        true
    }

    /// Byte-wise equality of every field.
    pub fn equals(&self, other: &Block) -> (r: bool)
        ensures
            r == (self@ == other@),
    {
        let r = self.header.equals(&other.header)
            && Block::transactions_equal(&self.transactions, &other.transactions)
            && bytes_eq(&self.public_key, &other.public_key)
            && self.signature.equals(&other.signature);
        proof {
            if r {
                assert(self@ =~= other@);
            }
        }
        r
    }
}

impl Clone for Block {
    fn clone(&self) -> (res: Block)
        ensures
            res@ == self@,
    {
        let mut transactions: Vec<Transaction> = Vec::new();
        let mut i: usize = 0;
        while i < self.transactions.len()
            invariant
                i <= self.transactions@.len(),
                transactions@.len() == i,
                forall|j: int| 0 <= j < i ==> transactions@[j]@ == self.transactions@[j]@,
            decreases self.transactions@.len() - i,
        {
            transactions.push(self.transactions[i].clone());
            i = i + 1;
        }
        proof {
            assert forall|j: int| 0 <= j < self.transactions@.len() implies tx_views(
                transactions@,
            )[j] == tx_views(self.transactions@)[j] by {
                assert(tx_views(transactions@)[j] == transactions@[j]@);
                assert(tx_views(self.transactions@)[j] == self.transactions@[j]@);
            }
            assert(tx_views(transactions@) =~= tx_views(self.transactions@));
        }
        let res = Block {
            header: self.header.clone(),
            transactions,
            public_key: copy_bytes(&self.public_key),
            signature: self.signature.clone(),
        };
        proof {
            assert(res@ =~= self@);
        }
        res
    }
}

impl PartialEq for Block {
    fn eq(&self, other: &Block) -> (r: bool) {
        self.equals(other)
    }
}

impl vstd::std_specs::cmp::PartialEqSpecImpl for Block {
    open spec fn obeys_eq_spec() -> bool {
        true
    }

    open spec fn eq_spec(&self, other: &Block) -> bool {
        self@ == other@
    }
}

} // verus!
