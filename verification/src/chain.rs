//! The chain: an ordered, append-only sequence of blocks rooted at a
//! fixed, embedded genesis block. The genesis block is the trust
//! anchor: its stored digests and signature are taken as given and are
//! deliberately not re-verified; every later block must verify, link to
//! its predecessor's header hash and carry the next ordinal.

use vstd::prelude::*;

verus! {

use crate::address::Address;
use crate::block::Block;
use crate::block::BlockV;
use crate::block::Header;
use crate::block::HeaderV;
use crate::block::block_wf;
use crate::hash::HashDigest;
use crate::signature::Signature;
use crate::transaction::Transaction;
use crate::transaction::TransactionV;

/// The zero padding behind a 32-byte digest in its fixed buffer.
pub open spec fn digest_padding() -> Seq<u8> {
    Seq::new(32, |i: int| 0u8)
}

/// The public key of the initial authority named by the genesis block.
pub open spec fn genesis_authority_key() -> Seq<u8> {
    seq![
        88u8, 88u8, 21u8, 196u8, 249u8, 159u8, 23u8, 207u8, 76u8, 169u8, 83u8, 37u8, 65u8, 110u8,
        39u8, 190u8, 211u8, 20u8, 9u8, 200u8, 227u8, 133u8, 170u8, 74u8, 15u8, 143u8, 73u8, 34u8,
        109u8, 143u8, 236u8, 112u8,
    ]
}

/// The address of the genesis committer and submitter.
pub open spec fn genesis_address() -> Seq<u8> {
    crate::address::address_bytes(genesis_authority_key())
}

/// The fixed parent digest of the genesis header.
pub open spec fn genesis_parent_hash() -> Seq<u8> {
    seq![
        197u8, 210u8, 70u8, 1u8, 134u8, 247u8, 35u8, 60u8, 146u8, 126u8, 125u8, 178u8, 220u8,
        199u8, 3u8, 192u8, 229u8, 0u8, 182u8, 83u8, 202u8, 130u8, 39u8, 59u8, 123u8, 250u8, 216u8,
        4u8, 93u8, 133u8, 164u8, 112u8,
    ] + digest_padding()
}

/// The fixed transactions root of the genesis header.
pub open spec fn genesis_transactions_hash() -> Seq<u8> {
    seq![
        233u8, 108u8, 53u8, 79u8, 93u8, 137u8, 203u8, 205u8, 252u8, 249u8, 183u8, 146u8, 181u8,
        241u8, 197u8, 237u8, 208u8, 38u8, 159u8, 220u8, 217u8, 66u8, 20u8, 136u8, 171u8, 18u8,
        2u8, 155u8, 138u8, 230u8, 87u8, 120u8,
    ] + digest_padding()
}

/// The fixed digest of the genesis header.
pub open spec fn genesis_header_hash() -> Seq<u8> {
    seq![
        127u8, 122u8, 125u8, 245u8, 17u8, 128u8, 125u8, 0u8, 44u8, 30u8, 218u8, 171u8, 209u8,
        181u8, 122u8, 156u8, 224u8, 49u8, 61u8, 237u8, 138u8, 196u8, 246u8, 39u8, 243u8, 253u8,
        60u8, 169u8, 205u8, 249u8, 127u8, 22u8,
    ] + digest_padding()
}

/// The fixed digest of the genesis transaction.
pub open spec fn genesis_tx_hash() -> Seq<u8> {
    seq![
        191u8, 136u8, 186u8, 142u8, 71u8, 35u8, 50u8, 249u8, 32u8, 160u8, 230u8, 17u8, 206u8,
        183u8, 79u8, 164u8, 28u8, 174u8, 40u8, 51u8, 236u8, 111u8, 110u8, 162u8, 24u8, 63u8,
        149u8, 74u8, 47u8, 141u8, 78u8, 100u8,
    ] + digest_padding()
}

/// The fixed signature of the genesis transaction.
pub open spec fn genesis_tx_signature() -> Seq<u8> {
    seq![
        125u8, 122u8, 129u8, 45u8, 96u8, 186u8, 139u8, 203u8, 117u8, 130u8, 19u8, 25u8, 184u8,
        27u8, 154u8, 163u8, 204u8, 133u8, 72u8, 25u8, 254u8, 104u8, 74u8, 198u8, 249u8, 196u8,
        247u8, 96u8, 104u8, 197u8, 222u8, 90u8, 161u8, 134u8, 116u8, 112u8, 199u8, 195u8, 66u8,
        114u8, 224u8, 224u8, 71u8, 67u8, 37u8, 50u8, 18u8, 193u8, 218u8, 113u8, 219u8, 3u8, 64u8,
        166u8, 112u8, 174u8, 30u8, 238u8, 207u8, 94u8, 84u8, 158u8, 71u8, 9u8,
    ]
}

/// The fixed signature of the genesis block.
pub open spec fn genesis_block_signature() -> Seq<u8> {
    seq![
        172u8, 60u8, 6u8, 69u8, 205u8, 150u8, 38u8, 156u8, 243u8, 90u8, 183u8, 137u8, 240u8,
        110u8, 44u8, 245u8, 168u8, 66u8, 96u8, 126u8, 168u8, 189u8, 116u8, 109u8, 74u8, 69u8,
        147u8, 246u8, 251u8, 121u8, 163u8, 195u8, 77u8, 240u8, 125u8, 3u8, 74u8, 18u8, 10u8, 25u8,
        152u8, 92u8, 183u8, 132u8, 119u8, 174u8, 104u8, 36u8, 111u8, 108u8, 188u8, 100u8, 16u8,
        213u8, 27u8, 176u8, 101u8, 110u8, 65u8, 223u8, 69u8, 201u8, 139u8, 15u8,
    ]
}

/// The timestamp shared by the genesis header and its one transaction.
pub const GENESIS_TIMESTAMP: u64 = 1652285632;

/// The nonce of the genesis header.
pub const GENESIS_HEADER_NONCE: u128 = 303860116025340289318370235156069422466;

/// The nonce of the genesis transaction.
pub const GENESIS_TX_NONCE: u128 = 227996946057909480709948369727184084395;

/// The value of the one genesis transaction, which names the initial
/// authority's public key as its payload.
pub open spec fn genesis_tx_v() -> TransactionV {
    TransactionV {
        submitter: genesis_address(),
        timestamp: GENESIS_TIMESTAMP,
        payload: genesis_authority_key(),
        nonce: GENESIS_TX_NONCE,
        hash: genesis_tx_hash(),
        signature: genesis_tx_signature(),
    }
}

/// The value of the genesis header.
pub open spec fn genesis_header_v() -> HeaderV {
    HeaderV {
        parent_hash: genesis_parent_hash(),
        transactions_hash: genesis_transactions_hash(),
        committer: genesis_address(),
        timestamp: GENESIS_TIMESTAMP,
        ordinal: 0,
        nonce: GENESIS_HEADER_NONCE,
        hash: genesis_header_hash(),
    }
}

/// The value of the genesis block.
pub open spec fn genesis_block_v() -> BlockV {
    BlockV {
        header: genesis_header_v(),
        transactions: seq![genesis_tx_v()],
        public_key: genesis_authority_key(),
        signature: genesis_block_signature(),
    }
}

/// Appends the fixed zero padding behind a 32-byte digest.
fn pad_digest(bytes: &mut Vec<u8>)
    ensures
        final(bytes)@ == old(bytes)@ + digest_padding(),
{
    let mut i: usize = 0;
    while i < 32
        invariant
            i <= 32,
            bytes@ =~= old(bytes)@ + Seq::new(i as nat, |j: int| 0u8),
        decreases 32 - i,
    {
        bytes.push(0u8);
        i = i + 1;
        proof {
            assert(bytes@ =~= old(bytes)@ + Seq::new(i as nat, |j: int| 0u8));
        }
    }
    proof {
        assert(bytes@ =~= old(bytes)@ + digest_padding());
    }
}

/// The 32 bytes of the initial authority's public key.
fn genesis_authority_key_bytes() -> (r: Vec<u8>)
    ensures
        r@ == genesis_authority_key(),
{
    let r: Vec<u8> = vec![
        88u8, 88u8, 21u8, 196u8, 249u8, 159u8, 23u8, 207u8, 76u8, 169u8, 83u8, 37u8, 65u8, 110u8,
        39u8, 190u8, 211u8, 20u8, 9u8, 200u8, 227u8, 133u8, 170u8, 74u8, 15u8, 143u8, 73u8, 34u8,
        109u8, 143u8, 236u8, 112u8,
    ];
    proof {
        assert(r@ =~= genesis_authority_key());
    }
    r
}

/// The embedded genesis block: a fixed, versioned fixture. Its header
/// digests and signatures are trusted as given, not recomputed.
pub fn genesis_block() -> (r: Block)
    ensures
        r@ == genesis_block_v(),
{
    let mut parent: Vec<u8> = vec![
        197u8, 210u8, 70u8, 1u8, 134u8, 247u8, 35u8, 60u8, 146u8, 126u8, 125u8, 178u8, 220u8,
        199u8, 3u8, 192u8, 229u8, 0u8, 182u8, 83u8, 202u8, 130u8, 39u8, 59u8, 123u8, 250u8, 216u8,
        4u8, 93u8, 133u8, 164u8, 112u8,
    ];
    pad_digest(&mut parent);
    let mut root: Vec<u8> = vec![
        233u8, 108u8, 53u8, 79u8, 93u8, 137u8, 203u8, 205u8, 252u8, 249u8, 183u8, 146u8, 181u8,
        241u8, 197u8, 237u8, 208u8, 38u8, 159u8, 220u8, 217u8, 66u8, 20u8, 136u8, 171u8, 18u8,
        2u8, 155u8, 138u8, 230u8, 87u8, 120u8,
    ];
    pad_digest(&mut root);
    let mut header_hash: Vec<u8> = vec![
        127u8, 122u8, 125u8, 245u8, 17u8, 128u8, 125u8, 0u8, 44u8, 30u8, 218u8, 171u8, 209u8,
        181u8, 122u8, 156u8, 224u8, 49u8, 61u8, 237u8, 138u8, 196u8, 246u8, 39u8, 243u8, 253u8,
        60u8, 169u8, 205u8, 249u8, 127u8, 22u8,
    ];
    pad_digest(&mut header_hash);
    let mut tx_hash: Vec<u8> = vec![
        191u8, 136u8, 186u8, 142u8, 71u8, 35u8, 50u8, 249u8, 32u8, 160u8, 230u8, 17u8, 206u8,
        183u8, 79u8, 164u8, 28u8, 174u8, 40u8, 51u8, 236u8, 111u8, 110u8, 162u8, 24u8, 63u8,
        149u8, 74u8, 47u8, 141u8, 78u8, 100u8,
    ];
    pad_digest(&mut tx_hash);
    let tx_signature: Vec<u8> = vec![
        125u8, 122u8, 129u8, 45u8, 96u8, 186u8, 139u8, 203u8, 117u8, 130u8, 19u8, 25u8, 184u8,
        27u8, 154u8, 163u8, 204u8, 133u8, 72u8, 25u8, 254u8, 104u8, 74u8, 198u8, 249u8, 196u8,
        247u8, 96u8, 104u8, 197u8, 222u8, 90u8, 161u8, 134u8, 116u8, 112u8, 199u8, 195u8, 66u8,
        114u8, 224u8, 224u8, 71u8, 67u8, 37u8, 50u8, 18u8, 193u8, 218u8, 113u8, 219u8, 3u8, 64u8,
        166u8, 112u8, 174u8, 30u8, 238u8, 207u8, 94u8, 84u8, 158u8, 71u8, 9u8,
    ];
    let block_signature: Vec<u8> = vec![
        172u8, 60u8, 6u8, 69u8, 205u8, 150u8, 38u8, 156u8, 243u8, 90u8, 183u8, 137u8, 240u8,
        110u8, 44u8, 245u8, 168u8, 66u8, 96u8, 126u8, 168u8, 189u8, 116u8, 109u8, 74u8, 69u8,
        147u8, 246u8, 251u8, 121u8, 163u8, 195u8, 77u8, 240u8, 125u8, 3u8, 74u8, 18u8, 10u8, 25u8,
        152u8, 92u8, 183u8, 132u8, 119u8, 174u8, 104u8, 36u8, 111u8, 108u8, 188u8, 100u8, 16u8,
        213u8, 27u8, 176u8, 101u8, 110u8, 65u8, 223u8, 69u8, 201u8, 139u8, 15u8,
    ];
    proof {
        assert(tx_signature@ =~= genesis_tx_signature());
        assert(block_signature@ =~= genesis_block_signature());
    }
    let authority = genesis_authority_key_bytes();
    let committer = Address::from_public_key(&authority);
    let payload = genesis_authority_key_bytes();
    let transaction = Transaction::from_fields(
        committer.clone(),
        GENESIS_TIMESTAMP,
        payload,
        GENESIS_TX_NONCE,
        HashDigest::from_bytes(tx_hash),
        Signature::from_bytes(tx_signature),
    );
    let header = Header {
        parent_hash: HashDigest::from_bytes(parent),
        transactions_hash: HashDigest::from_bytes(root),
        committer,
        timestamp: GENESIS_TIMESTAMP,
        ordinal: 0,
        nonce: GENESIS_HEADER_NONCE,
        hash: HashDigest::from_bytes(header_hash),
    };
    let mut transactions: Vec<Transaction> = Vec::new();
    transactions.push(transaction);
    let r = Block { header, transactions, public_key: genesis_authority_key_bytes(), signature:
        Signature::from_bytes(block_signature) };
    proof {
        assert(crate::transaction::tx_views(r.transactions@) =~= seq![genesis_tx_v()]);
        assert(r@.header =~= genesis_header_v());
        assert(r@ =~= genesis_block_v());
    }
    r
}

/// The views of a sequence of blocks.
pub open spec fn block_views(s: Seq<Block>) -> Seq<BlockV> {
    s.map_values(|b: Block| b@)
}

/// A well-formed chain: non-empty, rooted at the genesis block, every
/// block's ordinal its position, every later block well formed and
/// linked to its predecessor's header hash.
pub open spec fn chain_ok(c: Seq<BlockV>) -> bool {
    &&& c.len() >= 1
    &&& c[0] == genesis_block_v()
    &&& forall|i: int| 0 <= i < c.len() ==> (#[trigger] c[i]).header.ordinal as int == i
    &&& forall|i: int| 1 <= i < c.len() ==> (#[trigger] c[i]).header.parent_hash == c[i
        - 1].header.hash
    &&& forall|i: int| 1 <= i < c.len() ==> block_wf(#[trigger] c[i])
}

/// An ordered, append-only sequence of blocks rooted at the genesis
/// block.
#[derive(Debug)]
pub struct Chain {
    pub blocks: Vec<Block>,
}

impl View for Chain {
    type V = Seq<BlockV>;

    open spec fn view(&self) -> Seq<BlockV> {
        block_views(self.blocks@)
    }
}

impl Chain {
    /// A chain holding only the genesis block.
    pub fn new() -> (r: Chain)
        ensures
            r@ == seq![genesis_block_v()],
            chain_ok(r@),
    {
        let mut chain_blocks: Vec<Block> = Vec::new();
        chain_blocks.push(genesis_block());
        let r = Chain { blocks: chain_blocks };
        proof {
            assert(r@ =~= seq![genesis_block_v()]);
        }
        r
    }

    /// Walks the whole chain: the first block must be the embedded
    /// genesis fixture (the explicit trust anchor), and every later
    /// block must verify, link to its predecessor's header hash and
    /// carry the next ordinal.
    pub fn verify(&self) -> (r: bool)
        ensures
            r == chain_ok(self@),
    {
        if self.blocks.len() == 0 {
            return false;
        }
        let anchor = genesis_block();
        proof {
            assert(self@[0] == self.blocks@[0]@);
        }
        if !self.blocks[0].equals(&anchor) {
            return false;
        }
        let mut i: usize = 1;
        while i < self.blocks.len()
            invariant
                1 <= i <= self.blocks@.len(),
                self@.len() == self.blocks@.len(),
                self@[0] == genesis_block_v(),
                forall|j: int| 0 <= j < i ==> (#[trigger] self@[j]).header.ordinal as int == j,
                forall|j: int| 1 <= j < i ==> (#[trigger] self@[j]).header.parent_hash == self@[j
                    - 1].header.hash,
                forall|j: int| 1 <= j < i ==> block_wf(#[trigger] self@[j]),
            decreases self.blocks@.len() - i,
        {
            proof {
                assert(self@[i as int] == self.blocks@[i as int]@);
                assert(self@[i - 1] == self.blocks@[i - 1]@);
                assert(self@[i - 1].header.ordinal as int == i - 1);
            }
            let prev_ordinal = self.blocks[i - 1].header.ordinal;
            if self.blocks[i].header.ordinal != prev_ordinal + 1 {
                return false;
            }
            if !self.blocks[i].header.parent_hash.equals(&self.blocks[i - 1].header.hash) {
                return false;
            }
            if self.blocks[i].verify().is_err() {
                return false;
            }
            i = i + 1;
        }
        true
    }
}

/// For every committed chain and every later position, the block there
/// links to its predecessor's header hash, carries the next ordinal,
/// and, from the second appended block on, the parent hash is exactly
/// the digest of the predecessor's header fields.
pub proof fn lemma_chain_linkage(c: Seq<BlockV>, i: int)
    requires
        chain_ok(c),
        1 <= i < c.len(),
    ensures
        c[i].header.parent_hash == c[i - 1].header.hash,
        c[i].header.ordinal == c[i - 1].header.ordinal + 1,
        i >= 2 ==> c[i].header.parent_hash == crate::hash::hash_bytes_of(
            crate::block::header_preimage(c[i - 1].header),
        ),
{
    assert(c[i - 1].header.ordinal as int == i - 1);
    assert(c[i].header.ordinal as int == i);
    if i >= 2 {
        assert(block_wf(c[i - 1]));
    }
}

} // verus!
