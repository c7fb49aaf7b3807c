//! The trusted cryptographic boundary of the ledger.
//!
//! Everything the ledger needs from outside crates is gathered here:
//! keccak-256 content hashing and ed25519 signing, each behind a small
//! wrapper whose contract names what the call returns. All other modules
//! are verified against these contracts alone.

use vstd::prelude::*;
use sha3::Digest;
use sha3::Keccak256;
use libp2p::identity::ed25519::Keypair;
use libp2p::identity::ed25519::PublicKey;

verus! {

#[verifier::external_type_specification]
#[verifier::external_body]
pub struct ExEd25519Keypair(Keypair);

// The keccak-256 digest of a byte sequence: a fixed function of the
// input alone, left uninterpreted.
pub uninterp spec fn digest_of(input: Seq<u8>) -> Seq<u8>;

// Whether a byte sequence is the valid compressed encoding of an
// ed25519 public key: a fixed function of the bytes alone.
pub uninterp spec fn is_public_key(pk: Seq<u8>) -> bool;

// Whether an ed25519 signature over a message verifies under a public
// key: a fixed function of the three byte sequences alone.
pub uninterp spec fn verified_by(pk: Seq<u8>, msg: Seq<u8>, sig: Seq<u8>) -> bool;

/// Relies on sha3::Keccak256: the 32-byte keccak-256 digest of the
/// input, a function of the input alone.
#[verifier::external_body]
pub(crate) fn keccak256(input: &Vec<u8>) -> (r: Vec<u8>)
    ensures
        r@ == digest_of(input@),
        r@.len() == 32,
{
    Keccak256::digest(input.as_slice()).to_vec()
}

/// An ed25519 keypair paired with the compressed encoding of its public
/// half, which is what the ledger's contracts speak of.
pub struct BlockKeypair {
    inner: Keypair,
    public_bytes: Vec<u8>,
}

impl BlockKeypair {
    /// The compressed encoding of the public half of this keypair.
    pub closed spec fn pk(&self) -> Seq<u8> {
        self.public_bytes@
    }

    /// A keypair is well formed when its public half is the valid
    /// 32-byte encoding of an ed25519 public key, as every constructed
    /// keypair's is.
    pub open spec fn wf(&self) -> bool {
        is_public_key(self.pk()) && self.pk().len() == 32
    }

    /// Relies on libp2p's ed25519::Keypair::public and
    /// ed25519::PublicKey::to_bytes: the public half encodes to 32 bytes
    /// that ed25519::PublicKey::try_from_bytes accepts.
    #[verifier::external_body]
    pub fn new(keypair: &Keypair) -> (r: BlockKeypair)
        ensures
            r.wf(),
    {
        BlockKeypair { public_bytes: keypair.public().to_bytes().to_vec(), inner: keypair.clone() }
    }

    /// The compressed encoding of the public half, as plain bytes.
    pub fn public(&self) -> (r: Vec<u8>)
        ensures
            r@ == self.pk(),
    {
        crate::bytes::copy_bytes(&self.public_bytes)
    }

    /// Relies on libp2p's ed25519::Keypair::sign: a 64-byte signature
    /// over the message that ed25519::PublicKey::verify accepts under
    /// this keypair's public key.
    #[verifier::external_body]
    pub fn sign(&self, msg: &Vec<u8>) -> (r: Vec<u8>)
        ensures
            r@.len() == 64,
            verified_by(self.pk(), msg@, r@),
    {
        self.inner.sign(msg.as_slice())
    }

    /// Verifies a signature over a message under this keypair's public
    /// key: a pure function of key, message and signature bytes.
    pub fn verify(&self, msg: &Vec<u8>, signature: &Vec<u8>) -> (r: bool)
        ensures
            r == (is_public_key(self.pk()) && verified_by(self.pk(), msg@, signature@)),
    {
        verify_signature(&self.public_bytes, msg, signature)
    }

    /// Relies on libp2p's ed25519::Keypair::clone: an equal keypair with
    /// the same public half.
    #[verifier::external_body]
    pub(crate) fn duplicate(&self) -> (r: BlockKeypair)
        ensures
            r.pk() == self.pk(),
            r.wf() == self.wf(),
    {
        BlockKeypair { inner: self.inner.clone(), public_bytes: self.public_bytes.clone() }
    }
}

/// Relies on libp2p's ed25519::PublicKey::try_from_bytes and
/// ed25519::PublicKey::verify: true exactly when the bytes encode a
/// public key under which the signature verifies the message.
#[verifier::external_body]
pub(crate) fn verify_signature(pk: &Vec<u8>, msg: &Vec<u8>, sig: &Vec<u8>) -> (r: bool)
    ensures
        r == (is_public_key(pk@) && verified_by(pk@, msg@, sig@)),
{
    match PublicKey::try_from_bytes(pk.as_slice()) {
        Ok(key) => key.verify(msg.as_slice(), sig.as_slice()),
        Err(_) => false,
    }
}

/// Relies on std::time::SystemTime::now: seconds since the epoch, or
/// zero for a clock before it. Nothing is assumed of the value.
#[verifier::external_body]
pub(crate) fn now_seconds() -> u64 {
    match std::time::SystemTime::now().duration_since(std::time::UNIX_EPOCH) {
        Ok(elapsed) => elapsed.as_secs(),
        Err(_) => 0,
    }
}

/// Relies on rand::random: a random 128-bit value. Nothing is assumed
/// of the value.
#[verifier::external_body]
pub(crate) fn random_nonce() -> u128 {
    rand::random::<u128>()
}

} // verus!
