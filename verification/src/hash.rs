//! Content digests. A digest is the keccak-256 hash of a canonical byte
//! encoding, padded with zero bytes to a fixed-width buffer. Equality is
//! byte-wise and a digest is immutable once computed.

use vstd::prelude::*;

verus! {

use crate::bytes::copy_bytes;
use crate::bytes::bytes_eq;
use crate::bytes::to_hex;
use crate::bytes::hex_of;
use crate::crypto::digest_of;
use crate::crypto::keccak256;

/// The algorithm tag recorded beside a digest in the persisted form.
pub const HASH_ALGORITHM_CODE: u64 = 27;

/// The number of meaningful digest bytes.
pub const DIGEST_LEN: usize = 32;

/// The fixed width of the stored digest buffer.
pub const HASH_BUFFER_LEN: usize = 64;

/// The stored form of a digest: the keccak-256 hash of the input,
/// padded with zero bytes to the fixed buffer width.
pub open spec fn hash_bytes_of(input: Seq<u8>) -> Seq<u8> {
    digest_of(input) + Seq::new((HASH_BUFFER_LEN - DIGEST_LEN) as nat, |i: int| 0u8)
}

/// A fixed-width content hash. Immutable once computed.
#[derive(Debug)]
pub struct HashDigest {
    bytes: Vec<u8>,
}

impl View for HashDigest {
    type V = Seq<u8>;

    closed spec fn view(&self) -> Seq<u8> {
        self.bytes@
    }
}

impl HashDigest {
    /// A digest is well formed when it fills the fixed buffer.
    pub open spec fn wf(&self) -> bool {
        self@.len() == HASH_BUFFER_LEN
    }

    /// Hashes a byte string into a padded fixed-width digest.
    pub fn new(input: &Vec<u8>) -> (r: HashDigest)
        ensures
            r@ == hash_bytes_of(input@),
            r.wf(),
    {
        let mut bytes = keccak256(input);
        let mut i: usize = 0;
        while i < HASH_BUFFER_LEN - DIGEST_LEN
            invariant
                i <= HASH_BUFFER_LEN - DIGEST_LEN,
                bytes@ =~= digest_of(input@) + Seq::new(i as nat, |j: int| 0u8),
        decreases HASH_BUFFER_LEN - DIGEST_LEN - i,
        {
            bytes.push(0u8);
            i = i + 1;
            proof {
                assert(bytes@ =~= digest_of(input@) + Seq::new(i as nat, |j: int| 0u8));
            }
        }
        proof {
            assert(bytes@ =~= hash_bytes_of(input@));
        }
        HashDigest { bytes }
    }

    /// Wraps raw digest bytes, as read back from a persisted form.
    pub fn from_bytes(bytes: Vec<u8>) -> (r: HashDigest)
        ensures
            r@ == bytes@,
    {
        HashDigest { bytes }
    }

    /// The raw digest bytes.
    pub fn as_bytes(&self) -> (r: &Vec<u8>)
        ensures
            r@ == self@,
    {
        &self.bytes
    }

    /// The digest rendered in lowercase hexadecimal.
    pub fn as_string(&self) -> (r: String)
        ensures
            r@ == hex_of(self@),
    {
        to_hex(&self.bytes)
    }

    /// Byte-wise equality of two digests.
    pub fn equals(&self, other: &HashDigest) -> (r: bool)
        ensures
            r == (self@ == other@),
    {
        bytes_eq(&self.bytes, &other.bytes)
    }
}

impl Clone for HashDigest {
    fn clone(&self) -> (res: HashDigest)
        ensures
            res@ == self@,
    {
        HashDigest { bytes: copy_bytes(&self.bytes) }
    }
}

impl PartialEq for HashDigest {
    fn eq(&self, other: &HashDigest) -> (r: bool) {
        bytes_eq(&self.bytes, &other.bytes)
    }
}

impl vstd::std_specs::cmp::PartialEqSpecImpl for HashDigest {
    open spec fn obeys_eq_spec() -> bool {
        true
    }

    open spec fn eq_spec(&self, other: &HashDigest) -> bool {
        self@ == other@
    }
}

} // verus!
