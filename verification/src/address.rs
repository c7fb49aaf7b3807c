//! Node identities. An address is derived deterministically from an
//! ed25519 public key: the key's 32 compressed bytes behind a fixed
//! four-byte tag, in the style of an identity multihash over a
//! protobuf-encoded key. Two addresses are equal exactly when they were
//! derived from the same public key.

use vstd::prelude::*;

verus! {

use crate::bytes::copy_bytes;
use crate::bytes::bytes_eq;

/// The fixed tag in front of the public key bytes.
pub open spec fn address_prefix() -> Seq<u8> {
    seq![8u8, 1u8, 18u8, 32u8]
}

/// The address derived from a public key.
pub open spec fn address_bytes(pk: Seq<u8>) -> Seq<u8> {
    address_prefix() + pk
}

/// The identity of a transaction submitter or block committer, derived
/// from its public key.
#[derive(Debug)]
pub struct Address {
    bytes: Vec<u8>,
}

impl View for Address {
    type V = Seq<u8>;

    closed spec fn view(&self) -> Seq<u8> {
        self.bytes@
    }
}

impl Address {
    /// Derives the address of a public key.
    pub fn from_public_key(pk: &Vec<u8>) -> (r: Address)
        ensures
            r@ == address_bytes(pk@),
    {
        let mut bytes: Vec<u8> = Vec::new();
        bytes.push(8u8);
        bytes.push(1u8);
        bytes.push(18u8);
        bytes.push(32u8);
        crate::bytes::append_bytes(&mut bytes, pk);
        proof {
            assert(bytes@ =~= address_bytes(pk@));
        }
        Address { bytes }
    }

    /// Wraps raw address bytes, as read back from a persisted form.
    pub fn from_bytes(bytes: Vec<u8>) -> (r: Address)
        ensures
            r@ == bytes@,
    {
        Address { bytes }
    }

    /// The raw address bytes.
    pub fn as_bytes(&self) -> (r: &Vec<u8>)
        ensures
            r@ == self@,
    {
        &self.bytes
    }

    /// Byte-wise equality of two addresses.
    pub fn equals(&self, other: &Address) -> (r: bool)
        ensures
            r == (self@ == other@),
    {
        bytes_eq(&self.bytes, &other.bytes)
    }
}

/// Two addresses derived from public keys of equal width are equal
/// exactly when the keys are equal.
pub proof fn lemma_address_injective(a: Seq<u8>, b: Seq<u8>)
    requires
        a.len() == b.len(),
    ensures
        (address_bytes(a) == address_bytes(b)) == (a == b),
{
    if address_bytes(a) == address_bytes(b) {
        assert forall|i: int| 0 <= i < a.len() implies a[i] == b[i] by {
            assert(address_bytes(a)[4 + i] == a[i]);
            assert(address_bytes(b)[4 + i] == b[i]);
        }
        assert(a =~= b);
    }
    if a == b {
        assert(address_bytes(a) =~= address_bytes(b));
    }
}

impl Clone for Address {
    fn clone(&self) -> (res: Address)
        ensures
            res@ == self@,
    {
        Address { bytes: copy_bytes(&self.bytes) }
    }
}

impl PartialEq for Address {
    fn eq(&self, other: &Address) -> (r: bool) {
        bytes_eq(&self.bytes, &other.bytes)
    }
}

impl vstd::std_specs::cmp::PartialEqSpecImpl for Address {
    open spec fn obeys_eq_spec() -> bool {
        true
    }

    open spec fn eq_spec(&self, other: &Address) -> bool {
        self@ == other@
    }
}

} // verus!
