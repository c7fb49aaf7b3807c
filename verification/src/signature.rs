//! Asymmetric signatures over byte messages. A signature is produced
//! with a keypair's secret half and verifies as a pure function of the
//! public key bytes, the message and the signature bytes.

use vstd::prelude::*;

verus! {

use crate::bytes::copy_bytes;
use crate::bytes::bytes_eq;
use crate::bytes::to_hex;
use crate::bytes::hex_of;
use crate::crypto::BlockKeypair;
use crate::crypto::is_public_key;
use crate::crypto::verified_by;
use crate::crypto::verify_signature;

/// The signature algorithms the ledger supports.
#[derive(Clone, Copy, Debug)]
pub enum SignatureAlgorithm {
    Ed25519,
}

/// Signature bytes over a message. Immutable once produced.
#[derive(Debug)]
pub struct Signature {
    bytes: Vec<u8>,
}

impl View for Signature {
    type V = Seq<u8>;

    closed spec fn view(&self) -> Seq<u8> {
        self.bytes@
    }
}

impl Signature {
    /// Signs a message with the keypair's secret half. The result
    /// verifies under the keypair's public key.
    pub fn new(msg: &Vec<u8>, keypair: &BlockKeypair) -> (r: Signature)
        ensures
            r@.len() == 64,
            verified_by(keypair.pk(), msg@, r@),
    {
        Signature { bytes: keypair.sign(msg) }
    }

    /// Verifies this signature over a message under the keypair's
    /// public key: a pure function of key, message and signature bytes.
    pub fn verify(&self, msg: &Vec<u8>, keypair: &BlockKeypair) -> (r: bool)
        ensures
            r == (is_public_key(keypair.pk()) && verified_by(keypair.pk(), msg@, self@)),
    {
        let pk = keypair.public();
        verify_signature(&pk, msg, &self.bytes)
    }

    /// Verifies this signature over a message under raw public key
    /// bytes.
    pub fn verify_with_key(&self, pk: &Vec<u8>, msg: &Vec<u8>) -> (r: bool)
        ensures
            r == (is_public_key(pk@) && verified_by(pk@, msg@, self@)),
    {
        verify_signature(pk, msg, &self.bytes)
    }

    /// Wraps raw signature bytes, as read back from a persisted form.
    pub fn from_bytes(bytes: Vec<u8>) -> (r: Signature)
        ensures
            r@ == bytes@,
    {
        Signature { bytes }
    }

    /// The raw signature bytes.
    pub fn as_bytes(&self) -> (r: &Vec<u8>)
        ensures
            r@ == self@,
    {
        &self.bytes
    }

    /// The signature rendered in lowercase hexadecimal.
    pub fn as_string(&self) -> (r: String)
        ensures
            r@ == hex_of(self@),
    {
        to_hex(&self.bytes)
    }

    /// Byte-wise equality of two signatures.
    pub fn equals(&self, other: &Signature) -> (r: bool)
        ensures
            r == (self@ == other@),
    {
        bytes_eq(&self.bytes, &other.bytes)
    }
}

impl Clone for Signature {
    fn clone(&self) -> (res: Signature)
        ensures
            res@ == self@,
    {
        Signature { bytes: copy_bytes(&self.bytes) }
    }
}

impl PartialEq for Signature {
    fn eq(&self, other: &Signature) -> (r: bool) {
        bytes_eq(&self.bytes, &other.bytes)
    }
}

impl vstd::std_specs::cmp::PartialEqSpecImpl for Signature {
    open spec fn obeys_eq_spec() -> bool {
        true
    }

    open spec fn eq_spec(&self, other: &Signature) -> bool {
        self@ == other@
    }
}

} // verus!
