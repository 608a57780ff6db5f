//! Checkpoints of the outbox accumulator and the validator signatures over
//! them.

use vstd::prelude::*;
use crate::hashing::{keccak256, keccak256_digest};
use crate::message::{be32, push_be32, push_word};
use crate::primitives::{Address, H256};

verus! {

/// A snapshot of the outbox accumulator: its root after the leaf at `index`
/// went in.
#[derive(Clone, Copy, Debug, PartialEq, Eq)]
pub struct Checkpoint {
    /// The domain of the outbox.
    pub outbox_domain: u32,
    /// The address of the outbox, as a word.
    pub outbox_address: H256,
    /// The accumulator root.
    pub root: H256,
    /// The position of the last leaf under the root.
    pub index: u32,
}

/// An ECDSA signature: `r` and `s` as 32 bytes each, most significant first,
/// and the recovery value.
#[derive(Clone, Copy, Debug, PartialEq, Eq)]
pub struct Signature {
    pub r: H256,
    pub s: H256,
    pub v: u64,
}

/// A checkpoint with one validator's signature over it.
#[derive(Clone, Copy, Debug, PartialEq, Eq)]
pub struct SignedCheckpoint {
    pub checkpoint: Checkpoint,
    pub signature: Signature,
}

/// A checkpoint with the signatures of a quorum of validators over it.
#[derive(Clone, Debug, PartialEq, Eq)]
pub struct MultisigSignedCheckpoint {
    pub checkpoint: Checkpoint,
    pub signatures: Vec<Signature>,
}

/// The tag that separates signatures of this protocol from all others.
pub open spec fn protocol_tag() -> Seq<u8> {
    seq![0x41u8, 0x42u8, 0x41u8, 0x43u8, 0x55u8, 0x53u8]
}

/// The bytes put before a 32-byte digest that is signed as a message.
pub open spec fn signed_message_prefix() -> Seq<u8> {
    seq![
        0x19u8, 0x45u8, 0x74u8, 0x68u8, 0x65u8, 0x72u8, 0x65u8, 0x75u8, 0x6du8, 0x20u8, 0x53u8,
        0x69u8, 0x67u8, 0x6eu8, 0x65u8, 0x64u8, 0x20u8, 0x4du8, 0x65u8, 0x73u8, 0x73u8, 0x61u8,
        0x67u8, 0x65u8, 0x3au8, 0x0au8, 0x33u8, 0x32u8,
    ]
}

/// A 32-bit number as a 32-byte word, most significant byte first.
pub open spec fn word_of_u32(x: u32) -> Seq<u8> {
    Seq::new(28, |i: int| 0u8) + be32(x)
}

impl Checkpoint {
    /// The hash that binds a signature to one outbox: of the domain, the
    /// outbox address and the protocol tag.
    pub open spec fn domain_hash(&self) -> Seq<u8> {
        keccak256_digest(be32(self.outbox_domain) + self.outbox_address@ + protocol_tag())
    }

    /// The hash of what a validator attests: the domain hash, the root and
    /// the index.
    pub open spec fn signing_hash(&self) -> Seq<u8> {
        keccak256_digest(self.domain_hash() + self.root@ + word_of_u32(self.index))
    }

    /// The digest that the validator's key signs: the signing hash, hashed
    /// as a signed message.
    pub open spec fn signed_digest(&self) -> Seq<u8> {
        keccak256_digest(signed_message_prefix() + self.signing_hash())
    }

    /// Whether two checkpoints are the same snapshot of the same outbox.
    pub fn same(&self, other: &Checkpoint) -> (b: bool)
        ensures
            b == (*self == *other),
    {
        self.outbox_domain == other.outbox_domain && self.index == other.index
            && self.outbox_address.same(&other.outbox_address) && self.root.same(&other.root)
    }

    /// Computes the domain hash.
    pub fn compute_domain_hash(&self) -> (h: H256)
        ensures
            h@ == self.domain_hash(),
    {
        let mut buf: Vec<u8> = Vec::new();
        push_be32(&mut buf, self.outbox_domain);
        push_word(&mut buf, &self.outbox_address);
        let ghost head = buf@;
        buf.push(0x41u8);
        buf.push(0x42u8);
        buf.push(0x41u8);
        buf.push(0x43u8);
        buf.push(0x55u8);
        buf.push(0x53u8);
        assert(buf@ =~= head + protocol_tag());
        keccak256(&buf)
    }

    /// Computes the signing hash.
    pub fn compute_signing_hash(&self) -> (h: H256)
        ensures
            h@ == self.signing_hash(),
    {
        let domain = self.compute_domain_hash();
        let mut buf: Vec<u8> = Vec::new();
        push_word(&mut buf, &domain);
        push_word(&mut buf, &self.root);
        let ghost head = buf@;
        let mut i: usize = 0;
        while i < 28
            invariant
                i <= 28,
                buf@ == head + Seq::new(i as nat, |j: int| 0u8),
            decreases 28 - i,
        {
            buf.push(0u8);
            assert(buf@ =~= head + Seq::new((i + 1) as nat, |j: int| 0u8));
            i = i + 1;
        }
        push_be32(&mut buf, self.index);
        assert(buf@ =~= self.domain_hash() + self.root@ + word_of_u32(self.index));
        keccak256(&buf)
    }

    /// Computes the digest that the validator's key signs.
    pub fn compute_signed_digest(&self) -> (h: H256)
        ensures
            h@ == self.signed_digest(),
    {
        let inner = self.compute_signing_hash();
        let mut buf: Vec<u8> = Vec::new();
        buf.push(0x19u8);
        buf.push(0x45u8);
        buf.push(0x74u8);
        buf.push(0x68u8);
        buf.push(0x65u8);
        buf.push(0x72u8);
        buf.push(0x65u8);
        buf.push(0x75u8);
        buf.push(0x6du8);
        buf.push(0x20u8);
        buf.push(0x53u8);
        buf.push(0x69u8);
        buf.push(0x67u8);
        buf.push(0x6eu8);
        buf.push(0x65u8);
        buf.push(0x64u8);
        buf.push(0x20u8);
        buf.push(0x4du8);
        buf.push(0x65u8);
        buf.push(0x73u8);
        buf.push(0x73u8);
        buf.push(0x61u8);
        buf.push(0x67u8);
        buf.push(0x65u8);
        buf.push(0x3au8);
        buf.push(0x0au8);
        buf.push(0x33u8);
        buf.push(0x32u8);
        assert(buf@ =~= signed_message_prefix());
        push_word(&mut buf, &inner);
        keccak256(&buf)
    }
}

/// The address whose key made a signature over a digest, if the signature is
/// one that a key can make.
pub uninterp spec fn recovered_signer(r: Seq<u8>, s: Seq<u8>, v: u64, digest: Seq<u8>) -> Option<
    Seq<u8>,
>;

/// The error of `ethers` for a signature that no address can be recovered
/// from.
#[verifier::external_type_specification]
#[verifier::external_body]
pub struct ExSignatureError(ethers::types::SignatureError);

/// Recovers the signer with `ethers::types::Signature::recover`, called on
/// the digest as a precomputed hash. The result is a function of `r`, `s`,
/// `v` and the digest alone: an address where recovery succeeds, its error
/// otherwise.
#[verifier::external_body]
pub(crate) fn recover_address(signature: &Signature, digest: &H256) -> (res: Result<
    Address,
    ethers::types::SignatureError,
>)
    ensures
        res matches Ok(a) ==> recovered_signer(signature.r@, signature.s@, signature.v, digest@)
            == Some(a@),
        res is Err ==> recovered_signer(signature.r@, signature.s@, signature.v, digest@) is None,
{
    let outside = ethers::types::Signature {
        r: ethers::types::U256::from_big_endian(&signature.r.bytes),
        s: ethers::types::U256::from_big_endian(&signature.s.bytes),
        v: signature.v,
    };
    match outside.recover(ethers::types::H256(digest.bytes)) {
        Ok(address) => Ok(Address { bytes: address.0 }),
        Err(e) => Err(e),
    }
}

impl Signature {
    /// Whether two signatures hold the same values.
    pub fn same(&self, other: &Signature) -> (b: bool)
        ensures
            b == (*self == *other),
    {
        self.v == other.v && self.r.same(&other.r) && self.s.same(&other.s)
    }
}

impl SignedCheckpoint {
    /// The address whose key signed this checkpoint, if any did.
    pub open spec fn signer(&self) -> Option<Seq<u8>> {
        recovered_signer(
            self.signature.r@,
            self.signature.s@,
            self.signature.v,
            self.checkpoint.signed_digest(),
        )
    }

    /// Recovers the address whose key signed this checkpoint.
    pub fn recover(&self) -> (res: Option<Address>)
        ensures
            res matches Some(a) ==> self.signer() == Some(a@),
            res is None ==> self.signer() is None,
    {
        let digest = self.checkpoint.compute_signed_digest();
        match recover_address(&self.signature, &digest) {
            Ok(address) => Some(address),
            Err(_) => None,
        }
    }

    /// Whether `validator` signed this checkpoint.
    pub fn signed_by(&self, validator: &Address) -> (b: bool)
        ensures
            b == (self.signer() == Some(validator@)),
    {
        match self.recover() {
            Some(address) => address.same(validator),
            None => false,
        }
    }
}

} // verus!
