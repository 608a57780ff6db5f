//! Messages as the outbox commits them, their canonical encoding and their
//! leaf hashes.

use vstd::prelude::*;
use crate::hashing::{keccak256, keccak256_digest};
use crate::primitives::H256;

verus! {

/// The four bytes of a 32-bit number, most significant first.
pub open spec fn be32(x: u32) -> Seq<u8> {
    seq![
        (x / 0x100_0000) as u8,
        (x / 0x1_0000 % 0x100) as u8,
        (x / 0x100 % 0x100) as u8,
        (x % 0x100) as u8,
    ]
}

/// Appends the four bytes of `x`, most significant first.
pub fn push_be32(buf: &mut Vec<u8>, x: u32)
    ensures
        final(buf)@ == old(buf)@ + be32(x),
{
    buf.push((x / 0x100_0000) as u8);
    buf.push((x / 0x1_0000 % 0x100) as u8);
    buf.push((x / 0x100 % 0x100) as u8);
    buf.push((x % 0x100) as u8);
    assert(buf@ =~= old(buf)@ + be32(x));
}

/// Appends the 32 bytes of a word.
pub fn push_word(buf: &mut Vec<u8>, word: &H256)
    ensures
        final(buf)@ == old(buf)@ + word@,
{
    let mut i: usize = 0;
    while i < 32
        invariant
            i <= 32,
            buf@ == old(buf)@ + word@.take(i as int),
        decreases 32 - i,
    {
        buf.push(word.bytes[i]);
        assert(buf@ =~= old(buf)@ + word@.take(i + 1));
        i = i + 1;
    }
    assert(word@.take(32) =~= word@);
}

/// A message between two domains.
#[derive(Clone, Debug, PartialEq, Eq)]
pub struct AbacusMessage {
    /// The domain of the outbox that committed the message.
    pub origin: u32,
    /// Who sent it, as a word.
    pub sender: H256,
    /// Its place among the messages from this origin to this destination.
    pub nonce: u32,
    /// The domain of the inbox that is to receive it.
    pub destination: u32,
    /// Who is to receive it, as a word.
    pub recipient: H256,
    /// The payload.
    pub body: Vec<u8>,
}

impl AbacusMessage {
    /// The canonical encoding: origin, sender, nonce, destination and
    /// recipient at fixed widths, then the body.
    pub open spec fn encoding(&self) -> Seq<u8> {
        be32(self.origin) + self.sender@ + be32(self.nonce) + be32(self.destination)
            + self.recipient@ + self.body@
    }

    /// The leaf that stands for the message in the accumulator.
    pub open spec fn leaf(&self) -> Seq<u8> {
        keccak256_digest(self.encoding())
    }

    /// Encodes the message.
    pub fn to_vec(&self) -> (out: Vec<u8>)
        ensures
            out@ == self.encoding(),
    {
        let mut out: Vec<u8> = Vec::new();
        push_be32(&mut out, self.origin);
        push_word(&mut out, &self.sender);
        push_be32(&mut out, self.nonce);
        push_be32(&mut out, self.destination);
        push_word(&mut out, &self.recipient);
        let ghost head = out@;
        let mut i: usize = 0;
        while i < self.body.len()
            invariant
                i <= self.body.len(),
                out@ == head + self.body@.take(i as int),
            decreases self.body.len() - i,
        {
            out.push(self.body[i]);
            assert(out@ =~= head + self.body@.take(i + 1));
            i = i + 1;
        }
        assert(self.body@.take(self.body.len() as int) =~= self.body@);
        assert(head =~= be32(self.origin) + self.sender@ + be32(self.nonce) + be32(
            self.destination,
        ) + self.recipient@);
        out
    }

    /// Hashes the encoding into the message's leaf.
    pub fn to_leaf(&self) -> (leaf: H256)
        ensures
            leaf@ == self.leaf(),
    {
        let encoded = self.to_vec();
        keccak256(&encoded)
    }
}

/// A message together with its position in the outbox accumulator.
#[derive(Clone, Debug, PartialEq, Eq)]
pub struct CommittedMessage {
    /// The position of the message's leaf in the accumulator.
    pub leaf_index: u32,
    /// The message.
    pub message: AbacusMessage,
}

impl CommittedMessage {
    /// The leaf that stands for the message in the accumulator.
    pub open spec fn leaf(&self) -> Seq<u8> {
        self.message.leaf()
    }

    /// Hashes the message into its leaf.
    pub fn to_leaf(&self) -> (leaf: H256)
        ensures
            leaf@ == self.leaf(),
    {
        self.message.to_leaf()
    }
}

} // verus!
