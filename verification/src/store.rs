//! The byte layout of the store: the keys under which messages, proofs and
//! cursors are kept, and the encoding of what is kept there.
//!
//! Each view of the store has a namespace of its own, so that no key of one
//! view is a key of another. A processor's cursor holds the nonce that it
//! dealt with last; the processor resumes at the nonce after it.

use vstd::prelude::*;
use crate::accumulator::{words, Proof};
use crate::message::{be32, push_be32, push_word, AbacusMessage, CommittedMessage};
use crate::primitives::H256;

verus! {

/// The prefix of the keys under which messages are kept by leaf index:
/// `message_`.
pub open spec fn message_prefix() -> Seq<u8> {
    seq![0x6du8, 0x65u8, 0x73u8, 0x73u8, 0x61u8, 0x67u8, 0x65u8, 0x5fu8]
}

/// The prefix of the keys under which leaf indices are kept by destination
/// and nonce: `leaf_`.
pub open spec fn leaf_prefix() -> Seq<u8> {
    seq![0x6cu8, 0x65u8, 0x61u8, 0x66u8, 0x5fu8]
}

/// The prefix of the keys under which proofs are kept by leaf index:
/// `proof_`.
pub open spec fn proof_prefix() -> Seq<u8> {
    seq![0x70u8, 0x72u8, 0x6fu8, 0x6fu8, 0x66u8, 0x5fu8]
}

/// The prefix of the keys under which cursors are kept by destination:
/// `current_nonce_`.
pub open spec fn cursor_prefix() -> Seq<u8> {
    seq![
        0x63u8, 0x75u8, 0x72u8, 0x72u8, 0x65u8, 0x6eu8, 0x74u8, 0x5fu8, 0x6eu8, 0x6fu8, 0x6eu8,
        0x63u8, 0x65u8, 0x5fu8,
    ]
}

/// The key of the message at a leaf index.
pub open spec fn message_key_bytes(leaf_index: u32) -> Seq<u8> {
    message_prefix() + be32(leaf_index)
}

/// The key of the leaf index of a destination's nonce.
pub open spec fn leaf_key_bytes(destination: u32, nonce: u32) -> Seq<u8> {
    leaf_prefix() + be32(destination) + be32(nonce)
}

/// The key of the proof of a leaf index.
pub open spec fn proof_key_bytes(leaf_index: u32) -> Seq<u8> {
    proof_prefix() + be32(leaf_index)
}

/// The key of a destination's cursor.
pub open spec fn cursor_key_bytes(destination: u32) -> Seq<u8> {
    cursor_prefix() + be32(destination)
}

/// The number whose four bytes, most significant first, are given.
pub open spec fn from_be32(bytes: Seq<u8>) -> u32 {
    (bytes[0] * 0x100_0000 + bytes[1] * 0x1_0000 + bytes[2] * 0x100 + bytes[3]) as u32
}

/// Reading the four bytes of a number gives the number back.
pub proof fn lemma_be32_round_trip(x: u32)
    ensures
        be32(x).len() == 4,
        from_be32(be32(x)) == x,
{
}

/// The four bytes read as a number are the bytes of that number.
pub proof fn lemma_be32_of_bytes(bytes: Seq<u8>)
    requires
        bytes.len() == 4,
    ensures
        be32(from_be32(bytes)) == bytes,
{
    let b0 = bytes[0] as int;
    let b1 = bytes[1] as int;
    let b2 = bytes[2] as int;
    let b3 = bytes[3] as int;
    let low = b1 * 0x1_0000 + b2 * 0x100 + b3;
    let x = b0 * 0x100_0000 + low;
    assert(0 <= low < 0x100_0000);
    assert(0 <= x < 0x1_0000_0000);
    assert(from_be32(bytes) == x);
    assert(x / 0x100_0000 == b0);
    assert(x / 0x1_0000 == b0 * 0x100 + b1);
    assert(x / 0x100 == b0 * 0x1_0000 + b1 * 0x100 + b2);
    assert((b0 * 0x100 + b1) % 0x100 == b1);
    assert((b0 * 0x1_0000 + b1 * 0x100 + b2) % 0x100 == b2);
    assert(x % 0x100 == b3);
    let back = be32(x as u32);
    assert(back[0] == bytes[0]);
    assert(back[1] == bytes[1]);
    assert(back[2] == bytes[2]);
    assert(back[3] == bytes[3]);
    assert(back =~= bytes);
}

/// The key of the message at a leaf index.
pub fn message_key(leaf_index: u32) -> (key: Vec<u8>)
    ensures
        key@ == message_key_bytes(leaf_index),
{
    let mut key: Vec<u8> = Vec::new();
    key.push(0x6du8);
    key.push(0x65u8);
    key.push(0x73u8);
    key.push(0x73u8);
    key.push(0x61u8);
    key.push(0x67u8);
    key.push(0x65u8);
    key.push(0x5fu8);
    assert(key@ =~= message_prefix());
    push_be32(&mut key, leaf_index);
    key
}

/// The key of the leaf index of a destination's nonce.
pub fn leaf_key(destination: u32, nonce: u32) -> (key: Vec<u8>)
    ensures
        key@ == leaf_key_bytes(destination, nonce),
{
    let mut key: Vec<u8> = Vec::new();
    key.push(0x6cu8);
    key.push(0x65u8);
    key.push(0x61u8);
    key.push(0x66u8);
    key.push(0x5fu8);
    assert(key@ =~= leaf_prefix());
    push_be32(&mut key, destination);
    push_be32(&mut key, nonce);
    key
}

/// The key of the proof of a leaf index.
pub fn proof_key(leaf_index: u32) -> (key: Vec<u8>)
    ensures
        key@ == proof_key_bytes(leaf_index),
{
    let mut key: Vec<u8> = Vec::new();
    key.push(0x70u8);
    key.push(0x72u8);
    key.push(0x6fu8);
    key.push(0x6fu8);
    key.push(0x66u8);
    key.push(0x5fu8);
    assert(key@ =~= proof_prefix());
    push_be32(&mut key, leaf_index);
    key
}

/// The key of a destination's cursor.
pub fn cursor_key(destination: u32) -> (key: Vec<u8>)
    ensures
        key@ == cursor_key_bytes(destination),
{
    let mut key: Vec<u8> = Vec::new();
    key.push(0x63u8);
    key.push(0x75u8);
    key.push(0x72u8);
    key.push(0x72u8);
    key.push(0x65u8);
    key.push(0x6eu8);
    key.push(0x74u8);
    key.push(0x5fu8);
    key.push(0x6eu8);
    key.push(0x6fu8);
    key.push(0x6eu8);
    key.push(0x63u8);
    key.push(0x65u8);
    key.push(0x5fu8);
    assert(key@ =~= cursor_prefix());
    push_be32(&mut key, destination);
    key
}

/// No key of one view is a key of another, and within a view different
/// arguments have different keys.
pub proof fn law_keys_are_distinct(a: u32, b: u32, c: u32, d: u32)
    ensures
        message_key_bytes(a) != proof_key_bytes(b),
        message_key_bytes(a) != cursor_key_bytes(b),
        message_key_bytes(a) != leaf_key_bytes(b, c),
        proof_key_bytes(a) != cursor_key_bytes(b),
        proof_key_bytes(a) != leaf_key_bytes(b, c),
        cursor_key_bytes(a) != leaf_key_bytes(b, c),
        message_key_bytes(a) == message_key_bytes(b) ==> a == b,
        proof_key_bytes(a) == proof_key_bytes(b) ==> a == b,
        cursor_key_bytes(a) == cursor_key_bytes(b) ==> a == b,
        leaf_key_bytes(a, b) == leaf_key_bytes(c, d) ==> a == c && b == d,
{
    assert(message_key_bytes(a)[0] == 0x6du8);
    assert(proof_key_bytes(b)[0] == 0x70u8);
    assert(proof_key_bytes(a)[0] == 0x70u8);
    assert(cursor_key_bytes(b)[0] == 0x63u8);
    assert(cursor_key_bytes(a)[0] == 0x63u8);
    assert(leaf_key_bytes(b, c)[0] == 0x6cu8);
    lemma_be32_round_trip(a);
    lemma_be32_round_trip(b);
    lemma_be32_round_trip(c);
    lemma_be32_round_trip(d);
    if message_key_bytes(a) == message_key_bytes(b) {
        assert(message_key_bytes(a).subrange(8, 12) =~= be32(a));
        assert(message_key_bytes(b).subrange(8, 12) =~= be32(b));
    }
    if proof_key_bytes(a) == proof_key_bytes(b) {
        assert(proof_key_bytes(a).subrange(6, 10) =~= be32(a));
        assert(proof_key_bytes(b).subrange(6, 10) =~= be32(b));
    }
    if cursor_key_bytes(a) == cursor_key_bytes(b) {
        assert(cursor_key_bytes(a).subrange(14, 18) =~= be32(a));
        assert(cursor_key_bytes(b).subrange(14, 18) =~= be32(b));
    }
    if leaf_key_bytes(a, b) == leaf_key_bytes(c, d) {
        assert(leaf_key_bytes(a, b).subrange(5, 9) =~= be32(a));
        assert(leaf_key_bytes(c, d).subrange(5, 9) =~= be32(c));
        assert(leaf_key_bytes(a, b).subrange(9, 13) =~= be32(b));
        assert(leaf_key_bytes(c, d).subrange(9, 13) =~= be32(d));
    }
}

/// Reads four bytes, most significant first, at `at`.
fn read_be32(bytes: &Vec<u8>, at: usize) -> (x: u32)
    requires
        at + 4 <= bytes.len(),
    ensures
        x == from_be32(bytes@.subrange(at as int, at + 4)),
{
    let b0 = bytes[at] as u32;
    let b1 = bytes[at + 1] as u32;
    let b2 = bytes[at + 2] as u32;
    let b3 = bytes[at + 3] as u32;
    b0 * 0x100_0000 + b1 * 0x1_0000 + b2 * 0x100 + b3
}

/// Reads the 32 bytes of a word at `at`.
fn read_word(bytes: &Vec<u8>, at: usize) -> (w: H256)
    requires
        at + 32 <= bytes.len(),
    ensures
        w@ == bytes@.subrange(at as int, at + 32),
{
    let mut out: [u8; 32] = [0u8; 32];
    let mut i: usize = 0;
    while i < 32
        invariant
            i <= 32,
            at + 32 <= bytes.len(),
            forall|j: int| 0 <= j < i ==> out@[j] == bytes@[at + j],
        decreases 32 - i,
    {
        out[i] = bytes[at + i];
        i = i + 1;
    }
    let w = H256 { bytes: out };
    assert(w@ =~= bytes@.subrange(at as int, at + 32));
    w
}

/// A cursor as it is kept in the store.
pub fn encode_cursor(nonce: u32) -> (bytes: Vec<u8>)
    ensures
        bytes@ == be32(nonce),
{
    let mut bytes: Vec<u8> = Vec::new();
    push_be32(&mut bytes, nonce);
    assert(bytes@ =~= be32(nonce));
    bytes
}

/// Reads a cursor, or a leaf index, as it is kept in the store: four bytes.
pub fn decode_cursor(bytes: &Vec<u8>) -> (nonce: Option<u32>)
    ensures
        nonce is Some <==> bytes@.len() == 4,
        nonce matches Some(n) ==> be32(n) == bytes@,
{
    if bytes.len() != 4 {
        return None;
    }
    let n = read_be32(bytes, 0);
    proof {
        assert(bytes@.subrange(0, 4) =~= bytes@);
        lemma_be32_of_bytes(bytes@);
    }
    Some(n)
}

/// A committed message as it is kept in the store: the leaf index, then the
/// message's encoding.
pub open spec fn stored_message(m: CommittedMessage) -> Seq<u8> {
    be32(m.leaf_index) + m.message.encoding()
}

/// Encodes a committed message for the store.
pub fn encode_message(m: &CommittedMessage) -> (bytes: Vec<u8>)
    ensures
        bytes@ == stored_message(*m),
{
    let mut bytes: Vec<u8> = Vec::new();
    push_be32(&mut bytes, m.leaf_index);
    let encoded = m.message.to_vec();
    let ghost head = bytes@;
    let mut i: usize = 0;
    while i < encoded.len()
        invariant
            i <= encoded.len(),
            bytes@ == head + encoded@.take(i as int),
        decreases encoded.len() - i,
    {
        bytes.push(encoded[i]);
        assert(bytes@ =~= head + encoded@.take(i + 1));
        i = i + 1;
    }
    assert(encoded@.take(encoded.len() as int) =~= encoded@);
    assert(head =~= be32(m.leaf_index));
    bytes
}

/// The length of a stored message with an empty body.
pub const MESSAGE_HEADER_LEN: usize = 80;

/// Reads a committed message as it is kept in the store. Fewer bytes than
/// the fixed fields take are no message.
pub fn decode_message(bytes: &Vec<u8>) -> (res: Option<CommittedMessage>)
    ensures
        res is Some <==> bytes@.len() >= MESSAGE_HEADER_LEN,
        res matches Some(m) ==> stored_message(m) == bytes@,
{
    if bytes.len() < MESSAGE_HEADER_LEN {
        return None;
    }
    let leaf_index = read_be32(bytes, 0);
    let origin = read_be32(bytes, 4);
    let sender = read_word(bytes, 8);
    let nonce = read_be32(bytes, 40);
    let destination = read_be32(bytes, 44);
    let recipient = read_word(bytes, 48);
    let mut body: Vec<u8> = Vec::new();
    let mut i: usize = MESSAGE_HEADER_LEN;
    while i < bytes.len()
        invariant
            MESSAGE_HEADER_LEN <= i <= bytes.len(),
            body@ == bytes@.subrange(MESSAGE_HEADER_LEN as int, i as int),
        decreases bytes.len() - i,
    {
        body.push(bytes[i]);
        assert(body@ =~= bytes@.subrange(MESSAGE_HEADER_LEN as int, i + 1));
        i = i + 1;
    }
    let m = CommittedMessage {
        leaf_index,
        message: AbacusMessage { origin, sender, nonce, destination, recipient, body },
    };
    proof {
        lemma_be32_of_bytes(bytes@.subrange(0, 4));
        lemma_be32_of_bytes(bytes@.subrange(4, 8));
        lemma_be32_of_bytes(bytes@.subrange(40, 44));
        lemma_be32_of_bytes(bytes@.subrange(44, 48));
        assert(stored_message(m) =~= bytes@.subrange(0, 4) + bytes@.subrange(4, 8)
            + bytes@.subrange(8, 40) + bytes@.subrange(40, 44) + bytes@.subrange(44, 48)
            + bytes@.subrange(48, 80) + bytes@.subrange(80, bytes@.len() as int));
        assert(bytes@ =~= bytes@.subrange(0, 4) + bytes@.subrange(4, 8) + bytes@.subrange(8, 40)
            + bytes@.subrange(40, 44) + bytes@.subrange(44, 48) + bytes@.subrange(48, 80)
            + bytes@.subrange(80, bytes@.len() as int));
    }
    Some(m)
}

/// The siblings of a path, one after the other.
pub open spec fn joined(path: Seq<Seq<u8>>) -> Seq<u8>
    decreases path.len(),
{
    if path.len() == 0 {
        Seq::empty()
    } else {
        joined(path.drop_last()) + path.last()
    }
}

/// A proof as it is kept in the store: the leaf, the index, then the
/// siblings.
pub open spec fn stored_proof(p: Proof) -> Seq<u8> {
    p.leaf@ + be32(p.index) + joined(p.path_words())
}

/// The length of a stored proof.
pub const PROOF_LEN: usize = 1060;

/// `n` words of 32 bytes take `32 * n` bytes, and each word stands at its
/// place among them.
pub proof fn lemma_joined(path: Seq<Seq<u8>>)
    requires
        forall|k: int| 0 <= k < path.len() ==> (#[trigger] path[k]).len() == 32,
    ensures
        joined(path).len() == 32 * path.len(),
        forall|k: int|
            0 <= k < path.len() ==> #[trigger] path[k] == joined(path).subrange(
                32 * k,
                32 * k + 32,
            ),
    decreases path.len(),
{
    if path.len() > 0 {
        let front = path.drop_last();
        lemma_joined(front);
        assert forall|k: int| 0 <= k < path.len() implies #[trigger] path[k] == joined(
            path,
        ).subrange(32 * k, 32 * k + 32) by {
            if k < front.len() {
                assert(front[k] == path[k]);
                assert(joined(path).subrange(32 * k, 32 * k + 32) =~= joined(front).subrange(
                    32 * k,
                    32 * k + 32,
                ));
            } else {
                assert(joined(path).subrange(32 * k, 32 * k + 32) =~= path.last());
            }
        }
    }
}

/// Encodes a proof for the store.
pub fn encode_proof(p: &Proof) -> (bytes: Vec<u8>)
    ensures
        bytes@ == stored_proof(*p),
        bytes@.len() == PROOF_LEN,
{
    let mut bytes: Vec<u8> = Vec::new();
    push_word(&mut bytes, &p.leaf);
    push_be32(&mut bytes, p.index);
    let ghost head = bytes@;
    let mut k: usize = 0;
    assert(p.path_words().take(0) =~= Seq::<Seq<u8>>::empty());
    while k < 32
        invariant
            k <= 32,
            head == p.leaf@ + be32(p.index),
            bytes@ == head + joined(p.path_words().take(k as int)),
        decreases 32 - k,
    {
        push_word(&mut bytes, &p.path[k]);
        proof {
            let longer = p.path_words().take(k + 1);
            assert(longer.drop_last() =~= p.path_words().take(k as int));
            assert(longer.last() == p.path@[k as int]@);
        }
        k = k + 1;
    }
    proof {
        assert(p.path_words().take(32) =~= p.path_words());
        lemma_joined(p.path_words());
    }
    bytes
}

/// Reads a proof as it is kept in the store. Bytes of any other length than
/// a proof's are no proof.
pub fn decode_proof(bytes: &Vec<u8>) -> (res: Option<Proof>)
    ensures
        res is Some <==> bytes@.len() == PROOF_LEN,
        res matches Some(p) ==> stored_proof(p) == bytes@,
{
    if bytes.len() != PROOF_LEN {
        return None;
    }
    let leaf = read_word(bytes, 0);
    let index = read_be32(bytes, 32);
    let mut path: [H256; 32] = [H256::zero(); 32];
    let mut k: usize = 0;
    while k < 32
        invariant
            k <= 32,
            bytes.len() == PROOF_LEN,
            forall|j: int|
                0 <= j < k ==> (#[trigger] path@[j])@ == bytes@.subrange(
                    36 + 32 * j,
                    36 + 32 * j + 32,
                ),
        decreases 32 - k,
    {
        path[k] = read_word(bytes, 36 + 32 * k);
        k = k + 1;
    }
    let p = Proof { leaf, index, path };
    proof {
        lemma_be32_of_bytes(bytes@.subrange(32, 36));
        let tail = bytes@.subrange(36, PROOF_LEN as int);
        let siblings = p.path_words();
        lemma_joined(siblings);
        assert forall|i: int| 0 <= i < 1024 implies joined(siblings)[i] == tail[i] by {
            let j = i / 32;
            assert(siblings[j] == joined(siblings).subrange(32 * j, 32 * j + 32));
            assert(siblings[j][i - 32 * j] == joined(siblings)[i]);
            assert(path@[j]@ == bytes@.subrange(36 + 32 * j, 36 + 32 * j + 32));
            assert(siblings[j][i - 32 * j] == bytes@[36 + i]);
        }
        assert(joined(siblings) =~= tail);
        assert(bytes@ =~= bytes@.subrange(0, 32) + bytes@.subrange(32, 36) + tail);
    }
    Some(p)
}

/// What is written for a message is read back as that message.
pub proof fn law_message_round_trip(m: CommittedMessage, read: CommittedMessage)
    requires
        stored_message(read) == stored_message(m),
    ensures
        read.leaf_index == m.leaf_index,
        read.message.origin == m.message.origin,
        read.message.sender@ == m.message.sender@,
        read.message.nonce == m.message.nonce,
        read.message.destination == m.message.destination,
        read.message.recipient@ == m.message.recipient@,
        read.message.body@ == m.message.body@,
{
    let a = stored_message(m);
    let b = stored_message(read);
    lemma_be32_round_trip(m.leaf_index);
    lemma_be32_round_trip(read.leaf_index);
    lemma_be32_round_trip(m.message.origin);
    lemma_be32_round_trip(read.message.origin);
    lemma_be32_round_trip(m.message.nonce);
    lemma_be32_round_trip(read.message.nonce);
    lemma_be32_round_trip(m.message.destination);
    lemma_be32_round_trip(read.message.destination);
    assert(a.subrange(0, 4) =~= be32(m.leaf_index));
    assert(b.subrange(0, 4) =~= be32(read.leaf_index));
    assert(a.subrange(4, 8) =~= be32(m.message.origin));
    assert(b.subrange(4, 8) =~= be32(read.message.origin));
    assert(a.subrange(8, 40) =~= m.message.sender@);
    assert(b.subrange(8, 40) =~= read.message.sender@);
    assert(a.subrange(40, 44) =~= be32(m.message.nonce));
    assert(b.subrange(40, 44) =~= be32(read.message.nonce));
    assert(a.subrange(44, 48) =~= be32(m.message.destination));
    assert(b.subrange(44, 48) =~= be32(read.message.destination));
    assert(a.subrange(48, 80) =~= m.message.recipient@);
    assert(b.subrange(48, 80) =~= read.message.recipient@);
    assert(a.subrange(80, a.len() as int) =~= m.message.body@);
    assert(b.subrange(80, b.len() as int) =~= read.message.body@);
}

/// What is written for a proof is read back as that proof.
pub proof fn law_proof_round_trip(p: Proof, read: Proof)
    requires
        stored_proof(read) == stored_proof(p),
    ensures
        read.leaf@ == p.leaf@,
        read.index == p.index,
        read.path_words() == p.path_words(),
{
    let a = stored_proof(p);
    let b = stored_proof(read);
    lemma_be32_round_trip(p.index);
    lemma_be32_round_trip(read.index);
    lemma_joined(p.path_words());
    lemma_joined(read.path_words());
    assert(a.subrange(0, 32) =~= p.leaf@);
    assert(b.subrange(0, 32) =~= read.leaf@);
    assert(a.subrange(32, 36) =~= be32(p.index));
    assert(b.subrange(32, 36) =~= be32(read.index));
    assert(a.subrange(36, 1060) =~= joined(p.path_words()));
    assert(b.subrange(36, 1060) =~= joined(read.path_words()));
    assert forall|k: int| 0 <= k < 32 implies p.path_words()[k] == read.path_words()[k] by {
        assert(p.path_words()[k] == joined(p.path_words()).subrange(32 * k, 32 * k + 32));
        assert(read.path_words()[k] == joined(read.path_words()).subrange(32 * k, 32 * k + 32));
    }
    assert(read.path_words() =~= p.path_words());
}

} // verus!
