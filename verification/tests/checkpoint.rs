use abacus_agents::accumulator::hash_concat;
use abacus_agents::checkpoint::{Checkpoint, Signature, SignedCheckpoint};
use abacus_agents::message::{push_be32, push_word, AbacusMessage, CommittedMessage};
use abacus_agents::primitives::{Address, H256};
use ethers::signers::{LocalWallet, Signer};

fn word(tag: u8) -> H256 {
    let mut bytes = [0u8; 32];
    bytes[31] = tag;
    H256 { bytes }
}

fn wallet(tag: u8) -> LocalWallet {
    let mut key = [0u8; 32];
    key[31] = tag;
    LocalWallet::from_bytes(&key).unwrap()
}

fn address_of(wallet: &LocalWallet) -> Address {
    Address { bytes: wallet.address().0 }
}

fn sign(wallet: &LocalWallet, checkpoint: &Checkpoint) -> SignedCheckpoint {
    let digest = checkpoint.compute_signed_digest();
    let sig = wallet.sign_hash(ethers::types::H256(digest.bytes)).unwrap();
    let mut r = [0u8; 32];
    let mut s = [0u8; 32];
    sig.r.to_big_endian(&mut r);
    sig.s.to_big_endian(&mut s);
    SignedCheckpoint {
        checkpoint: *checkpoint,
        signature: Signature { r: H256 { bytes: r }, s: H256 { bytes: s }, v: sig.v },
    }
}

fn checkpoint(root: u8, index: u32) -> Checkpoint {
    Checkpoint { outbox_domain: 1000, outbox_address: word(0xaa), root: word(root), index }
}

#[test]
fn hash_concat_is_keccak_of_both_words() {
    let left = word(1);
    let right = word(2);
    let mut both = Vec::new();
    both.extend_from_slice(&left.bytes);
    both.extend_from_slice(&right.bytes);
    let expected = ethers::utils::keccak256(&both);
    let got = hash_concat(&left, &right);
    assert_eq!(got.bytes, expected);
    assert_ne!(got, left);
    assert_ne!(got, right);
    assert_ne!(hash_concat(&right, &left), got);
}

#[test]
fn be32_is_most_significant_byte_first() {
    let mut buf = vec![9u8];
    push_be32(&mut buf, 0x0102_0304);
    assert_eq!(buf, vec![9u8, 1, 2, 3, 4]);
    push_be32(&mut buf, u32::MAX);
    assert_eq!(buf, vec![9u8, 1, 2, 3, 4, 255, 255, 255, 255]);
    push_be32(&mut buf, 0);
    assert_eq!(&buf[9..], &[0u8, 0, 0, 0]);
}

#[test]
fn push_word_appends_all_32_bytes() {
    let mut buf = vec![7u8];
    push_word(&mut buf, &word(5));
    assert_eq!(buf.len(), 33);
    assert_eq!(buf[0], 7);
    assert_eq!(&buf[1..], &word(5).bytes);
}

#[test]
fn message_encoding_has_fixed_fields_then_body() {
    let message = AbacusMessage {
        origin: 1,
        sender: word(0x11),
        nonce: 2,
        destination: 3,
        recipient: word(0x22),
        body: vec![0xde, 0xad],
    };
    let encoded = message.to_vec();
    assert_eq!(encoded.len(), 4 + 32 + 4 + 4 + 32 + 2);
    assert_eq!(&encoded[0..4], &[0u8, 0, 0, 1]);
    assert_eq!(&encoded[4..36], &word(0x11).bytes);
    assert_eq!(&encoded[36..40], &[0u8, 0, 0, 2]);
    assert_eq!(&encoded[40..44], &[0u8, 0, 0, 3]);
    assert_eq!(&encoded[44..76], &word(0x22).bytes);
    assert_eq!(&encoded[76..], &[0xdeu8, 0xad]);
}

#[test]
fn leaf_is_keccak_of_encoding() {
    let message = AbacusMessage {
        origin: 1,
        sender: word(0x11),
        nonce: 0,
        destination: 2,
        recipient: word(0x22),
        body: vec![1, 2, 3],
    };
    let expected = ethers::utils::keccak256(message.to_vec());
    assert_eq!(message.to_leaf().bytes, expected);
    let committed = CommittedMessage { leaf_index: 4, message: message.clone() };
    assert_eq!(committed.to_leaf(), message.to_leaf());
}

#[test]
fn empty_body_message_has_76_byte_encoding() {
    let message = AbacusMessage {
        origin: 0,
        sender: H256::zero(),
        nonce: 0,
        destination: 0,
        recipient: H256::zero(),
        body: vec![],
    };
    assert_eq!(message.to_vec(), vec![0u8; 76]);
}

#[test]
fn domain_hash_covers_domain_address_and_tag() {
    let c = checkpoint(7, 3);
    let mut buf = Vec::new();
    buf.extend_from_slice(&1000u32.to_be_bytes());
    buf.extend_from_slice(&word(0xaa).bytes);
    buf.extend_from_slice(b"ABACUS");
    assert_eq!(c.compute_domain_hash().bytes, ethers::utils::keccak256(&buf));
}

#[test]
fn signing_hash_covers_domain_hash_root_and_index() {
    let c = checkpoint(7, 0x0102_0304);
    let mut buf = Vec::new();
    buf.extend_from_slice(&c.compute_domain_hash().bytes);
    buf.extend_from_slice(&word(7).bytes);
    buf.extend_from_slice(&[0u8; 28]);
    buf.extend_from_slice(&[1u8, 2, 3, 4]);
    assert_eq!(c.compute_signing_hash().bytes, ethers::utils::keccak256(&buf));
}

#[test]
fn signed_digest_is_the_signed_message_hash() {
    let c = checkpoint(9, 12);
    let inner = c.compute_signing_hash();
    let expected = ethers::utils::hash_message(inner.bytes);
    assert_eq!(c.compute_signed_digest().bytes, expected.0);
}

#[test]
fn recover_returns_the_signer() {
    let w = wallet(1);
    let signed = sign(&w, &checkpoint(5, 0));
    assert_eq!(signed.recover(), Some(address_of(&w)));
    assert!(signed.signed_by(&address_of(&w)));
    assert!(!signed.signed_by(&address_of(&wallet(2))));
}

#[test]
fn recover_of_a_changed_checkpoint_gives_another_address() {
    let w = wallet(1);
    let mut signed = sign(&w, &checkpoint(5, 0));
    signed.checkpoint.index = 1;
    assert_ne!(signed.recover(), Some(address_of(&w)));
    assert!(!signed.signed_by(&address_of(&w)));
}

#[test]
fn recover_of_a_zero_signature_fails() {
    let signed = SignedCheckpoint {
        checkpoint: checkpoint(5, 0),
        signature: Signature { r: H256::zero(), s: H256::zero(), v: 27 },
    };
    assert_eq!(signed.recover(), None);
    assert!(!signed.signed_by(&address_of(&wallet(1))));
}

#[test]
fn signature_bytes_are_r_s_and_low_byte_of_v() {
    let sig = Signature { r: word(1), s: word(2), v: 0x11c };
    let bytes = sig.to_vec();
    assert_eq!(bytes.len(), 65);
    assert_eq!(&bytes[0..32], &word(1).bytes);
    assert_eq!(&bytes[32..64], &word(2).bytes);
    assert_eq!(bytes[64], 0x1c);
}

#[test]
fn checkpoints_compare_by_all_fields() {
    let a = checkpoint(1, 2);
    assert!(a.same(&checkpoint(1, 2)));
    assert!(!a.same(&checkpoint(1, 3)));
    assert!(!a.same(&checkpoint(2, 2)));
    let mut other = checkpoint(1, 2);
    other.outbox_domain = 7;
    assert!(!a.same(&other));
    let mut third = checkpoint(1, 2);
    third.outbox_address = word(0xbb);
    assert!(!a.same(&third));
}

#[test]
fn words_and_addresses_compare_by_bytes() {
    assert!(word(1).same(&word(1)));
    assert!(!word(1).same(&word(2)));
    let low = Address { bytes: [1u8; 20] };
    let mut high_bytes = [1u8; 20];
    high_bytes[19] = 2;
    let high = Address { bytes: high_bytes };
    assert!(low.precedes(&high));
    assert!(!high.precedes(&low));
    assert!(!low.precedes(&low));
    assert!(low.same(&low));
    assert!(!low.same(&high));
    let mut first_byte = [0u8; 20];
    first_byte[0] = 9;
    assert!(high.precedes(&Address { bytes: first_byte }));
}

#[test]
fn address_is_padded_on_the_left() {
    let a = Address { bytes: [0xabu8; 20] };
    let h = H256::from_address(&a);
    assert_eq!(&h.bytes[0..12], &[0u8; 12]);
    assert_eq!(&h.bytes[12..], &[0xabu8; 20]);
    assert_eq!(H256::zero().bytes, [0u8; 32]);
}
