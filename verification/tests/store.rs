use abacus_agents::accumulator::Prover;
use abacus_agents::message::{AbacusMessage, CommittedMessage};
use abacus_agents::primitives::H256;
use abacus_agents::store::{
    cursor_key, decode_cursor, decode_message, decode_proof, encode_cursor, encode_message,
    encode_proof, leaf_key, message_key, proof_key, MESSAGE_HEADER_LEN, PROOF_LEN,
};

fn sw(tag: u8) -> H256 {
    H256 { bytes: [tag; 32] }
}

fn stored(leaf_index: u32, body: Vec<u8>) -> CommittedMessage {
    CommittedMessage {
        leaf_index,
        message: AbacusMessage {
            origin: 0x0102_0304,
            sender: sw(0x11),
            nonce: 7,
            destination: 0xffff_fffe,
            recipient: sw(0x22),
            body,
        },
    }
}

#[test]
fn keys_have_their_prefix_and_arguments() {
    assert_eq!(message_key(0x0102_0304), [b"message_".as_slice(), &[1u8, 2, 3, 4]].concat());
    assert_eq!(proof_key(5), [b"proof_".as_slice(), &[0u8, 0, 0, 5]].concat());
    assert_eq!(cursor_key(u32::MAX), [b"current_nonce_".as_slice(), &[255u8; 4]].concat());
    assert_eq!(leaf_key(1, 2), [b"leaf_".as_slice(), &[0u8, 0, 0, 1, 0, 0, 0, 2]].concat());
}

#[test]
fn keys_of_different_arguments_differ() {
    assert_ne!(message_key(1), message_key(2));
    assert_ne!(message_key(1), proof_key(1));
    assert_ne!(leaf_key(1, 2), leaf_key(2, 1));
    assert_ne!(cursor_key(1), cursor_key(256));
}

#[test]
fn cursor_round_trip() {
    for n in [0u32, 1, 255, 256, 0x0102_0304, u32::MAX] {
        assert_eq!(decode_cursor(&encode_cursor(n)), Some(n));
    }
    assert_eq!(encode_cursor(0x0102_0304), vec![1, 2, 3, 4]);
    assert_eq!(decode_cursor(&vec![]), None);
    assert_eq!(decode_cursor(&vec![0, 0, 1]), None);
    assert_eq!(decode_cursor(&vec![0, 0, 0, 0, 1]), None);
    assert_eq!(decode_cursor(&vec![0, 0, 1, 0]), Some(256));
}

#[test]
fn message_round_trip() {
    for body in [vec![], vec![1u8], vec![9u8; 300]] {
        let m = stored(12, body);
        let bytes = encode_message(&m);
        assert_eq!(bytes.len(), MESSAGE_HEADER_LEN + m.message.body.len());
        assert_eq!(&bytes[0..4], &[0u8, 0, 0, 12]);
        assert_eq!(&bytes[4..], &m.message.to_vec()[..]);
        assert_eq!(decode_message(&bytes), Some(m));
    }
}

#[test]
fn short_bytes_are_no_message() {
    assert_eq!(MESSAGE_HEADER_LEN, 80);
    assert_eq!(decode_message(&vec![]), None);
    assert_eq!(decode_message(&vec![0u8; 79]), None);
    let empty = decode_message(&vec![0u8; 80]).unwrap();
    assert_eq!(empty.leaf_index, 0);
    assert!(empty.message.body.is_empty());
}

#[test]
fn proof_round_trip() {
    let mut prover = Prover::new();
    for tag in 1u8..=5 {
        prover.ingest(sw(tag)).unwrap();
    }
    for index in 0..5 {
        let proof = prover.prove(index).unwrap();
        let bytes = encode_proof(&proof);
        assert_eq!(bytes.len(), PROOF_LEN);
        assert_eq!(&bytes[0..32], &proof.leaf.bytes);
        assert_eq!(&bytes[32..36], &[0u8, 0, 0, index as u8]);
        assert_eq!(&bytes[36..68], &proof.path[0].bytes);
        assert_eq!(&bytes[1028..1060], &proof.path[31].bytes);
        assert_eq!(decode_proof(&bytes), Some(proof));
    }
}

#[test]
fn bytes_of_another_length_are_no_proof() {
    assert_eq!(PROOF_LEN, 1060);
    assert_eq!(decode_proof(&vec![0u8; 1059]), None);
    assert_eq!(decode_proof(&vec![0u8; 1061]), None);
    assert_eq!(decode_proof(&vec![]), None);
    let zero = decode_proof(&vec![0u8; 1060]).unwrap();
    assert_eq!(zero.index, 0);
    assert_eq!(zero.leaf, H256::zero());
}
