use abacus_agents::accumulator::{Proof, Prover};
use abacus_agents::message::{AbacusMessage, CommittedMessage};
use abacus_agents::primitives::H256;
use abacus_agents::processor::{
    contains_word, Action, Decision, Event, Fatal, Flow, MessageProcessor, SenderPolicy, Verdict,
};
use abacus_agents::submitter::SubmitMessageOp;

fn w(tag: u8) -> H256 {
    let mut bytes = [0u8; 32];
    bytes[31] = tag;
    H256 { bytes }
}

fn sender_11() -> H256 {
    H256 { bytes: [0x11u8; 32] }
}

fn message(nonce: u32, leaf_index: u32, sender: H256) -> CommittedMessage {
    CommittedMessage {
        leaf_index,
        message: AbacusMessage {
            origin: 1,
            sender,
            nonce,
            destination: 2,
            recipient: w(0x22),
            body: vec![nonce as u8],
        },
    }
}

fn open_policy() -> SenderPolicy {
    SenderPolicy { allowed: None, denied: None }
}

fn proof_of(messages: &[CommittedMessage], index: u32) -> Proof {
    let mut prover = Prover::new();
    for m in messages {
        prover.ingest(m.to_leaf()).unwrap();
    }
    prover.prove(index).unwrap()
}

#[test]
fn absent_cursor_starts_at_nonce_zero() {
    let p = MessageProcessor::new(2, 5, open_policy(), None);
    assert_eq!(p.next_message_nonce(), Some(0));
    assert_eq!(p.next_action(), Action::LoadMessage { destination: 2, nonce: 0 });
    assert_eq!(p.flow(), None);
}

#[test]
fn stored_cursor_resumes_at_the_next_nonce() {
    let p = MessageProcessor::new(7, 5, open_policy(), Some(4));
    assert_eq!(p.next_message_nonce(), Some(5));
    assert_eq!(p.next_action(), Action::LoadMessage { destination: 7, nonce: 5 });
    let q = MessageProcessor::new(7, 5, open_policy(), Some(0));
    assert_eq!(q.next_message_nonce(), Some(1));
}

#[test]
fn stored_cursor_at_the_last_nonce_leaves_nothing_to_do() {
    let p = MessageProcessor::new(7, 5, open_policy(), Some(u32::MAX));
    assert_eq!(p.next_message_nonce(), None);
    assert_eq!(p.next_action(), Action::Halt { why: Fatal::NonceExhausted });
}

#[test]
fn happy_path_hands_the_message_to_the_submitter() {
    let m = message(0, 0, sender_11());
    let proof = proof_of(&[m.clone()], 0);
    let mut p = MessageProcessor::new(2, 5, open_policy(), None);
    assert_eq!(p.step(&Event::Message(Some(m.clone()))), Action::LoadProof { leaf_index: 0 });
    assert_eq!(p.step(&Event::Proof(Some(proof))), Action::ReadCheckpoint);
    assert_eq!(
        p.step(&Event::Checkpoint(Some(0))),
        Action::QueryAcceptableRoot { root: proof.root() }
    );
    assert_eq!(
        p.step(&Event::RootAcceptable(true)),
        Action::Enqueue { op: SubmitMessageOp { leaf_index: 0 } }
    );
    assert_eq!(
        p.step(&Event::Enqueued),
        Action::PersistCursor {
            destination: 2,
            nonce: 0,
            decision: Decision::Submitted { leaf_index: 0 },
        }
    );
    assert_eq!(p.flow(), Some(Flow::Advance));
    assert_eq!(p.step(&Event::Persisted), Action::LoadMessage { destination: 2, nonce: 1 });
    assert_eq!(p.next_message_nonce(), Some(1));
}

#[test]
fn missing_message_sleeps_and_tries_the_same_nonce_again() {
    let mut p = MessageProcessor::new(2, 9, open_policy(), None);
    assert_eq!(p.step(&Event::Message(None)), Action::Sleep { seconds: 9 });
    assert_eq!(p.flow(), Some(Flow::Repeat));
    assert_eq!(p.step(&Event::Woke), Action::LoadMessage { destination: 2, nonce: 0 });
    assert_eq!(p.next_message_nonce(), Some(0));
}

#[test]
fn denied_sender_is_skipped_without_submission() {
    let policy = SenderPolicy { allowed: None, denied: Some(vec![sender_11()]) };
    let mut p = MessageProcessor::new(2, 5, policy, None);
    let action = p.step(&Event::Message(Some(message(0, 0, sender_11()))));
    assert_eq!(
        action,
        Action::PersistCursor {
            destination: 2,
            nonce: 0,
            decision: Decision::Skipped { verdict: Verdict::Denied },
        }
    );
    assert_eq!(p.flow(), Some(Flow::Advance));
    assert_eq!(p.step(&Event::Persisted), Action::LoadMessage { destination: 2, nonce: 1 });
}

#[test]
fn sender_off_the_allow_list_is_skipped() {
    let policy = SenderPolicy { allowed: Some(vec![w(1), w(2)]), denied: None };
    let mut p = MessageProcessor::new(2, 5, policy.clone(), None);
    let action = p.step(&Event::Message(Some(message(0, 0, sender_11()))));
    assert_eq!(
        action,
        Action::PersistCursor {
            destination: 2,
            nonce: 0,
            decision: Decision::Skipped { verdict: Verdict::NotAllowed },
        }
    );
    let mut q = MessageProcessor::new(2, 5, policy, None);
    let kept = q.step(&Event::Message(Some(message(0, 3, w(2)))));
    assert_eq!(kept, Action::LoadProof { leaf_index: 3 });
}

#[test]
fn policy_consults_allow_list_before_deny_list() {
    let both = SenderPolicy { allowed: Some(vec![w(1)]), denied: Some(vec![w(1), w(2)]) };
    assert_eq!(both.verdict(&w(1)), Verdict::Denied);
    assert_eq!(both.verdict(&w(2)), Verdict::NotAllowed);
    assert_eq!(both.verdict(&w(3)), Verdict::NotAllowed);
    assert_eq!(open_policy().verdict(&w(3)), Verdict::Permitted);
    let empty_allow = SenderPolicy { allowed: Some(vec![]), denied: None };
    assert_eq!(empty_allow.verdict(&w(1)), Verdict::NotAllowed);
    let empty_deny = SenderPolicy { allowed: None, denied: Some(vec![]) };
    assert_eq!(empty_deny.verdict(&w(1)), Verdict::Permitted);
    assert!(contains_word(&vec![w(1), w(2)], &w(2)));
    assert!(!contains_word(&vec![w(1), w(2)], &w(3)));
}

#[test]
fn missing_proof_sleeps_and_starts_over() {
    let m = message(0, 10, sender_11());
    let mut p = MessageProcessor::new(2, 5, open_policy(), None);
    assert_eq!(p.step(&Event::Message(Some(m.clone()))), Action::LoadProof { leaf_index: 10 });
    assert_eq!(p.step(&Event::Proof(None)), Action::Sleep { seconds: 5 });
    assert_eq!(p.step(&Event::Woke), Action::LoadMessage { destination: 2, nonce: 0 });
    assert_eq!(p.step(&Event::Message(Some(m))), Action::LoadProof { leaf_index: 10 });
}

#[test]
fn proof_for_another_leaf_is_fatal() {
    let m = message(0, 0, sender_11());
    let other = message(1, 0, sender_11());
    let wrong = proof_of(&[other], 0);
    let mut p = MessageProcessor::new(2, 5, open_policy(), None);
    p.step(&Event::Message(Some(m)));
    assert_eq!(p.step(&Event::Proof(Some(wrong))), Action::Halt { why: Fatal::LeafMismatch });
    assert_eq!(p.step(&Event::Woke), Action::Halt { why: Fatal::LeafMismatch });
    assert_eq!(p.step(&Event::Persisted), Action::Halt { why: Fatal::LeafMismatch });
    assert_eq!(p.next_message_nonce(), Some(0));
}

#[test]
fn checkpoint_at_the_leaf_index_is_accepted() {
    let messages = vec![message(0, 0, sender_11()), message(1, 1, sender_11())];
    let proof = proof_of(&messages, 1);
    let mut p = MessageProcessor::new(2, 5, open_policy(), Some(0));
    p.step(&Event::Message(Some(messages[1].clone())));
    p.step(&Event::Proof(Some(proof)));
    assert_eq!(
        p.step(&Event::Checkpoint(Some(1))),
        Action::QueryAcceptableRoot { root: proof.root() }
    );
}

#[test]
fn stale_or_missing_checkpoint_sleeps() {
    let messages = vec![message(0, 0, sender_11()), message(1, 1, sender_11())];
    let proof = proof_of(&messages, 1);
    let mut p = MessageProcessor::new(2, 5, open_policy(), Some(0));
    p.step(&Event::Message(Some(messages[1].clone())));
    p.step(&Event::Proof(Some(proof)));
    assert_eq!(p.step(&Event::Checkpoint(Some(0))), Action::Sleep { seconds: 5 });
    p.step(&Event::Woke);
    p.step(&Event::Message(Some(messages[1].clone())));
    p.step(&Event::Proof(Some(proof)));
    assert_eq!(p.step(&Event::Checkpoint(None)), Action::Sleep { seconds: 5 });
    assert_eq!(p.next_message_nonce(), Some(1));
}

#[test]
fn unaccepted_root_sleeps_without_submission() {
    let m = message(0, 0, sender_11());
    let proof = proof_of(&[m.clone()], 0);
    let mut p = MessageProcessor::new(2, 5, open_policy(), None);
    p.step(&Event::Message(Some(m)));
    p.step(&Event::Proof(Some(proof)));
    p.step(&Event::Checkpoint(Some(3)));
    assert_eq!(p.step(&Event::RootAcceptable(false)), Action::Sleep { seconds: 5 });
    assert_eq!(p.flow(), Some(Flow::Repeat));
    assert_eq!(p.step(&Event::Woke), Action::LoadMessage { destination: 2, nonce: 0 });
}

#[test]
fn failed_root_query_is_retried_not_fatal() {
    let m = message(0, 0, sender_11());
    let proof = proof_of(&[m.clone()], 0);
    let mut p = MessageProcessor::new(2, 5, open_policy(), None);
    p.step(&Event::Message(Some(m)));
    p.step(&Event::Proof(Some(proof)));
    p.step(&Event::Checkpoint(Some(0)));
    assert_eq!(p.step(&Event::Failed), Action::Sleep { seconds: 5 });
}

#[test]
fn failed_store_access_is_fatal() {
    let mut p = MessageProcessor::new(2, 5, open_policy(), None);
    assert_eq!(p.step(&Event::Failed), Action::Halt { why: Fatal::StoreFailed });
    let mut q = MessageProcessor::new(2, 5, open_policy(), None);
    q.step(&Event::Message(Some(message(0, 0, sender_11()))));
    assert_eq!(q.step(&Event::Failed), Action::Halt { why: Fatal::StoreFailed });
    let policy = SenderPolicy { allowed: None, denied: Some(vec![sender_11()]) };
    let mut r = MessageProcessor::new(2, 5, policy, None);
    r.step(&Event::Message(Some(message(0, 0, sender_11()))));
    assert_eq!(r.step(&Event::Failed), Action::Halt { why: Fatal::StoreFailed });
}

#[test]
fn closed_channel_is_fatal() {
    let m = message(0, 0, sender_11());
    let proof = proof_of(&[m.clone()], 0);
    let mut p = MessageProcessor::new(2, 5, open_policy(), None);
    p.step(&Event::Message(Some(m)));
    p.step(&Event::Proof(Some(proof)));
    p.step(&Event::Checkpoint(Some(0)));
    p.step(&Event::RootAcceptable(true));
    assert_eq!(p.step(&Event::Failed), Action::Halt { why: Fatal::ChannelClosed });
}

#[test]
fn events_out_of_turn_change_nothing() {
    let mut p = MessageProcessor::new(2, 5, open_policy(), None);
    assert_eq!(p.step(&Event::Persisted), Action::LoadMessage { destination: 2, nonce: 0 });
    assert_eq!(p.step(&Event::Enqueued), Action::LoadMessage { destination: 2, nonce: 0 });
    assert_eq!(p.step(&Event::RootAcceptable(true)), Action::LoadMessage { destination: 2, nonce: 0 });
    assert_eq!(p.step(&Event::Woke), Action::LoadMessage { destination: 2, nonce: 0 });
    assert_eq!(p.next_message_nonce(), Some(0));
}

#[test]
fn last_nonce_exhausts_the_processor() {
    let policy = SenderPolicy { allowed: None, denied: Some(vec![sender_11()]) };
    let mut p = MessageProcessor::new(2, 5, policy, Some(u32::MAX - 1));
    assert_eq!(p.next_message_nonce(), Some(u32::MAX));
    p.step(&Event::Message(Some(message(u32::MAX, 0, sender_11()))));
    assert_eq!(p.step(&Event::Persisted), Action::Halt { why: Fatal::NonceExhausted });
    assert_eq!(p.next_message_nonce(), None);
}

#[test]
fn restart_after_n_nonces_resumes_at_n() {
    let policy = SenderPolicy { allowed: None, denied: Some(vec![sender_11()]) };
    let mut p = MessageProcessor::new(2, 5, policy.clone(), None);
    let mut stored = None;
    for n in 0u32..6 {
        let action = p.step(&Event::Message(Some(message(n, n, sender_11()))));
        match action {
            Action::PersistCursor { nonce, .. } => stored = Some(nonce),
            other => panic!("unexpected action {:?}", other),
        }
        p.step(&Event::Persisted);
    }
    assert_eq!(stored, Some(5));
    assert_eq!(p.next_message_nonce(), Some(6));
    let restarted = MessageProcessor::new(2, 5, policy, stored);
    assert_eq!(restarted.next_message_nonce(), Some(6));
    assert_eq!(restarted.next_action(), p.next_action());
}

#[test]
fn cursor_never_goes_back_whatever_happens() {
    let m = message(0, 0, sender_11());
    let proof = proof_of(&[m.clone()], 0);
    let policy = SenderPolicy { allowed: None, denied: Some(vec![w(9)]) };
    let mut p = MessageProcessor::new(2, 5, policy, None);
    let mut seed: u32 = 12345;
    let mut last = 0u32;
    for _ in 0..5000 {
        seed = seed.wrapping_mul(1664525).wrapping_add(1013904223);
        let event = match (seed >> 16) % 11 {
            0 => Event::Message(None),
            1 => Event::Message(Some(m.clone())),
            2 => Event::Message(Some(message(1, 1, w(9)))),
            3 => Event::Proof(None),
            4 => Event::Proof(Some(proof)),
            5 => Event::Checkpoint(Some((seed >> 8) % 3)),
            6 => Event::Checkpoint(None),
            7 => Event::RootAcceptable(seed & 1 == 0),
            8 => Event::Enqueued,
            9 => Event::Persisted,
            _ => Event::Woke,
        };
        let before = p.next_action();
        let after = p.step(&event);
        let now = p.next_message_nonce().unwrap();
        assert!(now == last || now == last + 1);
        if now == last + 1 {
            assert!(matches!(before, Action::PersistCursor { nonce, .. } if nonce == last));
            assert!(matches!(event, Event::Persisted));
        }
        if let Action::Enqueue { .. } = after {
            if !matches!(before, Action::Enqueue { .. }) {
                assert!(matches!(before, Action::QueryAcceptableRoot { .. }));
                assert!(matches!(event, Event::RootAcceptable(true)));
            }
        }
        last = now;
    }
    assert!(last > 0);
}
