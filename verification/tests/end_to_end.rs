use std::collections::{HashMap, HashSet, VecDeque};

use abacus_agents::accumulator::Proof;
use abacus_agents::checkpoint::{Checkpoint, MultisigSignedCheckpoint, Signature, SignedCheckpoint};
use abacus_agents::fetcher::CheckpointFetcher;
use abacus_agents::message::{AbacusMessage, CommittedMessage};
use abacus_agents::multisig::MultisigCheckpointSyncer;
use abacus_agents::primitives::{Address, H256};
use abacus_agents::processor::{Action, Event, MessageProcessor, SenderPolicy};
use abacus_agents::prover_sync::ProverSync;
use abacus_agents::submitter::{
    MessageStatus, SerialSubmitter, SubmitAction, SubmitEvent, SubmitMessageOp, SubmitterConfig,
};
use ethers::signers::{LocalWallet, Signer};

const ORIGIN: u32 = 1000;
const DESTINATION: u32 = 2000;

fn tagged(tag: u8) -> H256 {
    H256 { bytes: [tag; 32] }
}

fn sender() -> H256 {
    tagged(0x11)
}

fn outbox_message(nonce: u32) -> CommittedMessage {
    CommittedMessage {
        leaf_index: nonce,
        message: AbacusMessage {
            origin: ORIGIN,
            sender: sender(),
            nonce,
            destination: DESTINATION,
            recipient: tagged(0x22),
            body: vec![nonce as u8],
        },
    }
}

fn validator_keys() -> Vec<LocalWallet> {
    let mut wallets: Vec<LocalWallet> = (1u8..=3)
        .map(|tag| {
            let mut key = [0u8; 32];
            key[31] = tag;
            LocalWallet::from_bytes(&key).unwrap()
        })
        .collect();
    wallets.sort_by_key(|w| w.address().0);
    wallets
}

fn sign_checkpoint(wallet: &LocalWallet, checkpoint: &Checkpoint) -> SignedCheckpoint {
    let digest = checkpoint.compute_signed_digest();
    let sig = wallet.sign_hash(ethers::types::H256(digest.bytes)).unwrap();
    let mut r = [0u8; 32];
    let mut s = [0u8; 32];
    sig.r.to_big_endian(&mut r);
    sig.s.to_big_endian(&mut s);
    SignedCheckpoint {
        checkpoint: *checkpoint,
        signature: Signature { r: H256 { bytes: r }, s: H256 { bytes: s }, v: sig.v },
    }
}

/// Everything outside the agents: the store, the validators' backends, the
/// inbox, and the channels between the tasks.
struct World {
    keys: Vec<LocalWallet>,
    by_nonce: HashMap<u32, CommittedMessage>,
    by_leaf: HashMap<u32, CommittedMessage>,
    proofs: HashMap<u32, Proof>,
    cursor: Option<u32>,
    backends: Vec<HashMap<u32, SignedCheckpoint>>,
    latest_checkpoint: Option<MultisigSignedCheckpoint>,
    accepted_roots: HashSet<[u8; 32]>,
    processed: HashSet<[u8; 32]>,
    process_calls: Vec<u32>,
    ops: VecDeque<SubmitMessageOp>,
    sleeps: u32,
}

impl World {
    fn new() -> World {
        World {
            keys: validator_keys(),
            by_nonce: HashMap::new(),
            by_leaf: HashMap::new(),
            proofs: HashMap::new(),
            cursor: None,
            backends: vec![HashMap::new(), HashMap::new(), HashMap::new()],
            latest_checkpoint: None,
            accepted_roots: HashSet::new(),
            processed: HashSet::new(),
            process_calls: Vec::new(),
            ops: VecDeque::new(),
            sleeps: 0,
        }
    }

    fn syncer(&self, threshold: usize) -> MultisigCheckpointSyncer {
        let validators: Vec<Address> =
            self.keys.iter().map(|w| Address { bytes: w.address().0 }).collect();
        MultisigCheckpointSyncer::new(validators, threshold).unwrap()
    }

    fn index_message(&mut self, nonce: u32) {
        let m = outbox_message(nonce);
        self.by_nonce.insert(nonce, m.clone());
        self.by_leaf.insert(m.leaf_index, m);
    }

    fn publish(&mut self, validator: usize, root: H256, index: u32) {
        let checkpoint =
            Checkpoint { outbox_domain: ORIGIN, outbox_address: tagged(0xaa), root, index };
        let signed = sign_checkpoint(&self.keys[validator], &checkpoint);
        self.backends[validator].insert(index, signed);
    }

    /// One round of the prover sync. Says whether it moved on.
    fn prover_round(&mut self, sync: &mut ProverSync) -> bool {
        let tip = sync.tip() as u32;
        match sync.on_lookup(self.by_leaf.get(&tip)).unwrap() {
            Some(proof) => {
                self.proofs.insert(tip, proof);
                true
            }
            None => false,
        }
    }

    /// One poll of the checkpoint fetcher. A published bundle also reaches
    /// the inbox, which from then on accepts its root.
    fn fetcher_round(&mut self, syncer: &MultisigCheckpointSyncer, fetcher: &mut CheckpointFetcher) {
        let minimum = match fetcher.minimum_index() {
            Some(minimum) => minimum,
            None => return,
        };
        let latest: Vec<Option<u32>> =
            self.backends.iter().map(|b| b.keys().max().copied()).collect();
        let mut search = syncer.begin_search(&latest, minimum);
        let mut found = None;
        while let Some(index) = search.pending() {
            let votes: Vec<Option<SignedCheckpoint>> =
                self.backends.iter().map(|b| b.get(&index).copied()).collect();
            if let Some(bundle) = syncer.try_candidate(&mut search, &votes) {
                found = Some(bundle);
            }
        }
        if fetcher.on_poll(&found) {
            let bundle = found.unwrap();
            self.accepted_roots.insert(bundle.checkpoint.root.bytes);
            self.latest_checkpoint = Some(bundle);
        }
    }

    /// Performs what the processor asks for, until it sleeps or halts.
    fn processor_round(&mut self, processor: &mut MessageProcessor) -> Action {
        let mut action = processor.next_action();
        for _ in 0..50 {
            let event = match action {
                Action::LoadMessage { destination, nonce } => {
                    assert_eq!(destination, DESTINATION);
                    Event::Message(self.by_nonce.get(&nonce).cloned())
                }
                Action::LoadProof { leaf_index } => {
                    Event::Proof(self.proofs.get(&leaf_index).copied())
                }
                Action::ReadCheckpoint => Event::Checkpoint(
                    self.latest_checkpoint.as_ref().map(|b| b.checkpoint.index),
                ),
                Action::QueryAcceptableRoot { root } => {
                    Event::RootAcceptable(self.accepted_roots.contains(&root.bytes))
                }
                Action::Enqueue { op } => {
                    self.ops.push_back(op);
                    Event::Enqueued
                }
                Action::PersistCursor { nonce, .. } => {
                    self.cursor = Some(nonce);
                    Event::Persisted
                }
                Action::Sleep { .. } => {
                    self.sleeps += 1;
                    processor.step(&Event::Woke);
                    return action;
                }
                Action::Halt { .. } => return action,
            };
            action = processor.step(&event);
        }
        action
    }

    /// Hands the waiting operations to the submitter and lets it work until
    /// it has nothing due.
    fn submitter_round(&mut self, submitter: &mut SerialSubmitter, now: u64) {
        while let Some(op) = self.ops.pop_front() {
            assert!(submitter.receive(op));
        }
        for _ in 0..200 {
            let event = match submitter.poll(now) {
                SubmitAction::AwaitOp | SubmitAction::Sleep { .. } => return,
                SubmitAction::Halt { why } => panic!("submitter halted: {:?}", why),
                SubmitAction::Load { leaf_index } => SubmitEvent::Loaded {
                    message: self.by_leaf.get(&leaf_index).cloned(),
                    proof: self.proofs.get(&leaf_index).copied(),
                },
                SubmitAction::CheckGasPayment { .. } => SubmitEvent::GasPaid(true),
                SubmitAction::QueryMessageStatus { leaf } => {
                    SubmitEvent::Status(if self.processed.contains(&leaf.bytes) {
                        MessageStatus::Processed
                    } else {
                        MessageStatus::Unseen
                    })
                }
                SubmitAction::ReadCheckpoint => SubmitEvent::Checkpoint(
                    self.latest_checkpoint.as_ref().map(|b| b.checkpoint.index),
                ),
                SubmitAction::QueryAcceptableRoot { root } => {
                    SubmitEvent::RootAcceptable(self.accepted_roots.contains(&root.bytes))
                }
                SubmitAction::Process { leaf_index, root, checkpoint_index } => {
                    assert!(self.accepted_roots.contains(&root.bytes));
                    let latest = self.latest_checkpoint.as_ref().unwrap();
                    assert_eq!(latest.checkpoint.index, checkpoint_index);
                    let leaf = self.by_leaf[&leaf_index].to_leaf();
                    self.process_calls.push(leaf_index);
                    self.processed.insert(leaf.bytes);
                    SubmitEvent::Outcome { executed: true }
                }
            };
            submitter.step(&event, now);
        }
        panic!("submitter did not come to rest");
    }
}

fn submitter() -> SerialSubmitter {
    SerialSubmitter::new(SubmitterConfig {
        base_backoff_secs: 1,
        max_backoff_secs: 600,
        max_reverts: 3,
        capacity: 1000,
        enforce_gas_payment: false,
    })
}

fn open() -> SenderPolicy {
    SenderPolicy { allowed: None, denied: None }
}

#[test]
fn signed_message_is_proven_and_delivered() {
    let mut world = World::new();
    let syncer = world.syncer(2);
    let mut sync = ProverSync::new();
    let mut fetcher = CheckpointFetcher::new(5);
    let mut processor = MessageProcessor::new(DESTINATION, 1, open(), world.cursor);
    let mut serial = submitter();

    world.index_message(0);
    assert!(world.prover_round(&mut sync));
    let proof = world.proofs[&0];
    assert_eq!(proof.leaf, outbox_message(0).to_leaf());
    assert_eq!(proof.index, 0);
    let root = sync.prover().root();
    assert_eq!(proof.root(), root);

    world.publish(0, root, 0);
    world.publish(1, root, 0);
    world.fetcher_round(&syncer, &mut fetcher);
    let bundle = world.latest_checkpoint.clone().unwrap();
    assert_eq!(bundle.checkpoint.index, 0);
    assert_eq!(bundle.checkpoint.root, root);
    assert_eq!(bundle.signatures.len(), 2);
    assert_eq!(
        bundle.signatures,
        vec![world.backends[0][&0].signature, world.backends[1][&0].signature]
    );

    world.processor_round(&mut processor);
    assert_eq!(world.cursor, Some(0));
    assert_eq!(processor.next_message_nonce(), Some(1));
    world.submitter_round(&mut serial, 0);
    assert_eq!(world.process_calls, vec![0]);
    assert_eq!(serial.messages_processed_count(), 1);
}

#[test]
fn without_quorum_nothing_is_submitted() {
    let mut world = World::new();
    let syncer = world.syncer(2);
    let mut sync = ProverSync::new();
    let mut fetcher = CheckpointFetcher::new(5);
    let mut processor = MessageProcessor::new(DESTINATION, 1, open(), world.cursor);
    let mut serial = submitter();

    world.index_message(0);
    world.prover_round(&mut sync);
    world.publish(0, tagged(0x01), 0);
    world.publish(1, tagged(0x02), 0);
    world.fetcher_round(&syncer, &mut fetcher);
    assert!(world.latest_checkpoint.is_none());
    assert_eq!(fetcher.last_published_index(), None);

    for _ in 0..3 {
        let rest = world.processor_round(&mut processor);
        assert_eq!(rest, Action::Sleep { seconds: 1 });
        world.submitter_round(&mut serial, 0);
    }
    assert!(world.ops.is_empty());
    assert!(world.process_calls.is_empty());
    assert_eq!(world.cursor, None);
    assert_eq!(processor.next_message_nonce(), Some(0));
}

#[test]
fn denied_sender_moves_the_cursor_without_delivery() {
    let mut world = World::new();
    let syncer = world.syncer(2);
    let mut sync = ProverSync::new();
    let mut fetcher = CheckpointFetcher::new(5);
    let policy = SenderPolicy { allowed: None, denied: Some(vec![sender()]) };
    let mut processor = MessageProcessor::new(DESTINATION, 1, policy, world.cursor);
    let mut serial = submitter();

    world.index_message(0);
    world.prover_round(&mut sync);
    let root = sync.prover().root();
    world.publish(0, root, 0);
    world.publish(1, root, 0);
    world.fetcher_round(&syncer, &mut fetcher);

    world.processor_round(&mut processor);
    world.submitter_round(&mut serial, 0);
    assert_eq!(world.cursor, Some(0));
    assert_eq!(processor.next_message_nonce(), Some(1));
    assert!(world.process_calls.is_empty());
    assert_eq!(serial.messages_processed_count(), 0);
}

#[test]
fn restart_after_hand_over_does_not_deliver_twice() {
    let mut world = World::new();
    let syncer = world.syncer(2);
    let mut sync = ProverSync::new();
    let mut fetcher = CheckpointFetcher::new(5);
    for nonce in 0..6 {
        world.index_message(nonce);
        world.prover_round(&mut sync);
        let root = sync.prover().root();
        world.publish(0, root, nonce);
        world.publish(2, root, nonce);
        world.fetcher_round(&syncer, &mut fetcher);
    }
    world.cursor = Some(4);
    let mut processor = MessageProcessor::new(DESTINATION, 1, open(), world.cursor);
    assert_eq!(processor.next_message_nonce(), Some(5));
    world.processor_round(&mut processor);
    assert_eq!(world.ops, VecDeque::from(vec![SubmitMessageOp { leaf_index: 5 }]));
    assert_eq!(world.cursor, Some(5));

    let mut first_run = submitter();
    world.submitter_round(&mut first_run, 0);
    assert_eq!(world.process_calls, vec![5]);

    let restarted = MessageProcessor::new(DESTINATION, 1, open(), world.cursor);
    assert_eq!(restarted.next_message_nonce(), Some(6));
    let mut second_run = submitter();
    world.ops.push_back(SubmitMessageOp { leaf_index: 5 });
    world.submitter_round(&mut second_run, 0);
    assert_eq!(world.process_calls, vec![5]);
    assert_eq!(second_run.messages_processed_count(), 0);
}

#[test]
fn processor_waits_for_a_lagging_proof() {
    let mut world = World::new();
    let syncer = world.syncer(1);
    let mut sync = ProverSync::new();
    let mut fetcher = CheckpointFetcher::new(5);
    for nonce in 0..=10 {
        world.index_message(nonce);
    }
    for _ in 0..10 {
        assert!(world.prover_round(&mut sync));
    }
    world.cursor = Some(9);
    let mut processor = MessageProcessor::new(DESTINATION, 1, open(), world.cursor);
    for _ in 0..2 {
        assert_eq!(world.processor_round(&mut processor), Action::Sleep { seconds: 1 });
        assert_eq!(processor.next_message_nonce(), Some(10));
    }
    assert!(world.ops.is_empty());

    assert!(world.prover_round(&mut sync));
    world.publish(1, sync.prover().root(), 10);
    world.fetcher_round(&syncer, &mut fetcher);
    world.processor_round(&mut processor);
    assert_eq!(world.ops, VecDeque::from(vec![SubmitMessageOp { leaf_index: 10 }]));
    assert_eq!(processor.next_message_nonce(), Some(11));
}

#[test]
fn missing_leaf_holds_everything_until_it_arrives() {
    let mut world = World::new();
    let syncer = world.syncer(1);
    let mut sync = ProverSync::new();
    let mut fetcher = CheckpointFetcher::new(5);
    let mut serial = submitter();
    for nonce in (0..9).chain(10..11) {
        world.index_message(nonce);
    }
    for _ in 0..9 {
        assert!(world.prover_round(&mut sync));
        let index = sync.tip() as u32 - 1;
        world.publish(0, sync.prover().root(), index);
        world.fetcher_round(&syncer, &mut fetcher);
    }
    for _ in 0..3 {
        assert!(!world.prover_round(&mut sync));
        assert_eq!(sync.tip(), 9);
    }
    let mut processor = MessageProcessor::new(DESTINATION, 1, open(), world.cursor);
    for _ in 0..12 {
        world.processor_round(&mut processor);
    }
    assert_eq!(processor.next_message_nonce(), Some(9));
    assert_eq!(world.cursor, Some(8));
    world.submitter_round(&mut serial, 0);
    assert_eq!(world.process_calls, (0..9).collect::<Vec<u32>>());

    world.index_message(9);
    for expected in [9u32, 10] {
        assert!(world.prover_round(&mut sync));
        world.publish(0, sync.prover().root(), expected);
        world.fetcher_round(&syncer, &mut fetcher);
        world.processor_round(&mut processor);
    }
    assert_eq!(sync.tip(), 11);
    assert_eq!(processor.next_message_nonce(), Some(11));
    world.submitter_round(&mut serial, 0);
    assert_eq!(world.process_calls, (0..11).collect::<Vec<u32>>());
    assert_eq!(serial.messages_processed_count(), 11);
}
