//! The message processor of one destination: for each nonce in turn it
//! waits for the message, applies the sender policy, waits for the proof and
//! for a checkpoint that covers the leaf, asks the inbox whether it accepts
//! the proof's root, and hands the message to the submitter.
//!
//! The processor decides; its caller performs. `next_action` names what is
//! to be done, and `step` takes what came of it.
//!
//! The cursor moves on as soon as a message is with the submitter, not when
//! its delivery is mined: the stored cursor names the last nonce that was
//! skipped or handed over. A processor that is started anew resumes after
//! that nonce and never hands a message over twice. Whether a message that
//! was handed over reaches the inbox rests with the submitter, which asks
//! the inbox for the message's status before every delivery.
//!
//! The submitter's queue lives in memory. If the agent stops after a message
//! was handed over and before its delivery was mined, the operation is lost
//! with the queue: the processor that is started anew resumes after that
//! nonce and does not hand the message over again, so the message stays
//! undelivered until an operation for its leaf is put to a submitter by
//! other means. No message is delivered twice that way, but one may be
//! left out.

use vstd::prelude::*;
use crate::accumulator::Proof;
use crate::message::CommittedMessage;
use crate::primitives::H256;
use crate::submitter::SubmitMessageOp;

verus! {

/// What a try at one nonce came to.
#[derive(Clone, Copy, Debug, PartialEq, Eq, Structural)]
pub enum Flow {
    /// The nonce is done with: the cursor moves on.
    Advance,
    /// Something is not there yet: the same nonce is tried again later.
    Repeat,
}

/// What the sender policy says of a sender.
#[derive(Clone, Copy, Debug, PartialEq, Eq, Structural)]
pub enum Verdict {
    /// The message is to be delivered.
    Permitted,
    /// There is an allow list, and the sender is not on it.
    NotAllowed,
    /// The sender is on the deny list.
    Denied,
}

/// Whether a word occurs in a list.
pub open spec fn has_word(list: Seq<H256>, w: Seq<u8>) -> bool {
    exists|i: int| 0 <= i < list.len() && #[trigger] list[i]@ == w
}

/// Which senders' messages are delivered. Each list stands for the set of
/// the senders that it names: a sender that occurs twice counts as one, and
/// the order does not matter.
#[derive(Clone, Debug)]
pub struct SenderPolicy {
    /// If present, only these senders' messages are delivered.
    pub allowed: Option<Vec<H256>>,
    /// If present, these senders' messages are not delivered.
    pub denied: Option<Vec<H256>>,
}

/// Whether `sender` occurs in `list`.
pub fn contains_word(list: &Vec<H256>, sender: &H256) -> (b: bool)
    ensures
        b == has_word(list@, sender@),
{
    let mut i: usize = 0;
    while i < list.len()
        invariant
            i <= list.len(),
            forall|j: int| 0 <= j < i ==> list@[j]@ != sender@,
        decreases list.len() - i,
    {
        if list[i].same(sender) {
            return true;
        }
        i = i + 1;
    }
    false
}

impl SenderPolicy {
    /// The verdict on a sender: the allow list is consulted first, then the
    /// deny list.
    pub open spec fn verdict_of(&self, sender: Seq<u8>) -> Verdict {
        if self.allowed matches Some(list) && !has_word(list@, sender) {
            Verdict::NotAllowed
        } else if self.denied matches Some(list) && has_word(list@, sender) {
            Verdict::Denied
        } else {
            Verdict::Permitted
        }
    }

    /// The verdict on a sender.
    pub fn verdict(&self, sender: &H256) -> (v: Verdict)
        ensures
            v == self.verdict_of(sender@),
    {
        match &self.allowed {
            Some(list) => {
                if !contains_word(list, sender) {
                    return Verdict::NotAllowed;
                }
            },
            None => {},
        }
        match &self.denied {
            Some(list) => {
                if contains_word(list, sender) {
                    return Verdict::Denied;
                }
            },
            None => {},
        }
        Verdict::Permitted
    }
}

/// Why the processor stopped for good.
#[derive(Clone, Copy, Debug, PartialEq, Eq, Structural)]
pub enum Fatal {
    /// The stored proof is for another leaf than the stored message.
    LeafMismatch,
    /// The store could not be read or written.
    StoreFailed,
    /// The submitter no longer takes messages.
    ChannelClosed,
    /// Every nonce has been dealt with.
    NonceExhausted,
}

/// How a nonce was dealt with.
#[derive(Clone, Copy, Debug, PartialEq, Eq, Structural)]
pub enum Decision {
    /// The sender policy kept the message from delivery.
    Skipped { verdict: Verdict },
    /// The message went to the submitter.
    Submitted { leaf_index: u32 },
}

/// A nonce that the cursor has moved past, and how it was dealt with.
pub struct Outcome {
    pub nonce: u32,
    pub decision: Decision,
}

/// Where the processor stands with its current nonce.
#[derive(Clone, Copy, Debug)]
pub enum Stage {
    /// The message is to be loaded.
    Start,
    /// The message passed the policy; its proof is to be loaded.
    Kept { leaf_index: u32, leaf: H256 },
    /// The proof is there and is for the message's leaf; the latest
    /// checkpoint is to be read.
    Got { leaf_index: u32, root: H256 },
    /// The latest checkpoint covers the leaf; the inbox is to be asked about
    /// the proof's root.
    Fresh { leaf_index: u32, root: H256 },
    /// The inbox accepts the root; the message is to go to the submitter.
    Accepted { leaf_index: u32 },
    /// The nonce is dealt with; the cursor is to be persisted.
    Decided { decision: Decision },
    /// Something was not there yet; the processor is to sleep.
    Waiting,
    /// The processor has stopped for good.
    Halted { why: Fatal },
}

/// A stage as the contracts speak of it.
pub enum StageView {
    Start,
    Kept { leaf_index: u32, leaf: Seq<u8> },
    Got { leaf_index: u32, root: Seq<u8> },
    Fresh { leaf_index: u32, root: Seq<u8> },
    Accepted { leaf_index: u32 },
    Decided { decision: Decision },
    Waiting,
    Halted { why: Fatal },
}

impl View for Stage {
    type V = StageView;

    open spec fn view(&self) -> StageView {
        match *self {
            Stage::Start => StageView::Start,
            Stage::Kept { leaf_index, leaf } => StageView::Kept { leaf_index, leaf: leaf@ },
            Stage::Got { leaf_index, root } => StageView::Got { leaf_index, root: root@ },
            Stage::Fresh { leaf_index, root } => StageView::Fresh { leaf_index, root: root@ },
            Stage::Accepted { leaf_index } => StageView::Accepted { leaf_index },
            Stage::Decided { decision } => StageView::Decided { decision },
            Stage::Waiting => StageView::Waiting,
            Stage::Halted { why } => StageView::Halted { why },
        }
    }
}

/// What the processor asks its caller to do.
#[derive(Clone, Copy, Debug, PartialEq, Eq)]
pub enum Action {
    /// Load the message of this destination and nonce from the store.
    LoadMessage { destination: u32, nonce: u32 },
    /// Load the proof of this leaf from the store.
    LoadProof { leaf_index: u32 },
    /// Read the latest multisig checkpoint.
    ReadCheckpoint,
    /// Ask the inbox whether it accepts this root.
    QueryAcceptableRoot { root: H256 },
    /// Send this operation to the submitter.
    Enqueue { op: SubmitMessageOp },
    /// Store this nonce as the destination's cursor. `decision` says how
    /// the nonce was dealt with.
    PersistCursor { destination: u32, nonce: u32, decision: Decision },
    /// Sleep for so many seconds.
    Sleep { seconds: u64 },
    /// Stop, and report why.
    Halt { why: Fatal },
}

/// An action as the contracts speak of it.
pub enum ActionView {
    LoadMessage { destination: u32, nonce: u32 },
    LoadProof { leaf_index: u32 },
    ReadCheckpoint,
    QueryAcceptableRoot { root: Seq<u8> },
    Enqueue { op: SubmitMessageOp },
    PersistCursor { destination: u32, nonce: u32, decision: Decision },
    Sleep { seconds: u64 },
    Halt { why: Fatal },
}

impl View for Action {
    type V = ActionView;

    open spec fn view(&self) -> ActionView {
        match *self {
            Action::LoadMessage { destination, nonce } => ActionView::LoadMessage {
                destination,
                nonce,
            },
            Action::LoadProof { leaf_index } => ActionView::LoadProof { leaf_index },
            Action::ReadCheckpoint => ActionView::ReadCheckpoint,
            Action::QueryAcceptableRoot { root } => ActionView::QueryAcceptableRoot { root: root@ },
            Action::Enqueue { op } => ActionView::Enqueue { op },
            Action::PersistCursor { destination, nonce, decision } => ActionView::PersistCursor {
                destination,
                nonce,
                decision,
            },
            Action::Sleep { seconds } => ActionView::Sleep { seconds },
            Action::Halt { why } => ActionView::Halt { why },
        }
    }
}

/// What came of the action that the processor asked for.
#[derive(Clone, Debug)]
pub enum Event {
    /// What the store holds for the destination and nonce.
    Message(Option<CommittedMessage>),
    /// What the store holds for the leaf.
    Proof(Option<Proof>),
    /// The index of the latest multisig checkpoint, if there is one.
    Checkpoint(Option<u32>),
    /// Whether the inbox accepts the root.
    RootAcceptable(bool),
    /// The operation is with the submitter.
    Enqueued,
    /// The cursor is stored.
    Persisted,
    /// The sleep is over.
    Woke,
    /// The action could not be performed.
    Failed,
}

/// The processor as the contracts speak of it.
pub struct ProcessorView {
    /// The destination domain.
    pub destination: u32,
    /// The seconds to sleep before a nonce is tried again.
    pub interval: u64,
    /// The sender policy.
    pub policy: SenderPolicy,
    /// The nonce with which the processor began.
    pub first: nat,
    /// The next nonce to deal with; 2^32 when none is left.
    pub next: nat,
    /// Where the processor stands with that nonce.
    pub stage: StageView,
    /// The nonces that the cursor has moved past, in order.
    pub processed: Seq<Outcome>,
}

/// The nonce at which a processor resumes from a stored cursor: the one after
/// the stored nonce, or the first one where nothing is stored.
pub open spec fn resume_nonce(stored: Option<u32>) -> nat {
    match stored {
        Some(n) => (n + 1) as nat,
        None => 0,
    }
}

/// The stage in which a processor begins at `next`.
pub open spec fn initial_stage(next: nat) -> StageView {
    if next > u32::MAX {
        StageView::Halted { why: Fatal::NonceExhausted }
    } else {
        StageView::Start
    }
}

impl ProcessorView {
    /// Every nonce from the first to the next was dealt with once, in order.
    pub open spec fn wf(&self) -> bool {
        &&& self.first <= self.next <= u32::MAX + 1
        &&& self.processed.len() == self.next - self.first
        &&& forall|i: int|
            0 <= i < self.processed.len() ==> (#[trigger] self.processed[i]).nonce == self.first
                + i
        &&& self.next > u32::MAX ==> self.stage == StageView::Halted {
            why: Fatal::NonceExhausted,
        }
    }

    /// The same processor in another stage.
    pub open spec fn at(self, stage: StageView) -> ProcessorView {
        ProcessorView { stage, ..self }
    }

    /// The processor after an event.
    pub open spec fn after(self, event: Event) -> ProcessorView {
        match (self.stage, event) {
            (StageView::Start, Event::Message(None)) => self.at(StageView::Waiting),
            (StageView::Start, Event::Message(Some(m))) => {
                let verdict = self.policy.verdict_of(m.message.sender@);
                if verdict == Verdict::Permitted {
                    self.at(StageView::Kept { leaf_index: m.leaf_index, leaf: m.leaf() })
                } else {
                    self.at(StageView::Decided { decision: Decision::Skipped { verdict } })
                }
            },
            (StageView::Start, Event::Failed) => self.at(
                StageView::Halted { why: Fatal::StoreFailed },
            ),
            (StageView::Kept { .. }, Event::Proof(None)) => self.at(StageView::Waiting),
            (StageView::Kept { leaf_index, leaf }, Event::Proof(Some(p))) => {
                if p.leaf@ == leaf {
                    self.at(StageView::Got { leaf_index, root: p.spec_root() })
                } else {
                    self.at(StageView::Halted { why: Fatal::LeafMismatch })
                }
            },
            (StageView::Kept { .. }, Event::Failed) => self.at(
                StageView::Halted { why: Fatal::StoreFailed },
            ),
            (StageView::Got { leaf_index, root }, Event::Checkpoint(latest)) => {
                if latest matches Some(index) && index >= leaf_index {
                    self.at(StageView::Fresh { leaf_index, root })
                } else {
                    self.at(StageView::Waiting)
                }
            },
            (StageView::Got { .. }, Event::Failed) => self.at(StageView::Waiting),
            (StageView::Fresh { leaf_index, .. }, Event::RootAcceptable(yes)) => {
                if yes {
                    self.at(StageView::Accepted { leaf_index })
                } else {
                    self.at(StageView::Waiting)
                }
            },
            (StageView::Fresh { .. }, Event::Failed) => self.at(StageView::Waiting),
            (StageView::Accepted { leaf_index }, Event::Enqueued) => self.at(
                StageView::Decided { decision: Decision::Submitted { leaf_index } },
            ),
            (StageView::Accepted { .. }, Event::Failed) => self.at(
                StageView::Halted { why: Fatal::ChannelClosed },
            ),
            (StageView::Decided { decision }, Event::Persisted) => ProcessorView {
                next: self.next + 1,
                stage: initial_stage(self.next + 1),
                processed: self.processed.push(Outcome { nonce: self.next as u32, decision }),
                ..self
            },
            (StageView::Decided { .. }, Event::Failed) => self.at(
                StageView::Halted { why: Fatal::StoreFailed },
            ),
            (StageView::Waiting, Event::Woke) => self.at(StageView::Start),
            _ => self,
        }
    }

    /// What the processor asks for in its stage.
    pub open spec fn action(self) -> ActionView {
        match self.stage {
            StageView::Start => ActionView::LoadMessage {
                destination: self.destination,
                nonce: self.next as u32,
            },
            StageView::Kept { leaf_index, .. } => ActionView::LoadProof { leaf_index },
            StageView::Got { .. } => ActionView::ReadCheckpoint,
            StageView::Fresh { root, .. } => ActionView::QueryAcceptableRoot { root },
            StageView::Accepted { leaf_index } => ActionView::Enqueue {
                op: SubmitMessageOp { leaf_index },
            },
            StageView::Decided { decision } => ActionView::PersistCursor {
                destination: self.destination,
                nonce: self.next as u32,
                decision,
            },
            StageView::Waiting => ActionView::Sleep { seconds: self.interval },
            StageView::Halted { why } => ActionView::Halt { why },
        }
    }

    /// What the try at the current nonce has come to, where it has come to
    /// anything: a decision moves the cursor on, a wait repeats the nonce.
    pub open spec fn flow(self) -> Option<Flow> {
        match self.stage {
            StageView::Decided { .. } => Some(Flow::Advance),
            StageView::Waiting => Some(Flow::Repeat),
            _ => None,
        }
    }
}

/// The processor of one destination.
pub struct MessageProcessor {
    destination: u32,
    interval: u64,
    policy: SenderPolicy,
    next_message_nonce: u64,
    stage: Stage,
    first: Ghost<nat>,
    processed: Ghost<Seq<Outcome>>,
}

impl View for MessageProcessor {
    type V = ProcessorView;

    closed spec fn view(&self) -> ProcessorView {
        ProcessorView {
            destination: self.destination,
            interval: self.interval,
            policy: self.policy,
            first: self.first@,
            next: self.next_message_nonce as nat,
            stage: self.stage@,
            processed: self.processed@,
        }
    }
}

impl MessageProcessor {
    /// A processor for `destination` that resumes from the stored cursor:
    /// at the nonce after the stored one, or at nonce 0 where none is stored.
    pub fn new(destination: u32, interval: u64, policy: SenderPolicy, stored: Option<u32>) -> (p:
        MessageProcessor)
        ensures
            p@.wf(),
            p@ == (ProcessorView {
                destination,
                interval,
                policy,
                first: resume_nonce(stored),
                next: resume_nonce(stored),
                stage: initial_stage(resume_nonce(stored)),
                processed: Seq::<Outcome>::empty(),
            }),
    {
        let next: u64 = match stored {
            Some(n) => n as u64 + 1,
            None => 0,
        };
        let stage = if next > u32::MAX as u64 {
            Stage::Halted { why: Fatal::NonceExhausted }
        } else {
            Stage::Start
        };
        MessageProcessor {
            destination,
            interval,
            policy,
            next_message_nonce: next,
            stage,
            first: Ghost(next as nat),
            processed: Ghost(Seq::empty()),
        }
    }

    /// The next nonce to deal with, if any is left.
    pub fn next_message_nonce(&self) -> (n: Option<u32>)
        ensures
            n == (if self@.next <= u32::MAX {
                Some(self@.next as u32)
            } else {
                None
            }),
    {
        if self.next_message_nonce <= u32::MAX as u64 {
            Some(self.next_message_nonce as u32)
        } else {
            None
        }
    }

    /// The nonce whose message tells the leaf index that was processed
    /// last: the one before `next_nonce`, and none before the first.
    pub fn last_processed_nonce(next_nonce: u32) -> (nonce: Option<u32>)
        ensures
            nonce == (if next_nonce == 0 {
                None
            } else {
                Some((next_nonce - 1) as u32)
            }),
    {
        if next_nonce == 0 {
            None
        } else {
            Some(next_nonce - 1)
        }
    }

    /// The leaf index of the message that was processed last, as reported
    /// when the processor starts: that of the message before `next_nonce`
    /// where the store holds it, and 0 otherwise.
    pub fn get_last_processed_message_leaf(next_nonce: u32, found: Option<&CommittedMessage>) -> (leaf:
        i64)
        ensures
            leaf == (if next_nonce == 0 {
                0int
            } else {
                match found {
                    Some(m) => m.leaf_index as int,
                    None => 0int,
                }
            }),
    {
        if next_nonce == 0 {
            return 0;
        }
        match found {
            Some(m) => m.leaf_index as i64,
            None => 0,
        }
    }

    /// What the try at the current nonce has come to, where it has come to
    /// anything.
    pub fn flow(&self) -> (f: Option<Flow>)
        ensures
            f == self@.flow(),
    {
        match self.stage {
            Stage::Decided { .. } => Some(Flow::Advance),
            Stage::Waiting => Some(Flow::Repeat),
            _ => None,
        }
    }

    /// What the caller is to do next.
    pub fn next_action(&self) -> (action: Action)
        requires
            self@.wf(),
        ensures
            action@ == self@.action(),
    {
        match self.stage {
            Stage::Start => Action::LoadMessage {
                destination: self.destination,
                nonce: self.next_message_nonce as u32,
            },
            Stage::Kept { leaf_index, .. } => Action::LoadProof { leaf_index },
            Stage::Got { .. } => Action::ReadCheckpoint,
            Stage::Fresh { root, .. } => Action::QueryAcceptableRoot { root },
            Stage::Accepted { leaf_index } => Action::Enqueue { op: SubmitMessageOp { leaf_index } },
            Stage::Decided { decision } => Action::PersistCursor {
                destination: self.destination,
                nonce: self.next_message_nonce as u32,
                decision,
            },
            Stage::Waiting => Action::Sleep { seconds: self.interval },
            Stage::Halted { why } => Action::Halt { why },
        }
    }

    /// Takes what came of the last action, and returns the next one.
    pub fn step(&mut self, event: &Event) -> (action: Action)
        requires
            old(self)@.wf(),
        ensures
            final(self)@.wf(),
            final(self)@ == old(self)@.after(*event),
            action@ == final(self)@.action(),
    {
        match (self.stage, event) {
            (Stage::Start, Event::Message(None)) => {
                self.stage = Stage::Waiting;
            },
            (Stage::Start, Event::Message(Some(m))) => {
                let verdict = self.policy.verdict(&m.message.sender);
                match verdict {
                    Verdict::Permitted => {
                        self.stage = Stage::Kept { leaf_index: m.leaf_index, leaf: m.to_leaf() };
                    },
                    _ => {
                        self.stage = Stage::Decided { decision: Decision::Skipped { verdict } };
                    },
                }
            },
            (Stage::Start, Event::Failed) => {
                self.stage = Stage::Halted { why: Fatal::StoreFailed };
            },
            (Stage::Kept { .. }, Event::Proof(None)) => {
                self.stage = Stage::Waiting;
            },
            (Stage::Kept { leaf_index, leaf }, Event::Proof(Some(p))) => {
                if p.leaf.same(&leaf) {
                    self.stage = Stage::Got { leaf_index, root: p.root() };
                } else {
                    self.stage = Stage::Halted { why: Fatal::LeafMismatch };
                }
            },
            (Stage::Kept { .. }, Event::Failed) => {
                self.stage = Stage::Halted { why: Fatal::StoreFailed };
            },
            (Stage::Got { leaf_index, root }, Event::Checkpoint(latest)) => {
                let covered = match latest {
                    Some(index) => *index >= leaf_index,
                    None => false,
                };
                if covered {
                    self.stage = Stage::Fresh { leaf_index, root };
                } else {
                    self.stage = Stage::Waiting;
                }
            },
            (Stage::Got { .. }, Event::Failed) => {
                self.stage = Stage::Waiting;
            },
            (Stage::Fresh { leaf_index, .. }, Event::RootAcceptable(yes)) => {
                if *yes {
                    self.stage = Stage::Accepted { leaf_index };
                } else {
                    self.stage = Stage::Waiting;
                }
            },
            (Stage::Fresh { .. }, Event::Failed) => {
                self.stage = Stage::Waiting;
            },
            (Stage::Accepted { leaf_index }, Event::Enqueued) => {
                self.stage = Stage::Decided { decision: Decision::Submitted { leaf_index } };
            },
            (Stage::Accepted { .. }, Event::Failed) => {
                self.stage = Stage::Halted { why: Fatal::ChannelClosed };
            },
            (Stage::Decided { decision }, Event::Persisted) => {
                let ghost done = Outcome { nonce: self.next_message_nonce as u32, decision };
                self.processed = Ghost(self.processed@.push(done));
                self.next_message_nonce = self.next_message_nonce + 1;
                if self.next_message_nonce > u32::MAX as u64 {
                    self.stage = Stage::Halted { why: Fatal::NonceExhausted };
                } else {
                    self.stage = Stage::Start;
                }
            },
            (Stage::Decided { .. }, Event::Failed) => {
                self.stage = Stage::Halted { why: Fatal::StoreFailed };
            },
            (Stage::Waiting, Event::Woke) => {
                self.stage = Stage::Start;
            },
            _ => {},
        }
        self.next_action()
    }
}

/// The processor after a sequence of events, the first of them first.
pub open spec fn run(start: ProcessorView, events: Seq<Event>) -> ProcessorView
    decreases events.len(),
{
    if events.len() == 0 {
        start
    } else {
        run(start, events.drop_last()).after(events.last())
    }
}

/// What of a processor decides its future: all but the record of its past.
/// Of the sender policy it holds the senders that each list names.
pub struct Core {
    pub destination: u32,
    pub interval: u64,
    pub allowed: Option<Seq<H256>>,
    pub denied: Option<Seq<H256>>,
    pub next: nat,
    pub stage: StageView,
}

/// The senders that a list of the policy names, if the list is there.
pub open spec fn named(list: Option<Vec<H256>>) -> Option<Seq<H256>> {
    match list {
        Some(l) => Some(l@),
        None => None,
    }
}

/// The part of a processor that decides its future.
pub open spec fn core_of(p: ProcessorView) -> Core {
    Core {
        destination: p.destination,
        interval: p.interval,
        allowed: named(p.policy.allowed),
        denied: named(p.policy.denied),
        next: p.next,
        stage: p.stage,
    }
}

/// Two policies that name the same senders give the same verdict on every
/// sender.
pub proof fn law_same_senders_same_verdict(a: SenderPolicy, b: SenderPolicy, sender: Seq<u8>)
    requires
        named(a.allowed) == named(b.allowed),
        named(a.denied) == named(b.denied),
    ensures
        a.verdict_of(sender) == b.verdict_of(sender),
{
}

/// A processor that is started anew on the cursor that `p` persisted last.
pub open spec fn restarted(p: ProcessorView, stored: Option<u32>) -> ProcessorView {
    ProcessorView {
        first: resume_nonce(stored),
        next: resume_nonce(stored),
        stage: initial_stage(resume_nonce(stored)),
        processed: Seq::<Outcome>::empty(),
        ..p
    }
}

/// No event breaks the record of the nonces dealt with.
pub proof fn law_step_keeps_order(p: ProcessorView, event: Event)
    requires
        p.wf(),
    ensures
        p.after(event).wf(),
{
}

/// The cursor moves by one nonce at a time, and only when a decided nonce
/// has been persisted; that nonce then joins the record with its decision.
pub proof fn law_cursor_moves_on_persisted_decisions(p: ProcessorView, event: Event)
    requires
        p.wf(),
    ensures
        p.after(event).next == p.next || p.after(event).next == p.next + 1,
        p.after(event).next == p.next + 1 ==> event is Persisted && (p.stage matches StageView::Decided {
            decision,
        } && p.after(event).processed == p.processed.push(
            Outcome { nonce: p.next as u32, decision },
        )),
        p.after(event).next == p.next ==> p.after(event).processed == p.processed,
{
}

/// A nonce is decided only with its message in hand: either the sender
/// policy refuses the message that was loaded, or the message was handed to
/// the submitter.
pub proof fn law_decision_needs_message(p: ProcessorView, event: Event)
    requires
        !(p.stage is Decided),
        p.after(event).stage is Decided,
    ensures
        ({
            &&& p.stage is Start
            &&& event matches Event::Message(Some(m))
            &&& p.policy.verdict_of(m.message.sender@) != Verdict::Permitted
            &&& p.after(event).stage == StageView::Decided {
                decision: Decision::Skipped { verdict: p.policy.verdict_of(m.message.sender@) },
            }
        }) || ({
            &&& p.stage matches StageView::Accepted { leaf_index }
            &&& event is Enqueued
            &&& p.after(event).stage == StageView::Decided {
                decision: Decision::Submitted { leaf_index },
            }
        }),
{
}

/// A message reaches the submitter only by the whole way: it was loaded and
/// permitted, its proof was loaded and is for its leaf, a checkpoint covers
/// the leaf, and the inbox said that it accepts the proof's root.
pub proof fn law_submission_needs_every_gate(p: ProcessorView, event: Event)
    ensures
        (p.after(event).stage is Accepted && !(p.stage is Accepted)) ==> {
            &&& p.stage is Fresh
            &&& p.stage->Fresh_leaf_index == p.after(event).stage->Accepted_leaf_index
            &&& event == Event::RootAcceptable(true)
        },
        (p.after(event).stage is Fresh && !(p.stage is Fresh)) ==> {
            &&& p.stage is Got
            &&& p.stage->Got_leaf_index == p.after(event).stage->Fresh_leaf_index
            &&& p.stage->Got_root == p.after(event).stage->Fresh_root
            &&& event matches Event::Checkpoint(Some(index))
            &&& index >= p.stage->Got_leaf_index
        },
        (p.after(event).stage is Got && !(p.stage is Got)) ==> {
            &&& p.stage is Kept
            &&& p.stage->Kept_leaf_index == p.after(event).stage->Got_leaf_index
            &&& event matches Event::Proof(Some(proof))
            &&& proof.leaf@ == p.stage->Kept_leaf
            &&& proof.spec_root() == p.after(event).stage->Got_root
        },
        (p.after(event).stage is Kept && !(p.stage is Kept)) ==> {
            &&& p.stage is Start
            &&& event matches Event::Message(Some(m))
            &&& m.leaf_index == p.after(event).stage->Kept_leaf_index
            &&& m.leaf() == p.after(event).stage->Kept_leaf
            &&& p.policy.verdict_of(m.message.sender@) == Verdict::Permitted
        },
{
}

/// A checkpoint whose index is exactly the leaf's index covers the leaf.
pub proof fn law_checkpoint_at_leaf_index_covers(p: ProcessorView)
    requires
        p.stage is Got,
    ensures
        p.after(Event::Checkpoint(Some(p.stage->Got_leaf_index))).stage == (StageView::Fresh {
            leaf_index: p.stage->Got_leaf_index,
            root: p.stage->Got_root,
        }),
{
}

/// Over any sequence of events the cursor never goes back, and the record
/// stays in order.
pub proof fn law_cursor_never_goes_back(start: ProcessorView, events: Seq<Event>)
    requires
        start.wf(),
    ensures
        run(start, events).wf(),
        run(start, events).next >= start.next,
        run(start, events).first == start.first,
        run(start, events).destination == start.destination,
    decreases events.len(),
{
    if events.len() > 0 {
        law_cursor_never_goes_back(start, events.drop_last());
        law_step_keeps_order(run(start, events.drop_last()), events.last());
    }
}

/// The nonces that the cursor has moved past are on record in ascending
/// order, none left out: what went to the submitter went there in the order
/// of the nonces.
pub proof fn law_nonces_dealt_with_in_order(p: ProcessorView, i: int, j: int)
    requires
        p.wf(),
        0 <= i < j < p.processed.len(),
    ensures
        p.processed[i].nonce < p.processed[j].nonce,
        p.processed[j].nonce - p.processed[i].nonce == j - i,
{
}

/// A processor started anew on the cursor that was persisted stands where
/// the one that ran on stands after persisting: at the nonce after the
/// stored one.
pub proof fn law_restart_resumes_after_stored_nonce(p: ProcessorView)
    requires
        p.wf(),
        p.stage is Decided,
    ensures
        p.action() == (ActionView::PersistCursor {
            destination: p.destination,
            nonce: p.next as u32,
            decision: p.stage->Decided_decision,
        }),
        core_of(restarted(p, Some(p.next as u32))) == core_of(p.after(Event::Persisted)),
        restarted(p, Some(p.next as u32)).wf(),
{
}

/// Two processors that agree in all but the record of their past ask for the
/// same actions and, given the same events, go on agreeing: a restart
/// changes nothing of what is done.
pub proof fn law_same_core_same_future(a: ProcessorView, b: ProcessorView, events: Seq<Event>)
    requires
        core_of(a) == core_of(b),
    ensures
        core_of(run(a, events)) == core_of(run(b, events)),
        run(a, events).action() == run(b, events).action(),
    decreases events.len(),
{
    if events.len() > 0 {
        law_same_core_same_future(a, b, events.drop_last());
        let before_a = run(a, events.drop_last());
        let before_b = run(b, events.drop_last());
        match events.last() {
            Event::Message(Some(m)) => {
                law_same_senders_same_verdict(
                    before_a.policy,
                    before_b.policy,
                    m.message.sender@,
                );
            },
            _ => {},
        }
    }
}

/// A message that was missed at an earlier try is dealt with at a later one
/// as if there had been no miss: a processor that wakes from its wait, finds
/// the message permitted, its proof for its leaf, a checkpoint that covers
/// the leaf and the proof's root accepted, and gets the operation to the
/// submitter, has decided the nonce by handing the message over.
pub proof fn law_earlier_miss_is_not_remembered(
    p: ProcessorView,
    m: CommittedMessage,
    proof: Proof,
    checkpoint: u32,
)
    requires
        p.stage is Waiting,
        p.policy.verdict_of(m.message.sender@) == Verdict::Permitted,
        proof.leaf@ == m.leaf(),
        checkpoint >= m.leaf_index,
    ensures
        run(
            p,
            seq![
                Event::Woke,
                Event::Message(Some(m)),
                Event::Proof(Some(proof)),
                Event::Checkpoint(Some(checkpoint)),
                Event::RootAcceptable(true),
                Event::Enqueued,
            ],
        ) == p.at(
            StageView::Decided { decision: Decision::Submitted { leaf_index: m.leaf_index } },
        ),
        p.at(
            StageView::Decided { decision: Decision::Submitted { leaf_index: m.leaf_index } },
        ).flow() == Some(Flow::Advance),
{
    let events = seq![
        Event::Woke,
        Event::Message(Some(m)),
        Event::Proof(Some(proof)),
        Event::Checkpoint(Some(checkpoint)),
        Event::RootAcceptable(true),
        Event::Enqueued,
    ];
    let e5 = events.drop_last();
    let e4 = e5.drop_last();
    let e3 = e4.drop_last();
    let e2 = e3.drop_last();
    let e1 = e2.drop_last();
    let e0 = e1.drop_last();
    assert(e0.len() == 0);
    assert(run(p, e0) == p);
    assert(e1.last() == Event::Woke);
    assert(run(p, e1) == p.at(StageView::Start));
    assert(e2.last() == Event::Message(Some(m)));
    assert(run(p, e2) == p.at(StageView::Kept { leaf_index: m.leaf_index, leaf: m.leaf() }));
    assert(e3.last() == Event::Proof(Some(proof)));
    assert(run(p, e3) == p.at(
        StageView::Got { leaf_index: m.leaf_index, root: proof.spec_root() },
    ));
    assert(e4.last() == Event::Checkpoint(Some(checkpoint)));
    assert(run(p, e4) == p.at(
        StageView::Fresh { leaf_index: m.leaf_index, root: proof.spec_root() },
    ));
    assert(e5.last() == Event::RootAcceptable(true));
    assert(run(p, e5) == p.at(StageView::Accepted { leaf_index: m.leaf_index }));
    assert(events.last() == Event::Enqueued);
}

} // verus!
