//! The serial submitter: it takes the operations that the processors hand
//! over and sees each message through to the inbox, one at a time, retrying
//! what cannot be done yet.
//!
//! The submitter decides; its caller performs. `poll` names what is to be
//! done, and `step` takes what came of it.
//!
//! For each operation the submitter reads message and proof anew, checks
//! that the gas is paid where that is enforced, asks the inbox whether the
//! message is processed already, waits for a checkpoint that covers the
//! leaf, and asks the inbox whether it accepts the proof's root. Only then
//! does it ask for the delivery, which is made under the checkpoint that is
//! the latest at that moment. Whatever cannot be done yet puts the operation
//! back to the tail of the queue, with a wait that doubles from retry to
//! retry up to a cap. A delivery that reverts is tried again until the
//! limit of reverts is reached; then the operation is given up and counted.

use vstd::prelude::*;
use crate::accumulator::Proof;
use crate::message::CommittedMessage;
use crate::primitives::H256;

verus! {

/// The order to deliver the message at one leaf. It names the leaf only: the
/// submitter reads message and proof from the store when it acts, so an
/// operation that arrives twice does no harm.
#[derive(Clone, Copy, Debug, PartialEq, Eq, Structural)]
pub struct SubmitMessageOp {
    pub leaf_index: u32,
}

impl Default for SubmitMessageOp {
    fn default() -> (op: SubmitMessageOp)
        ensures
            op.leaf_index == 0,
    {
        SubmitMessageOp { leaf_index: 0 }
    }
}

/// What the inbox knows of a message.
#[derive(Clone, Copy, Debug, PartialEq, Eq, Structural)]
pub enum MessageStatus {
    /// The inbox has not seen the message.
    Unseen,
    /// The message's inclusion is proven to the inbox.
    Proven,
    /// The message was delivered.
    Processed,
}

/// The longest wait between two tries at one operation, in seconds.
pub const MAX_BACKOFF_SECS: u64 = 600;

/// How many operations the submitter holds, where the settings do not say.
pub const DEFAULT_CAPACITY: usize = 1000;

/// How the submitter retries.
#[derive(Clone, Copy, Debug, PartialEq, Eq, Structural)]
pub struct SubmitterConfig {
    /// The wait before the first retry, in seconds.
    pub base_backoff_secs: u64,
    /// The longest wait before a retry, in seconds.
    pub max_backoff_secs: u64,
    /// After so many reverted deliveries an operation is given up.
    pub max_reverts: u32,
    /// How many operations the submitter holds at most.
    pub capacity: usize,
    /// Whether a message must have its gas paid for before it is delivered.
    pub enforce_gas_payment: bool,
}

/// The wait before retry number `retries + 1`: the base wait, doubled with
/// each retry before it, and never above the cap.
pub open spec fn backoff_secs(base: u64, cap: u64, retries: nat) -> nat
    decreases retries,
{
    if retries == 0 {
        if base <= cap {
            base as nat
        } else {
            cap as nat
        }
    } else {
        let before = backoff_secs(base, cap, (retries - 1) as nat);
        if 2 * before <= cap {
            2 * before
        } else {
            cap as nat
        }
    }
}

/// The wait never exceeds the cap, however often an operation was put back.
pub proof fn law_backoff_never_exceeds_cap(base: u64, cap: u64, retries: nat)
    ensures
        backoff_secs(base, cap, retries) <= cap,
    decreases retries,
{
    if retries > 0 {
        law_backoff_never_exceeds_cap(base, cap, (retries - 1) as nat);
    }
}

/// Once the wait has reached the cap it stays there.
pub proof fn lemma_backoff_stays_at_cap(base: u64, cap: u64, reached: nat, retries: nat)
    requires
        backoff_secs(base, cap, reached) == cap,
        reached <= retries,
    ensures
        backoff_secs(base, cap, retries) == cap,
    decreases retries,
{
    if retries > reached {
        lemma_backoff_stays_at_cap(base, cap, reached, (retries - 1) as nat);
    }
}

/// A wait of zero stays zero.
pub proof fn lemma_backoff_zero(base: u64, cap: u64, reached: nat, retries: nat)
    requires
        backoff_secs(base, cap, reached) == 0,
        reached <= retries,
    ensures
        backoff_secs(base, cap, retries) == 0,
    decreases retries,
{
    if retries > reached {
        lemma_backoff_zero(base, cap, reached, (retries - 1) as nat);
    }
}

/// Computes the wait before retry number `retries + 1`.
pub fn backoff(base: u64, cap: u64, retries: u32) -> (secs: u64)
    ensures
        secs == backoff_secs(base, cap, retries as nat),
{
    let mut secs: u64 = if base <= cap {
        base
    } else {
        cap
    };
    let mut done: u32 = 0;
    while done < retries
        invariant
            done <= retries,
            secs <= cap,
            secs == backoff_secs(base, cap, done as nat),
        decreases retries - done,
    {
        if secs == cap {
            proof {
                lemma_backoff_stays_at_cap(base, cap, done as nat, retries as nat);
            }
            return secs;
        }
        if secs == 0 {
            proof {
                lemma_backoff_zero(base, cap, done as nat, retries as nat);
            }
            return secs;
        }
        secs = if secs <= cap / 2 {
            2 * secs
        } else {
            cap
        };
        done = done + 1;
    }
    secs
}

/// An operation in the submitter's queue.
#[derive(Clone, Copy, Debug, PartialEq, Eq, Structural)]
pub struct QueuedOp {
    /// The operation.
    pub op: SubmitMessageOp,
    /// How often it was put back.
    pub retries: u32,
    /// How often its delivery reverted.
    pub reverts: u32,
    /// The time, in seconds, before which it is not tried again.
    pub not_before: u64,
}

/// How far the submitter has come with the operation in hand.
#[derive(Clone, Copy, Debug, PartialEq, Eq, Structural)]
pub enum Phase {
    /// Message and proof are to be read from the store.
    Loading,
    /// The gas payment is to be checked.
    CheckingPayment,
    /// The inbox is to be asked what it knows of the message.
    CheckingStatus,
    /// The latest multisig checkpoint is to be read.
    NeedCheckpoint,
    /// The inbox is to be asked whether it accepts the proof's root.
    CheckingRoot,
    /// The message is to be delivered.
    Submitting,
}

/// Why the submitter stopped for good.
#[derive(Clone, Copy, Debug, PartialEq, Eq, Structural)]
pub enum SubmitFatal {
    /// The stored proof is for another leaf than the stored message.
    LeafMismatch,
}

/// The operation in hand.
#[derive(Clone, Copy, Debug)]
pub struct Job {
    /// The operation as it was taken from the queue.
    pub item: QueuedOp,
    /// How far the submitter has come with it.
    pub phase: Phase,
    /// The message's leaf, once message and proof are read.
    pub leaf: H256,
    /// The root that the proof leads to, once message and proof are read.
    pub root: H256,
    /// The index of the checkpoint under which the message is delivered,
    /// once the latest checkpoint is read.
    pub checkpoint_index: u32,
}

/// The operation in hand as the contracts speak of it.
pub struct JobView {
    pub item: QueuedOp,
    pub phase: Phase,
    pub leaf: Seq<u8>,
    pub root: Seq<u8>,
    pub checkpoint_index: u32,
}

impl View for Job {
    type V = JobView;

    open spec fn view(&self) -> JobView {
        JobView {
            item: self.item,
            phase: self.phase,
            leaf: self.leaf@,
            root: self.root@,
            checkpoint_index: self.checkpoint_index,
        }
    }
}

/// What the submitter asks its caller to do.
#[derive(Clone, Copy, Debug, PartialEq, Eq)]
pub enum SubmitAction {
    /// Nothing is queued: wait for an operation and hand it to `receive`.
    AwaitOp,
    /// The operation at the head is not due: sleep for so many seconds.
    Sleep { seconds: u64 },
    /// Read the message and the proof of this leaf from the store.
    Load { leaf_index: u32 },
    /// Ask whether the gas for the message at this leaf is paid.
    CheckGasPayment { leaf_index: u32 },
    /// Ask the inbox what it knows of the message with this leaf.
    QueryMessageStatus { leaf: H256 },
    /// Read the latest multisig checkpoint.
    ReadCheckpoint,
    /// Ask the inbox whether it accepts this root.
    QueryAcceptableRoot { root: H256 },
    /// Deliver the message at this leaf under the checkpoint that was read
    /// last, which has this index, with the proof that leads to this root.
    Process { leaf_index: u32, root: H256, checkpoint_index: u32 },
    /// Stop, and report why.
    Halt { why: SubmitFatal },
}

/// An action as the contracts speak of it.
pub enum SubmitActionView {
    AwaitOp,
    Sleep { seconds: u64 },
    Load { leaf_index: u32 },
    CheckGasPayment { leaf_index: u32 },
    QueryMessageStatus { leaf: Seq<u8> },
    ReadCheckpoint,
    QueryAcceptableRoot { root: Seq<u8> },
    Process { leaf_index: u32, root: Seq<u8>, checkpoint_index: u32 },
    Halt { why: SubmitFatal },
}

impl View for SubmitAction {
    type V = SubmitActionView;

    open spec fn view(&self) -> SubmitActionView {
        match *self {
            SubmitAction::AwaitOp => SubmitActionView::AwaitOp,
            SubmitAction::Sleep { seconds } => SubmitActionView::Sleep { seconds },
            SubmitAction::Load { leaf_index } => SubmitActionView::Load { leaf_index },
            SubmitAction::CheckGasPayment { leaf_index } => SubmitActionView::CheckGasPayment {
                leaf_index,
            },
            SubmitAction::QueryMessageStatus { leaf } => SubmitActionView::QueryMessageStatus {
                leaf: leaf@,
            },
            SubmitAction::ReadCheckpoint => SubmitActionView::ReadCheckpoint,
            SubmitAction::QueryAcceptableRoot { root } => SubmitActionView::QueryAcceptableRoot {
                root: root@,
            },
            SubmitAction::Process { leaf_index, root, checkpoint_index } => {
                SubmitActionView::Process { leaf_index, root: root@, checkpoint_index }
            },
            SubmitAction::Halt { why } => SubmitActionView::Halt { why },
        }
    }
}

/// What came of the action that the submitter asked for.
#[derive(Clone, Debug)]
pub enum SubmitEvent {
    /// What the store holds for the leaf.
    Loaded { message: Option<CommittedMessage>, proof: Option<Proof> },
    /// Whether the gas is paid.
    GasPaid(bool),
    /// What the inbox knows of the message.
    Status(MessageStatus),
    /// The index of the latest multisig checkpoint, if there is one.
    Checkpoint(Option<u32>),
    /// Whether the inbox accepts the root.
    RootAcceptable(bool),
    /// The delivery was mined; `executed` says whether it took effect.
    Outcome { executed: bool },
    /// The action could not be performed.
    Failed,
}

/// The submitter as the contracts speak of it.
pub struct SubmitterView {
    pub config: SubmitterConfig,
    /// The operations that wait, the next one first.
    pub queue: Seq<QueuedOp>,
    /// The operation in hand.
    pub current: Option<JobView>,
    /// Why the submitter stopped, if it did.
    pub halted: Option<SubmitFatal>,
    /// How many messages this submitter delivered.
    pub delivered: nat,
    /// How many operations were given up after too many reverts.
    pub dropped: nat,
}

/// An operation as it goes back to the queue at time `now`.
pub open spec fn put_back(config: SubmitterConfig, item: QueuedOp, reverted: bool, now: u64) -> QueuedOp {
    let wait = backoff_secs(config.base_backoff_secs, config.max_backoff_secs, item.retries as nat);
    QueuedOp {
        op: item.op,
        retries: if item.retries < u32::MAX {
            (item.retries + 1) as u32
        } else {
            item.retries
        },
        reverts: if reverted && item.reverts < u32::MAX {
            (item.reverts + 1) as u32
        } else {
            item.reverts
        },
        not_before: if now + wait <= u64::MAX {
            (now + wait) as u64
        } else {
            u64::MAX
        },
    }
}

impl SubmitterView {
    /// How many operations the submitter holds.
    pub open spec fn load(self) -> nat {
        self.queue.len() + (if self.current is Some {
            1nat
        } else {
            0nat
        })
    }

    /// The submitter holds no more than its capacity.
    pub open spec fn wf(self) -> bool {
        self.load() <= self.config.capacity
    }

    /// The submitter with the operation in hand put back to the tail of the
    /// queue.
    pub open spec fn retried(self, reverted: bool, now: u64) -> SubmitterView {
        SubmitterView {
            queue: self.queue.push(put_back(self.config, self.current->0.item, reverted, now)),
            current: None,
            ..self
        }
    }

    /// The submitter with the operation in hand in another phase.
    pub open spec fn moved(self, phase: Phase) -> SubmitterView {
        SubmitterView { current: Some(JobView { phase, ..self.current->0 }), ..self }
    }

    /// The submitter after `receive`.
    pub open spec fn received(self, op: SubmitMessageOp) -> SubmitterView {
        if self.load() < self.config.capacity {
            SubmitterView {
                queue: self.queue.push(QueuedOp { op, retries: 0, reverts: 0, not_before: 0 }),
                ..self
            }
        } else {
            self
        }
    }

    /// The submitter after `poll` at time `now`: an idle submitter takes the
    /// operation at the head of the queue in hand, if it is due.
    pub open spec fn polled(self, now: u64) -> SubmitterView {
        if self.halted is None && self.current is None && self.queue.len() > 0
            && self.queue[0].not_before <= now {
            SubmitterView {
                queue: self.queue.drop_first(),
                current: Some(
                    JobView {
                        item: self.queue[0],
                        phase: Phase::Loading,
                        leaf: crate::primitives::zero_word(),
                        root: crate::primitives::zero_word(),
                        checkpoint_index: 0,
                    },
                ),
                ..self
            }
        } else {
            self
        }
    }

    /// What the submitter asks for at time `now`.
    pub open spec fn action(self, now: u64) -> SubmitActionView {
        match (self.halted, self.current) {
            (Some(why), _) => SubmitActionView::Halt { why },
            (None, Some(job)) => match job.phase {
                Phase::Loading => SubmitActionView::Load { leaf_index: job.item.op.leaf_index },
                Phase::CheckingPayment => SubmitActionView::CheckGasPayment {
                    leaf_index: job.item.op.leaf_index,
                },
                Phase::CheckingStatus => SubmitActionView::QueryMessageStatus { leaf: job.leaf },
                Phase::NeedCheckpoint => SubmitActionView::ReadCheckpoint,
                Phase::CheckingRoot => SubmitActionView::QueryAcceptableRoot { root: job.root },
                Phase::Submitting => SubmitActionView::Process {
                    leaf_index: job.item.op.leaf_index,
                    root: job.root,
                    checkpoint_index: job.checkpoint_index,
                },
            },
            (None, None) => if self.queue.len() == 0 {
                SubmitActionView::AwaitOp
            } else {
                SubmitActionView::Sleep {
                    seconds: if self.queue[0].not_before > now {
                        (self.queue[0].not_before - now) as u64
                    } else {
                        0
                    },
                }
            },
        }
    }

    /// The submitter after an event at time `now`.
    pub open spec fn after(self, event: SubmitEvent, now: u64) -> SubmitterView {
        if self.halted is Some || self.current is None {
            self
        } else {
            let job = self.current->0;
            match (job.phase, event) {
                (_, SubmitEvent::Failed) => self.retried(false, now),
                (Phase::Loading, SubmitEvent::Loaded { message: Some(m), proof: Some(p) }) => {
                    if p.leaf@ != m.leaf() {
                        SubmitterView { halted: Some(SubmitFatal::LeafMismatch), ..self }
                    } else {
                        SubmitterView {
                            current: Some(
                                JobView {
                                    item: job.item,
                                    phase: if self.config.enforce_gas_payment {
                                        Phase::CheckingPayment
                                    } else {
                                        Phase::CheckingStatus
                                    },
                                    leaf: m.leaf(),
                                    root: p.spec_root(),
                                    checkpoint_index: 0,
                                },
                            ),
                            ..self
                        }
                    }
                },
                (Phase::Loading, SubmitEvent::Loaded { .. }) => self.retried(false, now),
                (Phase::CheckingPayment, SubmitEvent::GasPaid(paid)) => {
                    if paid {
                        self.moved(Phase::CheckingStatus)
                    } else {
                        self.retried(false, now)
                    }
                },
                (Phase::CheckingStatus, SubmitEvent::Status(status)) => {
                    if status == MessageStatus::Processed {
                        SubmitterView { current: None, ..self }
                    } else {
                        self.moved(Phase::NeedCheckpoint)
                    }
                },
                (Phase::NeedCheckpoint, SubmitEvent::Checkpoint(latest)) => {
                    match latest {
                        Some(index) => if index >= job.item.op.leaf_index {
                            SubmitterView {
                                current: Some(
                                    JobView {
                                        phase: Phase::CheckingRoot,
                                        checkpoint_index: index,
                                        ..job
                                    },
                                ),
                                ..self
                            }
                        } else {
                            self.retried(false, now)
                        },
                        None => self.retried(false, now),
                    }
                },
                (Phase::CheckingRoot, SubmitEvent::RootAcceptable(yes)) => {
                    if yes {
                        self.moved(Phase::Submitting)
                    } else {
                        self.retried(false, now)
                    }
                },
                (Phase::Submitting, SubmitEvent::Outcome { executed }) => {
                    if executed {
                        SubmitterView { current: None, delivered: self.delivered + 1, ..self }
                    } else if job.item.reverts + 1 >= self.config.max_reverts {
                        SubmitterView { current: None, dropped: self.dropped + 1, ..self }
                    } else {
                        self.retried(true, now)
                    }
                },
                _ => self,
            }
        }
    }
}

/// The serial submitter of one destination.
pub struct SerialSubmitter {
    config: SubmitterConfig,
    queue: Vec<QueuedOp>,
    current: Option<Job>,
    halted: Option<SubmitFatal>,
    delivered: u64,
    dropped: u64,
    delivered_total: Ghost<nat>,
    dropped_total: Ghost<nat>,
}

impl View for SerialSubmitter {
    type V = SubmitterView;

    closed spec fn view(&self) -> SubmitterView {
        SubmitterView {
            config: self.config,
            queue: self.queue@,
            current: match self.current {
                Some(job) => Some(job@),
                None => None,
            },
            halted: self.halted,
            delivered: self.delivered_total@,
            dropped: self.dropped_total@,
        }
    }
}

impl SerialSubmitter {
    /// The counters hold the totals as far as they can count.
    pub closed spec fn wf(&self) -> bool {
        &&& self@.wf()
        &&& self.delivered == (if self.delivered_total@ <= u64::MAX {
            self.delivered_total@
        } else {
            u64::MAX as nat
        })
        &&& self.dropped == (if self.dropped_total@ <= u64::MAX {
            self.dropped_total@
        } else {
            u64::MAX as nat
        })
    }

    /// A submitter that holds nothing.
    pub fn new(config: SubmitterConfig) -> (s: SerialSubmitter)
        ensures
            s.wf(),
            s@ == (SubmitterView {
                config,
                queue: Seq::<QueuedOp>::empty(),
                current: None,
                halted: None,
                delivered: 0,
                dropped: 0,
            }),
    {
        SerialSubmitter {
            config,
            queue: Vec::new(),
            current: None,
            halted: None,
            delivered: 0,
            dropped: 0,
            delivered_total: Ghost(0),
            dropped_total: Ghost(0),
        }
    }

    /// How many operations wait in the queue.
    pub fn queue_length(&self) -> (n: usize)
        ensures
            n == self@.queue.len(),
    {
        self.queue.len()
    }

    /// How many messages this submitter delivered; the count stays at its
    /// highest value once it is reached.
    pub fn messages_processed_count(&self) -> (n: u64)
        requires
            self.wf(),
        ensures
            n == (if self@.delivered <= u64::MAX {
                self@.delivered
            } else {
                u64::MAX as nat
            }),
    {
        self.delivered
    }

    /// How many operations were given up after too many reverts; the count
    /// stays at its highest value once it is reached.
    pub fn dropped_count(&self) -> (n: u64)
        requires
            self.wf(),
        ensures
            n == (if self@.dropped <= u64::MAX {
                self@.dropped
            } else {
                u64::MAX as nat
            }),
    {
        self.dropped
    }

    /// Takes an operation from a processor to the tail of the queue. A
    /// submitter that holds as many operations as it can takes none: the
    /// result says whether the operation was taken.
    pub fn receive(&mut self, op: SubmitMessageOp) -> (taken: bool)
        requires
            old(self).wf(),
        ensures
            final(self).wf(),
            taken == (old(self)@.load() < old(self)@.config.capacity),
            final(self)@ == old(self)@.received(op),
    {
        let busy: usize = if self.current.is_some() {
            1
        } else {
            0
        };
        if self.queue.len() + busy < self.config.capacity {
            self.queue.push(QueuedOp { op, retries: 0, reverts: 0, not_before: 0 });
            true
        } else {
            false
        }
    }

    /// Says what the caller is to do at time `now`. An idle submitter first
    /// takes the operation at the head of the queue in hand, if it is due.
    pub fn poll(&mut self, now: u64) -> (action: SubmitAction)
        requires
            old(self).wf(),
        ensures
            final(self).wf(),
            final(self)@ == old(self)@.polled(now),
            action@ == final(self)@.action(now),
    {
        if self.halted.is_none() && self.current.is_none() && self.queue.len() > 0 {
            if self.queue[0].not_before <= now {
                let item = self.queue.remove(0);
                self.current = Some(
                    Job {
                        item,
                        phase: Phase::Loading,
                        leaf: H256::zero(),
                        root: H256::zero(),
                        checkpoint_index: 0,
                    },
                );
                assert(self.queue@ =~= old(self).queue@.drop_first());
            }
        }
        self.action_at(now)
    }

    /// What the submitter asks for at time `now`, as it stands.
    fn action_at(&self, now: u64) -> (action: SubmitAction)
        ensures
            action@ == self@.action(now),
    {
        match self.halted {
            Some(why) => {
                return SubmitAction::Halt { why };
            },
            None => {},
        }
        match self.current {
            Some(job) => match job.phase {
                Phase::Loading => SubmitAction::Load { leaf_index: job.item.op.leaf_index },
                Phase::CheckingPayment => SubmitAction::CheckGasPayment {
                    leaf_index: job.item.op.leaf_index,
                },
                Phase::CheckingStatus => SubmitAction::QueryMessageStatus { leaf: job.leaf },
                Phase::NeedCheckpoint => SubmitAction::ReadCheckpoint,
                Phase::CheckingRoot => SubmitAction::QueryAcceptableRoot { root: job.root },
                Phase::Submitting => SubmitAction::Process {
                    leaf_index: job.item.op.leaf_index,
                    root: job.root,
                    checkpoint_index: job.checkpoint_index,
                },
            },
            None => {
                if self.queue.len() == 0 {
                    SubmitAction::AwaitOp
                } else {
                    let due = self.queue[0].not_before;
                    SubmitAction::Sleep {
                        seconds: if due > now {
                            due - now
                        } else {
                            0
                        },
                    }
                }
            },
        }
    }

    /// Puts the operation in hand back to the tail of the queue.
    fn retry(&mut self, job: Job, reverted: bool, now: u64)
        requires
            old(self).wf(),
            old(self).current == Some(job),
        ensures
            final(self).wf(),
            final(self)@ == old(self)@.retried(reverted, now),
    {
        let item = job.item;
        let wait = backoff(self.config.base_backoff_secs, self.config.max_backoff_secs, item.retries);
        let again = QueuedOp {
            op: item.op,
            retries: if item.retries < u32::MAX {
                item.retries + 1
            } else {
                item.retries
            },
            reverts: if reverted && item.reverts < u32::MAX {
                item.reverts + 1
            } else {
                item.reverts
            },
            not_before: if wait <= u64::MAX - now {
                now + wait
            } else {
                u64::MAX
            },
        };
        self.queue.push(again);
        self.current = None;
    }

    /// Takes what came of the last action at time `now`.
    pub fn step(&mut self, event: &SubmitEvent, now: u64)
        requires
            old(self).wf(),
        ensures
            final(self).wf(),
            final(self)@ == old(self)@.after(*event, now),
    {
        if self.halted.is_some() {
            return ;
        }
        let job = match self.current {
            Some(job) => job,
            None => {
                return ;
            },
        };
        match (job.phase, event) {
            (_, SubmitEvent::Failed) => {
                self.retry(job, false, now);
            },
            (Phase::Loading, SubmitEvent::Loaded { message: Some(m), proof: Some(p) }) => {
                let leaf = m.to_leaf();
                if !p.leaf.same(&leaf) {
                    self.halted = Some(SubmitFatal::LeafMismatch);
                } else {
                    let phase = if self.config.enforce_gas_payment {
                        Phase::CheckingPayment
                    } else {
                        Phase::CheckingStatus
                    };
                    self.current = Some(
                        Job { item: job.item, phase, leaf, root: p.root(), checkpoint_index: 0 },
                    );
                }
            },
            (Phase::Loading, SubmitEvent::Loaded { .. }) => {
                self.retry(job, false, now);
            },
            (Phase::CheckingPayment, SubmitEvent::GasPaid(paid)) => {
                if *paid {
                    self.current = Some(Job { phase: Phase::CheckingStatus, ..job });
                } else {
                    self.retry(job, false, now);
                }
            },
            (Phase::CheckingStatus, SubmitEvent::Status(status)) => {
                match status {
                    MessageStatus::Processed => {
                        self.current = None;
                    },
                    _ => {
                        self.current = Some(Job { phase: Phase::NeedCheckpoint, ..job });
                    },
                }
            },
            (Phase::NeedCheckpoint, SubmitEvent::Checkpoint(latest)) => {
                match latest {
                    Some(index) => {
                        if *index >= job.item.op.leaf_index {
                            self.current = Some(
                                Job { phase: Phase::CheckingRoot, checkpoint_index: *index, ..job },
                            );
                        } else {
                            self.retry(job, false, now);
                        }
                    },
                    None => {
                        self.retry(job, false, now);
                    },
                }
            },
            (Phase::CheckingRoot, SubmitEvent::RootAcceptable(yes)) => {
                if *yes {
                    self.current = Some(Job { phase: Phase::Submitting, ..job });
                } else {
                    self.retry(job, false, now);
                }
            },
            (Phase::Submitting, SubmitEvent::Outcome { executed }) => {
                if *executed {
                    self.current = None;
                    self.delivered_total = Ghost(self.delivered_total@ + 1);
                    if self.delivered < u64::MAX {
                        self.delivered = self.delivered + 1;
                    }
                } else if job.item.reverts as u64 + 1 >= self.config.max_reverts as u64 {
                    self.current = None;
                    self.dropped_total = Ghost(self.dropped_total@ + 1);
                    if self.dropped < u64::MAX {
                        self.dropped = self.dropped + 1;
                    }
                } else {
                    self.retry(job, true, now);
                }
            },
            _ => {},
        }
    }
}

/// The phase of the operation in hand, if there is one.
pub open spec fn phase_of(s: SubmitterView) -> Option<Phase> {
    match s.current {
        Some(job) => Some(job.phase),
        None => None,
    }
}

/// The submitter asks for a delivery only after the inbox said that it
/// accepts the root that the delivery's proof leads to: the step before was
/// the question about that very root, and the answer was yes.
pub proof fn law_delivery_needs_accepted_root(s: SubmitterView, event: SubmitEvent, now: u64)
    requires
        !(s.action(now) is Process),
        s.after(event, now).action(now) is Process,
    ensures
        s.action(now) == (SubmitActionView::QueryAcceptableRoot {
            root: s.after(event, now).action(now)->Process_root,
        }),
        event == SubmitEvent::RootAcceptable(true),
{
}

/// Neither taking an operation from a processor nor taking one in hand from
/// the queue leads to a delivery.
pub proof fn law_delivery_starts_in_step_only(s: SubmitterView, op: SubmitMessageOp, now: u64)
    requires
        !(s.action(now) is Process),
    ensures
        !(s.received(op).action(now) is Process),
        !(s.polled(now).action(now) is Process),
{
}

/// An operation for a message that the inbox has processed already is done
/// with: it leaves the submitter without a delivery, and is counted neither
/// as delivered nor as given up.
pub proof fn law_processed_message_is_not_delivered_again(s: SubmitterView, now: u64)
    requires
        s.halted is None,
        phase_of(s) == Some(Phase::CheckingStatus),
    ensures
        s.after(SubmitEvent::Status(MessageStatus::Processed), now) == (SubmitterView {
            current: None,
            ..s
        }),
        !(s.after(SubmitEvent::Status(MessageStatus::Processed), now).action(now) is Process),
{
}

/// Every operation is asked about at the inbox before it can be delivered:
/// the phase in which the root is checked is reached only from the phases
/// before it, in their order.
pub proof fn law_phases_in_order(s: SubmitterView, event: SubmitEvent, now: u64)
    requires
        phase_of(s.after(event, now)) != phase_of(s),
        phase_of(s.after(event, now)) is Some,
    ensures
        phase_of(s.after(event, now)) == Some(Phase::Submitting) ==> phase_of(s) == Some(
            Phase::CheckingRoot,
        ),
        phase_of(s.after(event, now)) == Some(Phase::CheckingRoot) ==> phase_of(s) == Some(
            Phase::NeedCheckpoint,
        ),
        phase_of(s.after(event, now)) == Some(Phase::NeedCheckpoint) ==> phase_of(s) == Some(
            Phase::CheckingStatus,
        ) && event is Status && event != SubmitEvent::Status(MessageStatus::Processed),
        phase_of(s.after(event, now)) == Some(Phase::CheckingStatus) ==> phase_of(s) == Some(
            Phase::CheckingPayment,
        ) || phase_of(s) == Some(Phase::Loading),
{
}

/// Every step keeps the submitter within its capacity.
pub proof fn law_submitter_stays_within_capacity(
    s: SubmitterView,
    event: SubmitEvent,
    op: SubmitMessageOp,
    now: u64,
)
    requires
        s.wf(),
    ensures
        s.after(event, now).wf(),
        s.polled(now).wf(),
        s.received(op).wf(),
{
}

} // verus!
