//! The relayer agent: what it is made of and which tasks it runs.

use vstd::prelude::*;
use crate::fetcher::{CheckpointFetcher, DEFAULT_CHECKPOINT_POLLING_INTERVAL};
use crate::multisig::MultisigCheckpointSyncer;
use crate::parsing::{parsed_u64, read_u64};
use crate::processor::SenderPolicy;
use crate::submitter::DEFAULT_CAPACITY;

verus! {

/// The settings of the hosted relay service for one inbox.
#[derive(Clone, Copy, Debug, PartialEq, Eq, Structural)]
pub struct GelatoConf {
    /// Whether messages to this inbox go through the hosted relay.
    pub enabled_for_message_submission: bool,
}

/// Which submitter delivers the messages of an inbox.
#[derive(Clone, Copy, Debug, PartialEq, Eq, Structural)]
pub enum SubmitterKind {
    /// The hosted relay service.
    Gelato,
    /// The serial submitter.
    Serial,
}

/// How the message processor and the submitter of one inbox are set up.
#[derive(Clone, Copy, Debug, PartialEq, Eq, Structural)]
pub struct InboxPlan {
    /// Which submitter delivers.
    pub submitter: SubmitterKind,
    /// How many operations the channel from processor to submitter holds.
    pub channel_capacity: usize,
}

/// What the settings say of one inbox.
#[derive(Clone, Debug)]
pub struct InboxSettings {
    pub name: String,
    pub gelato_conf: Option<GelatoConf>,
}

/// A task that the relayer runs.
#[derive(Clone, Debug, PartialEq, Eq)]
pub enum Task {
    /// The message processor and the submitter of the inbox with this name.
    Inbox { name: String, plan: InboxPlan },
    /// The checkpoint fetcher, polling at this interval in seconds.
    CheckpointFetcher { polling_interval: u64 },
    /// The sync of the outbox's messages into the store.
    OutboxSync,
    /// The sync of the gas payments into the store.
    InterchainGasPaymasterSync,
}

/// The plan for an inbox with the given settings of the hosted relay.
pub open spec fn plan_for(gelato_conf: Option<GelatoConf>) -> InboxPlan {
    InboxPlan {
        submitter: match gelato_conf {
            Some(cfg) => if cfg.enabled_for_message_submission {
                SubmitterKind::Gelato
            } else {
                SubmitterKind::Serial
            },
            None => SubmitterKind::Serial,
        },
        channel_capacity: DEFAULT_CAPACITY,
    }
}

/// Whether `task` is the task of the inbox with these settings.
pub open spec fn is_inbox_task(task: Task, inbox: InboxSettings) -> bool {
    task matches Task::Inbox { name, plan } && name@ == inbox.name@ && plan == plan_for(
        inbox.gelato_conf,
    )
}

/// A relayer agent.
#[derive(Debug)]
pub struct Relayer {
    signed_checkpoint_polling_interval: u64,
    multisig_checkpoint_syncer: MultisigCheckpointSyncer,
    whitelist: SenderPolicy,
}

impl Relayer {
    /// The seconds between two polls for checkpoints.
    pub closed spec fn polling_interval(&self) -> u64 {
        self.signed_checkpoint_polling_interval
    }

    /// The syncer that the relayer asks for checkpoints.
    pub closed spec fn syncer(&self) -> MultisigCheckpointSyncer {
        self.multisig_checkpoint_syncer
    }

    /// Which senders' messages the relayer delivers.
    pub closed spec fn policy(&self) -> SenderPolicy {
        self.whitelist
    }

    /// Builds the relayer from its settings. A polling interval that cannot
    /// be read is taken as the default; without a whitelist every sender's
    /// messages are delivered.
    pub fn from_settings(
        signed_checkpoint_polling_interval: &String,
        multisig_checkpoint_syncer: MultisigCheckpointSyncer,
        whitelist: Option<SenderPolicy>,
    ) -> (relayer: Relayer)
        ensures
            relayer.polling_interval() == (match parsed_u64(signed_checkpoint_polling_interval@) {
                Some(secs) => secs,
                None => DEFAULT_CHECKPOINT_POLLING_INTERVAL,
            }),
            relayer.syncer() == multisig_checkpoint_syncer,
            relayer.policy() == (match whitelist {
                Some(policy) => policy,
                None => SenderPolicy { allowed: None, denied: None },
            }),
    {
        let interval = match read_u64(signed_checkpoint_polling_interval) {
            Some(secs) => secs,
            None => DEFAULT_CHECKPOINT_POLLING_INTERVAL,
        };
        let policy = match whitelist {
            Some(policy) => policy,
            None => SenderPolicy { allowed: None, denied: None },
        };
        Relayer {
            signed_checkpoint_polling_interval: interval,
            multisig_checkpoint_syncer,
            whitelist: policy,
        }
    }

    /// The syncer that the relayer asks for checkpoints.
    pub fn multisig_checkpoint_syncer(&self) -> (syncer: &MultisigCheckpointSyncer)
        ensures
            *syncer == self.syncer(),
    {
        &self.multisig_checkpoint_syncer
    }

    /// Which senders' messages the relayer delivers.
    pub fn whitelist(&self) -> (policy: &SenderPolicy)
        ensures
            *policy == self.policy(),
    {
        &self.whitelist
    }

    /// The fetcher that polls for checkpoints at the relayer's interval.
    pub fn run_checkpoint_fetcher(&self) -> (fetcher: CheckpointFetcher)
        ensures
            fetcher.last_published() is None,
            fetcher.interval() == self.polling_interval(),
    {
        CheckpointFetcher::new(self.signed_checkpoint_polling_interval)
    }

    /// How the processor and the submitter of one inbox are set up: the
    /// hosted relay delivers where it is enabled for the inbox, the serial
    /// submitter everywhere else.
    pub fn run_inbox(&self, gelato_conf: Option<GelatoConf>) -> (plan: InboxPlan)
        ensures
            plan == plan_for(gelato_conf),
    {
        let submitter = match gelato_conf {
            Some(cfg) => if cfg.enabled_for_message_submission {
                SubmitterKind::Gelato
            } else {
                SubmitterKind::Serial
            },
            None => SubmitterKind::Serial,
        };
        InboxPlan { submitter, channel_capacity: DEFAULT_CAPACITY }
    }

    /// The tasks of the relayer: one per inbox, in the order given, then the
    /// checkpoint fetcher and the outbox sync, and last the sync of the gas
    /// payments where there is a paymaster.
    pub fn run(&self, inboxes: &Vec<InboxSettings>, has_paymaster: bool) -> (tasks: Vec<Task>)
        requires
            inboxes.len() <= usize::MAX - 3,
        ensures
            tasks.len() == inboxes.len() + (if has_paymaster {
                3int
            } else {
                2int
            }),
            forall|i: int| 0 <= i < inboxes.len() ==> is_inbox_task(#[trigger] tasks[i], inboxes[i]),
            tasks[inboxes.len() as int] == (Task::CheckpointFetcher {
                polling_interval: self.polling_interval(),
            }),
            tasks[inboxes.len() + 1] == Task::OutboxSync,
            has_paymaster ==> tasks[inboxes.len() + 2] == Task::InterchainGasPaymasterSync,
    {
        let mut tasks: Vec<Task> = Vec::new();
        let mut i: usize = 0;
        while i < inboxes.len()
            invariant
                i <= inboxes.len(),
                tasks.len() == i,
                forall|j: int| 0 <= j < i ==> is_inbox_task(#[trigger] tasks[j], inboxes[j]),
            decreases inboxes.len() - i,
        {
            let plan = self.run_inbox(inboxes[i].gelato_conf);
            tasks.push(Task::Inbox { name: inboxes[i].name.clone(), plan });
            i = i + 1;
        }
        tasks.push(
            Task::CheckpointFetcher { polling_interval: self.signed_checkpoint_polling_interval },
        );
        tasks.push(Task::OutboxSync);
        if has_paymaster {
            tasks.push(Task::InterchainGasPaymasterSync);
        }
        tasks
    }
}

} // verus!
