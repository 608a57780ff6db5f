//! The processor agent and the supervision of an agent's tasks.

use vstd::prelude::*;
use crate::parsing::{parsed_u64, read_u64};
use crate::primitives::H256;
use crate::message::CommittedMessage;
use crate::processor::{
    core_of, has_word, initial_stage, law_same_core_same_future, resume_nonce, run, Decision,
    Event, MessageProcessor, Outcome, ProcessorView, SenderPolicy, StageView, Verdict,
};

verus! {

/// Where proofs are pushed to.
#[derive(Clone, Debug)]
pub struct S3Config {
    pub bucket: String,
    pub region: String,
}

/// What the settings say of the processor agent.
#[derive(Clone, Debug)]
pub struct ProcessorSettings {
    /// The polling interval, in seconds.
    pub interval: String,
    /// If present, only these senders' messages are delivered.
    pub allowed: Option<Vec<H256>>,
    /// If present, these senders' messages are not delivered.
    pub denied: Option<Vec<H256>>,
    /// For replicas by name, whether their messages are indexed only and
    /// not processed. A name that has no entry is processed; a name with
    /// several entries is indexed only if one of them says so.
    pub indexon: Option<Vec<(String, bool)>>,
    /// Where proofs are pushed to.
    pub s3: Option<S3Config>,
}

/// A task that the processor agent runs.
#[derive(Clone, Debug, PartialEq, Eq)]
pub enum ProcessorTask {
    /// The sync of the home's messages into the store.
    HomeSync,
    /// The prover sync.
    ProverSync,
    /// The message processors of the replicas with these names.
    Replicas { names: Vec<String> },
    /// The push of proofs to a bucket.
    Push { bucket: String, region: String },
}

/// A replica by name.
#[derive(Clone, Debug)]
pub struct ReplicaInfo {
    pub name: String,
    pub domain: u32,
}

/// No replica has the name asked for.
#[derive(Clone, Copy, Debug, PartialEq, Eq, Structural)]
pub struct NoReplicaNamed;

/// A processor agent.
#[derive(Clone, Debug)]
pub struct Processor {
    /// The seconds to sleep before a nonce is tried again.
    pub interval: u64,
    /// If present, only these senders' messages are delivered. A sender
    /// that occurs twice counts as one.
    pub allowed: Option<Vec<H256>>,
    /// If present, these senders' messages are not delivered. A sender that
    /// occurs twice counts as one.
    pub denied: Option<Vec<H256>>,
    /// For replicas by name, whether their messages are indexed only and
    /// not processed. A name that has no entry is processed; a name with
    /// several entries is indexed only if one of them says so.
    pub index_only: Vec<(String, bool)>,
    /// Where proofs are pushed to.
    pub config: Option<S3Config>,
}

/// Whether the list says of a name that its messages are not processed:
/// whether it holds the name with the flag set.
pub open spec fn skips(list: Seq<(String, bool)>, name: Seq<char>) -> bool {
    exists|i: int| 0 <= i < list.len() && (#[trigger] list[i]).0@ == name && list[i].1
}

/// The names whose messages are processed, in their order: those that
/// `index_only` does not hold with the flag set.
pub open spec fn processed_names(names: Seq<String>, index_only: Seq<(String, bool)>) -> Seq<
    Seq<char>,
>
    decreases names.len(),
{
    if names.len() == 0 {
        Seq::empty()
    } else {
        let before = processed_names(names.drop_last(), index_only);
        if skips(index_only, names.last()@) {
            before
        } else {
            before.push(names.last()@)
        }
    }
}

/// The texts of a list of strings.
pub open spec fn texts(names: Seq<String>) -> Seq<Seq<char>> {
    Seq::new(names.len(), |i: int| names[i]@)
}

/// Whether `list` holds `name` with the flag set.
fn is_skipped(list: &Vec<(String, bool)>, name: &String) -> (b: bool)
    ensures
        b == skips(list@, name@),
{
    let mut i: usize = 0;
    while i < list.len()
        invariant
            i <= list.len(),
            forall|j: int| 0 <= j < i ==> !((#[trigger] list@[j]).0@ == name@ && list@[j].1),
        decreases list.len() - i,
    {
        if list[i].1 && list[i].0 == *name {
            return true;
        }
        i = i + 1;
    }
    false
}

/// Whether `p` is the processor with which the agent starts the replica of
/// the given name on the stored cursor: it is for the domain of the first
/// replica of that name, has the agent's interval and names the senders that
/// the agent's lists name, and stands at the nonce after the stored one
/// with nothing on record.
pub open spec fn starts_replica(
    agent: Processor,
    name: Seq<char>,
    replicas: Seq<ReplicaInfo>,
    stored: Option<u32>,
    p: ProcessorView,
) -> bool {
    &&& p.interval == agent.interval
    &&& p.first == resume_nonce(stored)
    &&& p.next == resume_nonce(stored)
    &&& p.stage == initial_stage(resume_nonce(stored))
    &&& p.processed == Seq::<Outcome>::empty()
    &&& exists|i: int|
        0 <= i < replicas.len() && (#[trigger] replicas[i]).name@ == name && p.destination
            == replicas[i].domain && (forall|j: int|
            0 <= j < i ==> (#[trigger] replicas[j]).name@ != name)
    &&& p.policy.allowed is Some <==> agent.allowed is Some
    &&& p.policy.allowed matches Some(l) ==> agent.allowed matches Some(m) && l@ == m@
    &&& p.policy.denied is Some <==> agent.denied is Some
    &&& p.policy.denied matches Some(l) ==> agent.denied matches Some(m) && l@ == m@
}

/// Whenever the agent starts a replica on the same stored cursor, the
/// processor is the same in all that decides what it does: a processor that
/// is started anew asks for the same actions, and given the same events
/// goes on as the one before it would have.
pub proof fn law_replica_starts_alike(
    agent: Processor,
    name: Seq<char>,
    replicas: Seq<ReplicaInfo>,
    stored: Option<u32>,
    a: ProcessorView,
    b: ProcessorView,
    events: Seq<Event>,
)
    requires
        starts_replica(agent, name, replicas, stored, a),
        starts_replica(agent, name, replicas, stored, b),
    ensures
        core_of(a) == core_of(b),
        core_of(run(a, events)) == core_of(run(b, events)),
        run(a, events).action() == run(b, events).action(),
{
    let i = choose|i: int|
        0 <= i < replicas.len() && (#[trigger] replicas[i]).name@ == name && a.destination
            == replicas[i].domain && (forall|j: int|
            0 <= j < i ==> (#[trigger] replicas[j]).name@ != name);
    let k = choose|k: int|
        0 <= k < replicas.len() && (#[trigger] replicas[k]).name@ == name && b.destination
            == replicas[k].domain && (forall|j: int|
            0 <= j < k ==> (#[trigger] replicas[j]).name@ != name);
    assert(i == k) by {
        if i < k {
            assert(replicas[i].name@ != name);
        }
        if k < i {
            assert(replicas[k].name@ != name);
        }
    }
    law_same_core_same_future(a, b, events);
}

/// A replica that the agent starts skips every message whose sender is on
/// the agent's deny list: the nonce is decided without a hand-over.
pub proof fn law_replica_skips_denied_sender(
    agent: Processor,
    name: Seq<char>,
    replicas: Seq<ReplicaInfo>,
    stored: Option<u32>,
    p: ProcessorView,
    m: CommittedMessage,
)
    requires
        starts_replica(agent, name, replicas, stored, p),
        p.stage is Start,
        agent.denied matches Some(list) && has_word(list@, m.message.sender@),
    ensures
        p.after(Event::Message(Some(m))).stage matches StageView::Decided {
            decision: Decision::Skipped { verdict },
        } && verdict != Verdict::Permitted,
        p.after(Event::Message(Some(m))).after(Event::Persisted).next == p.next + 1,
{
}

impl Processor {
    /// Instantiate a new processor.
    pub fn new(
        interval: u64,
        allowed: Option<Vec<H256>>,
        denied: Option<Vec<H256>>,
        index_only: Vec<(String, bool)>,
        config: Option<S3Config>,
    ) -> (p: Processor)
        ensures
            p == (Processor { interval, allowed, denied, index_only, config }),
    {
        Processor { interval, allowed, denied, index_only, config }
    }

    /// Builds the processor from its settings. Without a list of replicas
    /// that are indexed only, none is.
    pub fn from_settings(settings: ProcessorSettings) -> (p: Processor)
        requires
            parsed_u64(settings.interval@) is Some,
        ensures
            Some(p.interval) == parsed_u64(settings.interval@),
            p.allowed == settings.allowed,
            p.denied == settings.denied,
            p.config == settings.s3,
            p.index_only@ == (match settings.indexon {
                Some(list) => list@,
                None => Seq::<(String, bool)>::empty(),
            }),
    {
        let interval = match read_u64(&settings.interval) {
            Some(secs) => secs,
            None => 0,
        };
        let index_only = match settings.indexon {
            Some(list) => list,
            None => Vec::new(),
        };
        Processor::new(interval, settings.allowed, settings.denied, index_only, settings.s3)
    }

    /// Builds the processor from its settings, where they give an interval
    /// that can be read.
    pub fn checked_from_settings(settings: ProcessorSettings) -> (p: Option<Processor>)
        ensures
            p is Some <==> parsed_u64(settings.interval@) is Some,
            p matches Some(made) ==> Some(made.interval) == parsed_u64(settings.interval@)
                && made.allowed == settings.allowed && made.denied == settings.denied
                && made.config == settings.s3 && made.index_only@ == (match settings.indexon {
                Some(list) => list@,
                None => Seq::<(String, bool)>::empty(),
            }),
    {
        match read_u64(&settings.interval) {
            Some(_) => Some(Processor::from_settings(settings)),
            None => None,
        }
    }

    /// The sender policy of the agent.
    pub fn policy(&self) -> (policy: SenderPolicy)
        ensures
            policy.allowed matches Some(list) ==> self.allowed matches Some(mine) && list@
                == mine@,
            policy.allowed is None ==> self.allowed is None,
            policy.denied matches Some(list) ==> self.denied matches Some(mine) && list@ == mine@,
            policy.denied is None ==> self.denied is None,
    {
        SenderPolicy { allowed: copy_words(&self.allowed), denied: copy_words(&self.denied) }
    }

    /// The message processor for the replica with the given name, with the
    /// agent's interval and sender policy, resuming from the cursor stored
    /// for its domain.
    pub fn run(&self, name: &String, replicas: &Vec<ReplicaInfo>, stored: Option<u32>) -> (res:
        Result<MessageProcessor, NoReplicaNamed>)
        ensures
            res is Ok <==> exists|i: int| 0 <= i < replicas.len() && (#[trigger] replicas[i]).name@
                == name@,
            res matches Ok(p) ==> p@.wf() && starts_replica(*self, name@, replicas@, stored, p@),
    {
        let mut i: usize = 0;
        while i < replicas.len()
            invariant
                i <= replicas.len(),
                forall|j: int| 0 <= j < i ==> (#[trigger] replicas[j]).name@ != name@,
            decreases replicas.len() - i,
        {
            if replicas[i].name == *name {
                let p = MessageProcessor::new(
                    replicas[i].domain,
                    self.interval,
                    self.policy(),
                    stored,
                );
                return Ok(p);
            }
            i = i + 1;
        }
        Err(NoReplicaNamed)
    }

    /// The names of the replicas whose messages are processed, in the order
    /// given: all but those that the index-only list holds with the flag
    /// set.
    pub fn replicas_to_process(&self, names: &Vec<String>) -> (kept: Vec<String>)
        ensures
            texts(kept@) == processed_names(names@, self.index_only@),
    {
        let mut kept: Vec<String> = Vec::new();
        let mut i: usize = 0;
        assert(names@.take(0) =~= Seq::<String>::empty());
        assert(texts(kept@) =~= Seq::<Seq<char>>::empty());
        while i < names.len()
            invariant
                i <= names.len(),
                texts(kept@) == processed_names(names@.take(i as int), self.index_only@),
            decreases names.len() - i,
        {
            let ghost before = kept@;
            assert(names@.take(i + 1).drop_last() =~= names@.take(i as int));
            if !is_skipped(&self.index_only, &names[i]) {
                kept.push(names[i].clone());
                assert(texts(kept@) =~= texts(before).push(names@[i as int]@));
            }
            i = i + 1;
        }
        assert(names@.take(names.len() as int) =~= names@);
        kept
    }

    /// The tasks of the agent: the home sync, the prover sync, the replicas'
    /// message processors, and the push of proofs where a bucket is set.
    pub fn run_all(&self, names: &Vec<String>) -> (tasks: Vec<ProcessorTask>)
        ensures
            tasks.len() == (if self.config is Some {
                4int
            } else {
                3int
            }),
            tasks[0] is HomeSync,
            tasks[1] is ProverSync,
            tasks[2] matches ProcessorTask::Replicas { names: kept } && texts(kept@)
                == processed_names(names@, self.index_only@),
            self.config matches Some(config) ==> (tasks[3] matches ProcessorTask::Push {
                bucket,
                region,
            } && bucket@ == config.bucket@ && region@ == config.region@),
    {
        let mut tasks: Vec<ProcessorTask> = Vec::new();
        tasks.push(ProcessorTask::HomeSync);
        tasks.push(ProcessorTask::ProverSync);
        tasks.push(ProcessorTask::Replicas { names: self.replicas_to_process(names) });
        match &self.config {
            Some(config) => {
                tasks.push(
                    ProcessorTask::Push {
                        bucket: config.bucket.clone(),
                        region: config.region.clone(),
                    },
                );
            },
            None => {},
        }
        tasks
    }
}

/// A copy of an optional list of words.
fn copy_words(list: &Option<Vec<H256>>) -> (out: Option<Vec<H256>>)
    ensures
        out matches Some(copy) ==> list matches Some(mine) && copy@ == mine@,
        out is None ==> list is None,
{
    match list {
        Some(mine) => {
            let mut copy: Vec<H256> = Vec::new();
            let mut i: usize = 0;
            while i < mine.len()
                invariant
                    i <= mine.len(),
                    copy@ == mine@.take(i as int),
                decreases mine.len() - i,
            {
                copy.push(mine[i]);
                assert(copy@ =~= mine@.take(i + 1));
                i = i + 1;
            }
            assert(mine@.take(mine.len() as int) =~= mine@);
            Some(copy)
        },
        None => None,
    }
}

/// The blocks to ask the indexer for next: from `next` up to the chain's
/// tip, but no more than `chunk_size` blocks beyond `next`. Nothing where
/// the chain has not reached `next` yet.
pub fn next_block_range(next: u32, tip: u32, chunk_size: u32) -> (range: Option<(u32, u32)>)
    ensures
        range == (if next > tip {
            None
        } else if next + chunk_size <= tip {
            Some((next, (next + chunk_size) as u32))
        } else {
            Some((next, tip))
        }),
{
    if next > tip {
        None
    } else if chunk_size <= tip - next {
        Some((next, next + chunk_size))
    } else {
        Some((next, tip))
    }
}

/// The tasks to cancel when the task at position `finished` is the first of
/// `tasks` to end: all the others, in their order.
pub open spec fn others(tasks: nat, finished: nat) -> Seq<usize> {
    Seq::new(
        if finished < tasks {
            (tasks - 1) as nat
        } else {
            tasks
        },
        |i: int|
            if i < finished {
                i as usize
            } else {
                (i + 1) as usize
            },
    )
}

/// The tasks to cancel when the task at position `finished` is the first to
/// end: every other task. The agent then ends as that task ended.
pub fn cancel_on_first_finished(tasks: usize, finished: usize) -> (cancel: Vec<usize>)
    requires
        finished < tasks,
    ensures
        cancel@ == others(tasks as nat, finished as nat),
{
    let mut cancel: Vec<usize> = Vec::new();
    let mut i: usize = 0;
    while i < tasks
        invariant
            i <= tasks,
            finished < tasks,
            cancel@ == others(tasks as nat, finished as nat).take(
                if i <= finished {
                    i as int
                } else {
                    i - 1
                },
            ),
        decreases tasks - i,
    {
        if i != finished {
            cancel.push(i);
            assert(cancel@ =~= others(tasks as nat, finished as nat).take(
                if i + 1 <= finished {
                    i + 1
                } else {
                    i as int
                },
            ));
        }
        i = i + 1;
    }
    assert(others(tasks as nat, finished as nat).take(tasks - 1) =~= others(
        tasks as nat,
        finished as nat,
    ));
    cancel
}

/// The exit code of an agent whose first task to end ended as `succeeded`
/// says: zero for success only.
pub fn exit_code(succeeded: bool) -> (code: u8)
    ensures
        code == 0 <==> succeeded,
        code == 0 || code == 1,
{
    if succeeded {
        0
    } else {
        1
    }
}

} // verus!
