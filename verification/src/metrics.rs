//! The metrics that the agents publish: their names, help texts and labels.
//! The registry that holds them and the server that reports them are the
//! caller's.

use vstd::prelude::*;
use vstd::string::StringExecFns;

verus! {

/// A metric's name with the namespace of the agents before it.
pub open spec fn namespaced_text(name: Seq<char>) -> Seq<char> {
    "abacus"@ + "_"@ + name
}

/// Puts the namespace of the agents before a metric's name.
pub fn namespaced(name: &str) -> (full: String)
    ensures
        full@ == namespaced_text(name@),
{
    String::from_str("abacus").concat("_").concat(name)
}

/// What kind of metric it is.
#[derive(Clone, Copy, Debug, PartialEq, Eq, Structural)]
pub enum MetricKind {
    IntGauge,
    Gauge,
    Counter,
    IntCounter,
    Histogram,
}

/// Which buckets a histogram has.
#[derive(Clone, Copy, Debug, PartialEq, Eq, Structural)]
pub enum Buckets {
    /// The buckets recommended for network communication.
    Network,
    /// The buckets recommended for internal process logic.
    Process,
    /// Nineteen buckets from half a second on, each twice the one before.
    QueueDuration,
    /// Buckets that the caller gives.
    Given,
}

/// A metric as it is registered.
#[derive(Clone, Debug)]
pub struct MetricSpec {
    /// The name with the namespace.
    pub name: String,
    /// What the metric says.
    pub help: String,
    /// The names of the labels that each sample carries.
    pub labels: Vec<String>,
    /// The kind of metric.
    pub kind: MetricKind,
    /// The buckets, for a histogram.
    pub buckets: Option<Buckets>,
}

/// The texts of a list of strings.
pub open spec fn label_texts(labels: Seq<String>) -> Seq<Seq<char>> {
    Seq::new(labels.len(), |i: int| labels[i]@)
}

/// The texts of a list of string slices.
pub open spec fn slice_texts(labels: Seq<&str>) -> Seq<Seq<char>> {
    Seq::new(labels.len(), |i: int| labels[i]@)
}

/// Whether `m` is the metric with the given name, help, labels and kind.
pub open spec fn is_metric(
    m: MetricSpec,
    name: Seq<char>,
    help: Seq<char>,
    labels: Seq<Seq<char>>,
    kind: MetricKind,
    buckets: Option<Buckets>,
) -> bool {
    &&& m.name@ == namespaced_text(name)
    &&& m.help@ == help
    &&& label_texts(m.labels@) == labels
    &&& m.kind == kind
    &&& m.buckets == buckets
}

/// Whether `m` is the metric at position `i` among the nine that every
/// agent registers, in the order in which they are registered.
pub open spec fn is_core_metric(i: int, m: MetricSpec) -> bool {
    if i == 0 {
        is_metric(
            m,
            "rpc_duration_seconds"@,
            "Duration from dispatch to receipt-of-response for RPC calls"@,
            seq!["chain"@, "method"@],
            MetricKind::Histogram,
            Some(Buckets::Network),
        )
    } else if i == 1 {
        is_metric(
            m,
            "span_duration_seconds"@,
            "Duration from tracing span creation to span destruction"@,
            seq!["span_name"@, "span_target"@],
            MetricKind::Histogram,
            Some(Buckets::Process),
        )
    } else if i == 2 {
        is_metric(
            m,
            "span_events_total"@,
            "Number of span events (logs and time metrics) emitted by level"@,
            seq!["event_level"@],
            MetricKind::IntCounter,
            None,
        )
    } else if i == 3 {
        is_metric(
            m,
            "last_known_message_leaf_index"@,
            "Last known message leaf index"@,
            seq!["phase"@, "origin"@, "remote"@],
            MetricKind::IntGauge,
            None,
        )
    } else if i == 4 {
        is_metric(
            m,
            "submitter_queue_length"@,
            "Submitter queue length"@,
            seq!["origin"@, "remote"@, "queue_name"@],
            MetricKind::IntGauge,
            None,
        )
    } else if i == 5 {
        is_metric(
            m,
            "submitter_queue_duration_seconds"@,
            "Time a message spends queued in the serial submitter measured from insertion into channel from processor, ending after successful delivery to provider."@,
            seq!["origin"@, "remote"@],
            MetricKind::Histogram,
            Some(Buckets::QueueDuration),
        )
    } else if i == 6 {
        is_metric(
            m,
            "outbox_state"@,
            "Outbox contract state value"@,
            seq!["chain"@],
            MetricKind::IntGauge,
            None,
        )
    } else if i == 7 {
        is_metric(
            m,
            "latest_checkpoint"@,
            "Outbox latest checkpoint"@,
            seq!["phase"@, "chain"@],
            MetricKind::IntGauge,
            None,
        )
    } else if i == 8 {
        is_metric(
            m,
            "messages_processed_count"@,
            "Number of messages processed"@,
            seq!["origin"@, "remote"@],
            MetricKind::IntCounter,
            None,
        )
    } else {
        false
    }
}

/// Owned copies of label names.
fn owned_labels(labels: &[&str]) -> (out: Vec<String>)
    ensures
        label_texts(out@) == slice_texts(labels@),
{
    let mut out: Vec<String> = Vec::new();
    let mut i: usize = 0;
    while i < labels.len()
        invariant
            i <= labels.len(),
            out.len() == i,
            forall|j: int| 0 <= j < i ==> out@[j]@ == labels@[j]@,
        decreases labels.len() - i,
    {
        out.push(String::from_str(labels[i]));
        i = i + 1;
    }
    assert(label_texts(out@) =~= slice_texts(labels@));
    out
}

/// The phases of a message's way for which the last known leaf index is
/// reported.
#[derive(Clone, Copy, Debug, PartialEq, Eq, Structural)]
pub enum LeafIndexPhase {
    /// The message was indexed and stored.
    Dispatch,
    /// The leaf index is known to be signed by a validator.
    SignedOffchainCheckpoint,
    /// The leaf index that the message processor is at.
    ProcessorLoop,
    /// The leaf index was delivered.
    MessageProcessed,
    /// The leaf index has a proof.
    Proving,
}

impl LeafIndexPhase {
    /// The value of the `phase` label.
    pub fn label(&self) -> (text: &'static str)
        ensures
            text@ == (match *self {
                LeafIndexPhase::Dispatch => "dispatch"@,
                LeafIndexPhase::SignedOffchainCheckpoint => "signed_offchain_checkpoint"@,
                LeafIndexPhase::ProcessorLoop => "processor_loop"@,
                LeafIndexPhase::MessageProcessed => "message_processed"@,
                LeafIndexPhase::Proving => "proving"@,
            }),
    {
        match self {
            LeafIndexPhase::Dispatch => "dispatch",
            LeafIndexPhase::SignedOffchainCheckpoint => "signed_offchain_checkpoint",
            LeafIndexPhase::ProcessorLoop => "processor_loop",
            LeafIndexPhase::MessageProcessed => "message_processed",
            LeafIndexPhase::Proving => "proving",
        }
    }
}

/// Metrics for a particular agent.
#[derive(Clone, Debug)]
pub struct CoreMetrics {
    agent_name: String,
    listen_port: Option<u16>,
    version: String,
}

impl CoreMetrics {
    /// The name of the agent.
    pub closed spec fn name_text(&self) -> Seq<char> {
        self.agent_name@
    }

    /// The version of the agent.
    pub closed spec fn version_text(&self) -> Seq<char> {
        self.version@
    }

    /// The port on which the metrics are served, if they are.
    pub closed spec fn port(&self) -> Option<u16> {
        self.listen_port
    }

    /// Track metrics for a particular agent name.
    ///
    /// - `for_agent` name of the agent these metrics are tracking.
    /// - `listen_port` port to serve the metrics on. If `None` they are not
    ///   served.
    /// - `version` the version of the agent.
    pub fn new(for_agent: &str, listen_port: Option<u16>, version: &str) -> (metrics: CoreMetrics)
        ensures
            metrics.name_text() == for_agent@,
            metrics.port() == listen_port,
            metrics.version_text() == version@,
    {
        CoreMetrics {
            agent_name: String::from_str(for_agent),
            listen_port,
            version: String::from_str(version),
        }
    }

    /// Get the name of this agent, e.g. "relayer".
    pub fn agent_name(&self) -> (name: &str)
        ensures
            name@ == self.name_text(),
    {
        self.agent_name.as_str()
    }

    /// The port on which the metrics are served, if they are.
    pub fn listen_port(&self) -> (port: Option<u16>)
        ensures
            port == self.port(),
    {
        self.listen_port
    }

    /// The labels that every metric of this agent carries: the version of
    /// the base library and the agent's name.
    pub fn const_labels(&self) -> (labels: Vec<(String, String)>)
        ensures
            labels.len() == 2,
            labels[0].0@ == namespaced_text("baselib_version"@),
            labels[0].1@ == self.version_text(),
            labels[1].0@ == "agent"@,
            labels[1].1@ == self.name_text(),
    {
        let mut labels: Vec<(String, String)> = Vec::new();
        labels.push((namespaced("baselib_version"), self.version.clone()));
        labels.push((String::from_str("agent"), self.agent_name.clone()));
        labels
    }

    /// Describes a new int gauge.
    pub fn new_int_gauge(&self, metric_name: &str, help: &str, labels: &[&str]) -> (m: MetricSpec)
        ensures
            is_metric(m, metric_name@, help@, slice_texts(labels@), MetricKind::IntGauge, None),
    {
        MetricSpec {
            name: namespaced(metric_name),
            help: String::from_str(help),
            labels: owned_labels(labels),
            kind: MetricKind::IntGauge,
            buckets: None,
        }
    }

    /// Describes a new gauge.
    pub fn new_gauge(&self, metric_name: &str, help: &str, labels: &[&str]) -> (m: MetricSpec)
        ensures
            is_metric(m, metric_name@, help@, slice_texts(labels@), MetricKind::Gauge, None),
    {
        MetricSpec {
            name: namespaced(metric_name),
            help: String::from_str(help),
            labels: owned_labels(labels),
            kind: MetricKind::Gauge,
            buckets: None,
        }
    }

    /// Describes a new counter.
    pub fn new_counter(&self, metric_name: &str, help: &str, labels: &[&str]) -> (m: MetricSpec)
        ensures
            is_metric(m, metric_name@, help@, slice_texts(labels@), MetricKind::Counter, None),
    {
        MetricSpec {
            name: namespaced(metric_name),
            help: String::from_str(help),
            labels: owned_labels(labels),
            kind: MetricKind::Counter,
            buckets: None,
        }
    }

    /// Describes a new int counter.
    pub fn new_int_counter(&self, metric_name: &str, help: &str, labels: &[&str]) -> (m:
        MetricSpec)
        ensures
            is_metric(m, metric_name@, help@, slice_texts(labels@), MetricKind::IntCounter, None),
    {
        MetricSpec {
            name: namespaced(metric_name),
            help: String::from_str(help),
            labels: owned_labels(labels),
            kind: MetricKind::IntCounter,
            buckets: None,
        }
    }

    /// Describes a new histogram.
    pub fn new_histogram(
        &self,
        metric_name: &str,
        help: &str,
        labels: &[&str],
        buckets: Buckets,
    ) -> (m: MetricSpec)
        ensures
            is_metric(
                m,
                metric_name@,
                help@,
                slice_texts(labels@),
                MetricKind::Histogram,
                Some(buckets),
            ),
    {
        MetricSpec {
            name: namespaced(metric_name),
            help: String::from_str(help),
            labels: owned_labels(labels),
            kind: MetricKind::Histogram,
            buckets: Some(buckets),
        }
    }

    /// The metrics that every agent registers, in the order in which they
    /// are registered: the durations of RPC calls and of spans, the count of
    /// span events, the last known leaf index, the submitter's queue length
    /// and queue duration, the outbox state, the latest checkpoint and the
    /// count of processed messages.
    pub fn metrics(&self) -> (all: Vec<MetricSpec>)
        ensures
            all.len() == 9,
            forall|i: int| 0 <= i < 9 ==> is_core_metric(i, #[trigger] all[i]),
    {
        let mut all: Vec<MetricSpec> = Vec::new();
        all.push(self.rpc_latencies());
        all.push(self.span_duration());
        all.push(self.span_events());
        all.push(self.last_known_message_leaf_index());
        all.push(self.submitter_queue_length());
        all.push(self.submitter_queue_duration_histogram());
        all.push(self.outbox_state());
        all.push(self.latest_checkpoint());
        all.push(self.messages_processed_count());
        assert(is_core_metric(0, all[0]));
        assert(is_core_metric(1, all[1]));
        assert(is_core_metric(2, all[2]));
        assert(is_core_metric(3, all[3]));
        assert(is_core_metric(4, all[4]));
        assert(is_core_metric(5, all[5]));
        assert(is_core_metric(6, all[6]));
        assert(is_core_metric(7, all[7]));
        assert(is_core_metric(8, all[8]));
        all
    }

    /// The values of the labels of an RPC duration sample: the chain and the
    /// method.
    pub fn rpc_complete(&self, chain: &str, method: &str) -> (values: Vec<String>)
        ensures
            label_texts(values@) == seq![chain@, method@],
    {
        let mut values: Vec<String> = Vec::new();
        values.push(String::from_str(chain));
        values.push(String::from_str(method));
        assert(label_texts(values@) =~= seq![chain@, method@]);
        values
    }

    /// Duration from dispatch to receipt-of-response for RPC calls.
    pub fn rpc_latencies(&self) -> (m: MetricSpec)
        ensures
            is_metric(
                m,
                "rpc_duration_seconds"@,
                "Duration from dispatch to receipt-of-response for RPC calls"@,
                seq!["chain"@, "method"@],
                MetricKind::Histogram,
                Some(Buckets::Network),
            ),
    {
        let labels = ["chain", "method"];
        assert(slice_texts(labels@) =~= seq!["chain"@, "method"@]);
        self.new_histogram(
            "rpc_duration_seconds",
            "Duration from dispatch to receipt-of-response for RPC calls",
            &labels,
            Buckets::Network,
        )
    }

    /// Histogram for measuring span durations.
    ///
    /// Labels needed:
    /// - `span_name`: name of the span. e.g. the function name.
    /// - `span_target`: a string that categorizes part of the system where
    ///   the span or event occurred. e.g. module path.
    pub fn span_duration(&self) -> (m: MetricSpec)
        ensures
            is_metric(
                m,
                "span_duration_seconds"@,
                "Duration from tracing span creation to span destruction"@,
                seq!["span_name"@, "span_target"@],
                MetricKind::Histogram,
                Some(Buckets::Process),
            ),
    {
        let labels = ["span_name", "span_target"];
        assert(slice_texts(labels@) =~= seq!["span_name"@, "span_target"@]);
        self.new_histogram(
            "span_duration_seconds",
            "Duration from tracing span creation to span destruction",
            &labels,
            Buckets::Process,
        )
    }

    /// Counts of span events.
    ///
    /// Labels needed:
    /// - `event_level`: level of the event, i.e. trace, debug, info, warn,
    ///   error.
    pub fn span_events(&self) -> (m: MetricSpec)
        ensures
            is_metric(
                m,
                "span_events_total"@,
                "Number of span events (logs and time metrics) emitted by level"@,
                seq!["event_level"@],
                MetricKind::IntCounter,
                None,
            ),
    {
        let labels = ["event_level"];
        assert(slice_texts(labels@) =~= seq!["event_level"@]);
        self.new_int_counter(
            "span_events_total",
            "Number of span events (logs and time metrics) emitted by level",
            &labels,
        )
    }

    /// Gauge for measuring the last known message leaf index.
    pub fn last_known_message_leaf_index(&self) -> (m: MetricSpec)
        ensures
            is_metric(
                m,
                "last_known_message_leaf_index"@,
                "Last known message leaf index"@,
                seq!["phase"@, "origin"@, "remote"@],
                MetricKind::IntGauge,
                None,
            ),
    {
        let labels = ["phase", "origin", "remote"];
        assert(slice_texts(labels@) =~= seq!["phase"@, "origin"@, "remote"@]);
        self.new_int_gauge(
            "last_known_message_leaf_index",
            "Last known message leaf index",
            &labels,
        )
    }

    /// Gauge for measuring the queue lengths in Submitter instances.
    pub fn submitter_queue_length(&self) -> (m: MetricSpec)
        ensures
            is_metric(
                m,
                "submitter_queue_length"@,
                "Submitter queue length"@,
                seq!["origin"@, "remote"@, "queue_name"@],
                MetricKind::IntGauge,
                None,
            ),
    {
        let labels = ["origin", "remote", "queue_name"];
        assert(slice_texts(labels@) =~= seq!["origin"@, "remote"@, "queue_name"@]);
        self.new_int_gauge("submitter_queue_length", "Submitter queue length", &labels)
    }

    /// Histogram for measuring time spent until message submission,
    /// starting from the moment that the message was discovered as
    /// "sendable" and being enqueued with the relevant `submitter`.
    pub fn submitter_queue_duration_histogram(&self) -> (m: MetricSpec)
        ensures
            is_metric(
                m,
                "submitter_queue_duration_seconds"@,
                "Time a message spends queued in the serial submitter measured from insertion into channel from processor, ending after successful delivery to provider."@,
                seq!["origin"@, "remote"@],
                MetricKind::Histogram,
                Some(Buckets::QueueDuration),
            ),
    {
        let labels = ["origin", "remote"];
        assert(slice_texts(labels@) =~= seq!["origin"@, "remote"@]);
        self.new_histogram(
            "submitter_queue_duration_seconds",
            "Time a message spends queued in the serial submitter measured from insertion into channel from processor, ending after successful delivery to provider.",
            &labels,
            Buckets::QueueDuration,
        )
    }

    /// Counter for the number of messages successfully submitted by this
    /// process during its lifetime.
    pub fn messages_processed_count(&self) -> (m: MetricSpec)
        ensures
            is_metric(
                m,
                "messages_processed_count"@,
                "Number of messages processed"@,
                seq!["origin"@, "remote"@],
                MetricKind::IntCounter,
                None,
            ),
    {
        let labels = ["origin", "remote"];
        assert(slice_texts(labels@) =~= seq!["origin"@, "remote"@]);
        self.new_int_counter("messages_processed_count", "Number of messages processed", &labels)
    }

    /// Gauge for reporting the current outbox state.
    pub fn outbox_state(&self) -> (m: MetricSpec)
        ensures
            is_metric(
                m,
                "outbox_state"@,
                "Outbox contract state value"@,
                seq!["chain"@],
                MetricKind::IntGauge,
                None,
            ),
    {
        let labels = ["chain"];
        assert(slice_texts(labels@) =~= seq!["chain"@]);
        self.new_int_gauge("outbox_state", "Outbox contract state value", &labels)
    }

    /// Gauge for the latest checkpoint at various phases.
    pub fn latest_checkpoint(&self) -> (m: MetricSpec)
        ensures
            is_metric(
                m,
                "latest_checkpoint"@,
                "Outbox latest checkpoint"@,
                seq!["phase"@, "chain"@],
                MetricKind::IntGauge,
                None,
            ),
    {
        let labels = ["phase", "chain"];
        assert(slice_texts(labels@) =~= seq!["phase"@, "chain"@]);
        self.new_int_gauge("latest_checkpoint", "Outbox latest checkpoint", &labels)
    }

    /// Gauge for the next nonce that a message processor looks at.
    pub fn next_message_nonce(&self) -> (m: MetricSpec)
        ensures
            is_metric(
                m,
                "next_message_nonce"@,
                "Index of the next message to inspect"@,
                seq!["home"@, "replica"@, "agent"@],
                MetricKind::IntGauge,
                None,
            ),
    {
        let labels = ["home", "replica", "agent"];
        assert(slice_texts(labels@) =~= seq!["home"@, "replica"@, "agent"@]);
        self.new_int_gauge("next_message_nonce", "Index of the next message to inspect", &labels)
    }
}

} // verus!
