use abacus_agents::metrics::{namespaced, Buckets, CoreMetrics, LeafIndexPhase, MetricKind};

fn relayer_metrics() -> CoreMetrics {
    CoreMetrics::new("relayer", Some(9090), "0.1.0")
}

fn labels(list: &[&str]) -> Vec<String> {
    list.iter().map(|s| s.to_string()).collect()
}

#[test]
fn names_carry_the_namespace() {
    assert_eq!(namespaced("outbox_state"), "abacus_outbox_state");
    assert_eq!(namespaced(""), "abacus_");
}

#[test]
fn core_metrics_keep_agent_and_port() {
    let m = relayer_metrics();
    assert_eq!(m.agent_name(), "relayer");
    assert_eq!(m.listen_port(), Some(9090));
    assert_eq!(CoreMetrics::new("validator", None, "1").listen_port(), None);
    assert_eq!(
        m.const_labels(),
        vec![
            ("abacus_baselib_version".to_string(), "0.1.0".to_string()),
            ("agent".to_string(), "relayer".to_string()),
        ]
    );
}

#[test]
fn new_metrics_are_described_as_asked() {
    let m = relayer_metrics();
    let gauge = m.new_int_gauge("block_height", "Height of a recently observed block", &["network", "agent"]);
    assert_eq!(gauge.name, "abacus_block_height");
    assert_eq!(gauge.help, "Height of a recently observed block");
    assert_eq!(gauge.labels, labels(&["network", "agent"]));
    assert_eq!(gauge.kind, MetricKind::IntGauge);
    assert_eq!(gauge.buckets, None);
    assert_eq!(m.new_gauge("g", "h", &[]).kind, MetricKind::Gauge);
    assert_eq!(m.new_gauge("g", "h", &[]).labels, labels(&[]));
    assert_eq!(m.new_counter("c", "h", &["x"]).kind, MetricKind::Counter);
    assert_eq!(m.new_int_counter("c", "h", &["x"]).kind, MetricKind::IntCounter);
    let histogram = m.new_histogram("d", "h", &["x"], Buckets::Given);
    assert_eq!(histogram.kind, MetricKind::Histogram);
    assert_eq!(histogram.buckets, Some(Buckets::Given));
    assert_eq!(histogram.name, "abacus_d");
}

#[test]
fn fixed_metrics_have_their_names_and_labels() {
    let m = relayer_metrics();
    let rpc = m.rpc_latencies();
    assert_eq!(rpc.name, "abacus_rpc_duration_seconds");
    assert_eq!(rpc.labels, labels(&["chain", "method"]));
    assert_eq!(rpc.buckets, Some(Buckets::Network));
    let span = m.span_duration();
    assert_eq!(span.name, "abacus_span_duration_seconds");
    assert_eq!(span.labels, labels(&["span_name", "span_target"]));
    assert_eq!(span.buckets, Some(Buckets::Process));
    let events = m.span_events();
    assert_eq!(events.name, "abacus_span_events_total");
    assert_eq!(events.labels, labels(&["event_level"]));
    assert_eq!(events.kind, MetricKind::IntCounter);
    let leaf = m.last_known_message_leaf_index();
    assert_eq!(leaf.name, "abacus_last_known_message_leaf_index");
    assert_eq!(leaf.help, "Last known message leaf index");
    assert_eq!(leaf.labels, labels(&["phase", "origin", "remote"]));
    assert_eq!(leaf.kind, MetricKind::IntGauge);
    let length = m.submitter_queue_length();
    assert_eq!(length.name, "abacus_submitter_queue_length");
    assert_eq!(length.labels, labels(&["origin", "remote", "queue_name"]));
    let duration = m.submitter_queue_duration_histogram();
    assert_eq!(duration.name, "abacus_submitter_queue_duration_seconds");
    assert_eq!(duration.labels, labels(&["origin", "remote"]));
    assert_eq!(duration.buckets, Some(Buckets::QueueDuration));
    let count = m.messages_processed_count();
    assert_eq!(count.name, "abacus_messages_processed_count");
    assert_eq!(count.labels, labels(&["origin", "remote"]));
    assert_eq!(count.kind, MetricKind::IntCounter);
    let state = m.outbox_state();
    assert_eq!(state.name, "abacus_outbox_state");
    assert_eq!(state.labels, labels(&["chain"]));
    let latest = m.latest_checkpoint();
    assert_eq!(latest.name, "abacus_latest_checkpoint");
    assert_eq!(latest.labels, labels(&["phase", "chain"]));
    let nonce = m.next_message_nonce();
    assert_eq!(nonce.name, "abacus_next_message_nonce");
    assert_eq!(nonce.labels, labels(&["home", "replica", "agent"]));
}

#[test]
fn rpc_samples_are_labelled_with_chain_and_method() {
    assert_eq!(relayer_metrics().rpc_complete("kovan", "eth_call"), labels(&["kovan", "eth_call"]));
}

#[test]
fn phases_have_their_label_values() {
    assert_eq!(LeafIndexPhase::Dispatch.label(), "dispatch");
    assert_eq!(LeafIndexPhase::SignedOffchainCheckpoint.label(), "signed_offchain_checkpoint");
    assert_eq!(LeafIndexPhase::ProcessorLoop.label(), "processor_loop");
    assert_eq!(LeafIndexPhase::MessageProcessed.label(), "message_processed");
    assert_eq!(LeafIndexPhase::Proving.label(), "proving");
}

#[test]
fn every_agent_registers_the_same_nine_metrics() {
    let all = relayer_metrics().metrics();
    let names: Vec<&str> = all.iter().map(|m| m.name.as_str()).collect();
    assert_eq!(
        names,
        vec![
            "abacus_rpc_duration_seconds",
            "abacus_span_duration_seconds",
            "abacus_span_events_total",
            "abacus_last_known_message_leaf_index",
            "abacus_submitter_queue_length",
            "abacus_submitter_queue_duration_seconds",
            "abacus_outbox_state",
            "abacus_latest_checkpoint",
            "abacus_messages_processed_count",
        ]
    );
    assert_eq!(all[0].labels, labels(&["chain", "method"]));
    assert_eq!(all[3].labels, labels(&["phase", "origin", "remote"]));
    assert_eq!(all[3].kind, MetricKind::IntGauge);
    assert_eq!(all[5].buckets, Some(Buckets::QueueDuration));
    assert_eq!(all[8].kind, MetricKind::IntCounter);
}
