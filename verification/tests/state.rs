use watchmedo::clock::TimeSpan;
use watchmedo::input_keys::{KeyState, KeyboardKeyEvent, Modifiers, PendingKeyboardEvent};
use watchmedo::protocol::{CollectedTelemetry, HistoryRequest, NodeMetadata, ProcessSummary, SystemSample};
use watchmedo::state::TelemetryStore;

fn node() -> NodeMetadata {
    NodeMetadata {
        host_name: None,
        system_name: None,
        os_version: None,
        kernel_version: None,
        cpu_count: 1,
        physical_core_count: Some(1),
    }
}

fn sample(captured_at_ms: u64, cpu_usage_pct: f32) -> SystemSample {
    SystemSample {
        sequence: 0,
        captured_at_ms,
        cpu_usage_pct: cpu_usage_pct.to_bits(),
        load_average_one: 0.0f64.to_bits(),
        load_average_five: 0.0f64.to_bits(),
        load_average_fifteen: 0.0f64.to_bits(),
        total_memory_bytes: 0,
        used_memory_bytes: 0,
        available_memory_bytes: 0,
        total_swap_bytes: 0,
        used_swap_bytes: 0,
        process_count: 0,
        total_disk_bytes: 0,
        available_disk_bytes: 0,
        network_received_bytes: 0,
        network_transmitted_bytes: 0,
        total_network_received_bytes: 0,
        total_network_transmitted_bytes: 0,
    }
}

fn key_t(captured_at_ms: u64) -> PendingKeyboardEvent {
    PendingKeyboardEvent {
        captured_at_ms,
        device_ptr: Some("0xffff".to_owned()),
        key: KeyboardKeyEvent {
            linux_code: 20,
            key_name: "KEY_T".to_owned(),
            state: KeyState::Down,
            raw_scancode: Some(458775),
            modifiers: Modifiers::default(),
        },
    }
}

fn process(name: &str) -> ProcessSummary {
    ProcessSummary {
        pid: "1".to_owned(),
        name: name.to_owned(),
        cpu_usage_pct: 1.5f32.to_bits(),
        memory_bytes: 10,
        virtual_memory_bytes: 20,
        status: "Run".to_owned(),
    }
}

#[test]
fn prunes_by_capacity_and_time() {
    let mut store = TelemetryStore::new(node(), TimeSpan::from_secs(2), TimeSpan::from_secs(1), 3);

    for timestamp in [1_000_u64, 2_000, 3_000, 4_000] {
        store.insert(CollectedTelemetry { sample: sample(timestamp, 0.0), top_processes: Vec::new() });
    }

    let response = store.build_history_response(&HistoryRequest::default(), 4_000);
    let timestamps: Vec<u64> = response.samples.into_iter().map(|sample| sample.captured_at_ms).collect();

    assert_eq!(timestamps, vec![2_000, 3_000, 4_000]);
}

#[test]
fn broadcasts_live_updates() {
    let mut store = TelemetryStore::new(node(), TimeSpan::from_secs(2), TimeSpan::from_secs(1), 3);

    let live = store.insert(CollectedTelemetry { sample: sample(1_000, 42.0), top_processes: Vec::new() });

    assert_eq!(live.sample.sequence, 1);
    assert_eq!(f32::from_bits(live.sample.cpu_usage_pct), 42.0);
}

#[test]
fn stores_keyboard_batches_for_history_and_live_streams() {
    let mut store = TelemetryStore::new(node(), TimeSpan::from_secs(5), TimeSpan::from_secs(1), 3);

    let batch = store
        .insert_keyboard_batch(vec![key_t(1_000)], 1_005, 2)
        .expect("expected keyboard live batch");
    assert_eq!(batch.dropped_events, 2);
    assert_eq!(batch.events.len(), 1);
    assert_eq!(batch.events[0].sequence, 1);

    let history = store.build_keyboard_history_response(None, None, 1_010);
    assert_eq!(history.dropped_events, 2);
    assert_eq!(history.events.len(), 1);
    assert_eq!(history.events[0].key.key_name, "KEY_T");
}

#[test]
fn history_reads_back_latest_sample_with_lookback_and_processes() {
    let mut store = TelemetryStore::new(node(), TimeSpan::from_secs(60), TimeSpan::from_millis(1_500), 10);
    store.insert(CollectedTelemetry { sample: sample(1_000, 1.0), top_processes: vec![process("a")] });
    store.insert(CollectedTelemetry {
        sample: sample(9_000, 2.0),
        top_processes: vec![process("b"), process("c"), process("d")],
    });

    let request = HistoryRequest { lookback_secs: Some(5), include_processes: true, max_processes: Some(2) };
    let response = store.build_history_response(&request, 10_000);
    assert_eq!(response.samples.len(), 1);
    assert_eq!(response.samples[0].sequence, 2);
    assert_eq!(response.samples[0].captured_at_ms, 9_000);
    assert_eq!(response.sample_interval_ms, 1_500);
    assert_eq!(response.retention_secs, 60);
    let names: Vec<&str> = response.top_processes.iter().map(|p| p.name.as_str()).collect();
    assert_eq!(names, vec!["b", "c"]);

    let hidden = HistoryRequest { lookback_secs: None, include_processes: false, max_processes: None };
    let response = store.build_history_response(&hidden, 10_000);
    assert_eq!(response.samples.len(), 2);
    assert!(response.top_processes.is_empty());

    let huge = HistoryRequest { lookback_secs: Some(u64::MAX), include_processes: true, max_processes: None };
    assert_eq!(store.build_history_response(&huge, 10_000).samples.len(), 2);
}

#[test]
fn empty_keyboard_batch_only_counts_drops() {
    let mut store = TelemetryStore::new(node(), TimeSpan::from_secs(5), TimeSpan::from_secs(1), 3);
    assert!(store.insert_keyboard_batch(Vec::new(), 1, 4).is_none());
    assert!(store.insert_keyboard_batch(Vec::new(), 2, u64::MAX).is_none());
    let status = store.build_keyboard_status_snapshot(3);
    assert_eq!(status.dropped_events, u64::MAX);
    assert_eq!(status.retained_events, 0);
    assert_eq!(status.next_sequence, 1);
    assert_eq!(status.max_events, 1_024);
    assert_eq!(status.live_subscribers, 3);
    assert_eq!(status.oldest_event_at_ms, None);
}

#[test]
fn keyboard_history_limits_and_prunes_by_retention() {
    let mut store = TelemetryStore::new(node(), TimeSpan::from_secs(5), TimeSpan::from_secs(1), 100);
    store.insert_keyboard_batch(vec![key_t(1_000), key_t(2_000), key_t(3_000)], 3_000, 0);
    store.insert_keyboard_batch(vec![key_t(8_000)], 8_000, 0);

    let status = store.build_keyboard_status_snapshot(0);
    assert_eq!(status.max_events, 6_400);
    assert_eq!(status.retained_events, 2);
    assert_eq!(status.oldest_event_at_ms, Some(3_000));
    assert_eq!(status.newest_event_at_ms, Some(8_000));
    assert_eq!(status.next_sequence, 5);

    let history = store.build_keyboard_history_response(None, Some(1), 9_000);
    assert_eq!(history.events.len(), 1);
    assert_eq!(history.events[0].sequence, 4);
    assert_eq!(history.retention_secs, 5);

    let history = store.build_keyboard_history_response(Some(2), None, 9_000);
    assert_eq!(history.events.len(), 1);
    assert_eq!(history.events[0].captured_at_ms, 8_000);
}

#[test]
fn zero_capacity_store_keeps_nothing() {
    let mut store = TelemetryStore::new(node(), TimeSpan::from_secs(5), TimeSpan::from_secs(1), 0);
    let live = store.insert(CollectedTelemetry { sample: sample(1, 0.0), top_processes: Vec::new() });
    assert_eq!(live.sample.sequence, 1);
    assert!(store.build_history_response(&HistoryRequest::default(), 1).samples.is_empty());
}
