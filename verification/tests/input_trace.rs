use watchmedo::clock::TimeSpan;
use watchmedo::input_keys::{KeyState, KeyboardKeyEvent, Modifiers, RawInputEvent, EV_KEY, EV_MSC, MSC_SCAN};
use watchmedo::input_trace::{
    load_optional_atomic, parse_bpftrace_line, KeyboardTraceConfig, KeyboardTraceFilter,
    KeyboardTraceProcessingConfig, KeyboardTraceProcessor, KeyboardTraceReaderState,
    KeyboardTraceRuntime, KeyboardTraceSocketConfig, KeyboardTraceStateFilter,
    KeyboardTraceStatusSnapshot, TraceInputEvent, TrySendOutcome,
};

#[test]
fn parses_plain_bpftrace_lines() {
    let parsed = parse_bpftrace_line("dev_ptr=0xffff894a62670000 type=1 code=20 value=1")
        .expect("expected valid parse result")
        .expect("expected parsed trace line");

    assert_eq!(parsed.device_ptr.as_deref(), Some("0xffff894a62670000"));
    assert_eq!(parsed.raw_event.event_type, 1);
    assert_eq!(parsed.raw_event.code, 20);
    assert_eq!(parsed.raw_event.value, 1);
}

#[test]
fn ignores_tty_prefix_noise_before_dev_ptr_marker() {
    let parsed = parse_bpftrace_line("tdev_ptr=0xffff894a62670000 type=1 code=20 value=1")
        .expect("expected valid parse result")
        .expect("expected parsed trace line");

    assert_eq!(parsed.device_ptr.as_deref(), Some("0xffff894a62670000"));
    assert_eq!(parsed.raw_event.code, 20);
}

#[test]
fn rejects_non_matching_lines() {
    assert!(parse_bpftrace_line("Attached 1 probe")
        .expect("expected ignored line")
        .is_none());
}

#[test]
fn filters_device_ptrs_and_key_states() {
    let filter = KeyboardTraceFilter {
        device_ptrs: vec!["0xffff894a62670000".to_owned()],
        states: vec![KeyboardTraceStateFilter::Down],
    };

    assert!(filter.matches_device(Some("0xffff894a62670000")));
    assert!(!filter.matches_device(Some("0xffffdeadbeef")));
    assert!(filter.matches_key(&KeyboardKeyEvent {
        linux_code: 20,
        key_name: "KEY_T".to_owned(),
        state: KeyState::Down,
        raw_scancode: Some(458775),
        modifiers: Modifiers::default(),
    }));
    assert!(!filter.matches_key(&KeyboardKeyEvent {
        linux_code: 20,
        key_name: "KEY_T".to_owned(),
        state: KeyState::Up,
        raw_scancode: Some(458775),
        modifiers: Modifiers::default(),
    }));
}

#[test]
fn empty_filter_admits_everything_but_listed_devices_need_a_device() {
    let open = KeyboardTraceFilter::default();
    assert!(open.matches_device(None));
    assert!(open.matches_device(Some("x")));
    let listed = KeyboardTraceFilter { device_ptrs: vec!["a".to_owned()], states: Vec::new() };
    assert!(!listed.matches_device(None));
    assert!(KeyboardTraceStateFilter::Repeat.matches(KeyState::Repeat));
    assert!(!KeyboardTraceStateFilter::Up.matches(KeyState::Down));
}

#[test]
fn disabled_snapshot_is_empty() {
    let snapshot = KeyboardTraceStatusSnapshot::disabled();
    assert!(!snapshot.enabled);
    assert_eq!(snapshot.source_kind, "disabled");
    assert_eq!(snapshot.reader_state, KeyboardTraceReaderState::Stopped);
    assert_eq!(snapshot.total_lines_seen, 0);
    assert!(snapshot.last_error.is_none());
    assert_eq!(KeyboardTraceReaderState::default(), KeyboardTraceReaderState::Stopped);
}

fn config() -> KeyboardTraceConfig {
    KeyboardTraceConfig {
        program: "bpftrace".to_owned(),
        args: vec!["-e".to_owned()],
        channel_capacity: 0,
        max_batch_size: 0,
        flush_interval: TimeSpan::from_millis(0),
        restart_backoff: TimeSpan::from_millis(1_500),
        filter: KeyboardTraceFilter {
            device_ptrs: vec!["0xa".to_owned()],
            states: vec![KeyboardTraceStateFilter::Down],
        },
    }
    .normalized()
}

#[test]
fn normalization_raises_zero_settings() {
    let c = config();
    assert_eq!(c.channel_capacity, 1);
    assert_eq!(c.max_batch_size, 1);
    assert_eq!(c.flush_interval, TimeSpan::from_millis(1));
    assert_eq!(c.restart_backoff, TimeSpan::from_millis(1_500));
    let s = KeyboardTraceSocketConfig {
        socket_path: "/tmp/x.sock".to_owned(),
        channel_capacity: 7,
        max_batch_size: 3,
        flush_interval: TimeSpan { secs: 0, nanos: 10 },
        restart_backoff: TimeSpan::from_secs(2),
        filter: KeyboardTraceFilter::default(),
    }
    .normalized();
    assert_eq!(s.channel_capacity, 7);
    assert_eq!(s.flush_interval, TimeSpan::from_millis(1));
    let runtime = KeyboardTraceRuntime::new_socket(&s);
    let snap = runtime.snapshot();
    assert_eq!(snap.source_kind, "unix_socket");
    assert_eq!(snap.socket_path.as_deref(), Some("/tmp/x.sock"));
    assert_eq!(snap.restart_backoff_ms, 2_000);
}

#[test]
fn reader_counts_lines_and_filters_devices() {
    let c = config();
    let mut runtime = KeyboardTraceRuntime::new_external(&c);
    assert!(runtime.record_line("Attached 1 probe").is_none());
    assert!(runtime.record_line("dev_ptr=0xb type=1 code=20 value=1").is_none());
    assert!(runtime.record_line("dev_ptr=0xa type=x code=20 value=1").is_none());
    let event = runtime.record_line("dev_ptr=0xa type=1 code=20 value=1").unwrap();
    assert_eq!(event.raw_event, RawInputEvent::new(EV_KEY, 20, 1));
    assert_eq!(runtime.record_send(TrySendOutcome::Sent), Ok(()));
    assert_eq!(runtime.record_send(TrySendOutcome::Full), Ok(()));
    assert_eq!(runtime.record_send(TrySendOutcome::Closed), Err("keyboard trace processor closed"));

    let snap = runtime.snapshot();
    assert_eq!(snap.total_lines_seen, 4);
    assert_eq!(snap.total_non_event_lines, 1);
    assert_eq!(snap.total_filtered_events, 1);
    assert_eq!(snap.total_parse_errors, 1);
    assert_eq!(snap.total_enqueued_events, 1);
    assert_eq!(snap.total_dropped_events, 1);
    assert_eq!(snap.queue_depth, 1);
    assert_eq!(snap.source_kind, "external_command");
    assert_eq!(snap.program.as_deref(), Some("bpftrace"));
    assert!(snap.last_event_at_ms.is_some());
    assert_eq!(runtime.pending_dropped_events, 1);
}

#[test]
fn reader_attempts_back_off_until_the_queue_closes() {
    let c = config();
    let mut runtime = KeyboardTraceRuntime::new_external(&c);
    runtime.mark_starting();
    assert_eq!(runtime.reader_state, KeyboardTraceReaderState::Starting);
    runtime.mark_running();
    assert!(!runtime.command_attempt_finished(Ok("exit status: 1".to_owned()), false));
    assert_eq!(runtime.reader_state, KeyboardTraceReaderState::Backoff);
    assert_eq!(runtime.restart_count, 1);
    assert!(!runtime.socket_attempt_finished(Ok(()), false));
    assert_eq!(runtime.last_exit_status.as_deref(), Some("socket peer disconnected"));
    assert!(runtime.socket_attempt_finished(Err("boom".to_owned()), true));
    assert_eq!(runtime.reader_state, KeyboardTraceReaderState::Stopped);
    assert_eq!(runtime.restart_count, 2);
    assert_eq!(runtime.last_error.as_deref(), Some("boom"));
    assert!(runtime.last_exit_status.is_none());
}

#[test]
fn processor_batches_admitted_key_events() {
    let c = config();
    let mut runtime = KeyboardTraceRuntime::new_external(&c);
    let mut processor = KeyboardTraceProcessor::new(KeyboardTraceProcessingConfig::from_external(&c));
    runtime.queue_depth = 3;
    let scan = TraceInputEvent { device_ptr: Some("0xa".to_owned()), raw_event: RawInputEvent::new(EV_MSC, MSC_SCAN, 7) };
    assert!(!processor.on_event(scan, &mut runtime));
    let up = TraceInputEvent { device_ptr: Some("0xa".to_owned()), raw_event: RawInputEvent::new(EV_KEY, 20, 0) };
    assert!(!processor.on_event(up, &mut runtime));
    assert_eq!(runtime.total_filtered_events, 1);
    assert!(!processor.needs_flush_on_tick(&runtime));
    let down = TraceInputEvent { device_ptr: Some("0xa".to_owned()), raw_event: RawInputEvent::new(EV_KEY, 20, 1) };
    assert!(processor.on_event(down, &mut runtime));
    assert_eq!(runtime.queue_depth, 0);
    assert!(processor.needs_flush_on_tick(&runtime));
    runtime.pending_dropped_events = 2;
    let (events, dropped) = processor.take_flush(&mut runtime).unwrap();
    assert_eq!(events.len(), 1);
    assert_eq!(events[0].key.key_name, "KEY_T");
    assert_eq!(events[0].key.raw_scancode, None);
    assert_eq!(dropped, 2);
    assert_eq!(runtime.total_batches_flushed, 1);
    assert_eq!(runtime.total_published_events, 1);
    assert!(processor.take_flush(&mut runtime).is_none());
}

#[test]
fn optional_timestamps_treat_zero_as_absent() {
    assert_eq!(load_optional_atomic(0), None);
    assert_eq!(load_optional_atomic(5), Some(5));
}
