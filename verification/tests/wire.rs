use watchmedo::clock::{epoch_millis_or_zero, now_ms, TimeSpan};
use watchmedo::collector::{interval_fits, saturating_total, CollectorConfig};
use watchmedo::frame::{encode_frame, frame_length, FrameError};
use watchmedo::protocol::{HistoryRequest, HistoryResponse};

#[test]
fn frames_carry_little_endian_length_then_payload() {
    let frame = encode_frame(b"hello").unwrap();
    assert_eq!(frame, vec![5, 0, 0, 0, b'h', b'e', b'l', b'l', b'o']);
    assert_eq!(frame_length([frame[0], frame[1], frame[2], frame[3]]), 5);
    let big = vec![7u8; 70_000];
    let frame = encode_frame(&big).unwrap();
    assert_eq!(&frame[..4], &70_000u32.to_le_bytes());
    assert_eq!(frame_length([0x78, 0x56, 0x34, 0x12]), 0x1234_5678);
    assert_eq!(encode_frame(&[]).unwrap(), vec![0, 0, 0, 0]);
    let _ = FrameError::MessageTooLarge;
}

#[test]
fn totals_saturate() {
    assert_eq!(saturating_total(&vec![1, 2, 3]), 6);
    assert_eq!(saturating_total(&vec![u64::MAX - 1, 5, 1]), u64::MAX);
    assert_eq!(saturating_total(&Vec::new()), 0);
}

#[test]
fn collector_interval_overflow_is_detected() {
    let ok = CollectorConfig { interval: TimeSpan::from_secs(1), top_processes: 8 };
    assert!(interval_fits(&ok, TimeSpan::from_millis(200)));
    let huge = CollectorConfig { interval: TimeSpan { secs: u64::MAX, nanos: 900_000_000 }, top_processes: 8 };
    assert!(!interval_fits(&huge, TimeSpan::from_millis(200)));
    assert!(interval_fits(&huge, TimeSpan::from_millis(50)));
}

#[test]
fn time_spans_behave_like_durations() {
    let d = TimeSpan::from_millis(2_345);
    assert_eq!(d.as_secs(), 2);
    assert_eq!(d.as_millis(), 2_345);
    assert_eq!(d.max(TimeSpan::from_millis(1)), d);
    assert_eq!(TimeSpan::from_millis(0).max(TimeSpan::from_millis(1)), TimeSpan::from_millis(1));
    assert_eq!(
        TimeSpan::from_millis(1_600).checked_add(TimeSpan::from_millis(600)),
        Some(TimeSpan::from_millis(2_200))
    );
}

#[test]
fn clock_reports_epoch_millis() {
    assert_eq!(epoch_millis_or_zero(None), 0);
    assert_eq!(epoch_millis_or_zero(Some(1_700_000_000_123)), 1_700_000_000_123);
    assert_eq!(epoch_millis_or_zero(Some((1u128 << 64) + 5)), 5);
    assert!(now_ms() > 1_600_000_000_000);
}

#[test]
fn web_queries_include_processes_by_default() {
    let r = HistoryRequest::from_query(Some(3), None, Some(2));
    assert_eq!(r, HistoryRequest { lookback_secs: Some(3), include_processes: true, max_processes: Some(2) });
    assert!(!HistoryRequest::from_query(None, Some(false), None).include_processes);
}

#[test]
fn unexpected_requests_get_an_empty_history() {
    let r = HistoryResponse::empty(42);
    assert_eq!(r.generated_at_ms, 42);
    assert_eq!(r.retention_secs, 0);
    assert_eq!(r.sample_interval_ms, 0);
    assert_eq!(r.node.host_name, None);
    assert_eq!(r.node.system_name, None);
    assert_eq!(r.node.os_version, None);
    assert_eq!(r.node.kernel_version, None);
    assert_eq!(r.node.cpu_count, 0);
    assert_eq!(r.node.physical_core_count, None);
    assert!(r.samples.is_empty());
    assert!(r.top_processes.is_empty());
}
