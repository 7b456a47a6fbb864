//! The keyboard trace service: filters, configuration, the runtime counters
//! a reader and a processor keep, and the decisions both make for each trace
//! line, queued event and flush. Spawning tasks, reading lines, channels and
//! timers belong to the caller, which feeds the outcomes in here.
use crate::clock::{now_ms, TimeSpan};
use crate::input_keys::{
    decode_step, key_view, KeyState, KeyboardEventDecoder, KeyboardKeyEvent, PendingKeyboardEvent,
    RawInputEvent,
};
use crate::probe::{parse_input_event_fields, spec_input_event_line};
use crate::text::{clone_strings, str_eq};
use vstd::prelude::*;

verus! {

/// A key state a trace filter admits.
#[derive(Clone, Copy, Debug, PartialEq, Eq, Structural)]
pub enum KeyboardTraceStateFilter {
    Up,
    Down,
    Repeat,
}

impl KeyboardTraceStateFilter {
    /// The filter names exactly this state.
    pub open spec fn admits(self, state: KeyState) -> bool {
        match self {
            KeyboardTraceStateFilter::Up => state == KeyState::Up,
            KeyboardTraceStateFilter::Down => state == KeyState::Down,
            KeyboardTraceStateFilter::Repeat => state == KeyState::Repeat,
        }
    }

    pub fn matches(self, state: KeyState) -> (b: bool)
        ensures
            b == self.admits(state),
    {
        match (self, state) {
            (KeyboardTraceStateFilter::Up, KeyState::Up) => true,
            (KeyboardTraceStateFilter::Down, KeyState::Down) => true,
            (KeyboardTraceStateFilter::Repeat, KeyState::Repeat) => true,
            _ => false,
        }
    }
}

/// Which devices and key states the keyboard trace keeps; an empty list
/// admits everything.
#[derive(Debug)]
pub struct KeyboardTraceFilter {
    pub device_ptrs: Vec<String>,
    pub states: Vec<KeyboardTraceStateFilter>,
}

/// A device passes when no devices are listed, or when it is known and
/// listed.
pub open spec fn device_allowed(device_ptrs: Seq<String>, device_ptr: Option<Seq<char>>) -> bool {
    device_ptrs.len() == 0 || (device_ptr matches Some(c) && exists|i: int|
        0 <= i < device_ptrs.len() && #[trigger] device_ptrs[i]@ == c)
}

/// A key state passes when no states are listed, or when a listed filter
/// admits it.
pub open spec fn state_allowed(states: Seq<KeyboardTraceStateFilter>, state: KeyState) -> bool {
    states.len() == 0 || exists|i: int| 0 <= i < states.len() && #[trigger] states[i].admits(state)
}

/// The characters of an optional string slice.
pub open spec fn opt_str_view(s: Option<&str>) -> Option<Seq<char>> {
    match s {
        Some(v) => Some(v@),
        None => None,
    }
}

impl Default for KeyboardTraceFilter {
    /// The filter that admits everything.
    fn default() -> (r: Self)
        ensures
            r.device_ptrs@.len() == 0,
            r.states@.len() == 0,
    {
        KeyboardTraceFilter { device_ptrs: Vec::new(), states: Vec::new() }
    }
}

impl Clone for KeyboardTraceFilter {
    fn clone(&self) -> (r: Self)
        ensures
            r.device_ptrs@ == self.device_ptrs@,
            r.states@ == self.states@,
    {
        let mut states: Vec<KeyboardTraceStateFilter> = Vec::new();
        let mut i: usize = 0;
        while i < self.states.len()
            invariant
                i <= self.states.len(),
                states@ == self.states@.take(i as int),
            decreases self.states.len() - i,
        {
            states.push(self.states[i]);
            assert(states@ =~= self.states@.take(i + 1));
            i += 1;
        }
        assert(self.states@.take(self.states.len() as int) =~= self.states@);
        KeyboardTraceFilter { device_ptrs: clone_strings(&self.device_ptrs), states }
    }
}

impl KeyboardTraceFilter {
    pub fn matches_device(&self, device_ptr: Option<&str>) -> (b: bool)
        ensures
            b == device_allowed(self.device_ptrs@, opt_str_view(device_ptr)),
    {
        if self.device_ptrs.len() == 0 {
            return true;
        }
        let candidate = match device_ptr {
            None => return false,
            Some(c) => c,
        };
        let mut i: usize = 0;
        while i < self.device_ptrs.len()
            invariant
                i <= self.device_ptrs.len(),
                device_ptr == Some(candidate),
                forall|j: int| 0 <= j < i ==> #[trigger] self.device_ptrs@[j]@ != candidate@,
            decreases self.device_ptrs.len() - i,
        {
            if str_eq(self.device_ptrs[i].as_str(), candidate) {
                assert(self.device_ptrs@[i as int]@ == candidate@);
                assert(opt_str_view(device_ptr) == Some(candidate@));
                return true;
            }
            i += 1;
        }
        false
    }

    pub fn matches_key(&self, key: &KeyboardKeyEvent) -> (b: bool)
        ensures
            b == state_allowed(self.states@, key.state),
    {
        if self.states.len() == 0 {
            return true;
        }
        let mut i: usize = 0;
        while i < self.states.len()
            invariant
                i <= self.states.len(),
                forall|j: int| 0 <= j < i ==> !(#[trigger] self.states@[j]).admits(key.state),
            decreases self.states.len() - i,
        {
            if self.states[i].matches(key.state) {
                return true;
            }
            i += 1;
        }
        false
    }
}

/// What the trace reader is doing.
#[derive(Clone, Copy, Debug, PartialEq, Eq, Structural)]
pub enum KeyboardTraceReaderState {
    Starting,
    Running,
    Backoff,
    Stopped,
}

impl Default for KeyboardTraceReaderState {
    fn default() -> (r: Self)
        ensures
            r == KeyboardTraceReaderState::Stopped,
    {
        KeyboardTraceReaderState::Stopped
    }
}

/// A report on the keyboard trace service.
#[derive(Debug)]
pub struct KeyboardTraceStatusSnapshot {
    pub enabled: bool,
    pub source_kind: &'static str,
    pub program: Option<String>,
    pub args: Vec<String>,
    pub socket_path: Option<String>,
    pub reader_state: KeyboardTraceReaderState,
    pub queue_capacity: usize,
    pub queue_depth: usize,
    pub max_batch_size: usize,
    pub flush_interval_ms: u64,
    pub restart_backoff_ms: u64,
    pub restart_count: u64,
    pub total_lines_seen: u64,
    pub total_non_event_lines: u64,
    pub total_parse_errors: u64,
    pub total_filtered_events: u64,
    pub total_enqueued_events: u64,
    pub total_published_events: u64,
    pub total_batches_flushed: u64,
    pub total_dropped_events: u64,
    pub last_started_at_ms: Option<u64>,
    pub last_event_at_ms: Option<u64>,
    pub last_exit_at_ms: Option<u64>,
    pub last_exit_status: Option<String>,
    pub last_error: Option<String>,
    pub filter: KeyboardTraceFilter,
}

impl KeyboardTraceStatusSnapshot {
    /// The report when no keyboard trace is configured: disabled, stopped,
    /// every count zero and every optional field empty.
    pub fn disabled() -> (r: Self)
        ensures
            !r.enabled,
            r.source_kind@ == "disabled"@,
            r.program is None,
            r.args@.len() == 0,
            r.socket_path is None,
            r.reader_state == KeyboardTraceReaderState::Stopped,
            r.queue_capacity == 0,
            r.queue_depth == 0,
            r.max_batch_size == 0,
            r.flush_interval_ms == 0,
            r.restart_backoff_ms == 0,
            r.restart_count == 0,
            r.total_lines_seen == 0,
            r.total_non_event_lines == 0,
            r.total_parse_errors == 0,
            r.total_filtered_events == 0,
            r.total_enqueued_events == 0,
            r.total_published_events == 0,
            r.total_batches_flushed == 0,
            r.total_dropped_events == 0,
            r.last_started_at_ms is None,
            r.last_event_at_ms is None,
            r.last_exit_at_ms is None,
            r.last_exit_status is None,
            r.last_error is None,
            r.filter.device_ptrs@.len() == 0,
            r.filter.states@.len() == 0,
    {
        KeyboardTraceStatusSnapshot {
            enabled: false,
            source_kind: "disabled",
            program: None,
            args: Vec::new(),
            socket_path: None,
            reader_state: KeyboardTraceReaderState::Stopped,
            queue_capacity: 0,
            queue_depth: 0,
            max_batch_size: 0,
            flush_interval_ms: 0,
            restart_backoff_ms: 0,
            restart_count: 0,
            total_lines_seen: 0,
            total_non_event_lines: 0,
            total_parse_errors: 0,
            total_filtered_events: 0,
            total_enqueued_events: 0,
            total_published_events: 0,
            total_batches_flushed: 0,
            total_dropped_events: 0,
            last_started_at_ms: None,
            last_event_at_ms: None,
            last_exit_at_ms: None,
            last_exit_status: None,
            last_error: None,
            filter: KeyboardTraceFilter::default(),
        }
    }
}

/// One millisecond, the smallest interval the service accepts.
pub open spec fn one_milli() -> TimeSpan {
    TimeSpan { secs: 0, nanos: 1_000_000 }
}

/// `d`, raised to one millisecond if it is shorter.
pub open spec fn at_least_one_milli(d: TimeSpan) -> TimeSpan {
    if d.le(one_milli()) {
        one_milli()
    } else {
        d
    }
}

/// `n`, raised to one if it is zero.
pub open spec fn at_least_one(n: usize) -> usize {
    if n < 1 {
        1
    } else {
        n
    }
}

/// Raises a count to at least one.
fn max_one(n: usize) -> (r: usize)
    ensures
        r == at_least_one(n),
{
    if n < 1 {
        1
    } else {
        n
    }
}

/// Raises an interval to at least one millisecond.
fn max_one_milli(d: TimeSpan) -> (r: TimeSpan)
    ensures
        r == at_least_one_milli(d),
{
    d.max(TimeSpan { secs: 0, nanos: 1_000_000 })
}

/// A keyboard trace fed by an external command's standard output.
#[derive(Debug)]
pub struct KeyboardTraceConfig {
    pub program: String,
    pub args: Vec<String>,
    pub channel_capacity: usize,
    pub max_batch_size: usize,
    pub flush_interval: TimeSpan,
    pub restart_backoff: TimeSpan,
    pub filter: KeyboardTraceFilter,
}

impl KeyboardTraceConfig {
    /// The configuration the service runs with: capacity and batch size at
    /// least one, intervals at least one millisecond, the rest unchanged.
    pub fn normalized(self) -> (r: Self)
        ensures
            r.program == self.program,
            r.args == self.args,
            r.channel_capacity == at_least_one(self.channel_capacity),
            r.max_batch_size == at_least_one(self.max_batch_size),
            r.flush_interval == at_least_one_milli(self.flush_interval),
            r.restart_backoff == at_least_one_milli(self.restart_backoff),
            r.filter == self.filter,
    {
        KeyboardTraceConfig {
            program: self.program,
            args: self.args,
            channel_capacity: max_one(self.channel_capacity),
            max_batch_size: max_one(self.max_batch_size),
            flush_interval: max_one_milli(self.flush_interval),
            restart_backoff: max_one_milli(self.restart_backoff),
            filter: self.filter,
        }
    }
}

/// A keyboard trace fed by a sidecar over a Unix socket.
#[derive(Debug)]
pub struct KeyboardTraceSocketConfig {
    pub socket_path: String,
    pub channel_capacity: usize,
    pub max_batch_size: usize,
    pub flush_interval: TimeSpan,
    pub restart_backoff: TimeSpan,
    pub filter: KeyboardTraceFilter,
}

impl KeyboardTraceSocketConfig {
    /// The configuration the service runs with: capacity and batch size at
    /// least one, intervals at least one millisecond, the rest unchanged.
    pub fn normalized(self) -> (r: Self)
        ensures
            r.socket_path == self.socket_path,
            r.channel_capacity == at_least_one(self.channel_capacity),
            r.max_batch_size == at_least_one(self.max_batch_size),
            r.flush_interval == at_least_one_milli(self.flush_interval),
            r.restart_backoff == at_least_one_milli(self.restart_backoff),
            r.filter == self.filter,
    {
        KeyboardTraceSocketConfig {
            socket_path: self.socket_path,
            channel_capacity: max_one(self.channel_capacity),
            max_batch_size: max_one(self.max_batch_size),
            flush_interval: max_one_milli(self.flush_interval),
            restart_backoff: max_one_milli(self.restart_backoff),
            filter: self.filter,
        }
    }
}

/// What the event processor needs: batch size, flush interval and filter.
#[derive(Debug)]
pub struct KeyboardTraceProcessingConfig {
    pub max_batch_size: usize,
    pub flush_interval: TimeSpan,
    pub filter: KeyboardTraceFilter,
}

impl KeyboardTraceProcessingConfig {
    pub fn from_external(config: &KeyboardTraceConfig) -> (r: Self)
        ensures
            r.max_batch_size == config.max_batch_size,
            r.flush_interval == config.flush_interval,
            r.filter.device_ptrs@ == config.filter.device_ptrs@,
            r.filter.states@ == config.filter.states@,
    {
        KeyboardTraceProcessingConfig {
            max_batch_size: config.max_batch_size,
            flush_interval: config.flush_interval,
            filter: config.filter.clone(),
        }
    }

    pub fn from_socket(config: &KeyboardTraceSocketConfig) -> (r: Self)
        ensures
            r.max_batch_size == config.max_batch_size,
            r.flush_interval == config.flush_interval,
            r.filter.device_ptrs@ == config.filter.device_ptrs@,
            r.filter.states@ == config.filter.states@,
    {
        KeyboardTraceProcessingConfig {
            max_batch_size: config.max_batch_size,
            flush_interval: config.flush_interval,
            filter: config.filter.clone(),
        }
    }
}

/// A raw event read from the trace, with the device it came from.
#[derive(Debug, PartialEq, Eq)]
pub struct TraceInputEvent {
    pub device_ptr: Option<String>,
    pub raw_event: RawInputEvent,
}

/// Parses a trace line: `Ok(None)` for lines without a `dev_ptr=` marker
/// (anything before the marker is ignored), the event for well-formed ones,
/// else the first field error.
pub fn parse_bpftrace_line(line: &str) -> (r: Result<Option<TraceInputEvent>, &'static str>)
    ensures
        match (r, spec_input_event_line(line@)) {
            (Ok(None), Ok(None)) => true,
            (Ok(Some(e)), Ok(Some(f))) => e.device_ptr.deep_view() == Some(f.device_ptr)
                && e.raw_event == (RawInputEvent {
                event_type: f.event_type,
                code: f.code,
                value: f.value,
            }),
            (Err(e), Err(m)) => e@ == m,
            _ => false,
        },
{
    match parse_input_event_fields(line) {
        Err(e) => Err(e),
        Ok(None) => Ok(None),
        Ok(Some((device_ptr, event_type, code, value))) => Ok(
            Some(
                TraceInputEvent {
                    device_ptr: Some(device_ptr),
                    raw_event: RawInputEvent::new(event_type, code, value),
                },
            ),
        ),
    }
}

/// A timestamp counter read as an optional value: zero means never.
pub fn load_optional_atomic(value: u64) -> (r: Option<u64>)
    ensures
        r == (if value == 0 {
            None
        } else {
            Some(value)
        }),
{
    if value == 0 {
        None
    } else {
        Some(value)
    }
}

/// What happened when an event was offered to the bounded queue.
#[derive(Clone, Copy, Debug, PartialEq, Eq, Structural)]
pub enum TrySendOutcome {
    Sent,
    Full,
    Closed,
}

/// The state of a running keyboard trace service: its configuration, the
/// reader's state and the counters both tasks keep. Counters wrap on
/// overflow, as atomic counters do.
#[derive(Debug)]
pub struct KeyboardTraceRuntime {
    pub source_kind: &'static str,
    pub program: Option<String>,
    pub args: Vec<String>,
    pub socket_path: Option<String>,
    pub queue_capacity: usize,
    pub max_batch_size: usize,
    pub flush_interval: TimeSpan,
    pub restart_backoff: TimeSpan,
    pub filter: KeyboardTraceFilter,
    pub queue_depth: usize,
    pub total_lines_seen: u64,
    pub total_non_event_lines: u64,
    pub total_parse_errors: u64,
    pub total_filtered_events: u64,
    pub total_enqueued_events: u64,
    pub total_published_events: u64,
    pub total_batches_flushed: u64,
    pub total_dropped_events: u64,
    pub restart_count: u64,
    pub last_started_at_ms: u64,
    pub last_event_at_ms: u64,
    pub last_exit_at_ms: u64,
    pub reader_state: KeyboardTraceReaderState,
    pub last_exit_status: Option<String>,
    pub last_error: Option<String>,
    /// Events dropped since the last flush, reported with the next batch.
    pub pending_dropped_events: u64,
}

impl KeyboardTraceRuntime {
    /// Every counter and timestamp is zero, the reader is stopped and no
    /// exit has been recorded.
    pub open spec fn fresh(&self) -> bool {
        &&& self.queue_depth == 0
        &&& self.total_lines_seen == 0
        &&& self.total_non_event_lines == 0
        &&& self.total_parse_errors == 0
        &&& self.total_filtered_events == 0
        &&& self.total_enqueued_events == 0
        &&& self.total_published_events == 0
        &&& self.total_batches_flushed == 0
        &&& self.total_dropped_events == 0
        &&& self.restart_count == 0
        &&& self.last_started_at_ms == 0
        &&& self.last_event_at_ms == 0
        &&& self.last_exit_at_ms == 0
        &&& self.reader_state == KeyboardTraceReaderState::Stopped
        &&& self.last_exit_status is None
        &&& self.last_error is None
        &&& self.pending_dropped_events == 0
    }

    /// A fresh runtime for an external trace command.
    pub fn new_external(config: &KeyboardTraceConfig) -> (r: Self)
        ensures
            r.fresh(),
            r.source_kind@ == "external_command"@,
            r.program == Some(config.program),
            r.args@ == config.args@,
            r.socket_path is None,
            r.queue_capacity == config.channel_capacity,
            r.max_batch_size == config.max_batch_size,
            r.flush_interval == config.flush_interval,
            r.restart_backoff == config.restart_backoff,
            r.filter.device_ptrs@ == config.filter.device_ptrs@,
            r.filter.states@ == config.filter.states@,
    {
        KeyboardTraceRuntime {
            source_kind: "external_command",
            program: Some(config.program.clone()),
            args: clone_strings(&config.args),
            socket_path: None,
            queue_capacity: config.channel_capacity,
            max_batch_size: config.max_batch_size,
            flush_interval: config.flush_interval,
            restart_backoff: config.restart_backoff,
            filter: config.filter.clone(),
            queue_depth: 0,
            total_lines_seen: 0,
            total_non_event_lines: 0,
            total_parse_errors: 0,
            total_filtered_events: 0,
            total_enqueued_events: 0,
            total_published_events: 0,
            total_batches_flushed: 0,
            total_dropped_events: 0,
            restart_count: 0,
            last_started_at_ms: 0,
            last_event_at_ms: 0,
            last_exit_at_ms: 0,
            reader_state: KeyboardTraceReaderState::Stopped,
            last_exit_status: None,
            last_error: None,
            pending_dropped_events: 0,
        }
    }

    /// A fresh runtime for a socket-fed trace.
    pub fn new_socket(config: &KeyboardTraceSocketConfig) -> (r: Self)
        ensures
            r.fresh(),
            r.source_kind@ == "unix_socket"@,
            r.program is None,
            r.args@.len() == 0,
            r.socket_path == Some(config.socket_path),
            r.queue_capacity == config.channel_capacity,
            r.max_batch_size == config.max_batch_size,
            r.flush_interval == config.flush_interval,
            r.restart_backoff == config.restart_backoff,
            r.filter.device_ptrs@ == config.filter.device_ptrs@,
            r.filter.states@ == config.filter.states@,
    {
        KeyboardTraceRuntime {
            source_kind: "unix_socket",
            program: None,
            args: Vec::new(),
            socket_path: Some(config.socket_path.clone()),
            queue_capacity: config.channel_capacity,
            max_batch_size: config.max_batch_size,
            flush_interval: config.flush_interval,
            restart_backoff: config.restart_backoff,
            filter: config.filter.clone(),
            queue_depth: 0,
            total_lines_seen: 0,
            total_non_event_lines: 0,
            total_parse_errors: 0,
            total_filtered_events: 0,
            total_enqueued_events: 0,
            total_published_events: 0,
            total_batches_flushed: 0,
            total_dropped_events: 0,
            restart_count: 0,
            last_started_at_ms: 0,
            last_event_at_ms: 0,
            last_exit_at_ms: 0,
            reader_state: KeyboardTraceReaderState::Stopped,
            last_exit_status: None,
            last_error: None,
            pending_dropped_events: 0,
        }
    }

    /// The report on this service: enabled, with its configuration and
    /// counters; intervals in whole milliseconds (truncated to 64 bits);
    /// timestamps that are zero reported as absent.
    pub fn snapshot(&self) -> (r: KeyboardTraceStatusSnapshot)
        ensures
            r.enabled,
            r.source_kind == self.source_kind,
            r.program == self.program,
            r.args@ == self.args@,
            r.socket_path == self.socket_path,
            r.reader_state == self.reader_state,
            r.queue_capacity == self.queue_capacity,
            r.queue_depth == self.queue_depth,
            r.max_batch_size == self.max_batch_size,
            r.flush_interval_ms == self.flush_interval.millis() as u64,
            r.restart_backoff_ms == self.restart_backoff.millis() as u64,
            r.restart_count == self.restart_count,
            r.total_lines_seen == self.total_lines_seen,
            r.total_non_event_lines == self.total_non_event_lines,
            r.total_parse_errors == self.total_parse_errors,
            r.total_filtered_events == self.total_filtered_events,
            r.total_enqueued_events == self.total_enqueued_events,
            r.total_published_events == self.total_published_events,
            r.total_batches_flushed == self.total_batches_flushed,
            r.total_dropped_events == self.total_dropped_events,
            r.last_started_at_ms == (if self.last_started_at_ms == 0 {
                None
            } else {
                Some(self.last_started_at_ms)
            }),
            r.last_event_at_ms == (if self.last_event_at_ms == 0 {
                None
            } else {
                Some(self.last_event_at_ms)
            }),
            r.last_exit_at_ms == (if self.last_exit_at_ms == 0 {
                None
            } else {
                Some(self.last_exit_at_ms)
            }),
            r.last_exit_status == self.last_exit_status,
            r.last_error == self.last_error,
            r.filter.device_ptrs@ == self.filter.device_ptrs@,
            r.filter.states@ == self.filter.states@,
    {
        KeyboardTraceStatusSnapshot {
            enabled: true,
            source_kind: self.source_kind,
            program: clone_opt(&self.program),
            args: clone_strings(&self.args),
            socket_path: clone_opt(&self.socket_path),
            reader_state: self.reader_state,
            queue_capacity: self.queue_capacity,
            queue_depth: self.queue_depth,
            max_batch_size: self.max_batch_size,
            flush_interval_ms: self.flush_interval.as_millis() as u64,
            restart_backoff_ms: self.restart_backoff.as_millis() as u64,
            restart_count: self.restart_count,
            total_lines_seen: self.total_lines_seen,
            total_non_event_lines: self.total_non_event_lines,
            total_parse_errors: self.total_parse_errors,
            total_filtered_events: self.total_filtered_events,
            total_enqueued_events: self.total_enqueued_events,
            total_published_events: self.total_published_events,
            total_batches_flushed: self.total_batches_flushed,
            total_dropped_events: self.total_dropped_events,
            last_started_at_ms: load_optional_atomic(self.last_started_at_ms),
            last_event_at_ms: load_optional_atomic(self.last_event_at_ms),
            last_exit_at_ms: load_optional_atomic(self.last_exit_at_ms),
            last_exit_status: clone_opt(&self.last_exit_status),
            last_error: clone_opt(&self.last_error),
            filter: self.filter.clone(),
        }
    }

    /// The reader is (re)starting: the start time is the clock's reading, the
    /// last error is cleared; nothing else changes.
    pub fn mark_starting(&mut self)
        ensures
            final(self).reader_state == KeyboardTraceReaderState::Starting,
            final(self).last_error is None,
            *final(self) == (KeyboardTraceRuntime {
                reader_state: KeyboardTraceReaderState::Starting,
                last_error: None,
                last_started_at_ms: final(self).last_started_at_ms,
                ..*old(self)
            }),
    {
        self.last_started_at_ms = now_ms();
        self.reader_state = KeyboardTraceReaderState::Starting;
        self.last_error = None;
    }

    /// The reader is running; the last error is cleared.
    pub fn mark_running(&mut self)
        ensures
            *final(self) == (KeyboardTraceRuntime {
                reader_state: KeyboardTraceReaderState::Running,
                last_error: None,
                ..*old(self)
            }),
    {
        self.reader_state = KeyboardTraceReaderState::Running;
        self.last_error = None;
    }

    /// The reader waits before restarting; the exit time is the clock's
    /// reading and the exit status and error are recorded.
    pub fn mark_backoff(&mut self, exit_status: Option<String>, error: Option<String>)
        ensures
            *final(self) == (KeyboardTraceRuntime {
                reader_state: KeyboardTraceReaderState::Backoff,
                last_exit_status: exit_status,
                last_error: error,
                last_exit_at_ms: final(self).last_exit_at_ms,
                ..*old(self)
            }),
    {
        self.last_exit_at_ms = now_ms();
        self.reader_state = KeyboardTraceReaderState::Backoff;
        self.last_exit_status = exit_status;
        self.last_error = error;
    }

    /// The reader has stopped for good; the exit time is the clock's reading
    /// and the exit status and error are recorded.
    pub fn mark_stopped(&mut self, exit_status: Option<String>, error: Option<String>)
        ensures
            *final(self) == (KeyboardTraceRuntime {
                reader_state: KeyboardTraceReaderState::Stopped,
                last_exit_status: exit_status,
                last_error: error,
                last_exit_at_ms: final(self).last_exit_at_ms,
                ..*old(self)
            }),
    {
        self.last_exit_at_ms = now_ms();
        self.reader_state = KeyboardTraceReaderState::Stopped;
        self.last_exit_status = exit_status;
        self.last_error = error;
    }

    /// The end of one reader attempt: with the queue closed the reader stops
    /// (and `true` is returned); otherwise it counts a restart and backs off.
    pub fn finish_attempt(&mut self, exit_status: Option<String>, error: Option<String>, queue_closed: bool) -> (stop: bool)
        ensures
            stop == queue_closed,
            queue_closed ==> *final(self) == (KeyboardTraceRuntime {
                reader_state: KeyboardTraceReaderState::Stopped,
                last_exit_status: exit_status,
                last_error: error,
                last_exit_at_ms: final(self).last_exit_at_ms,
                ..*old(self)
            }),
            !queue_closed ==> *final(self) == (KeyboardTraceRuntime {
                reader_state: KeyboardTraceReaderState::Backoff,
                last_exit_status: exit_status,
                last_error: error,
                last_exit_at_ms: final(self).last_exit_at_ms,
                restart_count: old(self).restart_count.wrapping_add(1),
                ..*old(self)
            }),
    {
        if queue_closed {
            self.mark_stopped(exit_status, error);
            true
        } else {
            self.restart_count = self.restart_count.wrapping_add(1);
            self.mark_backoff(exit_status, error);
            false
        }
    }

    /// The end of one run of the trace command: its exit status, or the
    /// error that ended the attempt.
    pub fn command_attempt_finished(&mut self, outcome: Result<String, String>, queue_closed: bool) -> (stop: bool)
        ensures
            stop == queue_closed,
            final(self).reader_state == (if queue_closed {
                KeyboardTraceReaderState::Stopped
            } else {
                KeyboardTraceReaderState::Backoff
            }),
            final(self).restart_count == (if queue_closed {
                old(self).restart_count
            } else {
                old(self).restart_count.wrapping_add(1)
            }),
            match outcome {
                Ok(status) => final(self).last_exit_status == Some(status)
                    && final(self).last_error is None,
                Err(e) => final(self).last_exit_status is None && final(self).last_error == Some(e),
            },
    {
        match outcome {
            Ok(status) => self.finish_attempt(Some(status), None, queue_closed),
            Err(e) => self.finish_attempt(None, Some(e), queue_closed),
        }
    }

    /// The end of one socket session: the peer disconnected, or the session
    /// failed with an error.
    pub fn socket_attempt_finished(&mut self, outcome: Result<(), String>, queue_closed: bool) -> (stop: bool)
        ensures
            stop == queue_closed,
            final(self).reader_state == (if queue_closed {
                KeyboardTraceReaderState::Stopped
            } else {
                KeyboardTraceReaderState::Backoff
            }),
            final(self).restart_count == (if queue_closed {
                old(self).restart_count
            } else {
                old(self).restart_count.wrapping_add(1)
            }),
            match outcome {
                Ok(()) => final(self).last_error is None && final(self).last_exit_status.deep_view()
                    == Some(
                    if queue_closed {
                        "socket closed"@
                    } else {
                        "socket peer disconnected"@
                    },
                ),
                Err(e) => final(self).last_exit_status is None && final(self).last_error == Some(e),
            },
    {
        match outcome {
            Ok(()) => {
                let status = if queue_closed {
                    String::from_str("socket closed")
                } else {
                    String::from_str("socket peer disconnected")
                };
                self.finish_attempt(Some(status), None, queue_closed)
            },
            Err(e) => self.finish_attempt(None, Some(e), queue_closed),
        }
    }

    /// One line read from the trace: counted, then parsed. Lines without an
    /// event and lines that fail to parse are counted as such; events from
    /// devices the filter rejects are counted as filtered. Only an admitted
    /// event is returned, to be offered to the queue.
    pub fn record_line(&mut self, line: &str) -> (r: Option<TraceInputEvent>)
        ensures
            final(self).total_lines_seen == old(self).total_lines_seen.wrapping_add(1),
            match spec_input_event_line(line@) {
                Ok(None) => r is None && *final(self) == (KeyboardTraceRuntime {
                    total_lines_seen: final(self).total_lines_seen,
                    total_non_event_lines: old(self).total_non_event_lines.wrapping_add(1),
                    ..*old(self)
                }),
                Err(_) => r is None && *final(self) == (KeyboardTraceRuntime {
                    total_lines_seen: final(self).total_lines_seen,
                    total_parse_errors: old(self).total_parse_errors.wrapping_add(1),
                    ..*old(self)
                }),
                Ok(Some(f)) => if device_allowed(old(self).filter.device_ptrs@, Some(f.device_ptr)) {
                    r matches Some(e) && e.device_ptr.deep_view() == Some(f.device_ptr)
                        && e.raw_event == (RawInputEvent {
                        event_type: f.event_type,
                        code: f.code,
                        value: f.value,
                    }) && *final(self) == (KeyboardTraceRuntime {
                        total_lines_seen: final(self).total_lines_seen,
                        ..*old(self)
                    })
                } else {
                    r is None && *final(self) == (KeyboardTraceRuntime {
                        total_lines_seen: final(self).total_lines_seen,
                        total_filtered_events: old(self).total_filtered_events.wrapping_add(1),
                        ..*old(self)
                    })
                },
            },
    {
        self.total_lines_seen = self.total_lines_seen.wrapping_add(1);
        match parse_bpftrace_line(line) {
            Ok(Some(event)) => {
                let admitted = match &event.device_ptr {
                    Some(d) => self.filter.matches_device(Some(d.as_str())),
                    None => self.filter.matches_device(None),
                };
                if !admitted {
                    self.total_filtered_events = self.total_filtered_events.wrapping_add(1);
                    None
                } else {
                    Some(event)
                }
            },
            Ok(None) => {
                self.total_non_event_lines = self.total_non_event_lines.wrapping_add(1);
                None
            },
            Err(_) => {
                self.total_parse_errors = self.total_parse_errors.wrapping_add(1);
                None
            },
        }
    }

    /// The outcome of offering an event to the queue: a sent event deepens
    /// the queue and stamps the last-event time with the clock's reading; a
    /// full queue drops the event and counts it; a closed queue ends the
    /// reader with an error.
    pub fn record_send(&mut self, outcome: TrySendOutcome) -> (r: Result<(), &'static str>)
        ensures
            match outcome {
                TrySendOutcome::Sent => r is Ok && *final(self) == (KeyboardTraceRuntime {
                    queue_depth: old(self).queue_depth.wrapping_add(1),
                    total_enqueued_events: old(self).total_enqueued_events.wrapping_add(1),
                    last_event_at_ms: final(self).last_event_at_ms,
                    ..*old(self)
                }),
                TrySendOutcome::Full => r is Ok && *final(self) == (KeyboardTraceRuntime {
                    pending_dropped_events: old(self).pending_dropped_events.wrapping_add(1),
                    total_dropped_events: old(self).total_dropped_events.wrapping_add(1),
                    ..*old(self)
                }),
                TrySendOutcome::Closed => r matches Err(e) && e@ == "keyboard trace processor closed"@
                    && *final(self) == *old(self),
            },
    {
        match outcome {
            TrySendOutcome::Sent => {
                self.queue_depth = self.queue_depth.wrapping_add(1);
                self.total_enqueued_events = self.total_enqueued_events.wrapping_add(1);
                self.last_event_at_ms = now_ms();
                Ok(())
            },
            TrySendOutcome::Full => {
                self.pending_dropped_events = self.pending_dropped_events.wrapping_add(1);
                self.total_dropped_events = self.total_dropped_events.wrapping_add(1);
                Ok(())
            },
            TrySendOutcome::Closed => Err("keyboard trace processor closed"),
        }
    }
}

/// A copy of an optional string.
fn clone_opt(s: &Option<String>) -> (r: Option<String>)
    ensures
        r == *s,
{
    match s {
        Some(v) => Some(v.clone()),
        None => None,
    }
}

/// The event processor: decodes queued events, filters them by key state and
/// gathers them into batches.
#[derive(Debug)]
pub struct KeyboardTraceProcessor {
    pub decoder: KeyboardEventDecoder,
    pub batch: Vec<PendingKeyboardEvent>,
    pub config: KeyboardTraceProcessingConfig,
}

impl KeyboardTraceProcessor {
    /// A processor with a fresh decoder and an empty batch.
    pub fn new(config: KeyboardTraceProcessingConfig) -> (r: Self)
        ensures
            r.decoder@ == (crate::input_keys::DecoderModel {
                pending_scan: None,
                modifiers: crate::input_keys::Modifiers {
                    ctrl: false,
                    shift: false,
                    alt: false,
                    meta: false,
                },
            }),
            r.batch@.len() == 0,
            r.config == config,
    {
        KeyboardTraceProcessor {
            decoder: KeyboardEventDecoder::default(),
            batch: Vec::new(),
            config,
        }
    }

    /// One event taken from the queue: the queue gets shallower and the event
    /// is decoded. A key event whose state the filter rejects is counted as
    /// filtered; an admitted one joins the batch, stamped with the clock's
    /// reading. Returns whether the batch should be flushed now (never for a
    /// rejected key event).
    pub fn on_event(&mut self, event: TraceInputEvent, runtime: &mut KeyboardTraceRuntime) -> (flush: bool)
        ensures
            final(self).decoder@ == decode_step(old(self).decoder@, event.raw_event).0,
            final(self).config == old(self).config,
            final(runtime).queue_depth == old(runtime).queue_depth.wrapping_sub(1),
            match decode_step(old(self).decoder@, event.raw_event).1 {
                None => final(self).batch@ == old(self).batch@ && *final(runtime) == (
                KeyboardTraceRuntime { queue_depth: final(runtime).queue_depth, ..*old(runtime) })
                    && flush == (final(self).batch@.len() >= old(self).config.max_batch_size),
                Some(k) => if state_allowed(old(self).config.filter.states@, k.state) {
                    final(self).batch@.len() == old(self).batch@.len() + 1 && final(self).batch@.drop_last()
                        == old(self).batch@ && final(self).batch@.last().device_ptr
                        == event.device_ptr && key_view(final(self).batch@.last().key) == k
                        && *final(runtime) == (KeyboardTraceRuntime {
                        queue_depth: final(runtime).queue_depth,
                        ..*old(runtime)
                    }) && flush == (final(self).batch@.len() >= old(self).config.max_batch_size)
                } else {
                    final(self).batch@ == old(self).batch@ && !flush && *final(runtime) == (
                    KeyboardTraceRuntime {
                        queue_depth: final(runtime).queue_depth,
                        total_filtered_events: old(runtime).total_filtered_events.wrapping_add(1),
                        ..*old(runtime)
                    })
                },
            },
    {
        runtime.queue_depth = runtime.queue_depth.wrapping_sub(1);
        match self.decoder.decode_event(event.raw_event) {
            Some(decoded) => {
                if !self.config.filter.matches_key(&decoded) {
                    runtime.total_filtered_events = runtime.total_filtered_events.wrapping_add(1);
                    return false;
                }
                let ghost before = self.batch@;
                self.batch.push(
                    PendingKeyboardEvent {
                        captured_at_ms: now_ms(),
                        device_ptr: event.device_ptr,
                        key: decoded,
                    },
                );
                assert(self.batch@.drop_last() =~= before);
            },
            None => {},
        }
        self.batch.len() >= self.config.max_batch_size
    }

    /// On a timer tick the batch is flushed when it holds events or when
    /// dropped events wait to be reported.
    pub fn needs_flush_on_tick(&self, runtime: &KeyboardTraceRuntime) -> (b: bool)
        ensures
            b == (self.batch@.len() > 0 || runtime.pending_dropped_events > 0),
    {
        self.batch.len() > 0 || runtime.pending_dropped_events > 0
    }

    /// Takes the batch to publish together with the number of events dropped
    /// since the last flush (resetting that number): `None` when there is
    /// neither. A flush counts one batch and its events as published.
    pub fn take_flush(&mut self, runtime: &mut KeyboardTraceRuntime) -> (r: Option<
        (Vec<PendingKeyboardEvent>, u64),
    >)
        ensures
            final(self).decoder == old(self).decoder,
            final(self).config == old(self).config,
            final(runtime).pending_dropped_events == 0,
            final(self).batch@.len() == 0,
            match r {
                None => old(self).batch@.len() == 0 && old(runtime).pending_dropped_events == 0
                    && *final(runtime) == *old(runtime),
                Some((events, dropped)) => (old(self).batch@.len() > 0 || dropped > 0) && events@
                    == old(self).batch@ && dropped == old(runtime).pending_dropped_events
                    && *final(runtime) == (KeyboardTraceRuntime {
                    pending_dropped_events: 0,
                    total_batches_flushed: old(runtime).total_batches_flushed.wrapping_add(1),
                    total_published_events: old(runtime).total_published_events.wrapping_add(
                        old(self).batch@.len() as u64,
                    ),
                    ..*old(runtime)
                }),
            },
    {
        let dropped = runtime.pending_dropped_events;
        runtime.pending_dropped_events = 0;
        if self.batch.len() == 0 && dropped == 0 {
            return None;
        }
        let mut events: Vec<PendingKeyboardEvent> = Vec::new();
        std::mem::swap(&mut events, &mut self.batch);
        let count = events.len();
        runtime.total_batches_flushed = runtime.total_batches_flushed.wrapping_add(1);
        runtime.total_published_events = runtime.total_published_events.wrapping_add(count as u64);
        Some((events, dropped))
    }
}

/// A key-state filter admits exactly the state it names: `Up` only key
/// releases, `Down` only presses, `Repeat` only repeats.
pub proof fn law_state_filter_admits_its_own_state(f: KeyboardTraceStateFilter, s: KeyState)
    ensures
        f.admits(s) <==> ((f == KeyboardTraceStateFilter::Up && s == KeyState::Up) || (f
            == KeyboardTraceStateFilter::Down && s == KeyState::Down) || (f
            == KeyboardTraceStateFilter::Repeat && s == KeyState::Repeat)),
{
}

/// A list of key-state filters passes a key state exactly when the list is
/// empty or one of its filters names that state; so a list of `Down` alone
/// turns repeats and releases away.
pub proof fn law_state_filters_pass_named_states(states: Seq<KeyboardTraceStateFilter>, s: KeyState)
    ensures
        state_allowed(states, s) <==> (states.len() == 0 || exists|i: int|
            0 <= i < states.len() && ((#[trigger] states[i] == KeyboardTraceStateFilter::Up && s
                == KeyState::Up) || (states[i] == KeyboardTraceStateFilter::Down && s
                == KeyState::Down) || (states[i] == KeyboardTraceStateFilter::Repeat && s
                == KeyState::Repeat))),
        states == seq![KeyboardTraceStateFilter::Down] ==> !state_allowed(states, KeyState::Repeat)
            && !state_allowed(states, KeyState::Up) && state_allowed(states, KeyState::Down),
{
    assert forall|i: int| 0 <= i < states.len() implies ((#[trigger] states[i]).admits(s) <==> ((
    states[i] == KeyboardTraceStateFilter::Up && s == KeyState::Up) || (states[i]
        == KeyboardTraceStateFilter::Down && s == KeyState::Down) || (states[i]
        == KeyboardTraceStateFilter::Repeat && s == KeyState::Repeat))) by {}
    if states == seq![KeyboardTraceStateFilter::Down] {
        assert(states[0].admits(KeyState::Down));
    }
}

/// The device filter is list membership: with no devices listed every event
/// passes; otherwise an event passes exactly when its device equals one of
/// the listed devices, at whatever position, and an event without a device
/// never passes.
pub proof fn law_device_filter_is_membership(device_ptrs: Seq<String>, candidate: Seq<char>)
    ensures
        device_ptrs.len() == 0 ==> device_allowed(device_ptrs, Some(candidate)) && device_allowed(
            device_ptrs,
            None,
        ),
        device_ptrs.len() > 0 ==> !device_allowed(device_ptrs, None),
        forall|i: int|
            0 <= i < device_ptrs.len() ==> device_allowed(
                device_ptrs,
                Some(#[trigger] device_ptrs[i]@),
            ),
        (device_ptrs.len() > 0 && forall|i: int|
            0 <= i < device_ptrs.len() ==> #[trigger] device_ptrs[i]@ != candidate) ==> !device_allowed(
            device_ptrs,
            Some(candidate),
        ),
{
}

/// Normalising a setting never lowers it: a count becomes at least one and
/// is kept when it already is; an interval becomes at least one millisecond
/// and is kept when it is longer.
pub proof fn law_normalization_only_raises(n: usize, d: TimeSpan)
    requires
        d.wf(),
    ensures
        at_least_one(n) >= 1,
        n >= 1 ==> at_least_one(n) == n,
        at_least_one_milli(d).millis() >= 1,
        at_least_one_milli(d).millis() >= d.millis(),
        d.millis() > 1 ==> at_least_one_milli(d) == d,
{
}

} // verus!
