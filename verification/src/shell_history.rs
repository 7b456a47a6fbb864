//! Records of shell commands observed by the shell probe.
use vstd::prelude::*;

verus! {

/// A shell command waiting to be stored, with its capture time.
#[derive(Clone, Debug, PartialEq, Eq)]
pub struct PendingShellCommandEvent {
    pub captured_at_ms: u64,
    pub pid: u32,
    pub uid: u32,
    pub command: String,
    pub executable: Option<String>,
}

/// A stored shell command with its sequence number.
#[derive(Clone, Debug, PartialEq, Eq)]
pub struct ShellCommandEvent {
    pub sequence: u64,
    pub captured_at_ms: u64,
    pub pid: u32,
    pub uid: u32,
    pub command: String,
    pub executable: Option<String>,
}

/// Shell commands published together.
#[derive(Clone, Debug, PartialEq, Eq)]
pub struct ShellCommandBatch {
    pub published_at_ms: u64,
    pub events: Vec<ShellCommandEvent>,
}

/// The answer to a shell history query.
#[derive(Clone, Debug, PartialEq, Eq)]
pub struct ShellHistoryResponse {
    pub generated_at_ms: u64,
    pub retention_secs: u64,
    pub events: Vec<ShellCommandEvent>,
}

} // verus!
