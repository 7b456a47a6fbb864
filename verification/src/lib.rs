//! Verified core of the watchmedo desktop telemetry node.
use vstd::prelude::*;

pub mod client;
pub mod clock;
pub mod collector;
pub mod frame;
pub mod input_keys;
pub mod input_trace;
pub mod paths;
pub mod probe;
pub mod protocol;
pub mod shell_history;
pub mod sidecar;
pub mod state;
pub mod text;

verus! {

} // verus!
