//! EDIFIER S260 local network driver: wire framing, status model, event
//! decoding and the decisions of the control and event loops.
use vstd::prelude::*;

pub mod client;
pub mod error;
pub mod events;
pub mod model;
pub mod protocol;

verus! {

/// Canonical driver identifier for the EDIFIER S260.
pub const MODEL_ID: &'static str = "s260";

/// Verified default TCP control port for the S260.
pub const DEFAULT_PORT: u16 = 8080;

} // verus!
