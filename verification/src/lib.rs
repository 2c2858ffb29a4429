//! Chain-abstraction and event-decoding core of a contract command-line tool:
//! a registry of named chain configurations with runtime dispatch, signer
//! handling for the supported signature schemes, and a pipeline that turns a
//! transaction's raw event log into structured, displayable events.
pub mod config;
pub mod display;
pub mod events;
pub mod json;
pub mod text;

use vstd::prelude::*;

verus! {

/// Width of the key column in the human-readable event listing.
pub const DEFAULT_KEY_COL_WIDTH: usize = 13;

} // verus!
