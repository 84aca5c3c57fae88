//! Verified core of a remote-to-local backup tool: a cancellable,
//! progress-reporting directory mirroring engine over a secure-shell
//! file-transfer channel, with throttled progress events, size-adaptive
//! per-file timeouts, an error classifier, and the surrounding
//! collaborator state (access lock, history log, sealed settings).

pub mod auth;
pub mod classify;
pub mod connect;
pub mod copying;
pub mod engine;
pub mod errors;
pub mod history;
pub mod limits;
pub mod listing;
pub mod mirror;
pub mod settings;
pub mod store;
pub mod text;
pub mod throttle;
pub mod tree;

use vstd::prelude::*;

verus! {

/// Upper bound on directory nesting below the backup root; descending
/// past it is a fatal traversal error, never a silent truncation.
pub const MAX_RECURSION_DEPTH: u64 = 50;

} // verus!
