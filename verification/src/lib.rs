//! A backup engine for remotely hosted version-control repositories.
//!
//! Given a set of configured provider accounts, the engine discovers every
//! repository visible to each account through a paginated listing endpoint,
//! applies ownership, name and fork filters, and keeps one bare mirror per
//! surviving repository under a local storage root, cloning it on first
//! sight and incrementally fetching thereafter.
//!
//! This crate holds the verified core: the configuration and descriptor
//! types, the discovery filter policy, the pagination protocol, and the
//! per-repository sync state machine together with the laws it obeys.
//! Network and filesystem transports are driven by a thin unverified shell
//! that feeds their results back into these functions as plain values.

pub mod config;
pub mod git;
pub mod github;
pub mod gitlab;
pub mod orchestrate;
pub mod paginate;
pub mod sync;

use vstd::prelude::*;

verus! {

/// Number of records a full discovery page carries; a shorter page marks
/// the end of the listing.
pub const PAGE_SIZE: usize = 100;

} // verus!
