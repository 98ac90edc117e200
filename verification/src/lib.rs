//! A horizontally scalable record store: a registry canister tracks a set of
//! storage shards ("child canisters"), installs the code package they run,
//! reshards on overflow, and fans queries out to every shard through a chunked
//! transfer protocol. Each shard owns a bounded-capacity table of reports,
//! guarded by a role-based permission gate.
//!
//! This crate holds the verified core: the data model, the filter/sort/page
//! engine, the shard store with its capacity accounting, the chunked transfer
//! protocol, the permission decision, and the registry's shard-lifecycle
//! steps. Network calls, wire encoding and durable storage are the host's
//! concern; every host-visible decision is taken here, on plain values.

pub mod chunk;
pub mod error;
pub mod filter;
pub mod page;
pub mod permission;
pub mod principal;
pub mod registry;
pub mod report;
pub mod sort;
pub mod store;
pub mod text;
pub mod validate;

use vstd::prelude::*;

verus! {

} // verus!
