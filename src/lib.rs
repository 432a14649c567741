//! Network-access core of a data-availability light client: candidate node
//! selection with failover, node version matching, and the sampling plan
//! that decides how many cells of an erasure-coded block to fetch.

pub mod nodes;
pub mod sampling;
pub mod version;

use vstd::prelude::*;

verus! {

/// Capacity of the queue of commands from clients to the connection worker.
pub const COMMAND_CHANNEL_CAPACITY: usize = 1000;

/// Capacity of the broadcast stream of events from the connection worker.
pub const EVENT_CHANNEL_CAPACITY: usize = 1000;

} // verus!
