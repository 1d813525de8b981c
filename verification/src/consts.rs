//! Fleet-wide limits.

use vstd::prelude::*;

verus! {

/// The most relay addresses a hub keeps.
pub const MAX_RELAYS: usize = 100;

/// The most rooms one relay hosts.
pub const MAX_ROOMS: usize = 10_000;

/// The most live connections one relay tracks.
pub const MAX_CLIENTS: usize = 100;

/// Pending messages the fan-out channel buffers before a slow subscriber
/// starts missing messages.
pub const BROADCAST_CAPACITY: usize = 100;

} // verus!
