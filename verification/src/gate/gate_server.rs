//! Settings of this gate.
use vstd::prelude::*;

verus! {

/// The client version that may log in.
pub const SUPPORTED_CLIENT_VERSION: u16 = 136;

/// The most maps one game server may run.
pub const MAXIMUM_MAPS_PER_GAMESERVER: u16 = 100;

} // verus!
