//! Commands handled by this gate itself.
use crate::packet::BasePacket;
use vstd::prelude::*;

verus! {

pub enum GateCommands {
    SendToGroupServer(BasePacket),
}

} // verus!
