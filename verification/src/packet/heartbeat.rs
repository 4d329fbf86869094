//! Heartbeat packets, which keep a connection alive.
use super::{new_packet_view, BasePacket, PacketError, PacketView};
use crate::wire::{be_bytes, lemma_be_bytes_len};
use vstd::prelude::*;

verus! {

/// A heartbeat: a packet made of nothing but its length, 2.
pub struct HeartbeatPacket {}

impl Default for HeartbeatPacket {
    fn default() -> (r: Self)
        ensures
            r == (HeartbeatPacket {}),
    {
        HeartbeatPacket {  }
    }
}

impl HeartbeatPacket {
    /// A heartbeat, when `base_packet` has the length 2; an error otherwise.
    pub fn from_base_packet(base_packet: BasePacket) -> (r: Result<Self, PacketError>)
        ensures
            r is Ok <==> base_packet@.size == 2,
            r is Err ==> r == Err::<Self, PacketError>(PacketError::InvalidHeartbeatLength),
    {
        if base_packet.get_len() != 2 {
            return Err(PacketError::InvalidHeartbeatLength);
        }
        Ok(HeartbeatPacket {  })
    }

    /// The heartbeat packet: a new packet with the short 2 written and no
    /// command or header, since it is not built.
    pub fn to_base_packet(&self) -> (r: Result<BasePacket, PacketError>)
        ensures
            r matches Ok(p) && p@ == new_packet_view().appended(be_bytes(2, 2)),
    {
        let mut base_packet = BasePacket::new();
        base_packet.write_short(2)?;
        Ok(base_packet)
    }
}

} // verus!
