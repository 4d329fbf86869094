//! Packet codec and connection-handling rules of a game gateway server.
pub mod byte_order;
pub mod bytes_buf;
pub mod clock;
pub mod gate;
pub mod network;
pub mod packet;
pub mod parser;
pub mod text;
pub mod wire;
