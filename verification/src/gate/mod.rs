//! The rules of this gate, which sits between game clients, the group
//! server and the game servers.
pub mod gameserver;
pub mod packets;
pub mod player;
pub mod client_handler;
pub mod config;
pub mod gate_server;
pub mod gameserver_handler;
pub mod gate_commands;
pub mod groupserver_handler;
