//! Connection-level bookkeeping.
pub mod rpc;
pub mod tcp_connection;
