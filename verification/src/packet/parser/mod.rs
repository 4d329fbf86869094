//! A compact binary format for plain records: numbers most significant byte
//! first, strings as a one-byte length (plus one), their bytes and a zero.
pub mod de;
pub mod error;
pub mod ser;
pub mod laws;
