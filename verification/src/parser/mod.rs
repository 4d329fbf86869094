//! Holders for parsed configuration.
pub mod config_parser;
