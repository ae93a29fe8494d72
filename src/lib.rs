//! A controller for a small text display driven over a line-oriented protocol.
//!
//! The verified core holds the content model, the protocol parser, the command
//! framer, the byte buffer and the request handler.
pub mod contents;
pub mod operation;
pub mod server;
pub mod manager;
pub mod config;
