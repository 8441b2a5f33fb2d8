//! Framing decoder for Opus packets (RFC 6716, section 3): the TOC byte,
//! the configuration table, the frame-length encoding and the per-code
//! frame layout.
pub mod config;
pub mod laws;
pub mod length;
pub mod parser;
