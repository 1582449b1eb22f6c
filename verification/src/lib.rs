//! Typed payloads, format identity and a registry of transcoders between formats.
pub mod transcoder;
pub mod text;
pub mod graph;
pub mod registry;
pub mod cli;
