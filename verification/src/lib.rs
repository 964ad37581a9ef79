//! Harvest: driving, resuming and measuring agentic translations of C programs
//! into Rust.
//!
//! The crate holds the rules of the framework as verified functions on plain
//! values. Reading files, running processes and talking to agents is left to
//! the program around it.

pub mod agent;
pub mod benchmark;
pub mod bytes;
pub mod cmake_presets;
pub mod config;
pub mod fs;
pub mod full_source;
pub mod json;
pub mod num;
pub mod path;
pub mod pattern;
pub mod pipeline;
pub mod rust_syntax;
pub mod safety;
pub mod stage_manifest;
pub mod text;
pub mod text_map;
pub mod tools;
