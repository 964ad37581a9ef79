//! The benchmark: which programs are run, how, and what came of it.

pub mod cli;
pub mod course;
pub mod experiment;
pub mod gtest;
pub mod harness;
pub mod ir;
pub mod laws;
pub mod program;
pub mod run;
pub mod snapshot;
pub mod stats;
