//! Running external agents: what they are told, what their runs are judged by,
//! and what is read out of their logs.

pub mod clock;
pub mod invoke;
pub mod laws;
pub mod models;
pub mod opencode;
pub mod outcome;
pub mod phase;
pub mod preparation;
pub mod sessions;
pub mod toolchain;
