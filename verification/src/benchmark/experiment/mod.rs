//! Declared experiment sets.
//!
//! An experiment set lists the runs that should exist, so that a run that was
//! never started can be told from one that is missing or that failed. Every knob
//! is lowered into arguments and parsed again as the command line would be, so a
//! declared run can never express a combination that the command line rejects.
//! Completion is decided by per-program records, never by the presence of a
//! stage manifest.

pub mod execution;
pub mod knobs;
pub mod laws;
pub mod plan;
pub mod progress;
