//! The pipeline's tools.

pub mod compile_defs;
pub mod conform_agentic;
pub mod fix_declarations_llm;
pub mod laws;
pub mod load_test_suite;
pub mod load_translated_package;
pub mod prompt;
pub mod repair;
pub mod steps;
pub mod stubs;
pub mod translate_agentic;
pub mod verify_fix_agentic;
