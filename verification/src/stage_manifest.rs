//! The snapshot layout and its stage manifest.
//!
//! Every run writes each program's result as a **self-contained snapshot**: the
//! translated crate at the top level, and everything the framework knows about
//! the run under a single `.harvest/` directory, including the read-only
//! reference inputs. A later stage resumes from the snapshot alone.
//!
//! ```text
//! out_x/<prog>/
//!   Cargo.toml  Cargo.lock  src/  tests/  …   the crate
//!   target/                                   cargo build output
//!   .harvest/
//!     stage.json                              the manifest
//!     c_src/                                  C source, rewritten every stage
//!     suite/                                  external tests, rewritten every stage
//!     rejected/<stage>/<name>/                reference dirs an agent modified
//! ```
//!
//! The layout *is* the protocol: the package is everything at the top level
//! that [`is_reserved_toplevel`] does not claim.

use crate::config::{AgentKind, Stage};
use crate::path;
use crate::text;
use vstd::prelude::*;
use vstd::string::*;

verus! {

/// Directory under a snapshot program directory holding everything the
/// framework owns. Excluded from the frozen package.
pub const HARVEST_META_DIR: &'static str = ".harvest";

/// Cargo's build output directory. Excluded from the frozen package.
pub const BUILD_DIR: &'static str = "target";

/// The manifest file, inside [`HARVEST_META_DIR`].
pub const STAGE_MANIFEST_FILE: &'static str = "stage.json";

/// C source directory inside [`HARVEST_META_DIR`].
pub const C_SOURCE_DIR: &'static str = "c_src";

/// External test suite directory inside [`HARVEST_META_DIR`].
pub const SUITE_DIR: &'static str = "suite";

/// Quarantine for reference directories an agent modified.
pub const REJECTED_DIR: &'static str = "rejected";

/// Every directory name that can constitute an external test suite. These names
/// are reserved at the top level: external test material is never part of the
/// crate, whoever put it there.
pub open spec fn is_suite_dir_name(name: Seq<char>) -> bool {
    name == "gtest_suite"@ || name == "runner"@ || name == "test_vectors"@
}

/// Whether a top-level entry is left out of the frozen package.
pub open spec fn is_reserved(name: Seq<char>) -> bool {
    name == HARVEST_META_DIR@ || name == BUILD_DIR@ || is_suite_dir_name(name)
}

/// The names of [`is_suite_dir_name`].
pub fn suite_dir_names() -> (r: Vec<String>)
    ensures
        text::texts(r@) == seq!["gtest_suite"@, "runner"@, "test_vectors"@],
{
    let r = vec!["gtest_suite".to_owned(), "runner".to_owned(), "test_vectors".to_owned()];
    assert(text::texts(r@) =~= seq!["gtest_suite"@, "runner"@, "test_vectors"@]);
    r
}

/// True when `name` is a top-level entry the frozen package excludes: the
/// framework's own directory, cargo's build output, and any external test
/// material.
pub fn is_reserved_toplevel(name: &str) -> (r: bool)
    ensures
        r == is_reserved(name@),
{
    text::same(name, HARVEST_META_DIR) || text::same(name, BUILD_DIR) || text::same(
        name,
        "gtest_suite",
    ) || text::same(name, "runner") || text::same(name, "test_vectors")
}

/// The `.harvest/` directory of a snapshot program directory.
pub fn meta_dir(program_dir: &str) -> (r: String)
    ensures
        r@ == path::joined(program_dir@, HARVEST_META_DIR@),
{
    path::join(program_dir, HARVEST_META_DIR)
}

/// The C source directory carried by a snapshot.
pub fn c_source_dir(program_dir: &str) -> (r: String)
    ensures
        r@ == path::joined(path::joined(program_dir@, HARVEST_META_DIR@), C_SOURCE_DIR@),
{
    path::join(meta_dir(program_dir).as_str(), C_SOURCE_DIR)
}

/// The external test suite directory carried by a snapshot.
pub fn suite_dir(program_dir: &str) -> (r: String)
    ensures
        r@ == path::joined(path::joined(program_dir@, HARVEST_META_DIR@), SUITE_DIR@),
{
    path::join(meta_dir(program_dir).as_str(), SUITE_DIR)
}

/// The manifest file of a snapshot.
pub fn manifest_path(program_dir: &str) -> (r: String)
    ensures
        r@ == path::joined(path::joined(program_dir@, HARVEST_META_DIR@), STAGE_MANIFEST_FILE@),
{
    path::join(meta_dir(program_dir).as_str(), STAGE_MANIFEST_FILE)
}

/// True when a program directory is a pipeline snapshot: among the files of its
/// `.harvest/` directory is a manifest.
pub fn is_snapshot(meta_files: &Vec<String>) -> (r: bool)
    ensures
        r == text::texts(meta_files@).contains(STAGE_MANIFEST_FILE@),
{
    text::holds(meta_files, STAGE_MANIFEST_FILE)
}

/// Provenance metadata for a snapshot. Nothing here is required to load a
/// snapshot, the layout carries that.
#[derive(Debug)]
pub struct StageManifest {
    /// Manifest schema version, bumped on incompatible changes.
    pub schema_version: u32,
    /// All agentic stages that produced this snapshot, in pipeline order,
    /// accumulated across runs.
    pub stages: Vec<Stage>,
    /// Agent backend of the most recent run. `None` for the non-agentic
    /// translators.
    pub agent: Option<AgentKind>,
    /// Model of the most recent run, if one was set explicitly.
    pub model: Option<String>,
    /// How the most recent run produced the crate: an agentic prompt mode or a
    /// non-agentic translator.
    pub prompt_mode: String,
    /// Version of the framework in the most recent run.
    pub harvest_version: String,
    /// Name of the bench test case this lineage came from.
    pub bench_program: String,
    /// Revision of the bench checkout the reference material was taken from.
    pub bench_revision: Option<String>,
    /// The checkout the Rust toolchain contract was read from.
    pub test_corpus_root: Option<String>,
    /// Revision of that checkout as of this run.
    pub test_corpus_revision: Option<String>,
    /// Read-only reference directories an agent modified during the most recent
    /// run. The modification was discarded.
    pub reference_modified: Vec<String>,
    /// Unix timestamp of the run that wrote this manifest.
    pub created_unix: u64,
}

} // verus!
