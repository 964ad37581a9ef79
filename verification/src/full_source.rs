//! The values that the pipeline's tools hand to each other.

use crate::fs::raw_dir;
use crate::fs::raw_dir::RawDir;
use crate::text;
use vstd::prelude::*;
use vstd::string::*;

verus! {

/// A raw C project passed as input.
#[derive(Debug)]
pub struct RawSource {
    pub dir: RawDir,
}

impl RawSource {
    pub fn name(&self) -> (r: &'static str)
        ensures
            r@ == "raw_source"@,
    {
        "raw_source"
    }

    /// The project as text.
    pub fn display(&self) -> (r: String)
        ensures
            r@ == "Raw C source:\n"@ + raw_dir::shown(self.dir.view(), raw_dir::padding(0)),
    {
        let mut s = "Raw C source:\n".to_owned();
        s.append(self.dir.display(0).as_str());
        s
    }
}

/// A cargo project (Cargo.toml, src/, etc).
#[derive(Debug)]
pub struct CargoPackage {
    pub dir: RawDir,
}

impl CargoPackage {
    pub fn name(&self) -> (r: &'static str)
        ensures
            r@ == "cargo_package"@,
    {
        "cargo_package"
    }

    /// The package as text.
    pub fn display(&self) -> (r: String)
        ensures
            r@ == "Cargo package:\n"@ + raw_dir::shown(self.dir.view(), raw_dir::padding(0)),
    {
        let mut s = "Cargo package:\n".to_owned();
        s.append(self.dir.display(0).as_str());
        s
    }
}

/// Which external test harness a test case's suite is built around. Whatever the
/// grader runs, the conform agent must be told to reproduce.
#[derive(Debug, Clone, Copy, PartialEq, Eq, Structural)]
pub enum TestSuiteKind {
    /// GoogleTest suite (`gtest_suite/`, built via CMake against the cdylib).
    Gtest,
    /// cando2 library validation (`runner/` + `test_vectors/`).
    Lib,
    /// Executable validation (`driver` binary against `test_vectors/`).
    Bin,
}

/// The top-level directory names that constitute a suite of a kind.
pub open spec fn suite_dirs(kind: TestSuiteKind) -> Seq<Seq<char>> {
    match kind {
        TestSuiteKind::Gtest => seq!["gtest_suite"@],
        TestSuiteKind::Lib => seq!["runner"@, "test_vectors"@],
        TestSuiteKind::Bin => seq!["test_vectors"@],
    }
}

impl TestSuiteKind {
    /// Every suite kind, in the grader's detection order: GoogleTest first, then
    /// the cando2 runner, then plain vectors.
    pub fn all() -> (r: Vec<TestSuiteKind>)
        ensures
            r@ == seq![TestSuiteKind::Gtest, TestSuiteKind::Lib, TestSuiteKind::Bin],
    {
        let r = vec![TestSuiteKind::Gtest, TestSuiteKind::Lib, TestSuiteKind::Bin];
        assert(r@ =~= seq![TestSuiteKind::Gtest, TestSuiteKind::Lib, TestSuiteKind::Bin]);
        r
    }

    pub open spec fn spelled(self) -> Seq<char> {
        match self {
            TestSuiteKind::Gtest => "gtest"@,
            TestSuiteKind::Lib => "lib"@,
            TestSuiteKind::Bin => "bin"@,
        }
    }

    pub fn as_str(self) -> (r: &'static str)
        ensures
            r@ == self.spelled(),
    {
        match self {
            TestSuiteKind::Gtest => "gtest",
            TestSuiteKind::Lib => "lib",
            TestSuiteKind::Bin => "bin",
        }
    }

    /// The top-level directory names that constitute a suite of this kind. Each
    /// is reserved at the top level of a snapshot.
    pub fn dirs(self) -> (r: Vec<String>)
        ensures
            text::texts(r@) == suite_dirs(self),
    {
        let r: Vec<String> = match self {
            TestSuiteKind::Gtest => vec!["gtest_suite".to_owned()],
            TestSuiteKind::Lib => vec!["runner".to_owned(), "test_vectors".to_owned()],
            TestSuiteKind::Bin => vec!["test_vectors".to_owned()],
        };
        assert(text::texts(r@) =~= suite_dirs(self));
        r
    }
}

/// The directories of a suite are exactly the names reserved for suites, taken
/// over all kinds.
pub proof fn suite_dirs_are_the_reserved_names(name: Seq<char>)
    ensures
        crate::stage_manifest::is_suite_dir_name(name) <==> exists|kind: TestSuiteKind|
            #[trigger] suite_dirs(kind).contains(name),
        crate::stage_manifest::is_suite_dir_name(name) ==> crate::stage_manifest::is_reserved(name),
{
    let g = suite_dirs(TestSuiteKind::Gtest);
    let l = suite_dirs(TestSuiteKind::Lib);
    assert(g[0] == "gtest_suite"@);
    assert(l[0] == "runner"@);
    assert(l[1] == "test_vectors"@);
    if name == "gtest_suite"@ {
        assert(g.contains(name));
    }
    if name == "runner"@ || name == "test_vectors"@ {
        assert(l.contains(name));
    }
}

/// The external test suite of a benchmark test case, loaded pristine from the
/// bench program directory. It is a value of its own, so that only the conform
/// stage is given it: the external tests are held out from the other stages.
#[derive(Debug)]
pub struct ExternalTestSuite {
    /// The suite directories, as top-level entries.
    pub dir: RawDir,
    pub kind: TestSuiteKind,
}

impl ExternalTestSuite {
    pub fn name(&self) -> (r: &'static str)
        ensures
            r@ == "external_test_suite"@,
    {
        "external_test_suite"
    }

    /// The suite as text.
    pub fn display(&self) -> (r: String)
        ensures
            r@ == "External test suite ("@ + self.kind.spelled() + "):\n"@ + raw_dir::shown(
                self.dir.view(),
                raw_dir::padding(0),
            ),
    {
        let mut s = "External test suite (".to_owned();
        s.append(self.kind.as_str());
        s.append("):\n");
        s.append(self.dir.display(0).as_str());
        s
    }
}

} // verus!
