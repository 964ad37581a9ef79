//! One program's way through a benchmark run.
//!
//! A program goes through its stages one at a time: each value here stands for a
//! point that the program has reached, and each method takes what the work done
//! outside came to and gives the next point, or the final statistics when the
//! program ends there.

use crate::benchmark::cli::TestHarness;
use crate::benchmark::gtest;
use crate::benchmark::ir::TranspilationResult;
use crate::benchmark::run;
use crate::benchmark::run::{ProgramRun, RunOptions};
use crate::benchmark::stats;
use crate::benchmark::stats::{ProgramEvalStats, StatsView, TestResult, TestResultView};
use crate::path;
use crate::stage_manifest;
use crate::text;
use crate::tools::translate_agentic::ProjectKind;
use vstd::prelude::*;
use vstd::string::*;

verus! {

/// Where a program goes from a point: it ends with its statistics, or goes on.
#[derive(Debug)]
pub enum Next<T> {
    Done(ProgramEvalStats),
    Go(T),
}

// ── What is noted ────────────────────────────────────────────────────────

/// Before anything has happened.
pub open spec fn untouched(name: Seq<char>) -> StatsView {
    StatsView {
        program_name: name,
        translation_success: false,
        rust_build_success: false,
        total_tests: 0,
        passed_tests: 0,
        skipped_tests: 0,
        error_message: None,
        test_results: seq![],
    }
}

/// An error has been noted.
pub open spec fn failed(s: StatsView, error: Seq<char>) -> StatsView {
    StatsView { error_message: Some(error), ..s }
}

/// The test vectors have been counted.
pub open spec fn counted(s: StatsView, vectors: int) -> StatsView {
    StatsView { total_tests: vectors, ..s }
}

/// The transpilation has been noted.
pub open spec fn transpiled(s: StatsView, t: TranspilationResult) -> StatsView {
    StatsView {
        translation_success: t.translation_success,
        rust_build_success: t.build_success,
        ..s
    }
}

/// Whether the crate builds has been noted.
pub open spec fn built(s: StatsView, success: bool) -> StatsView {
    StatsView { rust_build_success: success, ..s }
}

/// How many tests have been evaluated and passed.
pub open spec fn passed_count(results: Seq<TestResultView>) -> nat
    decreases results.len(),
{
    if results.len() == 0 {
        0
    } else {
        passed_count(results.drop_last()) + if results.last().passed && !results.last().skipped {
            1nat
        } else {
            0nat
        }
    }
}

/// How many tests have been skipped.
pub open spec fn skipped_count(results: Seq<TestResultView>) -> nat
    decreases results.len(),
{
    if results.len() == 0 {
        0
    } else {
        skipped_count(results.drop_last()) + if results.last().skipped {
            1nat
        } else {
            0nat
        }
    }
}

/// How many tests have been evaluated and failed.
pub open spec fn failed_count(results: Seq<TestResultView>) -> nat
    decreases results.len(),
{
    if results.len() == 0 {
        0
    } else {
        failed_count(results.drop_last()) + if !results.last().passed && !results.last().skipped {
            1nat
        } else {
            0nat
        }
    }
}

/// Every test has passed, failed or been skipped.
pub proof fn every_test_counts_once(results: Seq<TestResultView>)
    ensures
        passed_count(results) + failed_count(results) + skipped_count(results) == results.len(),
    decreases results.len(),
{
    if results.len() > 0 {
        every_test_counts_once(results.drop_last());
    }
}

/// The results of grading have been noted. A GoogleTest suite defines its own set
/// of tests, so there the number of vectors no longer applies.
pub open spec fn graded(s: StatsView, results: Seq<TestResultView>, own_tests: bool) -> StatsView {
    StatsView {
        total_tests: if own_tests {
            results.len() as int
        } else {
            s.total_tests
        },
        passed_tests: passed_count(results) as int,
        skipped_tests: skipped_count(results) as int,
        test_results: results,
        ..s
    }
}

/// Notes the results of grading.
pub fn note_results(stats: &mut ProgramEvalStats, results: Vec<TestResult>, own_tests: bool)
    ensures
        final(stats).view() == graded(
            old(stats).view(),
            stats::result_views(results@),
            own_tests,
        ),
{
    let ghost all = stats::result_views(results@);
    let mut passed: usize = 0;
    let mut skipped: usize = 0;
    let mut i: usize = 0;
    while i < results.len()
        invariant
            i <= results@.len(),
            all == stats::result_views(results@),
            passed <= i,
            skipped <= i,
            passed == passed_count(all.take(i as int)),
            skipped == skipped_count(all.take(i as int)),
        decreases results@.len() - i,
    {
        assert(all.take(i + 1).drop_last() =~= all.take(i as int));
        assert(all.take(i + 1).last() == results@[i as int].view());
        if results[i].passed && !results[i].skipped {
            passed = passed + 1;
        }
        if results[i].skipped {
            skipped = skipped + 1;
        }
        i = i + 1;
    }
    assert(all.take(i as int) =~= all);
    if own_tests {
        let n: usize = results.len();
        stats.total_tests = n;
    }
    stats.passed_tests = passed;
    stats.skipped_tests = skipped;
    stats.test_results = results;
}

/// Where the total is the number of results, the tests that count as failed are
/// those that were evaluated and did not pass.
pub proof fn failures_are_what_did_not_pass(s: StatsView, results: Seq<TestResultView>)
    ensures
        ({
            let g = graded(s, results, true);
            stats::minus(stats::minus(g.total_tests, g.skipped_tests), g.passed_tests)
                == failed_count(results)
        }),
{
    every_test_counts_once(results);
}

fn end_with<T>(stats: ProgramEvalStats, error: String) -> (r: Next<T>)
    ensures
        r matches Next::Done(s) && s.view() == failed(stats.view(), error@),
{
    let mut s = stats;
    s.error_message = Some(error);
    Next::Done(s)
}

// ── Translating and grading a program ────────────────────────────────────

/// The program's inputs are known. If `vectors` is given, that directory holds its
/// test vectors.
#[derive(Debug)]
pub struct Started {
    pub stats: ProgramEvalStats,
    pub vectors: Option<String>,
}

/// The program's test vectors are counted.
#[derive(Debug)]
pub struct Counted {
    pub stats: ProgramEvalStats,
}

/// The output directory may be used, once it is erased if it must be.
#[derive(Debug)]
pub struct Cleared {
    pub stats: ProgramEvalStats,
    pub erase: bool,
}

/// Everything is ready for the transpilation, with this configuration.
#[derive(Debug)]
pub struct Ready {
    pub stats: ProgramEvalStats,
    pub overrides: Vec<String>,
}

/// The program is translated, and its output is to be stamped as a snapshot.
#[derive(Debug)]
pub struct Translated {
    pub stats: ProgramEvalStats,
    pub result: TranspilationResult,
}

/// The program is built, into this driver if it has one.
#[derive(Debug)]
pub struct Built {
    pub stats: ProgramEvalStats,
    pub binary: Option<String>,
}

/// The program is to be graded.
#[derive(Debug)]
pub struct Gradable {
    pub stats: ProgramEvalStats,
    pub grading: Grading,
}

/// Starts a program. `suite_dirs` are the directories of its suite. Where the suite
/// has no vectors, it defines its tests itself.
pub fn start(program: &ProgramRun, suite_dirs: &Vec<String>) -> (r: Started)
    ensures
        r.stats.view() == untouched(program.name@),
        text::opt_text(r.vectors) == (match program.suite_root {
            Some(root) => if text::texts(suite_dirs@).contains("test_vectors"@) {
                Some(path::joined(root@, "test_vectors"@))
            } else {
                None
            },
            None => None,
        }),
{
    let vectors = match &program.suite_root {
        Some(root) => if text::holds(suite_dirs, "test_vectors") {
            Some(path::join(root.as_str(), "test_vectors"))
        } else {
            None
        },
        None => None,
    };
    let stats = ProgramEvalStats::new(program.name.as_str());
    assert(stats::result_views(stats.test_results@) =~= seq![]);
    Started { stats, vectors }
}

impl Started {
    /// How many vectors there are, or why they could not be read.
    pub fn vectors_read(self, vectors: Result<usize, String>) -> (r: Next<Counted>)
        ensures
            (match vectors {
                Ok(n) => r matches Next::Go(c) && c.stats.view() == counted(
                    self.stats.view(),
                    n as int,
                ),
                Err(e) => r matches Next::Done(s) && s.view() == failed(self.stats.view(), e@),
            }),
    {
        let mut stats = self.stats;
        match vectors {
            Ok(n) => {
                stats.total_tests = n;
                Next::Go(Counted { stats })
            },
            Err(e) => end_with(stats, e),
        }
    }
}

impl Counted {
    /// Guards the output: a snapshot is self-contained only if nothing from an
    /// earlier run survives in it.
    pub fn output_seen(self, output_dir: &str, occupied: bool, force: bool) -> (r: Next<Cleared>)
        ensures
            if occupied && !force {
                r matches Next::Done(s) && s.view() == failed(
                    self.stats.view(),
                    run::occupied_message(output_dir@),
                )
            } else {
                r matches Next::Go(c) && c.stats.view() == self.stats.view() && c.erase == occupied
            },
    {
        match run::prepare_output_dir(output_dir, occupied, force) {
            Ok(erase) => Next::Go(Cleared { stats: self.stats, erase }),
            Err(e) => end_with(self.stats, e),
        }
    }
}

impl Cleared {
    /// The output directory is empty and exists, or could not be made so.
    pub fn output_made(
        self,
        made: Result<(), String>,
        program: &ProgramRun,
        output_root: &str,
        opts: &RunOptions,
    ) -> (r: Next<Ready>)
        ensures
            (match made {
                Ok(_) => r matches Next::Go(n) && n.stats.view() == self.stats.view()
                    && text::texts(n.overrides@) == run::overrides_of(
                    *program,
                    output_root@,
                    *opts,
                ),
                Err(e) => r matches Next::Done(s) && s.view() == failed(self.stats.view(), e@),
            }),
    {
        match made {
            Ok(_) => Next::Go(
                Ready {
                    stats: self.stats,
                    overrides: run::effective_overrides(program, output_root, opts),
                },
            ),
            Err(e) => end_with(self.stats, e),
        }
    }
}

pub open spec fn translation_fault(t: TranspilationResult) -> Seq<char> {
    "Failed to translate C project: "@ + text::debug_opt_of(text::opt_text(t.build_error))
}

pub open spec fn build_fault(t: TranspilationResult) -> Seq<char> {
    "Failed to build Rust project: "@ + text::debug_opt_of(text::opt_text(t.build_error))
}

impl Ready {
    /// What the transpilation came to. A program that was translated has a
    /// snapshot, whether it builds or not: a snapshot whose build is broken is one
    /// that a later run should be able to pick up.
    pub fn transpiled(self, t: TranspilationResult) -> (r: Next<Translated>)
        ensures
            ({
                let s = transpiled(self.stats.view(), t);
                if t.translation_success {
                    r matches Next::Go(n) && n.stats.view() == s && n.result == t
                } else {
                    r matches Next::Done(d) && d.view() == failed(s, translation_fault(t))
                }
            }),
    {
        let mut stats = self.stats;
        stats.translation_success = t.translation_success;
        stats.rust_build_success = t.build_success;
        if t.translation_success {
            return Next::Go(Translated { stats, result: t });
        }
        let mut e = "Failed to translate C project: ".to_owned();
        e.append(text::debug_opt(&t.build_error).as_str());
        end_with(stats, e)
    }
}

impl Translated {
    /// The output is stamped. Only a program that builds is graded.
    pub fn stamped(self) -> (r: Next<Built>)
        ensures
            if self.result.build_success {
                r matches Next::Go(n) && n.stats.view() == self.stats.view() && n.binary
                    == self.result.rust_binary_path
            } else {
                r matches Next::Done(s) && s.view() == failed(
                    self.stats.view(),
                    build_fault(self.result),
                )
            },
    {
        if self.result.build_success {
            return Next::Go(Built { stats: self.stats, binary: self.result.rust_binary_path });
        }
        let mut e = "Failed to build Rust project: ".to_owned();
        e.append(text::debug_opt(&self.result.build_error).as_str());
        end_with(self.stats, e)
    }
}

impl Built {
    /// Chooses how the program is graded. The suite is the one that the snapshot
    /// carries, so that grading never depends on the bench directory.
    pub fn suite_seen(
        self,
        harness: TestHarness,
        kind: Option<ProjectKind>,
        suite_root: &str,
        dirs: &Vec<String>,
        binary_exists: bool,
    ) -> (r: Next<Gradable>)
        ensures
            (match grading_of(
                harness,
                kind,
                suite_root@,
                text::texts(dirs@),
                text::opt_text(self.binary),
                binary_exists,
            ) {
                Ok(g) => r matches Next::Go(n) && n.stats.view() == self.stats.view()
                    && n.grading.view() == g,
                Err(e) => r matches Next::Done(s) && s.view() == failed(self.stats.view(), e),
            }),
    {
        match choose_grading(harness, kind, suite_root, dirs, &self.binary, binary_exists) {
            Ok(grading) => Next::Go(Gradable { stats: self.stats, grading }),
            Err(e) => end_with(self.stats, e),
        }
    }
}

impl Gradable {
    /// What grading came to.
    pub fn graded(self, results: Result<Vec<TestResult>, String>) -> (r: ProgramEvalStats)
        ensures
            r.view() == (match results {
                Ok(v) => graded(
                    self.stats.view(),
                    stats::result_views(v@),
                    self.grading is Gtest,
                ),
                Err(e) => failed(self.stats.view(), grading_fault(self.grading.view(), e@)),
            }),
    {
        let mut stats = self.stats;
        match results {
            Ok(v) => {
                let own_tests = match self.grading {
                    Grading::Gtest(_) => true,
                    _ => false,
                };
                note_results(&mut stats, v, own_tests);
            },
            Err(error) => {
                stats.error_message = Some(grading_error(&self.grading, error.as_str()));
            },
        }
        stats
    }
}

/// What stands for a transpilation that did not come about.
pub fn transpile_failed(error: &str) -> (r: TranspilationResult)
    ensures
        !r.translation_success,
        !r.build_success,
        r.rust_binary_path is None,
        text::opt_text(r.build_error) == Some("Failed to transpile: "@ + error@),
{
    let mut e = "Failed to transpile: ".to_owned();
    e.append(error);
    TranspilationResult {
        translation_success: false,
        build_success: false,
        rust_binary_path: None,
        build_error: Some(e),
    }
}

// ── Grading ──────────────────────────────────────────────────────────────

/// How a program is graded.
#[derive(Debug)]
pub enum Grading {
    /// With the GoogleTest suite in this directory.
    Gtest(String),
    /// With the runner and the vectors of the suite.
    Library,
    /// By running this binary against the vectors.
    Binary(String),
}

pub enum GradingView {
    Gtest(Seq<char>),
    Library,
    Binary(Seq<char>),
}

impl Grading {
    pub open spec fn view(&self) -> GradingView {
        match self {
            Grading::Gtest(d) => GradingView::Gtest(d@),
            Grading::Library => GradingView::Library,
            Grading::Binary(p) => GradingView::Binary(p@),
        }
    }
}

/// Whether the suite is a GoogleTest suite, for what the arguments ask.
pub open spec fn grades_gtest(harness: TestHarness, dirs: Seq<Seq<char>>) -> bool {
    match harness {
        TestHarness::Gtest => true,
        TestHarness::Auto => dirs.contains(gtest::GTEST_SUITE_DIR@),
        TestHarness::Lib | TestHarness::Bin => false,
    }
}

/// Whether a program is validated as a library. A configurable project can be
/// tested either way, and is a library when there is a runner.
pub open spec fn grades_library(
    harness: TestHarness,
    kind: Option<ProjectKind>,
    dirs: Seq<Seq<char>>,
) -> bool {
    match harness {
        TestHarness::Lib => true,
        TestHarness::Bin => false,
        TestHarness::Auto | TestHarness::Gtest => match kind {
            Some(ProjectKind::Library) => true,
            Some(ProjectKind::Configurable) => dirs.contains("runner"@),
            _ => false,
        },
    }
}

/// How a program that was just built is graded, or why it cannot be. `dirs` are the
/// directories of the suite that the snapshot now carries.
pub open spec fn grading_of(
    harness: TestHarness,
    kind: Option<ProjectKind>,
    suite_root: Seq<char>,
    dirs: Seq<Seq<char>>,
    binary: Option<Seq<char>>,
    binary_exists: bool,
) -> Result<GradingView, Seq<char>> {
    if harness == TestHarness::Gtest && !dirs.contains(gtest::GTEST_SUITE_DIR@) {
        Err(
            "--test-harness gtest requested, but no gtest_suite/ was carried into "@ + suite_root,
        )
    } else if grades_gtest(harness, dirs) {
        Ok(GradingView::Gtest(path::joined(suite_root, gtest::GTEST_SUITE_DIR@)))
    } else if grades_library(harness, kind, dirs) {
        Ok(GradingView::Library)
    } else if binary is Some && binary_exists {
        Ok(GradingView::Binary(binary->0))
    } else {
        Err(
            "Rust build reported success, but expected output artifact was not found at "@
                + text::debug_opt_of(binary),
        )
    }
}

/// Chooses how a program that was just built is graded. The suite is the one that
/// the snapshot carries, so that grading never depends on the bench directory.
pub fn choose_grading(
    harness: TestHarness,
    kind: Option<ProjectKind>,
    suite_root: &str,
    dirs: &Vec<String>,
    binary: &Option<String>,
    binary_exists: bool,
) -> (r: Result<Grading, String>)
    ensures
        ({
            let want = grading_of(
                harness,
                kind,
                suite_root@,
                text::texts(dirs@),
                text::opt_text(*binary),
                binary_exists,
            );
            match r {
                Ok(g) => want == Ok::<GradingView, Seq<char>>(g.view()),
                Err(e) => want == Err::<GradingView, Seq<char>>(e@),
            }
        }),
{
    let gtest_available = text::holds(dirs, gtest::GTEST_SUITE_DIR);
    if harness == TestHarness::Gtest && !gtest_available {
        let mut e =
            "--test-harness gtest requested, but no gtest_suite/ was carried into ".to_owned();
        e.append(suite_root);
        return Err(e);
    }
    let use_gtest = match harness {
        TestHarness::Gtest => true,
        TestHarness::Auto => gtest_available,
        TestHarness::Lib | TestHarness::Bin => false,
    };
    if use_gtest {
        return Ok(Grading::Gtest(path::join(suite_root, gtest::GTEST_SUITE_DIR)));
    }
    let runner_exists = text::holds(dirs, "runner");
    let use_library = match harness {
        TestHarness::Lib => true,
        TestHarness::Bin => false,
        TestHarness::Auto | TestHarness::Gtest => match kind {
            Some(ProjectKind::Library) => true,
            Some(ProjectKind::Configurable) => runner_exists,
            _ => false,
        },
    };
    if use_library {
        return Ok(Grading::Library);
    }
    if let Some(p) = binary {
        if binary_exists {
            return Ok(Grading::Binary(p.clone()));
        }
    }
    let mut e =
        "Rust build reported success, but expected output artifact was not found at ".to_owned();
    e.append(text::debug_opt(binary).as_str());
    Err(e)
}

/// A suite that is forced is the one that is used.
pub proof fn forced_harness_wins(
    harness: TestHarness,
    kind: Option<ProjectKind>,
    suite_root: Seq<char>,
    dirs: Seq<Seq<char>>,
    binary: Option<Seq<char>>,
    binary_exists: bool,
)
    ensures
        ({
            let g = grading_of(harness, kind, suite_root, dirs, binary, binary_exists);
            match harness {
                TestHarness::Auto => true,
                TestHarness::Gtest => g is Ok ==> g->Ok_0 is Gtest,
                TestHarness::Lib => g is Ok && g->Ok_0 is Library,
                TestHarness::Bin => g is Ok ==> g->Ok_0 is Binary,
            }
        }),
{
}

/// What a grading that went wrong is called.
pub open spec fn grading_fault(g: GradingView, error: Seq<char>) -> Seq<char> {
    match g {
        GradingView::Gtest(_) => "GoogleTest validation failed: "@ + error,
        GradingView::Library => "Library validation failed: "@ + error,
        GradingView::Binary(_) => error,
    }
}

fn grading_error(grading: &Grading, error: &str) -> (r: String)
    ensures
        r@ == grading_fault(grading.view(), error@),
{
    match grading {
        Grading::Gtest(_) => {
            let mut e = "GoogleTest validation failed: ".to_owned();
            e.append(error);
            e
        },
        Grading::Library => {
            let mut e = "Library validation failed: ".to_owned();
            e.append(error);
            e
        },
        Grading::Binary(_) => error.to_owned(),
    }
}

// ── Grading a snapshot again ─────────────────────────────────────────────

/// A snapshot that is graded again. If `vectors` is given, that directory holds its
/// test vectors.
#[derive(Debug)]
pub struct Reopened {
    pub stats: ProgramEvalStats,
    pub suite_root: String,
    pub vectors: Option<String>,
}

/// The vectors of a snapshot that is graded again are counted.
#[derive(Debug)]
pub struct Recounted {
    pub stats: ProgramEvalStats,
    pub suite_root: String,
}

/// A snapshot that is graded again starts as translated.
pub open spec fn reopened(name: Seq<char>) -> StatsView {
    StatsView { translation_success: true, ..untouched(name) }
}

pub open spec fn no_suite_fault(program_dir: Seq<char>, suite_root: Seq<char>) -> Seq<char> {
    "Snapshot "@ + program_dir + " carries no external test suite under "@ + suite_root
}

pub open spec fn carried_suite(program_dir: Seq<char>) -> Seq<char> {
    path::joined(
        path::joined(program_dir, stage_manifest::HARVEST_META_DIR@),
        stage_manifest::SUITE_DIR@,
    )
}

/// Opens a snapshot to grade it again. Everything graded against comes from the
/// snapshot's own suite, whose directories are `dirs`. A program with only a
/// GoogleTest suite needs no vectors.
pub fn reopen(program_dir: &str, dirs: &Vec<String>) -> (r: Next<Reopened>)
    ensures
        ({
            let start = reopened(
                match path::file_name_of(program_dir@) {
                    Some(n) => n,
                    None => seq![],
                },
            );
            let suite_root = carried_suite(program_dir@);
            let d = text::texts(dirs@);
            if d.contains("test_vectors"@) || d.contains(gtest::GTEST_SUITE_DIR@) {
                &&& r matches Next::Go(n)
                &&& n.stats.view() == start
                &&& n.suite_root@ == suite_root
                &&& text::opt_text(n.vectors) == (if d.contains("test_vectors"@) {
                    Some(path::joined(suite_root, "test_vectors"@))
                } else {
                    None
                })
            } else {
                r matches Next::Done(s) && s.view() == failed(
                    start,
                    no_suite_fault(program_dir@, suite_root),
                )
            }
        }),
{
    let name = match path::file_name(program_dir) {
        Some(n) => n,
        None => String::new(),
    };
    let mut stats = ProgramEvalStats::new(name.as_str());
    stats.translation_success = true;
    assert(stats::result_views(stats.test_results@) =~= seq![]);
    assert(path::file_name_of(program_dir@) is None ==> name@ =~= seq![]);
    let suite_root = stage_manifest::suite_dir(program_dir);
    if text::holds(dirs, "test_vectors") {
        let vectors = Some(path::join(suite_root.as_str(), "test_vectors"));
        Next::Go(Reopened { stats, suite_root, vectors })
    } else if text::holds(dirs, gtest::GTEST_SUITE_DIR) {
        Next::Go(Reopened { stats, suite_root, vectors: None })
    } else {
        let mut e = "Snapshot ".to_owned();
        e.append(program_dir);
        e.append(" carries no external test suite under ");
        e.append(suite_root.as_str());
        end_with(stats, e)
    }
}

impl Reopened {
    /// How many vectors there are, or why they could not be read.
    pub fn vectors_read(self, vectors: Result<usize, String>) -> (r: Next<Recounted>)
        ensures
            (match vectors {
                Ok(n) => r matches Next::Go(c) && c.stats.view() == counted(
                    self.stats.view(),
                    n as int,
                ) && c.suite_root == self.suite_root,
                Err(e) => r matches Next::Done(s) && s.view() == failed(self.stats.view(), e@),
            }),
    {
        let mut stats = self.stats;
        match vectors {
            Ok(n) => {
                stats.total_tests = n;
                Next::Go(Recounted { stats, suite_root: self.suite_root })
            },
            Err(e) => end_with(stats, e),
        }
    }
}

/// How a snapshot that is graded again is graded: its kind is not known, so a
/// runner makes it a library, and otherwise the driver is built.
pub open spec fn existing_grading_of(
    harness: TestHarness,
    program_dir: Seq<char>,
    suite_root: Seq<char>,
    dirs: Seq<Seq<char>>,
) -> Result<GradingView, Seq<char>> {
    if harness == TestHarness::Gtest && !dirs.contains(gtest::GTEST_SUITE_DIR@) {
        Err("--test-harness gtest requested, but "@ + suite_root + " carries no gtest_suite/"@)
    } else if grades_gtest(harness, dirs) {
        Ok(GradingView::Gtest(path::joined(suite_root, gtest::GTEST_SUITE_DIR@)))
    } else if harness == TestHarness::Lib || (harness == TestHarness::Auto && dirs.contains(
        "runner"@,
    )) {
        Ok(GradingView::Library)
    } else {
        Ok(GradingView::Binary(path::joined(program_dir, "target/release/driver"@)))
    }
}

/// Chooses how a snapshot that is graded again is graded.
pub fn choose_existing_grading(
    harness: TestHarness,
    program_dir: &str,
    suite_root: &str,
    dirs: &Vec<String>,
) -> (r: Result<Grading, String>)
    ensures
        ({
            let want = existing_grading_of(
                harness,
                program_dir@,
                suite_root@,
                text::texts(dirs@),
            );
            match r {
                Ok(g) => want == Ok::<GradingView, Seq<char>>(g.view()),
                Err(e) => want == Err::<GradingView, Seq<char>>(e@),
            }
        }),
{
    let gtest_available = text::holds(dirs, gtest::GTEST_SUITE_DIR);
    if harness == TestHarness::Gtest && !gtest_available {
        let mut e = "--test-harness gtest requested, but ".to_owned();
        e.append(suite_root);
        e.append(" carries no gtest_suite/");
        return Err(e);
    }
    let use_gtest = match harness {
        TestHarness::Gtest => true,
        TestHarness::Auto => gtest_available,
        TestHarness::Lib | TestHarness::Bin => false,
    };
    if use_gtest {
        return Ok(Grading::Gtest(path::join(suite_root, gtest::GTEST_SUITE_DIR)));
    }
    let runner_exists = text::holds(dirs, "runner");
    let use_library = match harness {
        TestHarness::Lib => true,
        TestHarness::Bin => false,
        TestHarness::Auto | TestHarness::Gtest => runner_exists,
    };
    if use_library {
        return Ok(Grading::Library);
    }
    Ok(Grading::Binary(path::join(program_dir, "target/release/driver")))
}

/// A snapshot that is to be graded again.
#[derive(Debug)]
pub struct Regradable {
    pub stats: ProgramEvalStats,
    pub grading: Grading,
}

impl Recounted {
    /// Chooses how the snapshot is graded.
    pub fn suite_seen(self, harness: TestHarness, program_dir: &str, dirs: &Vec<String>) -> (r:
        Next<Regradable>)
        ensures
            (match existing_grading_of(
                harness,
                program_dir@,
                self.suite_root@,
                text::texts(dirs@),
            ) {
                Ok(g) => r matches Next::Go(n) && n.stats.view() == self.stats.view()
                    && n.grading.view() == g,
                Err(e) => r matches Next::Done(s) && s.view() == failed(self.stats.view(), e),
            }),
    {
        match choose_existing_grading(harness, program_dir, self.suite_root.as_str(), dirs) {
            Ok(grading) => Next::Go(Regradable { stats: self.stats, grading }),
            Err(e) => end_with(self.stats, e),
        }
    }
}

/// What building a snapshot's driver came to.
#[derive(Debug)]
pub enum DriverBuild {
    /// The build succeeded, and the driver exists or not.
    Built { driver_exists: bool },
    /// The build failed, with this error output.
    Failed(String),
    /// The build could not be started.
    NotRun(String),
}

pub open spec fn driver_fault(b: DriverBuild, driver: Seq<char>) -> Option<Seq<char>> {
    match b {
        DriverBuild::Built { driver_exists } => if driver_exists {
            None
        } else {
            Some("Built executable project but driver binary was not found at "@ + driver)
        },
        DriverBuild::Failed(e) => Some("cargo build --release failed: "@ + e@),
        DriverBuild::NotRun(e) => Some("Failed to run cargo build: "@ + e@),
    }
}

impl Regradable {
    /// The driver of a snapshot that is graded by running it was built, or not.
    pub fn driver_built(self, build: DriverBuild, driver: &str) -> (r: Next<Regradable>)
        ensures
            ({
                let s = built(self.stats.view(), build is Built);
                match driver_fault(build, driver@) {
                    None => r matches Next::Go(n) && n.stats.view() == s && n.grading
                        == self.grading,
                    Some(e) => r matches Next::Done(d) && d.view() == failed(s, e),
                }
            }),
    {
        let mut stats = self.stats;
        match build {
            DriverBuild::Built { driver_exists } => {
                stats.rust_build_success = true;
                if driver_exists {
                    return Next::Go(Regradable { stats, grading: self.grading });
                }
                let mut e =
                    "Built executable project but driver binary was not found at ".to_owned();
                e.append(driver);
                end_with(stats, e)
            },
            DriverBuild::Failed(error) => {
                stats.rust_build_success = false;
                let mut e = "cargo build --release failed: ".to_owned();
                e.append(error.as_str());
                end_with(stats, e)
            },
            DriverBuild::NotRun(error) => {
                stats.rust_build_success = false;
                let mut e = "Failed to run cargo build: ".to_owned();
                e.append(error.as_str());
                end_with(stats, e)
            },
        }
    }

    /// What grading came to. A suite that is not run through the driver builds the
    /// crate itself.
    pub fn graded(self, results: Result<Vec<TestResult>, String>) -> (r: ProgramEvalStats)
        ensures
            ({
                let s = built(
                    self.stats.view(),
                    if self.grading is Binary {
                        self.stats.rust_build_success
                    } else {
                        results is Ok
                    },
                );
                r.view() == (match results {
                    Ok(v) => graded(s, stats::result_views(v@), self.grading is Gtest),
                    Err(e) => failed(s, grading_fault(self.grading.view(), e@)),
                })
            }),
    {
        let mut stats = self.stats;
        let by_driver = match self.grading {
            Grading::Binary(_) => true,
            _ => false,
        };
        if !by_driver {
            stats.rust_build_success = results.is_ok();
        }
        Gradable { stats, grading: self.grading }.graded(results)
    }
}

// ── The whole course ─────────────────────────────────────────────────────

/// What the steps of a program's run come to, each as far as it is reached.
pub struct Course {
    pub vectors: Result<int, Seq<char>>,
    /// Why the output directory cannot be used, if it cannot.
    pub output_fault: Option<Seq<char>>,
    pub transpilation: TranspilationResult,
    pub grading: Result<GradingView, Seq<char>>,
    pub results: Result<Seq<TestResultView>, Seq<char>>,
}

/// The statistics that a program ends with when its steps come to this.
pub open spec fn ends_with(name: Seq<char>, c: Course) -> StatsView {
    let start = untouched(name);
    match c.vectors {
        Err(e) => failed(start, e),
        Ok(n) => {
            let ready = counted(start, n);
            if c.output_fault is Some {
                failed(ready, c.output_fault->0)
            } else {
                let t = transpiled(ready, c.transpilation);
                if !c.transpilation.translation_success {
                    failed(t, translation_fault(c.transpilation))
                } else if !c.transpilation.build_success {
                    failed(t, build_fault(c.transpilation))
                } else {
                    match c.grading {
                        Err(e) => failed(t, e),
                        Ok(g) => match c.results {
                            Err(e) => failed(t, grading_fault(g, e)),
                            Ok(v) => graded(t, v, g is Gtest),
                        },
                    }
                }
            }
        },
    }
}

/// Every program ends either with an error and without results, or graded and
/// without an error, and a graded program was translated and built.
pub proof fn a_program_is_graded_or_says_why(name: Seq<char>, c: Course)
    ensures
        ({
            let s = ends_with(name, c);
            if s.error_message is Some {
                s.test_results.len() == 0 && s.passed_tests == 0
            } else {
                &&& s.translation_success
                &&& s.rust_build_success
                &&& c.results == Ok::<Seq<TestResultView>, Seq<char>>(s.test_results)
            }
        }),
{
}

/// What a program's steps are told, and what the world answers to them.
pub struct Outcomes<'a> {
    pub program: &'a ProgramRun,
    /// The directories of the suite to begin with.
    pub first_dirs: &'a Vec<String>,
    pub vectors: Result<usize, String>,
    pub output_dir: &'a str,
    pub occupied: bool,
    pub force: bool,
    /// Whether the output directory could be made.
    pub made: Result<(), String>,
    pub output_root: &'a str,
    pub opts: &'a RunOptions,
    pub transpilation: TranspilationResult,
    pub harness: TestHarness,
    pub kind: Option<ProjectKind>,
    /// The suite that the snapshot carries, and its directories.
    pub suite_root: &'a str,
    pub dirs: &'a Vec<String>,
    pub binary_exists: bool,
    pub results: Result<Vec<TestResult>, String>,
}

impl<'a> Outcomes<'a> {
    pub open spec fn course(self) -> Course {
        Course {
            vectors: match self.vectors {
                Ok(n) => Ok(n as int),
                Err(e) => Err(e@),
            },
            output_fault: if self.occupied && !self.force {
                Some(run::occupied_message(self.output_dir@))
            } else {
                match self.made {
                    Ok(_) => None,
                    Err(e) => Some(e@),
                }
            },
            transpilation: self.transpilation,
            grading: grading_of(
                self.harness,
                self.kind,
                self.suite_root@,
                text::texts(self.dirs@),
                text::opt_text(self.transpilation.rust_binary_path),
                self.binary_exists,
            ),
            results: match self.results {
                Ok(v) => Ok(stats::result_views(v@)),
                Err(e) => Err(e@),
            },
        }
    }
}

/// What the steps of a program returned.
pub struct Steps {
    pub started: Started,
    pub counted: Next<Counted>,
    pub cleared: Next<Cleared>,
    pub ready: Next<Ready>,
    pub translated: Next<Translated>,
    pub built: Next<Built>,
    pub gradable: Next<Gradable>,
}

/// Whether a program's steps, taken one after the other as long as they go on, may
/// have returned this and ended with these statistics.
pub open spec fn steps_taken(o: Outcomes, s: Steps, end: ProgramEvalStats) -> bool {
    &&& call_ensures(start, (o.program, o.first_dirs), s.started)
    &&& call_ensures(Started::vectors_read, (s.started, o.vectors), s.counted)
    &&& s.counted matches Next::Done(d) ==> end == d
    &&& s.counted matches Next::Go(c) ==> {
        &&& call_ensures(
            Counted::output_seen,
            (c, o.output_dir, o.occupied, o.force),
            s.cleared,
        )
        &&& s.cleared matches Next::Done(d) ==> end == d
        &&& s.cleared matches Next::Go(c) ==> {
            &&& call_ensures(
                Cleared::output_made,
                (c, o.made, o.program, o.output_root, o.opts),
                s.ready,
            )
            &&& s.ready matches Next::Done(d) ==> end == d
            &&& s.ready matches Next::Go(r) ==> {
                &&& call_ensures(Ready::transpiled, (r, o.transpilation), s.translated)
                &&& s.translated matches Next::Done(d) ==> end == d
                &&& s.translated matches Next::Go(t) ==> {
                    &&& call_ensures(Translated::stamped, (t,), s.built)
                    &&& s.built matches Next::Done(d) ==> end == d
                    &&& s.built matches Next::Go(b) ==> {
                        &&& call_ensures(
                            Built::suite_seen,
                            (b, o.harness, o.kind, o.suite_root, o.dirs, o.binary_exists),
                            s.gradable,
                        )
                        &&& s.gradable matches Next::Done(d) ==> end == d
                        &&& s.gradable matches Next::Go(g) ==> call_ensures(
                            Gradable::graded,
                            (g, o.results),
                            end,
                        )
                    }
                }
            }
        }
    }
}

/// The steps of a program, taken one after the other, end with the statistics that
/// its course tells.
pub proof fn steps_follow_the_course(o: Outcomes, s: Steps, end: ProgramEvalStats)
    requires
        steps_taken(o, s, end),
    ensures
        end.view() == ends_with(o.program.name@, o.course()),
{
}

// ── The whole course of grading again ────────────────────────────────────

/// What grading a snapshot again is told, and what the world answers to it.
pub struct RegradeOutcomes<'a> {
    pub program_dir: &'a str,
    /// The directories of the suite that the snapshot carries.
    pub dirs: &'a Vec<String>,
    pub vectors: Result<usize, String>,
    pub harness: TestHarness,
    /// What building the driver came to, where the snapshot is graded by running it.
    pub build: DriverBuild,
    pub driver: &'a str,
    pub results: Result<Vec<TestResult>, String>,
}

/// The statistics that grading a snapshot again ends with.
pub open spec fn regrade_ends_with(o: RegradeOutcomes) -> StatsView {
    let dirs = text::texts(o.dirs@);
    let suite_root = carried_suite(o.program_dir@);
    let start = reopened(
        match path::file_name_of(o.program_dir@) {
            Some(n) => n,
            None => seq![],
        },
    );
    if !dirs.contains("test_vectors"@) && !dirs.contains(gtest::GTEST_SUITE_DIR@) {
        failed(start, no_suite_fault(o.program_dir@, suite_root))
    } else {
        match o.vectors {
            Err(e) => failed(start, e@),
            Ok(n) => {
                let ready = counted(start, n as int);
                match existing_grading_of(o.harness, o.program_dir@, suite_root, dirs) {
                    Err(e) => failed(ready, e),
                    Ok(g) => {
                        let s = built(
                            ready,
                            if g is Binary {
                                o.build is Built
                            } else {
                                o.results is Ok
                            },
                        );
                        if g is Binary && driver_fault(o.build, o.driver@) is Some {
                            failed(s, driver_fault(o.build, o.driver@)->0)
                        } else {
                            match o.results {
                                Ok(v) => graded(s, stats::result_views(v@), g is Gtest),
                                Err(e) => failed(s, grading_fault(g, e@)),
                            }
                        }
                    },
                }
            },
        }
    }
}

/// What the steps of grading a snapshot again returned.
pub struct RegradeSteps {
    pub reopened: Next<Reopened>,
    pub recounted: Next<Recounted>,
    pub regradable: Next<Regradable>,
    pub with_driver: Next<Regradable>,
}

/// Whether the steps of grading a snapshot again, taken one after the other as long
/// as they go on, may have returned this and ended with these statistics.
pub open spec fn regrade_steps_taken(
    o: RegradeOutcomes,
    s: RegradeSteps,
    end: ProgramEvalStats,
) -> bool {
    &&& call_ensures(reopen, (o.program_dir, o.dirs), s.reopened)
    &&& s.reopened matches Next::Done(d) ==> end == d
    &&& s.reopened matches Next::Go(r) ==> {
        &&& call_ensures(Reopened::vectors_read, (r, o.vectors), s.recounted)
        &&& s.recounted matches Next::Done(d) ==> end == d
        &&& s.recounted matches Next::Go(c) ==> {
            &&& call_ensures(
                Recounted::suite_seen,
                (c, o.harness, o.program_dir, o.dirs),
                s.regradable,
            )
            &&& s.regradable matches Next::Done(d) ==> end == d
            &&& s.regradable matches Next::Go(g) ==> if g.grading is Binary {
                &&& call_ensures(Regradable::driver_built, (g, o.build, o.driver), s.with_driver)
                &&& s.with_driver matches Next::Done(d) ==> end == d
                &&& s.with_driver matches Next::Go(g) ==> call_ensures(
                    Regradable::graded,
                    (g, o.results),
                    end,
                )
            } else {
                call_ensures(Regradable::graded, (g, o.results), end)
            }
        }
    }
}

/// The steps of grading a snapshot again, taken one after the other, end with the
/// statistics that they should, and a snapshot that is graded counts as built.
pub proof fn regrade_steps_follow_the_course(
    o: RegradeOutcomes,
    s: RegradeSteps,
    end: ProgramEvalStats,
)
    requires
        regrade_steps_taken(o, s, end),
    ensures
        end.view() == regrade_ends_with(o),
        end.view().error_message is None ==> end.view().translation_success
            && end.view().rust_build_success,
{
}

} // verus!
