//! Bench test cases: their layout, their test vectors, and the judgement on what
//! a program printed.

use crate::benchmark::gtest;
use crate::benchmark::stats;
use crate::benchmark::stats::{ProgramEvalStats, TestResult, TestResultView};
use crate::path;
use crate::pattern;
use crate::text;
use crate::tools::load_test_suite;
use vstd::prelude::*;
use vstd::string::*;

verus! {

/// The expected output of a test case.
#[derive(Debug)]
pub struct StdoutPattern {
    pub pattern: String,
    /// Whether the pattern is a regular expression.
    pub is_regex: bool,
}

/// A test case: arguments, input, and expected output.
#[derive(Debug)]
pub struct TestCase {
    pub argv: Vec<String>,
    pub stdin: Option<String>,
    pub stdout: StdoutPattern,
    pub rc: Option<usize>,
    /// Why the test case has undefined behaviour, if it has.
    pub has_ub: Option<String>,
    /// The name of the file that the test case was read from.
    pub filename: String,
}

impl TestCase {
    /// Where a failed test case is kept.
    pub fn failed_path(&self, output_dir: &str) -> (r: String)
        ensures
            r@ == path::joined(path::joined(output_dir@, "failed_tests"@), self.filename@),
    {
        let dir = path::join(output_dir, "failed_tests");
        path::join(dir.as_str(), self.filename.as_str())
    }
}

// ── Layout ───────────────────────────────────────────────────────────────

/// What stands at a path.
#[derive(Debug, Clone, Copy, PartialEq, Eq, Structural)]
pub enum PathKind {
    Missing,
    File,
    Directory,
}

/// Whether a GoogleTest suite stands beside the test case.
pub open spec fn ships_gtest(dirs: Seq<Seq<char>>) -> bool {
    dirs.contains(gtest::GTEST_SUITE_DIR@)
}

/// What is wrong with the layout of a bench test case, if anything.
pub open spec fn layout_fault(input_dir: Seq<char>, kind: PathKind, dirs: Seq<Seq<char>>) -> Option<
    Seq<char>,
> {
    let test_case = path::joined(input_dir, "test_case"@);
    if kind == PathKind::Missing {
        Some("Input directory does not exist: "@ + input_dir)
    } else if kind == PathKind::File {
        Some("Input path is not a directory: "@ + input_dir)
    } else if !dirs.contains("test_case"@) {
        Some("Required test_case directory not found: "@ + test_case)
    } else if !dirs.contains("test_case/src"@) && !dirs.contains("test_case/app"@) && !ships_gtest(
        dirs,
    ) {
        Some(
            "Required test_case/src or test_case/app directory not found under: "@ + test_case
                + " (and no "@ + gtest::GTEST_SUITE_DIR@ + "/ beside test_case/)"@,
        )
    } else if !dirs.contains("test_vectors"@) && !ships_gtest(dirs) {
        Some(
            "Required test_vectors directory not found: "@ + path::joined(
                input_dir,
                "test_vectors"@,
            ),
        )
    } else {
        None
    }
}

/// Checks that the required directories of a bench test case exist, and gives the
/// test case and the vectors. A test case that ships a GoogleTest suite promises
/// only to be a CMake project: neither the layout of its sources nor the vectors
/// are required of it. `dirs` lists the directories below `input_dir`, by their
/// relative paths.
pub fn parse_benchmark_dir(input_dir: &str, kind: PathKind, dirs: &Vec<String>) -> (r: Result<
    (String, String),
    String,
>)
    ensures
        (match r {
            Ok((test_case, vectors)) => {
                &&& layout_fault(input_dir@, kind, text::texts(dirs@)) is None
                &&& test_case@ == path::joined(input_dir@, "test_case"@)
                &&& vectors@ == path::joined(input_dir@, "test_vectors"@)
            },
            Err(e) => layout_fault(input_dir@, kind, text::texts(dirs@)) == Some(e@),
        }),
{
    match kind {
        PathKind::Missing => {
            let mut e = "Input directory does not exist: ".to_owned();
            e.append(input_dir);
            return Err(e);
        },
        PathKind::File => {
            let mut e = "Input path is not a directory: ".to_owned();
            e.append(input_dir);
            return Err(e);
        },
        PathKind::Directory => {},
    }
    let test_case = path::join(input_dir, "test_case");
    let vectors = path::join(input_dir, "test_vectors");
    if !text::holds(dirs, "test_case") {
        let mut e = "Required test_case directory not found: ".to_owned();
        e.append(test_case.as_str());
        return Err(e);
    }
    let has_gtest = text::holds(dirs, gtest::GTEST_SUITE_DIR);
    if !text::holds(dirs, "test_case/src") && !text::holds(dirs, "test_case/app") && !has_gtest {
        let mut e =
            "Required test_case/src or test_case/app directory not found under: ".to_owned();
        e.append(test_case.as_str());
        e.append(" (and no ");
        e.append(gtest::GTEST_SUITE_DIR);
        e.append("/ beside test_case/)");
        return Err(e);
    }
    if !text::holds(dirs, "test_vectors") && !has_gtest {
        let mut e = "Required test_vectors directory not found: ".to_owned();
        e.append(vectors.as_str());
        return Err(e);
    }
    Ok((test_case, vectors))
}

/// A GoogleTest suite beside a test case is what is detected as its suite.
pub proof fn gtest_is_detected_first(dirs: Seq<Seq<char>>)
    ensures
        ships_gtest(dirs) <==> load_test_suite::kind_of(dirs) == Some(
            crate::full_source::TestSuiteKind::Gtest,
        ),
{
    let s = crate::full_source::suite_dirs(crate::full_source::TestSuiteKind::Gtest);
    assert(s[0] == gtest::GTEST_SUITE_DIR@);
    if ships_gtest(dirs) {
        assert(load_test_suite::is_present(dirs, crate::full_source::TestSuiteKind::Gtest));
    }
}

// ── Vectors ──────────────────────────────────────────────────────────────

/// Whether a file of the vectors' directory is a test vector: only plain `.json`
/// files are, not backups of them.
pub open spec fn is_vector(name: Seq<char>) -> bool {
    path::extension_of(name) == Some("json"@)
}

/// The test vectors among file names, in order.
pub open spec fn vectors_among(names: Seq<Seq<char>>) -> Seq<Seq<char>> {
    names.filter(|n: Seq<char>| is_vector(n))
}

/// The names of the test vectors among the files of a directory.
pub fn vector_names(names: &Vec<String>) -> (r: Vec<String>)
    ensures
        text::texts(r@) == vectors_among(text::texts(names@)),
{
    broadcast use text::group_texts;

    let ghost all = text::texts(names@);
    let ghost keep = |n: Seq<char>| is_vector(n);
    let mut out: Vec<String> = Vec::new();
    let mut i: usize = 0;
    proof {
        reveal(Seq::filter);
        assert(all.take(0) =~= seq![]);
        assert(text::texts(out@) =~= all.take(0).filter(keep));
    }
    while i < names.len()
        invariant
            i <= names@.len(),
            all == text::texts(names@),
            keep == (|n: Seq<char>| is_vector(n)),
            text::texts(out@) == all.take(i as int).filter(keep),
        decreases names@.len() - i,
    {
        proof {
            reveal(Seq::filter);
            assert(all.take(i + 1).drop_last() =~= all.take(i as int));
            assert(all.take(i + 1).last() == names@[i as int]@);
        }
        let is_json = match path::extension(names[i].as_str()) {
            Some(ext) => text::same(ext.as_str(), "json"),
            None => false,
        };
        if is_json {
            let n = names[i].clone();
            out.push(n);
        }
        i = i + 1;
    }
    assert(all.take(i as int) =~= all);
    out
}

// ── Judgement ────────────────────────────────────────────────────────────

/// What a program printed.
#[derive(Debug)]
pub struct RunOutput {
    pub stdout: String,
    pub stderr: String,
}

/// What is wrong with what a program printed, if anything.
pub open spec fn output_fault(t: StdoutPattern, stdout: Seq<char>, stderr: Seq<char>) -> Option<
    Seq<char>,
> {
    if t.is_regex && pattern::regex_fault(t.pattern@) is Some {
        Some(
            "Invalid regex pattern '"@ + t.pattern@ + "': "@ + pattern::regex_fault(t.pattern@)->0,
        )
    } else {
        let matches = if t.is_regex {
            pattern::regex_finds(t.pattern@, stdout)
        } else {
            text::trim_of(stdout) == text::trim_of(t.pattern@)
        };
        if matches {
            None
        } else {
            Some(unexpected(t, stdout, stderr))
        }
    }
}

pub open spec fn unexpected(t: StdoutPattern, stdout: Seq<char>, stderr: Seq<char>) -> Seq<char> {
    "\u{274c} Binary produced unexpected output:\n\n"@ + (if t.is_regex {
        "Regex pattern"@
    } else {
        "Expected stdout"@
    }) + ": "@ + t.pattern@ + "\n\nActual stdout:\n"@ + stdout + "\n\nActual stderr:\n"@ + stderr
}

/// Judges what a program printed, given whether its output matches.
pub fn judge_output(t: &StdoutPattern, matches: bool, stdout: &str, stderr: &str) -> (r: Result<
    (),
    String,
>)
    ensures
        (match r {
            Ok(_) => matches,
            Err(e) => !matches && e@ == unexpected(*t, stdout@, stderr@),
        }),
{
    if matches {
        return Ok(());
    }
    let mut e = "\u{274c} Binary produced unexpected output:\n\n".to_owned();
    if t.is_regex {
        e.append("Regex pattern");
    } else {
        e.append("Expected stdout");
    }
    e.append(": ");
    e.append(t.pattern.as_str());
    e.append("\n\nActual stdout:\n");
    e.append(stdout);
    e.append("\n\nActual stderr:\n");
    e.append(stderr);
    Err(e)
}

/// Compares what a program printed with what is expected: by a regular
/// expression, or as it is but for blanks at both ends.
pub fn check_output(t: &StdoutPattern, stdout: &str, stderr: &str) -> (r: Result<(), String>)
    ensures
        (match r {
            Ok(_) => output_fault(*t, stdout@, stderr@) is None,
            Err(e) => output_fault(*t, stdout@, stderr@) == Some(e@),
        }),
{
    let matches = if t.is_regex {
        match pattern::regex_match(t.pattern.as_str(), stdout) {
            Err(why) => {
                let mut e = "Invalid regex pattern '".to_owned();
                e.append(t.pattern.as_str());
                e.append("': ");
                e.append(why.as_str());
                return Err(e);
            },
            Ok(found) => found,
        }
    } else {
        let a = text::trim(stdout);
        let b = text::trim(t.pattern.as_str());
        text::same(a.as_str(), b.as_str())
    };
    judge_output(t, matches, stdout, stderr)
}

/// What is wrong with a run of a program, if anything.
pub open spec fn run_fault(
    binary_path: Seq<char>,
    t: TestCase,
    output: Result<RunOutput, String>,
) -> Option<Seq<char>> {
    match output {
        Err(e) => Some("Failed to run binary "@ + binary_path + ": "@ + e@),
        Ok(o) => output_fault(t.stdout, o.stdout@, o.stderr@),
    }
}

/// Judges a run of a program on a test case, given what came of it.
pub fn validate_binary_output(
    binary_path: &str,
    test_case: &TestCase,
    output: &Result<RunOutput, String>,
) -> (r: Result<(), String>)
    ensures
        (match r {
            Ok(_) => run_fault(binary_path@, *test_case, *output) is None,
            Err(e) => run_fault(binary_path@, *test_case, *output) == Some(e@),
        }),
{
    match output {
        Err(why) => {
            let mut e = "Failed to run binary ".to_owned();
            e.append(binary_path);
            e.append(": ");
            e.append(why.as_str());
            Err(e)
        },
        Ok(o) => check_output(&test_case.stdout, o.stdout.as_str(), o.stderr.as_str()),
    }
}

/// The result of one test case. A test case with undefined behaviour is not run.
pub open spec fn case_result(binary_path: Seq<char>, t: TestCase, output: Result<RunOutput, String>) -> TestResultView {
    TestResultView {
        filename: t.filename@,
        passed: t.has_ub is Some || run_fault(binary_path, t, output) is None,
        skipped: t.has_ub is Some,
    }
}

pub open spec fn case_results(
    binary_path: Seq<char>,
    cases: Seq<TestCase>,
    outputs: Seq<Result<RunOutput, String>>,
) -> Seq<TestResultView> {
    cases.map(|i: int, t: TestCase| case_result(binary_path, t, outputs[i]))
}

pub open spec fn case_errors(
    binary_path: Seq<char>,
    cases: Seq<TestCase>,
    outputs: Seq<Result<RunOutput, String>>,
) -> Seq<Seq<char>>
    decreases cases.len(),
{
    if cases.len() == 0 {
        seq![]
    } else {
        let before = case_errors(binary_path, cases.drop_last(), outputs);
        let t = cases.last();
        match run_fault(binary_path, t, outputs[cases.len() - 1]) {
            Some(e) => if t.has_ub is None {
                before.push("Test case "@ + t.filename@ + " failed: "@ + e)
            } else {
                before
            },
            None => before,
        }
    }
}

/// The results and the error messages of a list of test cases. `outputs` tells
/// what came of running each; of a test case with undefined behaviour it is not
/// looked at.
pub fn run_test_validation(
    binary_path: &str,
    cases: &Vec<TestCase>,
    outputs: &Vec<Result<RunOutput, String>>,
) -> (r: (Vec<TestResult>, Vec<String>))
    requires
        outputs@.len() >= cases@.len(),
    ensures
        stats::result_views(r.0@) == case_results(binary_path@, cases@, outputs@),
        text::texts(r.1@) == case_errors(binary_path@, cases@, outputs@),
{
    broadcast use {text::group_texts, stats::result_views_push};

    let ghost want = case_results(binary_path@, cases@, outputs@);
    let mut results: Vec<TestResult> = Vec::new();
    let mut errors: Vec<String> = Vec::new();
    let mut i: usize = 0;
    assert(cases@.take(0) =~= seq![]);
    assert(text::texts(errors@) =~= seq![]);
    assert(stats::result_views(results@) =~= want.take(0));
    while i < cases.len()
        invariant
            i <= cases@.len() <= outputs@.len(),
            want == case_results(binary_path@, cases@, outputs@),
            stats::result_views(results@) == want.take(i as int),
            text::texts(errors@) == case_errors(binary_path@, cases@.take(i as int), outputs@),
        decreases cases@.len() - i,
    {
        assert(cases@.take(i + 1).drop_last() =~= cases@.take(i as int));
        assert(want[i as int] == case_result(binary_path@, cases@[i as int], outputs@[i as int]));
        let t = &cases[i];
        let (passed, skipped) = if t.has_ub.is_some() {
            (true, true)
        } else {
            match validate_binary_output(binary_path, t, &outputs[i]) {
                Ok(_) => (true, false),
                Err(why) => {
                    let mut e = "Test case ".to_owned();
                    e.append(t.filename.as_str());
                    e.append(" failed: ");
                    e.append(why.as_str());
                    errors.push(e);
                    (false, false)
                },
            }
        };
        let row = TestResult { filename: t.filename.clone(), passed, skipped };
        assert(row.view() == want[i as int]);
        assert(want.take(i + 1) =~= want.take(i as int).push(row.view()));
        results.push(row);
        i = i + 1;
    }
    assert(cases@.take(i as int) =~= cases@);
    assert(want.take(i as int) =~= want);
    (results, errors)
}

/// Every failed test case has its message, and no other has one.
pub proof fn one_message_per_failure(
    binary_path: Seq<char>,
    cases: Seq<TestCase>,
    outputs: Seq<Result<RunOutput, String>>,
)
    ensures
        case_errors(binary_path, cases, outputs).len() == case_results(
            binary_path,
            cases,
            outputs,
        ).filter(|r: TestResultView| !r.passed).len(),
    decreases cases.len(),
{
    reveal(Seq::filter);
    let all = case_results(binary_path, cases, outputs);
    let failed = |r: TestResultView| !r.passed;
    if cases.len() > 0 {
        one_message_per_failure(binary_path, cases.drop_last(), outputs);
        let front = case_results(binary_path, cases.drop_last(), outputs);
        assert(all.drop_last() =~= front);
        assert(all.last() == case_result(binary_path, cases.last(), outputs[cases.len() - 1]));
    } else {
        assert(all =~= seq![]);
    }
}

/// Whether what a program printed is what is expected of it: the pattern is found in
/// it, if it is a regular expression; otherwise the two are the same text once the
/// white space at both ends is left out.
pub open spec fn is_expected(t: StdoutPattern, stdout: Seq<char>) -> bool {
    if t.is_regex {
        pattern::regex_fault(t.pattern@) is None && pattern::regex_finds(t.pattern@, stdout)
    } else {
        exists|core: Seq<char>|
            #[trigger] text::is_core(stdout, core) && text::is_core(t.pattern@, core)
    }
}

proof fn faultless_is_expected(t: StdoutPattern, stdout: Seq<char>, stderr: Seq<char>)
    ensures
        output_fault(t, stdout, stderr) is None <==> is_expected(t, stdout),
{
    if !t.is_regex {
        text::trimming_leaves_the_core(stdout);
        text::trimming_leaves_the_core(t.pattern@);
        if is_expected(t, stdout) {
            let core = choose|core: Seq<char>|
                #[trigger] text::is_core(stdout, core) && text::is_core(t.pattern@, core);
            text::the_core_is_unique(stdout, core, text::trim_of(stdout));
            text::the_core_is_unique(t.pattern@, core, text::trim_of(t.pattern@));
        }
    }
}

/// An output is accepted exactly if it is what is expected, whatever stands on the
/// error output. An invalid expression accepts nothing.
pub proof fn only_the_expected_passes(
    t: &StdoutPattern,
    stdout: &str,
    stderr: &str,
    r: Result<(), String>,
)
    requires
        call_ensures(check_output, (t, stdout, stderr), r),
    ensures
        r is Ok <==> is_expected(*t, stdout@),
{
    faultless_is_expected(*t, stdout@, stderr@);
}

/// Nothing may follow the expected text but white space: an output that goes on after
/// it is refused.
pub proof fn nothing_may_follow(
    t: &StdoutPattern,
    stdout: &str,
    stderr: &str,
    x: Seq<char>,
    r: Result<(), String>,
)
    requires
        call_ensures(check_output, (t, stdout, stderr), r),
        !t.is_regex,
        stdout@ == t.pattern@ + x,
        !text::is_blank(x),
    ensures
        r is Err,
{
    only_the_expected_passes(t, stdout, stderr, r);
    if r is Ok {
        let core = choose|core: Seq<char>|
            #[trigger] text::is_core(stdout@, core) && text::is_core(t.pattern@, core);
        text::only_blanks_may_follow(t.pattern@, x, core);
    }
}

/// A run that could not be made is a failure; any other is judged by its output.
pub proof fn runs_are_judged_by_their_output(
    binary_path: &str,
    test_case: &TestCase,
    output: &Result<RunOutput, String>,
    r: Result<(), String>,
)
    requires
        call_ensures(validate_binary_output, (binary_path, test_case, output), r),
    ensures
        r is Ok <==> (*output matches Ok(o) && is_expected(test_case.stdout, o.stdout@)),
{
    if let Ok(o) = *output {
        faultless_is_expected(test_case.stdout, o.stdout@, o.stderr@);
    }
}

/// Every test case has its own result, in order and under its own name. It is skipped
/// exactly if it has undefined behaviour. A test case that is not skipped passes
/// exactly if it ran and printed what is expected.
pub proof fn every_case_is_judged(
    binary_path: &str,
    cases: &Vec<TestCase>,
    outputs: &Vec<Result<RunOutput, String>>,
    r: (Vec<TestResult>, Vec<String>),
    i: int,
)
    requires
        outputs@.len() >= cases@.len(),
        call_ensures(run_test_validation, (binary_path, cases, outputs), r),
        0 <= i < cases@.len(),
    ensures
        r.0@.len() == cases@.len(),
        r.0@[i].filename@ == cases@[i].filename@,
        r.0@[i].skipped <==> cases@[i].has_ub is Some,
        r.0@[i].passed <==> cases@[i].has_ub is Some || (outputs@[i] matches Ok(o) && is_expected(
            cases@[i].stdout,
            o.stdout@,
        )),
{
    let views = stats::result_views(r.0@);
    assert(views.len() == r.0@.len());
    assert(views[i] == r.0@[i].view());
    assert(views[i] == case_result(binary_path@, cases@[i], outputs@[i]));
    if let Ok(o) = outputs@[i] {
        faultless_is_expected(cases@[i].stdout, o.stdout@, o.stderr@);
    }
}

// ── Cleaning up ──────────────────────────────────────────────────────────

/// What came of cleaning a project.
#[derive(Debug)]
pub enum CleanOutcome {
    Cleaned,
    /// The command failed, with this on its error output.
    Failed(String),
    /// The command could not be run.
    NotRun(String),
}

/// Whether the build output of a program is cleaned: it was translated, and is a
/// Rust project.
pub fn is_cleaned(result: &ProgramEvalStats, has_manifest: bool) -> (r: bool)
    ensures
        r == (result.translation_success && has_manifest),
{
    result.translation_success && has_manifest
}

pub open spec fn clean_fault(program: Seq<char>, o: CleanOutcome) -> Option<Seq<char>> {
    match o {
        CleanOutcome::Cleaned => None,
        CleanOutcome::Failed(stderr) => Some("Failed to clean "@ + program + ": "@ + stderr@),
        CleanOutcome::NotRun(e) => Some(
            "Failed to execute cargo clean for "@ + program + ": "@ + e@,
        ),
    }
}

/// What is told of a project that could not be cleaned.
pub fn clean_error(program: &str, o: &CleanOutcome) -> (r: Option<String>)
    ensures
        text::opt_text(r) == clean_fault(program@, *o),
{
    match o {
        CleanOutcome::Cleaned => None,
        CleanOutcome::Failed(stderr) => {
            let mut e = "Failed to clean ".to_owned();
            e.append(program);
            e.append(": ");
            e.append(stderr.as_str());
            Some(e)
        },
        CleanOutcome::NotRun(why) => {
            let mut e = "Failed to execute cargo clean for ".to_owned();
            e.append(program);
            e.append(": ");
            e.append(why.as_str());
            Some(e)
        },
    }
}

/// The lines that sum up the cleaning.
pub open spec fn clean_summary_of(cleaned: usize, errors: Seq<Seq<char>>) -> Seq<Seq<char>> {
    seq![
        "\nCleanup Summary:"@,
        "  Successfully cleaned: "@ + text::decimal_of(cleaned as nat) + " projects"@,
    ] + (if errors.len() > 0 {
        seq!["  Cleanup errors: "@ + text::decimal_of(errors.len()) + " projects"@]
            + errors.map_values(|e: Seq<char>| "    - "@ + e)
    } else {
        seq![]
    }) + seq!["\nDone!"@]
}

pub fn cleanup_summary(cleaned: usize, errors: &Vec<String>) -> (r: Vec<String>)
    ensures
        text::texts(r@) == clean_summary_of(cleaned, text::texts(errors@)),
{
    broadcast use text::group_texts;

    let ghost all = text::texts(errors@).map_values(|e: Seq<char>| "    - "@ + e);
    let mut count = "  Successfully cleaned: ".to_owned();
    count.append(text::decimal(cleaned as u64).as_str());
    count.append(" projects");
    let mut out: Vec<String> = vec!["\nCleanup Summary:".to_owned(), count];
    if errors.len() > 0 {
        let mut head = "  Cleanup errors: ".to_owned();
        head.append(text::decimal(errors.len() as u64).as_str());
        head.append(" projects");
        out.push(head);
        let ghost before = text::texts(out@);
        let mut i: usize = 0;
        assert(before + all.take(0) =~= before);
        while i < errors.len()
            invariant
                i <= errors@.len(),
                all == text::texts(errors@).map_values(|e: Seq<char>| "    - "@ + e),
                text::texts(out@) == before + all.take(i as int),
            decreases errors@.len() - i,
        {
            let mut s = "    - ".to_owned();
            s.append(errors[i].as_str());
            assert(all[i as int] == s@);
            assert(before + all.take(i + 1) =~= (before + all.take(i as int)).push(s@));
            out.push(s);
            i = i + 1;
        }
        assert(all.take(i as int) =~= all);
    }
    out.push("\nDone!".to_owned());
    assert(text::texts(out@) =~= clean_summary_of(cleaned, text::texts(errors@)));
    out
}

} // verus!
