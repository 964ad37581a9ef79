//! Tests of benchmark runs: suites, results, snapshots and statistics.

use harvest::benchmark::cli::{Args, TestHarness, VerifyHarness};
use harvest::benchmark::gtest::{
    gtest_results, Event, InvocationMode, InvocationOutcome, PlannedInvocation, Renderer,
    TestStatus, TestVerdict,
};
use harvest::benchmark::harness::{
    check_output, clean_error, cleanup_summary, is_cleaned, parse_benchmark_dir,
    run_test_validation, vector_names, CleanOutcome, PathKind, RunOutput, StdoutPattern, TestCase,
};
use harvest::benchmark::ir::{
    cargo_build_result, external_test_suite, raw_cargo_package, raw_source, Artifact,
    CargoBuildResult, HarvestIr, Representation, TranspilationResult,
};
use harvest::benchmark::program::{
    choose_existing_grading, choose_grading, reopen, start, transpile_failed, DriverBuild, Grading,
    Next,
};
use harvest::benchmark::run::{
    announce_translation, effective_overrides, input_kind, prepare_output_dir,
    resume_from_snapshot, InputKind, ProgramRun, RunOptions,
};
use harvest::benchmark::snapshot::{
    apply_regex_filter, resume_from, stage_manifest_of, start_from_bench, translated_program_dirs,
    warn_of_modified, ManifestFacts, SubDir, SuiteOverride,
};
use harvest::benchmark::stats::{ProgramEvalStats, SummaryStats, TestResult};
use harvest::config::{AgentKind, Stage};
use harvest::fs::raw_dir::RawDir;
use harvest::full_source::{ExternalTestSuite, TestSuiteKind};
use harvest::stage_manifest::StageManifest;
use harvest::tools::translate_agentic::ProjectKind;

fn texts(v: &[&str]) -> Vec<String> {
    v.iter().map(|s| s.to_string()).collect()
}

// ── GoogleTest suites ────────────────────────────────────────────────────

fn invocation(mode: InvocationMode, filter: &str, tests: usize) -> PlannedInvocation {
    PlannedInvocation {
        mode,
        filter: filter.to_string(),
        tests: (0..tests).map(|i| format!("{}.T{}", filter, i)).collect(),
        timeout_secs: 10,
        note: None,
    }
}

fn verdict(name: &str, status: TestStatus) -> TestVerdict {
    TestVerdict { name: name.to_string(), status, failure: String::new() }
}

fn outcome(passed: usize, skipped: usize, total: usize) -> InvocationOutcome {
    InvocationOutcome { passed, skipped, total }
}

/// The events of one invocation.
fn events(
    mode: InvocationMode,
    filter: &str,
    verdicts: Vec<TestVerdict>,
    out: InvocationOutcome,
) -> Vec<Event> {
    let n = verdicts.len();
    let mut all = vec![Event::InvocationStarted { invocation: invocation(mode, filter, n) }];
    all.extend(verdicts.into_iter().map(|verdict| Event::TestFinished { verdict }));
    all.push(Event::InvocationFinished { invocation: invocation(mode, filter, n), outcome: out });
    all
}

fn render(all: &[Event]) -> Vec<String> {
    let mut renderer = Renderer::new();
    all.iter().flat_map(|e| renderer.render(e)).collect()
}

#[test]
fn all_green_batch_prints_only_its_summary() {
    let verdicts: Vec<_> =
        (0..3).map(|i| verdict(&format!("Suite.T{}", i), TestStatus::Passed)).collect();
    let lines =
        render(&events(InvocationMode::Suite, "Suite.*", verdicts, outcome(3, 0, 3)));
    // Header plus one summary line: no per-test lines at all.
    assert_eq!(lines.len(), 2, "{:?}", lines);
    assert!(lines[0].starts_with("Running gtest batch"), "{:?}", lines);
    assert!(lines[1].contains("Batch 'Suite.*': 3/3 passed"), "{:?}", lines);
}

#[test]
fn failing_batch_prints_the_failures_and_counts_the_rest() {
    let verdicts = vec![
        verdict("Suite.T0", TestStatus::Passed),
        verdict("Suite.T1", TestStatus::Failed),
        verdict("Suite.T2", TestStatus::Passed),
        verdict("Suite.T3", TestStatus::Skipped),
    ];
    let lines = render(&events(InvocationMode::Suite, "Suite.*", verdicts, outcome(2, 1, 4)));
    let joined = lines.join("\n");
    assert!(joined.contains("Test Suite.T1 failed"), "{}", joined);
    assert!(joined.contains("Test Suite.T3 skipped"), "{}", joined);
    assert!(joined.contains("2 other test(s) passed"), "{}", joined);
    // The passing tests are never named.
    assert!(!joined.contains("Suite.T0"), "{}", joined);
    assert!(!joined.contains("Suite.T2"), "{}", joined);
}

#[test]
fn per_case_invocations_always_print_each_test() {
    let verdicts = vec![verdict("Solo.Test", TestStatus::Passed)];
    let lines = render(&events(InvocationMode::Case, "Solo.Test", verdicts, outcome(1, 0, 1)));
    let joined = lines.join("\n");
    assert!(joined.contains("Test Solo.Test passed"), "{}", joined);
    // Per-case invocations get no batch summary line.
    assert!(!joined.contains("Batch"), "{}", joined);
}

#[test]
fn batch_state_does_not_leak_into_the_next_invocation() {
    let mut all = events(
        InvocationMode::Suite,
        "A.*",
        vec![verdict("A.T0", TestStatus::Failed)],
        outcome(0, 0, 1),
    );
    all.extend(events(
        InvocationMode::Suite,
        "B.*",
        vec![verdict("B.T0", TestStatus::Passed)],
        outcome(1, 0, 1),
    ));
    let lines = render(&all);
    // The failure belongs to the first batch only.
    let second = lines.iter().position(|l| l.contains("'B.*'")).unwrap();
    assert!(!lines[second..].iter().any(|l| l.contains("A.T0")), "{:?}", lines);
}

#[test]
fn the_plan_is_told_with_its_source() {
    let plan = |read_from: Option<&str>| Event::PlanReady {
        invocations: vec![
            invocation(InvocationMode::Suite, "A.*", 2),
            invocation(InvocationMode::Case, "B.T", 1),
        ],
        read_from: read_from.map(str::to_string),
    };
    assert_eq!(
        render(&[plan(Some("plan.json"))]),
        [
            "Using invocation plan from plan.json",
            "Execution plan: 1 batch invocation(s), 1 per-case invocation(s)",
            "Validating library outputs against GoogleTest suite...",
        ]
    );
    assert_eq!(render(&[plan(None)]).len(), 2);
}

#[test]
fn verdicts_become_results() {
    let mut bad = verdict("S.B", TestStatus::Failed);
    bad.failure = "boom".to_string();
    let (results, errors) =
        gtest_results(&vec![verdict("S.A", TestStatus::Passed), bad, verdict("S.C", TestStatus::Skipped)]);
    assert_eq!(results.len(), 3);
    assert!(results[0].passed && !results[0].skipped);
    assert!(!results[1].passed);
    assert!(results[2].skipped);
    assert_eq!(errors.len(), 1);
    assert!(errors[0].contains("S.B"), "{errors:?}");
}

// ── Bench directories ────────────────────────────────────────────────────

/// A bench program directory with the given subdirectory paths.
fn bench(subdirs: &[&str]) -> Result<(String, String), String> {
    let mut dirs: Vec<String> = Vec::new();
    for sub in subdirs {
        let mut path = String::new();
        for piece in sub.split('/') {
            if !path.is_empty() {
                path.push('/');
            }
            path.push_str(piece);
            dirs.push(path.clone());
        }
    }
    parse_benchmark_dir("/bench/p", PathKind::Directory, &dirs)
}

#[test]
fn cando2_layout_is_accepted() {
    assert!(bench(&["test_case/src", "test_vectors"]).is_ok());
}

#[test]
fn configurable_app_layout_is_accepted() {
    assert!(bench(&["test_case/app", "test_vectors"]).is_ok());
}

#[test]
fn gtest_case_without_src_is_accepted() {
    // The libsodium shape: test_case/ keeps the upstream layout (no src/ or app/),
    // and the test set lives in gtest_suite/.
    assert!(bench(&["test_case/libsodium/crypto_box", "gtest_suite"]).is_ok());
}

#[test]
fn gtest_case_needs_no_test_vectors() {
    assert!(bench(&["test_case/src", "gtest_suite"]).is_ok());
}

#[test]
fn missing_src_without_gtest_is_rejected() {
    let err = bench(&["test_case/libsodium", "test_vectors"]).unwrap_err();
    assert!(err.contains("src"), "unexpected error: {err}");
}

#[test]
fn missing_test_case_is_rejected() {
    let err = bench(&["gtest_suite"]).unwrap_err();
    assert!(err.contains("test_case"), "unexpected error: {err}");
}

#[test]
fn missing_vectors_without_gtest_is_rejected() {
    let err = bench(&["test_case/src"]).unwrap_err();
    assert!(err.contains("test_vectors"), "unexpected error: {err}");
}

#[test]
fn a_bench_directory_must_be_a_directory() {
    let missing = parse_benchmark_dir("/x", PathKind::Missing, &Vec::new()).unwrap_err();
    assert_eq!(missing, "Input directory does not exist: /x");
    let file = parse_benchmark_dir("/x", PathKind::File, &Vec::new()).unwrap_err();
    assert_eq!(file, "Input path is not a directory: /x");
    let (case, vectors) = bench(&["test_case/src", "test_vectors"]).unwrap();
    assert_eq!(case, "/bench/p/test_case");
    assert_eq!(vectors, "/bench/p/test_vectors");
}

#[test]
fn vectors_are_the_json_files() {
    assert_eq!(vector_names(&texts(&["b.json", "a.json", "notes.md", "c.JSON"])), ["b.json", "a.json"]);
}

// ── Test cases ───────────────────────────────────────────────────────────

fn pattern(pattern: &str, is_regex: bool) -> StdoutPattern {
    StdoutPattern { pattern: pattern.to_string(), is_regex }
}

#[test]
fn outputs_are_matched_or_trimmed() {
    assert!(check_output(&pattern("hello\n", false), "  hello ", "").is_ok());
    assert!(check_output(&pattern("^h.*o", true), "hello world", "").is_ok());
    let err = check_output(&pattern("^x", true), "hello", "oops").unwrap_err();
    assert!(err.contains("Regex pattern: ^x"), "{err}");
    assert!(err.contains("Actual stdout:\nhello"), "{err}");
    assert!(err.contains("Actual stderr:\noops"), "{err}");
    let err = check_output(&pattern("x", false), "hello", "").unwrap_err();
    assert!(err.contains("Expected stdout: x"), "{err}");
    let err = check_output(&pattern("(", true), "hello", "").unwrap_err();
    assert!(err.starts_with("Invalid regex pattern '(': "), "{err}");
}

fn case(name: &str, has_ub: Option<&str>) -> TestCase {
    TestCase {
        filename: name.to_string(),
        argv: Vec::new(),
        stdin: None,
        stdout: pattern("ok", false),
        has_ub: has_ub.map(str::to_string),
        rc: None,
    }
}

#[test]
fn undefined_behaviour_is_skipped() {
    let cases = vec![case("a.json", None), case("b.json", Some("overflow")), case("c.json", None)];
    let ok = || Ok(RunOutput { stdout: "ok\n".to_string(), stderr: String::new() });
    let outputs = vec![ok(), Err("not run".to_string()), Err("crashed".to_string())];
    let (results, errors) = run_test_validation("/bin/driver", &cases, &outputs);
    assert!(results[0].passed && !results[0].skipped);
    assert!(results[1].passed && results[1].skipped);
    assert!(!results[2].passed && !results[2].skipped);
    assert_eq!(
        errors,
        ["Test case c.json failed: Failed to run binary /bin/driver: crashed"]
    );
}

// ── Statistics ───────────────────────────────────────────────────────────

/// A program with `total` tests of which `passed` passed and `skipped` were
/// skipped, translated and built successfully.
fn program(name: &str, total: usize, passed: usize, skipped: usize) -> ProgramEvalStats {
    let mut p = ProgramEvalStats::new(name);
    p.translation_success = true;
    p.rust_build_success = true;
    p.total_tests = total;
    p.passed_tests = passed;
    p.skipped_tests = skipped;
    p
}

/// A share in percent, 0 of nothing.
fn percent(part: usize, whole: usize) -> f64 {
    if whole == 0 {
        0.0
    } else {
        part as f64 / whole as f64 * 100.0
    }
}

fn project_pass_rate(s: &SummaryStats) -> f64 {
    percent(s.programs_all_tests_passed, s.num_programs)
}

fn overall_success_rate(s: &SummaryStats) -> f64 {
    percent(s.total_passed_tests, s.evaluated_tests())
}

#[test]
fn all_tests_passed_requires_at_least_one_evaluated_test() {
    assert!(program("a", 10, 10, 0).all_tests_passed());
    assert!(!program("a", 10, 9, 0).all_tests_passed());
    // Skipped tests are not failures: 8 of 10 evaluated, all 8 passed.
    assert!(program("a", 10, 8, 2).all_tests_passed());
    // A translation that fails to build reports zero tests.
    assert!(!program("a", 0, 0, 0).all_tests_passed());
    assert!(!program("a", 5, 0, 5).all_tests_passed());
}

#[test]
fn the_headline_metric_is_unaffected_by_suite_granularity() {
    // Both programs fail exactly one test; only the suite granularity differs
    // between the two runs.
    let coarse = vec![program("a", 4, 3, 0), program("b", 800, 799, 0)];
    let fine = vec![program("a", 800, 799, 0), program("b", 800, 799, 0)];

    let a = SummaryStats::from_results(&coarse);
    let b = SummaryStats::from_results(&fine);

    assert_eq!(a.programs_all_tests_passed, b.programs_all_tests_passed);
    assert_eq!(project_pass_rate(&a), project_pass_rate(&b));
    assert_ne!(
        overall_success_rate(&a),
        overall_success_rate(&b),
        "pooled rate should change when only the suite granularity changes"
    );
}

#[test]
fn a_pooled_average_hides_a_completely_broken_coarse_suite() {
    // One project fails every test, but its four tests are drowned out by the
    // other project's eight hundred.
    let results = vec![program("coarse", 4, 0, 0), program("fine", 800, 800, 0)];
    let s = SummaryStats::from_results(&results);

    assert!(overall_success_rate(&s) > 99.0, "pooled = {:.2}%", overall_success_rate(&s));
    assert_eq!(s.programs_all_tests_passed, 1);
    assert_eq!(project_pass_rate(&s), 50.0);
}

#[test]
fn project_pass_rate_counts_programs_not_tests() {
    // One tiny suite passes entirely, one huge suite fails a single test.
    let results = vec![program("small", 4, 4, 0), program("big", 1000, 999, 0)];
    let s = SummaryStats::from_results(&results);
    assert_eq!(s.programs_all_tests_passed, 1);
    assert_eq!(project_pass_rate(&s), 50.0);
    assert!(overall_success_rate(&s) > 99.0);
    assert_eq!(s.failed_tests(), 1);
}

#[test]
fn the_spread_of_suite_sizes_is_recorded() {
    let results = vec![
        program("small", 4, 4, 0),
        program("big", 800, 800, 0),
        program("failed_to_build", 0, 0, 0),
    ];
    let s = SummaryStats::from_results(&results);
    // The program that evaluated nothing must not pin the minimum at 0.
    assert_eq!(s.min_evaluated_tests, 4);
    assert_eq!(s.max_evaluated_tests, 800);
}

#[test]
fn an_empty_run_reports_zero_rather_than_dividing_by_zero() {
    let s = SummaryStats::from_results(&[]);
    assert_eq!(s.num_programs, 0);
    assert_eq!(project_pass_rate(&s), 0.0);
    assert_eq!(overall_success_rate(&s), 0.0);
    assert_eq!(s.min_evaluated_tests, 0);
    assert_eq!(s.max_evaluated_tests, 0);
}

// ── What a transpilation leaves behind ───────────────────────────────────

fn artifact(name: &str, executable: Option<&str>) -> Artifact {
    Artifact { target_name: name.to_string(), executable: executable.map(str::to_string) }
}

fn build(success: bool, err: &str, artifacts: Vec<Artifact>) -> Representation {
    Representation::CargoBuild(CargoBuildResult { success, err: err.to_string(), artifacts })
}

fn package() -> Representation {
    Representation::CargoPackage(RawDir::default())
}

#[test]
fn the_driver_is_picked_by_name() {
    let ir = HarvestIr {
        entries: vec![
            package(),
            build(
                true,
                "",
                vec![
                    artifact("debug_helper", Some("/t/debug_helper")),
                    artifact("driver", None),
                    artifact("driver", Some("/t/driver")),
                ],
            ),
        ],
    };
    let r = TranspilationResult::from_ir(&ir);
    assert!(r.translation_success && r.build_success);
    assert_eq!(r.rust_binary_path.as_deref(), Some("/t/driver"));
    assert_eq!(r.build_error, None);
}

#[test]
fn a_build_must_produce_something() {
    let error = |entries| TranspilationResult::from_ir(&HarvestIr { entries }).build_error;
    assert_eq!(
        error(vec![build(true, "", Vec::new())]).as_deref(),
        Some("Build succeeded but produced no artifacts")
    );
    assert_eq!(error(Vec::new()).as_deref(), Some("No artifacts built"));
    assert_eq!(
        error(vec![build(false, "E0001", Vec::new())]).as_deref(),
        Some("cargo build failed:\nE0001")
    );
    assert_eq!(
        error(vec![build(true, "", Vec::new()), build(true, "", Vec::new())]).as_deref(),
        Some("Found 2 build results, expected at most 1")
    );
}

#[test]
fn an_ir_without_a_package_is_no_translation() {
    let ir = HarvestIr { entries: vec![Representation::Other] };
    assert!(!TranspilationResult::from_ir(&ir).translation_success);
    assert_eq!(
        raw_cargo_package(&ir).unwrap_err(),
        "No CargoPackage representation found in IR"
    );
    assert_eq!(raw_source(&ir).unwrap_err(), "No RawSource representation found in IR");
    assert_eq!(cargo_build_result(&ir).unwrap_err(), "No artifacts built");
    let two = HarvestIr {
        entries: vec![
            Representation::RawSource(RawDir::default()),
            Representation::RawSource(RawDir::default()),
        ],
    };
    assert_eq!(
        raw_source(&two).unwrap_err(),
        "Found 2 RawSource representations, expected at most 1"
    );
}

// ── A run ────────────────────────────────────────────────────────────────

fn args() -> Args {
    Args {
        input_dir: Some("in".to_string()),
        output_dir: Some("out".to_string()),
        test: None,
        modular: false,
        agentic: None,
        agent: None,
        model: None,
        test_case: None,
        no_plan: false,
        no_plan_file: false,
        workflow: false,
        agent_tools: false,
        verify_harness: None,
        fuzz: false,
        config: texts(&["a.b=c"]),
        test_harness: TestHarness::Auto,
        timeout: 10,
        filter: None,
        exclude: None,
        force: false,
    }
}

fn program_run() -> ProgramRun {
    ProgramRun {
        name: "lz4".to_string(),
        c_source_dir: "/bench/lz4/test_case".to_string(),
        suite_root: Some("/bench/lz4".to_string()),
        stage_input: None,
        prior_stages: Vec::new(),
        bench_program: "lz4".to_string(),
        bench_revision: Some("abc".to_string()),
        test_corpus_root: Some("/corpus".to_string()),
    }
}

#[test]
fn options_follow_the_arguments() {
    let mut a = args();
    let opts = RunOptions::from_args(&a);
    assert_eq!(opts.verify_harness, VerifyHarness::Gtest);
    assert_eq!(opts.prompt_mode(), "one_shot");
    assert_eq!(announce_translation(&opts), "Using All-at-once Translation");
    a.modular = true;
    let opts = RunOptions::from_args(&a);
    assert_eq!(opts.prompt_mode(), "modular");
    assert_eq!(announce_translation(&opts), "Using Modular Translation");
    a.modular = false;
    a.agentic = Some(vec![Stage::Verify, Stage::Translate]);
    let opts = RunOptions::from_args(&a);
    assert_eq!(opts.prompt_mode(), "plan");
    assert!(opts.has(Stage::Verify) && !opts.has(Stage::Conform));
    assert_eq!(announce_translation(&opts), "Using Agentic (translate,verify) Translation");
    a.no_plan_file = true;
    assert_eq!(RunOptions::from_args(&a).prompt_mode(), "no_plan_file");
    a.no_plan = true;
    assert_eq!(RunOptions::from_args(&a).prompt_mode(), "no_plan");
    a.workflow = true;
    assert_eq!(RunOptions::from_args(&a).prompt_mode(), "workflow");
}

#[test]
fn each_stage_that_runs_is_configured() {
    let mut a = args();
    a.agentic = Some(vec![Stage::Verify]);
    a.model = Some("sonnet".to_string());
    a.fuzz = true;
    let opts = RunOptions::from_args(&a);
    assert_eq!(
        effective_overrides(&program_run(), "/out", &opts),
        [
            "a.b=c",
            "tools.load_test_suite.input_path=/bench/lz4",
            "tools.verify_fix_agentic.output_log_path=/out/output.log",
            "tools.verify_fix_agentic.rejected_output_dir=/out/lz4/.harvest/rejected/verify",
            "tools.verify_fix_agentic.test_corpus_root=/corpus",
            "tools.verify_fix_agentic.model=sonnet",
            "tools.verify_fix_agentic.wishlist_output_path=/out/lz4/.harvest/tool_wishlist.json",
            "tools.verify_fix_agentic.hypotheses_output_path=/out/lz4/.harvest/hypotheses_verify.md",
            "tools.verify_fix_agentic.verify_harness=gtest",
            "tools.verify_fix_agentic.fuzz=true",
        ]
    );
    // The mechanism that was asked for is told, whichever it is.
    a.verify_harness = Some(VerifyHarness::Libloading);
    let opts = RunOptions::from_args(&a);
    assert!(effective_overrides(&program_run(), "/out", &opts)
        .contains(&"tools.verify_fix_agentic.verify_harness=libloading".to_string()));
    // Without stages only the suite is configured.
    a.agentic = None;
    a.test_harness = TestHarness::Lib;
    let opts = RunOptions::from_args(&a);
    assert_eq!(
        effective_overrides(&program_run(), "/out", &opts),
        [
            "a.b=c",
            "tools.load_test_suite.input_path=/bench/lz4",
            "tools.load_test_suite.harness=lib",
        ]
    );
}

#[test]
fn the_first_stage_decides_what_the_input_is() {
    assert!(resume_from_snapshot(&vec![Stage::Conform]));
    assert!(!resume_from_snapshot(&vec![Stage::Translate, Stage::Verify]));
    assert_eq!(input_kind(&vec![Stage::Verify], true), InputKind::Snapshots);
    assert_eq!(input_kind(&Vec::new(), true), InputKind::TestCase);
    assert_eq!(input_kind(&Vec::new(), false), InputKind::Collection);
}

#[test]
fn a_populated_output_is_refused_unless_forced() {
    assert_eq!(prepare_output_dir("/out/lz4", false, false), Ok(false));
    assert_eq!(prepare_output_dir("/out/lz4", true, true), Ok(true));
    assert_eq!(
        prepare_output_dir("/out/lz4", true, false).unwrap_err(),
        "output program directory /out/lz4 is not empty; pass --force to overwrite it \
         (reusing a populated directory mixes two runs' results)"
    );
}

fn go<T: std::fmt::Debug>(next: Next<T>) -> T {
    match next {
        Next::Go(t) => t,
        Next::Done(s) => panic!("ended with {s:?}"),
    }
}

fn done<T: std::fmt::Debug>(next: Next<T>) -> ProgramEvalStats {
    match next {
        Next::Done(s) => s,
        Next::Go(t) => panic!("went on with {t:?}"),
    }
}

fn result(name: &str, passed: bool, skipped: bool) -> TestResult {
    TestResult { filename: name.to_string(), passed, skipped }
}

#[test]
fn a_program_goes_through_its_steps() {
    let opts = RunOptions::from_args(&args());
    let started = start(&program_run(), &texts(&["test_vectors"]));
    assert_eq!(started.vectors.as_deref(), Some("/bench/lz4/test_vectors"));
    let counted = go(started.vectors_read(Ok(3)));
    let cleared = go(counted.output_seen("/out/lz4", false, false));
    assert!(!cleared.erase);
    let ready = go(cleared.output_made(Ok(()), &program_run(), "/out", &opts));
    assert_eq!(ready.overrides.len(), 2);
    let translated = go(ready.transpiled(TranspilationResult {
        translation_success: true,
        build_success: true,
        rust_binary_path: Some("/out/lz4/target/driver".to_string()),
        build_error: None,
    }));
    let built = go(translated.stamped());
    let gradable = go(built.suite_seen(
        TestHarness::Auto,
        Some(ProjectKind::Executable),
        "/out/lz4/.harvest/suite",
        &texts(&["test_vectors"]),
        true,
    ));
    assert!(matches!(&gradable.grading, Grading::Binary(p) if p == "/out/lz4/target/driver"));
    let stats = gradable.graded(Ok(vec![
        result("a", true, false),
        result("b", false, false),
        result("c", true, true),
    ]));
    assert_eq!((stats.total_tests, stats.passed_tests, stats.skipped_tests), (3, 1, 1));
    assert_eq!(stats.failed_tests(), 1);
    assert!(stats.translation_success && stats.rust_build_success);
    assert_eq!(stats.error_message, None);
}

#[test]
fn a_program_that_ends_early_says_why() {
    let begin = || go(start(&program_run(), &texts(&["test_vectors"])).vectors_read(Ok(1)));
    let opts = RunOptions::from_args(&args());
    let failed = done(start(&program_run(), &Vec::new()).vectors_read(Err("bad".to_string())));
    assert_eq!(failed.error_message.as_deref(), Some("bad"));
    let refused = done(begin().output_seen("/out/lz4", true, false));
    assert!(refused.error_message.unwrap().contains("is not empty"));
    let ready = || {
        let cleared = go(begin().output_seen("/out/lz4", true, true));
        assert!(cleared.erase);
        go(cleared.output_made(Ok(()), &program_run(), "/out", &opts))
    };
    let untranslated = done(ready().transpiled(transpile_failed("no agent")));
    assert_eq!(
        untranslated.error_message.as_deref(),
        Some("Failed to translate C project: Some(\"Failed to transpile: no agent\")")
    );
    let translated = |build_success| {
        go(ready().transpiled(TranspilationResult {
            translation_success: true,
            build_success,
            rust_binary_path: None,
            build_error: None,
        }))
    };
    let unbuilt = done(translated(false).stamped());
    assert_eq!(
        unbuilt.error_message.as_deref(),
        Some("Failed to build Rust project: None")
    );
    assert!(unbuilt.translation_success && !unbuilt.rust_build_success);
    let missing = done(go(translated(true).stamped()).suite_seen(
        TestHarness::Gtest,
        None,
        "/s",
        &Vec::new(),
        false,
    ));
    assert_eq!(
        missing.error_message.as_deref(),
        Some("--test-harness gtest requested, but no gtest_suite/ was carried into /s")
    );
    let nothing = done(go(translated(true).stamped()).suite_seen(
        TestHarness::Bin,
        Some(ProjectKind::Library),
        "/s",
        &Vec::new(),
        false,
    ));
    assert_eq!(
        nothing.error_message.as_deref(),
        Some("Rust build reported success, but expected output artifact was not found at None")
    );
    let gradable = go(go(translated(true).stamped()).suite_seen(
        TestHarness::Auto,
        Some(ProjectKind::Configurable),
        "/s",
        &texts(&["runner", "test_vectors"]),
        false,
    ));
    assert!(matches!(gradable.grading, Grading::Library));
    assert_eq!(
        gradable.graded(Err("no runner".to_string())).error_message.as_deref(),
        Some("Library validation failed: no runner")
    );
}

#[test]
fn a_snapshot_is_graded_again() {
    let reopened = go(reopen("/out/lz4", &texts(&["gtest_suite"])));
    assert_eq!(reopened.suite_root, "/out/lz4/.harvest/suite");
    assert_eq!(reopened.vectors, None);
    let counted = go(reopened.vectors_read(Ok(0)));
    let gradable =
        go(counted.suite_seen(TestHarness::Auto, "/out/lz4", &texts(&["gtest_suite"])));
    assert!(matches!(&gradable.grading, Grading::Gtest(d) if d == "/out/lz4/.harvest/suite/gtest_suite"));
    let stats = gradable.graded(Ok(vec![result("a", true, false)]));
    assert_eq!((stats.program_name.as_str(), stats.total_tests), ("lz4", 1));
    assert!(stats.rust_build_success);

    let nothing = done(reopen("/out/lz4", &Vec::new()));
    assert_eq!(
        nothing.error_message.as_deref(),
        Some("Snapshot /out/lz4 carries no external test suite under /out/lz4/.harvest/suite")
    );
    assert!(nothing.translation_success);
}

#[test]
fn a_snapshot_with_vectors_needs_its_driver() {
    let regradable = || {
        let dirs = texts(&["test_vectors"]);
        let counted = go(go(reopen("/out/lz4", &dirs)).vectors_read(Ok(2)));
        go(counted.suite_seen(TestHarness::Auto, "/out/lz4", &dirs))
    };
    let driver = "/out/lz4/target/release/driver";
    assert!(matches!(&regradable().grading, Grading::Binary(p) if p == driver));
    let missing =
        done(regradable().driver_built(DriverBuild::Built { driver_exists: false }, driver));
    assert!(missing.error_message.unwrap().ends_with(driver));
    assert!(missing.rust_build_success);
    let failed = done(regradable().driver_built(DriverBuild::Failed("E".to_string()), driver));
    assert_eq!(failed.error_message.as_deref(), Some("cargo build --release failed: E"));
    let not_run = done(regradable().driver_built(DriverBuild::NotRun("E".to_string()), driver));
    assert_eq!(not_run.error_message.as_deref(), Some("Failed to run cargo build: E"));
    let built = go(regradable().driver_built(DriverBuild::Built { driver_exists: true }, driver));
    let stats = built.graded(Ok(vec![result("a", true, false), result("b", false, false)]));
    assert!(stats.rust_build_success);
    assert_eq!((stats.total_tests, stats.passed_tests), (2, 1));
}

// ── Snapshots ────────────────────────────────────────────────────────────

fn manifest(stages: Vec<Stage>) -> StageManifest {
    StageManifest {
        schema_version: 1,
        stages,
        agent: Some(AgentKind::Claude),
        model: None,
        prompt_mode: "plan".to_string(),
        harvest_version: "v".to_string(),
        bench_program: "lz4".to_string(),
        bench_revision: Some("abc".to_string()),
        test_corpus_root: Some("/corpus".to_string()),
        test_corpus_revision: None,
        reference_modified: Vec::new(),
        created_unix: 1,
    }
}

#[test]
fn snapshots_are_found_by_their_manifest() {
    let marked = || texts(&["stage.json"]);
    let sub = |name: &str, meta_files| SubDir { name: name.to_string(), meta_files };
    assert_eq!(translated_program_dirs("/out/lz4", &marked(), &Vec::new()), ["/out/lz4"]);
    assert_eq!(
        translated_program_dirs(
            "/out",
            &Vec::new(),
            &vec![sub("zstd", marked()), sub("other", Vec::new()), sub("lz4", marked())],
        ),
        ["/out/lz4", "/out/zstd"]
    );
}

#[test]
fn programs_are_filtered_by_name() {
    let all = || texts(&["/b/lz4", "/b/libpng", "/b/zstd"]);
    let mut dirs = all();
    let lines = apply_regex_filter(&mut dirs, "^l", true, "Filter").unwrap();
    assert_eq!(dirs, ["/b/lz4", "/b/libpng"]);
    assert_eq!(
        lines,
        ["Filter '^l' applied: 2 programs remaining, 1 removed", "Filtered: zstd"]
    );
    let mut dirs = all();
    let lines = apply_regex_filter(&mut dirs, "^l", false, "Exclude").unwrap();
    assert_eq!(dirs, ["/b/zstd"]);
    assert_eq!(
        lines,
        [
            "Exclude '^l' applied: 1 programs remaining, 2 removed",
            "Excluded: lz4, libpng"
        ]
    );
    let mut dirs = all();
    let err = apply_regex_filter(&mut dirs, "(", true, "Filter").unwrap_err();
    assert!(err.starts_with("Invalid regex pattern '(': "), "{err}");
    assert_eq!(dirs, all());
}

#[test]
fn a_run_starts_from_the_bench() {
    let dirs = texts(&["test_case", "test_case/src", "test_vectors"]);
    let run = start_from_bench(
        "/bench/lz4",
        "lz4",
        PathKind::Directory,
        &dirs,
        Some("abc".to_string()),
        None,
    )
    .unwrap();
    assert_eq!(run.c_source_dir, "/bench/lz4/test_case");
    assert_eq!(run.suite_root.as_deref(), Some("/bench/lz4"));
    assert_eq!(run.bench_revision.as_deref(), Some("abc"));
    assert!(run.stage_input.is_none() && run.prior_stages.is_empty());
    assert!(
        start_from_bench("/bench/x", "x", PathKind::Missing, &Vec::new(), None, None).is_err()
    );
}

#[test]
fn a_resumed_run_needs_only_the_snapshot() {
    let run = resume_from(
        "/out/lz4",
        "lz4",
        Ok(manifest(vec![Stage::Translate])),
        true,
        &texts(&["test_vectors"]),
        None,
    )
    .unwrap();
    assert_eq!(run.c_source_dir, "/out/lz4/.harvest/c_src");
    assert_eq!(run.suite_root.as_deref(), Some("/out/lz4/.harvest/suite"));
    assert_eq!(run.stage_input.as_deref(), Some("/out/lz4"));
    assert_eq!(run.bench_revision.as_deref(), Some("abc"));

    // The manifest of the next run carries the history on.
    let mut a = args();
    a.agentic = Some(vec![Stage::Verify]);
    a.agent = Some(AgentKind::Kiro);
    let facts = ManifestFacts {
        rejected: texts(&["suite", "c_src", "suite"]),
        harvest_version: "v2".to_string(),
        test_corpus_revision: None,
        now_unix: 7,
    };
    let m = stage_manifest_of(&run, &RunOptions::from_args(&a), facts);
    assert_eq!(m.stages, [Stage::Translate, Stage::Verify]);
    assert_eq!(m.reference_modified, ["c_src", "suite"]);
    assert_eq!((m.bench_program.as_str(), m.created_unix), ("lz4", 7));
    assert_eq!(m.test_corpus_root.as_deref(), Some("/corpus"));
    let warning = warn_of_modified(&m).unwrap();
    assert!(warning.contains("c_src, suite"), "{warning}");
    assert!(warn_of_modified(&manifest(Vec::new())).is_none());
}

#[test]
fn a_suite_can_be_overridden() {
    let over = |program_dirs: &[&str], bench_dirs: &[&str]| {
        resume_from(
            "/out/lz4",
            "lz4",
            Ok(manifest(Vec::new())),
            true,
            &Vec::new(),
            Some(SuiteOverride {
                bench: "/bench".to_string(),
                program_dirs: texts(program_dirs),
                program_revision: Some("p".to_string()),
                bench_dirs: texts(bench_dirs),
                bench_revision: Some("b".to_string()),
            }),
        )
    };
    let run = over(&["gtest_suite"], &[]).unwrap();
    assert_eq!(run.suite_root.as_deref(), Some("/bench/lz4"));
    assert_eq!(run.bench_revision.as_deref(), Some("p"));
    let run = over(&[], &["test_vectors"]).unwrap();
    assert_eq!(run.suite_root.as_deref(), Some("/bench"));
    assert_eq!(run.bench_revision.as_deref(), Some("b"));
    assert_eq!(
        over(&[], &[]).unwrap_err(),
        "--test-case /bench holds no external test suite (looked in it and in \"lz4\")"
    );
}

#[test]
fn a_snapshot_without_its_parts_is_refused() {
    let none = Vec::new();
    let e = resume_from("/s", "s", Err("gone".to_string()), true, &none, None).unwrap_err();
    assert_eq!(
        e,
        "snapshot /s has no readable stage manifest (gone); only outputs of a stage-aware run \
         can be resumed from"
    );
    let e = resume_from("/s", "s", Ok(manifest(Vec::new())), false, &none, None).unwrap_err();
    assert_eq!(e, "snapshot /s carries no C source at /s/.harvest/c_src");
}

#[test]
fn cleaning_is_summed_up() {
    assert!(is_cleaned(&program("a", 1, 1, 0), true));
    assert!(!is_cleaned(&program("a", 1, 1, 0), false));
    assert!(clean_error("a", &CleanOutcome::Cleaned).is_none());
    assert!(!cleanup_summary(1, &Vec::new()).is_empty());
}

#[test]
fn a_failed_case_is_kept_by_its_name() {
    assert_eq!(case("a.json", None).failed_path("/out/lz4"), "/out/lz4/failed_tests/a.json");
}

#[test]
fn the_last_suite_counts() {
    let suite = |kind| {
        Representation::ExternalTestSuite(ExternalTestSuite { dir: RawDir::default(), kind })
    };
    let ir = HarvestIr { entries: vec![suite(TestSuiteKind::Lib), suite(TestSuiteKind::Bin)] };
    assert_eq!(external_test_suite(&ir).map(|s| s.kind), Some(TestSuiteKind::Bin));
    assert!(external_test_suite(&HarvestIr { entries: Vec::new() }).is_none());
}

#[test]
fn the_suite_decides_how_a_program_is_graded() {
    let driver = Some("/out/driver".to_string());
    let gtest = texts(&["gtest_suite", "runner"]);
    let choose = |harness, kind, dirs: &Vec<String>, exists| {
        choose_grading(harness, kind, "/s", dirs, &driver, exists)
    };
    assert!(matches!(
        choose(TestHarness::Auto, Some(ProjectKind::Library), &gtest, true),
        Ok(Grading::Gtest(dir)) if dir == "/s/gtest_suite"
    ));
    // A suite that is forced is the one that is used.
    assert!(matches!(choose(TestHarness::Lib, None, &gtest, true), Ok(Grading::Library)));
    assert!(matches!(
        choose(TestHarness::Bin, Some(ProjectKind::Library), &gtest, true),
        Ok(Grading::Binary(path)) if path == "/out/driver"
    ));
    // A configurable project is a library when there is a runner.
    let runner = texts(&["runner", "test_vectors"]);
    let vectors = texts(&["test_vectors"]);
    let configurable = Some(ProjectKind::Configurable);
    assert!(matches!(
        choose(TestHarness::Auto, configurable, &runner, true),
        Ok(Grading::Library)
    ));
    assert!(matches!(
        choose(TestHarness::Auto, configurable, &vectors, true),
        Ok(Grading::Binary(_))
    ));
    assert_eq!(
        choose(TestHarness::Gtest, None, &vectors, true).err(),
        Some(
            "--test-harness gtest requested, but no gtest_suite/ was carried into /s".to_string()
        )
    );
    assert_eq!(
        choose(TestHarness::Auto, None, &vectors, false).err(),
        Some(
            "Rust build reported success, but expected output artifact was not found at \
             Some(\"/out/driver\")"
                .to_string()
        )
    );
    assert!(matches!(
        choose_existing_grading(TestHarness::Auto, "/p", "/s", &runner),
        Ok(Grading::Library)
    ));
    assert!(matches!(
        choose_existing_grading(TestHarness::Auto, "/p", "/s", &vectors),
        Ok(Grading::Binary(path)) if path == "/p/target/release/driver"
    ));
}
