//! What holds of the grading of programs and of what they are configured with.

use crate::benchmark::cli::TestHarness;
use crate::benchmark::gtest;
use crate::benchmark::gtest::{
    gtest_results, Event, InvocationMode, InvocationOutcome, PlannedInvocation, RendererView,
    TestStatus, TestVerdict,
};
use crate::benchmark::harness;
use crate::benchmark::harness::{
    clean_error, cleanup_summary, is_cleaned, parse_benchmark_dir, vector_names, CleanOutcome,
    PathKind, TestCase,
};
use crate::benchmark::program;
use crate::benchmark::program::{choose_grading, Gradable, Grading};
use crate::benchmark::run;
use crate::benchmark::run::{effective_overrides, InputKind, ProgramRun, RunOptions};
use crate::benchmark::snapshot;
use crate::benchmark::stats;
use crate::benchmark::stats::{ProgramEvalStats, SummaryStats, TestResult, TestResultView};
use crate::config;
use crate::config::Stage;
use crate::full_source::TestSuiteKind;
use crate::num;
use crate::path;
use crate::text;
use crate::tools::translate_agentic::ProjectKind;
use vstd::prelude::*;

verus! {

// ── GoogleTest verdicts ──────────────────────────────────────────────────

/// Every verdict becomes a result of its own, in order and under the test's name: it
/// passed unless it failed, and it was skipped exactly if it says so.
pub proof fn every_verdict_becomes_a_result(
    verdicts: &Vec<TestVerdict>,
    r: (Vec<TestResult>, Vec<String>),
    i: int,
)
    requires
        call_ensures(gtest_results, (verdicts,), r),
        0 <= i < verdicts@.len(),
    ensures
        r.0@.len() == verdicts@.len(),
        r.0@[i].filename@ == verdicts@[i].name@,
        r.0@[i].passed <==> verdicts@[i].status != TestStatus::Failed,
        r.0@[i].skipped <==> verdicts@[i].status == TestStatus::Skipped,
{
    let views = stats::result_views(r.0@);
    assert(views.len() == r.0@.len());
    assert(views[i] == r.0@[i].view());
    assert(views[i] == gtest::result_of(verdicts@[i]));
}

proof fn failures_are_listed(verdicts: Seq<TestVerdict>, i: int)
    requires
        0 <= i < verdicts.len(),
        verdicts[i].status == TestStatus::Failed,
    ensures
        gtest::failures_of(verdicts).contains(
            "gtest "@ + verdicts[i].name@ + " failed:\n"@ + verdicts[i].failure@,
        ),
    decreases verdicts.len(),
{
    let front = verdicts.drop_last();
    let before = gtest::failures_of(front);
    let m = "gtest "@ + verdicts[i].name@ + " failed:\n"@ + verdicts[i].failure@;
    let all = gtest::failures_of(verdicts);
    if i < front.len() {
        assert(front[i] == verdicts[i]);
        failures_are_listed(front, i);
        let k = choose|k: int| 0 <= k < before.len() && before[k] == m;
        assert(all[k] == m);
    } else {
        assert(all[before.len() as int] == m);
    }
}

proof fn failures_are_counted(verdicts: Seq<TestVerdict>)
    ensures
        gtest::failures_of(verdicts).len() == program::failed_count(gtest::results_of(verdicts)),
    decreases verdicts.len(),
{
    let all = gtest::results_of(verdicts);
    if verdicts.len() > 0 {
        failures_are_counted(verdicts.drop_last());
        assert(all.drop_last() =~= gtest::results_of(verdicts.drop_last()));
        assert(all.last() == gtest::result_of(verdicts.last()));
    } else {
        assert(all =~= seq![]);
    }
}

/// Every failed test has a message with its name and what went wrong, and there are no
/// other messages.
pub proof fn every_failure_has_its_message(
    verdicts: &Vec<TestVerdict>,
    r: (Vec<TestResult>, Vec<String>),
    i: int,
)
    requires
        call_ensures(gtest_results, (verdicts,), r),
        0 <= i < verdicts@.len(),
    ensures
        verdicts@[i].status == TestStatus::Failed ==> text::texts(r.1@).contains(
            "gtest "@ + verdicts@[i].name@ + " failed:\n"@ + verdicts@[i].failure@,
        ),
        r.1@.len() == program::failed_count(stats::result_views(r.0@)),
{
    if verdicts@[i].status == TestStatus::Failed {
        failures_are_listed(verdicts@, i);
    }
    failures_are_counted(verdicts@);
    assert(text::texts(r.1@).len() == r.1@.len());
}

/// In a batch, a test is named exactly if it did not pass.
pub proof fn batches_name_what_needs_attention(v: TestVerdict)
    ensures
        v.status != TestStatus::Passed <==> gtest::batched_test(v).len() == 1,
        v.status == TestStatus::Passed <==> gtest::batched_test(v).len() == 0,
        v.status == TestStatus::Failed ==> gtest::batched_test(v)[0] == "  \u{274c} Test "@ + v.name@
            + " failed"@,
{
}

// ── Counts ───────────────────────────────────────────────────────────────

/// One more result counts where it belongs: as passed if it passed without being
/// skipped, as skipped if it was, and as failed otherwise.
pub proof fn results_count_where_they_belong(results: Seq<TestResultView>, x: TestResultView)
    ensures
        program::passed_count(seq![]) == 0,
        program::skipped_count(seq![]) == 0,
        program::passed_count(results.push(x)) == program::passed_count(results) + (if x.passed
            && !x.skipped {
            1nat
        } else {
            0nat
        }),
        program::skipped_count(results.push(x)) == program::skipped_count(results) + (
        if x.skipped {
            1nat
        } else {
            0nat
        }),
        program::failed_count(results.push(x)) == program::failed_count(results) + (if !x.passed
            && !x.skipped {
            1nat
        } else {
            0nat
        }),
{
    assert(results.push(x).drop_last() =~= results);
}

/// Grading notes what it came to: the results, how many passed and how many were
/// skipped; a GoogleTest suite also decides how many tests there are. Nothing else is
/// touched. A grading that went wrong leaves its error, and nothing else.
pub proof fn grading_is_noted(
    g: Gradable,
    results: Result<Vec<TestResult>, String>,
    r: ProgramEvalStats,
)
    requires
        call_ensures(Gradable::graded, (g, results), r),
    ensures
        r.program_name@ == g.stats.program_name@,
        r.translation_success == g.stats.translation_success,
        r.rust_build_success == g.stats.rust_build_success,
        results matches Ok(v) ==> {
            &&& stats::result_views(r.test_results@) == stats::result_views(v@)
            &&& r.passed_tests == program::passed_count(stats::result_views(v@))
            &&& r.skipped_tests == program::skipped_count(stats::result_views(v@))
            &&& g.grading is Gtest ==> r.total_tests == v@.len()
            &&& !(g.grading is Gtest) ==> r.total_tests == g.stats.total_tests
            &&& text::opt_text(r.error_message) == text::opt_text(g.stats.error_message)
        },
        results matches Err(e) ==> {
            &&& r.error_message matches Some(m) && text::has_suffix(m@, e@)
            &&& r.passed_tests == g.stats.passed_tests
            &&& r.skipped_tests == g.stats.skipped_tests
            &&& r.total_tests == g.stats.total_tests
        },
{
    let s = g.stats.view();
    let t = r.view();
    assert(t.program_name == r.program_name@ && s.program_name == g.stats.program_name@);
    match results {
        Ok(v) => {
            assert(stats::result_views(v@).len() == v@.len());
            assert(t.total_tests == r.total_tests && s.total_tests == g.stats.total_tests);
        },
        Err(e) => {
            let m = program::grading_fault(g.grading.view(), e@);
            assert(t.error_message == Some(m));
            assert(m.subrange(m.len() - e@.len(), m.len() as int) =~= e@);
        },
    }
}

/// The tests of a program that were evaluated are those that were not skipped, and
/// those of them that did not pass failed. It passed its suite exactly if it evaluated
/// a test and none failed, with as many passed as were evaluated.
pub proof fn evaluated_tests_pass_or_fail(
    s: &ProgramEvalStats,
    evaluated: usize,
    failed: usize,
    all: bool,
)
    requires
        call_ensures(ProgramEvalStats::evaluated_tests, (s,), evaluated),
        call_ensures(ProgramEvalStats::failed_tests, (s,), failed),
        call_ensures(ProgramEvalStats::all_tests_passed, (s,), all),
        s.passed_tests + s.skipped_tests <= s.total_tests,
    ensures
        evaluated + s.skipped_tests == s.total_tests,
        s.passed_tests + failed == evaluated,
        all <==> evaluated > 0 && failed == 0,
{
}

/// One more program adds to a summary just what it came to.
pub proof fn programs_are_summed_up(
    a: &[ProgramEvalStats],
    b: &[ProgramEvalStats],
    x: ProgramEvalStats,
    s: SummaryStats,
    t: SummaryStats,
)
    requires
        b@ == a@.push(x),
        call_ensures(SummaryStats::from_results, (a,), s),
        call_ensures(SummaryStats::from_results, (b,), t),
    ensures
        t.num_programs == s.num_programs + 1,
        t.successful_translations == s.successful_translations + (if x.translation_success {
            1int
        } else {
            0int
        }),
        t.successful_rust_builds == s.successful_rust_builds + (if x.rust_build_success {
            1int
        } else {
            0int
        }),
        t.programs_all_tests_passed == s.programs_all_tests_passed + (if x.total_tests
            > x.skipped_tests && x.passed_tests == x.total_tests - x.skipped_tests {
            1int
        } else {
            0int
        }),
        t.total_tests == num::sat(s.total_tests + x.total_tests),
        t.total_passed_tests == num::sat(s.total_passed_tests + x.passed_tests),
        t.total_skipped_tests == num::sat(s.total_skipped_tests + x.skipped_tests),
{
    assert(b@.drop_last() =~= a@);
    assert(b@.last() == x);
    sums_are_natural(a@);
}

proof fn sums_are_natural(v: Seq<ProgramEvalStats>)
    ensures
        stats::sum_total(v) >= 0,
        stats::sum_passed(v) >= 0,
        stats::sum_skipped(v) >= 0,
    decreases v.len(),
{
    if v.len() > 0 {
        sums_are_natural(v.drop_last());
    }
}

// ── How a program is graded ──────────────────────────────────────────────

/// A GoogleTest suite is used if it is asked for, or if nothing is and there is one. A
/// program is otherwise graded as a library if that is asked for, or if nothing is and
/// it is one, or may be one and comes with a runner. Any other is graded by its binary,
/// which has to be there. A suite that is asked for and is not there is an error.
pub proof fn programs_are_graded_as_what_they_are(
    harness: TestHarness,
    kind: Option<ProjectKind>,
    suite_root: &str,
    dirs: &Vec<String>,
    binary: &Option<String>,
    binary_exists: bool,
    r: Result<Grading, String>,
)
    requires
        call_ensures(
            choose_grading,
            (harness, kind, suite_root, dirs, binary, binary_exists),
            r,
        ),
    ensures
        ({
            let has_suite = text::texts(dirs@).contains("gtest_suite"@);
            let has_runner = text::texts(dirs@).contains("runner"@);
            let by_suite = (harness == TestHarness::Gtest || harness == TestHarness::Auto)
                && has_suite;
            let by_library = harness == TestHarness::Lib || (harness == TestHarness::Auto
                && !has_suite && (kind == Some(ProjectKind::Library) || (kind == Some(
                ProjectKind::Configurable,
            ) && has_runner)));
            let by_binary = (harness == TestHarness::Bin || harness == TestHarness::Auto)
                && !by_suite && !by_library;
            &&& by_suite <==> (r matches Ok(Grading::Gtest(_)))
            &&& by_library <==> (r matches Ok(Grading::Library))
            &&& by_binary && *binary is Some && binary_exists <==> (r matches Ok(
                Grading::Binary(_),
            ))
            &&& r matches Ok(Grading::Gtest(d)) ==> d@ == path::joined(
                suite_root@,
                "gtest_suite"@,
            )
            &&& r matches Ok(Grading::Binary(p)) ==> p@ == binary->0@
        }),
{
}

/// A test case is usable exactly if it is a directory with the project in it, and
/// either comes with a GoogleTest suite, or has its sources where they belong and test
/// vectors.
pub proof fn test_cases_need_their_layout(
    input_dir: &str,
    kind: PathKind,
    dirs: &Vec<String>,
    r: Result<(String, String), String>,
)
    requires
        call_ensures(parse_benchmark_dir, (input_dir, kind, dirs), r),
    ensures
        ({
            let d = text::texts(dirs@);
            r is Ok <==> {
                &&& kind == PathKind::Directory
                &&& d.contains("test_case"@)
                &&& d.contains("gtest_suite"@) || ((d.contains("test_case/src"@) || d.contains(
                    "test_case/app"@,
                )) && d.contains("test_vectors"@))
            }
        }),
        r matches Ok((test_case, vectors)) ==> test_case@ == path::joined(
            input_dir@,
            "test_case"@,
        ) && vectors@ == path::joined(input_dir@, "test_vectors"@),
{
}

proof fn kept_vectors(names: Seq<Seq<char>>, n: Seq<char>)
    ensures
        harness::vectors_among(names).contains(n) <==> names.contains(n) && path::extension_of(n)
            == Some("json"@),
    decreases names.len(),
{
    reveal(Seq::filter);
    let keep = |x: Seq<char>| harness::is_vector(x);
    let v = names.filter(keep);
    if names.len() > 0 {
        let front = names.drop_last();
        kept_vectors(front, n);
        let w = front.filter(keep);
        if front.contains(n) {
            let i = choose|i: int| 0 <= i < front.len() && front[i] == n;
            assert(names[i] == n);
        }
        if names.contains(n) && !front.contains(n) {
            let i = choose|i: int| 0 <= i < names.len() && names[i] == n;
            if i < front.len() {
                assert(front[i] == n);
            }
            assert(names.last() == n);
        }
        if w.contains(n) {
            let i = choose|i: int| 0 <= i < w.len() && w[i] == n;
            assert(v[i] == n);
        }
        if v.contains(n) {
            let i = choose|i: int| 0 <= i < v.len() && v[i] == n;
            if i < w.len() {
                assert(w[i] == n);
            } else {
                assert(names.last() == n);
            }
        }
        if keep(names.last()) {
            assert(v[w.len() as int] == names.last());
            assert(names[names.len() - 1] == names.last());
        }
    }
}

/// The test vectors are the files with the extension of a vector, all of them.
pub proof fn vectors_are_told_by_their_extension(names: &Vec<String>, r: Vec<String>, n: Seq<char>)
    requires
        call_ensures(vector_names, (names,), r),
    ensures
        text::texts(r@).contains(n) <==> text::texts(names@).contains(n) && path::extension_of(n)
            == Some("json"@),
{
    kept_vectors(text::texts(names@), n);
}

// ── Configuration of a program ───────────────────────────────────────────

proof fn in_front(a: Seq<Seq<char>>, b: Seq<Seq<char>>, x: Seq<char>)
    ensures
        a.contains(x) || b.contains(x) ==> (a + b).contains(x),
{
    if a.contains(x) {
        let i = choose|i: int| 0 <= i < a.len() && a[i] == x;
        assert((a + b)[i] == x);
    }
    if b.contains(x) {
        let i = choose|i: int| 0 <= i < b.len() && b[i] == x;
        assert((a + b)[a.len() + i] == x);
    }
}

proof fn stage_parts(run: ProgramRun, output_root: Seq<char>, opts: RunOptions, x: Seq<char>)
    ensures
        ({
            let at = run::places(output_root, run.name@);
            let all = run::overrides_of(run, output_root, opts);
            &&& run::suite_settings(text::opt_text(run.suite_root), opts.test_harness).contains(x)
                ==> all.contains(x)
            &&& opts.stages@.contains(Stage::Translate) && run::translate_settings(
                at,
                run,
                opts,
            ).contains(x) ==> all.contains(x)
            &&& opts.stages@.contains(Stage::Verify) && run::verify_settings(
                at,
                run,
                opts,
            ).contains(x) ==> all.contains(x)
            &&& opts.stages@.contains(Stage::Conform) && run::conform_settings(
                at,
                run,
                opts,
            ).contains(x) ==> all.contains(x)
        }),
{
    let at = run::places(output_root, run.name@);
    let a = text::texts(opts.config_overrides@);
    let b = run::suite_settings(text::opt_text(run.suite_root), opts.test_harness);
    let t = run::if_stage(
        opts.stages@,
        Stage::Translate,
        run::translate_settings(at, run, opts),
    );
    let v = run::if_stage(opts.stages@, Stage::Verify, run::verify_settings(at, run, opts));
    let c = run::if_stage(opts.stages@, Stage::Conform, run::conform_settings(at, run, opts));
    in_front(a, b, x);
    in_front(a + b, t, x);
    in_front(a + b + t, v, x);
    in_front(a + b + t + v, c, x);
}

proof fn stage_settings_tell(
    tool: Seq<char>,
    stage: Stage,
    at: run::RunPlaces,
    corpus: Option<Seq<char>>,
    model: Option<Seq<char>>,
)
    ensures
        ({
            let s = run::stage_settings(tool, stage, at, corpus, model);
            &&& s.contains(
                run::setting(tool, "output_log_path"@, path::joined(at.root, "output.log"@)),
            )
            &&& model is Some ==> s.contains(run::setting(tool, "model"@, model->0))
            &&& corpus is Some ==> s.contains(run::setting(tool, "test_corpus_root"@, corpus->0))
        }),
{
    let s = run::stage_settings(tool, stage, at, corpus, model);
    assert(s[0] == run::setting(tool, "output_log_path"@, path::joined(at.root, "output.log"@)));
    if corpus is Some {
        assert(s[2] == run::setting(tool, "test_corpus_root"@, corpus->0));
    }
    if model is Some {
        assert(s[s.len() - 1] == run::setting(tool, "model"@, model->0));
    }
}

proof fn mode_settings_tell(tool: Seq<char>, at: run::RunPlaces, opts: RunOptions)
    ensures
        ({
            let s = run::mode_settings(tool, at, opts);
            &&& opts.no_plan ==> s.contains(run::setting(tool, "no_plan"@, "true"@))
            &&& opts.no_plan_file ==> s.contains(run::setting(tool, "no_plan_file"@, "true"@))
            &&& opts.workflow ==> s.contains(run::setting(tool, "workflow"@, "true"@))
            &&& s.len() == 1 + (if opts.no_plan {
                1int
            } else {
                0int
            }) + (if opts.no_plan_file {
                1int
            } else {
                0int
            }) + (if opts.workflow {
                1int
            } else {
                0int
            })
        }),
{
    let s = run::mode_settings(tool, at, opts);
    if opts.no_plan {
        assert(s[1] == run::setting(tool, "no_plan"@, "true"@));
    }
    if opts.no_plan_file {
        assert(s[if opts.no_plan { 2int } else { 1int }] == run::setting(
            tool,
            "no_plan_file"@,
            "true"@,
        ));
    }
    if opts.workflow {
        assert(s[s.len() - 1] == run::setting(tool, "workflow"@, "true"@));
    }
}

/// Every agentic stage that runs is told the model, if one is set, and translate and
/// verify the prompt mode; verify is told to fuzz if that is asked for. The suite is
/// named to its loader on every run that has one.
pub proof fn tools_are_told_the_options(
    run: &ProgramRun,
    output_root: &str,
    opts: &RunOptions,
    r: Vec<String>,
)
    requires
        call_ensures(effective_overrides, (run, output_root, opts), r),
    ensures
        ({
            let all = text::texts(r@);
            let translate = opts.stages@.contains(Stage::Translate);
            let verify = opts.stages@.contains(Stage::Verify);
            let conform = opts.stages@.contains(Stage::Conform);
            &&& translate && opts.model is Some ==> all.contains(
                run::setting("translate_agentic"@, "model"@, opts.model->0@),
            )
            &&& verify && opts.model is Some ==> all.contains(
                run::setting("verify_fix_agentic"@, "model"@, opts.model->0@),
            )
            &&& conform && opts.model is Some ==> all.contains(
                run::setting("conform_agentic"@, "model"@, opts.model->0@),
            )
            &&& translate && opts.no_plan ==> all.contains(
                run::setting("translate_agentic"@, "no_plan"@, "true"@),
            )
            &&& verify && opts.no_plan ==> all.contains(
                run::setting("verify_fix_agentic"@, "no_plan"@, "true"@),
            )
            &&& translate && opts.no_plan_file ==> all.contains(
                run::setting("translate_agentic"@, "no_plan_file"@, "true"@),
            )
            &&& verify && opts.no_plan_file ==> all.contains(
                run::setting("verify_fix_agentic"@, "no_plan_file"@, "true"@),
            )
            &&& translate && opts.workflow ==> all.contains(
                run::setting("translate_agentic"@, "workflow"@, "true"@),
            )
            &&& verify && opts.workflow ==> all.contains(
                run::setting("verify_fix_agentic"@, "workflow"@, "true"@),
            )
            &&& verify && opts.fuzz ==> all.contains(
                run::setting("verify_fix_agentic"@, "fuzz"@, "true"@),
            )
            &&& run.suite_root is Some ==> all.contains(
                run::setting("load_test_suite"@, "input_path"@, run.suite_root->0@),
            )
        }),
{
    let at = run::places(output_root@, run.name@);
    let corpus = text::opt_text(run.test_corpus_root);
    let model = text::opt_text(opts.model);
    tool_settings(*run, output_root@, *opts);
    assert forall|x: Seq<char>| #[trigger] run::translate_settings(at, *run, *opts).contains(x)
        && opts.stages@.contains(Stage::Translate) implies text::texts(r@).contains(x) by {
        stage_parts(*run, output_root@, *opts, x);
    }
    assert forall|x: Seq<char>| #[trigger] run::verify_settings(at, *run, *opts).contains(x)
        && opts.stages@.contains(Stage::Verify) implies text::texts(r@).contains(x) by {
        stage_parts(*run, output_root@, *opts, x);
    }
    assert forall|x: Seq<char>| #[trigger] run::conform_settings(at, *run, *opts).contains(x)
        && opts.stages@.contains(Stage::Conform) implies text::texts(r@).contains(x) by {
        stage_parts(*run, output_root@, *opts, x);
    }
    if let Some(root) = run.suite_root {
        let s = run::suite_settings(text::opt_text(run.suite_root), opts.test_harness);
        let x = run::setting("load_test_suite"@, "input_path"@, root@);
        assert(s[0] == x);
        stage_parts(*run, output_root@, *opts, x);
    }
}

/// What the settings of each stage hold.
proof fn tool_settings(run: ProgramRun, output_root: Seq<char>, opts: RunOptions)
    ensures
        ({
            let at = run::places(output_root, run.name@);
            let t = run::translate_settings(at, run, opts);
            let v = run::verify_settings(at, run, opts);
            let c = run::conform_settings(at, run, opts);
            &&& opts.model is Some ==> t.contains(
                run::setting("translate_agentic"@, "model"@, opts.model->0@),
            )
            &&& opts.model is Some ==> v.contains(
                run::setting("verify_fix_agentic"@, "model"@, opts.model->0@),
            )
            &&& opts.model is Some ==> c.contains(
                run::setting("conform_agentic"@, "model"@, opts.model->0@),
            )
            &&& opts.no_plan ==> t.contains(
                run::setting("translate_agentic"@, "no_plan"@, "true"@),
            )
            &&& opts.no_plan ==> v.contains(
                run::setting("verify_fix_agentic"@, "no_plan"@, "true"@),
            )
            &&& opts.no_plan_file ==> t.contains(
                run::setting("translate_agentic"@, "no_plan_file"@, "true"@),
            )
            &&& opts.no_plan_file ==> v.contains(
                run::setting("verify_fix_agentic"@, "no_plan_file"@, "true"@),
            )
            &&& opts.workflow ==> t.contains(
                run::setting("translate_agentic"@, "workflow"@, "true"@),
            )
            &&& opts.workflow ==> v.contains(
                run::setting("verify_fix_agentic"@, "workflow"@, "true"@),
            )
            &&& opts.fuzz ==> v.contains(run::setting("verify_fix_agentic"@, "fuzz"@, "true"@))
        }),
{
    let at = run::places(output_root, run.name@);
    let corpus = text::opt_text(run.test_corpus_root);
    let model = text::opt_text(opts.model);
    let tt = "translate_agentic"@;
    let vt = "verify_fix_agentic"@;
    let ct = "conform_agentic"@;
    stage_settings_tell(tt, Stage::Translate, at, corpus, model);
    stage_settings_tell(vt, Stage::Verify, at, corpus, model);
    stage_settings_tell(ct, Stage::Conform, at, corpus, model);
    mode_settings_tell(tt, at, opts);
    mode_settings_tell(vt, at, opts);
    let ts = run::stage_settings(tt, Stage::Translate, at, corpus, model);
    let tm = run::mode_settings(tt, at, opts);
    let tp = run::setting_when(
        true,
        tt,
        "plan_output_path"@,
        path::joined(at.meta, "plan_translate.md"@),
    );
    assert forall|x: Seq<char>| (#[trigger] ts.contains(x)) || tm.contains(
        x,
    ) implies run::translate_settings(at, run, opts).contains(x) by {
        in_front(ts, tm, x);
        in_front(ts + tm, tp, x);
    }
    assert forall|x: Seq<char>| #[trigger] tm.contains(x) implies run::translate_settings(
        at,
        run,
        opts,
    ).contains(x) by {
        in_front(ts, tm, x);
        in_front(ts + tm, tp, x);
    }
    let vs = run::stage_settings(vt, Stage::Verify, at, corpus, model);
    let vm = run::mode_settings(vt, at, opts);
    let vh = run::setting_when(
        true,
        vt,
        "hypotheses_output_path"@,
        path::joined(at.meta, "hypotheses_verify.md"@),
    );
    let vv = run::setting_when(true, vt, "verify_harness"@, opts.verify_harness.name());
    let vf = run::setting_when(opts.fuzz, vt, "fuzz"@, "true"@);
    assert forall|x: Seq<char>| #[trigger] vs.contains(x) implies run::verify_settings(
        at,
        run,
        opts,
    ).contains(x) by {
        in_front(vs, vm, x);
        in_front(vs + vm, vh, x);
        in_front(vs + vm + vh, vv, x);
        in_front(vs + vm + vh + vv, vf, x);
    }
    assert forall|x: Seq<char>| #[trigger] vm.contains(x) implies run::verify_settings(
        at,
        run,
        opts,
    ).contains(x) by {
        in_front(vs, vm, x);
        in_front(vs + vm, vh, x);
        in_front(vs + vm + vh, vv, x);
        in_front(vs + vm + vh + vv, vf, x);
    }
    if opts.fuzz {
        let x = run::setting(vt, "fuzz"@, "true"@);
        assert(vf[0] == x);
        in_front(vs + vm + vh + vv, vf, x);
    }
    let cs = run::stage_settings(ct, Stage::Conform, at, corpus, model);
    let cn = run::setting_when(
        true,
        ct,
        "notes_output_path"@,
        path::joined(at.meta, "conform_notes.md"@),
    );
    let cr = run::setting_when(
        true,
        ct,
        "report_output_path"@,
        path::joined(at.meta, "conform_report.md"@),
    );
    assert forall|x: Seq<char>| #[trigger] cs.contains(x) implies run::conform_settings(
        at,
        run,
        opts,
    ).contains(x) by {
        in_front(cs, cn, x);
        in_front(cs + cn, cr, x);
    }
}

/// One for what holds, none for what does not.
pub open spec fn once(b: bool) -> int {
    if b {
        1
    } else {
        0
    }
}

proof fn stage_settings_are_counted(
    tool: Seq<char>,
    stage: Stage,
    at: run::RunPlaces,
    corpus: Option<Seq<char>>,
    model: Option<Seq<char>>,
)
    ensures
        run::stage_settings(tool, stage, at, corpus, model).len() == 2 + once(corpus is Some)
            + once(model is Some),
{
}

proof fn translate_settings_are_counted(at: run::RunPlaces, run: ProgramRun, opts: RunOptions)
    ensures
        run::translate_settings(at, run, opts).len() == 4 + once(run.test_corpus_root is Some)
            + once(opts.model is Some) + once(opts.no_plan) + once(opts.no_plan_file) + once(
            opts.workflow,
        ),
{
    let tool = "translate_agentic"@;
    let corpus = text::opt_text(run.test_corpus_root);
    let model = text::opt_text(opts.model);
    stage_settings_are_counted(tool, Stage::Translate, at, corpus, model);
    mode_settings_tell(tool, at, opts);
}

proof fn verify_settings_are_counted(at: run::RunPlaces, run: ProgramRun, opts: RunOptions)
    ensures
        run::verify_settings(at, run, opts).len() == 5 + once(run.test_corpus_root is Some) + once(
            opts.model is Some,
        ) + once(opts.no_plan) + once(opts.no_plan_file) + once(opts.workflow) + once(opts.fuzz),
{
    let tool = "verify_fix_agentic"@;
    let corpus = text::opt_text(run.test_corpus_root);
    let model = text::opt_text(opts.model);
    stage_settings_are_counted(tool, Stage::Verify, at, corpus, model);
    mode_settings_tell(tool, at, opts);
}

proof fn conform_settings_are_counted(at: run::RunPlaces, run: ProgramRun, opts: RunOptions)
    ensures
        run::conform_settings(at, run, opts).len() == 4 + once(run.test_corpus_root is Some)
            + once(opts.model is Some),
{
    let tool = "conform_agentic"@;
    let corpus = text::opt_text(run.test_corpus_root);
    let model = text::opt_text(opts.model);
    stage_settings_are_counted(tool, Stage::Conform, at, corpus, model);
}

proof fn suite_settings_are_counted(suite: Option<Seq<char>>, harness: TestHarness)
    ensures
        run::suite_settings(suite, harness).len() == once(suite is Some) + once(
            suite is Some && harness.forced() is Some,
        ),
{
}

/// A stage that does not run adds nothing: the configuration is as long as what was
/// given and what the suite and the stages that run need.
pub proof fn other_stages_are_told_nothing(
    run: &ProgramRun,
    output_root: &str,
    opts: &RunOptions,
    r: Vec<String>,
)
    requires
        call_ensures(effective_overrides, (run, output_root, opts), r),
    ensures
        ({
            let stage = 4 + once(run.test_corpus_root is Some) + once(opts.model is Some);
            let mode = once(opts.no_plan) + once(opts.no_plan_file) + once(opts.workflow);
            r@.len() == opts.config_overrides@.len() + once(run.suite_root is Some) + once(
                run.suite_root is Some && opts.test_harness.forced() is Some,
            ) + (if opts.stages@.contains(Stage::Translate) {
                stage + mode
            } else {
                0
            }) + (if opts.stages@.contains(Stage::Verify) {
                stage + mode + 1 + once(opts.fuzz)
            } else {
                0
            }) + (if opts.stages@.contains(Stage::Conform) {
                stage
            } else {
                0
            })
        }),
{
    let at = run::places(output_root@, run.name@);
    translate_settings_are_counted(at, *run, *opts);
    verify_settings_are_counted(at, *run, *opts);
    conform_settings_are_counted(at, *run, *opts);
    suite_settings_are_counted(text::opt_text(run.suite_root), opts.test_harness);
    text_count(r@);
    text_count(opts.config_overrides@);
    parts_add_up(
        text::texts(opts.config_overrides@),
        run::suite_settings(text::opt_text(run.suite_root), opts.test_harness),
        run::if_stage(
            opts.stages@,
            Stage::Translate,
            run::translate_settings(at, *run, *opts),
        ),
        run::if_stage(opts.stages@, Stage::Verify, run::verify_settings(at, *run, *opts)),
        run::if_stage(opts.stages@, Stage::Conform, run::conform_settings(at, *run, *opts)),
    );
}

proof fn text_count(v: Seq<String>)
    ensures
        text::texts(v).len() == v.len(),
{
}

proof fn parts_add_up(
    a: Seq<Seq<char>>,
    b: Seq<Seq<char>>,
    c: Seq<Seq<char>>,
    d: Seq<Seq<char>>,
    e: Seq<Seq<char>>,
)
    ensures
        (a + b + c + d + e).len() == a.len() + b.len() + c.len() + d.len() + e.len(),
{
}

/// How a run's prompts are called: by the translator if no stage runs; otherwise by the
/// first of the workflow hint and the two modes without plan files that is on, or as
/// planned.
pub proof fn modes_are_named(opts: &RunOptions, r: &'static str)
    requires
        call_ensures(RunOptions::prompt_mode, (opts,), r),
    ensures
        opts.stages@.len() == 0 && opts.modular ==> r@ == "modular"@,
        opts.stages@.len() == 0 && !opts.modular ==> r@ == "one_shot"@,
        opts.stages@.len() > 0 && opts.workflow ==> r@ == "workflow"@,
        opts.stages@.len() > 0 && !opts.workflow && opts.no_plan ==> r@ == "no_plan"@,
        opts.stages@.len() > 0 && !opts.workflow && !opts.no_plan && opts.no_plan_file ==> r@
            == "no_plan_file"@,
        opts.stages@.len() > 0 && !opts.workflow && !opts.no_plan && !opts.no_plan_file ==> r@
            == "plan"@,
{
}

/// A populated output directory is written to only if that is forced, and is erased
/// first.
pub proof fn outputs_are_not_mixed(
    output_dir: &str,
    occupied: bool,
    force: bool,
    r: Result<bool, String>,
)
    requires
        call_ensures(run::prepare_output_dir, (output_dir, occupied, force), r),
    ensures
        r is Err <==> occupied && !force,
        r matches Ok(erase) ==> (erase <==> occupied),
{
}

// ── What is told ─────────────────────────────────────────────────────────

/// A test that ran alone is told of with its name and its verdict.
pub proof fn single_tests_tell_their_verdict(v: TestVerdict)
    ensures
        v.status == TestStatus::Passed ==> gtest::single_test(v) == "\u{2705} Test "@ + v.name@
            + " passed"@,
        v.status == TestStatus::Failed ==> gtest::single_test(v) == "\u{274c} Test "@ + v.name@
            + " failed"@,
        v.status == TestStatus::Skipped ==> gtest::single_test(v) == "Skipping gtest "@ + v.name@
            + " (GTEST_SKIP)"@,
{
}

/// A batch ends with what was held back and its own verdict, which is good exactly if
/// no test of it failed.
pub proof fn batches_end_with_their_verdict(
    held: Seq<Seq<char>>,
    i: PlannedInvocation,
    o: InvocationOutcome,
)
    requires
        o.passed + o.skipped <= o.total,
    ensures
        ({
            let e = gtest::batch_end(held, i, o);
            &&& e.len() > held.len()
            &&& e.take(held.len() as int) == held
            &&& e.last().len() > 0
            &&& e.last()[0] == '\u{2705}' <==> o.passed + o.skipped == o.total
            &&& text::contains_text(e.last(), i.filter@)
        }),
{
    let e = gtest::batch_end(held, i, o);
    reveal_strlit("\u{2705}");
    reveal_strlit("\u{274c}");
    assert(e.take(held.len() as int) =~= held);
    let mark = if gtest::unfailed(o) == o.total {
        "\u{2705}"@
    } else {
        "\u{274c}"@
    };
    let n = (mark + " Batch '"@).len() as int;
    assert(e.last()[0] == mark[0]);
    assert(e.last().subrange(n, n + i.filter@.len()) =~= i.filter@);
    assert(text::occurs_at(e.last(), i.filter@, n));
}

/// Batches and single tests are numbered as they start, each kind on its own.
pub proof fn invocations_are_numbered(s: RendererView, i: PlannedInvocation)
    ensures
        ({
            let after = gtest::after_event(s, Event::InvocationStarted { invocation: i });
            &&& i.mode == InvocationMode::Suite ==> after.in_batch && after.batch_i == num::sat(
                s.batch_i + 1,
            ) && after.case_i == s.case_i && after.noteworthy.len() == 0
            &&& i.mode == InvocationMode::Case ==> !after.in_batch && after.case_i == num::sat(
                s.case_i + 1,
            ) && after.batch_i == s.batch_i
        }),
{
}

/// Only what was translated and is a Rust project is cleaned.
pub proof fn translated_projects_are_cleaned(s: &ProgramEvalStats, has_manifest: bool, r: bool)
    requires
        call_ensures(is_cleaned, (s, has_manifest), r),
    ensures
        r <==> s.translation_success && has_manifest,
{
}

/// There is an error exactly if a project was not cleaned, and it names the project.
pub proof fn failed_cleaning_is_told(program: &str, o: &CleanOutcome, r: Option<String>)
    requires
        call_ensures(clean_error, (program, o), r),
    ensures
        r is None <==> *o is Cleaned,
        r matches Some(e) ==> text::contains_text(e@, program@),
{
    if let Some(e) = r {
        match *o {
            CleanOutcome::Failed(why) => {
                let n = "Failed to clean "@.len() as int;
                assert(e@.subrange(n, n + program@.len()) =~= program@);
                assert(text::occurs_at(e@, program@, n));
            },
            CleanOutcome::NotRun(why) => {
                let n = "Failed to execute cargo clean for "@.len() as int;
                assert(e@.subrange(n, n + program@.len()) =~= program@);
                assert(text::occurs_at(e@, program@, n));
            },
            CleanOutcome::Cleaned => {},
        }
    }
}

/// The summary of the cleaning tells how many projects were cleaned, and every error.
pub proof fn cleaning_is_summed_up(cleaned: usize, errors: &Vec<String>, r: Vec<String>, i: int)
    requires
        call_ensures(cleanup_summary, (cleaned, errors), r),
    ensures
        text::texts(r@).contains(
            "  Successfully cleaned: "@ + text::decimal_of(cleaned as nat) + " projects"@,
        ),
        0 <= i < errors@.len() ==> text::texts(r@).contains("    - "@ + errors@[i]@),
        r@.len() == 3 + (if errors@.len() > 0 {
            1 + errors@.len()
        } else {
            0
        }),
{
    let all = text::texts(r@);
    let es = text::texts(errors@);
    assert(all.len() == r@.len());
    assert(es.len() == errors@.len());
    assert(all[1] == "  Successfully cleaned: "@ + text::decimal_of(cleaned as nat) + " projects"@);
    if 0 <= i < errors@.len() {
        assert(es[i] == errors@[i]@);
        assert(all[3 + i] == "    - "@ + es[i]);
    }
}

/// A failed test case is kept under its own name.
pub proof fn failed_cases_are_kept(t: &TestCase, output_dir: &str, r: String)
    requires
        call_ensures(TestCase::failed_path, (t, output_dir), r),
    ensures
        r@ == path::joined(path::joined(output_dir@, "failed_tests"@), t.filename@),
{
}

/// What a filter did is told in numbers, and what it removed by name.
pub proof fn filters_tell_what_they_removed(
    label: &str,
    pattern: &str,
    remaining: usize,
    dropped: &Vec<String>,
    r: Vec<String>,
)
    requires
        call_ensures(snapshot::filter_lines, (label, pattern, remaining, dropped), r),
    ensures
        r@.len() == if dropped@.len() > 0 {
            2int
        } else {
            1
        },
        text::contains_text(r@[0]@, text::decimal_of(remaining as nat) + " programs remaining, "@),
        text::contains_text(r@[0]@, text::decimal_of(dropped@.len()) + " removed"@),
        dropped@.len() > 0 ==> text::has_suffix(
            r@[1]@,
            ": "@ + text::join_of(text::texts(dropped@), ", "@),
        ),
        dropped@.len() > 0 && label@ == "Filter"@ ==> text::has_prefix(r@[1]@, "Filtered"@),
        dropped@.len() > 0 && label@ == "Exclude"@ ==> text::has_prefix(r@[1]@, "Excluded"@),
{
    let lines = text::texts(r@);
    assert(lines.len() == r@.len());
    assert(text::texts(dropped@).len() == dropped@.len());
    assert(r@[0]@ == lines[0]);
    let head = label@ + " '"@ + pattern@ + "' applied: "@;
    let n = text::decimal_of(remaining as nat);
    let k = text::decimal_of(dropped@.len());
    text::part_is_held(head, n + " programs remaining, "@, k + " removed"@);
    assert(head + (n + " programs remaining, "@) + (k + " removed"@) =~= lines[0]);
    text::part_is_held(head + n + " programs remaining, "@, k + " removed"@, seq![]);
    assert(head + n + " programs remaining, "@ + (k + " removed"@) + seq![] =~= lines[0]);
    if dropped@.len() > 0 {
        assert(r@[1]@ == lines[1]);
        let s = lines[1];
        let t = ": "@ + text::join_of(text::texts(dropped@), ", "@);
        reveal_strlit("Filter");
        reveal_strlit("Exclude");
        assert("Filter"@.len() != "Exclude"@.len());
        let past = if label@ == "Filter"@ {
            "Filtered"@
        } else if label@ == "Exclude"@ {
            "Excluded"@
        } else {
            label@
        };
        assert(s =~= past + t);
        assert(s.subrange(s.len() - t.len(), s.len() as int) =~= t);
        assert(s.subrange(0, past.len() as int) =~= past);
    }
}

/// The first stage decides what a run reads: those that continue a run read its
/// snapshots, all others a test case or a collection of them.
pub proof fn the_first_stage_decides_what_is_read(stages: &Vec<Stage>, is_test_case: bool, r: InputKind)
    requires
        call_ensures(run::input_kind, (stages, is_test_case), r),
    ensures
        stages@.len() > 0 && stages@[0] != Stage::Translate ==> r == InputKind::Snapshots,
        stages@.len() == 0 || stages@[0] == Stage::Translate ==> r == if is_test_case {
            InputKind::TestCase
        } else {
            InputKind::Collection
        },
{
}

/// A run is announced by the way it works: its own modules, its stages, or neither.
pub proof fn runs_are_announced(opts: &RunOptions, r: String)
    requires
        call_ensures(run::announce_translation, (opts,), r),
    ensures
        opts.modular ==> r@ == "Using "@ + "Modular"@ + " Translation"@,
        !opts.modular && opts.stages@.len() == 0 ==> r@ == "Using "@ + "All-at-once"@
            + " Translation"@,
        !opts.modular && opts.stages@.len() > 0 ==> r@ == "Using "@ + ("Agentic ("@ + text::join_of(
            opts.stages@.map_values(|s: Stage| s.name()),
            ","@,
        ) + ")"@) + " Translation"@,
{
    assert(config::stage_names(opts.stages@) =~= opts.stages@.map_values(|s: Stage| s.name()));
}

proof fn stage_settings_place(
    tool: Seq<char>,
    stage: Stage,
    at: run::RunPlaces,
    corpus: Option<Seq<char>>,
    model: Option<Seq<char>>,
)
    ensures
        ({
            let s = run::stage_settings(tool, stage, at, corpus, model);
            &&& s.contains(
                run::setting(tool, "output_log_path"@, path::joined(at.root, "output.log"@)),
            )
            &&& s.contains(
                run::setting(
                    tool,
                    "rejected_output_dir"@,
                    path::joined(path::joined(at.meta, "rejected"@), stage.name()),
                ),
            )
            &&& corpus is Some ==> s.contains(run::setting(tool, "test_corpus_root"@, corpus->0))
        }),
{
    let s = run::stage_settings(tool, stage, at, corpus, model);
    assert(s[0] == run::setting(tool, "output_log_path"@, path::joined(at.root, "output.log"@)));
    assert(s[1] == run::setting(
        tool,
        "rejected_output_dir"@,
        path::joined(path::joined(at.meta, "rejected"@), stage.name()),
    ));
    if corpus is Some {
        assert(s[2] == run::setting(tool, "test_corpus_root"@, corpus->0));
    }
}

proof fn translate_settings_place(at: run::RunPlaces, run: ProgramRun, opts: RunOptions)
    ensures
        ({
            let tool = "translate_agentic"@;
            let s = run::translate_settings(at, run, opts);
            &&& s.contains(
                run::setting(tool, "output_log_path"@, path::joined(at.root, "output.log"@)),
            )
            &&& s.contains(
                run::setting(
                    tool,
                    "rejected_output_dir"@,
                    path::joined(path::joined(at.meta, "rejected"@), "translate"@),
                ),
            )
            &&& run.test_corpus_root is Some ==> s.contains(
                run::setting(tool, "test_corpus_root"@, run.test_corpus_root->0@),
            )
            &&& s.contains(
                run::setting(
                    tool,
                    "wishlist_output_path"@,
                    path::joined(at.meta, "tool_wishlist.json"@),
                ),
            )
        }),
{
    let tool = "translate_agentic"@;
    let corpus = text::opt_text(run.test_corpus_root);
    let model = text::opt_text(opts.model);
    stage_settings_place(tool, Stage::Translate, at, corpus, model);
    let s = run::stage_settings(tool, Stage::Translate, at, corpus, model);
    let m = run::mode_settings(tool, at, opts);
    let p = run::setting_when(
        true,
        tool,
        "plan_output_path"@,
        path::joined(at.meta, "plan_translate.md"@),
    );
    let w = run::setting(
        tool,
        "wishlist_output_path"@,
        path::joined(at.meta, "tool_wishlist.json"@),
    );
    assert(m[0] == w);
    assert(m.contains(w));
    in_front(s, m, w);
    in_front(s + m, p, w);
    assert forall|x: Seq<char>| #[trigger] s.contains(x) implies (s + m + p).contains(x) by {
        in_front(s, m, x);
        in_front(s + m, p, x);
    }
}

proof fn verify_settings_place(at: run::RunPlaces, run: ProgramRun, opts: RunOptions)
    ensures
        ({
            let tool = "verify_fix_agentic"@;
            let s = run::verify_settings(at, run, opts);
            &&& s.contains(
                run::setting(tool, "output_log_path"@, path::joined(at.root, "output.log"@)),
            )
            &&& s.contains(
                run::setting(
                    tool,
                    "rejected_output_dir"@,
                    path::joined(path::joined(at.meta, "rejected"@), "verify"@),
                ),
            )
            &&& run.test_corpus_root is Some ==> s.contains(
                run::setting(tool, "test_corpus_root"@, run.test_corpus_root->0@),
            )
            &&& s.contains(
                run::setting(
                    tool,
                    "wishlist_output_path"@,
                    path::joined(at.meta, "tool_wishlist.json"@),
                ),
            )
            &&& s.contains(
                run::setting(
                    tool,
                    "hypotheses_output_path"@,
                    path::joined(at.meta, "hypotheses_verify.md"@),
                ),
            )
            &&& s.contains(run::setting(tool, "verify_harness"@, opts.verify_harness.name()))
        }),
{
    let tool = "verify_fix_agentic"@;
    let corpus = text::opt_text(run.test_corpus_root);
    let model = text::opt_text(opts.model);
    stage_settings_place(tool, Stage::Verify, at, corpus, model);
    let s = run::stage_settings(tool, Stage::Verify, at, corpus, model);
    let m = run::mode_settings(tool, at, opts);
    let x = run::setting(
        tool,
        "hypotheses_output_path"@,
        path::joined(at.meta, "hypotheses_verify.md"@),
    );
    let y = run::setting(tool, "verify_harness"@, opts.verify_harness.name());
    let w = run::setting(
        tool,
        "wishlist_output_path"@,
        path::joined(at.meta, "tool_wishlist.json"@),
    );
    let h = seq![x];
    let v = seq![y];
    let f = run::setting_when(opts.fuzz, tool, "fuzz"@, "true"@);
    assert(run::verify_settings(at, run, opts) == s + m + h + v + f);
    assert(m[0] == w && h[0] == x && v[0] == y);
    assert(m.contains(w) && h.contains(x) && v.contains(y));
    assert forall|z: Seq<char>|
        (#[trigger] (s + m + h + v).contains(z)) implies (s + m + h + v + f).contains(z) by {
        in_front(s + m + h + v, f, z);
    }
    assert forall|z: Seq<char>| #[trigger] s.contains(z) implies (s + m + h + v + f).contains(z) by {
        in_front(s, m, z);
        in_front(s + m, h, z);
        in_front(s + m + h, v, z);
        in_front(s + m + h + v, f, z);
    }
    in_front(s, m, w);
    in_front(s + m, h, w);
    in_front(s + m + h, v, w);
    in_front(s + m, h, x);
    in_front(s + m + h, v, x);
    in_front(s + m + h, v, y);
}

proof fn conform_settings_place(at: run::RunPlaces, run: ProgramRun, opts: RunOptions)
    ensures
        ({
            let tool = "conform_agentic"@;
            let s = run::conform_settings(at, run, opts);
            &&& s.contains(
                run::setting(tool, "output_log_path"@, path::joined(at.root, "output.log"@)),
            )
            &&& s.contains(
                run::setting(
                    tool,
                    "rejected_output_dir"@,
                    path::joined(path::joined(at.meta, "rejected"@), "conform"@),
                ),
            )
            &&& run.test_corpus_root is Some ==> s.contains(
                run::setting(tool, "test_corpus_root"@, run.test_corpus_root->0@),
            )
            &&& s.contains(
                run::setting(
                    tool,
                    "notes_output_path"@,
                    path::joined(at.meta, "conform_notes.md"@),
                ),
            )
        }),
{
    let tool = "conform_agentic"@;
    let corpus = text::opt_text(run.test_corpus_root);
    let model = text::opt_text(opts.model);
    stage_settings_place(tool, Stage::Conform, at, corpus, model);
    let s = run::stage_settings(tool, Stage::Conform, at, corpus, model);
    let x = run::setting(tool, "notes_output_path"@, path::joined(at.meta, "conform_notes.md"@));
    let n = seq![x];
    let p = run::setting_when(
        true,
        tool,
        "report_output_path"@,
        path::joined(at.meta, "conform_report.md"@),
    );
    assert(run::conform_settings(at, run, opts) == s + n + p);
    assert(n[0] == x);
    assert(n.contains(x));
    in_front(s, n, x);
    in_front(s + n, p, x);
    assert forall|z: Seq<char>| #[trigger] s.contains(z) implies (s + n + p).contains(z) by {
        in_front(s, n, z);
        in_front(s + n, p, z);
    }
}

/// Every stage that runs is told the log of the run, where rejected output is kept for
/// it, and the checkout its toolchain comes from; translate and verify are told where
/// the wishlist goes, verify where its hypotheses go and which harness it uses, conform
/// where its notes go. A harness that is forced is named to the loader of the suite.
pub proof fn every_stage_knows_its_places(
    run: &ProgramRun,
    output_root: &str,
    opts: &RunOptions,
    r: Vec<String>,
    stage: Stage,
    kind: TestSuiteKind,
)
    requires
        call_ensures(effective_overrides, (run, output_root, opts), r),
    ensures
        ({
            let all = text::texts(r@);
            let meta = path::joined(path::joined(output_root@, run.name@), ".harvest"@);
            let tool = match stage {
                Stage::Translate => "translate_agentic"@,
                Stage::Verify => "verify_fix_agentic"@,
                Stage::Conform => "conform_agentic"@,
            };
            let name = match stage {
                Stage::Translate => "translate"@,
                Stage::Verify => "verify"@,
                Stage::Conform => "conform"@,
            };
            &&& opts.stages@.contains(stage) ==> {
                &&& all.contains(
                    run::setting(tool, "output_log_path"@, path::joined(output_root@, "output.log"@)),
                )
                &&& all.contains(
                    run::setting(
                        tool,
                        "rejected_output_dir"@,
                        path::joined(path::joined(meta, "rejected"@), name),
                    ),
                )
                &&& run.test_corpus_root is Some ==> all.contains(
                    run::setting(tool, "test_corpus_root"@, run.test_corpus_root->0@),
                )
                &&& stage != Stage::Conform ==> all.contains(
                    run::setting(
                        tool,
                        "wishlist_output_path"@,
                        path::joined(meta, "tool_wishlist.json"@),
                    ),
                )
                &&& stage == Stage::Verify ==> all.contains(
                    run::setting(
                        tool,
                        "hypotheses_output_path"@,
                        path::joined(meta, "hypotheses_verify.md"@),
                    ),
                ) && all.contains(
                    run::setting(tool, "verify_harness"@, opts.verify_harness.name()),
                )
                &&& stage == Stage::Conform ==> all.contains(
                    run::setting(tool, "notes_output_path"@, path::joined(meta, "conform_notes.md"@)),
                )
            }
            &&& run.suite_root is Some && opts.test_harness.forced() == Some(kind) ==> all.contains(
                run::setting("load_test_suite"@, "harness"@, kind.spelled()),
            )
        }),
{
    let at = run::places(output_root@, run.name@);
    translate_settings_place(at, *run, *opts);
    verify_settings_place(at, *run, *opts);
    conform_settings_place(at, *run, *opts);
    assert forall|x: Seq<char>| #[trigger] run::translate_settings(at, *run, *opts).contains(x)
        && opts.stages@.contains(Stage::Translate) implies text::texts(r@).contains(x) by {
        stage_parts(*run, output_root@, *opts, x);
    }
    assert forall|x: Seq<char>| #[trigger] run::verify_settings(at, *run, *opts).contains(x)
        && opts.stages@.contains(Stage::Verify) implies text::texts(r@).contains(x) by {
        stage_parts(*run, output_root@, *opts, x);
    }
    assert forall|x: Seq<char>| #[trigger] run::conform_settings(at, *run, *opts).contains(x)
        && opts.stages@.contains(Stage::Conform) implies text::texts(r@).contains(x) by {
        stage_parts(*run, output_root@, *opts, x);
    }
    if run.suite_root is Some && opts.test_harness.forced() == Some(kind) {
        let s = run::suite_settings(text::opt_text(run.suite_root), opts.test_harness);
        let x = run::setting("load_test_suite"@, "harness"@, kind.spelled());
        assert(s[1] == x);
        stage_parts(*run, output_root@, *opts, x);
    }
}

/// The spread of the suites is from the smallest to the largest number of tests that a
/// program evaluated; a program that evaluated none does not count.
pub proof fn the_spread_goes_from_least_to_most(
    a: &[ProgramEvalStats],
    b: &[ProgramEvalStats],
    x: ProgramEvalStats,
    s: SummaryStats,
    t: SummaryStats,
)
    requires
        b@ == a@.push(x),
        call_ensures(SummaryStats::from_results, (a,), s),
        call_ensures(SummaryStats::from_results, (b,), t),
    ensures
        ({
            let n = if x.total_tests > x.skipped_tests {
                x.total_tests - x.skipped_tests
            } else {
                0
            };
            &&& t.max_evaluated_tests == if n > s.max_evaluated_tests {
                n
            } else {
                s.max_evaluated_tests as int
            }
            &&& t.min_evaluated_tests == if n > 0 && (s.min_evaluated_tests == 0 || n
                < s.min_evaluated_tests) {
                n
            } else {
                s.min_evaluated_tests as int
            }
        }),
{
    let k = a@.len() as int;
    assert(b@[k] == x);
    assert(forall|i: int| 0 <= i < k ==> #[trigger] b@[i] == a@[i]);
    assert(b@[k].evaluated() == x.evaluated());
    if s.max_evaluated_tests > 0 {
        let i = choose|i: int|
            0 <= i < a@.len() && #[trigger] a@[i].evaluated() == s.max_evaluated_tests;
        assert(b@[i].evaluated() == s.max_evaluated_tests);
    }
    if t.max_evaluated_tests > 0 {
        let i = choose|i: int|
            0 <= i < b@.len() && #[trigger] b@[i].evaluated() == t.max_evaluated_tests;
        if i < k {
            assert(a@[i].evaluated() == t.max_evaluated_tests);
        }
    }
    if s.min_evaluated_tests > 0 {
        let i = choose|i: int|
            0 <= i < a@.len() && #[trigger] a@[i].evaluated() == s.min_evaluated_tests;
        assert(b@[i].evaluated() == s.min_evaluated_tests);
    }
    if t.min_evaluated_tests > 0 {
        let i = choose|i: int|
            0 <= i < b@.len() && #[trigger] b@[i].evaluated() == t.min_evaluated_tests;
        if i < k {
            assert(a@[i].evaluated() == t.min_evaluated_tests);
        }
    }
}

} // verus!
