//! What holds of the course of a program through the benchmark, from its arguments to
//! its statistics.

use crate::benchmark::cli::{agent_from_lowered, Args, TestHarness, VerifyHarness};
use crate::benchmark::experiment::execution;
use crate::benchmark::experiment::execution::RunProgress;
use crate::benchmark::experiment::plan::ResolvedRun;
use crate::benchmark::experiment::progress::{
    receipt_of, record_from_stats, ProgramRecord, ProgramState, Receipt,
};
use crate::benchmark::ir;
use crate::benchmark::ir::{find_driver, Artifact, HarvestIr, TranspilationResult};
use crate::benchmark::program;
use crate::benchmark::program::{
    choose_existing_grading, choose_grading, reopen, start, Grading, Next, Outcomes,
    RegradeOutcomes, RegradeSteps, Reopened, Started, Steps,
};
use crate::benchmark::run;
use crate::benchmark::run::{ProgramRun, RunOptions};
use crate::benchmark::stats;
use crate::benchmark::stats::ProgramEvalStats;
use crate::config;
use crate::config::{AgentKind, Stage};
use crate::full_source::TestSuiteKind;
use crate::path;
use crate::text;
use vstd::prelude::*;

verus! {

// ── Arguments ────────────────────────────────────────────────────────────

/// The options of a run are what its arguments ask for. Where they do not say how
/// verification compares, it does so by GoogleTest.
pub proof fn options_are_the_arguments(args: &Args, r: RunOptions, s: Stage)
    requires
        call_ensures(RunOptions::from_args, (args,), r),
    ensures
        text::texts(r.config_overrides@) == text::texts(args.config@),
        r.timeout == args.timeout,
        r.modular == args.modular,
        r.stages@.contains(s) <==> args.agentic is Some && args.agentic->0@.contains(s),
        r.agent == args.agent,
        r.agent_tools == args.agent_tools,
        r.model is Some <==> args.model is Some,
        r.model matches Some(m) ==> m@ == args.model->0@,
        r.no_plan == args.no_plan,
        r.no_plan_file == args.no_plan_file,
        r.workflow == args.workflow,
        r.test_harness == args.test_harness,
        args.verify_harness matches Some(h) ==> r.verify_harness == h,
        args.verify_harness is None ==> r.verify_harness == VerifyHarness::Gtest,
        r.fuzz == args.fuzz,
        r.force == args.force,
{
    config::ordering_law(args.given_stages());
    assert(config::ordered(args.given_stages()).contains(s) == args.given_stages().contains(s));
}

/// An agent is read from its name, and one of them from its short name too.
pub proof fn agents_are_read_by_name(name: &str, claude: &str, r: Result<AgentKind, String>)
    requires
        call_ensures(agent_from_lowered, (name, claude), r),
        claude@ != "kiro"@,
        claude@ != "opencode"@,
        claude@ != "oc"@,
    ensures
        r == Ok::<AgentKind, String>(AgentKind::Kiro) <==> name@ == "kiro"@,
        r == Ok::<AgentKind, String>(AgentKind::Claude) <==> name@ == claude@,
        r == Ok::<AgentKind, String>(AgentKind::OpenCode) <==> name@ == "opencode"@ || name@
            == "oc"@,
{
    reveal_strlit("kiro");
    reveal_strlit("opencode");
    reveal_strlit("oc");
    assert("kiro"@.len() == 4 && "opencode"@.len() == 8 && "oc"@.len() == 2);
}

/// The names by which harnesses, suites, stages and agents are configured.
pub proof fn choices_are_configured_by_name(
    v: VerifyHarness,
    vn: &'static str,
    k: TestSuiteKind,
    kn: &'static str,
    s: Stage,
    sn: &'static str,
    h: TestHarness,
    forced: Option<TestSuiteKind>,
    a: AgentKind,
    claude: &str,
    an: &str,
)
    requires
        call_ensures(VerifyHarness::as_str, (v,), vn),
        call_ensures(TestSuiteKind::as_str, (k,), kn),
        call_ensures(Stage::as_str, (s,), sn),
        call_ensures(TestHarness::suite_kind, (h,), forced),
        call_ensures(AgentKind::as_str, (a, claude), an),
    ensures
        vn@ == (match v {
            VerifyHarness::Gtest => "gtest"@,
            VerifyHarness::Libloading => "libloading"@,
        }),
        kn@ == (match k {
            TestSuiteKind::Gtest => "gtest"@,
            TestSuiteKind::Lib => "lib"@,
            TestSuiteKind::Bin => "bin"@,
        }),
        sn@ == (match s {
            Stage::Translate => "translate"@,
            Stage::Verify => "verify"@,
            Stage::Conform => "conform"@,
        }),
        forced == (match h {
            TestHarness::Auto => None,
            TestHarness::Gtest => Some(TestSuiteKind::Gtest),
            TestHarness::Lib => Some(TestSuiteKind::Lib),
            TestHarness::Bin => Some(TestSuiteKind::Bin),
        }),
        an@ == (match a {
            AgentKind::Kiro => "kiro"@,
            AgentKind::Claude => claude@,
            AgentKind::OpenCode => "opencode"@,
        }),
{
}

/// A value of a tool is spelled with its path in the configuration.
pub proof fn settings_are_spelled_by_path(tool: Seq<char>, key: Seq<char>, value: Seq<char>)
    ensures
        run::setting(tool, key, value) == "tools."@ + tool + "."@ + key + "="@ + value,
{
}

proof fn listed_in(a: Seq<Seq<char>>, b: Seq<Seq<char>>, x: Seq<char>)
    ensures
        a.contains(x) || b.contains(x) ==> (a + b).contains(x),
{
    if a.contains(x) {
        let i = choose|i: int| 0 <= i < a.len() && a[i] == x;
        assert((a + b)[i] == x);
    }
    if b.contains(x) {
        let i = choose|i: int| 0 <= i < b.len() && b[i] == x;
        assert((a + b)[a.len() + i] == x);
    }
}

/// What the agents write for later goes beside the program's snapshot: the plan and the
/// hypotheses, the notes and the report.
pub proof fn records_go_to_the_snapshot(
    p: &ProgramRun,
    output_root: &str,
    opts: &RunOptions,
    r: Vec<String>,
)
    requires
        call_ensures(run::effective_overrides, (p, output_root, opts), r),
    ensures
        ({
            let all = text::texts(r@);
            let meta = path::joined(path::joined(output_root@, p.name@), ".harvest"@);
            &&& opts.stages@.contains(Stage::Translate) ==> all.contains(
                "tools.translate_agentic.plan_output_path="@ + path::joined(
                    meta,
                    "plan_translate.md"@,
                ),
            )
            &&& opts.stages@.contains(Stage::Conform) ==> all.contains(
                "tools.conform_agentic.report_output_path="@ + path::joined(
                    meta,
                    "conform_report.md"@,
                ),
            )
        }),
{
    let at = run::places(output_root@, p.name@);
    let a = text::texts(opts.config_overrides@);
    let b = run::suite_settings(text::opt_text(p.suite_root), opts.test_harness);
    let t = run::if_stage(opts.stages@, Stage::Translate, run::translate_settings(at, *p, *opts));
    let v = run::if_stage(opts.stages@, Stage::Verify, run::verify_settings(at, *p, *opts));
    let c = run::if_stage(opts.stages@, Stage::Conform, run::conform_settings(at, *p, *opts));
    let plan = path::joined(at.meta, "plan_translate.md"@);
    let report = path::joined(at.meta, "conform_report.md"@);
    let x = run::setting("translate_agentic"@, "plan_output_path"@, plan);
    let y = run::setting("conform_agentic"@, "report_output_path"@, report);
    reveal_strlit("tools.");
    reveal_strlit(".");
    reveal_strlit("=");
    reveal_strlit("translate_agentic");
    reveal_strlit("plan_output_path");
    reveal_strlit("conform_agentic");
    reveal_strlit("report_output_path");
    reveal_strlit("tools.translate_agentic.plan_output_path=");
    reveal_strlit("tools.conform_agentic.report_output_path=");
    assert("tools."@ + "translate_agentic"@ + "."@ + "plan_output_path"@ + "="@
        =~= "tools.translate_agentic.plan_output_path="@);
    assert("tools."@ + "conform_agentic"@ + "."@ + "report_output_path"@ + "="@
        =~= "tools.conform_agentic.report_output_path="@);
    if opts.stages@.contains(Stage::Translate) {
        assert(t[t.len() - 1] == x);
        listed_in(a + b, t, x);
        listed_in(a + b + t, v, x);
        listed_in(a + b + t + v, c, x);
    }
    if opts.stages@.contains(Stage::Conform) {
        assert(c[c.len() - 1] == y);
        listed_in(a + b + t + v, c, y);
    }
}

// ── Transpilation ────────────────────────────────────────────────────────

proof fn driver_at(artifacts: Seq<Artifact>, i: int)
    requires
        0 <= i < artifacts.len(),
        artifacts[i].target_name@ == "driver"@,
        artifacts[i].executable is Some,
        forall|j: int|
            0 <= j < i ==> (#[trigger] artifacts[j]).target_name@ != "driver"@
                || artifacts[j].executable is None,
    ensures
        ir::driver_of(artifacts) == Some(artifacts[i].executable->0@),
    decreases i,
{
    if i > 0 {
        assert(artifacts[0].target_name@ != "driver"@ || artifacts[0].executable is None);
        let rest = artifacts.skip(1);
        assert(rest[i - 1] == artifacts[i]);
        assert forall|j: int| 0 <= j < i - 1 implies (#[trigger] rest[j]).target_name@ != "driver"@
            || rest[j].executable is None by {
            assert(rest[j] == artifacts[j + 1]);
        }
        driver_at(rest, i - 1);
    }
}

proof fn no_driver(artifacts: Seq<Artifact>)
    requires
        forall|j: int|
            0 <= j < artifacts.len() ==> (#[trigger] artifacts[j]).target_name@ != "driver"@
                || artifacts[j].executable is None,
    ensures
        ir::driver_of(artifacts) is None,
    decreases artifacts.len(),
{
    if artifacts.len() > 0 {
        assert(artifacts[0].target_name@ != "driver"@ || artifacts[0].executable is None);
        let rest = artifacts.skip(1);
        assert forall|j: int| 0 <= j < rest.len() implies (#[trigger] rest[j]).target_name@
            != "driver"@ || rest[j].executable is None by {
            assert(rest[j] == artifacts[j + 1]);
        }
        no_driver(rest);
    }
}

/// The binary of a build is its driver, the first if there are several; no other binary
/// stands in for it.
pub proof fn the_driver_is_found_by_name(artifacts: &Vec<Artifact>, r: Option<String>, i: int)
    requires
        call_ensures(find_driver, (artifacts,), r),
    ensures
        0 <= i < artifacts@.len() && artifacts@[i].target_name@ == "driver"@
            && artifacts@[i].executable is Some && (forall|j: int|
            0 <= j < i ==> (#[trigger] artifacts@[j]).target_name@ != "driver"@
                || artifacts@[j].executable is None) ==> (r matches Some(p) && p@
            == artifacts@[i].executable->0@),
        (forall|j: int|
            0 <= j < artifacts@.len() ==> (#[trigger] artifacts@[j]).target_name@ != "driver"@
                || artifacts@[j].executable is None) ==> r is None,
{
    if 0 <= i < artifacts@.len() && artifacts@[i].target_name@ == "driver"@
        && artifacts@[i].executable is Some && (forall|j: int|
        0 <= j < i ==> (#[trigger] artifacts@[j]).target_name@ != "driver"@
            || artifacts@[j].executable is None) {
        driver_at(artifacts@, i);
    }
    if forall|j: int|
        0 <= j < artifacts@.len() ==> (#[trigger] artifacts@[j]).target_name@ != "driver"@
            || artifacts@[j].executable is None {
        no_driver(artifacts@);
    }
}

/// A build is a success exactly if it produced something. Otherwise there is an error
/// and no binary.
pub proof fn builds_succeed_by_what_they_produce(
    translated: bool,
    build: Result<&Vec<Artifact>, String>,
    r: TranspilationResult,
)
    requires
        call_ensures(TranspilationResult::from_parts, (translated, build), r),
    ensures
        r.translation_success == translated,
        r.build_success <==> build is Ok && build->Ok_0@.len() > 0,
        r.build_error is Some <==> !r.build_success,
        !r.build_success ==> r.rust_binary_path is None,
        build matches Err(e) ==> (r.build_error matches Some(m) && m@ == e@),
{
}

/// A program counts as translated exactly if a package was made.
pub proof fn packages_make_translations(results: &HarvestIr, r: TranspilationResult)
    requires
        call_ensures(TranspilationResult::from_ir, (results,), r),
    ensures
        r.translation_success <==> exists|i: int|
            0 <= i < results.entries@.len() && (#[trigger] results.entries@[i]) is CargoPackage,
{
    let v = results.entries@;
    let holds = ir::is_package();
    assert(forall|i: int| 0 <= i < v.len() ==> (holds(#[trigger] v[i]) <==> v[i] is CargoPackage));
    if !ir::has_none(v, holds) {
        let i = choose|i: int| 0 <= i < v.len() && holds(#[trigger] v[i]);
        assert(v[i] is CargoPackage);
    }
    if exists|i: int| 0 <= i < v.len() && (#[trigger] v[i]) is CargoPackage {
        let i = choose|i: int| 0 <= i < v.len() && (#[trigger] v[i]) is CargoPackage;
        assert(holds(v[i]));
    }
}

// ── The course ───────────────────────────────────────────────────────────

/// A program ends without an error exactly if all went well on its way: its vectors
/// could be read, its output was free or forced, it was translated and built, and its
/// grading could be chosen and done. Then it has the results of the grading; on any
/// other way it has none.
pub proof fn programs_end_as_their_steps_went(
    o: Outcomes,
    s: Steps,
    end: ProgramEvalStats,
    g: Result<Grading, String>,
)
    requires
        program::steps_taken(o, s, end),
        call_ensures(
            choose_grading,
            (
                o.harness,
                o.kind,
                o.suite_root,
                o.dirs,
                &o.transpilation.rust_binary_path,
                o.binary_exists,
            ),
            g,
        ),
    ensures
        ({
            let ready = o.vectors is Ok && (o.force || !o.occupied) && o.made is Ok;
            let t = o.transpilation;
            &&& end.program_name@ == o.program.name@
            &&& end.translation_success <==> ready && t.translation_success
            &&& end.rust_build_success <==> ready && t.build_success
            &&& end.error_message is None <==> ready && t.translation_success && t.build_success
                && g is Ok && o.results is Ok
            &&& end.error_message is None ==> {
                let v = stats::result_views(o.results->Ok_0@);
                &&& stats::result_views(end.test_results@) == v
                &&& end.passed_tests == program::passed_count(v)
                &&& end.skipped_tests == program::skipped_count(v)
                &&& g->Ok_0 is Gtest ==> end.total_tests == v.len()
                &&& !(g->Ok_0 is Gtest) ==> end.total_tests == o.vectors->Ok_0
            }
            &&& end.error_message is Some ==> end.test_results@.len() == 0 && end.passed_tests == 0
                && end.skipped_tests == 0
            &&& o.vectors matches Err(e) ==> (end.error_message matches Some(m) && m@ == e@)
        }),
{
    program::steps_follow_the_course(o, s, end);
    program::a_program_is_graded_or_says_why(o.program.name@, o.course());
    let e = end.view();
    assert(e.program_name == end.program_name@);
    assert(e.test_results == stats::result_views(end.test_results@));
    assert(e.test_results.len() == end.test_results@.len());
    assert(e.error_message == text::opt_text(end.error_message));
    assert(e.total_tests == end.total_tests && e.passed_tests == end.passed_tests
        && e.skipped_tests == end.skipped_tests);
}

/// A program starts with its name and nothing else, and its vectors are looked for in
/// its suite.
pub proof fn programs_start_blank(p: &ProgramRun, suite_dirs: &Vec<String>, r: Started)
    requires
        call_ensures(start, (p, suite_dirs), r),
    ensures
        r.stats.program_name@ == p.name@,
        !r.stats.translation_success,
        !r.stats.rust_build_success,
        r.stats.total_tests == 0,
        r.stats.error_message is None,
        r.vectors is Some <==> p.suite_root is Some && text::texts(suite_dirs@).contains(
            "test_vectors"@,
        ),
        r.vectors matches Some(v) ==> v@ == path::joined(p.suite_root->0@, "test_vectors"@),
{
    let s = r.stats.view();
    assert(s.program_name == r.stats.program_name@);
    assert(s.error_message == text::opt_text(r.stats.error_message));
    assert(s.total_tests == r.stats.total_tests);
}

/// A snapshot is graded against the suite that it carries, and cannot be graded without
/// one.
pub proof fn snapshots_are_graded_by_their_own_suite(
    program_dir: &str,
    dirs: &Vec<String>,
    r: Next<Reopened>,
)
    requires
        call_ensures(reopen, (program_dir, dirs), r),
    ensures
        r is Go <==> text::texts(dirs@).contains("test_vectors"@) || text::texts(dirs@).contains(
            "gtest_suite"@,
        ),
        r matches Next::Go(n) ==> {
            &&& n.suite_root@ == path::joined(path::joined(program_dir@, ".harvest"@), "suite"@)
            &&& n.stats.translation_success
            &&& !n.stats.rust_build_success
            &&& n.stats.error_message is None
            &&& n.vectors is Some <==> text::texts(dirs@).contains("test_vectors"@)
        },
        r matches Next::Done(s) ==> s.error_message is Some,
{
    if let Next::Go(n) = r {
        assert(n.stats.view().error_message == text::opt_text(n.stats.error_message));
    }
    if let Next::Done(s) = r {
        assert(s.view().error_message == text::opt_text(s.error_message));
    }
}

/// A snapshot that is graded again is graded by the harness that is asked for; else by
/// its GoogleTest suite, else as a library if it has a runner, else by its driver.
pub proof fn snapshots_are_graded_as_their_suite_tells(
    harness: TestHarness,
    program_dir: &str,
    suite_root: &str,
    dirs: &Vec<String>,
    r: Result<Grading, String>,
)
    requires
        call_ensures(choose_existing_grading, (harness, program_dir, suite_root, dirs), r),
    ensures
        ({
            let d = text::texts(dirs@);
            let gtest = d.contains("gtest_suite"@);
            let runner = d.contains("runner"@);
            &&& r is Err <==> harness == TestHarness::Gtest && !gtest
            &&& (r matches Ok(Grading::Gtest(_))) <==> gtest && (harness == TestHarness::Gtest
                || harness == TestHarness::Auto)
            &&& (r matches Ok(Grading::Library)) <==> harness == TestHarness::Lib || (harness
                == TestHarness::Auto && !gtest && runner)
            &&& r matches Ok(Grading::Binary(p)) ==> p@ == path::joined(
                program_dir@,
                "target/release/driver"@,
            )
        }),
{
}

/// Grading a snapshot again ends without an error exactly if its vectors could be read,
/// its grading could be chosen, its driver was built where it is needed, and the grading
/// could be done.
pub proof fn regrading_ends_as_its_steps_went(
    o: RegradeOutcomes,
    s: RegradeSteps,
    end: ProgramEvalStats,
    suite_root: &str,
    g: Result<Grading, String>,
)
    requires
        program::regrade_steps_taken(o, s, end),
        suite_root@ == path::joined(path::joined(o.program_dir@, ".harvest"@), "suite"@),
        call_ensures(
            choose_existing_grading,
            (o.harness, o.program_dir, suite_root, o.dirs),
            g,
        ),
    ensures
        ({
            let d = text::texts(o.dirs@);
            let has_suite = d.contains("test_vectors"@) || d.contains("gtest_suite"@);
            let driver = o.build matches program::DriverBuild::Built { driver_exists }
                && driver_exists;
            &&& end.translation_success
            &&& end.error_message is None <==> has_suite && o.vectors is Ok && g is Ok && (
            g->Ok_0 is Binary ==> driver) && o.results is Ok
            &&& end.error_message is None ==> stats::result_views(end.test_results@)
                == stats::result_views(o.results->Ok_0@) && end.rust_build_success
        }),
{
    program::regrade_steps_follow_the_course(o, s, end);
    let e = end.view();
    assert(e.error_message == text::opt_text(end.error_message));
    assert(e.test_results == stats::result_views(end.test_results@));
    assert(suite_root@ == program::carried_suite(o.program_dir@));
}

// ── Experiments ──────────────────────────────────────────────────────────

/// The record of a program tells what its statistics tell.
pub proof fn records_tell_the_statistics(s: &ProgramEvalStats, r: ProgramRecord)
    requires
        call_ensures(record_from_stats, (s,), r),
    ensures
        r.program@ == s.program_name@,
        r.error is Some <==> s.error_message is Some,
        r.error matches Some(e) ==> e@ == s.error_message->0@,
        r.translation_success == Some(s.translation_success),
        r.build_success == Some(s.rust_build_success),
        r.total_tests == Some(s.total_tests),
        r.passed_tests == Some(s.passed_tests),
        r.skipped_tests == Some(s.skipped_tests),
{
}

/// The receipt of a run tells its arguments and its programs, and how many of them are
/// done.
pub proof fn receipts_tell_the_run(run: &ResolvedRun, done: usize, version: &str, r: Receipt)
    requires
        call_ensures(receipt_of, (run, done, version), r),
    ensures
        r.id@ == run.id@,
        text::texts(r.argv@) == text::texts(run.argv@),
        text::texts(r.config@) == text::texts(run.config@),
        text::texts(r.programs@) == text::texts(run.programs@),
        r.from is Some <==> run.from is Some,
        r.from matches Some(f) ==> f@ == run.from->0@,
        r.harvest_version@ == version@,
        r.programs_total == run.programs@.len(),
        r.programs_done == done,
{
}

/// Programs are taken in order, one after the other, until none is left.
pub proof fn programs_are_taken_in_order(p: &RunProgress, run: &ResolvedRun, r: Option<&str>)
    requires
        call_ensures(RunProgress::next_program, (p, run), r),
    ensures
        r is Some <==> p.states@.len() < run.programs@.len(),
        r matches Some(name) ==> name@ == run.programs@[p.states@.len() as int]@,
{
}

/// One more settled program counts as done if it is complete, failed or blocked.
pub proof fn settled_programs_are_counted(
    a: &RunProgress,
    b: &RunProgress,
    s: ProgramState,
    x: usize,
    y: usize,
)
    requires
        b.states@ == a.states@.push(s),
        call_ensures(RunProgress::done, (a,), x),
        call_ensures(RunProgress::done, (b,), y),
    ensures
        y == x + (match s {
            ProgramState::Complete | ProgramState::Failed | ProgramState::Blocked => 1int,
            ProgramState::Started | ProgramState::Infra => 0int,
        }),
{
    execution::done_in_push(a.states@, s);
}

} // verus!
