//! A benchmark run: its options, and what is configured for each program.

use crate::benchmark::cli::{Args, TestHarness, VerifyHarness};
use crate::benchmark::experiment::progress;
use crate::benchmark::stats::ProgramEvalStats;
use crate::config;
use crate::config::{AgentKind, Stage};
use crate::path;
use crate::stage_manifest;
use crate::text;
use vstd::prelude::*;
use vstd::string::*;

verus! {

/// Options shared by every program in a benchmark run.
#[derive(Debug)]
pub struct RunOptions {
    pub config_overrides: Vec<String>,
    pub timeout: u64,
    pub modular: bool,
    /// Agentic stages of this run, in pipeline order. Empty when the run is not
    /// agentic.
    pub stages: Vec<Stage>,
    pub agent: Option<AgentKind>,
    pub agent_tools: bool,
    pub model: Option<String>,
    pub no_plan: bool,
    pub no_plan_file: bool,
    pub workflow: bool,
    pub test_harness: TestHarness,
    pub verify_harness: VerifyHarness,
    pub fuzz: bool,
    pub force: bool,
}

impl RunOptions {
    /// The options that the arguments ask for.
    pub fn from_args(args: &Args) -> (r: Self)
        ensures
            text::texts(r.config_overrides@) == text::texts(args.config@),
            r.timeout == args.timeout,
            r.modular == args.modular,
            r.stages@ == config::ordered(args.given_stages()),
            r.agent == args.agent,
            r.agent_tools == args.agent_tools,
            text::opt_text(r.model) == text::opt_text(args.model),
            r.no_plan == args.no_plan,
            r.no_plan_file == args.no_plan_file,
            r.workflow == args.workflow,
            r.test_harness == args.test_harness,
            r.verify_harness == (match args.verify_harness {
                Some(h) => h,
                None => VerifyHarness::Gtest,
            }),
            r.fuzz == args.fuzz,
            r.force == args.force,
    {
        RunOptions {
            config_overrides: text::copy_texts(&args.config),
            timeout: args.timeout,
            modular: args.modular,
            stages: args.stages(),
            agent: args.agent,
            agent_tools: args.agent_tools,
            model: text::copy_opt(&args.model),
            no_plan: args.no_plan,
            no_plan_file: args.no_plan_file,
            workflow: args.workflow,
            test_harness: args.test_harness,
            verify_harness: match args.verify_harness {
                Some(h) => h,
                None => VerifyHarness::default(),
            },
            fuzz: args.fuzz,
            force: args.force,
        }
    }

    pub fn has(&self, stage: Stage) -> (r: bool)
        ensures
            r == self.stages@.contains(stage),
    {
        config::has_stage(&self.stages, stage)
    }

    pub open spec fn mode(&self) -> Seq<char> {
        if self.stages@.len() == 0 {
            if self.modular {
                "modular"@
            } else {
                "one_shot"@
            }
        } else if self.workflow {
            "workflow"@
        } else if self.no_plan {
            "no_plan"@
        } else if self.no_plan_file {
            "no_plan_file"@
        } else {
            "plan"@
        }
    }

    /// How this run produces the crate, for the manifest: the agentic prompt mode,
    /// or which translator ran that is not agentic.
    pub fn prompt_mode(&self) -> (r: &'static str)
        ensures
            r@ == self.mode(),
    {
        if self.stages.len() == 0 {
            return if self.modular {
                "modular"
            } else {
                "one_shot"
            };
        }
        if self.workflow {
            "workflow"
        } else if self.no_plan {
            "no_plan"
        } else if self.no_plan_file {
            "no_plan_file"
        } else {
            "plan"
        }
    }
}

/// One program's work item, with every input resolved to a location. A run that
/// starts at translate reads them from the bench test case; a run that resumes
/// reads them from the snapshot, which carries its own copies.
#[derive(Debug)]
pub struct ProgramRun {
    pub name: String,
    /// C source root: the bench `test_case/`, or the snapshot's copy.
    pub c_source_dir: String,
    /// Directory whose children are the directories of the external test suite.
    /// `None` when the test case ships no suite.
    pub suite_root: Option<String>,
    /// The snapshot the first stage loads its package from, if resuming.
    pub stage_input: Option<String>,
    /// Stage history carried over from the input snapshot.
    pub prior_stages: Vec<Stage>,
    /// Bench test case this lineage came from.
    pub bench_program: String,
    /// Revision of the bench checkout that the reference material was taken at.
    pub bench_revision: Option<String>,
    /// Checkout for the toolchain contract.
    pub test_corpus_root: Option<String>,
}

// ── The output directory ─────────────────────────────────────────────────

/// The refusal of an output directory that is in use.
pub open spec fn occupied_message(output_dir: Seq<char>) -> Seq<char> {
    "output program directory "@ + output_dir
        + " is not empty; pass --force to overwrite it (reusing a populated directory mixes two runs' results)"@
}

/// Whether the output directory must be erased before it receives a snapshot. It
/// must not already hold one run's results when a second run writes into it.
pub fn prepare_output_dir(output_dir: &str, occupied: bool, force: bool) -> (r: Result<bool, String>)
    ensures
        (match r {
            Ok(erase) => (force || !occupied) && erase == occupied,
            Err(e) => occupied && !force && e@ == occupied_message(output_dir@),
        }),
{
    if occupied && !force {
        let mut e = "output program directory ".to_owned();
        e.append(output_dir);
        e.append(
            " is not empty; pass --force to overwrite it (reusing a populated directory mixes two runs' results)",
        );
        return Err(e);
    }
    Ok(occupied)
}

/// A program whose output directory was refused is classed as an infrastructure
/// failure, so it is tried again.
pub proof fn refused_output_is_retried(output_dir: Seq<char>, stats: ProgramEvalStats)
    requires
        text::opt_text(stats.error_message) == Some(occupied_message(output_dir)),
    ensures
        progress::class_of(stats) == progress::ProgramState::Infra,
{
    reveal_strlit("is not empty");
    reveal_strlit(
        " is not empty; pass --force to overwrite it (reusing a populated directory mixes two runs' results)",
    );
    let m = stats.error_message->0@;
    let at: int = ("output program directory "@ + output_dir).len() as int + 1;
    assert(m.subrange(at, at + 12) =~= "is not empty"@);
    assert(text::occurs_at(m, "is not empty"@, at));
}

// ── Configuration ────────────────────────────────────────────────────────

/// A configuration value of a tool.
pub open spec fn setting(tool: Seq<char>, key: Seq<char>, value: Seq<char>) -> Seq<char> {
    "tools."@ + tool + "."@ + key + "="@ + value
}

/// A configuration value of a tool, if the condition holds.
pub open spec fn setting_when(
    cond: bool,
    tool: Seq<char>,
    key: Seq<char>,
    value: Seq<char>,
) -> Seq<Seq<char>> {
    text::when(cond, setting(tool, key, value))
}

/// A configuration value of a tool, if there is a value.
pub open spec fn setting_of(tool: Seq<char>, key: Seq<char>, value: Option<Seq<char>>) -> Seq<
    Seq<char>,
> {
    match value {
        Some(v) => setting_when(true, tool, key, v),
        None => seq![],
    }
}

fn push_setting_when(out: &mut Vec<String>, cond: bool, tool: &str, key: &str, value: &str)
    ensures
        text::texts(final(out)@) == text::texts(old(out)@) + setting_when(cond, tool@, key@, value@),
{
    let mut s = "tools.".to_owned();
    s.append(tool);
    s.append(".");
    s.append(key);
    s.append("=");
    s.append(value);
    text::push_when(out, cond, s.as_str());
}

fn push_setting_of(out: &mut Vec<String>, tool: &str, key: &str, value: &Option<String>)
    ensures
        text::texts(final(out)@) == text::texts(old(out)@) + setting_of(
            tool@,
            key@,
            text::opt_text(*value),
        ),
{
    let ghost before = text::texts(out@);
    match value {
        Some(v) => {
            push_setting_when(out, true, tool, key, v.as_str());
        },
        None => {
            assert(before + seq![] =~= before);
        },
    }
}

/// Where a program's results go, and what its tools share.
pub struct RunPlaces {
    /// The root of the run's output.
    pub root: Seq<char>,
    /// The program's `.harvest/` directory.
    pub meta: Seq<char>,
}

pub open spec fn places(output_root: Seq<char>, name: Seq<char>) -> RunPlaces {
    RunPlaces {
        root: output_root,
        meta: path::joined(path::joined(output_root, name), stage_manifest::HARVEST_META_DIR@),
    }
}

/// What is configured for every agentic stage of the run.
pub open spec fn stage_settings(
    tool: Seq<char>,
    stage: Stage,
    at: RunPlaces,
    corpus: Option<Seq<char>>,
    model: Option<Seq<char>>,
) -> Seq<Seq<char>> {
    setting_when(true, tool, "output_log_path"@, path::joined(at.root, "output.log"@))
        + setting_when(
        true,
        tool,
        "rejected_output_dir"@,
        path::joined(path::joined(at.meta, stage_manifest::REJECTED_DIR@), stage.name()),
    ) + setting_of(tool, "test_corpus_root"@, corpus) + setting_of(tool, "model"@, model)
}

/// What is configured for the stages that take the prompt modes. They share the
/// wishlist.
pub open spec fn mode_settings(tool: Seq<char>, at: RunPlaces, opts: RunOptions) -> Seq<Seq<char>> {
    setting_when(true, tool, "wishlist_output_path"@, path::joined(at.meta, "tool_wishlist.json"@))
        + setting_when(opts.no_plan, tool, "no_plan"@, "true"@) + setting_when(
        opts.no_plan_file,
        tool,
        "no_plan_file"@,
        "true"@,
    ) + setting_when(opts.workflow, tool, "workflow"@, "true"@)
}

/// What is configured for loading the suite. It is loaded on every run, whichever
/// translator produces the crate, so that the output can stand on its own.
pub open spec fn suite_settings(suite_root: Option<Seq<char>>, harness: TestHarness) -> Seq<
    Seq<char>,
> {
    match suite_root {
        Some(root) => setting_when(true, "load_test_suite"@, "input_path"@, root) + setting_of(
            "load_test_suite"@,
            "harness"@,
            match harness.forced() {
                Some(kind) => Some(kind.spelled()),
                None => None,
            },
        ),
        None => seq![],
    }
}

pub open spec fn translate_settings(at: RunPlaces, run: ProgramRun, opts: RunOptions) -> Seq<
    Seq<char>,
> {
    stage_settings(
        "translate_agentic"@,
        Stage::Translate,
        at,
        text::opt_text(run.test_corpus_root),
        text::opt_text(opts.model),
    ) + mode_settings("translate_agentic"@, at, opts) + setting_when(
        true,
        "translate_agentic"@,
        "plan_output_path"@,
        path::joined(at.meta, "plan_translate.md"@),
    )
}

pub open spec fn verify_settings(at: RunPlaces, run: ProgramRun, opts: RunOptions) -> Seq<
    Seq<char>,
> {
    stage_settings(
        "verify_fix_agentic"@,
        Stage::Verify,
        at,
        text::opt_text(run.test_corpus_root),
        text::opt_text(opts.model),
    ) + mode_settings("verify_fix_agentic"@, at, opts) + setting_when(
        true,
        "verify_fix_agentic"@,
        "hypotheses_output_path"@,
        path::joined(at.meta, "hypotheses_verify.md"@),
    ) + setting_when(
        true,
        "verify_fix_agentic"@,
        "verify_harness"@,
        opts.verify_harness.name(),
    ) + setting_when(opts.fuzz, "verify_fix_agentic"@, "fuzz"@, "true"@)
}

pub open spec fn conform_settings(at: RunPlaces, run: ProgramRun, opts: RunOptions) -> Seq<
    Seq<char>,
> {
    stage_settings(
        "conform_agentic"@,
        Stage::Conform,
        at,
        text::opt_text(run.test_corpus_root),
        text::opt_text(opts.model),
    ) + setting_when(
        true,
        "conform_agentic"@,
        "notes_output_path"@,
        path::joined(at.meta, "conform_notes.md"@),
    ) + setting_when(
        true,
        "conform_agentic"@,
        "report_output_path"@,
        path::joined(at.meta, "conform_report.md"@),
    )
}

pub open spec fn if_stage(stages: Seq<Stage>, stage: Stage, settings: Seq<Seq<char>>) -> Seq<
    Seq<char>,
> {
    if stages.contains(stage) {
        settings
    } else {
        seq![]
    }
}

/// The configuration of a program's run: what was given on the command line, then
/// the suite, then each stage that runs.
pub open spec fn overrides_of(run: ProgramRun, output_root: Seq<char>, opts: RunOptions) -> Seq<
    Seq<char>,
> {
    let at = places(output_root, run.name@);
    text::texts(opts.config_overrides@) + suite_settings(
        text::opt_text(run.suite_root),
        opts.test_harness,
    ) + if_stage(opts.stages@, Stage::Translate, translate_settings(at, run, opts)) + if_stage(
        opts.stages@,
        Stage::Verify,
        verify_settings(at, run, opts),
    ) + if_stage(opts.stages@, Stage::Conform, conform_settings(at, run, opts))
}

fn stage_overrides(
    tool: &str,
    stage: Stage,
    root: &str,
    meta: &str,
    corpus: &Option<String>,
    model: &Option<String>,
) -> (r: Vec<String>)
    ensures
        text::texts(r@) == stage_settings(
            tool@,
            stage,
            (RunPlaces { root: root@, meta: meta@ }),
            text::opt_text(*corpus),
            text::opt_text(*model),
        ),
{
    let mut out: Vec<String> = Vec::new();
    push_setting_when(
        &mut out,
        true,
        tool,
        "output_log_path",
        path::join(root, "output.log").as_str(),
    );
    assert(text::texts(out@) =~= setting_when(
        true,
        tool@,
        "output_log_path"@,
        path::joined(root@, "output.log"@),
    ));
    let rejected = path::join(meta, stage_manifest::REJECTED_DIR);
    push_setting_when(
        &mut out,
        true,
        tool,
        "rejected_output_dir",
        path::join(rejected.as_str(), stage.as_str()).as_str(),
    );
    push_setting_of(&mut out, tool, "test_corpus_root", corpus);
    push_setting_of(&mut out, tool, "model", model);
    out
}

fn mode_overrides(tool: &str, root: &str, meta: &str, opts: &RunOptions) -> (r: Vec<String>)
    ensures
        text::texts(r@) == mode_settings(tool@, (RunPlaces { root: root@, meta: meta@ }), *opts),
{
    let mut out: Vec<String> = Vec::new();
    push_setting_when(
        &mut out,
        true,
        tool,
        "wishlist_output_path",
        path::join(meta, "tool_wishlist.json").as_str(),
    );
    assert(text::texts(out@) =~= setting_when(
        true,
        tool@,
        "wishlist_output_path"@,
        path::joined(meta@, "tool_wishlist.json"@),
    ));
    push_setting_when(&mut out, opts.no_plan, tool, "no_plan", "true");
    push_setting_when(&mut out, opts.no_plan_file, tool, "no_plan_file", "true");
    push_setting_when(&mut out, opts.workflow, tool, "workflow", "true");
    out
}

fn suite_overrides(suite_root: &Option<String>, harness: TestHarness) -> (r: Vec<String>)
    ensures
        text::texts(r@) == suite_settings(text::opt_text(*suite_root), harness),
{
    let mut out: Vec<String> = Vec::new();
    if let Some(root) = suite_root {
        push_setting_when(&mut out, true, "load_test_suite", "input_path", root.as_str());
        assert(text::texts(out@) =~= setting_when(
            true,
            "load_test_suite"@,
            "input_path"@,
            root@,
        ));
        let kind = match harness.suite_kind() {
            Some(kind) => Some(kind.as_str().to_owned()),
            None => None,
        };
        push_setting_of(&mut out, "load_test_suite", "harness", &kind);
    } else {
        assert(text::texts(out@) =~= seq![]);
    }
    out
}

fn translate_overrides(run: &ProgramRun, root: &str, meta: &str, opts: &RunOptions) -> (r: Vec<
    String,
>)
    ensures
        text::texts(r@) == translate_settings(
            (RunPlaces { root: root@, meta: meta@ }),
            *run,
            *opts,
        ),
{
    let mut out = stage_overrides(
        "translate_agentic",
        Stage::Translate,
        root,
        meta,
        &run.test_corpus_root,
        &opts.model,
    );
    text::push_texts(&mut out, &mode_overrides("translate_agentic", root, meta, opts));
    push_setting_when(
        &mut out,
        true,
        "translate_agentic",
        "plan_output_path",
        path::join(meta, "plan_translate.md").as_str(),
    );
    out
}

fn verify_overrides(run: &ProgramRun, root: &str, meta: &str, opts: &RunOptions) -> (r: Vec<String>)
    ensures
        text::texts(r@) == verify_settings((RunPlaces { root: root@, meta: meta@ }), *run, *opts),
{
    let mut out = stage_overrides(
        "verify_fix_agentic",
        Stage::Verify,
        root,
        meta,
        &run.test_corpus_root,
        &opts.model,
    );
    text::push_texts(&mut out, &mode_overrides("verify_fix_agentic", root, meta, opts));
    push_setting_when(
        &mut out,
        true,
        "verify_fix_agentic",
        "hypotheses_output_path",
        path::join(meta, "hypotheses_verify.md").as_str(),
    );
    push_setting_when(
        &mut out,
        true,
        "verify_fix_agentic",
        "verify_harness",
        opts.verify_harness.as_str(),
    );
    push_setting_when(&mut out, opts.fuzz, "verify_fix_agentic", "fuzz", "true");
    out
}

fn conform_overrides(run: &ProgramRun, root: &str, meta: &str, opts: &RunOptions) -> (r: Vec<
    String,
>)
    ensures
        text::texts(r@) == conform_settings((RunPlaces { root: root@, meta: meta@ }), *run, *opts),
{
    let mut out = stage_overrides(
        "conform_agentic",
        Stage::Conform,
        root,
        meta,
        &run.test_corpus_root,
        &opts.model,
    );
    push_setting_when(
        &mut out,
        true,
        "conform_agentic",
        "notes_output_path",
        path::join(meta, "conform_notes.md").as_str(),
    );
    push_setting_when(
        &mut out,
        true,
        "conform_agentic",
        "report_output_path",
        path::join(meta, "conform_report.md").as_str(),
    );
    out
}

/// The configuration values that a program's run adds up to, for the agentic
/// stages that run and for loading the suite.
pub fn effective_overrides(run: &ProgramRun, output_root: &str, opts: &RunOptions) -> (r: Vec<
    String,
>)
    ensures
        text::texts(r@) == overrides_of(*run, output_root@, *opts),
{
    let output_dir = path::join(output_root, run.name.as_str());
    let meta = stage_manifest::meta_dir(output_dir.as_str());
    let mut out = text::copy_texts(&opts.config_overrides);
    text::push_texts(&mut out, &suite_overrides(&run.suite_root, opts.test_harness));
    let mut translate: Vec<String> = Vec::new();
    if opts.has(Stage::Translate) {
        translate = translate_overrides(run, output_root, meta.as_str(), opts);
    } else {
        assert(text::texts(translate@) =~= seq![]);
    }
    text::push_texts(&mut out, &translate);
    let mut verify: Vec<String> = Vec::new();
    if opts.has(Stage::Verify) {
        verify = verify_overrides(run, output_root, meta.as_str(), opts);
    } else {
        assert(text::texts(verify@) =~= seq![]);
    }
    text::push_texts(&mut out, &verify);
    let mut conform: Vec<String> = Vec::new();
    if opts.has(Stage::Conform) {
        conform = conform_overrides(run, output_root, meta.as_str(), opts);
    } else {
        assert(text::texts(conform@) =~= seq![]);
    }
    text::push_texts(&mut out, &conform);
    out
}

/// What is given on the command line comes first, whatever runs.
pub proof fn command_line_comes_first(run: ProgramRun, output_root: Seq<char>, opts: RunOptions)
    ensures
        ({
            let given = text::texts(opts.config_overrides@);
            let all = overrides_of(run, output_root, opts);
            all.len() >= given.len() && all.take(given.len() as int) == given
        }),
{
    let given = text::texts(opts.config_overrides@);
    assert(overrides_of(run, output_root, opts).take(given.len() as int) =~= given);
}

/// A run without agentic stages still has the suite configured, and nothing of the
/// stages.
pub proof fn suite_is_loaded_on_every_run(run: ProgramRun, output_root: Seq<char>, opts: RunOptions)
    requires
        opts.stages@.len() == 0,
    ensures
        overrides_of(run, output_root, opts) == text::texts(opts.config_overrides@)
            + suite_settings(text::opt_text(run.suite_root), opts.test_harness),
{
    assert(overrides_of(run, output_root, opts) =~= text::texts(opts.config_overrides@)
        + suite_settings(text::opt_text(run.suite_root), opts.test_harness));
}

/// The verification agent is given the mechanism that was asked for, in place of the
/// tool's own default.
pub proof fn chosen_harness_is_told(run: ProgramRun, output_root: Seq<char>, opts: RunOptions)
    requires
        opts.stages@.contains(Stage::Verify),
    ensures
        overrides_of(run, output_root, opts).contains(
            setting("verify_fix_agentic"@, "verify_harness"@, opts.verify_harness.name()),
        ),
{
    let told = setting("verify_fix_agentic"@, "verify_harness"@, opts.verify_harness.name());
    let at = places(output_root, run.name@);
    let verify = verify_settings(at, run, opts);
    let fuzz = setting_when(opts.fuzz, "verify_fix_agentic"@, "fuzz"@, "true"@);
    let conform = if_stage(opts.stages@, Stage::Conform, conform_settings(at, run, opts));
    let all = overrides_of(run, output_root, opts);
    assert(verify[verify.len() - fuzz.len() - 1] == told);
    assert(all[all.len() - conform.len() - fuzz.len() - 1] == told);
}

// ── Where a run starts ───────────────────────────────────────────────────

/// Whether a run with these stages starts from a previous run's output.
pub open spec fn resumes(stages: Seq<Stage>) -> bool {
    stages.len() > 0 && (stages[0] == Stage::Verify || stages[0] == Stage::Conform)
}

pub fn resume_from_snapshot(stages: &Vec<Stage>) -> (r: bool)
    ensures
        r == resumes(stages@),
{
    stages.len() > 0 && (stages[0] == Stage::Verify || stages[0] == Stage::Conform)
}

/// Agentic stages in pipeline order start from a bench test case if and only if
/// translate is among them.
pub proof fn translating_starts_from_the_bench(given: Seq<Stage>)
    ensures
        given.len() > 0 ==> (resumes(config::ordered(given)) <==> !given.contains(
            Stage::Translate,
        )),
        given.len() == 0 ==> !resumes(config::ordered(given)),
{
    config::ordering_law(given);
    let s = config::ordered(given);
    if given.len() > 0 {
        assert(given.contains(given[0]));
        assert(s.contains(given[0]));
        assert(s.len() > 0);
        assert(s.contains(s[0]));
        if given.contains(Stage::Translate) {
            assert(s.contains(Stage::Translate));
        }
    } else if s.len() > 0 {
        assert(s.contains(s[0]));
    }
}

/// What a run's input directory holds.
#[derive(Debug, Clone, Copy, PartialEq, Eq, Structural)]
pub enum InputKind {
    /// Snapshots of a previous run.
    Snapshots,
    /// A single test case.
    TestCase,
    /// A collection of test cases.
    Collection,
}

/// How the input directory is read: what the first stage consumes.
pub fn input_kind(stages: &Vec<Stage>, is_test_case: bool) -> (r: InputKind)
    ensures
        r == (if resumes(stages@) {
            InputKind::Snapshots
        } else if is_test_case {
            InputKind::TestCase
        } else {
            InputKind::Collection
        }),
{
    if resume_from_snapshot(stages) {
        InputKind::Snapshots
    } else if is_test_case {
        InputKind::TestCase
    } else {
        InputKind::Collection
    }
}

/// How a run is announced.
pub open spec fn translation_line(opts: RunOptions) -> Seq<char> {
    "Using "@ + (if opts.modular {
        "Modular"@
    } else if opts.stages@.len() > 0 {
        "Agentic ("@ + text::join_of(config::stage_names(opts.stages@), ","@) + ")"@
    } else {
        "All-at-once"@
    }) + " Translation"@
}

pub fn announce_translation(opts: &RunOptions) -> (r: String)
    ensures
        r@ == translation_line(*opts),
{
    let mut what = "All-at-once".to_owned();
    if opts.modular {
        what = "Modular".to_owned();
    } else if opts.stages.len() > 0 {
        what = "Agentic (".to_owned();
        what.append(config::list_stages(&opts.stages, ",").as_str());
        what.append(")");
    }
    let mut r = "Using ".to_owned();
    r.append(what.as_str());
    r.append(" Translation");
    r
}

} // verus!
