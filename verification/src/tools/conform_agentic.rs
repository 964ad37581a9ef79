//! Agentic conformance: the external test suite is revealed to an agent, whose
//! objective is to make every external test pass.
//!
//! The suite reaches only this stage. Its directories are read-only inputs: they
//! are discarded before the working directory becomes the result, so an edited
//! suite can neither be graded nor reach a later stage.

use crate::agent::opencode;
use crate::agent::phase;
use crate::agent::phase::{AgentInvocation, AgentPhase};
use crate::config::AgentKind;
use crate::full_source;
use crate::full_source::TestSuiteKind;
use crate::path;
use crate::text;
use crate::text_map;
use crate::tools::prompt;
use crate::tools::prompt::PromptFacts;
use crate::tools::steps;
use crate::tools::steps::{FinishStep, StepView};
use vstd::prelude::*;
use vstd::string::*;

verus! {

/// The agent's notes.
pub const CONFORM_NOTES: &'static str = "CONFORM.md";

/// The agent's final analysis of the gap between its own and the external tests.
pub const CONFORM_REPORT: &'static str = "CONFORM_REPORT.md";

/// The tool's configuration, read from `[tools.conform_agentic]`.
#[derive(Debug)]
pub struct Config {
    /// Override path for the conform prompt.
    pub prompt_conform: Option<String>,
    /// Agent timeout in seconds.
    pub timeout_secs: u64,
    /// Agent model; without one the agent uses its default.
    pub model: Option<String>,
    /// Extra environment variables for the agent process.
    pub env: Vec<(String, String)>,
    /// Destination of the benchmark's log.
    pub output_log_path: Option<String>,
    /// Directory where a read-only reference that the agent modified is kept for
    /// inspection.
    pub rejected_output_dir: Option<String>,
    /// The checkout that defines the Rust toolchain contract.
    pub test_corpus_root: Option<String>,
    /// Destination of the agent's notes.
    pub notes_output_path: Option<String>,
    /// Destination of the agent's gap analysis.
    pub report_output_path: Option<String>,
    /// Names of unrecognized fields.
    pub unknown: Vec<String>,
}

pub open spec fn quoted_dirs(dirs: Seq<Seq<char>>) -> Seq<Seq<char>> {
    dirs.map_values(|d: Seq<char>| "`"@ + d + "/`"@)
}

/// The suite's directories as a list of quoted names.
pub fn suite_dir_list(kind: TestSuiteKind) -> (r: String)
    ensures
        r@ == text::join_of(quoted_dirs(full_source::suite_dirs(kind)), ", "@),
{
    broadcast use text::group_texts;

    let dirs = kind.dirs();
    let ghost all = quoted_dirs(full_source::suite_dirs(kind));
    let mut quoted: Vec<String> = Vec::new();
    let mut i: usize = 0;
    while i < dirs.len()
        invariant
            i <= dirs@.len(),
            text::texts(dirs@) == full_source::suite_dirs(kind),
            all == quoted_dirs(full_source::suite_dirs(kind)),
            text::texts(quoted@) == all.take(i as int),
        decreases dirs@.len() - i,
    {
        assert(full_source::suite_dirs(kind)[i as int] == dirs@[i as int]@);
        let mut s = "`".to_owned();
        s.append(dirs[i].as_str());
        s.append("/`");
        assert(all.take(i + 1) =~= all.take(i as int).push(s@));
        quoted.push(s);
        i = i + 1;
    }
    assert(all.take(i as int) =~= all);
    text::join(&quoted, ", ")
}

/// How to build and run the external tests, with `{TC}` for the toolchain.
pub open spec fn instructions_for(kind: TestSuiteKind) -> Seq<char> {
    match kind {
        TestSuiteKind::Gtest => GTEST_INSTRUCTIONS@,
        TestSuiteKind::Lib => LIB_INSTRUCTIONS@,
        TestSuiteKind::Bin => BIN_INSTRUCTIONS@,
    }
}

/// How a GoogleTest suite is built and run.
pub const GTEST_INSTRUCTIONS: &'static str = "\
The external tests are a **GoogleTest suite** in `gtest_suite/`. The
grader builds your crate as a `cdylib`, then builds the suite against
that `.so` and runs **each test in its own process** (a crash or
timeout in one test never hides the others). Reproduce it exactly:

```bash
# 1. Build your crate as a cdylib (Cargo.toml must set crate-type = [\"cdylib\"]).
RUSTUP_TOOLCHAIN={TC} cargo build --release
#    The .so lands in target/release/lib<crate>.so

# 2. Configure + build the suite against YOUR freshly built library.
cmake -S gtest_suite -B target/gtest_build -DCMAKE_BUILD_TYPE=Release \\
-DTEST_LIB_PATH=$(pwd)/target/release/lib<crate>.so
cmake --build target/gtest_build -j

# 3. Enumerate tests (parameterized cases expand here).
LD_LIBRARY_PATH=$(pwd)/target/release \\
./target/gtest_build/harvest_gtest --gtest_list_tests

# 4. Run one test, in its own process, exactly like the grader.
LD_LIBRARY_PATH=$(pwd)/target/release \\
./target/gtest_build/harvest_gtest --gtest_filter='SuiteName.TestName'
```

Read the failing test's source under `gtest_suite/` to learn the
exact behavior it asserts, then trace back into `c_src/` for the
reference semantics. Some tests are heavy (tens of seconds) \u{2014} that is
not a hang. Every public symbol the C library exports must also be
exported by your crate, or the suite fails to link.";

/// How the vectors of a library are run.
pub const LIB_INSTRUCTIONS: &'static str = "\
The external tests use the **cando2 library runner** (`runner/` +
`test_vectors/`). The grader builds your crate as a `cdylib` and, for
each vector, runs the compiled runner with `RUST_ARTIFACTS=1` so it
loads YOUR `.so`. Reproduce it:

```bash
RUSTUP_TOOLCHAIN={TC} cargo build --release          # cdylib -> target/release/lib<crate>.so
RUSTUP_TOOLCHAIN={TC} cargo build --release --manifest-path runner/Cargo.toml
# Per vector (bare filename; cando2 prepends test_vectors/):
RUST_ARTIFACTS=1 LD_LIBRARY_PATH=$(pwd)/target/release \\
./runner/target/release/<runner-bin> -t $(pwd) -v <vector>.json --rust lib
```

A vector passes when the runner exits 0. Read `runner/src/main.rs`
and the vector JSON to see what state is compared, and `c_src/` for
the reference semantics.";

/// How the vectors of an executable are run.
pub const BIN_INSTRUCTIONS: &'static str = "\
The external tests are **executable/stdout** vectors in
`test_vectors/`. The grader builds the `driver` binary and, for each
vector, feeds `argv`/`stdin` and compares stdout to the expected
pattern. Reproduce it:

```bash
RUSTUP_TOOLCHAIN={TC} cargo build --release          # -> target/release/driver
./target/release/driver <argv...>  < <stdin>          # compare stdout to the vector
```

Each `test_vectors/*.json` gives `argv`, `stdin`, and the expected
`stdout`. Read `c_src/` for the reference behavior.";

/// How to build and run the external tests. This is what the grader does, so the
/// agent iterates against the same commands.
pub fn test_instructions(kind: TestSuiteKind, toolchain: &str) -> (r: String)
    ensures
        r@ == text::replace_of(instructions_for(kind), prompt::slot("TC"@), toolchain@),
{
    let template = match kind {
        TestSuiteKind::Gtest => GTEST_INSTRUCTIONS,
        TestSuiteKind::Lib => LIB_INSTRUCTIONS,
        TestSuiteKind::Bin => BIN_INSTRUCTIONS,
    };
    prompt::fill_slot(template, "TC", toolchain)
}

/// The read-only inputs of the stage: the C source and the suite.
pub open spec fn references_of(kind: TestSuiteKind) -> Seq<Seq<char>> {
    seq!["c_src"@] + full_source::suite_dirs(kind)
}

/// The directories whose edits are discarded. An agent that "passes" by editing
/// the tests is not rewarded for it.
pub fn references(kind: TestSuiteKind) -> (r: Vec<String>)
    ensures
        text::texts(r@) == references_of(kind),
{
    broadcast use text::group_texts;

    let dirs = kind.dirs();
    let ghost all = full_source::suite_dirs(kind);
    let mut out: Vec<String> = vec!["c_src".to_owned()];
    let mut i: usize = 0;
    assert(text::texts(out@) =~= seq!["c_src"@] + all.take(0));
    while i < dirs.len()
        invariant
            i <= dirs@.len(),
            text::texts(dirs@) == all,
            text::texts(out@) == seq!["c_src"@] + all.take(i as int),
        decreases dirs@.len() - i,
    {
        let d = dirs[i].clone();
        assert(all[i as int] == dirs@[i as int]@);
        assert(seq!["c_src"@] + all.take(i + 1) =~= (seq!["c_src"@] + all.take(i as int)).push(d@));
        out.push(d);
        i = i + 1;
    }
    assert(all.take(i as int) =~= all);
    out
}

/// What fills the slots of the conform prompt.
pub open spec fn fills_of(
    config: Config,
    agent: AgentKind,
    kind: TestSuiteKind,
    facts: PromptFacts,
) -> Seq<(Seq<char>, Seq<char>)> {
    seq![
        ("AGENT_BUG_WORKAROUNDS"@, phase::workarounds_for(agent, facts.claude)),
        (
            "CONFORM_TEST_INSTRUCTIONS"@,
            text::replace_of(
                instructions_for(kind),
                prompt::slot("TC"@),
                facts.required_version@,
            ),
        ),
        (
            "EXTERNAL_TEST_DIRS"@,
            text::join_of(quoted_dirs(full_source::suite_dirs(kind)), ", "@),
        ),
        ("RUST_TOOLCHAIN_CONTEXT"@, facts.toolchain_block@),
        ("WORKDIR_BOUNDARY"@, opencode::boundary_of(agent, facts.translated@)),
        (
            "MODEL_LIMITS"@,
            prompt::limits_text_of(agent, config.model is Some, facts.limits),
        ),
    ]
}

/// The conform prompt: the template with its slots filled.
pub fn build_prompt(
    template: &str,
    config: &Config,
    agent: AgentKind,
    kind: TestSuiteKind,
    facts: &PromptFacts,
) -> (r: String)
    ensures
        r@ == prompt::filled(template@, fills_of(*config, agent, kind, *facts)),
{
    let fills: Vec<(&'static str, String)> = vec![
        ("AGENT_BUG_WORKAROUNDS", phase::agent_bug_workarounds(agent, &facts.claude)),
        ("CONFORM_TEST_INSTRUCTIONS", test_instructions(kind, facts.required_version.as_str())),
        ("EXTERNAL_TEST_DIRS", suite_dir_list(kind)),
        ("RUST_TOOLCHAIN_CONTEXT", facts.toolchain_block.clone()),
        (
            "WORKDIR_BOUNDARY",
            opencode::render_workdir_boundary(agent, facts.translated.as_str()),
        ),
        ("MODEL_LIMITS", prompt::limits_text(agent, &config.model, &facts.limits)),
    ];
    assert(prompt::fill_views(fills@) =~= fills_of(*config, agent, kind, *facts));
    prompt::fill(template, &fills)
}

/// What the agent has left behind.
#[derive(Debug)]
pub struct ConformOutput {
    pub has_notes: bool,
    pub has_report: bool,
}

/// What follows the agent.
pub open spec fn finish_of(config: Config, translated: Seq<char>, output: ConformOutput) -> Seq<
    StepView,
> {
    steps::copy_out_of(output.has_notes, translated, CONFORM_NOTES@, config.notes_output_path)
        + steps::copy_out_of(
        output.has_report,
        translated,
        CONFORM_REPORT@,
        config.report_output_path,
    ) + (if output.has_report {
        seq![]
    } else {
        seq![
            StepView::Warn(
                "conform agent did not produce CONFORM_REPORT.md (internal-vs-external gap analysis missing)"@,
            ),
        ]
    }) + seq![
        StepView::RemoveHidden,
        StepView::StripReferences,
        StepView::RemoveDir(path::joined(translated, "target"@)),
        StepView::ReportSymlinks,
        StepView::Freeze,
    ]
}

/// The agentic conformance tool.
#[derive(Debug, Clone, Copy, PartialEq, Eq, Structural)]
pub struct ConformAgentic;

impl ConformAgentic {
    pub fn name(&self) -> (r: &'static str)
        ensures
            r@ == "conform_agentic"@,
    {
        "conform_agentic"
    }

    /// The invocation of the agent, in the directory of the translated project.
    pub fn invocation(
        &self,
        config: &Config,
        agent: AgentKind,
        template: &str,
        kind: TestSuiteKind,
        facts: &PromptFacts,
    ) -> (r: AgentInvocation)
        ensures
            r.phase == AgentPhase::Conform,
            r.agent == agent,
            r.work_dir@ == facts.translated@,
            r.prompt@ == prompt::filled(template@, fills_of(*config, agent, kind, *facts)),
            r.timeout_secs == config.timeout_secs,
            text::opt_text(r.model) == text::opt_text(config.model),
            !r.no_plan,
            !r.no_plan_file,
            text_map::pair_views(r.extra_env@) == text_map::pair_views(config.env@),
            text::opt_text(r.output_log_path) == text::opt_text(config.output_log_path),
            text::opt_text(r.rust_toolchain) == Some(facts.required_version@),
            r.claude.same_as(facts.claude),
    {
        AgentInvocation {
            phase: AgentPhase::Conform,
            agent,
            work_dir: facts.translated.clone(),
            prompt: build_prompt(template, config, agent, kind, facts),
            timeout_secs: config.timeout_secs,
            model: text::copy_opt(&config.model),
            no_plan: false,
            no_plan_file: false,
            extra_env: text_map::copy_pairs(&config.env),
            output_log_path: text::copy_opt(&config.output_log_path),
            rust_toolchain: Some(facts.required_version.clone()),
            claude: facts.claude.copy(),
        }
    }

    /// What follows the agent: its notes and its report are copied out, and the
    /// working directory is cleared of hidden files, the C source, the suite and
    /// build output before it becomes the result.
    pub fn finish(&self, config: &Config, translated: &str, output: &ConformOutput) -> (r: Vec<
        FinishStep,
    >)
        ensures
            steps::step_views(r@) == finish_of(*config, translated@, *output),
    {
        broadcast use steps::step_views_push;

        let mut out: Vec<FinishStep> = Vec::new();
        assert(steps::step_views(out@) =~= seq![]);
        steps::copy_out(
            &mut out,
            output.has_notes,
            translated,
            CONFORM_NOTES,
            &config.notes_output_path,
        );
        steps::copy_out(
            &mut out,
            output.has_report,
            translated,
            CONFORM_REPORT,
            &config.report_output_path,
        );
        if !output.has_report {
            out.push(
                FinishStep::Warn(
                    "conform agent did not produce CONFORM_REPORT.md (internal-vs-external gap analysis missing)".to_owned(),
                ),
            );
        }
        out.push(FinishStep::RemoveHidden);
        out.push(FinishStep::StripReferences);
        out.push(FinishStep::RemoveDir(path::join(translated, "target")));
        out.push(FinishStep::ReportSymlinks);
        out.push(FinishStep::Freeze);
        assert(steps::step_views(out@) =~= finish_of(*config, translated@, *output));
        out
    }
}

/// Every directory of the suite is a read-only input of the stage.
pub proof fn suite_is_guarded(kind: TestSuiteKind, name: Seq<char>)
    requires
        full_source::suite_dirs(kind).contains(name),
    ensures
        references_of(kind).contains(name),
{
    let i = choose|i: int|
        0 <= i < full_source::suite_dirs(kind).len() && full_source::suite_dirs(kind)[i] == name;
    assert(references_of(kind)[i + 1] == name);
}

} // verus!
