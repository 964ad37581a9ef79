//! Agentic verification: an external agent compiles and runs both the C and the
//! Rust implementation on generated inputs, compares their outputs and fixes the
//! Rust code until the two agree.

use crate::agent::opencode;
use crate::agent::phase;
use crate::agent::phase::{AgentInvocation, AgentPhase};
use crate::cmake_presets;
use crate::cmake_presets::TestConfig;
use crate::config::AgentKind;
use crate::path;
use crate::text;
use crate::text_map;
use crate::tools::compile_defs;
use crate::tools::prompt;
use crate::tools::prompt::{PromptFacts, PromptSource};
use crate::tools::steps;
use crate::tools::steps::{FinishStep, StepView};
use crate::tools::translate_agentic::WISHLIST_FILE;
use vstd::prelude::*;
use vstd::string::*;

verus! {

/// Comparison mechanism the verification prompt describes.
#[derive(Debug, Clone, Copy, PartialEq, Eq, Structural)]
pub enum VerifyHarness {
    /// C++ GoogleTest environment with the C reference linked in and the Rust
    /// translation loaded at run time.
    Gtest,
    /// The C library loaded from a Rust integration test.
    Libloading,
}

impl Default for VerifyHarness {
    fn default() -> (r: Self)
        ensures
            r == VerifyHarness::Gtest,
    {
        VerifyHarness::Gtest
    }
}

/// The tool's configuration, read from `[tools.verify_fix_agentic]`.
#[derive(Debug)]
pub struct Config {
    /// Override path for the Kiro verification prompt.
    pub prompt_kiro_verify: Option<String>,
    /// Override path for the standard verification prompt.
    pub prompt_verify: Option<String>,
    /// Agent timeout in seconds.
    pub timeout_secs: u64,
    /// Agent model; without one the agent uses its default.
    pub model: Option<String>,
    /// Use the prompt without hypothesis files and without sub-agent guidance.
    pub no_plan: bool,
    /// Use the prompt that keeps the sub-agent guidance but never mentions files
    /// to keep notes in. Mutually exclusive with `no_plan`.
    pub no_plan_file: bool,
    /// Ask the agent to use its multi-agent workflow.
    pub workflow: bool,
    pub verify_harness: VerifyHarness,
    /// With the GoogleTest harness: also describe FuzzTest and ship its
    /// scaffolding.
    pub fuzz: bool,
    /// Extra environment variables for the agent process.
    pub env: Vec<(String, String)>,
    /// Destination of the agent's tool wishlist.
    pub wishlist_output_path: Option<String>,
    /// Destination of the agent's hypotheses.
    pub hypotheses_output_path: Option<String>,
    /// Unix timestamp before which the verification does not start.
    pub wait_until: Option<u64>,
    /// Destination of the benchmark's log.
    pub output_log_path: Option<String>,
    /// Names of unrecognized fields.
    pub unknown: Vec<String>,
}

pub open spec fn harness_warnings_of(config: Config) -> Seq<Seq<char>> {
    (if config.fuzz && config.verify_harness != VerifyHarness::Gtest {
        seq![
            "tools.verify_fix_agentic: fuzz has no effect without verify_harness = gtest; ignoring"@,
        ]
    } else {
        seq![]
    }) + (if config.verify_harness == VerifyHarness::Gtest && (config.no_plan
        || config.no_plan_file) {
        seq![
            "tools.verify_fix_agentic: verify_harness = gtest is not applied under no_plan/no_plan_file (those prompts are libloading-only); using libloading"@,
        ]
    } else {
        seq![]
    })
}

impl Config {
    /// Warnings about settings that have no effect.
    pub fn harness_warnings(&self) -> (r: Vec<String>)
        ensures
            text::texts(r@) == harness_warnings_of(*self),
    {
        let mut out: Vec<String> = Vec::new();
        if self.fuzz && self.verify_harness != VerifyHarness::Gtest {
            out.push(
                "tools.verify_fix_agentic: fuzz has no effect without verify_harness = gtest; ignoring".to_owned(),
            );
        }
        if self.verify_harness == VerifyHarness::Gtest && (self.no_plan || self.no_plan_file) {
            out.push(
                "tools.verify_fix_agentic: verify_harness = gtest is not applied under no_plan/no_plan_file (those prompts are libloading-only); using libloading".to_owned(),
            );
        }
        assert(text::texts(out@) =~= harness_warnings_of(*self));
        out
    }

    /// How many seconds are left until the verification may start.
    pub fn wait_secs(&self, now: u64) -> (r: u64)
        ensures
            r == (match self.wait_until {
                Some(t) => if now < t {
                    t - now
                } else {
                    0
                },
                None => 0,
            }),
    {
        match self.wait_until {
            Some(t) => if now < t {
                t - now
            } else {
                0
            },
            None => 0,
        }
    }
}

// ── Prompt ───────────────────────────────────────────────────────────────

/// The prompts that are shipped, and the sections that are spliced into them.
#[derive(Debug)]
pub struct VerifyTemplates {
    pub kiro: String,
    pub standard: String,
    pub no_plan: String,
    pub no_plan_file: String,
    pub method_libloading: String,
    pub method_gtest: String,
    /// FuzzTest guidance for the GoogleTest method.
    pub fuzztest_section: String,
}

/// The section on the verification method.
pub open spec fn method_section_of(config: Config, t: VerifyTemplates) -> Seq<char> {
    match config.verify_harness {
        VerifyHarness::Gtest => text::replace_of(
            t.method_gtest@,
            "{FUZZTEST_SECTION}"@,
            if config.fuzz {
                t.fuzztest_section@
            } else {
                ""@
            },
        ),
        VerifyHarness::Libloading => t.method_libloading@,
    }
}

/// Builds the section on the verification method for the selected harness,
/// splicing in the FuzzTest guidance when fuzzing is enabled.
pub fn build_method_section(config: &Config, t: &VerifyTemplates) -> (r: String)
    ensures
        r@ == method_section_of(*config, *t),
{
    match config.verify_harness {
        VerifyHarness::Gtest => {
            let section = if config.fuzz {
                t.fuzztest_section.as_str()
            } else {
                ""
            };
            proof {
                reveal_strlit("{FUZZTEST_SECTION}");
            }
            text::replace(t.method_gtest.as_str(), "{FUZZTEST_SECTION}", section)
        },
        VerifyHarness::Libloading => t.method_libloading.clone(),
    }
}

/// The shipped template that applies. The prompts without plans know one method
/// only; the choice of a harness applies to the standard prompt.
pub open spec fn builtin_of(config: Config, agent: AgentKind, t: VerifyTemplates) -> Seq<char> {
    match agent {
        AgentKind::Kiro => t.kiro@,
        AgentKind::Claude | AgentKind::OpenCode => if config.no_plan {
            t.no_plan@
        } else if config.no_plan_file {
            t.no_plan_file@
        } else {
            text::replace_of(
                t.standard@,
                "{VERIFICATION_METHOD}"@,
                method_section_of(config, t),
            )
        },
    }
}

pub open spec fn override_of(config: Config, agent: AgentKind) -> Option<String> {
    match agent {
        AgentKind::Kiro => config.prompt_kiro_verify,
        AgentKind::Claude | AgentKind::OpenCode => config.prompt_verify,
    }
}

/// Selects the verification prompt. A configured path comes before what is
/// shipped.
pub fn load_verify_prompt(config: &Config, agent: AgentKind, t: &VerifyTemplates) -> (r:
    PromptSource<String>)
    ensures
        (match override_of(*config, agent) {
            Some(p) => r matches PromptSource::File(f) && f@ == p@,
            None => r matches PromptSource::Builtin(s) && s@ == builtin_of(*config, agent, *t),
        }),
{
    match agent {
        AgentKind::Kiro => match &config.prompt_kiro_verify {
            Some(p) => PromptSource::File(p.clone()),
            None => PromptSource::Builtin(t.kiro.clone()),
        },
        AgentKind::Claude | AgentKind::OpenCode => match &config.prompt_verify {
            Some(p) => PromptSource::File(p.clone()),
            None => if config.no_plan {
                PromptSource::Builtin(t.no_plan.clone())
            } else if config.no_plan_file {
                PromptSource::Builtin(t.no_plan_file.clone())
            } else {
                let section = build_method_section(config, t);
                proof {
                    reveal_strlit("{VERIFICATION_METHOD}");
                }
                PromptSource::Builtin(
                    text::replace(t.standard.as_str(), "{VERIFICATION_METHOD}", section.as_str()),
                )
            },
        },
    }
}

/// The block that lists the configurations to verify.
pub open spec fn configurations_of(config: TestConfig) -> Seq<char> {
    if config.is_blank() {
        ""@
    } else {
        "Configurations to verify:\n"@ + cmake_presets::bullet_of(
            config.cmake_flags@,
            text::texts(config.cargo_features@),
        )
    }
}

/// The block that lists the configurations to verify. Empty when there are no
/// project knobs to switch.
pub fn render_configurations(config: &TestConfig) -> (r: String)
    ensures
        r@ == configurations_of(*config),
{
    if config.is_empty() {
        return "".to_owned();
    }
    let mut s = "Configurations to verify:\n".to_owned();
    s.append(config.as_markdown_bullet().as_str());
    s
}

/// What fills the slots of the verification prompt. Kiro runs in the case
/// directory and is told where that is.
pub open spec fn fills_of(
    config: Config,
    agent: AgentKind,
    case_dir: Seq<char>,
    test_config: TestConfig,
    facts: PromptFacts,
) -> Seq<(Seq<char>, Seq<char>)> {
    seq![
        ("AGENT_BUG_WORKAROUNDS"@, phase::workarounds_for(agent, facts.claude)),
        ("CMAKE_BUILD_FLAGS"@, test_config.cmake_flags@),
        ("ALL_CONFIGURATIONS"@, configurations_of(test_config)),
        ("WISHLIST_PATH"@, path::joined(facts.translated@, WISHLIST_FILE@)),
        (
            "AGENT_TOOLS_SECTION"@,
            prompt::tools_section_of(
                "---\n\n## Available Tools\n\n"@,
                "\n\n"@,
                path::joined(facts.translated@, "agent_tools"@),
                text::opt_text(facts.tool_docs),
            ),
        ),
        ("RUST_TOOLCHAIN_CONTEXT"@, facts.toolchain_block@),
        ("WORKDIR_BOUNDARY"@, opencode::boundary_of(agent, facts.translated@)),
        ("WORKFLOW_HINT"@, prompt::workflow_hint_of(config.workflow, agent)),
        (
            "MODEL_LIMITS"@,
            prompt::limits_text_of(agent, config.model is Some, facts.limits),
        ),
    ] + if agent == AgentKind::Kiro {
        seq![("CASE_DIR"@, case_dir)]
    } else {
        seq![]
    }
}

/// The verification prompt: the template with its slots filled.
pub fn build_prompt(
    template: &str,
    config: &Config,
    agent: AgentKind,
    case_dir: &str,
    test_config: &TestConfig,
    facts: &PromptFacts,
) -> (r: String)
    ensures
        r@ == prompt::filled(
            template@,
            fills_of(*config, agent, case_dir@, *test_config, *facts),
        ),
{
    let translated = facts.translated.as_str();
    let tools_dir = path::join(translated, "agent_tools");
    let mut fills: Vec<(&'static str, String)> = vec![
        ("AGENT_BUG_WORKAROUNDS", phase::agent_bug_workarounds(agent, &facts.claude)),
        ("CMAKE_BUILD_FLAGS", test_config.cmake_flags.clone()),
        ("ALL_CONFIGURATIONS", render_configurations(test_config)),
        ("WISHLIST_PATH", path::join(translated, WISHLIST_FILE)),
        (
            "AGENT_TOOLS_SECTION",
            prompt::tools_section(
                "---\n\n## Available Tools\n\n",
                "\n\n",
                tools_dir.as_str(),
                &facts.tool_docs,
            ),
        ),
        ("RUST_TOOLCHAIN_CONTEXT", facts.toolchain_block.clone()),
        ("WORKDIR_BOUNDARY", opencode::render_workdir_boundary(agent, translated)),
        ("WORKFLOW_HINT", prompt::workflow_hint(config.workflow, agent)),
        ("MODEL_LIMITS", prompt::limits_text(agent, &config.model, &facts.limits)),
    ];
    if agent == AgentKind::Kiro {
        fills.push(("CASE_DIR", case_dir.to_owned()));
    }
    assert(prompt::fill_views(fills@) =~= fills_of(
        *config,
        agent,
        case_dir@,
        *test_config,
        *facts,
    ));
    prompt::fill(template, &fills)
}

// ── The verification environment ─────────────────────────────────────────

/// Directory inside the working directory that holds the verification
/// environment of the GoogleTest harness.
pub const VERIFY_ENV_DIR: &'static str = "verify_env";

/// The FuzzTest release that fits the pinned GoogleTest.
pub const FUZZTEST_GIT_TAG: &'static str = "2026-06-29";

/// Whether the agent gets the verification environment: the harness is in effect
/// only with the standard prompt, which Kiro does not have.
pub open spec fn gets_environment(config: Config, agent: AgentKind) -> bool {
    config.verify_harness == VerifyHarness::Gtest && !config.no_plan && !config.no_plan_file
        && agent != AgentKind::Kiro
}

pub fn gtest_harness_active(config: &Config, agent: AgentKind) -> (r: bool)
    ensures
        r == gets_environment(*config, agent),
{
    config.verify_harness == VerifyHarness::Gtest && !config.no_plan && !config.no_plan_file
        && agent != AgentKind::Kiro
}

/// The files of the verification environment as they are shipped.
#[derive(Debug)]
pub struct EnvTemplates {
    pub cmakelists: String,
    pub tests_cc: String,
    pub diff_h: String,
    pub rust_lib_h: String,
    pub readme: String,
    pub build_sh: String,
    pub build_fuzz_sh: String,
    /// FuzzTest reference documents: names and contents.
    pub docs: Vec<(String, String)>,
}

/// What fills the slots of the environment's `CMakeLists.txt`.
pub open spec fn cmake_fills(fuzz: bool, c_defs: Seq<char>) -> Seq<(Seq<char>, Seq<char>)> {
    seq![
        (
            "FUZZTEST_DECLARE"@,
            if fuzz {
                "FetchContent_Declare(\n  fuzztest\n  GIT_REPOSITORY https://github.com/google/fuzztest.git\n  GIT_TAG        "@
                    + FUZZTEST_GIT_TAG@ + "\n)\n"@
            } else {
                ""@
            },
        ),
        (
            "FUZZTEST_MAKEAVAIL"@,
            if fuzz {
                " fuzztest"@
            } else {
                ""@
            },
        ),
        (
            "FUZZTEST_SETUP_FLAGS"@,
            if fuzz {
                FUZZ_SETUP@
            } else {
                ""@
            },
        ),
        (
            "TEST_LINK"@,
            if fuzz {
                "link_fuzztest(verification_tests)"@
            } else {
                "target_link_libraries(verification_tests PRIVATE GTest::gtest_main)"@
            },
        ),
        ("C_COMPILE_DEFS"@, c_defs),
    ]
}

/// Fuzzing instrumentation is enabled after the frameworks are configured, so
/// that they are not instrumented themselves.
pub const FUZZ_SETUP: &'static str = "\n# Enable fuzzing instrumentation AFTER the frameworks are configured, so\n# gtest/fuzztest/abseil are not themselves instrumented — only what follows.\nfuzztest_setup_fuzzing_flags()\n";

fn pick(cond: bool, a: &str, b: &str) -> (r: String)
    ensures
        r@ == (if cond {
            a@
        } else {
            b@
        }),
{
    if cond {
        a.to_owned()
    } else {
        b.to_owned()
    }
}

/// The definitions that the project's own `CMakeLists.txt` makes, if there is
/// one.
pub open spec fn c_defs_of(project_cmake: Option<&str>) -> Seq<char> {
    match project_cmake {
        Some(s) => text::join_of(compile_defs::defs_in(s@, seq![]), " "@),
        None => ""@,
    }
}

/// The `CMakeLists.txt` of the verification environment, filled for the requested
/// mode and with the C definitions of the project.
pub fn environment_cmake(template: &str, fuzz: bool, project_cmake: Option<&str>) -> (r: String)
    ensures
        r@ == prompt::filled(template@, cmake_fills(fuzz, c_defs_of(project_cmake))),
{
    let c_defs = match project_cmake {
        Some(s) => compile_defs::parse_c_compile_defs(s),
        None => "".to_owned(),
    };
    let mut declare =
        "FetchContent_Declare(\n  fuzztest\n  GIT_REPOSITORY https://github.com/google/fuzztest.git\n  GIT_TAG        ".to_owned();
    declare.append(FUZZTEST_GIT_TAG);
    declare.append("\n)\n");
    let fills: Vec<(&'static str, String)> = vec![
        ("FUZZTEST_DECLARE", pick(fuzz, declare.as_str(), "")),
        ("FUZZTEST_MAKEAVAIL", pick(fuzz, " fuzztest", "")),
        ("FUZZTEST_SETUP_FLAGS", pick(fuzz, FUZZ_SETUP, "")),
        (
            "TEST_LINK",
            pick(
                fuzz,
                "link_fuzztest(verification_tests)",
                "target_link_libraries(verification_tests PRIVATE GTest::gtest_main)",
            ),
        ),
        ("C_COMPILE_DEFS", c_defs),
    ];
    assert(prompt::fill_views(fills@) =~= cmake_fills(fuzz, c_defs_of(project_cmake)));
    prompt::fill(template, &fills)
}

/// A file to write, and whether it is made executable.
#[derive(Debug)]
pub struct EnvFile {
    pub path: String,
    pub contents: String,
    pub executable: bool,
}

pub struct EnvFileView {
    pub path: Seq<char>,
    pub contents: Seq<char>,
    pub executable: bool,
}

impl EnvFile {
    pub open spec fn view(&self) -> EnvFileView {
        EnvFileView {
            path: self.path@,
            contents: self.contents@,
            executable: self.executable,
        }
    }
}

pub open spec fn env_file_views(v: Seq<EnvFile>) -> Seq<EnvFileView> {
    v.map_values(|f: EnvFile| f.view())
}

pub broadcast proof fn env_file_views_push(v: Seq<EnvFile>, f: EnvFile)
    ensures
        #[trigger] env_file_views(v.push(f)) == env_file_views(v).push(f.view()),
{
    assert(env_file_views(v.push(f)) =~= env_file_views(v).push(f.view()));
}

pub open spec fn env_file_of(
    dir: Seq<char>,
    name: Seq<char>,
    contents: Seq<char>,
    executable: bool,
) -> EnvFileView {
    EnvFileView { path: path::joined(dir, name), contents, executable }
}

pub open spec fn doc_files(dir: Seq<char>, docs: Seq<(Seq<char>, Seq<char>)>) -> Seq<EnvFileView> {
    docs.map_values(|d: (Seq<char>, Seq<char>)| env_file_of(dir, d.0, d.1, false))
}

/// The files of the verification environment.
pub open spec fn environment_of(
    translated: Seq<char>,
    fuzz: bool,
    project_cmake: Option<&str>,
    t: EnvTemplates,
) -> Seq<EnvFileView> {
    let dir = path::joined(translated, VERIFY_ENV_DIR@);
    seq![
        env_file_of(
            dir,
            "CMakeLists.txt"@,
            prompt::filled(t.cmakelists@, cmake_fills(fuzz, c_defs_of(project_cmake))),
            false,
        ),
        env_file_of(dir, "verification_tests.cc"@, t.tests_cc@, false),
        env_file_of(dir, "harvest_diff.h"@, t.diff_h@, false),
        env_file_of(dir, "rust_lib.h"@, t.rust_lib_h@, false),
        env_file_of(dir, "README.md"@, t.readme@, false),
        env_file_of(dir, "build.sh"@, t.build_sh@, true),
    ] + if fuzz {
        seq![env_file_of(dir, "build_fuzz.sh"@, t.build_fuzz_sh@, true)] + doc_files(
            path::joined(dir, "docs"@),
            text_map::pair_views(t.docs@),
        )
    } else {
        seq![]
    }
}

fn env_file(dir: &str, name: &str, contents: &str, executable: bool) -> (r: EnvFile)
    ensures
        r.view() == env_file_of(dir@, name@, contents@, executable),
{
    EnvFile { path: path::join(dir, name), contents: contents.to_owned(), executable }
}

/// The files of the verification environment, in the order in which they are
/// written. What FuzzTest needs comes only when fuzzing is enabled.
pub fn materialize_verify_env(
    translated: &str,
    project_cmake: Option<&str>,
    fuzz: bool,
    t: &EnvTemplates,
) -> (r: Vec<EnvFile>)
    ensures
        env_file_views(r@) == environment_of(translated@, fuzz, project_cmake, *t),
{
    broadcast use env_file_views_push;

    let dir = path::join(translated, VERIFY_ENV_DIR);
    let d = dir.as_str();
    let cmake = environment_cmake(t.cmakelists.as_str(), fuzz, project_cmake);
    let mut out: Vec<EnvFile> = vec![
        env_file(d, "CMakeLists.txt", cmake.as_str(), false),
        env_file(d, "verification_tests.cc", t.tests_cc.as_str(), false),
        env_file(d, "harvest_diff.h", t.diff_h.as_str(), false),
        env_file(d, "rust_lib.h", t.rust_lib_h.as_str(), false),
        env_file(d, "README.md", t.readme.as_str(), false),
        env_file(d, "build.sh", t.build_sh.as_str(), true),
    ];
    let ghost base = env_file_views(out@);
    if fuzz {
        out.push(env_file(d, "build_fuzz.sh", t.build_fuzz_sh.as_str(), true));
        let docs_dir = path::join(d, "docs");
        let ghost start = env_file_views(out@);
        let ghost docs = doc_files(docs_dir@, text_map::pair_views(t.docs@));
        let mut i: usize = 0;
        assert(start + docs.take(0) =~= start);
        while i < t.docs.len()
            invariant
                i <= t.docs@.len(),
                docs == doc_files(docs_dir@, text_map::pair_views(t.docs@)),
                env_file_views(out@) == start + docs.take(i as int),
            decreases t.docs@.len() - i,
        {
            let f = env_file(docs_dir.as_str(), t.docs[i].0.as_str(), t.docs[i].1.as_str(), false);
            assert(f.view() == docs[i as int]);
            assert(start + docs.take(i + 1) =~= (start + docs.take(i as int)).push(f.view()));
            out.push(f);
            i = i + 1;
        }
        assert(docs.take(i as int) =~= docs);
        assert(start =~= base.push(
            env_file_of(d@, "build_fuzz.sh"@, t.build_fuzz_sh@, true),
        ));
    }
    assert(env_file_views(out@) =~= environment_of(translated@, fuzz, project_cmake, *t));
    out
}

/// Which directories of the verification environment hold build output.
pub open spec fn build_dirs_of(entries: Seq<(Seq<char>, bool)>) -> Seq<Seq<char>>
    decreases entries.len(),
{
    if entries.len() == 0 {
        seq![]
    } else {
        let before = build_dirs_of(entries.drop_last());
        if entries.last().1 && text::has_prefix(entries.last().0, "build-"@) {
            before.push(entries.last().0)
        } else {
            before
        }
    }
}

pub open spec fn entry_views(v: Seq<(String, bool)>) -> Seq<(Seq<char>, bool)> {
    v.map_values(|e: (String, bool)| (e.0@, e.1))
}

/// The build output directories among the entries of the verification
/// environment, each with whether it is a directory. They hold fetched sources
/// and symlinks; only what the agent wrote is kept.
pub fn strip_build_dirs(entries: &Vec<(String, bool)>) -> (r: Vec<String>)
    ensures
        text::texts(r@) == build_dirs_of(entry_views(entries@)),
{
    broadcast use text::group_texts;

    let ghost all = entry_views(entries@);
    let mut out: Vec<String> = Vec::new();
    let mut i: usize = 0;
    assert(all.take(0) =~= seq![]);
    assert(text::texts(out@) =~= seq![]);
    while i < entries.len()
        invariant
            i <= entries@.len(),
            all == entry_views(entries@),
            text::texts(out@) == build_dirs_of(all.take(i as int)),
        decreases entries@.len() - i,
    {
        assert(all.take(i + 1).drop_last() =~= all.take(i as int));
        assert(all.take(i + 1).last() == (entries@[i as int].0@, entries@[i as int].1));
        if entries[i].1 && text::starts_with(entries[i].0.as_str(), "build-") {
            let name = entries[i].0.clone();
            out.push(name);
        }
        i = i + 1;
    }
    assert(all.take(i as int) =~= all);
    out
}

// ── After the agent ──────────────────────────────────────────────────────

/// The wishlist of both phases, in chronological order.
pub fn merge_wishlists(existing: Option<&str>, new_entries: &str) -> (r: String)
    ensures
        r@ == (match existing {
            Some(e) => e@ + new_entries@,
            None => new_entries@,
        }),
{
    match existing {
        Some(e) => {
            let mut s = e.to_owned();
            s.append(new_entries);
            s
        },
        None => new_entries.to_owned(),
    }
}

/// What the agent has left behind.
#[derive(Debug)]
pub struct VerifyOutput {
    pub has_wishlist: bool,
    pub has_hypotheses: bool,
}

/// What follows the agent.
pub open spec fn finish_of(config: Config, translated: Seq<char>, output: VerifyOutput) -> Seq<
    StepView,
> {
    (match config.wishlist_output_path {
        Some(d) => if output.has_wishlist {
            seq![StepView::AppendOut(path::joined(translated, WISHLIST_FILE@), d@)]
        } else {
            seq![]
        },
        None => seq![],
    }) + steps::copy_out_of(
        output.has_hypotheses,
        translated,
        "HYPOTHESES.md"@,
        config.hypotheses_output_path,
    ) + seq![
        StepView::RemoveHidden,
        StepView::RemoveDir(path::joined(translated, "c_src"@)),
        StepView::RemoveDir(path::joined(translated, "target"@)),
        StepView::StripBuildDirs(path::joined(translated, VERIFY_ENV_DIR@)),
        StepView::ReportSymlinks,
        StepView::Freeze,
    ]
}

/// The agentic verification tool.
#[derive(Debug, Clone, Copy, PartialEq, Eq, Structural)]
pub struct VerifyFixAgentic;

impl VerifyFixAgentic {
    pub fn name(&self) -> (r: &'static str)
        ensures
            r@ == "verify_fix_agentic"@,
    {
        "verify_fix_agentic"
    }

    /// Checks the configuration and selects the template.
    pub fn start(&self, config: &Config, agent: AgentKind, t: &VerifyTemplates) -> (r: Result<
        PromptSource<String>,
        String,
    >)
        ensures
            (match r {
                Ok(source) => {
                    &&& !(config.no_plan && config.no_plan_file)
                    &&& match override_of(*config, agent) {
                        Some(p) => source matches PromptSource::File(f) && f@ == p@,
                        None => source matches PromptSource::Builtin(s) && s@ == builtin_of(
                            *config,
                            agent,
                            *t,
                        ),
                    }
                },
                Err(e) => config.no_plan && config.no_plan_file && e@
                    == "tools."@ + "verify_fix_agentic"@
                    + ": no_plan and no_plan_file are mutually exclusive"@,
            }),
    {
        match prompt::check_plan_modes("verify_fix_agentic", config.no_plan, config.no_plan_file) {
            Err(e) => Err(e),
            Ok(_) => Ok(load_verify_prompt(config, agent, t)),
        }
    }

    /// The invocation of the agent. Kiro runs in the case directory, the others
    /// in the translated project.
    pub fn invocation(
        &self,
        config: &Config,
        agent: AgentKind,
        template: &str,
        case_dir: &str,
        test_config: &TestConfig,
        facts: &PromptFacts,
    ) -> (r: AgentInvocation)
        ensures
            r.phase == AgentPhase::Verify,
            r.agent == agent,
            r.work_dir@ == (if agent == AgentKind::Kiro {
                case_dir@
            } else {
                facts.translated@
            }),
            r.prompt@ == prompt::filled(
                template@,
                fills_of(*config, agent, case_dir@, *test_config, *facts),
            ),
            r.timeout_secs == config.timeout_secs,
            text::opt_text(r.model) == text::opt_text(config.model),
            r.no_plan == config.no_plan,
            r.no_plan_file == config.no_plan_file,
            text_map::pair_views(r.extra_env@) == text_map::pair_views(config.env@),
            text::opt_text(r.output_log_path) == text::opt_text(config.output_log_path),
            text::opt_text(r.rust_toolchain) == Some(facts.required_version@),
            r.claude.same_as(facts.claude),
    {
        AgentInvocation {
            phase: AgentPhase::Verify,
            agent,
            work_dir: if agent == AgentKind::Kiro {
                case_dir.to_owned()
            } else {
                facts.translated.clone()
            },
            prompt: build_prompt(template, config, agent, case_dir, test_config, facts),
            timeout_secs: config.timeout_secs,
            model: text::copy_opt(&config.model),
            no_plan: config.no_plan,
            no_plan_file: config.no_plan_file,
            extra_env: text_map::copy_pairs(&config.env),
            output_log_path: text::copy_opt(&config.output_log_path),
            rust_toolchain: Some(facts.required_version.clone()),
            claude: facts.claude.copy(),
        }
    }

    /// What follows the agent: what it wrote for later goes out, and the working
    /// directory is cleared of hidden files, the C source and build output before
    /// it becomes the result. The verification environment is kept, without its
    /// build directories.
    pub fn finish(&self, config: &Config, translated: &str, output: &VerifyOutput) -> (r: Vec<
        FinishStep,
    >)
        ensures
            steps::step_views(r@) == finish_of(*config, translated@, *output),
    {
        broadcast use steps::step_views_push;

        let mut out: Vec<FinishStep> = Vec::new();
        assert(steps::step_views(out@) =~= seq![]);
        if let Some(d) = &config.wishlist_output_path {
            if output.has_wishlist {
                out.push(FinishStep::AppendOut(path::join(translated, WISHLIST_FILE), d.clone()));
            }
        }
        steps::copy_out(
            &mut out,
            output.has_hypotheses,
            translated,
            "HYPOTHESES.md",
            &config.hypotheses_output_path,
        );
        out.push(FinishStep::RemoveHidden);
        out.push(FinishStep::RemoveDir(path::join(translated, "c_src")));
        out.push(FinishStep::RemoveDir(path::join(translated, "target")));
        out.push(FinishStep::StripBuildDirs(path::join(translated, VERIFY_ENV_DIR)));
        out.push(FinishStep::ReportSymlinks);
        out.push(FinishStep::Freeze);
        assert(steps::step_views(out@) =~= finish_of(*config, translated@, *output));
        out
    }
}

/// The agent gets the verification environment exactly when its prompt is the
/// standard one with the GoogleTest method.
pub proof fn environment_matches_prompt(config: Config, agent: AgentKind, t: VerifyTemplates)
    requires
        gets_environment(config, agent),
    ensures
        builtin_of(config, agent, t) == text::replace_of(
            t.standard@,
            "{VERIFICATION_METHOD}"@,
            text::replace_of(
                t.method_gtest@,
                "{FUZZTEST_SECTION}"@,
                if config.fuzz {
                    t.fuzztest_section@
                } else {
                    ""@
                },
            ),
        ),
{
}

} // verus!
