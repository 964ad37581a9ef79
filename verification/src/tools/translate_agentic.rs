//! Agentic translation: an external agent turns a C project into a Cargo
//! package, whose manifest is then fitted to what the later tools expect.

use crate::agent::opencode;
use crate::agent::phase;
use crate::agent::phase::{AgentInvocation, AgentPhase};
use crate::config::AgentKind;
use crate::path;
use crate::text;
use crate::text_map;
use crate::tools::prompt;
use crate::tools::prompt::{PromptFacts, PromptSource};
use crate::tools::steps;
use crate::tools::steps::{FinishStep, StepView};
use vstd::prelude::*;
use vstd::string::*;

verus! {

/// What kind of project is translated.
#[derive(Debug, Clone, Copy, PartialEq, Eq, Structural)]
pub enum ProjectKind {
    Executable,
    Library,
    /// Both a library and an executable, with build configurations.
    Configurable,
}

/// The prompts that are shipped.
#[derive(Debug, Clone, Copy, PartialEq, Eq, Structural)]
pub enum TranslatePrompt {
    KiroExecutable,
    KiroLibrary,
    KiroConfigurable,
    Standard,
    NoPlan,
    NoPlanFile,
}

/// The tool's configuration, read from `[tools.translate_agentic]`.
#[derive(Debug)]
pub struct Config {
    /// Override path for the Kiro executable translation prompt.
    pub prompt_kiro_executable: Option<String>,
    /// Override path for the Kiro library translation prompt.
    pub prompt_kiro_library: Option<String>,
    /// Override path for the Kiro configurable translation prompt.
    pub prompt_kiro_configurable: Option<String>,
    /// Override path for the standard unified translation prompt.
    pub prompt_translate: Option<String>,
    /// Agent timeout in seconds.
    pub timeout_secs: u64,
    /// Agent model; without one the agent uses its default.
    pub model: Option<String>,
    /// Use the prompt without plan files and without sub-agent guidance.
    pub no_plan: bool,
    /// Use the prompt that keeps the sub-agent guidance but never mentions plan
    /// files. Mutually exclusive with `no_plan`.
    pub no_plan_file: bool,
    /// Ask the agent to use its multi-agent workflow.
    pub workflow: bool,
    /// Extra environment variables for the agent process.
    pub env: Vec<(String, String)>,
    /// Destination of the agent's tool wishlist.
    pub wishlist_output_path: Option<String>,
    /// Destination of the translate-phase plan.
    pub plan_output_path: Option<String>,
    /// Destination of the benchmark's log.
    pub output_log_path: Option<String>,
    /// Directory where a read-only reference that the agent modified is kept for
    /// inspection.
    pub rejected_output_dir: Option<String>,
    /// The checkout that defines the Rust toolchain contract.
    pub test_corpus_root: Option<String>,
    /// Names of unrecognized fields.
    pub unknown: Vec<String>,
}

pub const DEFAULT_TIMEOUT_SECS: u64 = 36000;

pub const WISHLIST_FILE: &'static str = "tool_wishlist.json";

pub const PLAN_FILE: &'static str = "PLAN.md";

/// Which template applies, and whether it was overridden.
pub open spec fn source_of(config: Config, kind: ProjectKind, agent: AgentKind) -> (
    Option<String>,
    TranslatePrompt,
) {
    match agent {
        AgentKind::Claude | AgentKind::OpenCode => (
            config.prompt_translate,
            if config.no_plan {
                TranslatePrompt::NoPlan
            } else if config.no_plan_file {
                TranslatePrompt::NoPlanFile
            } else {
                TranslatePrompt::Standard
            },
        ),
        AgentKind::Kiro => match kind {
            ProjectKind::Executable => (
                config.prompt_kiro_executable,
                TranslatePrompt::KiroExecutable,
            ),
            ProjectKind::Library => (config.prompt_kiro_library, TranslatePrompt::KiroLibrary),
            ProjectKind::Configurable => (
                config.prompt_kiro_configurable,
                TranslatePrompt::KiroConfigurable,
            ),
        },
    }
}

/// Selects the translate prompt: per project kind for Kiro, unified for the
/// others. A configured path comes before what is shipped.
pub fn load_prompt(config: &Config, kind: ProjectKind, agent: AgentKind) -> (r: PromptSource<
    TranslatePrompt,
>)
    ensures
        ({
            let (path, builtin) = source_of(*config, kind, agent);
            match path {
                Some(p) => r matches PromptSource::File(f) && f@ == p@,
                None => r == PromptSource::<TranslatePrompt>::Builtin(builtin),
            }
        }),
{
    let (path, builtin) = match agent {
        AgentKind::Claude | AgentKind::OpenCode => (
            &config.prompt_translate,
            if config.no_plan {
                TranslatePrompt::NoPlan
            } else if config.no_plan_file {
                TranslatePrompt::NoPlanFile
            } else {
                TranslatePrompt::Standard
            },
        ),
        AgentKind::Kiro => match kind {
            ProjectKind::Executable => (
                &config.prompt_kiro_executable,
                TranslatePrompt::KiroExecutable,
            ),
            ProjectKind::Library => (&config.prompt_kiro_library, TranslatePrompt::KiroLibrary),
            ProjectKind::Configurable => (
                &config.prompt_kiro_configurable,
                TranslatePrompt::KiroConfigurable,
            ),
        },
    };
    match path {
        Some(p) => PromptSource::File(p.clone()),
        None => PromptSource::Builtin(builtin),
    }
}

/// What fills the slots of the translate prompt.
pub open spec fn fills_of(config: Config, agent: AgentKind, facts: PromptFacts) -> Seq<
    (Seq<char>, Seq<char>),
> {
    seq![
        ("AGENT_BUG_WORKAROUNDS"@, phase::workarounds_for(agent, facts.claude)),
        ("WISHLIST_PATH"@, path::joined(facts.translated@, WISHLIST_FILE@)),
        (
            "AGENT_TOOLS_SECTION"@,
            prompt::tools_section_of(
                "### Available Tools\n\n"@,
                "\n"@,
                path::joined(facts.translated@, "agent_tools"@),
                text::opt_text(facts.tool_docs),
            ),
        ),
        ("RUST_TOOLCHAIN_CONTEXT"@, facts.toolchain_block@),
        ("WORKDIR_BOUNDARY"@, opencode::boundary_of(agent, facts.translated@)),
        ("WORKFLOW_HINT"@, prompt::workflow_hint_of(config.workflow, agent)),
        (
            "MODEL_LIMITS"@,
            prompt::limits_text_of(agent, config.model is Some, facts.limits),
        ),
    ]
}

/// The translate prompt: the template with its slots filled.
pub fn build_prompt(
    template: &str,
    config: &Config,
    agent: AgentKind,
    facts: &PromptFacts,
) -> (r: String)
    ensures
        r@ == prompt::filled(template@, fills_of(*config, agent, *facts)),
{
    let translated = facts.translated.as_str();
    let tools_dir = path::join(translated, "agent_tools");
    let fills: Vec<(&'static str, String)> = vec![
        ("AGENT_BUG_WORKAROUNDS", phase::agent_bug_workarounds(agent, &facts.claude)),
        ("WISHLIST_PATH", path::join(translated, WISHLIST_FILE)),
        (
            "AGENT_TOOLS_SECTION",
            prompt::tools_section(
                "### Available Tools\n\n",
                "\n",
                tools_dir.as_str(),
                &facts.tool_docs,
            ),
        ),
        ("RUST_TOOLCHAIN_CONTEXT", facts.toolchain_block.clone()),
        ("WORKDIR_BOUNDARY", opencode::render_workdir_boundary(agent, translated)),
        ("WORKFLOW_HINT", prompt::workflow_hint(config.workflow, agent)),
        ("MODEL_LIMITS", prompt::limits_text(agent, &config.model, &facts.limits)),
    ];
    assert(prompt::fill_views(fills@) =~= fills_of(*config, agent, *facts));
    prompt::fill(template, &fills)
}

/// What the agent has left behind.
#[derive(Debug)]
pub struct TranslateOutput {
    pub has_wishlist: bool,
    pub has_plan: bool,
    pub has_manifest: bool,
    /// The package name in the manifest.
    pub package_name: Option<String>,
}

/// How the manifest is fitted to the project kind.
pub open spec fn manifest_edits(kind: ProjectKind, package_name: Option<Seq<char>>) -> Seq<StepView> {
    seq![StepView::AddWorkspace] + match kind {
        ProjectKind::Library => seq![StepView::RemoveBin] + (match package_name {
            Some(n) => seq![StepView::SetLib(n)],
            None => seq![],
        }) + seq![StepView::SaveManifest, StepView::StripForLib],
        ProjectKind::Executable => seq![StepView::SetBinDriver, StepView::SaveManifest],
        ProjectKind::Configurable => seq![StepView::SaveManifest],
    }
}

/// Plans the edits of the manifest. The agent is told to give a configurable
/// project both its targets, so there only the workspace is added.
fn post_process(steps: &mut Vec<FinishStep>, kind: ProjectKind, package_name: &Option<String>)
    ensures
        steps::step_views(final(steps)@) == steps::step_views(old(steps)@) + manifest_edits(
            kind,
            text::opt_text(*package_name),
        ),
{
    broadcast use steps::step_views_push;

    let ghost before = steps::step_views(steps@);
    steps.push(FinishStep::AddWorkspace);
    match kind {
        ProjectKind::Library => {
            steps.push(FinishStep::RemoveBin);
            if let Some(n) = package_name {
                steps.push(FinishStep::SetLib(n.clone()));
            }
            steps.push(FinishStep::SaveManifest);
            steps.push(FinishStep::StripForLib);
        },
        ProjectKind::Executable => {
            steps.push(FinishStep::SetBinDriver);
            steps.push(FinishStep::SaveManifest);
        },
        ProjectKind::Configurable => {
            steps.push(FinishStep::SaveManifest);
        },
    }
    assert(steps::step_views(steps@) =~= before + manifest_edits(
        kind,
        text::opt_text(*package_name),
    ));
}

/// What follows the agent.
pub open spec fn finish_of(
    config: Config,
    translated: Seq<char>,
    kind: ProjectKind,
    output: TranslateOutput,
) -> Seq<StepView> {
    steps::copy_out_of(
        output.has_wishlist,
        translated,
        WISHLIST_FILE@,
        config.wishlist_output_path,
    ) + steps::copy_out_of(output.has_plan, translated, PLAN_FILE@, config.plan_output_path)
        + if output.has_manifest {
        manifest_edits(kind, text::opt_text(output.package_name)) + seq![
            StepView::RemoveHidden,
            StepView::StripReferences,
            StepView::RemoveDir(path::joined(translated, "target"@)),
            StepView::ReportSymlinks,
            StepView::Freeze,
        ]
    } else {
        seq![StepView::Fail("Agent did not produce a Cargo.toml"@)]
    }
}

/// The agentic translation tool.
#[derive(Debug, Clone, Copy, PartialEq, Eq, Structural)]
pub struct TranslateAgentic;

impl TranslateAgentic {
    pub fn name(&self) -> (r: &'static str)
        ensures
            r@ == "translate_agentic"@,
    {
        "translate_agentic"
    }

    /// Checks the configuration and selects the template.
    pub fn start(&self, config: &Config, kind: ProjectKind, agent: AgentKind) -> (r: Result<
        PromptSource<TranslatePrompt>,
        String,
    >)
        ensures
            (match r {
                Ok(source) => {
                    let (path, builtin) = source_of(*config, kind, agent);
                    &&& !(config.no_plan && config.no_plan_file)
                    &&& match path {
                        Some(p) => source matches PromptSource::File(f) && f@ == p@,
                        None => source == PromptSource::<TranslatePrompt>::Builtin(builtin),
                    }
                },
                Err(e) => config.no_plan && config.no_plan_file && e@
                    == "tools."@ + "translate_agentic"@
                    + ": no_plan and no_plan_file are mutually exclusive"@,
            }),
    {
        match prompt::check_plan_modes("translate_agentic", config.no_plan, config.no_plan_file) {
            Err(e) => Err(e),
            Ok(_) => Ok(load_prompt(config, kind, agent)),
        }
    }

    /// The invocation of the agent, in the directory of the translated project.
    pub fn invocation(
        &self,
        config: &Config,
        agent: AgentKind,
        template: &str,
        facts: &PromptFacts,
    ) -> (r: AgentInvocation)
        ensures
            r.phase == AgentPhase::Translate,
            r.agent == agent,
            r.work_dir@ == facts.translated@,
            r.prompt@ == prompt::filled(template@, fills_of(*config, agent, *facts)),
            r.timeout_secs == config.timeout_secs,
            text::opt_text(r.model) == text::opt_text(config.model),
            r.no_plan == config.no_plan,
            r.no_plan_file == config.no_plan_file,
            text_map::pair_views(r.extra_env@) == text_map::pair_views(config.env@),
            text::opt_text(r.output_log_path) == text::opt_text(config.output_log_path),
            text::opt_text(r.rust_toolchain) == Some(facts.required_version@),
            r.claude.same_as(facts.claude),
    {
        AgentInvocation {
            phase: AgentPhase::Translate,
            agent,
            work_dir: facts.translated.clone(),
            prompt: build_prompt(template, config, agent, facts),
            timeout_secs: config.timeout_secs,
            model: text::copy_opt(&config.model),
            no_plan: config.no_plan,
            no_plan_file: config.no_plan_file,
            extra_env: text_map::copy_pairs(&config.env),
            output_log_path: text::copy_opt(&config.output_log_path),
            rust_toolchain: Some(facts.required_version.clone()),
            claude: facts.claude.copy(),
        }
    }

    /// What follows the agent: what it wrote for later is copied out, its package
    /// is fitted to the project kind, and the working directory is cleared of
    /// hidden files, read-only references and build output before it becomes the
    /// result. Without a manifest there is no package.
    pub fn finish(
        &self,
        config: &Config,
        translated: &str,
        kind: ProjectKind,
        output: &TranslateOutput,
    ) -> (r: Vec<FinishStep>)
        ensures
            steps::step_views(r@) == finish_of(*config, translated@, kind, *output),
    {
        broadcast use steps::step_views_push;

        let mut out: Vec<FinishStep> = Vec::new();
        assert(steps::step_views(out@) =~= seq![]);
        steps::copy_out(
            &mut out,
            output.has_wishlist,
            translated,
            WISHLIST_FILE,
            &config.wishlist_output_path,
        );
        steps::copy_out(&mut out, output.has_plan, translated, PLAN_FILE, &config.plan_output_path);
        if !output.has_manifest {
            out.push(FinishStep::Fail("Agent did not produce a Cargo.toml".to_owned()));
            assert(steps::step_views(out@) =~= finish_of(*config, translated@, kind, *output));
            return out;
        }
        post_process(&mut out, kind, &output.package_name);
        out.push(FinishStep::RemoveHidden);
        out.push(FinishStep::StripReferences);
        out.push(FinishStep::RemoveDir(path::join(translated, "target")));
        out.push(FinishStep::ReportSymlinks);
        out.push(FinishStep::Freeze);
        assert(steps::step_views(out@) =~= finish_of(*config, translated@, kind, *output));
        out
    }
}

/// Nothing is taken as the result unless the read-only references were discarded
/// first, and a package without a manifest is never taken.
pub proof fn frozen_without_references(
    config: Config,
    translated: Seq<char>,
    kind: ProjectKind,
    output: TranslateOutput,
)
    ensures
        ({
            let s = finish_of(config, translated, kind, output);
            let n = s.len() as int;
            if output.has_manifest {
                &&& s[n - 1] == StepView::Freeze
                &&& s[n - 4] == StepView::StripReferences
                &&& s[n - 5] == StepView::RemoveHidden
                &&& forall|i: int| 0 <= i < n - 1 ==> #[trigger] s[i] != StepView::Freeze
            } else {
                forall|i: int| 0 <= i < n ==> #[trigger] s[i] != StepView::Freeze
            }
        }),
{
}

} // verus!
