//! The phases an agent is invoked for.

use crate::config::{AgentKind, AgentLabel};
use crate::text;
use vstd::prelude::*;
use vstd::string::*;

verus! {

/// What an agent is invoked for.
#[derive(Debug, Clone, Copy, PartialEq, Eq, Structural)]
pub enum AgentPhase {
    Translate,
    Verify,
    /// Third-stage refinement: an already translated project is given the
    /// external test suite and refined until every external test passes.
    Conform,
}

impl AgentPhase {
    pub open spec fn label_of(self) -> Seq<char> {
        match self {
            AgentPhase::Translate => "translation"@,
            AgentPhase::Verify => "verification"@,
            AgentPhase::Conform => "conformance"@,
        }
    }

    pub fn label(self) -> (r: &'static str)
        ensures
            r@ == self.label_of(),
    {
        match self {
            AgentPhase::Translate => "translation",
            AgentPhase::Verify => "verification",
            AgentPhase::Conform => "conformance",
        }
    }

    pub open spec fn log_name(self) -> Seq<char> {
        match self {
            AgentPhase::Translate => "translation.log"@,
            AgentPhase::Verify => "verify.log"@,
            AgentPhase::Conform => "conform.log"@,
        }
    }

    pub fn log_file_name(self) -> (r: &'static str)
        ensures
            r@ == self.log_name(),
    {
        match self {
            AgentPhase::Translate => "translation.log",
            AgentPhase::Verify => "verify.log",
            AgentPhase::Conform => "conform.log",
        }
    }

    pub open spec fn prompt_name(self) -> Seq<char> {
        match self {
            AgentPhase::Translate => "translation-prompt.md"@,
            AgentPhase::Verify => "verify-prompt.md"@,
            AgentPhase::Conform => "conform-prompt.md"@,
        }
    }

    /// File the rendered prompt is recorded to, next to this phase's log. Per
    /// phase, because a single run's stages each send their own prompt.
    pub fn prompt_file_name(self) -> (r: &'static str)
        ensures
            r@ == self.prompt_name(),
    {
        match self {
            AgentPhase::Translate => "translation-prompt.md",
            AgentPhase::Verify => "verify-prompt.md",
            AgentPhase::Conform => "conform-prompt.md",
        }
    }

    pub open spec fn append_name(self) -> Seq<char> {
        match self {
            AgentPhase::Translate => "translation-append-system-prompt.md"@,
            AgentPhase::Verify => "verify-append-system-prompt.md"@,
            AgentPhase::Conform => "conform-append-system-prompt.md"@,
        }
    }

    /// File the appended system prompt is recorded to, when one is used.
    pub fn append_system_prompt_file_name(self) -> (r: &'static str)
        ensures
            r@ == self.append_name(),
    {
        match self {
            AgentPhase::Translate => "translation-append-system-prompt.md",
            AgentPhase::Verify => "verify-append-system-prompt.md",
            AgentPhase::Conform => "conform-append-system-prompt.md",
        }
    }

    pub open spec fn opencode_name(self) -> Seq<char> {
        match self {
            AgentPhase::Translate => "harvest-translate"@,
            AgentPhase::Verify => "harvest-verify"@,
            AgentPhase::Conform => "harvest-conform"@,
        }
    }

    pub fn opencode_agent_name(self) -> (r: &'static str)
        ensures
            r@ == self.opencode_name(),
    {
        match self {
            AgentPhase::Translate => "harvest-translate",
            AgentPhase::Verify => "harvest-verify",
            AgentPhase::Conform => "harvest-conform",
        }
    }

    pub open spec fn description_of(self) -> Seq<char> {
        match self {
            AgentPhase::Translate => "Harvest agentic translation backend"@,
            AgentPhase::Verify => "Harvest agentic verification backend"@,
            AgentPhase::Conform => "Harvest agentic conformance backend"@,
        }
    }

    pub fn opencode_description(self) -> (r: &'static str)
        ensures
            r@ == self.description_of(),
    {
        match self {
            AgentPhase::Translate => "Harvest agentic translation backend",
            AgentPhase::Verify => "Harvest agentic verification backend",
            AgentPhase::Conform => "Harvest agentic conformance backend",
        }
    }

    pub open spec fn append_text(self) -> Seq<char> {
        match self {
            AgentPhase::Translate => "After any context compaction, you MUST first read PLAN.md."@,
            AgentPhase::Verify =>
                "After any context compaction, you MUST first read PLAN.md and HYPOTHESES.md."@,
            AgentPhase::Conform => "After any context compaction, you MUST first read CONFORM.md."@,
        }
    }

    /// Compaction-recovery hint, injected per turn. The OpenCode backend has a
    /// compaction-recovery plugin instead.
    pub fn append_system_prompt(self) -> (r: &'static str)
        ensures
            r@ == self.append_text(),
    {
        match self {
            AgentPhase::Translate => "After any context compaction, you MUST first read PLAN.md.",
            AgentPhase::Verify =>
                "After any context compaction, you MUST first read PLAN.md and HYPOTHESES.md.",
            AgentPhase::Conform => "After any context compaction, you MUST first read CONFORM.md.",
        }
    }

    /// The persistent memory files of the phase.
    pub open spec fn memory_files(self) -> Seq<Seq<char>> {
        match self {
            AgentPhase::Translate => seq!["PLAN.md"@],
            AgentPhase::Verify => seq!["PLAN.md"@, "HYPOTHESES.md"@],
            AgentPhase::Conform => seq!["CONFORM.md"@],
        }
    }

    /// The persistent memory files the agent must re-read to recover after a
    /// context compaction. Only meaningful when plan files are enabled.
    pub fn recovery_files(self) -> (r: Vec<String>)
        ensures
            text::texts(r@) == self.memory_files(),
    {
        let r: Vec<String> = match self {
            AgentPhase::Translate => vec!["PLAN.md".to_owned()],
            AgentPhase::Verify => vec!["PLAN.md".to_owned(), "HYPOTHESES.md".to_owned()],
            AgentPhase::Conform => vec!["CONFORM.md".to_owned()],
        };
        assert(text::texts(r@) =~= self.memory_files());
        r
    }
}

/// One invocation of an agent.
#[derive(Debug)]
pub struct AgentInvocation {
    pub phase: AgentPhase,
    pub agent: AgentKind,
    pub work_dir: String,
    pub prompt: String,
    pub timeout_secs: u64,
    pub model: Option<String>,
    pub no_plan: bool,
    pub no_plan_file: bool,
    /// Environment variables of the run's configuration.
    pub extra_env: Vec<(String, String)>,
    pub output_log_path: Option<String>,
    pub rust_toolchain: Option<String>,
    /// How [`AgentKind`]'s second agent is called on this machine.
    pub claude: AgentLabel,
}

impl AgentInvocation {
    pub open spec fn has_plan_files(&self) -> bool {
        !self.no_plan && !self.no_plan_file
    }

    /// Whether the prompt instructs the agent to maintain persistent plan files.
    /// Both `no_plan` and `no_plan_file` drop that instruction, so the per-turn
    /// "read PLAN.md after compaction" system prompt must not be injected in
    /// either mode.
    pub fn plan_files_enabled(&self) -> (r: bool)
        ensures
            r == self.has_plan_files(),
    {
        !self.no_plan && !self.no_plan_file
    }
}

/// Workaround for a bug of an agent's command: recent versions default to
/// asynchronous sub-agents, and in headless mode the process exits as soon as the main agent
/// ends its turn, killing any sub-agents still running in the background.
pub const CLAUDE_ASYNC_SUBAGENT_WARNING: &'static str = "\
**{AGENT} async sub-agent bug** \
Recent {AGENT} versions launch sub-agents asynchronously by default. \
In this headless (`{COMMAND} -p`) session that is fatal: ending your turn \
with an asynchronous sub-agent call ends the entire session \
instead of waiting for the sub-agent to finish.
Therefore, you MUST launch EVERY sub-agent with `run_in_background: false` \
(synchronous). You are still encouraged to launch multiple sub-agents \
in a single turn when parallel execution is beneficial, but make sure \
all of them are synchronous.";

/// Workaround for an OpenCode bug (upstream issue #29363): each model response
/// is capped at 32000 output tokens regardless of the model's `limit.output`,
/// and thinking tokens count against the same cap.
pub const OPENCODE_OUTPUT_CAP_WARNING: &'static str = "\
**OpenCode output-token cap bug** \
OpenCode caps the output tokens of each model response (upstream issue #29363). \
Thinking tokens count against the same cap. \
If thinking uses the full cap before your first tool call, the turn ends as if it were complete. \
The session then stops silently. \
A sub-agent that stops this way returns an empty result and writes no files.
Therefore: keep thinking short. Do not draft a whole file in thinking. \
Write long files in parts: create the file with one `write` call, \
then append each next part with `edit`. Keep each part under ~300 lines. \
Copy this whole warning into EVERY sub-agent prompt.";

pub open spec fn workarounds_for(agent: AgentKind, claude: AgentLabel) -> Seq<char> {
    match agent {
        AgentKind::Kiro => ""@,
        AgentKind::Claude => text::replace_of(
            text::replace_of(CLAUDE_ASYNC_SUBAGENT_WARNING@, "{AGENT}"@, claude.title@),
            "{COMMAND}"@,
            claude.name@,
        ),
        AgentKind::OpenCode => OPENCODE_OUTPUT_CAP_WARNING@,
    }
}

/// Agent-specific temporary bug workarounds, injected into every prompt in place
/// of `{AGENT_BUG_WORKAROUNDS}`.
pub fn agent_bug_workarounds(agent: AgentKind, claude: &AgentLabel) -> (r: String)
    ensures
        r@ == workarounds_for(agent, *claude),
{
    match agent {
        AgentKind::Kiro => "".to_owned(),
        AgentKind::Claude => {
            proof {
                reveal_strlit("{AGENT}");
                reveal_strlit("{COMMAND}");
            }
            let titled = text::replace(
                CLAUDE_ASYNC_SUBAGENT_WARNING,
                "{AGENT}",
                claude.title.as_str(),
            );
            text::replace(titled.as_str(), "{COMMAND}", claude.name.as_str())
        },
        AgentKind::OpenCode => OPENCODE_OUTPUT_CAP_WARNING.to_owned(),
    }
}

/// What a phase is told to read again is each of the files it keeps its notes in.
pub proof fn hints_name_the_memory(phase: AgentPhase, hint: &str, files: Vec<String>, i: int)
    requires
        call_ensures(AgentPhase::append_system_prompt, (phase,), hint),
        call_ensures(AgentPhase::recovery_files, (phase,), files),
        0 <= i < files@.len(),
    ensures
        text::contains_text(hint@, files@[i]@),
{
    assert(text::texts(files@).len() == files@.len());
    assert(files@[i]@ == text::texts(files@)[i]);
    reveal_strlit("PLAN.md");
    reveal_strlit("HYPOTHESES.md");
    reveal_strlit("CONFORM.md");
    reveal_strlit("After any context compaction, you MUST first read PLAN.md.");
    reveal_strlit("After any context compaction, you MUST first read PLAN.md and HYPOTHESES.md.");
    reveal_strlit("After any context compaction, you MUST first read CONFORM.md.");
    let f = files@[i]@;
    let at: int = if i == 0 {
        50
    } else {
        62
    };
    assert(hint@.subrange(at, at + f.len()) =~= f);
    assert(text::occurs_at(hint@, f, at));
}

/// Each way of doing without plans does without their files.
pub proof fn plans_can_be_done_without(invocation: &AgentInvocation, r: bool)
    requires
        call_ensures(AgentInvocation::plan_files_enabled, (invocation,), r),
    ensures
        invocation.no_plan ==> !r,
        invocation.no_plan_file ==> !r,
        !r ==> invocation.no_plan || invocation.no_plan_file,
{
}

/// A phase's log, prompt and appended prompt are files of their own, apart from each
/// other and from those of every other phase.
pub proof fn phases_share_no_file(a: AgentPhase, b: AgentPhase, x: &str, y: &str, z: &str, u: &str, v: &str, w: &str)
    requires
        call_ensures(AgentPhase::log_file_name, (a,), x),
        call_ensures(AgentPhase::prompt_file_name, (a,), y),
        call_ensures(AgentPhase::append_system_prompt_file_name, (a,), z),
        call_ensures(AgentPhase::log_file_name, (b,), u),
        call_ensures(AgentPhase::prompt_file_name, (b,), v),
        call_ensures(AgentPhase::append_system_prompt_file_name, (b,), w),
    ensures
        x@ == u@ ==> a == b,
        y@ == v@ ==> a == b,
        z@ == w@ ==> a == b,
        x@ != v@ && x@ != w@ && y@ != w@,
{
    reveal_strlit("translation.log");
    reveal_strlit("verify.log");
    reveal_strlit("conform.log");
    reveal_strlit("translation-prompt.md");
    reveal_strlit("verify-prompt.md");
    reveal_strlit("conform-prompt.md");
    reveal_strlit("translation-append-system-prompt.md");
    reveal_strlit("verify-append-system-prompt.md");
    reveal_strlit("conform-append-system-prompt.md");
    if a != b {
        assert(x@[0] != u@[0] || y@[0] != v@[0]);
        assert(y@[0] != v@[0]);
        assert(z@[0] != w@[0]);
    }
    assert(x@.len() != v@.len() && x@.len() != w@.len() && y@.len() != w@.len());
}

} // verus!
