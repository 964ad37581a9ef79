//! The benchmark's arguments, and the rules about which of them go together.

use crate::config;
use crate::config::{AgentKind, Stage};
use crate::full_source::TestSuiteKind;
use crate::text;
use vstd::prelude::*;
use vstd::string::*;

verus! {

/// Which validation harness to run translated projects against.
#[derive(Debug, Clone, Copy, PartialEq, Eq, Structural)]
pub enum TestHarness {
    /// Prefer a GoogleTest suite when the test case provides one, otherwise fall
    /// back to library or executable validation.
    Auto,
    /// Force the GoogleTest suite.
    Gtest,
    /// Force library validation.
    Lib,
    /// Force executable validation.
    Bin,
}

impl TestHarness {
    pub open spec fn forced(self) -> Option<TestSuiteKind> {
        match self {
            TestHarness::Auto => None,
            TestHarness::Gtest => Some(TestSuiteKind::Gtest),
            TestHarness::Lib => Some(TestSuiteKind::Lib),
            TestHarness::Bin => Some(TestSuiteKind::Bin),
        }
    }

    /// The kind of suite that is forced, if any.
    pub fn suite_kind(self) -> (r: Option<TestSuiteKind>)
        ensures
            r == self.forced(),
    {
        match self {
            TestHarness::Auto => None,
            TestHarness::Gtest => Some(TestSuiteKind::Gtest),
            TestHarness::Lib => Some(TestSuiteKind::Lib),
            TestHarness::Bin => Some(TestSuiteKind::Bin),
        }
    }
}

/// Which comparison mechanism the verification agent is given.
#[derive(Debug, Clone, Copy, PartialEq, Eq, Structural)]
pub enum VerifyHarness {
    /// A C++ GoogleTest environment with the C reference linked in and the Rust
    /// translation loaded at run time.
    Gtest,
    /// The C library loaded from a Rust integration test.
    Libloading,
}

impl VerifyHarness {
    pub open spec fn name(self) -> Seq<char> {
        match self {
            VerifyHarness::Gtest => "gtest"@,
            VerifyHarness::Libloading => "libloading"@,
        }
    }

    /// The name of the mechanism in configurations.
    pub fn as_str(self) -> (r: &'static str)
        ensures
            r@ == self.name(),
    {
        match self {
            VerifyHarness::Gtest => "gtest",
            VerifyHarness::Libloading => "libloading",
        }
    }
}

impl Default for VerifyHarness {
    fn default() -> (r: Self)
        ensures
            r == VerifyHarness::Gtest,
    {
        VerifyHarness::Gtest
    }
}

/// The agent that a lower-case name stands for.
pub open spec fn agent_named(name: Seq<char>, claude: Seq<char>) -> Option<AgentKind> {
    if name == "kiro"@ {
        Some(AgentKind::Kiro)
    } else if name == claude {
        Some(AgentKind::Claude)
    } else if name == "opencode"@ || name == "oc"@ {
        Some(AgentKind::OpenCode)
    } else {
        None
    }
}

pub open spec fn unknown_agent_message(name: Seq<char>, claude: Seq<char>) -> Seq<char> {
    "unknown agent kind: "@ + name + " (expected: kiro, "@ + claude + ", opencode)"@
}

/// Whether `r` is what a lower-case name reads as.
pub open spec fn reads_agent(
    name: Seq<char>,
    claude: Seq<char>,
    r: Result<AgentKind, String>,
) -> bool {
    match r {
        Ok(a) => agent_named(name, claude) == Some(a),
        Err(e) => agent_named(name, claude) is None && e@ == unknown_agent_message(name, claude),
    }
}

/// The agent that a lower-case name stands for.
pub fn agent_from_lowered(name: &str, claude: &str) -> (r: Result<AgentKind, String>)
    ensures
        reads_agent(name@, claude@, r),
{
    if text::same(name, "kiro") {
        Ok(AgentKind::Kiro)
    } else if text::same(name, claude) {
        Ok(AgentKind::Claude)
    } else if text::same(name, "opencode") || text::same(name, "oc") {
        Ok(AgentKind::OpenCode)
    } else {
        let mut e = "unknown agent kind: ".to_owned();
        e.append(name);
        e.append(" (expected: kiro, ");
        e.append(claude);
        e.append(", opencode)");
        Err(e)
    }
}

/// Reads an agent from its name, in any case. The second parameter is the name, in
/// lower case, that one of the agents has on this machine.
pub fn parse_agent_kind(s: &str, claude: &str) -> (r: Result<AgentKind, String>)
    ensures
        reads_agent(text::lowercase_of(s@), claude@, r),
        text::all_ascii(s@) ==> reads_agent(text::ascii_lower_of(s@), claude@, r),
{
    let lowered = text::lowercase(s);
    agent_from_lowered(lowered.as_str(), claude)
}

/// The arguments of a benchmark.
#[derive(Debug)]
pub struct Args {
    /// Input directory. Its meaning follows the first stage of the run: for
    /// translate, and for a run that is not agentic, it holds bench test cases;
    /// for verify and conform it is a previous run's output.
    pub input_dir: Option<String>,
    /// Output directory.
    pub output_dir: Option<String>,
    /// An already translated output to test without running any stage.
    pub test: Option<String>,
    /// Use modular translation rather than translation all at once.
    pub modular: bool,
    /// Run the agentic pipeline with these stages.
    pub agentic: Option<Vec<Stage>>,
    pub agent: Option<AgentKind>,
    pub model: Option<String>,
    /// Bench location that overrides the suite of a snapshot.
    pub test_case: Option<String>,
    pub no_plan: bool,
    pub no_plan_file: bool,
    pub workflow: bool,
    pub agent_tools: bool,
    pub verify_harness: Option<VerifyHarness>,
    pub fuzz: bool,
    /// Configuration values, as `NAME=VALUE`.
    pub config: Vec<String>,
    pub test_harness: TestHarness,
    /// Timeout in seconds for running test cases.
    pub timeout: u64,
    /// Keep only programs whose names match.
    pub filter: Option<String>,
    /// Drop programs whose names match.
    pub exclude: Option<String>,
    /// Overwrite populated output directories.
    pub force: bool,
}

pub open spec fn needs_stage(flag: Seq<char>, what: Seq<char>, stages: Seq<Stage>) -> Seq<char> {
    flag + " requires the "@ + what + " stage (got --agentic="@ + stage_list(stages) + ")"@
}

pub open spec fn stage_list(stages: Seq<Stage>) -> Seq<char> {
    text::join_of(config::stage_names(stages), ","@)
}

/// Whether one of the stages that are told by plan files runs.
pub open spec fn plans(stages: Seq<Stage>) -> bool {
    stages.contains(Stage::Translate) || stages.contains(Stage::Verify)
}

impl Args {
    pub open spec fn given_stages(&self) -> Seq<Stage> {
        match self.agentic {
            Some(v) => v@,
            None => seq![],
        }
    }

    /// The agentic stages of this run, in pipeline order, each once. Empty when
    /// the run is not agentic.
    pub fn stages(&self) -> (r: Vec<Stage>)
        ensures
            r@ == config::ordered(self.given_stages()),
    {
        match &self.agentic {
            Some(v) => config::order_stages(v),
            None => {
                let r: Vec<Stage> = Vec::new();
                assert(r@ =~= config::ordered(seq![]));
                r
            },
        }
    }

    /// What is wrong with the arguments for these stages, if anything. The first
    /// rule that is broken counts.
    pub open spec fn stage_fault(&self, stages: Seq<Stage>) -> Option<Seq<char>> {
        let verify = stages.contains(Stage::Verify);
        if self.agentic is Some && stages.len() == 0 {
            Some("--agentic requires at least one stage"@)
        } else if stages.contains(Stage::Conform) && stages.len() > 1 {
            Some(
                "stage conform currently runs alone (got --agentic="@ + stage_list(stages) + ")"@,
            )
        } else if self.fuzz && !verify {
            Some(needs_stage("--fuzz"@, "verify"@, stages))
        } else if self.verify_harness is Some && !verify {
            Some(needs_stage("--verify-harness"@, "verify"@, stages))
        } else if self.no_plan && !plans(stages) {
            Some(needs_stage("--no-plan"@, "translate or verify"@, stages))
        } else if self.no_plan_file && !plans(stages) {
            Some(needs_stage("--no-plan-file"@, "translate or verify"@, stages))
        } else if self.workflow && !plans(stages) {
            Some(needs_stage("--workflow"@, "translate or verify"@, stages))
        } else if self.agent_tools && !plans(stages) {
            Some(needs_stage("--agent-tools"@, "translate or verify"@, stages))
        } else if self.test_case is Some && !(stages.len() > 0 && stages[0] == Stage::Verify) {
            Some(
                "--test-case only applies when resuming from a snapshot with verify as the first stage (got --agentic="@
                    + stage_list(stages) + "); conform grades against the snapshot's own suite"@,
            )
        } else {
            None
        }
    }

    /// Checks the combinations of arguments and stages that depend on which
    /// stages were chosen.
    pub fn validate_stages(&self, stages: &Vec<Stage>) -> (r: Result<(), String>)
        ensures
            (match r {
                Ok(_) => self.stage_fault(stages@) is None,
                Err(e) => self.stage_fault(stages@) == Some(e@),
            }),
    {
        let listed = config::list_stages(stages, ",");
        let verify = config::has_stage(stages, Stage::Verify);
        let planned = config::has_stage(stages, Stage::Translate) || verify;
        if self.agentic.is_some() && stages.len() == 0 {
            return Err("--agentic requires at least one stage".to_owned());
        }
        if config::has_stage(stages, Stage::Conform) && stages.len() > 1 {
            let mut e = "stage conform currently runs alone (got --agentic=".to_owned();
            e.append(listed.as_str());
            e.append(")");
            return Err(e);
        }
        if self.fuzz && !verify {
            return Err(stage_needed("--fuzz", "verify", stages));
        }
        if self.verify_harness.is_some() && !verify {
            return Err(stage_needed("--verify-harness", "verify", stages));
        }
        if self.no_plan && !planned {
            return Err(stage_needed("--no-plan", "translate or verify", stages));
        }
        if self.no_plan_file && !planned {
            return Err(stage_needed("--no-plan-file", "translate or verify", stages));
        }
        if self.workflow && !planned {
            return Err(stage_needed("--workflow", "translate or verify", stages));
        }
        if self.agent_tools && !planned {
            return Err(stage_needed("--agent-tools", "translate or verify", stages));
        }
        if self.test_case.is_some() && !(stages.len() > 0 && stages[0] == Stage::Verify) {
            let mut e =
                "--test-case only applies when resuming from a snapshot with verify as the first stage (got --agentic=".to_owned();
            e.append(listed.as_str());
            e.append("); conform grades against the snapshot's own suite");
            return Err(e);
        }
        Ok(())
    }
}

fn stage_needed(flag: &str, what: &str, stages: &Vec<Stage>) -> (r: String)
    ensures
        r@ == needs_stage(flag@, what@, stages@),
{
    let mut e = flag.to_owned();
    e.append(" requires the ");
    e.append(what);
    e.append(" stage (got --agentic=");
    e.append(config::list_stages(stages, ",").as_str());
    e.append(")");
    e
}

/// Accepted arguments never run conform together with another stage.
pub proof fn conform_runs_alone(args: Args)
    requires
        args.stage_fault(config::ordered(args.given_stages())) is None,
        args.given_stages().contains(Stage::Conform),
    ensures
        config::ordered(args.given_stages()) == seq![Stage::Conform],
{
    config::ordering_law(args.given_stages());
    let s = config::ordered(args.given_stages());
    assert(s.contains(Stage::Conform));
    assert(s.len() == 1);
    assert(s =~= seq![Stage::Conform]);
}

/// Accepted arguments that override a snapshot's suite start with verify.
pub proof fn suite_override_starts_with_verify(args: Args)
    requires
        args.stage_fault(config::ordered(args.given_stages())) is None,
        args.test_case is Some,
    ensures
        config::ordered(args.given_stages()).len() > 0,
        config::ordered(args.given_stages())[0] == Stage::Verify,
{
}

} // verus!
