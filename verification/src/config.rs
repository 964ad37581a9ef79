//! Configuration of a run.

use crate::json;
use crate::json::Json;
use crate::text;
use vstd::prelude::*;
use vstd::string::*;

verus! {

/// Which external agent to invoke for agentic translation and verification.
#[derive(Debug, Clone, Copy, PartialEq, Eq, Structural)]
pub enum AgentKind {
    Kiro,
    Claude,
    OpenCode,
}

impl Default for AgentKind {
    fn default() -> (r: Self)
        ensures
            r == AgentKind::Kiro,
    {
        AgentKind::Kiro
    }
}

/// How an agent is called: the name of its command, under which it is also
/// configured, and its title in messages.
#[derive(Debug)]
pub struct AgentLabel {
    pub name: String,
    pub title: String,
}

impl AgentLabel {
    pub open spec fn same_as(&self, other: AgentLabel) -> bool {
        self.name@ == other.name@ && self.title@ == other.title@
    }

    pub fn copy(&self) -> (r: AgentLabel)
        ensures
            r.same_as(*self),
    {
        AgentLabel { name: self.name.clone(), title: self.title.clone() }
    }
}

impl AgentKind {
    /// The name under which the agent is configured. One of the names is that of a
    /// command on the machine, and is given.
    pub open spec fn name(self, claude: Seq<char>) -> Seq<char> {
        match self {
            AgentKind::Kiro => "kiro"@,
            AgentKind::Claude => claude,
            AgentKind::OpenCode => "opencode"@,
        }
    }

    pub fn as_str<'a>(self, claude: &'a str) -> (r: &'a str)
        ensures
            r@ == self.name(claude@),
    {
        match self {
            AgentKind::Kiro => "kiro",
            AgentKind::Claude => claude,
            AgentKind::OpenCode => "opencode",
        }
    }
}

/// One agentic pipeline stage. Stages compose in pipeline order
/// (translate < verify < conform); a run executes an ordered subset.
#[derive(Debug, Clone, Copy, PartialEq, Eq, PartialOrd, Ord, Structural)]
pub enum Stage {
    Translate,
    Verify,
    Conform,
}

/// The stage that a lower-case name or letter stands for.
pub open spec fn stage_named(name: Seq<char>) -> Option<Stage> {
    if name == "translate"@ || name == "t"@ {
        Some(Stage::Translate)
    } else if name == "verify"@ || name == "v"@ {
        Some(Stage::Verify)
    } else if name == "conform"@ || name == "c"@ {
        Some(Stage::Conform)
    } else {
        None
    }
}

pub open spec fn unknown_stage_message(name: Seq<char>) -> Seq<char> {
    "unknown stage: "@ + name + " (expected: translate/t, verify/v, conform/c)"@
}

/// Whether `r` is what a lower-case name reads as.
pub open spec fn reads_stage(name: Seq<char>, r: Result<Stage, String>) -> bool {
    match r {
        Ok(s) => stage_named(name) == Some(s),
        Err(e) => stage_named(name) is None && e@ == unknown_stage_message(name),
    }
}

impl Stage {
    /// The place of the stage in the pipeline.
    pub open spec fn rank(self) -> int {
        match self {
            Stage::Translate => 0,
            Stage::Verify => 1,
            Stage::Conform => 2,
        }
    }

    pub open spec fn name(self) -> Seq<char> {
        match self {
            Stage::Translate => "translate"@,
            Stage::Verify => "verify"@,
            Stage::Conform => "conform"@,
        }
    }

    pub fn as_str(self) -> (r: &'static str)
        ensures
            r@ == self.name(),
    {
        match self {
            Stage::Translate => "translate",
            Stage::Verify => "verify",
            Stage::Conform => "conform",
        }
    }

    /// The stage that a lower-case name stands for.
    pub fn from_lowered(name: &str) -> (r: Result<Stage, String>)
        ensures
            reads_stage(name@, r),
    {
        if text::same(name, "translate") || text::same(name, "t") {
            Ok(Stage::Translate)
        } else if text::same(name, "verify") || text::same(name, "v") {
            Ok(Stage::Verify)
        } else if text::same(name, "conform") || text::same(name, "c") {
            Ok(Stage::Conform)
        } else {
            let mut e = "unknown stage: ".to_owned();
            e.append(name);
            e.append(" (expected: translate/t, verify/v, conform/c)");
            Err(e)
        }
    }

    /// Reads a stage from its name or its first letter, in any case.
    pub fn parse(s: &str) -> (r: Result<Stage, String>)
        ensures
            reads_stage(text::lowercase_of(s@), r),
            text::all_ascii(s@) ==> reads_stage(text::ascii_lower_of(s@), r),
    {
        let lowered = text::lowercase(s);
        Stage::from_lowered(lowered.as_str())
    }
}

/// A stage's name reads back as that stage.
pub proof fn stage_name_reads_back(s: Stage)
    ensures
        stage_named(s.name()) == Some(s),
{
    reveal_strlit("translate");
    reveal_strlit("verify");
    reveal_strlit("conform");
    reveal_strlit("t");
    reveal_strlit("v");
    reveal_strlit("c");
    assert("verify"@[0] != "translate"@[0]);
    assert("conform"@[0] != "translate"@[0]);
    assert("conform"@[0] != "verify"@[0]);
    assert("verify"@.len() != "t"@.len());
    assert("conform"@.len() != "t"@.len());
    assert("conform"@.len() != "v"@.len());
}

/// Whether the stages stand in pipeline order, each at most once.
pub open spec fn in_order(s: Seq<Stage>) -> bool {
    forall|i: int, j: int| #![trigger s[i], s[j]] 0 <= i < j < s.len() ==> s[i].rank() < s[j].rank()
}

/// `s` in pipeline order, each stage at most once.
pub open spec fn ordered(s: Seq<Stage>) -> Seq<Stage> {
    (if s.contains(Stage::Translate) {
        seq![Stage::Translate]
    } else {
        seq![]
    }) + (if s.contains(Stage::Verify) {
        seq![Stage::Verify]
    } else {
        seq![]
    }) + (if s.contains(Stage::Conform) {
        seq![Stage::Conform]
    } else {
        seq![]
    })
}

/// Whether `stages` holds `s`.
pub fn has_stage(stages: &Vec<Stage>, s: Stage) -> (r: bool)
    ensures
        r == stages@.contains(s),
{
    let mut i: usize = 0;
    while i < stages.len()
        invariant
            i <= stages@.len(),
            forall|j: int| 0 <= j < i ==> stages@[j] != s,
        decreases stages@.len() - i,
    {
        if stages[i] == s {
            return true;
        }
        i = i + 1;
    }
    false
}

/// Sorts stages into pipeline order and drops repetitions.
pub fn order_stages(stages: &Vec<Stage>) -> (r: Vec<Stage>)
    ensures
        r@ == ordered(stages@),
{
    let mut out: Vec<Stage> = Vec::new();
    if has_stage(stages, Stage::Translate) {
        out.push(Stage::Translate);
    }
    if has_stage(stages, Stage::Verify) {
        out.push(Stage::Verify);
    }
    if has_stage(stages, Stage::Conform) {
        out.push(Stage::Conform);
    }
    assert(out@ =~= ordered(stages@));
    out
}

/// Ordering keeps exactly the given stages, puts them in pipeline order, and
/// changes nothing when done again.
pub proof fn ordering_law(s: Seq<Stage>)
    ensures
        in_order(ordered(s)),
        forall|x: Stage| #[trigger] ordered(s).contains(x) == s.contains(x),
        ordered(ordered(s)) == ordered(s),
{
    let o = ordered(s);
    let t = s.contains(Stage::Translate);
    let v = s.contains(Stage::Verify);
    let c = s.contains(Stage::Conform);
    if t {
        assert(o[0] == Stage::Translate);
    }
    if v {
        assert(o[if t { 1int } else { 0int }] == Stage::Verify);
    }
    if c {
        assert(o[(if t { 1int } else { 0int }) + (if v { 1int } else { 0int })] == Stage::Conform);
    }
    assert forall|x: Stage| #[trigger] o.contains(x) == s.contains(x) by {}
    assert(ordered(o) =~= o);
}

/// A stage is read from its full name or its first letter, and from nothing else.
pub proof fn stages_are_read_by_name(name: &str, r: Result<Stage, String>)
    requires
        call_ensures(Stage::from_lowered, (name,), r),
    ensures
        r == Ok::<Stage, String>(Stage::Translate) <==> name@ == "translate"@ || name@ == "t"@,
        r == Ok::<Stage, String>(Stage::Verify) <==> name@ == "verify"@ || name@ == "v"@,
        r == Ok::<Stage, String>(Stage::Conform) <==> name@ == "conform"@ || name@ == "c"@,
{
    reveal_strlit("translate");
    reveal_strlit("verify");
    reveal_strlit("conform");
    reveal_strlit("t");
    reveal_strlit("v");
    reveal_strlit("c");
    assert("verify"@[0] != "translate"@[0]);
    assert("conform"@[0] != "translate"@[0]);
    assert("conform"@[0] != "verify"@[0]);
    assert("t"@[0] == 't' && "v"@[0] == 'v' && "c"@[0] == 'c');
    assert("translate"@[0] == 't' && "verify"@[0] == 'v' && "conform"@[0] == 'c');
}

/// The stages of a run are those that were asked for, each once: translate comes
/// before verify, and both come before conform.
pub proof fn stages_run_in_pipeline_order(stages: &Vec<Stage>, r: Vec<Stage>)
    requires
        call_ensures(order_stages, (stages,), r),
    ensures
        forall|x: Stage| #[trigger] r@.contains(x) <==> stages@.contains(x),
        forall|i: int, j: int|
            #![trigger r@[i], r@[j]]
            0 <= i < j < r@.len() ==> r@[i] != r@[j] && r@[i] != Stage::Conform && r@[j]
                != Stage::Translate,
{
    ordering_law(stages@);
}

pub open spec fn stage_names(s: Seq<Stage>) -> Seq<Seq<char>> {
    s.map_values(|x: Stage| x.name())
}

/// The stages' names joined by a separator.
pub fn list_stages(stages: &Vec<Stage>, sep: &str) -> (r: String)
    ensures
        r@ == text::join_of(stage_names(stages@), sep@),
{
    broadcast use text::group_texts;

    let mut names: Vec<String> = Vec::new();
    let mut i: usize = 0;
    while i < stages.len()
        invariant
            i <= stages@.len(),
            text::texts(names@) == stage_names(stages@).take(i as int),
        decreases stages@.len() - i,
    {
        let n = stages[i].as_str().to_owned();
        names.push(n);
        assert(stage_names(stages@).take(i + 1) =~= stage_names(stages@).take(i as int).push(n@));
        i = i + 1;
    }
    assert(stage_names(stages@).take(i as int) =~= stage_names(stages@));
    text::join(&names, sep)
}

/// A copy of a list of stages.
pub fn copy_stages(stages: &Vec<Stage>) -> (r: Vec<Stage>)
    ensures
        r@ == stages@,
{
    let mut out: Vec<Stage> = Vec::new();
    let mut i: usize = 0;
    while i < stages.len()
        invariant
            i <= stages@.len(),
            out@ == stages@.take(i as int),
        decreases stages@.len() - i,
    {
        out.push(stages[i]);
        assert(stages@.take(i + 1) =~= stages@.take(i as int).push(stages@[i as int]));
        i = i + 1;
    }
    assert(stages@.take(i as int) =~= stages@);
    out
}

/// Configuration for a translation run.
#[derive(Debug)]
pub struct Config {
    /// Path to the directory containing the C code to translate.
    pub input: String,
    /// Path to the output directory.
    pub output: String,
    /// Path to the diagnostics directory; a temporary one is used without it.
    pub diagnostics_dir: Option<String>,
    /// Whether a nonempty output or diagnostics directory is emptied first.
    pub force: bool,
    /// Translate one declaration at a time rather than all at once.
    pub modular: bool,
    /// Which agentic stages to run, in pipeline order. Empty means the run is
    /// not agentic.
    pub stages: Vec<Stage>,
    /// When the first stage is not `translate`: the snapshot to start from.
    pub stage_input: Option<String>,
    /// Provide the agent with pre-built analysis tools.
    pub agent_tools: bool,
    /// Which external agent to use.
    pub agentic_agent: AgentKind,
    /// Which log messages go to standard output.
    pub log_filter: String,
    /// Sub-configuration for each tool.
    pub tools: Vec<(String, Json)>,
    /// Unrecognized fields.
    pub unknown: Vec<(String, Json)>,
}

/// A text member, or `<unknown>`.
pub open spec fn text_or_unknown(tool: json::JsonView, key: Seq<char>) -> Seq<char> {
    match json::get_str_of(tool, key) {
        Some(s) => s,
        None => "<unknown>"@,
    }
}

pub open spec fn tool_info(tool: json::JsonView) -> Seq<char> {
    "Backend="@ + text_or_unknown(tool, "backend"@) + " Model="@ + text_or_unknown(tool, "model"@)
        + " Max Tokens="@ + match json::get_of(tool, "max_tokens"@) {
        Some(v) => json::compact_json(v),
        None => "<unknown>"@,
    }
}

impl Config {
    /// A config for testing.
    pub fn mock() -> (r: Self)
        ensures
            r.input@ == "mock_input"@,
            r.output@ == "mock_output"@,
            r.diagnostics_dir is None,
            !r.force,
            !r.modular,
            r.stages@.len() == 0,
            r.stage_input is None,
            !r.agent_tools,
            r.agentic_agent == AgentKind::Kiro,
            r.log_filter@ == "off"@,
            r.tools@.len() == 0,
            r.unknown@.len() == 0,
    {
        Config {
            input: "mock_input".to_owned(),
            output: "mock_output".to_owned(),
            diagnostics_dir: None,
            force: false,
            modular: false,
            stages: Vec::new(),
            stage_input: None,
            agent_tools: false,
            agentic_agent: AgentKind::default(),
            log_filter: "off".to_owned(),
            tools: Vec::new(),
            unknown: Vec::new(),
        }
    }

    /// What [`Config::model_info`] tells.
    pub open spec fn model_info_of(&self, claude: Seq<char>) -> Option<Seq<char>> {
        if self.stages@.len() > 0 {
            Some(
                "agentic("@ + self.agentic_agent.name(claude) + ") stages="@ + text::join_of(
                    stage_names(self.stages@),
                    "+"@,
                ),
            )
        } else {
            match json::member_of(
                json::member_views(self.tools@),
                if self.modular {
                    "modular_translation_llm"@
                } else {
                    "raw_source_to_cargo_llm"@
                },
            ) {
                Some(tool) => Some(tool_info(tool)),
                None => None,
            }
        }
    }

    /// Formatted model information, printed at the start of a run to help
    /// reproduce its results.
    pub fn model_info(&self, claude: &str) -> (r: Option<String>)
        ensures
            (match r {
                Some(s) => self.model_info_of(claude@) == Some(s@),
                None => self.model_info_of(claude@) is None,
            }),
    {
        if self.stages.len() > 0 {
            let mut s = "agentic(".to_owned();
            s.append(self.agentic_agent.as_str(claude));
            s.append(") stages=");
            let names = list_stages(&self.stages, "+");
            s.append(names.as_str());
            return Some(s);
        }
        let tool_name = if self.modular {
            "modular_translation_llm"
        } else {
            "raw_source_to_cargo_llm"
        };
        match json::find_member(&self.tools, tool_name) {
            Some(tool) => {
                let mut s = "Backend=".to_owned();
                s.append(
                    match tool.get_str("backend") {
                        Some(b) => b,
                        None => "<unknown>",
                    },
                );
                s.append(" Model=");
                s.append(
                    match tool.get_str("model") {
                        Some(m) => m,
                        None => "<unknown>",
                    },
                );
                s.append(" Max Tokens=");
                match tool.get("max_tokens") {
                    Some(v) => {
                        let t = json::render_compact(v);
                        s.append(t.as_str());
                    },
                    None => {
                        s.append("<unknown>");
                    },
                }
                Some(s)
            },
            None => None,
        }
    }
}

pub open spec fn unknown_field_line(prefix: Seq<char>, name: Seq<char>) -> Seq<char> {
    if prefix.len() == 0 {
        "Warning: unknown config key "@ + name
    } else {
        "Warning: unknown config key "@ + prefix + "."@ + name
    }
}

/// A warning line for every field name in `unknown`, in ascending order.
/// `prefix` is the path of the entry that holds the fields.
pub fn unknown_field_warning(prefix: &str, unknown: &Vec<String>) -> (r: Vec<String>)
    ensures
        exists|names: Seq<Seq<char>>|
            #![trigger text::is_sorted(names)]
            {
                &&& text::is_sorted(names)
                &&& names.to_multiset() == text::texts(unknown@).to_multiset()
                &&& text::texts(r@) == names.map_values(|n: Seq<char>| unknown_field_line(prefix@, n))
            },
{
    broadcast use text::group_texts;

    let names = text::sorted(unknown);
    let ghost all = text::texts(names@);
    let ghost want = all.map_values(|n: Seq<char>| unknown_field_line(prefix@, n));
    let mut out: Vec<String> = Vec::new();
    let mut i: usize = 0;
    while i < names.len()
        invariant
            i <= names@.len(),
            all == text::texts(names@),
            want == all.map_values(|n: Seq<char>| unknown_field_line(prefix@, n)),
            text::texts(out@) == want.take(i as int),
        decreases names@.len() - i,
    {
        let mut line = "Warning: unknown config key ".to_owned();
        if !prefix.is_empty() {
            line.append(prefix);
            line.append(".");
        }
        line.append(names[i].as_str());
        assert(line@ == want[i as int]);
        assert(want.take(i + 1) =~= want.take(i as int).push(line@));
        out.push(line);
        i = i + 1;
    }
    assert(want.take(i as int) =~= want);
    out
}

/// A run with stages tells its agent and them, whatever tools are configured; one
/// without tells the tool that its mode uses, whatever agent and other tools are.
pub proof fn runs_tell_what_they_use(a: &Config, b: &Config, claude: &str, r: Option<String>, s: Option<
    String,
>)
    requires
        call_ensures(Config::model_info, (a, claude), r),
        call_ensures(Config::model_info, (b, claude), s),
    ensures
        a.stages@.len() > 0 && a.stages@ == b.stages@ && a.agentic_agent == b.agentic_agent
            ==> text::opt_text(r) == text::opt_text(s),
        a.stages@.len() > 0 ==> r is Some && r->0@ == "agentic("@ + a.agentic_agent.name(claude@)
            + ") stages="@ + text::join_of(a.stages@.map_values(|x: Stage| x.name()), "+"@),
        a.stages@.len() == 0 && b.stages@.len() == 0 && a.modular == b.modular && a.tools@
            == b.tools@ ==> text::opt_text(r) == text::opt_text(s),
        a.stages@.len() == 0 && a.modular ==> (r is Some <==> json::member_of(
            json::member_views(a.tools@),
            "modular_translation_llm"@,
        ) is Some),
        a.stages@.len() == 0 && !a.modular ==> (r is Some <==> json::member_of(
            json::member_views(a.tools@),
            "raw_source_to_cargo_llm"@,
        ) is Some),
{
    assert(stage_names(a.stages@) =~= a.stages@.map_values(|x: Stage| x.name()));
}

/// Every unknown field has its warning, which says under which entry it stands.
pub proof fn every_unknown_field_is_warned_of(
    prefix: &str,
    unknown: &Vec<String>,
    r: Vec<String>,
    i: int,
)
    requires
        call_ensures(unknown_field_warning, (prefix, unknown), r),
        0 <= i < unknown@.len(),
    ensures
        r@.len() == unknown@.len(),
        text::texts(r@).contains(
            "Warning: unknown config key "@ + (if prefix@.len() > 0 {
                prefix@ + "."@
            } else {
                Seq::empty()
            }) + unknown@[i]@,
        ),
{
    broadcast use vstd::seq_lib::group_to_multiset_ensures;

    let want = text::texts(unknown@);
    let names = choose|names: Seq<Seq<char>>|
        #![trigger text::is_sorted(names)]
        {
            &&& text::is_sorted(names)
            &&& names.to_multiset() == want.to_multiset()
            &&& text::texts(r@) == names.map_values(|n: Seq<char>| unknown_field_line(prefix@, n))
        };
    let name = unknown@[i]@;
    assert(want[i] == name && want.contains(name));
    assert(want.to_multiset().count(name) > 0);
    assert(names.contains(name));
    names.to_multiset_ensures();
    want.to_multiset_ensures();
    assert(names.len() == want.len());
    let k = choose|k: int| 0 <= k < names.len() && names[k] == name;
    let line = "Warning: unknown config key "@ + (if prefix@.len() > 0 {
        prefix@ + "."@
    } else {
        Seq::empty()
    }) + name;
    assert(text::texts(r@)[k] =~= line);
    assert(text::texts(r@).len() == r@.len());
}

} // verus!
