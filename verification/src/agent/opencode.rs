//! The files that the run of an agent is given: permissions, project
//! configuration, agent definition and plugins.

use crate::agent::models;
use crate::agent::phase::AgentInvocation;
use crate::config::AgentKind;
use crate::json;
use crate::json::{Json, JsonView};
use crate::path;
use crate::text;
use crate::text_map;
use vstd::prelude::*;
use vstd::string::*;

verus! {

/// What an OpenCode run may do, tool by tool.
pub open spec fn local_permissions() -> Seq<(Seq<char>, Seq<char>)> {
    seq![
        ("bash"@, "allow"@),
        ("read"@, "allow"@),
        ("edit"@, "allow"@),
        ("write"@, "allow"@),
        ("glob"@, "allow"@),
        ("grep"@, "allow"@),
        ("task"@, "allow"@),
        ("todowrite"@, "allow"@),
        ("lsp"@, "allow"@),
        ("webfetch"@, "deny"@),
        ("websearch"@, "deny"@),
        ("skill"@, "deny"@),
    ]
}

fn permission(tool: &str, policy: &str) -> (r: (String, String))
    ensures
        r.0@ == tool@,
        r.1@ == policy@,
{
    (tool.to_owned(), policy.to_owned())
}

/// What an OpenCode run may do: tools with their policies.
pub fn opencode_local_permissions() -> (r: Vec<(String, String)>)
    ensures
        text_map::pair_views(r@) == local_permissions(),
{
    let r: Vec<(String, String)> = vec![
        permission("bash", "allow"),
        permission("read", "allow"),
        permission("edit", "allow"),
        permission("write", "allow"),
        permission("glob", "allow"),
        permission("grep", "allow"),
        permission("task", "allow"),
        permission("todowrite", "allow"),
        permission("lsp", "allow"),
        permission("webfetch", "deny"),
        permission("websearch", "deny"),
        permission("skill", "deny"),
    ];
    assert(text_map::pair_views(r@) =~= local_permissions());
    r
}

/// The run's private temp directory: the parent of the working directory.
pub fn run_tempdir(work_dir: &str) -> (r: String)
    ensures
        r@ == path::parent_or_self(work_dir@),
{
    path::parent_or(work_dir)
}

// ── Provider routing ─────────────────────────────────────────────────────

pub open spec fn object1(key: Seq<char>, v: JsonView) -> JsonView {
    JsonView::Object(seq![(key, v)])
}

/// An object with one member.
fn single(key: &str, v: Json) -> (r: Json)
    ensures
        r.view() == object1(key@, v.view()),
{
    let ghost view = v.view();
    let ms: Vec<(String, Json)> = vec![(key.to_owned(), v)];
    proof {
        json::object_view(ms);
        assert(json::member_views(ms@) =~= seq![(key@, view)]);
    }
    Json::Object(ms)
}

/// An object with two members.
fn double(key1: &str, v1: Json, key2: &str, v2: Json) -> (r: Json)
    ensures
        r.view() == JsonView::Object(seq![(key1@, v1.view()), (key2@, v2.view())]),
{
    let ghost a = v1.view();
    let ghost b = v2.view();
    let ms: Vec<(String, Json)> = vec![(key1.to_owned(), v1), (key2.to_owned(), v2)];
    proof {
        json::object_view(ms);
        assert(json::member_views(ms@) =~= seq![(key1@, a), (key2@, b)]);
    }
    Json::Object(ms)
}

/// An array of one text.
fn one_text(s: &str) -> (r: Json)
    ensures
        r.view() == JsonView::Array(seq![JsonView::Str(s@)]),
{
    let items: Vec<Json> = vec![Json::Str(s.to_owned())];
    proof {
        json::array_view(items);
        assert(json::json_views(items@) =~= seq![JsonView::Str(s@)]);
    }
    Json::Array(items)
}

/// Routes `model_id` to the endpoint of `author` alone.
pub open spec fn pin_of(model_id: Seq<char>, author: Seq<char>) -> JsonView {
    object1(
        "openrouter"@,
        object1(
            "models"@,
            object1(
                model_id,
                object1(
                    "options"@,
                    object1(
                        "provider"@,
                        JsonView::Object(
                            seq![
                                ("only"@, JsonView::Array(seq![JsonView::Str(author)])),
                                ("allow_fallbacks"@, JsonView::Bool(false)),
                            ],
                        ),
                    ),
                ),
            ),
        ),
    )
}

/// The OpenRouter model without its routing suffix.
pub open spec fn openrouter_id(model: Seq<char>) -> Option<Seq<char>> {
    if text::has_prefix(model, "openrouter/"@) {
        Some(models::before_char(model.skip("openrouter/"@.len() as int), ':'))
    } else {
        None
    }
}

pub open spec fn pin_for(model: Option<Seq<char>>) -> Option<JsonView> {
    match model {
        None => None,
        Some(m) => match openrouter_id(m) {
            None => None,
            Some(id) => {
                let author = models::before_char(id, '/');
                if author.len() == 0 {
                    None
                } else {
                    Some(pin_of(id, author))
                }
            },
        },
    }
}

/// Pins an OpenRouter model to its author's own endpoint and disables fallbacks.
/// OpenRouter load-balances each model across several upstream hosts, some with
/// a smaller context window, a higher price or worse uptime. The slug of a
/// first-party author equals the author segment of the model id. Other
/// providers route to a single upstream and need no pin.
pub fn openrouter_provider_pin(model: Option<&str>) -> (r: Option<Json>)
    ensures
        (match r {
            Some(v) => pin_for(text::opt_str(model)) == Some(v.view()),
            None => pin_for(text::opt_str(model)) is None,
        }),
{
    let m = match model {
        None => {
            return None;
        },
        Some(m) => m,
    };
    if !text::starts_with(m, "openrouter/") {
        return None;
    }
    let v = text::chars_of(m);
    let n: usize = text::chars_of("openrouter/").len();
    let rest = text::string_of(&v, n, v.len());
    assert(rest@ =~= m@.skip(n as int));
    let id = models::cut_before(rest.as_str(), ':');
    let author = models::cut_before(id.as_str(), '/');
    if author.as_str().is_empty() {
        return None;
    }
    let route = double("only", one_text(author.as_str()), "allow_fallbacks", Json::Bool(false));
    Some(
        single(
            "openrouter",
            single("models", single(id.as_str(), single("options", single("provider", route)))),
        ),
    )
}

/// What to do about the provider of the selected model.
#[derive(Debug)]
pub enum ProviderStage {
    /// Nothing is staged.
    Nothing,
    /// The provider's own definition is staged into the run's configuration.
    Stage(String, Json),
    /// The provider is in no configuration: ask whether it is a built-in one.
    ListModels(String),
}

pub enum ProviderStageView {
    Nothing,
    Stage(Seq<char>, JsonView),
    ListModels(Seq<char>),
}

impl ProviderStage {
    pub open spec fn view(&self) -> ProviderStageView {
        match *self {
            ProviderStage::Nothing => ProviderStageView::Nothing,
            ProviderStage::Stage(id, d) => ProviderStageView::Stage(id@, d.view()),
            ProviderStage::ListModels(id) => ProviderStageView::ListModels(id@),
        }
    }
}

/// What follows from a model and the resolved user configuration.
pub open spec fn provider_stage_of(
    model: Option<Seq<char>>,
    config: Option<JsonView>,
) -> ProviderStageView {
    match model {
        None => ProviderStageView::Nothing,
        Some(m) => match models::model_parts(m) {
            None => ProviderStageView::Nothing,
            Some((provider, _)) => match config {
                None => ProviderStageView::Nothing,
                Some(c) => match json::get_of(c, "provider"@) {
                    None => ProviderStageView::ListModels(provider),
                    Some(providers) => match json::get_of(providers, provider) {
                        Some(definition) => ProviderStageView::Stage(provider, definition),
                        None => ProviderStageView::ListModels(provider),
                    },
                },
            },
        },
    }
}

/// The resolved user configuration in the output of `opencode debug config`.
pub open spec fn config_in(output: Option<&str>) -> Option<JsonView> {
    match output {
        Some(s) => json::document_in(s@),
        None => None,
    }
}

/// The selected model's provider definition, for staging into the run's project
/// configuration. A run does not see the user's global configuration, so without
/// staging it holds a key to an endpoint it cannot name. Built-in providers are
/// absent from the user configuration and stage nothing. `debug_config` is the
/// output of `opencode debug config`, or nothing where that failed.
pub fn custom_provider_stage(model: Option<&str>, debug_config: Option<&str>) -> (r: ProviderStage)
    ensures
        r.view() == provider_stage_of(text::opt_str(model), config_in(debug_config)),
{
    let provider = match model {
        None => {
            return ProviderStage::Nothing;
        },
        Some(m) => match models::parse_opencode_model(m) {
            Err(_) => {
                return ProviderStage::Nothing;
            },
            Ok((provider, _)) => provider,
        },
    };
    let config = match debug_config {
        None => {
            return ProviderStage::Nothing;
        },
        Some(s) => match json::parse_json(s) {
            None => {
                return ProviderStage::Nothing;
            },
            Some(c) => c,
        },
    };
    match config.get("provider") {
        None => ProviderStage::ListModels(provider),
        Some(providers) => match providers.get(provider.as_str()) {
            Some(definition) => ProviderStage::Stage(provider, definition.copy()),
            None => ProviderStage::ListModels(provider),
        },
    }
}

pub open spec fn undefined_provider(provider: Seq<char>) -> Seq<char> {
    "OpenCode provider `"@ + provider + "` is defined nowhere: `opencode models "@ + provider
        + "` fails and `opencode debug config` has no entry for it. Define it in ~/.config/opencode/opencode.jsonc, or export OPENCODE_CONFIG to a config file that defines it, and rerun."@
}

/// A provider that is in no configuration must be a built-in one, which is to
/// say that its models can be listed. A provider defined nowhere fails the run
/// before it starts.
pub fn builtin_provider(provider: &str, listed: bool) -> (r: Result<(), String>)
    ensures
        (match r {
            Ok(_) => listed,
            Err(e) => !listed && e@ == undefined_provider(provider@),
        }),
{
    if listed {
        return Ok(());
    }
    let mut e = "OpenCode provider `".to_owned();
    e.append(provider);
    e.append("` is defined nowhere: `opencode models ");
    e.append(provider);
    e.append(
        "` fails and `opencode debug config` has no entry for it. Define it in ~/.config/opencode/opencode.jsonc, or export OPENCODE_CONFIG to a config file that defines it, and rerun.",
    );
    Err(e)
}

// ── Project configuration ────────────────────────────────────────────────

/// A staged provider as the configuration holds it.
pub open spec fn staged_of(staged: Option<&(String, Json)>) -> Option<JsonView> {
    match staged {
        Some(p) => Some(object1(p.0@, p.1.view())),
        None => None,
    }
}

/// The provider block. The pin wins over a staged entry.
pub open spec fn provider_of(model: Option<Seq<char>>, staged: Option<JsonView>) -> Option<JsonView> {
    match pin_for(model) {
        Some(p) => Some(p),
        None => staged,
    }
}

pub open spec fn provider_text(provider: Option<JsonView>) -> Seq<char> {
    match provider {
        Some(v) => ",\n  \"provider\": "@ + json::compact_json(v),
        None => ""@,
    }
}

/// The project configuration: nothing outside `tempdir` may be touched.
pub open spec fn project_config(tempdir: Seq<char>, provider: Option<JsonView>) -> Seq<char> {
    "{\n  \"$schema\": \"https://opencode.ai/config.json\",\n  \"permission\": {\n    \"external_directory\": {\n      \"*\": \"deny\",\n      "@
        + json::compact_json(JsonView::Str(tempdir + "/**"@)) + ": \"allow\"\n    }\n  }"@
        + provider_text(provider) + "\n}\n"@
}

/// Project-level OpenCode configuration. Sub-agent sessions do not inherit the
/// permission to skip questions, so in a headless run a call that touches a path
/// outside the project directory would wait forever for an answer. Allowing the
/// run's temp directory and denying everything else makes that unreachable.
pub fn opencode_project_config(
    work_dir: &str,
    model: Option<&str>,
    staged_provider: Option<&(String, Json)>,
) -> (r: String)
    ensures
        r@ == project_config(
            path::parent_or_self(work_dir@),
            provider_of(text::opt_str(model), staged_of(staged_provider)),
        ),
{
    let mut pattern = run_tempdir(work_dir);
    pattern.append("/**");
    let provider = match openrouter_provider_pin(model) {
        Some(p) => Some(p),
        None => match staged_provider {
            Some(p) => Some(single(p.0.as_str(), p.1.copy())),
            None => None,
        },
    };
    let mut block = String::new();
    if let Some(v) = &provider {
        block.append(",\n  \"provider\": ");
        block.append(json::render_compact(v).as_str());
    }
    proof {
        reveal_strlit("");
        assert(block@ =~= provider_text(provider_of(text::opt_str(model), staged_of(staged_provider))));
    }
    let mut s =
        "{\n  \"$schema\": \"https://opencode.ai/config.json\",\n  \"permission\": {\n    \"external_directory\": {\n      \"*\": \"deny\",\n      ".to_owned();
    s.append(json::render_compact(&Json::Str(pattern)).as_str());
    s.append(": \"allow\"\n    }\n  }");
    s.append(block.as_str());
    s.append("\n}\n");
    s
}

// ── Prompt block ─────────────────────────────────────────────────────────

pub const WORKDIR_BOUNDARY_TEMPLATE: &'static str = "\
### Filesystem boundary
- `{TEMPDIR}` is the ONLY directory you may read or write.
- Keep all scratch files inside the project directory.
- Prefer relative paths. Never retype the absolute temp-directory prefix
  by hand: a single typo in it makes the path \"external\" and the call is
  denied.
- When you dispatch sub-agents, copy this entire \"Filesystem boundary\"
  section into every sub-agent prompt verbatim.";

pub open spec fn boundary_of(agent: AgentKind, work_dir: Seq<char>) -> Seq<char> {
    if agent == AgentKind::OpenCode {
        text::replace_of(
            WORKDIR_BOUNDARY_TEMPLATE@,
            "{TEMPDIR}"@,
            path::parent_or_self(work_dir),
        )
    } else {
        seq![]
    }
}

/// Prompt block that tells the agent it may only touch files under this run's
/// temp directory. Rendered for OpenCode only; it replaces
/// `{WORKDIR_BOUNDARY}`.
pub fn render_workdir_boundary(agent: AgentKind, work_dir: &str) -> (r: String)
    ensures
        r@ == boundary_of(agent, work_dir@),
{
    if agent != AgentKind::OpenCode {
        return String::new();
    }
    let dir = run_tempdir(work_dir);
    proof {
        reveal_strlit("{TEMPDIR}");
    }
    text::replace(WORKDIR_BOUNDARY_TEMPLATE, "{TEMPDIR}", dir.as_str())
}

// ── Files ────────────────────────────────────────────────────────────────

/// A file to write: its path and its contents.
pub open spec fn file(dir: Seq<char>, name: Seq<char>, contents: Seq<char>) -> (Seq<char>, Seq<char>) {
    (path::joined(dir, name), contents)
}

/// The settings that confine an agent to one directory.
pub open spec fn sandbox_settings(dir: Seq<char>) -> JsonView {
    let here = JsonView::Array(seq![JsonView::Str(dir)]);
    object1(
        "sandbox"@,
        JsonView::Object(
            seq![
                ("enabled"@, JsonView::Bool(true)),
                ("allowUnsandboxedCommands"@, JsonView::Bool(false)),
                ("filesystem"@, JsonView::Object(seq![("allowRead"@, here), ("allowWrite"@, here)])),
            ],
        ),
    )
}

/// The file that confines the agent of this name to the case directory.
pub fn claude_sandbox(case_dir: &str, claude: &str) -> (r: (String, String))
    ensures
        (r.0@, r.1@) == file(
            path::joined(case_dir@, "."@ + claude@),
            "settings.json"@,
            json::compact_json(sandbox_settings(case_dir@)),
        ),
{
    let fs = double("allowRead", one_text(case_dir), "allowWrite", one_text(case_dir));
    let ghost fs_view = fs.view();
    let ms: Vec<(String, Json)> = vec![
        ("enabled".to_owned(), Json::Bool(true)),
        ("allowUnsandboxedCommands".to_owned(), Json::Bool(false)),
        ("filesystem".to_owned(), fs),
    ];
    proof {
        json::object_view(ms);
        assert(json::member_views(ms@) =~= seq![
            ("enabled"@, JsonView::Bool(true)),
            ("allowUnsandboxedCommands"@, JsonView::Bool(false)),
            ("filesystem"@, fs_view),
        ]);
    }
    let settings = single("sandbox", Json::Object(ms));
    let mut hidden = ".".to_owned();
    hidden.append(claude);
    let dir = path::join(case_dir, hidden.as_str());
    (path::join(dir.as_str(), "settings.json"), json::render_compact(&settings))
}

/// One line for each permission.
pub open spec fn permission_lines(ps: Seq<(Seq<char>, Seq<char>)>) -> Seq<char>
    decreases ps.len(),
{
    if ps.len() == 0 {
        seq![]
    } else {
        permission_lines(ps.drop_last()) + "  "@ + ps.last().0 + ": "@ + ps.last().1 + "\n"@
    }
}

/// The definition of an agent. Its body is empty on purpose: a body would
/// replace OpenCode's own system prompt.
pub open spec fn agent_definition(description: Seq<char>) -> Seq<char> {
    "---\ndescription: "@ + description + "\nmode: primary\npermission:\n"@ + permission_lines(
        local_permissions(),
    ) + "---\n"@
}

fn render_agent_definition(description: &str) -> (r: String)
    ensures
        r@ == agent_definition(description@),
{
    let ps = opencode_local_permissions();
    let ghost all = text_map::pair_views(ps@);
    let mut lines = String::new();
    let mut i: usize = 0;
    assert(all.take(0) =~= seq![]);
    while i < ps.len()
        invariant
            i <= ps@.len(),
            all == text_map::pair_views(ps@),
            lines@ == permission_lines(all.take(i as int)),
        decreases ps@.len() - i,
    {
        assert(all.take(i + 1).drop_last() =~= all.take(i as int));
        assert(all.take(i + 1).last() == (ps@[i as int].0@, ps@[i as int].1@));
        lines.append("  ");
        lines.append(ps[i].0.as_str());
        lines.append(": ");
        lines.append(ps[i].1.as_str());
        lines.append("\n");
        i = i + 1;
    }
    assert(all.take(i as int) =~= all);
    let mut s = "---\ndescription: ".to_owned();
    s.append(description);
    s.append("\nmode: primary\npermission:\n");
    s.append(lines.as_str());
    s.append("---\n");
    s
}

/// The plugins an OpenCode run is given, as they are shipped.
#[derive(Debug)]
pub struct OpenCodePlugins {
    /// Rewrites an empty sub-agent result into an explicit failure report.
    pub resilience: String,
    /// Restores the plan files after a compaction. `{RECOVERY_CMD}` stands for
    /// the command that prints them.
    pub compaction: String,
}

/// The command that prints an agent's memory files.
pub open spec fn recovery_command_of(files: Seq<Seq<char>>) -> Seq<char> {
    "cat "@ + text::join_of(files, " "@)
}

/// The files of an OpenCode agent.
pub open spec fn opencode_files(
    work_dir: Seq<char>,
    name: Seq<char>,
    description: Seq<char>,
    recovery_command: Option<Seq<char>>,
    config: Seq<char>,
    plugins: OpenCodePlugins,
) -> Seq<(Seq<char>, Seq<char>)> {
    let plugin_dir = path::joined(work_dir, ".opencode/plugin"@);
    seq![
        file(work_dir, ".opencode/opencode.json"@, config),
        file(
            path::joined(work_dir, ".opencode/agents"@),
            name + ".md"@,
            agent_definition(description),
        ),
        file(plugin_dir, "harvest-resilience.js"@, plugins.resilience@),
    ] + match recovery_command {
        Some(cmd) => seq![
            file(
                plugin_dir,
                "compaction-recovery.js"@,
                text::replace_of(plugins.compaction@, "{RECOVERY_CMD}"@, cmd),
            ),
        ],
        None => seq![],
    }
}

/// The files of an OpenCode agent, in the order in which they are written.
/// Without a recovery command there is nothing to recover, and no plugin for it.
pub fn write_opencode_agent(
    work_dir: &str,
    name: &str,
    description: &str,
    recovery_command: Option<&str>,
    config: &str,
    plugins: &OpenCodePlugins,
) -> (r: Vec<(String, String)>)
    ensures
        text_map::pair_views(r@) == opencode_files(
            work_dir@,
            name@,
            description@,
            text::opt_str(recovery_command),
            config@,
            *plugins,
        ),
{
    let agents_dir = path::join(work_dir, ".opencode/agents");
    let plugin_dir = path::join(work_dir, ".opencode/plugin");
    let mut md = name.to_owned();
    md.append(".md");
    let mut out: Vec<(String, String)> = vec![
        (path::join(work_dir, ".opencode/opencode.json"), config.to_owned()),
        (path::join(agents_dir.as_str(), md.as_str()), render_agent_definition(description)),
        (path::join(plugin_dir.as_str(), "harvest-resilience.js"), plugins.resilience.clone()),
    ];
    if let Some(cmd) = recovery_command {
        proof {
            reveal_strlit("{RECOVERY_CMD}");
        }
        let plugin = text::replace(plugins.compaction.as_str(), "{RECOVERY_CMD}", cmd);
        out.push((path::join(plugin_dir.as_str(), "compaction-recovery.js"), plugin));
    }
    assert(text_map::pair_views(out@) =~= opencode_files(
        work_dir@,
        name@,
        description@,
        text::opt_str(recovery_command),
        config@,
        *plugins,
    ));
    out
}

/// The files that an agent needs before it is started.
pub open spec fn agent_files(
    invocation: AgentInvocation,
    staged: Option<JsonView>,
    plugins: OpenCodePlugins,
) -> Seq<(Seq<char>, Seq<char>)> {
    let dir = path::parent_or_self(invocation.work_dir@);
    match invocation.agent {
        AgentKind::Kiro => seq![],
        AgentKind::Claude => seq![
            file(
                path::joined(dir, "."@ + invocation.claude.name@),
                "settings.json"@,
                json::compact_json(sandbox_settings(dir)),
            ),
        ],
        AgentKind::OpenCode => opencode_files(
            invocation.work_dir@,
            invocation.phase.opencode_name(),
            invocation.phase.description_of(),
            if invocation.has_plan_files() {
                Some(recovery_command_of(invocation.phase.memory_files()))
            } else {
                None
            },
            project_config(dir, provider_of(text::opt_text(invocation.model), staged)),
            plugins,
        ),
    }
}

/// The files that an agent needs before it is started, in the order in which
/// they are written. The recovery files do not exist when plan files are
/// disabled, so neither does the plugin that restores them.
pub fn prepare_agent_files(
    invocation: &AgentInvocation,
    staged_provider: Option<&(String, Json)>,
    plugins: &OpenCodePlugins,
) -> (r: Vec<(String, String)>)
    ensures
        text_map::pair_views(r@) == agent_files(
            *invocation,
            staged_of(staged_provider),
            *plugins,
        ),
{
    match invocation.agent {
        AgentKind::Kiro => {
            let r: Vec<(String, String)> = Vec::new();
            assert(text_map::pair_views(r@) =~= seq![]);
            r
        },
        AgentKind::Claude => {
            let case_dir = run_tempdir(invocation.work_dir.as_str());
            let r: Vec<(String, String)> = vec![
                claude_sandbox(case_dir.as_str(), invocation.claude.name.as_str()),
            ];
            assert(text_map::pair_views(r@) =~= agent_files(
                *invocation,
                staged_of(staged_provider),
                *plugins,
            ));
            r
        },
        AgentKind::OpenCode => {
            let model = match &invocation.model {
                Some(m) => Some(m.as_str()),
                None => None,
            };
            let config = opencode_project_config(
                invocation.work_dir.as_str(),
                model,
                staged_provider,
            );
            let mut cmd = "cat ".to_owned();
            let files = invocation.phase.recovery_files();
            cmd.append(text::join(&files, " ").as_str());
            let recovery = if invocation.plan_files_enabled() {
                Some(cmd.as_str())
            } else {
                None
            };
            write_opencode_agent(
                invocation.work_dir.as_str(),
                invocation.phase.opencode_agent_name(),
                invocation.phase.opencode_description(),
                recovery,
                config.as_str(),
                plugins,
            )
        },
    }
}

/// The pin wins over a staged entry, whatever the entry is.
pub proof fn pin_wins(model: Option<Seq<char>>, staged: Option<JsonView>)
    requires
        pin_for(model) is Some,
    ensures
        provider_of(model, staged) == pin_for(model),
{
}

/// Only OpenRouter models are pinned.
pub proof fn others_are_not_pinned(model: Seq<char>)
    requires
        !text::has_prefix(model, "openrouter/"@),
    ensures
        pin_for(Some(model)) is None,
{
}

} // verus!
