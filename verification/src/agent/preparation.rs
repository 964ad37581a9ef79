//! What holds of how an agent is prepared: its model, its files, its toolchain, and
//! the sessions that it leaves behind.

use crate::agent::invoke::{done_line, exit_lines, log_path, record_prompt, start_line};
use crate::agent::models;
use crate::agent::models::{
    claude_uses_ccr, extract_model_limits_from_output, limits_of_entry, load_opencode_model_limits,
    parse_opencode_model, LimitsLookup, OpenCodeModelLimits,
};
use crate::agent::opencode;
use crate::agent::opencode::{
    builtin_provider, custom_provider_stage, opencode_local_permissions, opencode_project_config,
    openrouter_provider_pin, prepare_agent_files, OpenCodePlugins, ProviderStage,
};
use crate::agent::phase::{AgentInvocation, AgentPhase};
use crate::agent::sessions;
use crate::agent::sessions::{
    exported_json, extract_session_ids_from_log, extract_sub_session_ids_from_export,
};
use crate::agent::toolchain;
use crate::agent::toolchain::{
    detect_rust_toolchain_context, parse_rustc_semver, RustToolchainContext, ToolchainFacts,
};
use crate::config::AgentKind;
use crate::json;
use crate::json::{Json, JsonView};
use crate::path;
use crate::text;
use crate::text_map;
use vstd::prelude::*;

verus! {

// ── Models ───────────────────────────────────────────────────────────────

/// A model name is split at its first slash; what follows a colon in the rest is no
/// part of the registry id. A name without a provider or without a model is refused.
pub proof fn models_are_split_at_the_first_slash(
    model: &str,
    r: Result<(String, String), String>,
    provider: Seq<char>,
    id: Seq<char>,
    suffix: Seq<char>,
)
    requires
        call_ensures(parse_opencode_model, (model,), r),
        text::lacks(provider, '/'),
        text::lacks(id, ':'),
    ensures
        model@ == provider + seq!['/'] + id && provider.len() > 0 && id.len() > 0 ==> (r matches Ok(
            p,
        ) && p.0@ == provider && p.1@ == id),
        model@ == provider + seq!['/'] + id + seq![':'] + suffix && provider.len() > 0 ==> (
        r matches Ok(p) && p.0@ == provider && p.1@ == id),
        text::lacks(model@, '/') ==> r is Err,
        model@ == seq!['/'] + id ==> r is Err,
        model@ == provider + seq!['/'] ==> r is Err,
{
    let m = model@;
    let n = provider.len() as int;
    if m == provider + seq!['/'] + id {
        assert forall|j: int| 0 <= j < n implies m[j] != '/' by {
            assert(m[j] == provider[j]);
        }
        text::index_of_unique(m, '/', n);
        assert(m.take(n) =~= provider);
        assert(m.skip(n + 1) =~= id);
        text::index_of_unique(id, ':', id.len() as int);
        assert(id.take(id.len() as int) =~= id);
    }
    if m == provider + seq!['/'] + id + seq![':'] + suffix {
        assert forall|j: int| 0 <= j < n implies m[j] != '/' by {
            assert(m[j] == provider[j]);
        }
        text::index_of_unique(m, '/', n);
        assert(m.take(n) =~= provider);
        let rest = m.skip(n + 1);
        assert(rest =~= id + seq![':'] + suffix);
        assert forall|j: int| 0 <= j < id.len() implies rest[j] != ':' by {
            assert(rest[j] == id[j]);
        }
        text::index_of_unique(rest, ':', id.len() as int);
        assert(rest.take(id.len() as int) =~= id);
    }
    if text::lacks(m, '/') {
        text::index_of_unique(m, '/', m.len() as int);
    }
    if m == seq!['/'] + id {
        text::index_of_unique(m, '/', 0);
    }
    if m == provider + seq!['/'] {
        assert forall|j: int| 0 <= j < n implies m[j] != '/' by {
            assert(m[j] == provider[j]);
        }
        text::index_of_unique(m, '/', n);
    }
}

/// The limits are those of the entry of just this model, and only if it tells its
/// context window.
pub proof fn limits_belong_to_their_model(
    entry: &Json,
    provider: &str,
    id: &str,
    r: Option<OpenCodeModelLimits>,
)
    requires
        call_ensures(limits_of_entry, (entry, provider, id), r),
        provider@.len() > 0,
        id@.len() > 0,
    ensures
        r is Some <==> {
            &&& json::get_str_of(entry.view(), "providerID"@) == Some(provider@)
            &&& json::get_str_of(entry.view(), "id"@) == Some(id@)
            &&& json::get_of(entry.view(), "limit"@) matches Some(limit) && json::get_u64_of(
                limit,
                "context"@,
            ) is Some
        },
        r matches Some(l) ==> {
            let limit = json::get_of(entry.view(), "limit"@)->0;
            &&& json::get_u64_of(limit, "context"@) == Some(l.context)
            &&& json::get_u64_of(limit, "output"@) == l.output
        },
{
}

/// A registry entry on a line of its own is found.
pub proof fn entries_of_a_listing_are_found(
    output: &str,
    provider: &str,
    id: &str,
    r: Option<OpenCodeModelLimits>,
    line: Seq<char>,
    entry: Json,
    l: Option<OpenCodeModelLimits>,
)
    requires
        call_ensures(extract_model_limits_from_output, (output, provider, id), r),
        text::lines_of(output@) == seq![line],
        text::has_prefix(text::trim_of(line), "{"@),
        text::count_of(text::trim_of(line), '{') == text::count_of(text::trim_of(line), '}'),
        json::document_in(text::trim_of(line)) == Some(entry.view()),
        call_ensures(limits_of_entry, (&entry, provider, id), l),
    ensures
        r == l,
{
    let lines = seq![line];
    let now = Seq::<Seq<char>>::empty().push(text::trim_of(line));
    assert(lines.skip(1) =~= seq![]);
    assert(models::limits_in_lines(lines.skip(1), seq![], 0, provider@, id@) is None);
    assert(text::join_of(now, "\n"@) == text::trim_of(line));
    assert(Seq::<Seq<char>>::empty() =~= seq![]);
}

/// The listing of the provider comes first; all listings are asked for only if it does
/// not have the model, and the search fails only if they do not have it either.
pub proof fn listings_are_asked_in_order(
    model: &str,
    provider_output: &str,
    all_output: Option<&str>,
    r: Result<LimitsLookup, String>,
    parts: (String, String),
    provider: &str,
    id: &str,
    first: Option<OpenCodeModelLimits>,
    second: Option<OpenCodeModelLimits>,
)
    requires
        call_ensures(load_opencode_model_limits, (model, provider_output, all_output), r),
        call_ensures(parse_opencode_model, (model,), Ok::<(String, String), String>(parts)),
        parts.0@ == provider@,
        parts.1@ == id@,
        call_ensures(extract_model_limits_from_output, (provider_output, provider, id), first),
        all_output matches Some(all) ==> call_ensures(
            extract_model_limits_from_output,
            (all, provider, id),
            second,
        ),
    ensures
        first matches Some(l) ==> r == Ok::<LimitsLookup, String>(LimitsLookup::Found(l)),
        first is None && all_output is None ==> r == Ok::<LimitsLookup, String>(
            LimitsLookup::AskAll,
        ),
        first is None && all_output is Some ==> match second {
            Some(l) => r == Ok::<LimitsLookup, String>(LimitsLookup::Found(l)),
            None => r is Err,
        },
{
}

/// A model goes through the router exactly if a comma is in its name.
pub proof fn routed_models_have_a_comma(model: &str, r: bool)
    requires
        call_ensures(claude_uses_ccr, (Some(model),), r),
    ensures
        !r <==> text::lacks(model@, ','),
{
    if !text::lacks(model@, ',') {
        let i = choose|i: int| 0 <= i < model@.len() && model@[i] == ',';
        assert(model@.contains(','));
    }
}

// ── Files ────────────────────────────────────────────────────────────────

/// An agent may use the tools of the machine, but neither the network nor skills.
pub proof fn the_network_is_denied(r: Vec<(String, String)>, tool: Seq<char>)
    requires
        call_ensures(opencode_local_permissions, (), r),
    ensures
        ({
            let all = text_map::pair_views(r@);
            &&& all.contains((tool, "deny"@)) <==> tool == "webfetch"@ || tool == "websearch"@
                || tool == "skill"@
            &&& all.contains((tool, "allow"@)) <==> tool == "bash"@ || tool == "read"@ || tool
                == "edit"@ || tool == "write"@ || tool == "glob"@ || tool == "grep"@ || tool
                == "task"@ || tool == "todowrite"@ || tool == "lsp"@
            &&& all.len() == 12
        }),
{
    let all = opencode::local_permissions();
    reveal_strlit("allow");
    reveal_strlit("deny");
    assert("allow"@.len() != "deny"@.len());
    assert(all[0].0 == "bash"@ && all[1].0 == "read"@ && all[2].0 == "edit"@ && all[3].0
        == "write"@ && all[4].0 == "glob"@ && all[5].0 == "grep"@ && all[6].0 == "task"@
        && all[7].0 == "todowrite"@ && all[8].0 == "lsp"@ && all[9].0 == "webfetch"@ && all[10].0
        == "websearch"@ && all[11].0 == "skill"@);
    assert(forall|i: int| 0 <= i < 9 ==> (#[trigger] all[i]).1 == "allow"@);
    assert(forall|i: int| 9 <= i < 12 ==> (#[trigger] all[i]).1 == "deny"@);
    if tool == "webfetch"@ {
        assert(all[9] == (tool, "deny"@));
    }
    if tool == "websearch"@ {
        assert(all[10] == (tool, "deny"@));
    }
    if tool == "skill"@ {
        assert(all[11] == (tool, "deny"@));
    }
    if tool == "bash"@ {
        assert(all[0] == (tool, "allow"@));
    }
    if tool == "read"@ {
        assert(all[1] == (tool, "allow"@));
    }
    if tool == "edit"@ {
        assert(all[2] == (tool, "allow"@));
    }
    if tool == "write"@ {
        assert(all[3] == (tool, "allow"@));
    }
    if tool == "glob"@ {
        assert(all[4] == (tool, "allow"@));
    }
    if tool == "grep"@ {
        assert(all[5] == (tool, "allow"@));
    }
    if tool == "task"@ {
        assert(all[6] == (tool, "allow"@));
    }
    if tool == "todowrite"@ {
        assert(all[7] == (tool, "allow"@));
    }
    if tool == "lsp"@ {
        assert(all[8] == (tool, "allow"@));
    }
}

/// A model of OpenRouter is pinned to the endpoint of its author, without fallbacks;
/// other models are not pinned.
pub proof fn routed_models_are_pinned_to_their_author(
    model: &str,
    r: Option<Json>,
    author: Seq<char>,
    name: Seq<char>,
)
    requires
        call_ensures(openrouter_provider_pin, (Some(model),), r),
        author.len() > 0,
        text::lacks(author, '/'),
        text::lacks(author, ':'),
        text::lacks(name, ':'),
    ensures
        !text::has_prefix(model@, "openrouter/"@) ==> r is None,
        model@ == "openrouter/"@ + author + seq!['/'] + name ==> (r matches Some(v) && v.view()
            == JsonView::Object(
            seq![
                (
                    "openrouter"@,
                    JsonView::Object(
                        seq![
                            (
                                "models"@,
                                JsonView::Object(
                                    seq![
                                        (
                                            author + seq!['/'] + name,
                                            JsonView::Object(
                                                seq![
                                                    (
                                                        "options"@,
                                                        JsonView::Object(
                                                            seq![
                                                                (
                                                                    "provider"@,
                                                                    JsonView::Object(
                                                                        seq![
                                                                            (
                                                                                "only"@,
                                                                                JsonView::Array(
                                                                                    seq![
                                                                                        JsonView::Str(
                                                                                            author,
                                                                                        ),
                                                                                    ],
                                                                                ),
                                                                            ),
                                                                            (
                                                                                "allow_fallbacks"@,
                                                                                JsonView::Bool(
                                                                                    false,
                                                                                ),
                                                                            ),
                                                                        ],
                                                                    ),
                                                                ),
                                                            ],
                                                        ),
                                                    ),
                                                ],
                                            ),
                                        ),
                                    ],
                                ),
                            ),
                        ],
                    ),
                ),
            ],
        )),
{
    let head = "openrouter/"@;
    let id = author + seq!['/'] + name;
    if model@ == head + author + seq!['/'] + name {
        assert(model@ =~= head + id);
        assert(model@.subrange(0, head.len() as int) =~= head);
        assert(model@.skip(head.len() as int) =~= id);
        assert forall|j: int| 0 <= j < id.len() implies id[j] != ':' by {
            if j < author.len() {
                assert(id[j] == author[j]);
            } else if j > author.len() {
                assert(id[j] == name[j - author.len() - 1]);
            }
        }
        text::index_of_unique(id, ':', id.len() as int);
        assert(id.take(id.len() as int) =~= id);
        assert forall|j: int| 0 <= j < author.len() implies id[j] != '/' by {
            assert(id[j] == author[j]);
        }
        text::index_of_unique(id, '/', author.len() as int);
        assert(id.take(author.len() as int) =~= author);
    }
}

/// The provider of a model is staged as the user has defined it. One that is not
/// defined has to be a built-in one; without a configuration nothing is staged.
pub proof fn providers_are_staged_as_defined(
    model: &str,
    debug_config: Option<&str>,
    r: ProviderStage,
    parts: (String, String),
)
    requires
        call_ensures(custom_provider_stage, (Some(model), debug_config), r),
        call_ensures(parse_opencode_model, (model,), Ok::<(String, String), String>(parts)),
    ensures
        debug_config is None ==> r is Nothing,
        debug_config matches Some(s) ==> match json::document_in(s@) {
            None => r is Nothing,
            Some(c) => match json::get_of(c, "provider"@) {
                None => r matches ProviderStage::ListModels(p) && p@ == parts.0@,
                Some(ps) => match json::get_of(ps, parts.0@) {
                    Some(d) => r matches ProviderStage::Stage(p, v) && p@ == parts.0@ && v.view()
                        == d,
                    None => r matches ProviderStage::ListModels(p) && p@ == parts.0@,
                },
            },
        },
{
}

/// A provider that nobody defines is an error exactly if it is not built in.
pub proof fn unknown_providers_are_refused(provider: &str, listed: bool, r: Result<(), String>)
    requires
        call_ensures(builtin_provider, (provider, listed), r),
    ensures
        r is Err <==> !listed,
{
}

/// The project configuration denies every directory but the one that holds the working
/// directory.
pub proof fn only_the_own_directory_is_allowed(
    work_dir: &str,
    model: Option<&str>,
    staged: Option<&(String, Json)>,
    r: String,
)
    requires
        call_ensures(opencode_project_config, (work_dir, model, staged), r),
    ensures
        ({
            let head =
                "{\n  \"$schema\": \"https://opencode.ai/config.json\",\n  \"permission\": {\n    \"external_directory\": {\n      \"*\": \"deny\",\n      "@;
            let own = json::compact_json(
                JsonView::Str(path::parent_or_self(work_dir@) + "/**"@),
            );
            text::has_prefix(r@, head + own + ": \"allow\"\n    }\n  }"@)
        }),
{
    let head =
        "{\n  \"$schema\": \"https://opencode.ai/config.json\",\n  \"permission\": {\n    \"external_directory\": {\n      \"*\": \"deny\",\n      "@;
    let own = json::compact_json(JsonView::Str(path::parent_or_self(work_dir@) + "/**"@));
    let p = head + own + ": \"allow\"\n    }\n  }"@;
    assert(r@.subrange(0, p.len() as int) =~= p);
}

/// Kiro needs no files, the next agent is confined by its settings beside the working
/// directory, and OpenCode has its configuration, its definition and its plugins in it;
/// the plugin that restores plan files is there exactly if there are plan files.
pub proof fn agents_get_their_files(
    invocation: &AgentInvocation,
    staged: Option<&(String, Json)>,
    plugins: &OpenCodePlugins,
    r: Vec<(String, String)>,
)
    requires
        call_ensures(prepare_agent_files, (invocation, staged, plugins), r),
    ensures
        ({
            let dir = invocation.work_dir@;
            &&& invocation.agent == AgentKind::Kiro ==> r@.len() == 0
            &&& invocation.agent == AgentKind::Claude ==> r@.len() == 1 && r@[0].0@ == path::joined(
                path::joined(path::parent_or_self(dir), "."@ + invocation.claude.name@),
                "settings.json"@,
            )
            &&& invocation.agent == AgentKind::OpenCode ==> {
                &&& r@.len() == (if invocation.no_plan || invocation.no_plan_file {
                    3int
                } else {
                    4int
                })
                &&& r@[0].0@ == path::joined(dir, ".opencode/opencode.json"@)
                &&& r@[1].0@ == path::joined(
                    path::joined(dir, ".opencode/agents"@),
                    (match invocation.phase {
                        AgentPhase::Translate => "harvest-translate"@,
                        AgentPhase::Verify => "harvest-verify"@,
                        AgentPhase::Conform => "harvest-conform"@,
                    }) + ".md"@,
                )
                &&& r@[2].0@ == path::joined(
                    path::joined(dir, ".opencode/plugin"@),
                    "harvest-resilience.js"@,
                )
                &&& r@[2].1@ == plugins.resilience@
                &&& !invocation.no_plan && !invocation.no_plan_file ==> r@[3].0@ == path::joined(
                    path::joined(dir, ".opencode/plugin"@),
                    "compaction-recovery.js"@,
                )
            }
        }),
{
    let v = text_map::pair_views(r@);
    assert(v.len() == r@.len());
    assert(forall|i: int| 0 <= i < r@.len() ==> #[trigger] v[i] == (r@[i].0@, r@[i].1@));
    if r@.len() > 0 {
        assert(v[0] == (r@[0].0@, r@[0].1@));
    }
    if r@.len() > 2 {
        assert(v[1] == (r@[1].0@, r@[1].1@));
        assert(v[2] == (r@[2].0@, r@[2].1@));
    }
    if r@.len() > 3 {
        assert(v[3] == (r@[3].0@, r@[3].1@));
    }
}

// ── Toolchain ────────────────────────────────────────────────────────────

/// There is a contract exactly if a version is stated, all that is stated agrees, and
/// the active compiler is of that version. The contract is for that version, and keeps
/// the checkout it was read from.
pub proof fn contracts_need_agreement(
    facts: &ToolchainFacts,
    r: Result<RustToolchainContext, String>,
    rustc: &str,
    active: Option<String>,
)
    requires
        call_ensures(detect_rust_toolchain_context, (facts,), r),
        facts.rustc_version matches Ok(v) ==> v@ == rustc@,
        call_ensures(parse_rustc_semver, (rustc,), active),
    ensures
        r is Ok <==> {
            &&& facts.rustc_version is Ok
            &&& facts.cargo_version is Ok
            &&& active is Some
            &&& facts.cando2_version is Some || facts.corpus_channel is Some
                || facts.root_channel is Some
            &&& facts.cando2_version is Some ==> facts.cando2_version->0@ == active->0@
            &&& facts.corpus_channel is Some ==> facts.corpus_channel->0@ == active->0@
            &&& facts.root_channel is Some ==> facts.root_channel->0@ == active->0@
        },
        r matches Ok(c) ==> {
            &&& c.required_version@ == active->0@
            &&& c.test_corpus_root is Some <==> facts.corpus_root is Some
            &&& c.test_corpus_root matches Some(p) ==> p@ == facts.corpus_root->0@
            &&& text::contains_text(c.prompt_block@, c.required_version@)
        },
{
    if let Ok(c) = r {
        let required = c.required_version@;
        let head = "### Rust toolchain contract\n- Required Rust toolchain: `"@;
        let n = head.len() as int;
        assert(toolchain::contract_of(*facts) is Context);
        assert(c.prompt_block@.subrange(n, n + required.len()) =~= required);
        assert(text::occurs_at(c.prompt_block@, required, n));
    }
}

// ── Sessions ─────────────────────────────────────────────────────────────

/// Whether a line of a log names this session.
pub open spec fn names_session(line: Seq<char>, id: Seq<char>) -> bool {
    let l = text::trim_of(line);
    &&& text::has_prefix(l, "{"@)
    &&& json::document_in(l) matches Some(v) && json::get_str_of(v, "sessionID"@) == Some(id)
}

proof fn sessions_named(lines: Seq<Seq<char>>, id: Seq<char>)
    ensures
        sessions::ids_in_lines(lines).contains(id) <==> exists|i: int|
            0 <= i < lines.len() && names_session(#[trigger] lines[i], id),
    decreases lines.len(),
{
    if lines.len() > 0 {
        let front = lines.drop_last();
        sessions_named(front, id);
        let before = sessions::ids_in_lines(front);
        let all = sessions::ids_in_lines(lines);
        assert(sessions::id_on_line(lines.last()) == Some(id) <==> names_session(lines.last(), id));
        if before.contains(id) {
            let k = choose|k: int| 0 <= k < before.len() && before[k] == id;
            assert(all[k] == id);
            let i = choose|i: int| 0 <= i < front.len() && names_session(#[trigger] front[i], id);
            assert(lines[i] == front[i]);
        }
        if names_session(lines.last(), id) {
            assert(lines[lines.len() - 1] == lines.last());
            if !before.contains(id) {
                assert(all[before.len() as int] == id);
            }
        }
        if exists|i: int| 0 <= i < lines.len() && names_session(#[trigger] lines[i], id) {
            let i = choose|i: int| 0 <= i < lines.len() && names_session(#[trigger] lines[i], id);
            if i < front.len() {
                assert(front[i] == lines[i]);
            }
        }
        if all.contains(id) && !before.contains(id) {
            let k = choose|k: int| 0 <= k < all.len() && all[k] == id;
            if k < before.len() {
                assert(before[k] == id);
            }
        }
    }
}

/// The sessions of a log are those that its lines name, each once.
pub proof fn sessions_are_read_from_the_log(log: &str, r: Vec<String>, id: Seq<char>)
    requires
        call_ensures(extract_session_ids_from_log, (log,), r),
    ensures
        text::texts(r@).no_duplicates(),
        text::texts(r@).contains(id) <==> exists|i: int|
            0 <= i < text::lines_of(log@).len() && names_session(
                #[trigger] text::lines_of(log@)[i],
                id,
            ),
{
    sessions::ids_are_distinct(text::lines_of(log@));
    sessions_named(text::lines_of(log@), id);
}

/// Whether a part of a message is a task with a session of its own.
pub open spec fn starts_session(part: JsonView, id: Seq<char>) -> bool {
    &&& id.len() > 0
    &&& json::get_str_of(part, "tool"@) == Some("task"@)
    &&& json::get_of(part, "state"@) matches Some(state) && json::get_of(
        state,
        "metadata"@,
    ) matches Some(m) && (json::get_str_of(m, "sessionID"@) == Some(id) || (json::get_of(
        m,
        "sessionID"@,
    ) is None && json::get_str_of(m, "sessionId"@) == Some(id)) || (json::get_of(
        m,
        "sessionID"@,
    ) is None && json::get_of(m, "sessionId"@) is None && json::get_str_of(m, "session_id"@)
        == Some(id)))
}

proof fn parts_start(parts: Seq<JsonView>, id: Seq<char>)
    ensures
        sessions::children_in_parts(parts).contains(id) <==> exists|i: int|
            0 <= i < parts.len() && starts_session(#[trigger] parts[i], id),
    decreases parts.len(),
{
    if parts.len() > 0 {
        let front = parts.drop_last();
        let last = parts.last();
        parts_start(front, id);
        let before = sessions::children_in_parts(front);
        let all = sessions::children_in_parts(parts);
        assert(sessions::child_of(last) == Some(id) <==> starts_session(last, id));
        assert(parts[parts.len() - 1] == last);
        if before.contains(id) {
            let k = choose|k: int| 0 <= k < before.len() && before[k] == id;
            assert(all[k] == id);
            let i = choose|i: int| 0 <= i < front.len() && starts_session(#[trigger] front[i], id);
            assert(parts[i] == front[i]);
        }
        if starts_session(last, id) {
            assert(all[before.len() as int] == id);
        }
        if exists|i: int| 0 <= i < parts.len() && starts_session(#[trigger] parts[i], id) {
            let i = choose|i: int| 0 <= i < parts.len() && starts_session(#[trigger] parts[i], id);
            if i < front.len() {
                assert(front[i] == parts[i]);
            }
        }
        if all.contains(id) && !before.contains(id) {
            let k = choose|k: int| 0 <= k < all.len() && all[k] == id;
            if k < before.len() {
                assert(before[k] == id);
            }
        }
    }
}

/// Whether a message has a part that starts this session.
pub open spec fn message_starts(message: JsonView, id: Seq<char>) -> bool {
    json::get_of(message, "parts"@) matches Some(JsonView::Array(parts)) && exists|i: int|
        0 <= i < parts.len() && starts_session(#[trigger] parts[i], id)
}

proof fn messages_start(messages: Seq<JsonView>, id: Seq<char>)
    ensures
        sessions::children_in_messages(messages).contains(id) <==> exists|i: int|
            0 <= i < messages.len() && message_starts(#[trigger] messages[i], id),
    decreases messages.len(),
{
    if messages.len() > 0 {
        let front = messages.drop_last();
        let last = messages.last();
        messages_start(front, id);
        let before = sessions::children_in_messages(front);
        let here = sessions::children_in_parts(sessions::array_at(last, "parts"@));
        let all = sessions::children_in_messages(messages);
        parts_start(sessions::array_at(last, "parts"@), id);
        assert(here.contains(id) <==> message_starts(last, id));
        assert(messages[messages.len() - 1] == last);
        if before.contains(id) {
            let k = choose|k: int| 0 <= k < before.len() && before[k] == id;
            assert(all[k] == id);
            let i = choose|i: int| 0 <= i < front.len() && message_starts(#[trigger] front[i], id);
            assert(messages[i] == front[i]);
        }
        if here.contains(id) {
            let k = choose|k: int| 0 <= k < here.len() && here[k] == id;
            assert(all[before.len() + k] == id);
        }
        if exists|i: int| 0 <= i < messages.len() && message_starts(#[trigger] messages[i], id) {
            let i = choose|i: int|
                0 <= i < messages.len() && message_starts(#[trigger] messages[i], id);
            if i < front.len() {
                assert(front[i] == messages[i]);
            }
        }
        if all.contains(id) {
            let k = choose|k: int| 0 <= k < all.len() && all[k] == id;
            if k < before.len() {
                assert(before[k] == id);
            } else {
                assert(here[k - before.len()] == id);
            }
        }
    }
}

/// The sub-sessions of an export are those that its messages start by a task.
pub proof fn tasks_start_sessions(export: &Json, r: Vec<String>, id: Seq<char>)
    requires
        call_ensures(extract_sub_session_ids_from_export, (export,), r),
    ensures
        text::texts(r@).contains(id) <==> (json::get_of(export.view(), "messages"@) matches Some(
            JsonView::Array(messages),
        ) && exists|i: int|
            0 <= i < messages.len() && message_starts(#[trigger] messages[i], id)),
{
    messages_start(sessions::array_at(export.view(), "messages"@), id);
}

/// What an export prints before its first bracket is dropped, and the rest has to be
/// valid.
pub proof fn exports_start_at_their_first_bracket(
    session_id: &str,
    stdout: &str,
    r: Result<String, String>,
    noise: Seq<char>,
    rest: Seq<char>,
)
    requires
        call_ensures(exported_json, (session_id, stdout), r),
        stdout@ == noise + rest,
        text::lacks(noise, '{'),
        rest.len() > 0,
        rest[0] == '{',
    ensures
        json::parsed_json(rest) is Ok ==> (r matches Ok(s) && s@ == rest),
        json::parsed_json(rest) is Err ==> r is Err,
{
    let n = noise.len() as int;
    assert forall|j: int| 0 <= j < n implies stdout@[j] != '{' by {
        assert(stdout@[j] == noise[j]);
    }
    assert(stdout@[n] == rest[0]);
    text::index_of_unique(stdout@, '{', n);
    assert(stdout@.skip(n) =~= rest);
}

// ── Records ──────────────────────────────────────────────────────────────

/// Every phase has a log of its own, beside the working directory.
pub proof fn phases_have_their_own_log(invocation: &AgentInvocation, r: String)
    requires
        call_ensures(log_path, (invocation,), r),
    ensures
        r@ == path::joined(
            path::joined(path::parent_or_self(invocation.work_dir@), "logs"@),
            match invocation.phase {
                AgentPhase::Translate => "translation.log"@,
                AgentPhase::Verify => "verify.log"@,
                AgentPhase::Conform => "conform.log"@,
            },
        ),
{
}

/// The prompt is recorded as it was sent, in a file of its phase. What one of the agents
/// is told on top is recorded beside it, where there are plan files.
pub proof fn prompts_are_recorded(
    invocation: &AgentInvocation,
    dir: &str,
    r: Vec<(String, String)>,
)
    requires
        call_ensures(record_prompt, (invocation, dir), r),
    ensures
        ({
            let told = invocation.agent == AgentKind::Claude && !invocation.no_plan
                && !invocation.no_plan_file;
            &&& r@.len() == (if told {
                2int
            } else {
                1int
            })
            &&& r@[0].1@ == invocation.prompt@
            &&& r@[0].0@ == path::joined(
                dir@,
                match invocation.phase {
                    AgentPhase::Translate => "translation-prompt.md"@,
                    AgentPhase::Verify => "verify-prompt.md"@,
                    AgentPhase::Conform => "conform-prompt.md"@,
                },
            )
            &&& told ==> r@[1].1@ == (match invocation.phase {
                AgentPhase::Translate =>
                    "After any context compaction, you MUST first read PLAN.md."@,
                AgentPhase::Verify =>
                    "After any context compaction, you MUST first read PLAN.md and HYPOTHESES.md."@,
                AgentPhase::Conform =>
                    "After any context compaction, you MUST first read CONFORM.md."@,
            })
        }),
{
    let v = text_map::pair_views(r@);
    assert(v.len() == r@.len());
    assert(v[0] == (r@[0].0@, r@[0].1@));
    if r@.len() > 1 {
        assert(v[1] == (r@[1].0@, r@[1].1@));
    }
}

/// A failed process is warned of, and the sessions of OpenCode are exported however its
/// process ended.
pub proof fn exits_are_told(
    invocation: &AgentInvocation,
    status: &str,
    success: bool,
    r: Vec<String>,
)
    requires
        call_ensures(exit_lines, (invocation, status, success), r),
    ensures
        r@.len() == (if success {
            0int
        } else {
            1int
        }) + (if invocation.agent == AgentKind::OpenCode {
            1int
        } else {
            0int
        }),
        !success ==> text::has_prefix(r@[0]@, "WARNING: "@) && text::has_suffix(r@[0]@, status@),
{
    let all = text::texts(r@);
    assert(all.len() == r@.len());
    if !success {
        assert(all[0] == r@[0]@);
        let w = "WARNING: "@;
        assert(r@[0]@.subrange(0, w.len() as int) =~= w);
        assert(r@[0]@.subrange(r@[0]@.len() - status@.len(), r@[0]@.len() as int) =~= status@);
    }
}

/// The files that an agent has to read again are the plans and notes of its phase.
pub proof fn phases_have_their_own_memory(phase: AgentPhase, r: Vec<String>)
    requires
        call_ensures(AgentPhase::recovery_files, (phase,), r),
    ensures
        text::texts(r@) == (match phase {
            AgentPhase::Translate => seq!["PLAN.md"@],
            AgentPhase::Verify => seq!["PLAN.md"@, "HYPOTHESES.md"@],
            AgentPhase::Conform => seq!["CONFORM.md"@],
        }),
{
}

/// What marks the start and the end of a phase names the agent and the phase.
pub proof fn phases_are_marked(invocation: &AgentInvocation, s: String, d: String)
    requires
        call_ensures(start_line, (invocation,), s),
        call_ensures(done_line, (invocation,), d),
    ensures
        ({
            let agent = match invocation.agent {
                AgentKind::Kiro => "Kiro"@,
                AgentKind::Claude => invocation.claude.title@,
                AgentKind::OpenCode => "OpenCode"@,
            };
            let phase = match invocation.phase {
                AgentPhase::Translate => "translation"@,
                AgentPhase::Verify => "verification"@,
                AgentPhase::Conform => "conformance"@,
            };
            &&& s@ == "Invoking "@ + agent + " "@ + phase + " agent (marker)"@
            &&& d@ == "Appended agent trace ("@ + phase + " phase done)"@
        }),
{
}

/// Only the agent that needs it is told of a boundary, which depends on nothing of the
/// working directory but the directory that holds it.
pub proof fn boundaries_are_told_to_one_agent(
    agent: AgentKind,
    one: &str,
    two: &str,
    r: String,
    s: String,
    dir: String,
    other: String,
)
    requires
        call_ensures(opencode::render_workdir_boundary, (agent, one), r),
        call_ensures(opencode::render_workdir_boundary, (agent, two), s),
        call_ensures(opencode::run_tempdir, (one,), dir),
        call_ensures(opencode::run_tempdir, (two,), other),
    ensures
        agent != AgentKind::OpenCode ==> r@.len() == 0,
        dir@ == other@ ==> r@ == s@,
{
}

/// The context limit is told always, the output limit where there is one.
pub proof fn limits_are_told(limits: &OpenCodeModelLimits, r: String)
    requires
        call_ensures(models::render_model_limits_block, (limits,), r),
    ensures
        text::contains_text(r@, "context_limit: "@ + text::decimal_of(limits.context as nat)),
        limits.output is Some ==> text::has_suffix(
            r@,
            "\noutput_limit: "@ + text::decimal_of(limits.output->0 as nat),
        ),
        limits.output is None ==> text::has_suffix(
            r@,
            "context_limit: "@ + text::decimal_of(limits.context as nat),
        ),
{
    reveal_strlit("### Registry context limits\ncontext_limit: ");
    reveal_strlit("context_limit: ");
    let title = "### Registry context limits\ncontext_limit: "@;
    let digits = text::decimal_of(limits.context as nat);
    let head = title.take(28);
    let told = "context_limit: "@ + digits;
    assert(title =~= head + "context_limit: "@);
    let rest = match limits.output {
        Some(n) => "\noutput_limit: "@ + text::decimal_of(n as nat),
        None => seq![],
    };
    assert(r@ =~= head + told + rest);
    text::part_is_held(head, told, rest);
    assert(r@.subrange(r@.len() - rest.len(), r@.len() as int) =~= rest);
    if limits.output is None {
        assert(r@.subrange(r@.len() - told.len(), r@.len() as int) =~= told);
    }
}

} // verus!
