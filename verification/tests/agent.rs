//! Tests of the agents: prompts, files, sessions and what came of a run.

use harvest::agent::clock;
use harvest::agent::invoke;
use harvest::agent::models::{
    claude_uses_ccr, extract_model_limits_from_output, load_opencode_model_limits,
    parse_opencode_model, render_model_limits_block, LimitsLookup, OpenCodeModelLimits,
};
use harvest::agent::opencode::{
    builtin_provider, claude_sandbox, custom_provider_stage, opencode_local_permissions,
    opencode_project_config, prepare_agent_files, render_workdir_boundary, run_tempdir,
    write_opencode_agent, OpenCodePlugins, ProviderStage,
};
use harvest::agent::outcome::{assess_opencode_run, resume_step, OpenCodeOutcome, ResumeStep};
use harvest::agent::phase::{agent_bug_workarounds, AgentInvocation, AgentPhase};
use harvest::agent::sessions::{
    export_block, exported_json, extract_session_ids_from_log,
    extract_sub_session_ids_from_export, ExportQueue,
};
use harvest::config::{AgentKind, AgentLabel};
use harvest::json::{parse_json, Json};

/// What one of the agents is called here.
fn label() -> AgentLabel {
    AgentLabel { name: "agentc".to_string(), title: "Agent C".to_string() }
}

#[test]
fn claude_ccr_detection_requires_comma_model() {
    assert!(claude_uses_ccr(Some("openrouter,deepseek/deepseek-v4-pro")));
    assert!(!claude_uses_ccr(Some("sonnet")));
    assert!(!claude_uses_ccr(None));
}

#[test]
fn agent_bug_workarounds_are_agent_specific() {
    assert_eq!(agent_bug_workarounds(AgentKind::Kiro, &label()), "");
    assert!(agent_bug_workarounds(AgentKind::Claude, &label()).contains("run_in_background: false"));
    let opencode = agent_bug_workarounds(AgentKind::OpenCode, &label());
    assert!(opencode.contains("#29363"));
    assert!(opencode.contains("sub-agent prompt"));
    let named = agent_bug_workarounds(AgentKind::Claude, &label());
    assert!(named.starts_with("**Agent C async sub-agent bug** Recent Agent C versions"), "{named}");
    assert!(named.contains("(`agentc -p`)"), "{named}");
}

/// An invocation whose only purpose is to exercise prompt recording.
fn prompt_invocation(
    agent: AgentKind,
    phase: AgentPhase,
    prompt: &str,
    work_dir: &str,
    no_plan: bool,
) -> AgentInvocation {
    AgentInvocation {
        phase,
        agent,
        work_dir: work_dir.to_string(),
        prompt: prompt.to_string(),
        timeout_secs: 1,
        model: None,
        no_plan,
        no_plan_file: false,
        extra_env: Vec::new(),
        output_log_path: None,
        rust_toolchain: None,
        claude: label(),
    }
}

fn file<'a>(files: &'a [(String, String)], name: &str) -> Option<&'a str> {
    files.iter().find(|f| f.0 == name).map(|f| f.1.as_str())
}

#[test]
fn prompt_is_recorded_verbatim_per_phase() {
    // Content that would be mangled by any templating or trimming.
    let prompt = "  line one\n\nline two with `backticks` and {BRACES}\n\ttab\n";
    for (phase, expected) in [
        (AgentPhase::Translate, "translation-prompt.md"),
        (AgentPhase::Verify, "verify-prompt.md"),
        (AgentPhase::Conform, "conform-prompt.md"),
    ] {
        let inv = prompt_invocation(AgentKind::Kiro, phase, prompt, "/run/work", false);
        let files = invoke::record_prompt(&inv, "/run/logs");
        // Byte-identical: the file must be diffable against a template.
        assert_eq!(file(&files, &format!("/run/logs/{expected}")), Some(prompt), "{expected}");
    }
}

#[test]
fn appended_system_prompt_is_recorded_only_when_it_is_actually_used() {
    let extra = format!("/run/logs/{}", AgentPhase::Translate.append_system_prompt_file_name());

    // One agent, with plan files on: the appended prompt is in effect, so it is
    // part of what the agent was told and must be recoverable.
    let inv = prompt_invocation(AgentKind::Claude, AgentPhase::Translate, "p", "/run/work", false);
    let files = invoke::record_prompt(&inv, "/run/logs");
    assert_eq!(file(&files, &extra), Some(AgentPhase::Translate.append_system_prompt()));

    // Without plans the flag is omitted, so recording it would claim the agent
    // was told something it never saw.
    let no_plan =
        prompt_invocation(AgentKind::Claude, AgentPhase::Translate, "p", "/run/work", true);
    let files = invoke::record_prompt(&no_plan, "/run/logs");
    assert!(file(&files, &extra).is_none(), "--no-plan must not record an appended prompt");

    for agent in [AgentKind::Kiro, AgentKind::OpenCode] {
        let inv = prompt_invocation(agent, AgentPhase::Translate, "p", "/run/work", false);
        let files = invoke::record_prompt(&inv, "/run/logs");
        assert!(file(&files, &extra).is_none(), "{agent:?} receives no appended system prompt");
    }
}

#[test]
fn recording_a_prompt_never_fails_a_run() {
    // Where the record goes does not matter to what is recorded.
    let inv = prompt_invocation(AgentKind::Claude, AgentPhase::Verify, "p", "/tmp", false);
    let files = invoke::record_prompt(&inv, "/nonexistent-dir-for-harvest-test/logs");
    assert_eq!(files.len(), 2);
}

/// Assesses a log with the given lines.
fn assess_log(lines: &[&str]) -> OpenCodeOutcome {
    assess_opencode_run(Some(&lines.join("\n")))
}

#[test]
fn healthy_run_needs_a_stop_finish() {
    let outcome = assess_log(&[
        r#"{"type":"step_start","sessionID":"ses_a","part":{}}"#,
        r#"{"type":"step_finish","sessionID":"ses_a","part":{"reason":"tool-calls"}}"#,
        r#"{"type":"step_finish","sessionID":"ses_a","part":{"reason":"stop"}}"#,
    ]);
    assert_eq!(outcome, OpenCodeOutcome::Healthy);
}

#[test]
fn dead_stream_is_resumable() {
    let outcome = assess_log(&[
        r#"{"type":"step_finish","sessionID":"ses_a","part":{"reason":"tool-calls"}}"#,
        r#"{"type":"reasoning","sessionID":"ses_a","part":{"text":"cut off mid-thou"}}"#,
        r#"{"type":"step_finish","sessionID":"ses_a","part":{"reason":"unknown"}}"#,
    ]);
    assert_eq!(
        outcome,
        OpenCodeOutcome::Resumable {
            session_id: "ses_a".to_string(),
            reason: "unknown".to_string(),
        }
    );
}

#[test]
fn whitelist_catches_endings_no_blacklist_would_list() {
    // A step_finish with no `reason` at all, and a truncated turn: both must be
    // caught by requiring "stop" rather than listing bad values.
    for part in [r#"{}"#, r#"{"reason":"length"}"#, r#"{"reason":"tool-calls"}"#] {
        let line = format!(r#"{{"type":"step_finish","sessionID":"ses_a","part":{part}}}"#);
        assert!(
            matches!(assess_log(&[&line]), OpenCodeOutcome::Resumable { .. }),
            "part {part} should be resumable"
        );
    }
}

#[test]
fn balance_error_is_fatal_not_resumable() {
    let outcome = assess_log(&[
        r#"{"type":"step_finish","sessionID":"ses_a","part":{"reason":"tool-calls"}}"#,
        r#"{"type":"error","sessionID":"ses_a","error":{"name":"APIError","data":{"message":"Upstream request failed: [invalid_request_error] Insufficient Balance"}}}"#,
    ]);
    match outcome {
        OpenCodeOutcome::Fatal(msg) => assert!(msg.contains("Insufficient Balance")),
        other => panic!("expected Fatal, got {other:?}"),
    }
}

#[test]
fn numbers_in_a_fatal_error_are_told_as_they_were_read() {
    // Reading the printed number again would end in ...697.
    let outcome = assess_log(&[
        r#"{"type":"error","error":{"balance":1.98463464848506950,"owed":-3,"limit":18446744073709551615,"rate":1.0,"message":"Insufficient Balance"}}"#,
    ]);
    assert_eq!(
        outcome,
        OpenCodeOutcome::Fatal(
            r#"{"balance":1.9846346484850694,"limit":18446744073709551615,"message":"Insufficient Balance","owed":-3,"rate":1.0}"#
                .to_string()
        )
    );
    // The largest number stays one.
    let outcome = assess_log(&[
        r#"{"type":"error","error":["Insufficient Balance",1.7976931348623157e308]}"#,
    ]);
    match outcome {
        OpenCodeOutcome::Fatal(msg) => assert!(!msg.contains("null"), "{msg}"),
        other => panic!("expected Fatal, got {other:?}"),
    }
}

#[test]
fn a_shell_unsafe_session_id_is_not_resumed() {
    let outcome = assess_log(&[
        r#"{"type":"step_finish","sessionID":"ses_a; rm -rf /","part":{"reason":"unknown"}}"#,
    ]);
    assert_eq!(outcome, OpenCodeOutcome::Healthy);
}

#[test]
fn a_log_without_events_is_left_alone() {
    assert_eq!(assess_log(&["not json", ""]), OpenCodeOutcome::Healthy);
}

#[test]
fn a_missing_log_is_left_alone() {
    assert_eq!(assess_opencode_run(None), OpenCodeOutcome::Healthy);
}

#[test]
fn resuming_stops_after_a_while() {
    let outcome = OpenCodeOutcome::Resumable {
        session_id: "ses_a".to_string(),
        reason: "unknown".to_string(),
    };
    match resume_step(&outcome, 0, "translation") {
        ResumeStep::Resume { session_id, .. } => assert_eq!(session_id, "ses_a"),
        other => panic!("expected Resume, got {other:?}"),
    }
    assert!(matches!(resume_step(&outcome, 100, "translation"), ResumeStep::GiveUp { .. }));
    assert!(matches!(
        resume_step(&OpenCodeOutcome::Healthy, 0, "translation"),
        ResumeStep::Finish
    ));
    match resume_step(&OpenCodeOutcome::Fatal("billing".to_string()), 0, "verification") {
        ResumeStep::Fail { error } => assert_eq!(
            error,
            "OpenCode verification agent hit an unrecoverable provider error: billing"
        ),
        other => panic!("expected Fail, got {other:?}"),
    }
}

#[test]
fn opencode_permissions_deny_web_and_skill() {
    let permissions = opencode_local_permissions();
    let has = |name: &str, rule: &str| permissions.iter().any(|p| p.0 == name && p.1 == rule);
    assert!(has("webfetch", "deny"));
    assert!(has("websearch", "deny"));
    assert!(has("skill", "deny"));
    assert!(has("bash", "allow"));
}

#[test]
fn opencode_project_config_scopes_external_directory_to_run_tempdir() {
    let work_dir = "/tmp/.tmpAbc123/translated_rust";
    let raw = opencode_project_config(work_dir, None, None);
    let config: serde_json::Value =
        serde_json::from_str(&raw).expect("project config must be valid JSON");
    let rules = config
        .pointer("/permission/external_directory")
        .and_then(|v| v.as_object())
        .expect("external_directory rules present");
    assert_eq!(rules.get("*").and_then(|v| v.as_str()), Some("deny"));
    assert_eq!(rules.get("/tmp/.tmpAbc123/**").and_then(|v| v.as_str()), Some("allow"));
    // OpenCode resolves rules last-match-wins: the catch-all deny must appear
    // before the tempdir allow in the serialized config.
    assert!(raw.find("\"*\"").unwrap() < raw.find("/tmp/.tmpAbc123/**").unwrap());
    // No model → no provider routing block.
    assert!(config.get("provider").is_none());
}

#[test]
fn opencode_project_config_pins_openrouter_to_author_endpoint() {
    let work_dir = "/tmp/.tmpAbc123/translated_rust";
    let raw = opencode_project_config(work_dir, Some("openrouter/xiaomi/mimo-v2.5-pro"), None);
    let config: serde_json::Value =
        serde_json::from_str(&raw).expect("project config must be valid JSON");
    let opts = config
        .pointer("/provider/openrouter/models/xiaomi~1mimo-v2.5-pro/options/provider")
        .expect("openrouter provider pin present");
    assert_eq!(
        opts.pointer("/only").and_then(|v| v.as_array()),
        Some(&vec![serde_json::Value::String("xiaomi".to_string())])
    );
    assert_eq!(opts.pointer("/allow_fallbacks").and_then(|v| v.as_bool()), Some(false));
}

#[test]
fn opencode_project_config_no_pin_for_non_openrouter() {
    let work_dir = "/tmp/.tmpAbc123/translated_rust";
    let raw = opencode_project_config(work_dir, Some("opencode-go/mimo-v2.5"), None);
    let config: serde_json::Value =
        serde_json::from_str(&raw).expect("project config must be valid JSON");
    assert!(config.get("provider").is_none());
}

#[test]
fn opencode_project_config_stages_custom_provider() {
    let work_dir = "/tmp/.tmpAbc123/translated_rust";
    let definition = parse_json(
        r#"{ "npm": "@ai-sdk/openai-compatible",
             "options": { "baseURL": "https://endpoint.example/v1" } }"#,
    )
    .unwrap();
    let raw = opencode_project_config(
        work_dir,
        Some("harvest-hyak/qwen3.8-27b"),
        Some(&("harvest-hyak".to_string(), definition)),
    );
    let config: serde_json::Value =
        serde_json::from_str(&raw).expect("project config must be valid JSON");
    assert_eq!(
        config.pointer("/provider/harvest-hyak/options/baseURL").and_then(|v| v.as_str()),
        Some("https://endpoint.example/v1")
    );
    // Staging must not disturb the permission boundary.
    assert!(config.pointer("/permission/external_directory/*").is_some());
}

#[test]
fn opencode_project_config_prefers_openrouter_pin_over_staged_entry() {
    let work_dir = "/tmp/.tmpAbc123/translated_rust";
    let shadowed = parse_json(r#"{"npm": "shadowed"}"#).unwrap();
    let raw = opencode_project_config(
        work_dir,
        Some("openrouter/xiaomi/mimo-v2.5-pro"),
        Some(&("openrouter".to_string(), shadowed)),
    );
    let config: serde_json::Value =
        serde_json::from_str(&raw).expect("project config must be valid JSON");
    assert!(config.pointer("/provider/openrouter/models").is_some());
    assert!(config.pointer("/provider/openrouter/npm").is_none());
}

#[test]
fn custom_provider_stage_skips_shellout_without_model() {
    assert!(matches!(custom_provider_stage(None, None), ProviderStage::Nothing));
}

#[test]
fn custom_provider_stage_takes_the_definition_or_asks() {
    let debug = r#"{"provider": {"harvest-hyak": {"npm": "x"}}}"#;
    match custom_provider_stage(Some("harvest-hyak/qwen"), Some(debug)) {
        ProviderStage::Stage(id, definition) => {
            assert_eq!(id, "harvest-hyak");
            assert_eq!(definition.get_str("npm"), Some("x"));
        }
        other => panic!("expected Stage, got {other:?}"),
    }
    match custom_provider_stage(Some("opencode-go/mimo"), Some(debug)) {
        ProviderStage::ListModels(id) => assert_eq!(id, "opencode-go"),
        other => panic!("expected ListModels, got {other:?}"),
    }
    assert!(builtin_provider("opencode-go", true).is_ok());
    assert!(builtin_provider("opencode-go", false).unwrap_err().contains("opencode-go"));
}

fn plugins() -> OpenCodePlugins {
    OpenCodePlugins {
        resilience: "// resilience".to_string(),
        compaction: "// run `{RECOVERY_CMD}` to restore".to_string(),
    }
}

#[test]
fn write_opencode_agent_writes_project_config() {
    let config = opencode_project_config("/w", None, None);
    let files = write_opencode_agent("/w", "harvest-translate", "test", None, &config, &plugins());
    assert_eq!(file(&files, "/w/.opencode/opencode.json"), Some(config.as_str()));
    let agent_md = file(&files, "/w/.opencode/agents/harvest-translate.md").unwrap();
    // The body must be EMPTY so that the official default system prompt applies.
    assert!(agent_md.ends_with("---\n"));
    assert!(!agent_md.contains("compaction"));
    // No recovery command -> no plugin.
    assert!(file(&files, "/w/.opencode/plugin/compaction-recovery.js").is_none());
}

#[test]
fn the_recovery_command_fills_the_plugin() {
    let config = opencode_project_config("/w", None, None);
    let files = write_opencode_agent(
        "/w",
        "harvest-verify",
        "test",
        Some("cat PLAN.md HYPOTHESES.md"),
        &config,
        &plugins(),
    );
    let plugin = file(&files, "/w/.opencode/plugin/compaction-recovery.js").unwrap();
    assert_eq!(plugin, "// run `cat PLAN.md HYPOTHESES.md` to restore");
    assert_eq!(
        file(&files, "/w/.opencode/plugin/harvest-resilience.js"),
        Some("// resilience")
    );
}

#[test]
fn each_agent_gets_its_own_files() {
    let inv = |agent| prompt_invocation(agent, AgentPhase::Verify, "p", "/run/work", false);
    assert!(prepare_agent_files(&inv(AgentKind::Kiro), None, &plugins()).is_empty());
    let confined = prepare_agent_files(&inv(AgentKind::Claude), None, &plugins());
    assert_eq!(confined.len(), 1);
    assert_eq!(confined[0].0, "/run/.agentc/settings.json");
    let opencode = prepare_agent_files(&inv(AgentKind::OpenCode), None, &plugins());
    assert!(opencode.iter().any(|f| f.0.ends_with("compaction-recovery.js")
        && f.1.contains("cat PLAN.md HYPOTHESES.md")));
}

#[test]
fn the_sandbox_is_the_case_directory() {
    let (name, text) = claude_sandbox("/case", "agentc");
    assert_eq!(name, "/case/.agentc/settings.json");
    let settings: serde_json::Value = serde_json::from_str(&text).unwrap();
    assert_eq!(
        settings.pointer("/sandbox/filesystem/allowWrite/0").and_then(|v| v.as_str()),
        Some("/case")
    );
    assert_eq!(settings.pointer("/sandbox/enabled").and_then(|v| v.as_bool()), Some(true));
}

#[test]
fn workdir_boundary_rendered_for_opencode_only() {
    let work_dir = "/tmp/.tmpAbc123/translated_rust";
    let block = render_workdir_boundary(AgentKind::OpenCode, work_dir);
    assert!(block.starts_with("### Filesystem boundary"));
    assert!(block.contains("/tmp/.tmpAbc123"));
    assert!(block.contains("sub-agent prompt"));
    assert_eq!(render_workdir_boundary(AgentKind::Claude, work_dir), "");
    assert_eq!(render_workdir_boundary(AgentKind::Kiro, work_dir), "");
    assert_eq!(run_tempdir(work_dir), "/tmp/.tmpAbc123");
}

const LISTING: &str = "opencode-go/mimo-v2.5-pro
{
  \"id\": \"mimo-v2.5-pro\",
  \"providerID\": \"opencode-go\",
  \"name\": \"MiMo V2.5 Pro\",
  \"limit\": {
    \"context\": 1048576,
    \"output\": 128000
  }
}
";

#[test]
fn extract_model_limits_matches_provider_and_id() {
    let limits = extract_model_limits_from_output(LISTING, "opencode-go", "mimo-v2.5-pro")
        .expect("limits must be found");
    assert_eq!(limits.context, 1_048_576);
    assert_eq!(limits.output, Some(128_000));
}

#[test]
fn extract_model_limits_requires_exact_match() {
    assert!(extract_model_limits_from_output(LISTING, "opencode-go", "mimo-v2.5").is_none());
    assert!(extract_model_limits_from_output(LISTING, "other-provider", "mimo-v2.5-pro").is_none());
}

#[test]
fn limits_are_looked_up_in_all_providers_last() {
    assert!(matches!(
        load_opencode_model_limits("opencode-go/mimo-v2.5-pro", LISTING, None),
        Ok(LimitsLookup::Found(_))
    ));
    assert!(matches!(
        load_opencode_model_limits("opencode-go/mimo-v2.5-pro", "", None),
        Ok(LimitsLookup::AskAll)
    ));
    assert!(matches!(
        load_opencode_model_limits("opencode-go/mimo-v2.5-pro", "", Some(LISTING)),
        Ok(LimitsLookup::Found(_))
    ));
    let e = load_opencode_model_limits("opencode-go/other", "", Some(LISTING)).unwrap_err();
    assert!(e.starts_with("OpenCode model metadata not found for opencode-go/other"));
    assert!(load_opencode_model_limits("no-slash", "", None).is_err());
}

#[test]
fn limits_are_told_to_the_agent() {
    let block =
        render_model_limits_block(&OpenCodeModelLimits { context: 1000, output: Some(100) });
    assert!(block.contains("1000"));
}

#[test]
fn parse_opencode_model_strips_colon_suffix() {
    let (provider, metadata_id) =
        parse_opencode_model("openrouter/xiaomi/mimo-v2.5-pro:floor").unwrap();
    assert_eq!(provider, "openrouter");
    assert_eq!(metadata_id, "xiaomi/mimo-v2.5-pro");

    let (provider, metadata_id) = parse_opencode_model("opencode-go/deepseek-v4-pro").unwrap();
    assert_eq!(provider, "opencode-go");
    assert_eq!(metadata_id, "deepseek-v4-pro");

    assert!(parse_opencode_model("nothing").is_err());
    assert!(parse_opencode_model("/id").is_err());
}

#[test]
fn sessions_are_exported_once() {
    let log = "{\"sessionID\":\"ses_a\"}\nnoise\n{\"sessionID\":\"ses_b\"}\n{\"sessionID\":\"ses_a\"}\n";
    let ids = extract_session_ids_from_log(log);
    assert_eq!(ids, ["ses_a", "ses_b"]);
    let mut queue = ExportQueue::new(ids);
    assert_eq!(queue.next_session().as_deref(), Some("ses_b"));
    queue.add_children(&vec!["ses_b".to_string(), "ses_c".to_string()]);
    assert_eq!(queue.next_session().as_deref(), Some("ses_c"));
    assert_eq!(queue.next_session().as_deref(), Some("ses_a"));
    assert_eq!(queue.next_session(), None);
}

#[test]
fn sub_sessions_are_found_in_an_export() {
    let export = parse_json(
        r#"{"messages": [{"parts": [
            {"type": "tool", "tool": "task", "state": {"metadata": {"sessionId": "ses_x"}}},
            {"type": "text"}
        ]}]}"#,
    )
    .unwrap();
    assert_eq!(extract_sub_session_ids_from_export(&export), ["ses_x"]);
    assert!(extract_sub_session_ids_from_export(&Json::Null).is_empty());
}

#[test]
fn an_export_is_the_json_in_the_output() {
    assert_eq!(exported_json("ses_a", "Exporting...\n{\"a\":1}").unwrap(), "{\"a\":1}");
    assert_eq!(exported_json("ses_a", "nothing").unwrap_err(), "opencode export produced no JSON");
    assert!(exported_json("ses_a", "{ nope").unwrap_err().contains("ses_a"));
    assert_eq!(export_block("ses_a", "{}"), "## opencode-export: ses_a\n{}\n");
}

#[test]
fn times_are_told_in_utc() {
    assert_eq!(clock::iso_utc(0, 0), "1970-01-01T00:00:00.000Z");
    assert_eq!(clock::iso_utc(951_782_399, 7), "2000-02-28T23:59:59.007Z");
    assert_eq!(clock::iso_utc(951_782_400, 999), "2000-02-29T00:00:00.999Z");
    assert_eq!(clock::iso_utc(4_107_542_400, 0), "2100-03-01T00:00:00.000Z");
    assert_eq!(clock::civil_from_days(0), (1970, 1, 1));
}

#[test]
fn the_agent_is_told_its_prompt_and_model() {
    let mut inv =
        prompt_invocation(AgentKind::OpenCode, AgentPhase::Translate, "do it", "/run/work", false);
    inv.model = Some("openrouter/xiaomi/mimo".to_string());
    inv.extra_env = vec![("PROMPT".to_string(), "overridden".to_string())];
    let script = invoke::agent_script(&inv);
    assert!(script.contains("opencode"));
    assert!(script.contains("$MODEL") || script.contains("${MODEL}"), "{script}");
    assert!(invoke::resume_script(&inv, "ses_a").contains("ses_a"));
    assert_eq!(invoke::logs_dir("/run/work"), "/run/logs");
    assert_eq!(invoke::log_path(&inv), format!("/run/logs/{}", inv.phase.log_file_name()));
    assert_eq!(invoke::start_line(&inv), "Invoking OpenCode translation agent (marker)");
    inv.agent = AgentKind::Claude;
    assert_eq!(invoke::start_line(&inv), "Invoking Agent C translation agent (marker)");
    assert!(invoke::agent_script(&inv).starts_with(
        "set -o pipefail; timeout 1 agentc -p \"$PROMPT\" --model \"$MODEL\" --allowed-tools"
    ));
    inv.agent = AgentKind::OpenCode;
    assert_eq!(invoke::exit_lines(&inv, "exit status: 0", true).len(), 1);
    assert_eq!(invoke::exit_lines(&inv, "exit status: 1", false).len(), 2);
}

/// The value that an environment ends up with for a name.
fn value<'a>(env: &'a [(String, String)], name: &str) -> Option<&'a str> {
    env.iter().rev().find(|(k, _)| k == name).map(|(_, v)| v.as_str())
}

#[test]
fn the_environment_follows_the_agent() {
    let mut opencode =
        prompt_invocation(AgentKind::OpenCode, AgentPhase::Verify, "P", "/tmp/r/work", false);
    opencode.model = Some("p/m".to_string());
    opencode.extra_env = vec![("LOG".to_string(), "/own".to_string())];
    let env = invoke::agent_environment(&opencode, "/tmp/r/logs/x.log", None, Some(64000));
    assert_eq!(value(&env, "PROMPT"), Some("P"));
    assert_eq!(value(&env, "OPENSSL_DIR"), Some("/usr"));
    assert_eq!(value(&env, "MODEL"), Some("p/m"));
    assert_eq!(value(&env, "XDG_CONFIG_HOME"), Some("/tmp/r/xdg-config"));
    assert_eq!(value(&env, "OPENCODE_EXPERIMENTAL_OUTPUT_TOKEN_MAX"), Some("64000"));
    assert_eq!(value(&env, "APPEND_SYS"), None);
    // What the run configures wins.
    assert_eq!(value(&env, "LOG"), Some("/own"));

    let mut routed = prompt_invocation(AgentKind::Claude, AgentPhase::Verify, "P", "/w", false);
    routed.model = Some("openrouter,x".to_string());
    let env = invoke::agent_environment(&routed, "/l", Some("/ssl"), None);
    assert_eq!(value(&env, "OPENSSL_DIR"), Some("/ssl"));
    assert_eq!(
        value(&env, "APPEND_SYS"),
        Some("After any context compaction, you MUST first read PLAN.md and HYPOTHESES.md.")
    );
    assert_eq!(value(&env, "ANTHROPIC_BASE_URL"), Some("http://127.0.0.1:3456"));
    assert_eq!(value(&env, "XDG_CONFIG_HOME"), None);
}

#[test]
fn markers_frame_a_run() {
    let run = prompt_invocation(AgentKind::OpenCode, AgentPhase::Translate, "P", "/w", false);
    assert_eq!(
        clock::marker_line("2026-07-18T12:34:56.789Z", "x"),
        "2026-07-18T12:34:56.789Z  INFO agent_runner: x"
    );
    assert_eq!(invoke::done_line(&run), "Appended agent trace (translation phase done)");
    assert_eq!(
        invoke::export_failure_line("boom"),
        "WARNING: OpenCode session export failed (non-fatal): boom"
    );
    assert_eq!(
        invoke::exit_lines(&run, "exit status: 1", false),
        [
            "WARNING: translation agent exited with exit status: 1",
            "Exporting OpenCode sessions (translation agent exited: exit status: 1)",
        ]
    );
}

#[test]
fn phases_name_their_agents() {
    assert_eq!(AgentPhase::Conform.opencode_agent_name(), "harvest-conform");
    assert_eq!(AgentPhase::Verify.opencode_description(), "Harvest agentic verification backend");
    assert_eq!(AgentPhase::Verify.recovery_files(), ["PLAN.md", "HYPOTHESES.md"]);
    assert_eq!(AgentPhase::Conform.recovery_files(), ["CONFORM.md"]);
    assert_eq!(AgentPhase::Translate.prompt_file_name(), "translation-prompt.md");
}
