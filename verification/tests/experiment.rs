//! Tests of the benchmark's arguments and of declared experiment sets.

use clap::{Arg, ArgAction, ArgMatches, Command};
use harvest::benchmark::cli::{parse_agent_kind, Args, TestHarness, VerifyHarness};
use harvest::benchmark::experiment::execution::RunProgress;
use harvest::benchmark::experiment::knobs::{lower_to_argv, stage_is, Knobs};
use harvest::benchmark::experiment::plan::{ExperimentSet, Plan, ResolvedRun, RunSpec};
use harvest::benchmark::experiment::progress::{
    classify, print_plan, print_status, program_step, programs_dir, receipt_of, record_from_stats,
    record_path, select_runs, status, ProgramRecord, ProgramState, ProgramStep,
};
use harvest::benchmark::stats::ProgramEvalStats;
use harvest::config::{AgentKind, Stage};
use harvest::text_map::TextMap;

/// What one of the agents is called here.
const NAMED: &str = "agentc";

// ── The command line ─────────────────────────────────────────────────────

fn flag(name: &'static str, long: &'static str) -> Arg {
    Arg::new(name).long(long).action(ArgAction::SetTrue)
}

fn command() -> Command {
    Command::new("harvest-benchmark")
        .arg(Arg::new("input_dir").required_unless_present("test"))
        .arg(Arg::new("output_dir").required_unless_present("test"))
        .arg(Arg::new("test").long("test").conflicts_with_all([
            "modular",
            "agentic",
            "agent",
            "model",
            "no_plan",
            "no_plan_file",
            "workflow",
            "agent_tools",
            "config",
            "test_case",
            "input_dir",
            "output_dir",
        ]))
        .arg(flag("modular", "modular").conflicts_with("agentic"))
        .arg(
            Arg::new("agentic")
                .long("agentic")
                .conflicts_with("modular")
                .num_args(0..=1)
                .require_equals(true)
                .default_missing_values(["translate", "verify"])
                .value_delimiter(',')
                .action(ArgAction::Append)
                .value_parser(|s: &str| Stage::parse(s)),
        )
        .arg(
            Arg::new("agent")
                .long("agent")
                .requires("agentic")
                .value_parser(|s: &str| parse_agent_kind(s, NAMED)),
        )
        .arg(Arg::new("model").long("model").requires("agentic"))
        .arg(Arg::new("test_case").long("test-case").requires("agentic"))
        .arg(flag("no_plan", "no-plan").requires("agentic"))
        .arg(flag("no_plan_file", "no-plan-file").requires("agentic").conflicts_with("no_plan"))
        .arg(flag("workflow", "workflow").requires("no_plan"))
        .arg(flag("agent_tools", "agent-tools").requires("agentic"))
        .arg(
            Arg::new("verify_harness")
                .long("verify-harness")
                .requires("agentic")
                .value_parser(["gtest", "libloading"]),
        )
        .arg(flag("fuzz", "fuzz").requires("agentic"))
        .arg(Arg::new("config").long("config").short('c').action(ArgAction::Append))
        .arg(
            Arg::new("test_harness")
                .long("test-harness")
                .default_value("auto")
                .value_parser(["auto", "gtest", "lib", "bin"]),
        )
        .arg(
            Arg::new("timeout")
                .long("timeout")
                .default_value("10")
                .value_parser(|s: &str| s.parse::<u64>()),
        )
        .arg(Arg::new("filter").long("filter").conflicts_with("exclude"))
        .arg(Arg::new("exclude").long("exclude").conflicts_with("filter"))
        .arg(flag("force", "force"))
}

fn text(m: &ArgMatches, name: &str) -> Option<String> {
    m.get_one::<String>(name).cloned()
}

fn parse<T: AsRef<str>>(argv: &[T]) -> Result<Args, String> {
    let m = command()
        .try_get_matches_from(argv.iter().map(|a| a.as_ref().to_string()))
        .map_err(|e| e.to_string())?;
    let test_harness = match m.get_one::<String>("test_harness").unwrap().as_str() {
        "gtest" => TestHarness::Gtest,
        "lib" => TestHarness::Lib,
        "bin" => TestHarness::Bin,
        _ => TestHarness::Auto,
    };
    let verify_harness = text(&m, "verify_harness").map(|h| match h.as_str() {
        "libloading" => VerifyHarness::Libloading,
        _ => VerifyHarness::Gtest,
    });
    Ok(Args {
        input_dir: text(&m, "input_dir"),
        output_dir: text(&m, "output_dir"),
        test: text(&m, "test"),
        modular: m.get_flag("modular"),
        agentic: m.get_many::<Stage>("agentic").map(|v| v.copied().collect()),
        agent: m.get_one::<AgentKind>("agent").copied(),
        model: text(&m, "model"),
        test_case: text(&m, "test_case"),
        no_plan: m.get_flag("no_plan"),
        no_plan_file: m.get_flag("no_plan_file"),
        workflow: m.get_flag("workflow"),
        agent_tools: m.get_flag("agent_tools"),
        verify_harness,
        fuzz: m.get_flag("fuzz"),
        config: m
            .get_many::<String>("config")
            .map(|v| v.cloned().collect())
            .unwrap_or_default(),
        test_harness,
        timeout: *m.get_one::<u64>("timeout").unwrap(),
        filter: text(&m, "filter"),
        exclude: text(&m, "exclude"),
        force: m.get_flag("force"),
    })
}

#[test]
fn bare_agentic_means_translate_verify() {
    let args = parse(&["bench", "--agentic", "in", "out"]).unwrap();
    assert_eq!(args.stages(), [Stage::Translate, Stage::Verify]);
    args.validate_stages(&args.stages()).unwrap();
}

#[test]
fn stage_aliases_and_normalization() {
    let args = parse(&["bench", "--agentic=v,T,v", "in", "out"]).unwrap();
    assert_eq!(args.stages(), [Stage::Translate, Stage::Verify]);
    let args = parse(&["bench", "--agentic=c", "in", "out"]).unwrap();
    assert_eq!(args.stages(), [Stage::Conform]);
}

#[test]
fn space_separated_stage_value_is_rejected() {
    // The value of `--agentic` needs an equals sign: it must not swallow a
    // positional.
    let args = parse(&["bench", "--agentic", "in", "out"]).unwrap();
    assert_eq!(args.input_dir.as_deref(), Some("in"));
    assert!(parse(&["bench", "--agentic", "verify", "in", "out"]).is_err());
}

#[test]
fn fuzz_requires_verify_stage() {
    let args = parse(&["bench", "--agentic=t", "--fuzz", "in", "out"]).unwrap();
    let err = args.validate_stages(&args.stages()).unwrap_err();
    assert!(err.contains("--fuzz"), "{err}");
    assert_eq!(err, "--fuzz requires the verify stage (got --agentic=translate)");
}

#[test]
fn conform_must_run_alone() {
    let args = parse(&["bench", "--agentic=v,c", "in", "out"]).unwrap();
    let err = args.validate_stages(&args.stages()).unwrap_err();
    assert!(err.contains("conform"), "{err}");
    assert_eq!(err, "stage conform currently runs alone (got --agentic=verify,conform)");
}

#[test]
fn test_case_only_for_verify_first() {
    let args = parse(&["bench", "--agentic=t,v", "--test-case", "tc", "in", "out"]).unwrap();
    assert!(args.validate_stages(&args.stages()).is_err());
    let args = parse(&["bench", "--agentic=v", "--test-case", "tc", "in", "out"]).unwrap();
    args.validate_stages(&args.stages()).unwrap();
}

#[test]
fn test_mode_conflicts_with_agentic() {
    assert!(parse(&["bench", "--test", "out", "--agentic"]).is_err());
    assert!(parse(&["bench", "--test", "out"]).is_ok());
}

#[test]
fn plan_flags_require_translate_or_verify() {
    let args = parse(&["bench", "--agentic=c", "--no-plan", "in", "out"]).unwrap();
    assert_eq!(
        args.validate_stages(&args.stages()).unwrap_err(),
        "--no-plan requires the translate or verify stage (got --agentic=conform)"
    );
    let mut args = parse(&["bench", "--agentic=c", "in", "out"]).unwrap();
    args.agentic = Some(Vec::new());
    assert_eq!(
        args.validate_stages(&args.stages()).unwrap_err(),
        "--agentic requires at least one stage"
    );
}

#[test]
fn agents_are_named_in_any_case() {
    assert_eq!(parse_agent_kind("OC", NAMED), Ok(AgentKind::OpenCode));
    assert_eq!(parse_agent_kind("Kiro", NAMED), Ok(AgentKind::Kiro));
    assert_eq!(parse_agent_kind("AgentC", NAMED), Ok(AgentKind::Claude));
    assert_eq!(
        parse_agent_kind("Gpt", NAMED).unwrap_err(),
        "unknown agent kind: gpt (expected: kiro, agentc, opencode)"
    );
    assert!(Stage::parse("nope").is_err());
    assert_eq!(Stage::parse("VERIFY"), Ok(Stage::Verify));
}

// ── Declared sets ────────────────────────────────────────────────────────

const HEAD: &str = "schema_version = 1\nbench_root = \"bench\"\nresults_root = \"out\"\n";

fn texts(v: Option<&toml::Value>) -> Option<Vec<String>> {
    v.and_then(|v| v.as_array())
        .map(|a| a.iter().map(|s| s.as_str().unwrap().to_string()).collect())
}

fn word(t: &toml::Value, key: &str) -> Option<String> {
    t.get(key).and_then(|v| v.as_str()).map(str::to_string)
}

fn switch(t: &toml::Value, key: &str) -> Option<bool> {
    t.get(key).and_then(|v| v.as_bool())
}

fn knobs(t: &toml::Value) -> Knobs {
    Knobs {
        stages: texts(t.get("stages")),
        modular: switch(t, "modular"),
        agent: word(t, "agent"),
        model: word(t, "model"),
        no_plan: switch(t, "no_plan"),
        no_plan_file: switch(t, "no_plan_file"),
        workflow: switch(t, "workflow"),
        agent_tools: switch(t, "agent_tools"),
        verify_harness: word(t, "verify_harness"),
        fuzz: switch(t, "fuzz"),
        test_case: word(t, "test_case"),
        test_harness: word(t, "test_harness"),
        timeout: t.get("timeout").and_then(|v| v.as_integer()).map(|n| n as u64),
        config: texts(t.get("config")).unwrap_or_default(),
        extra_args: texts(t.get("extra_args")).unwrap_or_default(),
    }
}

fn read_set(body: &str) -> ExperimentSet {
    let t: toml::Value = toml::from_str(body).unwrap();
    let empty = toml::Value::Table(toml::Table::new());
    ExperimentSet {
        schema_version: t.get("schema_version").unwrap().as_integer().unwrap() as u32,
        bench_root: word(&t, "bench_root").unwrap(),
        results_root: word(&t, "results_root").unwrap(),
        defaults: knobs(t.get("defaults").unwrap_or(&empty)),
        runs: t
            .get("run")
            .and_then(|v| v.as_array())
            .map(|runs| {
                runs.iter()
                    .map(|r| RunSpec {
                        id: word(r, "id").unwrap(),
                        labels: TextMap { entries: Vec::new() },
                        programs: texts(r.get("programs")).unwrap_or_default(),
                        from: word(r, "from"),
                        knobs: knobs(r),
                    })
                    .collect()
            })
            .unwrap_or_default(),
    }
}

/// Loads a set that lies in `/sets` and whose bench holds lz4 and libpng.
fn load(body: &str) -> Result<Vec<ResolvedRun>, String> {
    let set = read_set(body);
    let mut plan = Plan::new("/sets/set.toml", &set)?;
    while plan.runs.len() < set.runs.len() {
        let run = plan.next_run(&set)?;
        let parsed = parse(&run.argv);
        let present = run.programs.iter().map(|p| p == "lz4" || p == "libpng").collect();
        plan.accept(&set, run, &parsed, &present, NAMED)?;
    }
    Ok(plan.runs)
}

#[test]
fn loads_a_chained_translate_verify_set() {
    let runs = load(&format!(
        "{HEAD}
[defaults]
agent = \"{NAMED}\"

[[run]]
id = \"t\"
programs = [\"lz4\", \"libpng\"]
stages = [\"translate\"]
model = \"sonnet\"

[[run]]
id = \"t.v_sonnet\"
from = \"t\"
stages = [\"verify\"]
model = \"sonnet\"

[[run]]
id = \"t.v_opus\"
from = \"t\"
programs = [\"lz4\"]
stages = [\"verify\"]
model = \"opus\"
"
    ))
    .unwrap();
    assert_eq!(runs.len(), 3);
    // One frozen translate feeds both verify runs.
    assert_eq!(runs[1].input_root, runs[0].output_root);
    assert_eq!(runs[2].input_root, runs[0].output_root);
    // A `from` run inherits the parent's programs unless it narrows them.
    assert_eq!(runs[1].programs, vec!["lz4", "libpng"]);
    assert_eq!(runs[2].programs, vec!["lz4"]);
    // Output roots are derived from the id, never hand-typed.
    assert!(runs[0].output_root.ends_with("out/t"));
    assert!(runs[2].output_root.ends_with("out/t.v_opus"));
    // Inherited default reached the argv.
    assert!(runs[0].argv.iter().any(|a| a == "--agent=agentc"));
    assert!(!runs[0].resumes && runs[1].resumes);
}

#[test]
fn duplicate_ids_are_rejected() {
    // Both would resolve to the same output root, so the second would look
    // already-complete and silently never run.
    let err = load(&format!(
        "{HEAD}\n[[run]]\nid = \"a\"\nprograms = [\"lz4\"]\n\n\
         [[run]]\nid = \"a\"\nprograms = [\"libpng\"]\n"
    ))
    .unwrap_err();
    assert!(err.contains("duplicate run id"), "{err}");
}

#[test]
fn ids_must_be_safe_path_components() {
    for bad in ["../escape", "a/b", ""] {
        let set = format!("{HEAD}\n[[run]]\nid = \"{bad}\"\nprograms = [\"lz4\"]\n");
        assert!(load(&set).is_err(), "id {bad:?} should be rejected");
    }
}

#[test]
fn misspelled_program_is_rejected_at_load() {
    let err =
        load(&format!("{HEAD}\n[[run]]\nid = \"a\"\nprograms = [\"1z4\"]\n")).unwrap_err();
    assert!(err.contains("programs not found"), "{err}");
    assert!(err.contains("1z4"), "{err}");
}

#[test]
fn from_must_name_an_earlier_run_and_narrow_its_programs() {
    let missing = load(&format!(
        "{HEAD}\n[[run]]\nid = \"v\"\nfrom = \"nope\"\nstages = [\"verify\"]\n"
    ));
    assert!(missing.unwrap_err().contains("not declared earlier"));

    let err = load(&format!(
        "{HEAD}
[[run]]
id = \"t\"
programs = [\"lz4\"]
stages = [\"translate\"]

[[run]]
id = \"v\"
from = \"t\"
programs = [\"lz4\", \"libpng\"]
stages = [\"verify\"]
"
    ))
    .unwrap_err();
    assert!(err.contains("not in the program set of its parent"), "{err}");
}

#[test]
fn stage_and_from_must_agree() {
    // verify without a parent snapshot, and a parent with translate stages.
    let orphan_verify = load(&format!(
        "{HEAD}\n[[run]]\nid = \"v\"\nprograms = [\"lz4\"]\nstages = [\"verify\"]\n"
    ));
    assert!(orphan_verify.unwrap_err().contains("needs `from"));

    let err = load(&format!(
        "{HEAD}
[[run]]
id = \"t\"
programs = [\"lz4\"]
stages = [\"translate\"]

[[run]]
id = \"t2\"
from = \"t\"
stages = [\"translate\"]
"
    ))
    .unwrap_err();
    assert!(err.contains("verify or conform"), "{err}");
}

#[test]
fn an_explicit_knob_its_stages_cannot_take_is_rejected_not_dropped() {
    // fuzz requires the verify stage. Silently scoping it away here would leave
    // the run recording an identity that does not match what ran, so an
    // explicitly-set knob must be an error rather than ignored.
    let err = load(&format!(
        "{HEAD}\n[[run]]\nid = \"a\"\nprograms = [\"lz4\"]\n\
         stages = [\"translate\"]\nfuzz = true\n"
    ))
    .unwrap_err();
    assert!(err.contains("fuzz"), "{err}");
    assert!(err.contains("verify stage"), "{err}");

    // And a knob that needs an agentic run at all.
    let err = load(&format!(
        "{HEAD}\n[[run]]\nid = \"a\"\nprograms = [\"lz4\"]\nmodel = \"sonnet\"\n"
    ))
    .unwrap_err();
    assert!(err.contains("no agentic stages"), "{err}");
}

#[test]
fn workflow_without_no_plan_is_rejected() {
    // --workflow is only emitted alongside --no-plan, so an explicit
    // workflow = true without it would be dropped before it was parsed.
    let err = load(&format!(
        "{HEAD}\n[[run]]\nid = \"a\"\nprograms = [\"lz4\"]\n\
         stages = [\"translate\"]\nworkflow = true\nagent = \"{NAMED}\"\n"
    ))
    .unwrap_err();
    assert!(err.contains("no_plan"), "{err}");
}

#[test]
fn clap_itself_rejects_a_bad_enum_value() {
    // Enum-valued knobs are texts on purpose, so the parser of the arguments owns
    // the vocabulary and its own enumerated error surfaces.
    let err = load(&format!(
        "{HEAD}\n[[run]]\nid = \"a\"\nprograms = [\"lz4\"]\ntest_harness = \"gtst\"\n"
    ))
    .unwrap_err();
    assert!(err.contains("gtst"), "{err}");

    // ...while the documented aliases keep working.
    let runs = load(&format!(
        "{HEAD}\n[[run]]\nid = \"a\"\nprograms = [\"lz4\"]\n\
         stages = [\"t\"]\nagent = \"oc\"\nmodel = \"opencode-go/x\"\n"
    ))
    .expect("stage alias 't' and agent alias 'oc' must parse");
    assert!(runs[0].argv.iter().any(|a| a == "--agent=oc"));
}

#[test]
fn defaults_do_not_make_unrelated_runs_unrunnable() {
    // fuzz is a verify-stage knob. Inheriting it from the defaults must not be
    // pushed onto a translate-only run.
    let runs = load(&format!(
        "{HEAD}
[defaults]
fuzz = true
verify_harness = \"gtest\"

[[run]]
id = \"t\"
programs = [\"lz4\"]
stages = [\"translate\"]

[[run]]
id = \"t.v\"
from = \"t\"
stages = [\"verify\"]
"
    ))
    .unwrap();
    assert!(!runs[0].argv.iter().any(|a| a == "--fuzz"));
    assert!(runs[1].argv.iter().any(|a| a == "--fuzz"));
}

#[test]
fn inherited_knobs_do_not_reach_stages_that_refuse_them() {
    let defaults = || knobs(&toml::from_str("agent_tools = true\ntest_case = \"bench\"").unwrap());
    let argv = |stages: &[&str]| {
        let stages = stages.iter().map(|s| s.to_string()).collect();
        lower_to_argv(&defaults(), "in", "out", &stages, "m")
    };
    let start = ["harvest-benchmark", "in", "out"];
    let with = |rest: &[&str]| -> Vec<String> {
        start.iter().chain(rest).map(|s| s.to_string()).collect()
    };
    assert_eq!(argv(&["conform"]), with(&["--agentic=conform"]));
    assert_eq!(argv(&["verify"]), with(&["--agentic=verify", "--agent-tools", "--test-case=m/bench"]));
    assert_eq!(
        argv(&["translate", "verify"]),
        with(&["--agentic=translate,verify", "--agent-tools"])
    );
    assert_eq!(argv(&["v", "t"]), with(&["--agentic=v,t", "--agent-tools"]));
    assert_eq!(argv(&[]), with(&[]));

    let runs = load(&format!(
        "{HEAD}
[defaults]
agent_tools = true
test_case = \"bench\"

[[run]]
id = \"t\"
programs = [\"lz4\"]
stages = [\"translate\", \"verify\"]

[[run]]
id = \"t.c\"
from = \"t\"
stages = [\"conform\"]
"
    ))
    .unwrap();
    assert!(runs[0].argv.iter().any(|a| a == "--agent-tools"));
    assert!(!runs[1].argv.iter().any(|a| a == "--agent-tools"));
    assert!(!runs.iter().any(|r| r.argv.iter().any(|a| a.starts_with("--test-case"))));
}

#[test]
fn explicit_knobs_are_not_scoped_away() {
    let conform = |knob: &str| {
        load(&format!(
            "{HEAD}
[[run]]
id = \"t\"
programs = [\"lz4\"]
stages = [\"translate\"]

[[run]]
id = \"c\"
from = \"t\"
stages = [\"conform\"]
{knob}
"
        ))
    };
    assert!(conform("").is_ok());
    assert_eq!(
        conform("agent_tools = true").unwrap_err(),
        "run \"c\" sets agent_tools but its stages are [conform]; those knobs require the \
         translate or verify stage"
    );
    assert_eq!(
        conform("test_case = \"bench\"").unwrap_err(),
        "run \"c\" sets test_case but its stages are [conform]; a suite override only applies \
         with verify as the first stage"
    );
}

#[test]
fn sets_spell_stages_as_the_command_line_does() {
    for s in [Stage::Translate, Stage::Verify, Stage::Conform] {
        for value in ["verify", "V", "Translate", "t", "c", "CONFORM", " verify", "v ", "", "x", "ve", "v\u{e9}rify", "\u{212a}", "tran\u{17f}late"] {
            assert_eq!(stage_is(value, s.as_str()), Stage::parse(value) == Ok(s), "{value:?}");
        }
    }
}

#[test]
fn no_plan_with_fuzz_is_rejected_as_a_mislabelling_hazard() {
    // The gtest verify harness is only active when plan files are enabled, so this
    // combination records gtest/fuzz while running libloading.
    let err = load(&format!(
        "{HEAD}
[[run]]
id = \"t\"
programs = [\"lz4\"]
stages = [\"translate\"]

[[run]]
id = \"t.v\"
from = \"t\"
stages = [\"verify\"]
no_plan = true
fuzz = true
"
    ))
    .unwrap_err();
    assert!(err.contains("no_plan"), "{err}");
}

#[test]
fn workflow_is_for_one_agent() {
    let err = load(&format!(
        "{HEAD}\n[[run]]\nid = \"a\"\nprograms = [\"lz4\"]\n\
         stages = [\"translate\"]\nworkflow = true\nno_plan = true\nagent = \"kiro\"\n"
    ))
    .unwrap_err();
    assert_eq!(
        err,
        "run \"a\": workflow only affects the agentc agent; with agent = \"kiro\" the hint is \
         silently dropped"
    );
}

#[test]
fn non_agentic_baselines_are_expressible() {
    // Without these the ablation table cannot hold its own control row.
    let runs = load(&format!(
        "{HEAD}
[[run]]
id = \"one_shot\"
programs = [\"lz4\"]

[[run]]
id = \"modular\"
programs = [\"lz4\"]
modular = true
"
    ))
    .unwrap();
    assert!(!runs[0].argv.iter().any(|a| a.starts_with("--agentic")));
    assert!(runs[1].argv.iter().any(|a| a == "--modular"));
}

#[test]
fn config_overrides_survive_verbatim_and_defaults_come_first() {
    let runs = load(&format!(
        "{HEAD}
[defaults]
config = [\"tools.a.x=1\"]

[[run]]
id = \"a\"
programs = [\"lz4\"]
config = [\"tools.b.prompt=use --no-plan, then a=b=c\"]
"
    ))
    .unwrap();
    assert_eq!(
        runs[0].config,
        vec![
            "tools.a.x=1".to_owned(),
            "tools.b.prompt=use --no-plan, then a=b=c".to_owned()
        ]
    );
    // Equals form, so a value with spaces/commas/'=' needs no quoting.
    assert!(runs[0]
        .argv
        .iter()
        .any(|a| a == "--config=tools.b.prompt=use --no-plan, then a=b=c"));
}

#[test]
fn extra_args_reach_clap_and_are_still_validated() {
    assert!(load(&format!(
        "{HEAD}\n[[run]]\nid = \"a\"\nprograms = [\"lz4\"]\nextra_args = [\"--force\"]\n"
    ))
    .is_ok());

    assert!(
        load(&format!(
            "{HEAD}\n[[run]]\nid = \"a\"\nprograms = [\"lz4\"]\nextra_args = [\"--nope\"]\n"
        ))
        .is_err(),
        "clap must still reject unknown flags"
    );
}

#[test]
fn infra_refusal_is_not_counted_as_done() {
    // A populated output directory is a condition to clear and retry, not a
    // result; counting it as done would freeze completed work as a permanent
    // failure in the reported numbers.
    let mut stats = ProgramEvalStats::new("lz4");
    stats.error_message =
        Some("output program directory /x/lz4 is not empty; pass --force".to_owned());
    assert_eq!(classify(&stats), ProgramState::Infra);
    assert!(!record_from_stats(&stats).is_done());

    let mut failed = ProgramEvalStats::new("lz4");
    failed.error_message = Some("Failed to translate C project".to_owned());
    assert_eq!(classify(&failed), ProgramState::Failed);
    assert!(record_from_stats(&failed).is_done());
}

#[test]
fn a_grading_failure_is_a_failure() {
    let mut stats = ProgramEvalStats::new("lz4");
    stats.translation_success = true;
    stats.rust_build_success = true;
    stats.total_tests = 3;
    assert_eq!(classify(&stats), ProgramState::Complete);

    stats.error_message = Some("GoogleTest validation failed: no report".to_owned());
    assert_eq!(classify(&stats), ProgramState::Failed);
    let record = record_from_stats(&stats);
    assert_eq!(record.state, ProgramState::Failed);
    assert!(record.is_done());
}

fn started() -> ProgramRecord {
    ProgramRecord {
        program: "lz4".to_owned(),
        state: ProgramState::Started,
        error: None,
        translation_success: None,
        build_success: None,
        total_tests: None,
        passed_tests: None,
        skipped_tests: None,
    }
}

fn two_programs() -> Vec<ResolvedRun> {
    load(&format!("{HEAD}\n[[run]]\nid = \"a\"\nprograms = [\"lz4\", \"libpng\"]\n")).unwrap()
}

#[test]
fn started_without_a_terminal_record_reads_as_interrupted() {
    // Not done: it must be retried, not skipped forever.
    assert!(!started().is_done());
    let st = &status(&two_programs(), &vec![vec![Some(started()), None]])[0];
    assert_eq!(st.interrupted, vec!["lz4"]);
    assert_eq!(st.done, 0);
}

#[test]
fn a_complete_program_is_skipped_and_a_missing_one_is_reported() {
    let runs = two_programs();
    let mut complete = ProgramEvalStats::new("lz4");
    complete.translation_success = true;
    complete.rust_build_success = true;
    let record = record_from_stats(&complete);
    assert!(matches!(
        program_step(&runs[0], "lz4", &Some(record_from_stats(&complete)), true, false),
        ProgramStep::Skip
    ));

    let st = &status(&runs, &vec![vec![Some(record), None]])[0];
    assert_eq!(st.done, 1);
    assert_eq!(st.total, 2);
    assert_eq!(st.missing, vec!["libpng"]);
    assert!(!st.is_complete());
}

#[test]
fn schema_version_mismatch_is_refused() {
    let err = load(
        "schema_version = 99\nbench_root = \"bench\"\nresults_root = \"out\"\n\
         [[run]]\nid = \"a\"\nprograms = [\"lz4\"]\n",
    )
    .unwrap_err();
    assert!(err.contains("schema_version"), "{err}");
}

#[test]
fn paths_resolve_against_the_manifest_not_the_cwd() {
    let runs = load(&format!("{HEAD}\n[[run]]\nid = \"a\"\nprograms = [\"lz4\"]\n")).unwrap();
    assert!(runs[0].input_root.starts_with("/sets"));
    assert!(runs[0].output_root.starts_with("/sets"));
}

#[test]
fn records_lie_in_the_run() {
    assert!(record_path("/out/a", "lz4").starts_with(&programs_dir("/out/a")));
    assert!(record_path("/out/a", "lz4").ends_with("/lz4.json"));
}

#[test]
fn a_program_without_a_snapshot_is_blocked() {
    let runs = load(&format!(
        "{HEAD}
[[run]]
id = \"t\"
programs = [\"lz4\"]
stages = [\"translate\"]

[[run]]
id = \"v\"
from = \"t\"
stages = [\"verify\"]
"
    ))
    .unwrap();
    match program_step(&runs[1], "lz4", &None, false, false) {
        ProgramStep::Block(record) => {
            assert_eq!(record.state, ProgramState::Blocked);
            assert_eq!(record.error.as_deref(), Some("no snapshot at /sets/out/t/lz4"));
        }
        other => panic!("expected Block, got {other:?}"),
    }
    match program_step(&runs[1], "lz4", &None, true, false) {
        ProgramStep::Run { force, .. } => assert!(!force),
        other => panic!("expected Run, got {other:?}"),
    }
    // An attempt that did not finish left a partial directory behind.
    match program_step(&runs[1], "lz4", &Some(started()), true, false) {
        ProgramStep::Run { force, .. } => assert!(force),
        other => panic!("expected Run, got {other:?}"),
    }
}

#[test]
fn runs_are_selected_by_id() {
    let runs = two_programs();
    assert_eq!(select_runs(&runs, &Vec::new()), Ok(vec![0]));
    assert_eq!(select_runs(&runs, &vec!["a".to_string()]), Ok(vec![0]));
    assert_eq!(
        select_runs(&runs, &vec!["b".to_string()]).unwrap_err(),
        "--only matched no declared run; available ids: a"
    );
}

#[test]
fn the_plan_and_the_status_are_printed() {
    let runs = two_programs();
    let plan = print_plan(&runs);
    assert!(plan.iter().any(|l| l == "  programs : lz4, libpng"), "{plan:?}");
    let all = status(&runs, &vec![vec![None, None]]);
    let (lines, complete) = print_status(&all);
    assert!(!complete);
    assert!(lines[1].starts_with("a "), "{lines:?}");
    assert!(lines[1].contains("0/2"), "{lines:?}");
    let receipt = receipt_of(&runs[0], 1, "v");
    assert_eq!((receipt.programs_total, receipt.programs_done), (2, 1));
}

#[test]
fn a_run_settles_its_programs_in_order() {
    let runs = two_programs();
    let run = &runs[0];
    let mut progress = RunProgress::new();
    assert_eq!(progress.done(), 0);

    // The first program is done already.
    let first = progress.next_program(run).unwrap().to_string();
    let mut done = started();
    done.state = ProgramState::Complete;
    let prior = Some(done);
    let step = program_step(run, &first, &prior, true, true);
    assert!(progress.settle(&prior, &step));

    // The second runs, and is refused: it does not count.
    let second = progress.next_program(run).unwrap().to_string();
    assert_ne!(first, second);
    let step = program_step(run, &second, &None, true, false);
    assert!(!progress.settle(&None, &step));
    let mut stats = ProgramEvalStats::new(&second);
    stats.error_message = Some("output program directory x is not empty".to_string());
    let record = progress.ran(&stats);
    assert_eq!(record.state, ProgramState::Infra);
    assert!(progress.next_program(run).is_none());
    assert_eq!(progress.done(), 1);

    let receipt = progress.receipt(run, "v1");
    assert_eq!((receipt.programs_done, receipt.programs_total), (1, 2));
    let records = vec![vec![prior, Some(record)]];
    let told = status(&runs, &records);
    assert_eq!(told[0].done, receipt.programs_done);
    assert_eq!(told[0].infra, [second]);
}
