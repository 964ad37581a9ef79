//! Tests of the tools: prompts, environments, declarations and the pipeline.

use harvest::agent::models::OpenCodeModelLimits;
use harvest::agent::toolchain::{
    detect_rust_toolchain_context, find_test_corpus_root, read_quoted_value,
    read_toolchain_channel, ToolchainFacts,
};
use harvest::cmake_presets::TestConfig;
use harvest::config::{AgentKind, AgentLabel, Config, Stage};
use harvest::fs::raw_dir::{GetFileError, RawDir};
use harvest::full_source::TestSuiteKind;
use harvest::json::Json;
use harvest::pipeline::{schedule, PipelineTool};
use harvest::tools::compile_defs::parse_c_compile_defs;
use harvest::tools::conform_agentic;
use harvest::tools::fix_declarations_llm::{
    add_patch, apply_patches, attribute_errors, decl_text, errors_text, interface_context,
    patch_of_answer, BuildMessage, DeclErrors, ErrorSpan, FileItems, FixDeclarationsLlm, FixError,
};
use harvest::tools::prompt::{
    check_plan_modes, fill, limits_text, tools_section, workflow_hint, PromptFacts, PromptSource,
};
use harvest::tools::steps::FinishStep;
use harvest::tools::stubs::stub_declaration;
use harvest::tools::translate_agentic::{self, ProjectKind, TranslateAgentic, TranslatePrompt};
use harvest::tools::verify_fix_agentic::{
    self, gtest_harness_active, materialize_verify_env, merge_wishlists, render_configurations,
    strip_build_dirs, EnvTemplates, VerifyHarness, FUZZTEST_GIT_TAG,
};

// ── Compile definitions and the verification environment ─────────────────

#[test]
fn parses_lz4_style_compile_defs() {
    let cmake = "\
add_library(lz4 SHARED src/lz4.c)
target_include_directories(lz4 PUBLIC include PRIVATE src)
target_compile_definitions(lz4 PRIVATE XXH_NAMESPACE=LZ4_)
target_compile_definitions(lz4 PRIVATE LZ4_HEAPMODE=0 LZ4F_HEAPMODE=0)
";
    assert_eq!(
        parse_c_compile_defs(cmake),
        "XXH_NAMESPACE=LZ4_ LZ4_HEAPMODE=0 LZ4F_HEAPMODE=0"
    );
}

#[test]
fn no_compile_defs_yields_empty() {
    let cmake = "add_library(foo SHARED src/foo.c)\n";
    assert_eq!(parse_c_compile_defs(cmake), "");
}

#[test]
fn a_definition_is_told_once() {
    let cmake = "target_compile_definitions(a PUBLIC X=1 Y)\ntarget_compile_definitions(b X=1)\n";
    assert_eq!(parse_c_compile_defs(cmake), "X=1 Y");
}

fn env_templates() -> EnvTemplates {
    EnvTemplates {
        cmakelists: "{FUZZTEST_DECLARE}|{FUZZTEST_MAKEAVAIL}|{FUZZTEST_SETUP_FLAGS}|{TEST_LINK}|\
                     {C_COMPILE_DEFS}"
            .to_string(),
        tests_cc: "// tests".to_string(),
        diff_h: "// diff".to_string(),
        rust_lib_h: "// lib".to_string(),
        readme: "# readme".to_string(),
        build_sh: "build".to_string(),
        build_fuzz_sh: "build fuzz".to_string(),
        docs: vec![("fuzz.md".to_string(), "doc".to_string())],
    }
}

fn env_file(fuzz: bool, project_cmake: &str, name: &str) -> Option<String> {
    materialize_verify_env("/work", Some(project_cmake), fuzz, &env_templates())
        .into_iter()
        .find(|f| f.path == format!("/work/verify_env/{name}"))
        .map(|f| f.contents)
}

#[test]
fn gtest_only_cmake_has_no_fuzztest() {
    let project = "target_compile_definitions(x PRIVATE XXH_NAMESPACE=LZ4_)\n";
    let cml = env_file(false, project, "CMakeLists.txt").unwrap();
    assert!(cml.contains("XXH_NAMESPACE=LZ4_"));
    assert!(cml.contains("GTest::gtest_main"));
    assert!(!cml.contains("fuzztest"));
    assert!(env_file(false, project, "build_fuzz.sh").is_none());
}

#[test]
fn fuzz_cmake_wires_fuzztest() {
    let cml = env_file(true, "", "CMakeLists.txt").unwrap();
    assert!(cml.contains("link_fuzztest(verification_tests)"));
    assert!(cml.contains("fuzztest_setup_fuzzing_flags()"));
    assert!(cml.contains(FUZZTEST_GIT_TAG));
    assert!(!cml.contains("GTest::gtest_main"));
    assert!(env_file(true, "", "build_fuzz.sh").is_some());
}

#[test]
fn strip_build_dirs_keeps_source() {
    let entry = |name: &str, is_dir: bool| (name.to_string(), is_dir);
    let removed = strip_build_dirs(&vec![
        entry("build-test", true),
        entry("build-fuzz", true),
        entry("verification_tests.cc", false),
        entry("CMakeLists.txt", false),
        entry("build-notes.txt", false),
    ]);
    assert_eq!(removed.len(), 2, "both build-* dirs should be removed");
    assert_eq!(removed, ["build-test", "build-fuzz"]);
}

fn verify_config() -> verify_fix_agentic::Config {
    verify_fix_agentic::Config {
        prompt_kiro_verify: None,
        prompt_verify: None,
        timeout_secs: 1,
        model: None,
        no_plan: false,
        no_plan_file: false,
        workflow: false,
        verify_harness: VerifyHarness::Gtest,
        fuzz: false,
        env: Vec::new(),
        wishlist_output_path: None,
        hypotheses_output_path: None,
        wait_until: Some(100),
        output_log_path: None,
        unknown: Vec::new(),
    }
}

#[test]
fn the_environment_goes_with_the_standard_prompt() {
    let mut config = verify_config();
    assert!(gtest_harness_active(&config, AgentKind::Claude));
    assert!(!gtest_harness_active(&config, AgentKind::Kiro));
    assert!(config.harness_warnings().is_empty());
    config.no_plan = true;
    assert!(!gtest_harness_active(&config, AgentKind::Claude));
    assert_eq!(config.harness_warnings().len(), 1);
    config.verify_harness = VerifyHarness::Libloading;
    config.fuzz = true;
    assert_eq!(
        config.harness_warnings(),
        ["tools.verify_fix_agentic: fuzz has no effect without verify_harness = gtest; ignoring"]
    );
    assert_eq!(config.wait_secs(40), 60);
    assert_eq!(config.wait_secs(400), 0);
}

#[test]
fn configurations_are_told() {
    assert_eq!(render_configurations(&TestConfig::default()), "");
    let config = TestConfig {
        cmake_flags: "-DA=b".to_string(),
        cargo_features: vec!["b".to_string()],
    };
    assert!(render_configurations(&config).starts_with("Configurations to verify:\n- cmake flags"));
    assert_eq!(merge_wishlists(Some("a\n"), "b\n"), "a\nb\n");
    assert_eq!(merge_wishlists(None, "b\n"), "b\n");
}

// ── Prompts ──────────────────────────────────────────────────────────────

#[test]
fn slots_are_filled_in_order() {
    let fills = vec![("A", "x {B}".to_string()), ("B", "y".to_string())];
    assert_eq!(fill("{A} {B} {C}", &fills), "x y y {C}");
    assert_eq!(workflow_hint(true, AgentKind::Claude), "You must use a workflow.\n\n");
    assert_eq!(workflow_hint(true, AgentKind::Kiro), "");
    assert_eq!(tools_section("h", "t", "/tools", &None), "");
    assert!(tools_section("h", "t", "/tools", &Some("see {AGENT_TOOLS_DIR}".to_string()))
        .contains("see /tools"));
    assert_eq!(
        check_plan_modes("x", true, true).unwrap_err(),
        "tools.x: no_plan and no_plan_file are mutually exclusive"
    );
    assert!(check_plan_modes("x", true, false).is_ok());
    let limits = Some(OpenCodeModelLimits { context: 10, output: None });
    assert_eq!(limits_text(AgentKind::Claude, &Some("m".to_string()), &limits), "");
    assert!(limits_text(AgentKind::OpenCode, &Some("m".to_string()), &limits).contains("10"));
}

fn facts() -> PromptFacts {
    PromptFacts {
        translated: "/case/translated_rust".to_string(),
        tool_docs: None,
        required_version: "1.90.0".to_string(),
        toolchain_block: "### Rust toolchain contract".to_string(),
        limits: None,
        claude: AgentLabel { name: "agentc".to_string(), title: "Agent C".to_string() },
    }
}

fn translate_config() -> translate_agentic::Config {
    translate_agentic::Config {
        prompt_kiro_executable: None,
        prompt_kiro_library: Some("/own.md".to_string()),
        prompt_kiro_configurable: None,
        prompt_translate: None,
        timeout_secs: 5,
        model: None,
        no_plan: false,
        no_plan_file: false,
        workflow: false,
        env: Vec::new(),
        wishlist_output_path: Some("/out/wishlist".to_string()),
        plan_output_path: None,
        output_log_path: None,
        rejected_output_dir: None,
        test_corpus_root: None,
        unknown: Vec::new(),
    }
}

#[test]
fn the_prompt_follows_the_agent_and_the_mode() {
    let mut config = translate_config();
    let prompt = |c: &translate_agentic::Config, kind, agent| {
        TranslateAgentic.start(c, kind, agent).unwrap()
    };
    assert!(matches!(
        prompt(&config, ProjectKind::Library, AgentKind::Kiro),
        PromptSource::File(p) if p == "/own.md"
    ));
    assert!(matches!(
        prompt(&config, ProjectKind::Executable, AgentKind::Kiro),
        PromptSource::Builtin(TranslatePrompt::KiroExecutable)
    ));
    assert!(matches!(
        prompt(&config, ProjectKind::Library, AgentKind::Claude),
        PromptSource::Builtin(TranslatePrompt::Standard)
    ));
    config.no_plan = true;
    assert!(matches!(
        prompt(&config, ProjectKind::Library, AgentKind::OpenCode),
        PromptSource::Builtin(TranslatePrompt::NoPlan)
    ));
    config.no_plan_file = true;
    assert!(TranslateAgentic.start(&config, ProjectKind::Library, AgentKind::Claude).is_err());
}

#[test]
fn the_prompt_is_filled_with_the_facts() {
    let inv = TranslateAgentic.invocation(
        &translate_config(),
        AgentKind::Claude,
        "wishes: {WISHLIST_PATH}",
        &facts(),
    );
    assert_eq!(inv.prompt, "wishes: /case/translated_rust/tool_wishlist.json");
    assert_eq!(inv.work_dir, "/case/translated_rust");
    assert_eq!(inv.rust_toolchain.as_deref(), Some("1.90.0"));
}

#[test]
fn the_suite_is_shown_to_conform_alone() {
    assert_eq!(conform_agentic::suite_dir_list(TestSuiteKind::Lib), "`runner/`, `test_vectors/`");
    assert_eq!(conform_agentic::references(TestSuiteKind::Gtest), ["c_src", "gtest_suite"]);
    let text = conform_agentic::test_instructions(TestSuiteKind::Bin, "1.90.0");
    assert!(text.contains("1.90.0"), "{text}");
    let config = conform_agentic::Config {
        prompt_conform: None,
        timeout_secs: 1,
        model: None,
        env: Vec::new(),
        output_log_path: None,
        notes_output_path: Some("/out/notes.md".to_string()),
        report_output_path: None,
        rejected_output_dir: None,
        test_corpus_root: None,
        unknown: Vec::new(),
    };
    let output = conform_agentic::ConformOutput { has_notes: true, has_report: false };
    let steps = conform_agentic::ConformAgentic.finish(&config, "/work", &output);
    assert!(matches!(&steps[0], FinishStep::CopyOut(a, b)
        if a.starts_with("/work/") && b == "/out/notes.md"));
    assert!(steps.iter().any(|s| matches!(s, FinishStep::Warn(w) if w.contains("CONFORM_REPORT.md"))));
    assert!(matches!(steps.last(), Some(FinishStep::Freeze)));
}

// ── Declarations ─────────────────────────────────────────────────────────

#[test]
fn test_stub_declaration() {
    assert_eq!(
        Some(
            r"
fn foo() { todo!() }
"
            .to_string()
        ),
        stub_declaration(
            br"
fn foo() { println!() }
"
        )
    );

    assert_eq!(
        Some(
            r"

impl Foo {
    fn foo() { todo!() }

    fn bar() { todo!() }
}

"
            .to_string()
        ),
        stub_declaration(
            br"

impl Foo {
    fn foo() { println!() }

    fn bar() {
      scanf!()
    }
}

"
        )
    );
    assert_eq!(stub_declaration(b"\xff"), None);
    // What does not parse is kept as it is.
    assert_eq!(stub_declaration(b"fn (\n").as_deref(), Some("fn ("));
}

fn package() -> RawDir {
    let mut dir = RawDir::default();
    dir.set_file("src/lib.rs", b"fn a() { x() }\nfn b() {}\n".to_vec()).unwrap();
    dir
}

fn items() -> Vec<FileItems> {
    vec![FileItems { file_name: "src/lib.rs".to_string(), ranges: vec![(0, 14), (15, 24)] }]
}

fn message(is_error: bool, text: &str, file: &str, start: u32, end: u32) -> BuildMessage {
    BuildMessage {
        is_error,
        message: text.to_string(),
        spans: vec![ErrorSpan { file_name: file.to_string(), byte_start: start, byte_end: end }],
    }
}

#[test]
fn errors_go_to_their_declarations() {
    let messages = vec![
        message(true, "no x", "src/lib.rs", 9, 12),
        message(false, "unused", "src/lib.rs", 15, 17),
        message(true, "still no x", "src/lib.rs", 9, 10),
    ];
    let decls = attribute_errors(&package(), &items(), &messages).unwrap();
    assert_eq!(decls.len(), 1);
    assert_eq!(decls[0].range, Some((0, 14)));
    assert_eq!(errors_text(&decls[0]), "no x\n\nstill no x");
    let source = b"fn a() { x() }\nfn b() {}\n".to_vec();
    assert_eq!(decl_text(&source, decls[0].range).as_deref(), Some("fn a() { x() }"));
    let elsewhere = vec![message(true, "e", "src/none.rs", 0, 1)];
    assert!(matches!(
        attribute_errors(&package(), &items(), &elsewhere),
        Err(FixError::File(_)) | Err(FixError::NoItems)
    ));
}

#[test]
fn the_interface_has_no_bodies() {
    assert_eq!(
        interface_context(&package(), &items()),
        "fn a() { todo!() }\n\nfn b() { todo!() }"
    );
}

#[test]
fn patches_replace_their_ranges() {
    let mut patches = Vec::new();
    let b = patch_of_answer(Some((15, 24)), 25, Some("fn b() -> u8 { 0 }")).unwrap();
    add_patch(&mut patches, b);
    let a = patch_of_answer(Some((0, 14)), 25, Some("fn a() {}")).unwrap();
    add_patch(&mut patches, a);
    assert!(patch_of_answer(Some((0, 1)), 25, Some("")).is_none());
    assert!(patch_of_answer(Some((0, 1)), 25, None).is_none());
    let mut source = b"fn a() { x() }\nfn b() {}\n".to_vec();
    apply_patches(&mut source, &patches);
    assert_eq!(source, b"fn a() {}\nfn b() -> u8 { 0 }\n");
    let mut dir = package();
    FixDeclarationsLlm.patch_file(&mut dir, "src/lib.rs", &patches).unwrap();
    assert_eq!(dir.get_file("src/lib.rs").unwrap(), &source);
    assert!(FixDeclarationsLlm.patch_file(&mut dir, "src/none.rs", &Vec::new()).is_err());
}

fn group(file_name: &str, range: Option<(usize, usize)>) -> DeclErrors {
    DeclErrors { file_name: file_name.to_string(), range, messages: vec!["e".to_string()] }
}

fn answer(text: &str) -> Option<String> {
    Some(text.to_string())
}

#[test]
fn an_answer_for_a_whole_file_takes_its_place() {
    let p = patch_of_answer(None, 25, Some("fn fixed() {}\n")).unwrap();
    assert_eq!((p.start, p.end), (0, 25));
    let mut source = b"fn a() { x() }\nfn b() {}\n".to_vec();
    apply_patches(&mut source, &vec![p]);
    assert_eq!(source, b"fn fixed() {}\n");
    // An error across declarations stands for the whole file.
    let mut dir = package();
    dir.set_file("src/other.rs", b"fn o() {}\n".to_vec()).unwrap();
    let messages = vec![message(true, "no x", "src/lib.rs", 9, 20)];
    let groups = attribute_errors(&dir, &items(), &messages).unwrap();
    assert_eq!(groups[0].range, None);
    let fixed = FixDeclarationsLlm.apply_answers(&mut dir, &groups, &vec![answer("fn f() {}\n")]);
    assert_eq!(fixed, Ok(1));
    assert_eq!(dir.get_file("src/lib.rs").unwrap(), b"fn f() {}\n");
    assert_eq!(dir.get_file("src/other.rs").unwrap(), b"fn o() {}\n");
}

#[test]
fn answers_are_patched_into_their_files() {
    let mut dir = package();
    dir.set_file("src/other.rs", b"fn o() {}\nfn p() {}\n".to_vec()).unwrap();
    dir.set_file("src/quiet.rs", b"fn q() {}\n".to_vec()).unwrap();
    let groups = vec![
        group("src/lib.rs", Some((15, 24))),
        group("src/other.rs", Some((0, 9))),
        group("./src/lib.rs", Some((0, 14))),
        group("src/quiet.rs", Some((0, 9))),
    ];
    let answers =
        vec![answer("fn b() -> u8 { 0 }"), answer("fn o(x: u8) {}"), answer("fn a() {}"), answer("")];
    assert_eq!(FixDeclarationsLlm.apply_answers(&mut dir, &groups, &answers), Ok(3));
    assert_eq!(dir.get_file("src/lib.rs").unwrap(), b"fn a() {}\nfn b() -> u8 { 0 }\n");
    assert_eq!(dir.get_file("src/other.rs").unwrap(), b"fn o(x: u8) {}\nfn p() {}\n");
    assert_eq!(dir.get_file("src/quiet.rs").unwrap(), b"fn q() {}\n");
    // Where the whole file is answered, its declarations are part of that answer.
    let mut dir = package();
    let groups = vec![group("src/lib.rs", Some((0, 14))), group("src/lib.rs", None)];
    let answers = vec![answer("fn a() {}"), answer("fn whole() {}\n")];
    assert_eq!(FixDeclarationsLlm.apply_answers(&mut dir, &groups, &answers), Ok(2));
    assert_eq!(dir.get_file("src/lib.rs").unwrap(), b"fn whole() {}\n");
    // An answer that failed changes nothing.
    let mut dir = package();
    let answers = vec![answer("fn a() {}"), None];
    assert_eq!(FixDeclarationsLlm.apply_answers(&mut dir, &groups, &answers), Ok(1));
    assert_eq!(dir.get_file("src/lib.rs").unwrap(), b"fn a() {}\nfn b() {}\n");
    // A file that is not there is an error, and nothing is patched.
    let mut dir = package();
    let groups = vec![group("src/lib.rs", Some((0, 14))), group("src/none.rs", None)];
    let answers = vec![answer("fn a() {}"), answer("x")];
    assert_eq!(
        FixDeclarationsLlm.apply_answers(&mut dir, &groups, &answers),
        Err(GetFileError::DoesNotExist)
    );
    assert_eq!(dir.get_file("src/lib.rs").unwrap(), b"fn a() { x() }\nfn b() {}\n");
}

// ── The pipeline ─────────────────────────────────────────────────────────

#[test]
fn the_pipeline_follows_the_stages() {
    let mut config = Config::mock();
    let tasks = schedule(&config, false).unwrap();
    assert!(tasks.iter().any(|t| matches!(t.tool, PipelineTool::RawSourceToCargoLlm)));
    config.modular = true;
    let tasks = schedule(&config, false).unwrap();
    assert!(tasks.iter().any(|t| matches!(t.tool, PipelineTool::ModularTranslationLlm)));
    config.modular = false;
    config.stages = vec![Stage::Translate, Stage::Verify];
    let tasks = schedule(&config, true).unwrap();
    assert!(tasks.iter().any(|t| matches!(t.tool, PipelineTool::VerifyFixAgentic)));
    for (i, t) in tasks.iter().enumerate() {
        assert!(t.inputs.iter().all(|&j| j < i));
    }
    config.stages = vec![Stage::Verify];
    assert!(schedule(&config, false).is_err());
    config.stage_input = Some("/snap".to_string());
    assert!(schedule(&config, false).is_ok());
}

#[test]
fn the_model_is_told() {
    let mut config = Config::mock();
    assert_eq!(config.model_info("agentc"), None);
    config.tools = vec![(
        "raw_source_to_cargo_llm".to_string(),
        Json::Object(vec![
            ("model".to_string(), Json::Str("m".to_string())),
            ("max_tokens".to_string(), Json::Number(Some(5), serde_json::Number::from(5u64))),
        ]),
    )];
    assert_eq!(
        config.model_info("agentc").as_deref(),
        Some("Backend=<unknown> Model=m Max Tokens=5")
    );
    config.stages = vec![Stage::Translate, Stage::Verify];
    assert_eq!(
        config.model_info("agentc").as_deref(),
        Some("agentic(kiro) stages=translate+verify")
    );
    config.agentic_agent = AgentKind::Claude;
    assert_eq!(
        config.model_info("agentc").as_deref(),
        Some("agentic(agentc) stages=translate+verify")
    );
}

// ── The toolchain ────────────────────────────────────────────────────────

fn toolchain() -> ToolchainFacts {
    ToolchainFacts {
        corpus_root: Some("/repo/Test-Corpus".to_string()),
        root_channel: Some("1.90.0".to_string()),
        corpus_channel: None,
        cando2_version: Some("1.90.0".to_string()),
        rustc_version: Ok("rustc 1.90.0 (abc 2025-09-14)".to_string()),
        cargo_version: Ok("cargo 1.90.0".to_string()),
    }
}

#[test]
fn the_toolchain_must_agree() {
    let context = detect_rust_toolchain_context(&toolchain()).unwrap();
    assert_eq!(context.required_version, "1.90.0");
    assert!(context.prompt_block.contains("RUSTUP_TOOLCHAIN=1.90.0"));
    let mut facts = toolchain();
    facts.root_channel = Some("1.80.0".to_string());
    assert!(detect_rust_toolchain_context(&facts).unwrap_err().contains("contract mismatch"));
    let mut facts = toolchain();
    facts.rustc_version = Ok("rustc 1.80.0".to_string());
    assert!(detect_rust_toolchain_context(&facts).unwrap_err().contains("active rustc is 1.80.0"));
    let mut facts = toolchain();
    facts.rustc_version = Ok("rustc".to_string());
    assert!(detect_rust_toolchain_context(&facts).unwrap_err().contains("Could not parse"));
    assert_eq!(read_quoted_value("[toolchain]\nchannel = \"1.90.0\"\n", "channel").as_deref(), Some("1.90.0"));
    assert_eq!(read_quoted_value("[toolchain]\n", "channel"), None);
}

#[test]
fn the_corpus_is_found_above_or_beside() {
    assert_eq!(
        find_test_corpus_root("/repo/Test-Corpus/P/test_case", "/here", false).as_deref(),
        Some("/repo/Test-Corpus")
    );
    assert_eq!(
        find_test_corpus_root("P/test_case", "/here", true).as_deref(),
        Some("/here/Test-Corpus")
    );
    assert_eq!(find_test_corpus_root("P/test_case", "/here", false), None);
}

#[test]
fn a_channel_is_read_from_either_file() {
    let toml = "[toolchain]\nchannel = \"1.94.1\"\n";
    assert_eq!(read_toolchain_channel(Some(toml), Some("1.0")), Some("1.94.1".to_string()));
    assert_eq!(read_toolchain_channel(None, Some(" \"1.90\"\n")), Some("1.90".to_string()));
    assert_eq!(read_toolchain_channel(Some("[toolchain]\n"), None), None);
    assert_eq!(read_toolchain_channel(None, Some(" \n")), None);
}
