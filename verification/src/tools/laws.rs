//! What holds of the agentic tools: what their agents are told, and what becomes of
//! what the agents leave behind.

use crate::agent::opencode;
use crate::agent::phase;
use crate::agent::phase::{AgentInvocation, AgentPhase};
use crate::config::AgentKind;
use crate::cmake_presets::TestConfig;
use crate::fs::raw_dir;
use crate::fs::raw_dir::DiskNode;
use crate::full_source;
use crate::full_source::{CargoPackage, TestSuiteKind};
use crate::path;
use crate::stage_manifest;
use crate::text;
use crate::text_map;
use crate::tools::compile_defs;
use crate::tools::conform_agentic;
use crate::tools::conform_agentic::{ConformAgentic, ConformOutput};
use crate::tools::load_translated_package;
use crate::tools::load_translated_package::load_snapshot;
use crate::tools::prompt;
use crate::tools::prompt::{PromptFacts, PromptSource};
use crate::tools::steps;
use crate::tools::steps::{FinishStep, StepView};
use crate::tools::translate_agentic;
use crate::tools::translate_agentic::{
    ProjectKind, TranslateAgentic, TranslateOutput, TranslatePrompt,
};
use crate::tools::verify_fix_agentic;
use crate::tools::verify_fix_agentic::{
    EnvFile, EnvTemplates, VerifyFixAgentic, VerifyHarness, VerifyOutput, VerifyTemplates,
};
use vstd::prelude::*;

verus! {

// ── Which prompt ─────────────────────────────────────────────────────────

/// A prompt that the configuration names is used. Otherwise Kiro has a prompt for
/// every project kind; the others have the standard one, unless plans or plan files
/// are switched off.
pub proof fn translators_get_their_prompt(
    config: &translate_agentic::Config,
    kind: ProjectKind,
    agent: AgentKind,
    r: PromptSource<TranslatePrompt>,
)
    requires
        call_ensures(translate_agentic::load_prompt, (config, kind, agent), r),
    ensures
        agent != AgentKind::Kiro ==> (config.prompt_translate matches Some(p) ==> r matches
            PromptSource::File(f) && f@ == p@),
        agent != AgentKind::Kiro && config.prompt_translate is None ==> {
            &&& config.no_plan ==> (r matches PromptSource::Builtin(TranslatePrompt::NoPlan))
            &&& !config.no_plan && config.no_plan_file ==> (r matches PromptSource::Builtin(
                TranslatePrompt::NoPlanFile,
            ))
            &&& !config.no_plan && !config.no_plan_file ==> (r matches PromptSource::Builtin(
                TranslatePrompt::Standard,
            ))
        },
        agent == AgentKind::Kiro && kind == ProjectKind::Executable ==> match config.prompt_kiro_executable {
            Some(p) => r matches PromptSource::File(f) && f@ == p@,
            None => r matches PromptSource::Builtin(TranslatePrompt::KiroExecutable),
        },
        agent == AgentKind::Kiro && kind == ProjectKind::Library ==> match config.prompt_kiro_library {
            Some(p) => r matches PromptSource::File(f) && f@ == p@,
            None => r matches PromptSource::Builtin(TranslatePrompt::KiroLibrary),
        },
        agent == AgentKind::Kiro && kind == ProjectKind::Configurable ==> match config.prompt_kiro_configurable {
            Some(p) => r matches PromptSource::File(f) && f@ == p@,
            None => r matches PromptSource::Builtin(TranslatePrompt::KiroConfigurable),
        },
{
}

/// A verification prompt that the configuration names is used. Otherwise Kiro has its
/// own; the others have the one for the mode, and the standard one tells the method
/// that was chosen.
pub proof fn verifiers_get_their_prompt(
    config: &verify_fix_agentic::Config,
    agent: AgentKind,
    t: &VerifyTemplates,
    r: PromptSource<String>,
    a: Seq<char>,
    b: Seq<char>,
)
    requires
        call_ensures(verify_fix_agentic::load_verify_prompt, (config, agent, t), r),
    ensures
        agent == AgentKind::Kiro ==> match config.prompt_kiro_verify {
            Some(p) => r matches PromptSource::File(f) && f@ == p@,
            None => r matches PromptSource::Builtin(s) && s@ == t.kiro@,
        },
        agent != AgentKind::Kiro ==> match config.prompt_verify {
            Some(p) => r matches PromptSource::File(f) && f@ == p@,
            None => {
                &&& config.no_plan ==> (r matches PromptSource::Builtin(s) && s@ == t.no_plan@)
                &&& !config.no_plan && config.no_plan_file ==> (r matches PromptSource::Builtin(s)
                    && s@ == t.no_plan_file@)
                &&& !config.no_plan && !config.no_plan_file && t.standard@ == a
                    + "{VERIFICATION_METHOD}"@ + b && text::lacks(a, '{') && text::lacks(b, '{')
                    && config.verify_harness == VerifyHarness::Libloading ==> (r matches
                    PromptSource::Builtin(s) && s@ == a + t.method_libloading@ + b)
                &&& !config.no_plan && !config.no_plan_file && t.standard@ == a
                    + "{VERIFICATION_METHOD}"@ + b && text::lacks(a, '{') && text::lacks(b, '{')
                    && config.verify_harness == VerifyHarness::Gtest && text::lacks(
                    t.method_gtest@,
                    '{',
                ) ==> (r matches PromptSource::Builtin(s) && s@ == a + t.method_gtest@ + b)
            },
        },
{
    let p = "{VERIFICATION_METHOD}"@;
    let q = "{FUZZTEST_SECTION}"@;
    reveal_strlit("{VERIFICATION_METHOD}");
    reveal_strlit("{FUZZTEST_SECTION}");
    if t.standard@ == a + p + b && text::lacks(a, '{') && text::lacks(b, '{') {
        let w = verify_fix_agentic::method_section_of(*config, *t);
        text::occurrences_are_replaced(a, p, b, w);
        text::nothing_to_replace(b, p, w);
    }
    if text::lacks(t.method_gtest@, '{') {
        text::nothing_to_replace(t.method_gtest@, q, t.fuzztest_section@);
        text::nothing_to_replace(t.method_gtest@, q, ""@);
    }
}

/// The section on the GoogleTest method has the guidance on fuzzing exactly if fuzzing
/// is asked for.
pub proof fn fuzzing_is_explained_on_request(
    config: &verify_fix_agentic::Config,
    t: &VerifyTemplates,
    r: String,
    a: Seq<char>,
    b: Seq<char>,
)
    requires
        call_ensures(verify_fix_agentic::build_method_section, (config, t), r),
        t.method_gtest@ == a + "{FUZZTEST_SECTION}"@ + b,
        text::lacks(a, '{'),
        text::lacks(b, '{'),
    ensures
        config.verify_harness == VerifyHarness::Gtest && config.fuzz ==> r@ == a
            + t.fuzztest_section@ + b,
        config.verify_harness == VerifyHarness::Gtest && !config.fuzz ==> r@ == a + b,
        config.verify_harness == VerifyHarness::Libloading ==> r@ == t.method_libloading@,
{
    let q = "{FUZZTEST_SECTION}"@;
    reveal_strlit("{FUZZTEST_SECTION}");
    reveal_strlit("");
    text::occurrences_are_replaced(a, q, b, t.fuzztest_section@);
    text::nothing_to_replace(b, q, t.fuzztest_section@);
    text::occurrences_are_replaced(a, q, b, ""@);
    text::nothing_to_replace(b, q, ""@);
    assert(a + ""@ + b =~= a + b);
}

/// The two ways to switch plans off exclude each other.
pub proof fn plan_modes_exclude_each_other(
    t: &TranslateAgentic,
    translate: &translate_agentic::Config,
    kind: ProjectKind,
    agent: AgentKind,
    r: Result<PromptSource<TranslatePrompt>, String>,
    v: &VerifyFixAgentic,
    verify: &verify_fix_agentic::Config,
    templates: &VerifyTemplates,
    q: Result<PromptSource<String>, String>,
)
    requires
        call_ensures(TranslateAgentic::start, (t, translate, kind, agent), r),
        call_ensures(VerifyFixAgentic::start, (v, verify, agent, templates), q),
    ensures
        r is Err <==> translate.no_plan && translate.no_plan_file,
        q is Err <==> verify.no_plan && verify.no_plan_file,
{
}

// ── What the agent is told ───────────────────────────────────────────────

proof fn translate_slots(config: translate_agentic::Config, agent: AgentKind, facts: PromptFacts)
    ensures
        forall|k: int|
            0 <= k < 7 ==> #[trigger] prompt::only_one_fills(
                translate_agentic::fills_of(config, agent, facts),
                k,
            ),
{
    let f = translate_agentic::fills_of(config, agent, facts);
    reveal_strlit("AGENT_BUG_WORKAROUNDS");
    reveal_strlit("WISHLIST_PATH");
    reveal_strlit("AGENT_TOOLS_SECTION");
    reveal_strlit("RUST_TOOLCHAIN_CONTEXT");
    reveal_strlit("WORKDIR_BOUNDARY");
    reveal_strlit("WORKFLOW_HINT");
    reveal_strlit("MODEL_LIMITS");
    assert("WISHLIST_PATH"@[1] != "WORKFLOW_HINT"@[1]);
    assert(f.len() == 7);
    assert(forall|i: int| 0 <= i < 7 ==> prompt::names_slot((#[trigger] f[i]).0));
    assert(f[0].0.len() == 21 && f[1].0.len() == 13 && f[2].0.len() == 19 && f[3].0.len() == 22
        && f[4].0.len() == 16 && f[5].0.len() == 13 && f[6].0.len() == 12);
}

/// The agent that translates is told where to note tools that it misses, which Rust it
/// has to write for, and, where it was asked for, to use its workflow.
pub proof fn translators_are_told(
    template: &str,
    config: &translate_agentic::Config,
    agent: AgentKind,
    facts: &PromptFacts,
    r: String,
    a: Seq<char>,
    b: Seq<char>,
)
    requires
        call_ensures(translate_agentic::build_prompt, (template, config, agent, facts), r),
        text::lacks(a, '{'),
        text::lacks(b, '{'),
    ensures
        template@ == a + "{"@ + "RUST_TOOLCHAIN_CONTEXT"@ + "}"@ + b && text::lacks(
            facts.toolchain_block@,
            '{',
        ) ==> r@ == a + facts.toolchain_block@ + b,
        ({
            let place = path::joined(facts.translated@, "tool_wishlist.json"@);
            template@ == a + "{"@ + "WISHLIST_PATH"@ + "}"@ + b && text::lacks(place, '{') ==> r@
                == a + place + b
        }),
        template@ == a + "{"@ + "WORKFLOW_HINT"@ + "}"@ + b ==> r@ == a + (if config.workflow
            && agent == AgentKind::Claude {
            "You must use a workflow.\n\n"@
        } else {
            ""@
        }) + b,
{
    let f = translate_agentic::fills_of(*config, agent, *facts);
    translate_slots(*config, agent, *facts);
    reveal_strlit("You must use a workflow.\n\n");
    reveal_strlit("");
    if text::lacks(facts.toolchain_block@, '{') {
        assert(prompt::only_one_fills(f, 3));
        prompt::slots_are_filled(a, b, f, 3);
        assert(a + "{"@ + "RUST_TOOLCHAIN_CONTEXT"@ + "}"@ + b =~= a + prompt::slot(f[3].0) + b);
    }
    if text::lacks(path::joined(facts.translated@, "tool_wishlist.json"@), '{') {
        assert(prompt::only_one_fills(f, 1));
        prompt::slots_are_filled(a, b, f, 1);
        assert(a + "{"@ + "WISHLIST_PATH"@ + "}"@ + b =~= a + prompt::slot(f[1].0) + b);
    }
    assert(prompt::only_one_fills(f, 5));
    assert(text::lacks(f[5].1, '{'));
    prompt::slots_are_filled(a, b, f, 5);
    assert(a + "{"@ + "WORKFLOW_HINT"@ + "}"@ + b =~= a + prompt::slot(f[5].0) + b);
}

proof fn verify_slots(
    config: verify_fix_agentic::Config,
    agent: AgentKind,
    case_dir: Seq<char>,
    test_config: TestConfig,
    facts: PromptFacts,
)
    ensures
        ({
            let f = verify_fix_agentic::fills_of(config, agent, case_dir, test_config, facts);
            forall|k: int| 0 <= k < f.len() ==> #[trigger] prompt::only_one_fills(f, k)
        }),
{
    let f = verify_fix_agentic::fills_of(config, agent, case_dir, test_config, facts);
    reveal_strlit("AGENT_BUG_WORKAROUNDS");
    reveal_strlit("CMAKE_BUILD_FLAGS");
    reveal_strlit("ALL_CONFIGURATIONS");
    reveal_strlit("WISHLIST_PATH");
    reveal_strlit("AGENT_TOOLS_SECTION");
    reveal_strlit("RUST_TOOLCHAIN_CONTEXT");
    reveal_strlit("WORKDIR_BOUNDARY");
    reveal_strlit("WORKFLOW_HINT");
    reveal_strlit("MODEL_LIMITS");
    reveal_strlit("CASE_DIR");
    assert("WISHLIST_PATH"@[1] != "WORKFLOW_HINT"@[1]);
    assert(forall|i: int| 0 <= i < f.len() ==> prompt::names_slot((#[trigger] f[i]).0));
    assert(f[0].0.len() == 21 && f[1].0.len() == 17 && f[2].0.len() == 18 && f[3].0.len() == 13
        && f[4].0.len() == 19 && f[5].0.len() == 22 && f[6].0.len() == 16 && f[7].0.len() == 13
        && f[8].0.len() == 12);
}

/// The agent that verifies is told the flags of the configuration to verify, and which
/// Rust it has to write for.
pub proof fn verifiers_are_told(
    template: &str,
    config: &verify_fix_agentic::Config,
    agent: AgentKind,
    case_dir: &str,
    test_config: &TestConfig,
    facts: &PromptFacts,
    r: String,
    a: Seq<char>,
    b: Seq<char>,
)
    requires
        call_ensures(
            verify_fix_agentic::build_prompt,
            (template, config, agent, case_dir, test_config, facts),
            r,
        ),
        text::lacks(a, '{'),
        text::lacks(b, '{'),
    ensures
        template@ == a + "{"@ + "CMAKE_BUILD_FLAGS"@ + "}"@ + b && text::lacks(
            test_config.cmake_flags@,
            '{',
        ) ==> r@ == a + test_config.cmake_flags@ + b,
        template@ == a + "{"@ + "RUST_TOOLCHAIN_CONTEXT"@ + "}"@ + b && text::lacks(
            facts.toolchain_block@,
            '{',
        ) ==> r@ == a + facts.toolchain_block@ + b,
        agent == AgentKind::Kiro && template@ == a + "{"@ + "CASE_DIR"@ + "}"@ + b && text::lacks(
            case_dir@,
            '{',
        ) ==> r@ == a + case_dir@ + b,
        template@ == a + "{"@ + "ALL_CONFIGURATIONS"@ + "}"@ + b && test_config.is_blank() ==> r@
            == a + b,
{
    let f = verify_fix_agentic::fills_of(*config, agent, case_dir@, *test_config, *facts);
    verify_slots(*config, agent, case_dir@, *test_config, *facts);
    if text::lacks(test_config.cmake_flags@, '{') {
        assert(prompt::only_one_fills(f, 1));
        prompt::slots_are_filled(a, b, f, 1);
        assert(a + "{"@ + "CMAKE_BUILD_FLAGS"@ + "}"@ + b =~= a + prompt::slot(f[1].0) + b);
    }
    if text::lacks(facts.toolchain_block@, '{') {
        assert(prompt::only_one_fills(f, 5));
        prompt::slots_are_filled(a, b, f, 5);
        assert(a + "{"@ + "RUST_TOOLCHAIN_CONTEXT"@ + "}"@ + b =~= a + prompt::slot(f[5].0) + b);
    }
    if agent == AgentKind::Kiro && text::lacks(case_dir@, '{') {
        assert(prompt::only_one_fills(f, 9));
        prompt::slots_are_filled(a, b, f, 9);
        assert(a + "{"@ + "CASE_DIR"@ + "}"@ + b =~= a + prompt::slot(f[9].0) + b);
    }
    if test_config.is_blank() {
        reveal_strlit("");
        assert(prompt::only_one_fills(f, 2));
        prompt::slots_are_filled(a, b, f, 2);
        assert(a + "{"@ + "ALL_CONFIGURATIONS"@ + "}"@ + b =~= a + prompt::slot(f[2].0) + b);
        assert(a + ""@ + b =~= a + b);
    }
}

// ── Invocations ──────────────────────────────────────────────────────────

/// Whether an invocation carries these settings.
pub open spec fn carries(
    r: AgentInvocation,
    agent: AgentKind,
    timeout_secs: u64,
    model: Option<String>,
    env: Seq<(String, String)>,
    log: Option<String>,
    facts: PromptFacts,
) -> bool {
    &&& r.agent == agent
    &&& r.timeout_secs == timeout_secs
    &&& r.model is Some <==> model is Some
    &&& r.model matches Some(m) ==> m@ == model->0@
    &&& text_map::pair_views(r.extra_env@) == text_map::pair_views(env)
    &&& r.output_log_path is Some <==> log is Some
    &&& r.output_log_path matches Some(p) ==> p@ == log->0@
    &&& r.rust_toolchain matches Some(v) && v@ == facts.required_version@
    &&& r.claude.name@ == facts.claude.name@
    &&& r.claude.title@ == facts.claude.title@
}

/// The invocation that translates carries the agent, the timeout, the model, the modes,
/// the variables and the log that were configured, and runs in the translated project.
pub proof fn translations_carry_their_settings(
    t: &TranslateAgentic,
    config: &translate_agentic::Config,
    agent: AgentKind,
    template: &str,
    facts: &PromptFacts,
    r: AgentInvocation,
    p: String,
)
    requires
        call_ensures(TranslateAgentic::invocation, (t, config, agent, template, facts), r),
        call_ensures(translate_agentic::build_prompt, (template, config, agent, facts), p),
    ensures
        r.phase == AgentPhase::Translate,
        r.work_dir@ == facts.translated@,
        r.prompt@ == p@,
        r.no_plan == config.no_plan,
        r.no_plan_file == config.no_plan_file,
        carries(
            r,
            agent,
            config.timeout_secs,
            config.model,
            config.env@,
            config.output_log_path,
            *facts,
        ),
{
}

/// The invocation that verifies carries what was configured. Kiro runs in the case
/// directory, the others run in the translated project.
pub proof fn verifications_carry_their_settings(
    t: &VerifyFixAgentic,
    config: &verify_fix_agentic::Config,
    agent: AgentKind,
    template: &str,
    case_dir: &str,
    test_config: &TestConfig,
    facts: &PromptFacts,
    r: AgentInvocation,
    p: String,
)
    requires
        call_ensures(
            VerifyFixAgentic::invocation,
            (t, config, agent, template, case_dir, test_config, facts),
            r,
        ),
        call_ensures(
            verify_fix_agentic::build_prompt,
            (template, config, agent, case_dir, test_config, facts),
            p,
        ),
    ensures
        r.phase == AgentPhase::Verify,
        agent == AgentKind::Kiro ==> r.work_dir@ == case_dir@,
        agent != AgentKind::Kiro ==> r.work_dir@ == facts.translated@,
        r.prompt@ == p@,
        r.no_plan == config.no_plan,
        r.no_plan_file == config.no_plan_file,
        carries(
            r,
            agent,
            config.timeout_secs,
            config.model,
            config.env@,
            config.output_log_path,
            *facts,
        ),
{
}

/// The invocation that conforms carries what was configured, and keeps its notes.
pub proof fn conformance_carries_its_settings(
    t: &ConformAgentic,
    config: &conform_agentic::Config,
    agent: AgentKind,
    template: &str,
    kind: TestSuiteKind,
    facts: &PromptFacts,
    r: AgentInvocation,
    p: String,
)
    requires
        call_ensures(ConformAgentic::invocation, (t, config, agent, template, kind, facts), r),
        call_ensures(conform_agentic::build_prompt, (template, config, agent, kind, facts), p),
    ensures
        r.phase == AgentPhase::Conform,
        r.work_dir@ == facts.translated@,
        r.prompt@ == p@,
        !r.no_plan,
        !r.no_plan_file,
        carries(
            r,
            agent,
            config.timeout_secs,
            config.model,
            config.env@,
            config.output_log_path,
            *facts,
        ),
{
}

/// The read-only inputs of the conform stage are the C source and the directories of
/// the suite.
pub proof fn conform_guards_its_inputs(kind: TestSuiteKind, r: Vec<String>, name: Seq<char>)
    requires
        call_ensures(conform_agentic::references, (kind,), r),
    ensures
        text::texts(r@).contains(name) <==> name == "c_src"@ || (match kind {
            TestSuiteKind::Gtest => name == "gtest_suite"@,
            TestSuiteKind::Lib => name == "runner"@ || name == "test_vectors"@,
            TestSuiteKind::Bin => name == "test_vectors"@,
        }),
{
    let all = conform_agentic::references_of(kind);
    assert(all[0] == "c_src"@);
    match kind {
        TestSuiteKind::Gtest => {
            assert(all.len() == 2 && all[1] == "gtest_suite"@);
        },
        TestSuiteKind::Lib => {
            assert(all.len() == 3 && all[1] == "runner"@ && all[2] == "test_vectors"@);
        },
        TestSuiteKind::Bin => {
            assert(all.len() == 2 && all[1] == "test_vectors"@);
        },
    }
}

// ── What becomes of the work ─────────────────────────────────────────────

/// Whether a step is among the steps.
pub open spec fn does(r: Seq<FinishStep>, s: StepView) -> bool {
    steps::step_views(r).contains(s)
}

proof fn in_either(a: Seq<StepView>, b: Seq<StepView>, x: StepView)
    ensures
        (a + b).contains(x) <==> a.contains(x) || b.contains(x),
{
    let s = a + b;
    if a.contains(x) {
        let i = choose|i: int| 0 <= i < a.len() && a[i] == x;
        assert(s[i] == x);
    }
    if b.contains(x) {
        let i = choose|i: int| 0 <= i < b.len() && b[i] == x;
        assert(s[a.len() + i] == x);
    }
    if s.contains(x) {
        let i = choose|i: int| 0 <= i < s.len() && s[i] == x;
        if i < a.len() {
            assert(a[i] == x);
        } else {
            assert(b[i - a.len()] == x);
        }
    }
}

proof fn one_step(s: StepView, x: StepView)
    ensures
        seq![s].contains(x) <==> x == s,
{
    assert(seq![s][0] == s);
}

proof fn copied_out(here: bool, dir: Seq<char>, name: Seq<char>, dest: Option<String>, x: StepView)
    ensures
        steps::copy_out_of(here, dir, name, dest).contains(x) <==> here && dest is Some && x
            == StepView::CopyOut(path::joined(dir, name), dest->0@),
{
    if here && dest is Some {
        one_step(StepView::CopyOut(path::joined(dir, name), dest->0@), x);
    }
}

proof fn edits_made(kind: ProjectKind, name: Option<Seq<char>>, x: StepView)
    ensures
        translate_agentic::manifest_edits(kind, name).contains(x) <==> {
            ||| x == StepView::AddWorkspace
            ||| x == StepView::SaveManifest
            ||| kind == ProjectKind::Executable && x == StepView::SetBinDriver
            ||| kind == ProjectKind::Library && (x == StepView::RemoveBin || x
                == StepView::StripForLib)
            ||| kind == ProjectKind::Library && name is Some && x == StepView::SetLib(name->0)
        },
{
    let first = seq![StepView::AddWorkspace];
    one_step(StepView::AddWorkspace, x);
    match kind {
        ProjectKind::Library => {
            let a = seq![StepView::RemoveBin];
            let b = match name {
                Some(n) => seq![StepView::SetLib(n)],
                None => seq![],
            };
            let c = seq![StepView::SaveManifest, StepView::StripForLib];
            one_step(StepView::RemoveBin, x);
            if let Some(n) = name {
                one_step(StepView::SetLib(n), x);
            }
            assert(c[0] == StepView::SaveManifest && c[1] == StepView::StripForLib);
            assert(c.contains(x) <==> x == StepView::SaveManifest || x == StepView::StripForLib);
            in_either(a, b, x);
            in_either(a + b, c, x);
            in_either(first, a + b + c, x);
        },
        ProjectKind::Executable => {
            let c = seq![StepView::SetBinDriver, StepView::SaveManifest];
            assert(c[0] == StepView::SetBinDriver && c[1] == StepView::SaveManifest);
            assert(c.contains(x) <==> x == StepView::SaveManifest || x == StepView::SetBinDriver);
            in_either(first, c, x);
        },
        ProjectKind::Configurable => {
            one_step(StepView::SaveManifest, x);
            in_either(first, seq![StepView::SaveManifest], x);
        },
    }
}

proof fn translation_steps(
    config: translate_agentic::Config,
    translated: Seq<char>,
    kind: ProjectKind,
    output: TranslateOutput,
    x: StepView,
)
    ensures
        translate_agentic::finish_of(config, translated, kind, output).contains(x) <==> {
            ||| output.has_wishlist && config.wishlist_output_path is Some && x
                == StepView::CopyOut(
                path::joined(translated, "tool_wishlist.json"@),
                config.wishlist_output_path->0@,
            )
            ||| output.has_plan && config.plan_output_path is Some && x == StepView::CopyOut(
                path::joined(translated, "PLAN.md"@),
                config.plan_output_path->0@,
            )
            ||| !output.has_manifest && x == StepView::Fail("Agent did not produce a Cargo.toml"@)
            ||| output.has_manifest && translate_agentic::manifest_edits(
                kind,
                text::opt_text(output.package_name),
            ).contains(x)
            ||| output.has_manifest && (x == StepView::RemoveHidden || x
                == StepView::StripReferences || x == StepView::RemoveDir(
                path::joined(translated, "target"@),
            ) || x == StepView::ReportSymlinks || x == StepView::Freeze)
        },
{
    let w = steps::copy_out_of(
        output.has_wishlist,
        translated,
        "tool_wishlist.json"@,
        config.wishlist_output_path,
    );
    let p = steps::copy_out_of(output.has_plan, translated, "PLAN.md"@, config.plan_output_path);
    copied_out(
        output.has_wishlist,
        translated,
        "tool_wishlist.json"@,
        config.wishlist_output_path,
        x,
    );
    copied_out(output.has_plan, translated, "PLAN.md"@, config.plan_output_path, x);
    in_either(w, p, x);
    if output.has_manifest {
        let e = translate_agentic::manifest_edits(kind, text::opt_text(output.package_name));
        let target = StepView::RemoveDir(path::joined(translated, "target"@));
        let t = seq![
            StepView::RemoveHidden,
            StepView::StripReferences,
            target,
            StepView::ReportSymlinks,
            StepView::Freeze,
        ];
        assert(t[0] == StepView::RemoveHidden && t[1] == StepView::StripReferences && t[2]
            == target && t[3] == StepView::ReportSymlinks && t[4] == StepView::Freeze);
        in_either(e, t, x);
        in_either(w + p, e + t, x);
    } else {
        let fail = StepView::Fail("Agent did not produce a Cargo.toml"@);
        one_step(fail, x);
        in_either(w + p, seq![fail], x);
    }
}

/// A translation is taken exactly if it has a manifest, and is fitted to its kind: an
/// executable's binary is the driver, a library has no binary and its library target
/// is named after the package. What the agent wrote for later is copied to where it is
/// wanted.
pub proof fn translations_are_fitted_to_their_kind(
    t: &TranslateAgentic,
    config: &translate_agentic::Config,
    translated: &str,
    kind: ProjectKind,
    output: &TranslateOutput,
    r: Vec<FinishStep>,
)
    requires
        call_ensures(TranslateAgentic::finish, (t, config, translated, kind, output), r),
    ensures
        does(r@, StepView::Freeze) <==> output.has_manifest,
        does(r@, StepView::AddWorkspace) <==> output.has_manifest,
        does(r@, StepView::SaveManifest) <==> output.has_manifest,
        does(r@, StepView::StripReferences) <==> output.has_manifest,
        does(r@, StepView::RemoveHidden) <==> output.has_manifest,
        does(r@, StepView::SetBinDriver) <==> output.has_manifest && kind
            == ProjectKind::Executable,
        does(r@, StepView::RemoveBin) <==> output.has_manifest && kind == ProjectKind::Library,
        does(r@, StepView::StripForLib) <==> output.has_manifest && kind == ProjectKind::Library,
        output.package_name matches Some(n) ==> (does(r@, StepView::SetLib(n@))
            <==> output.has_manifest && kind == ProjectKind::Library),
        config.plan_output_path matches Some(d) ==> output.has_plan ==> does(
            r@,
            StepView::CopyOut(path::joined(translated@, "PLAN.md"@), d@),
        ),
        config.wishlist_output_path matches Some(d) ==> output.has_wishlist ==> does(
            r@,
            StepView::CopyOut(path::joined(translated@, "tool_wishlist.json"@), d@),
        ),
{
    assert forall|x: StepView| #![trigger steps::step_views(r@).contains(x)] does(r@, x) <==> {
        ||| output.has_wishlist && config.wishlist_output_path is Some && x == StepView::CopyOut(
            path::joined(translated@, "tool_wishlist.json"@),
            config.wishlist_output_path->0@,
        )
        ||| output.has_plan && config.plan_output_path is Some && x == StepView::CopyOut(
            path::joined(translated@, "PLAN.md"@),
            config.plan_output_path->0@,
        )
        ||| !output.has_manifest && x == StepView::Fail("Agent did not produce a Cargo.toml"@)
        ||| output.has_manifest && translate_agentic::manifest_edits(
            kind,
            text::opt_text(output.package_name),
        ).contains(x)
        ||| output.has_manifest && (x == StepView::RemoveHidden || x == StepView::StripReferences
            || x == StepView::RemoveDir(path::joined(translated@, "target"@)) || x
            == StepView::ReportSymlinks || x == StepView::Freeze)
    } by {
        translation_steps(*config, translated@, kind, *output, x);
    }
    let name = text::opt_text(output.package_name);
    edits_made(kind, name, StepView::Freeze);
    edits_made(kind, name, StepView::AddWorkspace);
    edits_made(kind, name, StepView::SaveManifest);
    edits_made(kind, name, StepView::StripReferences);
    edits_made(kind, name, StepView::RemoveHidden);
    edits_made(kind, name, StepView::SetBinDriver);
    edits_made(kind, name, StepView::RemoveBin);
    edits_made(kind, name, StepView::StripForLib);
    if let Some(n) = output.package_name {
        edits_made(kind, name, StepView::SetLib(n@));
    }
}

/// A verified project is taken without hidden files, the C source and build output,
/// which are removed before. The wishlist is appended to the earlier one, and the
/// hypotheses are copied to where they are wanted.
pub proof fn verified_projects_are_cleared(
    t: &VerifyFixAgentic,
    config: &verify_fix_agentic::Config,
    translated: &str,
    output: &VerifyOutput,
    r: Vec<FinishStep>,
)
    requires
        call_ensures(VerifyFixAgentic::finish, (t, config, translated, output), r),
    ensures
        r@.len() >= 6,
        r@[r@.len() - 1].view() == StepView::Freeze,
        does(r@, StepView::RemoveHidden),
        does(r@, StepView::RemoveDir(path::joined(translated@, "c_src"@))),
        does(r@, StepView::RemoveDir(path::joined(translated@, "target"@))),
        does(r@, StepView::StripBuildDirs(path::joined(translated@, "verify_env"@))),
        config.wishlist_output_path matches Some(d) ==> (output.has_wishlist <==> does(
            r@,
            StepView::AppendOut(path::joined(translated@, "tool_wishlist.json"@), d@),
        )),
        config.hypotheses_output_path matches Some(d) ==> (output.has_hypotheses <==> does(
            r@,
            StepView::CopyOut(path::joined(translated@, "HYPOTHESES.md"@), d@),
        )),
{
    let s = steps::step_views(r@);
    let n = s.len() as int;
    assert(s[n - 6] == StepView::RemoveHidden);
    assert(s[n - 5] == StepView::RemoveDir(path::joined(translated@, "c_src"@)));
    assert(s[n - 4] == StepView::RemoveDir(path::joined(translated@, "target"@)));
    assert(s[n - 3] == StepView::StripBuildDirs(path::joined(translated@, "verify_env"@)));
    assert(s[n - 1] == StepView::Freeze);
    assert(s[n - 1] == r@[n - 1].view());
    if config.wishlist_output_path is Some && output.has_wishlist {
        assert(s[0] is AppendOut);
    }
    if config.hypotheses_output_path is Some && output.has_hypotheses {
        assert(s[n - 7] is CopyOut);
    }
}

/// A conforming project is taken without hidden files, the references and build
/// output, which are removed before. A missing report is told of.
pub proof fn conforming_projects_are_cleared(
    t: &ConformAgentic,
    config: &conform_agentic::Config,
    translated: &str,
    output: &ConformOutput,
    r: Vec<FinishStep>,
)
    requires
        call_ensures(ConformAgentic::finish, (t, config, translated, output), r),
    ensures
        r@.len() >= 5,
        r@[r@.len() - 1].view() == StepView::Freeze,
        does(r@, StepView::RemoveHidden),
        does(r@, StepView::StripReferences),
        does(r@, StepView::RemoveDir(path::joined(translated@, "target"@))),
        (exists|i: int| 0 <= i < r@.len() && (#[trigger] r@[i]) is Warn) <==> !output.has_report,
        config.notes_output_path matches Some(d) ==> output.has_notes ==> does(
            r@,
            StepView::CopyOut(path::joined(translated@, "CONFORM.md"@), d@),
        ),
        config.report_output_path matches Some(d) ==> output.has_report ==> does(
            r@,
            StepView::CopyOut(path::joined(translated@, "CONFORM_REPORT.md"@), d@),
        ),
{
    let s = steps::step_views(r@);
    let n = s.len() as int;
    assert(s[n - 5] == StepView::RemoveHidden);
    assert(s[n - 4] == StepView::StripReferences);
    assert(s[n - 3] == StepView::RemoveDir(path::joined(translated@, "target"@)));
    assert(s[n - 1] == StepView::Freeze);
    assert(s[n - 1] == r@[n - 1].view());
    if config.notes_output_path is Some && output.has_notes {
        assert(s[0] is CopyOut);
    }
    if output.has_report {
        if config.report_output_path is Some {
            assert(s[n - 6] is CopyOut);
        }
        assert forall|i: int| 0 <= i < r@.len() implies !((#[trigger] r@[i]) is Warn) by {
            assert(s[i] == r@[i].view());
            assert(!(s[i] is Warn));
        }
    } else {
        assert(s[n - 6] is Warn);
        assert(s[n - 6] == r@[n - 6].view());
        assert(r@[n - 6] is Warn);
    }
}

/// A wait lasts until the time that was set, and there is none after it.
pub proof fn waits_end_at_their_time(config: &verify_fix_agentic::Config, now: u64, r: u64)
    requires
        call_ensures(verify_fix_agentic::Config::wait_secs, (config, now), r),
    ensures
        config.wait_until is None ==> r == 0,
        config.wait_until matches Some(t) ==> (now >= t ==> r == 0) && (now < t ==> now + r == t),
{
}

/// The agent gets the verification environment only where its prompt tells of it.
pub proof fn environments_go_with_their_prompt(
    config: &verify_fix_agentic::Config,
    agent: AgentKind,
    r: bool,
)
    requires
        call_ensures(verify_fix_agentic::gtest_harness_active, (config, agent), r),
    ensures
        r <==> config.verify_harness == VerifyHarness::Gtest && !config.no_plan
            && !config.no_plan_file && agent != AgentKind::Kiro,
{
}

/// The verification environment lies in a directory of its own in the project. Its
/// scripts, and nothing else, can be run, and what FuzzTest needs is there exactly if
/// fuzzing is asked for.
pub proof fn environments_are_complete(
    translated: &str,
    project_cmake: Option<&str>,
    fuzz: bool,
    t: &EnvTemplates,
    r: Vec<EnvFile>,
)
    requires
        call_ensures(
            verify_fix_agentic::materialize_verify_env,
            (translated, project_cmake, fuzz, t),
            r,
        ),
    ensures
        ({
            let dir = path::joined(translated@, "verify_env"@);
            &&& r@.len() == 6 + (if fuzz {
                1 + t.docs@.len()
            } else {
                0
            })
            &&& r@[0].path@ == path::joined(dir, "CMakeLists.txt"@) && !r@[0].executable
            &&& r@[1].path@ == path::joined(dir, "verification_tests.cc"@) && r@[1].contents@
                == t.tests_cc@ && !r@[1].executable
            &&& r@[2].path@ == path::joined(dir, "harvest_diff.h"@) && r@[2].contents@ == t.diff_h@
                && !r@[2].executable
            &&& r@[3].path@ == path::joined(dir, "rust_lib.h"@) && r@[3].contents@ == t.rust_lib_h@
                && !r@[3].executable
            &&& r@[4].path@ == path::joined(dir, "README.md"@) && r@[4].contents@ == t.readme@
                && !r@[4].executable
            &&& r@[5].path@ == path::joined(dir, "build.sh"@) && r@[5].contents@ == t.build_sh@
                && r@[5].executable
            &&& fuzz ==> r@[6].path@ == path::joined(dir, "build_fuzz.sh"@) && r@[6].contents@
                == t.build_fuzz_sh@ && r@[6].executable
            &&& fuzz ==> forall|i: int|
                0 <= i < t.docs@.len() ==> {
                    let f = #[trigger] r@[7 + i];
                    f.path@ == path::joined(path::joined(dir, "docs"@), t.docs@[i].0@)
                        && f.contents@ == t.docs@[i].1@ && !f.executable
                }
        }),
{
    let v = verify_fix_agentic::env_file_views(r@);
    let all = verify_fix_agentic::environment_of(translated@, fuzz, project_cmake, *t);
    assert(v.len() == r@.len());
    assert(forall|i: int| 0 <= i < r@.len() ==> #[trigger] v[i] == r@[i].view());
    assert(v[0] == r@[0].view() && v[1] == r@[1].view() && v[2] == r@[2].view());
    assert(v[3] == r@[3].view() && v[4] == r@[4].view() && v[5] == r@[5].view());
    if fuzz {
        let docs = text_map::pair_views(t.docs@);
        assert(docs.len() == t.docs@.len());
        assert(v[6] == r@[6].view());
        assert forall|i: int| 0 <= i < t.docs@.len() implies {
            let f = #[trigger] r@[7 + i];
            f.path@ == path::joined(
                path::joined(path::joined(translated@, "verify_env"@), "docs"@),
                t.docs@[i].0@,
            ) && f.contents@ == t.docs@[i].1@ && !f.executable
        } by {
            assert(v[7 + i] == r@[7 + i].view());
            assert(docs[i] == (t.docs@[i].0@, t.docs@[i].1@));
            assert(all[7 + i] == verify_fix_agentic::doc_files(
                path::joined(path::joined(translated@, "verify_env"@), "docs"@),
                docs,
            )[i]);
        }
    }
}

proof fn builds_among(entries: Seq<(Seq<char>, bool)>, n: Seq<char>)
    ensures
        verify_fix_agentic::build_dirs_of(entries).contains(n) <==> text::has_prefix(n, "build-"@)
            && entries.contains((n, true)),
    decreases entries.len(),
{
    if entries.len() > 0 {
        let front = entries.drop_last();
        builds_among(front, n);
        let before = verify_fix_agentic::build_dirs_of(front);
        let all = verify_fix_agentic::build_dirs_of(entries);
        if before.contains(n) {
            let k = choose|k: int| 0 <= k < before.len() && before[k] == n;
            assert(all[k] == n);
            let i = choose|i: int| 0 <= i < front.len() && front[i] == (n, true);
            assert(entries[i] == (n, true));
        }
        if entries.last() == (n, true) && text::has_prefix(n, "build-"@) {
            assert(all[before.len() as int] == n);
            assert(entries[entries.len() - 1] == (n, true));
        }
        if entries.contains((n, true)) {
            let i = choose|i: int| 0 <= i < entries.len() && entries[i] == (n, true);
            if i < front.len() {
                assert(front[i] == (n, true));
            }
        }
        if all.contains(n) {
            let k = choose|k: int| 0 <= k < all.len() && all[k] == n;
            if k < before.len() {
                assert(before[k] == n);
            } else {
                assert(entries[entries.len() - 1] == (n, true));
            }
        }
    }
}

/// Build output is told by its name: the directories whose name starts like one.
pub proof fn build_output_is_told_by_its_name(
    entries: &Vec<(String, bool)>,
    r: Vec<String>,
    n: Seq<char>,
)
    requires
        call_ensures(verify_fix_agentic::strip_build_dirs, (entries,), r),
    ensures
        text::texts(r@).contains(n) <==> text::has_prefix(n, "build-"@) && exists|i: int|
            0 <= i < entries@.len() && (#[trigger] entries@[i]).0@ == n && entries@[i].1,
{
    let all = verify_fix_agentic::entry_views(entries@);
    builds_among(all, n);
    if all.contains((n, true)) {
        let i = choose|i: int| 0 <= i < all.len() && all[i] == (n, true);
        assert(entries@[i].0@ == n && entries@[i].1);
    }
    if exists|i: int| 0 <= i < entries@.len() && (#[trigger] entries@[i]).0@ == n && entries@[i].1 {
        let i = choose|i: int|
            0 <= i < entries@.len() && (#[trigger] entries@[i]).0@ == n && entries@[i].1;
        assert(all[i] == (n, true));
    }
}

/// A wishlist that is there already comes first, and nothing of it is lost.
pub proof fn wishlists_are_appended(existing: Option<&str>, new_entries: &str, r: String)
    requires
        call_ensures(verify_fix_agentic::merge_wishlists, (existing, new_entries), r),
    ensures
        existing matches Some(e) ==> r@ == e@ + new_entries@,
        existing is None ==> r@ == new_entries@,
{
}

// ── Packages ─────────────────────────────────────────────────────────────

/// What is reserved at the top level of a snapshot.
pub proof fn five_names_are_reserved(name: &str, r: bool)
    requires
        call_ensures(stage_manifest::is_reserved_toplevel, (name,), r),
    ensures
        r <==> name@ == ".harvest"@ || name@ == "target"@ || name@ == "gtest_suite"@ || name@
            == "runner"@ || name@ == "test_vectors"@,
{
}

/// A package is taken only from a directory with a manifest, and holds neither what
/// the framework wrote, nor build output, nor external tests.
pub proof fn packages_come_from_snapshots(
    directory: &str,
    meta_files: &Vec<String>,
    entries: &Vec<(String, DiskNode)>,
    r: Result<CargoPackage, String>,
    name: Seq<char>,
)
    requires
        call_ensures(load_snapshot, (directory, meta_files, entries), r),
        name == ".harvest"@ || name == "target"@ || name == "gtest_suite"@ || name == "runner"@
            || name == "test_vectors"@,
    ensures
        r is Ok ==> text::texts(meta_files@).contains("stage.json"@),
        r matches Ok(p) ==> raw_dir::find(p.dir.view(), name) is None && p.dir.view().len() > 0,
{
    load_translated_package::package_holds_nothing_reserved(
        raw_dir::disk_views(entries@),
        name,
    );
}

/// Settings that have no effect are warned of: fuzzing without the harness that does
/// it, and that harness where the prompt is for the other one.
pub proof fn idle_settings_are_warned_of(config: &verify_fix_agentic::Config, r: Vec<String>)
    requires
        call_ensures(verify_fix_agentic::Config::harness_warnings, (config,), r),
    ensures
        ({
            let gtest = config.verify_harness == VerifyHarness::Gtest;
            let idle_fuzz = config.fuzz && !gtest;
            let idle_gtest = gtest && (config.no_plan || config.no_plan_file);
            &&& r@.len() == (if idle_fuzz {
                1int
            } else {
                0
            }) + (if idle_gtest {
                1int
            } else {
                0
            })
            &&& idle_fuzz ==> text::contains_text(r@[0]@, "fuzz has no effect"@)
            &&& idle_gtest ==> text::contains_text(r@[0]@, "verify_harness = gtest is not applied"@)
        }),
{
    assert(text::texts(r@).len() == r@.len());
    let w =
        "tools.verify_fix_agentic: fuzz has no effect without verify_harness = gtest; ignoring"@;
    let v =
        "tools.verify_fix_agentic: verify_harness = gtest is not applied under no_plan/no_plan_file (those prompts are libloading-only); using libloading"@;
    reveal_strlit(
        "tools.verify_fix_agentic: fuzz has no effect without verify_harness = gtest; ignoring",
    );
    reveal_strlit(
        "tools.verify_fix_agentic: verify_harness = gtest is not applied under no_plan/no_plan_file (those prompts are libloading-only); using libloading",
    );
    reveal_strlit("fuzz has no effect");
    reveal_strlit("verify_harness = gtest is not applied");
    if r@.len() > 0 {
        assert(r@[0]@ == text::texts(r@)[0]);
    }
    let p = "fuzz has no effect"@;
    let q = "verify_harness = gtest is not applied"@;
    assert(w.subrange(26, 26 + p.len() as int) =~= p);
    assert(text::occurs_at(w, p, 26));
    assert(v.subrange(26, 26 + q.len() as int) =~= q);
    assert(text::occurs_at(v, q, 26));
}

/// Every directory of a suite is in the list of them, quoted.
pub proof fn suite_directories_are_listed(kind: TestSuiteKind, r: String)
    requires
        call_ensures(conform_agentic::suite_dir_list, (kind,), r),
    ensures
        kind == TestSuiteKind::Gtest ==> text::contains_text(r@, "`"@ + "gtest_suite"@ + "/`"@),
        kind == TestSuiteKind::Lib ==> text::contains_text(r@, "`"@ + "runner"@ + "/`"@),
        kind != TestSuiteKind::Gtest ==> text::contains_text(r@, "`"@ + "test_vectors"@ + "/`"@),
{
    let parts = conform_agentic::quoted_dirs(full_source::suite_dirs(kind));
    text::joined_parts_are_held(parts, ", "@, 0);
    text::joined_parts_are_held(parts, ", "@, parts.len() - 1);
}

// ── Every slot ───────────────────────────────────────────────────────────

/// Whether a template is a text with one slot of that name in it.
pub open spec fn asks_for(template: Seq<char>, a: Seq<char>, name: Seq<char>, b: Seq<char>) -> bool {
    template == a + "{"@ + name + "}"@ + b && text::lacks(a, '{') && text::lacks(b, '{')
}

proof fn the_slot_gives_way(
    template: Seq<char>,
    f: Seq<(Seq<char>, Seq<char>)>,
    k: int,
    a: Seq<char>,
    b: Seq<char>,
)
    requires
        prompt::only_one_fills(f, k),
    ensures
        asks_for(template, a, f[k].0, b) && text::lacks(f[k].1, '{') ==> prompt::filled(template, f)
            == a + f[k].1 + b,
{
    if asks_for(template, a, f[k].0, b) && text::lacks(f[k].1, '{') {
        prompt::slots_are_filled(a, b, f, k);
        assert(template =~= a + prompt::slot(f[k].0) + b);
    }
}

/// What every stage's prompt says of the agent itself is what the functions that render
/// it say: the warnings about its faults, the boundary it must keep to and the limits of
/// its model.
pub proof fn agents_are_told_of_themselves(
    template: &str,
    agent: AgentKind,
    facts: &PromptFacts,
    translate: &translate_agentic::Config,
    r: String,
    verify: &verify_fix_agentic::Config,
    case_dir: &str,
    test_config: &TestConfig,
    s: String,
    conform: &conform_agentic::Config,
    kind: TestSuiteKind,
    t: String,
    work_dir: &str,
    faults: String,
    boundary: String,
    a: Seq<char>,
    b: Seq<char>,
)
    requires
        call_ensures(translate_agentic::build_prompt, (template, translate, agent, facts), r),
        call_ensures(
            verify_fix_agentic::build_prompt,
            (template, verify, agent, case_dir, test_config, facts),
            s,
        ),
        call_ensures(conform_agentic::build_prompt, (template, conform, agent, kind, facts), t),
        call_ensures(phase::agent_bug_workarounds, (agent, &facts.claude), faults),
        call_ensures(opencode::render_workdir_boundary, (agent, work_dir), boundary),
        work_dir@ == facts.translated@,
    ensures
        asks_for(template@, a, "AGENT_BUG_WORKAROUNDS"@, b) && text::lacks(faults@, '{') ==> r@ == a
            + faults@ + b && s@ == r@ && t@ == r@,
        asks_for(template@, a, "WORKDIR_BOUNDARY"@, b) && text::lacks(boundary@, '{') ==> r@ == a
            + boundary@ + b && s@ == r@ && t@ == r@,
{
    let f = translate_agentic::fills_of(*translate, agent, *facts);
    let g = verify_fix_agentic::fills_of(*verify, agent, case_dir@, *test_config, *facts);
    let h = conform_agentic::fills_of(*conform, agent, kind, *facts);
    translate_slots(*translate, agent, *facts);
    verify_slots(*verify, agent, case_dir@, *test_config, *facts);
    conform_slots(*conform, agent, kind, *facts);
    assert(prompt::only_one_fills(f, 0) && prompt::only_one_fills(f, 4));
    assert(prompt::only_one_fills(g, 0) && prompt::only_one_fills(g, 6));
    assert(prompt::only_one_fills(h, 0) && prompt::only_one_fills(h, 4));
    the_slot_gives_way(template@, f, 0, a, b);
    the_slot_gives_way(template@, g, 0, a, b);
    the_slot_gives_way(template@, h, 0, a, b);
    the_slot_gives_way(template@, f, 4, a, b);
    the_slot_gives_way(template@, g, 6, a, b);
    the_slot_gives_way(template@, h, 4, a, b);
}

/// The limits of a stage's model are told as they are rendered for that model.
pub proof fn models_are_told_of(
    template: &str,
    agent: AgentKind,
    facts: &PromptFacts,
    translate: &translate_agentic::Config,
    r: String,
    x: String,
    verify: &verify_fix_agentic::Config,
    case_dir: &str,
    test_config: &TestConfig,
    s: String,
    y: String,
    conform: &conform_agentic::Config,
    kind: TestSuiteKind,
    t: String,
    z: String,
    a: Seq<char>,
    b: Seq<char>,
)
    requires
        call_ensures(translate_agentic::build_prompt, (template, translate, agent, facts), r),
        call_ensures(
            verify_fix_agentic::build_prompt,
            (template, verify, agent, case_dir, test_config, facts),
            s,
        ),
        call_ensures(conform_agentic::build_prompt, (template, conform, agent, kind, facts), t),
        call_ensures(prompt::limits_text, (agent, &translate.model, &facts.limits), x),
        call_ensures(prompt::limits_text, (agent, &verify.model, &facts.limits), y),
        call_ensures(prompt::limits_text, (agent, &conform.model, &facts.limits), z),
        asks_for(template@, a, "MODEL_LIMITS"@, b),
    ensures
        text::lacks(x@, '{') ==> r@ == a + x@ + b,
        text::lacks(y@, '{') ==> s@ == a + y@ + b,
        text::lacks(z@, '{') ==> t@ == a + z@ + b,
{
    let f = translate_agentic::fills_of(*translate, agent, *facts);
    let g = verify_fix_agentic::fills_of(*verify, agent, case_dir@, *test_config, *facts);
    let h = conform_agentic::fills_of(*conform, agent, kind, *facts);
    translate_slots(*translate, agent, *facts);
    verify_slots(*verify, agent, case_dir@, *test_config, *facts);
    conform_slots(*conform, agent, kind, *facts);
    assert(prompt::only_one_fills(f, 6));
    assert(prompt::only_one_fills(g, 8));
    assert(prompt::only_one_fills(h, 5));
    the_slot_gives_way(template@, f, 6, a, b);
    the_slot_gives_way(template@, g, 8, a, b);
    the_slot_gives_way(template@, h, 5, a, b);
}

/// The tools are told of under the directory they lie in, and the configurations to
/// verify, the hint and the wishlist as they are.
pub proof fn verifiers_are_told_the_rest(
    template: &str,
    config: &verify_fix_agentic::Config,
    agent: AgentKind,
    case_dir: &str,
    test_config: &TestConfig,
    facts: &PromptFacts,
    r: String,
    dir: &str,
    docs: String,
    all: String,
    hint: String,
    a: Seq<char>,
    b: Seq<char>,
)
    requires
        call_ensures(
            verify_fix_agentic::build_prompt,
            (template, config, agent, case_dir, test_config, facts),
            r,
        ),
        dir@ == path::joined(facts.translated@, "agent_tools"@),
        call_ensures(
            prompt::tools_section,
            ("---\n\n## Available Tools\n\n", "\n\n", dir, &facts.tool_docs),
            docs,
        ),
        call_ensures(verify_fix_agentic::render_configurations, (test_config,), all),
        call_ensures(prompt::workflow_hint, (config.workflow, agent), hint),
    ensures
        asks_for(template@, a, "AGENT_TOOLS_SECTION"@, b) && text::lacks(docs@, '{') ==> r@ == a
            + docs@ + b,
        asks_for(template@, a, "ALL_CONFIGURATIONS"@, b) && text::lacks(all@, '{') ==> r@ == a
            + all@ + b,
        asks_for(template@, a, "WORKFLOW_HINT"@, b) && text::lacks(hint@, '{') ==> r@ == a + hint@
            + b,
        ({
            let place = path::joined(facts.translated@, "tool_wishlist.json"@);
            asks_for(template@, a, "WISHLIST_PATH"@, b) && text::lacks(place, '{') ==> r@ == a
                + place + b
        }),
{
    let f = verify_fix_agentic::fills_of(*config, agent, case_dir@, *test_config, *facts);
    verify_slots(*config, agent, case_dir@, *test_config, *facts);
    assert(prompt::only_one_fills(f, 2) && prompt::only_one_fills(f, 3));
    assert(prompt::only_one_fills(f, 4) && prompt::only_one_fills(f, 7));
    the_slot_gives_way(template@, f, 2, a, b);
    the_slot_gives_way(template@, f, 3, a, b);
    the_slot_gives_way(template@, f, 4, a, b);
    the_slot_gives_way(template@, f, 7, a, b);
}

/// The tools are told of under the directory they lie in.
pub proof fn translators_are_told_of_tools(
    template: &str,
    config: &translate_agentic::Config,
    agent: AgentKind,
    facts: &PromptFacts,
    r: String,
    dir: &str,
    docs: String,
    a: Seq<char>,
    b: Seq<char>,
)
    requires
        call_ensures(translate_agentic::build_prompt, (template, config, agent, facts), r),
        dir@ == path::joined(facts.translated@, "agent_tools"@),
        call_ensures(
            prompt::tools_section,
            ("### Available Tools\n\n", "\n", dir, &facts.tool_docs),
            docs,
        ),
    ensures
        asks_for(template@, a, "AGENT_TOOLS_SECTION"@, b) && text::lacks(docs@, '{') ==> r@ == a
            + docs@ + b,
{
    let f = translate_agentic::fills_of(*config, agent, *facts);
    translate_slots(*config, agent, *facts);
    assert(prompt::only_one_fills(f, 2));
    the_slot_gives_way(template@, f, 2, a, b);
}

proof fn conform_slots(
    config: conform_agentic::Config,
    agent: AgentKind,
    kind: TestSuiteKind,
    facts: PromptFacts,
)
    ensures
        ({
            let f = conform_agentic::fills_of(config, agent, kind, facts);
            forall|k: int| 0 <= k < f.len() ==> #[trigger] prompt::only_one_fills(f, k)
        }),
{
    let f = conform_agentic::fills_of(config, agent, kind, facts);
    reveal_strlit("AGENT_BUG_WORKAROUNDS");
    reveal_strlit("CONFORM_TEST_INSTRUCTIONS");
    reveal_strlit("EXTERNAL_TEST_DIRS");
    reveal_strlit("RUST_TOOLCHAIN_CONTEXT");
    reveal_strlit("WORKDIR_BOUNDARY");
    reveal_strlit("MODEL_LIMITS");
    assert(f.len() == 6);
    assert(forall|i: int| 0 <= i < 6 ==> prompt::names_slot((#[trigger] f[i]).0));
    assert(f[0].0.len() == 21 && f[1].0.len() == 25 && f[2].0.len() == 18 && f[3].0.len() == 22
        && f[4].0.len() == 16 && f[5].0.len() == 12);
}

/// The agent that makes a project conform is told how to run the suite, which
/// directories it must leave alone and which Rust it has to write for.
pub proof fn conformers_are_told(
    template: &str,
    config: &conform_agentic::Config,
    agent: AgentKind,
    kind: TestSuiteKind,
    facts: &PromptFacts,
    r: String,
    version: &str,
    how: String,
    dirs: String,
    a: Seq<char>,
    b: Seq<char>,
)
    requires
        call_ensures(conform_agentic::build_prompt, (template, config, agent, kind, facts), r),
        version@ == facts.required_version@,
        call_ensures(conform_agentic::test_instructions, (kind, version), how),
        call_ensures(conform_agentic::suite_dir_list, (kind,), dirs),
    ensures
        asks_for(template@, a, "CONFORM_TEST_INSTRUCTIONS"@, b) && text::lacks(how@, '{') ==> r@
            == a + how@ + b,
        asks_for(template@, a, "EXTERNAL_TEST_DIRS"@, b) && text::lacks(dirs@, '{') ==> r@ == a
            + dirs@ + b,
        asks_for(template@, a, "RUST_TOOLCHAIN_CONTEXT"@, b) && text::lacks(
            facts.toolchain_block@,
            '{',
        ) ==> r@ == a + facts.toolchain_block@ + b,
{
    let f = conform_agentic::fills_of(*config, agent, kind, *facts);
    conform_slots(*config, agent, kind, *facts);
    assert(prompt::only_one_fills(f, 1) && prompt::only_one_fills(f, 2));
    assert(prompt::only_one_fills(f, 3));
    the_slot_gives_way(template@, f, 1, a, b);
    the_slot_gives_way(template@, f, 2, a, b);
    the_slot_gives_way(template@, f, 3, a, b);
}

/// The environment links the framework that runs its tests, fetches FuzzTest only to
/// fuzz, and compiles the C source with the project's own definitions.
pub proof fn environments_link_their_framework(
    template: &str,
    fuzz: bool,
    project: &str,
    r: String,
    s: String,
    defs: String,
    a: Seq<char>,
    b: Seq<char>,
)
    requires
        call_ensures(verify_fix_agentic::environment_cmake, (template, fuzz, Some(project)), r),
        call_ensures(verify_fix_agentic::environment_cmake, (template, fuzz, None), s),
        call_ensures(compile_defs::parse_c_compile_defs, (project,), defs),
    ensures
        asks_for(template@, a, "TEST_LINK"@, b) ==> r@ == a + (if fuzz {
            "link_fuzztest(verification_tests)"@
        } else {
            "target_link_libraries(verification_tests PRIVATE GTest::gtest_main)"@
        }) + b,
        asks_for(template@, a, "FUZZTEST_MAKEAVAIL"@, b) ==> r@ == a + (if fuzz {
            " fuzztest"@
        } else {
            Seq::empty()
        }) + b,
        !fuzz && (asks_for(template@, a, "FUZZTEST_DECLARE"@, b) || asks_for(
            template@,
            a,
            "FUZZTEST_SETUP_FLAGS"@,
            b,
        )) ==> r@ == a + b,
        asks_for(template@, a, "C_COMPILE_DEFS"@, b) && text::lacks(defs@, '{') ==> r@ == a + defs@
            + b && s@ == a + b,
{
    let f = verify_fix_agentic::cmake_fills(fuzz, defs@);
    let g = verify_fix_agentic::cmake_fills(fuzz, ""@);
    cmake_slots(fuzz, defs@);
    cmake_slots(fuzz, ""@);
    reveal_strlit("");
    reveal_strlit(" fuzztest");
    reveal_strlit("link_fuzztest(verification_tests)");
    reveal_strlit("target_link_libraries(verification_tests PRIVATE GTest::gtest_main)");
    assert(prompt::only_one_fills(f, 0) && prompt::only_one_fills(f, 1));
    assert(prompt::only_one_fills(f, 2) && prompt::only_one_fills(f, 3));
    assert(prompt::only_one_fills(f, 4) && prompt::only_one_fills(g, 4));
    the_slot_gives_way(template@, f, 0, a, b);
    the_slot_gives_way(template@, f, 1, a, b);
    the_slot_gives_way(template@, f, 2, a, b);
    the_slot_gives_way(template@, f, 3, a, b);
    the_slot_gives_way(template@, f, 4, a, b);
    the_slot_gives_way(template@, g, 4, a, b);
    assert(""@ =~= Seq::empty());
    assert(a + ""@ + b =~= a + b);
}

proof fn cmake_slots(fuzz: bool, c_defs: Seq<char>)
    ensures
        ({
            let f = verify_fix_agentic::cmake_fills(fuzz, c_defs);
            forall|k: int| 0 <= k < f.len() ==> #[trigger] prompt::only_one_fills(f, k)
        }),
{
    let f = verify_fix_agentic::cmake_fills(fuzz, c_defs);
    reveal_strlit("FUZZTEST_DECLARE");
    reveal_strlit("FUZZTEST_MAKEAVAIL");
    reveal_strlit("FUZZTEST_SETUP_FLAGS");
    reveal_strlit("TEST_LINK");
    reveal_strlit("C_COMPILE_DEFS");
    assert(f.len() == 5);
    assert(forall|i: int| 0 <= i < 5 ==> prompt::names_slot((#[trigger] f[i]).0));
    assert(f[0].0.len() == 16 && f[1].0.len() == 18 && f[2].0.len() == 20 && f[3].0.len() == 9
        && f[4].0.len() == 14);
}

// ── In which order ───────────────────────────────────────────────────────

/// When a step has its turn: what the agent wrote is saved, the manifest is edited and
/// then written, what does not belong to the result is removed, what is left is looked
/// at, and the result is taken.
pub open spec fn turn(s: StepView) -> int {
    match s {
        StepView::CopyOut(_, _) => 0,
        StepView::AppendOut(_, _) => 0,
        StepView::Warn(_) => 0,
        StepView::AddWorkspace => 1,
        StepView::RemoveBin => 1,
        StepView::SetLib(_) => 1,
        StepView::SetBinDriver => 1,
        StepView::SaveManifest => 2,
        StepView::StripForLib => 3,
        StepView::RemoveHidden => 4,
        StepView::StripReferences => 4,
        StepView::RemoveDir(_) => 4,
        StepView::StripBuildDirs(_) => 4,
        StepView::ReportSymlinks => 5,
        StepView::Freeze => 6,
        StepView::Fail(_) => 6,
    }
}

/// Whether every step waits for its turn.
pub open spec fn in_turn(s: Seq<StepView>) -> bool {
    forall|i: int, j: int|
        #![trigger s[i], s[j]]
        0 <= i < j < s.len() ==> turn(s[i]) <= turn(s[j])
}

proof fn turns_join(a: Seq<StepView>, b: Seq<StepView>, n: int)
    requires
        in_turn(a),
        in_turn(b),
        forall|i: int| 0 <= i < a.len() ==> turn(#[trigger] a[i]) <= n,
        forall|i: int| 0 <= i < b.len() ==> turn(#[trigger] b[i]) >= n,
    ensures
        in_turn(a + b),
{
    let s = a + b;
    assert forall|i: int, j: int| #![trigger s[i], s[j]] 0 <= i < j < s.len() implies turn(s[i])
        <= turn(s[j]) by {
        if j < a.len() {
            assert(s[i] == a[i] && s[j] == a[j]);
        } else if i < a.len() {
            assert(s[i] == a[i] && s[j] == b[j - a.len()]);
        } else {
            assert(s[i] == b[i - a.len()] && s[j] == b[j - a.len()]);
        }
    }
}

proof fn edits_wait(kind: ProjectKind, name: Option<Seq<char>>)
    ensures
        ({
            let e = translate_agentic::manifest_edits(kind, name);
            &&& in_turn(e)
            &&& forall|i: int| 0 <= i < e.len() ==> 1 <= turn(#[trigger] e[i]) <= 3
        }),
{
    let e = translate_agentic::manifest_edits(kind, name);
    assert(e[0] == StepView::AddWorkspace);
    match kind {
        ProjectKind::Library => {
            assert(e[1] == StepView::RemoveBin);
            match name {
                Some(n) => {
                    assert(e.len() == 5 && e[2] == StepView::SetLib(n) && e[3]
                        == StepView::SaveManifest && e[4] == StepView::StripForLib);
                },
                None => {
                    assert(e.len() == 4 && e[2] == StepView::SaveManifest && e[3]
                        == StepView::StripForLib);
                },
            }
        },
        ProjectKind::Executable => {
            assert(e.len() == 3 && e[1] == StepView::SetBinDriver && e[2]
                == StepView::SaveManifest);
        },
        ProjectKind::Configurable => {
            assert(e.len() == 2 && e[1] == StepView::SaveManifest);
        },
    }
}

/// The steps that follow a stage come in turn: nothing is removed before it was saved,
/// the manifest is written once it is edited, and the result is taken last of all.
pub proof fn steps_come_in_turn(
    t: &TranslateAgentic,
    translate: &translate_agentic::Config,
    kind: ProjectKind,
    written: &TranslateOutput,
    r: Vec<FinishStep>,
    v: &VerifyFixAgentic,
    verify: &verify_fix_agentic::Config,
    checked: &VerifyOutput,
    s: Vec<FinishStep>,
    c: &ConformAgentic,
    conform: &conform_agentic::Config,
    refined: &ConformOutput,
    u: Vec<FinishStep>,
    translated: &str,
)
    requires
        call_ensures(TranslateAgentic::finish, (t, translate, translated, kind, written), r),
        call_ensures(VerifyFixAgentic::finish, (v, verify, translated, checked), s),
        call_ensures(ConformAgentic::finish, (c, conform, translated, refined), u),
    ensures
        in_turn(steps::step_views(r@)),
        in_turn(steps::step_views(s@)),
        in_turn(steps::step_views(u@)),
{
    translation_in_turn(*translate, translated@, kind, *written);
    verification_in_turn(*verify, translated@, *checked);
    conformance_in_turn(*conform, translated@, *refined);
}

proof fn translation_in_turn(
    config: translate_agentic::Config,
    translated: Seq<char>,
    kind: ProjectKind,
    output: TranslateOutput,
)
    ensures
        in_turn(translate_agentic::finish_of(config, translated, kind, output)),
{
    let w = steps::copy_out_of(
        output.has_wishlist,
        translated,
        "tool_wishlist.json"@,
        config.wishlist_output_path,
    );
    let p = steps::copy_out_of(output.has_plan, translated, "PLAN.md"@, config.plan_output_path);
    turns_join(w, p, 0);
    let saved = w + p;
    assert(forall|i: int| 0 <= i < saved.len() ==> turn(#[trigger] saved[i]) <= 0);
    if output.has_manifest {
        let name = text::opt_text(output.package_name);
        let e = translate_agentic::manifest_edits(kind, name);
        edits_wait(kind, name);
        let target = StepView::RemoveDir(path::joined(translated, "target"@));
        let last = seq![
            StepView::RemoveHidden,
            StepView::StripReferences,
            target,
            StepView::ReportSymlinks,
            StepView::Freeze,
        ];
        assert(last[0] == StepView::RemoveHidden && last[1] == StepView::StripReferences && last[2]
            == target && last[3] == StepView::ReportSymlinks && last[4] == StepView::Freeze);
        turns_join(e, last, 3);
        turns_join(saved, e + last, 0);
    } else {
        let fail = seq![StepView::Fail("Agent did not produce a Cargo.toml"@)];
        turns_join(saved, fail, 0);
    }
}

proof fn verification_in_turn(
    config: verify_fix_agentic::Config,
    translated: Seq<char>,
    output: VerifyOutput,
)
    ensures
        in_turn(verify_fix_agentic::finish_of(config, translated, output)),
{
    let w = match config.wishlist_output_path {
        Some(d) => if output.has_wishlist {
            seq![StepView::AppendOut(path::joined(translated, "tool_wishlist.json"@), d@)]
        } else {
            seq![]
        },
        None => seq![],
    };
    let h = steps::copy_out_of(
        output.has_hypotheses,
        translated,
        "HYPOTHESES.md"@,
        config.hypotheses_output_path,
    );
    turns_join(w, h, 0);
    let saved = w + h;
    assert(forall|i: int| 0 <= i < saved.len() ==> turn(#[trigger] saved[i]) <= 0);
    let a = StepView::RemoveDir(path::joined(translated, "c_src"@));
    let b = StepView::RemoveDir(path::joined(translated, "target"@));
    let c = StepView::StripBuildDirs(path::joined(translated, "verify_env"@));
    let last = seq![
        StepView::RemoveHidden,
        a,
        b,
        c,
        StepView::ReportSymlinks,
        StepView::Freeze,
    ];
    assert(last[0] == StepView::RemoveHidden && last[1] == a && last[2] == b && last[3] == c
        && last[4] == StepView::ReportSymlinks && last[5] == StepView::Freeze);
    turns_join(saved, last, 0);
}

proof fn conformance_in_turn(
    config: conform_agentic::Config,
    translated: Seq<char>,
    output: ConformOutput,
)
    ensures
        in_turn(conform_agentic::finish_of(config, translated, output)),
{
    let all = conform_agentic::finish_of(config, translated, output);
    let b = StepView::RemoveDir(path::joined(translated, "target"@));
    let last = seq![
        StepView::RemoveHidden,
        StepView::StripReferences,
        b,
        StepView::ReportSymlinks,
        StepView::Freeze,
    ];
    assert(last[0] == StepView::RemoveHidden && last[1] == StepView::StripReferences && last[2] == b
        && last[3] == StepView::ReportSymlinks && last[4] == StepView::Freeze);
    let saved = all.take(all.len() - 5);
    assert(saved + last =~= all);
    assert(forall|i: int| 0 <= i < saved.len() ==> turn(#[trigger] saved[i]) <= 0);
    turns_join(saved, last, 0);
}

} // verus!
