//! The knobs of a run: how they are inherited, which of them apply, and the
//! arguments they become.

use crate::benchmark::cli::Args;
use crate::config;
use crate::config::Stage;
use crate::path;
use crate::text;
use vstd::prelude::*;
use vstd::string::*;

verus! {

/// Knobs shared between the defaults of a set and each of its runs. Every field
/// is optional, so a run can inherit or override individually. Values of
/// enumerations are texts: the parser of the arguments owns their vocabulary.
#[derive(Debug)]
pub struct Knobs {
    /// Pipeline stages. Omitted or empty means a run that is not agentic.
    pub stages: Option<Vec<String>>,
    /// Use modular translation. For runs that are not agentic only.
    pub modular: Option<bool>,
    pub agent: Option<String>,
    pub model: Option<String>,
    pub no_plan: Option<bool>,
    pub no_plan_file: Option<bool>,
    pub workflow: Option<bool>,
    pub agent_tools: Option<bool>,
    pub verify_harness: Option<String>,
    pub fuzz: Option<bool>,
    /// Grade against this bench checkout's current suite instead of the one the
    /// snapshot carries.
    pub test_case: Option<String>,
    pub test_harness: Option<String>,
    pub timeout: Option<u64>,
    /// Configuration overrides, as `NAME=VALUE`.
    pub config: Vec<String>,
    /// Further arguments, appended as they are.
    pub extra_args: Vec<String>,
}

pub struct KnobsView {
    pub stages: Option<Seq<Seq<char>>>,
    pub modular: Option<bool>,
    pub agent: Option<Seq<char>>,
    pub model: Option<Seq<char>>,
    pub no_plan: Option<bool>,
    pub no_plan_file: Option<bool>,
    pub workflow: Option<bool>,
    pub agent_tools: Option<bool>,
    pub verify_harness: Option<Seq<char>>,
    pub fuzz: Option<bool>,
    pub test_case: Option<Seq<char>>,
    pub test_harness: Option<Seq<char>>,
    pub timeout: Option<u64>,
    pub config: Seq<Seq<char>>,
    pub extra_args: Seq<Seq<char>>,
}

pub open spec fn opt_texts(v: Option<Vec<String>>) -> Option<Seq<Seq<char>>> {
    match v {
        Some(x) => Some(text::texts(x@)),
        None => None,
    }
}

impl Knobs {
    pub open spec fn view(&self) -> KnobsView {
        KnobsView {
            stages: opt_texts(self.stages),
            modular: self.modular,
            agent: text::opt_text(self.agent),
            model: text::opt_text(self.model),
            no_plan: self.no_plan,
            no_plan_file: self.no_plan_file,
            workflow: self.workflow,
            agent_tools: self.agent_tools,
            verify_harness: text::opt_text(self.verify_harness),
            fuzz: self.fuzz,
            test_case: text::opt_text(self.test_case),
            test_harness: text::opt_text(self.test_harness),
            timeout: self.timeout,
            config: text::texts(self.config@),
            extra_args: text::texts(self.extra_args@),
        }
    }
}

// ── Inheritance ──────────────────────────────────────────────────────────

/// What is set on the run, or else what is inherited.
pub open spec fn or_else<T>(own: Option<T>, inherited: Option<T>) -> Option<T> {
    match own {
        Some(v) => Some(v),
        None => inherited,
    }
}

/// The knobs of a run after inheritance. Overrides and further arguments are
/// concatenated, the defaults first, so that a run's own entry wins a collision
/// as a later argument does. Every other knob is a straight override.
pub open spec fn merged(defaults: KnobsView, run: KnobsView) -> KnobsView {
    KnobsView {
        stages: or_else(run.stages, defaults.stages),
        modular: or_else(run.modular, defaults.modular),
        agent: or_else(run.agent, defaults.agent),
        model: or_else(run.model, defaults.model),
        no_plan: or_else(run.no_plan, defaults.no_plan),
        no_plan_file: or_else(run.no_plan_file, defaults.no_plan_file),
        workflow: or_else(run.workflow, defaults.workflow),
        agent_tools: or_else(run.agent_tools, defaults.agent_tools),
        verify_harness: or_else(run.verify_harness, defaults.verify_harness),
        fuzz: or_else(run.fuzz, defaults.fuzz),
        test_case: or_else(run.test_case, defaults.test_case),
        test_harness: or_else(run.test_harness, defaults.test_harness),
        timeout: or_else(run.timeout, defaults.timeout),
        config: defaults.config + run.config,
        extra_args: defaults.extra_args + run.extra_args,
    }
}

fn either(own: &Option<String>, inherited: &Option<String>) -> (r: Option<String>)
    ensures
        text::opt_text(r) == or_else(text::opt_text(*own), text::opt_text(*inherited)),
{
    match own {
        Some(s) => Some(s.clone()),
        None => text::copy_opt(inherited),
    }
}

fn either_flag(own: Option<bool>, inherited: Option<bool>) -> (r: Option<bool>)
    ensures
        r == or_else(own, inherited),
{
    match own {
        Some(b) => Some(b),
        None => inherited,
    }
}

fn concat(a: &Vec<String>, b: &Vec<String>) -> (r: Vec<String>)
    ensures
        text::texts(r@) == text::texts(a@) + text::texts(b@),
{
    let mut out = text::copy_texts(a);
    text::push_texts(&mut out, b);
    out
}

fn either_texts(own: &Option<Vec<String>>, inherited: &Option<Vec<String>>) -> (r: Option<
    Vec<String>,
>)
    ensures
        opt_texts(r) == or_else(opt_texts(*own), opt_texts(*inherited)),
{
    match own {
        Some(v) => Some(text::copy_texts(v)),
        None => match inherited {
            Some(v) => Some(text::copy_texts(v)),
            None => None,
        },
    }
}

/// The knobs of a run after inheritance.
pub fn merge_knobs(defaults: &Knobs, run: &Knobs) -> (r: Knobs)
    ensures
        r.view() == merged(defaults.view(), run.view()),
{
    Knobs {
        stages: either_texts(&run.stages, &defaults.stages),
        modular: either_flag(run.modular, defaults.modular),
        agent: either(&run.agent, &defaults.agent),
        model: either(&run.model, &defaults.model),
        no_plan: either_flag(run.no_plan, defaults.no_plan),
        no_plan_file: either_flag(run.no_plan_file, defaults.no_plan_file),
        workflow: either_flag(run.workflow, defaults.workflow),
        agent_tools: either_flag(run.agent_tools, defaults.agent_tools),
        verify_harness: either(&run.verify_harness, &defaults.verify_harness),
        fuzz: either_flag(run.fuzz, defaults.fuzz),
        test_case: either(&run.test_case, &defaults.test_case),
        test_harness: either(&run.test_harness, &defaults.test_harness),
        timeout: match run.timeout {
            Some(t) => Some(t),
            None => defaults.timeout,
        },
        config: concat(&defaults.config, &run.config),
        extra_args: concat(&defaults.extra_args, &run.extra_args),
    }
}

// ── Stages and ids ───────────────────────────────────────────────────────

/// Whether a text spells a stage as the command line does: by its full name or its
/// first letter, in any case.
pub open spec fn spells_stage(value: Seq<char>, full: Seq<char>) -> bool {
    let v = text::ascii_lower_of(value);
    v == full || (v.len() == 1 && (v[0] as int) < 128 && text::has_prefix(full, v))
}

pub fn stage_is(value: &str, full: &str) -> (r: bool)
    ensures
        r == spells_stage(value@, full@),
{
    let v = text::ascii_lower(value);
    if text::same(v.as_str(), full) {
        return true;
    }
    let cs = text::chars_of(v.as_str());
    cs.len() == 1 && (cs[0] as u32) < 128 && text::starts_with(full, v.as_str())
}

/// Whether one of the texts spells the stage.
pub open spec fn names_stage(stages: Seq<Seq<char>>, full: Seq<char>) -> bool {
    exists|i: int| 0 <= i < stages.len() && spells_stage(#[trigger] stages[i], full)
}

pub fn has_stage(stages: &Vec<String>, full: &str) -> (r: bool)
    ensures
        r == names_stage(text::texts(stages@), full@),
{
    let mut i: usize = 0;
    while i < stages.len()
        invariant
            i <= stages@.len(),
            forall|j: int|
                0 <= j < i ==> !spells_stage(#[trigger] text::texts(stages@)[j], full@),
        decreases stages@.len() - i,
    {
        assert(text::texts(stages@)[i as int] == stages@[i as int]@);
        if stage_is(stages[i].as_str(), full) {
            return true;
        }
        i = i + 1;
    }
    false
}

/// Whether the stages take the knobs of verification.
pub open spec fn takes_verify(stages: Seq<Seq<char>>) -> bool {
    names_stage(stages, "verify"@)
}

/// Whether the stages take the knobs of the stages that an agent plans.
pub open spec fn takes_plan(stages: Seq<Seq<char>>) -> bool {
    names_stage(stages, "translate"@) || names_stage(stages, "verify"@)
}

/// Whether the stages take another suite than the snapshot's: verify is the first
/// of them in pipeline order.
pub open spec fn takes_suite(stages: Seq<Seq<char>>) -> bool {
    names_stage(stages, "verify"@) && !names_stage(stages, "translate"@)
}

/// Whether an id is safe as a single path component and stable as a table key.
pub open spec fn is_valid_id(id: Seq<char>) -> bool {
    &&& id.len() > 0
    &&& forall|i: int| 0 <= i < id.len() ==> is_id_char(#[trigger] id[i])
    &&& id != "."@
    &&& id != ".."@
}

pub open spec fn is_id_char(c: char) -> bool {
    text::is_ascii_alnum(c) || c == '.' || c == '_' || c == '-'
}

pub fn valid_id(id: &str) -> (r: bool)
    ensures
        r == is_valid_id(id@),
{
    let v = text::chars_of(id);
    if v.len() == 0 || text::same(id, ".") || text::same(id, "..") {
        return false;
    }
    let mut i: usize = 0;
    while i < v.len()
        invariant
            i <= v@.len(),
            v@ == id@,
            forall|j: int| 0 <= j < i ==> is_id_char(#[trigger] id@[j]),
        decreases v@.len() - i,
    {
        let c = v[i];
        if !(text::ascii_alnum(c) || c == '.' || c == '_' || c == '-') {
            assert(!is_id_char(id@[i as int]));
            return false;
        }
        i = i + 1;
    }
    true
}

// ── Lowering ─────────────────────────────────────────────────────────────

pub open spec fn is_on(flag: Option<bool>) -> bool {
    flag == Some(true)
}

fn on(flag: Option<bool>) -> (r: bool)
    ensures
        r == is_on(flag),
{
    match flag {
        Some(b) => b,
        None => false,
    }
}

/// An argument with a value, if there is one and it applies.
pub open spec fn valued(cond: bool, flag: Seq<char>, value: Option<Seq<char>>) -> Seq<Seq<char>> {
    match value {
        Some(v) => text::when(cond, flag + v),
        None => seq![],
    }
}

pub open spec fn config_args(config: Seq<Seq<char>>) -> Seq<Seq<char>> {
    config.map_values(|c: Seq<char>| "--config="@ + c)
}

/// The arguments of a run before its overrides: which of the knobs apply is told by
/// whether the stages take the knobs of planned stages, those of verification and
/// another suite.
pub open spec fn own_args(
    k: KnobsView,
    roots: (Seq<char>, Seq<char>),
    stages: Seq<Seq<char>>,
    plans: bool,
    verify: bool,
    suite: bool,
    manifest_dir: Seq<char>,
) -> Seq<Seq<char>> {
    let agentic = stages.len() > 0;
    seq!["harvest-benchmark"@, roots.0, roots.1] + text::when(
        agentic,
        "--agentic="@ + text::join_of(stages, ","@),
    ) + text::when(!agentic && is_on(k.modular), "--modular"@) + valued(agentic, "--agent="@, k.agent)
        + valued(agentic, "--model="@, k.model) + text::when(
        plans && is_on(k.agent_tools),
        "--agent-tools"@,
    ) + text::when(plans && is_on(k.no_plan), "--no-plan"@) + text::when(
        plans && is_on(k.no_plan) && is_on(k.workflow),
        "--workflow"@,
    ) + text::when(plans && !is_on(k.no_plan) && is_on(k.no_plan_file), "--no-plan-file"@) + valued(
        verify,
        "--verify-harness="@,
        k.verify_harness,
    ) + text::when(verify && is_on(k.fuzz), "--fuzz"@) + valued(
        suite,
        "--test-case="@,
        match k.test_case {
            Some(tc) => Some(path::joined(manifest_dir, tc)),
            None => None,
        },
    ) + valued(true, "--test-harness="@, k.test_harness) + valued(
        true,
        "--timeout="@,
        match k.timeout {
            Some(t) => Some(text::decimal_of(t as nat)),
            None => None,
        },
    )
}

/// The arguments a run lowers to. Only knobs that the stages accept are emitted:
/// pushing one onto other runs would make unrelated runs unrunnable because of one
/// default.
pub open spec fn argv_of(
    k: KnobsView,
    input_root: Seq<char>,
    output_root: Seq<char>,
    stages: Seq<Seq<char>>,
    manifest_dir: Seq<char>,
) -> Seq<Seq<char>> {
    own_args(
        k,
        (input_root, output_root),
        stages,
        takes_plan(stages),
        takes_verify(stages),
        takes_suite(stages),
        manifest_dir,
    ) + config_args(k.config) + k.extra_args
}

fn push_valued(argv: &mut Vec<String>, cond: bool, flag: &str, value: &Option<String>)
    ensures
        text::texts(final(argv)@) == text::texts(old(argv)@) + valued(
            cond,
            flag@,
            text::opt_text(*value),
        ),
{
    let ghost before = text::texts(argv@);
    if let Some(v) = value {
        let mut s = flag.to_owned();
        s.append(v.as_str());
        text::push_when(argv, cond, s.as_str());
    } else {
        assert(before + seq![] =~= before);
    }
}

fn push_config(argv: &mut Vec<String>, config: &Vec<String>)
    ensures
        text::texts(final(argv)@) == text::texts(old(argv)@) + config_args(text::texts(config@)),
{
    broadcast use text::group_texts;

    let ghost before = text::texts(argv@);
    let ghost all = config_args(text::texts(config@));
    let mut i: usize = 0;
    assert(before + all.take(0) =~= before);
    while i < config.len()
        invariant
            i <= config@.len(),
            all == config_args(text::texts(config@)),
            text::texts(argv@) == before + all.take(i as int),
        decreases config@.len() - i,
    {
        let mut s = "--config=".to_owned();
        s.append(config[i].as_str());
        assert(all[i as int] == s@);
        assert(before + all.take(i + 1) =~= (before + all.take(i as int)).push(s@));
        argv.push(s);
        i = i + 1;
    }
    assert(all.take(i as int) =~= all);
}

/// Lowers a run's knobs into arguments. A value stands in the same argument as
/// its name, so it may hold blanks, commas or a second `=`.
pub fn lower_to_argv(
    knobs: &Knobs,
    input_root: &str,
    output_root: &str,
    stages: &Vec<String>,
    manifest_dir: &str,
) -> (r: Vec<String>)
    ensures
        text::texts(r@) == argv_of(
            knobs.view(),
            input_root@,
            output_root@,
            text::texts(stages@),
            manifest_dir@,
        ),
{
    let agentic = stages.len() > 0;
    let translate = has_stage(stages, "translate");
    let verify = has_stage(stages, "verify");
    let plans = translate || verify;
    let no_plan = on(knobs.no_plan);
    let mut argv: Vec<String> = vec![
        "harvest-benchmark".to_owned(),
        input_root.to_owned(),
        output_root.to_owned(),
    ];
    assert(text::texts(argv@) =~= seq!["harvest-benchmark"@, input_root@, output_root@]);
    let mut listed = "--agentic=".to_owned();
    listed.append(text::join(stages, ",").as_str());
    text::push_when(&mut argv, agentic, listed.as_str());
    text::push_when(&mut argv, !agentic && on(knobs.modular), "--modular");
    push_valued(&mut argv, agentic, "--agent=", &knobs.agent);
    push_valued(&mut argv, agentic, "--model=", &knobs.model);
    text::push_when(&mut argv, plans && on(knobs.agent_tools), "--agent-tools");
    text::push_when(&mut argv, plans && no_plan, "--no-plan");
    text::push_when(&mut argv, plans && no_plan && on(knobs.workflow), "--workflow");
    text::push_when(&mut argv, plans && !no_plan && on(knobs.no_plan_file), "--no-plan-file");
    push_valued(&mut argv, verify, "--verify-harness=", &knobs.verify_harness);
    text::push_when(&mut argv, verify && on(knobs.fuzz), "--fuzz");
    let test_case = match &knobs.test_case {
        Some(tc) => Some(path::join(manifest_dir, tc.as_str())),
        None => None,
    };
    push_valued(&mut argv, verify && !translate, "--test-case=", &test_case);
    push_valued(&mut argv, true, "--test-harness=", &knobs.test_harness);
    let timeout = match knobs.timeout {
        Some(t) => Some(text::decimal(t)),
        None => None,
    };
    push_valued(&mut argv, true, "--timeout=", &timeout);
    push_config(&mut argv, &knobs.config);
    text::push_texts(&mut argv, &knobs.extra_args);
    argv
}

// ── Knobs that do not apply ──────────────────────────────────────────────

/// The names whose condition holds.
pub open spec fn set_names(v: Seq<(bool, Seq<char>)>) -> Seq<Seq<char>>
    decreases v.len(),
{
    if v.len() == 0 {
        seq![]
    } else if v.last().0 {
        set_names(v.drop_last()).push(v.last().1)
    } else {
        set_names(v.drop_last())
    }
}

pub open spec fn agentic_only(own: KnobsView) -> Seq<(bool, Seq<char>)> {
    seq![
        (own.agent is Some, "agent"@),
        (own.model is Some, "model"@),
        (is_on(own.agent_tools), "agent_tools"@),
        (is_on(own.no_plan), "no_plan"@),
        (is_on(own.no_plan_file), "no_plan_file"@),
        (is_on(own.workflow), "workflow"@),
        (is_on(own.fuzz), "fuzz"@),
        (own.verify_harness is Some, "verify_harness"@),
    ]
}

pub open spec fn verify_only(own: KnobsView) -> Seq<(bool, Seq<char>)> {
    seq![(is_on(own.fuzz), "fuzz"@), (own.verify_harness is Some, "verify_harness"@)]
}

pub open spec fn plan_only(own: KnobsView) -> Seq<(bool, Seq<char>)> {
    seq![
        (is_on(own.no_plan), "no_plan"@),
        (is_on(own.no_plan_file), "no_plan_file"@),
        (is_on(own.workflow), "workflow"@),
        (is_on(own.agent_tools), "agent_tools"@),
    ]
}

/// `run "<id>" sets <names> but its stages are [<stages>]; <why>`
pub open spec fn misplaced(
    id: Seq<char>,
    names: Seq<char>,
    stages: Seq<Seq<char>>,
    why: Seq<char>,
) -> Seq<char> {
    "run "@ + text::debug_of(id) + " sets "@ + names + " but its stages are ["@ + text::join_of(
        stages,
        ","@,
    ) + "]; "@ + why
}

/// What is wrong with a knob that the run sets on itself, if anything. Inherited
/// knobs are scoped to the stages that take them; a knob written on the run
/// itself must apply, or the run would record an identity that does not describe
/// what ran.
pub open spec fn knob_fault(
    id: Seq<char>,
    own: KnobsView,
    all: KnobsView,
    stages: Seq<Seq<char>>,
) -> Option<Seq<char>> {
    let verify = takes_verify(stages);
    let plans = takes_plan(stages);
    let resumable = verify || names_stage(stages, "conform"@);
    let start = "run "@ + text::debug_of(id);
    if stages.len() == 0 {
        let bad = set_names(agentic_only(own));
        if bad.len() > 0 {
            Some(
                start + " sets "@ + text::join_of(bad, ", "@)
                    + " but declares no agentic stages; those knobs only apply to an agentic run"@,
            )
        } else if own.test_case is Some {
            Some(start + " sets test_case but declares no agentic stages"@)
        } else {
            None
        }
    } else if is_on(own.modular) {
        Some(
            start + " sets modular = true together with stages = ["@ + text::join_of(stages, ","@)
                + "]; modular is the non-agentic translator, so declare it with no stages"@,
        )
    } else if !verify && set_names(verify_only(own)).len() > 0 {
        Some(
            misplaced(
                id,
                text::join_of(set_names(verify_only(own)), ", "@),
                stages,
                "those knobs require the verify stage"@,
            ),
        )
    } else if !plans && set_names(plan_only(own)).len() > 0 {
        Some(
            misplaced(
                id,
                text::join_of(set_names(plan_only(own)), ", "@),
                stages,
                "those knobs require the translate or verify stage"@,
            ),
        )
    } else if own.test_case is Some && !resumable {
        Some(
            misplaced(
                id,
                "test_case"@,
                stages,
                "a suite override only applies when resuming (verify or conform)"@,
            ),
        )
    } else if own.test_case is Some && !takes_suite(stages) {
        Some(
            misplaced(
                id,
                "test_case"@,
                stages,
                "a suite override only applies with verify as the first stage"@,
            ),
        )
    } else if is_on(own.workflow) && !is_on(all.no_plan) {
        Some(
            start
                + " sets workflow = true without no_plan = true; the workflow hint is only wired up in no-plan mode"@,
        )
    } else {
        None
    }
}

pub open spec fn named_views(v: Seq<(bool, &'static str)>) -> Seq<(bool, Seq<char>)> {
    v.map_values(|p: (bool, &'static str)| (p.0, p.1@))
}

fn pick_set(v: &Vec<(bool, &'static str)>) -> (r: Vec<String>)
    ensures
        text::texts(r@) == set_names(named_views(v@)),
{
    broadcast use text::group_texts;

    let ghost all = named_views(v@);
    let mut out: Vec<String> = Vec::new();
    let mut i: usize = 0;
    assert(all.take(0) =~= seq![]);
    assert(text::texts(out@) =~= seq![]);
    while i < v.len()
        invariant
            i <= v@.len(),
            all == named_views(v@),
            text::texts(out@) == set_names(all.take(i as int)),
        decreases v@.len() - i,
    {
        assert(all.take(i + 1).drop_last() =~= all.take(i as int));
        assert(all.take(i + 1).last() == (v@[i as int].0, v@[i as int].1@));
        if v[i].0 {
            out.push(v[i].1.to_owned());
        }
        i = i + 1;
    }
    assert(all.take(i as int) =~= all);
    out
}

fn misplaced_message(id: &str, names: &str, stages: &Vec<String>, why: &str) -> (r: String)
    ensures
        r@ == misplaced(id@, names@, text::texts(stages@), why@),
{
    let mut e = "run ".to_owned();
    e.append(text::debug(id).as_str());
    e.append(" sets ");
    e.append(names);
    e.append(" but its stages are [");
    e.append(text::join(stages, ",").as_str());
    e.append("]; ");
    e.append(why);
    e
}

fn set_agentic_only(own: &Knobs) -> (r: Vec<String>)
    ensures
        text::texts(r@) == set_names(agentic_only(own.view())),
{
    let v: Vec<(bool, &'static str)> = vec![
        (own.agent.is_some(), "agent"),
        (own.model.is_some(), "model"),
        (on(own.agent_tools), "agent_tools"),
        (on(own.no_plan), "no_plan"),
        (on(own.no_plan_file), "no_plan_file"),
        (on(own.workflow), "workflow"),
        (on(own.fuzz), "fuzz"),
        (own.verify_harness.is_some(), "verify_harness"),
    ];
    assert(named_views(v@) =~= agentic_only(own.view()));
    pick_set(&v)
}

fn set_verify_only(own: &Knobs) -> (r: Vec<String>)
    ensures
        text::texts(r@) == set_names(verify_only(own.view())),
{
    let v: Vec<(bool, &'static str)> = vec![
        (on(own.fuzz), "fuzz"),
        (own.verify_harness.is_some(), "verify_harness"),
    ];
    assert(named_views(v@) =~= verify_only(own.view()));
    pick_set(&v)
}

fn set_plan_only(own: &Knobs) -> (r: Vec<String>)
    ensures
        text::texts(r@) == set_names(plan_only(own.view())),
{
    let v: Vec<(bool, &'static str)> = vec![
        (on(own.no_plan), "no_plan"),
        (on(own.no_plan_file), "no_plan_file"),
        (on(own.workflow), "workflow"),
        (on(own.agent_tools), "agent_tools"),
    ];
    assert(named_views(v@) =~= plan_only(own.view()));
    pick_set(&v)
}

/// Rejects a knob that the run sets explicitly on itself and that its own stages
/// cannot accept.
pub fn reject_inapplicable_explicit_knobs(
    id: &str,
    own: &Knobs,
    all: &Knobs,
    stages: &Vec<String>,
) -> (r: Result<(), String>)
    ensures
        (match r {
            Ok(_) => knob_fault(id@, own.view(), all.view(), text::texts(stages@)) is None,
            Err(e) => knob_fault(id@, own.view(), all.view(), text::texts(stages@)) == Some(e@),
        }),
{
    let mut start = "run ".to_owned();
    start.append(text::debug(id).as_str());
    if stages.len() == 0 {
        let bad = set_agentic_only(own);
        if bad.len() > 0 {
            start.append(" sets ");
            start.append(text::join(&bad, ", ").as_str());
            start.append(
                " but declares no agentic stages; those knobs only apply to an agentic run",
            );
            return Err(start);
        }
        if own.test_case.is_some() {
            start.append(" sets test_case but declares no agentic stages");
            return Err(start);
        }
        return Ok(());
    }
    if on(own.modular) {
        start.append(" sets modular = true together with stages = [");
        start.append(text::join(stages, ",").as_str());
        start.append("]; modular is the non-agentic translator, so declare it with no stages");
        return Err(start);
    }
    let translate = has_stage(stages, "translate");
    let verify = has_stage(stages, "verify");
    let plans = translate || verify;
    let resumable = verify || has_stage(stages, "conform");
    let bad = set_verify_only(own);
    if !verify && bad.len() > 0 {
        let names = text::join(&bad, ", ");
        return Err(
            misplaced_message(id, names.as_str(), stages, "those knobs require the verify stage"),
        );
    }
    let bad = set_plan_only(own);
    if !plans && bad.len() > 0 {
        let names = text::join(&bad, ", ");
        return Err(
            misplaced_message(
                id,
                names.as_str(),
                stages,
                "those knobs require the translate or verify stage",
            ),
        );
    }
    if own.test_case.is_some() && !resumable {
        return Err(
            misplaced_message(
                id,
                "test_case",
                stages,
                "a suite override only applies when resuming (verify or conform)",
            ),
        );
    }
    if own.test_case.is_some() && (!verify || translate) {
        return Err(
            misplaced_message(
                id,
                "test_case",
                stages,
                "a suite override only applies with verify as the first stage",
            ),
        );
    }
    if on(own.workflow) && !on(all.no_plan) {
        start.append(
            " sets workflow = true without no_plan = true; the workflow hint is only wired up in no-plan mode",
        );
        return Err(start);
    }
    Ok(())
}

// ── Laws ─────────────────────────────────────────────────────────────────

/// A knob that a run sets is the one that counts, whatever the defaults say; one
/// that it leaves open is inherited.
pub proof fn own_knobs_win(defaults: KnobsView, run: KnobsView)
    ensures
        run.model is Some ==> merged(defaults, run).model == run.model,
        run.model is None ==> merged(defaults, run).model == defaults.model,
        run.stages is Some ==> merged(defaults, run).stages == run.stages,
        run.stages is None ==> merged(defaults, run).stages == defaults.stages,
        merged(defaults, run).config.skip(defaults.config.len() as int) == run.config,
        merged(defaults, run).config.take(defaults.config.len() as int) == defaults.config,
{
    assert(merged(defaults, run).config.skip(defaults.config.len() as int) =~= run.config);
    assert(merged(defaults, run).config.take(defaults.config.len() as int) =~= defaults.config);
}

/// Every knob with one value is inherited on its own: where the run sets it, the
/// run's value counts, and where the run leaves it open, the default's does.
pub proof fn every_knob_is_inherited(defaults: &Knobs, run: &Knobs, r: Knobs)
    requires
        call_ensures(merge_knobs, (defaults, run), r),
    ensures
        run.modular is Some ==> r.modular == run.modular,
        run.modular is None ==> r.modular == defaults.modular,
        run.no_plan is Some ==> r.no_plan == run.no_plan,
        run.no_plan is None ==> r.no_plan == defaults.no_plan,
        run.no_plan_file is Some ==> r.no_plan_file == run.no_plan_file,
        run.no_plan_file is None ==> r.no_plan_file == defaults.no_plan_file,
        run.workflow is Some ==> r.workflow == run.workflow,
        run.workflow is None ==> r.workflow == defaults.workflow,
        run.agent_tools is Some ==> r.agent_tools == run.agent_tools,
        run.agent_tools is None ==> r.agent_tools == defaults.agent_tools,
        run.fuzz is Some ==> r.fuzz == run.fuzz,
        run.fuzz is None ==> r.fuzz == defaults.fuzz,
        run.timeout is Some ==> r.timeout == run.timeout,
        run.timeout is None ==> r.timeout == defaults.timeout,
        run.agent matches Some(own) ==> r.agent matches Some(v) && v@ == own@,
        run.agent is None ==> text::opt_text(r.agent) == text::opt_text(defaults.agent),
        run.model matches Some(own) ==> r.model matches Some(v) && v@ == own@,
        run.model is None ==> text::opt_text(r.model) == text::opt_text(defaults.model),
        run.verify_harness matches Some(own) ==> r.verify_harness matches Some(v) && v@ == own@,
        run.verify_harness is None ==> text::opt_text(r.verify_harness) == text::opt_text(
            defaults.verify_harness,
        ),
        run.test_case matches Some(own) ==> r.test_case matches Some(v) && v@ == own@,
        run.test_case is None ==> text::opt_text(r.test_case) == text::opt_text(defaults.test_case),
        run.test_harness matches Some(own) ==> r.test_harness matches Some(v) && v@ == own@,
        run.test_harness is None ==> text::opt_text(r.test_harness) == text::opt_text(
            defaults.test_harness,
        ),
        run.stages matches Some(own) ==> r.stages matches Some(v) && text::texts(v@) == text::texts(
            own@,
        ),
        run.stages is None ==> opt_texts(r.stages) == opt_texts(defaults.stages),
{
    let all = r.view();
    assert(all.modular == r.modular && all.no_plan == r.no_plan);
    assert(all.agent == text::opt_text(r.agent) && all.model == text::opt_text(r.model));
}

/// Overrides and further arguments are kept, all of them: the defaults' first, and
/// the run's own after them.
pub proof fn lists_of_knobs_are_joined(defaults: &Knobs, run: &Knobs, r: Knobs, i: int)
    requires
        call_ensures(merge_knobs, (defaults, run), r),
    ensures
        r.config@.len() == defaults.config@.len() + run.config@.len(),
        0 <= i < defaults.config@.len() ==> r.config@[i]@ == defaults.config@[i]@,
        0 <= i < run.config@.len() ==> r.config@[defaults.config@.len() + i]@ == run.config@[i]@,
        r.extra_args@.len() == defaults.extra_args@.len() + run.extra_args@.len(),
        0 <= i < defaults.extra_args@.len() ==> r.extra_args@[i]@ == defaults.extra_args@[i]@,
        0 <= i < run.extra_args@.len() ==> r.extra_args@[defaults.extra_args@.len() + i]@
            == run.extra_args@[i]@,
{
    let all = r.view();
    assert(all.config == text::texts(defaults.config@) + text::texts(run.config@));
    assert(all.extra_args == text::texts(defaults.extra_args@) + text::texts(run.extra_args@));
    assert(text::texts(r.config@).len() == r.config@.len());
    assert(text::texts(r.extra_args@).len() == r.extra_args@.len());
    if 0 <= i < defaults.config@.len() {
        assert(text::texts(r.config@)[i] == text::texts(defaults.config@)[i]);
    }
    if 0 <= i < run.config@.len() {
        assert(text::texts(r.config@)[defaults.config@.len() + i] == text::texts(run.config@)[i]);
    }
    if 0 <= i < defaults.extra_args@.len() {
        assert(text::texts(r.extra_args@)[i] == text::texts(defaults.extra_args@)[i]);
    }
    if 0 <= i < run.extra_args@.len() {
        assert(text::texts(r.extra_args@)[defaults.extra_args@.len() + i] == text::texts(
            run.extra_args@,
        )[i]);
    }
}

#[verifier::opaque]
spec fn has(v: Seq<Seq<char>>, x: Seq<char>) -> bool {
    v.contains(x)
}

/// Whether a list of arguments starts with these three.
#[verifier::opaque]
spec fn heads(v: Seq<Seq<char>>, a: Seq<char>, b: Seq<char>, c: Seq<char>) -> bool {
    v.len() >= 3 && v[0] == a && v[1] == b && v[2] == c
}

#[verifier::opaque]
spec fn size(v: Seq<Seq<char>>) -> nat {
    v.len()
}

#[verifier::opaque]
spec fn appended(a: Seq<Seq<char>>, b: Seq<Seq<char>>) -> Seq<Seq<char>> {
    a + b
}

spec fn alike(a: Seq<Seq<char>>, b: Seq<Seq<char>>) -> bool {
    a == b
}

/// What a list of arguments holds after one more, if that one applies.
proof fn appended_when(a: Seq<Seq<char>>, cond: bool, flag: Seq<char>)
    ensures
        ({
            let r = appended(a, text::when(cond, flag));
            &&& size(r) == size(a) + one_if(cond)
            &&& forall|x: Seq<char>, y: Seq<char>, z: Seq<char>|
                #[trigger] heads(a, x, y, z) ==> heads(r, x, y, z)
            &&& forall|x: Seq<char>| #[trigger] has(a, x) ==> has(r, x)
            &&& cond ==> has(r, flag)
        }),
{
    reveal(has);
    reveal(heads);
    reveal(size);
    reveal(appended);
    let b = text::when(cond, flag);
    let r = appended(a, b);
    assert forall|x: Seq<char>| #[trigger] has(a, x) implies has(r, x) by {
        let i = choose|i: int| 0 <= i < a.len() && a[i] == x;
        assert(r[i] == x);
    }
    if cond {
        assert(r[a.len() as int] == flag);
    }
}

proof fn valued_is_when(cond: bool, flag: Seq<char>, value: Option<Seq<char>>)
    ensures
        valued(cond, flag, value) == text::when(cond && value is Some, flag + value->0),
{
}

pub open spec fn one_if(b: bool) -> nat {
    if b {
        1
    } else {
        0
    }
}

/// The arguments before the overrides, one by one.
#[verifier::spinoff_prover]
proof fn told_knobs(
    k: KnobsView,
    roots: (Seq<char>, Seq<char>),
    names: Seq<Seq<char>>,
    plans: bool,
    verify: bool,
    suite: bool,
    dir: Seq<char>,
)
    ensures
        ({
            let front = own_args(k, roots, names, plans, verify, suite, dir);
            let agentic = names.len() > 0;
            &&& size(front) == 3 + one_if(agentic) + one_if(!agentic && is_on(k.modular)) + one_if(
                agentic && k.agent is Some,
            ) + one_if(agentic && k.model is Some) + one_if(plans && is_on(k.agent_tools)) + one_if(
                plans && is_on(k.no_plan),
            ) + one_if(plans && is_on(k.no_plan) && is_on(k.workflow)) + one_if(
                plans && !is_on(k.no_plan) && is_on(k.no_plan_file),
            ) + one_if(verify && k.verify_harness is Some) + one_if(verify && is_on(k.fuzz)) + one_if(
                suite && k.test_case is Some,
            ) + one_if(k.test_harness is Some) + one_if(k.timeout is Some)
            &&& heads(front, "harvest-benchmark"@, roots.0, roots.1)
            &&& agentic ==> has(front, "--agentic="@ + text::join_of(names, ","@))
            &&& !agentic && is_on(k.modular) ==> has(front, "--modular"@)
            &&& agentic && k.agent is Some ==> has(front, "--agent="@ + k.agent->0)
            &&& agentic && k.model is Some ==> has(front, "--model="@ + k.model->0)
            &&& plans && is_on(k.agent_tools) ==> has(front, "--agent-tools"@)
            &&& plans && is_on(k.no_plan) ==> has(front, "--no-plan"@)
            &&& plans && is_on(k.no_plan) && is_on(k.workflow) ==> has(front, "--workflow"@)
            &&& plans && !is_on(k.no_plan) && is_on(k.no_plan_file) ==> has(
                front,
                "--no-plan-file"@,
            )
            &&& verify && k.verify_harness is Some ==> has(
                front,
                "--verify-harness="@ + k.verify_harness->0,
            )
            &&& verify && is_on(k.fuzz) ==> has(front, "--fuzz"@)
            &&& suite && k.test_case is Some ==> has(
                front,
                "--test-case="@ + path::joined(dir, k.test_case->0),
            )
            &&& k.test_harness is Some ==> has(front, "--test-harness="@ + k.test_harness->0)
            &&& k.timeout is Some ==> has(
                front,
                "--timeout="@ + text::decimal_of(k.timeout->0 as nat),
            )
        }),
{
    let agentic = names.len() > 0;
    let test_case = match k.test_case {
        Some(tc) => Some(path::joined(dir, tc)),
        None => None,
    };
    let timeout = match k.timeout {
        Some(t) => Some(text::decimal_of(t as nat)),
        None => None,
    };
    let a0 = seq!["harvest-benchmark"@, roots.0, roots.1];
    assert(heads(a0, "harvest-benchmark"@, roots.0, roots.1)) by {
        reveal(heads);
    }
    assert(size(a0) == 3) by {
        reveal(size);
    }
    let a1 = told_when(a0, agentic, "--agentic="@ + text::join_of(names, ","@));
    let a2 = told_when(a1, !agentic && is_on(k.modular), "--modular"@);
    let a3 = told_value(a2, agentic, "--agent="@, k.agent);
    let a4 = told_value(a3, agentic, "--model="@, k.model);
    let a5 = told_when(a4, plans && is_on(k.agent_tools), "--agent-tools"@);
    let a6 = told_when(a5, plans && is_on(k.no_plan), "--no-plan"@);
    let a7 = told_when(a6, plans && is_on(k.no_plan) && is_on(k.workflow), "--workflow"@);
    let a8 = told_when(
        a7,
        plans && !is_on(k.no_plan) && is_on(k.no_plan_file),
        "--no-plan-file"@,
    );
    let a9 = told_value(a8, verify, "--verify-harness="@, k.verify_harness);
    let a10 = told_when(a9, verify && is_on(k.fuzz), "--fuzz"@);
    let a11 = told_value(a10, suite, "--test-case="@, test_case);
    let a12 = told_value(a11, true, "--test-harness="@, k.test_harness);
    let a13 = told_value(a12, true, "--timeout="@, timeout);
    assert(alike(a13, own_args(k, roots, names, plans, verify, suite, dir))) by {
        reveal(appended);
    }
}

proof fn told_when(a: Seq<Seq<char>>, cond: bool, flag: Seq<char>) -> (r: Seq<Seq<char>>)
    ensures
        r == appended(a, text::when(cond, flag)),
        size(r) == size(a) + one_if(cond),
        forall|x: Seq<char>, y: Seq<char>, z: Seq<char>|
            #[trigger] heads(a, x, y, z) ==> heads(r, x, y, z),
        forall|x: Seq<char>| #[trigger] has(a, x) ==> has(r, x),
        cond ==> has(r, flag),
{
    appended_when(a, cond, flag);
    appended(a, text::when(cond, flag))
}

proof fn told_value(
    a: Seq<Seq<char>>,
    cond: bool,
    flag: Seq<char>,
    value: Option<Seq<char>>,
) -> (r: Seq<Seq<char>>)
    ensures
        r == appended(a, valued(cond, flag, value)),
        size(r) == size(a) + one_if(cond && value is Some),
        forall|x: Seq<char>, y: Seq<char>, z: Seq<char>|
            #[trigger] heads(a, x, y, z) ==> heads(r, x, y, z),
        forall|x: Seq<char>| #[trigger] has(a, x) ==> has(r, x),
        cond && value is Some ==> has(r, flag + value->0),
{
    valued_is_when(cond, flag, value);
    told_when(a, cond && value is Some, flag + value->0)
}

proof fn concat_is_associative(a: Seq<Seq<char>>, b: Seq<Seq<char>>, c: Seq<Seq<char>>)
    ensures
        alike(a + b + c, a + (b + c)),
{
    assert(a + b + c =~= a + (b + c));
}

/// The arguments before the overrides.
proof fn told_arguments(
    k: KnobsView,
    roots: (Seq<char>, Seq<char>),
    names: Seq<Seq<char>>,
    dir: Seq<char>,
    argv: Seq<Seq<char>>,
) -> (parts: (Seq<Seq<char>>, Seq<Seq<char>>))
    requires
        alike(argv, argv_of(k, roots.0, roots.1, names, dir)),
    ensures
        alike(argv, appended(parts.0, parts.1)),
        parts.1 == config_args(k.config) + k.extra_args,
        parts.1.len() == k.config.len() + k.extra_args.len(),
        ({
            let front = parts.0;
            let agentic = names.len() > 0;
            let plans = names_stage(names, "translate"@) || names_stage(names, "verify"@);
            let verify = names_stage(names, "verify"@);
            let suite = verify && !names_stage(names, "translate"@);
            &&& size(front) == 3 + one_if(agentic) + one_if(!agentic && is_on(k.modular)) + one_if(
                agentic && k.agent is Some,
            ) + one_if(agentic && k.model is Some) + one_if(plans && is_on(k.agent_tools)) + one_if(
                plans && is_on(k.no_plan),
            ) + one_if(plans && is_on(k.no_plan) && is_on(k.workflow)) + one_if(
                plans && !is_on(k.no_plan) && is_on(k.no_plan_file),
            ) + one_if(verify && k.verify_harness is Some) + one_if(verify && is_on(k.fuzz)) + one_if(
                suite && k.test_case is Some,
            ) + one_if(k.test_harness is Some) + one_if(k.timeout is Some)
            &&& heads(front, "harvest-benchmark"@, roots.0, roots.1)
            &&& agentic ==> has(front, "--agentic="@ + text::join_of(names, ","@))
            &&& !agentic && is_on(k.modular) ==> has(front, "--modular"@)
            &&& agentic && k.agent is Some ==> has(front, "--agent="@ + k.agent->0)
            &&& agentic && k.model is Some ==> has(front, "--model="@ + k.model->0)
            &&& plans && is_on(k.agent_tools) ==> has(front, "--agent-tools"@)
            &&& plans && is_on(k.no_plan) ==> has(front, "--no-plan"@)
            &&& plans && is_on(k.no_plan) && is_on(k.workflow) ==> has(front, "--workflow"@)
            &&& plans && !is_on(k.no_plan) && is_on(k.no_plan_file) ==> has(
                front,
                "--no-plan-file"@,
            )
            &&& verify && k.verify_harness is Some ==> has(
                front,
                "--verify-harness="@ + k.verify_harness->0,
            )
            &&& verify && is_on(k.fuzz) ==> has(front, "--fuzz"@)
            &&& suite && k.test_case is Some ==> has(
                front,
                "--test-case="@ + path::joined(dir, k.test_case->0),
            )
            &&& k.test_harness is Some ==> has(front, "--test-harness="@ + k.test_harness->0)
            &&& k.timeout is Some ==> has(
                front,
                "--timeout="@ + text::decimal_of(k.timeout->0 as nat),
            )
        }),
{
    told_knobs(k, roots, names, takes_plan(names), takes_verify(names), takes_suite(names), dir);
    let front = own_args(
        k,
        roots,
        names,
        takes_plan(names),
        takes_verify(names),
        takes_suite(names),
        dir,
    );
    let rest = config_args(k.config) + k.extra_args;
    concat_is_associative(front, config_args(k.config), k.extra_args);
    assert(alike(argv, appended(front, rest))) by {
        reveal(appended);
    }
    (front, rest)
}

/// The arguments of a run tell every knob that its stages take, with its value, and
/// as many arguments as that makes: the program and its two directories, one
/// argument for each such knob, the overrides, and the further arguments.
#[verifier::spinoff_prover]
pub proof fn arguments_tell_the_knobs(
    knobs: &Knobs,
    input_root: &str,
    output_root: &str,
    stages: &Vec<String>,
    dir: &str,
    r: Vec<String>,
)
    requires
        call_ensures(lower_to_argv, (knobs, input_root, output_root, stages, dir), r),
    ensures
        ({
            let argv = text::texts(r@);
            let agentic = stages@.len() > 0;
            let translate = exists|i: int|
                0 <= i < stages@.len() && spells_stage(#[trigger] stages@[i]@, "translate"@);
            let verify = exists|i: int|
                0 <= i < stages@.len() && spells_stage(#[trigger] stages@[i]@, "verify"@);
            let plans = translate || verify;
            let no_plan = knobs.no_plan == Some(true);
            &&& r@.len() == 3 + one_if(agentic) + one_if(
                !agentic && knobs.modular == Some(true),
            ) + one_if(agentic && knobs.agent is Some) + one_if(agentic && knobs.model is Some)
                + one_if(plans && knobs.agent_tools == Some(true)) + one_if(plans && no_plan)
                + one_if(plans && no_plan && knobs.workflow == Some(true)) + one_if(
                plans && !no_plan && knobs.no_plan_file == Some(true),
            ) + one_if(verify && knobs.verify_harness is Some) + one_if(
                verify && knobs.fuzz == Some(true),
            ) + one_if(verify && !translate && knobs.test_case is Some) + one_if(
                knobs.test_harness is Some,
            ) + one_if(knobs.timeout is Some) + knobs.config@.len() + knobs.extra_args@.len()
            &&& agentic ==> argv.contains(
                "--agentic="@ + text::join_of(text::texts(stages@), ","@),
            )
            &&& !agentic && knobs.modular == Some(true) ==> argv.contains("--modular"@)
            &&& agentic && knobs.agent is Some ==> argv.contains("--agent="@ + knobs.agent->0@)
            &&& agentic && knobs.model is Some ==> argv.contains("--model="@ + knobs.model->0@)
            &&& plans && knobs.agent_tools == Some(true) ==> argv.contains("--agent-tools"@)
            &&& plans && no_plan ==> argv.contains("--no-plan"@)
            &&& plans && no_plan && knobs.workflow == Some(true) ==> argv.contains("--workflow"@)
            &&& plans && !no_plan && knobs.no_plan_file == Some(true) ==> argv.contains(
                "--no-plan-file"@,
            )
            &&& verify && knobs.verify_harness is Some ==> argv.contains(
                "--verify-harness="@ + knobs.verify_harness->0@,
            )
            &&& verify && knobs.fuzz == Some(true) ==> argv.contains("--fuzz"@)
            &&& verify && !translate && knobs.test_case is Some ==> argv.contains(
                "--test-case="@ + path::joined(dir@, knobs.test_case->0@),
            )
            &&& knobs.test_harness is Some ==> argv.contains(
                "--test-harness="@ + knobs.test_harness->0@,
            )
            &&& knobs.timeout is Some ==> argv.contains(
                "--timeout="@ + text::decimal_of(knobs.timeout->0 as nat),
            )
        }),
{
    let argv = text::texts(r@);
    let names = text::texts(stages@);
    let k = knobs.view();
    stages_are_named(stages@, "translate"@);
    stages_are_named(stages@, "verify"@);
    let (front, rest) = told_arguments(k, (input_root@, output_root@), names, dir@, argv);
    has_in_front(argv, front, rest);
    assert(k.config.len() == knobs.config@.len());
    assert(k.extra_args.len() == knobs.extra_args@.len());
}

proof fn stages_are_named(stages: Seq<String>, full: Seq<char>)
    ensures
        names_stage(text::texts(stages), full) <==> exists|i: int|
            0 <= i < stages.len() && spells_stage(#[trigger] stages[i]@, full),
        text::texts(stages).len() == stages.len(),
{
    let names = text::texts(stages);
    if names_stage(names, full) {
        let i = choose|i: int| 0 <= i < names.len() && spells_stage(#[trigger] names[i], full);
        assert(spells_stage(stages[i]@, full));
    }
    if exists|i: int| 0 <= i < stages.len() && spells_stage(#[trigger] stages[i]@, full) {
        let i = choose|i: int| 0 <= i < stages.len() && spells_stage(#[trigger] stages[i]@, full);
        assert(spells_stage(names[i], full));
    }
}

proof fn has_in_front(all: Seq<Seq<char>>, front: Seq<Seq<char>>, rest: Seq<Seq<char>>)
    requires
        alike(all, appended(front, rest)),
    ensures
        all.len() == size(front) + rest.len(),
        forall|x: Seq<char>| #[trigger] has(front, x) ==> all.contains(x),
{
    reveal(has);
    reveal(size);
    reveal(appended);
    assert forall|x: Seq<char>| #[trigger] has(front, x) implies all.contains(x) by {
        let i = choose|i: int| 0 <= i < front.len() && front[i] == x;
        assert(all[i] == x);
    }
}

pub(crate) proof fn argv_starts_with_roots(
    k: KnobsView,
    input_root: Seq<char>,
    output_root: Seq<char>,
    names: Seq<Seq<char>>,
    dir: Seq<char>,
)
    ensures
        ({
            let argv = argv_of(k, input_root, output_root, names, dir);
            argv.len() >= 3 && argv[1] == input_root && argv[2] == output_root
        }),
{
    let argv = argv_of(k, input_root, output_root, names, dir);
    let (front, rest) = told_arguments(k, (input_root, output_root), names, dir, argv);
    heads_in_front(argv, front, rest, "harvest-benchmark"@, input_root, output_root);
}

/// The first arguments are the program and its directories; the last ones are the
/// overrides in order, and then the further arguments as they are.
#[verifier::spinoff_prover]
pub proof fn overrides_come_last(
    knobs: &Knobs,
    input_root: &str,
    output_root: &str,
    stages: &Vec<String>,
    dir: &str,
    r: Vec<String>,
    i: int,
)
    requires
        call_ensures(lower_to_argv, (knobs, input_root, output_root, stages, dir), r),
    ensures
        ({
            let n = knobs.config@.len() as int;
            let m = knobs.extra_args@.len() as int;
            &&& r@.len() >= 3 + n + m
            &&& r@[0]@ == "harvest-benchmark"@ && r@[1]@ == input_root@ && r@[2]@ == output_root@
            &&& 0 <= i < n ==> r@[r@.len() - m - n + i]@ == "--config="@ + knobs.config@[i]@
            &&& 0 <= i < m ==> r@[r@.len() - m + i]@ == knobs.extra_args@[i]@
        }),
{
    let argv = text::texts(r@);
    let k = knobs.view();
    let (front, rest) = told_arguments(
        k,
        (input_root@, output_root@),
        text::texts(stages@),
        dir@,
        argv,
    );
    ends_with_rest(argv, front, k.config, k.extra_args, rest, i);
    assert(r@.len() == argv.len());
    assert(r@[0]@ == argv[0] && r@[1]@ == argv[1] && r@[2]@ == argv[2]) by {
        heads_in_front(argv, front, rest, "harvest-benchmark"@, input_root@, output_root@);
    }
    heads_in_front(argv, front, rest, "harvest-benchmark"@, input_root@, output_root@);
    assert(k.config.len() == knobs.config@.len());
    assert(k.extra_args.len() == knobs.extra_args@.len());
    if 0 <= i < knobs.config@.len() {
        assert(k.config[i] == knobs.config@[i]@);
    }
    if 0 <= i < knobs.extra_args@.len() {
        assert(k.extra_args[i] == knobs.extra_args@[i]@);
    }
}

proof fn heads_in_front(
    all: Seq<Seq<char>>,
    front: Seq<Seq<char>>,
    rest: Seq<Seq<char>>,
    a: Seq<char>,
    b: Seq<char>,
    c: Seq<char>,
)
    requires
        alike(all, appended(front, rest)),
        heads(front, a, b, c),
    ensures
        all.len() >= 3 + rest.len(),
        all[0] == a,
        all[1] == b,
        all[2] == c,
{
    reveal(appended);
    reveal(heads);
}

proof fn ends_with_rest(
    all: Seq<Seq<char>>,
    front: Seq<Seq<char>>,
    config: Seq<Seq<char>>,
    extra: Seq<Seq<char>>,
    rest: Seq<Seq<char>>,
    i: int,
)
    requires
        alike(all, appended(front, rest)),
        rest == config_args(config) + extra,
    ensures
        rest.len() == config.len() + extra.len(),
        0 <= i < config.len() ==> all[all.len() - extra.len() - config.len() + i] == "--config="@
            + config[i],
        0 <= i < extra.len() ==> all[all.len() - extra.len() + i] == extra[i],
{
    reveal(appended);
    if 0 <= i < config.len() {
        assert(config_args(config)[i] == "--config="@ + config[i]);
    }
}

/// Inheriting from defaults that set nothing changes nothing.
pub proof fn empty_defaults_change_nothing(defaults: KnobsView, run: KnobsView)
    requires
        defaults.stages is None,
        defaults.modular is None,
        defaults.agent is None,
        defaults.model is None,
        defaults.no_plan is None,
        defaults.no_plan_file is None,
        defaults.workflow is None,
        defaults.agent_tools is None,
        defaults.verify_harness is None,
        defaults.fuzz is None,
        defaults.test_case is None,
        defaults.test_harness is None,
        defaults.timeout is None,
        defaults.config.len() == 0,
        defaults.extra_args.len() == 0,
    ensures
        merged(defaults, run) == run,
{
    assert(defaults.config + run.config =~= run.config);
    assert(defaults.extra_args + run.extra_args =~= run.extra_args);
}

proof fn set_names_is_empty(v: Seq<(bool, Seq<char>)>)
    requires
        set_names(v).len() == 0,
    ensures
        forall|i: int| 0 <= i < v.len() ==> !(#[trigger] v[i]).0,
    decreases v.len(),
{
    if v.len() > 0 {
        set_names_is_empty(v.drop_last());
        assert forall|i: int| 0 <= i < v.len() implies !(#[trigger] v[i]).0 by {
            if i < v.len() - 1 {
                assert(v.drop_last()[i] == v[i]);
            }
        }
    }
}

/// A text spells a stage exactly if reading it gives that stage: a set and the
/// command line take the same spellings. This holds of every ASCII text, and of any
/// other one that has the same lower case in both senses. A text with a character
/// beyond ASCII spells no stage.
pub proof fn spelling_is_reading(value: &str, s: Stage, read: Result<Stage, String>)
    requires
        call_ensures(Stage::parse, (value,), read),
    ensures
        text::all_ascii(value@) || text::ascii_lower_of(value@) == text::lowercase_of(value@) ==> (
        spells_stage(value@, s.name()) <==> read == Ok::<Stage, String>(s)),
        !text::all_ascii(value@) ==> !spells_stage(value@, s.name()),
{
    spelled_names_are_named(value@, s);
    if !text::all_ascii(value@) {
        spelled_texts_are_ascii(value@, s);
    }
}

/// What spells a stage is made of ASCII characters.
proof fn spelled_texts_are_ascii(value: Seq<char>, s: Stage)
    ensures
        spells_stage(value, s.name()) ==> text::all_ascii(value),
{
    let v = text::ascii_lower_of(value);
    reveal_strlit("translate");
    reveal_strlit("verify");
    reveal_strlit("conform");
    assert(text::all_ascii(s.name()));
    if spells_stage(value, s.name()) {
        assert forall|i: int| 0 <= i < value.len() implies (#[trigger] value[i]) as int <= 127 by {
            assert(v[i] == text::ascii_lower_char(value[i]));
            assert(v[i] as int <= 127);
        }
    }
}

/// A text spells a stage exactly if its lower case names that stage.
proof fn spelled_names_are_named(value: Seq<char>, s: Stage)
    ensures
        spells_stage(value, s.name()) <==> config::stage_named(text::ascii_lower_of(value)) == Some(
            s,
        ),
{
    let v = text::ascii_lower_of(value);
    reveal_stage_names();
    if v.len() == 1 {
        assert(s.name().len() > 1);
        assert(s.name().take(1) =~= seq![s.name()[0]]);
        assert(v =~= seq![v[0]]);
        assert(text::has_prefix(s.name(), v) <==> v[0] == s.name()[0]);
        assert(v == "t"@ <==> v[0] == 't');
        assert(v == "v"@ <==> v[0] == 'v');
        assert(v == "c"@ <==> v[0] == 'c');
    }
    assert(v == "translate"@ ==> v[0] == 't');
    assert(v == "verify"@ ==> v[0] == 'v');
    assert(v == "conform"@ ==> v[0] == 'c');
}

proof fn reveal_stage_names()
    ensures
        "translate"@.len() == 9 && "translate"@[0] == 't',
        "verify"@.len() == 6 && "verify"@[0] == 'v',
        "conform"@.len() == 7 && "conform"@[0] == 'c',
        "t"@ == seq!['t'],
        "v"@ == seq!['v'],
        "c"@ == seq!['c'],
{
    reveal_strlit("translate");
    reveal_strlit("verify");
    reveal_strlit("conform");
    reveal_strlit("t");
    reveal_strlit("v");
    reveal_strlit("c");
    assert("t"@ =~= seq!['t']);
    assert("v"@ =~= seq!['v']);
    assert("c"@ =~= seq!['c']);
}

proof fn spelled_stage_is_unique(value: Seq<char>, a: Stage, b: Stage)
    requires
        spells_stage(value, a.name()),
        spells_stage(value, b.name()),
    ensures
        a == b,
{
    let v = text::ascii_lower_of(value);
    reveal_stage_names();
    assert(v[0] == a.name()[0]) by {
        if v.len() == 1 {
            assert(a.name().take(1)[0] == a.name()[0]);
        }
    }
    assert(v[0] == b.name()[0]) by {
        if v.len() == 1 {
            assert(b.name().take(1)[0] == b.name()[0]);
        }
    }
}

/// Whether the texts spell these stages, one by one.
pub open spec fn spell_stages(texts: Seq<Seq<char>>, stages: Seq<Stage>) -> bool {
    &&& texts.len() == stages.len()
    &&& forall|i: int|
        #![trigger texts[i]]
        #![trigger stages[i]]
        0 <= i < texts.len() ==> spells_stage(texts[i], stages[i].name())
}

proof fn spelled_stages_are_named(texts: Seq<Seq<char>>, stages: Seq<Stage>, s: Stage)
    requires
        spell_stages(texts, stages),
    ensures
        names_stage(texts, s.name()) == stages.contains(s),
{
    if names_stage(texts, s.name()) {
        let i = choose|i: int| 0 <= i < texts.len() && spells_stage(#[trigger] texts[i], s.name());
        spelled_stage_is_unique(texts[i], s, stages[i]);
    }
    if stages.contains(s) {
        let i = choose|i: int| 0 <= i < stages.len() && stages[i] == s;
        assert(spells_stage(texts[i], s.name()));
    }
}

/// A knob that a run sets on itself is never dropped: where the run is accepted,
/// the stages take it, so it reaches the arguments.
pub proof fn explicit_knobs_are_not_dropped(
    id: Seq<char>,
    own: KnobsView,
    all: KnobsView,
    stages: Seq<Seq<char>>,
)
    requires
        knob_fault(id, own, all, stages) is None,
    ensures
        is_on(own.fuzz) || own.verify_harness is Some ==> takes_verify(stages),
        own.model is Some || own.agent is Some ==> stages.len() > 0,
        is_on(own.no_plan) || is_on(own.no_plan_file) || is_on(own.agent_tools) ==> takes_plan(
            stages,
        ),
        is_on(own.workflow) ==> takes_plan(stages) && is_on(all.no_plan),
        is_on(own.modular) ==> stages.len() == 0,
        own.test_case is Some ==> takes_suite(stages),
{
    if stages.len() == 0 {
        let v = agentic_only(own);
        set_names_is_empty(v);
        assert(!v[0].0 && !v[1].0 && !v[2].0 && !v[3].0);
        assert(!v[4].0 && !v[5].0 && !v[6].0 && !v[7].0);
    } else {
        if !takes_verify(stages) {
            let v = verify_only(own);
            set_names_is_empty(v);
            assert(!v[0].0 && !v[1].0);
        }
        if !takes_plan(stages) {
            let v = plan_only(own);
            set_names_is_empty(v);
            assert(!v[0].0 && !v[1].0 && !v[2].0 && !v[3].0);
        }
    }
}

/// `k` without the knobs that the stages do not accept.
pub open spec fn scoped(k: KnobsView, stages: Seq<Seq<char>>) -> KnobsView {
    let agentic = stages.len() > 0;
    let verify = takes_verify(stages);
    let plans = takes_plan(stages);
    KnobsView {
        modular: if agentic { None } else { k.modular },
        agent: if agentic { k.agent } else { None },
        model: if agentic { k.model } else { None },
        no_plan: if plans { k.no_plan } else { None },
        no_plan_file: if plans && !is_on(k.no_plan) { k.no_plan_file } else { None },
        workflow: if plans && is_on(k.no_plan) { k.workflow } else { None },
        agent_tools: if plans { k.agent_tools } else { None },
        verify_harness: if verify { k.verify_harness } else { None },
        fuzz: if verify { k.fuzz } else { None },
        test_case: if takes_suite(stages) { k.test_case } else { None },
        ..k
    }
}

/// Inherited knobs are scoped: one that the stages of a run do not accept does not
/// reach its arguments.
pub proof fn inherited_knobs_are_scoped(
    k: KnobsView,
    input_root: Seq<char>,
    output_root: Seq<char>,
    stages: Seq<Seq<char>>,
    manifest_dir: Seq<char>,
)
    ensures
        argv_of(k, input_root, output_root, stages, manifest_dir) == argv_of(
            scoped(k, stages),
            input_root,
            output_root,
            stages,
            manifest_dir,
        ),
{
}

/// Defaults do not make unrelated runs unrunnable: arguments that hold just the
/// knobs left for their stages pass the rules of the stages, unless the stages
/// themselves do not go together.
pub proof fn scoped_knobs_are_accepted(k: KnobsView, stages: Seq<Seq<char>>, args: Args)
    requires
        stages.len() > 0,
        args.agentic is Some,
        spell_stages(stages, args.given_stages()),
        args.given_stages().contains(Stage::Conform) ==> config::ordered(
            args.given_stages(),
        ).len() == 1,
        args.no_plan == is_on(scoped(k, stages).no_plan),
        args.no_plan_file == is_on(scoped(k, stages).no_plan_file),
        args.workflow == is_on(scoped(k, stages).workflow),
        args.agent_tools == is_on(scoped(k, stages).agent_tools),
        args.fuzz == is_on(scoped(k, stages).fuzz),
        args.verify_harness is Some == scoped(k, stages).verify_harness is Some,
        args.test_case is Some == scoped(k, stages).test_case is Some,
    ensures
        args.stage_fault(config::ordered(args.given_stages())) is None,
{
    let given = args.given_stages();
    let o = config::ordered(given);
    config::ordering_law(given);
    spelled_stages_are_named(stages, given, Stage::Translate);
    spelled_stages_are_named(stages, given, Stage::Verify);
    assert(given.contains(given[0]));
    assert(o.contains(given[0]));
    assert(o.contains(Stage::Verify) == takes_verify(stages));
    assert(o.contains(Stage::Translate) == given.contains(Stage::Translate));
    if takes_suite(stages) {
        assert(o[0] == Stage::Verify);
    }
}

} // verus!
