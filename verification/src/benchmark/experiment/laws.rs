//! What holds of a set of experiments as a whole.

use crate::benchmark::cli;
use crate::benchmark::cli::Args;
use crate::benchmark::experiment::knobs;
use crate::benchmark::experiment::knobs::{reject_inapplicable_explicit_knobs, Knobs, KnobsView};
use crate::benchmark::experiment::plan;
use crate::benchmark::experiment::plan::{
    accept_run, lower_run, ExperimentSet, Plan, ResolvedRun, ResolvedView, Roots, RunSpec,
};
use crate::benchmark::experiment::progress;
use crate::benchmark::experiment::progress::{
    classify, print_status, program_step, select_runs, status, ProgramRecord, ProgramState, ProgramStep,
    RunStatus,
};
use crate::benchmark::stats::ProgramEvalStats;
use crate::config;
use crate::config::Stage;
use crate::path;
use crate::path::ComponentView;
use crate::text;
use vstd::prelude::*;

verus! {

// ── Knobs ────────────────────────────────────────────────────────────────

proof fn set_names_empty(v: Seq<(bool, Seq<char>)>)
    ensures
        set_names_len(v) == 0 <==> forall|i: int| 0 <= i < v.len() ==> !(#[trigger] v[i]).0,
    decreases v.len(),
{
    if v.len() > 0 {
        let front = v.drop_last();
        set_names_empty(front);
        if set_names_len(v) == 0 {
            assert forall|i: int| 0 <= i < v.len() implies !(#[trigger] v[i]).0 by {
                if i < front.len() {
                    assert(front[i] == v[i]);
                }
            }
        }
        if forall|i: int| 0 <= i < v.len() ==> !(#[trigger] v[i]).0 {
            assert forall|i: int| 0 <= i < front.len() implies !(#[trigger] front[i]).0 by {
                assert(front[i] == v[i]);
            }
            assert(!v[v.len() - 1].0);
        }
    }
}

spec fn set_names_len(v: Seq<(bool, Seq<char>)>) -> nat {
    knobs::set_names(v).len()
}

/// Whether one of the texts spells the stage.
pub open spec fn has(stages: Seq<String>, full: Seq<char>) -> bool {
    exists|i: int| 0 <= i < stages.len() && knobs::spells_stage(#[trigger] stages[i]@, full)
}

proof fn has_is_named(stages: Seq<String>, full: Seq<char>)
    ensures
        has(stages, full) <==> knobs::names_stage(text::texts(stages), full),
{
    let names = text::texts(stages);
    if knobs::names_stage(names, full) {
        let i = choose|i: int|
            0 <= i < names.len() && knobs::spells_stage(#[trigger] names[i], full);
        assert(knobs::spells_stage(stages[i]@, full));
    }
    if has(stages, full) {
        let i = choose|i: int|
            0 <= i < stages.len() && knobs::spells_stage(#[trigger] stages[i]@, full);
        assert(knobs::spells_stage(names[i], full));
    }
}

/// The knobs that a run sets on itself are accepted exactly if its stages take every
/// one of them: those of an agent need a stage, modular translation needs none,
/// fuzzing and the harness need verify, the plan knobs need translate or verify, a
/// suite needs verify to come first, and the workflow hint needs to go without a plan.
pub proof fn own_knobs_must_apply(
    id: &str,
    own: &Knobs,
    all: &Knobs,
    stages: &Vec<String>,
    r: Result<(), String>,
)
    requires
        call_ensures(reject_inapplicable_explicit_knobs, (id, own, all, stages), r),
    ensures
        stages@.len() == 0 ==> (r is Ok <==> {
            &&& own.agent is None && own.model is None && own.verify_harness is None
            &&& own.test_case is None
            &&& own.agent_tools != Some(true) && own.no_plan != Some(true)
            &&& own.no_plan_file != Some(true) && own.workflow != Some(true)
            &&& own.fuzz != Some(true)
        }),
        stages@.len() > 0 ==> (r is Ok <==> {
            let verify = has(stages@, "verify"@);
            let translate = has(stages@, "translate"@);
            &&& own.modular != Some(true)
            &&& own.fuzz == Some(true) || own.verify_harness is Some ==> verify
            &&& own.no_plan == Some(true) || own.no_plan_file == Some(true) || own.workflow == Some(
                true,
            ) || own.agent_tools == Some(true) ==> translate || verify
            &&& own.test_case is Some ==> verify && !translate
            &&& own.workflow == Some(true) ==> all.no_plan == Some(true)
        }),
{
    let k = own.view();
    has_is_named(stages@, "verify"@);
    has_is_named(stages@, "translate"@);
    assert(text::texts(stages@).len() == stages@.len());
    let a = knobs::agentic_only(k);
    let v = knobs::verify_only(k);
    let p = knobs::plan_only(k);
    set_names_empty(a);
    set_names_empty(v);
    set_names_empty(p);
    assert((forall|i: int| 0 <= i < a.len() ==> !(#[trigger] a[i]).0) <==> !a[0].0 && !a[1].0
        && !a[2].0 && !a[3].0 && !a[4].0 && !a[5].0 && !a[6].0 && !a[7].0);
    assert((forall|i: int| 0 <= i < v.len() ==> !(#[trigger] v[i]).0) <==> !v[0].0 && !v[1].0);
    assert((forall|i: int| 0 <= i < p.len() ==> !(#[trigger] p[i]).0) <==> !p[0].0 && !p[1].0
        && !p[2].0 && !p[3].0);
}

/// An id that is accepted is the name of one directory: it is one plain component of
/// a path.
pub proof fn ids_are_plain_names(id: Seq<char>)
    requires
        knobs::is_valid_id(id),
    ensures
        path::components_of(id) == seq![ComponentView::Normal(id)],
{
    assert(knobs::is_id_char(id[0]));
    assert(!path::is_absolute_path(id));
    assert forall|j: int| 0 <= j < id.len() implies id[j] != '/' by {
        assert(knobs::is_id_char(id[j]));
    }
    text::index_of_unique(id, '/', id.len() as int);
    let pieces = text::pieces_of(id, '/');
    assert(pieces =~= seq![id]);
    assert(pieces.drop_last() =~= seq![]);
    assert(path::pieces_components(pieces.drop_last()) =~= seq![]);
    assert(path::pieces_components(pieces) =~= seq![ComponentView::Normal(id)]);
    assert(path::components_of(id) =~= seq![ComponentView::Normal(id)]);
}

/// An id is refused only for what it holds: letters, digits, dots, underscores and
/// hyphens make an id, unless it is `.` or `..`.
pub proof fn plain_names_are_ids(id: &str, r: bool)
    requires
        call_ensures(knobs::valid_id, (id,), r),
    ensures
        r <==> id@.len() > 0 && id@ != "."@ && id@ != ".."@ && forall|i: int|
            0 <= i < id@.len() ==> {
                let c = (#[trigger] id@[i]) as int;
                ||| 48 <= c <= 57
                ||| 65 <= c <= 90
                ||| 97 <= c <= 122
                ||| c == '.' as int
                ||| c == '_' as int
                ||| c == '-' as int
            },
{
    assert forall|i: int| 0 <= i < id@.len() implies (knobs::is_id_char(#[trigger] id@[i]) <==> {
        let c = id@[i] as int;
        ||| 48 <= c <= 57
        ||| 65 <= c <= 90
        ||| 97 <= c <= 122
        ||| c == '.' as int
        ||| c == '_' as int
        ||| c == '-' as int
    }) by {}
}

// ── Runs ─────────────────────────────────────────────────────────────────

proof fn found_run(runs: Seq<ResolvedView>, id: Seq<char>) -> (j: int)
    ensures
        plan::find_run(runs, id) is Some ==> 0 <= j < runs.len() && runs[j].id == id
            && plan::find_run(runs, id) == Some(runs[j]) && forall|i: int|
            0 <= i < j ==> (#[trigger] runs[i]).id != id,
        plan::find_run(runs, id) is None ==> forall|i: int|
            0 <= i < runs.len() ==> (#[trigger] runs[i]).id != id,
    decreases runs.len(),
{
    if runs.len() == 0 || runs[0].id == id {
        0
    } else {
        let rest = runs.skip(1);
        let j = found_run(rest, id);
        assert forall|i: int| 1 <= i < runs.len() implies (#[trigger] runs[i]) == rest[i - 1] by {}
        if plan::find_run(runs, id) is Some {
            assert(rest[j] == runs[j + 1]);
        }
        j + 1
    }
}

proof fn outside_is_outside(programs: Seq<Seq<char>>, allowed: Seq<Seq<char>>)
    ensures
        plan::first_outside(programs, allowed) is None <==> forall|i: int|
            0 <= i < programs.len() ==> allowed.contains(#[trigger] programs[i]),
    decreases programs.len(),
{
    if programs.len() > 0 {
        let rest = programs.skip(1);
        outside_is_outside(rest, allowed);
        assert(forall|i: int| 1 <= i < programs.len() ==> #[trigger] programs[i] == rest[i - 1]);
        assert(forall|i: int| 0 <= i < rest.len() ==> #[trigger] rest[i] == programs[i + 1]);
    }
}

/// A resolved run is the one that was declared: it keeps its id, its labels and its
/// parent, and its output goes to the directory of its id under the results root. Its
/// arguments name what it reads and where it writes.
pub proof fn resolved_runs_are_as_declared(
    roots: &Roots,
    defaults: &Knobs,
    done: &Vec<ResolvedRun>,
    s: &RunSpec,
    r: Result<ResolvedRun, String>,
)
    requires
        call_ensures(lower_run, (roots, defaults, done, s), r),
    ensures
        r matches Ok(x) ==> {
            &&& x.id@ == s.id@
            &&& x.labels.pairs() == s.labels.pairs()
            &&& text::opt_text(x.from) == text::opt_text(s.from)
            &&& x.output_root@ == path::joined(roots.results_root@, s.id@)
            &&& x.argv@.len() >= 3
            &&& x.argv@[1]@ == x.input_root@
            &&& x.argv@[2]@ == x.output_root@
            &&& text::texts(x.config@) == text::texts(defaults.config@) + text::texts(
                s.knobs.config@,
            )
        },
{
    if let Ok(x) = r {
        let k = knobs::merged(defaults.view(), s.knobs.view());
        let stages = plan::stages_of(k);
        let argv = text::texts(x.argv@);
        assert(argv.len() == x.argv@.len());
        knobs::argv_starts_with_roots(
            k,
            x.input_root@,
            x.output_root@,
            stages,
            roots.manifest_dir@,
        );
        assert(argv[1] == x.argv@[1]@);
        assert(argv[2] == x.argv@[2]@);
        assert(x.view().output_root == x.output_root@);
    }
}

/// A run without a parent reads the bench and covers just the programs it lists. A run
/// with one reads that run's output, and covers that run's programs, or those of them
/// that it lists. It resumes exactly if it has a parent.
pub proof fn resolved_runs_read_their_origin(
    roots: &Roots,
    defaults: &Knobs,
    done: &Vec<ResolvedRun>,
    s: &RunSpec,
    r: Result<ResolvedRun, String>,
)
    requires
        call_ensures(lower_run, (roots, defaults, done, s), r),
    ensures
        r matches Ok(x) ==> {
            &&& x.resumes <==> s.from is Some
            &&& s.from is None ==> {
                &&& x.input_root@ == roots.bench_root@
                &&& text::texts(x.programs@) == text::texts(s.programs@)
                &&& x.programs@.len() > 0
            }
            &&& s.from matches Some(parent) ==> exists|j: int|
                #![trigger done@[j]]
                {
                    &&& 0 <= j < done@.len()
                    &&& done@[j].id@ == parent@
                    &&& x.input_root@ == done@[j].output_root@
                    &&& s.programs@.len() == 0 ==> text::texts(x.programs@) == text::texts(
                        done@[j].programs@,
                    )
                    &&& s.programs@.len() > 0 ==> text::texts(x.programs@) == text::texts(
                        s.programs@,
                    )
                    &&& forall|i: int|
                        0 <= i < s.programs@.len() ==> text::texts(done@[j].programs@).contains(
                            (#[trigger] s.programs@[i])@,
                        )
                }
        },
{
    if let Ok(x) = r {
        let v = x.view();
        let runs = plan::run_views(done@);
        let listed = text::texts(s.programs@);
        assert(listed.len() == s.programs@.len());
        assert(text::texts(x.programs@).len() == x.programs@.len());
        if let Some(parent) = s.from {
            let j = found_run(runs, parent@);
            assert(runs[j] == done@[j].view());
            if s.programs@.len() > 0 {
                outside_is_outside(listed, runs[j].programs);
                assert forall|i: int| 0 <= i < s.programs@.len() implies text::texts(
                    done@[j].programs@,
                ).contains((#[trigger] s.programs@[i])@) by {
                    assert(listed[i] == s.programs@[i]@);
                }
            }
        }
    }
}

/// A run is refused exactly if it has no programs or no such parent to take them
/// from, lists a program that its parent does not cover, resumes without a parent or
/// has one without resuming, or sets a knob that its stages do not take.
pub proof fn runs_are_refused_for_a_reason(
    roots: &Roots,
    defaults: &Knobs,
    done: &Vec<ResolvedRun>,
    s: &RunSpec,
    r: Result<ResolvedRun, String>,
)
    requires
        call_ensures(lower_run, (roots, defaults, done, s), r),
    ensures
        ({
            let k = knobs::merged(defaults.view(), s.knobs.view());
            let stages = plan::stages_of(k);
            let resumes = stages.len() > 0 && (knobs::spells_stage(stages[0], "verify"@)
                || knobs::spells_stage(stages[0], "conform"@));
            r is Ok <==> {
                &&& s.from is None ==> s.programs@.len() > 0
                &&& s.from matches Some(parent) ==> exists|j: int|
                    #![trigger done@[j]]
                    {
                        &&& 0 <= j < done@.len()
                        &&& done@[j].id@ == parent@
                        &&& forall|i: int| 0 <= i < j ==> (#[trigger] done@[i]).id@ != parent@
                        &&& forall|i: int|
                            0 <= i < s.programs@.len() ==> text::texts(
                                done@[j].programs@,
                            ).contains((#[trigger] s.programs@[i])@)
                    }
                &&& s.from is Some <==> resumes
                &&& knobs::knob_fault(s.id@, s.knobs.view(), k, stages) is None
            }
        }),
{
    let runs = plan::run_views(done@);
    let listed = text::texts(s.programs@);
    assert(listed.len() == s.programs@.len());
    assert(forall|i: int| 0 <= i < listed.len() ==> #[trigger] listed[i] == s.programs@[i]@);
    if let Some(parent) = s.from {
        let j = found_run(runs, parent@);
        assert forall|i: int| 0 <= i < done@.len() implies (#[trigger] done@[i]).id@
            == runs[i].id by {}
        if plan::find_run(runs, parent@) is Some {
            assert(runs[j] == done@[j].view());
            outside_is_outside(listed, runs[j].programs);
            assert((forall|i: int|
                0 <= i < s.programs@.len() ==> text::texts(done@[j].programs@).contains(
                    (#[trigger] s.programs@[i])@,
                )) <==> (forall|i: int|
                0 <= i < listed.len() ==> runs[j].programs.contains(#[trigger] listed[i]))) by {
                if forall|i: int|
                    0 <= i < s.programs@.len() ==> text::texts(done@[j].programs@).contains(
                        (#[trigger] s.programs@[i])@,
                    ) {
                    assert forall|i: int| 0 <= i < listed.len() implies runs[j].programs.contains(
                        #[trigger] listed[i],
                    ) by {
                        assert(listed[i] == s.programs@[i]@);
                    }
                }
                if forall|i: int|
                    0 <= i < listed.len() ==> runs[j].programs.contains(#[trigger] listed[i]) {
                    assert forall|i: int| 0 <= i < s.programs@.len() implies text::texts(
                        done@[j].programs@,
                    ).contains((#[trigger] s.programs@[i])@) by {
                        assert(listed[i] == s.programs@[i]@);
                    }
                }
            }
            assert(done@[j].id@ == parent@);
            assert forall|i: int| 0 <= i < j implies (#[trigger] done@[i]).id@ != parent@ by {
                assert(runs[i].id != parent@);
            }
        }
    }
}

proof fn missing_is_missing(programs: Seq<Seq<char>>, present: Seq<bool>)
    requires
        present.len() >= programs.len(),
    ensures
        plan::missing_of(programs, present).len() == 0 <==> forall|i: int|
            0 <= i < programs.len() ==> #[trigger] present[i],
    decreases programs.len(),
{
    if programs.len() > 0 {
        missing_is_missing(programs.drop_last(), present);
    }
}

/// A resolved run is accepted exactly if its arguments parse and fit its stages, a
/// harness that needs plan files has them, the workflow hint goes to the agent that
/// takes it, and every program of a run that starts from the bench is there.
pub proof fn runs_are_accepted_as_command_lines_are(
    roots: &Roots,
    defaults: &Knobs,
    s: &RunSpec,
    run: &ResolvedRun,
    parsed: &Result<Args, String>,
    present: &Vec<bool>,
    claude: &str,
    r: Result<(), String>,
)
    requires
        present@.len() >= run.programs@.len(),
        call_ensures(accept_run, (roots, defaults, s, run, parsed, present, claude), r),
    ensures
        ({
            let k = knobs::merged(defaults.view(), s.knobs.view());
            let planless = k.no_plan == Some(true) || k.no_plan_file == Some(true);
            let harnessed = k.fuzz == Some(true) || k.verify_harness is Some;
            r is Ok <==> {
                &&& *parsed matches Ok(args) && args.stage_fault(
                    config::ordered(args.given_stages()),
                ) is None
                &&& !(knobs::names_stage(plan::stages_of(k), "verify"@) && planless && harnessed)
                &&& k.workflow == Some(true) && k.agent is Some ==> k.agent->0 == claude@
                &&& s.from is None ==> forall|i: int|
                    0 <= i < run.programs@.len() ==> #[trigger] present@[i]
            }
        }),
{
    missing_is_missing(text::texts(run.programs@), present@);
    assert(text::texts(run.programs@).len() == run.programs@.len());
}

/// Arguments fit their stages exactly if the agentic ones name a stage, conform runs
/// alone, and every argument that belongs to a stage comes with that stage.
pub proof fn arguments_fit_their_stages(args: &Args, stages: &Vec<Stage>, r: Result<(), String>)
    requires
        call_ensures(Args::validate_stages, (args, stages), r),
    ensures
        ({
            let translate = stages@.contains(Stage::Translate);
            let verify = stages@.contains(Stage::Verify);
            r is Ok <==> {
                &&& args.agentic is Some ==> stages@.len() > 0
                &&& stages@.contains(Stage::Conform) ==> stages@.len() == 1
                &&& args.fuzz || args.verify_harness is Some ==> verify
                &&& args.no_plan || args.no_plan_file || args.workflow || args.agent_tools
                    ==> translate || verify
                &&& args.test_case is Some ==> stages@.len() > 0 && stages@[0] == Stage::Verify
            }
        }),
{
}

proof fn ids_without_fault(ids: Seq<Seq<char>>)
    ensures
        plan::id_fault(ids) is None <==> {
            &&& forall|i: int| 0 <= i < ids.len() ==> knobs::is_valid_id(#[trigger] ids[i])
            &&& forall|i: int, j: int|
                #![trigger ids[i], ids[j]]
                0 <= i < j < ids.len() ==> ids[i] != ids[j]
        },
    decreases ids.len(),
{
    if ids.len() > 0 {
        let front = ids.drop_last();
        ids_without_fault(front);
        let n = ids.len() - 1;
        assert(forall|i: int| 0 <= i < n ==> #[trigger] front[i] == ids[i]);
        assert(ids.last() == ids[n]);
        if front.contains(ids.last()) {
            let i = choose|i: int| 0 <= i < front.len() && front[i] == ids.last();
            assert(ids[i] == ids[n]);
        }
        if plan::id_fault(ids) is None {
            assert forall|i: int| 0 <= i < ids.len() implies knobs::is_valid_id(
                #[trigger] ids[i],
            ) by {
                if i < n {
                    assert(knobs::is_valid_id(front[i]));
                }
            }
            assert forall|i: int, j: int|
                #![trigger ids[i], ids[j]]
                0 <= i < j < ids.len() implies ids[i] != ids[j] by {
                if j < n {
                    assert(front[i] != front[j]);
                } else {
                    assert(front.contains(front[i]));
                }
            }
        }
    }
}

/// A set is taken up exactly if its version is the one that is understood, it declares
/// a run, and its ids are usable and differ. Nothing has been run then.
pub proof fn sets_are_taken_up(manifest_path: &str, set: &ExperimentSet, r: Result<Plan, String>)
    requires
        call_ensures(Plan::new, (manifest_path, set), r),
    ensures
        r is Ok <==> {
            &&& set.schema_version == 1
            &&& set.runs@.len() > 0
            &&& forall|i: int|
                0 <= i < set.runs@.len() ==> knobs::is_valid_id((#[trigger] set.runs@[i]).id@)
            &&& forall|i: int, j: int|
                #![trigger set.runs@[i], set.runs@[j]]
                0 <= i < j < set.runs@.len() ==> set.runs@[i].id@ != set.runs@[j].id@
        },
        r matches Ok(p) ==> p.runs@.len() == 0,
{
    let ids = plan::ids_of(plan::spec_views(set.runs@));
    ids_without_fault(ids);
    assert(ids.len() == set.runs@.len());
    assert(forall|i: int| 0 <= i < ids.len() ==> #[trigger] ids[i] == set.runs@[i].id@);
    if plan::id_fault(ids) is None {
        assert forall|i: int| 0 <= i < set.runs@.len() implies knobs::is_valid_id(
            (#[trigger] set.runs@[i]).id@,
        ) by {
            assert(knobs::is_valid_id(ids[i]));
        }
        assert forall|i: int, j: int|
            #![trigger set.runs@[i], set.runs@[j]]
            0 <= i < j < set.runs@.len() implies set.runs@[i].id@ != set.runs@[j].id@ by {
            assert(ids[i] != ids[j]);
        }
    }
    if (forall|i: int|
        0 <= i < set.runs@.len() ==> knobs::is_valid_id((#[trigger] set.runs@[i]).id@)) && (forall|
        i: int,
        j: int,
    |
        #![trigger set.runs@[i], set.runs@[j]]
        0 <= i < j < set.runs@.len() ==> set.runs@[i].id@ != set.runs@[j].id@) {
        assert forall|i: int| 0 <= i < ids.len() implies knobs::is_valid_id(#[trigger] ids[i]) by {
            assert(ids[i] == set.runs@[i].id@);
        }
        assert forall|i: int, j: int|
            #![trigger ids[i], ids[j]]
            0 <= i < j < ids.len() implies ids[i] != ids[j] by {
            assert(set.runs@[i].id@ != set.runs@[j].id@);
        }
    }
}

// ── Progress ─────────────────────────────────────────────────────────────

/// A finished program was refused exactly if its error is that a directory is not
/// empty. Otherwise it failed exactly if it reports an error, or was not translated,
/// or was not built.
pub proof fn programs_are_classed_by_what_they_report(stats: &ProgramEvalStats, r: ProgramState)
    requires
        call_ensures(classify, (stats,), r),
    ensures
        r == ProgramState::Infra <==> (stats.error_message matches Some(e) && text::contains_text(
            e@,
            "is not empty"@,
        )),
        r == ProgramState::Complete <==> stats.error_message is None && stats.translation_success
            && stats.rust_build_success,
        r == ProgramState::Infra || r == ProgramState::Complete || r == ProgramState::Failed,
{
}

/// Complete, failed and blocked programs are done; one that was only started or was
/// refused is not.
pub proof fn done_states(record: &ProgramRecord, r: bool)
    requires
        call_ensures(ProgramRecord::is_done, (record,), r),
    ensures
        (match record.state {
            ProgramState::Complete => r,
            ProgramState::Failed => r,
            ProgramState::Blocked => r,
            ProgramState::Started => !r,
            ProgramState::Infra => !r,
        }),
{
}

/// What is to be done about a program: nothing, if it is done; to block it, if it has
/// nothing to resume from; and otherwise to run it. It is cleared first exactly if that
/// is forced or an earlier attempt left something behind.
pub proof fn programs_are_run_until_done(
    run: &ResolvedRun,
    program: &str,
    prior: &Option<ProgramRecord>,
    has_snapshot: bool,
    force: bool,
    r: ProgramStep,
)
    requires
        call_ensures(program_step, (run, program, prior, has_snapshot, force), r),
    ensures
        ({
            let done = *prior matches Some(p) && (p.state == ProgramState::Complete || p.state
                == ProgramState::Failed || p.state == ProgramState::Blocked);
            &&& r is Skip <==> done
            &&& r is Block <==> !done && run.resumes && !has_snapshot
            &&& r is Run <==> !done && (!run.resumes || has_snapshot)
            &&& r matches ProgramStep::Block(rec) ==> rec.state == ProgramState::Blocked
                && rec.program@ == program@
            &&& r matches ProgramStep::Run { started, force: f } ==> {
                &&& started.state == ProgramState::Started
                &&& started.program@ == program@
                &&& f <==> force || *prior is Some
            }
        }),
{
}

proof fn listed_by_state(
    programs: Seq<Seq<char>>,
    states: Seq<Option<ProgramState>>,
    want: Option<ProgramState>,
    name: Seq<char>,
)
    requires
        states.len() >= programs.len(),
    ensures
        progress::programs_in(programs, states, want).contains(name) <==> exists|i: int|
            0 <= i < programs.len() && (#[trigger] programs[i]) == name && states[i] == want,
    decreases programs.len(),
{
    if programs.len() > 0 {
        let front = programs.drop_last();
        let n = programs.len() - 1;
        listed_by_state(front, states, want, name);
        let before = progress::programs_in(front, states, want);
        let all = progress::programs_in(programs, states, want);
        if states[n] == want {
            assert(all == before.push(programs.last()));
            if before.contains(name) {
                let i = choose|i: int| 0 <= i < before.len() && before[i] == name;
                assert(all[i] == name);
            }
            assert(all[before.len() as int] == programs[n]);
            if all.contains(name) {
                let i = choose|i: int| 0 <= i < all.len() && all[i] == name;
                if i < before.len() {
                    assert(before[i] == name);
                } else {
                    assert(programs[n] == name);
                }
            }
        }
        if exists|i: int|
            0 <= i < programs.len() && (#[trigger] programs[i]) == name && states[i] == want {
            let i = choose|i: int|
                0 <= i < programs.len() && (#[trigger] programs[i]) == name && states[i] == want;
            if i < n {
                assert(front[i] == name);
            }
        }
        if exists|i: int|
            0 <= i < front.len() && (#[trigger] front[i]) == name && states[i] == want {
            let i = choose|i: int|
                0 <= i < front.len() && (#[trigger] front[i]) == name && states[i] == want;
            assert(programs[i] == name);
        }
    }
}

/// Every program of a run is told of under the state that its record has, and as
/// missing if it has none.
pub proof fn programs_are_told_by_their_records(
    runs: &Vec<ResolvedRun>,
    records: &Vec<Vec<Option<ProgramRecord>>>,
    r: Vec<RunStatus>,
    k: int,
    i: int,
)
    requires
        records@.len() >= runs@.len(),
        forall|n: int|
            0 <= n < runs@.len() ==> (#[trigger] records@[n])@.len() >= runs@[n].programs@.len(),
        call_ensures(status, (runs, records), r),
        0 <= k < runs@.len(),
        0 <= i < runs@[k].programs@.len(),
    ensures
        r@.len() == runs@.len(),
        r@[k].id@ == runs@[k].id@,
        r@[k].total == runs@[k].programs@.len(),
        (match records@[k]@[i] {
            None => text::texts(r@[k].missing@).contains(runs@[k].programs@[i]@),
            Some(rec) => (match rec.state {
                ProgramState::Started => text::texts(r@[k].interrupted@).contains(
                    runs@[k].programs@[i]@,
                ),
                ProgramState::Infra => text::texts(r@[k].infra@).contains(runs@[k].programs@[i]@),
                ProgramState::Failed => text::texts(r@[k].failed@).contains(runs@[k].programs@[i]@),
                ProgramState::Blocked => text::texts(r@[k].blocked@).contains(
                    runs@[k].programs@[i]@,
                ),
                ProgramState::Complete => true,
            }),
        }),
{
    let st = r@[k];
    let programs = text::texts(runs@[k].programs@);
    let states = progress::states_of(records@[k]@);
    assert(records@[k]@.len() >= runs@[k].programs@.len());
    assert(progress::tells_status(st, runs@[k].id@, programs, states));
    let name = runs@[k].programs@[i]@;
    assert(programs[i] == name);
    assert(states[i] == (match records@[k]@[i] {
        Some(x) => Some(x.state),
        None => None,
    }));
    listed_by_state(programs, states, states[i], name);
}

/// No program is told of under a state that none of its records has.
pub proof fn nothing_else_is_told(
    runs: &Vec<ResolvedRun>,
    records: &Vec<Vec<Option<ProgramRecord>>>,
    r: Vec<RunStatus>,
    k: int,
    name: Seq<char>,
)
    requires
        records@.len() >= runs@.len(),
        forall|n: int|
            0 <= n < runs@.len() ==> (#[trigger] records@[n])@.len() >= runs@[n].programs@.len(),
        call_ensures(status, (runs, records), r),
        0 <= k < runs@.len(),
        text::texts(r@[k].failed@).contains(name) || text::texts(r@[k].missing@).contains(name)
            || text::texts(r@[k].infra@).contains(name) || text::texts(
            r@[k].interrupted@,
        ).contains(name) || text::texts(r@[k].blocked@).contains(name),
    ensures
        exists|i: int|
            0 <= i < runs@[k].programs@.len() && (#[trigger] runs@[k].programs@[i])@ == name && (
            match records@[k]@[i] {
                Some(rec) => rec.state != ProgramState::Complete,
                None => true,
            }),
{
    let st = r@[k];
    let programs = text::texts(runs@[k].programs@);
    let states = progress::states_of(records@[k]@);
    assert(records@[k]@.len() >= runs@[k].programs@.len());
    assert(progress::tells_status(st, runs@[k].id@, programs, states));
    listed_by_state(programs, states, Some(ProgramState::Failed), name);
    listed_by_state(programs, states, Some(ProgramState::Infra), name);
    listed_by_state(programs, states, Some(ProgramState::Started), name);
    listed_by_state(programs, states, Some(ProgramState::Blocked), name);
    listed_by_state(programs, states, None, name);
    let i = choose|i: int|
        0 <= i < programs.len() && (#[trigger] programs[i]) == name && states[i] != Some(
            ProgramState::Complete,
        );
    assert(runs@[k].programs@[i]@ == name);
}

proof fn selection(runs: Seq<ResolvedView>, only: Seq<Seq<char>>)
    ensures
        ({
            let v = progress::selected_of(runs, only);
            &&& forall|i: int| 0 <= i < v.len() ==> 0 <= #[trigger] v[i] < runs.len()
            &&& forall|i: int, j: int|
                #![trigger v[i], v[j]]
                0 <= i < j < v.len() ==> v[i] < v[j]
            &&& forall|n: int|
                0 <= n < runs.len() ==> (v.contains(n) <==> only.len() == 0 || only.contains(
                    (#[trigger] runs[n]).id,
                ))
        }),
    decreases runs.len(),
{
    if runs.len() > 0 {
        let front = runs.drop_last();
        selection(front, only);
        let w = progress::selected_of(front, only);
        let v = progress::selected_of(runs, only);
        let last = runs.len() - 1;
        assert forall|n: int| 0 <= n < runs.len() implies (v.contains(n) <==> only.len() == 0
            || only.contains((#[trigger] runs[n]).id)) by {
            if w.contains(n) {
                let i = choose|i: int| 0 <= i < w.len() && w[i] == n;
                assert(v[i] == n);
            }
            if v.contains(n) {
                let i = choose|i: int| 0 <= i < v.len() && v[i] == n;
                if i < w.len() {
                    assert(w[i] == n);
                    assert(w.contains(n));
                }
            }
            if n < last {
                assert(front[n] == runs[n]);
                assert(w.contains(n) <==> only.len() == 0 || only.contains(front[n].id));
            } else if progress::is_selected(runs.last().id, only) {
                assert(v[w.len() as int] == last);
            }
        }
    }
}

/// The runs that are executed are all of them, or those that are named, each once and
/// in the order in which they were declared.
pub proof fn named_runs_are_selected(
    runs: &Vec<ResolvedRun>,
    only: &Vec<String>,
    r: Result<Vec<usize>, String>,
)
    requires
        call_ensures(select_runs, (runs, only), r),
    ensures
        r matches Ok(v) ==> {
            &&& forall|i: int, j: int|
                #![trigger v@[i], v@[j]]
                0 <= i < j < v@.len() ==> v@[i] < v@[j]
            &&& forall|n: usize|
                n < runs@.len() ==> (#[trigger] v@.contains(n) <==> only@.len() == 0
                    || text::texts(only@).contains(runs@[n as int].id@))
        },
        r is Err ==> forall|n: int|
            0 <= n < runs@.len() ==> only@.len() > 0 && !text::texts(only@).contains(
                (#[trigger] runs@[n]).id@,
            ),
{
    let views = plan::run_views(runs@);
    let names = text::texts(only@);
    assert(names.len() == only@.len());
    assert(views.len() == runs@.len());
    selection(views, names);
    let p = progress::selected_of(views, names);
    assert forall|n: int| 0 <= n < runs@.len() implies views[n].id == (#[trigger] runs@[n]).id@ by {}
    match r {
        Ok(v) => {
            assert(progress::places(v@).len() == v@.len());
            assert forall|i: int| 0 <= i < v@.len() implies (#[trigger] v@[i]) == p[i] by {
                assert(progress::places(v@)[i] == v@[i]);
            }
            assert forall|n: usize| n < runs@.len() implies (#[trigger] v@.contains(n)
                <==> only@.len() == 0 || text::texts(only@).contains(runs@[n as int].id@)) by {
                let k = n as int;
                assert(p.contains(k) <==> names.len() == 0 || names.contains(views[k].id));
                if v@.contains(n) {
                    let i = choose|i: int| 0 <= i < v@.len() && v@[i] == n;
                    assert(p[i] == k);
                }
                if p.contains(k) {
                    let i = choose|i: int| 0 <= i < p.len() && p[i] == k;
                    assert(v@[i] == n);
                }
            }
        },
        Err(_) => {
            assert forall|n: int| 0 <= n < runs@.len() implies only@.len() > 0 && !text::texts(
                only@,
            ).contains((#[trigger] runs@[n]).id@) by {
                assert(p.contains(n) <==> names.len() == 0 || names.contains(views[n].id));
                assert(!p.contains(n));
            }
        },
    }
}

/// An experiment is complete exactly if every program of every run is done, and no run
/// is without programs.
pub proof fn experiments_are_complete_when_all_is_done(all: &Vec<RunStatus>, r: (Vec<String>, bool))
    requires
        call_ensures(print_status, (all,), r),
    ensures
        r.1 <==> forall|i: int|
            0 <= i < all@.len() ==> (#[trigger] all@[i]).done == all@[i].total && all@[i].total > 0,
        r.0@.len() == all@.len() + 1,
{
    assert(text::texts(r.0@).len() == r.0@.len());
    if r.1 {
        assert forall|i: int| 0 <= i < all@.len() implies (#[trigger] all@[i]).done == all@[i].total
            && all@[i].total > 0 by {
            assert(all@[i].all_done());
        }
    }
    if forall|i: int|
        0 <= i < all@.len() ==> (#[trigger] all@[i]).done == all@[i].total && all@[i].total > 0 {
        assert forall|i: int| 0 <= i < all@.len() implies (#[trigger] all@[i]).all_done() by {
            assert(all@[i].done == all@[i].total);
        }
    }
}

// ── What is shown ────────────────────────────────────────────────────────

/// A note about programs that are left, as the status tells it.
pub open spec fn outstanding(label: Seq<char>, programs: Seq<String>) -> Seq<char> {
    label + ": "@ + text::join_of(text::texts(programs), ","@)
}

proof fn notes_are_taken(st: RunStatus)
    ensures
        ({
            let notes = progress::notes_of(st);
            &&& st.interrupted@.len() > 0 ==> notes.contains(
                outstanding("interrupted"@, st.interrupted@),
            )
            &&& st.infra@.len() > 0 ==> notes.contains(outstanding("infra"@, st.infra@))
            &&& st.failed@.len() > 0 ==> notes.contains(outstanding("failed"@, st.failed@))
            &&& st.blocked@.len() > 0 ==> notes.contains(outstanding("blocked"@, st.blocked@))
            &&& st.missing@.len() > 0 ==> notes.contains(outstanding("missing"@, st.missing@))
            &&& st.interrupted@.len() == 0 && st.infra@.len() == 0 && st.failed@.len() == 0
                && st.blocked@.len() == 0 && st.missing@.len() == 0 ==> notes.len() == 0
        }),
{
    let notes = progress::notes_of(st);
    let a = progress::note_of("interrupted"@, text::texts(st.interrupted@));
    let b = progress::note_of("infra"@, text::texts(st.infra@));
    let c = progress::note_of("failed"@, text::texts(st.failed@));
    let d = progress::note_of("blocked"@, text::texts(st.blocked@));
    let e = progress::note_of("missing"@, text::texts(st.missing@));
    assert(notes == a + b + c + d + e);
    if a.len() > 0 {
        assert(notes[0] == a[0]);
    }
    if b.len() > 0 {
        assert(notes[a.len() as int] == b[0]);
    }
    if c.len() > 0 {
        assert(notes[(a + b).len() as int] == c[0]);
    }
    if d.len() > 0 {
        assert(notes[(a + b + c).len() as int] == d[0]);
    }
    if e.len() > 0 {
        assert(notes[(a + b + c + d).len() as int] == e[0]);
    }
}

/// The line on a run starts with its name, tells how many of its programs are done and
/// of how many, and names every program that is left, by what became of it.
pub proof fn outstanding_programs_are_named(st: &RunStatus, r: String)
    requires
        call_ensures(progress::status_line, (st,), r),
    ensures
        text::has_prefix(r@, st.id@),
        text::contains_text(
            r@,
            text::decimal_of(st.done as nat) + "/"@ + text::decimal_of(st.total as nat),
        ),
        st.interrupted@.len() > 0 ==> text::contains_text(
            r@,
            outstanding("interrupted"@, st.interrupted@),
        ),
        st.infra@.len() > 0 ==> text::contains_text(r@, outstanding("infra"@, st.infra@)),
        st.failed@.len() > 0 ==> text::contains_text(r@, outstanding("failed"@, st.failed@)),
        st.blocked@.len() > 0 ==> text::contains_text(r@, outstanding("blocked"@, st.blocked@)),
        st.missing@.len() > 0 ==> text::contains_text(r@, outstanding("missing"@, st.missing@)),
        st.interrupted@.len() == 0 && st.infra@.len() == 0 && st.failed@.len() == 0
            && st.blocked@.len() == 0 && st.missing@.len() == 0 ==> r@.last() == '-',
{
    let notes = progress::notes_of(*st);
    let done = text::decimal_of(st.done as nat);
    let total = text::decimal_of(st.total as nat);
    let count = done + "/"@ + total;
    let before = text::padded_right(st.id@, 34) + " "@ + text::blanks(4 - done.len());
    let after = text::blanks(4 - total.len()) + "  "@;
    let tail = if notes.len() == 0 {
        "-"@
    } else {
        text::join_of(notes, "  "@)
    };
    assert(r@ =~= before + count + (after + tail));
    text::part_is_held(before, count, after + tail);
    assert(r@.subrange(0, st.id@.len() as int) =~= st.id@);
    assert(text::has_prefix(r@, st.id@));
    notes_are_taken(*st);
    assert forall|note: Seq<char>| notes.contains(note) implies text::contains_text(r@, note) by {
        let i = choose|i: int| 0 <= i < notes.len() && notes[i] == note;
        text::joined_parts_are_held(notes, "  "@, i);
        text::held_in_more(before + count + after, tail, seq![], note);
        assert(before + count + after + tail =~= r@);
    }
    if notes.len() == 0 {
        reveal_strlit("-");
        assert(r@.last() == tail.last());
    }
}

/// What is shown of a run is what it reads, writes and is called with, and the run it
/// continues where it continues one.
pub proof fn planned_runs_are_shown(run: &ResolvedRun, r: Vec<String>)
    requires
        call_ensures(progress::run_lines, (run,), r),
    ensures
        ({
            let lines = text::texts(r@);
            &&& lines[0] == "["@ + run.id@ + "]"@
            &&& lines.contains(
                "  programs : "@ + text::join_of(text::texts(run.programs@), ", "@),
            )
            &&& lines.contains("  input    : "@ + run.input_root@)
            &&& lines.contains("  output   : "@ + run.output_root@)
            &&& lines.contains("  argv     : "@ + text::join_of(text::texts(run.argv@), " "@))
            &&& run.from is Some ==> lines.contains("  from     : "@ + run.from->0@)
            &&& lines.len() == 6 + (if run.from is Some {
                1int
            } else {
                0
            }) + (if run.labels.pairs().len() > 0 {
                1int
            } else {
                0
            })
        }),
{
    let lines = text::texts(r@);
    let k: int = if run.from is Some {
        1
    } else {
        0
    };
    assert(lines[1] == "  programs : "@ + text::join_of(text::texts(run.programs@), ", "@));
    assert(lines[2 + k] == "  input    : "@ + run.input_root@);
    assert(lines[3 + k] == "  output   : "@ + run.output_root@);
    assert(lines[4 + k] == "  argv     : "@ + text::join_of(text::texts(run.argv@), " "@));
    if run.from is Some {
        assert(lines[2] == "  from     : "@ + run.from->0@);
    }
}

// ── What a refusal says ──────────────────────────────────────────────────

proof fn missing_are_listed(programs: Seq<Seq<char>>, present: Seq<bool>, i: int)
    requires
        0 <= i < programs.len() <= present.len(),
        !present[i],
    ensures
        plan::missing_of(programs, present).contains(programs[i]),
    decreases programs.len(),
{
    let front = programs.drop_last();
    let before = plan::missing_of(front, present);
    let all = plan::missing_of(programs, present);
    if i == front.len() {
        assert(all == before.push(programs.last()));
        assert(all[before.len() as int] == programs[i]);
    } else {
        missing_are_listed(front, present, i);
        assert(front[i] == programs[i]);
        let n = choose|n: int| 0 <= n < before.len() && before[n] == programs[i];
        assert(all[n] == programs[i]);
    }
}

/// A refusal names the run. It gives the parser's own words and the arguments where
/// those do not parse; what is wrong with the stages where that is it; and, where
/// programs are not there, each of them and the place they were looked for in.
pub proof fn refusals_say_what_is_wrong(
    roots: &Roots,
    defaults: &Knobs,
    s: &RunSpec,
    run: &ResolvedRun,
    parsed: &Result<Args, String>,
    present: &Vec<bool>,
    claude: &str,
    r: Result<(), String>,
    stages: &Vec<Stage>,
    v: Result<(), String>,
    i: int,
)
    requires
        present@.len() >= run.programs@.len(),
        call_ensures(accept_run, (roots, defaults, s, run, parsed, present, claude), r),
        *parsed matches Ok(args) ==> stages@ == config::ordered(args.given_stages())
            && call_ensures(Args::validate_stages, (&args, stages), v),
    ensures
        r matches Err(e) ==> text::has_prefix(e@, "run "@ + text::debug_of(s.id@)),
        *parsed matches Err(p) ==> {
            &&& r is Err
            &&& text::contains_text(r->Err_0@, p@)
            &&& text::contains_text(r->Err_0@, text::join_of(text::texts(run.argv@), " "@))
        },
        *parsed is Ok && v is Err ==> r is Err && text::contains_text(r->Err_0@, v->Err_0@),
        ({
            let k = knobs::merged(defaults.view(), s.knobs.view());
            *parsed is Ok && v is Ok && plan::contradiction(s.id@, k, claude@) is None && s.from is None
                && 0 <= i < run.programs@.len() && !present@[i] ==> {
                &&& r is Err
                &&& text::contains_text(r->Err_0@, run.programs@[i]@)
                &&& text::contains_text(r->Err_0@, roots.bench_root@)
            }
        }),
{
    let line = text::join_of(text::texts(run.argv@), " "@);
    let start = "run "@ + text::debug_of(s.id@);
    let k = knobs::merged(defaults.view(), s.knobs.view());
    if r is Err {
        let e = r->Err_0@;
        assert(e.len() >= start.len() && e.subrange(0, start.len() as int) =~= start);
        assert(text::has_prefix(e, start));
    }
    match *parsed {
        Err(p) => {
            let e = r->Err_0@;
            let head = start + " does not lower to a valid invocation:\n  "@;
            text::part_is_held(head, line, "\n"@ + p@);
            assert(head + line + ("\n"@ + p@) =~= e);
            text::part_is_held(head + line + "\n"@, p@, seq![]);
            assert(head + line + "\n"@ + p@ + seq![] =~= e);
        },
        Ok(args) => {
            if v is Err {
                let e = r->Err_0@;
                text::part_is_held(start + ": "@, v->Err_0@, "\n  "@ + line);
                assert(start + ": "@ + v->Err_0@ + ("\n  "@ + line) =~= e);
            } else if plan::contradiction(s.id@, k, claude@) is None && s.from is None && 0 <= i
                < run.programs@.len() && !present@[i] {
                let names = text::texts(run.programs@);
                assert(names[i] == run.programs@[i]@);
                missing_are_listed(names, present@, i);
                let missing = plan::missing_of(names, present@);
                let n = choose|n: int| 0 <= n < missing.len() && missing[n] == names[i];
                let all = text::join_of(missing, ", "@);
                text::joined_parts_are_held(missing, ", "@, n);
                let e = r->Err_0@;
                let head = start + ": programs not found under "@;
                text::part_is_held(head, roots.bench_root@, ": "@ + all);
                assert(head + roots.bench_root@ + (": "@ + all) =~= e);
                text::held_in_more(head + roots.bench_root@ + ": "@, all, seq![], names[i]);
                assert(head + roots.bench_root@ + ": "@ + all =~= e);
            }
        },
    }
}

/// Arguments that do not fit the stages are refused by name, first of all those that
/// need verification.
pub proof fn misplaced_arguments_are_named(args: &Args, stages: &Vec<Stage>, r: Result<(), String>)
    requires
        call_ensures(Args::validate_stages, (args, stages), r),
        args.agentic is Some ==> stages@.len() > 0,
        stages@.contains(Stage::Conform) ==> stages@.len() == 1,
    ensures
        ({
            let verify = stages@.contains(Stage::Verify);
            let planned = stages@.contains(Stage::Translate) || verify;
            let fitting = (args.fuzz || args.verify_harness is Some) ==> verify;
            &&& args.fuzz && !verify ==> r is Err && text::has_prefix(r->Err_0@, "--fuzz "@)
            &&& !args.fuzz && args.verify_harness is Some && !verify ==> r is Err
                && text::has_prefix(r->Err_0@, "--verify-harness "@)
            &&& fitting && args.no_plan && !planned ==> r is Err && text::has_prefix(
                r->Err_0@,
                "--no-plan "@,
            )
            &&& fitting && !args.no_plan && args.no_plan_file && !planned ==> r is Err
                && text::has_prefix(r->Err_0@, "--no-plan-file "@)
            &&& fitting && !args.no_plan && !args.no_plan_file && args.workflow && !planned
                ==> r is Err && text::has_prefix(r->Err_0@, "--workflow "@)
        }),
{
    reveal_strlit("--fuzz");
    reveal_strlit("--fuzz ");
    reveal_strlit("--verify-harness");
    reveal_strlit("--verify-harness ");
    reveal_strlit("--no-plan");
    reveal_strlit("--no-plan ");
    reveal_strlit("--no-plan-file");
    reveal_strlit("--no-plan-file ");
    reveal_strlit("--workflow");
    reveal_strlit("--workflow ");
    reveal_strlit(" requires the ");
    assert("--fuzz "@ =~= "--fuzz"@ + seq![' ']);
    flags_come_first("--fuzz"@, "verify"@, stages@, "--fuzz "@);
    assert("--verify-harness "@ =~= "--verify-harness"@ + seq![' ']);
    flags_come_first("--verify-harness"@, "verify"@, stages@, "--verify-harness "@);
    assert("--no-plan "@ =~= "--no-plan"@ + seq![' ']);
    flags_come_first("--no-plan"@, "translate or verify"@, stages@, "--no-plan "@);
    assert("--no-plan-file "@ =~= "--no-plan-file"@ + seq![' ']);
    flags_come_first("--no-plan-file"@, "translate or verify"@, stages@, "--no-plan-file "@);
    assert("--workflow "@ =~= "--workflow"@ + seq![' ']);
    flags_come_first("--workflow"@, "translate or verify"@, stages@, "--workflow "@);
}

proof fn flags_come_first(flag: Seq<char>, what: Seq<char>, stages: Seq<Stage>, start: Seq<char>)
    requires
        start == flag + seq![' '],
    ensures
        text::has_prefix(cli::needs_stage(flag, what, stages), start),
{
    reveal_strlit(" requires the ");
    let s = cli::needs_stage(flag, what, stages);
    assert(s.subrange(0, start.len() as int) =~= start);
}

} // verus!
