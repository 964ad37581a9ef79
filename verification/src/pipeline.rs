//! The schedule of a transpilation: which tools run, and on what.

use crate::config::{Config, Stage};
use crate::config;
use crate::text;
use crate::tools::load_test_suite;
use vstd::prelude::*;
use vstd::string::*;

verus! {

/// A tool of the pipeline.
#[derive(Debug)]
pub enum PipelineTool {
    LoadRawSource(String),
    LoadTestSuite,
    BuildProjectSpec,
    ParseToAst,
    TranslateAgentic,
    LoadTranslatedPackage(String),
    VerifyFixAgentic,
    ConformAgentic,
    ModularTranslationLlm,
    RawSourceToCargoLlm,
    TryCargoBuild,
}

pub enum ToolView {
    LoadRawSource(Seq<char>),
    LoadTestSuite,
    BuildProjectSpec,
    ParseToAst,
    TranslateAgentic,
    LoadTranslatedPackage(Seq<char>),
    VerifyFixAgentic,
    ConformAgentic,
    ModularTranslationLlm,
    RawSourceToCargoLlm,
    TryCargoBuild,
}

impl PipelineTool {
    pub open spec fn view(&self) -> ToolView {
        match *self {
            PipelineTool::LoadRawSource(p) => ToolView::LoadRawSource(p@),
            PipelineTool::LoadTestSuite => ToolView::LoadTestSuite,
            PipelineTool::BuildProjectSpec => ToolView::BuildProjectSpec,
            PipelineTool::ParseToAst => ToolView::ParseToAst,
            PipelineTool::TranslateAgentic => ToolView::TranslateAgentic,
            PipelineTool::LoadTranslatedPackage(p) => ToolView::LoadTranslatedPackage(p@),
            PipelineTool::VerifyFixAgentic => ToolView::VerifyFixAgentic,
            PipelineTool::ConformAgentic => ToolView::ConformAgentic,
            PipelineTool::ModularTranslationLlm => ToolView::ModularTranslationLlm,
            PipelineTool::RawSourceToCargoLlm => ToolView::RawSourceToCargoLlm,
            PipelineTool::TryCargoBuild => ToolView::TryCargoBuild,
        }
    }
}

/// A scheduled tool, with the places of the tasks whose results it takes.
#[derive(Debug)]
pub struct Task {
    pub tool: PipelineTool,
    pub inputs: Vec<usize>,
}

pub struct TaskView {
    pub tool: ToolView,
    pub inputs: Seq<usize>,
}

impl Task {
    pub open spec fn view(&self) -> TaskView {
        TaskView { tool: self.tool.view(), inputs: self.inputs@ }
    }
}

pub open spec fn task_views(v: Seq<Task>) -> Seq<TaskView> {
    v.map_values(|t: Task| t.view())
}

pub broadcast proof fn task_views_push(v: Seq<Task>, t: Task)
    ensures
        #[trigger] task_views(v.push(t)) == task_views(v).push(t.view()),
{
    assert(task_views(v.push(t)) =~= task_views(v).push(t.view()));
}

pub open spec fn task(tool: ToolView, inputs: Seq<usize>) -> TaskView {
    TaskView { tool, inputs }
}

/// Whether a suite is scheduled for loading.
pub open spec fn loads_suite(config: Config, suite_found: bool) -> bool {
    load_test_suite::input_path_of(config) is Some && suite_found
}

pub open spec fn loaders(config: Config, suite_found: bool) -> Seq<TaskView> {
    seq![task(ToolView::LoadRawSource(config.input@), seq![])] + if loads_suite(
        config,
        suite_found,
    ) {
        seq![task(ToolView::LoadTestSuite, seq![])]
    } else {
        seq![]
    }
}

/// Up to the first package: it comes from the translate stage where that runs,
/// otherwise from a previous run's snapshot.
pub open spec fn first_package(config: Config, ts: Seq<TaskView>) -> Result<
    Seq<TaskView>,
    Seq<char>,
> {
    if config.stages@.contains(Stage::Translate) {
        Ok(
            ts.push(task(ToolView::BuildProjectSpec, seq![0])).push(
                task(ToolView::TranslateAgentic, seq![0, ts.len() as usize]),
            ),
        )
    } else {
        match config.stage_input {
            Some(p) => Ok(ts.push(task(ToolView::LoadTranslatedPackage(p@), seq![]))),
            None => Err(
                "stages without `translate` require stage_input (a previous run's output directory)"@,
            ),
        }
    }
}

pub open spec fn last_place(ts: Seq<TaskView>) -> usize {
    (ts.len() - 1) as usize
}

pub open spec fn with_verify(config: Config, ts: Seq<TaskView>) -> Seq<TaskView> {
    if config.stages@.contains(Stage::Verify) {
        ts.push(task(ToolView::VerifyFixAgentic, seq![last_place(ts), 0]))
    } else {
        ts
    }
}

/// The conform stage is the one that is given the suite.
pub open spec fn with_conform(config: Config, suite_found: bool, ts: Seq<TaskView>) -> Result<
    Seq<TaskView>,
    Seq<char>,
> {
    if config.stages@.contains(Stage::Conform) {
        if loads_suite(config, suite_found) {
            Ok(ts.push(task(ToolView::ConformAgentic, seq![last_place(ts), 0, 1])))
        } else {
            Err(
                "the conform stage needs an external test suite, but none was found at tools.load_test_suite.input_path"@,
            )
        }
    } else {
        Ok(ts)
    }
}

/// The tasks up to the final package.
pub open spec fn translation_of(config: Config, suite_found: bool) -> Result<
    Seq<TaskView>,
    Seq<char>,
> {
    let ts = loaders(config, suite_found);
    let spec_place = ts.len() as usize;
    if config.stages@.len() > 0 {
        match first_package(config, ts) {
            Err(e) => Err(e),
            Ok(t) => with_conform(config, suite_found, with_verify(config, t)),
        }
    } else if config.modular {
        Ok(
            ts.push(task(ToolView::BuildProjectSpec, seq![0])).push(
                task(ToolView::ParseToAst, seq![0]),
            ).push(
                task(
                    ToolView::ModularTranslationLlm,
                    seq![0, (spec_place + 1) as usize, spec_place],
                ),
            ),
        )
    } else {
        Ok(
            ts.push(task(ToolView::BuildProjectSpec, seq![0])).push(
                task(ToolView::RawSourceToCargoLlm, seq![0, spec_place]),
            ),
        )
    }
}

/// The whole schedule: the translation, then a build of its result.
pub open spec fn schedule_of(config: Config, suite_found: bool) -> Result<
    Seq<TaskView>,
    Seq<char>,
> {
    match translation_of(config, suite_found) {
        Err(e) => Err(e),
        Ok(ts) => Ok(ts.push(task(ToolView::TryCargoBuild, seq![last_place(ts)]))),
    }
}

fn queue(tasks: &mut Vec<Task>, tool: PipelineTool, inputs: Vec<usize>)
    requires
        old(tasks)@.len() < 16,
    ensures
        task_views(final(tasks)@) == task_views(old(tasks)@).push(task(tool.view(), inputs@)),
        final(tasks)@.len() == old(tasks)@.len() + 1,
{
    broadcast use task_views_push;

    tasks.push(Task { tool, inputs });
}

fn none() -> (r: Vec<usize>)
    ensures
        r@ == Seq::<usize>::empty(),
{
    Vec::new()
}

fn one(a: usize) -> (r: Vec<usize>)
    ensures
        r@ == seq![a],
{
    let r = vec![a];
    assert(r@ =~= seq![a]);
    r
}

fn two(a: usize, b: usize) -> (r: Vec<usize>)
    ensures
        r@ == seq![a, b],
{
    let r = vec![a, b];
    assert(r@ =~= seq![a, b]);
    r
}

fn three(a: usize, b: usize, c: usize) -> (r: Vec<usize>)
    ensures
        r@ == seq![a, b, c],
{
    let r = vec![a, b, c];
    assert(r@ =~= seq![a, b, c]);
    r
}

fn error<T>(message: &str) -> (r: Result<T, String>)
    ensures
        r matches Err(e) && e@ == message@,
{
    Err(message.to_owned())
}

fn queue_agentic(config: &Config, has_suite: bool, tasks: &mut Vec<Task>) -> (r: Result<(), String>)
    requires
        1 <= old(tasks)@.len() <= 2,
        has_suite ==> old(tasks)@.len() == 2,
    ensures
        (match r {
            Ok(_) => {
                &&& first_package(*config, task_views(old(tasks)@)) is Ok
                &&& config.stages@.contains(Stage::Conform) ==> has_suite
                &&& task_views(final(tasks)@) == ({
                    let t = with_verify(
                        *config,
                        first_package(*config, task_views(old(tasks)@))->Ok_0,
                    );
                    if config.stages@.contains(Stage::Conform) {
                        t.push(task(ToolView::ConformAgentic, seq![last_place(t), 0, 1]))
                    } else {
                        t
                    }
                })
                &&& final(tasks)@.len() < 8
            },
            Err(e) => (match first_package(*config, task_views(old(tasks)@)) {
                Err(m) => e@ == m,
                Ok(_) => config.stages@.contains(Stage::Conform) && !has_suite && e@
                    == "the conform stage needs an external test suite, but none was found at tools.load_test_suite.input_path"@,
            }),
        }),
{
    let n: usize = tasks.len();
    if config::has_stage(&config.stages, Stage::Translate) {
        queue(tasks, PipelineTool::BuildProjectSpec, one(0));
        queue(tasks, PipelineTool::TranslateAgentic, two(0, n));
    } else {
        match &config.stage_input {
            Some(p) => {
                queue(tasks, PipelineTool::LoadTranslatedPackage(p.clone()), none());
            },
            None => {
                return error(
                    "stages without `translate` require stage_input (a previous run's output directory)",
                );
            },
        }
    }
    assert(task_views(tasks@) =~= first_package(*config, task_views(old(tasks)@))->Ok_0);
    if config::has_stage(&config.stages, Stage::Verify) {
        let package = tasks.len() - 1;
        queue(tasks, PipelineTool::VerifyFixAgentic, two(package, 0));
    }
    assert(task_views(tasks@) =~= with_verify(
        *config,
        first_package(*config, task_views(old(tasks)@))->Ok_0,
    ));
    if config::has_stage(&config.stages, Stage::Conform) {
        if !has_suite {
            return error(
                "the conform stage needs an external test suite, but none was found at tools.load_test_suite.input_path",
            );
        }
        let package = tasks.len() - 1;
        queue(tasks, PipelineTool::ConformAgentic, three(package, 0, 1));
    }
    Ok(())
}

/// Schedules a transpilation. The C source is always loaded: it is what is
/// translated, and the ground truth of the verification. The external test suite
/// is loaded for every run that has one, so that the run can write it back out;
/// only the conform stage is given it, which is what holds it out of the other
/// stages. `suite_found` tells whether the configured directory carries a suite.
pub fn schedule(config: &Config, suite_found: bool) -> (r: Result<Vec<Task>, String>)
    ensures
        (match r {
            Ok(v) => schedule_of(*config, suite_found) == Ok::<Seq<TaskView>, Seq<char>>(
                task_views(v@),
            ),
            Err(e) => schedule_of(*config, suite_found) == Err::<Seq<TaskView>, Seq<char>>(e@),
        }),
{
    let mut tasks: Vec<Task> = Vec::new();
    assert(task_views(tasks@) =~= seq![]);
    queue(&mut tasks, PipelineTool::LoadRawSource(config.input.clone()), none());
    let has_suite = load_test_suite::configured_input_path(config).is_some() && suite_found;
    if has_suite {
        queue(&mut tasks, PipelineTool::LoadTestSuite, none());
    }
    assert(task_views(tasks@) =~= loaders(*config, suite_found));
    let n: usize = tasks.len();
    if config.stages.len() > 0 {
        match queue_agentic(config, has_suite, &mut tasks) {
            Err(e) => {
                return Err(e);
            },
            Ok(_) => {},
        }
    } else if config.modular {
        queue(&mut tasks, PipelineTool::BuildProjectSpec, one(0));
        queue(&mut tasks, PipelineTool::ParseToAst, one(0));
        queue(&mut tasks, PipelineTool::ModularTranslationLlm, three(0, n + 1, n));
    } else {
        queue(&mut tasks, PipelineTool::BuildProjectSpec, one(0));
        queue(&mut tasks, PipelineTool::RawSourceToCargoLlm, two(0, n));
    }
    let last = tasks.len() - 1;
    queue(&mut tasks, PipelineTool::TryCargoBuild, one(last));
    Ok(tasks)
}

/// Every task takes results of earlier tasks only.
pub proof fn inputs_come_first(config: Config, suite_found: bool)
    ensures
        schedule_of(config, suite_found) matches Ok(ts) ==> forall|i: int, k: int|
            #![trigger ts[i].inputs[k]]
            0 <= i < ts.len() && 0 <= k < ts[i].inputs.len() ==> ts[i].inputs[k] < i,
{
}

/// The suite is held out from every stage but conform: no other task takes the
/// result of the task that loads it.
pub proof fn only_conform_sees_the_suite(config: Config, suite_found: bool)
    ensures
        schedule_of(config, suite_found) matches Ok(ts) ==> forall|i: int, k: int|
            #![trigger ts[i].inputs[k]]
            0 <= i < ts.len() && 0 <= k < ts[i].inputs.len() && ts[ts[i].inputs[k] as int].tool
                == ToolView::LoadTestSuite ==> ts[i].tool == ToolView::ConformAgentic,
{
}

/// A schedule ends with the one build of the final package.
pub proof fn ends_with_a_build(config: Config, suite_found: bool)
    ensures
        schedule_of(config, suite_found) matches Ok(ts) ==> {
            &&& ts.len() >= 2
            &&& ts.last() == task(ToolView::TryCargoBuild, seq![(ts.len() - 2) as usize])
            &&& forall|i: int|
                0 <= i < ts.len() - 1 ==> (#[trigger] ts[i]).tool != ToolView::TryCargoBuild
        },
{
}

/// Whether a task makes a package.
pub open spec fn makes_package(t: Task) -> bool {
    ||| t.tool is TranslateAgentic
    ||| t.tool is LoadTranslatedPackage
    ||| t.tool is VerifyFixAgentic
    ||| t.tool is ConformAgentic
    ||| t.tool is ModularTranslationLlm
    ||| t.tool is RawSourceToCargoLlm
}

/// Every stage of an agentic run is scheduled, once, and no other one is: there is a
/// task of the translate, verify or conform agent exactly if the configuration has
/// that stage, whatever other stages it has. A run without stages schedules none.
pub proof fn stages_are_scheduled(
    config: &Config,
    suite_found: bool,
    r: Result<Vec<Task>, String>,
)
    requires
        call_ensures(schedule, (config, suite_found), r),
    ensures
        r matches Ok(v) ==> {
            &&& (exists|i: int| 0 <= i < v@.len() && (#[trigger] v@[i]).tool is TranslateAgentic)
                <==> config.stages@.contains(Stage::Translate)
            &&& (exists|i: int| 0 <= i < v@.len() && (#[trigger] v@[i]).tool is VerifyFixAgentic)
                <==> config.stages@.contains(Stage::Verify)
            &&& (exists|i: int| 0 <= i < v@.len() && (#[trigger] v@[i]).tool is ConformAgentic)
                <==> config.stages@.contains(Stage::Conform)
            &&& forall|i: int, j: int|
                #![trigger v@[i], v@[j]]
                0 <= i < j < v@.len() ==> {
                    &&& !(v@[i].tool is TranslateAgentic && v@[j].tool is TranslateAgentic)
                    &&& !(v@[i].tool is VerifyFixAgentic && v@[j].tool is VerifyFixAgentic)
                    &&& !(v@[i].tool is ConformAgentic && v@[j].tool is ConformAgentic)
                }
        },
{
    if let Ok(v) = r {
        let ts = schedule_of(*config, suite_found)->Ok_0;
        assert(task_views(v@).len() == v@.len());
        assert forall|i: int| 0 <= i < v@.len() implies (#[trigger] v@[i]).view() == ts[i] by {
            assert(task_views(v@)[i] == v@[i].view());
        }
        let n = loaders(*config, suite_found).len() as int;
        if config.stages@.len() > 0 {
            let t = first_package(*config, loaders(*config, suite_found))->Ok_0;
            let w = with_verify(*config, t);
            if config.stages@.contains(Stage::Translate) {
                assert(ts[n + 1] == t[n + 1]);
                assert(v@[n + 1].view() == ts[n + 1]);
                assert(v@[n + 1].tool is TranslateAgentic);
            }
            let verifies = config.stages@.contains(Stage::Verify);
            if verifies {
                let k = t.len() as int;
                assert(ts[k] == w[k]);
                assert(v@[k].view() == ts[k]);
                assert(v@[k].tool is VerifyFixAgentic);
            }
            if config.stages@.contains(Stage::Conform) {
                let k = w.len() as int;
                assert(v@[k].view() == ts[k]);
                assert(v@[k].tool is ConformAgentic);
            }
        } else {
            assert(!config.stages@.contains(Stage::Translate));
            assert(!config.stages@.contains(Stage::Verify));
            assert(!config.stages@.contains(Stage::Conform));
        }
    }
}

/// Every stage works on the newest package, and on the C source as it was loaded:
/// the task before it makes the package, the first task loads the source. Conform is
/// given the suite besides. What is built at the end is what the last of them made.
pub proof fn stages_work_on_the_newest_package(
    config: &Config,
    suite_found: bool,
    r: Result<Vec<Task>, String>,
    i: int,
)
    requires
        call_ensures(schedule, (config, suite_found), r),
        r is Ok,
        0 <= i < r->Ok_0@.len(),
    ensures
        ({
            let v = r->Ok_0@;
            &&& v[0].tool matches PipelineTool::LoadRawSource(p) && p@ == config.input@
            &&& v[i].tool is LoadRawSource ==> i == 0
            &&& v[i].tool is TranslateAgentic ==> {
                &&& v[i].inputs@ == seq![0usize, (i - 1) as usize]
                &&& v[i - 1].tool is BuildProjectSpec
            }
            &&& v[i].tool is VerifyFixAgentic ==> {
                &&& v[i].inputs@ == seq![(i - 1) as usize, 0usize]
                &&& makes_package(v[i - 1])
            }
            &&& v[i].tool is ConformAgentic ==> {
                &&& v[i].inputs@.len() == 3
                &&& v[i].inputs@[0] == i - 1
                &&& v[i].inputs@[1] == 0
                &&& v[v[i].inputs@[2] as int].tool is LoadTestSuite
                &&& makes_package(v[i - 1])
            }
            &&& v[i].tool is TryCargoBuild ==> {
                &&& i == v.len() - 1
                &&& v[i].inputs@ == seq![(i - 1) as usize]
                &&& makes_package(v[i - 1])
            }
            &&& i == v.len() - 1 ==> v[i].tool is TryCargoBuild
            &&& v[i].tool is BuildProjectSpec || v[i].tool is ParseToAst ==> v[i].inputs@ == seq![
                0usize,
            ]
        }),
{
    let v = r->Ok_0@;
    let ts = schedule_of(*config, suite_found)->Ok_0;
    assert(task_views(v).len() == v.len());
    assert forall|k: int| 0 <= k < v.len() implies (#[trigger] v[k]).view() == ts[k] by {
        assert(task_views(v)[k] == v[k].view());
    }
    assert(v[0].view() == ts[0]);
    assert(v[i].view() == ts[i]);
    let base = loaders(*config, suite_found);
    let n = base.len() as int;
    assert(base[0] == task(ToolView::LoadRawSource(config.input@), seq![]));
    assert(n == 2 ==> base[1] == task(ToolView::LoadTestSuite, seq![]));
    assert(forall|k: int| 0 <= k < n ==> #[trigger] ts[k] == base[k]);
    if i >= n {
        assert(v[i - 1].view() == ts[i - 1]);
        assert(n == 2 ==> v[1].view() == base[1]);
        if config.stages@.len() > 0 {
            let t = first_package(*config, base)->Ok_0;
            let m = t.len() as int;
            let w = with_verify(*config, t);
            assert(ts[m - 1] == t[m - 1]);
            if i < m {
                assert(ts[i] == t[i]);
            } else if i < w.len() {
                assert(ts[i] == w[i]);
                assert(i == m);
                assert(makes_package(v[i - 1]));
            } else if i < ts.len() - 1 {
                assert(i == w.len());
                assert(ts[i - 1] == w[i - 1]);
                assert(makes_package(v[i - 1]));
                assert(v[i].tool is ConformAgentic);
            } else {
                assert(w.len() <= i);
                if i == w.len() {
                    assert(ts[i - 1] == w[i - 1]);
                }
                assert(makes_package(v[i - 1]));
            }
        }
    }
}

/// A run that does not translate starts from the package of a previous run, and only
/// such a run does.
pub proof fn resumed_runs_start_from_the_snapshot(
    config: &Config,
    suite_found: bool,
    r: Result<Vec<Task>, String>,
)
    requires
        call_ensures(schedule, (config, suite_found), r),
    ensures
        r matches Ok(v) ==> {
            &&& (exists|i: int|
                0 <= i < v@.len() && (#[trigger] v@[i]).tool is LoadTranslatedPackage)
                <==> config.stages@.len() > 0 && !config.stages@.contains(Stage::Translate)
            &&& forall|i: int|
                0 <= i < v@.len() && (#[trigger] v@[i]).tool is LoadTranslatedPackage ==> {
                    &&& config.stage_input is Some
                    &&& v@[i].tool->LoadTranslatedPackage_0@ == config.stage_input->0@
                }
        },
{
    if let Ok(v) = r {
        let ts = schedule_of(*config, suite_found)->Ok_0;
        let n = loaders(*config, suite_found).len() as int;
        assert(task_views(v@).len() == v@.len());
        assert forall|i: int| 0 <= i < v@.len() implies (#[trigger] v@[i]).view() == ts[i] by {
            assert(task_views(v@)[i] == v@[i].view());
        }
        if config.stages@.len() > 0 && !config.stages@.contains(Stage::Translate) {
            let t = first_package(*config, loaders(*config, suite_found))->Ok_0;
            assert(t[n].tool is LoadTranslatedPackage);
            assert(ts[n] == t[n]);
            assert(v@[n].view() == ts[n]);
            assert(v@[n].tool is LoadTranslatedPackage);
        }
    }
}

/// A run without stages translates in one go: module by module where the
/// configuration says so, and all at once otherwise. Either translator is given the
/// C source and the kind of the project, and the modular one the syntax tree.
pub proof fn runs_without_stages_translate_once(
    config: &Config,
    suite_found: bool,
    r: Result<Vec<Task>, String>,
)
    requires
        call_ensures(schedule, (config, suite_found), r),
        config.stages@.len() == 0,
    ensures
        r matches Ok(v) && v@.len() >= 4 && ({
            let t = v@[v@.len() - 2];
            &&& t.tool is ModularTranslationLlm <==> config.modular
            &&& t.tool is RawSourceToCargoLlm <==> !config.modular
            &&& t.inputs@[0] == 0
            &&& config.modular ==> {
                &&& t.inputs@.len() == 3
                &&& v@[t.inputs@[1] as int].tool is ParseToAst
                &&& v@[t.inputs@[2] as int].tool is BuildProjectSpec
            }
            &&& !config.modular ==> {
                &&& t.inputs@.len() == 2
                &&& v@[t.inputs@[1] as int].tool is BuildProjectSpec
            }
        }),
{
    let v = r->Ok_0@;
    let ts = schedule_of(*config, suite_found)->Ok_0;
    let n = loaders(*config, suite_found).len() as int;
    assert(task_views(v).len() == v.len());
    assert forall|i: int| 0 <= i < v.len() implies (#[trigger] v[i]).view() == ts[i] by {
        assert(task_views(v)[i] == v[i].view());
    }
    assert(v[v.len() - 2].view() == ts[ts.len() - 2]);
    assert(v[n].view() == ts[n]);
    if config.modular {
        assert(v[n + 1].view() == ts[n + 1]);
    }
}

/// A suite is loaded exactly if one is configured and found. Nothing is scheduled
/// exactly if the conform stage has no suite, or if a run that does not translate has
/// no package to start from.
pub proof fn schedules_need_their_inputs(
    config: &Config,
    suite_found: bool,
    r: Result<Vec<Task>, String>,
)
    requires
        call_ensures(schedule, (config, suite_found), r),
    ensures
        ({
            let has_suite = load_test_suite::input_path_of(*config) is Some && suite_found;
            &&& r is Err <==> {
                ||| config.stages@.contains(Stage::Conform) && !has_suite
                ||| config.stages@.len() > 0 && !config.stages@.contains(Stage::Translate)
                    && config.stage_input is None
            }
            &&& r matches Ok(v) ==> ((exists|i: int|
                0 <= i < v@.len() && (#[trigger] v@[i]).tool is LoadTestSuite) <==> has_suite)
        }),
{
    if config.stages@.len() == 0 {
        assert(!config.stages@.contains(Stage::Conform));
    }
    if let Ok(v) = r {
        let ts = schedule_of(*config, suite_found)->Ok_0;
        assert(task_views(v@).len() == v@.len());
        assert forall|i: int| 0 <= i < v@.len() implies (#[trigger] v@[i]).view() == ts[i] by {
            assert(task_views(v@)[i] == v@[i].view());
        }
        if load_test_suite::input_path_of(*config) is Some && suite_found {
            assert(ts[1].tool is LoadTestSuite);
            assert(v@[1].view() == ts[1]);
            assert(v@[1].tool is LoadTestSuite);
        }
    }
}

} // verus!
