//! From a declared set to resolved runs: inheritance applied, paths resolved,
//! and everything that can be wrong reported before anything runs.

use crate::benchmark::cli::Args;
use crate::benchmark::experiment::knobs;
use crate::benchmark::experiment::knobs::{Knobs, KnobsView};
use crate::config;
use crate::path;
use crate::text;
use crate::text_map::TextMap;
use vstd::prelude::*;
use vstd::string::*;

verus! {

/// Version of the set's schema that is understood.
pub const SCHEMA_VERSION: u32 = 1;

/// A declared set: the runs that should exist.
#[derive(Debug)]
pub struct ExperimentSet {
    pub schema_version: u32,
    /// Root of the bench checkout, whose children are test cases. Relative paths
    /// resolve against the set's file.
    pub bench_root: String,
    /// Where outputs go. A run's output root is always this and its id.
    pub results_root: String,
    /// Knobs applied to every run unless the run overrides them.
    pub defaults: Knobs,
    /// The declared runs, in order.
    pub runs: Vec<RunSpec>,
}

/// One declared run.
#[derive(Debug)]
pub struct RunSpec {
    /// Stable identity, and the name of the output directory.
    pub id: String,
    /// Free-form coordinates for tables.
    pub labels: TextMap,
    /// Programs this run covers. For a run that consumes another it narrows the
    /// parent's programs.
    pub programs: Vec<String>,
    /// The run whose output this one consumes.
    pub from: Option<String>,
    pub knobs: Knobs,
}

pub struct RunSpecView {
    pub id: Seq<char>,
    pub labels: Seq<(Seq<char>, Seq<char>)>,
    pub programs: Seq<Seq<char>>,
    pub from: Option<Seq<char>>,
    pub knobs: KnobsView,
}

impl RunSpec {
    pub open spec fn view(&self) -> RunSpecView {
        RunSpecView {
            id: self.id@,
            labels: self.labels.pairs(),
            programs: text::texts(self.programs@),
            from: text::opt_text(self.from),
            knobs: self.knobs.view(),
        }
    }
}

pub open spec fn spec_views(v: Seq<RunSpec>) -> Seq<RunSpecView> {
    v.map_values(|r: RunSpec| r.view())
}

/// A declared run with inheritance applied and paths resolved.
#[derive(Debug)]
pub struct ResolvedRun {
    pub id: String,
    pub labels: TextMap,
    pub programs: Vec<String>,
    pub from: Option<String>,
    /// What the first stage consumes: the bench root, or the parent's output.
    pub input_root: String,
    pub output_root: String,
    /// The arguments this run lowers to.
    pub argv: Vec<String>,
    /// Merged overrides, in resolution order.
    pub config: Vec<String>,
    /// Whether the first stage resumes from a snapshot.
    pub resumes: bool,
}

pub struct ResolvedView {
    pub id: Seq<char>,
    pub labels: Seq<(Seq<char>, Seq<char>)>,
    pub programs: Seq<Seq<char>>,
    pub from: Option<Seq<char>>,
    pub input_root: Seq<char>,
    pub output_root: Seq<char>,
    pub argv: Seq<Seq<char>>,
    pub config: Seq<Seq<char>>,
    pub resumes: bool,
}

impl ResolvedRun {
    pub open spec fn view(&self) -> ResolvedView {
        ResolvedView {
            id: self.id@,
            labels: self.labels.pairs(),
            programs: text::texts(self.programs@),
            from: text::opt_text(self.from),
            input_root: self.input_root@,
            output_root: self.output_root@,
            argv: text::texts(self.argv@),
            config: text::texts(self.config@),
            resumes: self.resumes,
        }
    }
}

pub open spec fn run_views(v: Seq<ResolvedRun>) -> Seq<ResolvedView> {
    v.map_values(|r: ResolvedRun| r.view())
}

// ── The set as a whole ───────────────────────────────────────────────────

pub open spec fn bad_id_message(id: Seq<char>) -> Seq<char> {
    "run id "@ + text::debug_of(id)
        + " is not usable as a directory name; use only letters, digits, '.', '_' and '-'"@
}

pub open spec fn duplicate_id_message(id: Seq<char>) -> Seq<char> {
    "duplicate run id "@ + text::debug_of(id)
}

/// What is wrong with the ids, if anything. Duplicate ids would collapse two
/// runs onto one output root, and the second would look complete.
pub open spec fn id_fault(ids: Seq<Seq<char>>) -> Option<Seq<char>>
    decreases ids.len(),
{
    if ids.len() == 0 {
        None
    } else {
        match id_fault(ids.drop_last()) {
            Some(e) => Some(e),
            None => if !knobs::is_valid_id(ids.last()) {
                Some(bad_id_message(ids.last()))
            } else if ids.drop_last().contains(ids.last()) {
                Some(duplicate_id_message(ids.last()))
            } else {
                None
            },
        }
    }
}

pub open spec fn ids_of(runs: Seq<RunSpecView>) -> Seq<Seq<char>> {
    runs.map_values(|r: RunSpecView| r.id)
}

/// What is wrong with a set before its runs are looked at one by one.
pub open spec fn set_fault(manifest_path: Seq<char>, version: u32, runs: Seq<RunSpecView>) -> Option<
    Seq<char>,
> {
    if version != SCHEMA_VERSION {
        Some(
            manifest_path + ": schema_version is "@ + text::decimal_of(version as nat)
                + ", this build understands "@ + text::decimal_of(SCHEMA_VERSION as nat),
        )
    } else if runs.len() == 0 {
        Some(manifest_path + ": declares no [[run]] entries"@)
    } else {
        id_fault(ids_of(runs))
    }
}

/// The directory of the set's file.
pub open spec fn manifest_dir_of(manifest_path: Seq<char>) -> Seq<char> {
    match path::parent_of(manifest_path) {
        Some(p) => if p.len() > 0 {
            p
        } else {
            "."@
        },
        None => "."@,
    }
}

fn copy_map(m: &TextMap) -> (r: TextMap)
    ensures
        r.pairs() == m.pairs(),
        m.wf() ==> r.wf(),
{
    TextMap { entries: crate::text_map::copy_pairs(&m.entries) }
}

proof fn id_fault_stays(ids: Seq<Seq<char>>, n: int)
    requires
        0 <= n <= ids.len(),
        id_fault(ids.take(n)) is Some,
    ensures
        id_fault(ids) == id_fault(ids.take(n)),
    decreases ids.len() - n,
{
    if n == ids.len() {
        assert(ids.take(n) =~= ids);
    } else {
        assert(ids.take(n + 1).drop_last() =~= ids.take(n));
        id_fault_stays(ids, n + 1);
    }
}

fn check_ids(runs: &Vec<RunSpec>) -> (r: Result<(), String>)
    ensures
        (match r {
            Ok(_) => id_fault(ids_of(spec_views(runs@))) is None,
            Err(e) => id_fault(ids_of(spec_views(runs@))) == Some(e@),
        }),
{
    broadcast use text::group_texts;

    let ghost ids = ids_of(spec_views(runs@));
    let mut seen: Vec<String> = Vec::new();
    let mut i: usize = 0;
    assert(ids.take(0) =~= seq![]);
    while i < runs.len()
        invariant
            i <= runs@.len(),
            ids == ids_of(spec_views(runs@)),
            text::texts(seen@) == ids.take(i as int),
            id_fault(ids.take(i as int)) is None,
        decreases runs@.len() - i,
    {
        assert(ids.take(i + 1).drop_last() =~= ids.take(i as int));
        assert(ids.take(i + 1).last() == runs@[i as int].id@);
        let id = runs[i].id.as_str();
        if !knobs::valid_id(id) {
            let mut e = "run id ".to_owned();
            e.append(text::debug(id).as_str());
            e.append(
                " is not usable as a directory name; use only letters, digits, '.', '_' and '-'",
            );
            proof {
                id_fault_stays(ids, i + 1);
            }
            return Err(e);
        }
        if text::holds(&seen, id) {
            let mut e = "duplicate run id ".to_owned();
            e.append(text::debug(id).as_str());
            proof {
                id_fault_stays(ids, i + 1);
            }
            return Err(e);
        }
        let copy = runs[i].id.clone();
        assert(ids.take(i + 1) =~= ids.take(i as int).push(copy@));
        seen.push(copy);
        i = i + 1;
    }
    assert(ids.take(i as int) =~= ids);
    Ok(())
}

// ── One run ──────────────────────────────────────────────────────────────

/// The directories a set resolves to.
#[derive(Debug)]
pub struct Roots {
    pub manifest_dir: String,
    pub bench_root: String,
    pub results_root: String,
}

pub struct RootsView {
    pub manifest_dir: Seq<char>,
    pub bench_root: Seq<char>,
    pub results_root: Seq<char>,
}

impl Roots {
    pub open spec fn view(&self) -> RootsView {
        RootsView {
            manifest_dir: self.manifest_dir@,
            bench_root: self.bench_root@,
            results_root: self.results_root@,
        }
    }
}

pub open spec fn roots_of(manifest_path: Seq<char>, bench_root: Seq<char>, results_root: Seq<char>) -> RootsView {
    let dir = manifest_dir_of(manifest_path);
    RootsView {
        manifest_dir: dir,
        bench_root: path::joined(dir, bench_root),
        results_root: path::joined(dir, results_root),
    }
}

/// `["a", "b"]`
pub open spec fn debug_list(v: Seq<Seq<char>>) -> Seq<char> {
    "["@ + text::join_of(v.map_values(|s: Seq<char>| text::debug_of(s)), ", "@) + "]"@
}

pub fn debug_texts(v: &Vec<String>) -> (r: String)
    ensures
        r@ == debug_list(text::texts(v@)),
{
    broadcast use text::group_texts;

    let ghost all = text::texts(v@).map_values(|s: Seq<char>| text::debug_of(s));
    let mut parts: Vec<String> = Vec::new();
    let mut i: usize = 0;
    while i < v.len()
        invariant
            i <= v@.len(),
            all == text::texts(v@).map_values(|s: Seq<char>| text::debug_of(s)),
            text::texts(parts@) == all.take(i as int),
        decreases v@.len() - i,
    {
        let d = text::debug(v[i].as_str());
        assert(all[i as int] == d@);
        assert(all.take(i + 1) =~= all.take(i as int).push(d@));
        parts.push(d);
        i = i + 1;
    }
    assert(all.take(i as int) =~= all);
    let mut s = "[".to_owned();
    s.append(text::join(&parts, ", ").as_str());
    s.append("]");
    s
}

/// The run of that id.
pub open spec fn find_run(runs: Seq<ResolvedView>, id: Seq<char>) -> Option<ResolvedView>
    decreases runs.len(),
{
    if runs.len() == 0 {
        None
    } else if runs[0].id == id {
        Some(runs[0])
    } else {
        find_run(runs.skip(1), id)
    }
}

/// The first of `programs` that is not among `allowed`.
pub open spec fn first_outside(programs: Seq<Seq<char>>, allowed: Seq<Seq<char>>) -> Option<
    Seq<char>,
>
    decreases programs.len(),
{
    if programs.len() == 0 {
        None
    } else if !allowed.contains(programs[0]) {
        Some(programs[0])
    } else {
        first_outside(programs.skip(1), allowed)
    }
}

/// What a run starts from: the root that its first stage consumes, and its
/// programs.
pub open spec fn origin_of(roots: RootsView, done: Seq<ResolvedView>, s: RunSpecView) -> Result<
    (Seq<char>, Seq<Seq<char>>),
    Seq<char>,
> {
    let start = "run "@ + text::debug_of(s.id) + ": "@;
    match s.from {
        Some(parent_id) => match find_run(done, parent_id) {
            None => Err(
                start + "from = "@ + text::debug_of(parent_id)
                    + " names a run that is not declared earlier in the file"@,
            ),
            Some(parent) => if s.programs.len() == 0 {
                Ok((parent.output_root, parent.programs))
            } else {
                match first_outside(s.programs, parent.programs) {
                    Some(p) => Err(
                        start + "program "@ + text::debug_of(p)
                            + " is not in the program set of its parent "@ + text::debug_of(
                            parent_id,
                        ) + " ("@ + debug_list(parent.programs) + ")"@,
                    ),
                    None => Ok((parent.output_root, s.programs)),
                }
            },
        },
        None => if s.programs.len() == 0 {
            Err(start + "a run with no `from` must list its `programs`"@)
        } else {
            Ok((roots.bench_root, s.programs))
        },
    }
}

pub open spec fn stages_of(k: KnobsView) -> Seq<Seq<char>> {
    match k.stages {
        Some(v) => v,
        None => seq![],
    }
}

/// Whether the first stage resumes from a snapshot.
pub open spec fn resumes_of(stages: Seq<Seq<char>>) -> bool {
    stages.len() > 0 && (knobs::spells_stage(stages[0], "verify"@) || knobs::spells_stage(
        stages[0],
        "conform"@,
    ))
}

/// A run that consumes another must resume, and one that resumes must consume
/// another.
pub open spec fn from_fault(s: RunSpecView, stages: Seq<Seq<char>>) -> Option<Seq<char>> {
    let start = "run "@ + text::debug_of(s.id) + ": "@;
    match s.from {
        Some(f) => if resumes_of(stages) {
            None
        } else {
            Some(
                start + "from = Some("@ + text::debug_of(f)
                    + ") consumes a snapshot, so its first stage must be verify or conform (got stages = "@
                    + debug_list(stages) + ")"@,
            )
        },
        None => if resumes_of(stages) {
            Some(
                start + "stages start with "@ + text::debug_of(stages[0])
                    + ", which resumes from a snapshot, so the run needs `from = \"<run id>\"`"@,
            )
        } else {
            None
        },
    }
}

/// A run resolved against the runs before it, up to the parsing of its arguments.
pub open spec fn lowered(
    roots: RootsView,
    defaults: KnobsView,
    done: Seq<ResolvedView>,
    s: RunSpecView,
) -> Result<ResolvedView, Seq<char>> {
    let k = knobs::merged(defaults, s.knobs);
    let stages = stages_of(k);
    match origin_of(roots, done, s) {
        Err(e) => Err(e),
        Ok((input_root, programs)) => match from_fault(s, stages) {
            Some(e) => Err(e),
            None => match knobs::knob_fault(s.id, s.knobs, k, stages) {
                Some(e) => Err(e),
                None => {
                    let output_root = path::joined(roots.results_root, s.id);
                    Ok(
                        ResolvedView {
                            id: s.id,
                            labels: s.labels,
                            programs,
                            from: s.from,
                            input_root,
                            output_root,
                            argv: knobs::argv_of(
                                k,
                                input_root,
                                output_root,
                                stages,
                                roots.manifest_dir,
                            ),
                            config: k.config,
                            resumes: resumes_of(stages),
                        },
                    )
                },
            },
        },
    }
}

fn run_prefix(id: &str) -> (r: String)
    ensures
        r@ == "run "@ + text::debug_of(id@) + ": "@,
{
    let mut e = "run ".to_owned();
    e.append(text::debug(id).as_str());
    e.append(": ");
    e
}

fn locate_run<'a>(runs: &'a Vec<ResolvedRun>, id: &str) -> (r: Option<&'a ResolvedRun>)
    ensures
        (match r {
            Some(x) => find_run(run_views(runs@), id@) == Some(x.view()),
            None => find_run(run_views(runs@), id@) is None,
        }),
{
    let ghost all = run_views(runs@);
    let mut i: usize = 0;
    assert(all.skip(0) =~= all);
    while i < runs.len()
        invariant
            i <= runs@.len(),
            all == run_views(runs@),
            find_run(all, id@) == find_run(all.skip(i as int), id@),
        decreases runs@.len() - i,
    {
        assert(all.skip(i as int)[0] == runs@[i as int].view());
        assert(all.skip(i as int).skip(1) =~= all.skip(i + 1));
        if text::same(runs[i].id.as_str(), id) {
            return Some(&runs[i]);
        }
        i = i + 1;
    }
    None
}

fn find_outside(programs: &Vec<String>, allowed: &Vec<String>) -> (r: Option<usize>)
    ensures
        (match r {
            Some(i) => i < programs@.len() && first_outside(
                text::texts(programs@),
                text::texts(allowed@),
            ) == Some(programs@[i as int]@),
            None => first_outside(text::texts(programs@), text::texts(allowed@)) is None,
        }),
{
    let ghost all = text::texts(programs@);
    let ghost ok = text::texts(allowed@);
    let mut i: usize = 0;
    assert(all.skip(0) =~= all);
    while i < programs.len()
        invariant
            i <= programs@.len(),
            all == text::texts(programs@),
            ok == text::texts(allowed@),
            first_outside(all, ok) == first_outside(all.skip(i as int), ok),
        decreases programs@.len() - i,
    {
        assert(all.skip(i as int)[0] == programs@[i as int]@);
        assert(all.skip(i as int).skip(1) =~= all.skip(i + 1));
        if !text::holds(allowed, programs[i].as_str()) {
            return Some(i);
        }
        i = i + 1;
    }
    None
}

fn find_origin(roots: &Roots, done: &Vec<ResolvedRun>, s: &RunSpec) -> (r: Result<
    (String, Vec<String>),
    String,
>)
    ensures
        (match r {
            Ok((root, programs)) => origin_of(roots.view(), run_views(done@), s.view()) == Ok::<
                (Seq<char>, Seq<Seq<char>>),
                Seq<char>,
            >((root@, text::texts(programs@))),
            Err(e) => origin_of(roots.view(), run_views(done@), s.view()) == Err::<
                (Seq<char>, Seq<Seq<char>>),
                Seq<char>,
            >(e@),
        }),
{
    let mut e = run_prefix(s.id.as_str());
    match &s.from {
        Some(parent_id) => match locate_run(done, parent_id.as_str()) {
            None => {
                e.append("from = ");
                e.append(text::debug(parent_id.as_str()).as_str());
                e.append(" names a run that is not declared earlier in the file");
                Err(e)
            },
            Some(parent) => {
                if s.programs.len() == 0 {
                    return Ok((parent.output_root.clone(), text::copy_texts(&parent.programs)));
                }
                match find_outside(&s.programs, &parent.programs) {
                    Some(i) => {
                        e.append("program ");
                        e.append(text::debug(s.programs[i].as_str()).as_str());
                        e.append(" is not in the program set of its parent ");
                        e.append(text::debug(parent_id.as_str()).as_str());
                        e.append(" (");
                        e.append(debug_texts(&parent.programs).as_str());
                        e.append(")");
                        Err(e)
                    },
                    None => Ok((parent.output_root.clone(), text::copy_texts(&s.programs))),
                }
            },
        },
        None => {
            if s.programs.len() == 0 {
                e.append("a run with no `from` must list its `programs`");
                return Err(e);
            }
            Ok((roots.bench_root.clone(), text::copy_texts(&s.programs)))
        },
    }
}

fn first_resumes(stages: &Vec<String>) -> (r: bool)
    ensures
        r == resumes_of(text::texts(stages@)),
{
    if stages.len() == 0 {
        return false;
    }
    assert(text::texts(stages@)[0] == stages@[0]@);
    knobs::stage_is(stages[0].as_str(), "verify") || knobs::stage_is(stages[0].as_str(), "conform")
}

fn check_from(s: &RunSpec, stages: &Vec<String>) -> (r: Result<(), String>)
    ensures
        (match r {
            Ok(_) => from_fault(s.view(), text::texts(stages@)) is None,
            Err(e) => from_fault(s.view(), text::texts(stages@)) == Some(e@),
        }),
{
    let resumes = first_resumes(stages);
    let mut e = run_prefix(s.id.as_str());
    match &s.from {
        Some(f) => {
            if resumes {
                return Ok(());
            }
            e.append("from = Some(");
            e.append(text::debug(f.as_str()).as_str());
            e.append(
                ") consumes a snapshot, so its first stage must be verify or conform (got stages = ",
            );
            e.append(debug_texts(stages).as_str());
            e.append(")");
            Err(e)
        },
        None => {
            if !resumes {
                return Ok(());
            }
            assert(text::texts(stages@)[0] == stages@[0]@);
            e.append("stages start with ");
            e.append(text::debug(stages[0].as_str()).as_str());
            e.append(
                ", which resumes from a snapshot, so the run needs `from = \"<run id>\"`",
            );
            Err(e)
        },
    }
}

fn stage_texts(k: &Knobs) -> (r: Vec<String>)
    ensures
        text::texts(r@) == stages_of(k.view()),
{
    match &k.stages {
        Some(v) => text::copy_texts(v),
        None => {
            let r: Vec<String> = Vec::new();
            assert(text::texts(r@) =~= seq![]);
            r
        },
    }
}

/// Resolves a run against the runs before it: what it starts from, whether its
/// stages agree with that, whether its own knobs apply, and the arguments it
/// lowers to. A run can only refer to one declared before it, which makes cycles
/// impossible.
pub fn lower_run(roots: &Roots, defaults: &Knobs, done: &Vec<ResolvedRun>, s: &RunSpec) -> (r:
    Result<ResolvedRun, String>)
    ensures
        (match r {
            Ok(x) => lowered(roots.view(), defaults.view(), run_views(done@), s.view()) == Ok::<
                ResolvedView,
                Seq<char>,
            >(x.view()),
            Err(e) => lowered(roots.view(), defaults.view(), run_views(done@), s.view()) == Err::<
                ResolvedView,
                Seq<char>,
            >(e@),
        }),
{
    let k = knobs::merge_knobs(defaults, &s.knobs);
    let stages = stage_texts(&k);
    let (input_root, programs) = match find_origin(roots, done, s) {
        Err(e) => {
            return Err(e);
        },
        Ok(o) => o,
    };
    if let Err(e) = check_from(s, &stages) {
        return Err(e);
    }
    if let Err(e) = knobs::reject_inapplicable_explicit_knobs(s.id.as_str(), &s.knobs, &k, &stages) {
        return Err(e);
    }
    let output_root = path::join(roots.results_root.as_str(), s.id.as_str());
    let argv = knobs::lower_to_argv(
        &k,
        input_root.as_str(),
        output_root.as_str(),
        &stages,
        roots.manifest_dir.as_str(),
    );
    Ok(
        ResolvedRun {
            id: s.id.clone(),
            labels: copy_map(&s.labels),
            programs,
            from: text::copy_opt(&s.from),
            input_root,
            output_root,
            argv,
            config: text::copy_texts(&k.config),
            resumes: first_resumes(&stages),
        },
    )
}

// ── Acceptance ───────────────────────────────────────────────────────────

/// The programs that were not found.
pub open spec fn missing_of(programs: Seq<Seq<char>>, present: Seq<bool>) -> Seq<Seq<char>>
    decreases programs.len(),
{
    if programs.len() == 0 || present.len() < programs.len() {
        seq![]
    } else {
        let before = missing_of(programs.drop_last(), present);
        if present[programs.len() - 1] {
            before
        } else {
            before.push(programs.last())
        }
    }
}

/// Combinations that would record an identity that does not match what ran.
pub open spec fn contradiction(id: Seq<char>, k: KnobsView, claude: Seq<char>) -> Option<Seq<char>> {
    let start = "run "@ + text::debug_of(id) + ": "@;
    if knobs::names_stage(stages_of(k), "verify"@) && (knobs::is_on(k.no_plan) || knobs::is_on(
        k.no_plan_file,
    )) && (knobs::is_on(k.fuzz) || k.verify_harness is Some) {
        Some(
            start
                + "no_plan/no_plan_file cannot be combined with fuzz or verify_harness. The gtest verify harness is only active when plan files are enabled, so the run would record gtest/fuzz in its identity while actually verifying via libloading (see verify_fix_agentic gtest_harness_active)."@,
        )
    } else if knobs::is_on(k.workflow) && k.agent is Some && k.agent != Some(claude) {
        Some(
            start + "workflow only affects the "@ + claude + " agent; with agent = "@
                + text::debug_of(k.agent->0) + " the hint is silently dropped"@,
        )
    } else {
        None
    }
}

/// What is wrong with a run once its arguments were parsed, if anything.
/// `parsed` is what the parser of the arguments made of them, and `present`
/// tells of each program whether the bench has it. The last parameter is the name
/// of the agent that takes the workflow hint.
pub open spec fn accept_fault(
    roots: RootsView,
    defaults: KnobsView,
    s: RunSpecView,
    run: ResolvedView,
    parsed: Result<Args, String>,
    present: Seq<bool>,
    claude: Seq<char>,
) -> Option<Seq<char>> {
    let line = text::join_of(run.argv, " "@);
    let start = "run "@ + text::debug_of(s.id);
    match parsed {
        Err(e) => Some(
            start + " does not lower to a valid invocation:\n  "@ + line + "\n"@ + e@,
        ),
        Ok(args) => match args.stage_fault(config::ordered(args.given_stages())) {
            Some(e) => Some(start + ": "@ + e + "\n  "@ + line),
            None => match contradiction(s.id, knobs::merged(defaults, s.knobs), claude) {
                Some(e) => Some(e),
                None => if s.from is None && missing_of(run.programs, present).len() > 0 {
                    Some(
                        start + ": programs not found under "@ + roots.bench_root + ": "@
                            + text::join_of(missing_of(run.programs, present), ", "@),
                    )
                } else {
                    None
                },
            },
        },
    }
}

fn find_missing(programs: &Vec<String>, present: &Vec<bool>) -> (r: Vec<String>)
    requires
        present@.len() >= programs@.len(),
    ensures
        text::texts(r@) == missing_of(text::texts(programs@), present@),
{
    broadcast use text::group_texts;

    let ghost all = text::texts(programs@);
    let mut out: Vec<String> = Vec::new();
    let mut i: usize = 0;
    assert(all.take(0) =~= seq![]);
    assert(text::texts(out@) =~= seq![]);
    while i < programs.len()
        invariant
            i <= programs@.len(),
            present@.len() >= programs@.len(),
            all == text::texts(programs@),
            text::texts(out@) == missing_of(all.take(i as int), present@),
        decreases programs@.len() - i,
    {
        assert(all.take(i + 1).drop_last() =~= all.take(i as int));
        assert(all.take(i + 1).last() == programs@[i as int]@);
        if !present[i] {
            let p = programs[i].clone();
            out.push(p);
        }
        i = i + 1;
    }
    assert(all.take(i as int) =~= all);
    out
}

fn check_contradiction(id: &str, k: &Knobs, claude: &str) -> (r: Result<(), String>)
    ensures
        (match r {
            Ok(_) => contradiction(id@, k.view(), claude@) is None,
            Err(e) => contradiction(id@, k.view(), claude@) == Some(e@),
        }),
{
    let stages = stage_texts(k);
    let mut e = run_prefix(id);
    if knobs::has_stage(&stages, "verify") && (k.no_plan == Some(true) || k.no_plan_file == Some(
        true,
    )) && (k.fuzz == Some(true) || k.verify_harness.is_some()) {
        e.append(
            "no_plan/no_plan_file cannot be combined with fuzz or verify_harness. The gtest verify harness is only active when plan files are enabled, so the run would record gtest/fuzz in its identity while actually verifying via libloading (see verify_fix_agentic gtest_harness_active).",
        );
        return Err(e);
    }
    if k.workflow == Some(true) {
        if let Some(agent) = &k.agent {
            if !text::same(agent.as_str(), claude) {
                e.append("workflow only affects the ");
                e.append(claude);
                e.append(" agent; with agent = ");
                e.append(text::debug(agent.as_str()).as_str());
                e.append(" the hint is silently dropped");
                return Err(e);
            }
        }
    }
    Ok(())
}

/// Checks a run once its arguments were parsed: a declared run is exactly as
/// constrained as the same command line, contradictions that the parser cannot
/// see are rejected, and the programs of a run that starts from the bench must
/// exist there.
pub fn accept_run(
    roots: &Roots,
    defaults: &Knobs,
    s: &RunSpec,
    run: &ResolvedRun,
    parsed: &Result<Args, String>,
    present: &Vec<bool>,
    claude: &str,
) -> (r: Result<(), String>)
    requires
        present@.len() >= run.programs@.len(),
    ensures
        (match r {
            Ok(_) => accept_fault(
                roots.view(),
                defaults.view(),
                s.view(),
                run.view(),
                *parsed,
                present@,
                claude@,
            ) is None,
            Err(e) => accept_fault(
                roots.view(),
                defaults.view(),
                s.view(),
                run.view(),
                *parsed,
                present@,
                claude@,
            ) == Some(e@),
        }),
{
    let line = text::join(&run.argv, " ");
    let mut start = "run ".to_owned();
    start.append(text::debug(s.id.as_str()).as_str());
    match parsed {
        Err(e) => {
            start.append(" does not lower to a valid invocation:\n  ");
            start.append(line.as_str());
            start.append("\n");
            start.append(e.as_str());
            return Err(start);
        },
        Ok(args) => {
            let stages = args.stages();
            if let Err(e) = args.validate_stages(&stages) {
                start.append(": ");
                start.append(e.as_str());
                start.append("\n  ");
                start.append(line.as_str());
                return Err(start);
            }
        },
    }
    let k = knobs::merge_knobs(defaults, &s.knobs);
    if let Err(e) = check_contradiction(s.id.as_str(), &k, claude) {
        return Err(e);
    }
    if s.from.is_none() {
        let missing = find_missing(&run.programs, present);
        if missing.len() > 0 {
            start.append(": programs not found under ");
            start.append(roots.bench_root.as_str());
            start.append(": ");
            start.append(text::join(&missing, ", ").as_str());
            return Err(start);
        }
    }
    Ok(())
}

// ── The plan ─────────────────────────────────────────────────────────────

/// A set that is being resolved: its directories and the runs accepted so far.
#[derive(Debug)]
pub struct Plan {
    pub roots: Roots,
    pub runs: Vec<ResolvedRun>,
}

/// Whether `runs` are the first runs of a set, each resolved against those before
/// it.
pub open spec fn is_plan(
    roots: RootsView,
    defaults: KnobsView,
    specs: Seq<RunSpecView>,
    runs: Seq<ResolvedView>,
) -> bool {
    &&& runs.len() <= specs.len()
    &&& id_fault(ids_of(specs)) is None
    &&& forall|k: int|
        #![trigger runs[k]]
        0 <= k < runs.len() ==> lowered(roots, defaults, runs.take(k), specs[k]) == Ok::<
            ResolvedView,
            Seq<char>,
        >(runs[k])
}

impl Plan {
    pub open spec fn wf(&self, set: ExperimentSet) -> bool {
        is_plan(
            self.roots.view(),
            set.defaults.view(),
            spec_views(set.runs@),
            run_views(self.runs@),
        )
    }

    /// Starts to resolve a set. Relative paths resolve against the set's file,
    /// never against the process's own directory.
    pub fn new(manifest_path: &str, set: &ExperimentSet) -> (r: Result<Plan, String>)
        ensures
            (match r {
                Ok(p) => {
                    &&& set_fault(manifest_path@, set.schema_version, spec_views(set.runs@)) is None
                    &&& p.roots.view() == roots_of(
                        manifest_path@,
                        set.bench_root@,
                        set.results_root@,
                    )
                    &&& p.runs@.len() == 0
                    &&& p.wf(*set)
                },
                Err(e) => set_fault(manifest_path@, set.schema_version, spec_views(set.runs@))
                    == Some(e@),
            }),
    {
        let mut e = manifest_path.to_owned();
        if set.schema_version != SCHEMA_VERSION {
            e.append(": schema_version is ");
            e.append(text::decimal(set.schema_version as u64).as_str());
            e.append(", this build understands ");
            e.append(text::decimal(SCHEMA_VERSION as u64).as_str());
            return Err(e);
        }
        if set.runs.len() == 0 {
            e.append(": declares no [[run]] entries");
            return Err(e);
        }
        if let Err(e) = check_ids(&set.runs) {
            return Err(e);
        }
        let dir = match path::parent(manifest_path) {
            Some(p) => if p.as_str().is_empty() {
                ".".to_owned()
            } else {
                p
            },
            None => ".".to_owned(),
        };
        let bench_root = path::join(dir.as_str(), set.bench_root.as_str());
        let results_root = path::join(dir.as_str(), set.results_root.as_str());
        Ok(Plan { roots: Roots { manifest_dir: dir, bench_root, results_root }, runs: Vec::new() })
    }

    /// The next run, up to the parsing of its arguments.
    pub fn next_run(&self, set: &ExperimentSet) -> (r: Result<ResolvedRun, String>)
        requires
            self.wf(*set),
            self.runs@.len() < set.runs@.len(),
        ensures
            (match r {
                Ok(x) => lowered(
                    self.roots.view(),
                    set.defaults.view(),
                    run_views(self.runs@),
                    set.runs@[self.runs@.len() as int].view(),
                ) == Ok::<ResolvedView, Seq<char>>(x.view()),
                Err(e) => lowered(
                    self.roots.view(),
                    set.defaults.view(),
                    run_views(self.runs@),
                    set.runs@[self.runs@.len() as int].view(),
                ) == Err::<ResolvedView, Seq<char>>(e@),
            }),
    {
        let s = &set.runs[self.runs.len()];
        lower_run(&self.roots, &set.defaults, &self.runs, s)
    }

    /// Takes the next run into the plan, if nothing is wrong with it.
    pub fn accept(
        &mut self,
        set: &ExperimentSet,
        run: ResolvedRun,
        parsed: &Result<Args, String>,
        present: &Vec<bool>,
        claude: &str,
    ) -> (r: Result<(), String>)
        requires
            old(self).wf(*set),
            old(self).runs@.len() < set.runs@.len(),
            lowered(
                old(self).roots.view(),
                set.defaults.view(),
                run_views(old(self).runs@),
                set.runs@[old(self).runs@.len() as int].view(),
            ) == Ok::<ResolvedView, Seq<char>>(run.view()),
            present@.len() >= run.programs@.len(),
        ensures
            final(self).wf(*set),
            final(self).roots.view() == old(self).roots.view(),
            (match r {
                Ok(_) => {
                    &&& accept_fault(
                        old(self).roots.view(),
                        set.defaults.view(),
                        set.runs@[old(self).runs@.len() as int].view(),
                        run.view(),
                        *parsed,
                        present@,
                        claude@,
                    ) is None
                    &&& run_views(final(self).runs@) == run_views(old(self).runs@).push(run.view())
                },
                Err(e) => {
                    &&& accept_fault(
                        old(self).roots.view(),
                        set.defaults.view(),
                        set.runs@[old(self).runs@.len() as int].view(),
                        run.view(),
                        *parsed,
                        present@,
                        claude@,
                    ) == Some(e@)
                    &&& final(self).runs@ == old(self).runs@
                },
            }),
    {
        let n = self.runs.len();
        if let Err(e) = accept_run(
            &self.roots,
            &set.defaults,
            &set.runs[n],
            &run,
            parsed,
            present,
            claude,
        ) {
            return Err(e);
        }
        let ghost before = run_views(self.runs@);
        let ghost view = run.view();
        self.runs.push(run);
        proof {
            let after = run_views(self.runs@);
            assert(after =~= before.push(view));
            assert forall|k: int| #![trigger after[k]] 0 <= k < after.len() implies lowered(
                self.roots.view(),
                set.defaults.view(),
                after.take(k),
                spec_views(set.runs@)[k],
            ) == Ok::<ResolvedView, Seq<char>>(after[k]) by {
                if k < before.len() {
                    assert(before[k] == after[k]);
                    assert(after.take(k) =~= before.take(k));
                } else {
                    assert(after.take(k) =~= before);
                    assert(spec_views(set.runs@)[k] == set.runs@[n as int].view());
                }
            }
        }
        Ok(())
    }
}

// ── Laws ─────────────────────────────────────────────────────────────────

proof fn find_run_is_member(runs: Seq<ResolvedView>, id: Seq<char>) -> (j: int)
    requires
        find_run(runs, id) is Some,
    ensures
        0 <= j < runs.len(),
        runs[j].id == id,
        find_run(runs, id) == Some(runs[j]),
    decreases runs.len(),
{
    if runs[0].id == id {
        0
    } else {
        let j = find_run_is_member(runs.skip(1), id);
        assert(runs.skip(1)[j] == runs[j + 1]);
        j + 1
    }
}

proof fn none_outside(programs: Seq<Seq<char>>, allowed: Seq<Seq<char>>)
    requires
        first_outside(programs, allowed) is None,
    ensures
        forall|i: int| 0 <= i < programs.len() ==> allowed.contains(#[trigger] programs[i]),
    decreases programs.len(),
{
    if programs.len() > 0 {
        none_outside(programs.skip(1), allowed);
        assert forall|i: int| 0 <= i < programs.len() implies allowed.contains(
            #[trigger] programs[i],
        ) by {
            if i > 0 {
                assert(programs.skip(1)[i - 1] == programs[i]);
            }
        }
    }
}

proof fn ids_are_fine(ids: Seq<Seq<char>>)
    requires
        id_fault(ids) is None,
    ensures
        ids.no_duplicates(),
        forall|i: int| 0 <= i < ids.len() ==> knobs::is_valid_id(#[trigger] ids[i]),
    decreases ids.len(),
{
    if ids.len() > 0 {
        let front = ids.drop_last();
        ids_are_fine(front);
        assert forall|i: int| 0 <= i < ids.len() implies knobs::is_valid_id(#[trigger] ids[i]) by {
            if i < front.len() {
                assert(front[i] == ids[i]);
            }
        }
        assert forall|i: int, j: int|
            0 <= i < ids.len() && 0 <= j < ids.len() && i != j implies ids[i] != ids[j] by {
            if i < front.len() && j < front.len() {
                assert(front[i] == ids[i]);
                assert(front[j] == ids[j]);
            } else if i < front.len() {
                assert(front[i] == ids[i]);
                assert(front.contains(ids[i]));
            } else {
                assert(front[j] == ids[j]);
                assert(front.contains(ids[j]));
            }
        }
    }
}

/// A run that consumes another consumes one declared before it: it reads that
/// run's output, and covers none but that run's programs.
pub proof fn parents_come_first(
    roots: RootsView,
    defaults: KnobsView,
    specs: Seq<RunSpecView>,
    runs: Seq<ResolvedView>,
    k: int,
)
    requires
        is_plan(roots, defaults, specs, runs),
        0 <= k < runs.len(),
        runs[k].from is Some,
    ensures
        exists|j: int|
            {
                &&& 0 <= j < k
                &&& runs[k].from == Some((#[trigger] runs[j]).id)
                &&& runs[k].input_root == runs[j].output_root
                &&& forall|i: int|
                    0 <= i < runs[k].programs.len() ==> runs[j].programs.contains(
                        #[trigger] runs[k].programs[i],
                    )
            },
        runs[k].resumes,
{
    let done = runs.take(k);
    let s = specs[k];
    let j = find_run_is_member(done, s.from->0);
    assert(done[j] == runs[j]);
    let parent = runs[j];
    if s.programs.len() > 0 {
        none_outside(s.programs, parent.programs);
    } else {
        assert forall|i: int| 0 <= i < runs[k].programs.len() implies parent.programs.contains(
            #[trigger] runs[k].programs[i],
        ) by {
            assert(runs[k].programs == parent.programs);
        }
    }
}

/// A run without a parent starts from the bench and never resumes.
pub proof fn roots_start_from_the_bench(
    roots: RootsView,
    defaults: KnobsView,
    specs: Seq<RunSpecView>,
    runs: Seq<ResolvedView>,
    k: int,
)
    requires
        is_plan(roots, defaults, specs, runs),
        0 <= k < runs.len(),
        runs[k].from is None,
    ensures
        runs[k].input_root == roots.bench_root,
        !runs[k].resumes,
        runs[k].programs.len() > 0,
{
}

/// No two runs of a plan share an id or an output root, and the output root of a
/// run lies directly under the results root.
pub proof fn outputs_are_distinct(
    roots: RootsView,
    defaults: KnobsView,
    specs: Seq<RunSpecView>,
    runs: Seq<ResolvedView>,
    a: int,
    b: int,
)
    requires
        is_plan(roots, defaults, specs, runs),
        0 <= a < b < runs.len(),
    ensures
        runs[a].id != runs[b].id,
        runs[a].output_root != runs[b].output_root,
        runs[a].output_root == path::joined(roots.results_root, runs[a].id),
{
    let ids = ids_of(specs);
    ids_are_fine(ids);
    assert(ids[a] == specs[a].id);
    assert(ids[b] == specs[b].id);
    assert(runs[a].id == specs[a].id);
    assert(runs[b].id == specs[b].id);
    let x = ids[a];
    let y = ids[b];
    assert(knobs::is_valid_id(x));
    assert(knobs::is_valid_id(y));
    assert(knobs::is_id_char(x[0]));
    assert(knobs::is_id_char(y[0]));
    assert(!path::is_absolute_path(x));
    assert(!path::is_absolute_path(y));
    let r = roots.results_root;
    let p = path::joined(r, x);
    let q = path::joined(r, y);
    if p == q {
        let n = p.len() - x.len();
        assert(p.skip(n) =~= x);
        assert(q.len() - y.len() == n);
        assert(q.skip(n) =~= y);
    }
}

} // verus!
