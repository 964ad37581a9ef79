//! Which programs a benchmark run takes, from what each starts, and the manifest
//! that a run leaves behind.

use crate::benchmark::harness;
use crate::benchmark::harness::PathKind;
use crate::benchmark::run::{ProgramRun, RunOptions};
use crate::config;
use crate::config::Stage;
use crate::path;
use crate::pattern;
use crate::stage_manifest;
use crate::stage_manifest::StageManifest;
use crate::text;
use crate::tools::load_test_suite;
use vstd::prelude::*;
use vstd::string::*;

verus! {

broadcast use text::group_texts;

// ── Snapshots ────────────────────────────────────────────────────────────

/// A directory below another, and the files of its `.harvest/` directory.
#[derive(Debug)]
pub struct SubDir {
    pub name: String,
    pub meta_files: Vec<String>,
}

impl SubDir {
    /// A snapshot is recognized by its manifest. A snapshot whose build failed
    /// never reached grading, and one that was never graded carries no results,
    /// but both carry their manifest.
    pub open spec fn holds_manifest(&self) -> bool {
        text::texts(self.meta_files@).contains(stage_manifest::STAGE_MANIFEST_FILE@)
    }
}

/// The snapshots among the directories below `root`.
pub open spec fn snapshots_below(root: Seq<char>, children: Seq<SubDir>) -> Seq<Seq<char>>
    decreases children.len(),
{
    if children.len() == 0 {
        seq![]
    } else {
        snapshots_below(root, children.drop_last()) + text::when(
            children.last().holds_manifest(),
            path::joined(root, children.last().name@),
        )
    }
}

/// The snapshots at a path: the directory itself if it is one, else those directly
/// below it, in order.
pub fn translated_program_dirs(root: &str, meta_files: &Vec<String>, children: &Vec<SubDir>) -> (r:
    Vec<String>)
    ensures
        if text::texts(meta_files@).contains(stage_manifest::STAGE_MANIFEST_FILE@) {
            text::texts(r@) == seq![root@]
        } else {
            &&& text::is_sorted(text::texts(r@))
            &&& text::texts(r@).to_multiset() == snapshots_below(root@, children@).to_multiset()
        },
{
    if stage_manifest::is_snapshot(meta_files) {
        let r = vec![root.to_owned()];
        assert(text::texts(r@) =~= seq![root@]);
        return r;
    }
    let mut dirs: Vec<String> = Vec::new();
    let mut i: usize = 0;
    assert(children@.take(0) =~= seq![]);
    assert(text::texts(dirs@) =~= seq![]);
    while i < children.len()
        invariant
            i <= children@.len(),
            text::texts(dirs@) == snapshots_below(root@, children@.take(i as int)),
        decreases children@.len() - i,
    {
        assert(children@.take(i + 1).drop_last() =~= children@.take(i as int));
        let snapshot = stage_manifest::is_snapshot(&children[i].meta_files);
        let dir = path::join(root, children[i].name.as_str());
        text::push_when(&mut dirs, snapshot, dir.as_str());
        i = i + 1;
    }
    assert(children@.take(i as int) =~= children@);
    text::sorted(&dirs)
}

// ── Filters ──────────────────────────────────────────────────────────────

/// The paths for which the pattern matched, or did not, as asked.
pub open spec fn kept_of(dirs: Seq<Seq<char>>, matched: Seq<bool>, keep: bool) -> Seq<Seq<char>>
    decreases dirs.len(),
{
    if dirs.len() == 0 || matched.len() != dirs.len() {
        seq![]
    } else {
        kept_of(dirs.drop_last(), matched.drop_last(), keep) + text::when(
            matched.last() == keep,
            dirs.last(),
        )
    }
}

/// The names of the paths that are dropped.
pub open spec fn dropped_names(dirs: Seq<Seq<char>>, matched: Seq<bool>, keep: bool) -> Seq<
    Seq<char>,
>
    decreases dirs.len(),
{
    if dirs.len() == 0 || matched.len() != dirs.len() {
        seq![]
    } else {
        dropped_names(dirs.drop_last(), matched.drop_last(), keep) + (match path::file_name_of(
            dirs.last(),
        ) {
            Some(n) => text::when(matched.last() != keep, n),
            None => seq![],
        })
    }
}

/// Whether the pattern matches the last component of a path. A path without one
/// does not match.
pub open spec fn name_matches(pattern: Seq<char>, dir: Seq<char>) -> bool {
    match path::file_name_of(dir) {
        Some(n) => pattern::regex_finds(pattern, n),
        None => false,
    }
}

pub open spec fn matches_of(pattern: Seq<char>, dirs: Seq<Seq<char>>) -> Seq<bool> {
    dirs.map_values(|d: Seq<char>| name_matches(pattern, d))
}

/// Splits the paths by whether the pattern matched: those that are kept, and the
/// names of the others.
pub fn split_matches(dirs: &Vec<String>, matched: &Vec<bool>, keep: bool) -> (r: (
    Vec<String>,
    Vec<String>,
))
    requires
        matched@.len() == dirs@.len(),
    ensures
        text::texts(r.0@) == kept_of(text::texts(dirs@), matched@, keep),
        text::texts(r.1@) == dropped_names(text::texts(dirs@), matched@, keep),
{
    let ghost all = text::texts(dirs@);
    let mut kept: Vec<String> = Vec::new();
    let mut dropped: Vec<String> = Vec::new();
    let mut i: usize = 0;
    assert(text::texts(kept@) =~= seq![]);
    assert(text::texts(dropped@) =~= seq![]);
    while i < dirs.len()
        invariant
            i <= dirs@.len(),
            matched@.len() == dirs@.len(),
            all == text::texts(dirs@),
            text::texts(kept@) == kept_of(all.take(i as int), matched@.take(i as int), keep),
            text::texts(dropped@) == dropped_names(
                all.take(i as int),
                matched@.take(i as int),
                keep,
            ),
        decreases dirs@.len() - i,
    {
        assert(all.take(i + 1).drop_last() =~= all.take(i as int));
        assert(matched@.take(i + 1).drop_last() =~= matched@.take(i as int));
        assert(all.take(i + 1).last() == dirs@[i as int]@);
        let ghost before = text::texts(dropped@);
        text::push_when(&mut kept, matched[i] == keep, dirs[i].as_str());
        if let Some(name) = path::file_name(dirs[i].as_str()) {
            text::push_when(&mut dropped, matched[i] != keep, name.as_str());
        } else {
            assert(before + seq![] =~= before);
        }
        i = i + 1;
    }
    assert(all.take(i as int) =~= all);
    assert(matched@.take(i as int) =~= matched@);
    (kept, dropped)
}

/// What is said of a filter.
pub open spec fn filter_report(
    label: Seq<char>,
    pattern: Seq<char>,
    remaining: nat,
    dropped: Seq<Seq<char>>,
) -> Seq<Seq<char>> {
    let past_tense = if label == "Filter"@ {
        "Filtered"@
    } else if label == "Exclude"@ {
        "Excluded"@
    } else {
        label
    };
    seq![
        label + " '"@ + pattern + "' applied: "@ + text::decimal_of(remaining)
            + " programs remaining, "@ + text::decimal_of(dropped.len()) + " removed"@,
    ] + text::when(dropped.len() > 0, past_tense + ": "@ + text::join_of(dropped, ", "@))
}

pub fn filter_lines(label: &str, pattern: &str, remaining: usize, dropped: &Vec<String>) -> (r: Vec<
    String,
>)
    ensures
        text::texts(r@) == filter_report(
            label@,
            pattern@,
            remaining as nat,
            text::texts(dropped@),
        ),
{
    let removed: usize = dropped.len();
    let mut line = label.to_owned();
    line.append(" '");
    line.append(pattern);
    line.append("' applied: ");
    line.append(text::decimal(remaining as u64).as_str());
    line.append(" programs remaining, ");
    line.append(text::decimal(removed as u64).as_str());
    line.append(" removed");
    let ghost first = line@;
    let mut out = vec![line];
    assert(text::texts(out@) =~= seq![first]);
    let mut names = if text::same(label, "Filter") {
        "Filtered".to_owned()
    } else if text::same(label, "Exclude") {
        "Excluded".to_owned()
    } else {
        label.to_owned()
    };
    names.append(": ");
    names.append(text::join(dropped, ", ").as_str());
    text::push_when(&mut out, removed > 0, names.as_str());
    out
}

/// Keeps the programs whose names match the pattern, or those whose names do not.
/// A pattern that is not valid is an error, and changes nothing. The result is what
/// is said about it.
pub fn apply_regex_filter(
    program_dirs: &mut Vec<String>,
    pattern: &str,
    keep_matches: bool,
    label: &str,
) -> (r: Result<Vec<String>, String>)
    ensures
        ({
            let dirs = text::texts(old(program_dirs)@);
            let matched = matches_of(pattern@, dirs);
            match r {
                Ok(lines) => {
                    &&& pattern::regex_fault(pattern@) is None
                    &&& text::texts(final(program_dirs)@) == kept_of(dirs, matched, keep_matches)
                    &&& text::texts(lines@) == filter_report(
                        label@,
                        pattern@,
                        kept_of(dirs, matched, keep_matches).len(),
                        dropped_names(dirs, matched, keep_matches),
                    )
                },
                Err(e) => {
                    &&& pattern::regex_fault(pattern@) is Some
                    &&& e@ == "Invalid regex pattern '"@ + pattern@ + "': "@
                        + pattern::regex_fault(pattern@)->0
                    &&& final(program_dirs)@ == old(program_dirs)@
                },
            }
        }),
{
    if let Err(fault) = pattern::regex_match(pattern, "") {
        let mut e = "Invalid regex pattern '".to_owned();
        e.append(pattern);
        e.append("': ");
        e.append(fault.as_str());
        return Err(e);
    }
    let ghost dirs = text::texts(program_dirs@);
    let ghost want = matches_of(pattern@, dirs);
    let mut matched: Vec<bool> = Vec::new();
    let mut i: usize = 0;
    while i < program_dirs.len()
        invariant
            i <= program_dirs@.len(),
            program_dirs@ == old(program_dirs)@,
            dirs == text::texts(program_dirs@),
            want == matches_of(pattern@, dirs),
            pattern::regex_fault(pattern@) is None,
            matched@ == want.take(i as int),
        decreases program_dirs@.len() - i,
    {
        assert(dirs[i as int] == program_dirs@[i as int]@);
        assert(want[i as int] == name_matches(pattern@, dirs[i as int]));
        let mut found = false;
        if let Some(name) = path::file_name(program_dirs[i].as_str()) {
            if let Ok(hit) = pattern::regex_match(pattern, name.as_str()) {
                found = hit;
            }
        }
        matched.push(found);
        assert(want.take(i + 1) =~= want.take(i as int).push(want[i as int]));
        i = i + 1;
    }
    assert(want.take(i as int) =~= want);
    let (kept, dropped) = split_matches(&*program_dirs, &matched, keep_matches);
    let remaining: usize = kept.len();
    let lines = filter_lines(label, pattern, remaining, &dropped);
    *program_dirs = kept;
    Ok(lines)
}

/// A filter and an exclusion by the same pattern share the programs between them:
/// each is kept by exactly one of the two.
pub proof fn filter_and_exclusion_partition(dirs: Seq<Seq<char>>, matched: Seq<bool>)
    requires
        matched.len() == dirs.len(),
    ensures
        kept_of(dirs, matched, true).to_multiset().add(kept_of(dirs, matched, false).to_multiset())
            == dirs.to_multiset(),
    decreases dirs.len(),
{
    broadcast use vstd::seq_lib::group_to_multiset_ensures;

    let yes = kept_of(dirs, matched, true);
    let no = kept_of(dirs, matched, false);
    if dirs.len() > 0 {
        filter_and_exclusion_partition(dirs.drop_last(), matched.drop_last());
        let y = kept_of(dirs.drop_last(), matched.drop_last(), true);
        let n = kept_of(dirs.drop_last(), matched.drop_last(), false);
        assert(dirs =~= dirs.drop_last().push(dirs.last()));
        if matched.last() {
            assert(yes =~= y.push(dirs.last()));
            assert(no =~= n);
        } else {
            assert(yes =~= y);
            assert(no =~= n.push(dirs.last()));
        }
        assert(yes.to_multiset().add(no.to_multiset()) =~= dirs.to_multiset());
    } else {
        assert(yes.to_multiset().add(no.to_multiset()) =~= dirs.to_multiset());
    }
}

// ── From what a program starts ───────────────────────────────────────────

/// The inputs of a run that starts from a bench test case: the C source is the
/// test case, and the suite, if any, sits beside it. `dirs` are the directories
/// below the bench directory, by their relative paths. The revision and the
/// checkout are recorded now, so that a later run finds them once the C source has
/// moved inside a snapshot.
pub fn start_from_bench(
    bench_dir: &str,
    name: &str,
    kind: PathKind,
    dirs: &Vec<String>,
    revision: Option<String>,
    corpus_root: Option<String>,
) -> (r: Result<ProgramRun, String>)
    ensures
        (match r {
            Ok(run) => {
                &&& harness::layout_fault(bench_dir@, kind, text::texts(dirs@)) is None
                &&& run.name@ == name@
                &&& run.c_source_dir@ == path::joined(bench_dir@, "test_case"@)
                &&& text::opt_text(run.suite_root) == (if load_test_suite::kind_of(
                    text::texts(dirs@),
                ) is Some {
                    Some(bench_dir@)
                } else {
                    None
                })
                &&& run.stage_input is None
                &&& run.prior_stages@.len() == 0
                &&& run.bench_program@ == name@
                &&& run.bench_revision == revision
                &&& run.test_corpus_root == corpus_root
            },
            Err(e) => harness::layout_fault(bench_dir@, kind, text::texts(dirs@)) == Some(e@),
        }),
{
    match harness::parse_benchmark_dir(bench_dir, kind, dirs) {
        Ok((c_source_dir, _)) => {
            let suite_root = if load_test_suite::has_suite(dirs) {
                Some(bench_dir.to_owned())
            } else {
                None
            };
            Ok(
                ProgramRun {
                    name: name.to_owned(),
                    c_source_dir,
                    suite_root,
                    stage_input: None,
                    prior_stages: Vec::new(),
                    bench_program: name.to_owned(),
                    bench_revision: revision,
                    test_corpus_root: corpus_root,
                },
            )
        },
        Err(e) => Err(e),
    }
}

/// A bench location whose suite is used in place of a snapshot's. The suite may
/// lie in it or in the program's directory below it.
#[derive(Debug)]
pub struct SuiteOverride {
    pub bench: String,
    /// Directories of the program's directory below the location.
    pub program_dirs: Vec<String>,
    /// Revision of that directory.
    pub program_revision: Option<String>,
    /// Directories of the location itself.
    pub bench_dirs: Vec<String>,
    /// Revision of the location.
    pub bench_revision: Option<String>,
}

/// The suite that an override chooses, and its revision.
pub open spec fn overriding_suite(o: SuiteOverride, name: Seq<char>) -> Option<
    (Seq<char>, Option<String>),
> {
    if load_test_suite::kind_of(text::texts(o.program_dirs@)) is Some {
        Some((path::joined(o.bench@, name), o.program_revision))
    } else if load_test_suite::kind_of(text::texts(o.bench_dirs@)) is Some {
        Some((o.bench@, o.bench_revision))
    } else {
        None
    }
}

/// Why a run cannot resume from a snapshot, if it cannot.
pub open spec fn resume_fault(
    snapshot: Seq<char>,
    name: Seq<char>,
    manifest: Result<StageManifest, String>,
    has_c_source: bool,
    suite_override: Option<SuiteOverride>,
) -> Option<Seq<char>> {
    match manifest {
        Err(e) => Some(
            "snapshot "@ + snapshot + " has no readable stage manifest ("@ + e@
                + "); only outputs of a stage-aware run can be resumed from"@,
        ),
        Ok(_) => if !has_c_source {
            Some(
                "snapshot "@ + snapshot + " carries no C source at "@ + path::joined(
                    path::joined(snapshot, stage_manifest::HARVEST_META_DIR@),
                    stage_manifest::C_SOURCE_DIR@,
                ),
            )
        } else {
            match suite_override {
                Some(o) => if overriding_suite(o, name) is None {
                    Some(
                        "--test-case "@ + o.bench@
                            + " holds no external test suite (looked in it and in "@
                            + text::debug_of(name) + ")"@,
                    )
                } else {
                    None
                },
                None => None,
            }
        },
    }
}

/// Whether a run resumes from a snapshot as it must: every input comes from the
/// snapshot itself, except for a suite that is overridden, which also replaces what
/// the revision describes.
pub open spec fn resumes_as(
    run: ProgramRun,
    snapshot: Seq<char>,
    name: Seq<char>,
    manifest: StageManifest,
    carried_dirs: Seq<Seq<char>>,
    suite_override: Option<SuiteOverride>,
) -> bool {
    let meta = path::joined(snapshot, stage_manifest::HARVEST_META_DIR@);
    &&& run.name@ == name
    &&& run.c_source_dir@ == path::joined(meta, stage_manifest::C_SOURCE_DIR@)
    &&& text::opt_text(run.stage_input) == Some(snapshot)
    &&& run.prior_stages@ == manifest.stages@
    &&& run.bench_program == manifest.bench_program
    &&& run.test_corpus_root == manifest.test_corpus_root
    &&& match suite_override {
        Some(o) => match overriding_suite(o, name) {
            Some((dir, revision)) => {
                &&& text::opt_text(run.suite_root) == Some(dir)
                &&& run.bench_revision == revision
            },
            None => false,
        },
        None => {
            &&& text::opt_text(run.suite_root) == (if load_test_suite::kind_of(
                carried_dirs,
            ) is Some {
                Some(path::joined(meta, stage_manifest::SUITE_DIR@))
            } else {
                None
            })
            &&& run.bench_revision == manifest.bench_revision
        },
    }
}

/// The inputs of a run that resumes from a snapshot. The bench directory is not
/// consulted, and need not exist any more. `carried_dirs` are the directories of
/// the suite that the snapshot carries.
pub fn resume_from(
    snapshot: &str,
    name: &str,
    manifest: Result<StageManifest, String>,
    has_c_source: bool,
    carried_dirs: &Vec<String>,
    suite_override: Option<SuiteOverride>,
) -> (r: Result<ProgramRun, String>)
    ensures
        ({
            let fault = resume_fault(snapshot@, name@, manifest, has_c_source, suite_override);
            match r {
                Ok(run) => {
                    &&& fault is None
                    &&& manifest is Ok
                    &&& resumes_as(
                        run,
                        snapshot@,
                        name@,
                        manifest->Ok_0,
                        text::texts(carried_dirs@),
                        suite_override,
                    )
                },
                Err(e) => fault == Some(e@),
            }
        }),
{
    match manifest {
        Err(error) => {
            let mut e = "snapshot ".to_owned();
            e.append(snapshot);
            e.append(" has no readable stage manifest (");
            e.append(error.as_str());
            e.append("); only outputs of a stage-aware run can be resumed from");
            Err(e)
        },
        Ok(manifest) => {
            let c_source_dir = stage_manifest::c_source_dir(snapshot);
            if !has_c_source {
                let mut e = "snapshot ".to_owned();
                e.append(snapshot);
                e.append(" carries no C source at ");
                e.append(c_source_dir.as_str());
                return Err(e);
            }
            let mut suite_root: Option<String> = None;
            let mut bench_revision = manifest.bench_revision;
            match suite_override {
                Some(o) => {
                    if load_test_suite::has_suite(&o.program_dirs) {
                        suite_root = Some(path::join(o.bench.as_str(), name));
                        bench_revision = o.program_revision;
                    } else if load_test_suite::has_suite(&o.bench_dirs) {
                        suite_root = Some(o.bench);
                        bench_revision = o.bench_revision;
                    } else {
                        let mut e = "--test-case ".to_owned();
                        e.append(o.bench.as_str());
                        e.append(" holds no external test suite (looked in it and in ");
                        e.append(text::debug(name).as_str());
                        e.append(")");
                        return Err(e);
                    }
                },
                None => {
                    if load_test_suite::has_suite(carried_dirs) {
                        suite_root = Some(stage_manifest::suite_dir(snapshot));
                    }
                },
            }
            Ok(
                ProgramRun {
                    name: name.to_owned(),
                    c_source_dir,
                    suite_root,
                    stage_input: Some(snapshot.to_owned()),
                    prior_stages: manifest.stages,
                    bench_program: manifest.bench_program,
                    bench_revision,
                    test_corpus_root: manifest.test_corpus_root,
                },
            )
        },
    }
}

/// A snapshot stands on its own: without an override, what a resumed run reads does
/// not depend on anything but the snapshot.
pub proof fn snapshots_are_self_contained(
    a: ProgramRun,
    b: ProgramRun,
    snapshot: Seq<char>,
    name: Seq<char>,
    manifest: StageManifest,
    carried_dirs: Seq<Seq<char>>,
)
    requires
        resumes_as(a, snapshot, name, manifest, carried_dirs, None),
        resumes_as(b, snapshot, name, manifest, carried_dirs, None),
    ensures
        a.c_source_dir@ == b.c_source_dir@,
        text::opt_text(a.suite_root) == text::opt_text(b.suite_root),
        a.prior_stages@ == b.prior_stages@,
        a.bench_revision == b.bench_revision,
        a.test_corpus_root == b.test_corpus_root,
{
}

// ── The manifest ─────────────────────────────────────────────────────────

/// What a manifest records beside the run and its options.
#[derive(Debug)]
pub struct ManifestFacts {
    /// Names of the reference directories found in quarantine.
    pub rejected: Vec<String>,
    pub harvest_version: String,
    /// Revision of the checkout of the toolchain contract. It is read again rather
    /// than carried: the checkout can move under a resumed run.
    pub test_corpus_revision: Option<String>,
    /// Seconds since the epoch.
    pub now_unix: u64,
}

/// Whether a manifest records a run as it must.
pub open spec fn records(
    m: StageManifest,
    run: ProgramRun,
    opts: RunOptions,
    facts: ManifestFacts,
) -> bool {
    &&& m.schema_version == 1
    &&& m.stages@ == config::ordered(run.prior_stages@ + opts.stages@)
    &&& m.agent == opts.agent
    &&& text::opt_text(m.model) == text::opt_text(opts.model)
    &&& m.prompt_mode@ == opts.mode()
    &&& m.harvest_version == facts.harvest_version
    &&& m.bench_program@ == run.bench_program@
    &&& text::opt_text(m.bench_revision) == text::opt_text(run.bench_revision)
    &&& text::opt_text(m.test_corpus_root) == text::opt_text(run.test_corpus_root)
    &&& m.test_corpus_revision == facts.test_corpus_revision
    &&& text::is_ascending(text::texts(m.reference_modified@))
    &&& forall|t: Seq<char>| #[trigger]
        text::texts(m.reference_modified@).contains(t) <==> text::texts(facts.rejected@).contains(t)
    &&& m.created_unix == facts.now_unix
}

/// The manifest that a run stamps its output with. Resuming appends to the history
/// of the input snapshot.
pub fn stage_manifest_of(run: &ProgramRun, opts: &RunOptions, facts: ManifestFacts) -> (r:
    StageManifest)
    ensures
        records(r, *run, *opts, facts),
{
    let mut stages = config::copy_stages(&run.prior_stages);
    let mut i: usize = 0;
    while i < opts.stages.len()
        invariant
            i <= opts.stages@.len(),
            stages@ == run.prior_stages@ + opts.stages@.take(i as int),
        decreases opts.stages@.len() - i,
    {
        stages.push(opts.stages[i]);
        assert(opts.stages@.take(i + 1) =~= opts.stages@.take(i as int).push(
            opts.stages@[i as int],
        ));
        i = i + 1;
    }
    assert(opts.stages@.take(i as int) =~= opts.stages@);
    StageManifest {
        schema_version: 1,
        stages: config::order_stages(&stages),
        agent: opts.agent,
        model: text::copy_opt(&opts.model),
        prompt_mode: opts.prompt_mode().to_owned(),
        harvest_version: facts.harvest_version,
        bench_program: run.bench_program.clone(),
        bench_revision: text::copy_opt(&run.bench_revision),
        test_corpus_root: text::copy_opt(&run.test_corpus_root),
        test_corpus_revision: facts.test_corpus_revision,
        reference_modified: text::distinct_sorted(&facts.rejected),
        created_unix: facts.now_unix,
    }
}

/// The warning about reference directories that an agent modified, if any did.
pub open spec fn modified_warning(modified: Seq<Seq<char>>) -> Option<Seq<char>> {
    if modified.len() == 0 {
        None
    } else {
        Some(
            "An agent modified read-only reference input(s): "@ + text::join_of(modified, ", "@)
                + ". The change was discarded; copies are preserved under "@
                + stage_manifest::HARVEST_META_DIR@ + "/"@ + stage_manifest::REJECTED_DIR@
                + "/. Treat this run's results with suspicion."@,
        )
    }
}

pub fn warn_of_modified(m: &StageManifest) -> (r: Option<String>)
    ensures
        text::opt_text(r) == modified_warning(text::texts(m.reference_modified@)),
{
    if m.reference_modified.len() == 0 {
        return None;
    }
    let mut w = "An agent modified read-only reference input(s): ".to_owned();
    w.append(text::join(&m.reference_modified, ", ").as_str());
    w.append(". The change was discarded; copies are preserved under ");
    w.append(stage_manifest::HARVEST_META_DIR);
    w.append("/");
    w.append(stage_manifest::REJECTED_DIR);
    w.append("/. Treat this run's results with suspicion.");
    Some(w)
}

/// Provenance is carried forward: the manifest of a run that resumed from a
/// snapshot has every stage of the snapshot's history and of its own, in pipeline
/// order, and names the same bench test case and checkout.
pub proof fn history_is_carried_forward(
    run: ProgramRun,
    snapshot: Seq<char>,
    name: Seq<char>,
    before: StageManifest,
    carried_dirs: Seq<Seq<char>>,
    suite_override: Option<SuiteOverride>,
    opts: RunOptions,
    facts: ManifestFacts,
    after: StageManifest,
)
    requires
        resumes_as(run, snapshot, name, before, carried_dirs, suite_override),
        records(after, run, opts, facts),
    ensures
        config::in_order(after.stages@),
        forall|s: Stage| #[trigger]
            after.stages@.contains(s) <==> before.stages@.contains(s) || opts.stages@.contains(s),
        after.bench_program@ == before.bench_program@,
        text::opt_text(after.test_corpus_root) == text::opt_text(before.test_corpus_root),
        suite_override is None ==> text::opt_text(after.bench_revision) == text::opt_text(
            before.bench_revision,
        ),
{
    let all = before.stages@ + opts.stages@;
    config::ordering_law(all);
    assert forall|s: Stage| #[trigger]
        after.stages@.contains(s) <==> before.stages@.contains(s) || opts.stages@.contains(s) by {
        if before.stages@.contains(s) {
            let i = choose|i: int| 0 <= i < before.stages@.len() && before.stages@[i] == s;
            assert(all[i] == s);
        }
        if opts.stages@.contains(s) {
            let i = choose|i: int| 0 <= i < opts.stages@.len() && opts.stages@[i] == s;
            assert(all[before.stages@.len() + i] == s);
        }
        if all.contains(s) {
            let i = choose|i: int| 0 <= i < all.len() && all[i] == s;
            if i < before.stages@.len() {
                assert(before.stages@[i] == s);
            } else {
                assert(opts.stages@[i - before.stages@.len()] == s);
            }
        }
    }
}

// ── Laws ─────────────────────────────────────────────────────────────────

proof fn found_below(root: Seq<char>, children: Seq<SubDir>, p: Seq<char>)
    ensures
        snapshots_below(root, children).contains(p) <==> exists|i: int|
            0 <= i < children.len() && text::texts((#[trigger] children[i]).meta_files@).contains(
                "stage.json"@,
            ) && p == path::joined(root, children[i].name@),
    decreases children.len(),
{
    if children.len() > 0 {
        let front = children.drop_last();
        let last = children.last();
        found_below(root, front, p);
        let before = snapshots_below(root, front);
        let all = snapshots_below(root, children);
        if before.contains(p) {
            let k = choose|k: int| 0 <= k < before.len() && before[k] == p;
            assert(all[k] == p);
            let i = choose|i: int|
                0 <= i < front.len() && text::texts((#[trigger] front[i]).meta_files@).contains(
                    "stage.json"@,
                ) && p == path::joined(root, front[i].name@);
            assert(children[i] == front[i]);
        }
        if last.holds_manifest() {
            assert(all[before.len() as int] == path::joined(root, last.name@));
            assert(children[children.len() - 1] == last);
        }
        if exists|i: int|
            0 <= i < children.len() && text::texts((#[trigger] children[i]).meta_files@).contains(
                "stage.json"@,
            ) && p == path::joined(root, children[i].name@) {
            let i = choose|i: int|
                0 <= i < children.len() && text::texts(
                    (#[trigger] children[i]).meta_files@,
                ).contains("stage.json"@) && p == path::joined(root, children[i].name@);
            if i < front.len() {
                assert(front[i] == children[i]);
            }
        }
    }
}

/// A directory with a manifest is a snapshot itself. Otherwise the snapshots are
/// those of its subdirectories that have one, all of them, in order.
pub proof fn snapshots_are_told_by_their_manifests(
    root: &str,
    meta_files: &Vec<String>,
    children: &Vec<SubDir>,
    r: Vec<String>,
    p: Seq<char>,
)
    requires
        call_ensures(translated_program_dirs, (root, meta_files, children), r),
    ensures
        text::texts(meta_files@).contains("stage.json"@) ==> text::texts(r@) == seq![root@],
        !text::texts(meta_files@).contains("stage.json"@) ==> (text::texts(r@).contains(p)
            <==> exists|i: int|
            0 <= i < children@.len() && text::texts((#[trigger] children@[i]).meta_files@).contains(
                "stage.json"@,
            ) && p == path::joined(root@, children@[i].name@)),
{
    broadcast use vstd::seq_lib::group_to_multiset_ensures;

    found_below(root@, children@, p);
    let found = snapshots_below(root@, children@);
    if !text::texts(meta_files@).contains("stage.json"@) {
        assert(text::texts(r@).to_multiset().count(p) == found.to_multiset().count(p));
    }
}

proof fn kept_are_those(dirs: Seq<Seq<char>>, matched: Seq<bool>, keep: bool, p: Seq<char>)
    requires
        matched.len() == dirs.len(),
    ensures
        kept_of(dirs, matched, keep).contains(p) <==> exists|i: int|
            0 <= i < dirs.len() && #[trigger] dirs[i] == p && matched[i] == keep,
    decreases dirs.len(),
{
    if dirs.len() > 0 {
        let front = dirs.drop_last();
        let m = matched.drop_last();
        kept_are_those(front, m, keep, p);
        let before = kept_of(front, m, keep);
        let all = kept_of(dirs, matched, keep);
        if before.contains(p) {
            let k = choose|k: int| 0 <= k < before.len() && before[k] == p;
            assert(all[k] == p);
            let i = choose|i: int| 0 <= i < front.len() && #[trigger] front[i] == p && m[i] == keep;
            assert(dirs[i] == p && matched[i] == keep);
        }
        if matched.last() == keep {
            assert(all[before.len() as int] == dirs.last());
            assert(dirs[dirs.len() - 1] == dirs.last());
        }
        if exists|i: int| 0 <= i < dirs.len() && #[trigger] dirs[i] == p && matched[i] == keep {
            let i = choose|i: int|
                0 <= i < dirs.len() && #[trigger] dirs[i] == p && matched[i] == keep;
            if i < front.len() {
                assert(front[i] == p && m[i] == keep);
            }
        }
    }
}

/// A filter keeps the programs for which the pattern matched, an exclusion those for
/// which it did not.
pub proof fn filters_keep_what_they_should(
    dirs: &Vec<String>,
    matched: &Vec<bool>,
    keep: bool,
    r: (Vec<String>, Vec<String>),
    p: Seq<char>,
)
    requires
        matched@.len() == dirs@.len(),
        call_ensures(split_matches, (dirs, matched, keep), r),
    ensures
        text::texts(r.0@).contains(p) <==> exists|i: int|
            0 <= i < dirs@.len() && (#[trigger] dirs@[i])@ == p && matched@[i] == keep,
{
    let all = text::texts(dirs@);
    kept_are_those(all, matched@, keep, p);
    if text::texts(r.0@).contains(p) {
        let i = choose|i: int| 0 <= i < all.len() && #[trigger] all[i] == p && matched@[i] == keep;
        assert(dirs@[i]@ == p && matched@[i] == keep);
    }
    if exists|i: int| 0 <= i < dirs@.len() && (#[trigger] dirs@[i])@ == p && matched@[i] == keep {
        let i = choose|i: int|
            0 <= i < dirs@.len() && (#[trigger] dirs@[i])@ == p && matched@[i] == keep;
        assert(all[i] == p && matched@[i] == keep);
    }
}

/// A pattern is tried on the last component of a program's path.
pub proof fn programs_match_by_name(pattern: Seq<char>, dirs: Seq<Seq<char>>, i: int, name: Seq<char>)
    requires
        0 <= i < dirs.len(),
        path::file_name_of(dirs[i]) == Some(name),
    ensures
        matches_of(pattern, dirs)[i] <==> pattern::regex_finds(pattern, name),
{
}

/// A program whose test case has the right layout starts from the bench: its C source
/// is the test case, its suite, if there is one, lies beside it, and no stage has run
/// before.
pub proof fn fresh_runs_start_from_the_bench(
    bench_dir: &str,
    name: &str,
    kind: PathKind,
    dirs: &Vec<String>,
    revision: Option<String>,
    corpus_root: Option<String>,
    r: Result<ProgramRun, String>,
)
    requires
        call_ensures(start_from_bench, (bench_dir, name, kind, dirs, revision, corpus_root), r),
    ensures
        ({
            let d = text::texts(dirs@);
            &&& r is Ok <==> {
                &&& kind == PathKind::Directory
                &&& d.contains("test_case"@)
                &&& d.contains("gtest_suite"@) || ((d.contains("test_case/src"@) || d.contains(
                    "test_case/app"@,
                )) && d.contains("test_vectors"@))
            }
            &&& r matches Ok(run) ==> {
                &&& run.name@ == name@
                &&& run.bench_program@ == name@
                &&& run.c_source_dir@ == path::joined(bench_dir@, "test_case"@)
                &&& run.suite_root is Some <==> d.contains("gtest_suite"@) || d.contains(
                    "test_vectors"@,
                )
                &&& run.suite_root matches Some(s) ==> s@ == bench_dir@
                &&& run.stage_input is None
                &&& run.prior_stages@.len() == 0
                &&& run.bench_revision == revision
                &&& run.test_corpus_root == corpus_root
            }
        }),
{
    load_test_suite::suites_need_one_of(text::texts(dirs@));
}

/// A resumed run needs a manifest and the C source in the snapshot, and a suite where
/// one is named in place of the snapshot's. It continues the snapshot: the package and
/// the C source come from there, the stages so far and where the program came from are
/// kept, and the suite is the named one, or else the carried one.
pub proof fn resumed_runs_continue_the_snapshot(
    snapshot: &str,
    name: &str,
    manifest: Result<StageManifest, String>,
    has_c_source: bool,
    carried_dirs: &Vec<String>,
    suite_override: Option<SuiteOverride>,
    r: Result<ProgramRun, String>,
)
    requires
        call_ensures(
            resume_from,
            (snapshot, name, manifest, has_c_source, carried_dirs, suite_override),
            r,
        ),
    ensures
        ({
            let meta = path::joined(snapshot@, ".harvest"@);
            let suite_in = |dirs: Seq<Seq<char>>|
                dirs.contains("gtest_suite"@) || dirs.contains("test_vectors"@);
            &&& r is Ok <==> {
                &&& manifest is Ok
                &&& has_c_source
                &&& suite_override matches Some(o) ==> suite_in(text::texts(o.program_dirs@))
                    || suite_in(text::texts(o.bench_dirs@))
            }
            &&& r matches Ok(run) ==> {
                &&& run.name@ == name@
                &&& run.stage_input matches Some(s) && s@ == snapshot@
                &&& run.c_source_dir@ == path::joined(meta, "c_src"@)
                &&& run.prior_stages@ == manifest->Ok_0.stages@
                &&& run.bench_program@ == manifest->Ok_0.bench_program@
                &&& run.test_corpus_root == manifest->Ok_0.test_corpus_root
                &&& suite_override is None ==> {
                    &&& run.suite_root is Some <==> suite_in(text::texts(carried_dirs@))
                    &&& run.suite_root matches Some(s) ==> s@ == path::joined(meta, "suite"@)
                    &&& run.bench_revision == manifest->Ok_0.bench_revision
                }
                &&& suite_override matches Some(o) ==> if suite_in(
                    text::texts(o.program_dirs@),
                ) {
                    &&& run.suite_root matches Some(s) && s@ == path::joined(o.bench@, name@)
                    &&& run.bench_revision == o.program_revision
                } else {
                    &&& run.suite_root matches Some(s) && s@ == o.bench@
                    &&& run.bench_revision == o.bench_revision
                }
            }
        }),
{
    load_test_suite::suites_need_one_of(text::texts(carried_dirs@));
    if let Some(o) = suite_override {
        load_test_suite::suites_need_one_of(text::texts(o.program_dirs@));
        load_test_suite::suites_need_one_of(text::texts(o.bench_dirs@));
    }
}

/// A manifest tells what made the snapshot: the stages of before and of this run, the
/// agent, the model and the mode of this run, where the program came from, and which
/// references were found changed.
pub proof fn manifests_tell_what_was_run(
    run: &ProgramRun,
    opts: &RunOptions,
    facts: ManifestFacts,
    r: StageManifest,
    s: Stage,
    name: Seq<char>,
)
    requires
        call_ensures(stage_manifest_of, (run, opts, facts), r),
    ensures
        r.schema_version == 1,
        r.stages@.contains(s) <==> run.prior_stages@.contains(s) || opts.stages@.contains(s),
        r.agent == opts.agent,
        text::opt_text(r.model) == text::opt_text(opts.model),
        r.prompt_mode@ == opts.mode(),
        r.bench_program@ == run.bench_program@,
        text::opt_text(r.bench_revision) == text::opt_text(run.bench_revision),
        text::opt_text(r.test_corpus_root) == text::opt_text(run.test_corpus_root),
        r.test_corpus_revision == facts.test_corpus_revision,
        r.harvest_version == facts.harvest_version,
        text::texts(r.reference_modified@).contains(name) <==> text::texts(
            facts.rejected@,
        ).contains(name),
        r.created_unix == facts.now_unix,
{
    let all = run.prior_stages@ + opts.stages@;
    config::ordering_law(all);
    assert(config::ordered(all).contains(s) == all.contains(s));
    if run.prior_stages@.contains(s) {
        let i = choose|i: int| 0 <= i < run.prior_stages@.len() && run.prior_stages@[i] == s;
        assert(all[i] == s);
    }
    if opts.stages@.contains(s) {
        let i = choose|i: int| 0 <= i < opts.stages@.len() && opts.stages@[i] == s;
        assert(all[run.prior_stages@.len() + i] == s);
    }
    if all.contains(s) {
        let i = choose|i: int| 0 <= i < all.len() && all[i] == s;
        if i < run.prior_stages@.len() {
            assert(run.prior_stages@[i] == s);
        } else {
            assert(opts.stages@[i - run.prior_stages@.len()] == s);
        }
    }
}

/// There is a warning exactly if a reference was found changed.
pub proof fn changed_references_are_warned_of(m: &StageManifest, r: Option<String>)
    requires
        call_ensures(warn_of_modified, (m,), r),
    ensures
        r is Some <==> m.reference_modified@.len() > 0,
{
    assert(text::texts(m.reference_modified@).len() == m.reference_modified@.len());
}

} // verus!
