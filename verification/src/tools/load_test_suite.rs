//! Loads a benchmark test case's external test suite.
//!
//! The suite is read pristine from the bench program directory, not from a
//! translation snapshot: the snapshot's copy is whatever the grader staged on
//! some earlier run and can be stale.

use crate::config::Config;
use crate::fs::raw_dir;
use crate::fs::raw_dir::{DiskNode, KeepTop, RawDir, SkipDirs};
use crate::full_source;
use crate::full_source::{ExternalTestSuite, TestSuiteKind};
use crate::json;
use crate::text;
use vstd::prelude::*;
use vstd::string::*;

verus! {

/// The tool's configured bench program directory.
pub open spec fn input_path_of(config: Config) -> Option<Seq<char>> {
    match json::member_of(json::member_views(config.tools@), "load_test_suite"@) {
        Some(v) => json::get_str_of(v, "input_path"@),
        None => None,
    }
}

/// Reads `tools.load_test_suite.input_path` from a run's configuration. With it
/// the pipeline decides whether the suite is loadable.
pub fn configured_input_path(config: &Config) -> (r: Option<String>)
    ensures
        (match r {
            Some(p) => input_path_of(*config) == Some(p@),
            None => input_path_of(*config) is None,
        }),
{
    match json::find_member(&config.tools, "load_test_suite") {
        Some(v) => match v.get_str("input_path") {
            Some(s) => Some(s.to_owned()),
            None => None,
        },
        None => None,
    }
}

/// Whether all the directories of a kind are among `subdirs`.
pub open spec fn is_present(subdirs: Seq<Seq<char>>, kind: TestSuiteKind) -> bool {
    forall|i: int|
        0 <= i < full_source::suite_dirs(kind).len() ==> subdirs.contains(
            #[trigger] full_source::suite_dirs(kind)[i],
        )
}

/// The kind that a directory with these subdirectories carries. GoogleTest comes
/// first, then the cando2 runner, then plain vectors.
pub open spec fn kind_of(subdirs: Seq<Seq<char>>) -> Option<TestSuiteKind> {
    if is_present(subdirs, TestSuiteKind::Gtest) {
        Some(TestSuiteKind::Gtest)
    } else if is_present(subdirs, TestSuiteKind::Lib) {
        Some(TestSuiteKind::Lib)
    } else if is_present(subdirs, TestSuiteKind::Bin) {
        Some(TestSuiteKind::Bin)
    } else {
        None
    }
}

pub open spec fn missing_message(dir: Seq<char>, kind: TestSuiteKind) -> Seq<char> {
    "test suite harness "@ + kind.spelled() + " requested, but "@ + dir + " does not contain "@
        + text::join_of(full_source::suite_dirs(kind), " + "@)
}

pub open spec fn no_suite_message(dir: Seq<char>) -> Seq<char> {
    "no external test suite found in "@ + dir
        + " (looked for gtest_suite/, runner/ + test_vectors/, test_vectors/)"@
}

fn present(subdirs: &Vec<String>, kind: TestSuiteKind) -> (r: bool)
    ensures
        r == is_present(text::texts(subdirs@), kind),
{
    let dirs = kind.dirs();
    let ghost names = text::texts(dirs@);
    let mut i: usize = 0;
    while i < dirs.len()
        invariant
            i <= dirs@.len(),
            names == text::texts(dirs@),
            names == full_source::suite_dirs(kind),
            forall|j: int| 0 <= j < i ==> text::texts(subdirs@).contains(#[trigger] names[j]),
        decreases dirs@.len() - i,
    {
        assert(names[i as int] == dirs@[i as int]@);
        if !text::holds(subdirs, dirs[i].as_str()) {
            assert(!text::texts(subdirs@).contains(full_source::suite_dirs(kind)[i as int]));
            return false;
        }
        i = i + 1;
    }
    true
}

/// True when a directory with these subdirectories holds an external test suite
/// of any recognized kind.
pub fn has_suite(subdirs: &Vec<String>) -> (r: bool)
    ensures
        r == (kind_of(text::texts(subdirs@)) is Some),
{
    present(subdirs, TestSuiteKind::Gtest) || present(subdirs, TestSuiteKind::Lib) || present(
        subdirs,
        TestSuiteKind::Bin,
    )
}

/// Determines which kind of external suite `dir`, with these subdirectories,
/// carries, honoring an explicit override.
pub fn detect_kind(dir: &str, subdirs: &Vec<String>, forced: Option<TestSuiteKind>) -> (r: Result<
    TestSuiteKind,
    String,
>)
    ensures
        (match forced {
            Some(kind) => match r {
                Ok(k) => is_present(text::texts(subdirs@), kind) && k == kind,
                Err(e) => !is_present(text::texts(subdirs@), kind) && e@ == missing_message(
                    dir@,
                    kind,
                ),
            },
            None => match r {
                Ok(k) => kind_of(text::texts(subdirs@)) == Some(k),
                Err(e) => kind_of(text::texts(subdirs@)) is None && e@ == no_suite_message(dir@),
            },
        }),
{
    match forced {
        Some(kind) => {
            if present(subdirs, kind) {
                return Ok(kind);
            }
            let mut e = "test suite harness ".to_owned();
            e.append(kind.as_str());
            e.append(" requested, but ");
            e.append(dir);
            e.append(" does not contain ");
            let dirs = kind.dirs();
            e.append(text::join(&dirs, " + ").as_str());
            Err(e)
        },
        None => {
            if present(subdirs, TestSuiteKind::Gtest) {
                Ok(TestSuiteKind::Gtest)
            } else if present(subdirs, TestSuiteKind::Lib) {
                Ok(TestSuiteKind::Lib)
            } else if present(subdirs, TestSuiteKind::Bin) {
                Ok(TestSuiteKind::Bin)
            } else {
                let mut e = "no external test suite found in ".to_owned();
                e.append(dir);
                e.append(" (looked for gtest_suite/, runner/ + test_vectors/, test_vectors/)");
                Err(e)
            }
        },
    }
}

/// A suite of some kind is there exactly if a GoogleTest suite or test vectors are: a
/// GoogleTest suite comes first, vectors with a runner are a library's, and vectors
/// alone are an executable's.
pub proof fn suites_need_one_of(subdirs: Seq<Seq<char>>)
    ensures
        kind_of(subdirs) is Some <==> subdirs.contains("gtest_suite"@) || subdirs.contains(
            "test_vectors"@,
        ),
        kind_of(subdirs) == Some(TestSuiteKind::Gtest) <==> subdirs.contains("gtest_suite"@),
        kind_of(subdirs) == Some(TestSuiteKind::Lib) <==> !subdirs.contains("gtest_suite"@)
            && subdirs.contains("runner"@) && subdirs.contains("test_vectors"@),
        kind_of(subdirs) == Some(TestSuiteKind::Bin) <==> !subdirs.contains("gtest_suite"@)
            && !subdirs.contains("runner"@) && subdirs.contains("test_vectors"@),
{
    kinds_need_their_dirs(subdirs);
}

proof fn kinds_need_their_dirs(subdirs: Seq<Seq<char>>)
    ensures
        is_present(subdirs, TestSuiteKind::Gtest) <==> subdirs.contains("gtest_suite"@),
        is_present(subdirs, TestSuiteKind::Lib) <==> subdirs.contains("runner"@)
            && subdirs.contains("test_vectors"@),
        is_present(subdirs, TestSuiteKind::Bin) <==> subdirs.contains("test_vectors"@),
{
    let g = full_source::suite_dirs(TestSuiteKind::Gtest);
    let l = full_source::suite_dirs(TestSuiteKind::Lib);
    let b = full_source::suite_dirs(TestSuiteKind::Bin);
    assert(g.len() == 1 && g[0] == "gtest_suite"@);
    assert(l.len() == 2 && l[0] == "runner"@ && l[1] == "test_vectors"@);
    assert(b.len() == 1 && b[0] == "test_vectors"@);
}

/// The kind of a suite is told by its directories. A kind that is asked for is taken
/// exactly if its directories are there.
pub proof fn kinds_are_detected(
    dir: &str,
    subdirs: &Vec<String>,
    forced: Option<TestSuiteKind>,
    r: Result<TestSuiteKind, String>,
)
    requires
        call_ensures(detect_kind, (dir, subdirs, forced), r),
    ensures
        ({
            let d = text::texts(subdirs@);
            let gtest = d.contains("gtest_suite"@);
            let runner = d.contains("runner"@);
            let vectors = d.contains("test_vectors"@);
            &&& forced is None ==> {
                &&& r is Ok <==> gtest || vectors
                &&& r matches Ok(k) ==> k == (if gtest {
                    TestSuiteKind::Gtest
                } else if runner {
                    TestSuiteKind::Lib
                } else {
                    TestSuiteKind::Bin
                })
            }
            &&& forced matches Some(k) ==> {
                &&& r is Ok <==> (match k {
                    TestSuiteKind::Gtest => gtest,
                    TestSuiteKind::Lib => runner && vectors,
                    TestSuiteKind::Bin => vectors,
                })
                &&& r is Ok ==> r->Ok_0 == k
            }
        }),
{
    kinds_need_their_dirs(text::texts(subdirs@));
}

/// A loaded suite holds the directories of its kind and nothing else.
pub proof fn suites_hold_only_their_directories(
    t: &LoadTestSuite,
    input_path: Option<&str>,
    harness: Option<TestSuiteKind>,
    entries: &Vec<(String, DiskNode)>,
    r: Result<ExternalTestSuite, String>,
    name: Seq<char>,
)
    requires
        call_ensures(LoadTestSuite::run, (t, input_path, harness, entries), r),
    ensures
        input_path is None ==> r is Err,
        r matches Ok(suite) ==> {
            &&& harness matches Some(k) ==> suite.kind == k
            &&& raw_dir::find(suite.dir.view(), name) is Some ==> (match suite.kind {
                TestSuiteKind::Gtest => name == "gtest_suite"@,
                TestSuiteKind::Lib => name == "runner"@ || name == "test_vectors"@,
                TestSuiteKind::Bin => name == "test_vectors"@,
            })
        },
{
    if let Ok(suite) = r {
        let views = raw_dir::disk_views(entries@);
        let keep = choose|keep: KeepTop|
            #![trigger raw_dir::kept(views, keep)]
            (forall|n: Seq<char>|
                #[trigger] raw_dir::is_kept(keep, n) == full_source::suite_dirs(
                    suite.kind,
                ).contains(n)) && raw_dir::first_special(raw_dir::kept(views, keep)) is None
                && suite.dir.view() == raw_dir::populated(
                raw_dir::kept(views, keep),
                SkipDirs::BuildArtifacts,
            ).dir;
        if raw_dir::find(suite.dir.view(), name) is Some {
            raw_dir::only_kept_names(views, keep, SkipDirs::BuildArtifacts, name);
            assert(raw_dir::is_kept(keep, name));
        }
    }
}

/// The tool that loads the suite.
#[derive(Debug, Clone, Copy, PartialEq, Eq, Structural)]
pub struct LoadTestSuite;

/// The names of the directories among the entries of a directory.
pub open spec fn subdir_names(entries: Seq<(Seq<char>, raw_dir::DiskView)>) -> Seq<Seq<char>>
    decreases entries.len(),
{
    if entries.len() == 0 {
        seq![]
    } else {
        let before = subdir_names(entries.drop_last());
        if entries.last().1 is Dir {
            before.push(entries.last().0)
        } else {
            before
        }
    }
}

fn subdirs_of(entries: &Vec<(String, DiskNode)>) -> (r: Vec<String>)
    ensures
        text::texts(r@) == subdir_names(raw_dir::disk_views(entries@)),
{
    broadcast use text::group_texts;

    let ghost views = raw_dir::disk_views(entries@);
    let mut out: Vec<String> = Vec::new();
    let mut i: usize = 0;
    assert(views.take(0) =~= seq![]);
    assert(text::texts(out@) =~= seq![]);
    while i < entries.len()
        invariant
            i <= entries@.len(),
            views == raw_dir::disk_views(entries@),
            text::texts(out@) == subdir_names(views.take(i as int)),
        decreases entries@.len() - i,
    {
        assert(views.take(i + 1).drop_last() =~= views.take(i as int));
        assert(views.take(i + 1).last() == (entries@[i as int].0@, entries@[i as int].1.view()));
        if let DiskNode::Dir(_) = &entries[i].1 {
            let name = entries[i].0.clone();
            out.push(name);
        }
        i = i + 1;
    }
    assert(views.take(i as int) =~= views);
    out
}

impl LoadTestSuite {
    pub fn name(&self) -> (r: &'static str)
        ensures
            r@ == "load_test_suite"@,
    {
        "load_test_suite"
    }

    /// Takes the suite out of the entries of the bench program directory: its
    /// directories as top-level entries, without build output.
    pub fn run(
        &self,
        input_path: Option<&str>,
        harness: Option<TestSuiteKind>,
        entries: &Vec<(String, DiskNode)>,
    ) -> (r: Result<ExternalTestSuite, String>)
        ensures
            (match input_path {
                None => r matches Err(e) && e@
                    == "tools.load_test_suite.input_path is not set; the conform stage needs the bench program directory that holds the external test suite"@,
                Some(dir) => {
                    let views = raw_dir::disk_views(entries@);
                    let kind = match harness {
                        Some(k) => if is_present(subdir_names(views), k) {
                            Some(k)
                        } else {
                            None
                        },
                        None => kind_of(subdir_names(views)),
                    };
                    match r {
                        Ok(suite) => {
                            &&& kind == Some(suite.kind)
                            &&& suite.dir.wf()
                            &&& exists|keep: KeepTop|
                                #![trigger raw_dir::kept(views, keep)]
                                (forall|n: Seq<char>|
                                    #[trigger] raw_dir::is_kept(keep, n)
                                        == full_source::suite_dirs(suite.kind).contains(n))
                                    && raw_dir::first_special(raw_dir::kept(views, keep)) is None
                                    && suite.dir.view() == raw_dir::populated(
                                    raw_dir::kept(views, keep),
                                    SkipDirs::BuildArtifacts,
                                ).dir
                        },
                        Err(e) => match kind {
                            None => e@ == match harness {
                                Some(k) => missing_message(dir@, k),
                                None => no_suite_message(dir@),
                            },
                            Some(k) => exists|keep: KeepTop|
                                #![trigger raw_dir::kept(views, keep)]
                                (forall|n: Seq<char>|
                                    #[trigger] raw_dir::is_kept(keep, n)
                                        == full_source::suite_dirs(k).contains(n))
                                    && raw_dir::first_special(raw_dir::kept(views, keep)) is Some
                                    && e@ == raw_dir::link_message(
                                    raw_dir::first_special(raw_dir::kept(views, keep))->0,
                                ),
                        },
                    }
                },
            }),
    {
        let dir = match input_path {
            None => {
                return Err(
                    "tools.load_test_suite.input_path is not set; the conform stage needs the bench program directory that holds the external test suite".to_owned(),
                );
            },
            Some(d) => d,
        };
        let subdirs = subdirs_of(entries);
        let kind = match detect_kind(dir, &subdirs, harness) {
            Ok(k) => k,
            Err(e) => {
                return Err(e);
            },
        };
        let wanted = KeepTop::Named(kind.dirs());
        assert(forall|n: Seq<char>|
            #[trigger] raw_dir::is_kept(wanted, n) == full_source::suite_dirs(kind).contains(n));
        let ghost taken = raw_dir::kept(raw_dir::disk_views(entries@), wanted);
        match RawDir::populate_from_toplevel_selected(entries, &wanted, SkipDirs::BuildArtifacts) {
            Ok((suite, _, _)) => Ok(ExternalTestSuite { dir: suite, kind }),
            Err(e) => Err(e),
        }
    }
}

} // verus!
