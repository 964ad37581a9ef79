//! Tests of directories, frozen paths, references, snapshots and presets.

use harvest::cmake_presets::{find_test_config, preset_candidates, read_test_config, TestConfig};
use harvest::fs::freezer::{CopyError, DirectVerified, Freeze, FreezeError, Freezer};
use harvest::fs::frozen::{DirEntry, DiskEntry, GetNofollowError};
use harvest::fs::raw_dir::{DiskNode, GetFileError, RawDir, RawEntry, SetFileError};
use harvest::fs::reference::{hash_dir, ReferenceFate, ReferenceGuard};
use harvest::fs::{hidden_action, DiagnosticsDir, HiddenAction, InvalidInput, Symlink};
use harvest::full_source::{CargoPackage, TestSuiteKind};
use harvest::path::Component;
use harvest::stage_manifest::{
    c_source_dir, is_reserved_toplevel, is_snapshot, manifest_path, meta_dir, suite_dir,
    suite_dir_names,
};
use harvest::tools::load_test_suite::{detect_kind, has_suite, LoadTestSuite};
use harvest::tools::load_translated_package::load_snapshot;

fn texts(v: &[&str]) -> Vec<String> {
    v.iter().map(|s| s.to_string()).collect()
}

// ── Directories in memory ────────────────────────────────────────────────

fn dir(entries: Vec<(&str, RawEntry)>) -> RawDir {
    RawDir::from_entries(entries.into_iter().map(|(n, e)| (n.to_string(), e)).collect())
}

fn file(contents: &str) -> RawEntry {
    RawEntry::File(contents.as_bytes().to_vec())
}

fn sample() -> RawDir {
    dir(vec![
        (
            "dir1",
            RawEntry::Dir(dir(vec![
                ("dir2", RawEntry::Dir(dir(vec![("file2.txt", file("B"))]))),
                ("file3.txt", file("C")),
            ])),
        ),
        ("file1.txt", file("A")),
    ])
}

#[test]
fn files_recursive() {
    let root = sample();
    let files: Vec<(String, Vec<u8>)> =
        root.files_recursive().into_iter().map(|(p, c)| (p, c.clone())).collect();
    assert_eq!(
        files,
        [
            ("dir1/dir2/file2.txt".to_string(), b"B".to_vec()),
            ("dir1/file3.txt".to_string(), b"C".to_vec()),
            ("file1.txt".to_string(), b"A".to_vec())
        ]
    );
}

#[test]
fn set_file() {
    let mut root = RawDir::default();
    assert!(root.set_file("file1.txt", b"A".to_vec()).is_ok());
    assert!(root.set_file("dir1/dir2/file2.txt", b"B".to_vec()).is_ok());
    assert!(root.set_file("dir1/file3.txt", b"C".to_vec()).is_ok());
    assert_eq!(root.set_file("/etc/passwd", b"D".to_vec()), Err(SetFileError::AbsolutePath));
    assert_eq!(root.set_file("dir1/file3.txt", b"E".to_vec()), Err(SetFileError::AlreadyExists));
    assert_eq!(root.set_file(".", b"F".to_vec()), Err(SetFileError::Directory));
    assert_eq!(root.set_file("dir1/dir2/..", b"G".to_vec()), Err(SetFileError::Directory));
    assert_eq!(root.set_file("", b"H".to_vec()), Err(SetFileError::EmptyFileName));
    assert_eq!(root.set_file("../", b"I".to_vec()), Err(SetFileError::OutsideDir));
    assert_eq!(root.set_file("dir1/../../", b"J".to_vec()), Err(SetFileError::OutsideDir));
    assert_eq!(root.set_file("file1.txt/file4.txt", b"K".to_vec()), Err(SetFileError::UnderFile));
    assert_eq!(root, sample());
}

#[test]
fn a_file_that_was_set_is_read_back() {
    let mut root = sample();
    assert_eq!(root.get_file("dir1/../dir1/file3.txt").unwrap(), b"C");
    *root.get_file_mut("file1.txt").unwrap() = b"Z".to_vec();
    assert_eq!(root.get_file("file1.txt").unwrap(), b"Z");
    assert_eq!(root.get_file("dir1/file3.txt").unwrap(), b"C");
    assert_eq!(root.get_file("/a"), Err(GetFileError::AbsolutePath));
    assert_eq!(root.get_file("dir1"), Err(GetFileError::Directory));
    assert_eq!(root.get_file("nothing"), Err(GetFileError::DoesNotExist));
    assert_eq!(root.get_file("../x"), Err(GetFileError::OutsideDir));
    assert_eq!(root.get_file("file1.txt/x"), Err(GetFileError::UnderFile));
}

#[test]
fn a_directory_is_shown_as_a_tree() {
    assert_eq!(
        sample().display(0),
        "dir1\n  dir2\n    file2.txt (1B)\n  file3.txt (1B)\nfile1.txt (1B)\n"
    );
    assert_eq!(dir(vec![("a", file("xyz"))]).display(2), "    a (3B)\n");
}

fn disk_file(contents: &str) -> DiskNode {
    DiskNode::File(contents.as_bytes().to_vec())
}

fn disk(entries: Vec<(&str, DiskNode)>) -> Vec<(String, DiskNode)> {
    entries.into_iter().map(|(n, e)| (n.to_string(), e)).collect()
}

#[test]
fn populate_from_skips_symlinks() {
    let root = disk(vec![
        ("file.txt", disk_file("contents")),
        ("sub", DiskNode::Dir(disk(vec![("inner.txt", disk_file("inner"))]))),
        ("link_to_file", DiskNode::Special),
        ("link_to_dir", DiskNode::Special),
        ("broken_link", DiskNode::Special),
    ]);
    let (raw_dir, directories, files) = RawDir::populate_from(&root);
    assert_eq!(directories, 1);
    assert_eq!(files, 2);
    let mut names = raw_dir.toplevel_entries();
    names.sort();
    assert_eq!(names, vec!["file.txt".to_owned(), "sub".to_owned()]);
}

#[test]
fn to_absolute_path() {
    let diagnostics_dir = DiagnosticsDir { path: "/diagnostics/directory/path".to_string() };
    assert_eq!(
        diagnostics_dir.to_absolute_path("a/b/c").unwrap(),
        "/diagnostics/directory/path/a/b/c"
    );
    assert_eq!(diagnostics_dir.to_absolute_path("/already/absolute"), Err(InvalidInput));
    assert_eq!(Symlink::new("../target").contents(), "../target");
}

#[test]
fn hidden_entries_are_removed() {
    assert_eq!(hidden_action(".cache", true, false), HiddenAction::Remove);
    assert_eq!(hidden_action(".git", true, true), HiddenAction::Leave);
    assert_eq!(hidden_action(".git", true, false), HiddenAction::Remove);
    assert_eq!(hidden_action("src", true, false), HiddenAction::Enter);
    assert_eq!(hidden_action("a.rs", false, false), HiddenAction::Leave);
}

// ── Frozen paths ─────────────────────────────────────────────────────────

/// What the diagnostics directory holds in the tests below.
fn found(entries: Vec<(&str, DiskEntry)>) -> Vec<(String, DiskEntry)> {
    entries.into_iter().map(|(name, e)| (name.to_owned(), e)).collect()
}

fn found_dir(entries: Vec<(&str, DiskEntry)>) -> DiskEntry {
    DiskEntry::Dir(found(entries))
}

fn found_link(target: &str) -> DiskEntry {
    DiskEntry::Symlink(target.to_owned())
}

/// The target of a frozen symlink.
fn link_target(entry: DirEntry) -> String {
    match entry {
        DirEntry::Symlink(link) => link.contents().to_owned(),
        other => panic!("not a symlink: {other:?}"),
    }
}

fn entry_names(entry: &DirEntry) -> Vec<&str> {
    match entry {
        DirEntry::Dir(entries) => entries.iter().map(|(name, _)| name.as_str()).collect(),
        other => panic!("not a directory: {other:?}"),
    }
}

fn locked_paths(f: &Freeze) -> Vec<String> {
    f.locked.iter().map(|names| names.join("/")).collect()
}

#[test]
fn freeze() {
    // a/outer_file       A basic file
    // a/b/absolute_link  An absolute symlink (should not be followed).
    // a/b/c              A subdirectory.
    // a/b/inner_file     A basic file
    // a/b/dir_link       A symlink to a/
    // a/b/file_link      A symlink to a/outer_file
    let disk = found(vec![(
        "a",
        found_dir(vec![
            ("outer_file", DiskEntry::File),
            (
                "b",
                found_dir(vec![
                    ("absolute_link", found_link("/absolute")),
                    ("c", found_dir(vec![])),
                    ("inner_file", DiskEntry::File),
                    ("dir_link", found_link("../..")),
                    ("file_link", found_link("../outer_file")),
                ]),
            ),
        ]),
    )]);
    let mut freezer = Freezer::new();
    // Try freezing a few invalid paths first.
    let refused = [
        ("/absolute", FreezeError::InvalidInput),
        ("a/outer_file/c", FreezeError::NotADirectory),
        ("a/b/dir_link/b", FreezeError::NotADirectory),
        ("nonexistent", FreezeError::NotFound),
        ("nonexistent/b", FreezeError::NotFound),
    ];
    for (p, error) in refused {
        assert_eq!(freezer.freeze(p, &disk).unwrap_err(), error, "{p}");
    }
    assert!(freezer.frozen.is_empty());
    // Freeze a/b/inner_file
    let inner = freezer.freeze("a/b/inner_file", &disk).unwrap();
    assert!(inner.entry.is_file());
    assert_eq!(locked_paths(&inner), ["a/b/inner_file"]);
    // Freeze a/b/dir_link
    let link = freezer.freeze("a/b/dir_link", &disk).unwrap();
    assert_eq!(link_target(link.entry), "../..");
    assert!(link.locked.is_empty());
    // Freeze a/b: a/b/inner_file is not frozen again.
    let a_b = freezer.freeze("a/b", &disk).unwrap();
    assert_eq!(locked_paths(&a_b), ["a/b/c", "a/b"]);
    let entry = |n: &str| a_b.entry.get_nofollow(n).unwrap();
    assert_eq!(link_target(entry("absolute_link")), "/absolute");
    assert_eq!(entry_names(&entry("c")).len(), 0);
    assert!(entry("inner_file").is_file());
    assert_eq!(link_target(entry("dir_link")), "../..");
    assert_eq!(link_target(entry("file_link")), "../outer_file");
    assert_eq!(entry_names(&a_b.entry).len(), 5);
    // Freeze a/: nothing under b/ is frozen again.
    let a = freezer.freeze("a", &disk).unwrap();
    assert_eq!(locked_paths(&a), ["a/outer_file", "a"]);
    let a_b_2 = a.entry.get_nofollow("b").unwrap();
    assert!(a.entry.get_nofollow("outer_file").unwrap().is_file());
    assert_eq!(entry_names(&a.entry).len(), 2);
    let mut names = entry_names(&a_b_2);
    names.sort();
    assert_eq!(names, ["absolute_link", "c", "dir_link", "file_link", "inner_file"]);
    // The nested frozen paths were removed.
    assert_eq!(freezer.frozen.len(), 1);
    assert_eq!(freezer.frozen[0].names, ["a"]);
    // Paths below a frozen directory are looked up in it, not on disk.
    let nothing: Vec<(String, DiskEntry)> = vec![];
    let again = freezer.freeze("a/b/inner_file", &nothing).unwrap();
    assert!(again.entry.is_file());
    assert!(again.locked.is_empty());
    let refused = [
        ("a/missing", FreezeError::NotFound),
        ("a/outer_file/c", FreezeError::NotADirectory),
        ("a/../a", FreezeError::InvalidInput),
    ];
    for (p, error) in refused {
        assert_eq!(freezer.freeze(p, &nothing).unwrap_err(), error, "{p}");
    }
}

#[test]
fn frozen_paths_are_looked_up_without_links() {
    let disk = found(vec![("d", found_dir(vec![("f", DiskEntry::File), ("l", found_link("f"))]))]);
    let d = Freezer::new().freeze("d", &disk).unwrap().entry;
    assert!(d.is_dir() && !d.is_file() && !d.is_symlink());
    assert!(d.get_nofollow(".").unwrap().is_dir());
    assert!(d.get_nofollow("l").unwrap().is_symlink());
    assert_eq!(d.get_nofollow("l/x").unwrap_err(), GetNofollowError::NotADirectory);
    assert_eq!(d.get_nofollow("x").unwrap_err(), GetNofollowError::NotFound);
    assert_eq!(d.get_nofollow("..").unwrap_err(), GetNofollowError::LeavesDir);
}

#[test]
fn copies_are_frozen_where_they_are_put() {
    let disk = found(vec![("a", found_dir(vec![("b", found_dir(vec![("f", DiskEntry::File)]))]))]);
    let mut freezer = Freezer::new();
    let a_b = freezer.freeze("a/b", &disk).unwrap().entry;
    assert_eq!(freezer.copy_target("a/new", &disk).unwrap(), ["a", "new"]);
    // A copy that could not be written leaves nothing behind.
    let failed = freezer.copy_ro("a/new", a_b.copy(), &disk, Err("disk full".to_string()));
    assert!(matches!(failed, Err(CopyError::NotWritten(e)) if e == "disk full"));
    assert_eq!(freezer.frozen.len(), 1);
    freezer.copy_ro("a/new", a_b.copy(), &disk, Ok(())).unwrap();
    assert_eq!(freezer.frozen.len(), 2);
    // The copy still refers to the file at its first place.
    match freezer.freeze("a/new/f", &disk).unwrap().entry {
        DirEntry::File(names) => assert_eq!(names, ["a", "b", "f"]),
        other => panic!("not a file: {other:?}"),
    }
    for p in ["a/b", "a/b/f", "a/new"] {
        let refused = freezer.copy_ro(p, a_b.copy(), &disk, Ok(()));
        assert!(matches!(refused, Err(CopyError::Refused(FreezeError::PermissionDenied))), "{p}");
    }
    assert_eq!(freezer.copy_target("missing/x", &disk).unwrap_err(), FreezeError::NotFound);
    assert_eq!(freezer.copy_target("../x", &disk).unwrap_err(), FreezeError::InvalidInput);
    let refused = freezer.copy_ro("../x", a_b, &disk, Ok(()));
    assert!(matches!(refused, Err(CopyError::Refused(FreezeError::InvalidInput))));
    assert_eq!(freezer.frozen.len(), 2);
}

/// What is frozen at a path, and what remains of the path.
fn get_frozen<'a>(
    freezer: &'a Freezer,
    p: &str,
    disk: &Vec<(String, DiskEntry)>,
) -> (&'a DirEntry, Vec<Component>) {
    match freezer.verify_direct(p, disk).unwrap() {
        DirectVerified::Frozen { at, remaining } => (&freezer.frozen[at].entry, remaining),
        other => panic!("unexpected {other:?} for {p}"),
    }
}

#[test]
fn verify_direct() {
    // subdir/file  A text file.
    // link         A symlink to `subdir`
    let disk = found(vec![
        ("subdir", found_dir(vec![("file", DiskEntry::File)])),
        ("link", found_link("subdir")),
    ]);
    let mut freezer = Freezer::new();
    // Paths that fail by inspection alone, then paths through files, symlinks and nothing.
    let refused = [
        ("/absolute_path", FreezeError::InvalidInput),
        ("subdir/../symlink", FreezeError::InvalidInput),
        ("subdir/file/target", FreezeError::NotADirectory),
        ("nonexistent/file", FreezeError::NotFound),
        ("link/file", FreezeError::NotADirectory),
    ];
    for (p, error) in refused {
        assert_eq!(freezer.verify_direct(p, &disk).unwrap_err(), error, "{p}");
    }
    // Paths to targets that exist and that do not; unnecessary `.` entries are removed.
    let direct = [
        ("subdir/file", "subdir/file"),
        ("./subdir/./file", "subdir/file"),
        ("subdir/nonexistent", "subdir/nonexistent"),
    ];
    for (p, expected) in direct {
        match freezer.verify_direct(p, &disk).unwrap() {
            DirectVerified::Unfrozen { names } => assert_eq!(names.join("/"), expected),
            other => panic!("unexpected {other:?} for {p}"),
        }
    }
    let rest = |name: &str| vec![Component::Normal(name.to_owned())];
    freezer.freeze("subdir/file", &disk).unwrap();
    let (entry, remaining) = get_frozen(&freezer, "subdir/file", &disk);
    assert!(entry.is_file());
    assert_eq!(remaining, vec![]);
    freezer.freeze("link", &disk).unwrap();
    let (entry, remaining) = get_frozen(&freezer, "link", &disk);
    assert!(entry.is_symlink());
    assert_eq!(remaining, vec![]);
    // Once subdir is frozen, it is found for every path under it, even for a
    // nonexistent one.
    freezer.freeze("subdir", &disk).unwrap();
    let (entry, remaining) = get_frozen(&freezer, "subdir", &disk);
    assert_eq!(entry_names(entry), ["file"]);
    assert_eq!(remaining, vec![]);
    let (entry, remaining) = get_frozen(&freezer, "subdir/file", &disk);
    assert_eq!(entry_names(entry), ["file"]);
    assert_eq!(remaining, rest("file"));
    let (entry, remaining) = get_frozen(&freezer, "subdir/nonexistent", &disk);
    assert_eq!(entry_names(entry), ["file"]);
    assert_eq!(remaining, rest("nonexistent"));
    // Last: freeze the entire diagnostics directory.
    freezer.freeze("", &disk).unwrap();
    for p in ["link", "nonexistent"] {
        let (entry, remaining) = get_frozen(&freezer, p, &disk);
        assert!(entry.get_nofollow("link").is_ok());
        assert_eq!(remaining, rest(p));
    }
}

// ── References ───────────────────────────────────────────────────────────

fn reference(contents: &str) -> Option<RawDir> {
    Some(dir(vec![("a.c", file(contents))]))
}

#[test]
fn reference_guard_detects_and_quarantines_edits() {
    let guard = ReferenceGuard::capture(&vec![
        ("c_src".to_string(), reference("int x;")),
        ("gtest_suite".to_string(), reference("TEST(A,B){}")),
    ]);
    // The agent "fixes" the oracle and leaves the suite alone.
    let (fates, modified) =
        guard.strip(&vec![reference("int x = 1;"), reference("TEST(A,B){}")]);
    assert_eq!(modified, ["c_src"]);
    // Only the edited one is preserved.
    assert_eq!(fates, [ReferenceFate::Modified, ReferenceFate::Intact]);
}

#[test]
fn reference_guard_reports_a_deleted_reference() {
    let guard = ReferenceGuard::capture(&vec![("c_src".to_string(), reference("int x;"))]);
    let (fates, modified) = guard.strip(&vec![None]);
    assert_eq!(modified, ["c_src"]);
    assert_eq!(fates, [ReferenceFate::Deleted]);
}

#[test]
fn reference_guard_is_quiet_when_nothing_changed() {
    let guard = ReferenceGuard::capture(&vec![("c_src".to_string(), reference("int x;"))]);
    let (fates, modified) = guard.strip(&vec![reference("int x;")]);
    assert!(modified.is_empty());
    assert_eq!(fates, [ReferenceFate::Intact]);
}

#[test]
fn a_directory_is_hashed_with_its_names() {
    let empty = RawDir::default();
    // The digest of no data at all.
    assert_eq!(
        hash_dir(&empty),
        "sha256:e3b0c44298fc1c149afbf4c8996fb92427ae41e4649b934ca495991b7852b855"
    );
    let a = dir(vec![("a.c", file("x"))]);
    let b = dir(vec![("b.c", file("x"))]);
    assert_ne!(hash_dir(&a), hash_dir(&b));
    assert_eq!(hash_dir(&a), hash_dir(&dir(vec![("a.c", file("x"))])));
}

// ── Snapshots ────────────────────────────────────────────────────────────

#[test]
fn reserved_toplevel_entries() {
    for reserved in [".harvest", "target", "gtest_suite", "runner", "test_vectors"] {
        assert!(is_reserved_toplevel(reserved), "{reserved}");
    }
    for owned in ["src", "Cargo.lock", "Cargo.toml", "build.rs", "benches"] {
        assert!(!is_reserved_toplevel(owned), "{owned}");
    }
}

#[test]
fn a_snapshot_has_its_layout() {
    assert_eq!(meta_dir("/out/p"), "/out/p/.harvest");
    assert_eq!(c_source_dir("/out/p"), "/out/p/.harvest/c_src");
    assert_eq!(suite_dir("/out/p"), "/out/p/.harvest/suite");
    assert_eq!(manifest_path("/out/p"), "/out/p/.harvest/stage.json");
    assert!(is_snapshot(&texts(&["tool_wishlist.json", "stage.json"])));
    assert!(!is_snapshot(&texts(&["tool_wishlist.json"])));
}

#[test]
fn suite_dir_names_match_kind_dirs() {
    let mut from_kinds: Vec<String> =
        TestSuiteKind::all().into_iter().flat_map(|k| k.dirs()).collect();
    from_kinds.sort();
    from_kinds.dedup();
    let mut from_core = suite_dir_names();
    from_core.sort();
    assert_eq!(from_kinds, from_core);
}

fn snapshot() -> Vec<(String, DiskNode)> {
    disk(vec![
        ("Cargo.toml", disk_file("[package]")),
        ("Cargo.lock", disk_file("# lock")),
        ("src", DiskNode::Dir(disk(vec![("lib.rs", disk_file("// rust"))]))),
        // Framework-owned and build output: never part of the package.
        (
            ".harvest",
            DiskNode::Dir(disk(vec![
                ("stage.json", disk_file("{}")),
                ("c_src", DiskNode::Dir(disk(vec![("a.c", disk_file("int x;"))]))),
            ])),
        ),
        (
            "target",
            DiskNode::Dir(disk(vec![(
                "release",
                DiskNode::Dir(disk(vec![("junk", disk_file("x"))])),
            )])),
        ),
    ])
}

fn load(entries: &Vec<(String, DiskNode)>) -> Result<CargoPackage, String> {
    load_snapshot("/snap", &texts(&["stage.json"]), entries)
}

#[test]
fn package_is_everything_but_the_reserved_entries() {
    let package = load(&snapshot()).unwrap();
    assert_eq!(package.dir.toplevel_entries(), ["Cargo.lock", "Cargo.toml", "src"]);
    assert!(package.dir.get_file("src/lib.rs").is_ok());
}

#[test]
fn files_added_by_hand_are_picked_up() {
    let mut entries = snapshot();
    entries.extend(disk(vec![
        ("build.rs", disk_file("fn main(){}")),
        ("benches", DiskNode::Dir(disk(vec![("b.rs", disk_file("// bench"))]))),
    ]));
    assert_eq!(
        load(&entries).unwrap().dir.toplevel_entries(),
        ["Cargo.lock", "Cargo.toml", "benches", "build.rs", "src"]
    );
}

#[test]
fn a_directory_without_a_manifest_is_not_a_snapshot() {
    let entries = disk(vec![("Cargo.toml", disk_file("[package]"))]);
    let err = load_snapshot("/snap", &Vec::new(), &entries).unwrap_err();
    assert!(err.contains("not a pipeline snapshot"), "{err}");
}

#[test]
fn a_snapshot_with_no_crate_files_is_an_error() {
    let entries = disk(vec![(
        ".harvest",
        DiskNode::Dir(disk(vec![("stage.json", disk_file("{}"))])),
    )]);
    let err = load(&entries).unwrap_err();
    assert!(err.contains("no crate files"), "{err}");
}

#[test]
fn a_link_at_the_top_of_a_snapshot_is_an_error() {
    let mut entries = snapshot();
    entries.extend(disk(vec![("link", DiskNode::Special)]));
    assert!(load(&entries).unwrap_err().contains("link"));
}

// ── Suites ───────────────────────────────────────────────────────────────

#[test]
fn detects_gtest_before_vectors() {
    let dirs = texts(&["gtest_suite", "test_vectors"]);
    assert_eq!(detect_kind("/d", &dirs, None).unwrap(), TestSuiteKind::Gtest);
}

#[test]
fn detects_lib_when_runner_present() {
    let dirs = texts(&["runner", "test_vectors"]);
    assert_eq!(detect_kind("/d", &dirs, None).unwrap(), TestSuiteKind::Lib);
}

#[test]
fn forced_kind_must_be_present() {
    let dirs = texts(&["test_vectors"]);
    assert_eq!(detect_kind("/d", &dirs, Some(TestSuiteKind::Bin)).unwrap(), TestSuiteKind::Bin);
    let err = detect_kind("/d", &dirs, Some(TestSuiteKind::Gtest)).unwrap_err();
    assert!(err.contains("gtest_suite"), "{err}");
}

#[test]
fn no_suite_is_an_error() {
    assert!(detect_kind("/d", &texts(&["test_case"]), None).is_err());
    assert!(!has_suite(&texts(&["test_case"])));
    assert!(has_suite(&texts(&["test_vectors"])));
}

#[test]
fn a_suite_is_loaded_without_build_output() {
    let entries = disk(vec![
        ("test_case", DiskNode::Dir(Vec::new())),
        (
            "gtest_suite",
            DiskNode::Dir(disk(vec![
                ("t.cc", disk_file("TEST(A,B){}")),
                ("build", DiskNode::Dir(disk(vec![("junk.o", disk_file("x"))]))),
            ])),
        ),
    ]);
    let suite = LoadTestSuite.run(Some("/bench/p"), None, &entries).unwrap();
    assert_eq!(suite.kind, TestSuiteKind::Gtest);
    assert_eq!(suite.dir.toplevel_entries(), ["gtest_suite"]);
    assert!(suite.dir.get_file("gtest_suite/t.cc").is_ok());
    assert!(suite.dir.get_file("gtest_suite/build/junk.o").is_err());
    assert!(LoadTestSuite.run(None, None, &entries).is_err());
}

// ── Presets ──────────────────────────────────────────────────────────────

#[test]
fn extracts_features_and_flags_from_test_preset() {
    let cfg = read_test_config(Some(
        r#"{
          "configurePresets": [
            {
              "name": "base", "hidden": true,
              "cacheVariables": { "CMAKE_BUILD_TYPE": "Release" }
            },
            {
              "name": "test", "inherits": "base",
              "cacheVariables": {
                "HASH_BACKEND": "blake",
                "SECPAR": "128f",
                "THASH": "simple"
              }
            }
          ]
        }"#,
    ))
    .unwrap();
    assert_eq!(cfg.cargo_features, vec!["blake", "128f", "simple"]);
    // In the order of the keys (HASH_BACKEND, SECPAR, THASH).
    assert_eq!(cfg.cmake_flags, "-DHASH_BACKEND=blake -DSECPAR=128f -DTHASH=simple");
}

#[test]
fn missing_file_returns_empty() {
    assert!(read_test_config(None).unwrap().is_empty());
}

#[test]
fn only_cmake_builtins_returns_empty() {
    let cfg = read_test_config(Some(
        r#"{
          "configurePresets": [
            {
              "name": "test",
              "cacheVariables": { "CMAKE_C_STANDARD": "99" }
            }
          ]
        }"#,
    ));
    assert!(cfg.unwrap().is_empty());
}

#[test]
fn find_walks_up_one_level() {
    // The presets lie in the program's directory, and tools see its test case as
    // their input.
    let candidates = preset_candidates("/bench/p/test_case");
    assert_eq!(candidates[1], "/bench/p/test_case/../CMakePresets.json");
    let presets = r#"{
      "configurePresets": [
        { "name": "test",
          "cacheVariables": { "HASH_BACKEND": "blake" } }
      ]
    }"#;
    let cfg = find_test_config(&vec![None, Some(presets.to_string()), None, None]).unwrap();
    assert_eq!(cfg.cargo_features, vec!["blake"]);
}

#[test]
fn find_returns_empty_when_no_presets_anywhere() {
    assert!(find_test_config(&vec![None, None, None, None]).unwrap().is_empty());
}

#[test]
fn presets_that_inherit_without_end_have_no_config() {
    let presets = r#"{
      "configurePresets": [
        { "name": "test", "inherits": "base" },
        { "name": "base", "inherits": "test" }
      ]
    }"#;
    assert!(read_test_config(Some(presets)).is_none());
}

#[test]
fn markdown_bullet_format() {
    let cfg = TestConfig {
        cmake_flags: "-DHASH_BACKEND=blake".to_string(),
        cargo_features: vec!["blake".to_string()],
    };
    assert_eq!(
        cfg.as_markdown_bullet(),
        "- cmake flags: `-DHASH_BACKEND=blake`\n  cargo features: `blake`"
    );
}
