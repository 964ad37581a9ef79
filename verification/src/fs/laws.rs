//! What holds of the directories that agents work in.

use crate::fs::frozen;
use crate::fs::frozen::{DirEntry, FrozenView, GetNofollowError};
use crate::fs::raw_dir;
use crate::fs::raw_dir::{
    skips_dir, DiskNode, DiskView, EntryView, GetFileError, RawDir, SkipDirs,
};
use crate::fs::reference;
use crate::fs::reference::{hash_dir, ReferenceFate, ReferenceGuard};
use crate::fs::{hidden_action, DiagnosticsDir, HiddenAction, InvalidInput};
use crate::path;
use crate::path::ComponentView;
use crate::text;
use vstd::prelude::*;

verus! {

/// Hidden entries are removed, unless they are the record of the work in git and that
/// is kept. Other directories are entered, other files are left.
pub proof fn hidden_entries_are_removed(name: &str, is_dir: bool, keep_git: bool, r: HiddenAction)
    requires
        call_ensures(hidden_action, (name, is_dir, keep_git), r),
    ensures
        ({
            let hidden = name@.len() > 0 && name@[0] == '.';
            let record = keep_git && (name@ == ".git"@ || name@ == ".gitignore"@);
            &&& r == HiddenAction::Remove <==> hidden && !record
            &&& r == HiddenAction::Enter <==> !hidden && is_dir
            &&& r == HiddenAction::Leave <==> record || (!hidden && !is_dir)
        }),
{
    reveal_strlit(".");
    reveal_strlit(".git");
    reveal_strlit(".gitignore");
    assert(".git"@[0] == '.' && ".gitignore"@[0] == '.');
    if name@.len() > 0 && name@[0] == '.' {
        assert(name@.subrange(0, 1) =~= "."@);
    }
    if text::has_prefix(name@, "."@) {
        assert(name@.subrange(0, 1)[0] == "."@[0]);
    }
}

/// A relative path is taken below the diagnostics directory; an absolute one is
/// refused.
pub proof fn only_relative_paths_are_taken(
    d: &DiagnosticsDir,
    relative: &str,
    r: Result<String, InvalidInput>,
)
    requires
        call_ensures(DiagnosticsDir::to_absolute_path, (d, relative), r),
    ensures
        r is Err <==> relative@.len() > 0 && relative@[0] == '/',
        r matches Ok(p) ==> text::has_prefix(p@, d.path@) && text::has_suffix(p@, relative@),
{
    if let Ok(p) = r {
        assert(p@.subrange(0, d.path@.len() as int) =~= d.path@);
        assert(p@.subrange(p@.len() - relative@.len(), p@.len() as int) =~= relative@);
    }
}

// ── References ───────────────────────────────────────────────────────────

proof fn all_are_fingerprinted(found: Seq<(Seq<char>, Option<raw_dir::DirView>)>, i: int)
    requires
        forall|k: int| 0 <= k < found.len() ==> (#[trigger] found[k]).1 is Some,
        0 <= i < found.len(),
    ensures
        reference::fingerprints(found).len() == found.len(),
        reference::fingerprints(found)[i] == (found[i].0, reference::fingerprint(found[i].1->0)),
    decreases found.len(),
{
    let front = found.drop_last();
    assert(found[found.len() - 1].1 is Some);
    assert forall|k: int| 0 <= k < front.len() implies (#[trigger] front[k]).1 is Some by {
        assert(front[k] == found[k]);
    }
    if front.len() > 0 {
        all_are_fingerprinted(front, 0);
        if i < front.len() {
            all_are_fingerprinted(front, i);
            assert(front[i] == found[i]);
        }
    } else {
        assert(reference::fingerprints(front) =~= seq![]);
    }
}

proof fn the_changed_are_reported(names: Seq<Seq<char>>, fates: Seq<ReferenceFate>, n: Seq<char>)
    requires
        fates.len() == names.len(),
    ensures
        reference::reported(names, fates).contains(n) <==> exists|i: int|
            0 <= i < names.len() && #[trigger] names[i] == n && fates[i] != ReferenceFate::Intact,
    decreases names.len(),
{
    if names.len() > 0 {
        let fronts = names.drop_last();
        let ff = fates.drop_last();
        the_changed_are_reported(fronts, ff, n);
        let before = reference::reported(fronts, ff);
        let all = reference::reported(names, fates);
        if before.contains(n) {
            let k = choose|k: int| 0 <= k < before.len() && before[k] == n;
            assert(all[k] == n);
            let i = choose|i: int|
                0 <= i < fronts.len() && #[trigger] fronts[i] == n && ff[i] != ReferenceFate::Intact;
            assert(names[i] == n && fates[i] != ReferenceFate::Intact);
        }
        if fates.last() != ReferenceFate::Intact {
            assert(all[before.len() as int] == names.last());
            assert(names[names.len() - 1] == names.last());
        }
        if exists|i: int|
            0 <= i < names.len() && #[trigger] names[i] == n && fates[i]
                != ReferenceFate::Intact {
            let i = choose|i: int|
                0 <= i < names.len() && #[trigger] names[i] == n && fates[i]
                    != ReferenceFate::Intact;
            if i < fronts.len() {
                assert(fronts[i] == n && ff[i] != ReferenceFate::Intact);
            }
        }
        if all.contains(n) && !before.contains(n) {
            let k = choose|k: int| 0 <= k < all.len() && all[k] == n;
            if k < before.len() {
                assert(before[k] == n);
            }
        }
    }
}

/// A reference that is as it was handed out is intact, one that is gone was deleted,
/// and one with another fingerprint was modified; the last two, and no others, are
/// reported by name.
pub proof fn guards_tell_what_became_of_references(
    found: &Vec<(String, Option<RawDir>)>,
    g: ReferenceGuard,
    now: &Vec<Option<RawDir>>,
    r: (Vec<ReferenceFate>, Vec<String>),
    i: int,
    name: Seq<char>,
)
    requires
        call_ensures(ReferenceGuard::capture, (found,), g),
        forall|k: int| 0 <= k < found@.len() ==> (#[trigger] found@[k]).1 is Some,
        now@.len() == g.entries@.len(),
        call_ensures(ReferenceGuard::strip, (&g, now), r),
        0 <= i < found@.len(),
    ensures
        g.entries@.len() == found@.len(),
        g.entries@[i].name@ == found@[i].0@,
        now@[i] is None ==> r.0@[i] == ReferenceFate::Deleted,
        now@[i] matches Some(d) ==> d.view() == found@[i].1->0.view() ==> r.0@[i]
            == ReferenceFate::Intact,
        now@[i] matches Some(d) ==> reference::fingerprint(d.view()) != reference::fingerprint(
            found@[i].1->0.view(),
        ) ==> r.0@[i] == ReferenceFate::Modified,
        text::texts(r.1@).contains(name) <==> exists|k: int|
            0 <= k < found@.len() && (#[trigger] found@[k]).0@ == name && r.0@[k]
                != ReferenceFate::Intact,
{
    let all = reference::found_views(found@);
    assert forall|k: int| 0 <= k < all.len() implies (#[trigger] all[k]).1 is Some by {
        assert(found@[k].1 is Some);
    }
    let v = g.view();
    all_are_fingerprinted(all, i);
    assert(v.len() == g.entries@.len());
    assert(v[i] == (g.entries@[i].name@, g.entries@[i].hash@));
    let names = v.map_values(|e: (Seq<char>, Seq<char>)| e.0);
    assert forall|k: int| 0 <= k < names.len() implies #[trigger] names[k] == found@[k].0@ by {
        all_are_fingerprinted(all, k);
        assert(v[k].0 == all[k].0);
    }
    the_changed_are_reported(names, r.0@, name);
    if text::texts(r.1@).contains(name) {
        let k = choose|k: int|
            0 <= k < names.len() && #[trigger] names[k] == name && r.0@[k]
                != ReferenceFate::Intact;
        assert(found@[k].0@ == name);
    }
    if exists|k: int|
        0 <= k < found@.len() && (#[trigger] found@[k]).0@ == name && r.0@[k]
            != ReferenceFate::Intact {
        let k = choose|k: int|
            0 <= k < found@.len() && (#[trigger] found@[k]).0@ == name && r.0@[k]
                != ReferenceFate::Intact;
        assert(names[k] == name);
    }
}

/// Directories with the same files have the same fingerprint.
pub proof fn fingerprints_depend_on_the_files(a: &RawDir, b: &RawDir, x: String, y: String)
    requires
        call_ensures(hash_dir, (a,), x),
        call_ensures(hash_dir, (b,), y),
        raw_dir::files_below(a.view(), seq![]) == raw_dir::files_below(
            b.view(),
            seq![],
        ),
    ensures
        x@ == y@,
{
}

// ── Frozen trees ─────────────────────────────────────────────────────────

/// A path is followed step by step: what is reached by two paths one after the other is
/// what is reached by the second from where the first leads.
pub proof fn paths_are_followed_step_by_step(
    e: FrozenView,
    a: Seq<ComponentView>,
    b: Seq<ComponentView>,
)
    ensures
        frozen::reached(e, seq![]) == Ok::<FrozenView, GetNofollowError>(e),
        frozen::reached(e, a + b) == (match frozen::reached(e, a) {
            Ok(x) => frozen::reached(x, b),
            Err(g) => Err(g),
        }),
    decreases a.len(),
{
    if a.len() == 0 {
        assert(a + b =~= b);
    } else {
        assert((a + b)[0] == a[0]);
        assert((a + b).skip(1) =~= a.skip(1) + b);
        match a[0] {
            ComponentView::CurDir => {
                paths_are_followed_step_by_step(e, a.skip(1), b);
            },
            ComponentView::Normal(name) => {
                if let FrozenView::Dir(d) = e {
                    if let Some(sub) = frozen::named(d, name) {
                        paths_are_followed_step_by_step(sub, a.skip(1), b);
                    }
                }
            },
            _ => {},
        }
    }
}

proof fn listed_once<T>(d: Seq<(Seq<char>, T)>, i: int)
    requires
        0 <= i < d.len(),
        forall|j: int| 0 <= j < d.len() && j != i ==> (#[trigger] d[j]).0 != d[i].0,
    ensures
        frozen::named(d, d[i].0) == Some(d[i].1),
    decreases d.len(),
{
    if i < d.len() - 1 {
        assert(d[d.len() - 1].0 != d[i].0);
        let f = d.drop_last();
        assert(f[i] == d[i]);
        assert forall|j: int| 0 <= j < f.len() && j != i implies (#[trigger] f[j]).0 != f[i].0 by {
            assert(f[j] == d[j]);
        }
        listed_once(f, i);
    }
}

proof fn listed_nowhere<T>(d: Seq<(Seq<char>, T)>, name: Seq<char>)
    requires
        forall|j: int| 0 <= j < d.len() ==> (#[trigger] d[j]).0 != name,
    ensures
        frozen::named(d, name) is None,
    decreases d.len(),
{
    if d.len() > 0 {
        assert(d[d.len() - 1].0 != name);
        let f = d.drop_last();
        assert forall|j: int| 0 <= j < f.len() implies (#[trigger] f[j]).0 != name by {
            assert(f[j] == d[j]);
        }
        listed_nowhere(f, name);
    }
}

/// A name leads to the entry of that name; without one there is nothing, a file or a
/// link has no entries, and a path never leads out of the tree.
pub proof fn names_lead_to_their_entries(
    e: &DirEntry,
    p: &str,
    r: Result<DirEntry, GetNofollowError>,
    name: Seq<char>,
    d: Seq<(Seq<char>, FrozenView)>,
    i: int,
)
    requires
        call_ensures(DirEntry::get_nofollow, (e, p), r),
    ensures
        path::components_of(p@).len() == 0 ==> (r matches Ok(x) && x.view() == e.view()),
        path::components_of(p@).len() > 0 && (path::components_of(p@)[0] is ParentDir
            || path::components_of(p@)[0] is RootDir) ==> r == Err::<DirEntry, GetNofollowError>(
            GetNofollowError::LeavesDir,
        ),
        path::components_of(p@) == seq![ComponentView::Normal(name)] && e.view()
            == FrozenView::Dir(d) && 0 <= i < d.len() && d[i].0 == name && (forall|j: int|
            0 <= j < d.len() && j != i ==> (#[trigger] d[j]).0 != name) ==> (r matches Ok(x)
            && x.view() == d[i].1),
        path::components_of(p@) == seq![ComponentView::Normal(name)] && e.view()
            == FrozenView::Dir(d) && (forall|j: int|
            0 <= j < d.len() ==> (#[trigger] d[j]).0 != name) ==> r == Err::<
            DirEntry,
            GetNofollowError,
        >(GetNofollowError::NotFound),
        path::components_of(p@) == seq![ComponentView::Normal(name)] && !(e.view() is Dir) ==> r
            == Err::<DirEntry, GetNofollowError>(GetNofollowError::NotADirectory),
{
    let cs = path::components_of(p@);
    if cs == seq![ComponentView::Normal(name)] {
        assert(cs.skip(1) =~= seq![]);
        if e.view() == FrozenView::Dir(d) {
            if 0 <= i < d.len() && d[i].0 == name && (forall|j: int|
                0 <= j < d.len() && j != i ==> (#[trigger] d[j]).0 != name) {
                listed_once(d, i);
                assert(frozen::reached(d[i].1, cs.skip(1)) == Ok::<FrozenView, GetNofollowError>(
                    d[i].1,
                ));
                assert(frozen::reached(e.view(), cs) == frozen::reached(d[i].1, cs.skip(1)));
            }
            if forall|j: int| 0 <= j < d.len() ==> (#[trigger] d[j]).0 != name {
                listed_nowhere(d, name);
            }
        }
    }
}

// ── Directory trees ──────────────────────────────────────────────────────

/// Hidden directories and those of a build are told by their names.
pub proof fn skipped_directories_are_told_by_name(rule: SkipDirs, name: &str, r: bool)
    requires
        call_ensures(skips_dir, (rule, name), r),
    ensures
        rule == SkipDirs::Nothing ==> !r,
        rule == SkipDirs::Hidden ==> (r <==> name@.len() > 0 && name@[0] == '.'),
        rule == SkipDirs::BuildArtifacts ==> (r <==> name@ == "build"@ || name@ == "target"@
            || text::has_prefix(name@, "build-"@)),
{
    reveal_strlit(".");
    if name@.len() > 0 && name@[0] == '.' {
        assert(name@.subrange(0, 1) =~= "."@);
    }
    if text::has_prefix(name@, "."@) {
        assert(name@.subrange(0, 1)[0] == "."@[0]);
    }
}

/// What a node on disk becomes in a tree, if it becomes anything.
pub open spec fn becomes(node: DiskView, name: Seq<char>, rule: SkipDirs) -> Option<EntryView> {
    match node {
        DiskView::File(b) => Some(EntryView::File(b)),
        DiskView::Dir(sub) => if raw_dir::is_skipped(rule, name) {
            None
        } else {
            Some(EntryView::Dir(raw_dir::populated(sub, rule).dir))
        },
        DiskView::Special => None,
    }
}

proof fn absent_stays_absent(
    entries: Seq<(Seq<char>, DiskView)>,
    rule: SkipDirs,
    name: Seq<char>,
)
    requires
        forall|j: int| 0 <= j < entries.len() ==> (#[trigger] entries[j]).0 != name,
    ensures
        raw_dir::find(raw_dir::populated(entries, rule).dir, name) is None,
    decreases entries.len(),
{
    if entries.len() == 0 {
        let d: raw_dir::DirView = seq![];
        assert forall|i: int| !raw_dir::name_at(d, name, i) by {}
    } else {
        let before = entries.subrange(0, entries.len() - 1);
        let last = entries[entries.len() - 1];
        assert forall|j: int| 0 <= j < before.len() implies (#[trigger] before[j]).0 != name by {
            assert(before[j] == entries[j]);
        }
        absent_stays_absent(before, rule, name);
        raw_dir::populated_wf(before, rule);
        let d = raw_dir::populated(before, rule).dir;
        if let Some(e) = becomes(last.1, last.0, rule) {
            raw_dir::put_law(d, last.0, e);
        }
    }
}

proof fn entries_become(entries: Seq<(Seq<char>, DiskView)>, rule: SkipDirs, i: int)
    requires
        0 <= i < entries.len(),
        forall|j: int, k: int|
            #![trigger entries[j], entries[k]]
            0 <= j < k < entries.len() ==> entries[j].0 != entries[k].0,
    ensures
        raw_dir::find(raw_dir::populated(entries, rule).dir, entries[i].0) == becomes(
            entries[i].1,
            entries[i].0,
            rule,
        ),
    decreases entries.len(),
{
    let before = entries.subrange(0, entries.len() - 1);
    let last = entries[entries.len() - 1];
    let name = entries[i].0;
    raw_dir::populated_wf(before, rule);
    let d = raw_dir::populated(before, rule).dir;
    assert forall|j: int, k: int| #![trigger before[j], before[k]] 0 <= j < k < before.len() implies before[j].0
        != before[k].0 by {
        assert(entries[j].0 != entries[k].0);
    }
    if i < before.len() {
        assert(before[i] == entries[i]);
        entries_become(before, rule, i);
        assert(entries[i].0 != entries[entries.len() - 1].0);
    } else {
        assert forall|j: int| 0 <= j < before.len() implies (#[trigger] before[j]).0 != name by {
            assert(before[j] == entries[j]);
            assert(entries[j].0 != entries[i].0);
        }
        absent_stays_absent(before, rule, name);
    }
    if let Some(e) = becomes(last.1, last.0, rule) {
        raw_dir::put_law(d, last.0, e);
    }
}

/// A tree holds what is on disk: every file with its contents, every directory that is
/// not skipped with what a tree of it holds, and no link or special file.
pub proof fn trees_hold_what_is_on_disk(
    entries: &Vec<(String, DiskNode)>,
    rule: SkipDirs,
    r: (RawDir, usize, usize),
    i: int,
    sub: &Vec<(String, DiskNode)>,
    inner: (RawDir, usize, usize),
    skipped: bool,
    name: &str,
)
    requires
        call_ensures(RawDir::populate_from_filtered, (entries, rule), r),
        call_ensures(RawDir::populate_from_filtered, (sub, rule), inner),
        call_ensures(skips_dir, (rule, name), skipped),
        0 <= i < entries@.len(),
        entries@[i].0@ == name@,
        forall|j: int, k: int|
            #![trigger entries@[j], entries@[k]]
            0 <= j < k < entries@.len() ==> entries@[j].0@ != entries@[k].0@,
    ensures
        ({
            let found = raw_dir::find(r.0.view(), name@);
            let node = entries@[i].1.view();
            &&& node matches DiskView::File(b) ==> found == Some(EntryView::File(b))
            &&& node is Special ==> found is None
            &&& node is Dir && skipped ==> found is None
            &&& node == DiskView::Dir(raw_dir::disk_views(sub@)) && !skipped ==> found == Some(
                EntryView::Dir(inner.0.view()),
            )
        }),
{
    let views = raw_dir::disk_views(entries@);
    assert(views[i] == (entries@[i].0@, entries@[i].1.view()));
    assert forall|j: int, k: int| #![trigger views[j], views[k]] 0 <= j < k < views.len() implies views[j].0
        != views[k].0 by {
        assert(entries@[j].0@ != entries@[k].0@);
    }
    entries_become(views, rule, i);
}

/// A file is read under its name; without one there is nothing, a directory is no file,
/// and a path never leads out of the tree.
pub proof fn files_are_read_under_their_names(
    d: &RawDir,
    p: &str,
    r: Result<&Vec<u8>, GetFileError>,
    name: Seq<char>,
)
    requires
        d.wf(),
        call_ensures(RawDir::get_file, (d, p), r),
    ensures
        ({
            let cs = path::components_of(p@);
            let found = raw_dir::find(d.view(), name);
            &&& cs == seq![ComponentView::Normal(name)] ==> match found {
                Some(EntryView::File(b)) => r matches Ok(v) && v@ == b,
                Some(EntryView::Dir(_)) => r == Err::<&Vec<u8>, GetFileError>(
                    GetFileError::Directory,
                ),
                None => r == Err::<&Vec<u8>, GetFileError>(GetFileError::DoesNotExist),
            }
            &&& cs.len() > 0 && cs[0] is ParentDir ==> r == Err::<&Vec<u8>, GetFileError>(
                GetFileError::OutsideDir,
            )
            &&& cs.len() > 0 && cs[0] is RootDir ==> r == Err::<&Vec<u8>, GetFileError>(
                GetFileError::AbsolutePath,
            )
        }),
{
    let cs = path::components_of(p@);
    if cs == seq![ComponentView::Normal(name)] {
        assert(cs.drop_last() =~= seq![]);
        assert(raw_dir::walk(cs.drop_last()) == Ok::<
            (Seq<Seq<char>>, bool),
            raw_dir::PathFault,
        >((seq![], true)));
        let none: Seq<Seq<char>> = seq![];
        assert(none.push(name).len() == 1 && none.push(name)[0] == name);
    }
    if cs.len() > 0 && (cs[0] is ParentDir || cs[0] is RootDir) {
        first_step_decides(cs);
    }
}

proof fn first_step_decides(cs: Seq<ComponentView>)
    requires
        cs.len() > 0,
        cs[0] is ParentDir || cs[0] is RootDir,
    ensures
        cs[0] is ParentDir ==> raw_dir::walk(cs) == Err::<
            (Seq<Seq<char>>, bool),
            raw_dir::PathFault,
        >(raw_dir::PathFault::OutsideDir),
        cs[0] is RootDir ==> raw_dir::walk(cs) == Err::<
            (Seq<Seq<char>>, bool),
            raw_dir::PathFault,
        >(raw_dir::PathFault::AbsolutePath),
    decreases cs.len(),
{
    let front = cs.drop_last();
    if front.len() > 0 {
        assert(front[0] == cs[0]);
        first_step_decides(front);
    } else {
        assert(front =~= seq![]);
        assert(raw_dir::walk(front) == Ok::<(Seq<Seq<char>>, bool), raw_dir::PathFault>(
            (seq![], true),
        ));
        assert(cs.last() == cs[0]);
    }
}

} // verus!
