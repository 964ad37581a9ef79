//! Freezing filesystem objects: which paths are already frozen, and which may
//! be.

use crate::fs::frozen;
use crate::fs::frozen::{DirEntry, DiskEntry, FrozenView, GetNofollowError, OnDisk};
use crate::fs::Symlink;
use crate::path;
use crate::path::{Component, ComponentView};
use crate::text;
use vstd::prelude::*;
use vstd::string::*;

verus! {

/// Why a path cannot be frozen.
#[derive(Debug, Clone, Copy, PartialEq, Eq, Structural)]
pub enum FreezeError {
    /// The path is absolute or goes up.
    InvalidInput,
    /// The path runs through something that is not a directory.
    NotADirectory,
    /// There is nothing at the path.
    NotFound,
    /// The path is frozen already.
    PermissionDenied,
}

/// Why there is no copy.
#[derive(Debug)]
pub enum CopyError {
    /// Nothing may be written at the path.
    Refused(FreezeError),
    /// The copy could not be written.
    NotWritten(String),
}

/// A frozen path, by its names below the diagnostics directory.
#[derive(Debug)]
pub struct Frozen {
    pub names: Vec<String>,
    pub entry: DirEntry,
}

pub open spec fn frozen_views(v: Seq<Frozen>) -> Seq<(Seq<Seq<char>>, FrozenView)> {
    v.map_values(|f: Frozen| (text::texts(f.names@), f.entry.view()))
}

/// Whether `a` is `b` or a directory above it.
pub open spec fn is_above(a: Seq<Seq<char>>, b: Seq<Seq<char>>) -> bool {
    a.len() <= b.len() && b.take(a.len() as int) == a
}

/// No frozen path lies below another.
pub open spec fn none_nested(v: Seq<(Seq<Seq<char>>, FrozenView)>) -> bool {
    forall|i: int, j: int|
        #![trigger v[i], v[j]]
        0 <= i < v.len() && 0 <= j < v.len() && i != j ==> !is_above(v[i].0, v[j].0)
}

/// The names that a direct path consists of: it is relative and does not go up.
/// A leading `.` is ignored.
pub open spec fn direct_names(cs: Seq<ComponentView>) -> Option<Seq<Seq<char>>>
    decreases cs.len(),
{
    if cs.len() == 0 {
        Some(seq![])
    } else {
        match direct_names(cs.drop_last()) {
            None => None,
            Some(names) => match cs.last() {
                ComponentView::Normal(name) => Some(names.push(name)),
                ComponentView::CurDir => Some(names),
                _ => None,
            },
        }
    }
}

/// Which filesystem objects are frozen, to avoid freezing the same directories
/// again. Paths are relative to the diagnostics directory and hold no links,
/// `.` or `..`.
#[derive(Debug)]
pub struct Freezer {
    pub frozen: Vec<Frozen>,
}

/// What is known of a path.
#[derive(Debug)]
pub enum DirectVerified {
    /// The path, or a directory above it, is frozen. `at` is its place among
    /// the frozen paths; `remaining` is the rest of the path, which has not been
    /// verified to be direct.
    Frozen { at: usize, remaining: Vec<Component> },
    /// The path is not frozen. These are its names; all of them but the last
    /// lead through directories on disk.
    Unfrozen { names: Vec<String> },
}

pub open spec fn is_frozen_at(
    v: Seq<(Seq<Seq<char>>, FrozenView)>,
    names: Seq<Seq<char>>,
    i: int,
) -> bool {
    0 <= i < v.len() && v[i].0 == names
}

pub open spec fn is_frozen(
    v: Seq<(Seq<Seq<char>>, FrozenView)>,
    names: Seq<Seq<char>>,
) -> bool {
    exists|i: int| is_frozen_at(v, names, i)
}

/// Whether the first `n` components of a path lead to a frozen object.
pub open spec fn leads_to_frozen(
    v: Seq<(Seq<Seq<char>>, FrozenView)>,
    cs: Seq<ComponentView>,
    n: int,
) -> bool {
    direct_names(cs.take(n)) is Some && is_frozen(v, direct_names(cs.take(n))->0)
}

/// Whether the first `n` components of a path lead to a frozen object, and fewer do
/// not.
pub open spec fn first_frozen(
    v: Seq<(Seq<Seq<char>>, FrozenView)>,
    cs: Seq<ComponentView>,
    n: int,
) -> bool {
    &&& 0 <= n <= cs.len()
    &&& leads_to_frozen(v, cs, n)
    &&& forall|m: int| 0 <= m < n ==> !#[trigger] leads_to_frozen(v, cs, m)
}

/// The object that is frozen at a path.
pub open spec fn entry_at(
    v: Seq<(Seq<Seq<char>>, FrozenView)>,
    names: Seq<Seq<char>>,
) -> Option<FrozenView>
    decreases v.len(),
{
    if v.len() == 0 {
        None
    } else if v.last().0 == names {
        Some(v.last().1)
    } else {
        entry_at(v.drop_last(), names)
    }
}

/// Why the way to a path on disk is not open: all names but the last must be
/// directories.
pub open spec fn parents_fault(
    disk: Seq<(Seq<char>, OnDisk)>,
    names: Seq<Seq<char>>,
) -> Option<FreezeError>
    decreases names.len(),
{
    if names.len() <= 1 {
        None
    } else {
        match frozen::named(disk, names[0]) {
            None => Some(FreezeError::NotFound),
            Some(OnDisk::Dir(sub)) => parents_fault(sub, names.skip(1)),
            Some(_) => Some(FreezeError::NotADirectory),
        }
    }
}

/// What is on disk at a path.
pub open spec fn on_disk(disk: Seq<(Seq<char>, OnDisk)>, names: Seq<Seq<char>>) -> Option<OnDisk>
    decreases names.len(),
{
    if names.len() == 0 {
        Some(OnDisk::Dir(disk))
    } else if names.len() == 1 {
        frozen::named(disk, names[0])
    } else {
        match frozen::named(disk, names[0]) {
            Some(OnDisk::Dir(sub)) => on_disk(sub, names.skip(1)),
            _ => None,
        }
    }
}

pub enum Verified {
    Frozen { entry: FrozenView, remaining: Seq<ComponentView> },
    Unfrozen { names: Seq<Seq<char>> },
}

/// What is known of a path: the first part of it that is frozen decides, and the
/// disk is asked only about paths of which no part is.
pub open spec fn verified(
    v: Seq<(Seq<Seq<char>>, FrozenView)>,
    disk: Seq<(Seq<char>, OnDisk)>,
    cs: Seq<ComponentView>,
) -> Result<Verified, FreezeError> {
    if exists|n: int| first_frozen(v, cs, n) {
        let n = choose|n: int| first_frozen(v, cs, n);
        let entry = entry_at(v, direct_names(cs.take(n))->0)->0;
        if n == 0 || n == cs.len() || entry is Dir {
            Ok(Verified::Frozen { entry, remaining: cs.skip(n) })
        } else {
            Err(FreezeError::NotADirectory)
        }
    } else {
        match direct_names(cs) {
            None => Err(FreezeError::InvalidInput),
            Some(names) => match parents_fault(disk, names) {
                Some(e) => Err(e),
                None => Ok(Verified::Unfrozen { names }),
            },
        }
    }
}

/// Where a copy for a path is to be written.
pub open spec fn target_of(
    v: Seq<(Seq<Seq<char>>, FrozenView)>,
    disk: Seq<(Seq<char>, OnDisk)>,
    cs: Seq<ComponentView>,
) -> Result<Seq<Seq<char>>, FreezeError> {
    match verified(v, disk, cs) {
        Ok(Verified::Unfrozen { names }) => Ok(names),
        Ok(Verified::Frozen { .. }) => Err(FreezeError::PermissionDenied),
        Err(e) => Err(e),
    }
}

/// The frozen form of what is on disk at a path. What is frozen already is
/// taken as it is.
pub open spec fn frozen_node(
    v: Seq<(Seq<Seq<char>>, FrozenView)>,
    at: Seq<Seq<char>>,
    node: OnDisk,
) -> FrozenView
    decreases node,
{
    match node {
        OnDisk::Dir(sub) => FrozenView::Dir(built(v, at, sub)),
        OnDisk::File => FrozenView::File(at),
        OnDisk::Symlink(target) => FrozenView::Symlink(target),
    }
}

pub open spec fn built(
    v: Seq<(Seq<Seq<char>>, FrozenView)>,
    at: Seq<Seq<char>>,
    d: Seq<(Seq<char>, OnDisk)>,
) -> Seq<(Seq<char>, FrozenView)>
    decreases d,
{
    if d.len() == 0 {
        seq![]
    } else {
        let name = d[d.len() - 1].0;
        built(v, at, d.subrange(0, d.len() - 1)).push(
            (
                name,
                match entry_at(v, at.push(name)) {
                    Some(e) => e,
                    None => frozen_node(v, at.push(name), d[d.len() - 1].1),
                },
            ),
        )
    }
}

/// The paths that become read-only when what is on disk at a path is frozen:
/// its files and directories but for what is frozen already. The permissions of
/// a link cannot be changed.
pub open spec fn locked_node(
    v: Seq<(Seq<Seq<char>>, FrozenView)>,
    at: Seq<Seq<char>>,
    node: OnDisk,
) -> Seq<Seq<Seq<char>>>
    decreases node,
{
    match node {
        OnDisk::Dir(sub) => locked_below(v, at, sub).push(at),
        OnDisk::File => seq![at],
        OnDisk::Symlink(_) => seq![],
    }
}

pub open spec fn locked_below(
    v: Seq<(Seq<Seq<char>>, FrozenView)>,
    at: Seq<Seq<char>>,
    d: Seq<(Seq<char>, OnDisk)>,
) -> Seq<Seq<Seq<char>>>
    decreases d,
{
    if d.len() == 0 {
        seq![]
    } else {
        let name = d[d.len() - 1].0;
        locked_below(v, at, d.subrange(0, d.len() - 1)) + match entry_at(v, at.push(name)) {
            Some(_) => seq![],
            None => locked_node(v, at.push(name), d[d.len() - 1].1),
        }
    }
}

pub open spec fn freeze_error(e: GetNofollowError) -> FreezeError {
    match e {
        GetNofollowError::LeavesDir => FreezeError::InvalidInput,
        GetNofollowError::NotADirectory => FreezeError::NotADirectory,
        GetNofollowError::NotFound => FreezeError::NotFound,
    }
}

/// The frozen object at a path, and the paths that become read-only for it.
pub open spec fn freeze_of(
    v: Seq<(Seq<Seq<char>>, FrozenView)>,
    disk: Seq<(Seq<char>, OnDisk)>,
    cs: Seq<ComponentView>,
) -> Result<(FrozenView, Seq<Seq<Seq<char>>>), FreezeError> {
    match verified(v, disk, cs) {
        Err(e) => Err(e),
        Ok(Verified::Frozen { entry, remaining }) => if entry is Dir {
            match frozen::reached(entry, remaining) {
                Ok(e) => Ok((e, seq![])),
                Err(e) => Err(freeze_error(e)),
            }
        } else {
            Ok((entry, seq![]))
        },
        Ok(Verified::Unfrozen { names }) => match on_disk(disk, names) {
            None => Err(FreezeError::NotFound),
            Some(node) => Ok((frozen_node(v, names, node), locked_node(v, names, node))),
        },
    }
}

/// What is frozen after the object at a path was frozen. Frozen paths below it
/// become part of it.
pub open spec fn frozen_after(
    v: Seq<(Seq<Seq<char>>, FrozenView)>,
    disk: Seq<(Seq<char>, OnDisk)>,
    cs: Seq<ComponentView>,
) -> Seq<(Seq<Seq<char>>, FrozenView)> {
    match verified(v, disk, cs) {
        Ok(Verified::Unfrozen { names }) => match on_disk(disk, names) {
            Some(node) => outside(v, names).push((names, frozen_node(v, names, node))),
            None => v,
        },
        _ => v,
    }
}

pub open spec fn paths(v: Seq<Vec<String>>) -> Seq<Seq<Seq<char>>> {
    v.map_values(|names: Vec<String>| text::texts(names@))
}

/// A frozen object, and the paths that have to be made read-only for it, in that
/// order.
#[derive(Debug)]
pub struct Freeze {
    pub entry: DirEntry,
    pub locked: Vec<Vec<String>>,
}

impl Freeze {
    pub open spec fn view(&self) -> (FrozenView, Seq<Seq<Seq<char>>>) {
        (self.entry.view(), paths(self.locked@))
    }
}

fn same_names(a: &Vec<String>, b: &Vec<String>, depth: usize) -> (r: bool)
    requires
        depth <= b@.len(),
    ensures
        r == (text::texts(a@) == text::texts(b@).take(depth as int)),
{
    broadcast use text::group_texts;

    if a.len() != depth {
        assert(text::texts(a@).len() != text::texts(b@).take(depth as int).len());
        return false;
    }
    let mut i: usize = 0;
    while i < depth
        invariant
            i <= depth,
            depth <= b@.len(),
            a@.len() == depth,
            forall|j: int| 0 <= j < i ==> text::texts(a@)[j] == text::texts(b@)[j],
        decreases depth - i,
    {
        if !text::same(a[i].as_str(), b[i].as_str()) {
            assert(text::texts(a@)[i as int] != text::texts(b@).take(depth as int)[i as int]);
            return false;
        }
        i = i + 1;
    }
    assert(text::texts(a@) =~= text::texts(b@).take(depth as int));
    true
}

impl Freezer {
    pub open spec fn view(&self) -> Seq<(Seq<Seq<char>>, FrozenView)> {
        frozen_views(self.frozen@)
    }

    pub open spec fn wf(&self) -> bool {
        none_nested(self.view())
    }

    pub fn new() -> (r: Freezer)
        ensures
            r.wf(),
            r.view().len() == 0,
    {
        Freezer { frozen: Vec::new() }
    }

    /// The place of the frozen path that consists of the first `depth` names.
    fn place(&self, names: &Vec<String>, depth: usize) -> (r: Option<usize>)
        requires
            depth <= names@.len(),
        ensures
            (match r {
                Some(i) => is_frozen_at(
                    self.view(),
                    text::texts(names@).take(depth as int),
                    i as int,
                ),
                None => forall|i: int|
                    !is_frozen_at(
                        self.view(),
                        text::texts(names@).take(depth as int),
                        i,
                    ),
            }),
    {
        let ghost want = text::texts(names@).take(depth as int);
        let mut i: usize = 0;
        while i < self.frozen.len()
            invariant
                i <= self.frozen@.len(),
                depth <= names@.len(),
                want == text::texts(names@).take(depth as int),
                forall|j: int| 0 <= j < i ==> (#[trigger] self.view()[j]).0 != want,
            decreases self.frozen@.len() - i,
        {
            assert(self.view()[i as int].0 == text::texts(self.frozen@[i as int].names@));
            if same_names(&self.frozen[i].names, names, depth) {
                return Some(i);
            }
            i = i + 1;
        }
        None
    }

    /// Verifies that a path is a direct path within the diagnostics directory:
    /// relative, without `..`, and not through links or files. The path does not
    /// need to exist, but its parent directory does. `disk` is what the
    /// diagnostics directory holds.
    ///
    /// If the path is at or under a frozen object, verification ends early with
    /// that object; the rest of the path is then not verified. Running through a
    /// frozen file or symlink is an error.
    pub fn verify_direct(&self, p: &str, disk: &Vec<(String, DiskEntry)>) -> (r: Result<
        DirectVerified,
        FreezeError,
    >)
        requires
            self.wf(),
        ensures
            (match r {
                Ok(DirectVerified::Frozen { at, remaining }) => {
                    &&& at < self.frozen@.len()
                    &&& verified(
                        self.view(),
                        frozen::disk_entries(disk@),
                        path::components_of(p@),
                    ) == Ok::<Verified, FreezeError>(
                        Verified::Frozen {
                            entry: self.frozen@[at as int].entry.view(),
                            remaining: path::component_views(remaining@),
                        },
                    )
                },
                Ok(DirectVerified::Unfrozen { names }) => {
                    &&& verified(
                        self.view(),
                        frozen::disk_entries(disk@),
                        path::components_of(p@),
                    ) == Ok::<Verified, FreezeError>(
                        Verified::Unfrozen { names: text::texts(names@) },
                    )
                    &&& forall|i: int|
                        0 <= i < self.view().len() ==> !is_above(
                            (#[trigger] self.view()[i]).0,
                            text::texts(names@),
                        )
                },
                Err(e) => verified(
                    self.view(),
                    frozen::disk_entries(disk@),
                    path::components_of(p@),
                ) == Err::<Verified, FreezeError>(e),
            }),
    {
        broadcast use text::group_texts;

        let mut rest = path::components(p);
        let ghost views = path::components_of(p@);
        let ghost v = self.view();
        let mut names: Vec<String> = Vec::new();
        assert(text::texts(names@) =~= seq![]);
        assert(text::texts(names@).take(0) =~= seq![]);
        assert(views.take(0) =~= seq![]);
        assert(views.skip(0) =~= views);
        if let Some(at) = self.place(&names, 0) {
            proof {
                assert(direct_names(views.take(0)) == Some(v[at as int].0));
                assert(is_frozen(v, v[at as int].0));
                assert(first_frozen(v, views, 0));
                first_is_unique(v, views, 0);
                entry_at_place(v, v[at as int].0, at as int);
                assert(v[at as int].1 == self.frozen@[at as int].entry.view());
            }
            return Ok(DirectVerified::Frozen { at, remaining: rest });
        }
        let ghost mut i: int = 0;
        while rest.len() > 0
            invariant
                self.wf(),
                v == self.view(),
                views == path::components_of(p@),
                0 <= i <= views.len(),
                path::component_views(rest@) == views.skip(i),
                rest@.len() == views.len() - i,
                direct_names(views.take(i)) == Some(text::texts(names@)),
                forall|m: int| 0 <= m <= i ==> !#[trigger] leads_to_frozen(v, views, m),
                forall|d: int, k: int|
                    0 <= d <= names@.len() ==> !#[trigger] is_frozen_at(
                        v,
                        text::texts(names@).take(d),
                        k,
                    ),
            decreases rest@.len(),
        {
            let ghost listed = rest@;
            let c = rest.remove(0);
            proof {
                assert(path::component_views(listed)[0] == c.view());
                assert(views.skip(i)[0] == views[i]);
                assert(path::component_views(rest@) =~= views.skip(i + 1)) by {
                    assert forall|j: int| 0 <= j < rest@.len() implies path::component_views(
                        rest@,
                    )[j] == views.skip(i + 1)[j] by {
                        assert(rest@[j] == listed[j + 1]);
                        assert(path::component_views(listed)[j + 1] == views.skip(i)[j + 1]);
                    }
                }
                assert(views.take(i + 1).drop_last() =~= views.take(i));
                assert(views.take(i + 1).last() == c.view());
            }
            let ghost before = text::texts(names@);
            match c {
                Component::Normal(name) => {
                    names.push(name);
                    let ghost now = text::texts(names@);
                    assert(now =~= before.push(name@));
                    assert(now.take(now.len() as int) =~= now);
                    if let Some(at) = self.place(&names, names.len()) {
                        proof {
                            assert(direct_names(views.take(i + 1)) == Some(v[at as int].0));
                            assert(is_frozen(v, v[at as int].0));
                            assert(first_frozen(v, views, i + 1));
                            first_is_unique(v, views, i + 1);
                            entry_at_place(v, v[at as int].0, at as int);
                            assert(v[at as int].1 == self.frozen@[at as int].entry.view());
                        }
                        if !self.frozen[at].entry.is_dir() && rest.len() > 0 {
                            return Err(FreezeError::NotADirectory);
                        }
                        return Ok(DirectVerified::Frozen { at, remaining: rest });
                    }
                    assert forall|d: int, k: int|
                        0 <= d <= names@.len() implies !#[trigger] is_frozen_at(
                        v,
                        now.take(d),
                        k,
                    ) by {
                        if d < names@.len() {
                            assert(now.take(d) =~= before.take(d));
                        }
                    }
                    assert(!leads_to_frozen(v, views, i + 1));
                },
                Component::CurDir => {
                    assert(before.take(before.len() as int) =~= before);
                    assert(!leads_to_frozen(v, views, i + 1));
                },
                _ => {
                    proof {
                        invalid_stays(views, i + 1);
                        assert forall|m: int| #![trigger first_frozen(v, views, m)] !first_frozen(
                            v,
                            views,
                            m,
                        ) by {
                            if i < m <= views.len() {
                                invalid_prefix(views, i + 1, m);
                            }
                        }
                    }
                    return Err(FreezeError::InvalidInput);
                },
            }
            proof {
                i = i + 1;
            }
        }
        let ghost now = text::texts(names@);
        proof {
            assert(views.take(i) =~= views);
            assert forall|m: int| #![trigger first_frozen(v, views, m)] !first_frozen(
                v,
                views,
                m,
            ) by {}
            assert forall|k: int| 0 <= k < v.len() implies !is_above((#[trigger] v[k]).0, now) by {
                if is_above(v[k].0, now) {
                    let d = v[k].0.len() as int;
                    assert(is_frozen_at(v, now.take(d), k));
                }
            }
        }
        match check_parents(disk, &names) {
            Some(e) => Err(e),
            None => Ok(DirectVerified::Unfrozen { names }),
        }
    }

    /// Records that a path, not frozen so far, is frozen now. Frozen paths below
    /// it become part of it.
    pub fn record(&mut self, names: Vec<String>, entry: DirEntry)
        requires
            old(self).wf(),
            forall|i: int|
                0 <= i < old(self).view().len() ==> !is_above(
                    (#[trigger] old(self).view()[i]).0,
                    text::texts(names@),
                ),
        ensures
            final(self).wf(),
            final(self).view() == outside(old(self).view(), text::texts(names@)).push(
                (text::texts(names@), entry.view()),
            ),
    {
        let ghost all = self.view();
        let ghost new = text::texts(names@);
        let mut left: Vec<Frozen> = Vec::new();
        let mut rest: Vec<Frozen> = Vec::new();
        std::mem::swap(&mut rest, &mut self.frozen);
        let ghost mut k: int = 0;
        assert(all.take(0) =~= seq![]);
        assert(frozen_views(left@) =~= seq![]);
        while rest.len() > 0
            invariant
                0 <= k <= all.len(),
                rest@.len() == all.len() - k,
                new == text::texts(names@),
                frozen_views(rest@) == all.skip(k),
                frozen_views(left@) == outside(all.take(k), new),
            decreases rest@.len(),
        {
            let ghost before = rest@;
            let f = rest.remove(0);
            let ghost so_far = frozen_views(left@);
            proof {
                assert(frozen_views(before)[0] == (text::texts(f.names@), f.entry.view()));
                assert(all.skip(k)[0] == all[k]);
                assert(all.take(k + 1).drop_last() =~= all.take(k));
                assert(frozen_views(rest@) =~= all.skip(k + 1)) by {
                    assert forall|i: int| 0 <= i < rest@.len() implies frozen_views(rest@)[i]
                        == all.skip(k + 1)[i] by {
                        assert(rest@[i] == before[i + 1]);
                        assert(frozen_views(before)[i + 1] == all.skip(k)[i + 1]);
                    }
                }
                k = k + 1;
            }
            let below = names.len() <= f.names.len() && same_names(&names, &f.names, names.len());
            if !below {
                let ghost pair = (text::texts(f.names@), f.entry.view());
                left.push(f);
                assert(frozen_views(left@) =~= so_far.push(pair));
            }
        }
        assert(all.take(k) =~= all);
        let ghost kept = frozen_views(left@);
        let ghost made = entry.view();
        left.push(Frozen { names, entry });
        self.frozen = left;
        proof {
            let after = self.view();
            assert(after =~= kept.push((new, made)));
            outside_members(all, new);
            assert forall|i: int, j: int|
                #![trigger after[i], after[j]]
                0 <= i < after.len() && 0 <= j < after.len() && i != j implies !is_above(
                after[i].0,
                after[j].0,
            ) by {
                if i < kept.len() {
                    let a = choose|a: int| 0 <= a < all.len() && all[a] == kept[i] && !is_above(
                        new,
                        all[a].0,
                    );
                    assert(after[i] == kept[i]);
                    if j < kept.len() {
                        assert(after[j] == kept[j]);
                        outside_keeps_none_nested(all, new);
                        assert(!is_above(kept[i].0, kept[j].0));
                    } else {
                        assert(!is_above(all[a].0, new));
                    }
                } else {
                    assert(after[j] == kept[j]);
                }
            }
        }
    }
}

/// Those frozen paths that do not lie at or below `names`.
pub open spec fn outside(
    v: Seq<(Seq<Seq<char>>, FrozenView)>,
    names: Seq<Seq<char>>,
) -> Seq<(Seq<Seq<char>>, FrozenView)>
    decreases v.len(),
{
    if v.len() == 0 {
        seq![]
    } else {
        let before = outside(v.drop_last(), names);
        if is_above(names, v.last().0) {
            before
        } else {
            before.push(v.last())
        }
    }
}

proof fn outside_members(v: Seq<(Seq<Seq<char>>, FrozenView)>, names: Seq<Seq<char>>)
    ensures
        forall|i: int|
            #![trigger outside(v, names)[i]]
            0 <= i < outside(v, names).len() ==> exists|a: int|
                0 <= a < v.len() && v[a] == outside(v, names)[i] && !is_above(names, v[a].0),
    decreases v.len(),
{
    if v.len() > 0 {
        let before = outside(v.drop_last(), names);
        outside_members(v.drop_last(), names);
        assert forall|i: int| #![trigger outside(v, names)[i]] 0 <= i < outside(v, names).len() implies exists|a: int|
            0 <= a < v.len() && v[a] == outside(v, names)[i] && !is_above(names, v[a].0) by {
            if i < before.len() {
                assert(outside(v, names)[i] == before[i]);
                let a = choose|a: int|
                    0 <= a < v.drop_last().len() && v.drop_last()[a] == before[i] && !is_above(
                        names,
                        v.drop_last()[a].0,
                    );
                assert(v[a] == outside(v, names)[i]);
            } else {
                assert(v[v.len() - 1] == outside(v, names)[i]);
            }
        }
    }
}

proof fn outside_keeps_none_nested(v: Seq<(Seq<Seq<char>>, FrozenView)>, names: Seq<Seq<char>>)
    requires
        none_nested(v),
    ensures
        none_nested(outside(v, names)),
    decreases v.len(),
{
    if v.len() > 0 {
        let shorter = v.drop_last();
        assert forall|i: int, j: int|
            #![trigger shorter[i], shorter[j]]
            0 <= i < shorter.len() && 0 <= j < shorter.len() && i != j implies !is_above(
            shorter[i].0,
            shorter[j].0,
        ) by {
            assert(!is_above(v[i].0, v[j].0));
        }
        outside_keeps_none_nested(shorter, names);
        outside_members(shorter, names);
        let before = outside(shorter, names);
        let after = outside(v, names);
        assert forall|i: int, j: int|
            #![trigger after[i], after[j]]
            0 <= i < after.len() && 0 <= j < after.len() && i != j implies !is_above(
            after[i].0,
            after[j].0,
        ) by {
            if i < before.len() && j < before.len() {
                assert(!is_above(before[i].0, before[j].0));
            } else if i < before.len() {
                let a = choose|a: int| 0 <= a < shorter.len() && shorter[a] == before[i];
                assert(!is_above(v[a].0, v[v.len() - 1].0));
            } else {
                let a = choose|a: int| 0 <= a < shorter.len() && shorter[a] == before[j];
                assert(!is_above(v[v.len() - 1].0, v[a].0));
            }
        }
    }
}

/// What a path that is not direct goes on with does not make it direct.
proof fn invalid_prefix(cs: Seq<ComponentView>, n: int, m: int)
    requires
        0 <= n <= m <= cs.len(),
        direct_names(cs.take(n)) is None,
    ensures
        direct_names(cs.take(m)) is None,
{
    assert(cs.take(m).take(n) =~= cs.take(n));
    invalid_stays(cs.take(m), n);
}

proof fn invalid_stays(cs: Seq<ComponentView>, n: int)
    requires
        0 <= n <= cs.len(),
        direct_names(cs.take(n)) is None,
    ensures
        direct_names(cs) is None,
    decreases cs.len() - n,
{
    if n < cs.len() {
        assert(cs.take(n + 1).drop_last() =~= cs.take(n));
        invalid_stays(cs, n + 1);
    } else {
        assert(cs.take(n) =~= cs);
    }
}

proof fn first_is_unique(v: Seq<(Seq<Seq<char>>, FrozenView)>, cs: Seq<ComponentView>, n: int)
    requires
        first_frozen(v, cs, n),
    ensures
        forall|m: int| first_frozen(v, cs, m) ==> m == n,
{
    assert forall|m: int| first_frozen(v, cs, m) implies m == n by {
        if m < n {
            assert(leads_to_frozen(v, cs, m));
        } else if n < m {
            assert(leads_to_frozen(v, cs, n));
        }
    }
}

/// As no path is frozen twice, any place of a path holds the frozen object.
proof fn entry_at_place(
    v: Seq<(Seq<Seq<char>>, FrozenView)>,
    names: Seq<Seq<char>>,
    i: int,
)
    requires
        none_nested(v),
        is_frozen_at(v, names, i),
    ensures
        entry_at(v, names) == Some(v[i].1),
    decreases v.len(),
{
    if i < v.len() - 1 {
        assert(names.take(names.len() as int) =~= names);
        assert(!is_above(v[i].0, v[v.len() - 1].0));
        let shorter = v.drop_last();
        assert forall|a: int, b: int|
            #![trigger shorter[a], shorter[b]]
            0 <= a < shorter.len() && 0 <= b < shorter.len() && a != b implies !is_above(
            shorter[a].0,
            shorter[b].0,
        ) by {
            assert(!is_above(v[a].0, v[b].0));
        }
        entry_at_place(shorter, names, i);
    }
}

proof fn entry_at_nowhere(v: Seq<(Seq<Seq<char>>, FrozenView)>, names: Seq<Seq<char>>)
    requires
        forall|i: int| !is_frozen_at(v, names, i),
    ensures
        entry_at(v, names) is None,
    decreases v.len(),
{
    if v.len() > 0 {
        assert(!is_frozen_at(v, names, v.len() - 1));
        assert forall|i: int| !is_frozen_at(v.drop_last(), names, i) by {
            assert(!is_frozen_at(v, names, i));
        }
        entry_at_nowhere(v.drop_last(), names);
    }
}

/// Why the way to a path on disk is not open.
fn check_parents(disk: &Vec<(String, DiskEntry)>, names: &Vec<String>) -> (r: Option<FreezeError>)
    ensures
        r == parents_fault(frozen::disk_entries(disk@), text::texts(names@)),
{
    broadcast use text::group_texts;

    let ghost all = text::texts(names@);
    let ghost goal = parents_fault(frozen::disk_entries(disk@), all);
    let mut here = disk;
    let mut i: usize = 0;
    assert(all.skip(0) =~= all);
    while names.len() - i > 1
        invariant
            i <= names@.len(),
            all == text::texts(names@),
            goal == parents_fault(frozen::disk_entries(disk@), all),
            parents_fault(frozen::disk_entries(here@), all.skip(i as int)) == goal,
        decreases names@.len() - i,
    {
        assert(all.skip(i as int)[0] == names@[i as int]@);
        assert(all.skip(i as int).skip(1) =~= all.skip(i + 1));
        match frozen::find_on_disk(here, names[i].as_str()) {
            None => {
                return Some(FreezeError::NotFound);
            },
            Some(DiskEntry::Dir(sub)) => {
                proof {
                    frozen::disk_dir_view(*sub);
                }
                here = sub;
            },
            Some(_) => {
                return Some(FreezeError::NotADirectory);
            },
        }
        i = i + 1;
    }
    None
}

fn copy_with(names: &Vec<String>, name: &str) -> (r: Vec<String>)
    ensures
        text::texts(r@) == text::texts(names@).push(name@),
{
    broadcast use text::group_texts;

    let mut out = text::copy_texts(names);
    out.push(name.to_owned());
    out
}

impl Freezer {
    /// Freezes what is on disk at a path, noting in `locked` what has to be made
    /// read-only.
    fn freeze_node(
        &self,
        at: &Vec<String>,
        node: &DiskEntry,
        locked: &mut Vec<Vec<String>>,
    ) -> (r: DirEntry)
        requires
            self.wf(),
        ensures
            r.view() == frozen_node(self.view(), text::texts(at@), node.view()),
            paths(final(locked)@) == paths(old(locked)@) + locked_node(
                self.view(),
                text::texts(at@),
                node.view(),
            ),
        decreases node,
    {
        match node {
            DiskEntry::Dir(sub) => {
                proof {
                    frozen::disk_dir_view(*sub);
                }
                assert(decreases_to!(*node => node->Dir_0));
                self.build_dir(at, sub, locked)
            },
            DiskEntry::File => {
                let ghost before = paths(locked@);
                locked.push(text::copy_texts(at));
                assert(paths(locked@) =~= before + seq![text::texts(at@)]);
                DirEntry::File(text::copy_texts(at))
            },
            DiskEntry::Symlink(target) => DirEntry::Symlink(Symlink::new(target.as_str())),
        }
    }

    /// Freezes a directory, contents first.
    fn build_dir(
        &self,
        at: &Vec<String>,
        entries: &Vec<(String, DiskEntry)>,
        locked: &mut Vec<Vec<String>>,
    ) -> (r: DirEntry)
        requires
            self.wf(),
        ensures
            r.view() == FrozenView::Dir(
                built(self.view(), text::texts(at@), frozen::disk_entries(entries@)),
            ),
            paths(final(locked)@) == paths(old(locked)@) + locked_below(
                self.view(),
                text::texts(at@),
                frozen::disk_entries(entries@),
            ).push(text::texts(at@)),
        decreases entries,
    {
        let ghost d = frozen::disk_entries(entries@);
        let ghost v = self.view();
        let ghost here = text::texts(at@);
        let ghost before = paths(locked@);
        let mut out: Vec<(String, DirEntry)> = Vec::new();
        let mut i: usize = 0;
        assert(d.subrange(0, 0) =~= seq![]);
        assert(frozen::dir_entries(out@) =~= seq![]);
        assert(before + locked_below(v, here, d.subrange(0, 0)) =~= before);
        while i < entries.len()
            invariant
                i <= entries@.len(),
                self.wf(),
                v == self.view(),
                here == text::texts(at@),
                d == frozen::disk_entries(entries@),
                frozen::dir_entries(out@) == built(v, here, d.subrange(0, i as int)),
                paths(locked@) == before + locked_below(v, here, d.subrange(0, i as int)),
            decreases entries@.len() - i,
        {
            let ghost next = d.subrange(0, i + 1);
            assert(next.subrange(0, i as int) =~= d.subrange(0, i as int));
            assert(next[i as int] == (entries@[i as int].0@, entries@[i as int].1.view()));
            let ghost so_far = frozen::dir_entries(out@);
            let ghost done = locked_below(v, here, d.subrange(0, i as int));
            let names = copy_with(at, entries[i].0.as_str());
            let ghost below = text::texts(names@);
            assert(below.take(below.len() as int) =~= below);
            let entry = match self.place(&names, names.len()) {
                Some(k) => {
                    proof {
                        entry_at_place(v, below, k as int);
                        assert(v[k as int].1 == self.frozen@[k as int].entry.view());
                        assert(paths(locked@) =~= before + locked_below(v, here, next));
                    }
                    self.frozen[k].entry.copy()
                },
                None => {
                    proof {
                        entry_at_nowhere(v, below);
                        assert(decreases_to!(entries => entries@));
                        assert(decreases_to!(entries@ => entries@[i as int]));
                        assert(decreases_to!(entries@[i as int] => entries@[i as int].1));
                    }
                    let e = self.freeze_node(&names, &entries[i].1, locked);
                    assert(paths(locked@) =~= before + (done + locked_node(
                        v,
                        below,
                        entries@[i as int].1.view(),
                    )));
                    e
                },
            };
            let name = entries[i].0.clone();
            let ghost pair = (name@, entry.view());
            out.push((name, entry));
            assert(frozen::dir_entries(out@) =~= so_far.push(pair));
            i = i + 1;
        }
        assert(d.subrange(0, i as int) =~= d);
        let ghost so_far = paths(locked@);
        locked.push(text::copy_texts(at));
        assert(paths(locked@) =~= so_far.push(here));
        assert(paths(locked@) =~= before + locked_below(v, here, d).push(here));
        proof {
            frozen::frozen_dir_view(out);
        }
        DirEntry::Dir(out)
    }

    /// Freezes what is on disk at a path, if there is anything.
    fn freeze_found(&self, names: &Vec<String>, disk: &Vec<(String, DiskEntry)>) -> (r: Option<
        Freeze,
    >)
        requires
            self.wf(),
        ensures
            (match on_disk(frozen::disk_entries(disk@), text::texts(names@)) {
                Some(node) => r is Some && r->0.view() == (
                    frozen_node(self.view(), text::texts(names@), node),
                    locked_node(self.view(), text::texts(names@), node),
                ),
                None => r is None,
            }),
    {
        broadcast use text::group_texts;

        let ghost all = text::texts(names@);
        let mut locked: Vec<Vec<String>> = Vec::new();
        assert(paths(locked@) =~= seq![]);
        if names.len() == 0 {
            let entry = self.build_dir(names, disk, &mut locked);
            let r = Freeze { entry, locked };
            assert(r.view().1 =~= locked_node(
                self.view(),
                all,
                OnDisk::Dir(frozen::disk_entries(disk@)),
            ));
            return Some(r);
        }
        let ghost goal = on_disk(frozen::disk_entries(disk@), all);
        let mut here = disk;
        let mut i: usize = 0;
        assert(all.skip(0) =~= all);
        while names.len() - i > 1
            invariant
                0 <= i < names@.len(),
                all == text::texts(names@),
                goal == on_disk(frozen::disk_entries(disk@), all),
                on_disk(frozen::disk_entries(here@), all.skip(i as int)) == goal,
            decreases names@.len() - i,
        {
            assert(all.skip(i as int)[0] == names@[i as int]@);
            assert(all.skip(i as int).skip(1) =~= all.skip(i + 1));
            match frozen::find_on_disk(here, names[i].as_str()) {
                Some(DiskEntry::Dir(sub)) => {
                    proof {
                        frozen::disk_dir_view(*sub);
                    }
                    here = sub;
                },
                _ => {
                    return None;
                },
            }
            i = i + 1;
        }
        assert(all.skip(i as int)[0] == names@[i as int]@);
        match frozen::find_on_disk(here, names[i].as_str()) {
            Some(node) => {
                let entry = self.freeze_node(names, node, &mut locked);
                let r = Freeze { entry, locked };
                assert(r.view().1 =~= locked_node(self.view(), all, node.view()));
                Some(r)
            },
            None => None,
        }
    }

    /// Freezes the object at a path. `p` must be relative to the diagnostics
    /// directory, of which `disk` is the contents, and cannot go up or through
    /// links; if it leads to a link, the link itself is frozen.
    ///
    /// What is frozen already is not frozen again, neither at the path nor below
    /// it.
    pub fn freeze(&mut self, p: &str, disk: &Vec<(String, DiskEntry)>) -> (r: Result<
        Freeze,
        FreezeError,
    >)
        requires
            old(self).wf(),
        ensures
            final(self).wf(),
            final(self).view() == frozen_after(
                old(self).view(),
                frozen::disk_entries(disk@),
                path::components_of(p@),
            ),
            (match r {
                Ok(f) => freeze_of(
                    old(self).view(),
                    frozen::disk_entries(disk@),
                    path::components_of(p@),
                ) == Ok::<(FrozenView, Seq<Seq<Seq<char>>>), FreezeError>(f.view()),
                Err(e) => freeze_of(
                    old(self).view(),
                    frozen::disk_entries(disk@),
                    path::components_of(p@),
                ) == Err::<(FrozenView, Seq<Seq<Seq<char>>>), FreezeError>(e),
            }),
    {
        match self.verify_direct(p, disk)? {
            DirectVerified::Frozen { at, remaining } => {
                let nothing: Vec<Vec<String>> = Vec::new();
                assert(paths(nothing@) =~= seq![]);
                let held = &self.frozen[at].entry;
                if held.is_dir() {
                    match held.reach(&remaining) {
                        Ok(e) => Ok(Freeze { entry: e.copy(), locked: nothing }),
                        Err(GetNofollowError::LeavesDir) => Err(FreezeError::InvalidInput),
                        Err(GetNofollowError::NotADirectory) => Err(FreezeError::NotADirectory),
                        Err(GetNofollowError::NotFound) => Err(FreezeError::NotFound),
                    }
                } else {
                    Ok(Freeze { entry: held.copy(), locked: nothing })
                }
            },
            DirectVerified::Unfrozen { names } => match self.freeze_found(&names, disk) {
                Some(f) => {
                    let entry = f.entry.copy();
                    self.record(names, entry);
                    Ok(f)
                },
                None => Err(FreezeError::NotFound),
            },
        }
    }

    /// The names under which a copy is to be written at a path. The path must be
    /// direct, and nothing at it or above it may be frozen.
    pub fn copy_target(&self, p: &str, disk: &Vec<(String, DiskEntry)>) -> (r: Result<
        Vec<String>,
        FreezeError,
    >)
        requires
            self.wf(),
        ensures
            (match r {
                Ok(names) => target_of(
                    self.view(),
                    frozen::disk_entries(disk@),
                    path::components_of(p@),
                ) == Ok::<Seq<Seq<char>>, FreezeError>(text::texts(names@)),
                Err(e) => target_of(
                    self.view(),
                    frozen::disk_entries(disk@),
                    path::components_of(p@),
                ) == Err::<Seq<Seq<char>>, FreezeError>(e),
            }),
            r is Ok ==> forall|i: int|
                0 <= i < self.view().len() ==> !is_above(
                    (#[trigger] self.view()[i]).0,
                    text::texts(r->Ok_0@),
                ),
    {
        match self.verify_direct(p, disk) {
            Ok(DirectVerified::Unfrozen { names }) => Ok(names),
            Ok(DirectVerified::Frozen { .. }) => Err(FreezeError::PermissionDenied),
            Err(e) => Err(e),
        }
    }

    /// Ends the making of a read-only copy of a frozen object at a path. `written`
    /// is what came of writing the copy at [`Freezer::copy_target`]; `disk` is what
    /// the diagnostics directory held before. Only a copy that was written is
    /// recorded as frozen.
    pub fn copy_ro(
        &mut self,
        p: &str,
        entry: DirEntry,
        disk: &Vec<(String, DiskEntry)>,
        written: Result<(), String>,
    ) -> (r: Result<(), CopyError>)
        requires
            old(self).wf(),
        ensures
            final(self).wf(),
            (match target_of(
                old(self).view(),
                frozen::disk_entries(disk@),
                path::components_of(p@),
            ) {
                Ok(names) => match written {
                    Ok(_) => {
                        &&& r is Ok
                        &&& final(self).view() == outside(old(self).view(), names).push(
                            (names, entry.view()),
                        )
                    },
                    Err(e) => {
                        &&& r == Err::<(), CopyError>(CopyError::NotWritten(e))
                        &&& final(self).view() == old(self).view()
                    },
                },
                Err(e) => {
                    &&& r == Err::<(), CopyError>(CopyError::Refused(e))
                    &&& final(self).view() == old(self).view()
                },
            }),
    {
        match self.copy_target(p, disk) {
            Ok(names) => match written {
                Ok(_) => {
                    self.record(names, entry);
                    Ok(())
                },
                Err(e) => Err(CopyError::NotWritten(e)),
            },
            Err(e) => Err(CopyError::Refused(e)),
        }
    }
}

/// Frozen objects are not frozen again: freezing a path a second time gives the
/// same object, whatever the disk holds then, and makes nothing read-only.
pub proof fn freezing_again_changes_nothing(
    v: Seq<(Seq<Seq<char>>, FrozenView)>,
    disk: Seq<(Seq<char>, OnDisk)>,
    later: Seq<(Seq<char>, OnDisk)>,
    p: Seq<char>,
)
    requires
        none_nested(v),
        freeze_of(v, disk, path::components_of(p)) is Ok,
    ensures
        freeze_of(
            frozen_after(v, disk, path::components_of(p)),
            later,
            path::components_of(p),
        ) == Ok::<(FrozenView, Seq<Seq<Seq<char>>>), FreezeError>(
            (freeze_of(v, disk, path::components_of(p))->Ok_0.0, seq![]),
        ),
        frozen_after(
            frozen_after(v, disk, path::components_of(p)),
            later,
            path::components_of(p),
        ) == frozen_after(v, disk, path::components_of(p)),
{
    let cs = path::components_of(p);
    if !(exists|n: int| first_frozen(v, cs, n)) {
        let names = direct_names(cs)->0;
        let node = on_disk(disk, names)->0;
        let entry = frozen_node(v, names, node);
        let after = frozen_after(v, disk, cs);
        assert(after == outside(v, names).push((names, entry)));
        let last = after.len() - 1;
        assert(is_frozen_at(after, names, last));
        assert(is_frozen(after, names));
        assert(cs.take(cs.len() as int) =~= cs);
        assert(leads_to_frozen(after, cs, cs.len() as int));
        let n = least_frozen(after, cs, cs.len() as int);
        first_is_unique(after, cs, n);
        let part = direct_names(cs.take(n))->0;
        outside_members(v, names);
        let i = choose|i: int| is_frozen_at(after, part, i);
        if i < last {
            let a = choose|a: int|
                0 <= a < v.len() && v[a] == outside(v, names)[i] && !is_above(names, v[a].0);
            assert(is_frozen_at(v, part, a));
            assert(is_frozen(v, part));
            assert(leads_to_frozen(v, cs, n));
            let m = least_frozen(v, cs, n);
            assert(first_frozen(v, cs, m));
        }
        assert(part == names);
        assert(entry_at(after, names) == Some(entry));
        ends_with_its_names(p, n);
        if n < cs.len() {
            assert(cs.skip(n) =~= seq![ComponentView::CurDir]);
            assert(cs.skip(n).skip(1) =~= seq![]);
            reveal_with_fuel(frozen::reached, 2);
        } else {
            assert(cs.skip(n) =~= seq![]);
        }
    }
}

/// What freezing a path makes read-only lies at or below the path, and is not
/// part of anything that was frozen before.
pub proof fn only_new_paths_are_locked(
    v: Seq<(Seq<Seq<char>>, FrozenView)>,
    at: Seq<Seq<char>>,
    node: OnDisk,
    k: int,
)
    requires
        forall|i: int| 0 <= i < v.len() ==> !is_above((#[trigger] v[i]).0, at),
        0 <= k < locked_node(v, at, node).len(),
    ensures
        is_above(at, locked_node(v, at, node)[k]),
        forall|i: int|
            0 <= i < v.len() ==> !is_above((#[trigger] v[i]).0, locked_node(v, at, node)[k]),
    decreases node,
{
    assert(at.take(at.len() as int) =~= at);
    if let OnDisk::Dir(sub) = node {
        if k < locked_below(v, at, sub).len() {
            locked_below_is_new(v, at, sub, k);
        }
    }
}

proof fn locked_below_is_new(
    v: Seq<(Seq<Seq<char>>, FrozenView)>,
    at: Seq<Seq<char>>,
    d: Seq<(Seq<char>, OnDisk)>,
    k: int,
)
    requires
        forall|i: int| 0 <= i < v.len() ==> !is_above((#[trigger] v[i]).0, at),
        0 <= k < locked_below(v, at, d).len(),
    ensures
        is_above(at, locked_below(v, at, d)[k]),
        forall|i: int|
            0 <= i < v.len() ==> !is_above((#[trigger] v[i]).0, locked_below(v, at, d)[k]),
    decreases d,
{
    let shorter = d.subrange(0, d.len() - 1);
    let head = locked_below(v, at, shorter);
    if k < head.len() {
        locked_below_is_new(v, at, shorter, k);
        assert(locked_below(v, at, d)[k] == head[k]);
    } else {
        let below = at.push(d[d.len() - 1].0);
        let node = d[d.len() - 1].1;
        assert(locked_below(v, at, d)[k] == locked_node(v, below, node)[k - head.len()]);
        assert forall|i: int| 0 <= i < v.len() implies !is_above((#[trigger] v[i]).0, below) by {
            if is_above(v[i].0, below) {
                if v[i].0.len() <= at.len() {
                    assert(below.take(v[i].0.len() as int) =~= at.take(v[i].0.len() as int));
                    assert(is_above(v[i].0, at));
                } else {
                    assert(below.take(below.len() as int) =~= below);
                    frozen_somewhere(v, below, i);
                }
            }
        }
        only_new_paths_are_locked(v, below, node, k - head.len());
        let l = locked_node(v, below, node)[k - head.len()];
        assert(l.take(at.len() as int) =~= l.take(below.len() as int).take(at.len() as int));
        assert(below.take(at.len() as int) =~= at);
    }
}

proof fn frozen_somewhere(
    v: Seq<(Seq<Seq<char>>, FrozenView)>,
    names: Seq<Seq<char>>,
    i: int,
)
    requires
        is_frozen_at(v, names, i),
    ensures
        entry_at(v, names) is Some,
    decreases v.len(),
{
    if i < v.len() - 1 {
        frozen_somewhere(v.drop_last(), names, i);
    }
}

proof fn least_frozen(
    v: Seq<(Seq<Seq<char>>, FrozenView)>,
    cs: Seq<ComponentView>,
    n: int,
) -> (r: int)
    requires
        0 <= n <= cs.len(),
        leads_to_frozen(v, cs, n),
    ensures
        r <= n,
        first_frozen(v, cs, r),
    decreases n,
{
    if exists|m: int| 0 <= m < n && #[trigger] leads_to_frozen(v, cs, m) {
        let m = choose|m: int| 0 <= m < n && #[trigger] leads_to_frozen(v, cs, m);
        least_frozen(v, cs, m)
    } else {
        n
    }
}

/// Once a path has all its names, at most a leading `.` is left of it.
proof fn ends_with_its_names(p: Seq<char>, n: int)
    requires
        0 <= n <= path::components_of(p).len(),
        direct_names(path::components_of(p)) is Some,
        direct_names(path::components_of(p).take(n)) == direct_names(path::components_of(p)),
    ensures
        n < path::components_of(p).len() ==> n == 0 && path::components_of(p) == seq![
            ComponentView::CurDir,
        ],
{
    let cs = path::components_of(p);
    if n < cs.len() {
        if path::is_absolute_path(p) {
            assert(cs.take(0) =~= seq![]);
            assert(cs.take(1).drop_last() =~= cs.take(0));
            assert(cs.take(1).last() == ComponentView::RootDir);
            invalid_stays(cs, 1);
        }
        let pieces = text::pieces_of(p, '/');
        assert(cs =~= path::pieces_components(pieces));
        path::cur_dir_comes_first(pieces);
        names_grow(cs, n);
    }
}

/// Past the first component every one adds a name.
proof fn names_grow(cs: Seq<ComponentView>, n: int)
    requires
        0 <= n < cs.len(),
        direct_names(cs) is Some,
        forall|i: int| 0 < i < cs.len() ==> !(#[trigger] cs[i] is CurDir),
    ensures
        direct_names(cs.take(n)) is Some,
        n > 0 || cs.len() > 1 || !(cs[0] is CurDir) ==> direct_names(cs.take(n))->0.len()
            < direct_names(cs)->0.len(),
    decreases cs.len() - n,
{
    assert(cs.take(n + 1).drop_last() =~= cs.take(n));
    assert(cs.take(n + 1).last() == cs[n]);
    if n + 1 < cs.len() {
        names_grow(cs, n + 1);
    } else {
        assert(cs.take(n + 1) =~= cs);
    }
}

/// Nothing is written to what is frozen, nor into it; elsewhere a copy goes to just the
/// names of its path, if the directories above it are there.
pub proof fn frozen_paths_are_not_written(
    v: Seq<(Seq<Seq<char>>, FrozenView)>,
    disk: Seq<(Seq<char>, OnDisk)>,
    cs: Seq<ComponentView>,
    n: int,
)
    ensures
        0 <= n <= cs.len() && leads_to_frozen(v, cs, n) ==> target_of(v, disk, cs) is Err,
        (forall|m: int| 0 <= m <= cs.len() ==> !#[trigger] leads_to_frozen(v, cs, m))
            && direct_names(cs) is Some && parents_fault(disk, direct_names(cs)->0) is None
            ==> target_of(v, disk, cs) == Ok::<Seq<Seq<char>>, FreezeError>(direct_names(cs)->0),
        (forall|m: int| 0 <= m <= cs.len() ==> !#[trigger] leads_to_frozen(v, cs, m))
            && direct_names(cs) is None ==> target_of(v, disk, cs) == Err::<
            Seq<Seq<char>>,
            FreezeError,
        >(FreezeError::InvalidInput),
{
    if 0 <= n <= cs.len() && leads_to_frozen(v, cs, n) {
        let r = least_frozen(v, cs, n);
        assert(first_frozen(v, cs, r));
    }
    if forall|m: int| 0 <= m <= cs.len() ==> !#[trigger] leads_to_frozen(v, cs, m) {
        assert forall|m: int| !first_frozen(v, cs, m) by {}
    }
}

/// A path is direct exactly if it neither starts at the root nor goes up.
pub proof fn direct_paths_stay_inside(cs: Seq<ComponentView>)
    ensures
        direct_names(cs) is Some <==> forall|i: int|
            0 <= i < cs.len() ==> !((#[trigger] cs[i]) is RootDir) && !(cs[i] is ParentDir),
    decreases cs.len(),
{
    if cs.len() > 0 {
        let front = cs.drop_last();
        direct_paths_stay_inside(front);
        if direct_names(cs) is Some {
            assert forall|i: int| 0 <= i < cs.len() implies !((#[trigger] cs[i]) is RootDir) && !(
            cs[i] is ParentDir) by {
                if i < front.len() {
                    assert(front[i] == cs[i]);
                }
            }
        }
        if forall|i: int|
            0 <= i < cs.len() ==> !((#[trigger] cs[i]) is RootDir) && !(cs[i] is ParentDir) {
            assert forall|i: int| 0 <= i < front.len() implies !((#[trigger] front[i]) is RootDir)
                && !(front[i] is ParentDir) by {
                assert(front[i] == cs[i]);
            }
            assert(!(cs[cs.len() - 1] is RootDir) && !(cs[cs.len() - 1] is ParentDir));
        }
    }
}

/// Where nothing is frozen yet, an object is frozen as it is on disk: a file by its
/// place, a link by its target, and a directory with all its entries under their names.
pub proof fn objects_are_frozen_as_they_are(
    at: Seq<Seq<char>>,
    node: OnDisk,
    sub: Seq<(Seq<char>, OnDisk)>,
    target: Seq<char>,
    i: int,
)
    ensures
        ({
            let f = frozen_node(seq![], at, node);
            &&& node == OnDisk::File ==> f == FrozenView::File(at)
            &&& node == OnDisk::Symlink(target) ==> f == FrozenView::Symlink(target)
            &&& node == OnDisk::Dir(sub) ==> (f matches FrozenView::Dir(d) && d.len() == sub.len()
                && (0 <= i < sub.len() ==> d[i].0 == sub[i].0 && d[i].1 == frozen_node(
                seq![],
                at.push(sub[i].0),
                sub[i].1,
            )))
        }),
{
    if node == OnDisk::Dir(sub) {
        entries_are_frozen(at, sub, i);
    }
}

proof fn entries_are_frozen(at: Seq<Seq<char>>, d: Seq<(Seq<char>, OnDisk)>, i: int)
    ensures
        built(seq![], at, d).len() == d.len(),
        0 <= i < d.len() ==> built(seq![], at, d)[i].0 == d[i].0 && built(seq![], at, d)[i].1
            == frozen_node(seq![], at.push(d[i].0), d[i].1),
    decreases d.len(),
{
    if d.len() > 0 {
        let front = d.subrange(0, d.len() - 1);
        entries_are_frozen(at, front, i);
        let name = d[d.len() - 1].0;
        assert(entry_at(seq![], at.push(name)) is None);
        if 0 <= i < front.len() {
            assert(front[i] == d[i]);
        }
    }
}

/// Where nothing is frozen yet, every file and directory that is frozen becomes
/// read-only; a link does not.
pub proof fn frozen_files_become_read_only(
    at: Seq<Seq<char>>,
    node: OnDisk,
    sub: Seq<(Seq<char>, OnDisk)>,
    i: int,
    p: Seq<Seq<char>>,
)
    ensures
        node is File || node is Dir ==> locked_node(seq![], at, node).contains(at),
        node is Symlink ==> locked_node(seq![], at, node).len() == 0,
        node == OnDisk::Dir(sub) && 0 <= i < sub.len() && locked_node(
            seq![],
            at.push(sub[i].0),
            sub[i].1,
        ).contains(p) ==> locked_node(seq![], at, node).contains(p),
{
    let all = locked_node(seq![], at, node);
    match node {
        OnDisk::File => {
            assert(all[0] == at);
        },
        OnDisk::Dir(d) => {
            assert(all[all.len() - 1] == at);
            if d == sub && 0 <= i < sub.len() && locked_node(
                seq![],
                at.push(sub[i].0),
                sub[i].1,
            ).contains(p) {
                entries_become_read_only(at, sub, i, p);
                let below = locked_below(seq![], at, sub);
                let k = choose|k: int| 0 <= k < below.len() && below[k] == p;
                assert(all[k] == p);
            }
        },
        OnDisk::Symlink(_) => {},
    }
}

proof fn entries_become_read_only(
    at: Seq<Seq<char>>,
    d: Seq<(Seq<char>, OnDisk)>,
    i: int,
    p: Seq<Seq<char>>,
)
    requires
        0 <= i < d.len(),
        locked_node(seq![], at.push(d[i].0), d[i].1).contains(p),
    ensures
        locked_below(seq![], at, d).contains(p),
    decreases d.len(),
{
    let front = d.subrange(0, d.len() - 1);
    let name = d[d.len() - 1].0;
    let head = locked_below(seq![], at, front);
    let all = locked_below(seq![], at, d);
    assert(entry_at(seq![], at.push(name)) is None);
    if i < front.len() {
        assert(front[i] == d[i]);
        entries_become_read_only(at, front, i, p);
        let k = choose|k: int| 0 <= k < head.len() && head[k] == p;
        assert(all[k] == p);
    } else {
        let last = locked_node(seq![], at.push(name), d[d.len() - 1].1);
        let k = choose|k: int| 0 <= k < last.len() && last[k] == p;
        assert(all[head.len() + k] == p);
    }
}

} // verus!
