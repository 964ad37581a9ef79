//! A directory tree held in memory, such as an input project or a translated
//! crate.

use crate::num;
use crate::path;
use crate::path::{Component, ComponentView};
use crate::stage_manifest;
use crate::text;
use vstd::prelude::*;
use vstd::string::*;

verus! {

/// A directory entry.
#[derive(Debug, PartialEq, Eq)]
pub enum RawEntry {
    Dir(RawDir),
    File(Vec<u8>),
}

/// A directory: its entries in strictly ascending order of their names.
#[derive(Debug, PartialEq, Eq)]
pub struct RawDir {
    pub entries: Vec<(String, RawEntry)>,
}

/// Error type returned by [`RawDir::set_file`].
#[derive(Debug, Clone, Copy, PartialEq, Eq, Structural)]
pub enum SetFileError {
    /// The path is absolute.
    AbsolutePath,
    /// Something exists at the path.
    AlreadyExists,
    /// The path can only name a directory.
    Directory,
    /// The path names nothing.
    EmptyFileName,
    /// The path leaves the directory.
    OutsideDir,
    /// A file stands where the path needs a directory.
    UnderFile,
}

/// Error type returned by [`RawDir::get_file`].
#[derive(Debug, Clone, Copy, PartialEq, Eq, Structural)]
pub enum GetFileError {
    /// The path is absolute.
    AbsolutePath,
    /// The path names a directory, or can only name one.
    Directory,
    /// The path leaves the directory.
    OutsideDir,
    /// A file stands where the path needs a directory.
    UnderFile,
    /// Nothing exists at the path.
    DoesNotExist,
}

// ── The mathematical model ───────────────────────────────────────────────

pub enum EntryView {
    Dir(Seq<(Seq<char>, EntryView)>),
    File(Seq<u8>),
}

/// A directory: names with what they stand for.
pub type DirView = Seq<(Seq<char>, EntryView)>;

impl RawEntry {
    pub open spec fn view(&self) -> EntryView
        decreases self,
    {
        match *self {
            RawEntry::Dir(d) => EntryView::Dir(d.view()),
            RawEntry::File(v) => EntryView::File(v@),
        }
    }
}

impl RawDir {
    pub open spec fn view(&self) -> DirView
        decreases self,
    {
        Seq::new(
            self.entries@.len(),
            |i: int|
                if 0 <= i < self.entries@.len() {
                    (self.entries@[i].0@, self.entries@[i].1.view())
                } else {
                    (seq![], EntryView::File(seq![]))
                },
        )
    }

    /// Names strictly ascend, here and in every directory below.
    pub open spec fn wf(&self) -> bool {
        wf_dir(self.view())
    }
}

pub open spec fn ascending(d: DirView) -> bool {
    forall|i: int, j: int|
        #![trigger d[i], d[j]]
        0 <= i < j < d.len() ==> text::text_less(d[i].0, d[j].0)
}

pub open spec fn wf_dir(d: DirView) -> bool
    decreases d,
{
    ascending(d) && forall|i: int| 0 <= i < d.len() ==> wf_entry((#[trigger] d[i]).1)
}

pub open spec fn wf_entry(e: EntryView) -> bool
    decreases e,
{
    match e {
        EntryView::Dir(d) => wf_dir(d),
        EntryView::File(_) => true,
    }
}

pub open spec fn name_at(d: DirView, name: Seq<char>, i: int) -> bool {
    0 <= i < d.len() && d[i].0 == name
}

/// What a name stands for in a directory.
pub open spec fn find(d: DirView, name: Seq<char>) -> Option<EntryView> {
    if exists|i: int| name_at(d, name, i) {
        Some(d[choose|i: int| name_at(d, name, i)].1)
    } else {
        None
    }
}

/// How many entries come before `name`.
pub open spec fn slot(d: DirView, name: Seq<char>) -> int
    decreases d.len(),
{
    if d.len() == 0 || !text::text_less(d[0].0, name) {
        0
    } else {
        1 + slot(d.skip(1), name)
    }
}

/// `d` with `name` standing for `e`.
pub open spec fn put(d: DirView, name: Seq<char>, e: EntryView) -> DirView {
    let at = slot(d, name);
    if at < d.len() && d[at].0 == name {
        d.update(at, (name, e))
    } else {
        d.insert(at, (name, e))
    }
}

/// The contents of the file that a path of names leads to.
pub open spec fn file_at(d: DirView, names: Seq<Seq<char>>) -> Option<Seq<u8>>
    decreases names.len(),
{
    if names.len() == 0 {
        None
    } else {
        match find(d, names[0]) {
            None => None,
            Some(EntryView::File(b)) => if names.len() == 1 {
                Some(b)
            } else {
                None
            },
            Some(EntryView::Dir(sub)) => if names.len() == 1 {
                None
            } else {
                file_at(sub, names.skip(1))
            },
        }
    }
}

/// What reading the file at a path of names gives.
pub open spec fn read_at(d: DirView, names: Seq<Seq<char>>) -> Result<Seq<u8>, GetFileError>
    decreases names.len(),
{
    if names.len() == 0 {
        Err(GetFileError::DoesNotExist)
    } else {
        match find(d, names[0]) {
            None => Err(GetFileError::DoesNotExist),
            Some(EntryView::File(b)) => if names.len() == 1 {
                Ok(b)
            } else {
                Err(GetFileError::UnderFile)
            },
            Some(EntryView::Dir(sub)) => if names.len() == 1 {
                Err(GetFileError::Directory)
            } else {
                read_at(sub, names.skip(1))
            },
        }
    }
}

/// What creating a file at a path of names gives. Missing directories are
/// created on the way.
pub open spec fn create_at(d: DirView, names: Seq<Seq<char>>, bytes: Seq<u8>) -> Result<
    DirView,
    SetFileError,
>
    decreases names.len(),
{
    if names.len() == 0 {
        Err(SetFileError::EmptyFileName)
    } else if names.len() == 1 {
        match find(d, names[0]) {
            None => Ok(put(d, names[0], EntryView::File(bytes))),
            Some(_) => Err(SetFileError::AlreadyExists),
        }
    } else {
        match find(d, names[0]) {
            Some(EntryView::File(_)) => Err(SetFileError::UnderFile),
            Some(EntryView::Dir(sub)) => match create_at(sub, names.skip(1), bytes) {
                Ok(after) => Ok(put(d, names[0], EntryView::Dir(after))),
                Err(e) => Err(e),
            },
            None => match create_at(seq![], names.skip(1), bytes) {
                Ok(after) => Ok(put(d, names[0], EntryView::Dir(after))),
                Err(e) => Err(e),
            },
        }
    }
}

/// `d` with other contents in the file at a path of names.
pub open spec fn rewrite_at(d: DirView, names: Seq<Seq<char>>, bytes: Seq<u8>) -> DirView
    decreases names.len(),
{
    if names.len() == 0 {
        d
    } else {
        match find(d, names[0]) {
            Some(EntryView::File(_)) => put(d, names[0], EntryView::File(bytes)),
            Some(EntryView::Dir(sub)) => put(
                d,
                names[0],
                EntryView::Dir(rewrite_at(sub, names.skip(1), bytes)),
            ),
            None => d,
        }
    }
}

/// Why a path leads to no file name.
pub enum PathFault {
    AbsolutePath,
    OutsideDir,
    Directory,
    Empty,
}

/// The names that components lead through, `..` taking one back, and whether
/// the last component can be a file.
pub open spec fn walk(cs: Seq<ComponentView>) -> Result<(Seq<Seq<char>>, bool), PathFault>
    decreases cs.len(),
{
    if cs.len() == 0 {
        Ok((seq![], true))
    } else {
        match walk(cs.drop_last()) {
            Err(f) => Err(f),
            Ok((names, _)) => match cs.last() {
                ComponentView::CurDir => Ok((names, false)),
                ComponentView::Normal(name) => Ok((names.push(name), true)),
                ComponentView::ParentDir => if names.len() == 0 {
                    Err(PathFault::OutsideDir)
                } else {
                    Ok((names.drop_last(), false))
                },
                ComponentView::RootDir => Err(PathFault::AbsolutePath),
            },
        }
    }
}

/// The names that a path leads through, the last one a file's.
pub open spec fn names_of(p: Seq<char>) -> Result<Seq<Seq<char>>, PathFault> {
    match walk(path::components_of(p)) {
        Err(f) => Err(f),
        Ok((names, can_be_file)) => if !can_be_file {
            Err(PathFault::Directory)
        } else if names.len() == 0 {
            Err(PathFault::Empty)
        } else {
            Ok(names)
        },
    }
}

pub open spec fn get_fault(f: PathFault) -> GetFileError {
    match f {
        PathFault::AbsolutePath => GetFileError::AbsolutePath,
        PathFault::OutsideDir => GetFileError::OutsideDir,
        PathFault::Directory => GetFileError::Directory,
        PathFault::Empty => GetFileError::DoesNotExist,
    }
}

pub open spec fn set_fault(f: PathFault) -> SetFileError {
    match f {
        PathFault::AbsolutePath => SetFileError::AbsolutePath,
        PathFault::OutsideDir => SetFileError::OutsideDir,
        PathFault::Directory => SetFileError::Directory,
        PathFault::Empty => SetFileError::EmptyFileName,
    }
}

/// What reading the file at a path gives.
pub open spec fn read_path(d: DirView, p: Seq<char>) -> Result<Seq<u8>, GetFileError> {
    match names_of(p) {
        Err(f) => Err(get_fault(f)),
        Ok(names) => read_at(d, names),
    }
}

/// What creating a file at a path gives.
pub open spec fn create_path(d: DirView, p: Seq<char>, bytes: Seq<u8>) -> Result<
    DirView,
    SetFileError,
> {
    match names_of(p) {
        Err(f) => Err(set_fault(f)),
        Ok(names) => create_at(d, names, bytes),
    }
}

// ── Lemmas ───────────────────────────────────────────────────────────────

pub proof fn name_unique(d: DirView, i: int, j: int)
    requires
        ascending(d),
        0 <= i < d.len(),
        0 <= j < d.len(),
        d[i].0 == d[j].0,
    ensures
        i == j,
{
    text::text_less_irreflexive(d[i].0);
    if i < j {
        assert(text::text_less(d[i].0, d[j].0));
    }
    if j < i {
        assert(text::text_less(d[j].0, d[i].0));
    }
}

pub proof fn find_at(d: DirView, i: int)
    requires
        ascending(d),
        0 <= i < d.len(),
    ensures
        find(d, d[i].0) == Some(d[i].1),
{
    assert(name_at(d, d[i].0, i));
    let k = choose|k: int| name_at(d, d[i].0, k);
    assert(name_at(d, d[i].0, k));
    name_unique(d, i, k);
}

proof fn slot_bounds(d: DirView, name: Seq<char>)
    ensures
        0 <= slot(d, name) <= d.len(),
        forall|j: int| 0 <= j < slot(d, name) ==> text::text_less((#[trigger] d[j]).0, name),
        slot(d, name) < d.len() ==> !text::text_less(d[slot(d, name)].0, name),
    decreases d.len(),
{
    if d.len() > 0 && text::text_less(d[0].0, name) {
        slot_bounds(d.skip(1), name);
        assert forall|j: int| 0 <= j < slot(d, name) implies text::text_less(
            (#[trigger] d[j]).0,
            name,
        ) by {
            if j > 0 {
                assert(d.skip(1)[j - 1] == d[j]);
            }
        }
        if slot(d, name) < d.len() {
            assert(d.skip(1)[slot(d.skip(1), name)] == d[slot(d, name)]);
        }
    }
}

proof fn slot_unique(d: DirView, name: Seq<char>, at: int)
    requires
        0 <= at <= d.len(),
        forall|j: int| 0 <= j < at ==> text::text_less((#[trigger] d[j]).0, name),
        at < d.len() ==> !text::text_less(d[at].0, name),
    ensures
        slot(d, name) == at,
{
    slot_bounds(d, name);
}

/// A name that is in a directory is at its slot.
proof fn found_at_slot(d: DirView, name: Seq<char>, i: int)
    requires
        ascending(d),
        name_at(d, name, i),
    ensures
        slot(d, name) == i,
{
    assert forall|j: int| 0 <= j < i implies text::text_less((#[trigger] d[j]).0, name) by {
        assert(text::text_less(d[j].0, d[i].0));
    }
    text::text_less_irreflexive(name);
    slot_unique(d, name, i);
}

/// After [`put`] the name stands for the entry, the other names stand for what
/// they stood for, and the names still ascend.
pub proof fn put_law(d: DirView, name: Seq<char>, e: EntryView)
    requires
        ascending(d),
    ensures
        ascending(put(d, name, e)),
        forall|m: Seq<char>|
            #[trigger] find(put(d, name, e), m) == if m == name {
                Some(e)
            } else {
                find(d, m)
            },
        wf_dir(d) && wf_entry(e) ==> wf_dir(put(d, name, e)),
{
    slot_bounds(d, name);
    let at = slot(d, name);
    let after = put(d, name, e);
    let found = at < d.len() && d[at].0 == name;
    if !found && at < d.len() {
        text::text_less_total(name, d[at].0);
    }
    assert forall|i: int, j: int| #![trigger after[i], after[j]] 0 <= i < j < after.len() implies text::text_less(
        after[i].0,
        after[j].0,
    ) by {
        if found {
            assert(text::text_less(d[i].0, d[j].0));
        } else if j < at {
            assert(text::text_less(d[i].0, d[j].0));
        } else if j == at {
            assert(after[i] == d[i]);
        } else if i == at {
            if j - 1 > at {
                assert(text::text_less(d[at].0, d[j - 1].0));
                text::text_less_transitive(name, d[at].0, d[j - 1].0);
            }
        } else if i < at {
            assert(text::text_less(d[i].0, d[j - 1].0));
        } else {
            assert(text::text_less(d[i - 1].0, d[j - 1].0));
        }
    }
    assert forall|m: Seq<char>| #[trigger] find(after, m) == (if m == name {
        Some(e)
    } else {
        find(d, m)
    }) by {
        if m == name {
            find_at(after, at);
        } else {
            if exists|i: int| name_at(d, m, i) {
                let i = choose|i: int| name_at(d, m, i);
                assert(name_at(d, m, i));
                find_at(d, i);
                let k = if found || i < at {
                    i
                } else {
                    i + 1
                };
                assert(after[k] == d[i]);
                find_at(after, k);
            } else if exists|k: int| name_at(after, m, k) {
                let k = choose|k: int| name_at(after, m, k);
                assert(name_at(after, m, k));
                if found || k < at {
                    assert(name_at(d, m, k));
                } else {
                    assert(name_at(d, m, k - 1));
                }
            }
        }
    }
    if wf_dir(d) && wf_entry(e) {
        assert forall|i: int| 0 <= i < after.len() implies wf_entry((#[trigger] after[i]).1) by {
            if i == at {
            } else if found || i < at {
                assert(after[i] == d[i]);
            } else {
                assert(after[i] == d[i - 1]);
            }
        }
    }
}

/// What a well-formed directory holds is well-formed.
pub proof fn find_wf(d: DirView, name: Seq<char>)
    requires
        wf_dir(d),
        find(d, name) is Some,
    ensures
        wf_entry(find(d, name)->0),
{
    let i = choose|i: int| name_at(d, name, i);
    assert(name_at(d, name, i));
}

/// Reading a file gives its contents, and gives contents only of a file.
pub proof fn read_is_file(d: DirView, names: Seq<Seq<char>>)
    ensures
        (match read_at(d, names) {
            Ok(b) => file_at(d, names) == Some(b),
            Err(_) => file_at(d, names) is None,
        }),
    decreases names.len(),
{
    if names.len() > 1 {
        if let Some(EntryView::Dir(sub)) = find(d, names[0]) {
            read_is_file(sub, names.skip(1));
        }
    }
}

proof fn no_files_in_empty(names: Seq<Seq<char>>)
    ensures
        file_at(seq![], names) is None,
{
    if names.len() > 0 {
        let d: DirView = seq![];
        if exists|i: int| name_at(d, names[0], i) {
            let i = choose|i: int| name_at(d, names[0], i);
            assert(name_at(d, names[0], i));
        }
    }
}

/// A read gives back what a write wrote, every other file is as it was, and the
/// directory stays well-formed.
pub proof fn create_law(d: DirView, names: Seq<Seq<char>>, bytes: Seq<u8>)
    requires
        wf_dir(d),
    ensures
        create_at(d, names, bytes) matches Ok(after) ==> {
            &&& wf_dir(after)
            &&& file_at(d, names) is None
            &&& forall|q: Seq<Seq<char>>|
                #[trigger] file_at(after, q) == if q == names {
                    Some(bytes)
                } else {
                    file_at(d, q)
                }
        },
    decreases names.len(),
{
    if let Ok(after) = create_at(d, names, bytes) {
        let sub: DirView = match find(d, names[0]) {
            Some(EntryView::Dir(s)) => s,
            _ => seq![],
        };
        let rest = names.skip(1);
        if names.len() > 1 {
            if find(d, names[0]) is Some {
                find_wf(d, names[0]);
            }
            create_law(sub, rest, bytes);
            let inner = create_at(sub, rest, bytes)->Ok_0;
            put_law(d, names[0], EntryView::Dir(inner));
        } else {
            put_law(d, names[0], EntryView::File(bytes));
        }
        assert forall|q: Seq<Seq<char>>| #[trigger] file_at(after, q) == (if q == names {
            Some(bytes)
        } else {
            file_at(d, q)
        }) by {
            if q.len() > 0 {
                let found = find(after, q[0]);
                if q[0] == names[0] {
                    if q.len() > 1 {
                        if names.len() > 1 {
                            let inner = create_at(sub, rest, bytes)->Ok_0;
                            assert(found == Some(EntryView::Dir(inner)));
                            assert(file_at(after, q) == file_at(inner, q.skip(1)));
                            assert(file_at(inner, q.skip(1)) == if q.skip(1) == rest {
                                Some(bytes)
                            } else {
                                file_at(sub, q.skip(1))
                            });
                        }
                        if q.skip(1) == rest {
                            assert(q =~= seq![q[0]] + q.skip(1));
                            assert(names =~= seq![names[0]] + rest);
                        }
                        no_files_in_empty(q.skip(1));
                    } else if names.len() == 1 {
                        assert(q =~= names);
                    }
                }
            }
        }
    }
}

/// A failed write is one of a path that leaves the tree, names a directory, is
/// taken, or runs through a file. A path that is free can be written.
pub proof fn create_succeeds_when_free(d: DirView, names: Seq<Seq<char>>, bytes: Seq<u8>)
    requires
        names.len() > 0,
        read_at(d, names) == Err::<Seq<u8>, GetFileError>(GetFileError::DoesNotExist),
    ensures
        create_at(d, names, bytes) is Ok,
    decreases names.len(),
{
    if names.len() > 1 {
        match find(d, names[0]) {
            Some(EntryView::Dir(sub)) => {
                create_succeeds_when_free(sub, names.skip(1), bytes);
            },
            _ => {
                let sub: DirView = seq![];
                assert forall|i: int| !name_at(sub, names.skip(1)[0], i) by {}
                create_succeeds_when_free(sub, names.skip(1), bytes);
            },
        }
    }
}

/// Rewriting a file changes that file alone.
pub proof fn rewrite_law(d: DirView, names: Seq<Seq<char>>, bytes: Seq<u8>)
    requires
        wf_dir(d),
        file_at(d, names) is Some,
    ensures
        wf_dir(rewrite_at(d, names, bytes)),
        forall|q: Seq<Seq<char>>|
            #[trigger] file_at(rewrite_at(d, names, bytes), q) == if q == names {
                Some(bytes)
            } else {
                file_at(d, q)
            },
    decreases names.len(),
{
    let after = rewrite_at(d, names, bytes);
    find_wf(d, names[0]);
    match find(d, names[0])->0 {
        EntryView::File(_) => {
            put_law(d, names[0], EntryView::File(bytes));
        },
        EntryView::Dir(sub) => {
            rewrite_law(sub, names.skip(1), bytes);
            put_law(d, names[0], EntryView::Dir(rewrite_at(sub, names.skip(1), bytes)));
        },
    }
    assert forall|q: Seq<Seq<char>>| #[trigger] file_at(after, q) == (if q == names {
        Some(bytes)
    } else {
        file_at(d, q)
    }) by {
        if q.len() > 0 {
            let found = find(after, q[0]);
        }
        if q.len() > 0 && q[0] == names[0] {
            if let EntryView::Dir(sub) = find(d, names[0])->0 {
                let inner = rewrite_at(sub, names.skip(1), bytes);
                assert(find(after, q[0]) == Some(EntryView::Dir(inner)));
                if q.len() > 1 {
                    assert(file_at(after, q) == file_at(inner, q.skip(1)));
                    assert(file_at(inner, q.skip(1)) == if q.skip(1) == names.skip(1) {
                        Some(bytes)
                    } else {
                        file_at(sub, q.skip(1))
                    });
                }
            }
            if q.len() > 1 && q.skip(1) == names.skip(1) {
                assert(q =~= seq![q[0]] + q.skip(1));
                assert(names =~= seq![names[0]] + names.skip(1));
            }
            if q.len() == 1 && names.len() == 1 {
                assert(q =~= names);
            }
        }
    }
}

// ── Executable operations ────────────────────────────────────────────────

pub open spec fn entry_views(v: Seq<(String, RawEntry)>) -> DirView {
    v.map_values(|e: (String, RawEntry)| (e.0@, e.1.view()))
}

pub proof fn dir_view(d: RawDir)
    ensures
        d.view() == entry_views(d.entries@),
{
    assert(d.view() =~= entry_views(d.entries@));
}

enum Fault {
    AbsolutePath,
    OutsideDir,
    Directory,
    Empty,
}

impl Fault {
    spec fn view(&self) -> PathFault {
        match *self {
            Fault::AbsolutePath => PathFault::AbsolutePath,
            Fault::OutsideDir => PathFault::OutsideDir,
            Fault::Directory => PathFault::Directory,
            Fault::Empty => PathFault::Empty,
        }
    }

    fn for_get(&self) -> (r: GetFileError)
        ensures
            r == get_fault(self.view()),
    {
        match self {
            Fault::AbsolutePath => GetFileError::AbsolutePath,
            Fault::OutsideDir => GetFileError::OutsideDir,
            Fault::Directory => GetFileError::Directory,
            Fault::Empty => GetFileError::DoesNotExist,
        }
    }

    fn for_set(&self) -> (r: SetFileError)
        ensures
            r == set_fault(self.view()),
    {
        match self {
            Fault::AbsolutePath => SetFileError::AbsolutePath,
            Fault::OutsideDir => SetFileError::OutsideDir,
            Fault::Directory => SetFileError::Directory,
            Fault::Empty => SetFileError::EmptyFileName,
        }
    }
}

proof fn fault_stays(cs: Seq<ComponentView>, n: int)
    requires
        0 <= n <= cs.len(),
        walk(cs.take(n)) is Err,
    ensures
        walk(cs) == walk(cs.take(n)),
    decreases cs.len() - n,
{
    if n < cs.len() {
        assert(cs.take(n + 1).drop_last() =~= cs.take(n));
        fault_stays(cs, n + 1);
    } else {
        assert(cs.take(n) =~= cs);
    }
}

/// The names that a path leads through: `.` and `..` are resolved lexically.
fn resolve_file_path(p: &str) -> (r: Result<Vec<String>, Fault>)
    ensures
        (match r {
            Ok(names) => names_of(p@) == Ok::<Seq<Seq<char>>, PathFault>(text::texts(names@)),
            Err(f) => names_of(p@) == Err::<Seq<Seq<char>>, PathFault>(f.view()),
        }),
{
    broadcast use text::group_texts;

    let cs = path::components(p);
    let ghost views = path::component_views(cs@);
    let mut names: Vec<String> = Vec::new();
    let mut last_can_be_file = true;
    let mut i: usize = 0;
    assert(views.take(0) =~= seq![]);
    assert(text::texts(names@) =~= seq![]);
    while i < cs.len()
        invariant
            i <= cs@.len(),
            views == path::component_views(cs@),
            views == path::components_of(p@),
            walk(views.take(i as int)) == Ok::<(Seq<Seq<char>>, bool), PathFault>(
                (text::texts(names@), last_can_be_file),
            ),
        decreases cs@.len() - i,
    {
        assert(views.take(i + 1).drop_last() =~= views.take(i as int));
        assert(views.take(i + 1).last() == cs@[i as int].view());
        let ghost before = text::texts(names@);
        match &cs[i] {
            Component::CurDir => {
                last_can_be_file = false;
            },
            Component::Normal(name) => {
                let copy = name.clone();
                names.push(copy);
                assert(text::texts(names@) =~= before.push(name@));
                last_can_be_file = true;
            },
            Component::ParentDir => {
                if names.len() == 0 {
                    proof {
                        fault_stays(views, i + 1);
                    }
                    return Err(Fault::OutsideDir);
                }
                names.pop();
                assert(text::texts(names@) =~= before.drop_last());
                last_can_be_file = false;
            },
            Component::RootDir => {
                proof {
                    fault_stays(views, i + 1);
                }
                return Err(Fault::AbsolutePath);
            },
        }
        i = i + 1;
    }
    assert(views.take(i as int) =~= views);
    if !last_can_be_file {
        return Err(Fault::Directory);
    }
    if names.len() == 0 {
        return Err(Fault::Empty);
    }
    Ok(names)
}

impl Default for RawDir {
    fn default() -> (r: Self)
        ensures
            r.view() == Seq::<(Seq<char>, EntryView)>::empty(),
            r.wf(),
    {
        let r = RawDir { entries: Vec::new() };
        assert(r.view() =~= seq![]);
        r
    }
}

impl RawDir {
    /// The place where `name` is, or would come.
    fn place(&self, name: &str) -> (r: (usize, bool))
        requires
            ascending(self.view()),
        ensures
            r.0 == slot(self.view(), name@),
            r.0 <= self.entries@.len(),
            r.1 == (r.0 < self.entries@.len() && self.view()[r.0 as int].0 == name@),
            r.1 ==> find(self.view(), name@) == Some(self.entries@[r.0 as int].1.view()),
            !r.1 ==> find(self.view(), name@) is None,
    {
        let ghost d = self.view();
        proof {
            dir_view(*self);
        }
        let mut at: usize = 0;
        while at < self.entries.len() && text::less(self.entries[at].0.as_str(), name)
            invariant
                at <= self.entries@.len(),
                d == self.view(),
                d == entry_views(self.entries@),
                forall|j: int| 0 <= j < at ==> text::text_less((#[trigger] d[j]).0, name@),
            decreases self.entries@.len() - at,
        {
            assert(d[at as int].0 == self.entries@[at as int].0@);
            at = at + 1;
        }
        if at < self.entries.len() {
            assert(d[at as int].0 == self.entries@[at as int].0@);
        }
        proof {
            slot_unique(d, name@, at as int);
        }
        let found = at < self.entries.len() && text::same(self.entries[at].0.as_str(), name);
        proof {
            if found {
                find_at(d, at as int);
            } else if exists|i: int| name_at(d, name@, i) {
                let i = choose|i: int| name_at(d, name@, i);
                assert(name_at(d, name@, i));
                found_at_slot(d, name@, i);
            }
        }
        (at, found)
    }

    /// Makes `name` stand for `entry`, in place of what it stood for.
    pub fn insert(&mut self, name: String, entry: RawEntry)
        requires
            old(self).wf(),
            wf_entry(entry.view()),
        ensures
            final(self).wf(),
            final(self).view() == put(old(self).view(), name@, entry.view()),
    {
        let ghost d = self.view();
        let ghost n = name@;
        let ghost e = entry.view();
        let (at, found) = self.place(name.as_str());
        proof {
            dir_view(*self);
            put_law(d, n, e);
        }
        if found {
            self.entries.set(at, (name, entry));
        } else {
            self.entries.insert(at, (name, entry));
        }
        proof {
            dir_view(*self);
            assert(self.view() =~= put(d, n, e));
        }
    }

    /// The directory that holds the given entries. Of entries with the same
    /// name the last one counts.
    pub fn from_entries(entries: Vec<(String, RawEntry)>) -> (r: RawDir)
        requires
            forall|i: int| 0 <= i < entries@.len() ==> wf_entry((#[trigger] entries@[i]).1.view()),
        ensures
            r.wf(),
            r.view() == gathered(entry_views(entries@)),
    {
        let ghost all = entry_views(entries@);
        let mut out = RawDir::default();
        let mut rest = entries;
        let ghost n = all.len();
        let ghost mut k: int = 0;
        assert(all.take(0) =~= seq![]);
        while rest.len() > 0
            invariant
                0 <= k <= n,
                n == all.len(),
                rest@.len() == n - k,
                entry_views(rest@) == all.skip(k),
                forall|i: int| 0 <= i < rest@.len() ==> wf_entry((#[trigger] rest@[i]).1.view()),
                out.wf(),
                out.view() == gathered(all.take(k)),
            decreases rest@.len(),
        {
            let ghost before = rest@;
            let (name, entry) = rest.remove(0);
            proof {
                assert(entry_views(before)[0] == (name@, entry.view()));
                assert(all.skip(k)[0] == all[k]);
                assert(all.take(k + 1).drop_last() =~= all.take(k));
                assert(all.take(k + 1).last() == all[k]);
                assert(entry_views(rest@) =~= all.skip(k + 1)) by {
                    assert forall|i: int| 0 <= i < rest@.len() implies entry_views(rest@)[i]
                        == all.skip(k + 1)[i] by {
                        assert(rest@[i] == before[i + 1]);
                        assert(entry_views(before)[i + 1] == all.skip(k)[i + 1]);
                    }
                }
                assert(wf_entry(before[0].1.view()));
                assert forall|i: int| 0 <= i < rest@.len() implies wf_entry(
                    (#[trigger] rest@[i]).1.view(),
                ) by {
                    assert(rest@[i] == before[i + 1]);
                }
                k = k + 1;
            }
            out.insert(name, entry);
        }
        assert(all.take(k) =~= all);
        out
    }

    /// The names of this directory's top-level entries, in ascending order.
    pub fn toplevel_entries(&self) -> (r: Vec<String>)
        ensures
            text::texts(r@) == self.view().map_values(|e: (Seq<char>, EntryView)| e.0),
    {
        broadcast use text::group_texts;

        proof {
            dir_view(*self);
        }
        let ghost names = self.view().map_values(|e: (Seq<char>, EntryView)| e.0);
        let mut out: Vec<String> = Vec::new();
        let mut i: usize = 0;
        while i < self.entries.len()
            invariant
                i <= self.entries@.len(),
                self.view() == entry_views(self.entries@),
                names == self.view().map_values(|e: (Seq<char>, EntryView)| e.0),
                text::texts(out@) == names.take(i as int),
            decreases self.entries@.len() - i,
        {
            let s = self.entries[i].0.clone();
            assert(names[i as int] == s@);
            assert(names.take(i + 1) =~= names.take(i as int).push(s@));
            out.push(s);
            i = i + 1;
        }
        assert(names.take(i as int) =~= names);
        out
    }

    fn read_from(&self, names: &Vec<String>, from: usize) -> (r: Result<&Vec<u8>, GetFileError>)
        requires
            self.wf(),
            from <= names@.len(),
        ensures
            (match r {
                Ok(v) => read_at(self.view(), text::texts(names@).skip(from as int)) == Ok::<
                    Seq<u8>,
                    GetFileError,
                >(v@),
                Err(e) => read_at(self.view(), text::texts(names@).skip(from as int)) == Err::<
                    Seq<u8>,
                    GetFileError,
                >(e),
            }),
        decreases names@.len() - from,
    {
        let ghost all = text::texts(names@);
        if from == names.len() {
            return Err(GetFileError::DoesNotExist);
        }
        let (at, found) = self.place(names[from].as_str());
        assert(all.skip(from as int)[0] == names@[from as int]@);
        assert(all.skip(from as int).skip(1) =~= all.skip(from + 1));
        if !found {
            return Err(GetFileError::DoesNotExist);
        }
        proof {
            find_wf(self.view(), names@[from as int]@);
        }
        match &self.entries[at].1 {
            RawEntry::File(v) => {
                if from + 1 == names.len() {
                    Ok(v)
                } else {
                    Err(GetFileError::UnderFile)
                }
            },
            RawEntry::Dir(sub) => {
                if from + 1 == names.len() {
                    Err(GetFileError::Directory)
                } else {
                    sub.read_from(names, from + 1)
                }
            },
        }
    }

    /// The contents of the file at the given path, which must exist.
    ///
    /// `p` must be a relative path. `..` is resolved lexically: it just removes
    /// the previously specified directory.
    pub fn get_file(&self, p: &str) -> (r: Result<&Vec<u8>, GetFileError>)
        requires
            self.wf(),
        ensures
            (match r {
                Ok(v) => read_path(self.view(), p@) == Ok::<Seq<u8>, GetFileError>(v@),
                Err(e) => read_path(self.view(), p@) == Err::<Seq<u8>, GetFileError>(e),
            }),
    {
        match resolve_file_path(p) {
            Err(f) => Err(f.for_get()),
            Ok(names) => {
                assert(text::texts(names@).skip(0) =~= text::texts(names@));
                self.read_from(&names, 0)
            },
        }
    }

    fn create_from(&mut self, names: &Vec<String>, from: usize, contents: Vec<u8>) -> (r: Result<
        (),
        SetFileError,
    >)
        requires
            old(self).wf(),
            from < names@.len(),
        ensures
            final(self).wf(),
            (match r {
                Ok(_) => create_at(
                    old(self).view(),
                    text::texts(names@).skip(from as int),
                    contents@,
                ) == Ok::<DirView, SetFileError>(final(self).view()),
                Err(e) => create_at(
                    old(self).view(),
                    text::texts(names@).skip(from as int),
                    contents@,
                ) == Err::<DirView, SetFileError>(e) && final(self).view() == old(self).view(),
            }),
        decreases names@.len() - from,
    {
        let ghost all = text::texts(names@);
        let ghost d = self.view();
        let count: usize = names.len();
        let (at, found) = self.place(names[from].as_str());
        assert(all.skip(from as int)[0] == names@[from as int]@);
        assert(all.skip(from as int).skip(1) =~= all.skip(from + 1));
        if from + 1 == count {
            if found {
                return Err(SetFileError::AlreadyExists);
            }
            self.insert(names[from].clone(), RawEntry::File(contents));
            return Ok(());
        }
        if !found {
            let mut sub = RawDir::default();
            match sub.create_from(names, from + 1, contents) {
                Ok(_) => {
                    self.insert(names[from].clone(), RawEntry::Dir(sub));
                    Ok(())
                },
                Err(e) => Err(e),
            }
        } else {
            proof {
                dir_view(*self);
                find_wf(d, names@[from as int]@);
            }
            let ghost before = self.entries@;
            let (name, entry) = self.entries.remove(at);
            match entry {
                RawEntry::File(v) => {
                    self.entries.insert(at, (name, RawEntry::File(v)));
                    assert(self.entries@ =~= before);
                    proof {
                        dir_view(*self);
                    }
                    Err(SetFileError::UnderFile)
                },
                RawEntry::Dir(s) => {
                    let mut sub = s;
                    let result = sub.create_from(names, from + 1, contents);
                    let ghost after = sub.view();
                    self.entries.insert(at, (name, RawEntry::Dir(sub)));
                    proof {
                        dir_view(*self);
                        put_law(d, name@, EntryView::Dir(after));
                        assert(self.view() =~= d.update(at as int, (name@, EntryView::Dir(after))));
                        if result is Err {
                            assert(self.view() =~= d);
                        }
                    }
                    result
                },
            }
        }
    }

}

/// Whether two paths lead to one file name.
pub(crate) fn same_file(a: &str, b: &str) -> (r: bool)
    ensures
        r == (names_of(a@) is Ok && names_of(a@) == names_of(b@)),
{
    match (resolve_file_path(a), resolve_file_path(b)) {
        (Ok(x), Ok(y)) => text::same_texts(&x, &y),
        _ => false,
    }
}

impl RawDir {
    fn file_mut_from(&mut self, names: &Vec<String>, from: usize) -> (r: Result<
        &mut Vec<u8>,
        GetFileError,
    >)
        requires
            old(self).wf(),
            from <= names@.len(),
        ensures
            (match r {
                Ok(v) => {
                    &&& read_at(old(self).view(), text::texts(names@).skip(from as int)) == Ok::<
                        Seq<u8>,
                        GetFileError,
                    >(v@)
                    &&& final(self).view() == rewrite_at(
                        old(self).view(),
                        text::texts(names@).skip(from as int),
                        final(v)@,
                    )
                },
                Err(e) => {
                    &&& read_at(old(self).view(), text::texts(names@).skip(from as int)) == Err::<
                        Seq<u8>,
                        GetFileError,
                    >(e)
                    &&& final(self).view() == old(self).view()
                },
            }),
        decreases names@.len() - from,
    {
        let ghost all = text::texts(names@);
        let ghost d = self.view();
        let count: usize = names.len();
        if from == count {
            return Err(GetFileError::DoesNotExist);
        }
        let (at, found) = self.place(names[from].as_str());
        assert(all.skip(from as int)[0] == names@[from as int]@);
        assert(all.skip(from as int).skip(1) =~= all.skip(from + 1));
        if !found {
            return Err(GetFileError::DoesNotExist);
        }
        proof {
            find_wf(self.view(), names@[from as int]@);
            dir_view(*self);
        }
        match &mut self.entries[at].1 {
            RawEntry::File(v) => {
                if from + 1 == count {
                    Ok(v)
                } else {
                    Err(GetFileError::UnderFile)
                }
            },
            RawEntry::Dir(sub) => {
                if from + 1 == count {
                    Err(GetFileError::Directory)
                } else {
                    sub.file_mut_from(names, from + 1)
                }
            },
        }
    }
}

impl RawDir {
    /// The contents of the file at the given path, which must exist, to be
    /// changed.
    ///
    /// `p` must be a relative path. `..` is resolved lexically: it just removes
    /// the previously specified directory.
    pub fn get_file_mut(&mut self, p: &str) -> (r: Result<&mut Vec<u8>, GetFileError>)
        requires
            old(self).wf(),
        ensures
            final(self).wf(),
            (match r {
                Ok(v) => {
                    &&& names_of(p@) is Ok
                    &&& read_path(old(self).view(), p@) == Ok::<Seq<u8>, GetFileError>(v@)
                    &&& final(self).view() == rewrite_at(
                        old(self).view(),
                        names_of(p@)->Ok_0,
                        final(v)@,
                    )
                },
                Err(e) => {
                    &&& read_path(old(self).view(), p@) == Err::<Seq<u8>, GetFileError>(e)
                    &&& final(self).view() == old(self).view()
                },
            }),
    {
        match resolve_file_path(p) {
            Err(f) => Err(f.for_get()),
            Ok(names) => {
                let ghost all = text::texts(names@);
                proof {
                    assert(all.skip(0) =~= all);
                    read_is_file(self.view(), all);
                    if file_at(self.view(), all) is Some {
                        assert forall|b: Seq<u8>| wf_dir(#[trigger] rewrite_at(self.view(), all, b)) by {
                            rewrite_law(self.view(), all, b);
                        }
                    }
                }
                self.file_mut_from(&names, 0)
            },
        }
    }

    /// Creates a new file at the given path, and the directories on the way to
    /// it. Nothing may exist at the path; on failure nothing changes. On
    /// success, the contents of the new file are returned, to be changed.
    ///
    /// `p` must be a relative path. `..` is resolved lexically: it just removes
    /// the previously specified directory.
    pub fn set_file(&mut self, p: &str, contents: Vec<u8>) -> (r: Result<
        &mut Vec<u8>,
        SetFileError,
    >)
        requires
            old(self).wf(),
        ensures
            final(self).wf(),
            (match r {
                Ok(v) => {
                    &&& v@ == contents@
                    &&& create_path(old(self).view(), p@, final(v)@) == Ok::<DirView, SetFileError>(
                        final(self).view(),
                    )
                },
                Err(e) => {
                    &&& create_path(old(self).view(), p@, contents@) == Err::<DirView, SetFileError>(
                        e,
                    )
                    &&& final(self).view() == old(self).view()
                },
            }),
    {
        let ghost before = self.view();
        let ghost bytes = contents@;
        match resolve_file_path(p) {
            Err(f) => Err(f.for_set()),
            Ok(names) => {
                let ghost all = text::texts(names@);
                assert(all.skip(0) =~= all);
                match self.create_from(&names, 0, contents) {
                    Err(e) => Err(e),
                    Ok(_) => {
                        let ghost created = self.view();
                        proof {
                            create_law(before, all, bytes);
                            assert(file_at(created, all) == Some(bytes));
                            read_is_file(created, all);
                            assert forall|b: Seq<u8>|
                                create_at(before, all, b) == Ok::<DirView, SetFileError>(
                                    #[trigger] rewrite_at(created, all, b),
                                ) && wf_dir(rewrite_at(created, all, b)) by {
                                rewrite_created(before, all, bytes, b);
                                create_law(before, all, b);
                            }
                        }
                        match self.file_mut_from(&names, 0) {
                            Ok(v) => Ok(v),
                            Err(_) => Err(SetFileError::AlreadyExists),
                        }
                    },
                }
            },
        }
    }
}

proof fn put_again(d: DirView, name: Seq<char>, a: EntryView, b: EntryView)
    requires
        ascending(d),
    ensures
        put(put(d, name, a), name, b) == put(d, name, b),
{
    slot_bounds(d, name);
    let at = slot(d, name);
    let mid = put(d, name, a);
    put_law(d, name, a);
    assert(name_at(mid, name, at));
    found_at_slot(mid, name, at);
    assert(put(mid, name, b) =~= put(d, name, b));
}

/// Rewriting a file that was just created is creating it with the new contents.
proof fn rewrite_created(d: DirView, names: Seq<Seq<char>>, a: Seq<u8>, b: Seq<u8>)
    requires
        wf_dir(d),
        create_at(d, names, a) is Ok,
    ensures
        create_at(d, names, b) == Ok::<DirView, SetFileError>(
            rewrite_at(create_at(d, names, a)->Ok_0, names, b),
        ),
    decreases names.len(),
{
    let made = create_at(d, names, a)->Ok_0;
    if names.len() == 1 {
        put_law(d, names[0], EntryView::File(a));
        assert(find(made, names[0]) == Some(EntryView::File(a)));
        put_again(d, names[0], EntryView::File(a), EntryView::File(b));
    } else {
        let sub: DirView = match find(d, names[0]) {
            Some(EntryView::Dir(s)) => s,
            _ => seq![],
        };
        if find(d, names[0]) is Some {
            find_wf(d, names[0]);
        }
        rewrite_created(sub, names.skip(1), a, b);
        let inner = create_at(sub, names.skip(1), a)->Ok_0;
        put_law(d, names[0], EntryView::Dir(inner));
        assert(find(made, names[0]) == Some(EntryView::Dir(inner)));
        put_again(
            d,
            names[0],
            EntryView::Dir(inner),
            EntryView::Dir(rewrite_at(inner, names.skip(1), b)),
        );
    }
}

// ── Listing ──────────────────────────────────────────────────────────────

/// Names joined into a path.
pub open spec fn path_text(names: Seq<Seq<char>>) -> Seq<char>
    decreases names.len(),
{
    if names.len() == 0 {
        seq![]
    } else {
        path::joined(path_text(names.drop_last()), names.last())
    }
}

/// The files below a directory that is reached through `prefix`, in the order
/// of the names on every level.
pub open spec fn files_below(d: DirView, prefix: Seq<Seq<char>>) -> Seq<(Seq<Seq<char>>, Seq<u8>)>
    decreases d,
{
    if d.len() == 0 {
        seq![]
    } else {
        files_below(d.subrange(0, d.len() - 1), prefix) + match d[d.len() - 1].1 {
            EntryView::Dir(sub) => files_below(sub, prefix.push(d[d.len() - 1].0)),
            EntryView::File(b) => seq![(prefix.push(d[d.len() - 1].0), b)],
        }
    }
}

/// Paths and contents of files.
pub open spec fn with_paths(v: Seq<(Seq<Seq<char>>, Seq<u8>)>) -> Seq<(Seq<char>, Seq<u8>)> {
    v.map_values(|f: (Seq<Seq<char>>, Seq<u8>)| (path_text(f.0), f.1))
}

pub open spec fn listed(v: Seq<(String, &Vec<u8>)>) -> Seq<(Seq<char>, Seq<u8>)> {
    v.map_values(|f: (String, &Vec<u8>)| (f.0@, f.1@))
}

impl RawDir {
    fn list_into<'s>(
        &'s self,
        prefix: &str,
        Ghost(names): Ghost<Seq<Seq<char>>>,
        out: &mut Vec<(String, &'s Vec<u8>)>,
    )
        requires
            prefix@ == path_text(names),
        ensures
            listed(final(out)@) == listed(old(out)@) + with_paths(files_below(self.view(), names)),
        decreases self,
    {
        proof {
            dir_view(*self);
        }
        let ghost d = self.view();
        let ghost before = listed(out@);
        let mut i: usize = 0;
        assert(d.subrange(0, 0) =~= seq![]);
        assert(before + with_paths(files_below(d.subrange(0, 0), names)) =~= before);
        while i < self.entries.len()
            invariant
                i <= self.entries@.len(),
                prefix@ == path_text(names),
                d == self.view(),
                d == entry_views(self.entries@),
                listed(out@) == before + with_paths(files_below(d.subrange(0, i as int), names)),
            decreases self.entries@.len() - i,
        {
            let ghost next = d.subrange(0, i + 1);
            assert(next.subrange(0, i as int) =~= d.subrange(0, i as int));
            assert(next[i as int] == (
                self.entries@[i as int].0@,
                self.entries@[i as int].1.view(),
            ));
            let ghost done = files_below(d.subrange(0, i as int), names);
            let ghost so_far = listed(out@);
            let here = path::join(prefix, self.entries[i].0.as_str());
            let ghost deeper = names.push(self.entries@[i as int].0@);
            assert(deeper.drop_last() =~= names);
            match &self.entries[i].1 {
                RawEntry::Dir(sub) => {
                    assert(decreases_to!(self => self.entries));
                    assert(decreases_to!(self.entries => self.entries@));
                    assert(decreases_to!(self.entries@ => self.entries@[i as int]));
                    assert(decreases_to!(self.entries@[i as int] => self.entries@[i as int].1));
                    assert(decreases_to!(self.entries@[i as int].1 => self.entries@[i as int].1->Dir_0));
                    sub.list_into(here.as_str(), Ghost(deeper), out);
                    assert(files_below(next, names) =~= done + files_below(sub.view(), deeper));
                    assert(with_paths(files_below(next, names)) =~= with_paths(done) + with_paths(
                        files_below(sub.view(), deeper),
                    ));
                },
                RawEntry::File(v) => {
                    out.push((here, v));
                    assert(files_below(next, names) =~= done.push((deeper, v@)));
                    assert(with_paths(files_below(next, names)) =~= with_paths(done).push(
                        (here@, v@),
                    ));
                    assert(listed(out@) =~= so_far.push((here@, v@)));
                },
            }
            assert(listed(out@) =~= before + with_paths(files_below(next, names)));
            i = i + 1;
        }
        assert(d.subrange(0, i as int) =~= d);
    }

    /// The path and contents of the files in this directory and its
    /// subdirectories. Paths are relative to this directory.
    pub fn files_recursive(&self) -> (r: Vec<(String, &Vec<u8>)>)
        ensures
            listed(r@) == with_paths(files_below(self.view(), seq![])),
    {
        let mut out: Vec<(String, &Vec<u8>)> = Vec::new();
        assert(""@ =~= seq![]) by {
            reveal_strlit("");
        }
        let ghost root = Seq::<Seq<char>>::empty();
        self.list_into("", Ghost(root), &mut out);
        assert(listed(out@) =~= with_paths(files_below(self.view(), seq![])));
        out
    }
}

/// Whether one entry of a directory contributes a file to the listing.
spec fn contributes(
    e: (Seq<char>, EntryView),
    prefix: Seq<Seq<char>>,
    p: Seq<Seq<char>>,
    b: Seq<u8>,
) -> bool {
    match e.1 {
        EntryView::Dir(sub) => files_below(sub, prefix.push(e.0)).contains((p, b)),
        EntryView::File(c) => p == prefix.push(e.0) && c == b,
    }
}

proof fn listed_by_an_entry(
    d: DirView,
    prefix: Seq<Seq<char>>,
    p: Seq<Seq<char>>,
    b: Seq<u8>,
    k: int,
)
    requires
        0 <= k <= d.len(),
    ensures
        files_below(d.subrange(0, k), prefix).contains((p, b)) <==> exists|i: int|
            0 <= i < k && contributes(#[trigger] d[i], prefix, p, b),
    decreases k,
{
    let part = d.subrange(0, k);
    if k > 0 {
        listed_by_an_entry(d, prefix, p, b, k - 1);
        assert(part.subrange(0, k - 1) =~= d.subrange(0, k - 1));
        let head = files_below(d.subrange(0, k - 1), prefix);
        let tail = match d[k - 1].1 {
            EntryView::Dir(sub) => files_below(sub, prefix.push(d[k - 1].0)),
            EntryView::File(c) => seq![(prefix.push(d[k - 1].0), c)],
        };
        assert(files_below(part, prefix) == head + tail);
        if (head + tail).contains((p, b)) {
            let n = choose|n: int| 0 <= n < (head + tail).len() && (head + tail)[n] == (p, b);
            if n < head.len() {
                assert(head[n] == (p, b));
                assert(head.contains((p, b)));
            } else {
                assert(tail[n - head.len()] == (p, b));
                assert(tail.contains((p, b)));
                assert(contributes(d[k - 1], prefix, p, b));
            }
        }
        if exists|i: int| 0 <= i < k && contributes(#[trigger] d[i], prefix, p, b) {
            let i = choose|i: int| 0 <= i < k && contributes(#[trigger] d[i], prefix, p, b);
            if i < k - 1 {
                let n = choose|n: int| 0 <= n < head.len() && head[n] == (p, b);
                assert((head + tail)[n] == (p, b));
            } else {
                if let EntryView::File(c) = d[k - 1].1 {
                    assert(tail[0] == (p, b));
                }
                let n = choose|n: int| 0 <= n < tail.len() && tail[n] == (p, b);
                assert((head + tail)[head.len() + n] == (p, b));
            }
        }
    }
}

proof fn listed_below(d: DirView, prefix: Seq<Seq<char>>, p: Seq<Seq<char>>, b: Seq<u8>)
    requires
        wf_dir(d),
    ensures
        files_below(d, prefix).contains((p, b)) <==> p.len() > prefix.len() && p.take(
            prefix.len() as int,
        ) == prefix && file_at(d, p.skip(prefix.len() as int)) == Some(b),
    decreases d,
{
    let n = prefix.len() as int;
    listed_by_an_entry(d, prefix, p, b, d.len() as int);
    assert(d.subrange(0, d.len() as int) =~= d);
    if exists|i: int| 0 <= i < d.len() && contributes(#[trigger] d[i], prefix, p, b) {
        let i = choose|i: int| 0 <= i < d.len() && contributes(#[trigger] d[i], prefix, p, b);
        let deeper = prefix.push(d[i].0);
        find_at(d, i);
        match d[i].1 {
            EntryView::File(c) => {
                assert(p.take(n) =~= prefix);
                assert(p.skip(n) =~= seq![d[i].0]);
            },
            EntryView::Dir(sub) => {
                assert(wf_entry(d[i].1));
                listed_below(sub, deeper, p, b);
                assert(p.take(n) =~= prefix) by {
                    assert(p.take(n + 1).take(n) =~= deeper.take(n));
                    assert(p.take(n + 1).take(n) =~= p.take(n));
                    assert(deeper.take(n) =~= prefix);
                }
                assert(p.skip(n)[0] == p[n]);
                assert(p[n] == p.take(n + 1)[n]);
                assert(p.skip(n).skip(1) =~= p.skip(n + 1));
            },
        }
    }
    if p.len() > n && p.take(n) == prefix && file_at(d, p.skip(n)) == Some(b) {
        let name = p.skip(n)[0];
        assert(name == p[n]);
        let i = choose|i: int| name_at(d, name, i);
        assert(name_at(d, name, i));
        find_at(d, i);
        let deeper = prefix.push(name);
        match d[i].1 {
            EntryView::File(c) => {
                assert(p =~= deeper);
                assert(contributes(d[i], prefix, p, b));
            },
            EntryView::Dir(sub) => {
                assert(wf_entry(d[i].1));
                listed_below(sub, deeper, p, b);
                assert(p.take(n + 1) =~= deeper) by {
                    assert(p.take(n + 1) =~= p.take(n).push(p[n]));
                }
                assert(p.skip(n).skip(1) =~= p.skip(n + 1));
                assert(contributes(d[i], prefix, p, b));
            },
        }
    }
}

/// The listing of a directory holds exactly its files, with their contents.
pub proof fn listing_law(d: DirView, p: Seq<Seq<char>>, b: Seq<u8>)
    requires
        wf_dir(d),
    ensures
        files_below(d, seq![]).contains((p, b)) <==> file_at(d, p) == Some(b),
{
    listed_below(d, seq![], p, b);
    assert(p.take(0) =~= seq![]);
    assert(p.skip(0) =~= p);
}

// ── Display ──────────────────────────────────────────────────────────────

/// Two spaces for every level.
pub open spec fn padding(level: nat) -> Seq<char>
    decreases level,
{
    if level == 0 {
        seq![]
    } else {
        padding((level - 1) as nat) + "  "@
    }
}

pub open spec fn shown_dirs(d: DirView, pad: Seq<char>) -> Seq<char>
    decreases d, 0int,
{
    if d.len() == 0 {
        seq![]
    } else {
        let head = shown_dirs(d.subrange(0, d.len() - 1), pad);
        match d[d.len() - 1].1 {
            EntryView::Dir(sub) => head + pad + d[d.len() - 1].0 + "\n"@ + shown(sub, pad + "  "@),
            EntryView::File(_) => head,
        }
    }
}

pub open spec fn shown_files(d: DirView, pad: Seq<char>) -> Seq<char>
    decreases d, 0int,
{
    if d.len() == 0 {
        seq![]
    } else {
        let head = shown_files(d.subrange(0, d.len() - 1), pad);
        match d[d.len() - 1].1 {
            EntryView::Dir(_) => head,
            EntryView::File(b) => head + pad + d[d.len() - 1].0 + " ("@ + text::decimal_of(b.len())
                + "B)\n"@,
        }
    }
}

/// A directory as text: its directories with what is in them, indented, and then
/// its files with their sizes.
pub open spec fn shown(d: DirView, pad: Seq<char>) -> Seq<char>
    decreases d, 1int,
{
    shown_dirs(d, pad) + shown_files(d, pad)
}

impl RawDir {
    fn show(&self, pad: &str) -> (r: String)
        ensures
            r@ == shown(self.view(), pad@),
        decreases self,
    {
        proof {
            dir_view(*self);
        }
        let ghost d = self.view();
        let mut deeper = pad.to_owned();
        deeper.append("  ");
        let mut out = String::new();
        let mut i: usize = 0;
        assert(d.subrange(0, 0) =~= seq![]);
        while i < self.entries.len()
            invariant
                i <= self.entries@.len(),
                d == self.view(),
                d == entry_views(self.entries@),
                deeper@ == pad@ + "  "@,
                out@ == shown_dirs(d.subrange(0, i as int), pad@),
            decreases self.entries@.len() - i,
        {
            let ghost next = d.subrange(0, i + 1);
            assert(next.subrange(0, i as int) =~= d.subrange(0, i as int));
            assert(next[i as int] == (
                self.entries@[i as int].0@,
                self.entries@[i as int].1.view(),
            ));
            if let RawEntry::Dir(sub) = &self.entries[i].1 {
                assert(decreases_to!(self => self.entries));
                assert(decreases_to!(self.entries => self.entries@));
                assert(decreases_to!(self.entries@ => self.entries@[i as int]));
                assert(decreases_to!(self.entries@[i as int] => self.entries@[i as int].1));
                assert(decreases_to!(self.entries@[i as int].1 => self.entries@[i as int].1->Dir_0));
                let inner = sub.show(deeper.as_str());
                out.append(pad);
                out.append(self.entries[i].0.as_str());
                out.append("\n");
                out.append(inner.as_str());
            }
            i = i + 1;
        }
        assert(d.subrange(0, i as int) =~= d);
        let ghost dirs = out@;
        let mut k: usize = 0;
        let mut files = String::new();
        while k < self.entries.len()
            invariant
                k <= self.entries@.len(),
                d == self.view(),
                d == entry_views(self.entries@),
                files@ == shown_files(d.subrange(0, k as int), pad@),
            decreases self.entries@.len() - k,
        {
            let ghost next = d.subrange(0, k + 1);
            assert(next.subrange(0, k as int) =~= d.subrange(0, k as int));
            assert(next[k as int] == (
                self.entries@[k as int].0@,
                self.entries@[k as int].1.view(),
            ));
            if let RawEntry::File(v) = &self.entries[k].1 {
                files.append(pad);
                files.append(self.entries[k].0.as_str());
                files.append(" (");
                let size = text::decimal(v.len() as u64);
                files.append(size.as_str());
                files.append("B)\n");
            }
            k = k + 1;
        }
        assert(d.subrange(0, k as int) =~= d);
        out.append(files.as_str());
        out
    }

    /// A representation of the directory, one line per entry. `level` is the
    /// level of this directory relative to the root; it decides the padding
    /// before entry names.
    pub fn display(&self, level: usize) -> (r: String)
        ensures
            r@ == shown(self.view(), padding(level as nat)),
    {
        let mut pad = String::new();
        let mut i: usize = 0;
        while i < level
            invariant
                i <= level,
                pad@ == padding(i as nat),
            decreases level - i,
        {
            pad.append("  ");
            i = i + 1;
        }
        self.show(pad.as_str())
    }
}

// ── Reading a directory from disk ────────────────────────────────────────

/// What is found on disk under a name. Links and special files have no
/// representation in a [`RawDir`].
#[derive(Debug)]
pub enum DiskNode {
    Dir(Vec<(String, DiskNode)>),
    File(Vec<u8>),
    Special,
}

pub enum DiskView {
    Dir(Seq<(Seq<char>, DiskView)>),
    File(Seq<u8>),
    Special,
}

impl DiskNode {
    pub open spec fn view(&self) -> DiskView
        decreases self,
    {
        match *self {
            DiskNode::Dir(v) => DiskView::Dir(
                Seq::new(
                    v@.len(),
                    |i: int|
                        if 0 <= i < v@.len() {
                            (v@[i].0@, v@[i].1.view())
                        } else {
                            (seq![], DiskView::Special)
                        },
                ),
            ),
            DiskNode::File(b) => DiskView::File(b@),
            DiskNode::Special => DiskView::Special,
        }
    }
}

pub open spec fn disk_views(v: Seq<(String, DiskNode)>) -> Seq<(Seq<char>, DiskView)> {
    v.map_values(|e: (String, DiskNode)| (e.0@, e.1.view()))
}

proof fn disk_dir_view(v: Vec<(String, DiskNode)>)
    ensures
        DiskNode::Dir(v).view() == DiskView::Dir(disk_views(v@)),
{
    if let DiskView::Dir(a) = DiskNode::Dir(v).view() {
        assert(a =~= disk_views(v@));
    }
}

/// Which directories are left out, at any depth.
#[derive(Debug, Clone, Copy, PartialEq, Eq, Structural)]
pub enum SkipDirs {
    Nothing,
    /// Directories that agent runtimes leave behind (`.git/` and the like).
    Hidden,
    /// Directories that a build leaves behind.
    BuildArtifacts,
}

pub open spec fn is_skipped(rule: SkipDirs, name: Seq<char>) -> bool {
    match rule {
        SkipDirs::Nothing => false,
        SkipDirs::Hidden => text::has_prefix(name, "."@),
        SkipDirs::BuildArtifacts => name == "build"@ || name == "target"@ || text::has_prefix(
            name,
            "build-"@,
        ),
    }
}

/// Whether a directory of that name is left out.
pub fn skips_dir(rule: SkipDirs, name: &str) -> (r: bool)
    ensures
        r == is_skipped(rule, name@),
{
    match rule {
        SkipDirs::Nothing => false,
        SkipDirs::Hidden => text::starts_with(name, "."),
        SkipDirs::BuildArtifacts => text::same(name, "build") || text::same(name, "target")
            || text::starts_with(name, "build-"),
    }
}

/// The directory tree that entries on disk make, without the skipped
/// directories and without special entries, and the numbers of its directories
/// and files.
pub struct Populated {
    pub dir: DirView,
    pub directories: nat,
    pub files: nat,
}

pub open spec fn populated(entries: Seq<(Seq<char>, DiskView)>, rule: SkipDirs) -> Populated
    decreases entries,
{
    if entries.len() == 0 {
        Populated { dir: seq![], directories: 0, files: 0 }
    } else {
        let before = populated(entries.subrange(0, entries.len() - 1), rule);
        let name = entries[entries.len() - 1].0;
        match entries[entries.len() - 1].1 {
            DiskView::Dir(sub) => if is_skipped(rule, name) {
                before
            } else {
                let inner = populated(sub, rule);
                Populated {
                    dir: put(before.dir, name, EntryView::Dir(inner.dir)),
                    directories: before.directories + inner.directories + 1,
                    files: before.files + inner.files,
                }
            },
            DiskView::File(b) => Populated {
                dir: put(before.dir, name, EntryView::File(b)),
                directories: before.directories,
                files: before.files + 1,
            },
            DiskView::Special => before,
        }
    }
}

impl RawDir {
    /// The tree that entries on disk make, with the numbers of its directories
    /// and files. Directories that `rule` names are left out at any depth: build
    /// output bloats the tree and can go stale. Links and special files are left
    /// out too.
    pub fn populate_from_filtered(entries: &Vec<(String, DiskNode)>, rule: SkipDirs) -> (r: (
        RawDir,
        usize,
        usize,
    ))
        ensures
            r.0.wf(),
            r.0.view() == populated(disk_views(entries@), rule).dir,
            r.1 == num::sat(populated(disk_views(entries@), rule).directories as int),
            r.2 == num::sat(populated(disk_views(entries@), rule).files as int),
        decreases entries,
    {
        let ghost views = disk_views(entries@);
        let mut dir = RawDir::default();
        let mut directories: usize = 0;
        let mut files: usize = 0;
        let mut i: usize = 0;
        assert(views.subrange(0, 0) =~= seq![]);
        while i < entries.len()
            invariant
                i <= entries@.len(),
                views == disk_views(entries@),
                dir.wf(),
                dir.view() == populated(views.subrange(0, i as int), rule).dir,
                directories == num::sat(
                    populated(views.subrange(0, i as int), rule).directories as int,
                ),
                files == num::sat(populated(views.subrange(0, i as int), rule).files as int),
            decreases entries@.len() - i,
        {
            let ghost next = views.subrange(0, i + 1);
            assert(next.subrange(0, i as int) =~= views.subrange(0, i as int));
            assert(next[i as int] == (entries@[i as int].0@, entries@[i as int].1.view()));
            let name = &entries[i].0;
            match &entries[i].1 {
                DiskNode::Dir(sub) => {
                    proof {
                        disk_dir_view(*sub);
                    }
                    if !skips_dir(rule, name.as_str()) {
                        assert(decreases_to!(entries => entries@));
                        assert(decreases_to!(entries@ => entries@[i as int]));
                        assert(decreases_to!(entries@[i as int] => entries@[i as int].1));
                        assert(decreases_to!(entries@[i as int].1 => entries@[i as int].1->Dir_0));
                        let (inner, dirs, fs) = RawDir::populate_from_filtered(sub, rule);
                        directories = directories.saturating_add(dirs).saturating_add(1);
                        files = files.saturating_add(fs);
                        dir.insert(name.clone(), RawEntry::Dir(inner));
                    }
                },
                DiskNode::File(b) => {
                    dir.insert(name.clone(), RawEntry::File(copy_bytes(b)));
                    files = files.saturating_add(1);
                },
                DiskNode::Special => {},
            }
            i = i + 1;
        }
        assert(views.subrange(0, i as int) =~= views);
        (dir, directories, files)
    }

    /// The tree that entries on disk make, with nothing left out but links and
    /// special files.
    pub fn populate_from(entries: &Vec<(String, DiskNode)>) -> (r: (RawDir, usize, usize))
        ensures
            r.0.wf(),
            r.0.view() == populated(disk_views(entries@), SkipDirs::Nothing).dir,
            r.1 == num::sat(
                populated(disk_views(entries@), SkipDirs::Nothing).directories as int,
            ),
            r.2 == num::sat(populated(disk_views(entries@), SkipDirs::Nothing).files as int),
    {
        RawDir::populate_from_filtered(entries, SkipDirs::Nothing)
    }
}

/// Which top-level entries are taken.
#[derive(Debug)]
pub enum KeepTop {
    /// Those that belong to the crate of a snapshot.
    Unreserved,
    /// Those of the given names.
    Named(Vec<String>),
}

pub open spec fn is_kept(keep: KeepTop, name: Seq<char>) -> bool {
    match keep {
        KeepTop::Unreserved => !stage_manifest::is_reserved(name),
        KeepTop::Named(names) => text::texts(names@).contains(name),
    }
}

/// Whether a top-level entry of that name is taken.
pub fn keeps_top(keep: &KeepTop, name: &str) -> (r: bool)
    ensures
        r == is_kept(*keep, name@),
{
    match keep {
        KeepTop::Unreserved => !stage_manifest::is_reserved_toplevel(name),
        KeepTop::Named(names) => text::holds(names, name),
    }
}

/// The entries that are taken.
pub open spec fn kept(
    entries: Seq<(Seq<char>, DiskView)>,
    keep: KeepTop,
) -> Seq<(Seq<char>, DiskView)>
    decreases entries.len(),
{
    if entries.len() == 0 {
        seq![]
    } else {
        let before = kept(entries.drop_last(), keep);
        if is_kept(keep, entries.last().0) {
            before.push(entries.last())
        } else {
            before
        }
    }
}

/// The name of the first entry that has no representation.
pub open spec fn first_special(entries: Seq<(Seq<char>, DiskView)>) -> Option<Seq<char>>
    decreases entries.len(),
{
    if entries.len() == 0 {
        None
    } else {
        match first_special(entries.drop_last()) {
            Some(name) => Some(name),
            None => if entries.last().1 is Special {
                Some(entries.last().0)
            } else {
                None
            },
        }
    }
}

pub open spec fn link_message(name: Seq<char>) -> Seq<char> {
    "snapshot package entry "@ + text::debug_of(name)
        + " is a symlink; snapshots must be symlink-free"@
}

proof fn special_stays(entries: Seq<(Seq<char>, DiskView)>, keep: KeepTop, n: int)
    requires
        0 <= n <= entries.len(),
        first_special(kept(entries.take(n), keep)) is Some,
    ensures
        first_special(kept(entries, keep)) == first_special(kept(entries.take(n), keep)),
    decreases entries.len() - n,
{
    if n < entries.len() {
        let next = entries.take(n + 1);
        assert(next.drop_last() =~= entries.take(n));
        let before = kept(entries.take(n), keep);
        if is_kept(keep, next.last().0) {
            assert(before.push(next.last()).drop_last() =~= before);
        }
        special_stays(entries, keep, n + 1);
    } else {
        assert(entries.take(n) =~= entries);
    }
}

impl RawDir {
    /// Like [`RawDir::populate_from_filtered`], but takes only the top-level
    /// entries that `keep` names, and refuses a link or special file among them.
    /// Used to take a crate out of a snapshot directory whose top level mixes
    /// crate entries with sidecars.
    pub fn populate_from_toplevel_selected(
        entries: &Vec<(String, DiskNode)>,
        keep: &KeepTop,
        rule: SkipDirs,
    ) -> (r: Result<(RawDir, usize, usize), String>)
        ensures
            (match r {
                Ok((dir, directories, files)) => {
                    let taken = kept(disk_views(entries@), *keep);
                    &&& first_special(taken) is None
                    &&& dir.wf()
                    &&& dir.view() == populated(taken, rule).dir
                    &&& directories == num::sat(populated(taken, rule).directories as int)
                    &&& files == num::sat(populated(taken, rule).files as int)
                },
                Err(e) => {
                    let taken = kept(disk_views(entries@), *keep);
                    &&& first_special(taken) is Some
                    &&& e@ == link_message(first_special(taken)->0)
                },
            }),
    {
        let ghost views = disk_views(entries@);
        let mut dir = RawDir::default();
        let mut directories: usize = 0;
        let mut files: usize = 0;
        let mut i: usize = 0;
        assert(views.take(0) =~= seq![]);
        while i < entries.len()
            invariant
                i <= entries@.len(),
                views == disk_views(entries@),
                dir.wf(),
                first_special(kept(views.take(i as int), *keep)) is None,
                dir.view() == populated(kept(views.take(i as int), *keep), rule).dir,
                directories == num::sat(
                    populated(kept(views.take(i as int), *keep), rule).directories as int,
                ),
                files == num::sat(
                    populated(kept(views.take(i as int), *keep), rule).files as int,
                ),
            decreases entries@.len() - i,
        {
            let name = &entries[i].0;
            let ghost before = kept(views.take(i as int), *keep);
            assert(views.take(i + 1).drop_last() =~= views.take(i as int));
            let ghost here = (entries@[i as int].0@, entries@[i as int].1.view());
            assert(views.take(i + 1).last() == here);
            if keeps_top(keep, name.as_str()) {
                let ghost next = before.push(here);
                assert(kept(views.take(i + 1), *keep) == next);
                assert(next.drop_last() =~= before);
                assert(next.subrange(0, next.len() - 1) =~= before);
                match &entries[i].1 {
                    DiskNode::Dir(sub) => {
                        proof {
                            disk_dir_view(*sub);
                        }
                        if !skips_dir(rule, name.as_str()) {
                            let (inner, dirs, fs) = RawDir::populate_from_filtered(sub, rule);
                            directories = directories.saturating_add(dirs).saturating_add(1);
                            files = files.saturating_add(fs);
                            dir.insert(name.clone(), RawEntry::Dir(inner));
                        }
                    },
                    DiskNode::File(b) => {
                        dir.insert(name.clone(), RawEntry::File(copy_bytes(b)));
                        files = files.saturating_add(1);
                    },
                    DiskNode::Special => {
                        let mut e = "snapshot package entry ".to_owned();
                        e.append(text::debug(name.as_str()).as_str());
                        e.append(" is a symlink; snapshots must be symlink-free");
                        proof {
                            special_stays(views, *keep, i + 1);
                        }
                        return Err(e);
                    },
                }
            }
            i = i + 1;
        }
        assert(views.take(i as int) =~= views);
        Ok((dir, directories, files))
    }
}

/// Whether a name stands for something in what was taken only if it was taken.
pub proof fn only_kept_names(
    entries: Seq<(Seq<char>, DiskView)>,
    keep: KeepTop,
    rule: SkipDirs,
    name: Seq<char>,
)
    requires
        find(populated(kept(entries, keep), rule).dir, name) is Some,
    ensures
        is_kept(keep, name),
    decreases entries.len(),
{
    let all = kept(entries, keep);
    if entries.len() == 0 {
        let d: DirView = seq![];
        assert forall|i: int| !name_at(d, name, i) by {}
    } else {
        let before = kept(entries.drop_last(), keep);
        if is_kept(keep, entries.last().0) {
            assert(all.subrange(0, all.len() - 1) =~= before);
            populated_wf(before, rule);
            let p = populated(before, rule);
            let e = entries.last();
            match e.1 {
                DiskView::Dir(sub) => {
                    put_law(p.dir, e.0, EntryView::Dir(populated(sub, rule).dir));
                },
                DiskView::File(b) => {
                    put_law(p.dir, e.0, EntryView::File(b));
                },
                DiskView::Special => {},
            }
            if name != e.0 {
                only_kept_names(entries.drop_last(), keep, rule, name);
            }
        } else {
            only_kept_names(entries.drop_last(), keep, rule, name);
        }
    }
}

/// What is read from disk is well-formed.
pub proof fn populated_wf(entries: Seq<(Seq<char>, DiskView)>, rule: SkipDirs)
    ensures
        wf_dir(populated(entries, rule).dir),
    decreases entries,
{
    if entries.len() > 0 {
        let before = entries.subrange(0, entries.len() - 1);
        populated_wf(before, rule);
        let e = entries[entries.len() - 1];
        match e.1 {
            DiskView::Dir(sub) => {
                populated_wf(sub, rule);
                put_law(
                    populated(before, rule).dir,
                    e.0,
                    EntryView::Dir(populated(sub, rule).dir),
                );
            },
            DiskView::File(b) => {
                put_law(populated(before, rule).dir, e.0, EntryView::File(b));
            },
            DiskView::Special => {},
        }
    }
}

fn copy_bytes(v: &Vec<u8>) -> (r: Vec<u8>)
    ensures
        r@ == v@,
{
    let mut out: Vec<u8> = Vec::new();
    let mut i: usize = 0;
    while i < v.len()
        invariant
            i <= v@.len(),
            out@ == v@.take(i as int),
        decreases v@.len() - i,
    {
        out.push(v[i]);
        assert(v@.take(i + 1) =~= v@.take(i as int).push(v@[i as int]));
        i = i + 1;
    }
    assert(v@.take(i as int) =~= v@);
    out
}

/// The directory that holds the given entries, the last one of a name counting.
pub open spec fn gathered(entries: DirView) -> DirView
    decreases entries.len(),
{
    if entries.len() == 0 {
        seq![]
    } else {
        put(gathered(entries.drop_last()), entries.last().0, entries.last().1)
    }
}

} // verus!
