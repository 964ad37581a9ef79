//! Frozen filesystem objects, and the objects on disk that they are made from.

use crate::fs::Symlink;
use crate::path;
use crate::path::{Component, ComponentView};
use crate::text;
use vstd::prelude::*;
use vstd::string::*;

verus! {

/// A frozen filesystem object. The contents of files stay on disk.
#[derive(Debug)]
pub enum DirEntry {
    Dir(Vec<(String, DirEntry)>),
    /// A file, by its names below the diagnostics directory.
    File(Vec<String>),
    Symlink(Symlink),
}

pub enum FrozenView {
    Dir(Seq<(Seq<char>, FrozenView)>),
    File(Seq<Seq<char>>),
    Symlink(Seq<char>),
}

/// What is on disk under a name. A directory lists each name once.
#[derive(Debug)]
pub enum DiskEntry {
    Dir(Vec<(String, DiskEntry)>),
    File,
    /// Anything else is read as a link, here by its target.
    Symlink(String),
}

pub enum OnDisk {
    Dir(Seq<(Seq<char>, OnDisk)>),
    File,
    Symlink(Seq<char>),
}

/// Why a path below a frozen directory leads nowhere.
#[derive(Debug, Clone, Copy, PartialEq, Eq, Structural)]
pub enum GetNofollowError {
    /// The path is absolute or goes up.
    LeavesDir,
    /// The path runs through a file or a symlink.
    NotADirectory,
    /// There is nothing at the path.
    NotFound,
}

impl DirEntry {
    pub open spec fn view(&self) -> FrozenView
        decreases self,
    {
        match *self {
            DirEntry::Dir(v) => FrozenView::Dir(
                Seq::new(
                    v@.len(),
                    |i: int|
                        if 0 <= i < v@.len() {
                            (v@[i].0@, v@[i].1.view())
                        } else {
                            (seq![], FrozenView::File(seq![]))
                        },
                ),
            ),
            DirEntry::File(names) => FrozenView::File(text::texts(names@)),
            DirEntry::Symlink(link) => FrozenView::Symlink(link.target()),
        }
    }
}

impl DiskEntry {
    pub open spec fn view(&self) -> OnDisk
        decreases self,
    {
        match *self {
            DiskEntry::Dir(v) => OnDisk::Dir(
                Seq::new(
                    v@.len(),
                    |i: int|
                        if 0 <= i < v@.len() {
                            (v@[i].0@, v@[i].1.view())
                        } else {
                            (seq![], OnDisk::File)
                        },
                ),
            ),
            DiskEntry::File => OnDisk::File,
            DiskEntry::Symlink(target) => OnDisk::Symlink(target@),
        }
    }
}

pub open spec fn dir_entries(v: Seq<(String, DirEntry)>) -> Seq<(Seq<char>, FrozenView)> {
    v.map_values(|e: (String, DirEntry)| (e.0@, e.1.view()))
}

pub open spec fn disk_entries(v: Seq<(String, DiskEntry)>) -> Seq<(Seq<char>, OnDisk)> {
    v.map_values(|e: (String, DiskEntry)| (e.0@, e.1.view()))
}

pub(crate) proof fn frozen_dir_view(v: Vec<(String, DirEntry)>)
    ensures
        DirEntry::Dir(v).view() == FrozenView::Dir(dir_entries(v@)),
{
    if let FrozenView::Dir(a) = DirEntry::Dir(v).view() {
        assert(a =~= dir_entries(v@));
    }
}

pub(crate) proof fn disk_dir_view(v: Vec<(String, DiskEntry)>)
    ensures
        DiskEntry::Dir(v).view() == OnDisk::Dir(disk_entries(v@)),
{
    if let OnDisk::Dir(a) = DiskEntry::Dir(v).view() {
        assert(a =~= disk_entries(v@));
    }
}

/// What a directory holds under a name.
pub open spec fn named<T>(d: Seq<(Seq<char>, T)>, name: Seq<char>) -> Option<T>
    decreases d.len(),
{
    if d.len() == 0 {
        None
    } else if d.last().0 == name {
        Some(d.last().1)
    } else {
        named(d.drop_last(), name)
    }
}

proof fn named_at<T>(d: Seq<(Seq<char>, T)>, name: Seq<char>, i: int)
    requires
        0 <= i < d.len(),
        d[i].0 == name,
        forall|j: int| i < j < d.len() ==> (#[trigger] d[j]).0 != name,
    ensures
        named(d, name) == Some(d[i].1),
    decreases d.len(),
{
    if i < d.len() - 1 {
        assert(d[d.len() - 1].0 != name);
        assert(d.drop_last()[i] == d[i]);
        named_at(d.drop_last(), name, i);
    }
}

proof fn named_nowhere<T>(d: Seq<(Seq<char>, T)>, name: Seq<char>)
    requires
        forall|j: int| 0 <= j < d.len() ==> (#[trigger] d[j]).0 != name,
    ensures
        named(d, name) is None,
    decreases d.len(),
{
    if d.len() > 0 {
        assert(d[d.len() - 1].0 != name);
        assert forall|j: int| 0 <= j < d.drop_last().len() implies (#[trigger] d.drop_last()[j]).0
            != name by {
            assert(d.drop_last()[j] == d[j]);
        }
        named_nowhere(d.drop_last(), name);
    }
}

/// The last place at which a name is listed.
fn place_of<T>(v: &Vec<(String, T)>, name: &str) -> (r: Option<usize>)
    ensures
        (match r {
            Some(i) => {
                &&& i < v@.len()
                &&& v@[i as int].0@ == name@
                &&& forall|j: int| i < j < v@.len() ==> (#[trigger] v@[j]).0@ != name@
            },
            None => forall|j: int| 0 <= j < v@.len() ==> (#[trigger] v@[j]).0@ != name@,
        }),
{
    let mut i: usize = v.len();
    while i > 0
        invariant
            i <= v@.len(),
            forall|j: int| i <= j < v@.len() ==> (#[trigger] v@[j]).0@ != name@,
        decreases i,
    {
        i = i - 1;
        if text::same(v[i].0.as_str(), name) {
            return Some(i);
        }
    }
    None
}

/// What a directory on disk holds under a name.
pub(crate) fn find_on_disk<'a>(v: &'a Vec<(String, DiskEntry)>, name: &str) -> (r: Option<
    &'a DiskEntry,
>)
    ensures
        (match r {
            Some(e) => named(disk_entries(v@), name@) == Some(e.view()),
            None => named(disk_entries(v@), name@) is None,
        }),
{
    let ghost d = disk_entries(v@);
    match place_of(v, name) {
        Some(i) => {
            proof {
                assert forall|j: int| i < j < d.len() implies (#[trigger] d[j]).0 != name@ by {
                    assert(d[j].0 == v@[j].0@);
                }
                assert(d[i as int] == (v@[i as int].0@, v@[i as int].1.view()));
                named_at(d, name@, i as int);
            }
            Some(&v[i].1)
        },
        None => {
            proof {
                assert forall|j: int| 0 <= j < d.len() implies (#[trigger] d[j]).0 != name@ by {
                    assert(d[j].0 == v@[j].0@);
                }
                named_nowhere(d, name@);
            }
            None
        },
    }
}

/// Where a path leads from a frozen object, following no links.
pub open spec fn reached(e: FrozenView, cs: Seq<ComponentView>) -> Result<
    FrozenView,
    GetNofollowError,
>
    decreases cs.len(),
{
    if cs.len() == 0 {
        Ok(e)
    } else {
        match cs[0] {
            ComponentView::CurDir => reached(e, cs.skip(1)),
            ComponentView::Normal(name) => match e {
                FrozenView::Dir(d) => match named(d, name) {
                    Some(sub) => reached(sub, cs.skip(1)),
                    None => Err(GetNofollowError::NotFound),
                },
                _ => Err(GetNofollowError::NotADirectory),
            },
            _ => Err(GetNofollowError::LeavesDir),
        }
    }
}

impl DirEntry {
    pub fn is_dir(&self) -> (r: bool)
        ensures
            r == (self.view() is Dir),
    {
        match self {
            DirEntry::Dir(_) => true,
            _ => false,
        }
    }

    pub fn is_file(&self) -> (r: bool)
        ensures
            r == (self.view() is File),
    {
        match self {
            DirEntry::File(_) => true,
            _ => false,
        }
    }

    pub fn is_symlink(&self) -> (r: bool)
        ensures
            r == (self.view() is Symlink),
    {
        match self {
            DirEntry::Symlink(_) => true,
            _ => false,
        }
    }

    /// Another reference to the same object.
    pub fn copy(&self) -> (r: DirEntry)
        ensures
            r.view() == self.view(),
        decreases self,
    {
        match self {
            DirEntry::Dir(v) => {
                let mut out: Vec<(String, DirEntry)> = Vec::new();
                let mut i: usize = 0;
                while i < v.len()
                    invariant
                        i <= v@.len(),
                        *self == DirEntry::Dir(*v),
                        out@.len() == i,
                        forall|j: int|
                            0 <= j < i ==> dir_entries(out@)[j] == dir_entries(v@)[j],
                    decreases v@.len() - i,
                {
                    assert(decreases_to!(*self => self->Dir_0));
                    assert(decreases_to!(v => v@));
                    assert(decreases_to!(v@ => v@[i as int]));
                    assert(decreases_to!(v@[i as int] => v@[i as int].1));
                    let name = v[i].0.clone();
                    let entry = v[i].1.copy();
                    let ghost before = out@;
                    out.push((name, entry));
                    assert forall|j: int| 0 <= j <= i implies dir_entries(out@)[j] == dir_entries(
                        v@,
                    )[j] by {
                        if j < i {
                            assert(dir_entries(before)[j] == dir_entries(out@)[j]);
                        }
                    }
                    i = i + 1;
                }
                assert(dir_entries(out@) =~= dir_entries(v@));
                proof {
                    frozen_dir_view(*v);
                    frozen_dir_view(out);
                }
                DirEntry::Dir(out)
            },
            DirEntry::File(names) => DirEntry::File(text::copy_texts(names)),
            DirEntry::Symlink(link) => DirEntry::Symlink(Symlink::new(link.contents())),
        }
    }

    /// The object that the components lead to from this one.
    pub(crate) fn reach<'a>(&'a self, cs: &Vec<Component>) -> (r: Result<
        &'a DirEntry,
        GetNofollowError,
    >)
        ensures
            (match r {
                Ok(e) => reached(self.view(), path::component_views(cs@)) == Ok::<
                    FrozenView,
                    GetNofollowError,
                >(e.view()),
                Err(g) => reached(self.view(), path::component_views(cs@)) == Err::<
                    FrozenView,
                    GetNofollowError,
                >(g),
            }),
    {
        let ghost views = path::component_views(cs@);
        let ghost goal = reached(self.view(), views);
        let mut here: &DirEntry = self;
        let mut i: usize = 0;
        assert(views.skip(0) =~= views);
        while i < cs.len()
            invariant
                i <= cs@.len(),
                views == path::component_views(cs@),
                goal == reached(self.view(), views),
                reached(here.view(), views.skip(i as int)) == goal,
            decreases cs@.len() - i,
        {
            assert(views.skip(i as int)[0] == cs@[i as int].view());
            assert(views.skip(i as int).skip(1) =~= views.skip(i + 1));
            match &cs[i] {
                Component::CurDir => {},
                Component::Normal(name) => match here {
                    DirEntry::Dir(v) => {
                        let ghost d = dir_entries(v@);
                        proof {
                            frozen_dir_view(*v);
                        }
                        match place_of(v, name.as_str()) {
                            Some(k) => {
                                proof {
                                    assert forall|j: int| k < j < d.len() implies (
                                    #[trigger] d[j]).0 != name@ by {
                                        assert(d[j].0 == v@[j].0@);
                                    }
                                    assert(d[k as int] == (
                                        v@[k as int].0@,
                                        v@[k as int].1.view(),
                                    ));
                                    named_at(d, name@, k as int);
                                }
                                here = &v[k].1;
                            },
                            None => {
                                proof {
                                    assert forall|j: int| 0 <= j < d.len() implies (
                                    #[trigger] d[j]).0 != name@ by {
                                        assert(d[j].0 == v@[j].0@);
                                    }
                                    named_nowhere(d, name@);
                                }
                                return Err(GetNofollowError::NotFound);
                            },
                        }
                    },
                    _ => {
                        return Err(GetNofollowError::NotADirectory);
                    },
                },
                _ => {
                    return Err(GetNofollowError::LeavesDir);
                },
            }
            i = i + 1;
        }
        Ok(here)
    }

    /// The object at a path below this one. Links on the way are not followed,
    /// and neither is a link at the path.
    pub fn get_nofollow(&self, p: &str) -> (r: Result<DirEntry, GetNofollowError>)
        ensures
            (match r {
                Ok(e) => reached(self.view(), path::components_of(p@)) == Ok::<
                    FrozenView,
                    GetNofollowError,
                >(e.view()),
                Err(g) => reached(self.view(), path::components_of(p@)) == Err::<
                    FrozenView,
                    GetNofollowError,
                >(g),
            }),
    {
        let cs = path::components(p);
        match self.reach(&cs) {
            Ok(e) => Ok(e.copy()),
            Err(g) => Err(g),
        }
    }
}

} // verus!
