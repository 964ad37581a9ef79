//! Unix paths as text: joining, taking apart, and the names of files.

use crate::text;
use vstd::prelude::*;
use vstd::string::*;

verus! {

/// One component of a path, as `std::path::Path::components` tells them apart.
#[derive(Debug, PartialEq, Eq)]
pub enum Component {
    /// The `/` that an absolute path starts with.
    RootDir,
    /// A `.` that a relative path starts with.
    CurDir,
    /// `..`
    ParentDir,
    Normal(String),
}

pub enum ComponentView {
    RootDir,
    CurDir,
    ParentDir,
    Normal(Seq<char>),
}

impl Component {
    pub open spec fn view(&self) -> ComponentView {
        match *self {
            Component::RootDir => ComponentView::RootDir,
            Component::CurDir => ComponentView::CurDir,
            Component::ParentDir => ComponentView::ParentDir,
            Component::Normal(s) => ComponentView::Normal(s@),
        }
    }
}

pub open spec fn component_views(v: Seq<Component>) -> Seq<ComponentView> {
    v.map_values(|c: Component| c.view())
}

pub open spec fn is_absolute_path(p: Seq<char>) -> bool {
    p.len() > 0 && p[0] == '/'
}

/// `base` followed by `p`, as `Path::join` puts them together: an absolute `p`
/// stands for itself, and a separator comes between unless one is there.
pub open spec fn joined(base: Seq<char>, p: Seq<char>) -> Seq<char> {
    if is_absolute_path(p) {
        p
    } else if base.len() == 0 || base.last() == '/' {
        base + p
    } else {
        base + "/"@ + p
    }
}

/// The components that the piece between two separators stands for. Empty
/// pieces and `.` stand for none, except a `.` that comes first.
pub open spec fn piece_components(piece: Seq<char>, first: bool) -> Seq<ComponentView> {
    if piece.len() == 0 {
        seq![]
    } else if piece == "."@ {
        if first {
            seq![ComponentView::CurDir]
        } else {
            seq![]
        }
    } else if piece == ".."@ {
        seq![ComponentView::ParentDir]
    } else {
        seq![ComponentView::Normal(piece)]
    }
}

pub open spec fn pieces_components(pieces: Seq<Seq<char>>) -> Seq<ComponentView>
    decreases pieces.len(),
{
    if pieces.len() == 0 {
        seq![]
    } else {
        pieces_components(pieces.drop_last()) + piece_components(
            pieces.last(),
            pieces.len() == 1,
        )
    }
}

/// The components of a path.
pub open spec fn components_of(p: Seq<char>) -> Seq<ComponentView> {
    (if is_absolute_path(p) {
        seq![ComponentView::RootDir]
    } else {
        seq![]
    }) + pieces_components(text::pieces_of(p, '/'))
}

/// A `.` is a component only where it comes first.
pub(crate) proof fn cur_dir_comes_first(pieces: Seq<Seq<char>>)
    ensures
        forall|i: int|
            0 < i < pieces_components(pieces).len() ==> !(#[trigger] pieces_components(
                pieces,
            )[i] is CurDir),
    decreases pieces.len(),
{
    if pieces.len() > 0 {
        cur_dir_comes_first(pieces.drop_last());
        let head = pieces_components(pieces.drop_last());
        let tail = piece_components(pieces.last(), pieces.len() == 1);
        assert forall|i: int| 0 < i < (head + tail).len() implies !(#[trigger] (head
            + tail)[i] is CurDir) by {
            if i < head.len() {
                assert((head + tail)[i] == head[i]);
            }
        }
    }
}

/// Position of the last `.` in a file name, or -1.
pub open spec fn last_dot(name: Seq<char>) -> int
    decreases name.len(),
{
    if name.len() == 0 {
        -1
    } else if name.last() == '.' {
        name.len() - 1
    } else {
        last_dot(name.drop_last())
    }
}

/// What follows the last `.` of a file name, unless that `.` comes first or the
/// name is `..`.
pub open spec fn extension_of(name: Seq<char>) -> Option<Seq<char>> {
    if name == ".."@ || last_dot(name) <= 0 {
        None
    } else {
        Some(name.skip(last_dot(name) + 1))
    }
}

pub fn is_absolute(p: &str) -> (r: bool)
    ensures
        r == is_absolute_path(p@),
{
    let v = text::chars_of(p);
    v.len() > 0 && v[0] == '/'
}

/// `Path::join`.
pub fn join(base: &str, p: &str) -> (r: String)
    ensures
        r@ == joined(base@, p@),
{
    if is_absolute(p) {
        return p.to_owned();
    }
    let b = text::chars_of(base);
    let mut out = base.to_owned();
    if b.len() > 0 && b[b.len() - 1] != '/' {
        out.append("/");
    }
    out.append(p);
    out
}

/// `Path::components`.
pub fn components(p: &str) -> (r: Vec<Component>)
    ensures
        component_views(r@) == components_of(p@),
{
    let mut out: Vec<Component> = Vec::new();
    if is_absolute(p) {
        out.push(Component::RootDir);
    }
    let ghost head = component_views(out@);
    assert(head =~= if is_absolute_path(p@) {
        seq![ComponentView::RootDir]
    } else {
        seq![]
    });
    let pieces = text::pieces(p, '/');
    let ghost all = text::texts(pieces@);
    let mut i: usize = 0;
    assert(all.take(0) =~= seq![]);
    assert(head + pieces_components(all.take(0)) =~= head);
    while i < pieces.len()
        invariant
            i <= pieces@.len(),
            all == text::texts(pieces@),
            component_views(out@) == head + pieces_components(all.take(i as int)),
        decreases pieces@.len() - i,
    {
        let piece = &pieces[i];
        let ghost before = out@;
        assert(all.take(i + 1).drop_last() =~= all.take(i as int));
        assert(all.take(i + 1).last() == piece@);
        if piece.as_str().is_empty() {
        } else if text::same(piece.as_str(), ".") {
            if i == 0 {
                out.push(Component::CurDir);
            }
        } else if text::same(piece.as_str(), "..") {
            out.push(Component::ParentDir);
        } else {
            out.push(Component::Normal(piece.clone()));
        }
        assert(component_views(out@) =~= component_views(before) + piece_components(
            piece@,
            i == 0,
        ));
        assert(component_views(out@) =~= head + pieces_components(all.take(i + 1)));
        i = i + 1;
    }
    assert(all.take(i as int) =~= all);
    out
}

/// `Path::extension` of a path that consists of `name` alone.
pub fn extension(name: &str) -> (r: Option<String>)
    ensures
        (match r {
            Some(e) => extension_of(name@) == Some(e@),
            None => extension_of(name@) is None,
        }),
{
    let v = text::chars_of(name);
    if text::same(name, "..") {
        return None;
    }
    let mut i: usize = v.len();
    assert(v@.take(i as int) =~= v@);
    while i > 0 && v[i - 1] != '.'
        invariant
            i <= v@.len(),
            last_dot(v@.take(i as int)) == last_dot(v@),
        decreases i,
    {
        assert(v@.take(i as int).drop_last() =~= v@.take(i - 1));
        assert(v@.take(i as int).last() == v@[i - 1]);
        i = i - 1;
    }
    if i > 0 {
        assert(v@.take(i as int).last() == v@[i - 1]);
    }
    if i <= 1 {
        None
    } else {
        let e = text::string_of(&v, i, v.len());
        assert(e@ =~= name@.skip(last_dot(name@) + 1));
        Some(e)
    }
}

/// Whether the first `n` characters of a path are what is left of it without its
/// last component.
pub open spec fn is_parent_len(p: Seq<char>, n: int) -> bool {
    0 <= n <= p.len() && components_of(p.take(n)) == components_of(p).drop_last()
}

/// The path without its last component: its shortest beginning that has all its
/// other components. The root and the empty path have no parent.
pub open spec fn parent_of(p: Seq<char>) -> Option<Seq<char>> {
    let cs = components_of(p);
    if cs.len() == 0 || cs.last() is RootDir {
        None
    } else if exists|n: int| is_parent_len(p, n) {
        let n = choose|n: int| is_parent_len(p, n) && forall|m: int| 0 <= m < n ==> !is_parent_len(p, m);
        Some(p.take(n))
    } else {
        None
    }
}

/// The parent of a path, or the path itself if it has none.
pub open spec fn parent_or_self(p: Seq<char>) -> Seq<char> {
    match parent_of(p) {
        Some(q) => q,
        None => p,
    }
}

fn same_component(a: &Component, b: &Component) -> (r: bool)
    ensures
        r == (a.view() == b.view()),
{
    match (a, b) {
        (Component::RootDir, Component::RootDir) => true,
        (Component::CurDir, Component::CurDir) => true,
        (Component::ParentDir, Component::ParentDir) => true,
        (Component::Normal(x), Component::Normal(y)) => text::same(x.as_str(), y.as_str()),
        _ => false,
    }
}

/// Whether `a` is `b` without its last component.
fn is_all_but_last(a: &Vec<Component>, b: &Vec<Component>) -> (r: bool)
    requires
        b@.len() > 0,
    ensures
        r == (component_views(a@) == component_views(b@).drop_last()),
{
    if a.len() != b.len() - 1 {
        assert(component_views(a@).len() != component_views(b@).drop_last().len());
        return false;
    }
    let mut i: usize = 0;
    while i < a.len()
        invariant
            i <= a@.len(),
            a@.len() == b@.len() - 1,
            forall|j: int| 0 <= j < i ==> component_views(a@)[j] == component_views(b@)[j],
        decreases a@.len() - i,
    {
        if !same_component(&a[i], &b[i]) {
            assert(component_views(a@)[i as int] != component_views(b@).drop_last()[i as int]);
            return false;
        }
        i = i + 1;
    }
    assert(component_views(a@) =~= component_views(b@).drop_last());
    true
}

/// `Path::parent`.
pub fn parent(p: &str) -> (r: Option<String>)
    ensures
        (match r {
            Some(q) => parent_of(p@) == Some(q@),
            None => parent_of(p@) is None,
        }),
{
    let cs = components(p);
    let ghost views = component_views(cs@);
    if cs.len() == 0 {
        return None;
    }
    assert(views.last() == cs@[cs@.len() - 1].view());
    if let Component::RootDir = &cs[cs.len() - 1] {
        return None;
    }
    let chars = text::chars_of(p);
    let mut n: usize = 0;
    loop
        invariant
            n <= chars@.len(),
            chars@ == p@,
            cs@.len() > 0,
            component_views(cs@) == components_of(p@),
            !(components_of(p@).last() is RootDir),
            forall|m: int| 0 <= m < n ==> !is_parent_len(p@, m),
        decreases chars@.len() - n,
    {
        let prefix = text::string_of(&chars, 0, n);
        assert(prefix@ =~= p@.take(n as int));
        let short = components(prefix.as_str());
        if is_all_but_last(&short, &cs) {
            assert(is_parent_len(p@, n as int));
            proof {
                let k = choose|k: int|
                    is_parent_len(p@, k) && forall|m: int| 0 <= m < k ==> !is_parent_len(p@, m);
                assert(is_parent_len(p@, n as int) && forall|m: int|
                    0 <= m < n ==> !is_parent_len(p@, m));
                assert(k == n);
            }
            return Some(prefix);
        }
        if n == chars.len() {
            assert(forall|m: int| !is_parent_len(p@, m));
            return None;
        }
        n = n + 1;
    }
}

/// The parent of a path, or the path itself if it has none.
pub fn parent_or(p: &str) -> (r: String)
    ensures
        r@ == parent_or_self(p@),
{
    match parent(p) {
        Some(q) => q,
        None => p.to_owned(),
    }
}

/// The text of components: joined, one after the other.
pub open spec fn components_text(cs: Seq<ComponentView>) -> Seq<char>
    decreases cs.len(),
{
    if cs.len() == 0 {
        seq![]
    } else {
        joined(components_text(cs.drop_last()), component_text(cs.last()))
    }
}

/// The text of a component.
pub open spec fn component_text(c: ComponentView) -> Seq<char> {
    match c {
        ComponentView::RootDir => "/"@,
        ComponentView::CurDir => "."@,
        ComponentView::ParentDir => ".."@,
        ComponentView::Normal(s) => s,
    }
}

pub fn text_of_component(c: &Component) -> (r: String)
    ensures
        r@ == component_text(c.view()),
{
    match c {
        Component::RootDir => "/".to_owned(),
        Component::CurDir => ".".to_owned(),
        Component::ParentDir => "..".to_owned(),
        Component::Normal(s) => s.clone(),
    }
}

/// The text of the first `n` components.
pub fn text_of_components(cs: &Vec<Component>, n: usize) -> (r: String)
    requires
        n <= cs@.len(),
    ensures
        r@ == components_text(component_views(cs@).take(n as int)),
{
    let ghost all = component_views(cs@);
    let mut out = String::new();
    let mut i: usize = 0;
    assert(all.take(0) =~= seq![]);
    while i < n
        invariant
            i <= n <= cs@.len(),
            all == component_views(cs@),
            out@ == components_text(all.take(i as int)),
        decreases n - i,
    {
        assert(all.take(i + 1).drop_last() =~= all.take(i as int));
        assert(all.take(i + 1).last() == cs@[i as int].view());
        out = join(out.as_str(), text_of_component(&cs[i]).as_str());
        i = i + 1;
    }
    out
}

/// `Path::file_name`: the last component, if it is a name.
pub open spec fn file_name_of(p: Seq<char>) -> Option<Seq<char>> {
    let cs = components_of(p);
    if cs.len() > 0 {
        match cs.last() {
            ComponentView::Normal(s) => Some(s),
            _ => None,
        }
    } else {
        None
    }
}

pub fn file_name(p: &str) -> (r: Option<String>)
    ensures
        (match r {
            Some(n) => file_name_of(p@) == Some(n@),
            None => file_name_of(p@) is None,
        }),
{
    let cs = components(p);
    if cs.len() == 0 {
        return None;
    }
    assert(component_views(cs@).last() == cs@[cs@.len() - 1].view());
    match &cs[cs.len() - 1] {
        Component::Normal(s) => Some(s.clone()),
        _ => None,
    }
}

/// Whether two paths are the same, which is to say that their components are.
pub fn same_path(a: &str, b: &str) -> (r: bool)
    ensures
        r == (components_of(a@) == components_of(b@)),
{
    let x = components(a);
    let y = components(b);
    let ghost xs = component_views(x@);
    let ghost ys = component_views(y@);
    if x.len() != y.len() {
        return false;
    }
    let mut i: usize = 0;
    while i < x.len()
        invariant
            i <= x@.len(),
            x@.len() == y@.len(),
            xs == component_views(x@),
            ys == component_views(y@),
            xs == components_of(a@),
            ys == components_of(b@),
            forall|j: int| 0 <= j < i ==> xs[j] == ys[j],
        decreases x@.len() - i,
    {
        if !same_component(&x[i], &y[i]) {
            assert(xs[i as int] != ys[i as int]);
            return false;
        }
        i = i + 1;
    }
    assert(xs =~= ys);
    true
}

// ── Laws ─────────────────────────────────────────────────────────────────

proof fn last_dot_is_last(stem: Seq<char>, e: Seq<char>)
    requires
        text::lacks(e, '.'),
    ensures
        last_dot(stem + seq!['.'] + e) == stem.len(),
    decreases e.len(),
{
    let s = stem + seq!['.'] + e;
    if e.len() > 0 {
        let f = e.drop_last();
        assert forall|i: int| 0 <= i < f.len() implies (#[trigger] f[i]) != '.' by {
            assert(f[i] == e[i]);
        }
        last_dot_is_last(stem, f);
        assert(s.drop_last() =~= stem + seq!['.'] + f);
        assert(s.last() == e[e.len() - 1]);
    }
}

proof fn last_dot_splits(name: Seq<char>)
    ensures
        -1 <= last_dot(name) < name.len(),
        last_dot(name) >= 0 ==> name[last_dot(name)] == '.',
        forall|i: int| last_dot(name) < i < name.len() ==> (#[trigger] name[i]) != '.',
    decreases name.len(),
{
    if name.len() > 0 && name.last() != '.' {
        let f = name.drop_last();
        last_dot_splits(f);
        let k = last_dot(f);
        if k >= 0 {
            assert(f[k] == name[k]);
        }
        assert forall|i: int| k < i < name.len() implies (#[trigger] name[i]) != '.' by {
            if i < f.len() {
                assert(f[i] == name[i]);
            }
        }
    }
}

/// A name with something before its last dot has what follows it as its extension.
pub proof fn extensions_follow_the_last_dot(
    name: &str,
    r: Option<String>,
    stem: Seq<char>,
    e: Seq<char>,
)
    requires
        call_ensures(extension, (name,), r),
        name@ == stem + seq!['.'] + e,
        stem.len() > 0,
        text::lacks(e, '.'),
        name@ != ".."@,
    ensures
        r matches Some(x) && x@ == e,
{
    last_dot_is_last(stem, e);
    assert(name@.skip(stem.len() as int + 1) =~= e);
}

/// An extension has no dot in it, and stands after a dot that does not come first.
pub proof fn extensions_hold_no_dot(name: &str, r: Option<String>)
    requires
        call_ensures(extension, (name,), r),
    ensures
        r matches Some(e) ==> text::lacks(e@, '.') && e@.len() + 2 <= name@.len()
            && name@[name@.len() - e@.len() - 1] == '.' && text::has_suffix(name@, e@),
{
    if let Some(e) = r {
        last_dot_splits(name@);
        let k = last_dot(name@);
        assert(e@ == name@.skip(k + 1));
        assert forall|i: int| 0 <= i < e@.len() implies (#[trigger] e@[i]) != '.' by {
            assert(e@[i] == name@[i + k + 1]);
        }
        assert(name@.subrange(name@.len() - e@.len(), name@.len() as int) =~= e@);
    }
}

/// An absolute path stands for itself; a relative one comes after the base, with one
/// separator between them.
pub proof fn paths_are_joined_by_one_separator(base: &str, p: &str, r: String)
    requires
        call_ensures(join, (base, p), r),
    ensures
        p@.len() > 0 && p@[0] == '/' ==> r@ == p@,
        !(p@.len() > 0 && p@[0] == '/') && base@.len() == 0 ==> r@ == p@,
        !(p@.len() > 0 && p@[0] == '/') && base@.len() > 0 && base@.last() == '/' ==> r@ == base@
            + p@,
        !(p@.len() > 0 && p@[0] == '/') && base@.len() > 0 && base@.last() != '/' ==> r@ == base@
            + seq!['/'] + p@,
{
    reveal_strlit("/");
    assert("/"@ =~= seq!['/']);
    if base@.len() == 0 {
        assert(base@ + p@ =~= p@);
    }
}

/// A name after a separator is one more component; `..` is the directory above; `.` and
/// nothing at all are no component there.
pub proof fn names_are_added_at_the_end(p: Seq<char>, name: Seq<char>)
    requires
        p.len() > 0,
        text::lacks(name, '/'),
    ensures
        ({
            let longer = components_of(p + seq!['/'] + name);
            let before = components_of(p);
            &&& name.len() == 0 || name == "."@ ==> longer == before
            &&& name == ".."@ ==> longer == before.push(ComponentView::ParentDir)
            &&& name.len() > 0 && name != "."@ && name != ".."@ ==> longer == before.push(
                ComponentView::Normal(name),
            )
        }),
{
    reveal_strlit(".");
    reveal_strlit("..");
    let whole = p + seq!['/'] + name;
    assert(whole[0] == p[0]);
    text::the_last_piece_follows_the_last_separator(p, '/', name);
    let pieces = text::pieces_of(p, '/');
    assert(pieces.push(name).drop_last() =~= pieces);
    text::pieces_are_some(p, '/');
    let root = if is_absolute_path(p) {
        seq![ComponentView::RootDir]
    } else {
        seq![]
    };
    let more = piece_components(name, false);
    assert(root + (pieces_components(pieces) + more) =~= root + pieces_components(pieces) + more);
    assert(components_of(p) + more =~= components_of(whole));
}

proof fn there_is_a_shortest(p: Seq<char>, n: int) -> (m: int)
    requires
        is_parent_len(p, n),
    ensures
        is_parent_len(p, m),
        forall|k: int| 0 <= k < m ==> !is_parent_len(p, k),
    decreases n,
{
    if exists|k: int| 0 <= k < n && is_parent_len(p, k) {
        let k = choose|k: int| 0 <= k < n && is_parent_len(p, k);
        there_is_a_shortest(p, k)
    } else {
        n
    }
}

/// A name in a directory has that directory as its parent, and is the file name of
/// the path.
pub proof fn parents_hold_their_names(
    whole: &str,
    p: Seq<char>,
    name: Seq<char>,
    r: Option<String>,
    f: Option<String>,
)
    requires
        call_ensures(parent, (whole,), r),
        call_ensures(file_name, (whole,), f),
        whole@ == p + seq!['/'] + name,
        p.len() > 0,
        name.len() > 0,
        name != "."@,
        name != ".."@,
        text::lacks(name, '/'),
    ensures
        r is Some && components_of(r->0@) == components_of(p),
        f is Some && f->0@ == name,
{
    names_are_added_at_the_end(p, name);
    let cs = components_of(whole@);
    assert(cs.drop_last() =~= components_of(p));
    assert(whole@.take(p.len() as int) =~= p);
    assert(is_parent_len(whole@, p.len() as int));
    let m = there_is_a_shortest(whole@, p.len() as int);
    assert(exists|n: int|
        is_parent_len(whole@, n) && forall|k: int| 0 <= k < n ==> !is_parent_len(whole@, k));
}

} // verus!
