//! Raw pointers in types, and the aliases that hide them.

use crate::num;
use crate::rust_syntax;
use crate::rust_syntax::{Event, EventView, RustFile, RustFileView, Segment, Ty, TyView};
use crate::text;
use vstd::prelude::*;
use vstd::string::*;

verus! {

// ── Raw pointers in a type ───────────────────────────────────────────────

/// Numbers of raw pointers: seen directly, `*const` and `*mut`, and reached
/// through an alias, `*const` and `*mut`.
pub struct Ptrs {
    pub dc: nat,
    pub dm: nat,
    pub ac: nat,
    pub am: nat,
}

pub open spec fn no_ptrs() -> Ptrs {
    Ptrs { dc: 0, dm: 0, ac: 0, am: 0 }
}

pub open spec fn ptrs_sum(a: Ptrs, b: Ptrs) -> Ptrs {
    Ptrs { dc: a.dc + b.dc, dm: a.dm + b.dm, ac: a.ac + b.ac, am: a.am + b.am }
}

/// What each resolved alias expands to: `*const` and `*mut` pointers.
pub type Aliases = Map<Seq<char>, (usize, usize)>;

/// The pointers that a name stands for.
pub open spec fn alias_ptrs(name: Seq<char>, aliases: Aliases) -> Ptrs {
    if aliases.contains_key(name) {
        Ptrs { dc: 0, dm: 0, ac: aliases[name].0 as nat, am: aliases[name].1 as nat }
    } else {
        no_ptrs()
    }
}

/// Every raw pointer reachable in `ty`, including through aliases. An alias is
/// found by the last segment of a path.
pub open spec fn ptrs_in(ty: TyView, aliases: Aliases) -> Ptrs
    decreases ty,
{
    match ty {
        TyView::Ptr(m, t) => ptrs_sum(
            if m {
                Ptrs { dc: 0, dm: 1, ac: 0, am: 0 }
            } else {
                Ptrs { dc: 1, dm: 0, ac: 0, am: 0 }
            },
            ptrs_in(*t, aliases),
        ),
        TyView::Path(segs, q) => ptrs_sum(
            if segs.len() > 0 {
                let seg = segs[segs.len() - 1];
                ptrs_sum(
                    alias_ptrs(seg.ident, aliases),
                    match seg.angle {
                        Some(args) => ptrs_in_some(args, aliases),
                        None => no_ptrs(),
                    },
                )
            } else {
                no_ptrs()
            },
            match q {
                Some(t) => ptrs_in(*t, aliases),
                None => no_ptrs(),
            },
        ),
        TyView::Reference(t) => ptrs_in(*t, aliases),
        TyView::Slice(t) => ptrs_in(*t, aliases),
        TyView::Array(t) => ptrs_in(*t, aliases),
        TyView::Paren(t) => ptrs_in(*t, aliases),
        TyView::Group(t) => ptrs_in(*t, aliases),
        TyView::Tuple(ts) => ptrs_in_all(ts, aliases),
        TyView::BareFn(ts, o) => ptrs_sum(
            ptrs_in_all(ts, aliases),
            match o {
                Some(t) => ptrs_in(*t, aliases),
                None => no_ptrs(),
            },
        ),
        TyView::Other => no_ptrs(),
    }
}

/// [`ptrs_in`] summed over a sequence of types.
pub open spec fn ptrs_in_all(ts: Seq<TyView>, aliases: Aliases) -> Ptrs
    decreases ts,
{
    if ts.len() == 0 {
        no_ptrs()
    } else {
        ptrs_sum(
            ptrs_in_all(ts.subrange(0, ts.len() - 1), aliases),
            ptrs_in(ts[ts.len() - 1], aliases),
        )
    }
}

/// [`ptrs_in`] summed over those members of a sequence that are types.
pub open spec fn ptrs_in_some(
    ts: Seq<Option<TyView>>,
    aliases: Aliases,
) -> Ptrs
    decreases ts,
{
    if ts.len() == 0 {
        no_ptrs()
    } else {
        ptrs_sum(
            ptrs_in_some(ts.subrange(0, ts.len() - 1), aliases),
            match ts[ts.len() - 1] {
                Some(t) => ptrs_in(t, aliases),
                None => no_ptrs(),
            },
        )
    }
}


// ── Type aliases ─────────────────────────────────────────────────────────

/// The right-hand side of a `type` definition: its own pointers, and the names
/// that it mentions.
pub struct DefView {
    pub consts: nat,
    pub muts: nat,
    pub refs: Seq<Seq<char>>,
}

pub open spec fn empty_def() -> DefView {
    DefView { consts: 0, muts: 0, refs: seq![] }
}

pub open spec fn def_sum(a: DefView, b: DefView) -> DefView {
    DefView { consts: a.consts + b.consts, muts: a.muts + b.muts, refs: a.refs + b.refs }
}

/// The pointers that `ty` spells out and the last segments of its paths.
pub open spec fn def_of(ty: TyView) -> DefView
    decreases ty,
{
    match ty {
        TyView::Ptr(m, t) => def_sum(
            if m {
                DefView { consts: 0, muts: 1, refs: seq![] }
            } else {
                DefView { consts: 1, muts: 0, refs: seq![] }
            },
            def_of(*t),
        ),
        TyView::Path(segs, q) => if segs.len() > 0 {
            let seg = segs[segs.len() - 1];
            def_sum(
                DefView { consts: 0, muts: 0, refs: seq![seg.ident] },
                match seg.angle {
                    Some(args) => def_of_some(args),
                    None => empty_def(),
                },
            )
        } else {
            empty_def()
        },
        TyView::Reference(t) => def_of(*t),
        TyView::Slice(t) => def_of(*t),
        TyView::Array(t) => def_of(*t),
        TyView::Paren(t) => def_of(*t),
        TyView::Group(t) => def_of(*t),
        TyView::Tuple(ts) => def_of_all(ts),
        TyView::BareFn(ts, o) => def_sum(
            def_of_all(ts),
            match o {
                Some(t) => def_of(*t),
                None => empty_def(),
            },
        ),
        TyView::Other => empty_def(),
    }
}

pub open spec fn def_of_all(ts: Seq<TyView>) -> DefView
    decreases ts,
{
    if ts.len() == 0 {
        empty_def()
    } else {
        def_sum(def_of_all(ts.subrange(0, ts.len() - 1)), def_of(ts[ts.len() - 1]))
    }
}

pub open spec fn def_of_some(ts: Seq<Option<TyView>>) -> DefView
    decreases ts,
{
    if ts.len() == 0 {
        empty_def()
    } else {
        def_sum(
            def_of_some(ts.subrange(0, ts.len() - 1)),
            match ts[ts.len() - 1] {
                Some(t) => def_of(t),
                None => empty_def(),
            },
        )
    }
}

/// `d` with its counts saturated.
pub open spec fn clamped(d: DefView) -> DefView {
    DefView {
        consts: num::sat(d.consts as int) as nat,
        muts: num::sat(d.muts as int) as nat,
        refs: d.refs,
    }
}

pub type Defs = Map<Seq<char>, DefView>;

/// `defs` with the aliases that `events` defines. A later definition of a name
/// takes the place of an earlier one.
pub open spec fn defs_after(defs: Defs, events: Seq<EventView>) -> Defs
    decreases events.len(),
{
    if events.len() == 0 {
        defs
    } else {
        let before = defs_after(defs, events.drop_last());
        match events.last() {
            EventView::Alias(name, ty) => before.insert(name, clamped(def_of(ty))),
            _ => before,
        }
    }
}

/// All the aliases that the files of one scope define.
pub open spec fn defs_of_files(files: Seq<RustFileView>) -> Defs
    decreases files.len(),
{
    if files.len() == 0 {
        Map::empty()
    } else {
        defs_after(defs_of_files(files.drop_last()), files.last().events)
    }
}

/// The pointers that the names `refs` contribute to the alias `name`, as far as
/// `known` has them. A name contributes nothing to itself.
pub open spec fn refs_sum(refs: Seq<Seq<char>>, name: Seq<char>, known: Aliases) -> (nat, nat)
    decreases refs.len(),
{
    if refs.len() == 0 {
        (0, 0)
    } else {
        let (c, m) = refs_sum(refs.drop_last(), name, known);
        let r = refs.last();
        if r != name && known.contains_key(r) {
            (c + known[r].0 as nat, m + known[r].1 as nat)
        } else {
            (c, m)
        }
    }
}

pub open spec fn expanded(def: DefView, name: Seq<char>, known: Aliases) -> (usize, usize) {
    let (c, m) = refs_sum(def.refs, name, known);
    (num::sat((def.consts + c) as int), num::sat((def.muts + m) as int))
}

/// The aliases after one more round of expansion.
pub open spec fn expand(defs: Defs, known: Aliases) -> Aliases {
    Map::new(|n: Seq<char>| defs.contains_key(n), |n: Seq<char>| expanded(defs[n], n, known))
}

/// The aliases after `rounds` rounds.
pub open spec fn expand_rounds(defs: Defs, known: Aliases, rounds: nat) -> Aliases
    decreases rounds,
{
    if rounds == 0 {
        known
    } else {
        expand_rounds(defs, expand(defs, known), (rounds - 1) as nat)
    }
}

/// Each alias with only the pointers that its own definition spells out.
pub open spec fn unexpanded(defs: Defs) -> Aliases {
    Map::new(
        |n: Seq<char>| defs.contains_key(n),
        |n: Seq<char>| (num::sat(defs[n].consts as int), num::sat(defs[n].muts as int)),
    )
}

/// The number of rounds after which expansion stops in any case, so that a
/// cyclic definition does not go on for ever.
pub const MAX_ROUNDS: usize = 16;

/// Those of the aliases that reach a pointer.
pub open spec fn reaching(a: Aliases) -> Aliases {
    Map::new(
        |n: Seq<char>| a.contains_key(n) && (a[n].0 > 0 || a[n].1 > 0),
        |n: Seq<char>| a[n],
    )
}

/// What the aliases that `defs` defines expand to.
pub open spec fn resolved(defs: Defs) -> Aliases {
    reaching(expand_rounds(defs, unexpanded(defs), MAX_ROUNDS as nat))
}

/// The pointer aliases of the files of one scope.
pub open spec fn pointer_aliases(files: Seq<RustFileView>) -> Aliases {
    resolved(defs_of_files(files))
}

// ── Counting pointers in a type ──────────────────────────────────────────

/// One raw-pointer bucket. Always split const/mut, and always split pointers
/// seen directly from those reached through a crate-local `type` alias, so a
/// reader can see how much of the answer rests on alias resolution.
#[derive(Debug, Clone, Copy, PartialEq, Eq, Structural)]
pub struct PtrCounts {
    pub direct_const: usize,
    pub direct_mut: usize,
    pub alias_const: usize,
    pub alias_mut: usize,
}

impl Default for PtrCounts {
    fn default() -> (r: Self)
        ensures
            r == (PtrCounts { direct_const: 0, direct_mut: 0, alias_const: 0, alias_mut: 0 }),
    {
        PtrCounts { direct_const: 0, direct_mut: 0, alias_const: 0, alias_mut: 0 }
    }
}

impl PtrCounts {
    /// Whether these are the counts `p`, saturated.
    pub open spec fn counts(&self, p: Ptrs) -> bool {
        &&& self.direct_const == num::sat(p.dc as int)
        &&& self.direct_mut == num::sat(p.dm as int)
        &&& self.alias_const == num::sat(p.ac as int)
        &&& self.alias_mut == num::sat(p.am as int)
    }

    pub fn total(&self) -> (r: usize)
        ensures
            r == num::sat(
                self.direct_const + self.direct_mut + self.alias_const + self.alias_mut,
            ),
    {
        self.consts().saturating_add(self.muts())
    }

    pub fn consts(&self) -> (r: usize)
        ensures
            r == num::sat(self.direct_const + self.alias_const),
    {
        self.direct_const.saturating_add(self.alias_const)
    }

    pub fn muts(&self) -> (r: usize)
        ensures
            r == num::sat(self.direct_mut + self.alias_mut),
    {
        self.direct_mut.saturating_add(self.alias_mut)
    }
}

pub(crate) fn add_ptr(dst: &mut PtrCounts, src: &PtrCounts)
    ensures
        final(dst).direct_const == num::sat(old(dst).direct_const + src.direct_const),
        final(dst).direct_mut == num::sat(old(dst).direct_mut + src.direct_mut),
        final(dst).alias_const == num::sat(old(dst).alias_const + src.alias_const),
        final(dst).alias_mut == num::sat(old(dst).alias_mut + src.alias_mut),
{
    dst.direct_const = dst.direct_const.saturating_add(src.direct_const);
    dst.direct_mut = dst.direct_mut.saturating_add(src.direct_mut);
    dst.alias_const = dst.alias_const.saturating_add(src.alias_const);
    dst.alias_mut = dst.alias_mut.saturating_add(src.alias_mut);
}

/// One resolved alias.
#[derive(Debug)]
pub struct Alias {
    pub name: String,
    pub consts: usize,
    pub muts: usize,
}

/// Pointer counts that crate-local `type` aliases expand to. No name occurs
/// twice.
#[derive(Debug)]
pub struct AliasMap {
    pub entries: Vec<Alias>,
}

pub open spec fn alias_names_differ(v: Seq<Alias>) -> bool {
    forall|i: int, j: int|
        #![trigger v[i], v[j]]
        0 <= i < j < v.len() ==> v[i].name@ != v[j].name@
}

pub open spec fn alias_at(v: Seq<Alias>, name: Seq<char>, i: int) -> bool {
    0 <= i < v.len() && v[i].name@ == name
}

pub open spec fn alias_map(v: Seq<Alias>) -> Aliases {
    Map::new(
        |n: Seq<char>| exists|i: int| alias_at(v, n, i),
        |n: Seq<char>|
            {
                let i = choose|i: int| alias_at(v, n, i);
                (v[i].consts, v[i].muts)
            },
    )
}

impl AliasMap {
    pub open spec fn wf(&self) -> bool {
        alias_names_differ(self.entries@)
    }

    pub open spec fn view(&self) -> Aliases {
        alias_map(self.entries@)
    }

    fn get(&self, name: &str) -> (r: Option<(usize, usize)>)
        requires
            self.wf(),
        ensures
            (match r {
                Some(cm) => self.view().contains_key(name@) && self.view()[name@] == cm,
                None => !self.view().contains_key(name@),
            }),
    {
        let mut i: usize = 0;
        while i < self.entries.len()
            invariant
                i <= self.entries@.len(),
                self.wf(),
                forall|j: int| 0 <= j < i ==> self.entries@[j].name@ != name@,
            decreases self.entries@.len() - i,
        {
            if text::same(self.entries[i].name.as_str(), name) {
                proof {
                    assert(alias_at(self.entries@, name@, i as int));
                    let k = choose|k: int| alias_at(self.entries@, name@, k);
                    assert(alias_at(self.entries@, name@, k));
                    assert(k == i);
                }
                return Some((self.entries[i].consts, self.entries[i].muts));
            }
            i = i + 1;
        }
        proof {
            if self.view().contains_key(name@) {
                let k = choose|k: int| alias_at(self.entries@, name@, k);
                assert(alias_at(self.entries@, name@, k));
            }
        }
        None
    }
}

/// Counts every raw pointer reachable in `ty`, including through crate-local
/// aliases: `Option<*mut T>`, `[*const u8; 4]`, `*mut *mut c_char`,
/// `fn(*mut c_void) -> *const c_char`, tuples, and references to any of those.
pub fn count_ptrs_in_type(ty: &Ty, aliases: &AliasMap) -> (r: PtrCounts)
    requires
        aliases.wf(),
    ensures
        r.counts(ptrs_in(ty.view(), aliases.view())),
    decreases ty,
{
    match ty {
        Ty::Ptr(mutable, t) => {
            let mut out: PtrCounts = if *mutable {
                PtrCounts { direct_const: 0, direct_mut: 1, alias_const: 0, alias_mut: 0 }
            } else {
                PtrCounts { direct_const: 1, direct_mut: 0, alias_const: 0, alias_mut: 0 }
            };
            let inner = count_ptrs_in_type(t, aliases);
            assert(out.counts(
                if *mutable {
                    Ptrs { dc: 0, dm: 1, ac: 0, am: 0 }
                } else {
                    Ptrs { dc: 1, dm: 0, ac: 0, am: 0 }
                },
            ));
            add_ptr(&mut out, &inner);
            out
        },
        Ty::Path(segs, q) => {
            proof {
                rust_syntax::path_view(*segs, *q);
            }
            let mut out = PtrCounts::default();
            assert(out.counts(no_ptrs()));
            if segs.len() > 0 {
                let seg = &segs[segs.len() - 1];
                assert(rust_syntax::segment_views(segs@)[segs@.len() - 1] == seg.view());
                if let Some((c, m)) = aliases.get(seg.ident.as_str()) {
                    out.alias_const = c;
                    out.alias_mut = m;
                }
                assert(out.counts(alias_ptrs(seg.ident@, aliases.view())));
                let args = count_ptrs_in_segment(seg, aliases);
                add_ptr(&mut out, &args);
            }
            let own: PtrCounts = match q {
                Some(t) => count_ptrs_in_type(t, aliases),
                None => PtrCounts::default(),
            };
            assert(own.counts(
                match q {
                    Some(t) => ptrs_in(t.view(), aliases.view()),
                    None => no_ptrs(),
                },
            ));
            add_ptr(&mut out, &own);
            out
        },
        Ty::Reference(t) => count_ptrs_in_type(t, aliases),
        Ty::Slice(t) => count_ptrs_in_type(t, aliases),
        Ty::Array(t) => count_ptrs_in_type(t, aliases),
        Ty::Paren(t) => count_ptrs_in_type(t, aliases),
        Ty::Group(t) => count_ptrs_in_type(t, aliases),
        Ty::Tuple(ts) => {
            proof {
                rust_syntax::tuple_view(*ts);
            }
            count_ptrs_in_types(ts, aliases)
        },
        Ty::BareFn(ts, o) => {
            proof {
                rust_syntax::bare_fn_view(*ts, *o);
            }
            let mut out = count_ptrs_in_types(ts, aliases);
            let result: PtrCounts = match o {
                Some(t) => count_ptrs_in_type(t, aliases),
                None => PtrCounts::default(),
            };
            assert(result.counts(
                match o {
                    Some(t) => ptrs_in(t.view(), aliases.view()),
                    None => no_ptrs(),
                },
            ));
            add_ptr(&mut out, &result);
            out
        },
        Ty::Other => PtrCounts::default(),
    }
}

fn count_ptrs_in_segment(seg: &Segment, aliases: &AliasMap) -> (r: PtrCounts)
    requires
        aliases.wf(),
    ensures
        r.counts(
            match seg.view().angle {
                Some(args) => ptrs_in_some(args, aliases.view()),
                None => no_ptrs(),
            },
        ),
    decreases seg,
{
    let mut out = PtrCounts::default();
    assert(out.counts(no_ptrs()));
    match &seg.angle {
        Some(args) => {
            proof {
                rust_syntax::angle_view(*seg, *args);
            }
            let ghost views = rust_syntax::opt_ty_views(args@);
            let mut i: usize = 0;
            assert(views.subrange(0, 0) =~= seq![]);
            while i < args.len()
                invariant
                    i <= args@.len(),
                    aliases.wf(),
                    seg.angle == Some(*args),
                    views == rust_syntax::opt_ty_views(args@),
                    out.counts(ptrs_in_some(views.subrange(0, i as int), aliases.view())),
                decreases args@.len() - i,
            {
                let ghost next = views.subrange(0, i + 1);
                assert(next.subrange(0, i as int) =~= views.subrange(0, i as int));
                assert(next[i as int] == rust_syntax::opt_ty_view(args@[i as int]));
                match &args[i] {
                    Some(t) => {
                        assert(decreases_to!(seg => seg.angle));
                        assert(decreases_to!(seg.angle => seg.angle->0));
                        assert(decreases_to!(args => args@));
                        assert(decreases_to!(args@ => args@[i as int]));
                        assert(decreases_to!(args@[i as int] => args@[i as int]->0));
                        let inner = count_ptrs_in_type(t, aliases);
                        add_ptr(&mut out, &inner);
                    },
                    None => {
                        assert(ptrs_sum(
                            ptrs_in_some(views.subrange(0, i as int), aliases.view()),
                            no_ptrs(),
                        ) == ptrs_in_some(views.subrange(0, i as int), aliases.view()));
                    },
                }
                i = i + 1;
            }
            assert(views.subrange(0, i as int) =~= views);
        },
        None => {},
    }
    out
}

fn count_ptrs_in_types(ts: &Vec<Ty>, aliases: &AliasMap) -> (r: PtrCounts)
    requires
        aliases.wf(),
    ensures
        r.counts(ptrs_in_all(rust_syntax::ty_views(ts@), aliases.view())),
    decreases ts,
{
    let mut out = PtrCounts::default();
    let ghost views = rust_syntax::ty_views(ts@);
    let mut i: usize = 0;
    assert(views.subrange(0, 0) =~= seq![]);
    while i < ts.len()
        invariant
            i <= ts@.len(),
            aliases.wf(),
            views == rust_syntax::ty_views(ts@),
            out.counts(ptrs_in_all(views.subrange(0, i as int), aliases.view())),
        decreases ts@.len() - i,
    {
        let ghost next = views.subrange(0, i + 1);
        assert(next.subrange(0, i as int) =~= views.subrange(0, i as int));
        assert(next[i as int] == ts@[i as int].view());
        let inner = count_ptrs_in_type(&ts[i], aliases);
        add_ptr(&mut out, &inner);
        i = i + 1;
    }
    assert(views.subrange(0, i as int) =~= views);
    out
}

// ── Collecting aliases ───────────────────────────────────────────────────

/// The right-hand side of a `type` definition: its own pointers, and the names
/// that it mentions.
#[derive(Debug)]
struct Def {
    consts: usize,
    muts: usize,
    refs: Vec<String>,
}

impl Def {
    spec fn is_def(&self, d: DefView) -> bool {
        &&& self.consts == num::sat(d.consts as int)
        &&& self.muts == num::sat(d.muts as int)
        &&& text::texts(self.refs@) == d.refs
    }

    spec fn view(&self) -> DefView {
        DefView { consts: self.consts as nat, muts: self.muts as nat, refs: text::texts(self.refs@) }
    }

    fn empty() -> (r: Def)
        ensures
            r.is_def(empty_def()),
    {
        let r = Def { consts: 0, muts: 0, refs: Vec::new() };
        assert(text::texts(r.refs@) =~= seq![]);
        r
    }

    fn add_def(self, other: Def) -> (r: Def)
        ensures
            r.consts == num::sat(self.consts + other.consts),
            r.muts == num::sat(self.muts + other.muts),
            text::texts(r.refs@) == text::texts(self.refs@) + text::texts(other.refs@),
    {
        let mut refs = self.refs;
        let mut more = other.refs;
        refs.append(&mut more);
        assert(text::texts(refs@) =~= text::texts(self.refs@) + text::texts(other.refs@));
        Def {
            consts: self.consts.saturating_add(other.consts),
            muts: self.muts.saturating_add(other.muts),
            refs,
        }
    }
}

/// Gathers the pointers that `ty` spells out and the names that it mentions.
fn gather(ty: &Ty) -> (r: Def)
    ensures
        r.is_def(def_of(ty.view())),
    decreases ty,
{
    match ty {
        Ty::Ptr(mutable, t) => {
            let own: Def = if *mutable {
                Def { consts: 0, muts: 1, refs: Vec::new() }
            } else {
                Def { consts: 1, muts: 0, refs: Vec::new() }
            };
            assert(text::texts(own.refs@) =~= seq![]);
            own.add_def(gather(t))
        },
        Ty::Path(segs, q) => {
            proof {
                rust_syntax::path_view(*segs, *q);
            }
            if segs.len() == 0 {
                return Def::empty();
            }
            let seg = &segs[segs.len() - 1];
            assert(rust_syntax::segment_views(segs@)[segs@.len() - 1] == seg.view());
            let mut refs: Vec<String> = Vec::new();
            refs.push(seg.ident.clone());
            assert(text::texts(refs@) =~= seq![seg.ident@]);
            let own = Def { consts: 0, muts: 0, refs };
            own.add_def(gather_segment(seg))
        },
        Ty::Reference(t) => gather(t),
        Ty::Slice(t) => gather(t),
        Ty::Array(t) => gather(t),
        Ty::Paren(t) => gather(t),
        Ty::Group(t) => gather(t),
        Ty::Tuple(ts) => {
            proof {
                rust_syntax::tuple_view(*ts);
            }
            gather_types(ts)
        },
        Ty::BareFn(ts, o) => {
            proof {
                rust_syntax::bare_fn_view(*ts, *o);
            }
            let inputs = gather_types(ts);
            let result: Def = match o {
                Some(t) => gather(t),
                None => Def::empty(),
            };
            inputs.add_def(result)
        },
        Ty::Other => Def::empty(),
    }
}

fn gather_segment(seg: &Segment) -> (r: Def)
    ensures
        r.is_def(
            match seg.view().angle {
                Some(args) => def_of_some(args),
                None => empty_def(),
            },
        ),
    decreases seg,
{
    let mut out = Def::empty();
    match &seg.angle {
        Some(args) => {
            proof {
                rust_syntax::angle_view(*seg, *args);
            }
            let ghost views = rust_syntax::opt_ty_views(args@);
            let mut i: usize = 0;
            assert(views.subrange(0, 0) =~= seq![]);
            while i < args.len()
                invariant
                    i <= args@.len(),
                    seg.angle == Some(*args),
                    views == rust_syntax::opt_ty_views(args@),
                    out.is_def(def_of_some(views.subrange(0, i as int))),
                decreases args@.len() - i,
            {
                let ghost next = views.subrange(0, i + 1);
                assert(next.subrange(0, i as int) =~= views.subrange(0, i as int));
                assert(next[i as int] == rust_syntax::opt_ty_view(args@[i as int]));
                match &args[i] {
                    Some(t) => {
                        assert(decreases_to!(seg => seg.angle));
                        assert(decreases_to!(seg.angle => seg.angle->0));
                        assert(decreases_to!(args => args@));
                        assert(decreases_to!(args@ => args@[i as int]));
                        assert(decreases_to!(args@[i as int] => args@[i as int]->0));
                        out = out.add_def(gather(t));
                    },
                    None => {
                        let ghost d = def_of_some(views.subrange(0, i as int));
                        assert(d.refs + Seq::<Seq<char>>::empty() =~= d.refs);
                    },
                }
                i = i + 1;
            }
            assert(views.subrange(0, i as int) =~= views);
        },
        None => {},
    }
    out
}

fn gather_types(ts: &Vec<Ty>) -> (r: Def)
    ensures
        r.is_def(def_of_all(rust_syntax::ty_views(ts@))),
    decreases ts,
{
    let mut out = Def::empty();
    let ghost views = rust_syntax::ty_views(ts@);
    let mut i: usize = 0;
    assert(views.subrange(0, 0) =~= seq![]);
    while i < ts.len()
        invariant
            i <= ts@.len(),
            views == rust_syntax::ty_views(ts@),
            out.is_def(def_of_all(views.subrange(0, i as int))),
        decreases ts@.len() - i,
    {
        let ghost next = views.subrange(0, i + 1);
        assert(next.subrange(0, i as int) =~= views.subrange(0, i as int));
        assert(next[i as int] == ts@[i as int].view());
        out = out.add_def(gather(&ts[i]));
        i = i + 1;
    }
    assert(views.subrange(0, i as int) =~= views);
    out
}

/// A named definition.
#[derive(Debug)]
struct NamedDef {
    name: String,
    def: Def,
}

spec fn def_names_differ(v: Seq<NamedDef>) -> bool {
    forall|i: int, j: int|
        #![trigger v[i], v[j]]
        0 <= i < j < v.len() ==> v[i].name@ != v[j].name@
}

spec fn def_at(v: Seq<NamedDef>, name: Seq<char>, i: int) -> bool {
    0 <= i < v.len() && v[i].name@ == name
}

spec fn def_map(v: Seq<NamedDef>) -> Defs {
    Map::new(
        |n: Seq<char>| exists|i: int| def_at(v, n, i),
        |n: Seq<char>|
            {
                let i = choose|i: int| def_at(v, n, i);
                v[i].def.view()
            },
    )
}

proof fn def_map_at(v: Seq<NamedDef>, i: int)
    requires
        def_names_differ(v),
        0 <= i < v.len(),
    ensures
        def_map(v).contains_key(v[i].name@),
        def_map(v)[v[i].name@] == v[i].def.view(),
{
    assert(def_at(v, v[i].name@, i));
    let k = choose|k: int| def_at(v, v[i].name@, k);
    assert(def_at(v, v[i].name@, k));
    assert(k == i);
}

proof fn alias_map_at(v: Seq<Alias>, i: int)
    requires
        alias_names_differ(v),
        0 <= i < v.len(),
    ensures
        alias_map(v).contains_key(v[i].name@),
        alias_map(v)[v[i].name@] == (v[i].consts, v[i].muts),
{
    assert(alias_at(v, v[i].name@, i));
    let k = choose|k: int| alias_at(v, v[i].name@, k);
    assert(alias_at(v, v[i].name@, k));
    assert(k == i);
}

/// Puts a definition into the table, in place of an earlier one of that name.
fn insert_def(v: &mut Vec<NamedDef>, name: String, def: Def)
    requires
        def_names_differ(old(v)@),
    ensures
        def_names_differ(final(v)@),
        def_map(final(v)@) == def_map(old(v)@).insert(name@, def.view()),
{
    let ghost before = v@;
    let mut i: usize = 0;
    while i < v.len() && !text::same(v[i].name.as_str(), name.as_str())
        invariant
            i <= v@.len(),
            v@ == before,
            forall|j: int| 0 <= j < i ==> before[j].name@ != name@,
        decreases v@.len() - i,
    {
        i = i + 1;
    }
    let ghost n = name@;
    let ghost d = def.view();
    let entry = NamedDef { name, def };
    if i < v.len() {
        v.set(i, entry);
    } else {
        v.push(entry);
    }
    let ghost after = v@;
    proof {
        assert(forall|j: int| #![trigger after[j]] 0 <= j < after.len() && j != i ==> after[j] == before[j]);
        assert forall|a: int, b: int|
            #![trigger after[a], after[b]]
            0 <= a < b < after.len() implies after[a].name@ != after[b].name@ by {
            if a == i {
                assert(before[b].name@ == after[b].name@);
                if i < before.len() {
                    assert(before[a].name@ != before[b].name@);
                }
            } else if b == i {
                assert(before[a].name@ == after[a].name@);
            } else {
                assert(before[a].name@ != before[b].name@);
            }
        }
        let want = def_map(before).insert(n, d);
        assert forall|m: Seq<char>| def_map(after).contains_key(m) == want.contains_key(m) by {
            if def_map(after).contains_key(m) {
                let k = choose|k: int| def_at(after, m, k);
                assert(def_at(after, m, k));
                if k != i {
                    assert(def_at(before, m, k));
                }
            }
            if want.contains_key(m) {
                if m == n {
                    assert(def_at(after, m, i as int));
                } else {
                    let k = choose|k: int| def_at(before, m, k);
                    assert(def_at(before, m, k));
                    assert(def_at(after, m, k));
                }
            }
        }
        assert forall|m: Seq<char>| def_map(after).contains_key(m) implies def_map(after)[m]
            == want[m] by {
            let k = choose|k: int| def_at(after, m, k);
            assert(def_at(after, m, k));
            def_map_at(after, k);
            if k != i {
                def_map_at(before, k);
                if m == n {
                    assert(def_at(after, m, i as int));
                    assert(after[i as int].name@ != after[k].name@);
                }
            }
        }
        assert(def_map(after) =~= want);
    }
}

/// The `type` definitions of a file, added to those already known.
fn collect_defs(v: &mut Vec<NamedDef>, events: &Vec<Event>)
    requires
        def_names_differ(old(v)@),
    ensures
        def_names_differ(final(v)@),
        def_map(final(v)@) == defs_after(
            def_map(old(v)@),
            rust_syntax::event_views(events@),
        ),
{
    let ghost start = def_map(v@);
    let ghost views = rust_syntax::event_views(events@);
    let mut i: usize = 0;
    assert(views.take(0) =~= seq![]);
    while i < events.len()
        invariant
            i <= events@.len(),
            views == rust_syntax::event_views(events@),
            def_names_differ(v@),
            def_map(v@) == defs_after(start, views.take(i as int)),
        decreases events@.len() - i,
    {
        assert(views.take(i + 1).drop_last() =~= views.take(i as int));
        assert(views.take(i + 1).last() == events@[i as int].view());
        if let Event::Alias(name, ty) = &events[i] {
            let def = gather(ty);
            assert(def.view() == clamped(def_of(ty.view())));
            insert_def(v, name.clone(), def);
        }
        i = i + 1;
    }
    assert(views.take(i as int) =~= views);
}

spec fn same_names(v: Seq<NamedDef>, known: Seq<Alias>) -> bool {
    &&& v.len() == known.len()
    &&& forall|i: int| #![trigger v[i]] #![trigger known[i]] 0 <= i < v.len() ==> v[i].name@ == known[i].name@
}

proof fn same_names_same_keys(v: Seq<NamedDef>, known: Seq<Alias>)
    requires
        same_names(v, known),
        def_names_differ(v),
    ensures
        alias_names_differ(known),
        forall|n: Seq<char>| def_map(v).contains_key(n) == alias_map(known).contains_key(n),
{
    assert forall|i: int, j: int| #![trigger known[i], known[j]] 0 <= i < j < known.len() implies known[i].name@
        != known[j].name@ by {
        assert(v[i].name@ != v[j].name@);
    }
    assert forall|n: Seq<char>| def_map(v).contains_key(n) == alias_map(known).contains_key(n) by {
        if def_map(v).contains_key(n) {
            let k = choose|k: int| def_at(v, n, k);
            assert(def_at(v, n, k));
            assert(alias_at(known, n, k));
        }
        if alias_map(known).contains_key(n) {
            let k = choose|k: int| alias_at(known, n, k);
            assert(alias_at(known, n, k));
            assert(def_at(v, n, k));
        }
    }
}

/// The pointers that one alias expands to, given what is known of the others.
fn expand_one(d: &NamedDef, known: &AliasMap) -> (r: (usize, usize))
    requires
        known.wf(),
    ensures
        r == expanded(d.def.view(), d.name@, known.view()),
{
    let mut c: usize = d.def.consts;
    let mut m: usize = d.def.muts;
    let ghost refs = text::texts(d.def.refs@);
    let mut i: usize = 0;
    assert(refs.take(0) =~= seq![]);
    while i < d.def.refs.len()
        invariant
            i <= d.def.refs@.len(),
            known.wf(),
            refs == text::texts(d.def.refs@),
            c == num::sat(d.def.consts + refs_sum(refs.take(i as int), d.name@, known.view()).0),
            m == num::sat(d.def.muts + refs_sum(refs.take(i as int), d.name@, known.view()).1),
        decreases d.def.refs@.len() - i,
    {
        let r = &d.def.refs[i];
        assert(refs.take(i + 1).drop_last() =~= refs.take(i as int));
        assert(refs.take(i + 1).last() == r@);
        if !text::same(r.as_str(), d.name.as_str()) {
            if let Some((rc, rm)) = known.get(r.as_str()) {
                c = c.saturating_add(rc);
                m = m.saturating_add(rm);
            }
        }
        i = i + 1;
    }
    assert(refs.take(i as int) =~= refs);
    (c, m)
}

/// One round of expansion, and whether it changed anything.
fn expand_all(v: &Vec<NamedDef>, known: &AliasMap) -> (r: (AliasMap, bool))
    requires
        def_names_differ(v@),
        same_names(v@, known.entries@),
    ensures
        same_names(v@, r.0.entries@),
        r.0.view() == expand(def_map(v@), known.view()),
        !r.1 ==> r.0.view() == known.view(),
{
    proof {
        same_names_same_keys(v@, known.entries@);
    }
    let mut entries: Vec<Alias> = Vec::new();
    let mut changed = false;
    let mut i: usize = 0;
    while i < v.len()
        invariant
            i <= v@.len(),
            i == entries@.len(),
            def_names_differ(v@),
            same_names(v@, known.entries@),
            known.wf(),
            forall|j: int|
                #![trigger entries@[j]]
                0 <= j < i ==> entries@[j].name@ == v@[j].name@ && (
                    entries@[j].consts,
                    entries@[j].muts,
                ) == expanded(v@[j].def.view(), v@[j].name@, known.view()),
            !changed ==> forall|j: int|
                #![trigger entries@[j]]
                0 <= j < i ==> entries@[j].consts == known.entries@[j].consts && entries@[j].muts
                    == known.entries@[j].muts,
        decreases v@.len() - i,
    {
        let (c, m) = expand_one(&v[i], known);
        if c != known.entries[i].consts || m != known.entries[i].muts {
            changed = true;
        }
        entries.push(Alias { name: v[i].name.clone(), consts: c, muts: m });
        i = i + 1;
    }
    let out = AliasMap { entries };
    proof {
        let e = out.entries@;
        same_names_same_keys(v@, e);
        let want = expand(def_map(v@), known.view());
        assert forall|n: Seq<char>| out.view().contains_key(n) implies out.view()[n] == want[n] by {
            let k = choose|k: int| alias_at(e, n, k);
            assert(alias_at(e, n, k));
            alias_map_at(e, k);
            def_map_at(v@, k);
        }
        assert(out.view() =~= want);
        if !changed {
            assert forall|n: Seq<char>| out.view().contains_key(n) implies out.view()[n]
                == known.view()[n] by {
                let k = choose|k: int| alias_at(e, n, k);
                assert(alias_at(e, n, k));
                alias_map_at(e, k);
                assert(v@[k].name@ == known.entries@[k].name@);
                alias_map_at(known.entries@, k);
            }
            assert(out.view() =~= known.view());
        }
    }
    (out, changed)
}

/// Resolves a table of definitions.
fn resolve_defs(v: &Vec<NamedDef>) -> (r: AliasMap)
    requires
        def_names_differ(v@),
    ensures
        r.wf(),
        r.view() == resolved(def_map(v@)),
{
    let ghost defs = def_map(v@);
    let mut entries: Vec<Alias> = Vec::new();
    let mut i: usize = 0;
    while i < v.len()
        invariant
            i <= v@.len(),
            i == entries@.len(),
            forall|j: int|
                #![trigger entries@[j]]
                0 <= j < i ==> entries@[j].name@ == v@[j].name@ && entries@[j].consts
                    == v@[j].def.consts && entries@[j].muts == v@[j].def.muts,
        decreases v@.len() - i,
    {
        entries.push(
            Alias { name: v[i].name.clone(), consts: v[i].def.consts, muts: v[i].def.muts },
        );
        i = i + 1;
    }
    let mut known = AliasMap { entries };
    proof {
        let e = known.entries@;
        same_names_same_keys(v@, e);
        assert forall|n: Seq<char>| known.view().contains_key(n) implies known.view()[n]
            == unexpanded(defs)[n] by {
            let k = choose|k: int| alias_at(e, n, k);
            assert(alias_at(e, n, k));
            alias_map_at(e, k);
            def_map_at(v@, k);
        }
        assert(known.view() =~= unexpanded(defs));
    }
    let ghost all = expand_rounds(defs, unexpanded(defs), MAX_ROUNDS as nat);
    let mut left: usize = MAX_ROUNDS;
    while left > 0
        invariant
            left <= MAX_ROUNDS,
            def_names_differ(v@),
            defs == def_map(v@),
            same_names(v@, known.entries@),
            expand_rounds(defs, known.view(), left as nat) == all,
        decreases left,
    {
        let (next, changed) = expand_all(v, &known);
        if !changed {
            proof {
                crate::safety::laws::settled_aliases_stay(defs, known.view(), left as nat);
                crate::safety::laws::settled_aliases_stay(defs, known.view(), 0);
            }
            left = 0;
        } else {
            known = next;
            left = left - 1;
        }
    }
    proof {
        same_names_same_keys(v@, known.entries@);
    }
    keep_reaching(known)
}

/// Drops the aliases that reach no pointer.
fn keep_reaching(known: AliasMap) -> (r: AliasMap)
    requires
        known.wf(),
    ensures
        r.wf(),
        r.view() == reaching(known.view()),
{
    let ghost all = known.entries@;
    let mut entries: Vec<Alias> = Vec::new();
    let ghost mut from: Seq<int> = seq![];
    let mut i: usize = 0;
    while i < known.entries.len()
        invariant
            i <= all.len(),
            all == known.entries@,
            from.len() == entries@.len(),
            forall|j: int| #![trigger from[j]] 0 <= j < from.len() ==> 0 <= from[j] < i,
            forall|j: int, k: int| #![trigger from[j], from[k]] 0 <= j < k < from.len() ==> from[j] < from[k],
            forall|j: int|
                #![trigger entries@[j]]
                0 <= j < from.len() ==> entries@[j].name@ == all[from[j]].name@
                    && entries@[j].consts == all[from[j]].consts && entries@[j].muts
                    == all[from[j]].muts && (entries@[j].consts > 0 || entries@[j].muts > 0),
            forall|j: int|
                #![trigger all[j]]
                0 <= j < i && (all[j].consts > 0 || all[j].muts > 0) ==> from.contains(j),
        decreases all.len() - i,
    {
        let a = &known.entries[i];
        let ghost old_from = from;
        if a.consts > 0 || a.muts > 0 {
            entries.push(Alias { name: a.name.clone(), consts: a.consts, muts: a.muts });
            proof {
                from = from.push(i as int);
                assert forall|j: int| #![trigger all[j]] 0 <= j < i + 1 && (all[j].consts > 0 || all[j].muts
                    > 0) implies from.contains(j) by {
                    if j < i {
                        assert(old_from.contains(j));
                        let k = choose|k: int| 0 <= k < old_from.len() && old_from[k] == j;
                        assert(from[k] == j);
                    } else {
                        assert(from[from.len() - 1] == j);
                    }
                }
            }
        }
        i = i + 1;
    }
    let out = AliasMap { entries };
    proof {
        let e = out.entries@;
        assert forall|a: int, b: int| #![trigger e[a], e[b]] 0 <= a < b < e.len() implies e[a].name@ != e[b].name@ by {
            assert(from[a] < from[b]);
            assert(all[from[a]].name@ != all[from[b]].name@);
        }
        let want = reaching(known.view());
        assert forall|n: Seq<char>| out.view().contains_key(n) == want.contains_key(n) by {
            if out.view().contains_key(n) {
                let k = choose|k: int| alias_at(e, n, k);
                assert(alias_at(e, n, k));
                assert(0 <= from[k]);
                alias_map_at(all, from[k]);
            }
            if want.contains_key(n) {
                let k = choose|k: int| alias_at(all, n, k);
                assert(alias_at(all, n, k));
                alias_map_at(all, k);
                assert(from.contains(k));
                let j = choose|j: int| 0 <= j < from.len() && from[j] == k;
                assert(e[j].name@ == n);
                assert(alias_at(e, n, j));
            }
        }
        assert forall|n: Seq<char>| out.view().contains_key(n) implies out.view()[n] == want[n] by {
            let k = choose|k: int| alias_at(e, n, k);
            assert(alias_at(e, n, k));
            alias_map_at(e, k);
            assert(0 <= from[k]);
            alias_map_at(all, from[k]);
        }
        assert(out.view() =~= want);
    }
    out
}

pub open spec fn file_views(v: Seq<RustFile>) -> Seq<RustFileView> {
    v.map_values(|f: RustFile| f.view())
}

/// Collects the `type NAME = …;` definitions of a scope that expand to a
/// pointer.
///
/// Each alias's own pointers and the names its right-hand side mentions are
/// gathered first; expansion then goes round until nothing changes, so that a
/// chain `type A = B; type B = *mut T;` resolves. It is bounded, so that a
/// cyclic definition cannot go on for ever.
pub fn collect_pointer_aliases(files: &Vec<RustFile>) -> (r: AliasMap)
    ensures
        r.wf(),
        r.view() == pointer_aliases(file_views(files@)),
{
    let mut defs: Vec<NamedDef> = Vec::new();
    let ghost views = file_views(files@);
    let mut i: usize = 0;
    proof {
        assert(views.take(0) =~= seq![]);
        assert forall|n: Seq<char>| !def_map(defs@).contains_key(n) by {
            if def_map(defs@).contains_key(n) {
                let k = choose|k: int| def_at(defs@, n, k);
                assert(def_at(defs@, n, k));
            }
        }
        assert(def_map(defs@) =~= Map::empty());
    }
    while i < files.len()
        invariant
            i <= files@.len(),
            views == file_views(files@),
            def_names_differ(defs@),
            def_map(defs@) == defs_of_files(views.take(i as int)),
        decreases files@.len() - i,
    {
        assert(views.take(i + 1).drop_last() =~= views.take(i as int));
        assert(views.take(i + 1).last() == files@[i as int].view());
        collect_defs(&mut defs, &files[i].events);
        i = i + 1;
    }
    assert(views.take(i as int) =~= views);
    resolve_defs(&defs)
}

} // verus!
