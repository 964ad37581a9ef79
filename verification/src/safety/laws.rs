//! What holds of the safety metrics as a whole.

use crate::rust_syntax::{AttrView, EventView, Lines, RustFileView, TokView, TyView};
use crate::safety::counts;
use crate::safety::counts::{FileMetrics, UnsafeKind};
use crate::safety::pointers;
use crate::safety::pointers::{Aliases, Defs};
use crate::safety::program;
use crate::safety::program::SourceFileView;
use crate::safety::scope;
use crate::safety::scope::Scope;
use vstd::prelude::*;

verus! {

/// The line numbers below a bound are finitely many.
proof fn lines_below_are_finite(bound: nat)
    requires
        bound <= usize::MAX + 1,
    ensures
        Set::<usize>::new(|l: usize| l < bound).finite(),
    decreases bound,
{
    let below = Set::<usize>::new(|l: usize| l < bound);
    if bound == 0 {
        assert(below =~= Set::empty());
    } else {
        let last = (bound - 1) as usize;
        let fewer = Set::<usize>::new(|l: usize| l < (bound - 1) as nat);
        lines_below_are_finite((bound - 1) as nat);
        assert(below =~= fewer.insert(last));
    }
}

proof fn lines_are_finite(lines: Set<usize>)
    ensures
        lines.finite(),
{
    let bound = (usize::MAX + 1) as nat;
    lines_below_are_finite(bound);
    vstd::set_lib::lemma_set_subset_finite(Set::<usize>::new(|l: usize| l < bound), lines);
}

/// The numerator never passes the denominator: the unsafe lines of a file, of
/// any kind, are among its code lines.
pub proof fn unsafe_lines_are_code_lines(file: RustFileView, kind: Option<UnsafeKind>)
    ensures
        counts::code_line_set(file).finite(),
        counts::unsafe_line_set(file, kind).subset_of(counts::code_line_set(file)),
        counts::unsafe_line_set(file, kind).len() <= counts::code_line_set(file).len(),
{
    lines_are_finite(counts::code_line_set(file));
    vstd::set_lib::lemma_len_subset(
        counts::unsafe_line_set(file, kind),
        counts::code_line_set(file),
    );
}

/// The lines of `unsafe fn`s and those of `unsafe {}` blocks are among the
/// unsafe lines.
pub proof fn each_kind_is_part_of_the_union(file: RustFileView, kind: UnsafeKind)
    ensures
        counts::unsafe_line_set(file, Some(kind)).subset_of(counts::unsafe_line_set(file, None)),
{
    assert forall|line: usize| counts::is_unsafe_line(file.events, line, Some(kind)) implies counts::is_unsafe_line(
        file.events,
        line,
        None,
    ) by {
        let i = choose|i: int|
            0 <= i < file.events.len() && counts::covers(
                #[trigger] file.events[i],
                line,
                Some(kind),
            );
        assert(counts::covers(file.events[i], line, None));
    }
}

/// Nesting adds nothing: an unsafe region inside another one leaves the unsafe
/// lines as they are.
pub proof fn nested_regions_add_nothing(
    events: Seq<EventView>,
    inner: EventView,
    outer: int,
    line: usize,
)
    requires
        0 <= outer < events.len(),
        forall|l: usize|
            #[trigger] counts::covers(inner, l, None) ==> counts::covers(events[outer], l, None),
    ensures
        counts::is_unsafe_line(events.push(inner), line, None) == counts::is_unsafe_line(
            events,
            line,
            None,
        ),
{
    let more = events.push(inner);
    if counts::is_unsafe_line(more, line, None) {
        let i = choose|i: int| 0 <= i < more.len() && counts::covers(#[trigger] more[i], line, None);
        if i < events.len() {
            assert(more[i] == events[i]);
            assert(counts::covers(events[i], line, None));
        } else {
            assert(counts::covers(events[outer], line, None));
        }
    }
    if counts::is_unsafe_line(events, line, None) {
        let i = choose|i: int|
            0 <= i < events.len() && counts::covers(#[trigger] events[i], line, None);
        assert(more[i] == events[i]);
        assert(counts::covers(more[i], line, None));
    }
}

/// The unsafe region of a function does not depend on its attributes or doc
/// comments, nor on its signature.
pub proof fn attributes_do_not_move_the_region(
    token: Option<Lines>,
    end: usize,
    attrs: Seq<AttrView>,
    more: Seq<AttrView>,
    inputs: Seq<Option<TyView>>,
    output: Option<TyView>,
)
    ensures
        counts::unsafe_region(EventView::Function(attrs, token, end, inputs, output))
            == counts::unsafe_region(EventView::Function(more, token, end, inputs, output)),
{
}

/// What a type spells out directly does not depend on the aliases: resolution
/// only adds to it.
pub proof fn direct_pointers_need_no_aliases(ty: TyView, a: Aliases, b: Aliases)
    ensures
        pointers::ptrs_in(ty, a).dc == pointers::ptrs_in(ty, b).dc,
        pointers::ptrs_in(ty, a).dm == pointers::ptrs_in(ty, b).dm,
    decreases ty,
{
    match ty {
        TyView::Ptr(_, t) => direct_pointers_need_no_aliases(*t, a, b),
        TyView::Path(segs, q) => {
            if segs.len() > 0 {
                if let Some(args) = segs[segs.len() - 1].angle {
                    direct_in_some(args, a, b);
                }
            }
            if let Some(t) = q {
                direct_pointers_need_no_aliases(*t, a, b);
            }
        },
        TyView::Reference(t) => direct_pointers_need_no_aliases(*t, a, b),
        TyView::Slice(t) => direct_pointers_need_no_aliases(*t, a, b),
        TyView::Array(t) => direct_pointers_need_no_aliases(*t, a, b),
        TyView::Paren(t) => direct_pointers_need_no_aliases(*t, a, b),
        TyView::Group(t) => direct_pointers_need_no_aliases(*t, a, b),
        TyView::Tuple(ts) => direct_in_all(ts, a, b),
        TyView::BareFn(ts, o) => {
            direct_in_all(ts, a, b);
            if let Some(t) = o {
                direct_pointers_need_no_aliases(*t, a, b);
            }
        },
        TyView::Other => {},
    }
}

proof fn direct_in_all(ts: Seq<TyView>, a: Aliases, b: Aliases)
    ensures
        pointers::ptrs_in_all(ts, a).dc == pointers::ptrs_in_all(ts, b).dc,
        pointers::ptrs_in_all(ts, a).dm == pointers::ptrs_in_all(ts, b).dm,
    decreases ts,
{
    if ts.len() > 0 {
        direct_in_all(ts.subrange(0, ts.len() - 1), a, b);
        direct_pointers_need_no_aliases(ts[ts.len() - 1], a, b);
    }
}

proof fn direct_in_some(ts: Seq<Option<TyView>>, a: Aliases, b: Aliases)
    ensures
        pointers::ptrs_in_some(ts, a).dc == pointers::ptrs_in_some(ts, b).dc,
        pointers::ptrs_in_some(ts, a).dm == pointers::ptrs_in_some(ts, b).dm,
    decreases ts,
{
    if ts.len() > 0 {
        direct_in_some(ts.subrange(0, ts.len() - 1), a, b);
        if let Some(t) = ts[ts.len() - 1] {
            direct_pointers_need_no_aliases(t, a, b);
        }
    }
}

/// A signature that exposes a raw pointer directly exposes one.
pub proof fn direct_exposure_is_exposure(
    inputs: Seq<Option<TyView>>,
    output: Option<TyView>,
    aliases: Aliases,
)
    requires
        counts::sig_exposes_directly(inputs, output, aliases),
    ensures
        counts::sig_exposes(inputs, output, aliases),
{
    if exists|i: int|
        0 <= i < inputs.len() && (#[trigger] inputs[i]) is Some && counts::exposes_directly(
            inputs[i]->0,
            aliases,
        ) {
        let i = choose|i: int|
            0 <= i < inputs.len() && (#[trigger] inputs[i]) is Some && counts::exposes_directly(
                inputs[i]->0,
                aliases,
            );
        assert(counts::exposes(inputs[i]->0, aliases));
    }
}

/// Once a round of expansion changes nothing, the aliases are settled: every
/// further round leaves them as they are.
pub proof fn settled_aliases_stay(defs: Defs, known: Aliases, rounds: nat)
    requires
        pointers::expand(defs, known) == known,
    ensures
        pointers::expand_rounds(defs, known, rounds) == known,
    decreases rounds,
{
    if rounds > 0 {
        settled_aliases_stay(defs, known, (rounds - 1) as nat);
    }
}

/// An alias that mentions only itself expands to the pointers that it spells
/// out: a cyclic definition is not counted over and over.
pub proof fn self_reference_adds_nothing(def: pointers::DefView, name: Seq<char>, known: Aliases)
    requires
        forall|i: int| 0 <= i < def.refs.len() ==> def.refs[i] == name,
    ensures
        pointers::refs_sum(def.refs, name, known) == (0nat, 0nat),
    decreases def.refs.len(),
{
    if def.refs.len() > 0 {
        let shorter = pointers::DefView {
            consts: def.consts,
            muts: def.muts,
            refs: def.refs.drop_last(),
        };
        self_reference_adds_nothing(shorter, name, known);
    }
}

/// A file outside a scope, or one that is not Rust, changes nothing about that
/// scope: tests that an agent writes do not move the figures of the library.
pub proof fn other_files_do_not_count(files: Seq<SourceFileView>, extra: SourceFileView, scope: Scope)
    requires
        scope::measured_scope(extra.path) != Some(scope),
    ensures
        program::scope_sources(files.push(extra), scope) == program::scope_sources(files, scope),
        program::scope_unreadable(files.push(extra), scope) == program::scope_unreadable(files, scope),
{
    assert(files.push(extra).drop_last() =~= files);
}

/// A file that does not parse counts in neither the numerator nor the
/// denominator.
pub proof fn unparsed_files_are_excluded(srcs: Seq<(Seq<char>, Seq<char>)>, bad: (Seq<char>, Seq<char>))
    requires
        crate::rust_syntax::parsed_source(bad.1) is Err,
    ensures
        scope::parsed_files(srcs.push(bad)) == scope::parsed_files(srcs),
        scope::unparsed_files(srcs.push(bad)).len() == scope::unparsed_files(srcs).len() + 1,
{
    assert(srcs.push(bad).drop_last() =~= srcs);
}

} // verus!
