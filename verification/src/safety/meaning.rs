//! What the counters of a file stand for, in terms of what stands in the file.

use crate::num;
use crate::rust_syntax;
use crate::rust_syntax::{
    AttrView, EventView, Lines, RustFile, RustFileView, SegmentView, TokView, Ty, TyView,
};
use crate::safety::counts;
use crate::safety::counts::{FileMetrics, Tally, UnsafeKind};
use crate::safety::pointers;
use crate::safety::pointers::{AliasMap, Aliases, Defs, Ptrs};
use crate::text;
use vstd::prelude::*;

verus! {

// ── Pointers in types ────────────────────────────────────────────────────

/// How many raw pointers these are.
pub open spec fn total(p: Ptrs) -> nat {
    p.dc + p.dm + p.ac + p.am
}

/// A raw pointer type counts as one more pointer than what it points to, direct and
/// of its own kind.
pub proof fn a_pointer_counts_once(t: TyView, aliases: Aliases)
    ensures
        ({
            let inner = pointers::ptrs_in(t, aliases);
            let to_mut = pointers::ptrs_in(TyView::Ptr(true, Box::new(t)), aliases);
            let to_const = pointers::ptrs_in(TyView::Ptr(false, Box::new(t)), aliases);
            &&& to_mut.dm == inner.dm + 1 && to_mut.dc == inner.dc
            &&& to_mut.ac == inner.ac && to_mut.am == inner.am
            &&& to_const.dc == inner.dc + 1 && to_const.dm == inner.dm
            &&& to_const.ac == inner.ac && to_const.am == inner.am
        }),
{
}

/// Pointers are found wherever they stand in a type: behind references, in slices and
/// arrays, in brackets, among the members of tuples, in the parameters and the result
/// of function pointers, and in the arguments of a path and its own type. No
/// surrounding type adds any or hides one.
pub proof fn pointers_are_found_in_every_part(
    t: TyView,
    ts: Seq<TyView>,
    args: Seq<Option<TyView>>,
    segs: Seq<SegmentView>,
    name: Seq<char>,
    q: Option<Box<TyView>>,
    aliases: Aliases,
)
    ensures
        ({
            let p = pointers::ptrs_in(t, aliases);
            let with_args = |v: Seq<Option<TyView>>|
                TyView::Path(segs.push(SegmentView { ident: name, angle: Some(v) }), q);
            &&& pointers::ptrs_in(TyView::Reference(Box::new(t)), aliases) == p
            &&& pointers::ptrs_in(TyView::Slice(Box::new(t)), aliases) == p
            &&& pointers::ptrs_in(TyView::Array(Box::new(t)), aliases) == p
            &&& pointers::ptrs_in(TyView::Paren(Box::new(t)), aliases) == p
            &&& pointers::ptrs_in(TyView::Group(Box::new(t)), aliases) == p
            &&& total(pointers::ptrs_in(TyView::Other, aliases)) == 0
            &&& total(pointers::ptrs_in(TyView::Tuple(seq![]), aliases)) == 0
            &&& pointers::ptrs_in(TyView::Tuple(ts.push(t)), aliases) == pointers::ptrs_sum(
                pointers::ptrs_in(TyView::Tuple(ts), aliases),
                p,
            )
            &&& total(pointers::ptrs_in(TyView::BareFn(seq![], None), aliases)) == 0
            &&& pointers::ptrs_in(TyView::BareFn(ts.push(t), None), aliases) == pointers::ptrs_sum(
                pointers::ptrs_in(TyView::BareFn(ts, None), aliases),
                p,
            )
            &&& pointers::ptrs_in(TyView::BareFn(ts, Some(Box::new(t))), aliases)
                == pointers::ptrs_sum(pointers::ptrs_in(TyView::BareFn(ts, None), aliases), p)
            &&& pointers::ptrs_in(with_args(args.push(Some(t))), aliases) == pointers::ptrs_sum(
                pointers::ptrs_in(with_args(args), aliases),
                p,
            )
            &&& pointers::ptrs_in(with_args(args.push(None)), aliases) == pointers::ptrs_in(
                with_args(args),
                aliases,
            )
            &&& pointers::ptrs_in(TyView::Path(segs, Some(Box::new(t))), aliases)
                == pointers::ptrs_sum(pointers::ptrs_in(TyView::Path(segs, None), aliases), p)
        }),
{
    assert(ts.push(t).subrange(0, ts.len() as int) =~= ts);
    assert(args.push(Some(t)).subrange(0, args.len() as int) =~= args);
    assert(args.push(None).subrange(0, args.len() as int) =~= args);
    let p = pointers::ptrs_in(t, aliases);
    assert(pointers::ptrs_in_all(ts.push(t), aliases) == pointers::ptrs_sum(
        pointers::ptrs_in_all(ts, aliases),
        p,
    ));
    assert(pointers::ptrs_in_some(args.push(Some(t)), aliases) == pointers::ptrs_sum(
        pointers::ptrs_in_some(args, aliases),
        p,
    ));
    assert(pointers::ptrs_in_some(args.push(None), aliases) == pointers::ptrs_sum(
        pointers::ptrs_in_some(args, aliases),
        pointers::no_ptrs(),
    ));
    let more = segs.push(SegmentView { ident: name, angle: Some(args.push(Some(t))) });
    let none_more = segs.push(SegmentView { ident: name, angle: Some(args.push(None)) });
    let plain = segs.push(SegmentView { ident: name, angle: Some(args) });
    assert(more[more.len() - 1].angle == Some(args.push(Some(t))));
    assert(none_more[none_more.len() - 1].angle == Some(args.push(None)));
    assert(plain[plain.len() - 1].angle == Some(args));
    let none: Seq<TyView> = seq![];
    assert(pointers::ptrs_in_all(none, aliases) == pointers::no_ptrs());
    assert(pointers::ptrs_in(TyView::Tuple(none), aliases) == pointers::no_ptrs());
    assert(pointers::ptrs_in(TyView::BareFn(none, None), aliases) == pointers::no_ptrs());
}

/// A path stands for the pointers of the alias that its last segment names, through
/// the alias; a name that is no alias stands for none.
pub proof fn an_alias_counts_what_it_hides(
    segs: Seq<SegmentView>,
    name: Seq<char>,
    aliases: Aliases,
)
    ensures
        ({
            let seg = SegmentView { ident: name, angle: None };
            let p = pointers::ptrs_in(TyView::Path(segs.push(seg), None), aliases);
            &&& p.dc == 0 && p.dm == 0
            &&& aliases.contains_key(name) ==> p.ac == aliases[name].0 && p.am == aliases[name].1
            &&& !aliases.contains_key(name) ==> p.ac == 0 && p.am == 0
        }),
{
}

// ── Signatures ───────────────────────────────────────────────────────────

/// A signature exposes a raw pointer exactly if one of its typed parameters or its
/// result has one, aliases resolved; and it does so directly exactly if one of them
/// spells one out.
pub proof fn signatures_expose_what_they_mention(
    inputs: &Vec<Option<Ty>>,
    output: &Option<Ty>,
    aliases: &AliasMap,
    r: (bool, bool),
)
    requires
        aliases.wf(),
        call_ensures(counts::sig_exposes_ptr, (inputs, output, aliases), r),
    ensures
        r.0 <==> {
            ||| exists|i: int|
                0 <= i < inputs@.len() && (#[trigger] inputs@[i]) is Some && total(
                    pointers::ptrs_in(inputs@[i]->0.view(), aliases.view()),
                ) > 0
            ||| *output is Some && total(
                pointers::ptrs_in(output->0.view(), aliases.view()),
            ) > 0
        },
        r.1 <==> {
            ||| exists|i: int|
                0 <= i < inputs@.len() && (#[trigger] inputs@[i]) is Some && ({
                    let p = pointers::ptrs_in(inputs@[i]->0.view(), aliases.view());
                    p.dc + p.dm > 0
                })
            ||| *output is Some && ({
                let p = pointers::ptrs_in(output->0.view(), aliases.view());
                p.dc + p.dm > 0
            })
        },
{
    let a = aliases.view();
    let views = rust_syntax::opt_ty_views(inputs@);
    assert forall|i: int| 0 <= i < inputs@.len() implies (#[trigger] inputs@[i] is Some
        <==> views[i] is Some) && (inputs@[i] is Some ==> views[i]->0 == inputs@[i]->0.view()) by {
        assert(views[i] == rust_syntax::opt_ty_view(inputs@[i]));
    }
    if exists|i: int|
        0 <= i < views.len() && (#[trigger] views[i]) is Some && counts::exposes(views[i]->0, a) {
        let i = choose|i: int|
            0 <= i < views.len() && (#[trigger] views[i]) is Some && counts::exposes(
                views[i]->0,
                a,
            );
        assert(inputs@[i] is Some);
    }
    if exists|i: int|
        0 <= i < views.len() && (#[trigger] views[i]) is Some && counts::exposes_directly(
            views[i]->0,
            a,
        ) {
        let i = choose|i: int|
            0 <= i < views.len() && (#[trigger] views[i]) is Some && counts::exposes_directly(
                views[i]->0,
                a,
            );
        assert(inputs@[i] is Some);
    }
    if exists|i: int|
        0 <= i < inputs@.len() && (#[trigger] inputs@[i]) is Some && total(
            pointers::ptrs_in(inputs@[i]->0.view(), a),
        ) > 0 {
        let i = choose|i: int|
            0 <= i < inputs@.len() && (#[trigger] inputs@[i]) is Some && total(
                pointers::ptrs_in(inputs@[i]->0.view(), a),
            ) > 0;
        assert(counts::exposes(views[i]->0, a));
    }
    if exists|i: int|
        0 <= i < inputs@.len() && (#[trigger] inputs@[i]) is Some && ({
            let p = pointers::ptrs_in(inputs@[i]->0.view(), a);
            p.dc + p.dm > 0
        }) {
        let i = choose|i: int|
            0 <= i < inputs@.len() && (#[trigger] inputs@[i]) is Some && ({
                let p = pointers::ptrs_in(inputs@[i]->0.view(), a);
                p.dc + p.dm > 0
            });
        assert(counts::exposes_directly(views[i]->0, a));
    }
}

/// A function that hands out or takes a raw pointer exposes one, directly, whatever
/// the rest of its signature and the aliases are.
pub proof fn pointers_in_signatures_are_exposed(
    inputs: &Vec<Option<Ty>>,
    output: &Option<Ty>,
    aliases: &AliasMap,
    r: (bool, bool),
    i: int,
)
    requires
        aliases.wf(),
        call_ensures(counts::sig_exposes_ptr, (inputs, output, aliases), r),
        (*output matches Some(t) && t is Ptr) || (0 <= i < inputs@.len() && (
        inputs@[i] matches Some(t) && t is Ptr)),
    ensures
        r.0,
        r.1,
{
    signatures_expose_what_they_mention(inputs, output, aliases, r);
    if let Some(t) = *output {
        if let Ty::Ptr(m, inner) = t {
            a_pointer_counts_once(inner.view(), aliases.view());
        }
    }
    if 0 <= i < inputs@.len() {
        if let Some(t) = inputs@[i] {
            if let Ty::Ptr(m, inner) = t {
                a_pointer_counts_once(inner.view(), aliases.view());
                assert(inputs@[i] is Some);
            }
        }
    }
}

// ── Counters ─────────────────────────────────────────────────────────────

/// How many of the events have a property.
pub open spec fn how_many(events: Seq<EventView>, has: spec_fn(EventView) -> bool) -> nat
    decreases events.len(),
{
    if events.len() == 0 {
        0
    } else {
        how_many(events.drop_last(), has) + if has(events.last()) {
            1nat
        } else {
            0
        }
    }
}

/// Whether an attribute exports its item to the linker, in either spelling.
pub open spec fn exports(a: AttrView) -> bool {
    &&& a.name is Some
    &&& {
        ||| a.name->0 == "no_mangle"@
        ||| a.name->0 == "export_name"@
        ||| a.name->0 == "unsafe"@ && (a.nested.contains("no_mangle"@) || a.nested.contains(
            "export_name"@,
        ))
    }
}

pub open spec fn any_exports(attrs: Seq<AttrView>) -> bool {
    exists|i: int| 0 <= i < attrs.len() && exports(#[trigger] attrs[i])
}

/// An item is exported exactly if one of its attributes exports it.
pub proof fn one_attribute_exports(attrs: Seq<AttrView>)
    ensures
        counts::is_exported(attrs) <==> any_exports(attrs),
    decreases attrs.len(),
{
    if attrs.len() > 0 {
        let front = attrs.drop_last();
        let a = attrs.last();
        one_attribute_exports(front);
        assert(counts::is_plain_export(a) || counts::is_wrapped_export(a) <==> exports(a)) by {
            if counts::is_wrapped_export(a) {
                let i = choose|i: int|
                    0 <= i < a.nested.len() && counts::is_export_name(#[trigger] a.nested[i]);
                assert(a.nested.contains(a.nested[i]));
            }
            if a.nested.contains("no_mangle"@) {
                let i = choose|i: int| 0 <= i < a.nested.len() && a.nested[i] == "no_mangle"@;
                assert(counts::is_export_name(a.nested[i]));
            }
            if a.nested.contains("export_name"@) {
                let i = choose|i: int| 0 <= i < a.nested.len() && a.nested[i] == "export_name"@;
                assert(counts::is_export_name(a.nested[i]));
            }
        }
        if any_exports(attrs) {
            let i = choose|i: int| 0 <= i < attrs.len() && exports(#[trigger] attrs[i]);
            if i < front.len() {
                assert(exports(front[i]));
            }
        }
        if any_exports(front) {
            let i = choose|i: int| 0 <= i < front.len() && exports(#[trigger] front[i]);
            assert(exports(attrs[i]));
        }
        if exports(a) {
            assert(exports(attrs[attrs.len() - 1]));
        }
    }
}

/// Whether a function with this signature takes or gives a raw pointer.
pub open spec fn mentions_pointer(
    inputs: Seq<Option<TyView>>,
    output: Option<TyView>,
    aliases: Aliases,
) -> bool {
    ||| exists|i: int|
        0 <= i < inputs.len() && (#[trigger] inputs[i]) is Some && total(
            pointers::ptrs_in(inputs[i]->0, aliases),
        ) > 0
    ||| output is Some && total(pointers::ptrs_in(output->0, aliases)) > 0
}

pub open spec fn is_unsafe_function(e: EventView) -> bool {
    match e {
        EventView::Function(_, token, _, _, _) => token is Some,
        EventView::Method(token, _) => token is Some,
        _ => false,
    }
}

pub open spec fn is_exported_function(e: EventView) -> bool {
    e matches EventView::Function(attrs, _, _, _, _) && any_exports(attrs)
}

pub open spec fn is_exported_unsafe_function(e: EventView) -> bool {
    e matches EventView::Function(attrs, token, _, _, _) && any_exports(attrs) && token is Some
}

pub open spec fn is_exposing_function(e: EventView, aliases: Aliases) -> bool {
    e matches EventView::Function(attrs, _, _, inputs, output) && any_exports(attrs)
        && mentions_pointer(inputs, output, aliases)
}

pub open spec fn is_transmute_call(e: EventView) -> bool {
    e matches EventView::Call(Some(path)) && path.len() > 0 && path.last().len() >= 9
        && path.last().take(9) == "transmute"@
}

/// What a tally says of how often each thing occurs.
pub open spec fn tells(t: Tally, events: Seq<EventView>, aliases: Aliases) -> bool {
    &&& t.unsafe_fns == how_many(events, |e: EventView| is_unsafe_function(e))
    &&& t.unsafe_blocks == how_many(events, |e: EventView| e is UnsafeBlock)
    &&& t.unsafe_impls == how_many(
        events,
        |e: EventView| e matches EventView::Impl(token, _) && token is Some,
    )
    &&& t.unsafe_traits == how_many(
        events,
        |e: EventView| e matches EventView::Trait(token, _) && token is Some,
    )
    &&& t.ffi_exported_fns == how_many(events, |e: EventView| is_exported_function(e))
    &&& t.ffi_exported_unsafe == how_many(events, |e: EventView| is_exported_unsafe_function(e))
    &&& t.ffi_exported_raw_ptr == how_many(
        events,
        |e: EventView| is_exposing_function(e, aliases),
    )
    &&& t.ffi_exported_statics == how_many(
        events,
        |e: EventView| e matches EventView::Static(attrs, _, _) && any_exports(attrs),
    )
    &&& t.ffi_exported_statics_mut == how_many(
        events,
        |e: EventView| e matches EventView::Static(attrs, m, _) && any_exports(attrs) && m,
    )
    &&& t.static_mut_items == how_many(
        events,
        |e: EventView| e matches EventView::Static(_, m, _) && m,
    )
    &&& t.extern_static_mut_items == how_many(
        events,
        |e: EventView| e matches EventView::ForeignStatic(m, _) && m,
    )
    &&& t.extern_blocks == how_many(events, |e: EventView| e is ForeignOpen)
    &&& t.extern_fn_decls == how_many(events, |e: EventView| e is ForeignFn)
    &&& t.transmutes == how_many(events, |e: EventView| is_transmute_call(e))
    &&& t.macro_rules_defs == how_many(
        events,
        |e: EventView| e matches EventView::Macro(Some(name), _) && name == "macro_rules"@,
    )
}

#[verifier::spinoff_prover]
#[verifier::rlimit(40)]
proof fn tally_tells(events: Seq<EventView>, aliases: Aliases)
    ensures
        tells(counts::tally(events, aliases), events, aliases),
    decreases events.len(),
{
    if events.len() > 0 {
        tally_tells(events.drop_last(), aliases);
        let e = events.last();
        match e {
            EventView::Function(attrs, token, _, inputs, output) => {
                one_attribute_exports(attrs);
                assert(counts::sig_exposes(inputs, output, aliases) <==> mentions_pointer(
                    inputs,
                    output,
                    aliases,
                )) by {
                    if counts::sig_exposes(inputs, output, aliases) && !(output is Some
                        && counts::exposes(output->0, aliases)) {
                        let i = choose|i: int|
                            0 <= i < inputs.len() && (#[trigger] inputs[i]) is Some
                                && counts::exposes(inputs[i]->0, aliases);
                        assert(inputs[i] is Some);
                    }
                }
            },
            EventView::Static(attrs, _, _) => {
                one_attribute_exports(attrs);
            },
            EventView::Call(Some(path)) => {
                if path.len() > 0 {
                    reveal_strlit("transmute");
                    let last = path.last();
                    if last.len() >= 9 {
                        assert(last.subrange(0, 9) =~= last.take(9));
                    }
                }
            },
            _ => {},
        }
    }
}

/// Every counter of a file is the number of the things it is named after: functions
/// and methods, blocks, impls and traits that are `unsafe`; exported functions, those
/// of them that are `unsafe` and those that take or give a raw pointer; exported
/// statics; mutable statics; foreign blocks and what they declare; calls of a
/// transmute; macros that are defined.
pub proof fn counters_count_what_they_say(file: &RustFile, aliases: &AliasMap, r: FileMetrics)
    requires
        aliases.wf(),
        call_ensures(counts::analyze_parsed, (file, aliases), r),
    ensures
        ({
            let events = file.view().events;
            let a = aliases.view();
            let m = r.m;
            &&& m.unsafe_fns == num::sat(
                how_many(events, |e: EventView| is_unsafe_function(e)) as int,
            )
            &&& m.unsafe_blocks == num::sat(how_many(events, |e: EventView| e is UnsafeBlock) as int)
            &&& m.unsafe_impls == num::sat(
                how_many(
                    events,
                    |e: EventView| e matches EventView::Impl(token, _) && token is Some,
                ) as int,
            )
            &&& m.unsafe_traits == num::sat(
                how_many(
                    events,
                    |e: EventView| e matches EventView::Trait(token, _) && token is Some,
                ) as int,
            )
            &&& m.ffi_exported_fns == num::sat(
                how_many(events, |e: EventView| is_exported_function(e)) as int,
            )
            &&& m.ffi_exported_unsafe == num::sat(
                how_many(events, |e: EventView| is_exported_unsafe_function(e)) as int,
            )
            &&& m.ffi_exported_raw_ptr == num::sat(
                how_many(events, |e: EventView| is_exposing_function(e, a)) as int,
            )
            &&& m.ffi_exported_statics == num::sat(
                how_many(
                    events,
                    |e: EventView| e matches EventView::Static(attrs, _, _) && any_exports(attrs),
                ) as int,
            )
            &&& m.ffi_exported_statics_mut == num::sat(
                how_many(
                    events,
                    |e: EventView|
                        e matches EventView::Static(attrs, m, _) && any_exports(attrs) && m,
                ) as int,
            )
            &&& m.static_mut_items == num::sat(
                how_many(events, |e: EventView| e matches EventView::Static(_, m, _) && m) as int,
            )
            &&& m.extern_static_mut_items == num::sat(
                how_many(
                    events,
                    |e: EventView| e matches EventView::ForeignStatic(m, _) && m,
                ) as int,
            )
            &&& m.extern_blocks == num::sat(how_many(events, |e: EventView| e is ForeignOpen) as int)
            &&& m.extern_fn_decls == num::sat(how_many(events, |e: EventView| e is ForeignFn) as int)
            &&& m.transmutes == num::sat(
                how_many(events, |e: EventView| is_transmute_call(e)) as int,
            )
            &&& m.macro_rules_defs == num::sat(
                how_many(
                    events,
                    |e: EventView|
                        e matches EventView::Macro(Some(name), _) && name == "macro_rules"@,
                ) as int,
            )
        }),
{
    tally_tells(file.view().events, aliases.view());
}

/// Whether a function with this signature spells out a raw pointer that it takes or
/// gives.
pub open spec fn spells_pointer(
    inputs: Seq<Option<TyView>>,
    output: Option<TyView>,
    aliases: Aliases,
) -> bool {
    ||| exists|i: int|
        0 <= i < inputs.len() && (#[trigger] inputs[i]) is Some && pointers::ptrs_in(
            inputs[i]->0,
            aliases,
        ).dc + pointers::ptrs_in(inputs[i]->0, aliases).dm > 0
    ||| output is Some && pointers::ptrs_in(output->0, aliases).dc + pointers::ptrs_in(
        output->0,
        aliases,
    ).dm > 0
}

pub open spec fn is_openly_exposing_function(e: EventView, aliases: Aliases) -> bool {
    e matches EventView::Function(attrs, _, _, inputs, output) && any_exports(attrs)
        && spells_pointer(inputs, output, aliases)
}

/// How many of the attributes are as `has` says.
pub open spec fn how_many_attrs(attrs: Seq<AttrView>, has: spec_fn(AttrView) -> bool) -> nat
    decreases attrs.len(),
{
    if attrs.len() == 0 {
        0
    } else {
        how_many_attrs(attrs.drop_last(), has) + if has(attrs.last()) {
            1nat
        } else {
            0
        }
    }
}

/// The attributes of the functions and statics of a file, in order.
pub open spec fn item_attrs(events: Seq<EventView>) -> Seq<AttrView>
    decreases events.len(),
{
    if events.len() == 0 {
        Seq::empty()
    } else {
        item_attrs(events.drop_last()) + match events.last() {
            EventView::Function(attrs, _, _, _, _) => attrs,
            EventView::Static(attrs, _, _) => attrs,
            _ => Seq::empty(),
        }
    }
}

/// `no_mangle` or `export_name`, written as it stands.
pub open spec fn exports_plainly(a: AttrView) -> bool {
    a.name == Some("no_mangle"@) || a.name == Some("export_name"@)
}

/// `no_mangle` or `export_name`, written inside `unsafe(…)`.
pub open spec fn exports_wrapped(a: AttrView) -> bool {
    a.name == Some("unsafe"@) && (a.nested.contains("no_mangle"@) || a.nested.contains(
        "export_name"@,
    ))
}

proof fn attrs_add_up(a: Seq<AttrView>, b: Seq<AttrView>, has: spec_fn(AttrView) -> bool)
    ensures
        how_many_attrs(a + b, has) == how_many_attrs(a, has) + how_many_attrs(b, has),
    decreases b.len(),
{
    if b.len() == 0 {
        assert(a + b =~= a);
    } else {
        assert((a + b).drop_last() =~= a + b.drop_last());
        assert((a + b).last() == b.last());
        attrs_add_up(a, b.drop_last(), has);
    }
}

proof fn attrs_are_counted(attrs: Seq<AttrView>)
    ensures
        counts::plain_exports(attrs) == how_many_attrs(attrs, |a: AttrView| exports_plainly(a)),
        counts::wrapped_exports(attrs) == how_many_attrs(attrs, |a: AttrView| exports_wrapped(a)),
    decreases attrs.len(),
{
    if attrs.len() > 0 {
        attrs_are_counted(attrs.drop_last());
        let a = attrs.last();
        if counts::is_wrapped_export(a) {
            let i = choose|i: int|
                0 <= i < a.nested.len() && counts::is_export_name(#[trigger] a.nested[i]);
            assert(a.nested.contains(a.nested[i]));
        }
        if exports_wrapped(a) {
            let i = choose|i: int|
                0 <= i < a.nested.len() && counts::is_export_name(#[trigger] a.nested[i]);
            assert(counts::is_wrapped_export(a));
        }
    }
}

/// A token, or what stands inside it if it is a group.
pub open spec fn laid_out(t: TokView) -> Seq<TokView>
    decreases t,
{
    match t {
        TokView::Group(_, _, inner) => all_laid_out(inner),
        _ => seq![t],
    }
}

/// The tokens one after the other, the groups opened.
pub open spec fn all_laid_out(ts: Seq<TokView>) -> Seq<TokView>
    decreases ts,
{
    if ts.len() == 0 {
        Seq::empty()
    } else {
        all_laid_out(ts.subrange(0, ts.len() - 1)) + laid_out(ts[ts.len() - 1])
    }
}

/// How many of the tokens are as `has` says.
pub open spec fn how_many_tokens(ts: Seq<TokView>, has: spec_fn(TokView) -> bool) -> nat
    decreases ts.len(),
{
    if ts.len() == 0 {
        0
    } else {
        how_many_tokens(ts.drop_last(), has) + if has(ts.last()) {
            1nat
        } else {
            0
        }
    }
}

proof fn tokens_add_up(a: Seq<TokView>, b: Seq<TokView>, has: spec_fn(TokView) -> bool)
    ensures
        how_many_tokens(a + b, has) == how_many_tokens(a, has) + how_many_tokens(b, has),
    decreases b.len(),
{
    if b.len() == 0 {
        assert(a + b =~= a);
    } else {
        assert((a + b).drop_last() =~= a + b.drop_last());
        assert((a + b).last() == b.last());
        tokens_add_up(a, b.drop_last(), has);
    }
}

pub open spec fn is_unsafe_word(t: TokView) -> bool {
    t matches TokView::Ident(s, _) && s == "unsafe"@
}

pub open spec fn is_star(t: TokView) -> bool {
    t matches TokView::Punct(c, _) && c == '*'
}

proof fn token_is_counted(t: TokView)
    ensures
        counts::soup_in(t).0 == how_many_tokens(laid_out(t), |x: TokView| is_unsafe_word(x)),
        counts::soup_in(t).1 == how_many_tokens(laid_out(t), |x: TokView| is_star(x)),
    decreases t,
{
    match t {
        TokView::Group(_, _, inner) => {
            tokens_are_counted(inner);
        },
        _ => {
            let one = laid_out(t);
            assert(one.len() == 1 && one.last() == t);
            assert(one.drop_last() =~= Seq::empty());
            reveal_with_fuel(how_many_tokens, 2);
        },
    }
}

proof fn tokens_are_counted(ts: Seq<TokView>)
    ensures
        counts::soup_in_all(ts).0 == how_many_tokens(
            all_laid_out(ts),
            |x: TokView| is_unsafe_word(x),
        ),
        counts::soup_in_all(ts).1 == how_many_tokens(all_laid_out(ts), |x: TokView| is_star(x)),
    decreases ts,
{
    if ts.len() > 0 {
        let front = ts.subrange(0, ts.len() - 1);
        let t = ts[ts.len() - 1];
        tokens_are_counted(front);
        token_is_counted(t);
        tokens_add_up(all_laid_out(front), laid_out(t), |x: TokView| is_unsafe_word(x));
        tokens_add_up(all_laid_out(front), laid_out(t), |x: TokView| is_star(x));
    }
}

/// The tokens of the macros that a file defines, the groups opened.
pub open spec fn macro_tokens(events: Seq<EventView>) -> Seq<TokView>
    decreases events.len(),
{
    if events.len() == 0 {
        Seq::empty()
    } else {
        macro_tokens(events.drop_last()) + match events.last() {
            EventView::Macro(Some(name), ts) if name == "macro_rules"@ => all_laid_out(ts),
            _ => Seq::empty(),
        }
    }
}

#[verifier::spinoff_prover]
#[verifier::rlimit(40)]
proof fn tally_tells_the_rest(events: Seq<EventView>, aliases: Aliases)
    ensures
        ({
            let t = counts::tally(events, aliases);
            &&& t.ffi_exported_raw_ptr_direct == how_many(
                events,
                |e: EventView| is_openly_exposing_function(e, aliases),
            )
            &&& t.export_attr_plain == how_many_attrs(
                item_attrs(events),
                |a: AttrView| exports_plainly(a),
            )
            &&& t.export_attr_unsafe_wrapped == how_many_attrs(
                item_attrs(events),
                |a: AttrView| exports_wrapped(a),
            )
            &&& t.macro_body_unsafe_tokens == how_many_tokens(
                macro_tokens(events),
                |x: TokView| is_unsafe_word(x),
            )
            &&& t.macro_body_ptr_tokens == how_many_tokens(
                macro_tokens(events),
                |x: TokView| is_star(x),
            )
        }),
    decreases events.len(),
{
    if events.len() > 0 {
        let front = events.drop_last();
        tally_tells_the_rest(front, aliases);
        let e = events.last();
        let attrs = match e {
            EventView::Function(attrs, _, _, _, _) => attrs,
            EventView::Static(attrs, _, _) => attrs,
            _ => Seq::empty(),
        };
        let ts = match e {
            EventView::Macro(Some(name), ts) if name == "macro_rules"@ => ts,
            _ => Seq::empty(),
        };
        one_attribute_exports(attrs);
        attrs_are_counted(attrs);
        attrs_add_up(item_attrs(front), attrs, |a: AttrView| exports_plainly(a));
        attrs_add_up(item_attrs(front), attrs, |a: AttrView| exports_wrapped(a));
        tokens_are_counted(ts);
        tokens_add_up(macro_tokens(front), all_laid_out(ts), |x: TokView| is_unsafe_word(x));
        tokens_add_up(macro_tokens(front), all_laid_out(ts), |x: TokView| is_star(x));
        if let EventView::Function(_, _, _, inputs, output) = e {
            assert(counts::sig_exposes_directly(inputs, output, aliases) <==> spells_pointer(
                inputs,
                output,
                aliases,
            )) by {
                if counts::sig_exposes_directly(inputs, output, aliases) && !(output is Some
                    && counts::exposes_directly(output->0, aliases)) {
                    let i = choose|i: int|
                        0 <= i < inputs.len() && (#[trigger] inputs[i]) is Some
                            && counts::exposes_directly(inputs[i]->0, aliases);
                    assert(inputs[i] is Some);
                }
            }
        }
    }
}

/// The other counters: exported functions whose signature spells out a raw pointer;
/// the export attributes of functions and statics, plain and wrapped; the words
/// `unsafe` and the stars in what macros are defined as, however deep they stand.
pub proof fn hidden_things_are_counted(file: &RustFile, aliases: &AliasMap, r: FileMetrics)
    requires
        aliases.wf(),
        call_ensures(counts::analyze_parsed, (file, aliases), r),
    ensures
        ({
            let events = file.view().events;
            let a = aliases.view();
            let attrs = item_attrs(events);
            let tokens = macro_tokens(events);
            let m = r.m;
            &&& m.ffi_exported_raw_ptr_direct == num::sat(
                how_many(events, |e: EventView| is_openly_exposing_function(e, a)) as int,
            )
            &&& m.export_attr_plain == num::sat(
                how_many_attrs(attrs, |a: AttrView| exports_plainly(a)) as int,
            )
            &&& m.export_attr_unsafe_wrapped == num::sat(
                how_many_attrs(attrs, |a: AttrView| exports_wrapped(a)) as int,
            )
            &&& m.macro_body_unsafe_tokens == num::sat(
                how_many_tokens(tokens, |x: TokView| is_unsafe_word(x)) as int,
            )
            &&& m.macro_body_ptr_tokens == num::sat(
                how_many_tokens(tokens, |x: TokView| is_star(x)) as int,
            )
        }),
{
    tally_tells_the_rest(file.view().events, aliases.view());
}

/// What a declaration declares.
pub open spec fn declared_type(e: EventView) -> Option<TyView> {
    match e {
        EventView::Static(_, _, t) => Some(t),
        EventView::Const(t) => Some(t),
        EventView::Alias(_, t) => Some(t),
        EventView::Field(t) => Some(t),
        EventView::Typed(t) => Some(t),
        EventView::Return(t) => t,
        EventView::ForeignStatic(_, t) => Some(t),
        _ => None,
    }
}

proof fn sums_with_none(p: Ptrs)
    ensures
        pointers::ptrs_sum(p, pointers::no_ptrs()) == p,
        pointers::ptrs_sum(pointers::no_ptrs(), p) == p,
{
}

/// Where the pointers of one event go.
#[verifier::spinoff_prover]
#[verifier::rlimit(40)]
proof fn event_pointers(e: EventView, aliases: Aliases, foreign: bool)
    ensures
        ({
            let t = counts::event_tally(e, aliases, foreign);
            let p = match declared_type(e) {
                Some(t) => pointers::ptrs_in(t, aliases),
                None => pointers::no_ptrs(),
            };
            let c = match e {
                EventView::Cast(t) => pointers::ptrs_in(t, aliases),
                _ => pointers::no_ptrs(),
            };
            &&& t.ptr_extern == if foreign {
                p
            } else {
                pointers::no_ptrs()
            }
            &&& t.ptr_decl == if foreign {
                pointers::no_ptrs()
            } else {
                p
            }
            &&& t.ptr_cast == c
        }),
{
    match e {
        EventView::Static(_, _, ty) => {
            sums_with_none(pointers::ptrs_in(ty, aliases));
        },
        EventView::ForeignStatic(_, ty) => {
            sums_with_none(pointers::ptrs_in(ty, aliases));
        },
        _ => {},
    }
}

/// A declaration adds its pointers to those declared, or to those of C's own
/// declarations if it stands in a foreign block; a cast adds its pointers to those in
/// casts; nothing else adds a pointer anywhere.
#[verifier::spinoff_prover]
#[verifier::rlimit(40)]
pub proof fn pointers_go_to_their_bucket(events: Seq<EventView>, e: EventView, aliases: Aliases)
    ensures
        ({
            let before = counts::tally(events, aliases);
            let after = counts::tally(events.push(e), aliases);
            let foreign = counts::foreign_depth(events) > 0;
            let p = match declared_type(e) {
                Some(t) => pointers::ptrs_in(t, aliases),
                None => pointers::no_ptrs(),
            };
            let c = match e {
                EventView::Cast(t) => pointers::ptrs_in(t, aliases),
                _ => pointers::no_ptrs(),
            };
            &&& foreign ==> after.ptr_extern == pointers::ptrs_sum(before.ptr_extern, p)
                && after.ptr_decl == before.ptr_decl
            &&& !foreign ==> after.ptr_decl == pointers::ptrs_sum(before.ptr_decl, p)
                && after.ptr_extern == before.ptr_extern
            &&& after.ptr_cast == pointers::ptrs_sum(before.ptr_cast, c)
        }),
{
    let foreign = counts::foreign_depth(events) > 0;
    let before = counts::tally(events, aliases);
    assert(events.push(e).drop_last() =~= events);
    event_pointers(e, aliases, foreign);
    sums_with_none(before.ptr_extern);
    sums_with_none(before.ptr_decl);
    sums_with_none(before.ptr_cast);
}

/// What stands between the start and the end of a foreign block is foreign, and what
/// comes after is as foreign as what came before.
pub proof fn foreign_blocks_open_and_close(events: Seq<EventView>, e: EventView)
    ensures
        counts::foreign_depth(seq![]) == 0,
        counts::foreign_depth(events.push(EventView::ForeignOpen)) > 0,
        counts::foreign_depth(events.push(EventView::ForeignOpen).push(EventView::ForeignClose))
            == counts::foreign_depth(events),
        !(e is ForeignOpen) && !(e is ForeignClose) ==> counts::foreign_depth(events.push(e))
            == counts::foreign_depth(events),
{
    let open = events.push(EventView::ForeignOpen);
    assert(open.drop_last() =~= events);
    let closed = open.push(EventView::ForeignClose);
    assert(closed.drop_last() =~= open);
    assert(counts::foreign_depth(open) == counts::foreign_depth(events) + 1);
    assert(closed.last() is ForeignClose);
    assert(events.push(e).drop_last() =~= events);
}

// ── Lines ────────────────────────────────────────────────────────────────

/// Whether an event opens an unsafe region, with the `unsafe` token and the line that
/// it ends on.
pub open spec fn opens_at(e: EventView, token: Lines, end: usize) -> bool {
    match e {
        EventView::Function(_, Some(t), to, _, _) => t == token && to == end,
        EventView::Method(Some(t), Some(to)) => t == token && to == end,
        EventView::Method(Some(t), None) => t == token && t.last == end,
        EventView::UnsafeBlock(t, to) => t == token && to == end,
        EventView::Impl(Some(t), to) => t == token && to == end,
        EventView::Trait(Some(t), to) => t == token && to == end,
        _ => false,
    }
}

/// The unsafe lines of a file are its code lines from an `unsafe` token to the end of
/// what it makes unsafe, and no others.
pub proof fn unsafe_lines_run_from_token_to_end(
    file: &RustFile,
    aliases: &AliasMap,
    r: FileMetrics,
    line: usize,
)
    requires
        aliases.wf(),
        call_ensures(counts::analyze_parsed, (file, aliases), r),
    ensures
        r.unsafe_lines@.contains(line) <==> carries_token(file.view().tokens, line) && exists|
            i: int,
            token: Lines,
            end: usize,
        |
            #![trigger opens_at(file.view().events[i], token, end)]
            0 <= i < file.view().events.len() && opens_at(file.view().events[i], token, end)
                && 0 < token.first <= line <= end,
{
    let f = file.view();
    token_carries(f.tokens, line);
    assert(r.unsafe_lines@ == counts::unsafe_line_set(f, None));
    if counts::is_unsafe_line(f.events, line, None) {
        let i = choose|i: int|
            0 <= i < f.events.len() && counts::covers(#[trigger] f.events[i], line, None);
        let e = f.events[i];
        let token = match e {
            EventView::Function(_, Some(t), _, _, _) => t,
            EventView::Method(Some(t), _) => t,
            EventView::UnsafeBlock(t, _) => t,
            EventView::Impl(Some(t), _) => t,
            EventView::Trait(Some(t), _) => t,
            _ => Lines { first: 0, last: 0 },
        };
        let (from, to, _) = counts::unsafe_region(e)->0;
        assert(opens_at(f.events[i], token, to));
    }
    if exists|i: int, token: Lines, end: usize|
        #![trigger opens_at(f.events[i], token, end)]
        0 <= i < f.events.len() && opens_at(f.events[i], token, end) && 0 < token.first <= line
            <= end {
        let (i, token, end) = choose|i: int, token: Lines, end: usize|
            #![trigger opens_at(f.events[i], token, end)]
            0 <= i < f.events.len() && opens_at(f.events[i], token, end) && 0 < token.first <= line
                <= end;
        assert(counts::covers(f.events[i], line, None));
    }
}

/// Whether some token stands on a line, inside brackets or not.
pub open spec fn carries_token(ts: Seq<TokView>, line: usize) -> bool
    decreases ts,
{
    exists|i: int| 0 <= i < ts.len() && carries(#[trigger] ts[i], line)
}

pub open spec fn carries(t: TokView, line: usize) -> bool
    decreases t,
{
    match t {
        TokView::Group(open, close, inner) => {
            ||| line == open && open > 0
            ||| line == close && close > 0
            ||| carries_token(inner, line)
        },
        TokView::Ident(_, l) => l.first > 0 && (l.first == line || l.first <= line <= l.last),
        TokView::Punct(_, l) => l.first > 0 && (l.first == line || l.first <= line <= l.last),
        TokView::Literal(l) => l.first > 0 && (l.first == line || l.first <= line <= l.last),
    }
}

proof fn token_carries(ts: Seq<TokView>, line: usize)
    ensures
        counts::any_touches(ts, line) <==> carries_token(ts, line),
    decreases ts,
{
    if ts.len() > 0 {
        let n = ts.len() - 1;
        let front = ts.subrange(0, n);
        token_carries(front, line);
        tok_carries(ts[n], line);
        if carries_token(ts, line) {
            let i = choose|i: int| 0 <= i < ts.len() && carries(#[trigger] ts[i], line);
            if i < n {
                assert(carries(front[i], line));
            }
        }
        if carries_token(front, line) {
            let i = choose|i: int| 0 <= i < front.len() && carries(#[trigger] front[i], line);
            assert(carries(ts[i], line));
        }
        if carries(ts[n], line) {
            assert(carries_token(ts, line));
        }
    }
}

proof fn tok_carries(t: TokView, line: usize)
    ensures
        counts::touches(t, line) <==> carries(t, line),
    decreases t,
{
    if let TokView::Group(_, _, inner) = t {
        token_carries(inner, line);
    }
}

/// The lines of `unsafe fn`s are those that a function or method makes unsafe, and
/// the lines of `unsafe {}` those that a block makes unsafe.
pub proof fn kinds_tell_what_makes_a_line_unsafe(e: EventView, line: usize)
    ensures
        counts::covers(e, line, Some(UnsafeKind::Fn)) <==> counts::covers(e, line, None) && (
        e is Function || e is Method),
        counts::covers(e, line, Some(UnsafeKind::Block)) <==> counts::covers(e, line, None)
            && e is UnsafeBlock,
{
}

// ── Aliases ──────────────────────────────────────────────────────────────

proof fn one_more_round(defs: Defs, known: Aliases, rounds: nat)
    ensures
        pointers::expand_rounds(defs, known, rounds + 1) == pointers::expand(
            defs,
            pointers::expand_rounds(defs, known, rounds),
        ),
    decreases rounds,
{
    if rounds > 0 {
        one_more_round(defs, pointers::expand(defs, known), (rounds - 1) as nat);
        assert(pointers::expand_rounds(defs, known, rounds + 1) == pointers::expand_rounds(
            defs,
            pointers::expand(defs, known),
            rounds,
        ));
    } else {
        assert(pointers::expand_rounds(defs, known, 1) == pointers::expand_rounds(
            defs,
            pointers::expand(defs, known),
            0,
        ));
    }
}

/// Whether each name of a chain is defined by mentioning the one before it.
pub open spec fn is_alias_chain(defs: Defs, chain: Seq<Seq<char>>) -> bool {
    &&& chain.len() > 0
    &&& forall|i: int| 0 <= i < chain.len() ==> defs.contains_key(#[trigger] chain[i])
    &&& defs[chain[0]].consts + defs[chain[0]].muts > 0
    &&& forall|i: int|
        1 <= i < chain.len() ==> defs[#[trigger] chain[i]].refs.contains(chain[i - 1])
            && chain[i - 1] != chain[i]
}

proof fn mentioned_pointers_count(refs: Seq<Seq<char>>, name: Seq<char>, known: Aliases, r: Seq<char>)
    requires
        refs.contains(r),
        r != name,
        known.contains_key(r),
    ensures
        pointers::refs_sum(refs, name, known).0 >= known[r].0,
        pointers::refs_sum(refs, name, known).1 >= known[r].1,
    decreases refs.len(),
{
    let front = refs.drop_last();
    if refs.last() != r {
        let i = choose|i: int| 0 <= i < refs.len() && refs[i] == r;
        assert(front[i] == r);
        mentioned_pointers_count(front, name, known, r);
    }
}

proof fn chains_reach(defs: Defs, chain: Seq<Seq<char>>, rounds: nat)
    requires
        is_alias_chain(defs, chain),
        chain.len() <= rounds + 1,
    ensures
        ({
            let a = pointers::expand_rounds(defs, pointers::unexpanded(defs), rounds);
            &&& a.contains_key(chain.last())
            &&& a[chain.last()].0 > 0 || a[chain.last()].1 > 0
        }),
    decreases rounds, chain.len(),
{
    let start = pointers::unexpanded(defs);
    let name = chain.last();
    assert(name == chain[chain.len() - 1]);
    if rounds == 0 {
        assert(chain[0] == name);
    } else {
        let before = pointers::expand_rounds(defs, start, (rounds - 1) as nat);
        one_more_round(defs, start, (rounds - 1) as nat);
        if chain.len() > 1 {
            let front = chain.drop_last();
            assert(forall|i: int| 0 <= i < front.len() ==> front[i] == chain[i]);
            chains_reach(defs, front, (rounds - 1) as nat);
            let r = front.last();
            assert(r == chain[chain.len() - 2]);
            mentioned_pointers_count(defs[name].refs, name, before, r);
        }
    }
}

/// An alias that reaches a pointer through other aliases is found, through as many of
/// them as there are rounds of expansion.
pub proof fn aliases_are_followed(defs: Defs, chain: Seq<Seq<char>>)
    requires
        is_alias_chain(defs, chain),
        chain.len() <= 17,
    ensures
        pointers::resolved(defs).contains_key(chain.last()),
        pointers::resolved(defs)[chain.last()].0 > 0 || pointers::resolved(defs)[chain.last()].1 > 0,
{
    chains_reach(defs, chain, pointers::MAX_ROUNDS as nat);
}

/// A resolved alias is one that some file defines, and it reaches a pointer.
pub proof fn only_pointer_aliases_are_resolved(defs: Defs, name: Seq<char>)
    requires
        pointers::resolved(defs).contains_key(name),
    ensures
        defs.contains_key(name),
        pointers::resolved(defs)[name].0 > 0 || pointers::resolved(defs)[name].1 > 0,
{
    one_more_round(defs, pointers::unexpanded(defs), (pointers::MAX_ROUNDS - 1) as nat);
}

/// A definition spells out the pointers of its type, and mentions every name that the
/// type ends a path with; the last definition of a name counts.
pub proof fn definitions_are_collected(
    defs: Defs,
    events: Seq<EventView>,
    name: Seq<char>,
    t: TyView,
    other: EventView,
)
    ensures
        pointers::defs_after(defs, seq![]) == defs,
        pointers::defs_after(defs, events.push(EventView::Alias(name, t))).contains_key(name),
        pointers::defs_after(defs, events.push(EventView::Alias(name, t)))[name]
            == pointers::clamped(pointers::def_of(t)),
        forall|n: Seq<char>|
            n != name ==> (#[trigger] pointers::defs_after(
                defs,
                events.push(EventView::Alias(name, t)),
            ).contains_key(n) <==> pointers::defs_after(defs, events).contains_key(n)),
        !(other is Alias) ==> pointers::defs_after(defs, events.push(other))
            == pointers::defs_after(defs, events),
{
    assert(events.push(EventView::Alias(name, t)).drop_last() =~= events);
    assert(events.push(other).drop_last() =~= events);
}

/// What a definition spells out is what a use of its type has directly, except in the
/// type of a path's own `<T as …>` part.
pub proof fn definitions_spell_out_pointers(t: TyView, segs: Seq<SegmentView>, name: Seq<char>)
    ensures
        pointers::def_of(TyView::Ptr(true, Box::new(t))).muts == pointers::def_of(t).muts + 1,
        pointers::def_of(TyView::Ptr(true, Box::new(t))).consts == pointers::def_of(t).consts,
        pointers::def_of(TyView::Ptr(false, Box::new(t))).consts == pointers::def_of(t).consts + 1,
        pointers::def_of(TyView::Ptr(false, Box::new(t))).muts == pointers::def_of(t).muts,
        pointers::def_of(TyView::Ptr(true, Box::new(t))).refs == pointers::def_of(t).refs,
        pointers::def_of(TyView::Reference(Box::new(t))) == pointers::def_of(t),
        pointers::def_of(TyView::Array(Box::new(t))) == pointers::def_of(t),
        pointers::def_of(TyView::Slice(Box::new(t))) == pointers::def_of(t),
        pointers::def_of(
            TyView::Path(segs.push(SegmentView { ident: name, angle: None }), None),
        ).refs.contains(name),
        pointers::def_of(
            TyView::Path(
                segs.push(SegmentView { ident: name, angle: Some(seq![Some(t)]) }),
                None,
            ),
        ).muts == pointers::def_of(t).muts,
        pointers::def_of(
            TyView::Path(
                segs.push(SegmentView { ident: name, angle: Some(seq![Some(t)]) }),
                None,
            ),
        ).consts == pointers::def_of(t).consts,
{
    let d = pointers::def_of(
        TyView::Path(segs.push(SegmentView { ident: name, angle: None }), None),
    );
    assert(d.refs[0] == name);
    assert(pointers::def_of(TyView::Ptr(true, Box::new(t))).refs =~= pointers::def_of(t).refs);
    let args = seq![Some(t)];
    assert(args.subrange(0, 0) =~= seq![]);
    assert(pointers::def_of_some(args.subrange(0, 0)) == pointers::empty_def());
    assert(pointers::def_of_some(args) == pointers::def_sum(
        pointers::empty_def(),
        pointers::def_of(t),
    ));
    let path = segs.push(SegmentView { ident: name, angle: Some(args) });
    assert(path[path.len() - 1].angle == Some(args));
}

} // verus!
