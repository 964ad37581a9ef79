//! What is counted over a file, and its lines.

use crate::num;
use crate::rust_syntax;
use crate::rust_syntax::{
    parse_source, Attr, AttrView, Event, EventView, Lines, RustFile, RustFileView, Tok, TokView,
    Ty, TyView,
};
use crate::safety::pointers;
use crate::safety::pointers::{Alias, AliasMap, Aliases, PtrCounts, Ptrs};
use crate::text;
use std::collections::BTreeSet;
use vstd::prelude::*;
use vstd::string::*;

verus! {

// ── Attributes and signatures ────────────────────────────────────────────

pub open spec fn is_export_name(name: Seq<char>) -> bool {
    name == "no_mangle"@ || name == "export_name"@
}

/// `#[no_mangle]` or `#[export_name = "…"]`.
pub open spec fn is_plain_export(a: AttrView) -> bool {
    a.name is Some && is_export_name(a.name->0)
}

/// `#[unsafe(no_mangle)]` or `#[unsafe(export_name = "…")]`.
pub open spec fn is_wrapped_export(a: AttrView) -> bool {
    &&& a.name is Some && a.name->0 == "unsafe"@
    &&& exists|i: int| 0 <= i < a.nested.len() && is_export_name(#[trigger] a.nested[i])
}

pub open spec fn plain_exports(attrs: Seq<AttrView>) -> nat
    decreases attrs.len(),
{
    if attrs.len() == 0 {
        0
    } else {
        plain_exports(attrs.drop_last()) + if is_plain_export(attrs.last()) {
            1nat
        } else {
            0
        }
    }
}

pub open spec fn wrapped_exports(attrs: Seq<AttrView>) -> nat
    decreases attrs.len(),
{
    if attrs.len() == 0 {
        0
    } else {
        wrapped_exports(attrs.drop_last()) + if is_wrapped_export(attrs.last()) {
            1nat
        } else {
            0
        }
    }
}

/// Whether the item is exported to the linker, in either spelling.
pub open spec fn is_exported(attrs: Seq<AttrView>) -> bool {
    plain_exports(attrs) + wrapped_exports(attrs) > 0
}

/// Whether `ty` holds a raw pointer, aliases resolved.
pub open spec fn exposes(ty: TyView, aliases: Aliases) -> bool {
    let p = pointers::ptrs_in(ty, aliases);
    p.dc + p.dm + p.ac + p.am > 0
}

/// Whether `ty` spells out a raw pointer.
pub open spec fn exposes_directly(ty: TyView, aliases: Aliases) -> bool {
    let p = pointers::ptrs_in(ty, aliases);
    p.dc + p.dm > 0
}

pub open spec fn sig_exposes(
    inputs: Seq<Option<TyView>>,
    output: Option<TyView>,
    aliases: Aliases,
) -> bool {
    ||| exists|i: int|
        0 <= i < inputs.len() && (#[trigger] inputs[i]) is Some && exposes(inputs[i]->0, aliases)
    ||| output is Some && exposes(output->0, aliases)
}

pub open spec fn sig_exposes_directly(
    inputs: Seq<Option<TyView>>,
    output: Option<TyView>,
    aliases: Aliases,
) -> bool {
    ||| exists|i: int|
        0 <= i < inputs.len() && (#[trigger] inputs[i]) is Some && exposes_directly(
            inputs[i]->0,
            aliases,
        )
    ||| output is Some && exposes_directly(output->0, aliases)
}

// ── Counting over a file ─────────────────────────────────────────────────

/// The counters of one file as natural numbers.
pub struct Tally {
    pub unsafe_fns: nat,
    pub unsafe_blocks: nat,
    pub unsafe_impls: nat,
    pub unsafe_traits: nat,
    pub ffi_exported_fns: nat,
    pub ffi_exported_unsafe: nat,
    pub ffi_exported_raw_ptr: nat,
    pub ffi_exported_raw_ptr_direct: nat,
    pub ffi_exported_statics: nat,
    pub ffi_exported_statics_mut: nat,
    pub export_attr_plain: nat,
    pub export_attr_unsafe_wrapped: nat,
    pub ptr_decl: Ptrs,
    pub ptr_cast: Ptrs,
    pub ptr_extern: Ptrs,
    pub transmutes: nat,
    pub static_mut_items: nat,
    pub extern_static_mut_items: nat,
    pub extern_blocks: nat,
    pub extern_fn_decls: nat,
    pub macro_rules_defs: nat,
    pub macro_body_unsafe_tokens: nat,
    pub macro_body_ptr_tokens: nat,
}

pub open spec fn zero_tally() -> Tally {
    Tally {
        unsafe_fns: 0,
        unsafe_blocks: 0,
        unsafe_impls: 0,
        unsafe_traits: 0,
        ffi_exported_fns: 0,
        ffi_exported_unsafe: 0,
        ffi_exported_raw_ptr: 0,
        ffi_exported_raw_ptr_direct: 0,
        ffi_exported_statics: 0,
        ffi_exported_statics_mut: 0,
        export_attr_plain: 0,
        export_attr_unsafe_wrapped: 0,
        ptr_decl: pointers::no_ptrs(),
        ptr_cast: pointers::no_ptrs(),
        ptr_extern: pointers::no_ptrs(),
        transmutes: 0,
        static_mut_items: 0,
        extern_static_mut_items: 0,
        extern_blocks: 0,
        extern_fn_decls: 0,
        macro_rules_defs: 0,
        macro_body_unsafe_tokens: 0,
        macro_body_ptr_tokens: 0,
    }
}

pub open spec fn tally_sum(a: Tally, b: Tally) -> Tally {
    Tally {
        unsafe_fns: a.unsafe_fns + b.unsafe_fns,
        unsafe_blocks: a.unsafe_blocks + b.unsafe_blocks,
        unsafe_impls: a.unsafe_impls + b.unsafe_impls,
        unsafe_traits: a.unsafe_traits + b.unsafe_traits,
        ffi_exported_fns: a.ffi_exported_fns + b.ffi_exported_fns,
        ffi_exported_unsafe: a.ffi_exported_unsafe + b.ffi_exported_unsafe,
        ffi_exported_raw_ptr: a.ffi_exported_raw_ptr + b.ffi_exported_raw_ptr,
        ffi_exported_raw_ptr_direct: a.ffi_exported_raw_ptr_direct + b.ffi_exported_raw_ptr_direct,
        ffi_exported_statics: a.ffi_exported_statics + b.ffi_exported_statics,
        ffi_exported_statics_mut: a.ffi_exported_statics_mut + b.ffi_exported_statics_mut,
        export_attr_plain: a.export_attr_plain + b.export_attr_plain,
        export_attr_unsafe_wrapped: a.export_attr_unsafe_wrapped + b.export_attr_unsafe_wrapped,
        ptr_decl: pointers::ptrs_sum(a.ptr_decl, b.ptr_decl),
        ptr_cast: pointers::ptrs_sum(a.ptr_cast, b.ptr_cast),
        ptr_extern: pointers::ptrs_sum(a.ptr_extern, b.ptr_extern),
        transmutes: a.transmutes + b.transmutes,
        static_mut_items: a.static_mut_items + b.static_mut_items,
        extern_static_mut_items: a.extern_static_mut_items + b.extern_static_mut_items,
        extern_blocks: a.extern_blocks + b.extern_blocks,
        extern_fn_decls: a.extern_fn_decls + b.extern_fn_decls,
        macro_rules_defs: a.macro_rules_defs + b.macro_rules_defs,
        macro_body_unsafe_tokens: a.macro_body_unsafe_tokens + b.macro_body_unsafe_tokens,
        macro_body_ptr_tokens: a.macro_body_ptr_tokens + b.macro_body_ptr_tokens,
    }
}

pub open spec fn one_if(b: bool) -> nat {
    if b {
        1
    } else {
        0
    }
}

/// What a declaration of type `ty` adds: inside a foreign block its pointers are
/// C's own, outside they are the translation's.
pub open spec fn decl_tally(ty: TyView, aliases: Aliases, foreign: bool) -> Tally {
    if foreign {
        Tally { ptr_extern: pointers::ptrs_in(ty, aliases), ..zero_tally() }
    } else {
        Tally { ptr_decl: pointers::ptrs_in(ty, aliases), ..zero_tally() }
    }
}

/// The `unsafe` identifiers and the `*` characters in a token tree.
pub open spec fn soup_in(t: TokView) -> (nat, nat)
    decreases t,
{
    match t {
        TokView::Group(_, _, inner) => soup_in_all(inner),
        TokView::Ident(s, _) => (one_if(s == "unsafe"@), 0),
        TokView::Punct(c, _) => (0, one_if(c == '*')),
        TokView::Literal(_) => (0, 0),
    }
}

pub open spec fn soup_in_all(ts: Seq<TokView>) -> (nat, nat)
    decreases ts,
{
    if ts.len() == 0 {
        (0, 0)
    } else {
        let (u, p) = soup_in_all(ts.subrange(0, ts.len() - 1));
        let (v, q) = soup_in(ts[ts.len() - 1]);
        (u + v, p + q)
    }
}

/// What one event adds to the counters.
pub open spec fn event_tally(e: EventView, aliases: Aliases, foreign: bool) -> Tally {
    match e {
        EventView::Function(attrs, token, _, inputs, output) => {
            let exported = is_exported(attrs);
            Tally {
                export_attr_plain: plain_exports(attrs),
                export_attr_unsafe_wrapped: wrapped_exports(attrs),
                ffi_exported_fns: one_if(exported),
                ffi_exported_unsafe: one_if(exported && token is Some),
                ffi_exported_raw_ptr: one_if(exported && sig_exposes(inputs, output, aliases)),
                ffi_exported_raw_ptr_direct: one_if(
                    exported && sig_exposes_directly(inputs, output, aliases),
                ),
                unsafe_fns: one_if(token is Some),
                ..zero_tally()
            }
        },
        EventView::Method(token, _) => Tally { unsafe_fns: one_if(token is Some), ..zero_tally() },
        EventView::UnsafeBlock(_, _) => Tally { unsafe_blocks: 1, ..zero_tally() },
        EventView::Impl(token, _) => Tally { unsafe_impls: one_if(token is Some), ..zero_tally() },
        EventView::Trait(token, _) => Tally {
            unsafe_traits: one_if(token is Some),
            ..zero_tally()
        },
        EventView::Static(attrs, mutable, ty) => {
            let exported = is_exported(attrs);
            tally_sum(
                decl_tally(ty, aliases, foreign),
                Tally {
                    export_attr_plain: plain_exports(attrs),
                    export_attr_unsafe_wrapped: wrapped_exports(attrs),
                    static_mut_items: one_if(mutable),
                    ffi_exported_statics: one_if(exported),
                    ffi_exported_statics_mut: one_if(exported && mutable),
                    ..zero_tally()
                },
            )
        },
        EventView::Const(ty) => decl_tally(ty, aliases, foreign),
        EventView::Alias(_, ty) => decl_tally(ty, aliases, foreign),
        EventView::Field(ty) => decl_tally(ty, aliases, foreign),
        EventView::Typed(ty) => decl_tally(ty, aliases, foreign),
        EventView::Return(ty) => match ty {
            Some(t) => decl_tally(t, aliases, foreign),
            None => zero_tally(),
        },
        EventView::Cast(ty) => Tally { ptr_cast: pointers::ptrs_in(ty, aliases), ..zero_tally() },
        EventView::ForeignOpen => Tally { extern_blocks: 1, ..zero_tally() },
        EventView::ForeignClose => zero_tally(),
        EventView::ForeignFn => Tally { extern_fn_decls: 1, ..zero_tally() },
        EventView::ForeignStatic(mutable, ty) => tally_sum(
            decl_tally(ty, aliases, foreign),
            Tally { extern_static_mut_items: one_if(mutable), ..zero_tally() },
        ),
        EventView::Call(path) => Tally {
            transmutes: one_if(
                path is Some && path->0.len() > 0 && text::has_prefix(
                    path->0.last(),
                    "transmute"@,
                ),
            ),
            ..zero_tally()
        },
        EventView::Macro(name, tokens) => if name is Some && name->0 == "macro_rules"@ {
            Tally {
                macro_rules_defs: 1,
                macro_body_unsafe_tokens: soup_in_all(tokens).0,
                macro_body_ptr_tokens: soup_in_all(tokens).1,
                ..zero_tally()
            }
        } else {
            zero_tally()
        },
    }
}

/// How many foreign blocks are open after `events`.
pub open spec fn foreign_depth(events: Seq<EventView>) -> nat
    decreases events.len(),
{
    if events.len() == 0 {
        0
    } else {
        let d = foreign_depth(events.drop_last());
        match events.last() {
            EventView::ForeignOpen => d + 1,
            EventView::ForeignClose => if d > 0 {
                (d - 1) as nat
            } else {
                0
            },
            _ => d,
        }
    }
}

/// The counters of a file.
pub open spec fn tally(events: Seq<EventView>, aliases: Aliases) -> Tally
    decreases events.len(),
{
    if events.len() == 0 {
        zero_tally()
    } else {
        let before = events.drop_last();
        tally_sum(
            tally(before, aliases),
            event_tally(events.last(), aliases, foreign_depth(before) > 0),
        )
    }
}

// ── Lines ────────────────────────────────────────────────────────────────

/// What makes a region unsafe.
#[derive(Debug, Copy, Clone, PartialEq, Eq, Structural)]
pub enum UnsafeKind {
    Fn,
    Block,
    Other,
}

/// The lines of the unsafe region that an event opens. It runs from the
/// `unsafe` token, never from the item's attributes, to the closing brace; a
/// method without a body is its token alone.
pub open spec fn unsafe_region(e: EventView) -> Option<(usize, usize, UnsafeKind)> {
    match e {
        EventView::Function(_, Some(token), end, _, _) => Some((token.first, end, UnsafeKind::Fn)),
        EventView::Method(Some(token), end) => Some(
            (
                token.first,
                match end {
                    Some(line) => line,
                    None => token.last,
                },
                UnsafeKind::Fn,
            ),
        ),
        EventView::UnsafeBlock(token, end) => Some((token.first, end, UnsafeKind::Block)),
        EventView::Impl(Some(token), end) => Some((token.first, end, UnsafeKind::Other)),
        EventView::Trait(Some(token), end) => Some((token.first, end, UnsafeKind::Other)),
        _ => None,
    }
}

/// Whether `line` is in an unsafe region of `e`, of the given kind if one is
/// given.
pub open spec fn covers(e: EventView, line: usize, kind: Option<UnsafeKind>) -> bool {
    match unsafe_region(e) {
        Some((from, to, k)) => from > 0 && from <= line <= to && (kind is None || kind->0 == k),
        None => false,
    }
}

pub open spec fn is_unsafe_line(
    events: Seq<EventView>,
    line: usize,
    kind: Option<UnsafeKind>,
) -> bool {
    exists|i: int| 0 <= i < events.len() && covers(#[trigger] events[i], line, kind)
}

/// Whether a token of `t` stands on `line`.
pub open spec fn touches(t: TokView, line: usize) -> bool
    decreases t,
{
    match t {
        TokView::Group(open, close, inner) => (open > 0 && line == open) || (close > 0 && line
            == close) || any_touches(inner, line),
        TokView::Ident(_, l) => spans(l, line),
        TokView::Punct(_, l) => spans(l, line),
        TokView::Literal(l) => spans(l, line),
    }
}

pub open spec fn any_touches(ts: Seq<TokView>, line: usize) -> bool
    decreases ts,
{
    ts.len() > 0 && (any_touches(ts.subrange(0, ts.len() - 1), line) || touches(
        ts[ts.len() - 1],
        line,
    ))
}

pub open spec fn spans(l: Lines, line: usize) -> bool {
    l.first > 0 && (line == l.first || l.first <= line <= l.last)
}

/// The lines of a file that carry at least one token.
pub open spec fn code_line_set(file: RustFileView) -> Set<usize> {
    Set::new(|line: usize| any_touches(file.tokens, line))
}

/// The code lines of a file inside an unsafe region.
pub open spec fn unsafe_line_set(file: RustFileView, kind: Option<UnsafeKind>) -> Set<usize> {
    Set::new(
        |line: usize|
            any_touches(file.tokens, line) && is_unsafe_line(file.events, line, kind),
    )
}

// ── Counting over a file, executable ─────────────────────────────────────

/// Raw per-file counters.
#[derive(Debug, Clone, Copy, PartialEq, Eq, Structural)]
pub struct RawCounts {
    pub unsafe_fns: usize,
    pub unsafe_blocks: usize,
    pub unsafe_impls: usize,
    pub unsafe_traits: usize,
    pub ffi_exported_fns: usize,
    pub ffi_exported_unsafe: usize,
    pub ffi_exported_raw_ptr: usize,
    pub ffi_exported_raw_ptr_direct: usize,
    pub ffi_exported_statics: usize,
    pub ffi_exported_statics_mut: usize,
    pub export_attr_plain: usize,
    pub export_attr_unsafe_wrapped: usize,
    pub ptr_decl: PtrCounts,
    pub ptr_cast: PtrCounts,
    pub ptr_extern: PtrCounts,
    pub transmutes: usize,
    pub static_mut_items: usize,
    pub extern_static_mut_items: usize,
    pub extern_blocks: usize,
    pub extern_fn_decls: usize,
    pub macro_rules_defs: usize,
    pub macro_body_unsafe_tokens: usize,
    pub macro_body_ptr_tokens: usize,
}

impl RawCounts {
    /// Whether these are the counts `t`, saturated.
    pub open spec fn counts(&self, t: Tally) -> bool {
        &&& self.unsafe_fns == num::sat(t.unsafe_fns as int)
        &&& self.unsafe_blocks == num::sat(t.unsafe_blocks as int)
        &&& self.unsafe_impls == num::sat(t.unsafe_impls as int)
        &&& self.unsafe_traits == num::sat(t.unsafe_traits as int)
        &&& self.ffi_exported_fns == num::sat(t.ffi_exported_fns as int)
        &&& self.ffi_exported_unsafe == num::sat(t.ffi_exported_unsafe as int)
        &&& self.ffi_exported_raw_ptr == num::sat(t.ffi_exported_raw_ptr as int)
        &&& self.ffi_exported_raw_ptr_direct == num::sat(t.ffi_exported_raw_ptr_direct as int)
        &&& self.ffi_exported_statics == num::sat(t.ffi_exported_statics as int)
        &&& self.ffi_exported_statics_mut == num::sat(t.ffi_exported_statics_mut as int)
        &&& self.export_attr_plain == num::sat(t.export_attr_plain as int)
        &&& self.export_attr_unsafe_wrapped == num::sat(t.export_attr_unsafe_wrapped as int)
        &&& self.ptr_decl.counts(t.ptr_decl)
        &&& self.ptr_cast.counts(t.ptr_cast)
        &&& self.ptr_extern.counts(t.ptr_extern)
        &&& self.transmutes == num::sat(t.transmutes as int)
        &&& self.static_mut_items == num::sat(t.static_mut_items as int)
        &&& self.extern_static_mut_items == num::sat(t.extern_static_mut_items as int)
        &&& self.extern_blocks == num::sat(t.extern_blocks as int)
        &&& self.extern_fn_decls == num::sat(t.extern_fn_decls as int)
        &&& self.macro_rules_defs == num::sat(t.macro_rules_defs as int)
        &&& self.macro_body_unsafe_tokens == num::sat(t.macro_body_unsafe_tokens as int)
        &&& self.macro_body_ptr_tokens == num::sat(t.macro_body_ptr_tokens as int)
    }

    pub(crate) fn zero() -> (r: RawCounts)
        ensures
            r.counts(zero_tally()),
    {
        RawCounts {
            unsafe_fns: 0,
            unsafe_blocks: 0,
            unsafe_impls: 0,
            unsafe_traits: 0,
            ffi_exported_fns: 0,
            ffi_exported_unsafe: 0,
            ffi_exported_raw_ptr: 0,
            ffi_exported_raw_ptr_direct: 0,
            ffi_exported_statics: 0,
            ffi_exported_statics_mut: 0,
            export_attr_plain: 0,
            export_attr_unsafe_wrapped: 0,
            ptr_decl: PtrCounts::default(),
            ptr_cast: PtrCounts::default(),
            ptr_extern: PtrCounts::default(),
            transmutes: 0,
            static_mut_items: 0,
            extern_static_mut_items: 0,
            extern_blocks: 0,
            extern_fn_decls: 0,
            macro_rules_defs: 0,
            macro_body_unsafe_tokens: 0,
            macro_body_ptr_tokens: 0,
        }
    }

    /// The counts of two parts taken together.
    pub(crate) fn plus(&self, other: &RawCounts) -> (r: RawCounts)
        ensures
            r.unsafe_fns == num::sat(self.unsafe_fns + other.unsafe_fns),
            r.unsafe_blocks == num::sat(self.unsafe_blocks + other.unsafe_blocks),
            r.unsafe_impls == num::sat(self.unsafe_impls + other.unsafe_impls),
            r.unsafe_traits == num::sat(self.unsafe_traits + other.unsafe_traits),
            r.ffi_exported_fns == num::sat(self.ffi_exported_fns + other.ffi_exported_fns),
            r.ffi_exported_unsafe == num::sat(self.ffi_exported_unsafe + other.ffi_exported_unsafe),
            r.ffi_exported_raw_ptr == num::sat(self.ffi_exported_raw_ptr + other.ffi_exported_raw_ptr),
            r.ffi_exported_raw_ptr_direct == num::sat(self.ffi_exported_raw_ptr_direct + other.ffi_exported_raw_ptr_direct),
            r.ffi_exported_statics == num::sat(self.ffi_exported_statics + other.ffi_exported_statics),
            r.ffi_exported_statics_mut == num::sat(self.ffi_exported_statics_mut + other.ffi_exported_statics_mut),
            r.export_attr_plain == num::sat(self.export_attr_plain + other.export_attr_plain),
            r.export_attr_unsafe_wrapped == num::sat(self.export_attr_unsafe_wrapped + other.export_attr_unsafe_wrapped),
            r.ptr_decl.direct_const == num::sat(self.ptr_decl.direct_const + other.ptr_decl.direct_const),
            r.ptr_decl.direct_mut == num::sat(self.ptr_decl.direct_mut + other.ptr_decl.direct_mut),
            r.ptr_decl.alias_const == num::sat(self.ptr_decl.alias_const + other.ptr_decl.alias_const),
            r.ptr_decl.alias_mut == num::sat(self.ptr_decl.alias_mut + other.ptr_decl.alias_mut),
            r.ptr_cast.direct_const == num::sat(self.ptr_cast.direct_const + other.ptr_cast.direct_const),
            r.ptr_cast.direct_mut == num::sat(self.ptr_cast.direct_mut + other.ptr_cast.direct_mut),
            r.ptr_cast.alias_const == num::sat(self.ptr_cast.alias_const + other.ptr_cast.alias_const),
            r.ptr_cast.alias_mut == num::sat(self.ptr_cast.alias_mut + other.ptr_cast.alias_mut),
            r.ptr_extern.direct_const == num::sat(self.ptr_extern.direct_const + other.ptr_extern.direct_const),
            r.ptr_extern.direct_mut == num::sat(self.ptr_extern.direct_mut + other.ptr_extern.direct_mut),
            r.ptr_extern.alias_const == num::sat(self.ptr_extern.alias_const + other.ptr_extern.alias_const),
            r.ptr_extern.alias_mut == num::sat(self.ptr_extern.alias_mut + other.ptr_extern.alias_mut),
            r.transmutes == num::sat(self.transmutes + other.transmutes),
            r.static_mut_items == num::sat(self.static_mut_items + other.static_mut_items),
            r.extern_static_mut_items == num::sat(self.extern_static_mut_items + other.extern_static_mut_items),
            r.extern_blocks == num::sat(self.extern_blocks + other.extern_blocks),
            r.extern_fn_decls == num::sat(self.extern_fn_decls + other.extern_fn_decls),
            r.macro_rules_defs == num::sat(self.macro_rules_defs + other.macro_rules_defs),
            r.macro_body_unsafe_tokens == num::sat(self.macro_body_unsafe_tokens + other.macro_body_unsafe_tokens),
            r.macro_body_ptr_tokens == num::sat(self.macro_body_ptr_tokens + other.macro_body_ptr_tokens),
    {
        let mut ptr_decl = self.ptr_decl;
        let mut ptr_cast = self.ptr_cast;
        let mut ptr_extern = self.ptr_extern;
        pointers::add_ptr(&mut ptr_decl, &other.ptr_decl);
        pointers::add_ptr(&mut ptr_cast, &other.ptr_cast);
        pointers::add_ptr(&mut ptr_extern, &other.ptr_extern);
        RawCounts {
            unsafe_fns: self.unsafe_fns.saturating_add(other.unsafe_fns),
            unsafe_blocks: self.unsafe_blocks.saturating_add(other.unsafe_blocks),
            unsafe_impls: self.unsafe_impls.saturating_add(other.unsafe_impls),
            unsafe_traits: self.unsafe_traits.saturating_add(other.unsafe_traits),
            ffi_exported_fns: self.ffi_exported_fns.saturating_add(other.ffi_exported_fns),
            ffi_exported_unsafe: self.ffi_exported_unsafe.saturating_add(other.ffi_exported_unsafe),
            ffi_exported_raw_ptr: self.ffi_exported_raw_ptr.saturating_add(other.ffi_exported_raw_ptr),
            ffi_exported_raw_ptr_direct: self.ffi_exported_raw_ptr_direct.saturating_add(other.ffi_exported_raw_ptr_direct),
            ffi_exported_statics: self.ffi_exported_statics.saturating_add(other.ffi_exported_statics),
            ffi_exported_statics_mut: self.ffi_exported_statics_mut.saturating_add(other.ffi_exported_statics_mut),
            export_attr_plain: self.export_attr_plain.saturating_add(other.export_attr_plain),
            export_attr_unsafe_wrapped: self.export_attr_unsafe_wrapped.saturating_add(other.export_attr_unsafe_wrapped),
            ptr_decl,
            ptr_cast,
            ptr_extern,
            transmutes: self.transmutes.saturating_add(other.transmutes),
            static_mut_items: self.static_mut_items.saturating_add(other.static_mut_items),
            extern_static_mut_items: self.extern_static_mut_items.saturating_add(other.extern_static_mut_items),
            extern_blocks: self.extern_blocks.saturating_add(other.extern_blocks),
            extern_fn_decls: self.extern_fn_decls.saturating_add(other.extern_fn_decls),
            macro_rules_defs: self.macro_rules_defs.saturating_add(other.macro_rules_defs),
            macro_body_unsafe_tokens: self.macro_body_unsafe_tokens.saturating_add(other.macro_body_unsafe_tokens),
            macro_body_ptr_tokens: self.macro_body_ptr_tokens.saturating_add(other.macro_body_ptr_tokens),
        }
    }
}

pub proof fn counts_sum(a: RawCounts, x: Tally, b: RawCounts, y: Tally, r: RawCounts)
    requires
        a.counts(x),
        b.counts(y),
        r.unsafe_fns == num::sat(a.unsafe_fns + b.unsafe_fns),
        r.unsafe_blocks == num::sat(a.unsafe_blocks + b.unsafe_blocks),
        r.unsafe_impls == num::sat(a.unsafe_impls + b.unsafe_impls),
        r.unsafe_traits == num::sat(a.unsafe_traits + b.unsafe_traits),
        r.ffi_exported_fns == num::sat(a.ffi_exported_fns + b.ffi_exported_fns),
        r.ffi_exported_unsafe == num::sat(a.ffi_exported_unsafe + b.ffi_exported_unsafe),
        r.ffi_exported_raw_ptr == num::sat(a.ffi_exported_raw_ptr + b.ffi_exported_raw_ptr),
        r.ffi_exported_raw_ptr_direct == num::sat(a.ffi_exported_raw_ptr_direct + b.ffi_exported_raw_ptr_direct),
        r.ffi_exported_statics == num::sat(a.ffi_exported_statics + b.ffi_exported_statics),
        r.ffi_exported_statics_mut == num::sat(a.ffi_exported_statics_mut + b.ffi_exported_statics_mut),
        r.export_attr_plain == num::sat(a.export_attr_plain + b.export_attr_plain),
        r.export_attr_unsafe_wrapped == num::sat(a.export_attr_unsafe_wrapped + b.export_attr_unsafe_wrapped),
        r.ptr_decl.direct_const == num::sat(a.ptr_decl.direct_const + b.ptr_decl.direct_const),
        r.ptr_decl.direct_mut == num::sat(a.ptr_decl.direct_mut + b.ptr_decl.direct_mut),
        r.ptr_decl.alias_const == num::sat(a.ptr_decl.alias_const + b.ptr_decl.alias_const),
        r.ptr_decl.alias_mut == num::sat(a.ptr_decl.alias_mut + b.ptr_decl.alias_mut),
        r.ptr_cast.direct_const == num::sat(a.ptr_cast.direct_const + b.ptr_cast.direct_const),
        r.ptr_cast.direct_mut == num::sat(a.ptr_cast.direct_mut + b.ptr_cast.direct_mut),
        r.ptr_cast.alias_const == num::sat(a.ptr_cast.alias_const + b.ptr_cast.alias_const),
        r.ptr_cast.alias_mut == num::sat(a.ptr_cast.alias_mut + b.ptr_cast.alias_mut),
        r.ptr_extern.direct_const == num::sat(a.ptr_extern.direct_const + b.ptr_extern.direct_const),
        r.ptr_extern.direct_mut == num::sat(a.ptr_extern.direct_mut + b.ptr_extern.direct_mut),
        r.ptr_extern.alias_const == num::sat(a.ptr_extern.alias_const + b.ptr_extern.alias_const),
        r.ptr_extern.alias_mut == num::sat(a.ptr_extern.alias_mut + b.ptr_extern.alias_mut),
        r.transmutes == num::sat(a.transmutes + b.transmutes),
        r.static_mut_items == num::sat(a.static_mut_items + b.static_mut_items),
        r.extern_static_mut_items == num::sat(a.extern_static_mut_items + b.extern_static_mut_items),
        r.extern_blocks == num::sat(a.extern_blocks + b.extern_blocks),
        r.extern_fn_decls == num::sat(a.extern_fn_decls + b.extern_fn_decls),
        r.macro_rules_defs == num::sat(a.macro_rules_defs + b.macro_rules_defs),
        r.macro_body_unsafe_tokens == num::sat(a.macro_body_unsafe_tokens + b.macro_body_unsafe_tokens),
        r.macro_body_ptr_tokens == num::sat(a.macro_body_ptr_tokens + b.macro_body_ptr_tokens),
    ensures
        r.counts(tally_sum(x, y)),
{
}

fn is_export(name: &str) -> (r: bool)
    ensures
        r == is_export_name(name@),
{
    text::same(name, "no_mangle") || text::same(name, "export_name")
}

fn wraps_export(nested: &Vec<String>) -> (r: bool)
    ensures
        r == exists|i: int|
            0 <= i < text::texts(nested@).len() && is_export_name(
                #[trigger] text::texts(nested@)[i],
            ),
{
    let mut i: usize = 0;
    while i < nested.len()
        invariant
            i <= nested@.len(),
            forall|j: int| 0 <= j < i ==> !is_export_name(#[trigger] text::texts(nested@)[j]),
        decreases nested@.len() - i,
    {
        assert(text::texts(nested@)[i as int] == nested@[i as int]@);
        if is_export(nested[i].as_str()) {
            return true;
        }
        i = i + 1;
    }
    false
}

/// Does this attribute list export the item to the linker? Counts the plain and
/// the `unsafe`-wrapped spelling.
pub fn export_attrs(attrs: &Vec<Attr>) -> (r: (bool, usize, usize))
    ensures
        r.0 == is_exported(rust_syntax::attr_views(attrs@)),
        r.1 == plain_exports(rust_syntax::attr_views(attrs@)),
        r.2 == wrapped_exports(rust_syntax::attr_views(attrs@)),
{
    let mut plain: usize = 0;
    let mut wrapped: usize = 0;
    let ghost views = rust_syntax::attr_views(attrs@);
    let mut i: usize = 0;
    assert(views.take(0) =~= seq![]);
    while i < attrs.len()
        invariant
            i <= attrs@.len(),
            views == rust_syntax::attr_views(attrs@),
            plain <= i,
            wrapped <= i,
            plain == plain_exports(views.take(i as int)),
            wrapped == wrapped_exports(views.take(i as int)),
        decreases attrs@.len() - i,
    {
        let a = &attrs[i];
        assert(views.take(i + 1).drop_last() =~= views.take(i as int));
        assert(views.take(i + 1).last() == a.view());
        assert(a.view().nested == text::texts(a.nested@));
        match &a.name {
            Some(name) => {
                if is_export(name.as_str()) {
                    plain = plain + 1;
                    proof {
                        reveal_strlit("unsafe");
                        reveal_strlit("no_mangle");
                        reveal_strlit("export_name");
                        assert("unsafe"@.len() != "no_mangle"@.len());
                        assert("unsafe"@.len() != "export_name"@.len());
                    }
                } else if text::same(name.as_str(), "unsafe") && wraps_export(&a.nested) {
                    wrapped = wrapped + 1;
                }
            },
            None => {},
        }
        i = i + 1;
    }
    assert(views.take(i as int) =~= views);
    (plain > 0 || wrapped > 0, plain, wrapped)
}

fn any_ptr(p: &PtrCounts) -> (r: bool)
    ensures
        forall|q: Ptrs| #[trigger] p.counts(q) ==> r == (q.dc + q.dm + q.ac + q.am > 0),
{
    p.direct_const > 0 || p.direct_mut > 0 || p.alias_const > 0 || p.alias_mut > 0
}

fn any_direct_ptr(p: &PtrCounts) -> (r: bool)
    ensures
        forall|q: Ptrs| #[trigger] p.counts(q) ==> r == (q.dc + q.dm > 0),
{
    p.direct_const > 0 || p.direct_mut > 0
}

/// Whether a signature exposes a raw pointer, with and without aliases.
pub fn sig_exposes_ptr(
    inputs: &Vec<Option<Ty>>,
    output: &Option<Ty>,
    aliases: &AliasMap,
) -> (r: (bool, bool))
    requires
        aliases.wf(),
    ensures
        r.0 == sig_exposes(
            rust_syntax::opt_ty_views(inputs@),
            rust_syntax::opt_ty_view(*output),
            aliases.view(),
        ),
        r.1 == sig_exposes_directly(
            rust_syntax::opt_ty_views(inputs@),
            rust_syntax::opt_ty_view(*output),
            aliases.view(),
        ),
{
    let mut resolved = false;
    let mut direct = false;
    let ghost views = rust_syntax::opt_ty_views(inputs@);
    let mut i: usize = 0;
    while i < inputs.len()
        invariant
            i <= inputs@.len(),
            aliases.wf(),
            views == rust_syntax::opt_ty_views(inputs@),
            resolved == exists|j: int|
                0 <= j < i && (#[trigger] views[j]) is Some && exposes(views[j]->0, aliases.view()),
            direct == exists|j: int|
                0 <= j < i && (#[trigger] views[j]) is Some && exposes_directly(
                    views[j]->0,
                    aliases.view(),
                ),
        decreases inputs@.len() - i,
    {
        assert(views[i as int] == rust_syntax::opt_ty_view(inputs@[i as int]));
        if let Some(t) = &inputs[i] {
            let p = pointers::count_ptrs_in_type(t, aliases);
            resolved = any_ptr(&p) || resolved;
            direct = any_direct_ptr(&p) || direct;
        }
        i = i + 1;
    }
    if let Some(t) = output {
        let p = pointers::count_ptrs_in_type(t, aliases);
        resolved = any_ptr(&p) || resolved;
        direct = any_direct_ptr(&p) || direct;
    }
    (resolved, direct)
}

fn to_one(b: bool) -> (r: usize)
    ensures
        r == one_if(b),
{
    if b {
        1
    } else {
        0
    }
}

fn count_decl(ty: &Ty, aliases: &AliasMap, foreign: bool) -> (r: RawCounts)
    requires
        aliases.wf(),
    ensures
        r.counts(decl_tally(ty.view(), aliases.view(), foreign)),
{
    let p = pointers::count_ptrs_in_type(ty, aliases);
    let mut out = RawCounts::zero();
    if foreign {
        out.ptr_extern = p;
    } else {
        out.ptr_decl = p;
    }
    out
}

/// Counts the `unsafe` identifiers and `*` characters of a macro body, which is
/// token soup to the syntax tree.
fn count_macro_tokens(ts: &Vec<Tok>) -> (r: (usize, usize))
    ensures
        r.0 == num::sat(soup_in_all(rust_syntax::tok_views(ts@)).0 as int),
        r.1 == num::sat(soup_in_all(rust_syntax::tok_views(ts@)).1 as int),
    decreases ts,
{
    let ghost views = rust_syntax::tok_views(ts@);
    let mut u: usize = 0;
    let mut p: usize = 0;
    let mut i: usize = 0;
    assert(views.subrange(0, 0) =~= seq![]);
    while i < ts.len()
        invariant
            i <= ts@.len(),
            views == rust_syntax::tok_views(ts@),
            u == num::sat(soup_in_all(views.subrange(0, i as int)).0 as int),
            p == num::sat(soup_in_all(views.subrange(0, i as int)).1 as int),
        decreases ts@.len() - i,
    {
        let ghost next = views.subrange(0, i + 1);
        assert(next.subrange(0, i as int) =~= views.subrange(0, i as int));
        assert(next[i as int] == ts@[i as int].view());
        let ghost here = soup_in(ts@[i as int].view());
        assert(soup_in_all(next) == (
            soup_in_all(views.subrange(0, i as int)).0 + here.0,
            soup_in_all(views.subrange(0, i as int)).1 + here.1,
        ));
        match &ts[i] {
            Tok::Group(a, b, inner) => {
                proof {
                    rust_syntax::group_view(*a, *b, *inner);
                    assert(decreases_to!(ts => ts@));
                    assert(decreases_to!(ts@ => ts@[i as int]));
                    assert(decreases_to!(ts@[i as int] => ts@[i as int]->Group_2));
                }
                let (v, q) = count_macro_tokens(inner);
                u = u.saturating_add(v);
                p = p.saturating_add(q);
            },
            Tok::Ident(s, _) => {
                if text::same(s.as_str(), "unsafe") {
                    u = u.saturating_add(1);
                }
            },
            Tok::Punct(c, _) => {
                if *c == '*' {
                    p = p.saturating_add(1);
                }
            },
            Tok::Literal(_) => {},
        }
        i = i + 1;
    }
    assert(views.subrange(0, i as int) =~= views);
    (u, p)
}

/// What one event adds to the counters.
fn count_event(e: &Event, aliases: &AliasMap, foreign: bool) -> (r: RawCounts)
    requires
        aliases.wf(),
    ensures
        r.counts(event_tally(e.view(), aliases.view(), foreign)),
{
    let mut out = RawCounts::zero();
    match e {
        Event::Function(attrs, token, _, inputs, output) => {
            let (exported, plain, wrapped) = export_attrs(attrs);
            let (resolved, direct) = sig_exposes_ptr(inputs, output, aliases);
            out.export_attr_plain = plain;
            out.export_attr_unsafe_wrapped = wrapped;
            out.ffi_exported_fns = to_one(exported);
            out.ffi_exported_unsafe = to_one(exported && token.is_some());
            out.ffi_exported_raw_ptr = to_one(exported && resolved);
            out.ffi_exported_raw_ptr_direct = to_one(exported && direct);
            out.unsafe_fns = to_one(token.is_some());
        },
        Event::Method(token, _) => {
            out.unsafe_fns = to_one(token.is_some());
        },
        Event::UnsafeBlock(_, _) => {
            out.unsafe_blocks = 1;
        },
        Event::Impl(token, _) => {
            out.unsafe_impls = to_one(token.is_some());
        },
        Event::Trait(token, _) => {
            out.unsafe_traits = to_one(token.is_some());
        },
        Event::Static(attrs, mutable, ty) => {
            let (exported, plain, wrapped) = export_attrs(attrs);
            out = count_decl(ty, aliases, foreign);
            out.export_attr_plain = plain;
            out.export_attr_unsafe_wrapped = wrapped;
            out.static_mut_items = to_one(*mutable);
            out.ffi_exported_statics = to_one(exported);
            out.ffi_exported_statics_mut = to_one(exported && *mutable);
        },
        Event::Const(ty) => {
            out = count_decl(ty, aliases, foreign);
        },
        Event::Alias(_, ty) => {
            out = count_decl(ty, aliases, foreign);
        },
        Event::Field(ty) => {
            out = count_decl(ty, aliases, foreign);
        },
        Event::Typed(ty) => {
            out = count_decl(ty, aliases, foreign);
        },
        Event::Return(ty) => {
            if let Some(t) = ty {
                out = count_decl(t, aliases, foreign);
            }
        },
        Event::Cast(ty) => {
            out.ptr_cast = pointers::count_ptrs_in_type(ty, aliases);
        },
        Event::ForeignOpen => {
            out.extern_blocks = 1;
        },
        Event::ForeignClose => {},
        Event::ForeignFn => {
            out.extern_fn_decls = 1;
        },
        Event::ForeignStatic(mutable, ty) => {
            out = count_decl(ty, aliases, foreign);
            out.extern_static_mut_items = to_one(*mutable);
        },
        Event::Call(path) => {
            if let Some(segments) = path {
                if segments.len() > 0 {
                    assert(text::texts(segments@).last() == segments@[segments@.len() - 1]@);
                    let last = &segments[segments.len() - 1];
                    out.transmutes = to_one(text::starts_with(last.as_str(), "transmute"));
                }
            }
        },
        Event::Macro(name, tokens) => {
            if let Some(n) = name {
                if text::same(n.as_str(), "macro_rules") {
                    let (u, p) = count_macro_tokens(tokens);
                    out.macro_rules_defs = 1;
                    out.macro_body_unsafe_tokens = u;
                    out.macro_body_ptr_tokens = p;
                }
            }
        },
    }
    out
}

/// The counters of a file.
fn count_events(events: &Vec<Event>, aliases: &AliasMap) -> (r: RawCounts)
    requires
        aliases.wf(),
    ensures
        r.counts(tally(rust_syntax::event_views(events@), aliases.view())),
{
    let ghost views = rust_syntax::event_views(events@);
    let mut out = RawCounts::zero();
    let mut depth: usize = 0;
    let mut i: usize = 0;
    assert(views.take(0) =~= seq![]);
    while i < events.len()
        invariant
            i <= events@.len(),
            aliases.wf(),
            views == rust_syntax::event_views(events@),
            depth <= i,
            depth == foreign_depth(views.take(i as int)),
            out.counts(tally(views.take(i as int), aliases.view())),
        decreases events@.len() - i,
    {
        assert(views.take(i + 1).drop_last() =~= views.take(i as int));
        assert(views.take(i + 1).last() == events@[i as int].view());
        let here = count_event(&events[i], aliases, depth > 0);
        let sum = out.plus(&here);
        proof {
            counts_sum(
                out,
                tally(views.take(i as int), aliases.view()),
                here,
                event_tally(events@[i as int].view(), aliases.view(), depth > 0),
                sum,
            );
        }
        out = sum;
        match &events[i] {
            Event::ForeignOpen => {
                depth = depth + 1;
            },
            Event::ForeignClose => {
                if depth > 0 {
                    depth = depth - 1;
                }
            },
            _ => {},
        }
        i = i + 1;
    }
    assert(views.take(i as int) =~= views);
    out
}

// ── Lines, executable ────────────────────────────────────────────────────

/// Adds a line to a set of lines.
fn insert_line(set: &mut BTreeSet<usize>, line: usize)
    ensures
        final(set)@ == old(set)@.insert(line),
{
    broadcast use vstd::std_specs::btree::group_btree_axioms;
    broadcast use vstd::laws_cmp::group_laws_cmp;

    set.insert(line);
}

/// The number of lines in a set.
pub(crate) fn line_count(set: &BTreeSet<usize>) -> (r: usize)
    ensures
        r == set@.len(),
{
    broadcast use vstd::std_specs::btree::group_btree_axioms;
    broadcast use vstd::laws_cmp::group_laws_cmp;

    set.len()
}

/// Adds the lines that one token stands on.
fn add_token_lines(l: &Lines, out: &mut BTreeSet<usize>)
    requires
        old(out)@.finite(),
    ensures
        final(out)@.finite(),
        forall|line: usize|
            #[trigger] final(out)@.contains(line) == (old(out)@.contains(line) || spans(*l, line)),
{
    if l.first == 0 {
        return ;
    }
    let ghost before = out@;
    let mut line: usize = l.first;
    insert_line(out, line);
    while line < l.last
        invariant
            l.first > 0,
            l.first <= line,
            line == l.first || line <= l.last,
            out@.finite(),
            forall|k: usize|
                #[trigger] out@.contains(k) == (before.contains(k) || l.first <= k <= line),
        decreases l.last - line,
    {
        line = line + 1;
        insert_line(out, line);
    }
}

/// Adds the lines that carry at least one token of `ts`.
///
/// This is the denominator, and it comes from the same token stream the syntax
/// tree was parsed from, so numerator and denominator agree. Blank lines and
/// comments are left out by construction rather than by a heuristic.
fn token_lines(ts: &Vec<Tok>, out: &mut BTreeSet<usize>)
    requires
        old(out)@.finite(),
    ensures
        final(out)@.finite(),
        forall|line: usize|
            #[trigger] final(out)@.contains(line) == (old(out)@.contains(line) || any_touches(
                rust_syntax::tok_views(ts@),
                line,
            )),
    decreases ts,
{
    let ghost before = out@;
    let ghost views = rust_syntax::tok_views(ts@);
    let mut i: usize = 0;
    assert(views.subrange(0, 0) =~= seq![]);
    while i < ts.len()
        invariant
            i <= ts@.len(),
            views == rust_syntax::tok_views(ts@),
            out@.finite(),
            forall|line: usize|
                #[trigger] out@.contains(line) == (before.contains(line) || any_touches(
                    views.subrange(0, i as int),
                    line,
                )),
        decreases ts@.len() - i,
    {
        let ghost next = views.subrange(0, i + 1);
        let ghost so_far = out@;
        assert(next.subrange(0, i as int) =~= views.subrange(0, i as int));
        assert(next[i as int] == ts@[i as int].view());
        match &ts[i] {
            Tok::Group(open, close, inner) => {
                proof {
                    rust_syntax::group_view(*open, *close, *inner);
                    assert(decreases_to!(ts => ts@));
                    assert(decreases_to!(ts@ => ts@[i as int]));
                    assert(decreases_to!(ts@[i as int] => ts@[i as int]->Group_2));
                }
                if *open > 0 {
                    insert_line(out, *open);
                }
                if *close > 0 {
                    insert_line(out, *close);
                }
                token_lines(inner, out);
            },
            Tok::Ident(_, l) => add_token_lines(l, out),
            Tok::Punct(_, l) => add_token_lines(l, out),
            Tok::Literal(l) => add_token_lines(l, out),
        }
        assert forall|line: usize| #[trigger] out@.contains(line) == (before.contains(line) || any_touches(next, line)) by {
            assert(out@.contains(line) == (so_far.contains(line) || touches(ts@[i as int].view(), line)));
        }
        i = i + 1;
    }
    assert(views.subrange(0, i as int) =~= views);
}

/// The unsafe region that an event opens.
fn region_of(e: &Event) -> (r: Option<(usize, usize, UnsafeKind)>)
    ensures
        r == unsafe_region(e.view()),
{
    match e {
        Event::Function(_, Some(token), end, _, _) => Some((token.first, *end, UnsafeKind::Fn)),
        Event::Method(Some(token), end) => Some(
            (
                token.first,
                match end {
                    Some(line) => *line,
                    None => token.last,
                },
                UnsafeKind::Fn,
            ),
        ),
        Event::UnsafeBlock(token, end) => Some((token.first, *end, UnsafeKind::Block)),
        Event::Impl(Some(token), end) => Some((token.first, *end, UnsafeKind::Other)),
        Event::Trait(Some(token), end) => Some((token.first, *end, UnsafeKind::Other)),
        _ => None,
    }
}

/// The unsafe regions of a file, in the order of its events.
fn regions_of(events: &Vec<Event>) -> (r: Vec<(usize, usize, UnsafeKind)>)
    ensures
        forall|line: usize, kind: Option<UnsafeKind>|
            #[trigger] is_unsafe_line(rust_syntax::event_views(events@), line, kind)
                == any_region_covers(r@, line, kind),
{
    let ghost views = rust_syntax::event_views(events@);
    let mut out: Vec<(usize, usize, UnsafeKind)> = Vec::new();
    let mut i: usize = 0;
    while i < events.len()
        invariant
            i <= events@.len(),
            views == rust_syntax::event_views(events@),
            forall|k: int|
                #![trigger out@[k]]
                0 <= k < out@.len() ==> exists|j: int|
                    0 <= j < i && unsafe_region(#[trigger] views[j]) == Some(out@[k]),
            forall|j: int|
                #![trigger views[j]]
                0 <= j < i && unsafe_region(views[j]) is Some ==> exists|k: int|
                    0 <= k < out@.len() && #[trigger] out@[k] == unsafe_region(views[j])->0,
        decreases events@.len() - i,
    {
        let ghost before = out@;
        assert(views[i as int] == events@[i as int].view());
        if let Some(region) = region_of(&events[i]) {
            out.push(region);
            assert(out@[out@.len() - 1] == region);
            assert forall|j: int|
                #![trigger views[j]]
                0 <= j < i + 1 && unsafe_region(views[j]) is Some implies exists|k: int|
                0 <= k < out@.len() && #[trigger] out@[k] == unsafe_region(views[j])->0 by {
                if j < i {
                    let k = choose|k: int|
                        0 <= k < before.len() && #[trigger] before[k] == unsafe_region(views[j])->0;
                    assert(out@[k] == before[k]);
                }
            }
            assert forall|k: int| #![trigger out@[k]] 0 <= k < out@.len() implies exists|j: int|
                0 <= j < i + 1 && unsafe_region(#[trigger] views[j]) == Some(out@[k]) by {
                if k < before.len() {
                    assert(out@[k] == before[k]);
                    let j = choose|j: int|
                        0 <= j < i && unsafe_region(#[trigger] views[j]) == Some(before[k]);
                    assert(unsafe_region(views[j]) == Some(out@[k]));
                } else {
                    assert(unsafe_region(views[i as int]) == Some(out@[k]));
                }
            }
        }
        i = i + 1;
    }
    proof {
        assert forall|line: usize, kind: Option<UnsafeKind>|
            #[trigger] is_unsafe_line(views, line, kind) == any_region_covers(
                out@,
                line,
                kind,
            ) by {
            if is_unsafe_line(views, line, kind) {
                let j = choose|j: int| 0 <= j < views.len() && covers(#[trigger] views[j], line, kind);
                let k = choose|k: int|
                    0 <= k < out@.len() && #[trigger] out@[k] == unsafe_region(views[j])->0;
                assert(region_covers(out@[k], line, kind));
            }
            if any_region_covers(out@, line, kind) {
                let k = choose|k: int|
                    0 <= k < out@.len() && region_covers(#[trigger] out@[k], line, kind);
                let j = choose|j: int|
                    0 <= j < views.len() && unsafe_region(#[trigger] views[j]) == Some(out@[k]);
                assert(covers(views[j], line, kind));
            }
        }
    }
    out
}

spec fn region_covers(
    r: (usize, usize, UnsafeKind),
    line: usize,
    kind: Option<UnsafeKind>,
) -> bool {
    r.0 > 0 && r.0 <= line <= r.1 && (kind is None || kind->0 == r.2)
}

spec fn any_region_covers(
    v: Seq<(usize, usize, UnsafeKind)>,
    line: usize,
    kind: Option<UnsafeKind>,
) -> bool {
    exists|k: int| 0 <= k < v.len() && region_covers(#[trigger] v[k], line, kind)
}

/// Whether a region of the given kind, if one is given, covers the line.
fn is_covered(
    regions: &Vec<(usize, usize, UnsafeKind)>,
    line: usize,
    kind: Option<UnsafeKind>,
) -> (r: bool)
    ensures
        r == any_region_covers(regions@, line, kind),
{
    let mut k: usize = 0;
    while k < regions.len()
        invariant
            k <= regions@.len(),
            forall|j: int| 0 <= j < k ==> !region_covers(#[trigger] regions@[j], line, kind),
        decreases regions@.len() - k,
    {
        let (from, to, own) = regions[k];
        let fits = match kind {
            Some(wanted) => wanted == own,
            None => true,
        };
        if from > 0 && from <= line && line <= to && fits {
            assert(region_covers(regions@[k as int], line, kind));
            return true;
        }
        k = k + 1;
    }
    false
}

/// One analysed file.
#[derive(Debug)]
pub struct FileMetrics {
    pub code_lines: usize,
    pub unsafe_lines: BTreeSet<usize>,
    pub unsafe_fn_lines: BTreeSet<usize>,
    pub unsafe_block_lines: BTreeSet<usize>,
    pub m: RawCounts,
}

impl FileMetrics {
    /// Whether these are the metrics of `file`.
    pub open spec fn measures(&self, file: RustFileView, aliases: Aliases) -> bool {
        &&& self.code_lines == code_line_set(file).len()
        &&& self.unsafe_lines@ == unsafe_line_set(file, None)
        &&& self.unsafe_fn_lines@ == unsafe_line_set(file, Some(UnsafeKind::Fn))
        &&& self.unsafe_block_lines@ == unsafe_line_set(file, Some(UnsafeKind::Block))
        &&& self.m.counts(tally(file.events, aliases))
    }
}

/// Those of `lines` that a region of the given kind covers.
fn covered_lines(
    lines: &BTreeSet<usize>,
    regions: &Vec<(usize, usize, UnsafeKind)>,
    kind: Option<UnsafeKind>,
) -> (r: BTreeSet<usize>)
    requires
        lines@.finite(),
    ensures
        r@.finite(),
        forall|line: usize|
            #[trigger] r@.contains(line) == (lines@.contains(line) && any_region_covers(
                regions@,
                line,
                kind,
            )),
{
    broadcast use vstd::std_specs::btree::group_btree_axioms;
    broadcast use vstd::laws_cmp::group_laws_cmp;

    let mut out: BTreeSet<usize> = BTreeSet::new();
    for l in it: lines.iter()
        invariant
            out@.finite(),
            forall|line: usize|
                #[trigger] out@.contains(line) ==> lines@.contains(line) && any_region_covers(
                    regions@,
                    line,
                    kind,
                ),
            forall|j: int|
                #![trigger it.seq()[j]]
                0 <= j < it.index() && any_region_covers(regions@, *it.seq()[j], kind)
                    ==> out@.contains(*it.seq()[j]),
    {
        if is_covered(regions, *l, kind) {
            out.insert(*l);
        }
    }
    out
}

/// Analyses one parsed file against a resolved alias map. An unsafe region that
/// covers a blank or comment-only line does not push the numerator past the
/// denominator.
pub fn analyze_parsed(file: &RustFile, aliases: &AliasMap) -> (r: FileMetrics)
    requires
        aliases.wf(),
    ensures
        r.measures(file.view(), aliases.view()),
        r.unsafe_lines@.finite(),
        r.unsafe_fn_lines@.finite(),
        r.unsafe_block_lines@.finite(),
        code_line_set(file.view()).finite(),
{
    let m = count_events(&file.events, aliases);
    let mut lines: BTreeSet<usize> = BTreeSet::new();
    token_lines(&file.tokens, &mut lines);
    let regions = regions_of(&file.events);
    let unsafe_lines = covered_lines(&lines, &regions, None);
    let unsafe_fn_lines = covered_lines(&lines, &regions, Some(UnsafeKind::Fn));
    let unsafe_block_lines = covered_lines(&lines, &regions, Some(UnsafeKind::Block));
    proof {
        let f = file.view();
        assert(lines@ =~= code_line_set(f));
        assert(unsafe_lines@ =~= unsafe_line_set(f, None));
        assert(unsafe_fn_lines@ =~= unsafe_line_set(f, Some(UnsafeKind::Fn)));
        assert(unsafe_block_lines@ =~= unsafe_line_set(f, Some(UnsafeKind::Block)));
    }
    FileMetrics {
        code_lines: line_count(&lines),
        unsafe_lines,
        unsafe_fn_lines,
        unsafe_block_lines,
        m,
    }
}

/// Analyses a single source text, resolving aliases within that text only. Real
/// measurement resolves aliases across a whole scope, because a `type` alias is
/// routinely declared in a different file from its uses.
pub fn analyze_source(src: &str) -> (r: Result<FileMetrics, String>)
    ensures
        (match rust_syntax::parsed_source(src@) {
            Ok(f) => r is Ok && r->Ok_0.measures(f, pointers::pointer_aliases(seq![f])),
            Err(e) => r is Err && r->Err_0@ == e,
        }),
{
    match parse_source(src) {
        Ok(file) => {
            let ghost view = file.view();
            let mut files: Vec<RustFile> = Vec::new();
            files.push(file);
            assert(pointers::file_views(files@) =~= seq![view]);
            let aliases = pointers::collect_pointer_aliases(&files);
            Ok(analyze_parsed(&files[0], &aliases))
        },
        Err(e) => Err(e),
    }
}

} // verus!
