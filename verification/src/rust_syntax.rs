//! What the safety measurement reads of a Rust source file, as plain values.
//!
//! `syn` parses the file and walks it; the functions of this module only turn
//! what it hands out into [`Event`]s, [`Ty`]s and [`Tok`]s, node by node. Every
//! rule about which of them counts for what is in [`crate::safety`].

use proc_macro2::TokenTree;
use std::str::FromStr;
use syn::spanned::Spanned;
use syn::visit::Visit;
use syn::{PathArguments, Type};
use vstd::prelude::*;

verus! {

/// A Rust type, as far as raw pointers can be found in it.
#[derive(Debug)]
pub enum Ty {
    /// `*const T` or, when the flag is set, `*mut T`.
    Ptr(bool, Box<Ty>),
    /// A path, with the type of its `<T as …>` part if it has one.
    Path(Vec<Segment>, Option<Box<Ty>>),
    Reference(Box<Ty>),
    Slice(Box<Ty>),
    Array(Box<Ty>),
    Paren(Box<Ty>),
    Group(Box<Ty>),
    Tuple(Vec<Ty>),
    /// A function pointer type: its inputs and its output.
    BareFn(Vec<Ty>, Option<Box<Ty>>),
    Other,
}

/// One segment of a path. `angle` lists its angle-bracketed arguments, with
/// `None` in place of those that are not types.
#[derive(Debug)]
pub struct Segment {
    pub ident: String,
    pub angle: Option<Vec<Option<Ty>>>,
}

/// An attribute: the identifier that is its path, if it is one, and the
/// identifiers that it lists in parentheses.
#[derive(Debug)]
pub struct Attr {
    pub name: Option<String>,
    pub nested: Vec<String>,
}

/// The lines, counted from 1, that a token stands on.
#[derive(Debug, Clone, Copy, PartialEq, Eq, Structural)]
pub struct Lines {
    pub first: usize,
    pub last: usize,
}

/// A token tree.
#[derive(Debug)]
pub enum Tok {
    /// The lines of the opening and the closing delimiter, and what is between.
    Group(usize, usize, Vec<Tok>),
    Ident(String, Lines),
    Punct(char, Lines),
    Literal(Lines),
}

/// What the walk over a file meets, in order.
#[derive(Debug)]
pub enum Event {
    /// A free function: its attributes, its `unsafe` token, the line its body
    /// ends on, its parameters' types (`None` for a receiver) and its output.
    Function(Vec<Attr>, Option<Lines>, usize, Vec<Option<Ty>>, Option<Ty>),
    /// A method of an impl or a trait: its `unsafe` token and the line its body
    /// ends on, if it has one.
    Method(Option<Lines>, Option<usize>),
    /// An `unsafe` block: its token and the line it ends on.
    UnsafeBlock(Lines, usize),
    /// An impl: its `unsafe` token and the line it ends on.
    Impl(Option<Lines>, usize),
    /// A trait: its `unsafe` token and the line it ends on.
    Trait(Option<Lines>, usize),
    /// A static: its attributes, whether it is `mut`, its type.
    Static(Vec<Attr>, bool, Ty),
    Const(Ty),
    /// `type NAME = TYPE;`
    Alias(String, Ty),
    Field(Ty),
    /// A typed pattern: a parameter or a `let`.
    Typed(Ty),
    Return(Option<Ty>),
    Cast(Ty),
    ForeignOpen,
    ForeignClose,
    ForeignFn,
    ForeignStatic(bool, Ty),
    /// A call of a path, by its segments' identifiers, or of something else.
    Call(Option<Vec<String>>),
    /// A macro in item position: the identifier that is its path, its body.
    Macro(Option<String>, Vec<Tok>),
}

/// A parsed file.
#[derive(Debug)]
pub struct RustFile {
    pub events: Vec<Event>,
    pub tokens: Vec<Tok>,
}

// ── The mathematical values they stand for ───────────────────────────────

pub enum TyView {
    Ptr(bool, Box<TyView>),
    Path(Seq<SegmentView>, Option<Box<TyView>>),
    Reference(Box<TyView>),
    Slice(Box<TyView>),
    Array(Box<TyView>),
    Paren(Box<TyView>),
    Group(Box<TyView>),
    Tuple(Seq<TyView>),
    BareFn(Seq<TyView>, Option<Box<TyView>>),
    Other,
}

pub struct SegmentView {
    pub ident: Seq<char>,
    pub angle: Option<Seq<Option<TyView>>>,
}

pub struct AttrView {
    pub name: Option<Seq<char>>,
    pub nested: Seq<Seq<char>>,
}

pub enum TokView {
    Group(usize, usize, Seq<TokView>),
    Ident(Seq<char>, Lines),
    Punct(char, Lines),
    Literal(Lines),
}

pub enum EventView {
    Function(Seq<AttrView>, Option<Lines>, usize, Seq<Option<TyView>>, Option<TyView>),
    Method(Option<Lines>, Option<usize>),
    UnsafeBlock(Lines, usize),
    Impl(Option<Lines>, usize),
    Trait(Option<Lines>, usize),
    Static(Seq<AttrView>, bool, TyView),
    Const(TyView),
    Alias(Seq<char>, TyView),
    Field(TyView),
    Typed(TyView),
    Return(Option<TyView>),
    Cast(TyView),
    ForeignOpen,
    ForeignClose,
    ForeignFn,
    ForeignStatic(bool, TyView),
    Call(Option<Seq<Seq<char>>>),
    Macro(Option<Seq<char>>, Seq<TokView>),
}

pub struct RustFileView {
    pub events: Seq<EventView>,
    pub tokens: Seq<TokView>,
}

impl Ty {
    pub open spec fn view(&self) -> TyView
        decreases self,
    {
        match *self {
            Ty::Ptr(m, t) => TyView::Ptr(m, Box::new(t.view())),
            Ty::Path(segs, q) => TyView::Path(
                Seq::new(
                    segs@.len(),
                    |i: int|
                        if 0 <= i < segs@.len() {
                            segs@[i].view()
                        } else {
                            SegmentView { ident: seq![], angle: None }
                        },
                ),
                match q {
                    Some(t) => Some(Box::new(t.view())),
                    None => None,
                },
            ),
            Ty::Reference(t) => TyView::Reference(Box::new(t.view())),
            Ty::Slice(t) => TyView::Slice(Box::new(t.view())),
            Ty::Array(t) => TyView::Array(Box::new(t.view())),
            Ty::Paren(t) => TyView::Paren(Box::new(t.view())),
            Ty::Group(t) => TyView::Group(Box::new(t.view())),
            Ty::Tuple(ts) => TyView::Tuple(
                Seq::new(
                    ts@.len(),
                    |i: int|
                        if 0 <= i < ts@.len() {
                            ts@[i].view()
                        } else {
                            TyView::Other
                        },
                ),
            ),
            Ty::BareFn(ts, o) => TyView::BareFn(
                Seq::new(
                    ts@.len(),
                    |i: int|
                        if 0 <= i < ts@.len() {
                            ts@[i].view()
                        } else {
                            TyView::Other
                        },
                ),
                match o {
                    Some(t) => Some(Box::new(t.view())),
                    None => None,
                },
            ),
            Ty::Other => TyView::Other,
        }
    }
}

impl Segment {
    pub open spec fn view(&self) -> SegmentView
        decreases self,
    {
        SegmentView {
            ident: self.ident@,
            angle: match self.angle {
                Some(args) => Some(
                    Seq::new(
                        args@.len(),
                        |i: int|
                            if 0 <= i < args@.len() {
                                match args@[i] {
                                    Some(t) => Some(t.view()),
                                    None => None,
                                }
                            } else {
                                None
                            },
                    ),
                ),
                None => None,
            },
        }
    }
}

pub open spec fn opt_ty_view(t: Option<Ty>) -> Option<TyView> {
    match t {
        Some(t) => Some(t.view()),
        None => None,
    }
}

impl Attr {
    pub open spec fn view(&self) -> AttrView {
        AttrView { name: crate::text::opt_text(self.name), nested: crate::text::texts(self.nested@) }
    }
}

impl Tok {
    pub open spec fn view(&self) -> TokView
        decreases self,
    {
        match *self {
            Tok::Group(a, b, ts) => TokView::Group(
                a,
                b,
                Seq::new(
                    ts@.len(),
                    |i: int|
                        if 0 <= i < ts@.len() {
                            ts@[i].view()
                        } else {
                            TokView::Literal(Lines { first: 0, last: 0 })
                        },
                ),
            ),
            Tok::Ident(s, l) => TokView::Ident(s@, l),
            Tok::Punct(c, l) => TokView::Punct(c, l),
            Tok::Literal(l) => TokView::Literal(l),
        }
    }
}

pub open spec fn ty_views(v: Seq<Ty>) -> Seq<TyView> {
    v.map_values(|t: Ty| t.view())
}

pub open spec fn opt_ty_views(v: Seq<Option<Ty>>) -> Seq<Option<TyView>> {
    v.map_values(|t: Option<Ty>| opt_ty_view(t))
}

pub open spec fn segment_views(v: Seq<Segment>) -> Seq<SegmentView> {
    v.map_values(|s: Segment| s.view())
}

pub open spec fn attr_views(v: Seq<Attr>) -> Seq<AttrView> {
    v.map_values(|a: Attr| a.view())
}

pub open spec fn tok_views(v: Seq<Tok>) -> Seq<TokView> {
    v.map_values(|t: Tok| t.view())
}

pub open spec fn event_views(v: Seq<Event>) -> Seq<EventView> {
    v.map_values(|e: Event| e.view())
}

impl Event {
    pub open spec fn view(&self) -> EventView {
        match *self {
            Event::Function(attrs, u, end, ins, out) => EventView::Function(
                attr_views(attrs@),
                u,
                end,
                opt_ty_views(ins@),
                opt_ty_view(out),
            ),
            Event::Method(u, end) => EventView::Method(u, end),
            Event::UnsafeBlock(u, end) => EventView::UnsafeBlock(u, end),
            Event::Impl(u, end) => EventView::Impl(u, end),
            Event::Trait(u, end) => EventView::Trait(u, end),
            Event::Static(attrs, m, t) => EventView::Static(attr_views(attrs@), m, t.view()),
            Event::Const(t) => EventView::Const(t.view()),
            Event::Alias(n, t) => EventView::Alias(n@, t.view()),
            Event::Field(t) => EventView::Field(t.view()),
            Event::Typed(t) => EventView::Typed(t.view()),
            Event::Return(t) => EventView::Return(opt_ty_view(t)),
            Event::Cast(t) => EventView::Cast(t.view()),
            Event::ForeignOpen => EventView::ForeignOpen,
            Event::ForeignClose => EventView::ForeignClose,
            Event::ForeignFn => EventView::ForeignFn,
            Event::ForeignStatic(m, t) => EventView::ForeignStatic(m, t.view()),
            Event::Call(p) => EventView::Call(
                match p {
                    Some(v) => Some(crate::text::texts(v@)),
                    None => None,
                },
            ),
            Event::Macro(n, ts) => EventView::Macro(crate::text::opt_text(n), tok_views(ts@)),
        }
    }
}

impl RustFile {
    pub open spec fn view(&self) -> RustFileView {
        RustFileView { events: event_views(self.events@), tokens: tok_views(self.tokens@) }
    }
}

pub proof fn path_view(segs: Vec<Segment>, q: Option<Box<Ty>>)
    ensures
        Ty::Path(segs, q).view() == TyView::Path(
            segment_views(segs@),
            match q {
                Some(t) => Some(Box::new(t.view())),
                None => None,
            },
        ),
{
    if let TyView::Path(a, _) = Ty::Path(segs, q).view() {
        assert(a =~= segment_views(segs@));
    }
}

pub proof fn tuple_view(ts: Vec<Ty>)
    ensures
        Ty::Tuple(ts).view() == TyView::Tuple(ty_views(ts@)),
{
    if let TyView::Tuple(a) = Ty::Tuple(ts).view() {
        assert(a =~= ty_views(ts@));
    }
}

pub proof fn bare_fn_view(ts: Vec<Ty>, o: Option<Box<Ty>>)
    ensures
        Ty::BareFn(ts, o).view() == TyView::BareFn(
            ty_views(ts@),
            match o {
                Some(t) => Some(Box::new(t.view())),
                None => None,
            },
        ),
{
    if let TyView::BareFn(a, _) = Ty::BareFn(ts, o).view() {
        assert(a =~= ty_views(ts@));
    }
}

pub proof fn angle_view(seg: Segment, args: Vec<Option<Ty>>)
    requires
        seg.angle == Some(args),
    ensures
        seg.view().angle == Some(opt_ty_views(args@)),
{
    assert(seg.view().angle->0 =~= opt_ty_views(args@));
}

pub proof fn group_view(a: usize, b: usize, ts: Vec<Tok>)
    ensures
        Tok::Group(a, b, ts).view() == TokView::Group(a, b, tok_views(ts@)),
{
    if let TokView::Group(_, _, v) = Tok::Group(a, b, ts).view() {
        assert(v =~= tok_views(ts@));
    }
}

// ── The outside types that are read ──────────────────────────────────────

#[verifier::external_type_specification]
#[verifier::external_body]
pub struct ExType(syn::Type);

#[verifier::external_type_specification]
#[verifier::external_body]
pub struct ExTypePath(syn::TypePath);

#[verifier::external_type_specification]
#[verifier::external_body]
pub struct ExTypeBareFn(syn::TypeBareFn);

#[verifier::external_type_specification]
#[verifier::external_body]
pub struct ExPathSegment(syn::PathSegment);

#[verifier::external_type_specification]
#[verifier::external_body]
pub struct ExGenericArgument(syn::GenericArgument);

#[verifier::external_type_specification]
#[verifier::external_body]
pub struct ExReturnType(syn::ReturnType);

#[verifier::external_type_specification]
#[verifier::external_body]
pub struct ExFnArg(syn::FnArg);

#[verifier::external_type_specification]
#[verifier::external_body]
pub struct ExAttribute(syn::Attribute);

#[verifier::external_type_specification]
#[verifier::external_body]
pub struct ExSpan(proc_macro2::Span);

#[verifier::external_type_specification]
#[verifier::external_body]
pub struct ExTokenTree(proc_macro2::TokenTree);

#[verifier::external_type_specification]
#[verifier::external_body]
pub struct ExItemFn(syn::ItemFn);

#[verifier::external_type_specification]
#[verifier::external_body]
pub struct ExImplItemFn(syn::ImplItemFn);

#[verifier::external_type_specification]
#[verifier::external_body]
pub struct ExTraitItemFn(syn::TraitItemFn);

#[verifier::external_type_specification]
#[verifier::external_body]
pub struct ExExprUnsafe(syn::ExprUnsafe);

#[verifier::external_type_specification]
#[verifier::external_body]
pub struct ExItemImpl(syn::ItemImpl);

#[verifier::external_type_specification]
#[verifier::external_body]
pub struct ExItemTrait(syn::ItemTrait);

#[verifier::external_type_specification]
#[verifier::external_body]
pub struct ExItemStatic(syn::ItemStatic);

#[verifier::external_type_specification]
#[verifier::external_body]
pub struct ExItemConst(syn::ItemConst);

#[verifier::external_type_specification]
#[verifier::external_body]
pub struct ExItemType(syn::ItemType);

#[verifier::external_type_specification]
#[verifier::external_body]
pub struct ExField(syn::Field);

#[verifier::external_type_specification]
#[verifier::external_body]
pub struct ExPatType(syn::PatType);

#[verifier::external_type_specification]
#[verifier::external_body]
pub struct ExExprCast(syn::ExprCast);

#[verifier::external_type_specification]
#[verifier::external_body]
pub struct ExItemForeignMod(syn::ItemForeignMod);

#[verifier::external_type_specification]
#[verifier::external_body]
pub struct ExForeignItemFn(syn::ForeignItemFn);

#[verifier::external_type_specification]
#[verifier::external_body]
pub struct ExForeignItemStatic(syn::ForeignItemStatic);

#[verifier::external_type_specification]
#[verifier::external_body]
pub struct ExExprCall(syn::ExprCall);

#[verifier::external_type_specification]
#[verifier::external_body]
pub struct ExItemMacro(syn::ItemMacro);

#[verifier::external_type_specification]
#[verifier::external_body]
pub struct ExItem(syn::Item);

#[verifier::external_type_specification]
#[verifier::external_body]
pub struct ExImplItem(syn::ImplItem);

// ── Turning outside values into plain ones ───────────────────────────────

/// Turns a `syn::Type` into a [`Ty`], variant by variant.
#[verifier::external_body]
fn ty_of(t: &syn::Type) -> Ty {
    match t {
        Type::Ptr(p) => Ty::Ptr(p.mutability.is_some(), Box::new(ty_of(&p.elem))),
        Type::Path(p) => path_ty_of(p),
        Type::Tuple(t) => Ty::Tuple(t.elems.iter().map(ty_of).collect()),
        Type::BareFn(f) => fn_ty_of(f),
        other => wrapped_ty_of(other),
    }
}

/// The variants of `syn::Type` that hold one inner type.
#[verifier::external_body]
fn wrapped_ty_of(t: &syn::Type) -> Ty {
    match t {
        Type::Reference(r) => Ty::Reference(Box::new(ty_of(&r.elem))),
        Type::Slice(s) => Ty::Slice(Box::new(ty_of(&s.elem))),
        Type::Array(a) => Ty::Array(Box::new(ty_of(&a.elem))),
        Type::Paren(p) => Ty::Paren(Box::new(ty_of(&p.elem))),
        Type::Group(g) => Ty::Group(Box::new(ty_of(&g.elem))),
        _ => Ty::Other,
    }
}

/// Turns a `syn::TypePath` into its segments and its `<T as …>` type.
#[verifier::external_body]
fn path_ty_of(p: &syn::TypePath) -> Ty {
    let qself = p.qself.as_ref().map(|q| Box::new(ty_of(&q.ty)));
    Ty::Path(p.path.segments.iter().map(segment_of).collect(), qself)
}

/// Turns a `syn::PathSegment` into a [`Segment`].
#[verifier::external_body]
fn segment_of(s: &syn::PathSegment) -> Segment {
    let angle = match &s.arguments {
        PathArguments::AngleBracketed(a) => Some(a.args.iter().map(type_argument_of).collect()),
        PathArguments::Parenthesized(_) => None,
        PathArguments::None => None,
    };
    Segment { ident: s.ident.to_string(), angle }
}

/// The type that a `syn::GenericArgument` is, if it is one.
#[verifier::external_body]
fn type_argument_of(a: &syn::GenericArgument) -> Option<Ty> {
    match a {
        syn::GenericArgument::Type(t) => Some(ty_of(t)),
        _ => None,
    }
}

/// Turns a `syn::TypeBareFn` into its inputs and its output.
#[verifier::external_body]
fn fn_ty_of(f: &syn::TypeBareFn) -> Ty {
    let inputs = f.inputs.iter().map(|a| ty_of(&a.ty)).collect();
    Ty::BareFn(inputs, return_of(&f.output).map(Box::new))
}

/// The type of a `syn::ReturnType`, if it names one.
#[verifier::external_body]
fn return_of(r: &syn::ReturnType) -> Option<Ty> {
    match r {
        syn::ReturnType::Type(_, t) => Some(ty_of(t)),
        syn::ReturnType::Default => None,
    }
}

/// The type of a `syn::FnArg` that has one.
#[verifier::external_body]
fn argument_of(a: &syn::FnArg) -> Option<Ty> {
    match a {
        syn::FnArg::Typed(t) => Some(ty_of(&t.ty)),
        syn::FnArg::Receiver(_) => None,
    }
}

/// Turns a `syn::Attribute` into an [`Attr`], with the identifiers that
/// `Attribute::parse_nested_meta` hands out.
#[verifier::external_body]
fn attr_of(a: &syn::Attribute) -> Attr {
    let mut nested = Vec::new();
    let _ = a.parse_nested_meta(|meta| {
        nested.extend(meta.path.get_ident().map(|i| i.to_string()));
        Ok(())
    });
    Attr { name: a.path().get_ident().map(|i| i.to_string()), nested }
}

/// The lines of a `proc_macro2::Span`.
#[verifier::external_body]
fn lines_of_span(s: proc_macro2::Span) -> Lines {
    Lines { first: s.start().line, last: s.end().line }
}

/// Turns a `proc_macro2::TokenTree` into a [`Tok`], variant by variant.
#[verifier::external_body]
fn tok_of(t: proc_macro2::TokenTree) -> Tok {
    match t {
        TokenTree::Group(g) => {
            let inner = g.stream().into_iter().map(tok_of).collect();
            Tok::Group(g.span_open().start().line, g.span_close().end().line, inner)
        },
        TokenTree::Ident(i) => Tok::Ident(i.to_string(), lines_of_span(i.span())),
        TokenTree::Punct(p) => Tok::Punct(p.as_char(), lines_of_span(p.span())),
        TokenTree::Literal(l) => Tok::Literal(lines_of_span(l.span())),
    }
}

/// Records what `syn::visit::Visit` meets. Each method records its node and
/// goes on into it, as the trait's own methods do.
struct Recorder {
    events: Vec<Event>,
}

impl<'ast> Visit<'ast> for Recorder {
    #[verifier::external_body]
    fn visit_item_fn(&mut self, i: &'ast syn::ItemFn) {
        self.events.push(
            Event::Function(
                i.attrs.iter().map(attr_of).collect(),
                i.sig.unsafety.map(|t| lines_of_span(t.span)),
                i.block.brace_token.span.close().end().line,
                i.sig.inputs.iter().map(argument_of).collect(),
                return_of(&i.sig.output),
            ),
        );
        syn::visit::visit_item_fn(self, i);
    }

    #[verifier::external_body]
    fn visit_impl_item_fn(&mut self, i: &'ast syn::ImplItemFn) {
        let token = i.sig.unsafety.map(|t| lines_of_span(t.span));
        let end = i.block.brace_token.span.close().end().line;
        self.events.push(Event::Method(token, Some(end)));
        syn::visit::visit_impl_item_fn(self, i);
    }

    #[verifier::external_body]
    fn visit_trait_item_fn(&mut self, i: &'ast syn::TraitItemFn) {
        let token = i.sig.unsafety.map(|t| lines_of_span(t.span));
        let end = i.default.as_ref().map(|b| b.brace_token.span.close().end().line);
        self.events.push(Event::Method(token, end));
        syn::visit::visit_trait_item_fn(self, i);
    }

    #[verifier::external_body]
    fn visit_expr_unsafe(&mut self, i: &'ast syn::ExprUnsafe) {
        let end = i.block.brace_token.span.close().end().line;
        self.events.push(Event::UnsafeBlock(lines_of_span(i.unsafe_token.span), end));
        syn::visit::visit_expr_unsafe(self, i);
    }

    #[verifier::external_body]
    fn visit_item_impl(&mut self, i: &'ast syn::ItemImpl) {
        let token = i.unsafety.map(|t| lines_of_span(t.span));
        self.events.push(Event::Impl(token, i.brace_token.span.close().end().line));
        syn::visit::visit_item_impl(self, i);
    }

    #[verifier::external_body]
    fn visit_item_trait(&mut self, i: &'ast syn::ItemTrait) {
        let token = i.unsafety.map(|t| lines_of_span(t.span));
        self.events.push(Event::Trait(token, i.brace_token.span.close().end().line));
        syn::visit::visit_item_trait(self, i);
    }

    #[verifier::external_body]
    fn visit_item_static(&mut self, i: &'ast syn::ItemStatic) {
        let attrs = i.attrs.iter().map(attr_of).collect();
        let mutable = matches!(i.mutability, syn::StaticMutability::Mut(_));
        self.events.push(Event::Static(attrs, mutable, ty_of(&i.ty)));
        syn::visit::visit_item_static(self, i);
    }

    #[verifier::external_body]
    fn visit_item_const(&mut self, i: &'ast syn::ItemConst) {
        self.events.push(Event::Const(ty_of(&i.ty)));
        syn::visit::visit_item_const(self, i);
    }

    #[verifier::external_body]
    fn visit_item_type(&mut self, i: &'ast syn::ItemType) {
        self.events.push(Event::Alias(i.ident.to_string(), ty_of(&i.ty)));
        syn::visit::visit_item_type(self, i);
    }

    #[verifier::external_body]
    fn visit_field(&mut self, i: &'ast syn::Field) {
        self.events.push(Event::Field(ty_of(&i.ty)));
        syn::visit::visit_field(self, i);
    }

    #[verifier::external_body]
    fn visit_pat_type(&mut self, i: &'ast syn::PatType) {
        self.events.push(Event::Typed(ty_of(&i.ty)));
        syn::visit::visit_pat_type(self, i);
    }

    #[verifier::external_body]
    fn visit_return_type(&mut self, i: &'ast syn::ReturnType) {
        self.events.push(Event::Return(return_of(i)));
        syn::visit::visit_return_type(self, i);
    }

    #[verifier::external_body]
    fn visit_expr_cast(&mut self, i: &'ast syn::ExprCast) {
        self.events.push(Event::Cast(ty_of(&i.ty)));
        syn::visit::visit_expr_cast(self, i);
    }

    #[verifier::external_body]
    fn visit_item_foreign_mod(&mut self, i: &'ast syn::ItemForeignMod) {
        self.events.push(Event::ForeignOpen);
        syn::visit::visit_item_foreign_mod(self, i);
        self.events.push(Event::ForeignClose);
    }

    #[verifier::external_body]
    fn visit_foreign_item_fn(&mut self, i: &'ast syn::ForeignItemFn) {
        self.events.push(Event::ForeignFn);
        syn::visit::visit_foreign_item_fn(self, i);
    }

    #[verifier::external_body]
    fn visit_foreign_item_static(&mut self, i: &'ast syn::ForeignItemStatic) {
        let mutable = matches!(i.mutability, syn::StaticMutability::Mut(_));
        self.events.push(Event::ForeignStatic(mutable, ty_of(&i.ty)));
        syn::visit::visit_foreign_item_static(self, i);
    }

    #[verifier::external_body]
    fn visit_expr_call(&mut self, i: &'ast syn::ExprCall) {
        let path = match &*i.func {
            syn::Expr::Path(p) => Some(
                p.path.segments.iter().map(|s| s.ident.to_string()).collect(),
            ),
            _ => None,
        };
        self.events.push(Event::Call(path));
        syn::visit::visit_expr_call(self, i);
    }

    #[verifier::external_body]
    fn visit_item_macro(&mut self, i: &'ast syn::ItemMacro) {
        let name = i.mac.path.get_ident().map(|n| n.to_string());
        let tokens = i.mac.tokens.clone().into_iter().map(tok_of).collect();
        self.events.push(Event::Macro(name, tokens));
        syn::visit::visit_item_macro(self, i);
    }
}

/// What [`parse_source`] makes of a source text.
pub uninterp spec fn parsed_source(src: Seq<char>) -> Result<RustFileView, Seq<char>>;

/// Tokenises `src` with `proc_macro2::TokenStream::from_str`, parses the tokens
/// with `syn::parse2` and records the walk of `syn::visit::Visit::visit_file`
/// over the result. The claim is that what comes back, or the message of the
/// error, depends on the text alone.
#[verifier::external_body]
pub(crate) fn parse_source(src: &str) -> (r: Result<RustFile, String>)
    ensures
        (match r {
            Ok(f) => parsed_source(src@) == Ok::<RustFileView, Seq<char>>(f.view()),
            Err(e) => parsed_source(src@) == Err::<RustFileView, Seq<char>>(e@),
        }),
{
    let stream = proc_macro2::TokenStream::from_str(src).map_err(|e| e.to_string())?;
    let file = syn::parse2::<syn::File>(stream.clone()).map_err(|e| e.to_string())?;
    let mut recorder = Recorder { events: Vec::new() };
    recorder.visit_file(&file);
    Ok(RustFile { events: recorder.events, tokens: stream.into_iter().map(tok_of).collect() })
}

// ── Where the bodies of functions stand ──────────────────────────────────

/// The bodies in an item, as byte ranges of the source.
#[derive(Debug)]
pub enum ItemBlocks {
    /// A free function.
    Fn(usize, usize),
    /// The members of an impl, with `None` for those that are not functions.
    Impl(Vec<Option<(usize, usize)>>),
    Other,
}

pub enum ItemBlocksView {
    Fn(usize, usize),
    Impl(Seq<Option<(usize, usize)>>),
    Other,
}

impl ItemBlocks {
    pub open spec fn view(&self) -> ItemBlocksView {
        match *self {
            ItemBlocks::Fn(a, b) => ItemBlocksView::Fn(a, b),
            ItemBlocks::Impl(v) => ItemBlocksView::Impl(v@),
            ItemBlocks::Other => ItemBlocksView::Other,
        }
    }
}

pub open spec fn item_blocks_views(v: Seq<ItemBlocks>) -> Seq<ItemBlocksView> {
    v.map_values(|i: ItemBlocks| i.view())
}

/// The byte range of a `proc_macro2::Span`.
#[verifier::external_body]
fn range_of(s: proc_macro2::Span) -> (usize, usize) {
    (s.byte_range().start, s.byte_range().end)
}

/// Turns a `syn::Item` into its bodies, variant by variant.
#[verifier::external_body]
fn blocks_of(i: &syn::Item) -> ItemBlocks {
    match i {
        syn::Item::Fn(f) => {
            let (start, end) = range_of(f.block.span());
            ItemBlocks::Fn(start, end)
        },
        syn::Item::Impl(i) => ItemBlocks::Impl(i.items.iter().map(member_block).collect()),
        _ => ItemBlocks::Other,
    }
}

/// The body of a `syn::ImplItem` that is a function.
#[verifier::external_body]
fn member_block(i: &syn::ImplItem) -> Option<(usize, usize)> {
    match i {
        syn::ImplItem::Fn(m) => Some(range_of(m.block.span())),
        _ => None,
    }
}

/// What [`item_blocks`] makes of a source text.
pub uninterp spec fn item_blocks_in(src: Seq<char>) -> Option<Seq<ItemBlocksView>>;

/// Parses `src` with `syn::parse_file` and gives, item by item, the byte ranges
/// that `proc_macro2::Span::byte_range` tells of the functions' bodies. The claim
/// is that the ranges, or that there are none because the text does not parse,
/// depend on the text alone. Nothing is claimed of where the ranges lie.
#[verifier::external_body]
pub(crate) fn item_blocks(src: &str) -> (r: Option<Vec<ItemBlocks>>)
    ensures
        (match r {
            Some(v) => item_blocks_in(src@) == Some(item_blocks_views(v@)),
            None => item_blocks_in(src@) is None,
        }),
{
    let file = syn::parse_file(src).ok()?;
    Some(file.items.iter().map(blocks_of).collect())
}

} // verus!
