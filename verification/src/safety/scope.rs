//! The files of a crate by scope, and the metrics of a scope.

use crate::num;
use crate::path;
use crate::path::{Component, ComponentView};
use crate::rust_syntax;
use crate::rust_syntax::{parse_source, Lines, RustFile, RustFileView};
use crate::safety::pointers;
use crate::safety::pointers::{Alias, Aliases, PtrCounts};
use crate::safety::counts;
use crate::safety::counts::{RawCounts, Tally, UnsafeKind};
use crate::stage_manifest;
use crate::text;
use vstd::prelude::*;
use vstd::string::*;

verus! {

// ── A scope of a crate ───────────────────────────────────────────────────

/// Which part of the crate a file belongs to.
#[derive(Debug, Clone, Copy, PartialEq, Eq, Structural)]
pub enum Scope {
    /// `src/**` and a top-level `build.rs`: the translation itself.
    Library,
    /// `tests/`, `benches/`, `examples/`, `fuzz/`, `xtask/`: agent-written, not
    /// a translation of anything in the C input.
    Harness,
    /// Anything else carrying Rust. Reported so a layout change is visible
    /// rather than silently miscounted.
    Other,
}

/// A file the parser could not read or understand.
#[derive(Debug, PartialEq, Eq)]
pub struct UnparsedFile {
    pub path: String,
    pub error: String,
    pub error_line: Option<usize>,
}

/// Safety measurements for one scope of one crate.
#[derive(Debug, PartialEq, Eq)]
pub struct ScopeMetrics {
    // Measurement integrity: read these first.
    pub files: usize,
    pub files_unparsed: usize,
    pub files_unreadable: usize,
    /// Non-blank lines in files excluded from the measurement: volume that is
    /// in neither the numerator nor the denominator.
    pub unparsed_code_lines: usize,
    pub unparsed: Vec<UnparsedFile>,
    /// True iff any file was excluded, so every derived fraction below is over
    /// a subset of the crate.
    pub partial: bool,
    /// Lines carrying at least one token, over parsed files only: the
    /// denominator.
    pub code_lines: usize,
    /// Code lines inside an unsafe region. An `unsafe {}` nested inside an
    /// `unsafe fn` adds nothing.
    pub unsafe_code_lines: usize,
    /// Those inside an `unsafe fn`. Not a partition of `unsafe_code_lines`.
    pub unsafe_fn_lines: usize,
    /// Those inside an `unsafe {}`. Not a partition of `unsafe_code_lines`.
    pub unsafe_block_lines: usize,
    pub unsafe_fns: usize,
    pub unsafe_blocks: usize,
    pub unsafe_impls: usize,
    pub unsafe_traits: usize,
    // The exported surface: the right denominator for a cdylib, where a `pub fn`
    // with no export attribute exports nothing at all.
    pub ffi_exported_fns: usize,
    pub ffi_exported_unsafe: usize,
    /// Alias-resolved. The metric that separates "safe API over unsafe
    /// internals" from "unsafe API".
    pub ffi_exported_raw_ptr: usize,
    /// Same count before alias resolution, so its contribution is auditable.
    pub ffi_exported_raw_ptr_direct: usize,
    pub ffi_exported_statics: usize,
    /// An exported `static mut` is API-visible unsoundness.
    pub ffi_exported_statics_mut: usize,
    pub export_attr_plain: usize,
    pub export_attr_unsafe_wrapped: usize,
    /// Declarations: parameters, returns, fields, statics, consts, locals.
    pub ptr_decl: PtrCounts,
    /// `expr as *mut T`, kept apart because casts would otherwise swallow the
    /// declaration metric.
    pub ptr_cast: PtrCounts,
    /// Inside foreign blocks: C's own declarations, not the model's choices.
    pub ptr_extern: PtrCounts,
    /// How many crate-local aliases resolved to a pointer type.
    pub ptr_alias_types: usize,
    pub transmutes: usize,
    pub static_mut_items: usize,
    pub extern_static_mut_items: usize,
    pub extern_blocks: usize,
    pub extern_fn_decls: usize,
    // The syntax tree's blind spot, quantified.
    pub macro_rules_defs: usize,
    pub macro_body_unsafe_tokens: usize,
    pub macro_body_ptr_tokens: usize,
}

/// A path and the source text of a file.
pub open spec fn source_views(v: Seq<(String, String)>) -> Seq<(Seq<char>, Seq<char>)> {
    v.map_values(|f: (String, String)| (f.0@, f.1@))
}

/// The files that parse.
pub open spec fn parsed_files(srcs: Seq<(Seq<char>, Seq<char>)>) -> Seq<RustFileView>
    decreases srcs.len(),
{
    if srcs.len() == 0 {
        seq![]
    } else {
        match rust_syntax::parsed_source(srcs.last().1) {
            Ok(f) => parsed_files(srcs.drop_last()).push(f),
            Err(_) => parsed_files(srcs.drop_last()),
        }
    }
}

/// The paths of the files that do not parse, with the parser's message.
pub open spec fn unparsed_files(srcs: Seq<(Seq<char>, Seq<char>)>) -> Seq<(Seq<char>, Seq<char>)>
    decreases srcs.len(),
{
    if srcs.len() == 0 {
        seq![]
    } else {
        match rust_syntax::parsed_source(srcs.last().1) {
            Ok(_) => unparsed_files(srcs.drop_last()),
            Err(e) => unparsed_files(srcs.drop_last()).push((srcs.last().0, e)),
        }
    }
}

/// The number of lines that hold more than white space.
pub open spec fn nonblank(lines: Seq<Seq<char>>) -> nat
    decreases lines.len(),
{
    if lines.len() == 0 {
        0
    } else {
        nonblank(lines.drop_last()) + counts::one_if(text::trim_of(lines.last()).len() > 0)
    }
}

/// The non-blank lines of the files that do not parse.
pub open spec fn unparsed_volume(srcs: Seq<(Seq<char>, Seq<char>)>) -> nat
    decreases srcs.len(),
{
    if srcs.len() == 0 {
        0
    } else {
        match rust_syntax::parsed_source(srcs.last().1) {
            Ok(_) => unparsed_volume(srcs.drop_last()),
            Err(_) => unparsed_volume(srcs.drop_last()) + nonblank(text::lines_of(srcs.last().1)),
        }
    }
}

pub open spec fn tally_files(files: Seq<RustFileView>, aliases: Aliases) -> Tally
    decreases files.len(),
{
    if files.len() == 0 {
        counts::zero_tally()
    } else {
        counts::tally_sum(tally_files(files.drop_last(), aliases), counts::tally(files.last().events, aliases))
    }
}

pub open spec fn code_lines_in(files: Seq<RustFileView>) -> nat
    decreases files.len(),
{
    if files.len() == 0 {
        0
    } else {
        code_lines_in(files.drop_last()) + counts::code_line_set(files.last()).len()
    }
}

pub open spec fn unsafe_lines_in(files: Seq<RustFileView>, kind: Option<UnsafeKind>) -> nat
    decreases files.len(),
{
    if files.len() == 0 {
        0
    } else {
        unsafe_lines_in(files.drop_last(), kind) + counts::unsafe_line_set(files.last(), kind).len()
    }
}

pub open spec fn unparsed_views(v: Seq<UnparsedFile>) -> Seq<(Seq<char>, Seq<char>)> {
    v.map_values(|u: UnparsedFile| (u.path@, u.error@))
}

/// What is noted of a file that could not be read.
pub open spec fn unreadable_note() -> Seq<char> {
    "file is not valid UTF-8 or could not be read"@
}

pub open spec fn unreadable_notes(paths: Seq<Seq<char>>) -> Seq<(Seq<char>, Seq<char>)> {
    paths.map_values(|p: Seq<char>| (p, unreadable_note()))
}

impl ScopeMetrics {
    /// Whether the counters are those of the parsed files.
    pub open spec fn counts(&self, t: Tally) -> bool {
        &&& self.unsafe_fns == num::sat(t.unsafe_fns as int)
        &&& self.unsafe_blocks == num::sat(t.unsafe_blocks as int)
        &&& self.unsafe_impls == num::sat(t.unsafe_impls as int)
        &&& self.unsafe_traits == num::sat(t.unsafe_traits as int)
        &&& self.ffi_exported_fns == num::sat(t.ffi_exported_fns as int)
        &&& self.ffi_exported_unsafe == num::sat(t.ffi_exported_unsafe as int)
        &&& self.ffi_exported_raw_ptr == num::sat(t.ffi_exported_raw_ptr as int)
        &&& self.ffi_exported_raw_ptr_direct == num::sat(t.ffi_exported_raw_ptr_direct as int)
        &&& self.ffi_exported_statics == num::sat(t.ffi_exported_statics as int)
        &&& self.ffi_exported_statics_mut == num::sat(t.ffi_exported_statics_mut as int)
        &&& self.export_attr_plain == num::sat(t.export_attr_plain as int)
        &&& self.export_attr_unsafe_wrapped == num::sat(t.export_attr_unsafe_wrapped as int)
        &&& self.ptr_decl.counts(t.ptr_decl)
        &&& self.ptr_cast.counts(t.ptr_cast)
        &&& self.ptr_extern.counts(t.ptr_extern)
        &&& self.transmutes == num::sat(t.transmutes as int)
        &&& self.static_mut_items == num::sat(t.static_mut_items as int)
        &&& self.extern_static_mut_items == num::sat(t.extern_static_mut_items as int)
        &&& self.extern_blocks == num::sat(t.extern_blocks as int)
        &&& self.extern_fn_decls == num::sat(t.extern_fn_decls as int)
        &&& self.macro_rules_defs == num::sat(t.macro_rules_defs as int)
        &&& self.macro_body_unsafe_tokens == num::sat(t.macro_body_unsafe_tokens as int)
        &&& self.macro_body_ptr_tokens == num::sat(t.macro_body_ptr_tokens as int)
    }

    /// Whether these are the metrics of a scope that consists of the given
    /// readable files and of the unreadable ones at the given paths. A file that
    /// does not parse counts on neither side of any fraction.
    pub open spec fn measures(
        &self,
        srcs: Seq<(Seq<char>, Seq<char>)>,
        unreadable: Seq<Seq<char>>,
    ) -> bool {
        let files = parsed_files(srcs);
        let aliases = pointers::pointer_aliases(files);
        &&& self.files == num::sat(files.len() as int)
        &&& self.files_unparsed == num::sat(unparsed_files(srcs).len() as int)
        &&& self.files_unreadable == num::sat(unreadable.len() as int)
        &&& self.unparsed_code_lines == num::sat(unparsed_volume(srcs) as int)
        &&& unparsed_views(self.unparsed@) == unparsed_files(srcs) + unreadable_notes(unreadable)
        &&& forall|i: int|
            0 <= i < self.unparsed@.len() ==> (#[trigger] self.unparsed@[i]).error_line is None
        &&& self.partial == (unparsed_files(srcs).len() + unreadable.len() > 0)
        &&& self.code_lines == num::sat(code_lines_in(files) as int)
        &&& self.unsafe_code_lines == num::sat(unsafe_lines_in(files, None) as int)
        &&& self.unsafe_fn_lines == num::sat(
            unsafe_lines_in(files, Some(UnsafeKind::Fn)) as int,
        )
        &&& self.unsafe_block_lines == num::sat(
            unsafe_lines_in(files, Some(UnsafeKind::Block)) as int,
        )
        &&& self.counts(tally_files(files, aliases))
        &&& aliases.dom().finite()
        &&& self.ptr_alias_types == aliases.dom().len()
    }

    /// All raw pointers: declared, in casts and from foreign blocks.
    pub fn raw_ptrs_total(&self) -> (r: usize)
        ensures
            r == num::sat(
                num::sat(
                    self.ptr_decl.direct_const + self.ptr_decl.direct_mut + self.ptr_decl.alias_const
                        + self.ptr_decl.alias_mut,
                ) + num::sat(
                    self.ptr_cast.direct_const + self.ptr_cast.direct_mut + self.ptr_cast.alias_const
                        + self.ptr_cast.alias_mut,
                ) + num::sat(
                    self.ptr_extern.direct_const + self.ptr_extern.direct_mut
                        + self.ptr_extern.alias_const + self.ptr_extern.alias_mut,
                ),
            ),
    {
        self.ptr_decl.total().saturating_add(self.ptr_cast.total()).saturating_add(
            self.ptr_extern.total(),
        )
    }
}

fn count_nonblank(src: &str) -> (r: usize)
    ensures
        r == nonblank(text::lines_of(src@)),
{
    let lines = text::lines(src);
    let ghost all = text::texts(lines@);
    let mut n: usize = 0;
    let mut i: usize = 0;
    assert(all.take(0) =~= seq![]);
    while i < lines.len()
        invariant
            i <= lines@.len(),
            n <= i,
            all == text::texts(lines@),
            n == nonblank(all.take(i as int)),
        decreases lines@.len() - i,
    {
        assert(all.take(i + 1).drop_last() =~= all.take(i as int));
        assert(all.take(i + 1).last() == lines@[i as int]@);
        let t = text::trim(lines[i].as_str());
        if !t.as_str().is_empty() {
            n = n + 1;
        }
        i = i + 1;
    }
    assert(all.take(i as int) =~= all);
    n
}

proof fn alias_map_dom_len(v: Seq<Alias>)
    requires
        pointers::alias_names_differ(v),
    ensures
        pointers::alias_map(v).dom().finite(),
        pointers::alias_map(v).dom().len() == v.len(),
    decreases v.len(),
{
    let dom = pointers::alias_map(v).dom();
    if v.len() == 0 {
        assert forall|n: Seq<char>| !dom.contains(n) by {
            if dom.contains(n) {
                let i = choose|i: int| pointers::alias_at(v, n, i);
                assert(pointers::alias_at(v, n, i));
            }
        }
        assert(dom =~= Set::empty());
    } else {
        let w = v.drop_last();
        let last = v.last().name@;
        assert forall|i: int, j: int| #![trigger w[i], w[j]] 0 <= i < j < w.len() implies w[i].name@ != w[j].name@ by {
            assert(v[i].name@ != v[j].name@);
        }
        alias_map_dom_len(w);
        let shorter = pointers::alias_map(w).dom();
        assert(!shorter.contains(last)) by {
            if shorter.contains(last) {
                let i = choose|i: int| pointers::alias_at(w, last, i);
                assert(pointers::alias_at(w, last, i));
                assert(v[i].name@ != v[v.len() - 1].name@);
            }
        }
        assert forall|n: Seq<char>| dom.contains(n) == shorter.insert(last).contains(n) by {
            if dom.contains(n) {
                let i = choose|i: int| pointers::alias_at(v, n, i);
                assert(pointers::alias_at(v, n, i));
                if i < w.len() {
                    assert(pointers::alias_at(w, n, i));
                }
            }
            if shorter.contains(n) {
                let i = choose|i: int| pointers::alias_at(w, n, i);
                assert(pointers::alias_at(w, n, i));
                assert(pointers::alias_at(v, n, i));
            }
            if n == last {
                assert(pointers::alias_at(v, n, v.len() - 1));
            }
        }
        assert(dom =~= shorter.insert(last));
    }
}

/// Measures the files of one scope: a path and a source text each.
pub fn measure_scope(files: &Vec<(String, String)>) -> (r: ScopeMetrics)
    ensures
        r.measures(source_views(files@), seq![]),
{
    let ghost srcs = source_views(files@);
    let mut parsed: Vec<RustFile> = Vec::new();
    let mut unparsed: Vec<UnparsedFile> = Vec::new();
    let mut volume: usize = 0;
    let mut i: usize = 0;
    assert(srcs.take(0) =~= seq![]);
    assert(pointers::file_views(parsed@) =~= seq![]);
    assert(unparsed_views(unparsed@) =~= seq![]);
    while i < files.len()
        invariant
            i <= files@.len(),
            srcs == source_views(files@),
            pointers::file_views(parsed@) == parsed_files(srcs.take(i as int)),
            unparsed_views(unparsed@) == unparsed_files(srcs.take(i as int)),
            forall|j: int|
                0 <= j < unparsed@.len() ==> (#[trigger] unparsed@[j]).error_line is None,
            volume == num::sat(unparsed_volume(srcs.take(i as int)) as int),
        decreases files@.len() - i,
    {
        assert(srcs.take(i + 1).drop_last() =~= srcs.take(i as int));
        assert(srcs.take(i + 1).last() == (files@[i as int].0@, files@[i as int].1@));
        let ghost before = pointers::file_views(parsed@);
        let ghost so_far = unparsed_views(unparsed@);
        match parse_source(files[i].1.as_str()) {
            Ok(file) => {
                let ghost view = file.view();
                parsed.push(file);
                assert(pointers::file_views(parsed@) =~= before.push(view));
            },
            Err(error) => {
                volume = volume.saturating_add(count_nonblank(files[i].1.as_str()));
                let path = files[i].0.clone();
                let ghost pair = (path@, error@);
                unparsed.push(UnparsedFile { path, error, error_line: None });
                assert(unparsed_views(unparsed@) =~= so_far.push(pair));
            },
        }
        i = i + 1;
    }
    assert(srcs.take(i as int) =~= srcs);
    let aliases = pointers::collect_pointer_aliases(&parsed);
    let ghost views = pointers::file_views(parsed@);
    let mut code_lines: usize = 0;
    let mut unsafe_code_lines: usize = 0;
    let mut unsafe_fn_lines: usize = 0;
    let mut unsafe_block_lines: usize = 0;
    let mut m = RawCounts::zero();
    let mut k: usize = 0;
    assert(views.take(0) =~= seq![]);
    while k < parsed.len()
        invariant
            k <= parsed@.len(),
            aliases.wf(),
            views == pointers::file_views(parsed@),
            code_lines == num::sat(code_lines_in(views.take(k as int)) as int),
            unsafe_code_lines == num::sat(unsafe_lines_in(views.take(k as int), None) as int),
            unsafe_fn_lines == num::sat(
                unsafe_lines_in(views.take(k as int), Some(UnsafeKind::Fn)) as int,
            ),
            unsafe_block_lines == num::sat(
                unsafe_lines_in(views.take(k as int), Some(UnsafeKind::Block)) as int,
            ),
            m.counts(tally_files(views.take(k as int), aliases.view())),
        decreases parsed@.len() - k,
    {
        assert(views.take(k + 1).drop_last() =~= views.take(k as int));
        assert(views.take(k + 1).last() == parsed@[k as int].view());
        let fm = counts::analyze_parsed(&parsed[k], &aliases);
        code_lines = code_lines.saturating_add(fm.code_lines);
        unsafe_code_lines = unsafe_code_lines.saturating_add(counts::line_count(&fm.unsafe_lines));
        unsafe_fn_lines = unsafe_fn_lines.saturating_add(counts::line_count(&fm.unsafe_fn_lines));
        unsafe_block_lines = unsafe_block_lines.saturating_add(
            counts::line_count(&fm.unsafe_block_lines),
        );
        let sum = m.plus(&fm.m);
        proof {
            counts::counts_sum(
                m,
                tally_files(views.take(k as int), aliases.view()),
                fm.m,
                counts::tally(parsed@[k as int].view().events, aliases.view()),
                sum,
            );
        }
        m = sum;
        k = k + 1;
    }
    assert(views.take(k as int) =~= views);
    proof {
        alias_map_dom_len(aliases.entries@);
        assert(unreadable_notes(seq![]) =~= seq![]);
        assert(unparsed_files(srcs) + unreadable_notes(seq![]) =~= unparsed_files(srcs));
    }
    ScopeMetrics {
        files: parsed.len(),
        files_unparsed: unparsed.len(),
        files_unreadable: 0,
        unparsed_code_lines: volume,
        partial: unparsed.len() > 0,
        unparsed,
        code_lines,
        unsafe_code_lines,
        unsafe_fn_lines,
        unsafe_block_lines,
        ptr_alias_types: aliases.entries.len(),
        unsafe_fns: m.unsafe_fns,
        unsafe_blocks: m.unsafe_blocks,
        unsafe_impls: m.unsafe_impls,
        unsafe_traits: m.unsafe_traits,
        ffi_exported_fns: m.ffi_exported_fns,
        ffi_exported_unsafe: m.ffi_exported_unsafe,
        ffi_exported_raw_ptr: m.ffi_exported_raw_ptr,
        ffi_exported_raw_ptr_direct: m.ffi_exported_raw_ptr_direct,
        ffi_exported_statics: m.ffi_exported_statics,
        ffi_exported_statics_mut: m.ffi_exported_statics_mut,
        export_attr_plain: m.export_attr_plain,
        export_attr_unsafe_wrapped: m.export_attr_unsafe_wrapped,
        ptr_decl: m.ptr_decl,
        ptr_cast: m.ptr_cast,
        ptr_extern: m.ptr_extern,
        transmutes: m.transmutes,
        static_mut_items: m.static_mut_items,
        extern_static_mut_items: m.extern_static_mut_items,
        extern_blocks: m.extern_blocks,
        extern_fn_decls: m.extern_fn_decls,
        macro_rules_defs: m.macro_rules_defs,
        macro_body_unsafe_tokens: m.macro_body_unsafe_tokens,
        macro_body_ptr_tokens: m.macro_body_ptr_tokens,
    }
}

// ── Crate walking ────────────────────────────────────────────────────────

pub open spec fn is_left_out(name: Seq<char>) -> bool {
    name == "target"@ || text::has_prefix(name, "."@)
}

/// The scope that a top-level name stands for.
pub open spec fn scope_named(name: Seq<char>) -> Scope {
    if name == "src"@ || name == "build.rs"@ {
        Scope::Library
    } else if name == "tests"@ || name == "benches"@ || name == "examples"@ || name == "fuzz"@
        || name == "xtask"@ {
        Scope::Harness
    } else {
        Scope::Other
    }
}

/// Which scope a path within the crate belongs to. Build output, hidden entries
/// and what is reserved at the top level belong to none.
pub open spec fn scope_of(rel: Seq<char>) -> Option<Scope> {
    let cs = path::components_of(rel);
    if cs.len() == 0 || stage_manifest::is_reserved(path::component_text(cs[0])) || exists|i: int|
        0 <= i < cs.len() && is_left_out(path::component_text(#[trigger] cs[i])) {
        None
    } else {
        Some(scope_named(path::component_text(cs[0])))
    }
}

/// Whether a path names a Rust source file.
pub open spec fn is_rust_file(rel: Seq<char>) -> bool {
    let cs = path::components_of(rel);
    cs.len() > 0 && (cs.last() matches ComponentView::Normal(name) && path::extension_of(name)
        == Some("rs"@))
}

fn leaves_out(name: &str) -> (r: bool)
    ensures
        r == is_left_out(name@),
{
    text::same(name, "target") || text::starts_with(name, ".")
}

/// Whether the walk over a crate goes into an entry of that name.
pub fn enters_crate_entry(name: &str) -> (r: bool)
    ensures
        r == (!is_left_out(name@) || name@ == "."@),
{
    proof {
        reveal_strlit("target");
        reveal_strlit(".");
        assert("target"@.len() != "."@.len());
    }
    !leaves_out(name) || text::same(name, ".")
}

/// Which scope a path within the crate belongs to, or `None` to skip it.
pub fn classify(rel: &str) -> (r: Option<Scope>)
    ensures
        r == scope_of(rel@),
{
    let cs = path::components(rel);
    let ghost views = path::component_views(cs@);
    if cs.len() == 0 {
        return None;
    }
    assert(views[0] == cs@[0].view());
    let first = path::text_of_component(&cs[0]);
    if stage_manifest::is_reserved_toplevel(first.as_str()) {
        return None;
    }
    let mut i: usize = 0;
    while i < cs.len()
        invariant
            i <= cs@.len(),
            views == path::component_views(cs@),
            views == path::components_of(rel@),
            forall|j: int| 0 <= j < i ==> !is_left_out(path::component_text(#[trigger] views[j])),
        decreases cs@.len() - i,
    {
        assert(views[i as int] == cs@[i as int].view());
        let name = path::text_of_component(&cs[i]);
        if leaves_out(name.as_str()) {
            return None;
        }
        i = i + 1;
    }
    let name = first.as_str();
    if text::same(name, "src") || text::same(name, "build.rs") {
        Some(Scope::Library)
    } else if text::same(name, "tests") || text::same(name, "benches") || text::same(
        name,
        "examples",
    ) || text::same(name, "fuzz") || text::same(name, "xtask") {
        Some(Scope::Harness)
    } else {
        Some(Scope::Other)
    }
}

/// The scope in which a file is measured, if it is.
pub open spec fn measured_scope(rel: Seq<char>) -> Option<Scope> {
    if is_rust_file(rel) {
        scope_of(rel)
    } else {
        None
    }
}

/// The scope in which the file at a path within the crate is measured: it must
/// be a Rust source file in a scope.
pub fn rust_scope(rel: &str) -> (r: Option<Scope>)
    ensures
        r == measured_scope(rel@),
{
    let cs = path::components(rel);
    let ghost views = path::component_views(cs@);
    if cs.len() == 0 {
        return None;
    }
    assert(views.last() == cs@[cs@.len() - 1].view());
    let is_rust = match &cs[cs.len() - 1] {
        Component::Normal(name) => match path::extension(name.as_str()) {
            Some(e) => text::same(e.as_str(), "rs"),
            None => false,
        },
        _ => false,
    };
    if is_rust {
        classify(rel)
    } else {
        None
    }
}

} // verus!
