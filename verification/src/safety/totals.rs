//! What holds of the totals: which files are measured, and how their figures add up.

use crate::num;
use crate::path;
use crate::path::ComponentView;
use crate::rust_syntax;
use crate::rust_syntax::{RustFile, RustFileView};
use crate::safety::c_source;
use crate::safety::c_source::{c_code_lines, measure_c_source, CSourceMetrics};
use crate::safety::counts;
use crate::safety::counts::{analyze_parsed, analyze_source, FileMetrics, UnsafeKind};
use crate::safety::pointers;
use crate::safety::pointers::{AliasMap, PtrCounts};
use crate::safety::program;
use crate::safety::program::{SafetyMetrics, SourceFile, SourceFileView};
use crate::safety::report;
use crate::safety::report::{log_summary, LogLine};
use crate::safety::scope;
use crate::safety::scope::{classify, measure_scope, rust_scope, Scope, ScopeMetrics};
use crate::text;
use vstd::prelude::*;

verus! {

// ── Which files ──────────────────────────────────────────────────────────

/// Whether an entry of that name is passed by: build output and hidden entries.
pub open spec fn is_passed_by(name: Seq<char>) -> bool {
    name == "target"@ || (name.len() > 0 && name[0] == '.')
}

proof fn left_out_means_passed_by(name: Seq<char>)
    ensures
        scope::is_left_out(name) <==> is_passed_by(name),
{
    reveal_strlit(".");
    if name.len() > 0 && name[0] == '.' {
        assert(name.subrange(0, 1) =~= "."@);
    }
    if text::has_prefix(name, "."@) {
        assert(name.subrange(0, 1)[0] == "."@[0]);
    }
}

proof fn places_are_told_apart()
    ensures
        "src"@ != "gtest_suite"@ && "src"@ != "runner"@ && "src"@ != "test_vectors"@ && "src"@
            != "target"@ && "src"@ != ".harvest"@,
        "build.rs"@ != "gtest_suite"@ && "build.rs"@ != "runner"@ && "build.rs"@
            != "test_vectors"@ && "build.rs"@ != "target"@ && "build.rs"@ != ".harvest"@,
        "tests"@ != "gtest_suite"@ && "tests"@ != "runner"@ && "tests"@ != "test_vectors"@
            && "tests"@ != "target"@ && "tests"@ != ".harvest"@ && "tests"@ != "src"@ && "tests"@
            != "build.rs"@,
        "benches"@ != "src"@ && "benches"@ != "build.rs"@,
        "gtest_suite"@ != "src"@ && "gtest_suite"@ != "build.rs"@,
{
    reveal_strlit("src");
    reveal_strlit("build.rs");
    reveal_strlit("tests");
    reveal_strlit("benches");
    reveal_strlit("gtest_suite");
    reveal_strlit("runner");
    reveal_strlit("test_vectors");
    reveal_strlit("target");
    reveal_strlit(".harvest");
    assert("build.rs"@[0] != ".harvest"@[0]);
    assert("src"@.len() == 3 && "build.rs"@.len() == 8 && "tests"@.len() == 5 && "benches"@.len()
        == 7 && "gtest_suite"@.len() == 11 && "runner"@.len() == 6 && "test_vectors"@.len() == 12
        && "target"@.len() == 6 && ".harvest"@.len() == 8);
}

/// The library is what lies under `src`, and the build script. Nothing counts that lies
/// in build output or is hidden, wherever in the path that is, nor external tests.
pub proof fn the_library_is_the_source(rel: &str, r: Option<Scope>)
    requires
        call_ensures(classify, (rel,), r),
    ensures
        ({
            let cs = path::components_of(rel@);
            let first = path::component_text(cs[0]);
            let passed_by = exists|i: int|
                0 <= i < cs.len() && is_passed_by(path::component_text(#[trigger] cs[i]));
            &&& r == Some(Scope::Library) <==> cs.len() > 0 && !passed_by && (first == "src"@
                || first == "build.rs"@)
            &&& r is None <==> cs.len() == 0 || passed_by || first == "gtest_suite"@ || first
                == "runner"@ || first == "test_vectors"@
            &&& r == Some(Scope::Harness) ==> first == "tests"@ || first == "benches"@ || first
                == "examples"@ || first == "fuzz"@ || first == "xtask"@
            &&& cs.len() > 0 && !passed_by && (first == "tests"@ || first == "benches"@ || first
                == "examples"@ || first == "fuzz"@ || first == "xtask"@) ==> r == Some(
                Scope::Harness,
            )
        }),
{
    let cs = path::components_of(rel@);
    places_are_told_apart();
    reveal_strlit("src");
    reveal_strlit("build.rs");
    reveal_strlit("tests");
    reveal_strlit("benches");
    reveal_strlit("examples");
    reveal_strlit("fuzz");
    reveal_strlit("xtask");
    reveal_strlit("gtest_suite");
    reveal_strlit("runner");
    reveal_strlit("test_vectors");
    reveal_strlit("target");
    reveal_strlit(".harvest");
    assert("examples"@[0] != "build.rs"@[0]);
    assert(".harvest"@[0] == '.');
    assert("examples"@[0] != ".harvest"@[0]);
    assert("tests"@[0] != "xtask"@[0]);
    assert(forall|n: Seq<char>| #[trigger] scope::is_left_out(n) <==> is_passed_by(n)) by {
        assert forall|n: Seq<char>| #[trigger] scope::is_left_out(n) <==> is_passed_by(n) by {
            left_out_means_passed_by(n);
        }
    }
    assert((exists|i: int|
        0 <= i < cs.len() && is_passed_by(path::component_text(#[trigger] cs[i]))) <==> (exists|
        i: int,
    |
        0 <= i < cs.len() && scope::is_left_out(path::component_text(#[trigger] cs[i])))) by {
        if exists|i: int|
            0 <= i < cs.len() && is_passed_by(path::component_text(#[trigger] cs[i])) {
            let i = choose|i: int|
                0 <= i < cs.len() && is_passed_by(path::component_text(#[trigger] cs[i]));
            assert(scope::is_left_out(path::component_text(cs[i])));
        }
        if exists|i: int|
            0 <= i < cs.len() && scope::is_left_out(path::component_text(#[trigger] cs[i])) {
            let i = choose|i: int|
                0 <= i < cs.len() && scope::is_left_out(path::component_text(#[trigger] cs[i]));
            assert(is_passed_by(path::component_text(cs[i])));
        }
    }
    if cs.len() > 0 {
        let first = path::component_text(cs[0]);
        if first == "target"@ || first == ".harvest"@ {
            assert(is_passed_by(path::component_text(cs[0])));
        }
    }
}

/// A file is measured in the scope of its path exactly if it is named like Rust.
pub proof fn rust_files_are_measured(rel: &str, r: Option<Scope>, c: Option<Scope>)
    requires
        call_ensures(rust_scope, (rel,), r),
        call_ensures(classify, (rel,), c),
    ensures
        ({
            let cs = path::components_of(rel@);
            let named = cs.len() > 0 && (cs.last() matches ComponentView::Normal(name)
                && path::extension_of(name) == Some("rs"@));
            &&& named ==> r == c
            &&& !named ==> r is None
        }),
{
}

// ── One file ─────────────────────────────────────────────────────────────

/// A text is analysed with the aliases that it defines itself.
pub proof fn texts_are_analysed_with_their_aliases(
    src: &str,
    r: Result<FileMetrics, String>,
    file: RustFile,
    aliases: AliasMap,
    m: FileMetrics,
)
    requires
        call_ensures(analyze_source, (src,), r),
        rust_syntax::parsed_source(src@) == Ok::<RustFileView, Seq<char>>(file.view()),
        aliases.wf(),
        aliases.view() == pointers::pointer_aliases(seq![file.view()]),
        call_ensures(analyze_parsed, (&file, &aliases), m),
    ensures
        r matches Ok(f) && {
            &&& f.code_lines == m.code_lines
            &&& f.unsafe_lines@ == m.unsafe_lines@
            &&& f.unsafe_fn_lines@ == m.unsafe_fn_lines@
            &&& f.unsafe_block_lines@ == m.unsafe_block_lines@
            &&& f.m.unsafe_fns == m.m.unsafe_fns
            &&& f.m.unsafe_blocks == m.m.unsafe_blocks
            &&& f.m.ffi_exported_fns == m.m.ffi_exported_fns
            &&& f.m.ffi_exported_unsafe == m.m.ffi_exported_unsafe
            &&& f.m.ffi_exported_raw_ptr == m.m.ffi_exported_raw_ptr
            &&& f.m.ffi_exported_raw_ptr_direct == m.m.ffi_exported_raw_ptr_direct
            &&& f.m.transmutes == m.m.transmutes
            &&& f.m.static_mut_items == m.m.static_mut_items
        },
{
}

/// Whether two counts of pointers are the same.
pub open spec fn same_pointers(a: PtrCounts, b: PtrCounts) -> bool {
    &&& a.direct_const == b.direct_const
    &&& a.direct_mut == b.direct_mut
    &&& a.alias_const == b.alias_const
    &&& a.alias_mut == b.alias_mut
}

/// A scope of one file has the figures of that file; if the file does not parse, it has
/// none, and says so.
pub proof fn one_file_makes_a_scope(
    files: &Vec<(String, String)>,
    r: ScopeMetrics,
    src: &str,
    a: Result<FileMetrics, String>,
)
    requires
        call_ensures(measure_scope, (files,), r),
        call_ensures(analyze_source, (src,), a),
        files@.len() == 1,
        files@[0].1@ == src@,
    ensures
        a matches Ok(f) ==> {
            &&& r.files == 1
            &&& r.files_unparsed == 0
            &&& !r.partial
            &&& r.code_lines == f.code_lines
            &&& r.unsafe_code_lines == num::sat(f.unsafe_lines@.len() as int)
            &&& r.unsafe_fn_lines == num::sat(f.unsafe_fn_lines@.len() as int)
            &&& r.unsafe_block_lines == num::sat(f.unsafe_block_lines@.len() as int)
            &&& r.unsafe_fns == f.m.unsafe_fns
            &&& r.unsafe_blocks == f.m.unsafe_blocks
            &&& r.unsafe_impls == f.m.unsafe_impls
            &&& r.unsafe_traits == f.m.unsafe_traits
            &&& r.ffi_exported_fns == f.m.ffi_exported_fns
            &&& r.ffi_exported_unsafe == f.m.ffi_exported_unsafe
            &&& r.ffi_exported_raw_ptr == f.m.ffi_exported_raw_ptr
            &&& r.ffi_exported_raw_ptr_direct == f.m.ffi_exported_raw_ptr_direct
            &&& r.ffi_exported_statics == f.m.ffi_exported_statics
            &&& r.ffi_exported_statics_mut == f.m.ffi_exported_statics_mut
            &&& r.export_attr_plain == f.m.export_attr_plain
            &&& r.export_attr_unsafe_wrapped == f.m.export_attr_unsafe_wrapped
            &&& same_pointers(r.ptr_decl, f.m.ptr_decl)
            &&& same_pointers(r.ptr_cast, f.m.ptr_cast)
            &&& same_pointers(r.ptr_extern, f.m.ptr_extern)
            &&& r.transmutes == f.m.transmutes
            &&& r.static_mut_items == f.m.static_mut_items
            &&& r.extern_static_mut_items == f.m.extern_static_mut_items
            &&& r.extern_blocks == f.m.extern_blocks
            &&& r.extern_fn_decls == f.m.extern_fn_decls
            &&& r.macro_rules_defs == f.m.macro_rules_defs
            &&& r.macro_body_unsafe_tokens == f.m.macro_body_unsafe_tokens
            &&& r.macro_body_ptr_tokens == f.m.macro_body_ptr_tokens
        },
        a is Err ==> {
            &&& r.files == 0
            &&& r.files_unparsed == 1
            &&& r.partial
            &&& r.code_lines == 0
            &&& r.unsafe_code_lines == 0
        },
{
    let srcs = scope::source_views(files@);
    assert(srcs =~= seq![(files@[0].0@, src@)]);
    assert(srcs.drop_last() =~= seq![]);
    assert(scope::parsed_files(srcs.drop_last()) =~= seq![]);
    assert(scope::unparsed_files(srcs.drop_last()) =~= seq![]);
    match rust_syntax::parsed_source(src@) {
        Ok(f) => {
            let fs = scope::parsed_files(srcs);
            assert(fs =~= seq![f]);
            assert(fs.drop_last() =~= seq![]);
            assert(scope::code_lines_in(fs.drop_last()) == 0);
            assert(scope::unsafe_lines_in(fs.drop_last(), None) == 0);
            assert(scope::unsafe_lines_in(fs.drop_last(), Some(UnsafeKind::Fn)) == 0);
            assert(scope::unsafe_lines_in(fs.drop_last(), Some(UnsafeKind::Block)) == 0);
            let al = pointers::pointer_aliases(fs);
            assert(scope::tally_files(fs.drop_last(), al) == counts::zero_tally());
            assert(scope::unparsed_files(srcs) =~= seq![]);
        },
        Err(_) => {
            assert(scope::parsed_files(srcs) =~= seq![]);
        },
    }
}

/// One more file adds its lines to a scope if it parses. If it does not, it adds none,
/// and makes the scope a partial one.
pub proof fn files_add_to_their_scope(
    a: &Vec<(String, String)>,
    b: &Vec<(String, String)>,
    x: (String, String),
    s: ScopeMetrics,
    t: ScopeMetrics,
    src: &str,
    m: Result<FileMetrics, String>,
)
    requires
        b@ == a@.push(x),
        x.1@ == src@,
        call_ensures(measure_scope, (a,), s),
        call_ensures(measure_scope, (b,), t),
        call_ensures(analyze_source, (src,), m),
    ensures
        m matches Ok(f) ==> {
            &&& t.files == s.files + 1 || s.files == usize::MAX
            &&& t.code_lines == num::sat(s.code_lines + f.code_lines)
            &&& t.unsafe_code_lines == num::sat(s.unsafe_code_lines + f.unsafe_lines@.len())
            &&& t.unsafe_fn_lines == num::sat(s.unsafe_fn_lines + f.unsafe_fn_lines@.len())
            &&& t.unsafe_block_lines == num::sat(s.unsafe_block_lines + f.unsafe_block_lines@.len())
            &&& t.files_unparsed == s.files_unparsed
            &&& t.partial == s.partial
        },
        m is Err ==> {
            &&& t.files == s.files
            &&& t.code_lines == s.code_lines
            &&& t.unsafe_code_lines == s.unsafe_code_lines
            &&& t.files_unparsed == s.files_unparsed + 1 || s.files_unparsed == usize::MAX
            &&& t.partial
        },
{
    let sa = scope::source_views(a@);
    let sb = scope::source_views(b@);
    assert(sb =~= sa.push((x.0@, x.1@)));
    assert(sb.drop_last() =~= sa);
    let fa = scope::parsed_files(sa);
    let fb = scope::parsed_files(sb);
    if m is Ok {
        assert(fb.drop_last() =~= fa);
    }
}

// ── The C side ───────────────────────────────────────────────────────────

proof fn code_is_not_forgotten(s: Seq<char>, block: bool, quote: Option<char>)
    ensures
        c_source::scan_line(s, block, quote, true).1,
    decreases s.len(),
{
    if s.len() > 0 {
        code_is_not_forgotten(s.skip(1), true, quote);
        code_is_not_forgotten(s.skip(1), false, quote);
        code_is_not_forgotten(s.skip(1), false, None);
        code_is_not_forgotten(s.skip(1), false, Some(s[0]));
        if s.len() > 1 {
            code_is_not_forgotten(s.skip(2), false, quote);
            code_is_not_forgotten(s.skip(2), true, None);
        }
    }
}

proof fn code_is_found(blanks: nat, s: Seq<char>)
    requires
        blanks < s.len(),
        forall|i: int| 0 <= i < blanks ==> text::is_space(#[trigger] s[i]),
        !text::is_space(s[blanks as int]),
        s[blanks as int] != '/',
    ensures
        c_source::scan_line(s, false, None, false).1,
    decreases blanks,
{
    if blanks == 0 {
        code_is_not_forgotten(s.skip(1), false, Some(s[0]));
        code_is_not_forgotten(s.skip(1), false, None);
    } else {
        let t = s.skip(1);
        assert(text::is_space(s[0]));
        assert forall|i: int| 0 <= i < blanks - 1 implies text::is_space(#[trigger] t[i]) by {
            assert(t[i] == s[i + 1]);
        }
        assert(t[blanks - 1] == s[blanks as int]);
        code_is_found((blanks - 1) as nat, t);
    }
}

/// A line of C that starts, after blanks, with anything but a slash is a code line,
/// whatever follows; a line that is blank or a comment is none.
pub proof fn code_makes_a_code_line(src: &str, n: usize, line: Seq<char>, blanks: nat)
    requires
        call_ensures(c_code_lines, (src,), n),
        text::lines_of(src@) == seq![line],
    ensures
        blanks < line.len() && (forall|i: int|
            0 <= i < blanks ==> text::is_space(#[trigger] line[i])) && !text::is_space(
            line[blanks as int],
        ) && line[blanks as int] != '/' ==> n == 1,
        c_source::is_comment_line(line) ==> n == 0,
{
    let all = seq![line];
    assert(all.drop_last() =~= seq![]);
    assert(c_source::scan_lines(all.drop_last()) == (false, 0nat));
    if blanks < line.len() && (forall|i: int|
        0 <= i < blanks ==> text::is_space(#[trigger] line[i])) && !text::is_space(
        line[blanks as int],
    ) && line[blanks as int] != '/' {
        code_is_found(blanks, line);
    }
    if c_source::is_comment_line(line) {
        assert(text::lines_of(seq![]) =~= seq![]);
        c_source::comments_add_no_code(seq![], src@);
        assert(seq![] + src@ =~= src@);
        assert(c_source::scan_lines(seq![]) == (false, 0nat));
    }
}

/// A C source adds to the C figures, a header to those of the headers, and neither to
/// the other's. A file of another extension adds to neither.
pub proof fn c_files_count_by_their_extension(
    a: &Vec<(String, String)>,
    b: &Vec<(String, String)>,
    x: (String, String),
    s: CSourceMetrics,
    t: CSourceMetrics,
    src: &str,
    n: usize,
)
    requires
        b@ == a@.push(x),
        x.1@ == src@,
        call_ensures(measure_c_source, (a,), s),
        call_ensures(measure_c_source, (b,), t),
        call_ensures(c_code_lines, (src,), n),
    ensures
        ({
            let e = path::extension_of(x.0@);
            let is_c = e == Some("c"@) || e == Some("C"@);
            let is_h = e == Some("h"@) || e == Some("H"@);
            &&& is_c ==> {
                &&& t.c.files == num::sat(s.c.files + 1)
                &&& t.c.total_lines == num::sat(s.c.total_lines + text::lines_of(src@).len())
                &&& t.c.code_lines == num::sat(s.c.code_lines + n)
                &&& t.h == s.h
                &&& t.other_source == s.other_source
            }
            &&& is_h ==> {
                &&& t.h.files == num::sat(s.h.files + 1)
                &&& t.h.total_lines == num::sat(s.h.total_lines + text::lines_of(src@).len())
                &&& t.h.code_lines == num::sat(s.h.code_lines + n)
                &&& t.c == s.c
                &&& t.other_source == s.other_source
            }
            &&& !is_c ==> t.c == s.c
            &&& !is_h ==> t.h == s.h
            &&& t.other_source.code_lines == 0
        }),
{
    let va = scope::source_views(a@);
    let vb = scope::source_views(b@);
    assert(vb =~= va.push((x.0@, x.1@)));
    assert(vb.drop_last() =~= va);
    no_code_elsewhere(vb);
    reveal_strlit("c");
    reveal_strlit("C");
    reveal_strlit("h");
    reveal_strlit("H");
    reveal_strlit("s");
    if let Some(e) = path::extension_of(x.0@) {
        one_letter(e, 'c', 'C');
        one_letter(e, 'h', 'H');
        assert("c"@ =~= seq!['c'] && "C"@ =~= seq!['C']);
        assert("h"@ =~= seq!['h'] && "H"@ =~= seq!['H']);
    }
    assert("c"@[0] != "h"@[0]);
    assert("c"@ != "h"@);
    let is_c = c_source::c_class(x.0@) == Some(c_source::CFileClass::C);
    let is_h = c_source::c_class(x.0@) == Some(c_source::CFileClass::H);
    let e = path::extension_of(x.0@);
    assert(is_c <==> e == Some("c"@) || e == Some("C"@));
    assert(is_h <==> e == Some("h"@) || e == Some("H"@));
}

proof fn no_code_elsewhere(files: Seq<(Seq<char>, Seq<char>)>)
    ensures
        c_source::class_lines(files, c_source::CFileClass::OtherSource).code_lines == 0,
    decreases files.len(),
{
    if files.len() > 0 {
        no_code_elsewhere(files.drop_last());
    }
}

proof fn one_letter(e: Seq<char>, small: char, large: char)
    requires
        small == 'c' && large == 'C' || small == 'h' && large == 'H',
    ensures
        text::ascii_lower_of(e) == seq![small] <==> e == seq![small] || e == seq![large],
{
    let l = text::ascii_lower_of(e);
    assert(l.len() == e.len());
    if e == seq![small] || e == seq![large] {
        assert(l =~= seq![small]);
    }
    if l == seq![small] {
        assert(l[0] == small);
        assert(e[0] == small || e[0] == large);
        if e[0] == small {
            assert(e =~= seq![small]);
        } else {
            assert(e =~= seq![large]);
        }
    }
}

// ── The report ───────────────────────────────────────────────────────────

/// The summary tells the library's figures, sets the harness apart, and ends with a
/// warning exactly if files of the library were left out.
pub proof fn summaries_tell_the_figures(
    program: &str,
    m: &SafetyMetrics,
    unsafe_pct: &str,
    exposed_pct: &str,
    ratio: &str,
    r: Vec<LogLine>,
)
    requires
        call_ensures(log_summary, (program, m, unsafe_pct, exposed_pct, ratio), r),
    ensures
        ({
            let start = "  safety["@ + program@ + "]: "@;
            let d = |n: usize| text::decimal_of(n as nat);
            let l = m.library;
            &&& r@.len() == 3 + (if m.c_source.c.code_lines > 0 {
                1int
            } else {
                0int
            }) + (if m.harness.files > 0 {
                1int
            } else {
                0int
            }) + (if l.partial {
                1int
            } else {
                0int
            })
            &&& r@[0].text@ == start + unsafe_pct@ + "% of "@ + d(l.code_lines)
                + " code lines unsafe ("@ + d(l.unsafe_fns) + " unsafe fn, "@ + d(l.unsafe_blocks)
                + " unsafe blocks)"@
            &&& r@[1].text@ == start + "exported surface "@ + d(l.ffi_exported_fns) + " fns, "@ + d(
                l.ffi_exported_unsafe,
            ) + " unsafe, "@ + d(l.ffi_exported_raw_ptr) + " exposing raw pointers ("@
                + exposed_pct@ + "%)"@
            &&& forall|i: int|
                0 <= i < r@.len() ==> ((#[trigger] r@[i]).warning <==> l.partial && i == r@.len()
                    - 1)
        }),
{
    let v = report::line_views(r@);
    assert(v.len() == r@.len());
    assert(v[0] == (r@[0].warning, r@[0].text@));
    assert(v[1] == (r@[1].warning, r@[1].text@));
    assert forall|i: int| 0 <= i < r@.len() implies ((#[trigger] r@[i]).warning <==> m.library.partial
        && i == r@.len() - 1) by {
        assert(v[i] == (r@[i].warning, r@[i].text@));
    }
}

/// All raw pointers are those that are declared, those in casts and those of foreign
/// blocks.
pub proof fn pointers_add_up(m: &ScopeMetrics, r: usize)
    requires
        call_ensures(ScopeMetrics::raw_ptrs_total, (m,), r),
    ensures
        ({
            let all = m.ptr_decl.direct_const + m.ptr_decl.direct_mut + m.ptr_decl.alias_const
                + m.ptr_decl.alias_mut + m.ptr_cast.direct_const + m.ptr_cast.direct_mut
                + m.ptr_cast.alias_const + m.ptr_cast.alias_mut + m.ptr_extern.direct_const
                + m.ptr_extern.direct_mut + m.ptr_extern.alias_const + m.ptr_extern.alias_mut;
            r == num::sat(all)
        }),
{
}

// ── Whole programs ───────────────────────────────────────────────────────

/// What a program's metrics say of a scope.
pub open spec fn figures_of(m: SafetyMetrics, s: Scope) -> ScopeMetrics {
    match s {
        Scope::Library => m.library,
        Scope::Harness => m.harness,
        Scope::Other => m.other,
    }
}

/// The same files have the same figures.
proof fn same_files_same_figures(
    m: ScopeMetrics,
    n: ScopeMetrics,
    srcs: Seq<(Seq<char>, Seq<char>)>,
    lost: Seq<Seq<char>>,
)
    requires
        m.measures(srcs, lost),
        n.measures(srcs, lost),
    ensures
        n.files == m.files,
        n.files_unparsed == m.files_unparsed,
        n.files_unreadable == m.files_unreadable,
        n.partial == m.partial,
        n.code_lines == m.code_lines,
        n.unsafe_code_lines == m.unsafe_code_lines,
        n.unsafe_fns == m.unsafe_fns,
        n.unsafe_blocks == m.unsafe_blocks,
{
}

/// What one more readable file adds.
proof fn one_more_readable(
    m: ScopeMetrics,
    n: ScopeMetrics,
    srcs: Seq<(Seq<char>, Seq<char>)>,
    f: (Seq<char>, Seq<char>),
    lost: Seq<Seq<char>>,
)
    requires
        m.measures(srcs, lost),
        n.measures(srcs.push(f), lost),
    ensures
        ({
            let parses = rust_syntax::parsed_source(f.1) is Ok;
            &&& n.files == num::sat(m.files + if parses {
                1int
            } else {
                0
            })
            &&& n.files_unparsed == num::sat(m.files_unparsed + if parses {
                0int
            } else {
                1
            })
            &&& n.files_unreadable == m.files_unreadable
            &&& n.partial == (m.partial || !parses)
        }),
{
    assert(srcs.push(f).drop_last() =~= srcs);
    assert(srcs.push(f).last() == f);
}

/// What one more unreadable file adds.
proof fn one_more_unreadable(
    m: ScopeMetrics,
    n: ScopeMetrics,
    srcs: Seq<(Seq<char>, Seq<char>)>,
    lost: Seq<Seq<char>>,
    path: Seq<char>,
)
    requires
        m.measures(srcs, lost),
        n.measures(srcs, lost.push(path)),
    ensures
        n.files == m.files,
        n.files_unparsed == m.files_unparsed,
        n.files_unreadable == num::sat(m.files_unreadable + 1),
        n.partial,
{
}

/// One more file counts in the scope it belongs to and in no other. There it is one
/// more file, one that does not parse, or one that cannot be read, which makes the
/// scope's measurement a partial one.
pub proof fn files_count_in_their_own_scope(
    a: &Vec<SourceFile>,
    b: &Vec<SourceFile>,
    c: &Vec<(String, String)>,
    f: SourceFile,
    path: &str,
    scope: Option<Scope>,
    s: Scope,
    m: SafetyMetrics,
    n: SafetyMetrics,
)
    requires
        call_ensures(program::measure, (a, c), m),
        call_ensures(program::measure, (b, c), n),
        call_ensures(rust_scope, (path,), scope),
        path@ == f.path@,
        b@ == a@.push(f),
    ensures
        ({
            let before = figures_of(m, s);
            let after = figures_of(n, s);
            let parses = f.content is Some && rust_syntax::parsed_source(f.content->0@) is Ok;
            &&& scope != Some(s) ==> {
                &&& after.files == before.files
                &&& after.files_unparsed == before.files_unparsed
                &&& after.files_unreadable == before.files_unreadable
                &&& after.partial == before.partial
                &&& after.code_lines == before.code_lines
                &&& after.unsafe_code_lines == before.unsafe_code_lines
                &&& after.unsafe_fns == before.unsafe_fns
                &&& after.unsafe_blocks == before.unsafe_blocks
            }
            &&& scope == Some(s) ==> {
                &&& after.files == num::sat(before.files + if parses {
                    1int
                } else {
                    0
                })
                &&& after.files_unparsed == num::sat(
                    before.files_unparsed + if f.content is Some && !parses {
                        1int
                    } else {
                        0
                    },
                )
                &&& after.files_unreadable == num::sat(
                    before.files_unreadable + if f.content is None {
                        1int
                    } else {
                        0
                    },
                )
                &&& after.partial == (before.partial || !parses)
            }
        }),
{
    let one = program::source_file_views(a@);
    let two = program::source_file_views(b@);
    let last = SourceFileView { path: f.path@, content: text::opt_text(f.content) };
    assert(two =~= one.push(last));
    assert(two.drop_last() =~= one);
    assert(two.last() == last);
    let before = figures_of(m, s);
    let after = figures_of(n, s);
    let srcs = program::scope_sources(one, s);
    let lost = program::scope_unreadable(one, s);
    assert(before.measures(srcs, lost));
    assert(after.measures(program::scope_sources(two, s), program::scope_unreadable(two, s)));
    if scope != Some(s) {
        same_files_same_figures(before, after, srcs, lost);
    } else if f.content is Some {
        one_more_readable(before, after, srcs, (f.path@, f.content->0@), lost);
    } else {
        one_more_unreadable(before, after, srcs, lost, f.path@);
    }
}

/// The summary goes on with the raw pointers, all of them, by kind and by place; with
/// the size of the library against that of the C source, where there is any; with what
/// was set apart as harness; and with what was left out.
pub proof fn summaries_tell_the_rest(
    program: &str,
    m: &SafetyMetrics,
    unsafe_pct: &str,
    exposed_pct: &str,
    ratio: &str,
    r: Vec<LogLine>,
    all: usize,
)
    requires
        call_ensures(log_summary, (program, m, unsafe_pct, exposed_pct, ratio), r),
        call_ensures(ScopeMetrics::raw_ptrs_total, (&m.library,), all),
    ensures
        ({
            let start = "  safety["@ + program@ + "]: "@;
            let d = |n: usize| text::decimal_of(n as nat);
            let l = m.library;
            let sized: int = if m.c_source.c.code_lines > 0 {
                1
            } else {
                0
            };
            let tested: int = if m.harness.files > 0 {
                1
            } else {
                0
            };
            &&& text::has_prefix(r@[2].text@, start + "raw pointers "@ + d(all) + " total ("@)
            &&& m.c_source.c.code_lines > 0 ==> r@[3].text@ == start + d(l.code_lines)
                + " Rust lines / "@ + d(m.c_source.c.code_lines) + " C lines = "@ + ratio@
            &&& m.harness.files > 0 ==> text::has_prefix(
                r@[3 + sized].text@,
                start + "excluded from the above — "@ + d(m.harness.files) + " harness file(s), "@
                    + d(m.harness.code_lines) + " lines, "@ + d(m.harness.unsafe_blocks)
                    + " unsafe block(s)"@,
            )
            &&& l.partial ==> text::has_prefix(
                r@[3 + sized + tested].text@,
                start + "PARTIAL — "@ + d(l.files_unparsed) + " unparsed, "@ + d(l.files_unreadable)
                    + " unreadable, "@ + d(l.unparsed_code_lines) + " lines excluded"@,
            )
        }),
{
    let v = report::line_views(r@);
    assert(v.len() == r@.len());
    assert(v[2] == (r@[2].warning, r@[2].text@));
    pointers_line_starts(program@, m.library, all);
    harness_line_starts(program@, m.harness);
    partial_line_starts(program@, m.library);
    let sized: int = if m.c_source.c.code_lines > 0 {
        1
    } else {
        0
    };
    let tested: int = if m.harness.files > 0 {
        1
    } else {
        0
    };
    if m.c_source.c.code_lines > 0 {
        assert(v[3] == (r@[3].warning, r@[3].text@));
    }
    if m.harness.files > 0 {
        assert(v[3 + sized] == (r@[3 + sized].warning, r@[3 + sized].text@));
    }
    if m.library.partial {
        let k = 3 + sized + tested;
        assert(v[k] == (r@[k].warning, r@[k].text@));
    }
}

proof fn pointers_line_starts(program: Seq<char>, l: ScopeMetrics, all: usize)
    requires
        call_ensures(ScopeMetrics::raw_ptrs_total, (&l,), all),
    ensures
        text::has_prefix(
            report::pointers_line(program, l),
            "  safety["@ + program + "]: "@ + "raw pointers "@ + text::decimal_of(all as nat)
                + " total ("@,
        ),
{
    let s = report::pointers_line(program, l);
    let p = report::heading(program) + "raw pointers "@ + report::digits(all) + " total ("@;
    assert(report::heading(program) == "  safety["@ + program + "]: "@);
    assert(p.len() <= s.len());
    assert(s.subrange(0, p.len() as int) =~= p);
}

proof fn harness_line_starts(program: Seq<char>, h: ScopeMetrics)
    ensures
        text::has_prefix(
            report::harness_line(program, h),
            "  safety["@ + program + "]: "@ + "excluded from the above — "@ + text::decimal_of(
                h.files as nat,
            ) + " harness file(s), "@ + text::decimal_of(h.code_lines as nat) + " lines, "@
                + text::decimal_of(h.unsafe_blocks as nat) + " unsafe block(s)"@,
        ),
{
    let q = report::heading(program) + "excluded from the above — "@ + report::digits(h.files)
        + " harness file(s), "@ + report::digits(h.code_lines) + " lines, "@ + report::digits(
        h.unsafe_blocks,
    );
    let e = " unsafe block(s) (agent-written tests, not a translation of the C input)"@;
    reveal_strlit(" unsafe block(s) (agent-written tests, not a translation of the C input)");
    reveal_strlit(" unsafe block(s)");
    assert(e =~= " unsafe block(s)"@ + e.skip(16));
    begins(q, " unsafe block(s)"@, e.skip(16));
}

proof fn partial_line_starts(program: Seq<char>, l: ScopeMetrics)
    ensures
        text::has_prefix(
            report::partial_line(program, l),
            "  safety["@ + program + "]: "@ + "PARTIAL — "@ + text::decimal_of(
                l.files_unparsed as nat,
            ) + " unparsed, "@ + text::decimal_of(l.files_unreadable as nat) + " unreadable, "@
                + text::decimal_of(l.unparsed_code_lines as nat) + " lines excluded"@,
        ),
{
    let q = report::heading(program) + "PARTIAL — "@ + report::digits(l.files_unparsed)
        + " unparsed, "@ + report::digits(l.files_unreadable) + " unreadable, "@ + report::digits(
        l.unparsed_code_lines,
    );
    let e = " lines excluded; every fraction above is over a subset of the crate"@;
    reveal_strlit(" lines excluded; every fraction above is over a subset of the crate");
    reveal_strlit(" lines excluded");
    assert(e =~= " lines excluded"@ + e.skip(15));
    begins(q, " lines excluded"@, e.skip(15));
}

proof fn begins(q: Seq<char>, a: Seq<char>, b: Seq<char>)
    ensures
        text::has_prefix(q + (a + b), q + a),
{
    let s = q + (a + b);
    assert(s.subrange(0, (q + a).len() as int) =~= q + a);
}

} // verus!
