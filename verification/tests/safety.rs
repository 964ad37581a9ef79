//! Tests of the safety metrics.

use harvest::safety::c_source::{c_code_lines, measure_c_source, skips_c_entry};
use harvest::safety::counts::{analyze_source, FileMetrics};
use harvest::safety::program::{measure, SourceFile};
use harvest::safety::report::log_summary;
use harvest::safety::scope::{
    classify, enters_crate_entry, measure_scope, rust_scope, Scope, ScopeMetrics,
};

fn m(src: &str) -> FileMetrics {
    analyze_source(src).expect("fixture parses")
}

#[test]
fn both_export_spellings_are_recognised() {
    let plain = m("#[no_mangle]\npub extern \"C\" fn a() {}\n");
    assert_eq!(plain.m.ffi_exported_fns, 1);
    assert_eq!(plain.m.export_attr_plain, 1);

    let wrapped = m("#[unsafe(no_mangle)]\npub unsafe extern \"C\" fn b() {}\n");
    assert_eq!(wrapped.m.ffi_exported_fns, 1);
    assert_eq!(wrapped.m.export_attr_unsafe_wrapped, 1);
    assert_eq!(wrapped.m.ffi_exported_unsafe, 1);

    let named = m("#[unsafe(export_name = \"c_name\")]\npub extern \"C\" fn c() {}\n");
    assert_eq!(named.m.ffi_exported_fns, 1);

    // A plain `pub fn` exports nothing from a cdylib.
    let not_exported = m("pub fn d() {}\n");
    assert_eq!(not_exported.m.ffi_exported_fns, 0);
}

#[test]
fn raw_pointers_are_found_through_type_aliases() {
    let src = "\
pub type png_byte = u8;
pub type png_bytep = *mut png_byte;
#[unsafe(no_mangle)]
pub extern \"C\" fn f(p: png_bytep) {}
";
    let r = m(src);
    assert_eq!(r.m.ffi_exported_fns, 1);
    assert_eq!(
        r.m.ffi_exported_raw_ptr, 1,
        "alias-resolved signature must count as pointer-exposing"
    );
    assert_eq!(
        r.m.ffi_exported_raw_ptr_direct, 0,
        "and the direct count must show the alias pass is what found it"
    );
    assert!(r.m.ptr_decl.alias_mut >= 1);
}

#[test]
fn alias_chains_resolve_to_a_fixpoint() {
    let src = "\
pub type A = *const u8;
pub type B = A;
pub type C = B;
#[no_mangle]
pub extern \"C\" fn f(p: C) {}
";
    let r = m(src);
    assert_eq!(r.m.ffi_exported_raw_ptr, 1);
}

#[test]
fn a_cyclic_alias_does_not_hang() {
    // Not valid Rust semantically, but it parses, and a fixpoint without a
    // bound would spin forever on it.
    let src = "pub type A = B;\npub type B = A;\npub fn f() {}\n";
    let r = m(src);
    assert_eq!(r.m.ffi_exported_fns, 0);
}

#[test]
fn pointers_are_counted_in_nested_type_positions() {
    // A text search would miss or miscount every one of these.
    let src = "\
pub struct S { pub p: Option<*mut u8>, pub arr: [*const u8; 4] }
pub type Cb = Option<unsafe extern \"C\" fn(*mut core::ffi::c_void) -> *const u8>;
pub fn f(pp: *mut *mut u8) -> (*const u8, u32) { (core::ptr::null(), 0) }
";
    let r = m(src);
    // Option<*mut u8>, [*const u8; 4], fn(*mut c_void) -> *const u8,
    // *mut *mut u8 (2 levels), and the tuple return's *const u8.
    assert!(
        r.m.ptr_decl.total() >= 7,
        "expected nested pointers to be found, got {:?}",
        r.m.ptr_decl
    );
    assert!(r.m.ptr_decl.muts() >= 3);
    assert!(r.m.ptr_decl.consts() >= 3);
}

#[test]
fn casts_and_extern_declarations_are_separate_buckets() {
    // Casts would otherwise swallow the declaration metric, and a foreign block
    // is C's own declaration, not a choice the model made.
    let src = "\
unsafe extern \"C\" { pub static mut STDERR: *mut u8; pub fn c_fn(p: *const u8); }
pub fn f(x: usize) -> *mut u8 { x as *mut u8 }
";
    let r = m(src);
    assert!(r.m.ptr_cast.total() >= 1, "cast bucket: {:?}", r.m.ptr_cast);
    assert!(
        r.m.ptr_extern.total() >= 2,
        "extern bucket: {:?}",
        r.m.ptr_extern
    );
    assert_eq!(r.m.extern_blocks, 1);
    assert_eq!(r.m.extern_fn_decls, 1);
    // Without a ForeignItemStatic hook this reads 0 while the code plainly
    // declares a mutable static.
    assert_eq!(r.m.extern_static_mut_items, 1);
}

#[test]
fn unsafe_lines_are_a_union_so_nesting_never_double_counts() {
    let src = "\
pub unsafe fn f() {
    unsafe { let _ = 1; }
    unsafe { let _ = 2; }
}
";
    let r = m(src);
    assert_eq!(r.m.unsafe_fns, 1);
    assert_eq!(r.m.unsafe_blocks, 2);
    // Four lines of function, counted once each despite two nested blocks.
    assert_eq!(r.unsafe_lines.len(), 4);
    assert!(r.unsafe_lines.len() <= r.code_lines);
}

#[test]
fn doc_comments_and_attributes_do_not_inflate_the_unsafe_region() {
    // Using the item span would start the region at the first doc line,
    // biasing the metric against whichever model comments its unsafe code
    // more heavily.
    let src = "\
/// one
/// two
#[unsafe(no_mangle)]
pub unsafe extern \"C\" fn g() { let _ = 1; }
";
    let r = m(src);
    assert_eq!(r.m.unsafe_fns, 1);
    assert_eq!(
        r.unsafe_lines.iter().copied().min(),
        Some(4),
        "region must start at the `unsafe` token, not the doc comment"
    );
    assert_eq!(r.unsafe_lines.len(), 1);
}

#[test]
fn unsafe_methods_in_impls_and_traits_are_counted() {
    // An `unsafe fn` in an impl is an ImplItemFn, not an ItemFn; without
    // those hooks every method is missed.
    let src = "\
pub struct S;
impl S { pub unsafe fn m(&self) {} }
pub trait T { unsafe fn t(&self); }
unsafe impl Send for S {}
";
    let r = m(src);
    assert_eq!(r.m.unsafe_fns, 2, "impl method + trait method");
    assert_eq!(r.m.unsafe_impls, 1);
}

#[test]
fn the_denominator_excludes_comments_and_blank_lines() {
    let src = "\
// a comment

/* block
   comment */
pub fn f() {}

";
    let r = m(src);
    // Only `pub fn f() {}` carries tokens.
    assert_eq!(r.code_lines, 1);
}

#[test]
fn static_mut_and_transmute_are_counted() {
    let src = "\
pub static mut COUNTER: u32 = 0;
pub fn f(x: u32) -> i32 { unsafe { core::mem::transmute(x) } }
";
    let r = m(src);
    assert_eq!(r.m.static_mut_items, 1);
    assert_eq!(r.m.transmutes, 1);
}

#[test]
fn an_exported_mutable_static_is_flagged() {
    let src = "#[unsafe(no_mangle)]\npub static mut G: u32 = 0;\n";
    let r = m(src);
    assert_eq!(r.m.ffi_exported_statics, 1);
    assert_eq!(r.m.ffi_exported_statics_mut, 1);
}

#[test]
fn an_unparseable_file_is_excluded_from_both_sides_not_treated_as_safe() {
    // Counting it as zero unsafe while still counting its lines would
    // make the crate look safer than it is.
    let files = vec![
        (
            "src/good.rs".to_owned(),
            "pub unsafe fn a() { let _ = 1; }\n".to_owned(),
        ),
        (
            "src/truncated.rs".to_owned(),
            "pub unsafe fn b() { let _ = 1;\n".to_owned(),
        ),
    ];
    let s = measure_scope(&files);
    assert_eq!(s.files, 1, "only the parseable file is measured");
    assert_eq!(s.files_unparsed, 1);
    assert!(s.partial, "the result must announce it is over a subset");
    assert_eq!(s.unsafe_fns, 1);
    // Its volume is reported but in neither numerator nor denominator.
    assert!(s.unparsed_code_lines > 0);
    assert_eq!(s.code_lines, 1);
    assert_eq!(s.unparsed.len(), 1);
    assert!(s.unparsed[0].path.ends_with("truncated.rs"));
}

#[test]
fn scope_classification_keeps_agent_tests_out_of_the_library() {
    assert_eq!(classify("src/lib.rs"), Some(Scope::Library));
    assert_eq!(classify("src/a/b.rs"), Some(Scope::Library));
    assert_eq!(classify("build.rs"), Some(Scope::Library));
    assert_eq!(classify("tests/t.rs"), Some(Scope::Harness));
    assert_eq!(classify("benches/b.rs"), Some(Scope::Harness));
    // Framework-owned, build output, and held-out suite material.
    assert_eq!(classify("target/debug/x.rs"), None);
    assert_eq!(classify(".harvest/c_src/x.rs"), None);
    assert_eq!(classify("src/../target/x.rs"), None);
    assert_eq!(classify("runner/src/main.rs"), None);
    assert_eq!(classify("gtest_suite/x.rs"), None);
}

#[test]
fn c_line_classifier_ignores_comments_but_not_strings_containing_them() {
    let src = "\
int a;            // trailing comment
/* whole line */
/* multi
   line */ int b;
const char *s = \"/* not a comment */\";
char c = '/';

";
    // int a; | `*/ int b;` | the string line | the char line = 4
    assert_eq!(c_code_lines(src), 4);
}

#[test]
fn c_code_lines_add_up() {
    let s = "int a; /* one */\nint b;\n";
    let t = "x /* open\nstill */ y\n";
    assert_eq!(c_code_lines(s), 2);
    assert_eq!(c_code_lines(t), 2);
    assert_eq!(c_code_lines(&format!("{s}{t}")), 4);
    assert_eq!(c_code_lines(&format!("{s}\n   // c\n /* d */ \n")), 2);
    // Inside a comment they need not.
    assert_eq!(c_code_lines("/*\nint a;\n"), 0);
}

#[test]
fn percentages_are_zero_rather_than_nan_on_empty_input() {
    let s: ScopeMetrics = measure_scope(&Vec::new());
    // There is nothing to take a percentage of.
    assert_eq!(s.code_lines, 0);
    assert_eq!(s.ffi_exported_fns, 0);
    assert_eq!(s.raw_ptrs_total(), 0);
}

#[test]
fn c_sources_are_counted_by_extension() {
    let file = |name: &str, src: &str| (name.to_string(), src.to_string());
    let m = measure_c_source(&vec![
        file("a.c", "int a;\nint b;\n"),
        file("b.H", "int c;\n"),
        file("c.cpp", "int d;\n"),
        file("notes.md", "text\n"),
    ]);
    assert_eq!((m.c.files, m.c.code_lines), (1, 2));
    assert_eq!((m.h.files, m.h.code_lines), (1, 1));
    assert_eq!(m.other_source.files, 1);
}

#[test]
fn scopes_are_measured_apart() {
    let file = |path: &str, text: &str| SourceFile {
        path: path.to_string(),
        content: Some(text.to_string()),
    };
    let m = measure(
        &vec![
            file("src/lib.rs", "pub fn f() {}\n"),
            file("tests/t.rs", "fn g() { unsafe { h() } }\nunsafe fn h() {}\n"),
        ],
        &Vec::new(),
    );
    assert_eq!((m.library.files, m.library.unsafe_blocks), (1, 0));
    assert_eq!((m.harness.files, m.harness.unsafe_blocks), (1, 1));
    assert_eq!(m.other.files, 0);
}

#[test]
fn build_output_is_not_walked() {
    for name in ["target", "CMakeFiles", "_deps", "build", "build-fuzz", ".git"] {
        assert!(skips_c_entry(name), "{name}");
    }
    assert!(!skips_c_entry("src") && !skips_c_entry("builder"));
    assert!(!enters_crate_entry("target") && !enters_crate_entry(".harvest"));
    assert!(enters_crate_entry("src") && enters_crate_entry("."));
    assert_eq!(rust_scope("src/lib.rs"), Some(Scope::Library));
    assert_eq!(rust_scope("src/lib.c"), None);
}

#[test]
fn a_summary_tells_what_was_excluded() {
    let files = vec![
        SourceFile {
            path: "src/lib.rs".to_string(),
            content: Some("pub unsafe fn f(p: *mut u8) {}\n".to_string()),
        },
        SourceFile { path: "src/broken.rs".to_string(), content: Some("fn (\n".to_string()) },
        SourceFile { path: "tests/t.rs".to_string(), content: Some("fn t() {}\n".to_string()) },
    ];
    let c_files = vec![("a.c".to_string(), "int a;\n\nint b;\n".to_string())];
    let metrics = measure(&files, &c_files);
    let lines = log_summary("lz4", &metrics, "100.0", "0.0", "0.50");
    let told: Vec<(bool, &str)> = lines.iter().map(|l| (l.warning, l.text.as_str())).collect();
    assert_eq!(
        told,
        [
            (
                false,
                "  safety[lz4]: 100.0% of 1 code lines unsafe (1 unsafe fn, 0 unsafe blocks)"
            ),
            (
                false,
                "  safety[lz4]: exported surface 0 fns, 0 unsafe, 0 exposing raw pointers (0.0%)"
            ),
            (
                false,
                "  safety[lz4]: raw pointers 1 total (0 const / 1 mut) — 1 declared, 0 in casts, \
                 0 from extern blocks; 0 static mut"
            ),
            (false, "  safety[lz4]: 1 Rust lines / 2 C lines = 0.50"),
            (
                false,
                "  safety[lz4]: excluded from the above — 1 harness file(s), 1 lines, 0 unsafe \
                 block(s) (agent-written tests, not a translation of the C input)"
            ),
            (
                true,
                "  safety[lz4]: PARTIAL — 1 unparsed, 0 unreadable, 1 lines excluded; every \
                 fraction above is over a subset of the crate"
            ),
        ]
    );
}
