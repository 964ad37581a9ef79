//! The safety metrics as lines of a run log.

use crate::num;
use crate::safety::pointers::PtrCounts;
use crate::safety::program::SafetyMetrics;
use crate::safety::scope::ScopeMetrics;
use crate::text;
use vstd::prelude::*;
use vstd::string::*;

verus! {

/// A line of a log.
#[derive(Debug, PartialEq, Eq)]
pub struct LogLine {
    /// A warning rather than information.
    pub warning: bool,
    pub text: String,
}

pub open spec fn line_views(v: Seq<LogLine>) -> Seq<(bool, Seq<char>)> {
    v.map_values(|l: LogLine| (l.warning, l.text@))
}

/// A number in decimal digits.
pub open spec fn digits(n: usize) -> Seq<char> {
    text::decimal_of(n as nat)
}

pub open spec fn heading(program: Seq<char>) -> Seq<char> {
    "  safety["@ + program + "]: "@
}

pub open spec fn consts_in(p: PtrCounts) -> usize {
    num::sat(p.direct_const + p.alias_const)
}

pub open spec fn muts_in(p: PtrCounts) -> usize {
    num::sat(p.direct_mut + p.alias_mut)
}

pub open spec fn ptrs_in(p: PtrCounts) -> usize {
    num::sat(p.direct_const + p.direct_mut + p.alias_const + p.alias_mut)
}

pub open spec fn lines_line(program: Seq<char>, lib: ScopeMetrics, pct: Seq<char>) -> Seq<char> {
    heading(program) + pct + "% of "@ + digits(lib.code_lines) + " code lines unsafe ("@ + digits(
        lib.unsafe_fns,
    ) + " unsafe fn, "@ + digits(lib.unsafe_blocks) + " unsafe blocks)"@
}

pub open spec fn surface_line(program: Seq<char>, lib: ScopeMetrics, pct: Seq<char>) -> Seq<char> {
    heading(program) + "exported surface "@ + digits(lib.ffi_exported_fns) + " fns, "@ + digits(
        lib.ffi_exported_unsafe,
    ) + " unsafe, "@ + digits(lib.ffi_exported_raw_ptr) + " exposing raw pointers ("@ + pct
        + "%)"@
}

pub open spec fn pointers_line(program: Seq<char>, lib: ScopeMetrics) -> Seq<char> {
    heading(program) + "raw pointers "@ + digits(
        num::sat(ptrs_in(lib.ptr_decl) + ptrs_in(lib.ptr_cast) + ptrs_in(lib.ptr_extern)),
    ) + " total ("@ + digits(
        num::sat(consts_in(lib.ptr_decl) + consts_in(lib.ptr_cast) + consts_in(lib.ptr_extern)),
    ) + " const / "@ + digits(
        num::sat(muts_in(lib.ptr_decl) + muts_in(lib.ptr_cast) + muts_in(lib.ptr_extern)),
    ) + " mut) — "@ + digits(ptrs_in(lib.ptr_decl)) + " declared, "@ + digits(
        ptrs_in(lib.ptr_cast),
    ) + " in casts, "@ + digits(ptrs_in(lib.ptr_extern)) + " from extern blocks; "@ + digits(
        num::sat(lib.static_mut_items + lib.extern_static_mut_items),
    ) + " static mut"@
}

pub open spec fn ratio_line(program: Seq<char>, m: SafetyMetrics, ratio: Seq<char>) -> Seq<char> {
    heading(program) + digits(m.library.code_lines) + " Rust lines / "@ + digits(
        m.c_source.c.code_lines,
    ) + " C lines = "@ + ratio
}

pub open spec fn harness_line(program: Seq<char>, h: ScopeMetrics) -> Seq<char> {
    heading(program) + "excluded from the above — "@ + digits(h.files) + " harness file(s), "@
        + digits(h.code_lines) + " lines, "@ + digits(h.unsafe_blocks)
        + " unsafe block(s) (agent-written tests, not a translation of the C input)"@
}

pub open spec fn partial_line(program: Seq<char>, lib: ScopeMetrics) -> Seq<char> {
    heading(program) + "PARTIAL — "@ + digits(lib.files_unparsed) + " unparsed, "@ + digits(
        lib.files_unreadable,
    ) + " unreadable, "@ + digits(lib.unparsed_code_lines)
        + " lines excluded; every fraction above is over a subset of the crate"@
}

/// The lines of a summary. The percentages and the ratio come with their digits
/// already chosen; there is a ratio when the C side has code lines.
pub open spec fn summary_of(
    program: Seq<char>,
    m: SafetyMetrics,
    unsafe_pct: Seq<char>,
    exposed_pct: Seq<char>,
    ratio: Seq<char>,
) -> Seq<(bool, Seq<char>)> {
    seq![
        (false, lines_line(program, m.library, unsafe_pct)),
        (false, surface_line(program, m.library, exposed_pct)),
        (false, pointers_line(program, m.library)),
    ] + (if m.c_source.c.code_lines > 0 {
        seq![(false, ratio_line(program, m, ratio))]
    } else {
        seq![]
    }) + (if m.harness.files > 0 {
        seq![(false, harness_line(program, m.harness))]
    } else {
        seq![]
    }) + (if m.library.partial {
        seq![(true, partial_line(program, m.library))]
    } else {
        seq![]
    })
}

fn add_number(s: &mut String, n: usize)
    ensures
        final(s)@ == old(s)@ + digits(n),
{
    let d = text::decimal(n as u64);
    s.append(d.as_str());
}

fn start_line(program: &str) -> (r: String)
    ensures
        r@ == heading(program@),
{
    let mut s = "  safety[".to_owned();
    s.append(program);
    s.append("]: ");
    s
}

fn show_pointers(program: &str, lib: &ScopeMetrics) -> (r: String)
    ensures
        r@ == pointers_line(program@, *lib),
{
    let mut s = start_line(program);
    s.append("raw pointers ");
    add_number(&mut s, lib.raw_ptrs_total());
    s.append(" total (");
    let consts = lib.ptr_decl.consts().saturating_add(lib.ptr_cast.consts()).saturating_add(
        lib.ptr_extern.consts(),
    );
    add_number(&mut s, consts);
    s.append(" const / ");
    let muts = lib.ptr_decl.muts().saturating_add(lib.ptr_cast.muts()).saturating_add(
        lib.ptr_extern.muts(),
    );
    add_number(&mut s, muts);
    s.append(" mut) — ");
    add_number(&mut s, lib.ptr_decl.total());
    s.append(" declared, ");
    add_number(&mut s, lib.ptr_cast.total());
    s.append(" in casts, ");
    add_number(&mut s, lib.ptr_extern.total());
    s.append(" from extern blocks; ");
    add_number(&mut s, lib.static_mut_items.saturating_add(lib.extern_static_mut_items));
    s.append(" static mut");
    s
}

/// Human-readable summary for the run log. The percentages of unsafe lines and
/// of exposed raw pointers and the Rust/C ratio are given as text.
pub fn log_summary(
    program: &str,
    m: &SafetyMetrics,
    unsafe_pct: &str,
    exposed_pct: &str,
    ratio: &str,
) -> (r: Vec<LogLine>)
    ensures
        line_views(r@) == summary_of(program@, *m, unsafe_pct@, exposed_pct@, ratio@),
{
    let lib = &m.library;
    let mut out: Vec<LogLine> = Vec::new();

    let mut s = start_line(program);
    s.append(unsafe_pct);
    s.append("% of ");
    add_number(&mut s, lib.code_lines);
    s.append(" code lines unsafe (");
    add_number(&mut s, lib.unsafe_fns);
    s.append(" unsafe fn, ");
    add_number(&mut s, lib.unsafe_blocks);
    s.append(" unsafe blocks)");
    out.push(LogLine { warning: false, text: s });

    let mut s = start_line(program);
    s.append("exported surface ");
    add_number(&mut s, lib.ffi_exported_fns);
    s.append(" fns, ");
    add_number(&mut s, lib.ffi_exported_unsafe);
    s.append(" unsafe, ");
    add_number(&mut s, lib.ffi_exported_raw_ptr);
    s.append(" exposing raw pointers (");
    s.append(exposed_pct);
    s.append("%)");
    out.push(LogLine { warning: false, text: s });

    out.push(LogLine { warning: false, text: show_pointers(program, lib) });
    let ghost first = line_views(out@);
    assert(first =~= seq![
        (false, lines_line(program@, m.library, unsafe_pct@)),
        (false, surface_line(program@, m.library, exposed_pct@)),
        (false, pointers_line(program@, m.library)),
    ]);

    if m.c_source.c.code_lines > 0 {
        let mut s = start_line(program);
        add_number(&mut s, lib.code_lines);
        s.append(" Rust lines / ");
        add_number(&mut s, m.c_source.c.code_lines);
        s.append(" C lines = ");
        s.append(ratio);
        out.push(LogLine { warning: false, text: s });
    }
    let ghost second = first + (if m.c_source.c.code_lines > 0 {
        seq![(false, ratio_line(program@, *m, ratio@))]
    } else {
        seq![]
    });
    assert(line_views(out@) =~= second);

    if m.harness.files > 0 {
        let mut s = start_line(program);
        s.append("excluded from the above — ");
        add_number(&mut s, m.harness.files);
        s.append(" harness file(s), ");
        add_number(&mut s, m.harness.code_lines);
        s.append(" lines, ");
        add_number(&mut s, m.harness.unsafe_blocks);
        s.append(" unsafe block(s) (agent-written tests, not a translation of the C input)");
        out.push(LogLine { warning: false, text: s });
    }
    let ghost third = second + (if m.harness.files > 0 {
        seq![(false, harness_line(program@, m.harness))]
    } else {
        seq![]
    });
    assert(line_views(out@) =~= third);

    if lib.partial {
        let mut s = start_line(program);
        s.append("PARTIAL — ");
        add_number(&mut s, lib.files_unparsed);
        s.append(" unparsed, ");
        add_number(&mut s, lib.files_unreadable);
        s.append(" unreadable, ");
        add_number(&mut s, lib.unparsed_code_lines);
        s.append(" lines excluded; every fraction above is over a subset of the crate");
        out.push(LogLine { warning: true, text: s });
    }
    assert(line_views(out@) =~= third + (if m.library.partial {
        seq![(true, partial_line(program@, m.library))]
    } else {
        seq![]
    }));
    out
}

} // verus!
