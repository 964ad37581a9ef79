//! The C side.

use crate::num;
use crate::path;
use crate::rust_syntax::Lines;
use crate::safety::counts;
use crate::safety::scope;
use crate::text;
use vstd::prelude::*;
use vstd::string::*;

verus! {

// ── The C side ───────────────────────────────────────────────────────────

/// What a line of C holds after the place where a scan stands: whether a block
/// comment is open at its end, and whether it holds code. `block` tells whether
/// a block comment is open, `quote` which literal is.
pub open spec fn scan_line(s: Seq<char>, block: bool, quote: Option<char>, code: bool) -> (
    bool,
    bool,
)
    decreases s.len(),
{
    if s.len() == 0 {
        (block, code)
    } else if block {
        if s[0] == '*' && s.len() > 1 && s[1] == '/' {
            scan_line(s.skip(2), false, quote, code)
        } else {
            scan_line(s.skip(1), true, quote, code)
        }
    } else if quote is Some {
        if s[0] == '\\' {
            if s.len() > 1 {
                scan_line(s.skip(2), false, quote, code)
            } else {
                (false, code)
            }
        } else if s[0] == quote->0 {
            scan_line(s.skip(1), false, None, true)
        } else {
            scan_line(s.skip(1), false, quote, true)
        }
    } else if s[0] == '/' && s.len() > 1 && s[1] == '*' {
        scan_line(s.skip(2), true, None, code)
    } else if s[0] == '/' && s.len() > 1 && s[1] == '/' {
        (false, code)
    } else if s[0] == '"' || s[0] == '\'' {
        scan_line(s.skip(1), false, Some(s[0]), true)
    } else {
        scan_line(s.skip(1), false, None, code || !text::is_space(s[0]))
    }
}

/// Whether a block comment is open after `lines`, and how many of them hold
/// code.
pub open spec fn scan_lines(lines: Seq<Seq<char>>) -> (bool, nat)
    decreases lines.len(),
{
    if lines.len() == 0 {
        (false, 0)
    } else {
        let (block, n) = scan_lines(lines.drop_last());
        let (open, code) = scan_line(lines.last(), block, None, false);
        (open, n + counts::one_if(code))
    }
}

/// The number of lines of C that are neither blank nor pure comment.
pub open spec fn c_lines(src: Seq<char>) -> nat {
    scan_lines(text::lines_of(src)).1
}

fn scan(line: &Vec<char>, block: bool) -> (r: (bool, bool))
    ensures
        r == scan_line(line@, block, None, false),
{
    let mut in_block = block;
    let mut quote: Option<char> = None;
    let mut code = false;
    let mut i: usize = 0;
    let n: usize = line.len();
    assert(line@.skip(0) =~= line@);
    while i < n
        invariant
            i <= n,
            n == line@.len(),
            scan_line(line@.skip(i as int), in_block, quote, code) == scan_line(
                line@,
                block,
                None,
                false,
            ),
        decreases n - i,
    {
        let ghost rest = line@.skip(i as int);
        let c = line[i];
        assert(rest[0] == c);
        if i + 1 < n {
            assert(rest[1] == line@[i + 1]);
        }
        assert(rest.skip(1) =~= line@.skip(i + 1));
        if n - i > 1 {
            assert(rest.skip(2) =~= line@.skip(i + 2));
        }
        if in_block {
            if c == '*' && i + 1 < n && line[i + 1] == '/' {
                in_block = false;
                i = i + 2;
            } else {
                i = i + 1;
            }
            continue;
        }
        if let Some(q) = quote {
            if c == '\\' {
                if i + 1 < n {
                    i = i + 2;
                } else {
                    assert(line@.skip(n as int) =~= seq![]);
                    i = n;
                }
                continue;
            }
            if c == q {
                quote = None;
            }
            code = true;
            i = i + 1;
            continue;
        }
        if c == '/' && i + 1 < n && line[i + 1] == '*' {
            in_block = true;
            i = i + 2;
            continue;
        }
        if c == '/' && i + 1 < n && line[i + 1] == '/' {
            return (false, code);
        }
        if c == '"' || c == '\'' {
            quote = Some(c);
            code = true;
            i = i + 1;
            continue;
        }
        if !text::is_space_char(c) {
            code = true;
        }
        i = i + 1;
    }
    assert(line@.skip(i as int) =~= seq![]);
    (in_block, code)
}

/// How many lines of a C source are anything but blank or comment.
///
/// Block comments are tracked across lines, and string and character literals so
/// that `"/* not a comment */"` cannot open a phantom comment.
pub fn c_code_lines(src: &str) -> (r: usize)
    ensures
        r == c_lines(src@),
{
    let lines = text::lines(src);
    let ghost all = text::texts(lines@);
    let mut in_block = false;
    let mut count: usize = 0;
    let mut i: usize = 0;
    assert(all.take(0) =~= seq![]);
    while i < lines.len()
        invariant
            i <= lines@.len(),
            count <= i,
            all == text::texts(lines@),
            scan_lines(all.take(i as int)) == (in_block, count as nat),
        decreases lines@.len() - i,
    {
        assert(all.take(i + 1).drop_last() =~= all.take(i as int));
        assert(all.take(i + 1).last() == lines@[i as int]@);
        let chars = text::chars_of(lines[i].as_str());
        let (open, code) = scan(&chars, in_block);
        in_block = open;
        if code {
            count = count + 1;
        }
        i = i + 1;
    }
    assert(all.take(i as int) =~= all);
    count
}

/// Whether a block comment is open at the end of a source.
pub open spec fn leaves_comment_open(src: Seq<char>) -> bool {
    scan_lines(text::lines_of(src)).0
}

/// Whether what follows a source starts a new line.
pub open spec fn ends_line(src: Seq<char>) -> bool {
    src.len() == 0 || src.last() == '\n'
}

proof fn scans_add_up(a: Seq<Seq<char>>, b: Seq<Seq<char>>)
    requires
        !scan_lines(a).0,
    ensures
        scan_lines(a + b) == (scan_lines(b).0, scan_lines(a).1 + scan_lines(b).1),
    decreases b.len(),
{
    if b.len() == 0 {
        assert(a + b =~= a);
    } else {
        scans_add_up(a, b.drop_last());
        assert((a + b).drop_last() =~= a + b.drop_last());
        assert((a + b).last() == b.last());
    }
}

/// Where a source ends a line outside a comment, the code lines of what follows are
/// counted as they would be alone.
pub proof fn code_lines_add_up(s: Seq<char>, t: Seq<char>)
    requires
        ends_line(s),
        !leaves_comment_open(s),
    ensures
        c_lines(s + t) == c_lines(s) + c_lines(t),
        leaves_comment_open(s + t) == leaves_comment_open(t),
{
    text::lines_of_concat(s, t);
    scans_add_up(text::lines_of(s), text::lines_of(t));
}

/// A source has at most as many code lines as lines.
pub proof fn code_lines_are_lines(s: Seq<char>)
    ensures
        c_lines(s) <= text::lines_of(s).len(),
{
    scans_are_bounded(text::lines_of(s));
}

proof fn scans_are_bounded(lines: Seq<Seq<char>>)
    ensures
        scan_lines(lines).1 <= lines.len(),
    decreases lines.len(),
{
    if lines.len() > 0 {
        scans_are_bounded(lines.drop_last());
    }
}

pub open spec fn is_blank(s: Seq<char>) -> bool {
    forall|i: int| 0 <= i < s.len() ==> text::is_space(#[trigger] s[i])
}

/// Whether a block comment that starts at `k` is closed first at `e`.
pub open spec fn closes_at(s: Seq<char>, k: int, e: int) -> bool {
    &&& 0 <= k
    &&& k + 2 <= e
    &&& e + 2 <= s.len()
    &&& s[e] == '*' && s[e + 1] == '/'
    &&& forall|j: int| k + 2 <= j < e ==> !(#[trigger] s[j] == '*' && s[j + 1] == '/')
}

/// Whether a line is blank, a line comment, or one closed block comment, with blanks
/// around it.
pub open spec fn is_comment_line(s: Seq<char>) -> bool {
    ||| is_blank(s)
    ||| exists|k: int|
        {
            &&& 0 <= k <= s.len() - 2
            &&& is_blank(#[trigger] s.take(k))
            &&& s[k] == '/'
            &&& s[k + 1] == '/'
        }
    ||| exists|k: int, e: int|
        {
            &&& #[trigger] closes_at(s, k, e)
            &&& is_blank(s.take(k))
            &&& s[k] == '/'
            &&& s[k + 1] == '*'
            &&& is_blank(s.skip(e + 2))
        }
}

proof fn blanks_are_skipped(s: Seq<char>, k: int)
    requires
        0 <= k <= s.len(),
        is_blank(s.take(k)),
    ensures
        scan_line(s, false, None, false) == scan_line(s.skip(k), false, None, false),
    decreases k,
{
    if k == 0 {
        assert(s.skip(0) =~= s);
    } else {
        assert(text::is_space(s.take(k)[0]));
        assert forall|i: int| 0 <= i < k - 1 implies text::is_space(
            #[trigger] s.skip(1).take(k - 1)[i],
        ) by {
            assert(s.skip(1).take(k - 1)[i] == s.take(k)[i + 1]);
        }
        blanks_are_skipped(s.skip(1), k - 1);
        assert(s.skip(1).skip(k - 1) =~= s.skip(k));
    }
}

proof fn comment_is_skipped(s: Seq<char>, e: int)
    requires
        0 <= e,
        e + 2 <= s.len(),
        s[e] == '*' && s[e + 1] == '/',
        forall|j: int| 0 <= j < e ==> !(#[trigger] s[j] == '*' && s[j + 1] == '/'),
    ensures
        scan_line(s, true, None, false) == scan_line(s.skip(e + 2), false, None, false),
    decreases e,
{
    if e > 0 {
        assert(!(s[0] == '*' && s[1] == '/'));
        let rest = s.skip(1);
        assert forall|j: int| 0 <= j < e - 1 implies !(#[trigger] rest[j] == '*' && rest[j + 1]
            == '/') by {
            assert(rest[j] == s[j + 1] && rest[j + 1] == s[j + 2]);
        }
        comment_is_skipped(rest, e - 1);
        assert(rest.skip(e + 1) =~= s.skip(e + 2));
    }
}

proof fn comment_line_has_no_code(s: Seq<char>)
    requires
        is_comment_line(s),
    ensures
        scan_line(s, false, None, false) == (false, false),
{
    if is_blank(s) {
        assert(s.take(s.len() as int) =~= s);
        blanks_are_skipped(s, s.len() as int);
        assert(s.skip(s.len() as int) =~= seq![]);
    } else if exists|k: int|
        0 <= k <= s.len() - 2 && is_blank(#[trigger] s.take(k)) && s[k] == '/' && s[k + 1]
            == '/' {
        let k = choose|k: int|
            0 <= k <= s.len() - 2 && is_blank(#[trigger] s.take(k)) && s[k] == '/' && s[k + 1]
                == '/';
        blanks_are_skipped(s, k);
        assert(s.skip(k)[0] == '/' && s.skip(k)[1] == '/');
    } else {
        let (k, e) = choose|k: int, e: int|
            {
                &&& #[trigger] closes_at(s, k, e)
                &&& is_blank(s.take(k))
                &&& s[k] == '/'
                &&& s[k + 1] == '*'
                &&& is_blank(s.skip(e + 2))
            };
        blanks_are_skipped(s, k);
        let open = s.skip(k);
        assert(open[0] == '/' && open[1] == '*');
        let body = open.skip(2);
        let at = e - k - 2;
        assert(body[at] == s[e] && body[at + 1] == s[e + 1]);
        assert forall|j: int| 0 <= j < at implies !(#[trigger] body[j] == '*' && body[j + 1]
            == '/') by {
            assert(body[j] == s[j + k + 2] && body[j + 1] == s[j + k + 3]);
        }
        comment_is_skipped(body, at);
        let tail = s.skip(e + 2);
        assert(body.skip(at + 2) =~= tail);
        assert(tail.take(tail.len() as int) =~= tail);
        blanks_are_skipped(tail, tail.len() as int);
        assert(tail.skip(tail.len() as int) =~= seq![]);
    }
}

proof fn comment_lines_scan_to_nothing(lines: Seq<Seq<char>>)
    requires
        forall|i: int| 0 <= i < lines.len() ==> is_comment_line(#[trigger] lines[i]),
    ensures
        scan_lines(lines) == (false, 0nat),
    decreases lines.len(),
{
    if lines.len() > 0 {
        let front = lines.drop_last();
        assert forall|i: int| 0 <= i < front.len() implies is_comment_line(#[trigger] front[i]) by {
            assert(front[i] == lines[i]);
        }
        comment_lines_scan_to_nothing(front);
        assert(is_comment_line(lines[lines.len() - 1]));
        comment_line_has_no_code(lines.last());
    }
}

/// Blank lines, line comments and closed block comments that follow a source never
/// change its count.
pub proof fn comments_add_no_code(s: Seq<char>, t: Seq<char>)
    requires
        ends_line(s),
        !leaves_comment_open(s),
        forall|i: int|
            0 <= i < text::lines_of(t).len() ==> is_comment_line(#[trigger] text::lines_of(t)[i]),
    ensures
        c_lines(s + t) == c_lines(s),
        !leaves_comment_open(s + t),
{
    code_lines_add_up(s, t);
    comment_lines_scan_to_nothing(text::lines_of(t));
}

/// Line counts for one language's sources.
#[derive(Debug, Clone, Copy, PartialEq, Eq, Structural)]
pub struct LineCounts {
    pub files: usize,
    pub total_lines: usize,
    /// Lines that are neither blank nor pure comment.
    pub code_lines: usize,
}

impl Default for LineCounts {
    fn default() -> (r: Self)
        ensures
            r == (LineCounts { files: 0, total_lines: 0, code_lines: 0 }),
    {
        LineCounts { files: 0, total_lines: 0, code_lines: 0 }
    }
}

/// The C side of the comparison.
#[derive(Debug, Clone, Copy, PartialEq, Eq, Structural)]
pub struct CSourceMetrics {
    pub c: LineCounts,
    pub h: LineCounts,
    /// Source in other languages, seen and reported but not counted, so that its
    /// volume is not silently invisible.
    pub other_source: LineCounts,
}

/// How a file of the C project is counted.
#[derive(Debug, Clone, Copy, PartialEq, Eq, Structural)]
pub enum CFileClass {
    C,
    H,
    OtherSource,
}

/// How a file is counted, by its extension in any case.
pub open spec fn c_class(name: Seq<char>) -> Option<CFileClass> {
    match path::extension_of(name) {
        None => None,
        Some(e) => {
            let e = text::ascii_lower_of(e);
            if e == "c"@ {
                Some(CFileClass::C)
            } else if e == "h"@ {
                Some(CFileClass::H)
            } else if e == "s"@ || e == "inc"@ || e == "cc"@ || e == "cpp"@ || e == "cxx"@ || e
                == "hpp"@ || e == "in"@ || e == "am"@ {
                Some(CFileClass::OtherSource)
            } else {
                None
            }
        },
    }
}

/// Files, lines and code lines as natural numbers.
pub struct LineTally {
    pub files: nat,
    pub total_lines: nat,
    pub code_lines: nat,
}

/// The lines of the files of one class. Only C and headers have code lines.
pub open spec fn class_lines(
    files: Seq<(Seq<char>, Seq<char>)>,
    class: CFileClass,
) -> LineTally
    decreases files.len(),
{
    if files.len() == 0 {
        LineTally { files: 0, total_lines: 0, code_lines: 0 }
    } else {
        let before = class_lines(files.drop_last(), class);
        let (name, src) = files.last();
        if c_class(name) == Some(class) {
            LineTally {
                files: before.files + 1,
                total_lines: before.total_lines + text::lines_of(src).len(),
                code_lines: before.code_lines + if class == CFileClass::OtherSource {
                    0
                } else {
                    c_lines(src)
                },
            }
        } else {
            before
        }
    }
}

impl LineCounts {
    pub open spec fn counts(&self, t: LineTally) -> bool {
        &&& self.files == num::sat(t.files as int)
        &&& self.total_lines == num::sat(t.total_lines as int)
        &&& self.code_lines == num::sat(t.code_lines as int)
    }
}

impl CSourceMetrics {
    /// Whether these are the metrics of the given files.
    pub open spec fn measures(&self, files: Seq<(Seq<char>, Seq<char>)>) -> bool {
        &&& self.c.counts(class_lines(files, CFileClass::C))
        &&& self.h.counts(class_lines(files, CFileClass::H))
        &&& self.other_source.counts(class_lines(files, CFileClass::OtherSource))
    }
}

fn class_of(name: &str) -> (r: Option<CFileClass>)
    ensures
        r == c_class(name@),
{
    match path::extension(name) {
        None => None,
        Some(e) => {
            let lowered = text::ascii_lower(e.as_str());
            let e = lowered.as_str();
            if text::same(e, "c") {
                Some(CFileClass::C)
            } else if text::same(e, "h") {
                Some(CFileClass::H)
            } else if text::same(e, "s") || text::same(e, "inc") || text::same(e, "cc")
                || text::same(e, "cpp") || text::same(e, "cxx") || text::same(e, "hpp")
                || text::same(e, "in") || text::same(e, "am") {
                Some(CFileClass::OtherSource)
            } else {
                None
            }
        },
    }
}

fn add_lines(dst: &LineCounts, src: &str, code: usize) -> (r: LineCounts)
    ensures
        r.files == num::sat(dst.files + 1),
        r.total_lines == num::sat(dst.total_lines + text::lines_of(src@).len()),
        r.code_lines == num::sat(dst.code_lines + code),
{
    let lines = text::lines(src);
    assert(text::texts(lines@).len() == lines@.len());
    LineCounts {
        files: dst.files.saturating_add(1),
        total_lines: dst.total_lines.saturating_add(lines.len()),
        code_lines: dst.code_lines.saturating_add(code),
    }
}

/// Whether the walk over the C source passes by an entry of that name: build
/// trees and vendored dependencies would swamp the real source.
pub fn skips_c_entry(name: &str) -> (r: bool)
    ensures
        r == (text::has_prefix(name@, "."@) || name@ == "target"@ || name@ == "CMakeFiles"@ || name@
            == "_deps"@ || name@ == "gtest_build"@ || name@ == "verify_env"@ || name@ == "build"@
            || name@ == "build-test"@ || name@ == "build-fuzz"@),
{
    text::starts_with(name, ".") || text::same(name, "target") || text::same(name, "CMakeFiles")
        || text::same(name, "_deps") || text::same(name, "gtest_build") || text::same(
        name,
        "verify_env",
    ) || text::same(name, "build") || text::same(name, "build-test") || text::same(
        name,
        "build-fuzz",
    )
}

/// Measures the C source the translation was made from: the name and the text
/// of each file.
pub fn measure_c_source(files: &Vec<(String, String)>) -> (r: CSourceMetrics)
    ensures
        r.measures(scope::source_views(files@)),
{
    let ghost all = scope::source_views(files@);
    let mut c = LineCounts::default();
    let mut h = LineCounts::default();
    let mut other_source = LineCounts::default();
    let mut i: usize = 0;
    assert(all.take(0) =~= seq![]);
    while i < files.len()
        invariant
            i <= files@.len(),
            all == scope::source_views(files@),
            c.counts(class_lines(all.take(i as int), CFileClass::C)),
            h.counts(class_lines(all.take(i as int), CFileClass::H)),
            other_source.counts(class_lines(all.take(i as int), CFileClass::OtherSource)),
        decreases files@.len() - i,
    {
        assert(all.take(i + 1).drop_last() =~= all.take(i as int));
        assert(all.take(i + 1).last() == (files@[i as int].0@, files@[i as int].1@));
        let src = files[i].1.as_str();
        match class_of(files[i].0.as_str()) {
            Some(CFileClass::C) => {
                c = add_lines(&c, src, c_code_lines(src));
            },
            Some(CFileClass::H) => {
                h = add_lines(&h, src, c_code_lines(src));
            },
            Some(CFileClass::OtherSource) => {
                other_source = add_lines(&other_source, src, 0);
            },
            None => {},
        }
        i = i + 1;
    }
    assert(all.take(i as int) =~= all);
    CSourceMetrics { c, h, other_source }
}

// ── Literals and open comments ───────────────────────────────────────────

/// Whether `s` can stand between two quotes `q`: no quote in it but after a backslash.
pub open spec fn is_literal_body(s: Seq<char>, q: char) -> bool
    decreases s.len(),
{
    ||| s.len() == 0
    ||| s[0] != '\\' && s[0] != q && is_literal_body(s.skip(1), q)
    ||| s[0] == '\\' && s.len() > 1 && is_literal_body(s.skip(2), q)
}

proof fn literals_are_passed(body: Seq<char>, q: char, rest: Seq<char>)
    requires
        is_literal_body(body, q),
        q != '\\',
    ensures
        scan_line(body + seq![q] + rest, false, Some(q), true) == scan_line(rest, false, None, true),
    decreases body.len(),
{
    let s = body + seq![q] + rest;
    if body.len() == 0 {
        assert(s[0] == q);
        assert(s.skip(1) =~= rest);
    } else if body[0] != '\\' {
        assert(s[0] == body[0]);
        literals_are_passed(body.skip(1), q, rest);
        assert(s.skip(1) =~= body.skip(1) + seq![q] + rest);
    } else {
        assert(s[0] == body[0]);
        literals_are_passed(body.skip(2), q, rest);
        assert(s.skip(2) =~= body.skip(2) + seq![q] + rest);
    }
}

/// Whether `s` holds neither quotes nor slashes.
pub open spec fn is_plain_code(s: Seq<char>) -> bool {
    forall|i: int|
        0 <= i < s.len() ==> (#[trigger] s[i]) != '"' && s[i] != '\'' && s[i] != '/'
}

proof fn plain_code_is_passed(a: Seq<char>, q: char, rest: Seq<char>, code: bool)
    requires
        is_plain_code(a),
        q == '"' || q == '\'',
    ensures
        scan_line(a + seq![q] + rest, false, None, code) == scan_line(rest, false, Some(q), true),
    decreases a.len(),
{
    let s = a + seq![q] + rest;
    if a.len() == 0 {
        assert(s[0] == q);
        assert(s.skip(1) =~= rest);
    } else {
        assert(s[0] == a[0]);
        let t = a.skip(1);
        assert(is_plain_code(t)) by {
            assert forall|i: int| 0 <= i < t.len() implies (#[trigger] t[i]) != '"' && t[i] != '\''
                && t[i] != '/' by {
                assert(t[i] == a[i + 1]);
            }
        }
        plain_code_is_passed(t, q, rest, code || !text::is_space(s[0]));
        assert(s.skip(1) =~= t + seq![q] + rest);
    }
}

/// What stands in a string or character literal opens no comment, not even behind a
/// quote with a backslash before it: the line with the literal is a code line, and the
/// lines after it count as they would alone.
pub proof fn literals_open_no_comment(
    src: &str,
    n: usize,
    rest: &str,
    m: usize,
    a: Seq<char>,
    q: char,
    body: Seq<char>,
)
    requires
        call_ensures(c_code_lines, (src,), n),
        call_ensures(c_code_lines, (rest,), m),
        q == '"' || q == '\'',
        is_plain_code(a),
        is_literal_body(body, q),
        text::lines_of(src@) == seq![a + seq![q] + body + seq![q]] + text::lines_of(rest@),
    ensures
        n == m + 1,
{
    let line = a + seq![q] + body + seq![q];
    let end: Seq<char> = seq![];
    assert(line =~= a + seq![q] + (body + seq![q] + end));
    plain_code_is_passed(a, q, body + seq![q] + end, false);
    literals_are_passed(body, q, end);
    let one = seq![line];
    assert(one.drop_last() =~= seq![]);
    assert(scan_lines(one.drop_last()) == (false, 0nat));
    assert(scan_lines(one) == (false, 1nat));
    scans_add_up(one, text::lines_of(rest@));
}

/// Whether no block comment ends in `s`.
pub open spec fn closes_nothing(s: Seq<char>) -> bool {
    forall|i: int| 0 <= i < s.len() - 1 ==> !((#[trigger] s[i]) == '*' && s[i + 1] == '/')
}

proof fn comments_stay_open(s: Seq<char>, code: bool)
    requires
        closes_nothing(s),
    ensures
        scan_line(s, true, None, code) == (true, code),
    decreases s.len(),
{
    if s.len() > 0 {
        if s.len() > 1 {
            assert(!(s[0] == '*' && s[1] == '/'));
        }
        let t = s.skip(1);
        assert forall|i: int| 0 <= i < t.len() - 1 implies !((#[trigger] t[i]) == '*' && t[i + 1]
            == '/') by {
            assert(t[i] == s[i + 1]);
            assert(t[i + 1] == s[i + 2]);
        }
        comments_stay_open(t, code);
    }
}

proof fn open_comments_hide(first: Seq<char>, more: Seq<Seq<char>>)
    requires
        closes_nothing(first),
        forall|i: int| 0 <= i < more.len() ==> closes_nothing(#[trigger] more[i]),
    ensures
        scan_lines(seq![seq!['/', '*'] + first] + more) == (true, 0nat),
    decreases more.len(),
{
    let head = seq!['/', '*'] + first;
    let all = seq![head] + more;
    if more.len() == 0 {
        assert(all =~= seq![head]);
        assert(all.drop_last() =~= seq![]);
        assert(scan_lines(all.drop_last()) == (false, 0nat));
        assert(head[0] == '/' && head[1] == '*');
        assert(head.skip(2) =~= first);
        comments_stay_open(first, false);
    } else {
        open_comments_hide(first, more.drop_last());
        assert(all.drop_last() =~= seq![head] + more.drop_last());
        assert(all.last() == more.last());
        assert(closes_nothing(more[more.len() - 1]));
        comments_stay_open(more.last(), false);
    }
}

/// A block comment goes on over the lines until it is closed: what stands in it is no
/// code, whatever it looks like.
pub proof fn open_comments_hide_what_follows(
    src: &str,
    n: usize,
    first: Seq<char>,
    more: Seq<Seq<char>>,
)
    requires
        call_ensures(c_code_lines, (src,), n),
        text::lines_of(src@) == seq![seq!['/', '*'] + first] + more,
        closes_nothing(first),
        forall|i: int| 0 <= i < more.len() ==> closes_nothing(#[trigger] more[i]),
    ensures
        n == 0,
{
    open_comments_hide(first, more);
}

proof fn comments_end(s: Seq<char>, rest: Seq<char>)
    requires
        closes_nothing(s + seq!['*']),
    ensures
        scan_line(s + seq!['*', '/'] + rest, true, None, false) == scan_line(
            rest,
            false,
            None,
            false,
        ),
    decreases s.len(),
{
    let whole = s + seq!['*', '/'] + rest;
    if s.len() == 0 {
        assert(whole[0] == '*' && whole[1] == '/');
        assert(whole.skip(2) =~= rest);
    } else {
        let t = s.skip(1);
        let w = s + seq!['*'];
        let v = t + seq!['*'];
        assert(whole[0] == w[0]);
        assert(whole[1] == w[1]);
        assert(!(w[0] == '*' && w[1] == '/'));
        assert forall|i: int| 0 <= i < v.len() - 1 implies !((#[trigger] v[i]) == '*' && v[i + 1]
            == '/') by {
            assert(v[i] == w[i + 1]);
            assert(v[i + 1] == w[i + 2]);
        }
        comments_end(t, rest);
        assert(whole.skip(1) =~= t + seq!['*', '/'] + rest);
    }
}

/// Code that follows the end of a comment on its line counts as it would without the
/// comment.
pub proof fn code_after_a_comment_counts(
    src: &str,
    n: usize,
    bare: &str,
    m: usize,
    inside: Seq<char>,
    rest: Seq<char>,
)
    requires
        call_ensures(c_code_lines, (src,), n),
        call_ensures(c_code_lines, (bare,), m),
        closes_nothing(inside + seq!['*']),
        text::lines_of(src@) == seq![seq!['/', '*'] + inside + seq!['*', '/'] + rest],
        text::lines_of(bare@) == seq![rest],
    ensures
        n == m,
{
    let line = seq!['/', '*'] + inside + seq!['*', '/'] + rest;
    assert(line[0] == '/' && line[1] == '*');
    assert(line.skip(2) =~= inside + seq!['*', '/'] + rest);
    comments_end(inside, rest);
    let a = seq![line];
    let b = seq![rest];
    assert(a.drop_last() =~= seq![]);
    assert(b.drop_last() =~= seq![]);
    assert(scan_lines(a.drop_last()) == (false, 0nat));
    assert(scan_lines(b.drop_last()) == (false, 0nat));
}

} // verus!
