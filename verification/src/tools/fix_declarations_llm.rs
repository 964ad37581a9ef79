//! Repairing declarations that have compiler errors: which declaration an error
//! belongs to, what a language model is asked, and how its answers are patched
//! into the sources.

use crate::bytes;
use crate::fs::raw_dir;
use crate::fs::raw_dir::{DirView, GetFileError, RawDir};
use crate::path;
use crate::text;
use crate::tools::stubs;
use vstd::prelude::*;
use vstd::string::*;
use vstd::utf8::*;

verus! {

/// Where a compiler message points to.
#[derive(Debug)]
pub struct ErrorSpan {
    pub file_name: String,
    pub byte_start: u32,
    pub byte_end: u32,
}

/// A compiler message.
#[derive(Debug)]
pub struct BuildMessage {
    /// Whether it is an error, and not only a warning or a note.
    pub is_error: bool,
    pub message: String,
    pub spans: Vec<ErrorSpan>,
}

/// The declarations of a file, as byte ranges.
#[derive(Debug)]
pub struct FileItems {
    pub file_name: String,
    pub ranges: Vec<(usize, usize)>,
}

/// The errors of one declaration. Without a range the errors lie in no
/// declaration, and stand for the whole file.
#[derive(Debug)]
pub struct DeclErrors {
    pub file_name: String,
    pub range: Option<(usize, usize)>,
    pub messages: Vec<String>,
}

pub struct DeclErrorsView {
    pub file_name: Seq<char>,
    pub range: Option<(usize, usize)>,
    pub messages: Seq<Seq<char>>,
}

impl DeclErrors {
    pub open spec fn view(&self) -> DeclErrorsView {
        DeclErrorsView {
            file_name: self.file_name@,
            range: self.range,
            messages: text::texts(self.messages@),
        }
    }
}

pub open spec fn decl_views(v: Seq<DeclErrors>) -> Seq<DeclErrorsView> {
    v.map_values(|d: DeclErrors| d.view())
}

/// Why the errors cannot be attributed.
#[derive(Debug, PartialEq, Eq)]
pub enum FixError {
    /// An error lies in a file that the package does not hold.
    File(GetFileError),
    /// Nothing is known of the declarations of the file.
    NoItems,
}

// ── Attribution ──────────────────────────────────────────────────────────

/// An error at one place.
pub struct Located {
    pub file_name: Seq<char>,
    pub start: u32,
    pub end: u32,
    pub message: Seq<char>,
}

pub open spec fn located_in(spans: Seq<ErrorSpan>, message: Seq<char>) -> Seq<Located> {
    spans.map_values(
        |s: ErrorSpan| Located {
            file_name: s.file_name@,
            start: s.byte_start,
            end: s.byte_end,
            message,
        },
    )
}

/// The errors among some messages, place by place.
pub open spec fn located_errors(messages: Seq<BuildMessage>) -> Seq<Located>
    decreases messages.len(),
{
    if messages.len() == 0 {
        seq![]
    } else {
        let before = located_errors(messages.drop_last());
        if messages.last().is_error {
            before + located_in(messages.last().spans@, messages.last().message@)
        } else {
            before
        }
    }
}

pub open spec fn range_holds(r: (usize, usize), i: u32) -> bool {
    r.0 <= i < r.1
}

/// The first declaration that holds both ends of a span.
pub open spec fn decl_at(ranges: Seq<(usize, usize)>, start: u32, end: u32) -> Option<
    (usize, usize),
>
    decreases ranges.len(),
{
    if ranges.len() == 0 {
        None
    } else if range_holds(ranges[0], start) && range_holds(ranges[0], end) {
        Some(ranges[0])
    } else {
        decl_at(ranges.skip(1), start, end)
    }
}

/// The declarations of a file.
pub open spec fn items_of(items: Seq<FileItems>, file_name: Seq<char>) -> Option<
    Seq<(usize, usize)>,
>
    decreases items.len(),
{
    if items.len() == 0 {
        None
    } else if path::components_of(items[0].file_name@) == path::components_of(file_name) {
        Some(items[0].ranges@)
    } else {
        items_of(items.skip(1), file_name)
    }
}

pub open spec fn is_group(g: DeclErrorsView, file_name: Seq<char>, range: Option<(usize, usize)>) -> bool {
    path::components_of(g.file_name) == path::components_of(file_name) && g.range == range
}

/// `groups` with a message added to its declaration.
pub open spec fn with_message(
    groups: Seq<DeclErrorsView>,
    file_name: Seq<char>,
    range: Option<(usize, usize)>,
    message: Seq<char>,
) -> Seq<DeclErrorsView>
    decreases groups.len(),
{
    if groups.len() == 0 {
        seq![DeclErrorsView { file_name, range, messages: seq![message] }]
    } else if is_group(groups[0], file_name, range) {
        groups.update(
            0,
            DeclErrorsView { messages: groups[0].messages.push(message), ..groups[0] },
        )
    } else {
        seq![groups[0]] + with_message(groups.skip(1), file_name, range, message)
    }
}

/// The errors by declaration, in order of first appearance.
pub open spec fn attributed(dir: DirView, items: Seq<FileItems>, errors: Seq<Located>) -> Result<
    Seq<DeclErrorsView>,
    FixError,
>
    decreases errors.len(),
{
    if errors.len() == 0 {
        Ok(seq![])
    } else {
        let e = errors.last();
        match attributed(dir, items, errors.drop_last()) {
            Err(f) => Err(f),
            Ok(groups) => match raw_dir::read_path(dir, e.file_name) {
                Err(g) => Err(FixError::File(g)),
                Ok(_) => match items_of(items, e.file_name) {
                    None => Err(FixError::NoItems),
                    Some(ranges) => Ok(
                        with_message(groups, e.file_name, decl_at(ranges, e.start, e.end), e.message),
                    ),
                },
            },
        }
    }
}

proof fn failure_stays(dir: DirView, items: Seq<FileItems>, errors: Seq<Located>, n: int)
    requires
        0 <= n <= errors.len(),
        attributed(dir, items, errors.take(n)) is Err,
    ensures
        attributed(dir, items, errors) == attributed(dir, items, errors.take(n)),
    decreases errors.len() - n,
{
    if n == errors.len() {
        assert(errors.take(n) =~= errors);
    } else {
        assert(errors.take(n + 1).drop_last() =~= errors.take(n));
        failure_stays(dir, items, errors, n + 1);
    }
}

fn find_decl(ranges: &Vec<(usize, usize)>, start: u32, end: u32) -> (r: Option<(usize, usize)>)
    ensures
        r == decl_at(ranges@, start, end),
{
    let mut i: usize = 0;
    assert(ranges@.skip(0) =~= ranges@);
    while i < ranges.len()
        invariant
            i <= ranges@.len(),
            decl_at(ranges@, start, end) == decl_at(ranges@.skip(i as int), start, end),
        decreases ranges@.len() - i,
    {
        let (a, b) = ranges[i];
        assert(ranges@.skip(i as int)[0] == (a, b));
        assert(ranges@.skip(i as int).skip(1) =~= ranges@.skip(i + 1));
        if a <= start as usize && (start as usize) < b && a <= end as usize && (end as usize) < b {
            return Some((a, b));
        }
        i = i + 1;
    }
    None
}

fn find_items<'a>(items: &'a Vec<FileItems>, file_name: &str) -> (r: Option<&'a Vec<(usize, usize)>>)
    ensures
        (match r {
            Some(v) => items_of(items@, file_name@) == Some(v@),
            None => items_of(items@, file_name@) is None,
        }),
{
    let mut i: usize = 0;
    assert(items@.skip(0) =~= items@);
    while i < items.len()
        invariant
            i <= items@.len(),
            items_of(items@, file_name@) == items_of(items@.skip(i as int), file_name@),
        decreases items@.len() - i,
    {
        assert(items@.skip(i as int)[0] == items@[i as int]);
        assert(items@.skip(i as int).skip(1) =~= items@.skip(i + 1));
        if path::same_path(items[i].file_name.as_str(), file_name) {
            return Some(&items[i].ranges);
        }
        i = i + 1;
    }
    None
}

fn same_range(a: Option<(usize, usize)>, b: Option<(usize, usize)>) -> (r: bool)
    ensures
        r == (a == b),
{
    match (a, b) {
        (None, None) => true,
        (Some(x), Some(y)) => x.0 == y.0 && x.1 == y.1,
        _ => false,
    }
}

/// The place of the group of a declaration, or the end.
fn group_place(groups: &Vec<DeclErrors>, file_name: &str, range: Option<(usize, usize)>) -> (r:
    usize)
    ensures
        r <= groups@.len(),
        forall|j: int|
            0 <= j < r ==> !is_group(#[trigger] decl_views(groups@)[j], file_name@, range),
        r < groups@.len() ==> is_group(decl_views(groups@)[r as int], file_name@, range),
{
    let mut i: usize = 0;
    while i < groups.len()
        invariant
            i <= groups@.len(),
            forall|j: int|
                0 <= j < i ==> !is_group(#[trigger] decl_views(groups@)[j], file_name@, range),
        decreases groups@.len() - i,
    {
        assert(decl_views(groups@)[i as int] == groups@[i as int].view());
        if path::same_path(groups[i].file_name.as_str(), file_name) && same_range(
            groups[i].range,
            range,
        ) {
            return i;
        }
        i = i + 1;
    }
    i
}

proof fn with_message_at(
    groups: Seq<DeclErrorsView>,
    file_name: Seq<char>,
    range: Option<(usize, usize)>,
    message: Seq<char>,
    n: int,
)
    requires
        0 <= n <= groups.len(),
        forall|j: int| 0 <= j < n ==> !is_group(#[trigger] groups[j], file_name, range),
        n < groups.len() ==> is_group(groups[n], file_name, range),
    ensures
        with_message(groups, file_name, range, message) == (if n < groups.len() {
            groups.update(
                n,
                DeclErrorsView { messages: groups[n].messages.push(message), ..groups[n] },
            )
        } else {
            groups.push(DeclErrorsView { file_name, range, messages: seq![message] })
        }),
    decreases n,
{
    let all = with_message(groups, file_name, range, message);
    if n == 0 {
        if groups.len() == 0 {
            assert(all =~= groups.push(
                DeclErrorsView { file_name, range, messages: seq![message] },
            ));
        }
    } else {
        assert(!is_group(groups[0], file_name, range));
        let rest = groups.skip(1);
        assert forall|j: int| 0 <= j < n - 1 implies !is_group(#[trigger] rest[j], file_name, range) by {
            assert(!is_group(groups[j + 1], file_name, range));
        }
        with_message_at(rest, file_name, range, message, n - 1);
        if n < groups.len() {
            assert(rest[n - 1] == groups[n]);
            assert(all =~= groups.update(
                n,
                DeclErrorsView { messages: groups[n].messages.push(message), ..groups[n] },
            ));
        } else {
            assert(all =~= groups.push(
                DeclErrorsView { file_name, range, messages: seq![message] },
            ));
        }
    }
}

fn add_message(
    groups: &mut Vec<DeclErrors>,
    file_name: &str,
    range: Option<(usize, usize)>,
    message: &str,
)
    ensures
        decl_views(final(groups)@) == with_message(
            decl_views(old(groups)@),
            file_name@,
            range,
            message@,
        ),
{
    broadcast use text::group_texts;

    let ghost before = decl_views(groups@);
    let at = group_place(groups, file_name, range);
    proof {
        with_message_at(before, file_name@, range, message@, at as int);
    }
    if at < groups.len() {
        let ghost old_group = groups@[at as int].view();
        let m = message.to_owned();
        groups[at].messages.push(m);
        assert(groups@[at as int].view() == (DeclErrorsView {
            messages: old_group.messages.push(message@),
            ..old_group
        }));
        assert(decl_views(groups@) =~= before.update(at as int, groups@[at as int].view()));
    } else {
        let g = DeclErrors {
            file_name: file_name.to_owned(),
            range,
            messages: vec![message.to_owned()],
        };
        assert(text::texts(g.messages@) =~= seq![message@]);
        let ghost view = g.view();
        groups.push(g);
        assert(decl_views(groups@) =~= before.push(view));
    }
}

/// An error at one place, with its message.
struct LocatedRef<'a> {
    span: &'a ErrorSpan,
    message: &'a str,
}

impl<'a> LocatedRef<'a> {
    spec fn view(&self) -> Located {
        Located {
            file_name: self.span.file_name@,
            start: self.span.byte_start,
            end: self.span.byte_end,
            message: self.message@,
        }
    }
}

spec fn located_views(v: Seq<LocatedRef>) -> Seq<Located> {
    v.map_values(|l: LocatedRef| l.view())
}

fn locate_errors<'a>(messages: &'a Vec<BuildMessage>) -> (r: Vec<LocatedRef<'a>>)
    ensures
        located_views(r@) == located_errors(messages@),
{
    let mut out: Vec<LocatedRef<'a>> = Vec::new();
    let mut i: usize = 0;
    assert(messages@.take(0) =~= seq![]);
    assert(located_views(out@) =~= seq![]);
    while i < messages.len()
        invariant
            i <= messages@.len(),
            located_views(out@) == located_errors(messages@.take(i as int)),
        decreases messages@.len() - i,
    {
        assert(messages@.take(i + 1).drop_last() =~= messages@.take(i as int));
        let m = &messages[i];
        if m.is_error {
            let ghost before = located_views(out@);
            let ghost here = located_in(m.spans@, m.message@);
            let mut k: usize = 0;
            assert(before + here.take(0) =~= before);
            while k < m.spans.len()
                invariant
                    k <= m.spans@.len(),
                    here == located_in(m.spans@, m.message@),
                    located_views(out@) == before + here.take(k as int),
                decreases m.spans@.len() - k,
            {
                let l = LocatedRef { span: &m.spans[k], message: m.message.as_str() };
                let ghost so_far = located_views(out@);
                let ghost view = l.view();
                out.push(l);
                assert(located_views(out@) =~= so_far.push(view));
                assert(before + here.take(k + 1) =~= (before + here.take(k as int)).push(view));
                k = k + 1;
            }
            assert(here.take(k as int) =~= here);
        }
        i = i + 1;
    }
    assert(messages@.take(i as int) =~= messages@);
    out
}

/// Attributes every compiler error to the declaration that holds it, once for
/// each place it points to. An error that crosses declarations is attributed to
/// the whole file.
pub fn attribute_errors(
    dir: &RawDir,
    items: &Vec<FileItems>,
    messages: &Vec<BuildMessage>,
) -> (r: Result<Vec<DeclErrors>, FixError>)
    requires
        dir.wf(),
    ensures
        (match r {
            Ok(v) => attributed(dir.view(), items@, located_errors(messages@)) == Ok::<
                Seq<DeclErrorsView>,
                FixError,
            >(decl_views(v@)),
            Err(e) => attributed(dir.view(), items@, located_errors(messages@)) == Err::<
                Seq<DeclErrorsView>,
                FixError,
            >(e),
        }),
{
    let errors = locate_errors(messages);
    let ghost all = located_views(errors@);
    let mut groups: Vec<DeclErrors> = Vec::new();
    let mut i: usize = 0;
    assert(all.take(0) =~= seq![]);
    assert(decl_views(groups@) =~= seq![]);
    while i < errors.len()
        invariant
            i <= errors@.len(),
            dir.wf(),
            all == located_views(errors@),
            all == located_errors(messages@),
            attributed(dir.view(), items@, all.take(i as int)) == Ok::<
                Seq<DeclErrorsView>,
                FixError,
            >(decl_views(groups@)),
        decreases errors@.len() - i,
    {
        let ghost next = all.take(i + 1);
        assert(next.drop_last() =~= all.take(i as int));
        assert(next.last() == errors@[i as int].view());
        let e = &errors[i];
        let file_name = e.span.file_name.as_str();
        match dir.get_file(file_name) {
            Err(g) => {
                proof {
                    failure_stays(dir.view(), items@, all, i + 1);
                }
                return Err(FixError::File(g));
            },
            Ok(_) => {},
        }
        match find_items(items, file_name) {
            None => {
                proof {
                    failure_stays(dir.view(), items@, all, i + 1);
                }
                return Err(FixError::NoItems);
            },
            Some(ranges) => {
                let decl = find_decl(ranges, e.span.byte_start, e.span.byte_end);
                add_message(&mut groups, file_name, decl, e.message);
            },
        }
        i = i + 1;
    }
    assert(all.take(i as int) =~= all);
    Ok(groups)
}

// ── What the model is asked ──────────────────────────────────────────────

pub open spec fn range_fits(range: Option<(usize, usize)>, len: int) -> bool {
    match range {
        Some(r) => r.0 <= r.1 <= len,
        None => true,
    }
}

pub open spec fn decl_bytes(source: Seq<u8>, range: Option<(usize, usize)>) -> Seq<u8> {
    match range {
        Some(r) => source.subrange(r.0 as int, r.1 as int),
        None => source,
    }
}

/// The text of a declaration, if it is text.
pub fn decl_text(source: &Vec<u8>, range: Option<(usize, usize)>) -> (r: Option<String>)
    requires
        range_fits(range, source@.len() as int),
    ensures
        (match r {
            Some(s) => valid_utf8(decl_bytes(source@, range)) && s@ == decode_utf8(
                decl_bytes(source@, range),
            ),
            None => !valid_utf8(decl_bytes(source@, range)),
        }),
{
    let mut part: Vec<u8> = Vec::new();
    match range {
        Some((a, b)) => {
            bytes::append_range(&mut part, source.as_slice(), a, b);
        },
        None => {
            bytes::append(&mut part, source.as_slice());
        },
    }
    assert(part@ =~= decl_bytes(source@, range));
    bytes::utf8_text(part.as_slice())
}

/// The errors of a declaration as one text.
pub fn errors_text(decl: &DeclErrors) -> (r: String)
    ensures
        r@ == text::join_of(decl.view().messages, "\n\n"@),
{
    text::join(&decl.messages, "\n\n")
}

/// The declarations of a source with their bodies left out, as far as there is
/// such a text.
pub open spec fn range_stubs(source: Seq<u8>, ranges: Seq<(usize, usize)>) -> Seq<Seq<char>>
    decreases ranges.len(),
{
    if ranges.len() == 0 {
        seq![]
    } else {
        let before = range_stubs(source, ranges.drop_last());
        match stubs::declaration_stub(
            source.subrange(ranges.last().0 as int, ranges.last().1 as int),
        ) {
            Some(s) => before.push(s),
            None => before,
        }
    }
}

/// The declarations of a package with their bodies left out.
pub open spec fn package_stubs(dir: DirView, items: Seq<FileItems>) -> Seq<Seq<char>>
    decreases items.len(),
{
    if items.len() == 0 {
        seq![]
    } else {
        let before = package_stubs(dir, items.drop_last());
        match raw_dir::read_path(dir, items.last().file_name@) {
            Ok(source) => before + range_stubs(source, items.last().ranges@),
            Err(_) => before,
        }
    }
}

/// Whether the declarations lie in their files.
pub open spec fn items_fit(dir: DirView, items: Seq<FileItems>) -> bool {
    forall|i: int, k: int|
        #![trigger items[i].ranges@[k]]
        0 <= i < items.len() && 0 <= k < items[i].ranges@.len() ==> (match raw_dir::read_path(
            dir,
            items[i].file_name@,
        ) {
            Ok(source) => items[i].ranges@[k].0 <= items[i].ranges@[k].1 <= source.len(),
            Err(_) => true,
        })
}

fn push_stubs(out: &mut Vec<String>, source: &Vec<u8>, ranges: &Vec<(usize, usize)>)
    requires
        forall|k: int|
            0 <= k < ranges@.len() ==> (#[trigger] ranges@[k]).0 <= ranges@[k].1 <= source@.len(),
    ensures
        text::texts(final(out)@) == text::texts(old(out)@) + range_stubs(source@, ranges@),
{
    broadcast use text::group_texts;

    let ghost before = text::texts(out@);
    let mut i: usize = 0;
    assert(ranges@.take(0) =~= seq![]);
    assert(before + range_stubs(source@, seq![]) =~= before);
    while i < ranges.len()
        invariant
            i <= ranges@.len(),
            forall|k: int|
                0 <= k < ranges@.len() ==> (#[trigger] ranges@[k]).0 <= ranges@[k].1
                    <= source@.len(),
            text::texts(out@) == before + range_stubs(source@, ranges@.take(i as int)),
        decreases ranges@.len() - i,
    {
        assert(ranges@.take(i + 1).drop_last() =~= ranges@.take(i as int));
        let ghost so_far = range_stubs(source@, ranges@.take(i as int));
        let (a, b) = ranges[i];
        let mut part: Vec<u8> = Vec::new();
        bytes::append_range(&mut part, source.as_slice(), a, b);
        assert(part@ =~= source@.subrange(a as int, b as int));
        if let Some(s) = stubs::stub_declaration(part.as_slice()) {
            let ghost t = s@;
            out.push(s);
            assert(before + so_far.push(t) =~= (before + so_far).push(t));
        }
        i = i + 1;
    }
    assert(ranges@.take(i as int) =~= ranges@);
}

/// All declarations of a package with their bodies left out: what a declaration
/// can rely on.
pub fn interface_context(dir: &RawDir, items: &Vec<FileItems>) -> (r: String)
    requires
        dir.wf(),
        items_fit(dir.view(), items@),
    ensures
        r@ == text::join_of(package_stubs(dir.view(), items@), "\n\n"@),
{
    let mut out: Vec<String> = Vec::new();
    let mut i: usize = 0;
    assert(items@.take(0) =~= seq![]);
    assert(text::texts(out@) =~= seq![]);
    while i < items.len()
        invariant
            i <= items@.len(),
            dir.wf(),
            items_fit(dir.view(), items@),
            text::texts(out@) == package_stubs(dir.view(), items@.take(i as int)),
        decreases items@.len() - i,
    {
        assert(items@.take(i + 1).drop_last() =~= items@.take(i as int));
        if let Ok(source) = dir.get_file(items[i].file_name.as_str()) {
            push_stubs(&mut out, source, &items[i].ranges);
        }
        i = i + 1;
    }
    assert(items@.take(i as int) =~= items@);
    text::join(&out, "\n\n")
}

// ── Patches ──────────────────────────────────────────────────────────────

/// A new text for a byte range of a file.
#[derive(Debug)]
pub struct Patch {
    pub start: usize,
    pub end: usize,
    pub text: String,
}

pub struct PatchView {
    pub start: usize,
    pub end: usize,
    pub text: Seq<char>,
}

impl Patch {
    pub open spec fn view(&self) -> PatchView {
        PatchView { start: self.start, end: self.end, text: self.text@ }
    }
}

pub open spec fn patch_views(v: Seq<Patch>) -> Seq<PatchView> {
    v.map_values(|p: Patch| p.view())
}

pub open spec fn before_patch(a: PatchView, b: PatchView) -> bool {
    a.start < b.start || (a.start == b.start && a.end < b.end)
}

pub open spec fn same_place(a: PatchView, b: PatchView) -> bool {
    a.start == b.start && a.end == b.end
}

/// The range that the answer for a declaration replaces in a file of `len` bytes.
/// The answer for a whole file replaces all of it.
pub open spec fn patch_range(range: Option<(usize, usize)>, len: usize) -> (usize, usize) {
    match range {
        Some(r) => r,
        None => (0, len),
    }
}

/// Patches in order of their ranges.
pub open spec fn patches_ordered(v: Seq<PatchView>) -> bool {
    forall|i: int, j: int|
        #![trigger v[i], v[j]]
        0 <= i < j < v.len() ==> before_patch(v[i], v[j])
}

/// Whether an answer changes anything: it neither failed nor is empty.
pub open spec fn is_usable(answer: Option<Seq<char>>) -> bool {
    answer is Some && answer->0.len() > 0
}

/// The patch that answers a declaration of a file of `len` bytes, if the answer is
/// usable.
pub open spec fn patch_for(
    range: Option<(usize, usize)>,
    len: usize,
    answer: Option<Seq<char>>,
) -> Option<PatchView> {
    if is_usable(answer) {
        Some(
            PatchView {
                start: patch_range(range, len).0,
                end: patch_range(range, len).1,
                text: answer->0,
            },
        )
    } else {
        None
    }
}

/// The patch that answers a declaration of a file of `len` bytes, or the whole file
/// where there is no range. An answer that failed or is empty changes nothing.
pub fn patch_of_answer(
    range: Option<(usize, usize)>,
    len: usize,
    answer: Option<&str>,
) -> (r: Option<Patch>)
    ensures
        (match r {
            Some(p) => patch_for(range, len, text::opt_str(answer)) == Some(p.view()),
            None => patch_for(range, len, text::opt_str(answer)) is None,
        }),
{
    match answer {
        Some(s) => {
            if s.is_empty() {
                return None;
            }
            let (start, end) = match range {
                Some((a, b)) => (a, b),
                None => (0, len),
            };
            Some(Patch { start, end, text: s.to_owned() })
        },
        None => None,
    }
}

/// `v` with a patch in its place; one for the same range is replaced.
pub open spec fn placed(v: Seq<PatchView>, p: PatchView) -> Seq<PatchView>
    decreases v.len(),
{
    if v.len() == 0 {
        seq![p]
    } else if before_patch(v[0], p) {
        seq![v[0]] + placed(v.skip(1), p)
    } else if same_place(v[0], p) {
        v.update(0, p)
    } else {
        seq![p] + v
    }
}

proof fn placed_at(v: Seq<PatchView>, p: PatchView, i: int)
    requires
        0 <= i <= v.len(),
        forall|j: int| 0 <= j < i ==> before_patch(#[trigger] v[j], p),
        i < v.len() ==> !before_patch(v[i], p),
    ensures
        placed(v, p) == if i < v.len() && same_place(v[i], p) {
            v.update(i, p)
        } else {
            v.insert(i, p)
        },
    decreases i,
{
    let rest = v.skip(1);
    if i > 0 {
        assert(before_patch(v[0], p));
        assert forall|j: int| 0 <= j < i - 1 implies before_patch(#[trigger] rest[j], p) by {
            assert(rest[j] == v[j + 1]);
        }
        placed_at(rest, p, i - 1);
        if i < v.len() {
            assert(rest[i - 1] == v[i]);
        }
        if i < v.len() && same_place(v[i], p) {
            assert(placed(v, p) =~= v.update(i, p));
        } else {
            assert(placed(v, p) =~= v.insert(i, p));
        }
    } else if v.len() == 0 {
        assert(placed(v, p) =~= v.insert(0, p));
    } else if !same_place(v[0], p) {
        assert(placed(v, p) =~= v.insert(0, p));
    }
}

/// Adds a patch in its place; one for the same range is replaced.
pub fn add_patch(patches: &mut Vec<Patch>, p: Patch)
    requires
        patches_ordered(patch_views(old(patches)@)),
    ensures
        patch_views(final(patches)@) == placed(patch_views(old(patches)@), p.view()),
        patches_ordered(patch_views(final(patches)@)),
        forall|q: PatchView|
            #![trigger patch_views(final(patches)@).contains(q)]
            patch_views(final(patches)@).contains(q) <==> (q == p.view() || (patch_views(
                old(patches)@,
            ).contains(q) && !same_place(q, p.view()))),
{
    let ghost before = patch_views(patches@);
    let ghost new = p.view();
    let mut i: usize = 0;
    while i < patches.len() && (patches[i].start < p.start || (patches[i].start == p.start
        && patches[i].end < p.end))
        invariant
            i <= patches@.len(),
            before == patch_views(patches@),
            new == p.view(),
            forall|j: int| 0 <= j < i ==> before_patch(#[trigger] before[j], new),
        decreases patches@.len() - i,
    {
        assert(before[i as int] == patches@[i as int].view());
        i = i + 1;
    }
    if i < patches.len() {
        assert(before[i as int] == patches@[i as int].view());
    }
    proof {
        placed_at(before, new, i as int);
    }
    if i < patches.len() && patches[i].start == p.start && patches[i].end == p.end {
        patches.set(i, p);
        let ghost after = patch_views(patches@);
        assert(after =~= before.update(i as int, new));
        assert forall|q: PatchView| #![trigger after.contains(q)] after.contains(q) <==> (q == new
            || (before.contains(q) && !same_place(q, new))) by {
            if after.contains(q) {
                let k = choose|k: int| 0 <= k < after.len() && after[k] == q;
                if k != i {
                    assert(before[k] == q);
                }
            }
            if q == new {
                assert(after[i as int] == q);
            }
            if before.contains(q) && !same_place(q, new) {
                let k = choose|k: int| 0 <= k < before.len() && before[k] == q;
                assert(after[k] == q);
            }
        }
    } else {
        patches.insert(i, p);
        let ghost after = patch_views(patches@);
        assert(after =~= before.insert(i as int, new));
        assert forall|a: int, b: int| #![trigger after[a], after[b]] 0 <= a < b
            < after.len() implies before_patch(after[a], after[b]) by {
            let x = if a < i {
                a
            } else {
                a - 1
            };
            let y = if b < i {
                b
            } else {
                b - 1
            };
            if a != i {
                assert(after[a] == before[x]);
            }
            if b != i {
                assert(after[b] == before[y]);
            }
            if a == i {
                assert(before_patch(before[i as int], before[y]) || y == i);
            }
        }
        assert forall|q: PatchView| #![trigger after.contains(q)] after.contains(q) <==> (q == new
            || (before.contains(q) && !same_place(q, new))) by {
            if after.contains(q) {
                let k = choose|k: int| 0 <= k < after.len() && after[k] == q;
                if k < i {
                    assert(before[k] == q);
                } else if k > i {
                    assert(before[k - 1] == q);
                    assert(before_patch(after[i as int], after[k]));
                }
            }
            if q == new {
                assert(after[i as int] == q);
            }
            if before.contains(q) && !same_place(q, new) {
                let k = choose|k: int| 0 <= k < before.len() && before[k] == q;
                if k < i {
                    assert(after[k] == q);
                } else {
                    assert(after[k + 1] == q);
                }
            }
        }
    }
}

/// A source with some patches applied, and by how much it has grown.
pub struct Patched {
    pub source: Seq<u8>,
    pub offset: int,
}

/// The source after the patches, one after the other. Ranges speak of the
/// original source: each is moved by as much as the earlier patches have grown
/// it.
pub open spec fn patched(source: Seq<u8>, ps: Seq<PatchView>) -> Patched
    decreases ps.len(),
{
    if ps.len() == 0 {
        Patched { source, offset: 0 }
    } else {
        let before = patched(source, ps.drop_last());
        let p = ps.last();
        let new = encode_utf8(p.text);
        Patched {
            source: before.source.take(p.start + before.offset) + new + before.source.skip(
                p.end + before.offset,
            ),
            offset: before.offset + new.len() - (p.end - p.start),
        }
    }
}

/// Whether every patch finds its range in the source.
pub open spec fn patches_fit(source: Seq<u8>, ps: Seq<PatchView>) -> bool
    decreases ps.len(),
{
    ps.len() == 0 || ({
        let before = patched(source, ps.drop_last());
        &&& patches_fit(source, ps.drop_last())
        &&& 0 <= ps.last().start + before.offset
        &&& ps.last().start <= ps.last().end
        &&& ps.last().end + before.offset <= before.source.len()
    })
}

proof fn patches_fit_prefix(source: Seq<u8>, ps: Seq<PatchView>, n: int)
    requires
        0 <= n <= ps.len(),
        patches_fit(source, ps),
    ensures
        patches_fit(source, ps.take(n)),
    decreases ps.len() - n,
{
    if n == ps.len() {
        assert(ps.take(n) =~= ps);
    } else {
        patches_fit_prefix(source, ps, n + 1);
        assert(ps.take(n + 1).drop_last() =~= ps.take(n));
    }
}

proof fn offset_is_growth(source: Seq<u8>, ps: Seq<PatchView>)
    requires
        patches_fit(source, ps),
    ensures
        patched(source, ps).source.len() == source.len() + patched(source, ps).offset,
    decreases ps.len(),
{
    if ps.len() > 0 {
        offset_is_growth(source, ps.drop_last());
    }
}

/// Applies patches to a source, in order.
pub fn apply_patches(source: &mut Vec<u8>, patches: &Vec<Patch>)
    requires
        patches_fit(old(source)@, patch_views(patches@)),
    ensures
        final(source)@ == patched(old(source)@, patch_views(patches@)).source,
{
    let ghost all = patch_views(patches@);
    let ghost start = source@;
    let first_len: usize = source.len();
    let mut i: usize = 0;
    assert(all.take(0) =~= seq![]);
    while i < patches.len()
        invariant
            i <= patches@.len(),
            all == patch_views(patches@),
            first_len == start.len(),
            patches_fit(start, all),
            source@ == patched(start, all.take(i as int)).source,
        decreases patches@.len() - i,
    {
        let ghost now = patched(start, all.take(i as int));
        proof {
            assert(all.take(i + 1).drop_last() =~= all.take(i as int));
            assert(all.take(i + 1).last() == patches@[i as int].view());
            patches_fit_prefix(start, all, i + 1);
            patches_fit_prefix(start, all, i as int);
            offset_is_growth(start, all.take(i as int));
        }
        let p = &patches[i];
        let len: usize = source.len();
        let offset: i128 = len as i128 - first_len as i128;
        let from: usize = (p.start as i128 + offset) as usize;
        let to: usize = (p.end as i128 + offset) as usize;
        assert(from == p.start + now.offset);
        assert(to == p.end + now.offset);
        let mut next: Vec<u8> = Vec::new();
        bytes::append_range(&mut next, source.as_slice(), 0, from);
        bytes::append(&mut next, p.text.as_str().as_bytes());
        bytes::append_range(&mut next, source.as_slice(), to, len);
        assert(next@ =~= patched(start, all.take(i + 1)).source);
        *source = next;
        i = i + 1;
    }
    assert(all.take(i as int) =~= all);
}

/// Whether the patches lie in the source and do not overlap.
pub open spec fn patches_disjoint(len: int, ps: Seq<PatchView>) -> bool {
    &&& forall|i: int| 0 <= i < ps.len() ==> (#[trigger] ps[i]).start <= ps[i].end <= len
    &&& forall|i: int, j: int|
        #![trigger ps[i], ps[j]]
        0 <= i < j < ps.len() ==> ps[i].end <= ps[j].start
}

/// The source with the new texts in place of the old ranges: everything outside
/// the ranges stays.
pub open spec fn replaced(source: Seq<u8>, from: int, ps: Seq<PatchView>) -> Seq<u8>
    decreases ps.len(),
{
    if ps.len() == 0 {
        source.skip(from)
    } else {
        source.subrange(from, ps[0].start as int) + encode_utf8(ps[0].text) + replaced(
            source,
            ps[0].end as int,
            ps.skip(1),
        )
    }
}

/// The part of the patched source up to the end of the last patch.
spec fn replaced_head(source: Seq<u8>, ps: Seq<PatchView>) -> Seq<u8>
    decreases ps.len(),
{
    if ps.len() == 0 {
        seq![]
    } else {
        replaced_head(source, ps.drop_last()) + source.subrange(
            last_end(ps.drop_last()),
            ps.last().start as int,
        ) + encode_utf8(ps.last().text)
    }
}

spec fn last_end(ps: Seq<PatchView>) -> int {
    if ps.len() == 0 {
        0
    } else {
        ps.last().end as int
    }
}

proof fn patched_splits(source: Seq<u8>, ps: Seq<PatchView>)
    requires
        patches_disjoint(source.len() as int, ps),
    ensures
        patches_fit(source, ps),
        0 <= last_end(ps) <= source.len(),
        patched(source, ps).source == replaced_head(source, ps) + source.skip(last_end(ps)),
        patched(source, ps).offset == replaced_head(source, ps).len() - last_end(ps),
    decreases ps.len(),
{
    if ps.len() == 0 {
        assert(source.skip(0) =~= source);
        assert(replaced_head(source, ps) + source.skip(0) =~= source);
    } else {
        let front = ps.drop_last();
        let p = ps.last();
        assert(patches_disjoint(source.len() as int, front)) by {
            assert forall|i: int| 0 <= i < front.len() implies (#[trigger] front[i]).start
                <= front[i].end <= source.len() by {
                assert(front[i] == ps[i]);
            }
            assert forall|i: int, j: int| #![trigger front[i], front[j]] 0 <= i < j
                < front.len() implies front[i].end <= front[j].start by {
                assert(front[i] == ps[i]);
                assert(front[j] == ps[j]);
            }
        }
        patched_splits(source, front);
        assert(ps[ps.len() - 1] == p);
        if front.len() > 0 {
            assert(ps[front.len() - 1] == front.last());
        }
        assert(last_end(front) <= p.start);
        let before = patched(source, front);
        let head = replaced_head(source, front);
        let e = last_end(front);
        assert(before.source.take(p.start + before.offset) =~= head + source.subrange(
            e,
            p.start as int,
        ));
        assert(before.source.skip(p.end + before.offset) =~= source.skip(p.end as int));
        assert(patched(source, ps).source =~= replaced_head(source, ps) + source.skip(
            last_end(ps),
        ));
    }
}

proof fn replaced_splits(source: Seq<u8>, from: int, ps: Seq<PatchView>)
    requires
        ps.len() > 0,
        0 <= from <= ps[0].start,
        patches_disjoint(source.len() as int, ps),
    ensures
        replaced(source, from, ps) == replaced(source, from, ps.drop_last()).take(
            replaced(source, from, ps.drop_last()).len() - (source.len() - ps.last().start),
        ) + encode_utf8(ps.last().text) + source.skip(ps.last().end as int),
        replaced(source, from, ps.drop_last()).len() >= source.len() - ps.last().start,
    decreases ps.len(),
{
    let all = replaced(source, from, ps);
    let front = ps.drop_last();
    if ps.len() == 1 {
        assert(front =~= seq![]);
        assert(ps.skip(1) =~= seq![]);
        assert(replaced(source, from, front) =~= source.skip(from));
        assert(source.skip(from).take(ps[0].start - from) =~= source.subrange(
            from,
            ps[0].start as int,
        ));
        assert(replaced(source, ps[0].end as int, ps.skip(1)) == source.skip(ps[0].end as int));
        assert(all =~= source.subrange(from, ps[0].start as int) + encode_utf8(ps[0].text)
            + source.skip(ps[0].end as int));
    } else {
        let rest = ps.skip(1);
        assert(rest[0] == ps[1]);
        assert(ps[0].end <= ps[1].start);
        assert(patches_disjoint(source.len() as int, rest)) by {
            assert forall|i: int| 0 <= i < rest.len() implies (#[trigger] rest[i]).start
                <= rest[i].end <= source.len() by {
                assert(rest[i] == ps[i + 1]);
            }
            assert forall|i: int, j: int| #![trigger rest[i], rest[j]] 0 <= i < j
                < rest.len() implies rest[i].end <= rest[j].start by {
                assert(rest[i] == ps[i + 1]);
                assert(rest[j] == ps[j + 1]);
            }
        }
        replaced_splits(source, ps[0].end as int, rest);
        assert(rest.drop_last() =~= front.skip(1));
        assert(front[0] == ps[0]);
        assert(rest.last() == ps.last());
        let head = source.subrange(from, ps[0].start as int) + encode_utf8(ps[0].text);
        let tail = replaced(source, ps[0].end as int, rest.drop_last());
        assert(replaced(source, from, front) =~= head + tail);
        let cut = tail.len() - (source.len() - ps.last().start);
        assert((head + tail).take(head.len() + cut) =~= head + tail.take(cut));
        assert(all =~= head + replaced(source, ps[0].end as int, rest));
    }
}

proof fn replaced_is_head(source: Seq<u8>, ps: Seq<PatchView>)
    requires
        patches_disjoint(source.len() as int, ps),
    ensures
        replaced(source, 0, ps) == replaced_head(source, ps) + source.skip(last_end(ps)),
    decreases ps.len(),
{
    if ps.len() == 0 {
        assert(replaced_head(source, ps) + source.skip(0) =~= source.skip(0));
    } else {
        let front = ps.drop_last();
        let p = ps.last();
        assert(patches_disjoint(source.len() as int, front)) by {
            assert forall|i: int| 0 <= i < front.len() implies (#[trigger] front[i]).start
                <= front[i].end <= source.len() by {
                assert(front[i] == ps[i]);
            }
            assert forall|i: int, j: int| #![trigger front[i], front[j]] 0 <= i < j
                < front.len() implies front[i].end <= front[j].start by {
                assert(front[i] == ps[i]);
                assert(front[j] == ps[j]);
            }
        }
        replaced_is_head(source, front);
        replaced_splits(source, 0, ps);
        patched_splits(source, front);
        assert(ps[ps.len() - 1] == p);
        if front.len() > 0 {
            assert(ps[front.len() - 1] == front.last());
        }
        let head = replaced_head(source, front);
        let e = last_end(front);
        let whole = head + source.skip(e);
        assert(whole.len() == head.len() + source.len() - e);
        assert(whole.take(whole.len() - (source.len() - p.start)) =~= head + source.subrange(
            e,
            p.start as int,
        ));
        assert(replaced(source, 0, ps) =~= replaced_head(source, ps) + source.skip(p.end as int));
    }
}

/// Patches that do not overlap always find their ranges, and the result is the
/// source with exactly those ranges replaced: the moving of ranges by what the
/// earlier patches have grown loses nothing and touches nothing else.
pub proof fn patching_replaces_exactly(source: Seq<u8>, ps: Seq<PatchView>)
    requires
        patches_disjoint(source.len() as int, ps),
    ensures
        patches_fit(source, ps),
        patched(source, ps).source == replaced(source, 0, ps),
{
    patched_splits(source, ps);
    replaced_is_head(source, ps);
}

/// The answer for a whole file is the whole file.
pub proof fn whole_answer_is_the_file(source: Seq<u8>, answer: Seq<char>)
    requires
        source.len() <= usize::MAX,
        answer.len() > 0,
    ensures
        ({
            let p = patch_for(None, source.len() as usize, Some(answer));
            p is Some && patched(source, seq![p->0]).source == encode_utf8(answer)
        }),
{
    let p = patch_for(None, source.len() as usize, Some(answer))->0;
    let ps = seq![p];
    assert(ps.drop_last() =~= seq![]);
    assert(patched(source, ps.drop_last()).source == source);
    assert(patched(source, ps).source =~= encode_utf8(answer));
}

// ── A package of answers ─────────────────────────────────────────────────

pub open spec fn answer_views(v: Seq<Option<String>>) -> Seq<Option<Seq<char>>> {
    v.map_values(|a: Option<String>| text::opt_text(a))
}

/// Whether the errors of a declaration lie in the file with these names.
pub open spec fn lies_in(g: DeclErrorsView, names: Seq<Seq<char>>) -> bool {
    raw_dir::names_of(g.file_name) == Ok::<Seq<Seq<char>>, raw_dir::PathFault>(names)
}

/// Whether one of the first `n` groups lies in a file.
pub open spec fn touches(groups: Seq<DeclErrorsView>, names: Seq<Seq<char>>, n: int) -> bool {
    exists|i: int| 0 <= i < n && lies_in(#[trigger] groups[i], names)
}

/// The patches of a file's declarations, in order, for the first `n` answers.
pub open spec fn decl_patches(
    groups: Seq<DeclErrorsView>,
    answers: Seq<Option<Seq<char>>>,
    names: Seq<Seq<char>>,
    n: int,
) -> Seq<PatchView>
    decreases n,
{
    if n <= 0 {
        seq![]
    } else {
        let before = decl_patches(groups, answers, names, n - 1);
        let g = groups[n - 1];
        if lies_in(g, names) && g.range is Some && is_usable(answers[n - 1]) {
            placed(before, patch_for(g.range, 0, answers[n - 1])->0)
        } else {
            before
        }
    }
}

/// The usable answer for the whole file among the first `n`, if there is one.
pub open spec fn whole_answer(
    groups: Seq<DeclErrorsView>,
    answers: Seq<Option<Seq<char>>>,
    names: Seq<Seq<char>>,
    n: int,
) -> Option<Seq<char>>
    decreases n,
{
    if n <= 0 {
        None
    } else if lies_in(groups[n - 1], names) && groups[n - 1].range is None && is_usable(
        answers[n - 1],
    ) {
        answers[n - 1]
    } else {
        whole_answer(groups, answers, names, n - 1)
    }
}

/// The patches that the answers make for a file of `len` bytes. The answer for a
/// whole file stands alone: the ranges of the declarations speak of the source that
/// it replaces.
pub open spec fn file_patches(
    groups: Seq<DeclErrorsView>,
    answers: Seq<Option<Seq<char>>>,
    names: Seq<Seq<char>>,
    len: usize,
) -> Seq<PatchView> {
    match whole_answer(groups, answers, names, groups.len() as int) {
        Some(s) => seq![patch_for(None, len, Some(s))->0],
        None => decl_patches(groups, answers, names, groups.len() as int),
    }
}

/// The contents of a file after the answers.
pub open spec fn answered_file(
    groups: Seq<DeclErrorsView>,
    answers: Seq<Option<Seq<char>>>,
    names: Seq<Seq<char>>,
    source: Seq<u8>,
) -> Seq<u8> {
    patched(source, file_patches(groups, answers, names, source.len() as usize)).source
}

/// Whether every patch that the answers make finds its range.
pub open spec fn answers_fit(
    dir: DirView,
    groups: Seq<DeclErrorsView>,
    answers: Seq<Option<Seq<char>>>,
) -> bool {
    forall|i: int|
        0 <= i < groups.len() ==> (match raw_dir::read_path(dir, (#[trigger] groups[i]).file_name) {
            Ok(source) => patches_fit(
                source,
                file_patches(
                    groups,
                    answers,
                    raw_dir::names_of(groups[i].file_name)->Ok_0,
                    source.len() as usize,
                ),
            ),
            Err(_) => true,
        })
}

/// Whether every group lies in a file of the package.
pub open spec fn all_readable(dir: DirView, groups: Seq<DeclErrorsView>) -> bool {
    forall|i: int|
        0 <= i < groups.len() ==> raw_dir::read_path(dir, (#[trigger] groups[i]).file_name) is Ok
}

/// The package after the files of the first `n` groups were patched, each once and
/// by all of its answers.
pub open spec fn answered(
    dir: DirView,
    groups: Seq<DeclErrorsView>,
    answers: Seq<Option<Seq<char>>>,
    n: int,
) -> DirView
    decreases n,
{
    if n <= 0 {
        dir
    } else {
        let before = answered(dir, groups, answers, n - 1);
        let names = raw_dir::names_of(groups[n - 1].file_name)->Ok_0;
        if touches(groups, names, n - 1) {
            before
        } else {
            raw_dir::rewrite_at(
                before,
                names,
                answered_file(
                    groups,
                    answers,
                    names,
                    raw_dir::read_path(dir, groups[n - 1].file_name)->Ok_0,
                ),
            )
        }
    }
}

/// How many of the answers are usable.
pub open spec fn usable_count(answers: Seq<Option<Seq<char>>>) -> nat
    decreases answers.len(),
{
    if answers.len() == 0 {
        0
    } else {
        usable_count(answers.drop_last()) + if is_usable(answers.last()) {
            1nat
        } else {
            0nat
        }
    }
}

/// Every file with answered declarations is patched by the answers for its own
/// declarations, and every other file stays as it is.
pub proof fn answers_patch_their_files(
    dir: DirView,
    groups: Seq<DeclErrorsView>,
    answers: Seq<Option<Seq<char>>>,
    n: int,
)
    requires
        raw_dir::wf_dir(dir),
        all_readable(dir, groups),
        0 <= n <= groups.len(),
    ensures
        raw_dir::wf_dir(answered(dir, groups, answers, n)),
        forall|q: Seq<Seq<char>>|
            #[trigger] raw_dir::file_at(answered(dir, groups, answers, n), q) == if touches(
                groups,
                q,
                n,
            ) {
                Some(answered_file(groups, answers, q, raw_dir::file_at(dir, q)->0))
            } else {
                raw_dir::file_at(dir, q)
            },
    decreases n,
{
    if n > 0 {
        answers_patch_their_files(dir, groups, answers, n - 1);
        let before = answered(dir, groups, answers, n - 1);
        let after = answered(dir, groups, answers, n);
        let g = groups[n - 1];
        assert(raw_dir::read_path(dir, g.file_name) is Ok);
        let names = raw_dir::names_of(g.file_name)->Ok_0;
        assert(lies_in(g, names));
        raw_dir::read_is_file(dir, names);
        assert(raw_dir::file_at(dir, names) == Some(
            raw_dir::read_path(dir, g.file_name)->Ok_0,
        ));
        if !touches(groups, names, n - 1) {
            assert(raw_dir::file_at(before, names) is Some);
            raw_dir::rewrite_law(
                before,
                names,
                answered_file(
                    groups,
                    answers,
                    names,
                    raw_dir::read_path(dir, g.file_name)->Ok_0,
                ),
            );
        }
        assert forall|q: Seq<Seq<char>>| #[trigger]
            raw_dir::file_at(after, q) == (if touches(groups, q, n) {
                Some(answered_file(groups, answers, q, raw_dir::file_at(dir, q)->0))
            } else {
                raw_dir::file_at(dir, q)
            }) by {
            let earlier = raw_dir::file_at(before, q);
            touched_by_one_more(groups, q, n);
        }
    }
}

proof fn touched_by_one_more(groups: Seq<DeclErrorsView>, q: Seq<Seq<char>>, n: int)
    requires
        0 < n <= groups.len(),
    ensures
        touches(groups, q, n) == (touches(groups, q, n - 1) || lies_in(groups[n - 1], q)),
{
    if touches(groups, q, n - 1) {
        let i = choose|i: int| 0 <= i < n - 1 && lies_in(#[trigger] groups[i], q);
        assert(0 <= i < n && lies_in(groups[i], q));
    }
    if lies_in(groups[n - 1], q) {
        assert(0 <= n - 1 < n && lies_in(groups[n - 1], q));
    }
}

/// Whether the declarations of each file lie in it and do not overlap.
pub open spec fn ranges_disjoint(dir: DirView, groups: Seq<DeclErrorsView>) -> bool {
    &&& forall|i: int|
        0 <= i < groups.len() ==> (match raw_dir::read_path(dir, (#[trigger] groups[i]).file_name) {
            Ok(source) => range_fits(groups[i].range, source.len() as int),
            Err(_) => true,
        })
    &&& forall|i: int, j: int|
        #![trigger groups[i], groups[j]]
        0 <= i < groups.len() && 0 <= j < groups.len() && i != j && raw_dir::names_of(
            groups[i].file_name,
        ) == raw_dir::names_of(groups[j].file_name) ==> apart(groups[i].range, groups[j].range)
}

/// Whether two declarations have no byte in common.
pub open spec fn apart(a: Option<(usize, usize)>, b: Option<(usize, usize)>) -> bool {
    match (a, b) {
        (Some(x), Some(y)) => x.1 <= y.0 || y.1 <= x.0,
        _ => true,
    }
}

/// Whether a patch answers one of the first `n` groups, in a file of `len` bytes.
spec fn answers_one(
    groups: Seq<DeclErrorsView>,
    names: Seq<Seq<char>>,
    len: int,
    n: int,
    p: PatchView,
) -> bool {
    &&& p.start <= p.end <= len
    &&& exists|i: int|
        0 <= i < n && lies_in(#[trigger] groups[i], names) && groups[i].range == Some(
            (p.start, p.end),
        )
}

proof fn placed_keeps(v: Seq<PatchView>, p: PatchView, k: int)
    requires
        0 <= k < placed(v, p).len(),
    ensures
        placed(v, p)[k] == p || v.contains(placed(v, p)[k]),
    decreases v.len(),
{
    if v.len() > 0 {
        let rest = v.skip(1);
        if before_patch(v[0], p) {
            if k == 0 {
                assert(v.contains(v[0]));
            } else {
                placed_keeps(rest, p, k - 1);
                assert(placed(v, p)[k] == placed(rest, p)[k - 1]);
                if placed(rest, p)[k - 1] != p {
                    let m = choose|m: int| 0 <= m < rest.len() && rest[m] == placed(rest, p)[k - 1];
                    assert(v[m + 1] == rest[m]);
                }
            }
        } else if same_place(v[0], p) {
            if k > 0 {
                assert(v[k] == placed(v, p)[k]);
            }
        } else if k > 0 {
            assert(v[k - 1] == placed(v, p)[k]);
        }
    }
}

proof fn placed_disjoint(v: Seq<PatchView>, p: PatchView, len: int)
    requires
        patches_disjoint(len, v),
        p.start <= p.end <= len,
        forall|k: int|
            0 <= k < v.len() ==> (#[trigger] v[k]).end <= p.start || p.end <= v[k].start,
    ensures
        patches_disjoint(len, placed(v, p)),
    decreases v.len(),
{
    let after = placed(v, p);
    if v.len() > 0 {
        let rest = v.skip(1);
        if before_patch(v[0], p) {
            assert(patches_disjoint(len, rest)) by {
                assert forall|i: int| 0 <= i < rest.len() implies (#[trigger] rest[i]).start
                    <= rest[i].end <= len by {
                    assert(rest[i] == v[i + 1]);
                }
                assert forall|i: int, j: int| #![trigger rest[i], rest[j]] 0 <= i < j
                    < rest.len() implies rest[i].end <= rest[j].start by {
                    assert(rest[i] == v[i + 1]);
                    assert(rest[j] == v[j + 1]);
                }
            }
            assert forall|k: int| 0 <= k < rest.len() implies (#[trigger] rest[k]).end <= p.start
                || p.end <= rest[k].start by {
                assert(rest[k] == v[k + 1]);
            }
            placed_disjoint(rest, p, len);
            let tail = placed(rest, p);
            assert(v[0].end <= p.start);
            assert forall|i: int| 0 <= i < after.len() implies (#[trigger] after[i]).start
                <= after[i].end <= len by {
                if i > 0 {
                    assert(after[i] == tail[i - 1]);
                }
            }
            assert forall|i: int, j: int| #![trigger after[i], after[j]] 0 <= i < j
                < after.len() implies after[i].end <= after[j].start by {
                assert(after[j] == tail[j - 1]);
                if i > 0 {
                    assert(after[i] == tail[i - 1]);
                } else {
                    placed_keeps(rest, p, j - 1);
                    if tail[j - 1] != p {
                        let m = choose|m: int| 0 <= m < rest.len() && rest[m] == tail[j - 1];
                        assert(v[m + 1] == rest[m]);
                    }
                }
            }
        } else if same_place(v[0], p) {
            assert forall|i: int, j: int| #![trigger after[i], after[j]] 0 <= i < j
                < after.len() implies after[i].end <= after[j].start by {
                assert(v[i].end <= v[j].start);
            }
        } else {
            assert(p.end <= v[0].start);
            assert forall|i: int| 0 <= i < after.len() implies (#[trigger] after[i]).start
                <= after[i].end <= len by {
                if i > 0 {
                    assert(after[i] == v[i - 1]);
                }
            }
            assert forall|i: int, j: int| #![trigger after[i], after[j]] 0 <= i < j
                < after.len() implies after[i].end <= after[j].start by {
                assert(after[j] == v[j - 1]);
                if i > 0 {
                    assert(after[i] == v[i - 1]);
                } else if j > 1 {
                    assert(v[0].end <= v[j - 1].start);
                    assert(v[0].start <= v[0].end);
                }
            }
        }
    }
}

proof fn decl_patches_disjoint(
    dir: DirView,
    groups: Seq<DeclErrorsView>,
    answers: Seq<Option<Seq<char>>>,
    names: Seq<Seq<char>>,
    source: Seq<u8>,
    n: int,
)
    requires
        ranges_disjoint(dir, groups),
        0 <= n <= groups.len(),
        raw_dir::read_at(dir, names) == Ok::<Seq<u8>, GetFileError>(source),
    ensures
        patches_disjoint(source.len() as int, decl_patches(groups, answers, names, n)),
        forall|k: int|
            0 <= k < decl_patches(groups, answers, names, n).len() ==> answers_one(
                groups,
                names,
                source.len() as int,
                n,
                #[trigger] decl_patches(groups, answers, names, n)[k],
            ),
    decreases n,
{
    if n > 0 {
        decl_patches_disjoint(dir, groups, answers, names, source, n - 1);
        let before = decl_patches(groups, answers, names, n - 1);
        let after = decl_patches(groups, answers, names, n);
        let len = source.len() as int;
        let g = groups[n - 1];
        assert forall|p: PatchView| answers_one(groups, names, len, n - 1, p) implies answers_one(
            groups,
            names,
            len,
            n,
            p,
        ) by {
            let i = choose|i: int|
                0 <= i < n - 1 && lies_in(#[trigger] groups[i], names) && groups[i].range == Some(
                    (p.start, p.end),
                );
            assert(0 <= i < n && lies_in(groups[i], names));
        }
        if lies_in(g, names) && g.range is Some && is_usable(answers[n - 1]) {
            let p = patch_for(g.range, 0, answers[n - 1])->0;
            assert(raw_dir::read_path(dir, g.file_name) == Ok::<Seq<u8>, GetFileError>(source));
            assert forall|k: int| 0 <= k < before.len() implies (#[trigger] before[k]).end
                <= p.start || p.end <= before[k].start by {
                assert(answers_one(groups, names, len, n - 1, before[k]));
                let i = choose|i: int|
                    0 <= i < n - 1 && lies_in(#[trigger] groups[i], names) && groups[i].range
                        == Some((before[k].start, before[k].end));
                assert(apart(groups[i].range, groups[n - 1].range));
            }
            placed_disjoint(before, p, len);
            assert forall|k: int| 0 <= k < after.len() implies answers_one(
                groups,
                names,
                len,
                n,
                #[trigger] after[k],
            ) by {
                placed_keeps(before, p, k);
                if after[k] == p {
                    assert(lies_in(groups[n - 1], names) && groups[n - 1].range == Some(
                        (p.start, p.end),
                    ));
                } else {
                    let m = choose|m: int| 0 <= m < before.len() && before[m] == after[k];
                    assert(answers_one(groups, names, len, n - 1, before[m]));
                }
            }
        }
    }
}

/// Where the declarations of each file lie in it and do not overlap, any answers fit,
/// and a file without an answer for the whole of it is its source with just the
/// answered declarations replaced.
pub proof fn separate_declarations_fit(
    dir: DirView,
    groups: Seq<DeclErrorsView>,
    answers: Seq<Option<Seq<char>>>,
    i: int,
)
    requires
        ranges_disjoint(dir, groups),
        forall|k: int|
            0 <= k < groups.len() ==> (match raw_dir::read_path(
                dir,
                (#[trigger] groups[k]).file_name,
            ) {
                Ok(source) => source.len() <= usize::MAX,
                Err(_) => true,
            }),
        0 <= i < groups.len(),
        raw_dir::read_path(dir, groups[i].file_name) is Ok,
    ensures
        answers_fit(dir, groups, answers),
        ({
            let names = raw_dir::names_of(groups[i].file_name)->Ok_0;
            let source = raw_dir::read_path(dir, groups[i].file_name)->Ok_0;
            match whole_answer(groups, answers, names, groups.len() as int) {
                Some(s) => answered_file(groups, answers, names, source) == encode_utf8(s),
                None => answered_file(groups, answers, names, source) == replaced(
                    source,
                    0,
                    decl_patches(groups, answers, names, groups.len() as int),
                ),
            }
        }),
{
    assert forall|k: int| 0 <= k < groups.len() implies (match raw_dir::read_path(
        dir,
        (#[trigger] groups[k]).file_name,
    ) {
        Ok(source) => patches_fit(
            source,
            file_patches(
                groups,
                answers,
                raw_dir::names_of(groups[k].file_name)->Ok_0,
                source.len() as usize,
            ),
        ),
        Err(_) => true,
    }) by {
        if let Ok(source) = raw_dir::read_path(dir, groups[k].file_name) {
            one_file_fits(dir, groups, answers, k);
        }
    }
    one_file_fits(dir, groups, answers, i);
}

proof fn one_file_fits(
    dir: DirView,
    groups: Seq<DeclErrorsView>,
    answers: Seq<Option<Seq<char>>>,
    i: int,
)
    requires
        ranges_disjoint(dir, groups),
        0 <= i < groups.len(),
        raw_dir::read_path(dir, groups[i].file_name) is Ok,
        raw_dir::read_path(dir, groups[i].file_name)->Ok_0.len() <= usize::MAX,
    ensures
        ({
            let names = raw_dir::names_of(groups[i].file_name)->Ok_0;
            let source = raw_dir::read_path(dir, groups[i].file_name)->Ok_0;
            &&& patches_fit(
                source,
                file_patches(groups, answers, names, source.len() as usize),
            )
            &&& match whole_answer(groups, answers, names, groups.len() as int) {
                Some(s) => answered_file(groups, answers, names, source) == encode_utf8(s),
                None => answered_file(groups, answers, names, source) == replaced(
                    source,
                    0,
                    decl_patches(groups, answers, names, groups.len() as int),
                ),
            }
        }),
{
    let names = raw_dir::names_of(groups[i].file_name)->Ok_0;
    let source = raw_dir::read_path(dir, groups[i].file_name)->Ok_0;
    let n = groups.len() as int;
    match whole_answer(groups, answers, names, n) {
        Some(s) => {
            whole_answer_is_usable(groups, answers, names, n);
            whole_answer_is_the_file(source, s);
            let ps = file_patches(groups, answers, names, source.len() as usize);
            assert(ps.drop_last() =~= seq![]);
            assert(patches_fit(source, ps.drop_last()));
        },
        None => {
            decl_patches_disjoint(dir, groups, answers, names, source, n);
            patching_replaces_exactly(source, decl_patches(groups, answers, names, n));
        },
    }
}

proof fn whole_answer_is_usable(
    groups: Seq<DeclErrorsView>,
    answers: Seq<Option<Seq<char>>>,
    names: Seq<Seq<char>>,
    n: int,
)
    ensures
        whole_answer(groups, answers, names, n) is Some ==> is_usable(
            whole_answer(groups, answers, names, n),
        ),
    decreases n,
{
    if n > 0 {
        whole_answer_is_usable(groups, answers, names, n - 1);
    }
}

/// The patches that the answers make for a file of `len` bytes.
fn patches_of_file(
    groups: &Vec<DeclErrors>,
    answers: &Vec<Option<String>>,
    file_name: &str,
    len: usize,
) -> (r: Vec<Patch>)
    requires
        groups@.len() == answers@.len(),
        raw_dir::names_of(file_name@) is Ok,
    ensures
        patch_views(r@) == file_patches(
            decl_views(groups@),
            answer_views(answers@),
            raw_dir::names_of(file_name@)->Ok_0,
            len,
        ),
{
    let ghost gs = decl_views(groups@);
    let ghost ans = answer_views(answers@);
    let ghost names = raw_dir::names_of(file_name@)->Ok_0;
    let mut whole: Option<usize> = None;
    let mut patches: Vec<Patch> = Vec::new();
    assert(patch_views(patches@) =~= seq![]);
    let mut i: usize = 0;
    while i < groups.len()
        invariant
            i <= groups@.len(),
            groups@.len() == answers@.len(),
            gs == decl_views(groups@),
            ans == answer_views(answers@),
            raw_dir::names_of(file_name@) == Ok::<Seq<Seq<char>>, raw_dir::PathFault>(names),
            patches_ordered(patch_views(patches@)),
            patch_views(patches@) == decl_patches(gs, ans, names, i as int),
            (match whole {
                Some(k) => k < i && is_usable(ans[k as int]) && whole_answer(
                    gs,
                    ans,
                    names,
                    i as int,
                ) == ans[k as int],
                None => whole_answer(gs, ans, names, i as int) is None,
            }),
        decreases groups@.len() - i,
    {
        assert(gs[i as int] == groups@[i as int].view());
        assert(ans[i as int] == text::opt_text(answers@[i as int]));
        if raw_dir::same_file(groups[i].file_name.as_str(), file_name) {
            let answer = match &answers[i] {
                Some(s) => Some(s.as_str()),
                None => None,
            };
            if let Some(p) = patch_of_answer(groups[i].range, 0, answer) {
                if groups[i].range.is_some() {
                    add_patch(&mut patches, p);
                } else {
                    whole = Some(i);
                }
            }
        }
        i = i + 1;
    }
    if let Some(k) = whole {
        let mut alone: Vec<Patch> = Vec::new();
        if let Some(s) = &answers[k] {
            if let Some(p) = patch_of_answer(None, len, Some(s.as_str())) {
                alone.push(p);
            }
        }
        assert(patch_views(alone@) =~= file_patches(gs, ans, names, len));
        return alone;
    }
    patches
}

fn count_usable(answers: &Vec<Option<String>>) -> (r: usize)
    ensures
        r == usable_count(answer_views(answers@)),
{
    let ghost all = answer_views(answers@);
    let mut n: usize = 0;
    let mut i: usize = 0;
    assert(all.take(0) =~= seq![]);
    while i < answers.len()
        invariant
            i <= answers@.len(),
            n <= i,
            all == answer_views(answers@),
            n == usable_count(all.take(i as int)),
        decreases answers@.len() - i,
    {
        assert(all.take(i + 1).drop_last() =~= all.take(i as int));
        assert(all.take(i + 1).last() == text::opt_text(answers@[i as int]));
        if let Some(s) = &answers[i] {
            if !s.as_str().is_empty() {
                n = n + 1;
            }
        }
        i = i + 1;
    }
    assert(all.take(i as int) =~= all);
    n
}

/// Whether an earlier group lies in the same file as group `n`.
fn is_named_before(groups: &Vec<DeclErrors>, n: usize) -> (r: bool)
    requires
        n < groups@.len(),
        raw_dir::names_of(groups@[n as int].file_name@) is Ok,
    ensures
        r == touches(
            decl_views(groups@),
            raw_dir::names_of(groups@[n as int].file_name@)->Ok_0,
            n as int,
        ),
{
    let ghost gs = decl_views(groups@);
    let ghost names = raw_dir::names_of(groups@[n as int].file_name@)->Ok_0;
    let mut i: usize = 0;
    while i < n
        invariant
            i <= n < groups@.len(),
            gs == decl_views(groups@),
            raw_dir::names_of(groups@[n as int].file_name@) == Ok::<
                Seq<Seq<char>>,
                raw_dir::PathFault,
            >(names),
            forall|j: int| 0 <= j < i ==> !lies_in(#[trigger] gs[j], names),
        decreases n - i,
    {
        assert(gs[i as int] == groups@[i as int].view());
        if raw_dir::same_file(groups[i].file_name.as_str(), groups[n].file_name.as_str()) {
            assert(lies_in(gs[i as int], names));
            return true;
        }
        i = i + 1;
    }
    false
}

/// The tool that repairs declarations.
#[derive(Debug, Clone, Copy, PartialEq, Eq, Structural)]
pub struct FixDeclarationsLlm;

impl FixDeclarationsLlm {
    pub fn name(&self) -> (r: &'static str)
        ensures
            r@ == "fix_declarations_llm"@,
    {
        "fix_declarations_llm"
    }

    /// Patches one file of a package. A file that is not there is an error.
    pub fn patch_file(&self, dir: &mut RawDir, file_name: &str, patches: &Vec<Patch>) -> (r: Result<
        (),
        GetFileError,
    >)
        requires
            old(dir).wf(),
            (match raw_dir::read_path(old(dir).view(), file_name@) {
                Ok(source) => patches_fit(source, patch_views(patches@)),
                Err(_) => true,
            }),
        ensures
            final(dir).wf(),
            (match r {
                Ok(_) => {
                    &&& raw_dir::names_of(file_name@) is Ok
                    &&& raw_dir::read_path(old(dir).view(), file_name@) is Ok
                    &&& final(dir).view() == raw_dir::rewrite_at(
                        old(dir).view(),
                        raw_dir::names_of(file_name@)->Ok_0,
                        patched(
                            raw_dir::read_path(old(dir).view(), file_name@)->Ok_0,
                            patch_views(patches@),
                        ).source,
                    )
                },
                Err(e) => {
                    &&& raw_dir::read_path(old(dir).view(), file_name@) == Err::<
                        Seq<u8>,
                        GetFileError,
                    >(e)
                    &&& final(dir).view() == old(dir).view()
                },
            }),
    {
        match dir.get_file_mut(file_name) {
            Ok(source) => {
                apply_patches(source, patches);
                Ok(())
            },
            Err(e) => Err(e),
        }
    }

    /// Patches the answers for the declarations with errors into a package, and says
    /// how many declarations were answered. `answers` holds one answer for each
    /// group, or none where it failed. A group in a file that the package does not
    /// hold is an error, and the package then stays as it is.
    ///
    /// The answer for a whole file takes the place of the file; the answers for
    /// declarations in that file are then not patched in.
    pub fn apply_answers(
        &self,
        dir: &mut RawDir,
        groups: &Vec<DeclErrors>,
        answers: &Vec<Option<String>>,
    ) -> (r: Result<usize, GetFileError>)
        requires
            old(dir).wf(),
            groups@.len() == answers@.len(),
            answers_fit(old(dir).view(), decl_views(groups@), answer_views(answers@)),
        ensures
            final(dir).wf(),
            (match r {
                Ok(n) => {
                    &&& all_readable(old(dir).view(), decl_views(groups@))
                    &&& final(dir).view() == answered(
                        old(dir).view(),
                        decl_views(groups@),
                        answer_views(answers@),
                        groups@.len() as int,
                    )
                    &&& n == usable_count(answer_views(answers@))
                },
                Err(e) => {
                    &&& exists|i: int|
                        0 <= i < groups@.len() && raw_dir::read_path(
                            old(dir).view(),
                            (#[trigger] decl_views(groups@)[i]).file_name,
                        ) == Err::<Seq<u8>, GetFileError>(e) && all_readable(
                            old(dir).view(),
                            decl_views(groups@).take(i),
                        )
                    &&& final(dir).view() == old(dir).view()
                },
            }),
    {
        let ghost d = dir.view();
        let ghost gs = decl_views(groups@);
        let ghost ans = answer_views(answers@);
        let mut i: usize = 0;
        while i < groups.len()
            invariant
                i <= groups@.len(),
                dir.wf(),
                d == dir.view(),
                d == old(dir).view(),
                gs == decl_views(groups@),
                forall|j: int|
                    0 <= j < i ==> raw_dir::read_path(d, (#[trigger] gs[j]).file_name) is Ok,
            decreases groups@.len() - i,
        {
            assert(gs[i as int] == groups@[i as int].view());
            if let Err(e) = dir.get_file(groups[i].file_name.as_str()) {
                assert forall|j: int| 0 <= j < gs.take(i as int).len() implies raw_dir::read_path(
                    d,
                    (#[trigger] gs.take(i as int)[j]).file_name,
                ) is Ok by {
                    assert(gs.take(i as int)[j] == gs[j]);
                }
                return Err(e);
            }
            i = i + 1;
        }
        i = 0;
        while i < groups.len()
            invariant
                i <= groups@.len(),
                groups@.len() == answers@.len(),
                dir.wf(),
                raw_dir::wf_dir(d),
                gs == decl_views(groups@),
                ans == answer_views(answers@),
                all_readable(d, gs),
                answers_fit(d, gs, ans),
                dir.view() == answered(d, gs, ans, i as int),
            decreases groups@.len() - i,
        {
            let file_name = groups[i].file_name.as_str();
            let ghost names = raw_dir::names_of(file_name@)->Ok_0;
            proof {
                assert(gs[i as int] == groups@[i as int].view());
                assert(raw_dir::read_path(d, gs[i as int].file_name) is Ok);
                assert(lies_in(gs[i as int], names));
                answers_patch_their_files(d, gs, ans, i as int);
                raw_dir::read_is_file(d, names);
                raw_dir::read_is_file(dir.view(), names);
            }
            if !is_named_before(groups, i) {
                let len: usize = match dir.get_file(file_name) {
                    Ok(source) => source.len(),
                    Err(_) => 0,
                };
                let patches = patches_of_file(groups, answers, file_name, len);
                assert(raw_dir::file_at(dir.view(), names) == raw_dir::file_at(d, names));
                let done = self.patch_file(dir, file_name, &patches);
                assert(done is Ok);
            }
            i = i + 1;
        }
        Ok(count_usable(answers))
    }
}

} // verus!
