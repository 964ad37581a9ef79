//! What holds of the repair of declarations: which errors a declaration is shown, and
//! what is left of a body.

use crate::fs::raw_dir;
use crate::fs::raw_dir::{DirView, RawDir};
use crate::path;
use crate::rust_syntax::{ItemBlocks, ItemBlocksView};
use crate::text;
use crate::tools::fix_declarations_llm;
use crate::tools::fix_declarations_llm::{
    attribute_errors, errors_text, patch_of_answer, BuildMessage, DeclErrors, DeclErrorsView,
    FileItems, FixError, Located, Patch,
};
use crate::tools::stubs;
use crate::tools::stubs::stub_blocks;
use vstd::prelude::*;
use vstd::utf8::*;

verus! {

/// Whether a group is of this declaration and holds the message.
pub open spec fn shows(
    g: DeclErrorsView,
    file_name: Seq<char>,
    range: Option<(usize, usize)>,
    message: Seq<char>,
) -> bool {
    &&& path::components_of(g.file_name) == path::components_of(file_name)
    &&& g.range == range
    &&& g.messages.contains(message)
}

/// Whether one of the groups is of this declaration and holds the message.
pub open spec fn shown_in(
    groups: Seq<DeclErrorsView>,
    file_name: Seq<char>,
    range: Option<(usize, usize)>,
    message: Seq<char>,
) -> bool {
    exists|i: int|
        0 <= i < groups.len() && shows(#[trigger] groups[i], file_name, range, message)
}

proof fn message_is_added(
    groups: Seq<DeclErrorsView>,
    file_name: Seq<char>,
    range: Option<(usize, usize)>,
    message: Seq<char>,
)
    ensures
        shown_in(
            fix_declarations_llm::with_message(groups, file_name, range, message),
            file_name,
            range,
            message,
        ),
    decreases groups.len(),
{
    let all = fix_declarations_llm::with_message(groups, file_name, range, message);
    if groups.len() == 0 {
        assert(all[0].messages[0] == message);
        assert(shows(all[0], file_name, range, message));
    } else if fix_declarations_llm::is_group(groups[0], file_name, range) {
        let n = groups[0].messages.len() as int;
        assert(all[0].messages[n] == message);
        assert(shows(all[0], file_name, range, message));
    } else {
        let rest = groups.skip(1);
        message_is_added(rest, file_name, range, message);
        let more = fix_declarations_llm::with_message(rest, file_name, range, message);
        let i = choose|i: int|
            0 <= i < more.len() && shows(#[trigger] more[i], file_name, range, message);
        assert(all[i + 1] == more[i]);
        assert(shows(all[i + 1], file_name, range, message));
    }
}

proof fn messages_stay(
    groups: Seq<DeclErrorsView>,
    file_name: Seq<char>,
    range: Option<(usize, usize)>,
    message: Seq<char>,
    f: Seq<char>,
    r: Option<(usize, usize)>,
    m: Seq<char>,
)
    requires
        shown_in(groups, f, r, m),
    ensures
        shown_in(fix_declarations_llm::with_message(groups, file_name, range, message), f, r, m),
    decreases groups.len(),
{
    let all = fix_declarations_llm::with_message(groups, file_name, range, message);
    let i = choose|i: int| 0 <= i < groups.len() && shows(#[trigger] groups[i], f, r, m);
    if fix_declarations_llm::is_group(groups[0], file_name, range) {
        if i == 0 {
            let k = choose|k: int|
                0 <= k < groups[0].messages.len() && groups[0].messages[k] == m;
            assert(all[0].messages[k] == m);
            assert(shows(all[0], f, r, m));
        } else {
            assert(all[i] == groups[i]);
            assert(shows(all[i], f, r, m));
        }
    } else if i == 0 {
        assert(all[0] == groups[0]);
        assert(shows(all[0], f, r, m));
    } else {
        let rest = groups.skip(1);
        assert(rest[i - 1] == groups[i]);
        assert(shows(rest[i - 1], f, r, m));
        messages_stay(rest, file_name, range, message, f, r, m);
        let more = fix_declarations_llm::with_message(rest, file_name, range, message);
        let k = choose|k: int| 0 <= k < more.len() && shows(#[trigger] more[k], f, r, m);
        assert(all[k + 1] == more[k]);
        assert(shows(all[k + 1], f, r, m));
    }
}

proof fn attributed_errors_are_shown(
    dir: DirView,
    items: Seq<FileItems>,
    errors: Seq<Located>,
    j: int,
)
    requires
        fix_declarations_llm::attributed(dir, items, errors) is Ok,
        0 <= j < errors.len(),
    ensures
        fix_declarations_llm::items_of(items, errors[j].file_name) is Some,
        shown_in(
            fix_declarations_llm::attributed(dir, items, errors)->Ok_0,
            errors[j].file_name,
            fix_declarations_llm::decl_at(
                fix_declarations_llm::items_of(items, errors[j].file_name)->0,
                errors[j].start,
                errors[j].end,
            ),
            errors[j].message,
        ),
    decreases errors.len(),
{
    let e = errors.last();
    let groups = fix_declarations_llm::attributed(dir, items, errors.drop_last())->Ok_0;
    let ranges = fix_declarations_llm::items_of(items, e.file_name)->0;
    let decl = fix_declarations_llm::decl_at(ranges, e.start, e.end);
    if j == errors.len() - 1 {
        message_is_added(groups, e.file_name, decl, e.message);
    } else {
        let f = errors.drop_last()[j];
        assert(f == errors[j]);
        attributed_errors_are_shown(dir, items, errors.drop_last(), j);
        messages_stay(
            groups,
            e.file_name,
            decl,
            e.message,
            f.file_name,
            fix_declarations_llm::decl_at(
                fix_declarations_llm::items_of(items, f.file_name)->0,
                f.start,
                f.end,
            ),
            f.message,
        );
    }
}

proof fn errors_are_located(messages: Seq<BuildMessage>, i: int, k: int) -> (j: int)
    requires
        0 <= i < messages.len(),
        messages[i].is_error,
        0 <= k < messages[i].spans@.len(),
    ensures
        0 <= j < fix_declarations_llm::located_errors(messages).len(),
        ({
            let l = fix_declarations_llm::located_errors(messages)[j];
            let s = messages[i].spans@[k];
            &&& l.file_name == s.file_name@
            &&& l.start == s.byte_start
            &&& l.end == s.byte_end
            &&& l.message == messages[i].message@
        }),
    decreases messages.len(),
{
    let front = messages.drop_last();
    let before = fix_declarations_llm::located_errors(front);
    if i == messages.len() - 1 {
        let here = fix_declarations_llm::located_in(messages[i].spans@, messages[i].message@);
        let j = before.len() + k;
        assert(fix_declarations_llm::located_errors(messages)[j] == here[k]);
        j
    } else {
        assert(front[i] == messages[i]);
        let j = errors_are_located(front, i, k);
        assert(fix_declarations_llm::located_errors(messages)[j] == before[j]);
        j
    }
}

proof fn first_that_holds(ranges: Seq<(usize, usize)>, start: u32, end: u32, d: int)
    requires
        0 <= d < ranges.len(),
        ranges[d].0 <= start < ranges[d].1 && ranges[d].0 <= end < ranges[d].1,
        forall|j: int|
            0 <= j < d ==> !((#[trigger] ranges[j]).0 <= start < ranges[j].1 && ranges[j].0 <= end
                < ranges[j].1),
    ensures
        fix_declarations_llm::decl_at(ranges, start, end) == Some(ranges[d]),
    decreases d,
{
    if d > 0 {
        assert(!(ranges[0].0 <= start < ranges[0].1 && ranges[0].0 <= end < ranges[0].1));
        let rest = ranges.skip(1);
        assert(rest[d - 1] == ranges[d]);
        assert forall|j: int| 0 <= j < d - 1 implies !((#[trigger] rest[j]).0 <= start < rest[j].1
            && rest[j].0 <= end < rest[j].1) by {
            assert(rest[j] == ranges[j + 1]);
        }
        first_that_holds(rest, start, end, d - 1);
    }
}

proof fn none_that_holds(ranges: Seq<(usize, usize)>, start: u32, end: u32)
    requires
        forall|j: int|
            0 <= j < ranges.len() ==> !((#[trigger] ranges[j]).0 <= start < ranges[j].1
                && ranges[j].0 <= end < ranges[j].1),
    ensures
        fix_declarations_llm::decl_at(ranges, start, end) is None,
    decreases ranges.len(),
{
    if ranges.len() > 0 {
        assert(!(ranges[0].0 <= start < ranges[0].1 && ranges[0].0 <= end < ranges[0].1));
        let rest = ranges.skip(1);
        assert forall|j: int| 0 <= j < rest.len() implies !((#[trigger] rest[j]).0 <= start
            < rest[j].1 && rest[j].0 <= end < rest[j].1) by {
            assert(rest[j] == ranges[j + 1]);
        }
        none_that_holds(rest, start, end);
    }
}

/// Whether a declaration holds both ends of a span.
pub open spec fn holds_span(d: (usize, usize), start: u32, end: u32) -> bool {
    d.0 <= start < d.1 && d.0 <= end < d.1
}

/// Every error is shown to the declaration that it lies in, and to the whole file if it
/// lies in none.
pub proof fn errors_are_shown_to_their_declaration(
    dir: &RawDir,
    items: &Vec<FileItems>,
    messages: &Vec<BuildMessage>,
    r: Result<Vec<DeclErrors>, FixError>,
    i: int,
    k: int,
    ranges: Seq<(usize, usize)>,
    d: int,
)
    requires
        dir.wf(),
        call_ensures(attribute_errors, (dir, items, messages), r),
        0 <= i < messages@.len(),
        messages@[i].is_error,
        0 <= k < messages@[i].spans@.len(),
        fix_declarations_llm::items_of(items@, messages@[i].spans@[k].file_name@) == Some(ranges),
    ensures
        r matches Ok(v) ==> {
            let groups = fix_declarations_llm::decl_views(v@);
            let s = messages@[i].spans@[k];
            &&& 0 <= d < ranges.len() && holds_span(ranges[d], s.byte_start, s.byte_end) && (
            forall|j: int|
                0 <= j < d ==> !holds_span(#[trigger] ranges[j], s.byte_start, s.byte_end))
                ==> shown_in(groups, s.file_name@, Some(ranges[d]), messages@[i].message@)
            &&& (forall|j: int|
                0 <= j < ranges.len() ==> !holds_span(
                    #[trigger] ranges[j],
                    s.byte_start,
                    s.byte_end,
                )) ==> shown_in(
                groups,
                s.file_name@,
                None,
                messages@[i].message@,
            )
        },
{
    if let Ok(v) = r {
        let s = messages@[i].spans@[k];
        let errors = fix_declarations_llm::located_errors(messages@);
        let j = errors_are_located(messages@, i, k);
        attributed_errors_are_shown(dir.view(), items@, errors, j);
        if 0 <= d < ranges.len() && holds_span(ranges[d], s.byte_start, s.byte_end) && (forall|
            j: int,
        |
            0 <= j < d ==> !holds_span(#[trigger] ranges[j], s.byte_start, s.byte_end)) {
            first_that_holds(ranges, s.byte_start, s.byte_end, d);
        }
        if forall|j: int|
            0 <= j < ranges.len() ==> !holds_span(#[trigger] ranges[j], s.byte_start, s.byte_end) {
            none_that_holds(ranges, s.byte_start, s.byte_end);
        }
    }
}

proof fn no_errors_are_located(messages: Seq<BuildMessage>)
    requires
        forall|i: int| 0 <= i < messages.len() ==> !(#[trigger] messages[i]).is_error,
    ensures
        fix_declarations_llm::located_errors(messages).len() == 0,
    decreases messages.len(),
{
    if messages.len() > 0 {
        assert(!messages[messages.len() - 1].is_error);
        let front = messages.drop_last();
        assert forall|i: int| 0 <= i < front.len() implies !(#[trigger] front[i]).is_error by {
            assert(front[i] == messages[i]);
        }
        no_errors_are_located(front);
    }
}

/// Warnings and notes alone leave nothing to repair.
pub proof fn warnings_are_no_errors(
    dir: &RawDir,
    items: &Vec<FileItems>,
    messages: &Vec<BuildMessage>,
    r: Result<Vec<DeclErrors>, FixError>,
)
    requires
        dir.wf(),
        call_ensures(attribute_errors, (dir, items, messages), r),
        forall|i: int| 0 <= i < messages@.len() ==> !(#[trigger] messages@[i]).is_error,
    ensures
        r matches Ok(v) && v@.len() == 0,
{
    no_errors_are_located(messages@);
    if let Ok(v) = r {
        assert(fix_declarations_llm::decl_views(v@).len() == v@.len());
    }
}

/// All errors of a declaration are in the text that the model is shown.
pub proof fn all_errors_are_told(decl: &DeclErrors, r: String, i: int)
    requires
        call_ensures(errors_text, (decl,), r),
        0 <= i < decl.messages@.len(),
    ensures
        text::contains_text(r@, decl.messages@[i]@),
{
    let all = text::texts(decl.messages@);
    assert(all[i] == decl.messages@[i]@);
    text::joined_parts_are_held(all, "\n\n"@, i);
}

/// An answer replaces its declaration, or the whole file where there is none. Without
/// an answer, or with an empty one, nothing is replaced.
pub proof fn answers_replace_their_declaration(
    range: Option<(usize, usize)>,
    len: usize,
    answer: Option<&str>,
    r: Option<Patch>,
)
    requires
        call_ensures(patch_of_answer, (range, len, answer), r),
    ensures
        r is Some <==> answer is Some && answer->0@.len() > 0,
        r matches Some(p) ==> p.text@ == answer->0@,
        r matches Some(p) ==> (range matches Some(d) ==> p.start == d.0 && p.end == d.1),
        r matches Some(p) ==> (range is None ==> p.start == 0 && p.end == len),
{
}

/// A body gives way to the stub, and what stands around it is kept.
pub proof fn bodies_give_way_to_the_stub(
    src: &[u8],
    blocks: &Vec<(usize, usize)>,
    r: Option<Vec<u8>>,
    a: usize,
    b: usize,
)
    requires
        call_ensures(stub_blocks, (src, blocks), r),
    ensures
        blocks@.len() == 0 ==> (r matches Some(v) && v@ == src@),
        blocks@ == seq![(a, b)] && a <= b <= src@.len() ==> (r matches Some(v) && v@ == src@.take(
            a as int,
        ) + encode_utf8("{ todo!() }"@) + src@.skip(b as int)),
        blocks@ == seq![(a, b)] && !(a <= b <= src@.len()) ==> r is None,
{
    if blocks@.len() == 0 {
        assert(blocks@ =~= seq![]);
        assert(src@.skip(0) =~= src@);
    }
    if blocks@ == seq![(a, b)] {
        let rest = blocks@.skip(1);
        assert(rest =~= seq![]);
        assert(blocks@[0] == (a, b));
        assert(stubs::stubbed(src@, b as int, rest) == src@.skip(b as int));
        assert(stubs::blocks_fit(src@.len() as int, b as int, rest) <==> b <= src@.len());
        assert(src@.subrange(0, a as int) =~= src@.take(a as int));
    }
}

// ── Stubs ────────────────────────────────────────────────────────────────

proof fn present_ranges(v: Seq<Option<(usize, usize)>>, x: (usize, usize))
    ensures
        stubs::present(v.push(None)) == stubs::present(v),
        stubs::present(v.push(Some(x))) == stubs::present(v).push(x),
        stubs::present(seq![]).len() == 0,
{
    assert(v.push(None).drop_last() =~= v);
    assert(v.push(Some(x)).drop_last() =~= v);
}

/// A function and an impl of only that function are stubbed alike; what is no function
/// leaves an impl as it is, and any other item stays whole.
pub proof fn only_functions_lose_their_bodies(
    source: &[u8],
    a: usize,
    b: usize,
    alone: ItemBlocks,
    wrapped: ItemBlocks,
    one: ItemBlocks,
    more: ItemBlocks,
    other: ItemBlocks,
    members: Seq<Option<(usize, usize)>>,
    r: Option<String>,
    s: Option<String>,
    t: Option<String>,
    u: Option<String>,
    w: Option<String>,
)
    requires
        alone.view() == ItemBlocksView::Fn(a, b),
        wrapped.view() == ItemBlocksView::Impl(seq![Some((a, b))]),
        one.view() == ItemBlocksView::Impl(members),
        more.view() == ItemBlocksView::Impl(members.push(None)),
        other.view() == ItemBlocksView::Other,
        call_ensures(stubs::stub_item, (&alone, source), r),
        call_ensures(stubs::stub_item, (&wrapped, source), s),
        call_ensures(stubs::stub_item, (&one, source), t),
        call_ensures(stubs::stub_item, (&more, source), u),
        call_ensures(stubs::stub_item, (&other, source), w),
    ensures
        text::opt_text(r) == text::opt_text(s),
        text::opt_text(t) == text::opt_text(u),
        valid_utf8(source@) ==> w is Some && w->0@ == decode_utf8(source@),
{
    present_ranges(seq![], (a, b));
    let none: Seq<Option<(usize, usize)>> = seq![];
    assert(none.push(Some((a, b))) =~= seq![Some((a, b))]);
    assert(stubs::present(none) =~= seq![]);
    assert(stubs::present(seq![Some((a, b))]) =~= seq![(a, b)]);
    present_ranges(members, (a, b));
    let whole = stubs::stubbed(source@, 0, seq![]);
    assert(whole =~= source@);
}

proof fn ranges_hold_their_stubs(source: Seq<u8>, ranges: Seq<(usize, usize)>, k: int, s: Seq<char>)
    requires
        0 <= k < ranges.len(),
        stubs::declaration_stub(source.subrange(ranges[k].0 as int, ranges[k].1 as int)) == Some(s),
    ensures
        fix_declarations_llm::range_stubs(source, ranges).contains(s),
    decreases ranges.len(),
{
    let all = fix_declarations_llm::range_stubs(source, ranges);
    let front = ranges.drop_last();
    let before = fix_declarations_llm::range_stubs(source, front);
    if k == front.len() {
        assert(all == before.push(s));
        assert(all[all.len() - 1] == s);
    } else {
        assert(front[k] == ranges[k]);
        ranges_hold_their_stubs(source, front, k, s);
        let i = choose|i: int| 0 <= i < before.len() && before[i] == s;
        assert(all[i] == s);
    }
}

proof fn packages_hold_their_stubs(
    dir: DirView,
    items: Seq<FileItems>,
    i: int,
    source: Seq<u8>,
    s: Seq<char>,
)
    requires
        0 <= i < items.len(),
        raw_dir::read_path(dir, items[i].file_name@) matches Ok(b) && b == source,
        fix_declarations_llm::range_stubs(source, items[i].ranges@).contains(s),
    ensures
        fix_declarations_llm::package_stubs(dir, items).contains(s),
    decreases items.len(),
{
    let all = fix_declarations_llm::package_stubs(dir, items);
    let front = items.drop_last();
    let before = fix_declarations_llm::package_stubs(dir, front);
    if i == front.len() {
        let own = fix_declarations_llm::range_stubs(source, items[i].ranges@);
        assert(all == before + own);
        let n = choose|n: int| 0 <= n < own.len() && own[n] == s;
        assert(all[before.len() + n] == s);
    } else {
        assert(front[i] == items[i]);
        packages_hold_their_stubs(dir, front, i, source, s);
        let n = choose|n: int| 0 <= n < before.len() && before[n] == s;
        assert(all[n] == s);
    }
}

/// What a declaration can rely on holds every declaration of every file that can be
/// read, as it is stubbed.
pub proof fn every_declaration_is_in_the_context(
    dir: &RawDir,
    items: &Vec<FileItems>,
    r: String,
    i: int,
    k: int,
    source: Seq<u8>,
    part: &[u8],
    s: Option<String>,
)
    requires
        call_ensures(fix_declarations_llm::interface_context, (dir, items), r),
        0 <= i < items@.len(),
        0 <= k < items@[i].ranges@.len(),
        raw_dir::read_path(dir.view(), items@[i].file_name@) matches Ok(b) && b == source,
        part@ == source.subrange(
            items@[i].ranges@[k].0 as int,
            items@[i].ranges@[k].1 as int,
        ),
        call_ensures(stubs::stub_declaration, (part,), s),
    ensures
        s is Some ==> text::contains_text(r@, s->0@),
{
    if s is Some {
        ranges_hold_their_stubs(source, items@[i].ranges@, k, s->0@);
        packages_hold_their_stubs(dir.view(), items@, i, source, s->0@);
        let all = fix_declarations_llm::package_stubs(dir.view(), items@);
        let n = choose|n: int| 0 <= n < all.len() && all[n] == s->0@;
        text::joined_parts_are_held(all, "\n\n"@, n);
    }
}

} // verus!
