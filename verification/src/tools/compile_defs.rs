//! C preprocessor definitions out of a project's `CMakeLists.txt`.

use crate::text;
use vstd::prelude::*;
use vstd::string::*;

verus! {

pub const MARKER: &'static str = "target_compile_definitions";

pub open spec fn is_visibility(tok: Seq<char>) -> bool {
    tok == "PRIVATE"@ || tok == "PUBLIC"@ || tok == "INTERFACE"@
}

/// Whether a word has the shape of a definition: a C identifier, with or without
/// a value that has that shape too.
pub open spec fn looks_like_def(tok: Seq<char>) -> bool {
    &&& tok.len() > 0
    &&& text::is_ascii_letter(tok[0]) || tok[0] == '_'
    &&& forall|i: int|
        0 <= i < tok.len() ==> text::is_ascii_alnum(#[trigger] tok[i]) || tok[i] == '_' || tok[i]
            == '='
}

/// `defs` with the definitions among `toks` added, each once.
pub open spec fn with_defs(defs: Seq<Seq<char>>, toks: Seq<Seq<char>>) -> Seq<Seq<char>>
    decreases toks.len(),
{
    if toks.len() == 0 {
        defs
    } else {
        let before = with_defs(defs, toks.drop_last());
        let tok = toks.last();
        if !is_visibility(tok) && looks_like_def(tok) && !before.contains(tok) {
            before.push(tok)
        } else {
            before
        }
    }
}

/// All but the first.
pub open spec fn after_first(toks: Seq<Seq<char>>) -> Seq<Seq<char>> {
    if toks.len() == 0 {
        toks
    } else {
        toks.skip(1)
    }
}

/// `defs` with the definitions added that the calls in `s` make. The first word
/// of a call names the target.
pub open spec fn defs_in(s: Seq<char>, defs: Seq<Seq<char>>) -> Seq<Seq<char>>
    decreases s.len(),
{
    if s.len() == 0 {
        defs
    } else if MARKER@.len() == 0 || !text::has_prefix(s, MARKER@) {
        defs_in(s.skip(1), defs)
    } else {
        let rest = s.skip(MARKER@.len() as int);
        let open = text::index_of(rest, '(');
        let close = open + text::index_of(rest.skip(open), ')');
        if !(0 <= open < close < rest.len()) {
            defs
        } else {
            defs_in(
                rest.skip(close),
                with_defs(defs, after_first(text::words_of(rest.subrange(open + 1, close)))),
            )
        }
    }
}

fn has_def_shape(tok: &str) -> (r: bool)
    ensures
        r == looks_like_def(tok@),
{
    let v = text::chars_of(tok);
    if v.len() == 0 {
        return false;
    }
    if !(text::ascii_letter(v[0]) || v[0] == '_') {
        return false;
    }
    let mut i: usize = 0;
    while i < v.len()
        invariant
            i <= v@.len(),
            v@ == tok@,
            forall|j: int|
                0 <= j < i ==> text::is_ascii_alnum(#[trigger] tok@[j]) || tok@[j] == '_' || tok@[j]
                    == '=',
        decreases v@.len() - i,
    {
        let c = v[i];
        if !(text::ascii_alnum(c) || c == '_' || c == '=') {
            assert(!text::is_ascii_alnum(tok@[i as int]));
            return false;
        }
        i = i + 1;
    }
    true
}

fn add_defs(defs: &mut Vec<String>, toks: &Vec<String>)
    ensures
        text::texts(final(defs)@) == with_defs(
            text::texts(old(defs)@),
            after_first(text::texts(toks@)),
        ),
{
    broadcast use text::group_texts;

    if toks.len() == 0 {
        return ;
    }
    let ghost start = text::texts(defs@);
    let ghost all = text::texts(toks@).skip(1);
    let mut i: usize = 1;
    assert(all.take(0) =~= seq![]);
    while i < toks.len()
        invariant
            1 <= i <= toks@.len(),
            all == text::texts(toks@).skip(1),
            text::texts(defs@) == with_defs(start, all.take(i - 1)),
        decreases toks@.len() - i,
    {
        assert(all.take(i as int).drop_last() =~= all.take(i - 1));
        assert(all.take(i as int).last() == toks@[i as int]@);
        let tok = toks[i].as_str();
        let keyword = text::same(tok, "PRIVATE") || text::same(tok, "PUBLIC") || text::same(
            tok,
            "INTERFACE",
        );
        if !keyword && has_def_shape(tok) && !text::holds(defs, tok) {
            let d = toks[i].clone();
            defs.push(d);
        }
        i = i + 1;
    }
    assert(all.take(i - 1) =~= all);
}

/// Best-effort extraction of the definitions that the
/// `target_compile_definitions(...)` calls of a project make, as a list separated
/// by spaces. Each definition is listed once, in order of appearance.
pub fn parse_c_compile_defs(cmakelists: &str) -> (r: String)
    ensures
        r@ == text::join_of(defs_in(cmakelists@, seq![]), " "@),
{
    let s = text::chars_of(cmakelists);
    let marker = text::chars_of(MARKER);
    let n: usize = s.len();
    let m: usize = marker.len();
    let mut defs: Vec<String> = Vec::new();
    let mut i: usize = 0;
    let ghost want = defs_in(cmakelists@, seq![]);
    proof {
        reveal_strlit("target_compile_definitions");
        assert(text::texts(defs@) =~= seq![]);
        assert(s@.skip(0) =~= cmakelists@);
    }
    while i < n
        invariant
            i <= n,
            n == s@.len(),
            m == marker@.len(),
            m > 0,
            marker@ == MARKER@,
            want == defs_in(cmakelists@, seq![]),
            want == defs_in(s@.skip(i as int), text::texts(defs@)),
        decreases n - i,
    {
        let ghost here = s@.skip(i as int);
        if !text::stands_at(&s, &marker, i) {
            assert(!text::has_prefix(here, MARKER@)) by {
                if text::has_prefix(here, MARKER@) {
                    assert(s@.subrange(i as int, i + m) =~= here.subrange(0, m as int));
                }
            }
            assert(here.skip(1) =~= s@.skip(i + 1));
            i = i + 1;
        } else {
            assert(here.subrange(0, m as int) =~= s@.subrange(i as int, i + m));
            assert(text::has_prefix(here, MARKER@));
            let at: usize = i + m;
            let ghost rest = here.skip(m as int);
            assert(rest =~= s@.skip(at as int));
            let open = text::index_from(&s, '(', at);
            if open >= n {
                return text::join(&defs, " ");
            }
            let close = text::index_from(&s, ')', open);
            assert(rest.skip(open - at) =~= s@.skip(open as int));
            if close >= n {
                return text::join(&defs, " ");
            }
            assert(s@[open as int] == '(');
            assert(close > open);
            let inside = text::string_of(&s, open + 1, close);
            assert(rest.subrange(open - at + 1, close - at) =~= inside@);
            let toks = text::words(inside.as_str());
            add_defs(&mut defs, &toks);
            assert(rest.skip(close - at) =~= s@.skip(close as int));
            i = close;
        }
    }
    text::join(&defs, " ")
}

/// Nothing is defined twice.
pub proof fn defs_are_distinct(s: Seq<char>, defs: Seq<Seq<char>>)
    requires
        defs.no_duplicates(),
    ensures
        defs_in(s, defs).no_duplicates(),
    decreases s.len(),
{
    if s.len() == 0 {
    } else if MARKER@.len() == 0 || !text::has_prefix(s, MARKER@) {
        defs_are_distinct(s.skip(1), defs);
    } else {
        let rest = s.skip(MARKER@.len() as int);
        let open = text::index_of(rest, '(');
        let close = open + text::index_of(rest.skip(open), ')');
        if 0 <= open < close < rest.len() {
            text::index_of_bounds(rest, '(');
            let toks = after_first(text::words_of(rest.subrange(open + 1, close)));
            added_defs_are_distinct(defs, toks);
            defs_are_distinct(rest.skip(close), with_defs(defs, toks));
        }
    }
}

proof fn added_defs_are_distinct(defs: Seq<Seq<char>>, toks: Seq<Seq<char>>)
    requires
        defs.no_duplicates(),
    ensures
        with_defs(defs, toks).no_duplicates(),
    decreases toks.len(),
{
    if toks.len() > 0 {
        added_defs_are_distinct(defs, toks.drop_last());
    }
}

proof fn without_calls(s: Seq<char>, defs: Seq<Seq<char>>)
    requires
        text::lacks(s, 't'),
    ensures
        defs_in(s, defs) == defs,
    decreases s.len(),
{
    marker_starts();
    if s.len() > 0 {
        let t = s.skip(1);
        assert forall|i: int| 0 <= i < t.len() implies (#[trigger] t[i]) != 't' by {
            assert(s[i + 1] != 't');
        }
        without_calls(t, defs);
        if text::has_prefix(s, MARKER@) {
            assert(s.subrange(0, MARKER@.len() as int)[0] == MARKER@[0]);
        }
    }
}

proof fn up_to_the_call(a: Seq<char>, rest: Seq<char>, defs: Seq<Seq<char>>)
    requires
        text::lacks(a, 't'),
    ensures
        defs_in(a + rest, defs) == defs_in(rest, defs),
    decreases a.len(),
{
    marker_starts();
    let s = a + rest;
    if a.len() == 0 {
        assert(s =~= rest);
    } else {
        let t = a.skip(1);
        assert forall|i: int| 0 <= i < t.len() implies (#[trigger] t[i]) != 't' by {
            assert(a[i + 1] != 't');
        }
        up_to_the_call(t, rest, defs);
        assert(s[0] == a[0]);
        if text::has_prefix(s, MARKER@) {
            assert(s.subrange(0, MARKER@.len() as int)[0] == MARKER@[0]);
        }
        assert(s.skip(1) =~= t + rest);
    }
}

/// The words after the target's name are the definitions that a call makes, as far as
/// they are no keywords and have the shape of one.
pub proof fn calls_make_definitions(
    cmakelists: &str,
    r: String,
    a: Seq<char>,
    body: Seq<char>,
    b: Seq<char>,
)
    requires
        call_ensures(parse_c_compile_defs, (cmakelists,), r),
        cmakelists@ == a + "target_compile_definitions"@ + seq!['('] + body + seq![')'] + b,
        text::lacks(a, 't'),
        text::lacks(b, 't'),
        text::lacks(body, ')'),
    ensures
        r@ == text::join_of(with_defs(seq![], after_first(text::words_of(body))), " "@),
{
    let m = MARKER@;
    let call = m + (seq!['('] + body + seq![')'] + b);
    marker_starts();
    assert(cmakelists@ =~= a + call);
    up_to_the_call(a, call, seq![]);
    one_call(body, b);
}

proof fn marker_starts()
    ensures
        MARKER@.len() > 0,
        MARKER@[0] == 't',
{
    reveal_strlit("target_compile_definitions");
}

proof fn brackets_of_a_call(body: Seq<char>, b: Seq<char>)
    requires
        text::lacks(body, ')'),
    ensures
        ({
            let rest = seq!['('] + body + seq![')'] + b;
            let close = body.len() as int + 1;
            &&& text::index_of(rest, '(') == 0
            &&& text::index_of(rest.skip(0), ')') == close
            &&& close < rest.len()
            &&& rest.subrange(1, close) == body
            &&& rest.skip(close) == seq![')'] + b
        }),
{
    let rest = seq!['('] + body + seq![')'] + b;
    let close = body.len() as int + 1;
    text::index_of_unique(rest, '(', 0);
    assert(rest.skip(0) =~= rest);
    assert forall|j: int| 0 <= j < close implies rest[j] != ')' by {
        if j > 0 {
            assert(rest[j] == body[j - 1]);
        }
    }
    assert(rest[close] == ')');
    text::index_of_unique(rest, ')', close);
    assert(rest.subrange(1, close) =~= body);
    assert(rest.skip(close) =~= seq![')'] + b);
}

proof fn one_call(body: Seq<char>, b: Seq<char>)
    requires
        text::lacks(b, 't'),
        text::lacks(body, ')'),
    ensures
        defs_in(MARKER@ + (seq!['('] + body + seq![')'] + b), seq![]) == with_defs(
            seq![],
            after_first(text::words_of(body)),
        ),
{
    let m = MARKER@;
    let rest = seq!['('] + body + seq![')'] + b;
    let call = m + rest;
    marker_starts();
    assert(call.subrange(0, m.len() as int) =~= m);
    assert(call.skip(m.len() as int) =~= rest);
    brackets_of_a_call(body, b);
    let defs = with_defs(seq![], after_first(text::words_of(body)));
    let after = seq![')'] + b;
    assert forall|i: int| 0 <= i < after.len() implies (#[trigger] after[i]) != 't' by {
        if i > 0 {
            assert(after[i] == b[i - 1]);
        }
    }
    without_calls(after, defs);
}

/// A word is taken as a definition exactly if it is no keyword and has its shape, and
/// none is taken twice.
pub proof fn definitions_are_told_by_their_shape(toks: Seq<Seq<char>>, t: Seq<char>)
    ensures
        with_defs(seq![], toks).contains(t) <==> toks.contains(t) && looks_like_def(t) && t
            != "PRIVATE"@ && t != "PUBLIC"@ && t != "INTERFACE"@,
        with_defs(seq![], toks).no_duplicates(),
    decreases toks.len(),
{
    if toks.len() > 0 {
        let front = toks.drop_last();
        let last = toks.last();
        definitions_are_told_by_their_shape(front, t);
        definitions_are_told_by_their_shape(front, last);
        let before = with_defs(seq![], front);
        let all = with_defs(seq![], toks);
        assert(toks[toks.len() - 1] == last);
        if before.contains(t) {
            let k = choose|k: int| 0 <= k < before.len() && before[k] == t;
            assert(all[k] == t);
        }
        if front.contains(t) {
            let k = choose|k: int| 0 <= k < front.len() && front[k] == t;
            assert(toks[k] == t);
        }
        if toks.contains(t) && t != last {
            let k = choose|k: int| 0 <= k < toks.len() && toks[k] == t;
            assert(front[k] == t);
        }
        if all.len() > before.len() {
            assert(all[before.len() as int] == last);
        }
        if all.contains(t) && !before.contains(t) {
            let k = choose|k: int| 0 <= k < all.len() && all[k] == t;
            if k < before.len() {
                assert(before[k] == t);
            }
        }
    }
}

} // verus!
