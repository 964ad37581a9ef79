//! Text as sequences of characters: the operations the rest of the crate reads
//! and writes its lines, names and messages with.

use vstd::prelude::*;
use vstd::string::*;

verus! {

/// `String::push`: "Appends the given char to the end of this String."
pub assume_specification[ String::push ](s: &mut String, c: char)
    ensures
        final(s)@ == old(s)@.push(c),
;

// ── What the operations mean ─────────────────────────────────────────────

/// The characters with Unicode's `White_Space` property.
pub open spec fn is_space(c: char) -> bool {
    let n = c as int;
    ||| 9 <= n <= 13
    ||| n == 32
    ||| n == 0x85
    ||| n == 0xA0
    ||| n == 0x1680
    ||| 0x2000 <= n <= 0x200A
    ||| n == 0x2028
    ||| n == 0x2029
    ||| n == 0x202F
    ||| n == 0x205F
    ||| n == 0x3000
}

/// The views of a sequence of strings.
pub open spec fn texts(v: Seq<String>) -> Seq<Seq<char>> {
    v.map_values(|s: String| s@)
}

/// The view of an optional string.
pub open spec fn opt_text(s: Option<String>) -> Option<Seq<char>> {
    match s {
        Some(s) => Some(s@),
        None => None,
    }
}

pub open spec fn opt_str(s: Option<&str>) -> Option<Seq<char>> {
    match s {
        Some(x) => Some(x@),
        None => None,
    }
}

pub open spec fn trim_start_of(s: Seq<char>) -> Seq<char>
    decreases s.len(),
{
    if s.len() > 0 && is_space(s[0]) {
        trim_start_of(s.skip(1))
    } else {
        s
    }
}

pub open spec fn trim_end_of(s: Seq<char>) -> Seq<char>
    decreases s.len(),
{
    if s.len() > 0 && is_space(s.last()) {
        trim_end_of(s.drop_last())
    } else {
        s
    }
}

/// `s` without the white space at either end.
pub open spec fn trim_of(s: Seq<char>) -> Seq<char> {
    trim_end_of(trim_start_of(s))
}

/// `s` without the characters `c` at its end.
pub open spec fn trim_end_char_of(s: Seq<char>, c: char) -> Seq<char>
    decreases s.len(),
{
    if s.len() > 0 && s.last() == c {
        trim_end_char_of(s.drop_last(), c)
    } else {
        s
    }
}

pub open spec fn occurs_at(s: Seq<char>, p: Seq<char>, i: int) -> bool {
    0 <= i && i + p.len() <= s.len() && s.subrange(i, i + p.len()) == p
}

pub open spec fn has_prefix(s: Seq<char>, p: Seq<char>) -> bool {
    occurs_at(s, p, 0)
}

pub open spec fn has_suffix(s: Seq<char>, p: Seq<char>) -> bool {
    occurs_at(s, p, s.len() - p.len())
}

pub open spec fn contains_text(s: Seq<char>, p: Seq<char>) -> bool {
    exists|i: int| occurs_at(s, p, i)
}

/// Position of the first `c` in `s`, or the length of `s` when there is none.
pub open spec fn index_of(s: Seq<char>, c: char) -> int
    decreases s.len(),
{
    if s.len() == 0 || s[0] == c {
        0
    } else {
        1 + index_of(s.skip(1), c)
    }
}

/// The pieces of `s` between the characters `c`; always at least one.
pub open spec fn pieces_of(s: Seq<char>, c: char) -> Seq<Seq<char>>
    decreases s.len(),
{
    let n = index_of(s, c);
    if 0 <= n < s.len() {
        seq![s.take(n)] + pieces_of(s.skip(n + 1), c)
    } else {
        seq![s]
    }
}

/// A line without the carriage return before its line feed.
pub open spec fn without_cr(s: Seq<char>) -> Seq<char> {
    if s.len() > 0 && s.last() == '\r' {
        s.drop_last()
    } else {
        s
    }
}

/// The lines of `s`, each without its ending (`\n` or `\r\n`). The ending of the
/// last line is optional.
pub open spec fn lines_of(s: Seq<char>) -> Seq<Seq<char>>
    decreases s.len(),
{
    let n = index_of(s, '\n');
    if s.len() == 0 {
        seq![]
    } else if 0 <= n < s.len() {
        seq![without_cr(s.take(n))] + lines_of(s.skip(n + 1))
    } else {
        seq![s]
    }
}

/// Length of the run of non-white-space characters that `s` starts with.
pub open spec fn word_len(s: Seq<char>) -> int
    decreases s.len(),
{
    if s.len() == 0 || is_space(s[0]) {
        0
    } else {
        1 + word_len(s.skip(1))
    }
}

/// The maximal runs of non-white-space characters in `s`.
pub open spec fn words_of(s: Seq<char>) -> Seq<Seq<char>>
    decreases s.len(),
{
    if s.len() == 0 {
        seq![]
    } else if is_space(s[0]) {
        words_of(s.skip(1))
    } else {
        let n = word_len(s);
        if 0 < n <= s.len() {
            seq![s.take(n)] + words_of(s.skip(n))
        } else {
            seq![]
        }
    }
}

/// `parts` one after another with `sep` between neighbours.
pub open spec fn join_of(parts: Seq<Seq<char>>, sep: Seq<char>) -> Seq<char>
    decreases parts.len(),
{
    if parts.len() == 0 {
        seq![]
    } else if parts.len() == 1 {
        parts[0]
    } else {
        join_of(parts.drop_last(), sep) + sep + parts.last()
    }
}

/// Whether a character does not occur.
pub open spec fn lacks(s: Seq<char>, c: char) -> bool {
    forall|i: int| 0 <= i < s.len() ==> (#[trigger] s[i]) != c
}

/// `s` with every occurrence of `p`, found from the left, replaced by `w`.
pub open spec fn replace_of(s: Seq<char>, p: Seq<char>, w: Seq<char>) -> Seq<char>
    decreases s.len(),
{
    if s.len() == 0 {
        s
    } else if p.len() > 0 && has_prefix(s, p) {
        w + replace_of(s.skip(p.len() as int), p, w)
    } else {
        seq![s[0]] + replace_of(s.skip(1), p, w)
    }
}

pub open spec fn digit_char(d: int) -> char {
    (d + 48) as char
}

/// `n` in decimal digits.
pub open spec fn decimal_of(n: nat) -> Seq<char>
    decreases n,
{
    if n < 10 {
        seq![digit_char(n as int)]
    } else {
        decimal_of(n / 10).push(digit_char((n % 10) as int))
    }
}

/// Lexicographic order by code point, the order of `str`.
pub open spec fn text_less(a: Seq<char>, b: Seq<char>) -> bool
    decreases a.len(),
{
    if b.len() == 0 {
        false
    } else if a.len() == 0 {
        true
    } else if a[0] == b[0] {
        text_less(a.skip(1), b.skip(1))
    } else {
        (a[0] as int) < (b[0] as int)
    }
}

pub open spec fn ascii_lower_char(c: char) -> char {
    if 65 <= c as int <= 90 {
        (c as int + 32) as char
    } else {
        c
    }
}

/// `s` with its ASCII capital letters made small.
pub open spec fn ascii_lower_of(s: Seq<char>) -> Seq<char> {
    s.map_values(|c: char| ascii_lower_char(c))
}

/// Whether every character of `s` is an ASCII one.
pub open spec fn all_ascii(s: Seq<char>) -> bool {
    forall|i: int| 0 <= i < s.len() ==> (#[trigger] s[i]) as int <= 127
}

pub open spec fn is_ascii_letter(c: char) -> bool {
    65 <= c as int <= 90 || 97 <= c as int <= 122
}

pub open spec fn is_ascii_digit(c: char) -> bool {
    48 <= c as int <= 57
}

pub open spec fn is_ascii_alnum(c: char) -> bool {
    is_ascii_letter(c) || is_ascii_digit(c)
}

// ── Lemmas ───────────────────────────────────────────────────────────────

pub broadcast proof fn texts_push(v: Seq<String>, s: String)
    ensures
        #[trigger] texts(v.push(s)) == texts(v).push(s@),
{
    assert(texts(v.push(s)) =~= texts(v).push(s@));
}

pub broadcast proof fn texts_index(v: Seq<String>, i: int)
    requires
        0 <= i < v.len(),
    ensures
        #[trigger] texts(v)[i] == v[i]@,
{
}

pub broadcast proof fn texts_len(v: Seq<String>)
    ensures
        #[trigger] texts(v).len() == v.len(),
{
}

pub broadcast group group_texts {
    texts_push,
    texts_index,
    texts_len,
}

pub proof fn index_of_bounds(s: Seq<char>, c: char)
    ensures
        0 <= index_of(s, c) <= s.len(),
        index_of(s, c) < s.len() ==> s[index_of(s, c)] == c,
        forall|j: int| 0 <= j < index_of(s, c) ==> s[j] != c,
    decreases s.len(),
{
    if s.len() > 0 && s[0] != c {
        index_of_bounds(s.skip(1), c);
        assert forall|j: int| 0 <= j < index_of(s, c) implies s[j] != c by {
            if j > 0 {
                assert(s.skip(1)[j - 1] == s[j]);
            }
        }
    }
}

/// A position with no `c` before it is the first one.
pub proof fn index_of_unique(s: Seq<char>, c: char, n: int)
    requires
        0 <= n <= s.len(),
        n < s.len() ==> s[n] == c,
        forall|j: int| 0 <= j < n ==> s[j] != c,
    ensures
        index_of(s, c) == n,
{
    index_of_bounds(s, c);
}

/// The lines of two texts are those of the one and then those of the other, where
/// the first ends a line.
pub proof fn lines_of_concat(s: Seq<char>, t: Seq<char>)
    requires
        s.len() == 0 || s.last() == '\n',
    ensures
        lines_of(s + t) == lines_of(s) + lines_of(t),
    decreases s.len(),
{
    if s.len() == 0 {
        assert(s + t =~= t);
        assert(lines_of(s) + lines_of(t) =~= lines_of(t));
    } else {
        let n = index_of(s, '\n');
        index_of_bounds(s, '\n');
        if n == s.len() {
            assert(s[s.len() - 1] == '\n');
        }
        assert forall|j: int| 0 <= j < n implies (s + t)[j] != '\n' by {
            assert((s + t)[j] == s[j]);
        }
        assert((s + t)[n] == '\n');
        index_of_unique(s + t, '\n', n);
        assert((s + t).take(n) =~= s.take(n));
        let rest = s.skip(n + 1);
        assert((s + t).skip(n + 1) =~= rest + t);
        if rest.len() > 0 {
            assert(rest.last() == s.last());
        }
        lines_of_concat(rest, t);
        assert(lines_of(s + t) =~= seq![without_cr(s.take(n))] + (lines_of(rest) + lines_of(t)));
        assert(lines_of(s + t) =~= lines_of(s) + lines_of(t));
    }
}

pub proof fn word_len_bounds(s: Seq<char>)
    ensures
        0 <= word_len(s) <= s.len(),
        word_len(s) < s.len() ==> is_space(s[word_len(s)]),
        forall|j: int| 0 <= j < word_len(s) ==> !is_space(s[j]),
    decreases s.len(),
{
    if s.len() > 0 && !is_space(s[0]) {
        word_len_bounds(s.skip(1));
        assert forall|j: int| 0 <= j < word_len(s) implies !is_space(s[j]) by {
            if j > 0 {
                assert(s.skip(1)[j - 1] == s[j]);
            }
        }
    }
}

pub proof fn text_less_irreflexive(a: Seq<char>)
    ensures
        !text_less(a, a),
    decreases a.len(),
{
    if a.len() > 0 {
        text_less_irreflexive(a.skip(1));
    }
}

pub proof fn text_less_total(a: Seq<char>, b: Seq<char>)
    ensures
        a == b || text_less(a, b) || text_less(b, a),
    decreases a.len(),
{
    if a.len() > 0 && b.len() > 0 {
        if a[0] == b[0] {
            text_less_total(a.skip(1), b.skip(1));
            if a.skip(1) == b.skip(1) {
                assert(a =~= seq![a[0]] + a.skip(1));
                assert(b =~= seq![b[0]] + b.skip(1));
            }
        }
    } else if a.len() == 0 && b.len() == 0 {
        assert(a =~= b);
    }
}

pub proof fn text_less_transitive(a: Seq<char>, b: Seq<char>, c: Seq<char>)
    requires
        text_less(a, b),
        text_less(b, c),
    ensures
        text_less(a, c),
    decreases a.len(),
{
    if a.len() > 0 && b.len() > 0 && c.len() > 0 {
        if a[0] == b[0] && b[0] == c[0] {
            text_less_transitive(a.skip(1), b.skip(1), c.skip(1));
        }
    }
}

// ── Laws ─────────────────────────────────────────────────────────────────

/// Whether every character of `s` is white space.
pub open spec fn is_blank(s: Seq<char>) -> bool {
    forall|i: int| 0 <= i < s.len() ==> is_space(#[trigger] s[i])
}

/// Whether `core` is what of `s` stands between the white space at its ends: nothing
/// but white space is left out, and there is none at the ends of what is left.
pub open spec fn is_core(s: Seq<char>, core: Seq<char>) -> bool {
    exists|i: int, j: int|
        #![trigger s.subrange(i, j)]
        {
            &&& 0 <= i <= j <= s.len()
            &&& core == s.subrange(i, j)
            &&& forall|k: int| 0 <= k < i ==> is_space(#[trigger] s[k])
            &&& forall|k: int| j <= k < s.len() ==> is_space(#[trigger] s[k])
            &&& core.len() > 0 ==> !is_space(core[0]) && !is_space(core.last())
        }
}

proof fn trim_start_bounds(s: Seq<char>)
    ensures
        trim_start_of(s).len() <= s.len(),
        trim_start_of(s) == s.skip(s.len() - trim_start_of(s).len()),
        forall|k: int| 0 <= k < s.len() - trim_start_of(s).len() ==> is_space(#[trigger] s[k]),
        trim_start_of(s).len() > 0 ==> !is_space(trim_start_of(s)[0]),
    decreases s.len(),
{
    if s.len() > 0 && is_space(s[0]) {
        trim_start_bounds(s.skip(1));
        let t = trim_start_of(s);
        assert(t =~= s.skip(s.len() - t.len()));
        assert forall|k: int| 0 <= k < s.len() - t.len() implies is_space(#[trigger] s[k]) by {
            if k > 0 {
                assert(s.skip(1)[k - 1] == s[k]);
            }
        }
    } else {
        assert(s.skip(0) =~= s);
    }
}

proof fn trim_end_bounds(s: Seq<char>)
    ensures
        trim_end_of(s).len() <= s.len(),
        trim_end_of(s) == s.take(trim_end_of(s).len() as int),
        forall|k: int| trim_end_of(s).len() <= k < s.len() ==> is_space(#[trigger] s[k]),
        trim_end_of(s).len() > 0 ==> !is_space(trim_end_of(s).last()),
    decreases s.len(),
{
    if s.len() > 0 && is_space(s.last()) {
        trim_end_bounds(s.drop_last());
        let t = trim_end_of(s);
        assert(t =~= s.take(t.len() as int));
        assert forall|k: int| t.len() <= k < s.len() implies is_space(#[trigger] s[k]) by {
            if k < s.len() - 1 {
                assert(s.drop_last()[k] == s[k]);
            }
        }
    } else {
        assert(s.take(s.len() as int) =~= s);
    }
}

/// Trimming leaves out the white space at both ends, all of it, and nothing else.
pub proof fn trimming_leaves_the_core(s: Seq<char>)
    ensures
        is_core(s, trim_of(s)),
{
    let a = trim_start_of(s);
    trim_start_bounds(s);
    trim_end_bounds(a);
    let t = trim_of(s);
    let i = s.len() - a.len();
    let j = i + t.len();
    assert(t =~= s.subrange(i, j));
    assert forall|k: int| j <= k < s.len() implies is_space(#[trigger] s[k]) by {
        assert(a[k - i] == s[k]);
    }
    if t.len() > 0 {
        assert(t[0] == a[0]);
    }
}

/// What is left after trimming is determined: a text has one core.
pub proof fn the_core_is_unique(s: Seq<char>, a: Seq<char>, b: Seq<char>)
    requires
        is_core(s, a),
        is_core(s, b),
    ensures
        a == b,
{
    let (i, j) = choose|i: int, j: int|
        #![trigger s.subrange(i, j)]
        {
            &&& 0 <= i <= j <= s.len()
            &&& a == s.subrange(i, j)
            &&& forall|k: int| 0 <= k < i ==> is_space(#[trigger] s[k])
            &&& forall|k: int| j <= k < s.len() ==> is_space(#[trigger] s[k])
            &&& a.len() > 0 ==> !is_space(a[0]) && !is_space(a.last())
        };
    let (p, q) = choose|p: int, q: int|
        #![trigger s.subrange(p, q)]
        {
            &&& 0 <= p <= q <= s.len()
            &&& b == s.subrange(p, q)
            &&& forall|k: int| 0 <= k < p ==> is_space(#[trigger] s[k])
            &&& forall|k: int| q <= k < s.len() ==> is_space(#[trigger] s[k])
            &&& b.len() > 0 ==> !is_space(b[0]) && !is_space(b.last())
        };
    if a.len() > 0 {
        assert(a[0] == s[i] && a.last() == s[j - 1]);
        assert(p <= i && j <= q);
    }
    if b.len() > 0 {
        assert(b[0] == s[p] && b.last() == s[q - 1]);
        assert(i <= p && q <= j);
    }
    if a.len() == 0 && b.len() == 0 {
        assert(a =~= b);
    }
}

/// How many characters of `s` are not white space.
pub open spec fn ink(s: Seq<char>) -> nat
    decreases s.len(),
{
    if s.len() == 0 {
        0
    } else {
        ink(s.drop_last()) + if is_space(s.last()) {
            0nat
        } else {
            1
        }
    }
}

pub proof fn ink_adds_up(a: Seq<char>, b: Seq<char>)
    ensures
        ink(a + b) == ink(a) + ink(b),
    decreases b.len(),
{
    if b.len() == 0 {
        assert(a + b =~= a);
    } else {
        assert((a + b).drop_last() =~= a + b.drop_last());
        ink_adds_up(a, b.drop_last());
    }
}

proof fn blanks_have_no_ink(s: Seq<char>)
    ensures
        ink(s) == 0 <==> is_blank(s),
    decreases s.len(),
{
    if s.len() > 0 {
        blanks_have_no_ink(s.drop_last());
        if is_blank(s) {
            assert(is_blank(s.drop_last()));
        } else if is_blank(s.drop_last()) && is_space(s.last()) {
            assert forall|i: int| 0 <= i < s.len() implies is_space(#[trigger] s[i]) by {
                if i < s.len() - 1 {
                    assert(s.drop_last()[i] == s[i]);
                }
            }
        }
    }
}

/// Texts with the same core hold as many characters that are not white space.
pub proof fn cores_keep_the_ink(s: Seq<char>, core: Seq<char>)
    requires
        is_core(s, core),
    ensures
        ink(core) == ink(s),
{
    let (i, j) = choose|i: int, j: int|
        #![trigger s.subrange(i, j)]
        {
            &&& 0 <= i <= j <= s.len()
            &&& core == s.subrange(i, j)
            &&& forall|k: int| 0 <= k < i ==> is_space(#[trigger] s[k])
            &&& forall|k: int| j <= k < s.len() ==> is_space(#[trigger] s[k])
            &&& core.len() > 0 ==> !is_space(core[0]) && !is_space(core.last())
        };
    let a = s.take(i);
    let b = s.skip(j);
    assert(s =~= a + core + b);
    ink_adds_up(a + core, b);
    ink_adds_up(a, core);
    assert(is_blank(b)) by {
        assert forall|k: int| 0 <= k < b.len() implies is_space(#[trigger] b[k]) by {
            assert(b[k] == s[j + k]);
        }
    }
    blanks_have_no_ink(a);
    blanks_have_no_ink(b);
}

/// A text and the same text with more at its end have one core only if what is added
/// is white space.
pub proof fn only_blanks_may_follow(p: Seq<char>, x: Seq<char>, core: Seq<char>)
    requires
        is_core(p, core),
        is_core(p + x, core),
    ensures
        is_blank(x),
{
    cores_keep_the_ink(p, core);
    cores_keep_the_ink(p + x, core);
    ink_adds_up(p, x);
    blanks_have_no_ink(x);
}

/// The number that a text of digits stands for.
pub open spec fn number_of(s: Seq<char>) -> nat
    decreases s.len(),
{
    if s.len() == 0 {
        0
    } else {
        (number_of(s.drop_last()) * 10 + (s.last() as int - 48)) as nat
    }
}

/// A number written in decimal digits reads back as that number; it is made of
/// digits, and does not start with a zero unless it is one.
pub proof fn decimals_read_back(n: nat)
    ensures
        decimal_of(n).len() > 0,
        forall|i: int| 0 <= i < decimal_of(n).len() ==> is_ascii_digit(#[trigger] decimal_of(n)[i]),
        number_of(decimal_of(n)) == n,
        n > 0 ==> decimal_of(n)[0] != '0',
    decreases n,
{
    let d = decimal_of(n);
    if n >= 10 {
        decimals_read_back(n / 10);
        assert(d.drop_last() =~= decimal_of(n / 10));
        assert(d[0] == decimal_of(n / 10)[0]);
        assert(n / 10 > 0);
        assert forall|i: int| 0 <= i < d.len() implies is_ascii_digit(#[trigger] d[i]) by {
            if i < d.len() - 1 {
                assert(d[i] == decimal_of(n / 10)[i]);
            }
        }
    } else {
        assert(d.drop_last() =~= seq![]);
        assert(number_of(d.drop_last()) == 0);
    }
}

/// A text without the first character of what is replaced stays as it is.
pub proof fn nothing_to_replace(s: Seq<char>, p: Seq<char>, w: Seq<char>)
    requires
        p.len() > 0,
        lacks(s, p[0]),
    ensures
        replace_of(s, p, w) == s,
    decreases s.len(),
{
    if s.len() > 0 {
        let t = s.skip(1);
        assert forall|i: int| 0 <= i < t.len() implies (#[trigger] t[i]) != p[0] by {
            assert(s[i + 1] != p[0]);
        }
        nothing_to_replace(t, p, w);
        if has_prefix(s, p) {
            assert(s.subrange(0, p.len() as int)[0] == p[0]);
            assert(s[0] == p[0]);
        }
        assert(seq![s[0]] + t =~= s);
    }
}

/// What is replaced is found after a text without its first character, and what
/// follows it is treated in the same way.
pub proof fn occurrences_are_replaced(a: Seq<char>, p: Seq<char>, b: Seq<char>, w: Seq<char>)
    requires
        p.len() > 0,
        lacks(a, p[0]),
    ensures
        replace_of(a + p + b, p, w) == a + w + replace_of(b, p, w),
    decreases a.len(),
{
    let s = a + p + b;
    if a.len() == 0 {
        assert(s.subrange(0, p.len() as int) =~= p);
        assert(s.skip(p.len() as int) =~= b);
        assert(a + w + replace_of(b, p, w) =~= w + replace_of(b, p, w));
    } else {
        let t = a.skip(1);
        assert forall|i: int| 0 <= i < t.len() implies (#[trigger] t[i]) != p[0] by {
            assert(a[i + 1] != p[0]);
        }
        occurrences_are_replaced(t, p, b, w);
        assert(s.skip(1) =~= t + p + b);
        assert(s[0] == a[0]);
        if has_prefix(s, p) {
            assert(s.subrange(0, p.len() as int)[0] == p[0]);
        }
        assert(seq![a[0]] + (t + w + replace_of(b, p, w)) =~= a + w + replace_of(b, p, w));
    }
}

/// What stands between two texts is found in the whole.
pub(crate) proof fn part_is_held(a: Seq<char>, p: Seq<char>, b: Seq<char>)
    ensures
        contains_text(a + p + b, p),
{
    let s = a + p + b;
    let i = a.len() as int;
    assert(s.subrange(i, i + p.len()) =~= p);
    assert(occurs_at(s, p, i));
}

/// What is found in a text is found in a longer one.
pub(crate) proof fn held_in_more(a: Seq<char>, s: Seq<char>, b: Seq<char>, p: Seq<char>)
    requires
        contains_text(s, p),
    ensures
        contains_text(a + s + b, p),
        contains_text(s + b, p),
        contains_text(a + s, p),
{
    let i = choose|i: int| occurs_at(s, p, i);
    let n = a.len() as int;
    assert((a + s + b).subrange(n + i, n + i + p.len()) =~= s.subrange(i, i + p.len()));
    assert(occurs_at(a + s + b, p, n + i));
    assert((s + b).subrange(i, i + p.len()) =~= s.subrange(i, i + p.len()));
    assert(occurs_at(s + b, p, i));
    assert((a + s).subrange(n + i, n + i + p.len()) =~= s.subrange(i, i + p.len()));
    assert(occurs_at(a + s, p, n + i));
}

/// What follows the last separator of a text is its last piece, and the others are
/// those of what comes before.
pub proof fn the_last_piece_follows_the_last_separator(s: Seq<char>, c: char, t: Seq<char>)
    requires
        lacks(t, c),
    ensures
        pieces_of(s + seq![c] + t, c) == pieces_of(s, c).push(t),
    decreases s.len(),
{
    let whole = s + seq![c] + t;
    let n = index_of(s, c);
    index_of_bounds(s, c);
    assert forall|j: int| 0 <= j < n implies whole[j] != c by {
        assert(whole[j] == s[j]);
    }
    assert(whole[n] == c);
    index_of_unique(whole, c, n);
    assert(whole.take(n) =~= s.take(n));
    if n < s.len() {
        let rest = s.skip(n + 1);
        the_last_piece_follows_the_last_separator(rest, c, t);
        assert(whole.skip(n + 1) =~= rest + seq![c] + t);
        assert(seq![s.take(n)] + pieces_of(rest, c).push(t) =~= (seq![s.take(n)] + pieces_of(
            rest,
            c,
        )).push(t));
    } else {
        assert(whole.skip(n + 1) =~= t);
        index_of_bounds(t, c);
        assert(pieces_of(t, c) =~= seq![t]);
        assert(pieces_of(s, c) =~= seq![s]);
        assert(s.take(n) =~= s);
        assert(seq![s] + seq![t] =~= seq![s].push(t));
    }
}

/// Every part of a joined text is found in it.
pub proof fn joined_parts_are_held(parts: Seq<Seq<char>>, sep: Seq<char>, i: int)
    requires
        0 <= i < parts.len(),
    ensures
        contains_text(join_of(parts, sep), parts[i]),
    decreases parts.len(),
{
    let whole = join_of(parts, sep);
    if parts.len() == 1 {
        assert(whole.subrange(0, whole.len() as int) =~= parts[0]);
        assert(occurs_at(whole, parts[0], 0));
    } else {
        let front = join_of(parts.drop_last(), sep);
        if i == parts.len() - 1 {
            let n = (front.len() + sep.len()) as int;
            assert(whole.subrange(n, n + parts[i].len()) =~= parts[i]);
            assert(occurs_at(whole, parts[i], n));
        } else {
            joined_parts_are_held(parts.drop_last(), sep, i);
            assert(parts.drop_last()[i] == parts[i]);
            let k = choose|k: int| occurs_at(front, parts[i], k);
            assert(occurs_at(front, parts[i], k));
            assert(whole.subrange(k, k + parts[i].len()) =~= front.subrange(
                k,
                k + parts[i].len(),
            ));
            assert(occurs_at(whole, parts[i], k));
        }
    }
}

/// The parts of a joined text have all its length but the separators'.
pub proof fn joined_parts_add_up(parts: Seq<Seq<char>>, x: Seq<char>, sep: Seq<char>)
    ensures
        join_of(seq![], sep) == Seq::<char>::empty(),
        parts.len() > 0 ==> join_of(parts.push(x), sep) == join_of(parts, sep) + sep + x,
        parts.len() == 0 ==> join_of(parts.push(x), sep) == x,
{
    assert(parts.push(x).drop_last() =~= parts);
    assert(join_of(seq![], sep) =~= Seq::<char>::empty());
}

/// Taking a text apart at a character loses nothing, and leaves no such character.
pub proof fn pieces_make_up_the_text(s: Seq<char>, c: char, i: int)
    requires
        0 <= i < pieces_of(s, c).len(),
    ensures
        lacks(pieces_of(s, c)[i], c),
        glued(pieces_of(s, c), c) == s,
    decreases s.len(),
{
    let n = index_of(s, c);
    index_of_bounds(s, c);
    let all = pieces_of(s, c);
    if n < s.len() {
        let rest = s.skip(n + 1);
        let more = pieces_of(rest, c);
        assert(all.skip(1) =~= more);
        pieces_are_some(rest, c);
        if i == 0 {
            pieces_make_up_the_text(rest, c, 0);
            assert(all[0] == s.take(n));
        } else {
            pieces_make_up_the_text(rest, c, i - 1);
            assert(all[i] == more[i - 1]);
        }
        assert(s.take(n) + seq![c] + rest =~= s);
    }
}

/// Texts are ordered by the first character in which they differ; a text comes before
/// those that go on from it.
pub proof fn the_first_difference_decides(
    common: Seq<char>,
    x: char,
    y: char,
    a: Seq<char>,
    b: Seq<char>,
)
    ensures
        (x as int) < (y as int) ==> text_less(common + seq![x] + a, common + seq![y] + b),
        (x as int) > (y as int) ==> !text_less(common + seq![x] + a, common + seq![y] + b),
        text_less(common, common + seq![x] + a),
        !text_less(common + seq![x] + a, common),
    decreases common.len(),
{
    let one = common + seq![x] + a;
    let two = common + seq![y] + b;
    if common.len() > 0 {
        let rest = common.skip(1);
        the_first_difference_decides(rest, x, y, a, b);
        assert(one.skip(1) =~= rest + seq![x] + a);
        assert(two.skip(1) =~= rest + seq![y] + b);
        assert(one[0] == common[0] && two[0] == common[0]);
    } else {
        assert(one[0] == x && two[0] == y);
    }
}

/// Taking characters off both ends takes all of them there and none elsewhere.
pub proof fn only_the_ends_are_taken_off(s: &str, c: char, r: String)
    requires
        call_ensures(trim_char, (s, c), r),
    ensures
        r@.len() > 0 ==> r@[0] != c && r@.last() != c,
        exists|front: Seq<char>, back: Seq<char>|
            #![trigger front + r@ + back]
            s@ == front + r@ + back && (forall|i: int| 0 <= i < front.len() ==> front[i] == c) && (
            forall|i: int| 0 <= i < back.len() ==> back[i] == c),
{
    let rest = trim_start_char_of(s@, c);
    start_is_taken_off(s@, c);
    end_is_taken_off(rest, c);
    let front = s@.take(s@.len() - rest.len());
    let back = rest.skip(r@.len() as int);
    assert(s@ =~= front + r@ + back) by {
        assert(s@.skip(s@.len() - rest.len()) == rest);
        assert(rest =~= r@ + back);
        assert(s@ =~= front + rest);
    }
    if r@.len() > 0 {
        assert(r@[0] == rest[0]);
    }
}

proof fn start_is_taken_off(s: Seq<char>, c: char)
    ensures
        ({
            let r = trim_start_char_of(s, c);
            &&& r.len() <= s.len()
            &&& s.skip(s.len() - r.len()) == r
            &&& r.len() > 0 ==> r[0] != c
            &&& forall|i: int| 0 <= i < s.len() - r.len() ==> s[i] == c
        }),
    decreases s.len(),
{
    let r = trim_start_char_of(s, c);
    if s.len() > 0 && s[0] == c {
        let t = s.skip(1);
        start_is_taken_off(t, c);
        assert(s.skip(s.len() - r.len()) =~= t.skip(t.len() - r.len()));
        assert forall|i: int| 0 <= i < s.len() - r.len() implies s[i] == c by {
            if i > 0 {
                assert(t[i - 1] == s[i]);
            }
        }
    } else {
        assert(s.skip(0) =~= s);
    }
}

proof fn end_is_taken_off(s: Seq<char>, c: char)
    ensures
        ({
            let r = trim_end_char_of(s, c);
            &&& r.len() <= s.len()
            &&& s.take(r.len() as int) == r
            &&& r.len() > 0 ==> r.last() != c
            &&& forall|i: int| r.len() <= i < s.len() ==> s[i] == c
        }),
    decreases s.len(),
{
    let r = trim_end_char_of(s, c);
    if s.len() > 0 && s.last() == c {
        let t = s.drop_last();
        end_is_taken_off(t, c);
        assert(s.take(r.len() as int) =~= t.take(r.len() as int));
        assert forall|i: int| r.len() <= i < s.len() implies s[i] == c by {
            if i < s.len() - 1 {
                assert(t[i] == s[i]);
            }
        }
    } else {
        assert(s.take(s.len() as int) =~= s);
    }
}

/// Capital letters become the small letters they belong to; all else stays.
pub proof fn capitals_become_small(s: &str, r: String, i: int)
    requires
        call_ensures(ascii_lower, (s,), r),
        0 <= i < s@.len(),
    ensures
        r@.len() == s@.len(),
        'A' as int <= s@[i] as int <= 'Z' as int ==> r@[i] as int - 'a' as int == s@[i] as int
            - 'A' as int,
        !('A' as int <= s@[i] as int <= 'Z' as int) ==> r@[i] == s@[i],
{
}

/// Text up to a line feed is a line of its own, its carriage return not with it;
/// the other lines are those of what follows.
pub proof fn lines_end_at_line_feeds(a: Seq<char>, b: Seq<char>)
    requires
        !a.contains('\n'),
    ensures
        lines_of(a + seq!['\n'] + b) == seq![
            if a.len() > 0 && a.last() == '\r' {
                a.drop_last()
            } else {
                a
            },
        ] + lines_of(b),
        a.len() > 0 ==> lines_of(a) == seq![a],
        lines_of(Seq::empty()).len() == 0,
{
    let s = a + seq!['\n'] + b;
    assert(s[a.len() as int] == '\n');
    assert forall|j: int| 0 <= j < a.len() implies s[j] != '\n' by {
        assert(a.contains(a[j]));
    }
    index_of_unique(s, '\n', a.len() as int);
    assert(s.take(a.len() as int) =~= a);
    assert(s.skip(a.len() as int + 1) =~= b);
    index_of_bounds(a, '\n');
    if index_of(a, '\n') < a.len() {
        assert(a.contains(a[index_of(a, '\n')]));
    }
}

pub(crate) proof fn pieces_are_some(s: Seq<char>, c: char)
    ensures
        pieces_of(s, c).len() > 0,
{
}

/// Pieces with a character between any two.
pub open spec fn glued(pieces: Seq<Seq<char>>, c: char) -> Seq<char>
    decreases pieces.len(),
{
    if pieces.len() == 0 {
        seq![]
    } else if pieces.len() == 1 {
        pieces[0]
    } else {
        pieces[0] + seq![c] + glued(pieces.skip(1), c)
    }
}

/// A word holds no white space.
pub proof fn words_hold_no_space(s: Seq<char>, i: int, k: int)
    requires
        0 <= i < words_of(s).len(),
        0 <= k < words_of(s)[i].len(),
    ensures
        !is_space(words_of(s)[i][k]),
        words_of(s)[i].len() > 0,
    decreases s.len(),
{
    if is_space(s[0]) {
        words_hold_no_space(s.skip(1), i, k);
    } else {
        let n = word_len(s);
        let more = words_of(s.skip(n));
        word_len_bounds(s);
        if i > 0 {
            assert(words_of(s)[i] == more[i - 1]);
            words_hold_no_space(s.skip(n), i - 1, k);
        } else {
            assert(words_of(s)[0] == s.take(n));
        }
    }
}

// ── Executable operations ────────────────────────────────────────────────

/// The characters of `s`.
pub fn chars_of(s: &str) -> (r: Vec<char>)
    ensures
        r@ == s@,
{
    let mut v: Vec<char> = Vec::new();
    for c in it: s.chars()
        invariant
            v@ == it.seq().take(it.index() as int),
    {
        v.push(c);
    }
    v
}

/// The characters `from..to` of `v` as a string.
pub fn string_of(v: &Vec<char>, from: usize, to: usize) -> (r: String)
    requires
        from <= to <= v@.len(),
    ensures
        r@ == v@.subrange(from as int, to as int),
{
    let mut out = String::new();
    let mut i: usize = from;
    while i < to
        invariant
            from <= i <= to <= v@.len(),
            out@ == v@.subrange(from as int, i as int),
        decreases to - i,
    {
        out.push(v[i]);
        i = i + 1;
    }
    out
}

pub fn same(a: &str, b: &str) -> (r: bool)
    ensures
        r == (a@ == b@),
{
    a.to_owned() == b.to_owned()
}

/// Whether two lists hold the same texts in the same order.
pub fn same_texts(a: &Vec<String>, b: &Vec<String>) -> (r: bool)
    ensures
        r == (texts(a@) == texts(b@)),
{
    broadcast use group_texts;

    if a.len() != b.len() {
        assert(texts(a@).len() != texts(b@).len());
        return false;
    }
    let mut i: usize = 0;
    while i < a.len()
        invariant
            i <= a@.len(),
            a@.len() == b@.len(),
            forall|j: int| 0 <= j < i ==> texts(a@)[j] == texts(b@)[j],
        decreases a@.len() - i,
    {
        if !same(a[i].as_str(), b[i].as_str()) {
            assert(texts(a@)[i as int] != texts(b@)[i as int]);
            return false;
        }
        i = i + 1;
    }
    assert(texts(a@) =~= texts(b@));
    true
}

pub fn is_space_char(c: char) -> (r: bool)
    ensures
        r == is_space(c),
{
    let n: u32 = c as u32;
    (9 <= n && n <= 13) || n == 32 || n == 0x85 || n == 0xA0 || n == 0x1680 || (0x2000 <= n && n
        <= 0x200A) || n == 0x2028 || n == 0x2029 || n == 0x202F || n == 0x205F || n == 0x3000
}

pub fn ascii_letter(c: char) -> (r: bool)
    ensures
        r == is_ascii_letter(c),
{
    let n: u32 = c as u32;
    (65 <= n && n <= 90) || (97 <= n && n <= 122)
}

pub fn ascii_digit(c: char) -> (r: bool)
    ensures
        r == is_ascii_digit(c),
{
    let n: u32 = c as u32;
    48 <= n && n <= 57
}

pub fn ascii_alnum(c: char) -> (r: bool)
    ensures
        r == is_ascii_alnum(c),
{
    ascii_letter(c) || ascii_digit(c)
}

/// Whether `p` stands in `s` at position `i`.
pub fn stands_at(s: &Vec<char>, p: &Vec<char>, i: usize) -> (r: bool)
    requires
        i <= s@.len(),
    ensures
        r == occurs_at(s@, p@, i as int),
{
    let n: usize = s.len();
    if p.len() > n - i {
        return false;
    }
    let mut k: usize = 0;
    while k < p.len()
        invariant
            k <= p@.len(),
            n == s@.len(),
            i + p@.len() <= n,
            forall|j: int| 0 <= j < k ==> s@[i + j] == p@[j],
        decreases p@.len() - k,
    {
        if s[i + k] != p[k] {
            assert(s@.subrange(i as int, i + p@.len())[k as int] != p@[k as int]);
            return false;
        }
        k = k + 1;
    }
    assert(s@.subrange(i as int, i + p@.len()) =~= p@);
    true
}

pub fn starts_with(s: &str, p: &str) -> (r: bool)
    ensures
        r == has_prefix(s@, p@),
{
    let sv = chars_of(s);
    let pv = chars_of(p);
    stands_at(&sv, &pv, 0)
}

pub fn ends_with(s: &str, p: &str) -> (r: bool)
    ensures
        r == has_suffix(s@, p@),
{
    let sv = chars_of(s);
    let pv = chars_of(p);
    if pv.len() > sv.len() {
        return false;
    }
    stands_at(&sv, &pv, sv.len() - pv.len())
}

/// The first position at or after `from` where `p` stands in `s`.
pub fn find_from(s: &Vec<char>, p: &Vec<char>, from: usize) -> (r: Option<usize>)
    requires
        from <= s@.len(),
    ensures
        (match r {
            Some(i) => from <= i && occurs_at(s@, p@, i as int) && forall|j: int|
                from <= j < i ==> !occurs_at(s@, p@, j),
            None => forall|j: int| from <= j ==> !occurs_at(s@, p@, j),
        }),
{
    let mut i: usize = from;
    while i < s.len()
        invariant
            from <= i <= s@.len(),
            forall|j: int| from <= j < i ==> !occurs_at(s@, p@, j),
        decreases s@.len() - i,
    {
        if stands_at(s, p, i) {
            return Some(i);
        }
        i = i + 1;
    }
    if stands_at(s, p, i) {
        return Some(i);
    }
    None
}

pub fn contains(s: &str, p: &str) -> (r: bool)
    ensures
        r == contains_text(s@, p@),
{
    let sv = chars_of(s);
    let pv = chars_of(p);
    find_from(&sv, &pv, 0).is_some()
}

pub fn contains_char(s: &str, c: char) -> (r: bool)
    ensures
        r == s@.contains(c),
{
    let sv = chars_of(s);
    let mut i: usize = 0;
    while i < sv.len()
        invariant
            i <= sv@.len(),
            sv@ == s@,
            forall|j: int| 0 <= j < i ==> s@[j] != c,
        decreases sv@.len() - i,
    {
        if sv[i] == c {
            return true;
        }
        i = i + 1;
    }
    false
}

/// The first position at or after `from` that holds `c`, or the length of `s`.
pub fn index_from(s: &Vec<char>, c: char, from: usize) -> (r: usize)
    requires
        from <= s@.len(),
    ensures
        r == from + index_of(s@.skip(from as int), c),
        from <= r <= s@.len(),
        r < s@.len() ==> s@[r as int] == c,
        forall|j: int| from <= j < r ==> s@[j] != c,
{
    let mut i: usize = from;
    while i < s.len() && s[i] != c
        invariant
            from <= i <= s@.len(),
            forall|j: int| from <= j < i ==> s@[j] != c,
        decreases s@.len() - i,
    {
        i = i + 1;
    }
    proof {
        index_of_unique(s@.skip(from as int), c, i - from);
    }
    i
}

/// The part of `s` before the first `c` and the part after it.
pub fn split_once(s: &str, c: char) -> (r: Option<(String, String)>)
    ensures
        (match r {
            Some((a, b)) => index_of(s@, c) < s@.len() && a@ == s@.take(index_of(s@, c)) && b@
                == s@.skip(index_of(s@, c) + 1),
            None => index_of(s@, c) == s@.len(),
        }),
{
    let sv = chars_of(s);
    let n = index_from(&sv, c, 0);
    assert(sv@.skip(0) =~= s@);
    if n < sv.len() {
        let a = string_of(&sv, 0, n);
        let b = string_of(&sv, n + 1, sv.len());
        assert(b@ =~= s@.skip(n + 1));
        Some((a, b))
    } else {
        None
    }
}

/// `str::split` on a character.
pub fn pieces(s: &str, c: char) -> (r: Vec<String>)
    ensures
        texts(r@) == pieces_of(s@, c),
{
    broadcast use group_texts;

    let sv = chars_of(s);
    let mut out: Vec<String> = Vec::new();
    let mut start: usize = 0;
    assert(sv@.skip(0) =~= sv@);
    assert(texts(out@) =~= seq![]);
    loop
        invariant
            start <= sv@.len(),
            sv@ == s@,
            texts(out@) + pieces_of(sv@.skip(start as int), c) == pieces_of(s@, c),
        decreases sv@.len() - start,
    {
        let n = index_from(&sv, c, start);
        let ghost rest = sv@.skip(start as int);
        let piece = string_of(&sv, start, n);
        let ghost before = texts(out@);
        out.push(piece);
        if n < sv.len() {
            assert(piece@ =~= rest.take(n - start));
            assert(sv@.skip(n + 1) =~= rest.skip(n - start + 1));
            assert(before + pieces_of(rest, c) =~= texts(out@) + pieces_of(sv@.skip(n + 1), c));
            start = n + 1;
        } else {
            assert(piece@ =~= rest);
            assert(before + pieces_of(rest, c) =~= texts(out@));
            return out;
        }
    }
}

/// `str::lines`.
pub fn lines(s: &str) -> (r: Vec<String>)
    ensures
        texts(r@) == lines_of(s@),
{
    broadcast use group_texts;

    let sv = chars_of(s);
    let mut out: Vec<String> = Vec::new();
    let mut start: usize = 0;
    assert(sv@.skip(0) =~= sv@);
    assert(texts(out@) =~= seq![]);
    while start < sv.len()
        invariant
            start <= sv@.len(),
            sv@ == s@,
            texts(out@) + lines_of(sv@.skip(start as int)) == lines_of(s@),
        decreases sv@.len() - start,
    {
        let n = index_from(&sv, '\n', start);
        let ghost rest = sv@.skip(start as int);
        let ghost before = texts(out@);
        if n < sv.len() {
            let end: usize = if n > start && sv[n - 1] == '\r' {
                n - 1
            } else {
                n
            };
            let line = string_of(&sv, start, end);
            out.push(line);
            assert(line@ =~= without_cr(rest.take(n - start)));
            assert(sv@.skip(n + 1) =~= rest.skip(n - start + 1));
            assert(before + lines_of(rest) =~= texts(out@) + lines_of(sv@.skip(n + 1)));
            start = n + 1;
        } else {
            let line = string_of(&sv, start, n);
            out.push(line);
            assert(line@ =~= rest);
            assert(sv@.skip(n as int) =~= seq![]);
            assert(before + lines_of(rest) =~= texts(out@) + lines_of(sv@.skip(n as int)));
            start = n;
        }
    }
    assert(sv@.skip(start as int) =~= seq![]);
    assert(texts(out@) + lines_of(sv@.skip(start as int)) =~= texts(out@));
    out
}

/// `str::split_whitespace`.
pub fn words(s: &str) -> (r: Vec<String>)
    ensures
        texts(r@) == words_of(s@),
{
    broadcast use group_texts;

    let sv = chars_of(s);
    let mut out: Vec<String> = Vec::new();
    let mut i: usize = 0;
    assert(sv@.skip(0) =~= sv@);
    assert(texts(out@) =~= seq![]);
    while i < sv.len()
        invariant
            i <= sv@.len(),
            sv@ == s@,
            texts(out@) + words_of(sv@.skip(i as int)) == words_of(s@),
        decreases sv@.len() - i,
    {
        let ghost rest = sv@.skip(i as int);
        if is_space_char(sv[i]) {
            assert(rest.skip(1) =~= sv@.skip(i + 1));
            i = i + 1;
        } else {
            let start = i;
            while i < sv.len() && !is_space_char(sv[i])
                invariant
                    start <= i <= sv@.len(),
                    forall|j: int| start <= j < i ==> !is_space(sv@[j]),
                decreases sv@.len() - i,
            {
                i = i + 1;
            }
            let word = string_of(&sv, start, i);
            let ghost before = texts(out@);
            out.push(word);
            proof {
                word_len_bounds(rest);
                assert(rest[0] == sv@[start as int]);
                let n = word_len(rest);
                if n < i - start {
                    assert(rest[n] == sv@[start + n]);
                }
                if n > i - start {
                    assert(rest[i - start] == sv@[i as int]);
                }
                assert(word@ =~= rest.take(n));
                assert(sv@.skip(i as int) =~= rest.skip(n));
                assert(before + words_of(rest) =~= texts(out@) + words_of(sv@.skip(i as int)));
            }
        }
    }
    assert(sv@.skip(i as int) =~= seq![]);
    assert(texts(out@) + words_of(sv@.skip(i as int)) =~= texts(out@));
    out
}

proof fn trim_start_skip(s: Seq<char>, n: int)
    requires
        0 <= n <= s.len(),
        forall|j: int| 0 <= j < n ==> is_space(s[j]),
    ensures
        trim_start_of(s) == trim_start_of(s.skip(n)),
    decreases n,
{
    if n > 0 {
        assert forall|j: int| 0 <= j < n - 1 implies is_space(s.skip(1)[j]) by {
            assert(s.skip(1)[j] == s[j + 1]);
        }
        trim_start_skip(s.skip(1), n - 1);
        assert(s.skip(1).skip(n - 1) =~= s.skip(n));
    } else {
        assert(s.skip(0) =~= s);
    }
}

/// `str::trim`.
pub fn trim(s: &str) -> (r: String)
    ensures
        r@ == trim_of(s@),
{
    let sv = chars_of(s);
    let mut a: usize = 0;
    while a < sv.len() && is_space_char(sv[a])
        invariant
            a <= sv@.len(),
            forall|j: int| 0 <= j < a ==> is_space(sv@[j]),
        decreases sv@.len() - a,
    {
        a = a + 1;
    }
    let ghost t = sv@.skip(a as int);
    proof {
        trim_start_skip(sv@, a as int);
        assert(trim_start_of(sv@) == t);
    }
    let mut b: usize = sv.len();
    assert(t.take(b - a) =~= t);
    while b > a && is_space_char(sv[b - 1])
        invariant
            a <= b <= sv@.len(),
            t == sv@.skip(a as int),
            trim_end_of(t.take(b - a)) == trim_end_of(t),
        decreases b,
    {
        assert(t.take(b - a).last() == sv@[b - 1]);
        assert(t.take(b - a).drop_last() =~= t.take(b - a - 1));
        b = b - 1;
    }
    if b > a {
        assert(t.take(b - a).last() == sv@[b - 1]);
    }
    let r = string_of(&sv, a, b);
    assert(r@ =~= t.take(b - a));
    r
}

/// `str::trim_end_matches` of a character.
pub fn trim_end_char(s: &str, c: char) -> (r: String)
    ensures
        r@ == trim_end_char_of(s@, c),
{
    let sv = chars_of(s);
    let mut b: usize = sv.len();
    assert(sv@.take(b as int) =~= sv@);
    while b > 0 && sv[b - 1] == c
        invariant
            b <= sv@.len(),
            trim_end_char_of(sv@.take(b as int), c) == trim_end_char_of(sv@, c),
        decreases b,
    {
        assert(sv@.take(b as int).last() == sv@[b - 1]);
        assert(sv@.take(b as int).drop_last() =~= sv@.take(b - 1));
        b = b - 1;
    }
    if b > 0 {
        assert(sv@.take(b as int).last() == sv@[b - 1]);
    }
    let r = string_of(&sv, 0, b);
    assert(r@ =~= sv@.take(b as int));
    r
}

/// `s` without the characters `c` at its start.
pub open spec fn trim_start_char_of(s: Seq<char>, c: char) -> Seq<char>
    decreases s.len(),
{
    if s.len() > 0 && s[0] == c {
        trim_start_char_of(s.skip(1), c)
    } else {
        s
    }
}

/// `s` without the characters `c` at either end.
pub open spec fn trim_char_of(s: Seq<char>, c: char) -> Seq<char> {
    trim_end_char_of(trim_start_char_of(s, c), c)
}

/// `str::trim_matches` of a character.
pub fn trim_char(s: &str, c: char) -> (r: String)
    ensures
        r@ == trim_char_of(s@, c),
{
    let sv = chars_of(s);
    let mut a: usize = 0;
    assert(sv@.skip(0) =~= sv@);
    while a < sv.len() && sv[a] == c
        invariant
            a <= sv@.len(),
            trim_start_char_of(sv@.skip(a as int), c) == trim_start_char_of(sv@, c),
        decreases sv@.len() - a,
    {
        assert(sv@.skip(a as int).skip(1) =~= sv@.skip(a + 1));
        a = a + 1;
    }
    let rest = string_of(&sv, a, sv.len());
    assert(rest@ =~= sv@.skip(a as int));
    trim_end_char(rest.as_str(), c)
}

/// `slice::join` of strings.
pub fn join(parts: &Vec<String>, sep: &str) -> (r: String)
    ensures
        r@ == join_of(texts(parts@), sep@),
{
    broadcast use group_texts;

    let mut out = String::new();
    let mut i: usize = 0;
    let ghost all = texts(parts@);
    assert(all.take(0) =~= seq![]);
    while i < parts.len()
        invariant
            i <= parts@.len(),
            all == texts(parts@),
            out@ == join_of(all.take(i as int), sep@),
        decreases parts@.len() - i,
    {
        assert(all.take(i + 1).drop_last() =~= all.take(i as int));
        assert(all.take(i + 1).last() == parts@[i as int]@);
        if i > 0 {
            out.append(sep);
        }
        out.append(parts[i].as_str());
        if i == 0 {
            assert(out@ =~= parts@[0]@);
        }
        i = i + 1;
    }
    assert(all.take(i as int) =~= all);
    out
}

/// `str::replace` of a pattern that is not empty.
pub fn replace(s: &str, p: &str, w: &str) -> (r: String)
    requires
        p@.len() > 0,
    ensures
        r@ == replace_of(s@, p@, w@),
{
    let sv = chars_of(s);
    let pv = chars_of(p);
    let mut out = String::new();
    let mut i: usize = 0;
    assert(sv@.skip(0) =~= sv@);
    assert(out@ + replace_of(sv@, p@, w@) =~= replace_of(sv@, p@, w@));
    while i < sv.len()
        invariant
            i <= sv@.len(),
            sv@ == s@,
            pv@ == p@,
            p@.len() > 0,
            out@ + replace_of(sv@.skip(i as int), p@, w@) == replace_of(s@, p@, w@),
        decreases sv@.len() - i,
    {
        let ghost rest = sv@.skip(i as int);
        let ghost before = out@;
        if stands_at(&sv, &pv, i) {
            assert(rest.subrange(0, p@.len() as int) =~= sv@.subrange(i as int, i + p@.len()));
            out.append(w);
            assert(rest.skip(p@.len() as int) =~= sv@.skip(i + p@.len()));
            assert(before + (w@ + replace_of(rest.skip(p@.len() as int), p@, w@)) =~= out@
                + replace_of(sv@.skip(i + p@.len()), p@, w@));
            i = i + pv.len();
        } else {
            proof {
                if has_prefix(rest, p@) {
                    assert(rest.subrange(0, p@.len() as int) =~= sv@.subrange(
                        i as int,
                        i + p@.len(),
                    ));
                }
            }
            out.push(sv[i]);
            assert(rest.skip(1) =~= sv@.skip(i + 1));
            assert(before + (seq![rest[0]] + replace_of(rest.skip(1), p@, w@)) =~= out@
                + replace_of(sv@.skip(i + 1), p@, w@));
            i = i + 1;
        }
    }
    assert(out@ + replace_of(sv@.skip(i as int), p@, w@) =~= out@);
    out
}

fn digit(d: u64) -> (r: char)
    requires
        d < 10,
    ensures
        r == digit_char(d as int),
{
    ((d as u8) + 48u8) as char
}

/// `n` in decimal digits, as `to_string` writes it.
pub fn decimal(n: u64) -> (r: String)
    ensures
        r@ == decimal_of(n as nat),
    decreases n,
{
    if n < 10 {
        let mut s = String::new();
        s.push(digit(n));
        assert(s@ =~= seq![digit_char(n as int)]);
        s
    } else {
        let mut s = decimal(n / 10);
        s.push(digit(n % 10));
        s
    }
}

fn code_point(c: char) -> (r: u32)
    ensures
        r == c as int,
{
    c as u32
}

/// Whether `a` comes before `b` in the order of `str`.
pub fn less(a: &str, b: &str) -> (r: bool)
    ensures
        r == text_less(a@, b@),
{
    let av = chars_of(a);
    let bv = chars_of(b);
    let mut i: usize = 0;
    assert(av@.skip(0) =~= av@);
    assert(bv@.skip(0) =~= bv@);
    while i < av.len() && i < bv.len()
        invariant
            i <= av@.len(),
            i <= bv@.len(),
            av@ == a@,
            bv@ == b@,
            text_less(av@.skip(i as int), bv@.skip(i as int)) == text_less(a@, b@),
        decreases av@.len() - i,
    {
        let ghost ar = av@.skip(i as int);
        let ghost br = bv@.skip(i as int);
        if av[i] != bv[i] {
            return code_point(av[i]) < code_point(bv[i]);
        }
        assert(ar.skip(1) =~= av@.skip(i + 1));
        assert(br.skip(1) =~= bv@.skip(i + 1));
        i = i + 1;
    }
    i < bv.len()
}

/// `str::to_ascii_lowercase`.
pub fn ascii_lower(s: &str) -> (r: String)
    ensures
        r@ == ascii_lower_of(s@),
{
    let sv = chars_of(s);
    let mut out = String::new();
    let mut i: usize = 0;
    while i < sv.len()
        invariant
            i <= sv@.len(),
            out@ == ascii_lower_of(sv@.take(i as int)),
        decreases sv@.len() - i,
    {
        let c = sv[i];
        let n: u32 = c as u32;
        let d: char = if 65 <= n && n <= 90 {
            ((n as u8) + 32u8) as char
        } else {
            c
        };
        out.push(d);
        assert(out@ =~= ascii_lower_of(sv@.take(i + 1)));
        i = i + 1;
    }
    assert(sv@.take(i as int) =~= sv@);
    out
}

/// Whether `v` holds `s`.
pub fn holds(v: &Vec<String>, s: &str) -> (r: bool)
    ensures
        r == texts(v@).contains(s@),
{
    broadcast use group_texts;

    let mut i: usize = 0;
    while i < v.len()
        invariant
            i <= v@.len(),
            forall|j: int| 0 <= j < i ==> v@[j]@ != s@,
        decreases v@.len() - i,
    {
        if same(v[i].as_str(), s) {
            assert(texts(v@)[i as int] == s@);
            return true;
        }
        i = i + 1;
    }
    false
}

/// How often `c` occurs in `s`.
pub open spec fn count_of(s: Seq<char>, c: char) -> nat
    decreases s.len(),
{
    if s.len() == 0 {
        0
    } else {
        count_of(s.drop_last(), c) + if s.last() == c {
            1nat
        } else {
            0
        }
    }
}

pub fn count(s: &str, c: char) -> (r: usize)
    ensures
        r == count_of(s@, c),
{
    let sv = chars_of(s);
    let mut n: usize = 0;
    let mut i: usize = 0;
    assert(sv@.take(0) =~= seq![]);
    while i < sv.len()
        invariant
            i <= sv@.len(),
            n <= i,
            n == count_of(sv@.take(i as int), c),
        decreases sv@.len() - i,
    {
        assert(sv@.take(i + 1).drop_last() =~= sv@.take(i as int));
        if sv[i] == c {
            n = n + 1;
        }
        i = i + 1;
    }
    assert(sv@.take(i as int) =~= sv@);
    n
}

/// A copy of `v`.
pub fn copy_texts(v: &Vec<String>) -> (r: Vec<String>)
    ensures
        texts(r@) == texts(v@),
{
    broadcast use group_texts;

    let mut out: Vec<String> = Vec::new();
    let mut i: usize = 0;
    while i < v.len()
        invariant
            i <= v@.len(),
            texts(out@) == texts(v@).take(i as int),
        decreases v@.len() - i,
    {
        let s = v[i].clone();
        out.push(s);
        assert(texts(v@)[i as int] == s@);
        assert(texts(v@).take(i + 1) =~= texts(v@).take(i as int).push(s@));
        i = i + 1;
    }
    assert(texts(v@).take(i as int) =~= texts(v@));
    out
}

/// A copy of a text that may be missing.
pub fn copy_opt(s: &Option<String>) -> (r: Option<String>)
    ensures
        opt_text(r) == opt_text(*s),
{
    match s {
        Some(t) => Some(t.clone()),
        None => None,
    }
}

/// Whether `s` is in ascending order; equal neighbours are allowed.
pub open spec fn is_sorted(s: Seq<Seq<char>>) -> bool {
    forall|i: int, j: int| #![trigger s[i], s[j]] 0 <= i < j < s.len() ==> !text_less(s[j], s[i])
}

/// The strings of `v` in ascending order.
pub fn sorted(v: &Vec<String>) -> (r: Vec<String>)
    ensures
        is_sorted(texts(r@)),
        texts(r@).to_multiset() == texts(v@).to_multiset(),
{
    broadcast use group_texts;

    let mut out: Vec<String> = Vec::new();
    let ghost all = texts(v@);
    let mut i: usize = 0;
    assert(all.take(0) =~= texts(out@));
    while i < v.len()
        invariant
            i <= v@.len(),
            all == texts(v@),
            is_sorted(texts(out@)),
            texts(out@).to_multiset() == all.take(i as int).to_multiset(),
        decreases v@.len() - i,
    {
        assert(all.take(i + 1) =~= all.take(i as int).push(v@[i as int]@));
        let ghost before = texts(out@);
        let mut at: usize = 0;
        while at < out.len() && !less(v[i].as_str(), out[at].as_str())
            invariant
                at <= out@.len(),
                i < v@.len(),
                before == texts(out@),
                is_sorted(before),
                forall|j: int| 0 <= j < at ==> !text_less(v@[i as int]@, #[trigger] before[j]),
            decreases out@.len() - at,
        {
            at = at + 1;
        }
        let s = v[i].clone();
        let ghost t = s@;
        out.insert(at, s);
        proof {
            let after = texts(out@);
            assert(after =~= before.insert(at as int, t));
            assert forall|a: int, b: int|
                #![trigger after[a], after[b]]
                0 <= a < b < after.len() implies !text_less(after[b], after[a]) by {
                if b < at {
                    assert(!text_less(before[b], before[a]));
                } else if b == at {
                    assert(after[a] == before[a]);
                    assert(!text_less(t, before[a]));
                } else if a == at {
                    text_less_irreflexive(t);
                    if text_less(before[b - 1], t) {
                        assert(text_less(t, before[at as int]));
                        if b - 1 > at {
                            assert(!text_less(before[b - 1], before[at as int]));
                        }
                        text_less_transitive(before[b - 1], t, before[at as int]);
                        text_less_irreflexive(before[at as int]);
                    }
                } else if a < at {
                    assert(!text_less(before[b - 1], before[a]));
                } else {
                    assert(!text_less(before[b - 1], before[a - 1]));
                }
            }
            vstd::seq_lib::to_multiset_insert(before, at as int, t);
            vstd::seq_lib::to_multiset_build(all.take(i as int), t);
        }
        i = i + 1;
    }
    assert(all.take(i as int) =~= all);
    out
}

/// Whether every text comes before the next.
pub open spec fn is_ascending(s: Seq<Seq<char>>) -> bool {
    forall|i: int, j: int| #![trigger s[i], s[j]] 0 <= i < j < s.len() ==> text_less(s[i], s[j])
}

/// The distinct texts among `v`, in order.
pub fn distinct_sorted(v: &Vec<String>) -> (r: Vec<String>)
    ensures
        is_ascending(texts(r@)),
        forall|t: Seq<char>| #[trigger] texts(r@).contains(t) <==> texts(v@).contains(t),
{
    broadcast use group_texts;

    let ghost all = texts(v@);
    let mut out: Vec<String> = Vec::new();
    let mut i: usize = 0;
    while i < v.len()
        invariant
            i <= v@.len(),
            all == texts(v@),
            is_ascending(texts(out@)),
            forall|t: Seq<char>|
                #[trigger] texts(out@).contains(t) <==> all.take(i as int).contains(t),
        decreases v@.len() - i,
    {
        let ghost before = texts(out@);
        let s = v[i].clone();
        let ghost t = s@;
        let mut at: usize = 0;
        while at < out.len() && less(out[at].as_str(), s.as_str())
            invariant
                at <= out@.len(),
                before == texts(out@),
                t == s@,
                forall|k: int| 0 <= k < at ==> text_less(#[trigger] before[k], t),
            decreases out@.len() - at,
        {
            assert(before[at as int] == out@[at as int]@);
            at = at + 1;
        }
        let there = at < out.len() && same(out[at].as_str(), s.as_str());
        proof {
            if at < out@.len() {
                assert(before[at as int] == out@[at as int]@);
                if !there {
                    text_less_total(before[at as int], t);
                }
            }
        }
        if !there {
            out.insert(at, s);
        }
        proof {
            let after = texts(out@);
            if there {
                assert(before[at as int] == t);
                assert(before.contains(t));
            } else {
                assert(after =~= before.insert(at as int, t));
                assert(after[at as int] == t);
                assert forall|a: int, b: int| #![trigger after[a], after[b]] 0 <= a < b
                    < after.len() implies text_less(after[a], after[b]) by {
                    if a < at && b < at {
                        assert(after[a] == before[a] && after[b] == before[b]);
                    } else if a < at && b == at {
                        assert(after[a] == before[a]);
                    } else if a < at {
                        assert(after[a] == before[a] && after[b] == before[b - 1]);
                    } else if a == at {
                        assert(after[b] == before[b - 1]);
                        if b - 1 > at {
                            assert(text_less(before[at as int], before[b - 1]));
                            text_less_transitive(t, before[at as int], before[b - 1]);
                        }
                    } else {
                        assert(after[a] == before[a - 1] && after[b] == before[b - 1]);
                    }
                }
            }
            let next = all.take(i + 1);
            assert(next =~= all.take(i as int).push(t));
            assert forall|x: Seq<char>| #[trigger] after.contains(x) <==> next.contains(x) by {
                if after.contains(x) {
                    let k = choose|k: int| 0 <= k < after.len() && after[k] == x;
                    if !there && k == at {
                        assert(next[i as int] == x);
                    } else {
                        let m = if there || k < at {
                            k
                        } else {
                            k - 1
                        };
                        assert(before[m] == x);
                        assert(before.contains(x));
                        let n = choose|n: int|
                            0 <= n < all.take(i as int).len() && all.take(i as int)[n] == x;
                        assert(next[n] == x);
                    }
                }
                if next.contains(x) {
                    let n = choose|n: int| 0 <= n < next.len() && next[n] == x;
                    if n < i {
                        assert(all.take(i as int)[n] == x);
                        assert(before.contains(x));
                        let k = choose|k: int| 0 <= k < before.len() && before[k] == x;
                        if there || k < at {
                            assert(after[k] == x);
                        } else {
                            assert(after[k + 1] == x);
                        }
                    } else if there {
                        assert(after[at as int] == x);
                    } else {
                        assert(after[at as int] == x);
                    }
                }
            }
        }
        i = i + 1;
    }
    assert(all.take(i as int) =~= all);
    out
}

/// The text, if the condition holds.
pub open spec fn when(cond: bool, s: Seq<char>) -> Seq<Seq<char>> {
    if cond {
        seq![s]
    } else {
        seq![]
    }
}

/// Appends the text if the condition holds.
pub fn push_when(out: &mut Vec<String>, cond: bool, s: &str)
    ensures
        texts(final(out)@) == texts(old(out)@) + when(cond, s@),
{
    broadcast use group_texts;

    let ghost before = texts(out@);
    if cond {
        out.push(s.to_owned());
    }
    assert(texts(out@) =~= before + when(cond, s@));
}

/// Appends texts.
pub fn push_texts(out: &mut Vec<String>, more: &Vec<String>)
    ensures
        texts(final(out)@) == texts(old(out)@) + texts(more@),
{
    broadcast use group_texts;

    let ghost before = texts(out@);
    let ghost all = texts(more@);
    let mut i: usize = 0;
    assert(before + all.take(0) =~= before);
    while i < more.len()
        invariant
            i <= more@.len(),
            all == texts(more@),
            texts(out@) == before + all.take(i as int),
        decreases more@.len() - i,
    {
        let s = more[i].clone();
        assert(before + all.take(i + 1) =~= (before + all.take(i as int)).push(s@));
        out.push(s);
        i = i + 1;
    }
    assert(all.take(i as int) =~= all);
}

/// What the `{:?}` format makes of an optional text.
pub open spec fn debug_opt_of(s: Option<Seq<char>>) -> Seq<char> {
    match s {
        Some(s) => "Some("@ + debug_of(s) + ")"@,
        None => "None"@,
    }
}

pub fn debug_opt(s: &Option<String>) -> (r: String)
    ensures
        r@ == debug_opt_of(opt_text(*s)),
{
    match s {
        Some(s) => {
            let mut r = "Some(".to_owned();
            r.append(debug(s.as_str()).as_str());
            r.append(")");
            r
        },
        None => "None".to_owned(),
    }
}

/// So many blanks.
pub open spec fn blanks(n: int) -> Seq<char> {
    Seq::new(
        if n > 0 {
            n as nat
        } else {
            0
        },
        |i: int| ' ',
    )
}

/// `s` at the left of a column.
pub open spec fn padded_right(s: Seq<char>, width: int) -> Seq<char> {
    s + blanks(width - s.len())
}

/// `s` at the right of a column.
pub open spec fn padded_left(s: Seq<char>, width: int) -> Seq<char> {
    blanks(width - s.len()) + s
}

fn blank_text(n: usize) -> (r: String)
    ensures
        r@ == blanks(n as int),
{
    let mut s = String::new();
    let mut i: usize = 0;
    assert(s@ =~= blanks(0));
    while i < n
        invariant
            i <= n,
            s@ == blanks(i as int),
        decreases n - i,
    {
        s.push(' ');
        assert(blanks(i + 1) =~= blanks(i as int).push(' '));
        i = i + 1;
    }
    s
}

/// `s` at the left of a column.
pub fn pad_right(s: &str, width: usize) -> (r: String)
    ensures
        r@ == padded_right(s@, width as int),
{
    let n = chars_of(s).len();
    let mut out = s.to_owned();
    if n < width {
        out.append(blank_text(width - n).as_str());
    }
    assert(out@ =~= padded_right(s@, width as int));
    out
}

/// `s` at the right of a column.
pub fn pad_left(s: &str, width: usize) -> (r: String)
    ensures
        r@ == padded_left(s@, width as int),
{
    let n = chars_of(s).len();
    let mut out = String::new();
    if n < width {
        out.append(blank_text(width - n).as_str());
    }
    out.append(s);
    assert(out@ =~= padded_left(s@, width as int));
    out
}

/// What `str::to_lowercase` makes of a text.
pub uninterp spec fn lowercase_of(s: Seq<char>) -> Seq<char>;

/// `str::to_lowercase`. The claims are that the result depends on the text alone,
/// and that in a text of ASCII characters just the capital letters are made small,
/// as `str::to_ascii_lowercase` makes them. Which letters beyond ASCII become what
/// is left unsaid.
#[verifier::external_body]
pub(crate) fn lowercase(s: &str) -> (r: String)
    ensures
        r@ == lowercase_of(s@),
        all_ascii(s@) ==> r@ == ascii_lower_of(s@),
{
    s.to_lowercase()
}

/// What the `{:?}` format makes of a text: quoted, with escapes.
pub uninterp spec fn debug_of(s: Seq<char>) -> Seq<char>;

/// `format!` with `{:?}` of a `str`. The claim is that the result depends on the
/// text alone.
#[verifier::external_body]
pub(crate) fn debug(s: &str) -> (r: String)
    ensures
        r@ == debug_of(s@),
{
    format!("{:?}", s)
}

} // verus!
