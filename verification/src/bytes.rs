//! Byte strings.

use vstd::prelude::*;
use vstd::utf8::*;

verus! {

/// Appends bytes.
pub fn append(out: &mut Vec<u8>, more: &[u8])
    ensures
        final(out)@ == old(out)@ + more@,
{
    append_range(out, more, 0, more.len());
    assert(more@.subrange(0, more@.len() as int) =~= more@);
}

/// Appends a part of some bytes.
pub fn append_range(out: &mut Vec<u8>, more: &[u8], from: usize, to: usize)
    requires
        from <= to <= more@.len(),
    ensures
        final(out)@ == old(out)@ + more@.subrange(from as int, to as int),
{
    let ghost before = out@;
    let mut i: usize = from;
    assert(before + more@.subrange(from as int, from as int) =~= before);
    while i < to
        invariant
            from <= i <= to <= more@.len(),
            out@ == before + more@.subrange(from as int, i as int),
        decreases to - i,
    {
        out.push(more[i]);
        assert(before + more@.subrange(from as int, i + 1) =~= (before + more@.subrange(
            from as int,
            i as int,
        )).push(more@[i as int]));
        i = i + 1;
    }
}

/// `std::str::from_utf8`, with a copy of the text. The claim is that it gives the
/// text that the bytes encode if they are valid UTF-8, and nothing otherwise.
#[verifier::external_body]
pub(crate) fn utf8_text(bytes: &[u8]) -> (r: Option<String>)
    ensures
        (match r {
            Some(s) => valid_utf8(bytes@) && s@ == decode_utf8(bytes@),
            None => !valid_utf8(bytes@),
        }),
{
    std::str::from_utf8(bytes).ok().map(|s| s.to_owned())
}

} // verus!
