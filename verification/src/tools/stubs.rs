//! Declarations with the bodies of their functions left out.

use crate::bytes;
use crate::rust_syntax;
use crate::rust_syntax::{ItemBlocks, ItemBlocksView};
use crate::text;
use vstd::prelude::*;
use vstd::string::*;
use vstd::utf8::*;

verus! {

/// What stands in place of a body.
pub const STUB: &'static str = "{ todo!() }";

/// Whether the blocks follow each other, from `from` on, in a source of that
/// length.
pub open spec fn blocks_fit(len: int, from: int, blocks: Seq<(usize, usize)>) -> bool
    decreases blocks.len(),
{
    if blocks.len() == 0 {
        from <= len
    } else {
        from <= blocks[0].0 <= blocks[0].1 <= len && blocks_fit(
            len,
            blocks[0].1 as int,
            blocks.skip(1),
        )
    }
}

/// The source from `from` on, with the stub in place of every block.
pub open spec fn stubbed(src: Seq<u8>, from: int, blocks: Seq<(usize, usize)>) -> Seq<u8>
    decreases blocks.len(),
{
    if blocks.len() == 0 {
        src.skip(from)
    } else {
        src.subrange(from, blocks[0].0 as int) + encode_utf8(STUB@) + stubbed(
            src,
            blocks[0].1 as int,
            blocks.skip(1),
        )
    }
}

/// The ranges that are there.
pub open spec fn present(v: Seq<Option<(usize, usize)>>) -> Seq<(usize, usize)>
    decreases v.len(),
{
    if v.len() == 0 {
        seq![]
    } else {
        match v.last() {
            Some(r) => present(v.drop_last()).push(r),
            None => present(v.drop_last()),
        }
    }
}

pub open spec fn blocks_in(item: ItemBlocksView) -> Seq<(usize, usize)> {
    match item {
        ItemBlocksView::Fn(a, b) => seq![(a, b)],
        ItemBlocksView::Impl(v) => present(v),
        ItemBlocksView::Other => seq![],
    }
}

/// The source with the bodies of one item left out. There is none where the
/// blocks do not lie in the source, or cut a character.
pub open spec fn item_stub(src: Seq<u8>, item: ItemBlocksView) -> Option<Seq<char>> {
    let blocks = blocks_in(item);
    if blocks_fit(src.len() as int, 0, blocks) && valid_utf8(stubbed(src, 0, blocks)) {
        Some(decode_utf8(stubbed(src, 0, blocks)))
    } else {
        None
    }
}

/// The source once for every item, each time with that item's bodies left out.
pub open spec fn item_stubs(src: Seq<u8>, items: Seq<ItemBlocksView>) -> Option<Seq<Seq<char>>>
    decreases items.len(),
{
    if items.len() == 0 {
        Some(seq![])
    } else {
        match (item_stubs(src, items.drop_last()), item_stub(src, items.last())) {
            (Some(before), Some(s)) => Some(before.push(s)),
            _ => None,
        }
    }
}

/// What [`stub_declaration`] gives.
pub open spec fn declaration_stub(src: Seq<u8>) -> Option<Seq<char>> {
    if !valid_utf8(src) {
        None
    } else {
        match rust_syntax::item_blocks_in(decode_utf8(src)) {
            None => Some(text::trim_end_char_of(decode_utf8(src), '\n')),
            Some(items) => match item_stubs(src, items) {
                Some(stubs) => Some(text::join_of(stubs, "\n"@)),
                None => None,
            },
        }
    }
}

fn ranges_of(item: &ItemBlocks) -> (r: Vec<(usize, usize)>)
    ensures
        r@ == blocks_in(item.view()),
{
    match item {
        ItemBlocks::Fn(a, b) => {
            let r = vec![(*a, *b)];
            assert(r@ =~= seq![(*a, *b)]);
            r
        },
        ItemBlocks::Impl(v) => {
            let mut out: Vec<(usize, usize)> = Vec::new();
            let mut i: usize = 0;
            assert(v@.take(0) =~= seq![]);
            while i < v.len()
                invariant
                    i <= v@.len(),
                    out@ == present(v@.take(i as int)),
                decreases v@.len() - i,
            {
                assert(v@.take(i + 1).drop_last() =~= v@.take(i as int));
                if let Some(r) = v[i] {
                    out.push(r);
                }
                i = i + 1;
            }
            assert(v@.take(i as int) =~= v@);
            out
        },
        ItemBlocks::Other => {
            let r: Vec<(usize, usize)> = Vec::new();
            assert(r@ =~= seq![]);
            r
        },
    }
}

/// The source with the stub in place of every block, if the blocks follow each
/// other in the source.
pub fn stub_blocks(src: &[u8], blocks: &Vec<(usize, usize)>) -> (r: Option<Vec<u8>>)
    ensures
        (match r {
            Some(v) => blocks_fit(src@.len() as int, 0, blocks@) && v@ == stubbed(src@, 0, blocks@),
            None => !blocks_fit(src@.len() as int, 0, blocks@),
        }),
{
    let n: usize = src.len();
    let mut out: Vec<u8> = Vec::new();
    let mut from: usize = 0;
    let mut i: usize = 0;
    assert(blocks@.skip(0) =~= blocks@);
    assert(out@ + stubbed(src@, 0, blocks@) =~= stubbed(src@, 0, blocks@));
    while i < blocks.len()
        invariant
            i <= blocks@.len(),
            n == src@.len(),
            from <= n,
            out@ + stubbed(src@, from as int, blocks@.skip(i as int)) == stubbed(
                src@,
                0,
                blocks@,
            ),
            blocks_fit(n as int, from as int, blocks@.skip(i as int)) == blocks_fit(
                n as int,
                0,
                blocks@,
            ),
        decreases blocks@.len() - i,
    {
        let (start, end) = blocks[i];
        let ghost rest = blocks@.skip(i as int);
        assert(rest[0] == (start, end));
        assert(rest.skip(1) =~= blocks@.skip(i + 1));
        if !(from <= start && start <= end && end <= n) {
            return None;
        }
        let ghost before = out@;
        bytes::append_range(&mut out, src, from, start);
        bytes::append(&mut out, STUB.as_bytes());
        assert(out@ + stubbed(src@, end as int, rest.skip(1)) =~= before + stubbed(
            src@,
            from as int,
            rest,
        ));
        from = end;
        i = i + 1;
    }
    assert(blocks@.skip(i as int) =~= seq![]);
    bytes::append_range(&mut out, src, from, n);
    assert(out@ =~= stubbed(src@, 0, blocks@));
    Some(out)
}

/// The source with the bodies of one item left out.
pub fn stub_item(item: &ItemBlocks, source: &[u8]) -> (r: Option<String>)
    ensures
        text::opt_text(r) == item_stub(source@, item.view()),
{
    let blocks = ranges_of(item);
    match stub_blocks(source, &blocks) {
        Some(v) => bytes::utf8_text(v.as_slice()),
        None => None,
    }
}

/// The declaration with the bodies of its functions left out, given where those
/// stand.
pub fn stub_items(source: &[u8], items: &Vec<ItemBlocks>) -> (r: Option<String>)
    ensures
        (match item_stubs(source@, rust_syntax::item_blocks_views(items@)) {
            Some(stubs) => r matches Some(s) && s@ == text::join_of(stubs, "\n"@),
            None => r is None,
        }),
{
    broadcast use text::group_texts;

    let ghost all = rust_syntax::item_blocks_views(items@);
    let mut stubs: Vec<String> = Vec::new();
    let mut failed = false;
    let mut i: usize = 0;
    assert(all.take(0) =~= seq![]);
    assert(text::texts(stubs@) =~= seq![]);
    while i < items.len()
        invariant
            i <= items@.len(),
            all == rust_syntax::item_blocks_views(items@),
            item_stubs(source@, all.take(i as int)) == (if failed {
                None
            } else {
                Some(text::texts(stubs@))
            }),
        decreases items@.len() - i,
    {
        assert(all.take(i + 1).drop_last() =~= all.take(i as int));
        assert(all.take(i + 1).last() == items@[i as int].view());
        match stub_item(&items[i], source) {
            Some(s) => {
                stubs.push(s);
            },
            None => {
                failed = true;
            },
        }
        i = i + 1;
    }
    assert(all.take(i as int) =~= all);
    if failed {
        None
    } else {
        Some(text::join(&stubs, "\n"))
    }
}

/// The declaration with the bodies of its functions left out. A text that does
/// not parse is kept, without the line breaks at its end; bytes that are no text
/// give nothing.
pub fn stub_declaration(source: &[u8]) -> (r: Option<String>)
    ensures
        text::opt_text(r) == declaration_stub(source@),
{
    let s = match bytes::utf8_text(source) {
        Some(s) => s,
        None => {
            return None;
        },
    };
    match rust_syntax::item_blocks(s.as_str()) {
        None => Some(text::trim_end_char(s.as_str(), '\n')),
        Some(items) => stub_items(source, &items),
    }
}

} // verus!
