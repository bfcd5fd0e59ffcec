//! The annotated listing: one line per emitted chunk, with its offset, its
//! bytes and its mnemonic.

use crate::encoding::MAX_CHUNK_LEN;
use crate::state::{State, Symbol};
use crate::text::{hex, push_hex, push_spaces, spaces};
use crate::translator::{DebugSymbol, Translator};
use vstd::prelude::*;

verus! {

/// Columns left free behind the bytes of the longest chunk.
pub const MARGIN: usize = 8;

/// The length of the longest among the first `count` chunks.
pub open spec fn longest_chunk(symbols: Seq<Symbol>, count: int) -> nat
    decreases count,
{
    if count <= 0 {
        0
    } else {
        let rest = longest_chunk(symbols, count - 1);
        if rest < symbols[count - 1].length {
            symbols[count - 1].length
        } else {
            rest
        }
    }
}

/// Width of the column that holds the bytes: two characters for each byte
/// of the longest chunk, and the margin.
pub open spec fn column_width(symbols: Seq<Symbol>) -> nat {
    2 * longest_chunk(symbols, symbols.len() as int) + MARGIN as nat
}

/// The bytes as upper-case hexadecimal, two digits each, without separators.
pub open spec fn hex_bytes(bytes: Seq<u8>) -> Seq<char>
    decreases bytes.len(),
{
    if bytes.len() == 0 {
        Seq::empty()
    } else {
        hex_bytes(bytes.drop_last()) + hex(bytes.last() as nat, 2, true)
    }
}

/// The address label that opens a line.
pub open spec fn label(offset: nat) -> Seq<char> {
    "0x"@ + hex(offset, 4, false) + ": "@
}

/// The line for one chunk: label, bytes, padding up to `width`, mnemonic.
pub open spec fn line(contents: Seq<u8>, symbol: Symbol, width: nat) -> Seq<char> {
    label(symbol.start) + hex_bytes(
        contents.subrange(symbol.start as int, (symbol.start + symbol.length) as int),
    ) + spaces((width - 2 * symbol.length) as nat) + " => "@ + symbol.text + "\n"@
}

/// The lines of the first `count` chunks.
pub open spec fn lines(contents: Seq<u8>, symbols: Seq<Symbol>, width: nat, count: int) -> Seq<
    char,
>
    decreases count,
{
    if count <= 0 {
        Seq::empty()
    } else {
        lines(contents, symbols, width, count - 1) + line(contents, symbols[count - 1], width)
    }
}

/// The listing of everything a run has emitted.
pub open spec fn listing(st: State) -> Seq<char> {
    lines(st.contents, st.symbols, column_width(st.symbols), st.symbols.len() as int)
}

/// No chunk among the first `count` is longer than the longest of them.
pub proof fn lemma_longest_chunk(symbols: Seq<Symbol>, count: int, i: int)
    requires
        0 <= i < count,
    ensures
        symbols[i].length <= longest_chunk(symbols, count),
    decreases count,
{
    if i < count - 1 {
        lemma_longest_chunk(symbols, count - 1, i);
    }
}

/// In a tiled state every chunk lies inside the buffer.
pub proof fn lemma_symbol_within(st: State, i: int)
    requires
        st.tiled(),
        0 <= i < st.symbols.len(),
    ensures
        st.symbols[i].start + st.symbols[i].length <= st.contents.len(),
    decreases st.symbols.len() - i,
{
    if i < st.symbols.len() - 1 {
        lemma_symbol_within(st, i + 1);
        assert(st.symbols[i + 1].start == st.symbols[i].start + st.symbols[i].length);
    }
}

/// Appends `length` bytes of `contents` from offset `start` on, as
/// upper-case hexadecimal.
fn push_hex_bytes(out: &mut String, contents: &Vec<u8>, start: usize, length: usize)
    requires
        start + length <= contents.len(),
    ensures
        final(out)@ == old(out)@ + hex_bytes(
            contents@.subrange(start as int, start + length),
        ),
{
    let ghost chunk = contents@.subrange(start as int, start + length);
    let mut i: usize = 0;
    assert(out@ =~= old(out)@ + hex_bytes(chunk.take(0)));
    while i < length
        invariant
            i <= length,
            start + length <= contents.len(),
            chunk == contents@.subrange(start as int, start + length),
            out@ == old(out)@ + hex_bytes(chunk.take(i as int)),
        decreases length - i,
    {
        push_hex(out, contents[start + i] as usize, 2, true);
        i += 1;
        assert(chunk.take(i as int).drop_last() =~= chunk.take(i - 1));
        assert(out@ =~= old(out)@ + hex_bytes(chunk.take(i as int)));
    }
    assert(chunk.take(length as int) =~= chunk);
}

/// The line for the chunk that `symbol` describes.
fn render_line(contents: &Vec<u8>, symbol: &DebugSymbol, width: usize) -> (row: String)
    requires
        symbol.start + symbol.length <= contents.len(),
        2 * symbol.length <= width,
    ensures
        row@ == line(contents@, symbol@, width as nat),
{
    let mut row = String::from_str("0x");
    push_hex(&mut row, symbol.start, 4, false);
    row.append(": ");
    push_hex_bytes(&mut row, contents, symbol.start, symbol.length);
    push_spaces(&mut row, width - symbol.length * 2);
    row.append(" => ");
    row.append(symbol.text.as_str());
    row.append("\n");
    row
}

impl Translator {
    /// The listing of the emitted code.
    pub fn render(&self) -> (out: String)
        requires
            self.wf(),
        ensures
            out@ == listing(self@),
    {
        let count: usize = self.debug_symbols.len();
        let mut space_len: usize = 0;
        for idx in 0..count
            invariant
                count == self.debug_symbols.len(),
                self.wf(),
                space_len == longest_chunk(self@.symbols, idx as int),
                space_len <= MAX_CHUNK_LEN,
        {
            assert(self@.symbols[idx as int].length <= MAX_CHUNK_LEN);
            if space_len < self.debug_symbols[idx].length {
                space_len = self.debug_symbols[idx].length;
            }
        }
        space_len *= 2;
        space_len += MARGIN;
        let mut w = String::new();
        for j in 0..count
            invariant
                count == self.debug_symbols.len(),
                self.wf(),
                space_len == column_width(self@.symbols),
                w@ == lines(self@.contents, self@.symbols, space_len as nat, j as int),
        {
            proof {
                lemma_symbol_within(self@, j as int);
                lemma_longest_chunk(self@.symbols, count as int, j as int);
            }
            let row = render_line(&self.contents, &self.debug_symbols[j], space_len);
            w.append(row.as_str());
        }
        w
    }
}

} // verus!
