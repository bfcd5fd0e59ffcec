//! The decoder: cuts a ROM image into two-byte virtual instructions.

use vstd::prelude::*;

verus! {

/// The upper four bits of a byte.
pub open spec fn high_nibble(b: u8) -> u8 {
    b / 16
}

/// The lower four bits of a byte.
pub open spec fn low_nibble(b: u8) -> u8 {
    b % 16
}

/// The four nibbles `(op, a, b, c)` of the instruction that starts at `offset`.
pub open spec fn instruction_at(bytes: Seq<u8>, offset: int) -> (u8, u8, u8, u8) {
    (
        high_nibble(bytes[offset]),
        low_nibble(bytes[offset]),
        high_nibble(bytes[offset + 1]),
        low_nibble(bytes[offset + 1]),
    )
}

/// A read was attempted with fewer than two bytes left.
#[derive(Clone, Copy, Debug, PartialEq, Eq, Structural)]
pub struct TruncatedStream {
    /// Offset at which the read was attempted.
    pub offset: usize,
    /// Length of the whole input.
    pub length: usize,
}

/// A cursor over the bytes of a ROM image.
pub struct Parser {
    contents: Vec<u8>,
    pc: usize,
}

impl Parser {
    /// The bytes being decoded.
    pub closed spec fn bytes(&self) -> Seq<u8> {
        self.contents@
    }

    /// Offset of the next byte to be read.
    pub closed spec fn position(&self) -> int {
        self.pc as int
    }

    /// A parser at the start of `contents`.
    pub fn new(contents: Vec<u8>) -> (parser: Parser)
        ensures
            parser.bytes() == contents@,
            parser.position() == 0,
    {
        Parser { contents, pc: 0 }
    }

    /// Reads the next instruction and sets `eof` when it was the last one.
    ///
    /// With fewer than two bytes left nothing is consumed and `eof` keeps its
    /// value.
    pub fn read(&mut self, eof: &mut bool) -> (result: Result<(u8, u8, u8, u8), TruncatedStream>)
        ensures
            final(self).bytes() == old(self).bytes(),
            match result {
                Ok(nibbles) => {
                    &&& 0 <= old(self).position()
                    &&& old(self).position() + 2 <= old(self).bytes().len()
                    &&& nibbles == instruction_at(old(self).bytes(), old(self).position())
                    &&& final(self).position() == old(self).position() + 2
                    &&& *final(eof) == (final(self).position() == old(self).bytes().len())
                },
                Err(e) => {
                    &&& old(self).position() + 2 > old(self).bytes().len()
                    &&& final(self).position() == old(self).position()
                    &&& *final(eof) == *old(eof)
                    &&& e.offset == old(self).position()
                    &&& e.length == old(self).bytes().len()
                },
            },
    {
        let len = self.contents.len();
        if self.pc >= len || len - self.pc < 2 {
            return Err(TruncatedStream { offset: self.pc, length: len });
        }
        let first = self.contents[self.pc];
        let second = self.contents[self.pc + 1];
        assert((first & 0xF0) >> 4 == first / 16 && first & 0x0F == first % 16) by (bit_vector);
        assert((second & 0xF0) >> 4 == second / 16 && second & 0x0F == second % 16)
            by (bit_vector);
        let data = ((first & 0xF0) >> 4, first & 0x0F, (second & 0xF0) >> 4, second & 0x0F);
        self.pc += 2;
        *eof = self.pc == len;
        Ok(data)
    }
}

} // verus!
