//! The host instruction templates: which bytes each chunk of x86-64 code
//! consists of.
//!
//! Virtual state lives in memory behind `rax`: the index register at
//! `[rax+0]`, the delay timer at `[rax+8]`, the sound timer at `[rax+16]` and
//! the general registers `V0`..`VF` at `[rax+24+8*x]`. `rbx` points at the
//! base address of the emitted code page.

use vstd::prelude::*;

verus! {

/// Virtual address of the first instruction of a program.
pub const PROGRAM_BASE: u16 = 0x200;

/// Length of the conditional branch that a skip inserts.
pub const BRANCH_LEN: usize = 2;

/// Host length of SET_INDEX.
pub const SET_INDEX_LEN: usize = 7;

/// Host length of the placeholder that unimplemented instructions emit.
pub const STUB_LEN: usize = 16;

/// Host length of the comparison that SKIP_IF_EQUAL emits.
pub const COMPARE_LEN: usize = 5;

/// Host length of ADD_IMMEDIATE.
pub const ADD_LEN: usize = 8;

/// Host length of JUMP: load the page base, add the offset, jump.
pub const JUMP_LEN: usize = 14;

/// Host length of SET_REGISTER.
pub const SET_REGISTER_LEN: usize = 8;

/// Host length of COPY_REGISTER: a load and a store through `r12`.
pub const COPY_LEN: usize = 8;

/// Host length of CALL: a push followed by the three chunks of a jump.
pub const CALL_LEN: usize = 19;

/// The most bytes a branch can skip: its displacement, two more than the
/// bytes skipped, is one byte.
pub const MAX_SKIPPED: usize = 253;

/// The longest single chunk.
pub const MAX_CHUNK_LEN: usize = 16;

/// The largest value an entry of the length table can take: the longest
/// instruction with a branch attributed to it.
pub const MAX_ENTRY: usize = 21;

/// Displacement of register `Vx` from `rax`.
pub open spec fn register_offset(x: u8) -> u8 {
    (24 + 8 * x) as u8
}

/// The byte with high nibble `hi` and low nibble `lo`.
pub open spec fn pack(hi: u8, lo: u8) -> u8 {
    (16 * hi + lo) as u8
}

/// The address with nibbles `n1`, `n2`, `n3`, most significant first.
pub open spec fn address_of(n1: u8, n2: u8, n3: u8) -> u16 {
    (256 * n1 + 16 * n2 + n3) as u16
}

/// Byte 0 or 1 of `value`, counted from the least significant.
pub open spec fn byte_of(value: nat, position: nat) -> u8 {
    if position == 0 {
        (value % 256) as u8
    } else {
        ((value / 256) % 256) as u8
    }
}

/// `je` over the next `length` bytes: opcode and the displacement `2 + length`.
pub open spec fn branch_bytes(length: nat) -> Seq<u8> {
    seq![0x74u8, (2 + length) as u8]
}

/// `mov qword ptr [rax+0], imm32`, the immediate being the address
/// `n1 n2 n3` with its low byte first.
pub open spec fn set_index_bytes(n1: u8, n2: u8, n3: u8) -> Seq<u8> {
    seq![0x48u8, 0xC7, 0x00, pack(n2, n3), n1, 0x00, 0x00]
}

/// `cmp qword ptr [rax+disp8], imm8`.
pub open spec fn compare_bytes(x: u8, n2: u8, n3: u8) -> Seq<u8> {
    seq![0x48u8, 0x83, 0x78, register_offset(x), pack(n2, n3)]
}

/// `add qword ptr [rax+disp8], imm32`.
pub open spec fn add_bytes(x: u8, n2: u8, n3: u8) -> Seq<u8> {
    seq![0x48u8, 0x81, 0x40, register_offset(x), pack(n2, n3), 0x00, 0x00, 0x00]
}

/// `mov qword ptr [rax+disp8], imm32`.
pub open spec fn set_register_bytes(x: u8, n2: u8, n3: u8) -> Seq<u8> {
    seq![0x48u8, 0xC7, 0x40, register_offset(x), pack(n2, n3), 0x00, 0x00, 0x00]
}

/// `mov r12, qword ptr [rax+disp8]`.
pub open spec fn load_bytes(x: u8) -> Seq<u8> {
    seq![0x4Cu8, 0x8B, 0x60, register_offset(x)]
}

/// `mov qword ptr [rax+disp8], r12`.
pub open spec fn store_bytes(x: u8) -> Seq<u8> {
    seq![0x4Cu8, 0x89, 0x60, register_offset(x)]
}

/// `push imm32` of a zero marker.
pub open spec fn push_bytes() -> Seq<u8> {
    seq![0x68u8, 0x00, 0x00, 0x00, 0x00]
}

/// `mov r12, qword ptr [ebx]`.
pub open spec fn load_page_bytes() -> Seq<u8> {
    seq![0x67u8, 0x4C, 0x8B, 0x23]
}

/// `add r12, imm32` with the host offset in the two low bytes.
pub open spec fn add_offset_bytes(offset: nat) -> Seq<u8> {
    seq![0x49u8, 0x81, 0xC4, byte_of(offset, 0), byte_of(offset, 1), 0x00, 0x00]
}

/// `jmp r12`.
pub open spec fn indirect_jump_bytes() -> Seq<u8> {
    seq![0x41u8, 0xFF, 0xE4]
}

/// The placeholder for an unimplemented instruction.
pub open spec fn stub_bytes() -> Seq<u8> {
    Seq::new(STUB_LEN as nat, |i: int| 0xFFu8)
}

} // verus!
