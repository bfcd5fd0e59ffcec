//! The mnemonic text that annotates each emitted chunk.
//!
//! Register numbers are written as two hexadecimal digits; the nibbles of an
//! immediate are written one after the other, each as a decimal number.

use crate::text::{decimal, hex, push_decimal, push_hex};
use vstd::prelude::*;

verus! {

/// Text of the branch a skip inserts over the next `length` bytes.
pub open spec fn branch_text(length: nat) -> Seq<char> {
    "je 0x02+0x"@ + hex(length, 2, false)
}

/// Text of SET_INDEX.
pub open spec fn set_index_text(n1: u8, n2: u8, n3: u8) -> Seq<char> {
    "mov qword ptr [rax+0], 0x"@ + decimal(n1 as nat) + decimal(n2 as nat) + decimal(n3 as nat)
}

/// Text of the comparison of SKIP_IF_EQUAL.
pub open spec fn compare_text(x: u8, n2: u8, n3: u8) -> Seq<char> {
    "cmp qword ptr [rax+(24+(0x"@ + hex(x as nat, 2, false) + "*8))], 0x"@ + decimal(n2 as nat)
        + decimal(n3 as nat)
}

/// Text of ADD_IMMEDIATE.
pub open spec fn add_text(x: u8, n2: u8, n3: u8) -> Seq<char> {
    "add qword ptr [rax+(24+(0x"@ + hex(x as nat, 2, false) + "*8))], 0x"@ + decimal(n2 as nat)
        + decimal(n3 as nat)
}

/// Text of SET_REGISTER.
pub open spec fn set_register_text(x: u8, n2: u8, n3: u8) -> Seq<char> {
    "mov qword ptr [rax+(24+(0x"@ + hex(x as nat, 2, false) + "*8))], 0x"@ + decimal(n2 as nat)
        + decimal(n3 as nat)
}

/// Text of the load of register `x` into the scratch register.
pub open spec fn load_text(x: u8) -> Seq<char> {
    "mov r12, qword ptr [rax+(24+(0x"@ + hex(x as nat, 2, false) + "*8))]"@
}

/// Text of the store of the scratch register into register `x`.
pub open spec fn store_text(x: u8) -> Seq<char> {
    "mov qword ptr [rax+(24+(0x"@ + hex(x as nat, 2, false) + "*8))], r12"@
}

/// Text of the return marker that CALL pushes.
pub open spec fn push_text() -> Seq<char> {
    "push ."@
}

/// Text of the load of the code page base.
pub open spec fn load_page_text() -> Seq<char> {
    "mov r12, qword ptr [ebx]"@
}

/// Text of the addition of a host offset to the page base.
pub open spec fn add_offset_text(offset: nat) -> Seq<char> {
    "add r12, 0x"@ + hex(offset, 4, false)
}

/// Text of the jump through the scratch register.
pub open spec fn indirect_jump_text() -> Seq<char> {
    "jmp r12"@
}

/// Text of the placeholder for RANDOM_AND.
pub open spec fn random_text() -> Seq<char> {
    "RND"@
}

/// Text of the placeholder for DRAW.
pub open spec fn draw_text() -> Seq<char> {
    "DRW"@
}

/// The mnemonic of the branch over the next `length` bytes.
pub fn branch_mnemonic(length: usize) -> (s: String)
    ensures
        s@ == branch_text(length as nat),
{
    let mut s = String::from_str("je 0x02+0x");
    push_hex(&mut s, length, 2, false);
    s
}

/// The mnemonic of SET_INDEX.
pub fn set_index_mnemonic(n1: u8, n2: u8, n3: u8) -> (s: String)
    ensures
        s@ == set_index_text(n1, n2, n3),
{
    let mut s = String::from_str("mov qword ptr [rax+0], 0x");
    push_decimal(&mut s, n1 as usize);
    push_decimal(&mut s, n2 as usize);
    push_decimal(&mut s, n3 as usize);
    s
}

/// The mnemonic of the comparison of SKIP_IF_EQUAL.
pub fn compare_mnemonic(x: u8, n2: u8, n3: u8) -> (s: String)
    ensures
        s@ == compare_text(x, n2, n3),
{
    let mut s = String::from_str("cmp qword ptr [rax+(24+(0x");
    push_hex(&mut s, x as usize, 2, false);
    s.append("*8))], 0x");
    push_decimal(&mut s, n2 as usize);
    push_decimal(&mut s, n3 as usize);
    s
}

/// The mnemonic of ADD_IMMEDIATE.
pub fn add_mnemonic(x: u8, n2: u8, n3: u8) -> (s: String)
    ensures
        s@ == add_text(x, n2, n3),
{
    let mut s = String::from_str("add qword ptr [rax+(24+(0x");
    push_hex(&mut s, x as usize, 2, false);
    s.append("*8))], 0x");
    push_decimal(&mut s, n2 as usize);
    push_decimal(&mut s, n3 as usize);
    s
}

/// The mnemonic of SET_REGISTER.
pub fn set_register_mnemonic(x: u8, n2: u8, n3: u8) -> (s: String)
    ensures
        s@ == set_register_text(x, n2, n3),
{
    let mut s = String::from_str("mov qword ptr [rax+(24+(0x");
    push_hex(&mut s, x as usize, 2, false);
    s.append("*8))], 0x");
    push_decimal(&mut s, n2 as usize);
    push_decimal(&mut s, n3 as usize);
    s
}

/// The mnemonic of the load of register `x` into the scratch register.
pub fn load_mnemonic(x: u8) -> (s: String)
    ensures
        s@ == load_text(x),
{
    let mut s = String::from_str("mov r12, qword ptr [rax+(24+(0x");
    push_hex(&mut s, x as usize, 2, false);
    s.append("*8))]");
    s
}

/// The mnemonic of the store of the scratch register into register `x`.
pub fn store_mnemonic(x: u8) -> (s: String)
    ensures
        s@ == store_text(x),
{
    let mut s = String::from_str("mov qword ptr [rax+(24+(0x");
    push_hex(&mut s, x as usize, 2, false);
    s.append("*8))], r12");
    s
}

/// The mnemonic of the addition of a host offset to the page base.
pub fn add_offset_mnemonic(offset: u16) -> (s: String)
    ensures
        s@ == add_offset_text(offset as nat),
{
    let mut s = String::from_str("add r12, 0x");
    push_hex(&mut s, offset as usize, 4, false);
    s
}

} // verus!
