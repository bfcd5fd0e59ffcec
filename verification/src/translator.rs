//! The translator: one rule per virtual instruction, each appending host
//! code to the buffer and keeping the tables in step with it.

use crate::encoding::{
    address_of, byte_of, BRANCH_LEN, CALL_LEN, JUMP_LEN, MAX_ENTRY, MAX_SKIPPED, PROGRAM_BASE,
};
use crate::error::{AnomalousCallTarget, TranslateError};
use crate::mnemonic::{
    add_mnemonic, add_offset_mnemonic, branch_mnemonic, compare_mnemonic, draw_text,
    load_mnemonic, random_text, set_index_mnemonic, set_register_mnemonic, store_mnemonic,
};
use crate::state::{instruction_index, lemma_settle, prefix_sum, State, Symbol};
use vstd::prelude::*;

verus! {

/// One entry of the debug symbol table.
#[derive(Debug)]
pub struct DebugSymbol {
    /// Length of the buffer when the chunk was emitted.
    pub start: usize,
    /// Number of bytes in the chunk.
    pub length: usize,
    /// Mnemonic of the chunk.
    pub text: String,
}

impl View for DebugSymbol {
    type V = Symbol;

    open spec fn view(&self) -> Symbol {
        Symbol { start: self.start as nat, length: self.length as nat, text: self.text@ }
    }
}

/// The state of one run. Runs share nothing: each has a translator of its own.
#[derive(Debug)]
pub struct Translator {
    /// The host code emitted so far.
    pub contents: Vec<u8>,
    /// One symbol per emitted chunk.
    pub debug_symbols: Vec<DebugSymbol>,
    /// Set while a conditional skip waits for the instruction that follows it.
    pub create_jump: bool,
    /// Host bytes attributed to each virtual instruction.
    pub instruction_list: Vec<usize>,
    /// The calls that were dropped because they lead below the program base.
    pub diagnostics: Vec<AnomalousCallTarget>,
}

impl View for Translator {
    type V = State;

    open spec fn view(&self) -> State {
        State {
            contents: self.contents@,
            symbols: self.debug_symbols@.map_values(|s: DebugSymbol| s@),
            armed: self.create_jump,
            lengths: self.instruction_list@.map_values(|l: usize| l as nat),
            diagnostics: self.diagnostics@,
        }
    }
}

impl Translator {
    /// Whether the tables describe the buffer, as they do between any two
    /// instructions of a run.
    pub open spec fn wf(&self) -> bool {
        self@.wf()
    }

    /// A translator that has emitted nothing.
    pub fn new() -> (translator: Translator)
        ensures
            translator@ == State::new(),
            translator.wf(),
    {
        Translator {
            contents: Vec::<u8>::new(),
            debug_symbols: Vec::<DebugSymbol>::new(),
            create_jump: false,
            instruction_list: Vec::<usize>::new(),
            diagnostics: Vec::<AnomalousCallTarget>::new(),
        }
    }

    /// Appends `bytes` to the buffer.
    fn emit(&mut self, bytes: Vec<u8>)
        ensures
            final(self)@ == (State { contents: old(self)@.contents + bytes@, ..old(self)@ }),
    {
        let mut bytes = bytes;
        self.contents.append(&mut bytes);
    }

    /// Registers a symbol for the `length` bytes that are emitted next.
    fn emit_debug_symbols(&mut self, length: usize, symbol: String)
        ensures
            final(self)@ == (State {
                symbols: old(self)@.symbols.push(
                    Symbol {
                        start: old(self)@.contents.len(),
                        length: length as nat,
                        text: symbol@,
                    },
                ),
                ..old(self)@
            }),
    {
        self.debug_symbols.push(
            DebugSymbol { start: self.contents.len(), length, text: symbol },
        );
    }

    /// Appends an entry to the length table.
    fn cache_size(&mut self, size: usize)
        ensures
            final(self)@ == old(self)@.record(size as nat),
    {
        self.instruction_list.push(size);
    }

    /// Attributes the two bytes of a branch to the last instruction recorded.
    fn fix_jump_cache(&mut self)
        requires
            old(self).instruction_list@.len() > 0,
            old(self).instruction_list@.last() + BRANCH_LEN <= usize::MAX,
        ensures
            final(self)@ == old(self)@.fold_branch(),
    {
        let last: usize = self.instruction_list.len() - 1;
        let length: usize = self.instruction_list[last];
        self.instruction_list.set(last, length + 2);
    }

    /// Settles a waiting skip before an instruction of `length` host bytes.
    fn process_jump(&mut self, length: usize)
        requires
            old(self).wf(),
            length <= MAX_SKIPPED,
        ensures
            final(self)@ == old(self)@.settle(length as nat),
            final(self)@.emitting(0),
            !final(self).create_jump,
    {
        proof {
            lemma_settle(self@, length as nat);
        }
        if self.create_jump {
            let code = vec![0x74, (0x02 + length) as u8];
            self.emit_debug_symbols(code.len(), branch_mnemonic(length));
            self.emit(code);
            self.create_jump = false;
            self.fix_jump_cache();
        }
    }

    /// The address that the nibbles `n1 n2 n3` spell, most significant first.
    pub fn parse_addr(&self, n1: u8, n2: u8, n3: u8) -> (address: u16)
        requires
            n1 < 16,
            n2 < 16,
            n3 < 16,
        ensures
            address == address_of(n1, n2, n3),
            address <= 0xFFF,
    {
        assert((((n1 as u16) << 8) | (((n2 << 4) | n3) as u16)) == (256 * n1 + 16 * n2 + n3) as u16)
            by (bit_vector)
            requires
                n1 < 16,
                n2 < 16,
                n3 < 16,
        ;
        ((n1 as u16) << 8) | (((n2 << 4) | n3) as u16)
    }

    /// Byte `position` of `bytes`, counted from the least significant.
    pub fn get_byte(&self, bytes: u16, position: usize) -> (byte: u8)
        requires
            position < 2,
        ensures
            byte == byte_of(bytes as nat, position as nat),
    {
        let shift: u16 = 8 * (position as u16);
        assert(((bytes >> shift) & 0xFF) == (if shift == 0 {
            bytes % 256
        } else {
            (bytes / 256) % 256
        })) by (bit_vector)
            requires
                shift == 0 || shift == 8,
        ;
        ((bytes >> shift) & 0xFF) as u8
    }

    /// Whether `address` is that of an instruction already recorded, or of
    /// the one that comes next.
    fn covers(&self, address: u16) -> (covered: bool)
        ensures
            covered == self@.covers(address),
    {
        address >= PROGRAM_BASE && ((address - PROGRAM_BASE) / 2) as usize
            <= self.instruction_list.len()
    }

    /// The sum of the length-table entries of all instructions before the
    /// one at `address`.
    fn host_offset(&self, address: u16) -> (offset: usize)
        requires
            self.wf(),
            self@.covers(address),
        ensures
            offset == self@.host_offset(address),
            offset <= MAX_ENTRY * instruction_index(address),
    {
        let amount_instructions: usize = ((address - PROGRAM_BASE) / 2) as usize;
        let mut x64_addr: usize = 0;
        for i in 0..amount_instructions
            invariant
                amount_instructions <= self.instruction_list.len(),
                amount_instructions <= 0x8000,
                self.wf(),
                x64_addr == prefix_sum(self@.lengths, i as int),
                x64_addr <= MAX_ENTRY * i,
        {
            assert(self@.lengths[i as int] <= MAX_ENTRY);
            x64_addr += self.instruction_list[i];
        }
        x64_addr
    }

    /// The host offset of the instruction at the virtual address `address`:
    /// the sum of the length-table entries of all instructions before it.
    ///
    /// The address must be that of an instruction already recorded, or of
    /// the one that comes next.
    pub fn get_x64_address(&self, address: u16) -> (result: Result<usize, TranslateError>)
        requires
            self.wf(),
        ensures
            match result {
                Ok(offset) => self@.covers(address) && offset == self@.host_offset(address),
                Err(e) => !self@.covers(address) && e == (TranslateError::UnresolvedForwardReference {
                    position: self.instruction_list.len(),
                    target: address,
                }),
            },
    {
        if self.covers(address) {
            Ok(self.host_offset(address))
        } else {
            Err(
                TranslateError::UnresolvedForwardReference {
                    position: self.instruction_list.len(),
                    target: address,
                },
            )
        }
    }

    /// CALL: pushes a return marker and transfers control to the host code
    /// of the instruction at the virtual address `n1 n2 n3`.
    ///
    /// A call below the program base is dropped: it emits no code of its
    /// own, gets an empty entry in the length table and is noted in
    /// `diagnostics`. A call beyond the instruction being emitted is an
    /// error and leaves the translator as it was. Otherwise a waiting skip
    /// is settled first, and the target is resolved against the length table
    /// as it then stands.
    pub fn call(&mut self, n1: u8, n2: u8, n3: u8) -> (result: Result<(), TranslateError>)
        requires
            old(self).wf(),
            n1 < 16,
            n2 < 16,
            n3 < 16,
        ensures
            final(self).wf(),
            match result {
                Ok(()) => if address_of(n1, n2, n3) < PROGRAM_BASE {
                    final(self)@ == old(self)@.drop_call(address_of(n1, n2, n3))
                } else {
                    &&& old(self)@.covers(address_of(n1, n2, n3))
                    &&& final(self)@ == old(self)@.call(address_of(n1, n2, n3))
                },
                Err(e) => {
                    &&& address_of(n1, n2, n3) >= PROGRAM_BASE
                    &&& !old(self)@.covers(address_of(n1, n2, n3))
                    &&& final(self)@ == old(self)@
                    &&& e == (TranslateError::UnresolvedForwardReference {
                        position: old(self).instruction_list.len(),
                        target: address_of(n1, n2, n3),
                    })
                },
            },
    {
        let address = self.parse_addr(n1, n2, n3);
        if address < PROGRAM_BASE {
            let position: usize = self.instruction_list.len();
            self.process_jump(0);
            self.cache_size(0);
            self.diagnostics.push(AnomalousCallTarget { position, target: address });
            proof {
                old(self)@.lemma_drop_call(address);
            }
            return Ok(());
        }
        if !self.covers(address) {
            return Err(
                TranslateError::UnresolvedForwardReference {
                    position: self.instruction_list.len(),
                    target: address,
                },
            );
        }
        self.process_jump(CALL_LEN);
        let offset: u16 = self.host_offset(address) as u16;
        let code_0 = vec![0x68, 0x00, 0x00, 0x00, 0x00];  // push .
        let code_1 = vec![0x67, 0x4C, 0x8B, 0x23];  // mov r12, qword ptr [ebx]
        let code_2 = vec![
            0x49,
            0x81,
            0xC4,
            self.get_byte(offset, 0),
            self.get_byte(offset, 1),
            0x00,
            0x00,
        ];  // add r12, NNN
        let code_3 = vec![0x41, 0xFF, 0xE4];  // jmp r12
        let len: usize = code_0.len() + code_1.len() + code_2.len() + code_3.len();
        self.emit_debug_symbols(code_0.len(), String::from_str("push ."));
        self.emit(code_0);
        self.emit_debug_symbols(code_1.len(), String::from_str("mov r12, qword ptr [ebx]"));
        self.emit(code_1);
        self.emit_debug_symbols(code_2.len(), add_offset_mnemonic(offset));
        self.emit(code_2);
        self.emit_debug_symbols(code_3.len(), String::from_str("jmp r12"));
        self.emit(code_3);
        self.cache_size(len);
        proof {
            old(self)@.lemma_call(address);
        }
        Ok(())
    }

    /// JUMP: transfers control to the host code of the instruction at the
    /// virtual address `n1 n2 n3`.
    ///
    /// A jump below the program base or beyond the instruction being
    /// emitted is an error and leaves the translator as it was. Otherwise a
    /// waiting skip is settled first, and the target is resolved against the
    /// length table as it then stands.
    pub fn jmp(&mut self, n1: u8, n2: u8, n3: u8) -> (result: Result<(), TranslateError>)
        requires
            old(self).wf(),
            n1 < 16,
            n2 < 16,
            n3 < 16,
        ensures
            final(self).wf(),
            match result {
                Ok(()) => {
                    &&& old(self)@.covers(address_of(n1, n2, n3))
                    &&& final(self)@ == old(self)@.jump(address_of(n1, n2, n3))
                },
                Err(e) => {
                    &&& !old(self)@.covers(address_of(n1, n2, n3))
                    &&& final(self)@ == old(self)@
                    &&& e == (TranslateError::UnresolvedForwardReference {
                        position: old(self).instruction_list.len(),
                        target: address_of(n1, n2, n3),
                    })
                },
            },
    {
        let address = self.parse_addr(n1, n2, n3);
        if !self.covers(address) {
            return Err(
                TranslateError::UnresolvedForwardReference {
                    position: self.instruction_list.len(),
                    target: address,
                },
            );
        }
        self.process_jump(JUMP_LEN);
        let offset: u16 = self.host_offset(address) as u16;
        let code_0 = vec![0x67, 0x4C, 0x8B, 0x23];  // mov r12, qword ptr [ebx]
        let code_1 = vec![
            0x49,
            0x81,
            0xC4,
            self.get_byte(offset, 0),
            self.get_byte(offset, 1),
            0x00,
            0x00,
        ];  // add r12, NNN
        let code_2 = vec![0x41, 0xFF, 0xE4];  // jmp r12
        let len: usize = code_0.len() + code_1.len() + code_2.len();
        self.emit_debug_symbols(code_0.len(), String::from_str("mov r12, qword ptr [ebx]"));
        self.emit(code_0);
        self.emit_debug_symbols(code_1.len(), add_offset_mnemonic(offset));
        self.emit(code_1);
        self.emit_debug_symbols(code_2.len(), String::from_str("jmp r12"));
        self.emit(code_2);
        self.cache_size(len);
        proof {
            old(self)@.lemma_jump(address);
        }
        Ok(())
    }

    /// ADD_IMMEDIATE: adds the immediate `n2 n3` to register `n1`.
    pub fn add(&mut self, n1: u8, n2: u8, n3: u8)
        requires
            old(self).wf(),
            n1 < 16,
            n2 < 16,
            n3 < 16,
        ensures
            final(self).wf(),
            final(self)@ == old(self)@.add_immediate(n1, n2, n3),
    {
        assert((n2 << 4) | n3 == (16 * n2 + n3) as u8) by (bit_vector)
            requires
                n2 < 16,
                n3 < 16,
        ;
        let code = vec![
            0x48,
            0x81,
            0x40,
            24 + (n1 * 8),
            (n2 << 4) | n3,
            0x00,
            0x00,
            0x00,
        ];  // add qword ptr [rax+(24+(X*8))], NN
        let len: usize = code.len();
        self.process_jump(code.len());
        self.emit_debug_symbols(len, add_mnemonic(n1, n2, n3));
        self.emit(code);
        self.cache_size(len);
        proof {
            old(self)@.lemma_add_immediate(n1, n2, n3);
        }
    }

    /// SET_REGISTER: sets register `n1` to the immediate `n2 n3`.
    pub fn mov_v_addr(&mut self, n1: u8, n2: u8, n3: u8)
        requires
            old(self).wf(),
            n1 < 16,
            n2 < 16,
            n3 < 16,
        ensures
            final(self).wf(),
            final(self)@ == old(self)@.set_register(n1, n2, n3),
    {
        assert((n2 << 4) | n3 == (16 * n2 + n3) as u8) by (bit_vector)
            requires
                n2 < 16,
                n3 < 16,
        ;
        let code = vec![
            0x48,
            0xC7,
            0x40,
            24 + (n1 * 8),
            (n2 << 4) | n3,
            0x00,
            0x00,
            0x00,
        ];  // mov qword ptr [rax+(24+(X*8))], NN
        let len: usize = code.len();
        self.process_jump(len);
        self.emit_debug_symbols(len, set_register_mnemonic(n1, n2, n3));
        self.emit(code);
        self.cache_size(len);
        proof {
            old(self)@.lemma_set_register(n1, n2, n3);
        }
    }

    /// COPY_REGISTER: copies register `n2` to register `n1` through `r12`.
    pub fn mov_v_v(&mut self, n1: u8, n2: u8)
        requires
            old(self).wf(),
            n1 < 16,
            n2 < 16,
        ensures
            final(self).wf(),
            final(self)@ == old(self)@.copy_register(n1, n2),
    {
        let code_0 = vec![0x4C, 0x8B, 0x60, 24 + (n2 * 8)];  // mov r12, qword ptr [rax+(24+(X*8))]
        let code_1 = vec![0x4C, 0x89, 0x60, 24 + (n1 * 8)];  // mov qword ptr [rax+(24+(Y*8))], r12
        let len: usize = code_0.len() + code_1.len();
        self.process_jump(len);
        self.emit_debug_symbols(code_0.len(), load_mnemonic(n2));
        self.emit(code_0);
        self.emit_debug_symbols(code_1.len(), store_mnemonic(n1));
        self.emit(code_1);
        self.cache_size(len);
        proof {
            old(self)@.lemma_copy_register(n1, n2);
        }
    }

    /// SKIP_IF_EQUAL: compares register `n1` with the immediate `n2 n3` and
    /// leaves the branch over the next instruction to be emitted with it.
    pub fn je(&mut self, n1: u8, n2: u8, n3: u8)
        requires
            old(self).wf(),
            n1 < 16,
            n2 < 16,
            n3 < 16,
        ensures
            final(self).wf(),
            final(self)@ == old(self)@.skip_if_equal(n1, n2, n3),
    {
        assert((n2 << 4) | n3 == (16 * n2 + n3) as u8) by (bit_vector)
            requires
                n2 < 16,
                n3 < 16,
        ;
        let code = vec![0x48, 0x83, 0x78, 24 + (n1 * 8), (n2 << 4) | n3];  // cmp qword ptr [rax+(24+(X*8))], NN
        let len: usize = code.len();
        self.process_jump(len);
        self.emit_debug_symbols(len, compare_mnemonic(n1, n2, n3));
        self.emit(code);
        self.create_jump = true;
        self.cache_size(len);
        proof {
            old(self)@.lemma_skip_if_equal(n1, n2, n3);
        }
    }

    /// SET_INDEX: sets the index register to the immediate `n1 n2 n3`.
    pub fn mov_i_addr(&mut self, n1: u8, n2: u8, n3: u8)
        requires
            old(self).wf(),
            n1 < 16,
            n2 < 16,
            n3 < 16,
        ensures
            final(self).wf(),
            final(self)@ == old(self)@.set_index(n1, n2, n3),
    {
        assert((n2 << 4) | n3 == (16 * n2 + n3) as u8) by (bit_vector)
            requires
                n2 < 16,
                n3 < 16,
        ;
        let code = vec![0x48, 0xC7, 0x00, (n2 << 4) | n3, n1, 0x00, 0x00];  // mov qword ptr [rax+0], NNN
        let len: usize = code.len();
        self.process_jump(code.len());
        self.emit_debug_symbols(len, set_index_mnemonic(n1, n2, n3));
        self.emit(code);
        self.cache_size(len);
        proof {
            old(self)@.lemma_set_index(n1, n2, n3);
        }
    }

    /// Emits the placeholder of an instruction that is not implemented.
    fn emit_debug(&mut self, text: String)
        requires
            old(self).wf(),
        ensures
            final(self).wf(),
            final(self)@ == old(self)@.stub(text@),
    {
        self.process_jump(16);
        self.emit_debug_symbols(16, text);
        self.emit(vec![0xFF; 16]);
        self.cache_size(16);
        proof {
            old(self)@.lemma_stub(text@);
        }
    }

    /// RANDOM_AND: not implemented; emits a placeholder.
    pub fn rand_bitwise_and(&mut self, _n1: u8, _n2: u8, _n3: u8)
        requires
            old(self).wf(),
        ensures
            final(self).wf(),
            final(self)@ == old(self)@.stub(random_text()),
    {
        self.emit_debug(String::from_str("RND"));
    }

    /// DRAW: not implemented; emits a placeholder.
    pub fn draw(&mut self)
        requires
            old(self).wf(),
        ensures
            final(self).wf(),
            final(self)@ == old(self)@.stub(draw_text()),
    {
        self.emit_debug(String::from_str("DRW"));
    }
}

} // verus!
