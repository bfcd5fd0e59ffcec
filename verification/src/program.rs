//! Whole programs: the dispatch of a decoded instruction to its rule, and
//! the run over a ROM image from its first instruction to its last.

use crate::encoding::{
    address_of, branch_bytes, ADD_LEN, BRANCH_LEN, CALL_LEN, COMPARE_LEN, COPY_LEN, JUMP_LEN,
    PROGRAM_BASE, SET_INDEX_LEN, SET_REGISTER_LEN, STUB_LEN,
};
use crate::error::TranslateError;
use crate::mnemonic::{draw_text, random_text};
use crate::parser::{instruction_at, Parser};
use crate::state::{instruction_index, lemma_symbols_cover, prefix_sum, symbol_bytes, State};
use crate::translator::Translator;
use vstd::prelude::*;

verus! {

/// The instructions of the virtual machine that have a rule.
#[derive(Clone, Copy, Debug, PartialEq, Eq, Structural)]
pub enum Opcode {
    /// `Annn`: set the index register to `nnn`.
    SetIndex,
    /// `Cxnn`: set register `x` to a random byte masked with `nn`.
    RandomAnd,
    /// `3xnn`: skip the next instruction if register `x` equals `nn`.
    SkipIfEqual,
    /// `7xnn`: add `nn` to register `x`.
    AddImmediate,
    /// `1nnn`: jump to `nnn`.
    Jump,
    /// `6xnn`: set register `x` to `nn`.
    SetRegister,
    /// `8xy0`: copy register `y` to register `x`.
    CopyRegister,
    /// `2nnn`: call the subroutine at `nnn`.
    Call,
    /// `Dxyn`: draw a sprite.
    Draw,
}

/// The instruction that the first nibble `op` and the last nibble `c` select.
pub open spec fn opcode_of(op: u8, c: u8) -> Option<Opcode> {
    if op == 0xA {
        Some(Opcode::SetIndex)
    } else if op == 0xC {
        Some(Opcode::RandomAnd)
    } else if op == 0x3 {
        Some(Opcode::SkipIfEqual)
    } else if op == 0x7 {
        Some(Opcode::AddImmediate)
    } else if op == 0x1 {
        Some(Opcode::Jump)
    } else if op == 0x6 {
        Some(Opcode::SetRegister)
    } else if op == 0xD {
        Some(Opcode::Draw)
    } else if op == 0x8 && c == 0x0 {
        Some(Opcode::CopyRegister)
    } else if op == 0x2 {
        Some(Opcode::Call)
    } else {
        None
    }
}

/// What the instruction with the nibbles `ins` makes of the state `st`.
///
/// An instruction without a rule, and a jump or call that the length table
/// does not reach, end the run. A call below the program base is dropped.
pub open spec fn step(st: State, ins: (u8, u8, u8, u8)) -> Result<State, TranslateError> {
    let (op, a, b, c) = ins;
    let position = st.lengths.len() as usize;
    let target = address_of(a, b, c);
    match opcode_of(op, c) {
        None => Err(TranslateError::UnknownOpcode { position, op, a, b, c }),
        Some(Opcode::SetIndex) => Ok(st.set_index(a, b, c)),
        Some(Opcode::RandomAnd) => Ok(st.stub(random_text())),
        Some(Opcode::SkipIfEqual) => Ok(st.skip_if_equal(a, b, c)),
        Some(Opcode::AddImmediate) => Ok(st.add_immediate(a, b, c)),
        Some(Opcode::Jump) => if st.covers(target) {
            Ok(st.jump(target))
        } else {
            Err(TranslateError::UnresolvedForwardReference { position, target })
        },
        Some(Opcode::SetRegister) => Ok(st.set_register(a, b, c)),
        Some(Opcode::CopyRegister) => Ok(st.copy_register(a, b)),
        Some(Opcode::Call) => if target < PROGRAM_BASE {
            Ok(st.drop_call(target))
        } else if st.covers(target) {
            Ok(st.call(target))
        } else {
            Err(TranslateError::UnresolvedForwardReference { position, target })
        },
        Some(Opcode::Draw) => Ok(st.stub(draw_text())),
    }
}

/// The instructions of a ROM image of even length, in program order.
pub open spec fn decode(rom: Seq<u8>) -> Seq<(u8, u8, u8, u8)> {
    Seq::new(rom.len() / 2, |i: int| instruction_at(rom, 2 * i))
}

/// The state that the first `count` instructions of `program` make of
/// `start`, or the error that the first failing one among them gives.
pub open spec fn run_from(start: State, program: Seq<(u8, u8, u8, u8)>, count: int) -> Result<
    State,
    TranslateError,
>
    decreases count,
{
    if count <= 0 {
        Ok(start)
    } else {
        match run_from(start, program, count - 1) {
            Ok(st) => step(st, program[count - 1]),
            Err(e) => Err(e),
        }
    }
}

/// The state after the first `count` instructions of `program`, run from
/// the empty state, or the error that the first failing one among them gives.
pub open spec fn run(program: Seq<(u8, u8, u8, u8)>, count: int) -> Result<State, TranslateError> {
    run_from(State::new(), program, count)
}

/// The state in which a run over the first `count` instructions stops: the
/// state after the last of them, or the state before the first that fails.
pub open spec fn reached(start: State, program: Seq<(u8, u8, u8, u8)>, count: int) -> State
    decreases count,
{
    if count <= 0 {
        start
    } else {
        match run_from(start, program, count) {
            Ok(st) => st,
            Err(_) => reached(start, program, count - 1),
        }
    }
}

/// What `Translator::translate_rom` answers for a ROM image when the
/// translator is in the state `start`.
///
/// An image of odd length is refused before anything else is looked at. A
/// program must not end on a conditional skip.
pub open spec fn outcome(start: State, rom: Seq<u8>) -> Result<State, TranslateError> {
    if rom.len() % 2 != 0 {
        Err(TranslateError::MalformedInput { length: rom.len() as usize })
    } else {
        match run_from(start, decode(rom), rom.len() as int / 2) {
            Ok(st) => if st.armed {
                Err(
                    TranslateError::UnterminatedPendingBranch {
                        position: (st.lengths.len() - 1) as usize,
                    },
                )
            } else {
                Ok(st)
            },
            Err(e) => Err(e),
        }
    }
}

/// The state in which `Translator::translate_rom` leaves a translator that
/// was in the state `start`: untouched by an image of odd length, else
/// where the run stopped.
pub open spec fn left_at(start: State, rom: Seq<u8>) -> State {
    if rom.len() % 2 != 0 {
        start
    } else {
        reached(start, decode(rom), rom.len() as int / 2)
    }
}

/// What `translate` makes of a ROM image.
pub open spec fn translation(rom: Seq<u8>) -> Result<State, TranslateError> {
    outcome(State::new(), rom)
}

/// Once an instruction has failed, the run has failed, and it stays where
/// it stopped.
pub proof fn lemma_run_error_persists(
    start: State,
    program: Seq<(u8, u8, u8, u8)>,
    shorter: int,
    longer: int,
)
    requires
        shorter <= longer,
        run_from(start, program, shorter) is Err,
    ensures
        run_from(start, program, longer) == run_from(start, program, shorter),
        reached(start, program, longer) == reached(start, program, shorter),
    decreases longer - shorter,
{
    if shorter < longer {
        lemma_run_error_persists(start, program, shorter, longer - 1);
    }
}

impl Opcode {
    /// Selects the instruction by the first and the last nibble.
    pub fn decode(op: u8, c: u8) -> (opcode: Option<Opcode>)
        ensures
            opcode == opcode_of(op, c),
    {
        match (op, c) {
            (0x0A, _) => Some(Opcode::SetIndex),
            (0x0C, _) => Some(Opcode::RandomAnd),
            (0x03, _) => Some(Opcode::SkipIfEqual),
            (0x07, _) => Some(Opcode::AddImmediate),
            (0x01, _) => Some(Opcode::Jump),
            (0x06, _) => Some(Opcode::SetRegister),
            (0x0D, _) => Some(Opcode::Draw),
            (0x08, 0x00) => Some(Opcode::CopyRegister),
            (0x02, _) => Some(Opcode::Call),
            _ => None,
        }
    }
}

impl Translator {
    /// Translates the instruction with the nibbles `n1 n2 n3 n4`.
    ///
    /// On an error the translator is left as it was.
    pub fn dispatch(&mut self, n1: u8, n2: u8, n3: u8, n4: u8) -> (result: Result<
        (),
        TranslateError,
    >)
        requires
            old(self).wf(),
            n1 < 16,
            n2 < 16,
            n3 < 16,
            n4 < 16,
        ensures
            final(self).wf(),
            match result {
                Ok(()) => step(old(self)@, (n1, n2, n3, n4)) == Ok::<State, TranslateError>(
                    final(self)@,
                ),
                Err(e) => {
                    &&& step(old(self)@, (n1, n2, n3, n4)) == Err::<State, TranslateError>(e)
                    &&& final(self)@ == old(self)@
                },
            },
    {
        match Opcode::decode(n1, n4) {
            Some(Opcode::SetIndex) => {
                self.mov_i_addr(n2, n3, n4);
                Ok(())
            },
            Some(Opcode::RandomAnd) => {
                self.rand_bitwise_and(n2, n3, n4);
                Ok(())
            },
            Some(Opcode::SkipIfEqual) => {
                self.je(n2, n3, n4);
                Ok(())
            },
            Some(Opcode::AddImmediate) => {
                self.add(n2, n3, n4);
                Ok(())
            },
            Some(Opcode::Jump) => self.jmp(n2, n3, n4),
            Some(Opcode::SetRegister) => {
                self.mov_v_addr(n2, n3, n4);
                Ok(())
            },
            Some(Opcode::Draw) => {
                self.draw();
                Ok(())
            },
            Some(Opcode::CopyRegister) => {
                self.mov_v_v(n2, n3);
                Ok(())
            },
            Some(Opcode::Call) => self.call(n2, n3, n4),
            None => Err(
                TranslateError::UnknownOpcode {
                    position: self.instruction_list.len(),
                    op: n1,
                    a: n2,
                    b: n3,
                    c: n4,
                },
            ),
        }
    }
}

impl Translator {
    /// Translates a ROM image from its first instruction to its last, in
    /// addition to what the translator holds.
    ///
    /// On an error the translator stays as the run left it: it holds the
    /// code and the diagnostics of all instructions before the failing one.
    pub fn translate_rom(&mut self, rom: Vec<u8>) -> (result: Result<(), TranslateError>)
        requires
            old(self).wf(),
        ensures
            final(self).wf(),
            final(self)@ == left_at(old(self)@, rom@),
            match result {
                Ok(()) => outcome(old(self)@, rom@) == Ok::<State, TranslateError>(final(self)@),
                Err(e) => outcome(old(self)@, rom@) == Err::<State, TranslateError>(e),
            },
    {
        let length: usize = rom.len();
        if length % 2 != 0 {
            return Err(TranslateError::MalformedInput { length });
        }
        let ghost image = rom@;
        let ghost program = decode(image);
        let ghost start = self@;
        let mut parser = Parser::new(rom);
        let mut eof: bool = length == 0;
        while !eof
            invariant
                image == rom@,
                start == old(self)@,
                length == image.len(),
                length % 2 == 0,
                program == decode(image),
                parser.bytes() == image,
                0 <= parser.position() <= length,
                parser.position() % 2 == 0,
                eof == (parser.position() == length),
                self.wf(),
                run_from(start, program, parser.position() / 2) == Ok::<State, TranslateError>(
                    self@,
                ),
                reached(start, program, parser.position() / 2) == self@,
            decreases length - parser.position(),
        {
            let ghost done = parser.position() / 2;
            match parser.read(&mut eof) {
                Ok((n1, n2, n3, n4)) => {
                    assert(program[done] == (n1, n2, n3, n4));
                    match self.dispatch(n1, n2, n3, n4) {
                        Ok(()) => {},
                        Err(e) => {
                            proof {
                                lemma_run_error_persists(
                                    start,
                                    program,
                                    done + 1,
                                    length as int / 2,
                                );
                            }
                            return Err(e);
                        },
                    }
                },
                Err(_) => {
                    // Not reached: the length is even, so two bytes are left.
                    return Err(TranslateError::MalformedInput { length });
                },
            }
        }
        if self.create_jump {
            return Err(
                TranslateError::UnterminatedPendingBranch {
                    position: self.instruction_list.len() - 1,
                },
            );
        }
        Ok(())
    }
}

/// Translates a ROM image from its first instruction to its last.
pub fn translate(rom: Vec<u8>) -> (result: Result<Translator, TranslateError>)
    ensures
        match result {
            Ok(translator) => {
                &&& translation(rom@) == Ok::<State, TranslateError>(translator@)
                &&& translator.wf()
            },
            Err(e) => translation(rom@) == Err::<State, TranslateError>(e),
        },
{
    let mut translator = Translator::new();
    match translator.translate_rom(rom) {
        Ok(()) => Ok(translator),
        Err(e) => Err(e),
    }
}

/// Whether the instruction is a conditional skip.
pub open spec fn is_skip(ins: (u8, u8, u8, u8)) -> bool {
    opcode_of(ins.0, ins.3) == Some(Opcode::SkipIfEqual)
}

/// The host bytes of the instruction's own code, without the branch that
/// follows a skip.
pub open spec fn host_length(ins: (u8, u8, u8, u8)) -> nat {
    match opcode_of(ins.0, ins.3) {
        None => 0,
        Some(Opcode::SetIndex) => SET_INDEX_LEN as nat,
        Some(Opcode::RandomAnd) => STUB_LEN as nat,
        Some(Opcode::SkipIfEqual) => COMPARE_LEN as nat,
        Some(Opcode::AddImmediate) => ADD_LEN as nat,
        Some(Opcode::Jump) => JUMP_LEN as nat,
        Some(Opcode::SetRegister) => SET_REGISTER_LEN as nat,
        Some(Opcode::CopyRegister) => COPY_LEN as nat,
        Some(Opcode::Call) => if address_of(ins.1, ins.2, ins.3) < PROGRAM_BASE {
            0
        } else {
            CALL_LEN as nat
        },
        Some(Opcode::Draw) => STUB_LEN as nat,
    }
}

/// The host bytes of the own code of the first `count` instructions.
pub open spec fn code_size(program: Seq<(u8, u8, u8, u8)>, count: int) -> nat
    decreases count,
{
    if count <= 0 {
        0
    } else {
        code_size(program, count - 1) + host_length(program[count - 1])
    }
}

/// An instruction that succeeds keeps the tables consistent, adds one entry
/// to the length table, and leaves a skip waiting exactly if it is one.
pub proof fn lemma_step(st: State, ins: (u8, u8, u8, u8))
    requires
        st.wf(),
        step(st, ins) is Ok,
    ensures
        step(st, ins)->Ok_0.wf(),
        step(st, ins)->Ok_0.lengths.len() == st.lengths.len() + 1,
        step(st, ins)->Ok_0.lengths.last() == host_length(ins),
        step(st, ins)->Ok_0.armed == is_skip(ins),
        step(st, ins)->Ok_0.grows_from(st.settle(host_length(ins)), host_length(ins)),
        forall|i: int|
            0 <= i < st.lengths.len() ==> #[trigger] step(st, ins)->Ok_0.lengths[i] == st.lengths[i]
                + (if st.armed && i == st.lengths.len() - 1 {
                BRANCH_LEN as nat
            } else {
                0
            }),
{
    let (op, a, b, c) = ins;
    let target = address_of(a, b, c);
    match opcode_of(op, c) {
        None => {},
        Some(Opcode::SetIndex) => st.lemma_set_index(a, b, c),
        Some(Opcode::RandomAnd) => st.lemma_stub(random_text()),
        Some(Opcode::SkipIfEqual) => st.lemma_skip_if_equal(a, b, c),
        Some(Opcode::AddImmediate) => st.lemma_add_immediate(a, b, c),
        Some(Opcode::Jump) => st.lemma_jump(target),
        Some(Opcode::SetRegister) => st.lemma_set_register(a, b, c),
        Some(Opcode::CopyRegister) => st.lemma_copy_register(a, b),
        Some(Opcode::Call) => {
            if target < PROGRAM_BASE {
                st.lemma_drop_call(target);
            } else {
                st.lemma_call(target);
            }
        },
        Some(Opcode::Draw) => st.lemma_stub(draw_text()),
    }
}

/// A run that succeeds has one entry in the length table for each
/// instruction, in a state whose tables are consistent. Each entry is the
/// host length of its instruction, with two bytes more where the instruction
/// is a skip that another instruction follows. A skip waits exactly if the
/// last instruction is one.
pub proof fn lemma_run(program: Seq<(u8, u8, u8, u8)>, count: int)
    requires
        0 <= count,
        run(program, count) is Ok,
    ensures
        run(program, count)->Ok_0.wf(),
        run(program, count)->Ok_0.lengths.len() == count,
        run(program, count)->Ok_0.armed == (count > 0 && is_skip(program[count - 1])),
        forall|i: int|
            0 <= i < count ==> #[trigger] run(program, count)->Ok_0.lengths[i] == host_length(
                program[i],
            ) + (if is_skip(program[i]) && i + 1 < count {
                BRANCH_LEN as nat
            } else {
                0
            }),
    decreases count,
{
    if count > 0 {
        lemma_run(program, count - 1);
        lemma_step(run(program, count - 1)->Ok_0, program[count - 1]);
    }
}

/// In a program without conditional skips the host offset of an address is
/// the host length of all instructions before it; the program base has the
/// offset zero.
pub proof fn lemma_offsets_without_skips(program: Seq<(u8, u8, u8, u8)>, count: int, address: u16)
    requires
        0 <= count,
        run(program, count) is Ok,
        forall|i: int| 0 <= i < count ==> !is_skip(#[trigger] program[i]),
        run(program, count)->Ok_0.covers(address),
    ensures
        run(program, count)->Ok_0.host_offset(address) == code_size(
            program,
            instruction_index(address),
        ),
        run(program, count)->Ok_0.host_offset(PROGRAM_BASE) == 0,
{
    lemma_run(program, count);
    lemma_sizes_without_skips(
        program,
        run(program, count)->Ok_0.lengths,
        instruction_index(address),
    );
}

/// Where the first `count` entries of a table are the host lengths of the
/// first `count` instructions, they add up to the size of their code.
pub proof fn lemma_sizes_without_skips(
    program: Seq<(u8, u8, u8, u8)>,
    lengths: Seq<nat>,
    count: int,
)
    requires
        forall|i: int| 0 <= i < count ==> #[trigger] lengths[i] == host_length(program[i]),
    ensures
        prefix_sum(lengths, count) == code_size(program, count),
    decreases count,
{
    if count > 0 {
        lemma_sizes_without_skips(program, lengths, count - 1);
    }
}

/// The instruction that follows a conditional skip is preceded by a branch
/// whose displacement is two more than the instruction's host length `L`:
/// the buffer grows by the two bytes of the branch and the `L` bytes of the
/// instruction, and the branch is attributed to the skip.
pub proof fn lemma_branch_displacement(st: State, ins: (u8, u8, u8, u8))
    requires
        st.wf(),
        st.armed,
        step(st, ins) is Ok,
    ensures
        step(st, ins)->Ok_0.contents.len() == st.contents.len() + BRANCH_LEN + host_length(ins),
        step(st, ins)->Ok_0.contents.subrange(0, st.contents.len() as int) == st.contents,
        step(st, ins)->Ok_0.contents[st.contents.len() as int] == 0x74,
        step(st, ins)->Ok_0.contents[st.contents.len() as int + 1] == 2 + host_length(ins),
        step(st, ins)->Ok_0.lengths[st.lengths.len() - 1] == COMPARE_LEN + BRANCH_LEN,
        step(st, ins)->Ok_0.lengths.last() == host_length(ins),
{
    lemma_step(st, ins);
    let length = host_length(ins);
    let settled = st.settle(length);
    let next = step(st, ins)->Ok_0;
    assert(settled.contents =~= st.contents + branch_bytes(length));
    assert(next.contents.subrange(0, st.contents.len() as int) =~= settled.contents.subrange(
        0,
        st.contents.len() as int,
    ));
    assert(settled.contents.subrange(0, st.contents.len() as int) =~= st.contents);
    assert(next.contents[st.contents.len() as int] == next.contents.subrange(
        0,
        settled.contents.len() as int,
    )[st.contents.len() as int]);
    assert(next.contents[st.contents.len() as int + 1] == next.contents.subrange(
        0,
        settled.contents.len() as int,
    )[st.contents.len() as int + 1]);
}

/// A program whose last instruction is a conditional skip is refused, and
/// the run has emitted no branch for that skip: its entry in the length
/// table holds the comparison alone.
pub proof fn lemma_trailing_skip(rom: Seq<u8>)
    requires
        rom.len() % 2 == 0,
        rom.len() >= 2,
        rom.len() <= usize::MAX,
        run(decode(rom), rom.len() as int / 2) is Ok,
        is_skip(decode(rom).last()),
    ensures
        translation(rom) == Err::<State, TranslateError>(
            TranslateError::UnterminatedPendingBranch { position: (rom.len() / 2 - 1) as usize },
        ),
        run(decode(rom), rom.len() as int / 2)->Ok_0.lengths.last() == COMPARE_LEN,
        left_at(State::new(), rom) == run(decode(rom), rom.len() as int / 2)->Ok_0,
{
    lemma_run(decode(rom), rom.len() as int / 2);
}

/// A translation that succeeds has one entry in the length table for each
/// instruction of the image, and symbols whose lengths add up to the length
/// of the buffer.
pub proof fn lemma_translation(rom: Seq<u8>)
    requires
        translation(rom) is Ok,
    ensures
        translation(rom)->Ok_0.wf(),
        !translation(rom)->Ok_0.armed,
        translation(rom)->Ok_0.lengths.len() == rom.len() / 2,
        symbol_bytes(translation(rom)->Ok_0.symbols) == translation(rom)->Ok_0.contents.len(),
{
    lemma_run(decode(rom), rom.len() as int / 2);
    lemma_symbols_cover(translation(rom)->Ok_0);
}

} // verus!
