//! The mathematical model of a run: what the translator holds, and what each
//! instruction does to it.
//!
//! A run keeps the emitted bytes, a symbol for every emitted chunk, one
//! length-table entry per virtual instruction, and a flag that is set while a
//! conditional skip waits for the instruction it guards. Every instruction
//! goes through the same steps: settle a waiting skip with a branch over the
//! bytes that are about to follow, emit its chunks, record its length.

use crate::encoding::{
    add_bytes, add_offset_bytes, branch_bytes, compare_bytes, indirect_jump_bytes, load_bytes,
    load_page_bytes, push_bytes, set_index_bytes, set_register_bytes, store_bytes, stub_bytes,
    ADD_LEN, BRANCH_LEN, CALL_LEN, COMPARE_LEN, COPY_LEN, JUMP_LEN, MAX_CHUNK_LEN, MAX_ENTRY,
    PROGRAM_BASE, SET_INDEX_LEN, SET_REGISTER_LEN, STUB_LEN,
};
use crate::error::AnomalousCallTarget;
use crate::mnemonic::{
    add_offset_text, add_text, branch_text, compare_text, indirect_jump_text, load_page_text,
    load_text, push_text, set_index_text, set_register_text, store_text,
};
use vstd::prelude::*;

verus! {

/// One entry of the debug symbol table: `length` bytes from offset `start`
/// of the buffer are the chunk that `text` names.
pub struct Symbol {
    pub start: nat,
    pub length: nat,
    pub text: Seq<char>,
}

/// The state of a run.
#[verifier::ext_equal]
pub struct State {
    /// The host bytes emitted so far.
    pub contents: Seq<u8>,
    /// One symbol per emitted chunk, in emission order.
    pub symbols: Seq<Symbol>,
    /// Whether a conditional skip waits for the next instruction.
    pub armed: bool,
    /// Host bytes attributed to each virtual instruction, in program order.
    pub lengths: Seq<nat>,
    /// The calls that were dropped.
    pub diagnostics: Seq<AnomalousCallTarget>,
}

/// The sum of the first `count` entries of `lengths`.
pub open spec fn prefix_sum(lengths: Seq<nat>, count: int) -> nat
    decreases count,
{
    if count <= 0 {
        0
    } else {
        prefix_sum(lengths, count - 1) + lengths[count - 1]
    }
}

/// The sum of the lengths of `symbols`.
pub open spec fn symbol_bytes(symbols: Seq<Symbol>) -> nat
    decreases symbols.len(),
{
    if symbols.len() == 0 {
        0
    } else {
        symbol_bytes(symbols.drop_last()) + symbols.last().length
    }
}

/// Zero-based index of the instruction at virtual address `address`.
pub open spec fn instruction_index(address: u16) -> int {
    (address - PROGRAM_BASE) / 2
}

impl State {
    /// The state before the first instruction.
    pub open spec fn new() -> State {
        State {
            contents: Seq::empty(),
            symbols: Seq::empty(),
            armed: false,
            lengths: Seq::empty(),
            diagnostics: Seq::empty(),
        }
    }

    /// Appends a chunk and the symbol that describes it.
    pub open spec fn emit(self, bytes: Seq<u8>, text: Seq<char>) -> State {
        State {
            contents: self.contents + bytes,
            symbols: self.symbols.push(
                Symbol { start: self.contents.len(), length: bytes.len(), text },
            ),
            ..self
        }
    }

    /// Appends an entry to the length table.
    pub open spec fn record(self, length: nat) -> State {
        State { lengths: self.lengths.push(length), ..self }
    }

    /// Attributes the bytes of a branch to the last instruction recorded.
    pub open spec fn fold_branch(self) -> State {
        State {
            lengths: self.lengths.update(
                self.lengths.len() - 1,
                self.lengths.last() + BRANCH_LEN as nat,
            ),
            ..self
        }
    }

    /// Settles a waiting skip before an instruction of `length` host bytes:
    /// emits the branch over those bytes and attributes it to the skip.
    pub open spec fn settle(self, length: nat) -> State {
        if self.armed {
            State {
                armed: false,
                ..self.emit(branch_bytes(length), branch_text(length)).fold_branch()
            }
        } else {
            self
        }
    }

    /// Whether `address` is the address of an instruction already recorded,
    /// or of the one that comes next.
    pub open spec fn covers(self, address: u16) -> bool {
        address >= PROGRAM_BASE && instruction_index(address) <= self.lengths.len()
    }

    /// The host offset at which the code of the instruction at `address` starts.
    pub open spec fn host_offset(self, address: u16) -> nat {
        prefix_sum(self.lengths, instruction_index(address))
    }

    /// SET_INDEX with the immediate `n1 n2 n3`.
    pub open spec fn set_index(self, n1: u8, n2: u8, n3: u8) -> State {
        self.settle(SET_INDEX_LEN as nat).emit(
            set_index_bytes(n1, n2, n3),
            set_index_text(n1, n2, n3),
        ).record(SET_INDEX_LEN as nat)
    }

    /// An instruction that is not implemented: a placeholder named `text`.
    pub open spec fn stub(self, text: Seq<char>) -> State {
        self.settle(STUB_LEN as nat).emit(stub_bytes(), text).record(STUB_LEN as nat)
    }

    /// SKIP_IF_EQUAL of register `x` with the immediate `n2 n3`.
    pub open spec fn skip_if_equal(self, x: u8, n2: u8, n3: u8) -> State {
        State {
            armed: true,
            ..self.settle(COMPARE_LEN as nat).emit(
                compare_bytes(x, n2, n3),
                compare_text(x, n2, n3),
            ).record(COMPARE_LEN as nat)
        }
    }

    /// ADD_IMMEDIATE of `n2 n3` to register `x`.
    pub open spec fn add_immediate(self, x: u8, n2: u8, n3: u8) -> State {
        self.settle(ADD_LEN as nat).emit(add_bytes(x, n2, n3), add_text(x, n2, n3)).record(
            ADD_LEN as nat,
        )
    }

    /// The three chunks that transfer control to host offset `offset`.
    pub open spec fn emit_transfer(self, offset: nat) -> State {
        self.emit(load_page_bytes(), load_page_text()).emit(
            add_offset_bytes(offset),
            add_offset_text(offset),
        ).emit(indirect_jump_bytes(), indirect_jump_text())
    }

    /// JUMP to the virtual address `target`. The waiting skip is settled
    /// first, so the offset counts the branch that it inserts.
    pub open spec fn jump(self, target: u16) -> State {
        let settled = self.settle(JUMP_LEN as nat);
        settled.emit_transfer(settled.host_offset(target)).record(JUMP_LEN as nat)
    }

    /// SET_REGISTER of register `x` to the immediate `n2 n3`.
    pub open spec fn set_register(self, x: u8, n2: u8, n3: u8) -> State {
        self.settle(SET_REGISTER_LEN as nat).emit(
            set_register_bytes(x, n2, n3),
            set_register_text(x, n2, n3),
        ).record(SET_REGISTER_LEN as nat)
    }

    /// COPY_REGISTER of register `y` to register `x`.
    pub open spec fn copy_register(self, x: u8, y: u8) -> State {
        self.settle(COPY_LEN as nat).emit(load_bytes(y), load_text(y)).emit(
            store_bytes(x),
            store_text(x),
        ).record(COPY_LEN as nat)
    }

    /// CALL of the virtual address `target`, at or above the program base.
    /// The waiting skip is settled first, so the offset counts the branch
    /// that it inserts.
    pub open spec fn call(self, target: u16) -> State {
        let settled = self.settle(CALL_LEN as nat);
        settled.emit(push_bytes(), push_text()).emit_transfer(
            settled.host_offset(target),
        ).record(CALL_LEN as nat)
    }

    /// CALL of an address below the program base: no code, an empty entry in
    /// the length table and a diagnostic.
    pub open spec fn drop_call(self, target: u16) -> State {
        let settled = self.settle(0).record(0);
        State {
            diagnostics: settled.diagnostics.push(
                AnomalousCallTarget { position: self.lengths.len() as usize, target },
            ),
            ..settled
        }
    }

    /// The symbols lie end to end from offset 0 and cover the buffer exactly.
    pub open spec fn tiled(self) -> bool {
        &&& forall|i: int|
            0 <= i < self.symbols.len() ==> (#[trigger] self.symbols[i]).start == (if i == 0 {
                0
            } else {
                self.symbols[i - 1].start + self.symbols[i - 1].length
            })
        &&& self.contents.len() == (if self.symbols.len() == 0 {
            0
        } else {
            self.symbols.last().start + self.symbols.last().length
        })
    }

    /// Whether the buffer is that of `earlier` with `count` bytes appended.
    pub open spec fn grows_from(self, earlier: State, count: nat) -> bool {
        &&& self.contents.len() == earlier.contents.len() + count
        &&& self.contents.subrange(0, earlier.contents.len() as int) =~= earlier.contents
    }

    /// What holds while an instruction is being emitted, `emitted` bytes into
    /// its code: the symbols cover the buffer, no chunk and no entry is longer
    /// than the templates allow, and the length table accounts for all the
    /// bytes but the `emitted` ones.
    pub open spec fn emitting(self, emitted: nat) -> bool {
        &&& self.tiled()
        &&& forall|i: int|
            0 <= i < self.symbols.len() ==> (#[trigger] self.symbols[i]).length <= MAX_CHUNK_LEN
        &&& forall|i: int| 0 <= i < self.lengths.len() ==> #[trigger] self.lengths[i] <= MAX_ENTRY
        &&& prefix_sum(self.lengths, self.lengths.len() as int) + emitted == self.contents.len()
    }

    /// What holds of every state between two instructions: the tables
    /// account for the whole buffer, and a waiting skip is the last
    /// instruction recorded, with nothing but its comparison attributed to it.
    pub open spec fn wf(self) -> bool {
        &&& self.emitting(0)
        &&& self.armed ==> self.lengths.len() > 0 && self.lengths.last() == COMPARE_LEN
    }
}

/// Settling a waiting skip leaves a state that is ready for the next
/// instruction's chunks.
pub proof fn lemma_settle(st: State, length: nat)
    requires
        st.wf(),
    ensures
        st.settle(length).emitting(0),
        !st.settle(length).armed,
        st.settle(length).lengths.len() == st.lengths.len(),
{
    if st.armed {
        let last = st.lengths.len() - 1;
        let after = st.settle(length);
        lemma_prefix_sum_agrees(st.lengths, after.lengths, last);
    }
}

/// Emitting a chunk keeps the tables consistent and adds to the bytes that
/// the instruction has emitted.
pub proof fn lemma_emit(st: State, emitted: nat, bytes: Seq<u8>, text: Seq<char>)
    requires
        st.emitting(emitted),
        bytes.len() <= MAX_CHUNK_LEN,
    ensures
        st.emit(bytes, text).emitting(emitted + bytes.len()),
        st.emit(bytes, text).grows_from(st, bytes.len()),
{
}

/// Recording the emitted bytes ends the instruction.
pub proof fn lemma_record(st: State, emitted: nat)
    requires
        st.emitting(emitted),
        emitted <= MAX_ENTRY,
    ensures
        st.record(emitted).emitting(0),
{
    let after = st.record(emitted);
    lemma_prefix_sum_agrees(st.lengths, after.lengths, st.lengths.len() as int);
}

/// Two tables that agree on their first `count` entries have the same sum there.
pub proof fn lemma_prefix_sum_agrees(a: Seq<nat>, b: Seq<nat>, count: int)
    requires
        count <= a.len(),
        count <= b.len(),
        forall|i: int| 0 <= i < count ==> a[i] == b[i],
    ensures
        prefix_sum(a, count) == prefix_sum(b, count),
    decreases count,
{
    if count > 0 {
        lemma_prefix_sum_agrees(a, b, count - 1);
    }
}

/// The lengths of the first `count` symbols of a tiled state add up to the
/// offset at which the next one starts.
pub proof fn lemma_symbols_reach(st: State, count: int)
    requires
        st.tiled(),
        0 <= count <= st.symbols.len(),
    ensures
        symbol_bytes(st.symbols.take(count)) == (if count == 0 {
            0
        } else {
            st.symbols[count - 1].start + st.symbols[count - 1].length
        }),
    decreases count,
{
    if count > 0 {
        lemma_symbols_reach(st, count - 1);
        assert(st.symbols.take(count).drop_last() =~= st.symbols.take(count - 1));
    }
}

/// The lengths that the symbols of a tiled state describe add up to the
/// length of the buffer.
pub proof fn lemma_symbols_cover(st: State)
    requires
        st.tiled(),
    ensures
        symbol_bytes(st.symbols) == st.contents.len(),
{
    lemma_symbols_reach(st, st.symbols.len() as int);
    assert(st.symbols.take(st.symbols.len() as int) =~= st.symbols);
}

/// An instruction of one chunk keeps the tables consistent: settle, emit the
/// chunk, record its length.
pub proof fn lemma_single_chunk(st: State, bytes: Seq<u8>, text: Seq<char>)
    requires
        st.wf(),
        bytes.len() <= MAX_CHUNK_LEN,
    ensures
        st.settle(bytes.len()).emit(bytes, text).record(bytes.len()).emitting(0),
        !st.settle(bytes.len()).emit(bytes, text).record(bytes.len()).armed,
        st.settle(bytes.len()).emit(bytes, text).record(bytes.len()).grows_from(
            st.settle(bytes.len()),
            bytes.len(),
        ),
{
    let settled = st.settle(bytes.len());
    lemma_settle(st, bytes.len());
    lemma_emit(settled, 0, bytes, text);
    lemma_record(settled.emit(bytes, text), bytes.len());
}

impl State {
    /// SET_INDEX keeps the tables consistent.
    pub proof fn lemma_set_index(self, n1: u8, n2: u8, n3: u8)
        requires
            self.wf(),
        ensures
            self.set_index(n1, n2, n3).wf(),
            self.set_index(n1, n2, n3).grows_from(
                self.settle(SET_INDEX_LEN as nat),
                SET_INDEX_LEN as nat,
            ),
    {
        lemma_single_chunk(self, set_index_bytes(n1, n2, n3), set_index_text(n1, n2, n3));
    }

    /// A placeholder keeps the tables consistent.
    pub proof fn lemma_stub(self, text: Seq<char>)
        requires
            self.wf(),
        ensures
            self.stub(text).wf(),
            self.stub(text).grows_from(
                self.settle(STUB_LEN as nat),
                STUB_LEN as nat,
            ),
    {
        lemma_single_chunk(self, stub_bytes(), text);
    }

    /// SKIP_IF_EQUAL keeps the tables consistent.
    pub proof fn lemma_skip_if_equal(self, x: u8, n2: u8, n3: u8)
        requires
            self.wf(),
        ensures
            self.skip_if_equal(x, n2, n3).wf(),
            self.skip_if_equal(x, n2, n3).grows_from(
                self.settle(COMPARE_LEN as nat),
                COMPARE_LEN as nat,
            ),
    {
        lemma_single_chunk(self, compare_bytes(x, n2, n3), compare_text(x, n2, n3));
    }

    /// ADD_IMMEDIATE keeps the tables consistent.
    pub proof fn lemma_add_immediate(self, x: u8, n2: u8, n3: u8)
        requires
            self.wf(),
        ensures
            self.add_immediate(x, n2, n3).wf(),
            self.add_immediate(x, n2, n3).grows_from(
                self.settle(ADD_LEN as nat),
                ADD_LEN as nat,
            ),
    {
        lemma_single_chunk(self, add_bytes(x, n2, n3), add_text(x, n2, n3));
    }

    /// The chunks of a transfer keep the tables consistent.
    pub proof fn lemma_emit_transfer(self, emitted: nat, offset: nat)
        requires
            self.emitting(emitted),
        ensures
            self.emit_transfer(offset).emitting(emitted + JUMP_LEN as nat),
    {
        let s1 = self.emit(load_page_bytes(), load_page_text());
        let s2 = s1.emit(add_offset_bytes(offset), add_offset_text(offset));
        lemma_emit(self, emitted, load_page_bytes(), load_page_text());
        lemma_emit(s1, emitted + 4, add_offset_bytes(offset), add_offset_text(offset));
        lemma_emit(s2, emitted + 11, indirect_jump_bytes(), indirect_jump_text());
    }

    /// JUMP keeps the tables consistent.
    pub proof fn lemma_jump(self, target: u16)
        requires
            self.wf(),
        ensures
            self.jump(target).wf(),
            self.jump(target).grows_from(
                self.settle(JUMP_LEN as nat),
                JUMP_LEN as nat,
            ),
    {
        let settled = self.settle(JUMP_LEN as nat);
        let offset = settled.host_offset(target);
        lemma_settle(self, JUMP_LEN as nat);
        settled.lemma_emit_transfer(0, offset);
        lemma_record(settled.emit_transfer(offset), JUMP_LEN as nat);
    }

    /// SET_REGISTER keeps the tables consistent.
    pub proof fn lemma_set_register(self, x: u8, n2: u8, n3: u8)
        requires
            self.wf(),
        ensures
            self.set_register(x, n2, n3).wf(),
            self.set_register(x, n2, n3).grows_from(
                self.settle(SET_REGISTER_LEN as nat),
                SET_REGISTER_LEN as nat,
            ),
    {
        lemma_single_chunk(self, set_register_bytes(x, n2, n3), set_register_text(x, n2, n3));
    }

    /// COPY_REGISTER keeps the tables consistent.
    pub proof fn lemma_copy_register(self, x: u8, y: u8)
        requires
            self.wf(),
        ensures
            self.copy_register(x, y).wf(),
            self.copy_register(x, y).grows_from(
                self.settle(COPY_LEN as nat),
                COPY_LEN as nat,
            ),
    {
        let settled = self.settle(COPY_LEN as nat);
        let loaded = settled.emit(load_bytes(y), load_text(y));
        lemma_settle(self, COPY_LEN as nat);
        lemma_emit(settled, 0, load_bytes(y), load_text(y));
        lemma_emit(loaded, 4, store_bytes(x), store_text(x));
        lemma_record(loaded.emit(store_bytes(x), store_text(x)), COPY_LEN as nat);
    }

    /// CALL keeps the tables consistent.
    pub proof fn lemma_call(self, target: u16)
        requires
            self.wf(),
        ensures
            self.call(target).wf(),
            self.call(target).grows_from(
                self.settle(CALL_LEN as nat),
                CALL_LEN as nat,
            ),
    {
        let settled = self.settle(CALL_LEN as nat);
        let pushed = settled.emit(push_bytes(), push_text());
        let offset = settled.host_offset(target);
        lemma_settle(self, CALL_LEN as nat);
        lemma_emit(settled, 0, push_bytes(), push_text());
        pushed.lemma_emit_transfer(5, offset);
        lemma_record(pushed.emit_transfer(offset), CALL_LEN as nat);
    }

    /// A dropped call keeps the tables consistent.
    pub proof fn lemma_drop_call(self, target: u16)
        requires
            self.wf(),
        ensures
            self.drop_call(target).wf(),
            self.drop_call(target).grows_from(self.settle(0), 0),
    {
        lemma_settle(self, 0);
        lemma_record(self.settle(0), 0);
    }
}

} // verus!
