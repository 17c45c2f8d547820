//! The disassembler: mnemonics and program listings.

use crate::emulator::machine::{lemma_unknown_opcode, word, CpuState, Fault, START_ADDR};
use crate::emulator::opcode::{is_unknown, OpCode};
use crate::emulator::text::{hex, push_hex};
use vstd::prelude::*;

verus! {

/// Something that has an assembly mnemonic.
pub trait Decodable {
    /// The mnemonic, as a sequence of characters.
    spec fn mnemonic(&self) -> Seq<char>;

    /// Renders the mnemonic.
    fn decode(&self) -> (text: String)
        ensures
            text@ == self.mnemonic(),
    ;
}

/// The line of a listing for the instruction word `raw`, the one numbered
/// `index` of its program: the address in angle brackets, the word between
/// bars, and the mnemonic.
pub open spec fn listing_line(index: nat, raw: u16) -> Seq<char> {
    "<0x"@ + hex(START_ADDR as nat + 2 * index, 3) + ">  |"@ + hex(raw as nat, 4) + "|  "@
        + OpCode::decoded(raw).mnemonic()
}

/// The listing of a program: one line for each pair of bytes, the first
/// byte of a pair being the high byte of the word. A last byte without a
/// partner is left out.
pub open spec fn listing(program: Seq<u8>) -> Seq<Seq<char>> {
    Seq::new(
        program.len() / 2,
        |i: int| listing_line(i as nat, word(program[2 * i], program[2 * i + 1])),
    )
}

/// The line that announces the execution of `opcode`.
pub open spec fn trace_text(opcode: OpCode) -> Seq<char> {
    "Executing: |"@ + hex(opcode.raw as nat, 4) + "|   "@ + opcode.mnemonic()
}

/// Renders `trace_text`.
pub fn trace_line(opcode: &OpCode) -> (line: String)
    ensures
        line@ == trace_text(*opcode),
{
    let mut line = String::from_str("Executing: |");
    push_hex(&mut line, opcode.raw as usize, 4);
    line.append("|   ");
    let mnemonic = opcode.decode();
    line.append(mnemonic.as_str());
    line
}

/// Renders the listing of a program, a line for each instruction, the
/// addresses from `START_ADDR` on.
pub fn disassemble(program_data: &[u8]) -> (lines: Vec<String>)
    requires
        START_ADDR + program_data@.len() <= usize::MAX,
    ensures
        lines.deep_view() == listing(program_data@),
{
    let count = program_data.len() / 2;
    let mut lines: Vec<String> = Vec::with_capacity(count);

    let mut i: usize = 0;
    while i < count
        invariant
            i <= count,
            count == program_data@.len() / 2,
            START_ADDR + program_data@.len() <= usize::MAX,
            lines@.len() == i,
            forall|j: int|
                0 <= j < i ==> (#[trigger] lines@[j])@ == listing_line(
                    j as nat,
                    word(program_data@[2 * j], program_data@[2 * j + 1]),
                ),
        decreases count - i,
    {
        let raw = (program_data[2 * i] as u16) * 256 + (program_data[2 * i + 1] as u16);
        let addr = START_ADDR + i * 2;

        let mut line = String::from_str("<0x");
        push_hex(&mut line, addr, 3);
        line.append(">  |");
        push_hex(&mut line, raw as usize, 4);
        line.append("|  ");
        let mnemonic = OpCode::new(raw).decode();
        line.append(mnemonic.as_str());
        lines.push(line);
        i += 1;
    }
    assert(lines.deep_view() =~= listing(program_data@));
    lines
}

/// The disassembler and the processor agree on which words are
/// instructions: the mnemonic of the word `raw` begins with `UNKNOWN` if and
/// only if executing the word gives the fault `UnknownOpcode`, in every
/// state and for every random byte.
pub proof fn lemma_disassembler_agrees_with_processor(raw: u16, state: CpuState, random_byte: u8)
    ensures
        is_unknown(OpCode::decoded(raw).mnemonic()) <==> state.execute(
            OpCode::decoded(raw),
            random_byte,
        ) == Err::<CpuState, Fault>(Fault::UnknownOpcode),
{
    let op = OpCode::decoded(raw);
    op.lemma_unknown_mnemonic();
    lemma_unknown_opcode(state, op, random_byte);
}

} // verus!
