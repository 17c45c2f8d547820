//! The emulator: the decoder, the disassembler and the processor, and the
//! two ways to run a program through them.

pub mod cpu;
pub mod disasm;
pub mod display;
pub mod machine;
pub mod opcode;
mod random;
pub mod text;

use crate::emulator::cpu::Cpu;
use crate::emulator::disasm::{disassemble, listing, Decodable};
use crate::emulator::machine::{
    check_program, drawable, CpuError, CpuState, Fault, LoadError, Status, MAX_PROGRAM_SIZE,
};
use crate::emulator::opcode::OpCode;
use crate::emulator::text::{hex, push_hex};
use vstd::prelude::*;

verus! {

/// What the emulator does with a program.
#[derive(Clone, Copy, Debug, PartialEq, Eq)]
pub enum Mode {
    /// Executes the program.
    Emulator,
    /// Lists the program's instructions.
    Disassembler,
}

/// Why the emulator gave up on a program.
#[derive(Clone, Copy, Debug, PartialEq, Eq)]
pub enum EmulatorError {
    /// The program could not be loaded.
    Load(LoadError),
    /// An instruction faulted.
    Cpu(CpuError),
}

/// What the emulator made of a program.
#[derive(Debug)]
pub enum Outcome {
    /// The program was executed: how its last step ended.
    Ran(Status),
    /// The program was listed: the lines of the listing.
    Listing(Vec<String>),
}

/// The result of an operation of the emulator.
pub type EmulatorResult<T> = Result<T, EmulatorError>;

/// The emulator: a processor, and the modes to run a program in.
pub struct Emulator {
    /// The emulated processor.
    cpu: Cpu,
}

/// The text that says why a program could not be loaded.
pub open spec fn load_error_text(error: LoadError) -> Seq<char> {
    match error {
        LoadError::ProgramTooLarge => "Program should have at most 3584 bytes"@,
        LoadError::OddLength => "Buffer should have even byte length"@,
    }
}

/// The name of a fault.
pub open spec fn fault_text(kind: Fault) -> Seq<char> {
    match kind {
        Fault::UnknownOpcode => "Unknown opcode"@,
        Fault::StackOverflow => "Stack overflow"@,
        Fault::MemoryBoundsViolation => "Memory bounds violation"@,
    }
}

/// The text that reports a fault: its name, the address of the instruction,
/// the instruction word and its mnemonic.
pub open spec fn cpu_error_text(error: CpuError) -> Seq<char> {
    fault_text(error.kind) + " at 0x"@ + hex(error.addr as nat, 3) + ": |"@ + hex(
        error.raw as nat,
        4,
    ) + "|   "@ + OpCode::decoded(error.raw).mnemonic()
}

/// The text that says why the emulator gave up.
pub open spec fn error_text(error: EmulatorError) -> Seq<char> {
    match error {
        EmulatorError::Load(error) => load_error_text(error),
        EmulatorError::Cpu(error) => cpu_error_text(error),
    }
}

/// What `Emulator::run` answers when the processor's run ended in `result`.
pub open spec fn run_outcome(result: Result<Status, CpuError>) -> EmulatorResult<Outcome> {
    match result {
        Ok(status) => Ok(Outcome::Ran(status)),
        Err(error) => Err(EmulatorError::Cpu(error)),
    }
}

impl LoadError {
    /// Renders `load_error_text`.
    pub fn message(&self) -> (text: String)
        ensures
            text@ == load_error_text(*self),
    {
        match self {
            LoadError::ProgramTooLarge => String::from_str(
                "Program should have at most 3584 bytes",
            ),
            LoadError::OddLength => String::from_str("Buffer should have even byte length"),
        }
    }
}

impl CpuError {
    /// Renders `cpu_error_text`.
    pub fn message(&self) -> (text: String)
        ensures
            text@ == cpu_error_text(*self),
    {
        let mut text = match self.kind {
            Fault::UnknownOpcode => String::from_str("Unknown opcode"),
            Fault::StackOverflow => String::from_str("Stack overflow"),
            Fault::MemoryBoundsViolation => String::from_str("Memory bounds violation"),
        };
        text.append(" at 0x");
        push_hex(&mut text, self.addr as usize, 3);
        text.append(": |");
        push_hex(&mut text, self.raw as usize, 4);
        text.append("|   ");
        let mnemonic = OpCode::new(self.raw).decode();
        text.append(mnemonic.as_str());
        text
    }
}

impl EmulatorError {
    /// Renders `error_text`.
    pub fn message(&self) -> (text: String)
        ensures
            text@ == error_text(*self),
    {
        match self {
            EmulatorError::Load(error) => error.message(),
            EmulatorError::Cpu(error) => error.message(),
        }
    }
}

/// Tells whether a program can be loaded, and if not, why not.
pub fn check(program_data: &[u8]) -> (result: Result<(), LoadError>)
    ensures
        result == check_program(program_data@.len()),
{
    let program_size = program_data.len();
    if program_size > MAX_PROGRAM_SIZE {
        Err(LoadError::ProgramTooLarge)
    } else if program_size % 2 != 0 {
        Err(LoadError::OddLength)
    } else {
        Ok(())
    }
}

impl View for Emulator {
    type V = CpuState;

    /// The state of the emulated processor.
    closed spec fn view(&self) -> CpuState {
        self.cpu@
    }
}

impl Emulator {
    /// The invariant of the emulator: that of its processor.
    pub closed spec fn wf(&self) -> bool {
        self.cpu.wf()
    }

    /// An emulator whose processor is in the reset state.
    pub fn new() -> (emulator: Self)
        ensures
            emulator.wf(),
            emulator@ == CpuState::reset(),
    {
        let cpu = Cpu::new();

        Self { cpu }
    }

    /// The emulated processor.
    pub fn cpu(&self) -> (cpu: &Cpu)
        ensures
            cpu@ == self@,
            cpu.wf() == self.wf(),
    {
        &self.cpu
    }

    /// Runs the program `program_data` in the given mode.
    ///
    /// A program that cannot be loaded is refused in either mode, and the
    /// processor stays as it was. In `Disassembler` mode the answer is the
    /// listing of the program, and the processor stays as it was. In
    /// `Emulator` mode the program is loaded and run for at most
    /// `max_steps` steps: the answer is how the last step ended,
    /// or the fault that stopped the run.
    pub fn run(&mut self, mode: Mode, program_data: &[u8], max_steps: usize) -> (result:
        EmulatorResult<Outcome>)
        requires
            old(self).wf(),
        ensures
            final(self).wf(),
            check_program(program_data@.len()) matches Err(error) ==> {
                &&& result matches Err(EmulatorError::Load(e)) && e == error
                &&& final(self)@ == old(self)@
            },
            check_program(program_data@.len()) is Ok && mode == Mode::Disassembler ==> {
                &&& result matches Ok(Outcome::Listing(lines)) && lines.deep_view() == listing(
                    program_data@,
                )
                &&& final(self)@ == old(self)@
            },
            check_program(program_data@.len()) is Ok && mode == Mode::Emulator ==> exists|
                random_bytes: Seq<u8>,
            |
                {
                    &&& random_bytes.len() == max_steps
                    &&& drawable(random_bytes)
                    &&& final(self)@ == (#[trigger] old(self)@.load(program_data@).run(
                        random_bytes,
                        max_steps as nat,
                    )).0
                    &&& result == run_outcome(
                        old(self)@.load(program_data@).run(random_bytes, max_steps as nat).1,
                    )
                },
    {
        match check(program_data) {
            Err(error) => Err(EmulatorError::Load(error)),
            Ok(()) => match mode {
                Mode::Emulator => self.emulate(program_data, max_steps),
                Mode::Disassembler => Ok(Outcome::Listing(disassemble(program_data))),
            },
        }
    }

    /// Loads the program and runs it for at most `max_steps` steps.
    fn emulate(&mut self, program_data: &[u8], max_steps: usize) -> (result: EmulatorResult<
        Outcome,
    >)
        requires
            old(self).wf(),
            check_program(program_data@.len()) is Ok,
        ensures
            final(self).wf(),
            exists|random_bytes: Seq<u8>|
                {
                    &&& random_bytes.len() == max_steps
                    &&& drawable(random_bytes)
                    &&& final(self)@ == (#[trigger] old(self)@.load(program_data@).run(
                        random_bytes,
                        max_steps as nat,
                    )).0
                    &&& result == run_outcome(
                        old(self)@.load(program_data@).run(random_bytes, max_steps as nat).1,
                    )
                },
    {
        match self.cpu.load_program(program_data) {
            Err(error) => Err(EmulatorError::Load(error)),
            Ok(()) => {
                let ghost loaded = self@;
                let stopped = self.cpu.run(max_steps);
                let result = match stopped {
                    Ok(status) => Ok(Outcome::Ran(status)),
                    Err(error) => Err(EmulatorError::Cpu(error)),
                };
                proof {
                    let random_bytes = choose|random_bytes: Seq<u8>|
                        random_bytes.len() == max_steps && drawable(random_bytes) && (
                            self@,
                            stopped,
                        ) == #[trigger] loaded.run(random_bytes, max_steps as nat);
                    assert(self@ == old(self)@.load(program_data@).run(
                        random_bytes,
                        max_steps as nat,
                    ).0);
                }
                result
            },
        }
    }
}

} // verus!
