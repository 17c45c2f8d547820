//! The processor: the machine's state in arrays, and the code that steps it.

use crate::emulator::display::{draw_sprite, DISPLAY_SIZE};
use crate::emulator::machine::{
    check_program, drawable, first_key_down, glyph, lemma_run_reads_prefix, lemma_run_stays,
    reset_byte, CpuError, CpuState, Fault, LoadError, Status, FONT_ADDR, GLYPH_SIZE, KEY_COUNT,
    MAX_PROGRAM_SIZE, RAM_SIZE, REGISTER_COUNT, STACK_SIZE, START_ADDR,
};
use crate::emulator::opcode::{lemma_decoded, OpCode};
use crate::emulator::random::random_in_range;
use vstd::prelude::*;
use vstd::slice::slice_subrange;

verus! {

/// The emulated processor.
pub struct Cpu {
    /// The memory.
    memory: [u8; RAM_SIZE],
    /// The general-purpose registers.
    registers: [u8; REGISTER_COUNT],
    /// The index register, which holds a memory address.
    register_i: u16,
    /// The program counter: the address of the next instruction.
    pc: u16,
    /// The stack pointer: the number of return addresses on the stack.
    sp: u8,
    /// The return addresses; those below `sp` are in use.
    stack: [u16; STACK_SIZE],
    /// The delay timer.
    dt: u8,
    /// The sound timer.
    st: u8,
    /// The display, row by row.
    display: [bool; DISPLAY_SIZE],
    /// The keys; `true` for a key that is down.
    keys: [bool; KEY_COUNT],
    /// Whether a wait for a key has seen every key up.
    armed: bool,
}

/// The rows of the font's glyph for `digit`.
fn glyph_rows(digit: u8) -> (rows: [u8; GLYPH_SIZE])
    requires
        digit < 16,
    ensures
        rows@ == glyph(digit as int),
{
    let rows: [u8; GLYPH_SIZE] = match digit {
        0x0 => [0xF0, 0x90, 0x90, 0x90, 0xF0],
        0x1 => [0x20, 0x60, 0x20, 0x20, 0x70],
        0x2 => [0xF0, 0x10, 0xF0, 0x80, 0xF0],
        0x3 => [0xF0, 0x10, 0xF0, 0x10, 0xF0],
        0x4 => [0x90, 0x90, 0xF0, 0x10, 0x10],
        0x5 => [0xF0, 0x80, 0xF0, 0x10, 0xF0],
        0x6 => [0xF0, 0x80, 0xF0, 0x90, 0xF0],
        0x7 => [0xF0, 0x10, 0x20, 0x40, 0x40],
        0x8 => [0xF0, 0x90, 0xF0, 0x90, 0xF0],
        0x9 => [0xF0, 0x90, 0xF0, 0x10, 0xF0],
        0xA => [0xF0, 0x90, 0xF0, 0x90, 0x90],
        0xB => [0xE0, 0x90, 0xE0, 0x90, 0xE0],
        0xC => [0xF0, 0x80, 0x80, 0x80, 0xF0],
        0xD => [0xE0, 0x90, 0x90, 0x90, 0xE0],
        0xE => [0xF0, 0x80, 0xF0, 0x80, 0xF0],
        _ => [0xF0, 0x80, 0xF0, 0x80, 0x80],
    };
    assert(rows@ =~= glyph(digit as int));
    rows
}

/// Copies the first `count` bytes of `source` into `memory`, from `start`
/// on.
fn copy_bytes(memory: &mut [u8; RAM_SIZE], start: usize, source: &[u8], count: usize)
    requires
        count <= source@.len(),
        start + count <= RAM_SIZE,
    ensures
        final(memory)@ == Seq::new(
            RAM_SIZE as nat,
            |addr: int|
                if start <= addr < start + count {
                    source@[addr - start]
                } else {
                    old(memory)@[addr]
                },
        ),
{
    let ghost before = memory@;
    let mut i: usize = 0;
    while i < count
        invariant
            i <= count,
            count <= source@.len(),
            start + count <= RAM_SIZE,
            forall|addr: int|
                0 <= addr < RAM_SIZE ==> memory@[addr] == if start <= addr < start + i {
                    source@[addr - start]
                } else {
                    before[addr]
                },
        decreases count - i,
    {
        memory[start + i] = source[i];
        i += 1;
    }
    assert(memory@ =~= Seq::new(
        RAM_SIZE as nat,
        |addr: int|
            if start <= addr < start + count {
                source@[addr - start]
            } else {
                before[addr]
            },
    ));
}

/// Copies `count` bytes of `memory`, from `start` on, into the first
/// `count` registers.
fn fill_registers(
    registers: &mut [u8; REGISTER_COUNT],
    memory: &[u8; RAM_SIZE],
    start: usize,
    count: usize,
)
    requires
        count <= REGISTER_COUNT,
        start + count <= RAM_SIZE,
    ensures
        final(registers)@ == Seq::new(
            REGISTER_COUNT as nat,
            |r: int|
                if r < count {
                    memory@[start + r]
                } else {
                    old(registers)@[r]
                },
        ),
{
    let ghost before = registers@;
    let mut i: usize = 0;
    while i < count
        invariant
            i <= count,
            count <= REGISTER_COUNT,
            start + count <= RAM_SIZE,
            forall|r: int|
                0 <= r < REGISTER_COUNT ==> registers@[r] == if r < i {
                    memory@[start + r]
                } else {
                    before[r]
                },
        decreases count - i,
    {
        registers[i] = memory[start + i];
        i += 1;
    }
    assert(registers@ =~= Seq::new(
        REGISTER_COUNT as nat,
        |r: int|
            if r < count {
                memory@[start + r]
            } else {
                before[r]
            },
    ));
}

/// The lowest key that is down, or the number of keys if none is.
fn lowest_key_down(keys: &[bool; KEY_COUNT]) -> (key: usize)
    ensures
        key == first_key_down(keys@, 0),
{
    let mut key: usize = 0;
    while key < KEY_COUNT && !keys[key]
        invariant
            key <= KEY_COUNT,
            first_key_down(keys@, 0) == first_key_down(keys@, key as int),
        decreases KEY_COUNT - key,
    {
        key += 1;
    }
    key
}

/// Whether `after` and `result` are what `expected` asks for: the next
/// state and success, or the fault and the state as it was.
spec fn agrees(
    before: CpuState,
    expected: Result<CpuState, Fault>,
    after: CpuState,
    result: Result<(), Fault>,
) -> bool {
    match expected {
        Ok(next) => result is Ok && after == next,
        Err(kind) => result == Err::<(), Fault>(kind) && after == before,
    }
}

impl View for Cpu {
    type V = CpuState;

    /// The state of the machine that the processor is in.
    closed spec fn view(&self) -> CpuState {
        CpuState {
            memory: self.memory@,
            registers: self.registers@,
            index: self.register_i,
            pc: self.pc,
            stack: self.stack@.subrange(0, self.sp as int),
            delay: self.dt,
            sound: self.st,
            display: self.display@,
            keys: self.keys@,
            armed: self.armed,
        }
    }
}

impl Cpu {
    /// The invariant of the processor: the stack pointer is within the
    /// stack, and the index register within memory.
    pub closed spec fn wf(&self) -> bool {
        &&& self.sp <= STACK_SIZE
        &&& self.register_i < RAM_SIZE
    }

    /// The state of a processor that keeps its invariant is well-formed.
    pub proof fn lemma_view_wf(&self)
        requires
            self.wf(),
        ensures
            self@.wf(),
    {
    }

    /// A processor in the reset state.
    pub fn new() -> (cpu: Self)
        ensures
            cpu.wf(),
            cpu@ == CpuState::reset(),
    {
        let mut memory = [0u8; RAM_SIZE];
        let registers = [0u8; REGISTER_COUNT];
        let stack = [0u16; STACK_SIZE];
        let display = [false; DISPLAY_SIZE];
        let keys = [false; KEY_COUNT];
        let pc = START_ADDR as u16;

        let mut digit: u8 = 0;
        while digit < 16
            invariant
                digit <= 16,
                forall|addr: int|
                    0 <= addr < FONT_ADDR + digit * GLYPH_SIZE ==> memory[addr] == reset_byte(addr),
                forall|addr: int|
                    FONT_ADDR + digit * GLYPH_SIZE <= addr < RAM_SIZE ==> memory[addr] == 0,
            decreases 16 - digit,
        {
            let rows = glyph_rows(digit);
            let base: usize = FONT_ADDR + digit as usize * GLYPH_SIZE;
            let mut row: usize = 0;
            while row < GLYPH_SIZE
                invariant
                    digit < 16,
                    row <= GLYPH_SIZE,
                    base == FONT_ADDR + digit * GLYPH_SIZE,
                    rows@ == glyph(digit as int),
                    forall|addr: int| 0 <= addr < base + row ==> memory[addr] == reset_byte(addr),
                    forall|addr: int| base + row <= addr < RAM_SIZE ==> memory[addr] == 0,
                decreases GLYPH_SIZE - row,
            {
                memory[base + row] = rows[row];
                row += 1;
            }
            digit += 1;
        }

        let cpu = Self {
            memory,
            registers,
            register_i: 0,
            pc,
            sp: 0,
            stack,
            dt: 0,
            st: 0,
            display,
            keys,
            armed: false,
        };
        assert(cpu@.memory =~= CpuState::reset().memory);
        assert(cpu@.registers =~= CpuState::reset().registers);
        assert(cpu@.stack =~= CpuState::reset().stack);
        assert(cpu@.display =~= CpuState::reset().display);
        assert(cpu@.keys =~= CpuState::reset().keys);
        cpu
    }
}

impl Cpu {
    /// Loads a program: copies `program_data` into memory from `START_ADDR`
    /// on. A program of more than `MAX_PROGRAM_SIZE` bytes, or of an odd
    /// number of bytes, is refused, and nothing changes.
    pub fn load_program(&mut self, program_data: &[u8]) -> (result: Result<(), LoadError>)
        requires
            old(self).wf(),
        ensures
            final(self).wf(),
            result == check_program(program_data@.len()),
            final(self)@ == if result is Ok {
                old(self)@.load(program_data@)
            } else {
                old(self)@
            },
    {
        let program_size = program_data.len();
        if program_size > MAX_PROGRAM_SIZE {
            return Err(LoadError::ProgramTooLarge);
        }
        if program_size % 2 != 0 {
            return Err(LoadError::OddLength);
        }
        copy_bytes(&mut self.memory, START_ADDR, program_data, program_size);
        self.armed = false;
        assert(self@.memory =~= old(self)@.load(program_data@).memory);
        Ok(())
    }

    /// One step with the random byte given: the instruction at the program
    /// counter is fetched and executed, with `random_byte` as what `RND`
    /// draws. See `CpuState::step`.
    pub fn step_with(&mut self, random_byte: u8) -> (result: Result<Status, CpuError>)
        requires
            old(self).wf(),
        ensures
            final(self).wf(),
            (final(self)@, result) == old(self)@.step(random_byte),
    {
        if self.pc as usize + 2 > RAM_SIZE {
            return Ok(Status::Halt);
        }
        let opcode = self.fetch();
        let addr = self.pc;
        self.pc += 2;
        match self.execute(&opcode, random_byte) {
            Ok(()) => Ok(Status::Continue),
            Err(kind) => {
                self.pc = addr;
                Err(CpuError { kind, addr, raw: opcode.raw })
            },
        }
    }

    /// The instruction that the next step executes, or `None` if the
    /// processor has halted.
    pub fn peek(&self) -> (next: Option<OpCode>)
        requires
            self.wf(),
        ensures
            next == if self@.halted() {
                None
            } else {
                Some(OpCode::decoded(self@.fetch()))
            },
    {
        if self.pc as usize + 2 > RAM_SIZE {
            None
        } else {
            Some(self.fetch())
        }
    }

    /// Whether the next step executes `RND`.
    fn draws_random_byte(&self) -> (draws: bool)
        requires
            self.wf(),
        ensures
            draws == (!self@.halted() && OpCode::decoded(self@.fetch()).class == 0xC),
    {
        match self.peek() {
            Some(opcode) => opcode.class == 0xC,
            None => false,
        }
    }

    /// One step: the instruction at the program counter is fetched and
    /// executed. What `RND` draws is a byte from 0 to 254 from the random
    /// generator; the step is `CpuState::step` for the byte that came.
    pub fn step(&mut self) -> (result: Result<Status, CpuError>)
        requires
            old(self).wf(),
        ensures
            final(self).wf(),
            exists|random_byte: u8|
                random_byte < 255 && (final(self)@, result) == #[trigger] old(self)@.step(
                    random_byte,
                ),
    {
        let random_byte = if self.draws_random_byte() {
            random_in_range(0, 255)
        } else {
            0
        };
        self.step_with(random_byte)
    }

    /// Runs the program: takes steps until one halts or faults, or until
    /// `max_steps` steps are taken. The result is that of the last step
    /// taken, and `Continue` if none was taken. The run is
    /// `CpuState::run` for the random bytes that came.
    pub fn run(&mut self, max_steps: usize) -> (result: Result<Status, CpuError>)
        requires
            old(self).wf(),
        ensures
            final(self).wf(),
            exists|random_bytes: Seq<u8>|
                random_bytes.len() == max_steps && drawable(random_bytes) && (final(self)@, result)
                    == #[trigger] old(self)@.run(random_bytes, max_steps as nat),
    {
        let ghost start = self@;
        let ghost mut drawn: Seq<u8> = Seq::empty();
        let mut steps: usize = 0;
        while steps < max_steps
            invariant
                steps <= max_steps,
                self.wf(),
                start == old(self)@,
                drawn.len() == steps,
                drawable(drawn),
                (self@, Ok::<Status, CpuError>(Status::Continue)) == start.run(drawn, steps as nat),
            decreases max_steps - steps,
        {
            let ghost before = self@;
            let result = self.step();
            proof {
                let random_byte = choose|random_byte: u8|
                    random_byte < 255 && (self@, result) == #[trigger] before.step(random_byte);
                let longer = drawn.push(random_byte);
                lemma_run_reads_prefix(start, drawn, longer, steps as nat);
                drawn = longer;
            }
            steps += 1;
            match result {
                Ok(Status::Continue) => {},
                _ => {
                    proof {
                        let padded = drawn + Seq::new((max_steps - steps) as nat, |i: int| 0u8);
                        lemma_run_reads_prefix(start, drawn, padded, steps as nat);
                        lemma_run_stays(start, padded, steps as nat, max_steps as nat);
                        assert(padded.len() == max_steps && drawable(padded));
                        assert((self@, result) == start.run(padded, max_steps as nat));
                    }
                    return result;
                },
            }
        }
        proof {
            assert(drawn.len() == max_steps && drawable(drawn));
        }
        Ok(Status::Continue)
    }

    /// One tick of the 60 Hz clock: each timer that is not zero goes down
    /// by one. Nothing else changes, whatever the processor is doing.
    pub fn tick_timers(&mut self)
        requires
            old(self).wf(),
        ensures
            final(self).wf(),
            final(self)@ == old(self)@.tick(),
    {
        if self.dt > 0 {
            self.dt -= 1;
        }
        if self.st > 0 {
            self.st -= 1;
        }
    }

    /// Sets key `index` down or up. An index above fifteen is ignored.
    pub fn set_key(&mut self, index: usize, pressed: bool)
        requires
            old(self).wf(),
        ensures
            final(self).wf(),
            final(self)@ == old(self)@.with_key(index as int, pressed),
    {
        if index < KEY_COUNT {
            self.keys[index] = pressed;
        }
    }

    /// The display, row by row: pixel (x, y) is element `y * 64 + x`.
    pub fn get_display(&self) -> (display: &[bool; DISPLAY_SIZE])
        ensures
            display@ == self@.display,
    {
        &self.display
    }

    /// The sound timer. While it is not zero, a tone should sound.
    pub fn get_sound_timer(&self) -> (sound: u8)
        ensures
            sound == self@.sound,
    {
        self.st
    }

    /// The delay timer.
    pub fn get_delay_timer(&self) -> (delay: u8)
        ensures
            delay == self@.delay,
    {
        self.dt
    }

    /// The memory.
    pub fn get_memory(&self) -> (memory: &[u8; RAM_SIZE])
        ensures
            memory@ == self@.memory,
    {
        &self.memory
    }

    /// The registers V0 to VF.
    pub fn get_registers(&self) -> (registers: &[u8; REGISTER_COUNT])
        ensures
            registers@ == self@.registers,
    {
        &self.registers
    }

    /// The index register.
    pub fn get_index(&self) -> (index: u16)
        ensures
            index == self@.index,
    {
        self.register_i
    }

    /// The program counter.
    pub fn get_pc(&self) -> (pc: u16)
        ensures
            pc == self@.pc,
    {
        self.pc
    }

    /// The number of return addresses on the stack.
    pub fn get_stack_depth(&self) -> (depth: usize)
        requires
            self.wf(),
        ensures
            depth == self@.stack.len(),
    {
        self.sp as usize
    }
}

impl Cpu {
    /// The instruction at the program counter, decoded.
    #[inline(always)]
    fn fetch(&self) -> (opcode: OpCode)
        requires
            self.wf(),
            !self@.halted(),
        ensures
            opcode == OpCode::decoded(self@.fetch()),
    {
        let pos = self.pc as usize;
        let raw = (self.memory[pos] as u16) * 256 + (self.memory[pos + 1] as u16);

        OpCode::new(raw)
    }

    /// Executes `opcode`, which was fetched from just before the program
    /// counter.
    #[inline(always)]
    fn execute(&mut self, opcode: &OpCode, random_byte: u8) -> (result: Result<(), Fault>)
        requires
            old(self).wf(),
            opcode.wf(),
            2 <= old(self)@.pc <= RAM_SIZE,
        ensures
            final(self).wf(),
            agrees(
                old(self)@,
                old(self)@.execute(*opcode, random_byte),
                final(self)@,
                result,
            ),
    {
        match opcode.class {
            0x0 => self.execute_0xxx(opcode),
            0x1 => self.execute_0nnn(opcode),
            0x2 => self.execute_0nnn(opcode),
            0x3 => self.execute_xkk(opcode, random_byte),
            0x4 => self.execute_xkk(opcode, random_byte),
            0x5 => self.execute_xy(opcode),
            0x6 => self.execute_xkk(opcode, random_byte),
            0x7 => self.execute_xkk(opcode, random_byte),
            0x8 => self.execute_xy(opcode),
            0x9 => self.execute_xy(opcode),
            0xA => self.execute_0nnn(opcode),
            0xB => self.execute_0nnn(opcode),
            0xC => self.execute_xkk(opcode, random_byte),
            0xD => self.execute_xy(opcode),
            0xE => self.execute_ex(opcode),
            0xF => self.execute_fx(opcode),
            _ => self.unknown(),
        }
    }

    /// The answer to a word that names no instruction.
    #[inline(always)]
    fn unknown(&self) -> (result: Result<(), Fault>)
        ensures
            result == Err::<(), Fault>(Fault::UnknownOpcode),
    {
        Err(Fault::UnknownOpcode)
    }

    /// Executes a word of class 0.
    #[inline(always)]
    fn execute_0xxx(&mut self, opcode: &OpCode) -> (result: Result<(), Fault>)
        requires
            old(self).wf(),
        ensures
            final(self).wf(),
            agrees(old(self)@, old(self)@.execute_0xxx(*opcode), final(self)@, result),
    {
        match opcode.raw {
            0x00E0 => self.clear_display(),
            0x00EE => self.ret(),
            _ => self.sys(opcode.addr),
        }
        Ok(())
    }

    /// Clears the display.
    #[inline(always)]
    fn clear_display(&mut self)
        requires
            old(self).wf(),
        ensures
            final(self).wf(),
            final(self)@ == old(self)@.clear_display(),
    {
        self.display = [false; DISPLAY_SIZE];
        assert(self@.display =~= old(self)@.clear_display().display);
    }

    /// Returns from a subroutine.
    #[inline(always)]
    fn ret(&mut self)
        requires
            old(self).wf(),
        ensures
            final(self).wf(),
            final(self)@ == old(self)@.ret(),
    {
        if self.sp > 0 {
            self.sp -= 1;
            self.pc = self.stack[self.sp as usize];
            assert(self@.stack =~= old(self)@.stack.drop_last());
        }
    }

    /// Jumps to a machine code routine: ignored, as the routines of the
    /// first CHIP-8 computers do not exist here.
    #[inline(always)]
    fn sys(&self, _addr: u16) {
    }

    /// Executes a word whose operand is an address.
    #[inline(always)]
    fn execute_0nnn(&mut self, opcode: &OpCode) -> (result: Result<(), Fault>)
        requires
            old(self).wf(),
            opcode.wf(),
        ensures
            final(self).wf(),
            agrees(old(self)@, old(self)@.execute_0nnn(*opcode), final(self)@, result),
    {
        let addr = opcode.addr;
        proof {
            lemma_decoded(opcode.raw);
        }

        match opcode.class {
            0x1 => {
                self.jump(addr);
                Ok(())
            },
            0x2 => self.call(addr),
            0xA => {
                self.set_reg_i(addr);
                Ok(())
            },
            0xB => {
                self.jump_by_offset(addr);
                Ok(())
            },
            _ => self.unknown(),
        }
    }

    /// Jumps to `addr`.
    #[inline(always)]
    fn jump(&mut self, addr: u16)
        requires
            old(self).wf(),
        ensures
            final(self).wf(),
            final(self)@ == old(self)@.jump(addr),
    {
        self.pc = addr;
    }

    /// Calls the subroutine at `addr`.
    #[inline(always)]
    fn call(&mut self, addr: u16) -> (result: Result<(), Fault>)
        requires
            old(self).wf(),
        ensures
            final(self).wf(),
            agrees(old(self)@, old(self)@.call(addr), final(self)@, result),
    {
        if self.sp as usize >= STACK_SIZE {
            return Err(Fault::StackOverflow);
        }
        self.stack[self.sp as usize] = self.pc;
        self.sp += 1;
        self.pc = addr;
        assert(self@.stack =~= old(self)@.stack.push(old(self)@.pc));
        Ok(())
    }

    /// Sets the index register.
    #[inline(always)]
    fn set_reg_i(&mut self, addr: u16)
        requires
            old(self).wf(),
            addr < RAM_SIZE,
        ensures
            final(self).wf(),
            final(self)@ == old(self)@.set_reg_i(addr),
    {
        self.register_i = addr;
    }

    /// Jumps to `addr` plus V0.
    #[inline(always)]
    fn jump_by_offset(&mut self, addr: u16)
        requires
            old(self).wf(),
            addr < RAM_SIZE,
        ensures
            final(self).wf(),
            final(self)@ == old(self)@.jump_by_offset(addr),
    {
        self.pc = self.registers[0] as u16 + addr;
    }

    /// Executes a word whose operands are a register and a byte.
    #[inline(always)]
    fn execute_xkk(&mut self, opcode: &OpCode, random_byte: u8) -> (result: Result<(), Fault>)
        requires
            old(self).wf(),
            opcode.wf(),
            old(self)@.pc <= RAM_SIZE,
        ensures
            final(self).wf(),
            agrees(
                old(self)@,
                old(self)@.execute_xkk(*opcode, random_byte),
                final(self)@,
                result,
            ),
    {
        let reg_x = opcode.reg_x;
        let byte = opcode.byte;
        proof {
            lemma_decoded(opcode.raw);
        }

        match opcode.class {
            0x3 => self.skip_eq(reg_x, byte),
            0x4 => self.skip_ne(reg_x, byte),
            0x6 => self.set_reg_byte(reg_x, byte),
            0x7 => self.add_reg_byte(reg_x, byte),
            0xC => self.rnd(reg_x, byte, random_byte),
            _ => {
                return self.unknown();
            },
        }
        Ok(())
    }

    /// Skips the next instruction if register `reg` holds `byte`.
    #[inline(always)]
    fn skip_eq(&mut self, reg: u8, byte: u8)
        requires
            old(self).wf(),
            reg < REGISTER_COUNT,
            old(self)@.pc <= RAM_SIZE,
        ensures
            final(self).wf(),
            final(self)@ == old(self)@.skip_if(old(self)@.reg(reg) == byte),
    {
        if self.registers[reg as usize] == byte {
            self.pc += 2;
        }
    }

    /// Skips the next instruction if register `reg` does not hold `byte`.
    #[inline(always)]
    fn skip_ne(&mut self, reg: u8, byte: u8)
        requires
            old(self).wf(),
            reg < REGISTER_COUNT,
            old(self)@.pc <= RAM_SIZE,
        ensures
            final(self).wf(),
            final(self)@ == old(self)@.skip_if(old(self)@.reg(reg) != byte),
    {
        if self.registers[reg as usize] != byte {
            self.pc += 2;
        }
    }

    /// Puts `byte` into register `reg`.
    #[inline(always)]
    fn set_reg_byte(&mut self, reg: u8, byte: u8)
        requires
            old(self).wf(),
            reg < REGISTER_COUNT,
        ensures
            final(self).wf(),
            final(self)@ == old(self)@.with_reg(reg, byte),
    {
        self.registers[reg as usize] = byte;
    }

    /// Adds `byte` to register `reg`, modulo 256.
    #[inline(always)]
    fn add_reg_byte(&mut self, reg: u8, byte: u8)
        requires
            old(self).wf(),
            reg < REGISTER_COUNT,
        ensures
            final(self).wf(),
            final(self)@ == old(self)@.add_reg_byte(reg, byte),
    {
        let sum: u16 = self.registers[reg as usize] as u16 + byte as u16;
        self.registers[reg as usize] = (sum % 256) as u8;
    }

    /// Puts `random_byte`, masked by `byte`, into register `reg`.
    #[inline(always)]
    fn rnd(&mut self, reg: u8, byte: u8, random_byte: u8)
        requires
            old(self).wf(),
            reg < REGISTER_COUNT,
        ensures
            final(self).wf(),
            final(self)@ == old(self)@.rnd(reg, byte, random_byte),
    {
        self.registers[reg as usize] = random_byte & byte;
    }
}

impl Cpu {
    /// Executes a word whose operands are two registers.
    #[inline(always)]
    fn execute_xy(&mut self, opcode: &OpCode) -> (result: Result<(), Fault>)
        requires
            old(self).wf(),
            opcode.wf(),
            old(self)@.pc <= RAM_SIZE,
        ensures
            final(self).wf(),
            agrees(old(self)@, old(self)@.execute_xy(*opcode), final(self)@, result),
    {
        let reg_x = opcode.reg_x;
        let reg_y = opcode.reg_y;
        let nibble = opcode.nibble;
        proof {
            lemma_decoded(opcode.raw);
        }

        match opcode.class {
            0x5 => match nibble {
                0x0 => {
                    let byte = self.registers[reg_y as usize];
                    self.skip_eq(reg_x, byte);
                    Ok(())
                },
                _ => self.unknown(),
            },
            0x8 => self.execute_8xy(opcode),
            0x9 => match nibble {
                0x0 => {
                    let byte = self.registers[reg_y as usize];
                    self.skip_ne(reg_x, byte);
                    Ok(())
                },
                _ => self.unknown(),
            },
            0xD => self.draw(reg_x, reg_y, nibble),
            _ => self.unknown(),
        }
    }

    /// Executes a word of class 8.
    #[inline(always)]
    fn execute_8xy(&mut self, opcode: &OpCode) -> (result: Result<(), Fault>)
        requires
            old(self).wf(),
            opcode.wf(),
        ensures
            final(self).wf(),
            agrees(old(self)@, old(self)@.execute_8xy(*opcode), final(self)@, result),
    {
        let reg_x = opcode.reg_x;
        let reg_y = opcode.reg_y;
        proof {
            lemma_decoded(opcode.raw);
        }
        let vx = self.registers[reg_x as usize];
        let vy = self.registers[reg_y as usize];

        match opcode.nibble {
            0x0 => self.set_reg_byte(reg_x, vy),
            0x1 => self.set_reg_byte(reg_x, vx | vy),
            0x2 => self.set_reg_byte(reg_x, vx & vy),
            0x3 => self.set_reg_byte(reg_x, vx ^ vy),
            0x4 => self.add_regs(reg_x, reg_y),
            0x5 => self.sub_regs(reg_x, reg_y),
            0x6 => self.shift_right(reg_x),
            0x7 => self.subn_regs(reg_x, reg_y),
            0xE => self.shift_left(reg_x),
            _ => {
                return self.unknown();
            },
        }
        Ok(())
    }

    /// Puts `value` into register `reg`, and then the flag into VF.
    #[inline(always)]
    fn set_result(&mut self, reg: u8, value: u8, flag: bool)
        requires
            old(self).wf(),
            reg < REGISTER_COUNT,
        ensures
            final(self).wf(),
            final(self)@ == old(self)@.with_result(reg, value, flag),
    {
        self.registers[reg as usize] = value;
        self.registers[0xF] = if flag { 1 } else { 0 };
    }

    /// Adds register `reg_y` to register `reg_x`; VF tells of a carry.
    #[inline(always)]
    fn add_regs(&mut self, reg_x: u8, reg_y: u8)
        requires
            old(self).wf(),
            reg_x < REGISTER_COUNT,
            reg_y < REGISTER_COUNT,
        ensures
            final(self).wf(),
            final(self)@ == old(self)@.add_regs(reg_x, reg_y),
    {
        let vx = self.registers[reg_x as usize];
        let vy = self.registers[reg_y as usize];
        let sum: u16 = vx as u16 + vy as u16;
        self.set_result(reg_x, (sum % 256) as u8, sum > 255);
    }

    /// Subtracts register `reg_y` from register `reg_x`; VF tells that
    /// nothing was borrowed.
    #[inline(always)]
    fn sub_regs(&mut self, reg_x: u8, reg_y: u8)
        requires
            old(self).wf(),
            reg_x < REGISTER_COUNT,
            reg_y < REGISTER_COUNT,
        ensures
            final(self).wf(),
            final(self)@ == old(self)@.sub_regs(reg_x, reg_y),
    {
        let vx = self.registers[reg_x as usize];
        let vy = self.registers[reg_y as usize];
        let difference: u16 = (256 + vx as u16 - vy as u16) % 256;
        self.set_result(reg_x, difference as u8, vx >= vy);
    }

    /// Puts register `reg_y` minus register `reg_x` into register `reg_x`;
    /// VF tells that nothing was borrowed.
    #[inline(always)]
    fn subn_regs(&mut self, reg_x: u8, reg_y: u8)
        requires
            old(self).wf(),
            reg_x < REGISTER_COUNT,
            reg_y < REGISTER_COUNT,
        ensures
            final(self).wf(),
            final(self)@ == old(self)@.subn_regs(reg_x, reg_y),
    {
        let vx = self.registers[reg_x as usize];
        let vy = self.registers[reg_y as usize];
        let difference: u16 = (256 + vy as u16 - vx as u16) % 256;
        self.set_result(reg_x, difference as u8, vy >= vx);
    }

    /// Shifts register `reg` right by one bit; VF is the bit that fell out.
    #[inline(always)]
    fn shift_right(&mut self, reg: u8)
        requires
            old(self).wf(),
            reg < REGISTER_COUNT,
        ensures
            final(self).wf(),
            final(self)@ == old(self)@.shift_right(reg),
    {
        let vx = self.registers[reg as usize];
        assert(vx >> 1 == vx / 2) by (bit_vector);
        assert((vx & 1 == 1) == (vx % 2 == 1)) by (bit_vector);
        self.set_result(reg, vx >> 1, vx & 1 == 1);
    }

    /// Shifts register `reg` left by one bit; VF is the bit that fell out.
    #[inline(always)]
    fn shift_left(&mut self, reg: u8)
        requires
            old(self).wf(),
            reg < REGISTER_COUNT,
        ensures
            final(self).wf(),
            final(self)@ == old(self)@.shift_left(reg),
    {
        let vx = self.registers[reg as usize];
        assert((vx & 0x7F) << 1 == (vx * 2) % 256) by (bit_vector);
        assert((vx & 0x80 != 0) == (vx >= 128)) by (bit_vector);
        self.set_result(reg, (vx & 0x7F) << 1, vx & 0x80 != 0);
    }

    /// Draws the sprite of `height` rows at the index register, at the
    /// place that registers `reg_x` and `reg_y` give; VF tells of a
    /// collision.
    #[inline(always)]
    fn draw(&mut self, reg_x: u8, reg_y: u8, height: u8) -> (result: Result<(), Fault>)
        requires
            old(self).wf(),
            reg_x < REGISTER_COUNT,
            reg_y < REGISTER_COUNT,
        ensures
            final(self).wf(),
            agrees(
                old(self)@,
                old(self)@.draw_sprite(reg_x, reg_y, height),
                final(self)@,
                result,
            ),
    {
        let start = self.register_i as usize;
        if start + height as usize > RAM_SIZE {
            return Err(Fault::MemoryBoundsViolation);
        }
        let x0 = (self.registers[reg_x as usize] % 64) as usize;
        let y0 = (self.registers[reg_y as usize] % 32) as usize;
        let sprite = slice_subrange(self.memory.as_slice(), start, start + height as usize);
        let collision = draw_sprite(&mut self.display, sprite, x0, y0);
        self.registers[0xF] = if collision { 1 } else { 0 };
        Ok(())
    }

    /// Executes a word of class E.
    fn execute_ex(&mut self, opcode: &OpCode) -> (result: Result<(), Fault>)
        requires
            old(self).wf(),
            opcode.wf(),
            old(self)@.pc <= RAM_SIZE,
        ensures
            final(self).wf(),
            agrees(old(self)@, old(self)@.execute_ex(*opcode), final(self)@, result),
    {
        let reg_x = opcode.reg_x;
        proof {
            lemma_decoded(opcode.raw);
        }

        match opcode.byte {
            0x9E => self.skip_if_key_pressed(reg_x),
            0xA1 => self.skip_if_key_not_pressed(reg_x),
            _ => {
                return self.unknown();
            },
        }
        Ok(())
    }

    /// Whether the key whose number is `key` is down.
    #[inline(always)]
    fn key_down(&self, key: u8) -> (down: bool)
        ensures
            down == self@.key_down(key),
    {
        (key as usize) < KEY_COUNT && self.keys[key as usize]
    }

    /// Skips the next instruction if the key whose number is in register
    /// `reg` is down.
    #[inline(always)]
    fn skip_if_key_pressed(&mut self, reg: u8)
        requires
            old(self).wf(),
            reg < REGISTER_COUNT,
            old(self)@.pc <= RAM_SIZE,
        ensures
            final(self).wf(),
            final(self)@ == old(self)@.skip_if(old(self)@.key_down(old(self)@.reg(reg))),
    {
        if self.key_down(self.registers[reg as usize]) {
            self.pc += 2;
        }
    }

    /// Skips the next instruction if the key whose number is in register
    /// `reg` is up.
    #[inline(always)]
    fn skip_if_key_not_pressed(&mut self, reg: u8)
        requires
            old(self).wf(),
            reg < REGISTER_COUNT,
            old(self)@.pc <= RAM_SIZE,
        ensures
            final(self).wf(),
            final(self)@ == old(self)@.skip_if(!old(self)@.key_down(old(self)@.reg(reg))),
    {
        if !self.key_down(self.registers[reg as usize]) {
            self.pc += 2;
        }
    }

    /// Executes a word of class F.
    fn execute_fx(&mut self, opcode: &OpCode) -> (result: Result<(), Fault>)
        requires
            old(self).wf(),
            opcode.wf(),
            2 <= old(self)@.pc,
        ensures
            final(self).wf(),
            agrees(old(self)@, old(self)@.execute_fx(*opcode), final(self)@, result),
    {
        let reg_x = opcode.reg_x;
        proof {
            lemma_decoded(opcode.raw);
        }

        match opcode.byte {
            0x07 => {
                let delay = self.dt;
                self.set_reg_byte(reg_x, delay);
            },
            0x0A => self.wait_key(reg_x),
            0x15 => self.set_delay(reg_x),
            0x18 => self.set_sound(reg_x),
            0x1E => self.add_reg_i(reg_x),
            0x29 => self.set_reg_i_font(reg_x),
            0x33 => {
                return self.store_bcd(reg_x);
            },
            0x55 => {
                return self.store_regs(reg_x);
            },
            0x65 => {
                return self.load_regs(reg_x);
            },
            _ => {
                return self.unknown();
            },
        }
        Ok(())
    }

    /// Waits for a key: once every key has been seen up, puts the lowest
    /// key that is down into register `reg`; until then moves the program
    /// counter back onto this instruction.
    #[inline(always)]
    fn wait_key(&mut self, reg: u8)
        requires
            old(self).wf(),
            reg < REGISTER_COUNT,
            2 <= old(self)@.pc,
        ensures
            final(self).wf(),
            final(self)@ == old(self)@.wait_key(reg),
    {
        let key = lowest_key_down(&self.keys);
        if self.armed && key < KEY_COUNT {
            self.registers[reg as usize] = key as u8;
            self.armed = false;
        } else {
            self.pc -= 2;
            self.armed = key >= KEY_COUNT;
        }
    }

    /// Sets the delay timer to register `reg`.
    #[inline(always)]
    fn set_delay(&mut self, reg: u8)
        requires
            old(self).wf(),
            reg < REGISTER_COUNT,
        ensures
            final(self).wf(),
            final(self)@ == old(self)@.set_delay(reg),
    {
        self.dt = self.registers[reg as usize];
    }

    /// Sets the sound timer to register `reg`.
    #[inline(always)]
    fn set_sound(&mut self, reg: u8)
        requires
            old(self).wf(),
            reg < REGISTER_COUNT,
        ensures
            final(self).wf(),
            final(self)@ == old(self)@.set_sound(reg),
    {
        self.st = self.registers[reg as usize];
    }

    /// Adds register `reg` to the index register, within twelve bits.
    #[inline(always)]
    fn add_reg_i(&mut self, reg: u8)
        requires
            old(self).wf(),
            reg < REGISTER_COUNT,
        ensures
            final(self).wf(),
            final(self)@ == old(self)@.add_reg_i(reg),
    {
        self.register_i = (self.register_i + self.registers[reg as usize] as u16) % 4096;
    }

    /// Points the index register at the glyph for the low nibble of
    /// register `reg`.
    #[inline(always)]
    fn set_reg_i_font(&mut self, reg: u8)
        requires
            old(self).wf(),
            reg < REGISTER_COUNT,
        ensures
            final(self).wf(),
            final(self)@ == old(self)@.set_reg_i_font(reg),
    {
        let digit = self.registers[reg as usize] % 16;
        self.register_i = (FONT_ADDR + GLYPH_SIZE * digit as usize) as u16;
    }

    /// Stores the three decimal digits of register `reg` at the index
    /// register.
    #[inline(always)]
    fn store_bcd(&mut self, reg: u8) -> (result: Result<(), Fault>)
        requires
            old(self).wf(),
            reg < REGISTER_COUNT,
        ensures
            final(self).wf(),
            agrees(old(self)@, old(self)@.store_bcd(reg), final(self)@, result),
    {
        let start = self.register_i as usize;
        if start + 3 > RAM_SIZE {
            return Err(Fault::MemoryBoundsViolation);
        }
        let vx = self.registers[reg as usize];
        self.memory[start] = vx / 100;
        self.memory[start + 1] = (vx / 10) % 10;
        self.memory[start + 2] = vx % 10;
        Ok(())
    }

    /// Stores the registers V0 to `reg` at the index register.
    #[inline(always)]
    fn store_regs(&mut self, reg: u8) -> (result: Result<(), Fault>)
        requires
            old(self).wf(),
            reg < REGISTER_COUNT,
        ensures
            final(self).wf(),
            agrees(old(self)@, old(self)@.store_regs(reg), final(self)@, result),
    {
        let start = self.register_i as usize;
        let count = reg as usize + 1;
        if start + count > RAM_SIZE {
            return Err(Fault::MemoryBoundsViolation);
        }
        copy_bytes(&mut self.memory, start, &self.registers, count);
        assert(self@.memory =~= old(self)@.store_regs(reg)->Ok_0.memory);
        Ok(())
    }

    /// Loads the registers V0 to `reg` from the index register.
    #[inline(always)]
    fn load_regs(&mut self, reg: u8) -> (result: Result<(), Fault>)
        requires
            old(self).wf(),
            reg < REGISTER_COUNT,
        ensures
            final(self).wf(),
            agrees(old(self)@, old(self)@.load_regs(reg), final(self)@, result),
    {
        let start = self.register_i as usize;
        let count = reg as usize + 1;
        if start + count > RAM_SIZE {
            return Err(Fault::MemoryBoundsViolation);
        }
        fill_registers(&mut self.registers, &self.memory, start, count);
        assert(self@.registers =~= old(self)@.load_regs(reg)->Ok_0.registers);
        Ok(())
    }
}

} // verus!
