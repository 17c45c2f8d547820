//! The CHIP-8 machine as mathematics: its state, and what each instruction
//! does to it.
//!
//! Where implementations of CHIP-8 differ, this machine does the following.
//! - An arithmetic instruction writes its result to Vx first and the flag to
//!   VF last, so the flag is what stays when Vx is VF.
//! - `ADD I, Vx` keeps the index register within twelve bits and leaves VF
//!   alone.
//! - `LD [I], Vx` and `LD Vx, [I]` leave the index register as it was.
//! - `LD F, Vx` goes by the low nibble of Vx.
//! - `LD Vx, K` waits for a key to go down: a key that is already down when
//!   the instruction is met does not count before every key has been up. Of
//!   several keys that go down together the lowest is taken.
//! - `SKP` and `SKNP` treat a key number above fifteen as a key that is up.
//! - A sprite is clipped at the right and bottom edges of the display.

use crate::emulator::display::{collides, draw, lemma_draw_twice, lights};
use crate::emulator::opcode::{lemma_decoded, OpCode};
use vstd::prelude::*;

verus! {

/// The size of the memory, in bytes.
pub const RAM_SIZE: usize = 4096;

/// The number of return addresses that the stack holds.
pub const STACK_SIZE: usize = 16;

/// The number of general-purpose registers.
pub const REGISTER_COUNT: usize = 16;

/// The number of keys.
pub const KEY_COUNT: usize = 16;

/// The address at which a program is loaded and starts.
pub const START_ADDR: usize = 0x200;

/// The address of the first byte of the built-in font.
pub const FONT_ADDR: usize = 0x050;

/// The number of bytes of one glyph of the font.
pub const GLYPH_SIZE: usize = 5;

/// The largest program that fits between `START_ADDR` and the end of memory.
pub const MAX_PROGRAM_SIZE: usize = 3584;

/// Why an instruction could not be executed.
#[derive(Clone, Copy, Debug, PartialEq, Eq)]
pub enum Fault {
    /// The word names no instruction.
    UnknownOpcode,
    /// A call with sixteen return addresses already on the stack.
    StackOverflow,
    /// An access through the index register beyond the end of memory.
    MemoryBoundsViolation,
}

/// A fault, with the address of the instruction and the instruction word.
#[derive(Clone, Copy, Debug, PartialEq, Eq)]
pub struct CpuError {
    /// What went wrong.
    pub kind: Fault,
    /// The address of the instruction that failed.
    pub addr: u16,
    /// The instruction word that failed.
    pub raw: u16,
}

/// How a step ended.
#[derive(Clone, Copy, Debug, PartialEq, Eq)]
pub enum Status {
    /// An instruction was executed, or the machine waits for a key.
    Continue,
    /// The program counter has left the memory: nothing was executed.
    Halt,
}

/// Why a program could not be loaded.
#[derive(Clone, Copy, Debug, PartialEq, Eq)]
pub enum LoadError {
    /// The program has more than `MAX_PROGRAM_SIZE` bytes.
    ProgramTooLarge,
    /// The program has an odd number of bytes, so its last instruction is
    /// cut in half.
    OddLength,
}

/// Whether a program of `len` bytes can be loaded, and if not, why not. A
/// program that is both too large and of odd length is too large.
pub open spec fn check_program(len: nat) -> Result<(), LoadError> {
    if len > MAX_PROGRAM_SIZE {
        Err(LoadError::ProgramTooLarge)
    } else if len % 2 != 0 {
        Err(LoadError::OddLength)
    } else {
        Ok(())
    }
}

/// Whether each of the bytes is one that the random generator can give: the
/// generator draws from 0 to 254.
pub open spec fn drawable(random_bytes: Seq<u8>) -> bool {
    forall|i: int| 0 <= i < random_bytes.len() ==> random_bytes[i] < 255
}

/// The state of the machine.
pub struct CpuState {
    /// The memory, 4096 bytes.
    pub memory: Seq<u8>,
    /// The registers V0 to VF.
    pub registers: Seq<u8>,
    /// The index register I.
    pub index: u16,
    /// The program counter.
    pub pc: u16,
    /// The return addresses, the oldest first.
    pub stack: Seq<u16>,
    /// The delay timer.
    pub delay: u8,
    /// The sound timer.
    pub sound: u8,
    /// The pixels, row by row: pixel (x, y) is element `y * 64 + x`.
    pub display: Seq<bool>,
    /// The keys 0 to F: `true` for a key that is down.
    pub keys: Seq<bool>,
    /// Whether the machine waits at `LD Vx, K` and has seen every key up
    /// since it got there, so that the next key that is down ends the wait.
    pub armed: bool,
}

/// The five rows of the font's glyph for a hexadecimal digit.
pub open spec fn glyph(digit: int) -> Seq<u8> {
    if digit == 0x0 {
        seq![0xF0u8, 0x90u8, 0x90u8, 0x90u8, 0xF0u8]
    } else if digit == 0x1 {
        seq![0x20u8, 0x60u8, 0x20u8, 0x20u8, 0x70u8]
    } else if digit == 0x2 {
        seq![0xF0u8, 0x10u8, 0xF0u8, 0x80u8, 0xF0u8]
    } else if digit == 0x3 {
        seq![0xF0u8, 0x10u8, 0xF0u8, 0x10u8, 0xF0u8]
    } else if digit == 0x4 {
        seq![0x90u8, 0x90u8, 0xF0u8, 0x10u8, 0x10u8]
    } else if digit == 0x5 {
        seq![0xF0u8, 0x80u8, 0xF0u8, 0x10u8, 0xF0u8]
    } else if digit == 0x6 {
        seq![0xF0u8, 0x80u8, 0xF0u8, 0x90u8, 0xF0u8]
    } else if digit == 0x7 {
        seq![0xF0u8, 0x10u8, 0x20u8, 0x40u8, 0x40u8]
    } else if digit == 0x8 {
        seq![0xF0u8, 0x90u8, 0xF0u8, 0x90u8, 0xF0u8]
    } else if digit == 0x9 {
        seq![0xF0u8, 0x90u8, 0xF0u8, 0x10u8, 0xF0u8]
    } else if digit == 0xA {
        seq![0xF0u8, 0x90u8, 0xF0u8, 0x90u8, 0x90u8]
    } else if digit == 0xB {
        seq![0xE0u8, 0x90u8, 0xE0u8, 0x90u8, 0xE0u8]
    } else if digit == 0xC {
        seq![0xF0u8, 0x80u8, 0x80u8, 0x80u8, 0xF0u8]
    } else if digit == 0xD {
        seq![0xE0u8, 0x90u8, 0x90u8, 0x90u8, 0xE0u8]
    } else if digit == 0xE {
        seq![0xF0u8, 0x80u8, 0xF0u8, 0x80u8, 0xF0u8]
    } else {
        seq![0xF0u8, 0x80u8, 0xF0u8, 0x80u8, 0x80u8]
    }
}

/// The byte that a machine holds at `addr` before a program is loaded: a row
/// of the font in the eighty bytes from `FONT_ADDR`, zero elsewhere.
pub open spec fn reset_byte(addr: int) -> u8 {
    if FONT_ADDR <= addr < FONT_ADDR + 16 * GLYPH_SIZE {
        glyph((addr - FONT_ADDR) / 5)[(addr - FONT_ADDR) % 5]
    } else {
        0
    }
}

/// The instruction word made of two bytes, the high byte first.
pub open spec fn word(high: u8, low: u8) -> u16 {
    (high * 256 + low) as u16
}

/// The lowest key at or above `from` that is down, or the number of keys if
/// there is none.
pub open spec fn first_key_down(keys: Seq<bool>, from: int) -> int
    decreases keys.len() - from,
{
    if from < 0 || from >= keys.len() {
        keys.len() as int
    } else if keys[from] {
        from
    } else {
        first_key_down(keys, from + 1)
    }
}

impl CpuState {
    /// Whether the state is one that a machine can be in.
    pub open spec fn wf(self) -> bool {
        &&& self.memory.len() == RAM_SIZE
        &&& self.registers.len() == REGISTER_COUNT
        &&& self.stack.len() <= STACK_SIZE
        &&& self.display.len() == 2048
        &&& self.keys.len() == KEY_COUNT
        &&& self.index < RAM_SIZE
    }

    /// The state of a machine that was just made: the font in memory, the
    /// program counter at `START_ADDR`, all else zero, dark, up or empty.
    pub open spec fn reset() -> CpuState {
        CpuState {
            memory: Seq::new(RAM_SIZE as nat, |addr: int| reset_byte(addr)),
            registers: Seq::new(REGISTER_COUNT as nat, |r: int| 0u8),
            index: 0,
            pc: START_ADDR as u16,
            stack: Seq::empty(),
            delay: 0,
            sound: 0,
            display: Seq::new(2048, |k: int| false),
            keys: Seq::new(KEY_COUNT as nat, |k: int| false),
            armed: false,
        }
    }

    /// The state with `program` copied into memory from `START_ADDR` on. A
    /// wait for a key, if there was one, starts anew.
    pub open spec fn load(self, program: Seq<u8>) -> CpuState {
        CpuState {
            armed: false,
            memory: Seq::new(
                RAM_SIZE as nat,
                |addr: int|
                    if START_ADDR <= addr < START_ADDR + program.len() {
                        program[addr - START_ADDR]
                    } else {
                        self.memory[addr]
                    },
            ),
            ..self
        }
    }

    /// The state after one tick of the 60 Hz clock: each timer that is not
    /// zero goes down by one.
    pub open spec fn tick(self) -> CpuState {
        CpuState {
            delay: if self.delay > 0 { (self.delay - 1) as u8 } else { 0 },
            sound: if self.sound > 0 { (self.sound - 1) as u8 } else { 0 },
            ..self
        }
    }

    /// The state with key `index` set down or up. An index above fifteen
    /// changes nothing.
    pub open spec fn with_key(self, index: int, pressed: bool) -> CpuState {
        if 0 <= index < KEY_COUNT {
            CpuState { keys: self.keys.update(index, pressed), ..self }
        } else {
            self
        }
    }

    /// The value of register `reg`.
    pub open spec fn reg(self, reg: u8) -> u8 {
        self.registers[reg as int]
    }

    /// The state with the program counter at `pc`.
    pub open spec fn with_pc(self, pc: u16) -> CpuState {
        CpuState { pc, ..self }
    }

    /// The state with `value` in register `reg`.
    pub open spec fn with_reg(self, reg: u8, value: u8) -> CpuState {
        CpuState { registers: self.registers.update(reg as int, value), ..self }
    }

    /// The state with `value` in register `reg`, and then `flag` in VF.
    pub open spec fn with_result(self, reg: u8, value: u8, flag: bool) -> CpuState {
        self.with_reg(reg, value).with_reg(0xF, if flag { 1u8 } else { 0u8 })
    }

    /// The state with the program counter moved past one more instruction,
    /// if `condition` holds.
    pub open spec fn skip_if(self, condition: bool) -> CpuState {
        if condition {
            self.with_pc((self.pc + 2) as u16)
        } else {
            self
        }
    }

    /// Whether the key whose number is `key` is down.
    pub open spec fn key_down(self, key: u8) -> bool {
        key < KEY_COUNT && self.keys[key as int]
    }

    /// `CLS`: every pixel dark.
    pub open spec fn clear_display(self) -> CpuState {
        CpuState { display: Seq::new(2048, |k: int| false), ..self }
    }

    /// `RET`: the newest return address leaves the stack and becomes the
    /// program counter. With an empty stack nothing changes.
    pub open spec fn ret(self) -> CpuState {
        if self.stack.len() > 0 {
            CpuState { pc: self.stack.last(), stack: self.stack.drop_last(), ..self }
        } else {
            self
        }
    }

    /// `JP addr`.
    pub open spec fn jump(self, addr: u16) -> CpuState {
        self.with_pc(addr)
    }

    /// `CALL addr`: the program counter goes onto the stack, then execution
    /// continues at `addr`. A full stack is a fault.
    pub open spec fn call(self, addr: u16) -> Result<CpuState, Fault> {
        if self.stack.len() >= STACK_SIZE {
            Err(Fault::StackOverflow)
        } else {
            Ok(CpuState { pc: addr, stack: self.stack.push(self.pc), ..self })
        }
    }

    /// `LD I, addr`.
    pub open spec fn set_reg_i(self, addr: u16) -> CpuState {
        CpuState { index: addr, ..self }
    }

    /// `JP V0, addr`.
    pub open spec fn jump_by_offset(self, addr: u16) -> CpuState {
        self.with_pc((self.reg(0) + addr) as u16)
    }

    /// `ADD Vx, byte`: the sum modulo 256; VF is not touched.
    pub open spec fn add_reg_byte(self, reg: u8, byte: u8) -> CpuState {
        self.with_reg(reg, ((self.reg(reg) + byte) % 256) as u8)
    }

    /// `RND Vx, byte`, for the random byte that was drawn.
    pub open spec fn rnd(self, reg: u8, byte: u8, random_byte: u8) -> CpuState {
        self.with_reg(reg, random_byte & byte)
    }

    /// `ADD Vx, Vy`: the sum modulo 256; VF is 1 if the sum is above 255.
    pub open spec fn add_regs(self, x: u8, y: u8) -> CpuState {
        let sum = self.reg(x) + self.reg(y);
        self.with_result(x, (sum % 256) as u8, sum > 255)
    }

    /// `SUB Vx, Vy`: Vx - Vy modulo 256; VF is 1 if nothing was borrowed.
    pub open spec fn sub_regs(self, x: u8, y: u8) -> CpuState {
        let vx = self.reg(x);
        let vy = self.reg(y);
        self.with_result(x, ((vx - vy) % 256) as u8, vx >= vy)
    }

    /// `SUBN Vx, Vy`: Vy - Vx modulo 256; VF is 1 if nothing was borrowed.
    pub open spec fn subn_regs(self, x: u8, y: u8) -> CpuState {
        let vx = self.reg(x);
        let vy = self.reg(y);
        self.with_result(x, ((vy - vx) % 256) as u8, vy >= vx)
    }

    /// `SHR Vx`: Vx halved; VF is the bit that fell out.
    pub open spec fn shift_right(self, x: u8) -> CpuState {
        let vx = self.reg(x);
        self.with_result(x, vx / 2, vx % 2 == 1)
    }

    /// `SHL Vx`: Vx doubled modulo 256; VF is the bit that fell out.
    pub open spec fn shift_left(self, x: u8) -> CpuState {
        let vx = self.reg(x);
        self.with_result(x, ((vx * 2) % 256) as u8, vx >= 128)
    }

    /// The bytes of the sprite of `height` rows that the index register
    /// points at.
    pub open spec fn sprite(self, height: u8) -> Seq<u8> {
        self.memory.subrange(self.index as int, self.index + height)
    }

    /// `DRW Vx, Vy, height`: the sprite at the index register is drawn with
    /// its corner at (Vx mod 64, Vy mod 32); VF is 1 if that turned a lit
    /// pixel off. A sprite that reaches beyond the end of memory is a fault.
    pub open spec fn draw_sprite(self, x: u8, y: u8, height: u8) -> Result<CpuState, Fault> {
        if self.index + height > RAM_SIZE {
            Err(Fault::MemoryBoundsViolation)
        } else {
            let x0 = (self.reg(x) % 64) as int;
            let y0 = (self.reg(y) % 32) as int;
            let sprite = self.sprite(height);
            let drawn = CpuState { display: draw(self.display, sprite, x0, y0), ..self };
            Ok(drawn.with_reg(0xF, if collides(self.display, sprite, x0, y0) { 1u8 } else { 0u8 }))
        }
    }

    /// `LD Vx, K`: once every key has been seen up, the lowest key that is
    /// down goes to Vx, and the wait is over. Until then the program counter
    /// goes back to this instruction, so that the next step meets it again,
    /// and the machine notes whether every key is up now.
    pub open spec fn wait_key(self, x: u8) -> CpuState {
        let key = first_key_down(self.keys, 0);
        if self.armed && key < KEY_COUNT {
            CpuState { armed: false, ..self.with_reg(x, key as u8) }
        } else {
            CpuState { armed: key >= KEY_COUNT, ..self.with_pc((self.pc - 2) as u16) }
        }
    }

    /// `LD DT, Vx`.
    pub open spec fn set_delay(self, x: u8) -> CpuState {
        CpuState { delay: self.reg(x), ..self }
    }

    /// `LD ST, Vx`.
    pub open spec fn set_sound(self, x: u8) -> CpuState {
        CpuState { sound: self.reg(x), ..self }
    }

    /// `ADD I, Vx`: the sum, kept within twelve bits.
    pub open spec fn add_reg_i(self, x: u8) -> CpuState {
        CpuState { index: ((self.index + self.reg(x)) % 4096) as u16, ..self }
    }

    /// `LD F, Vx`: the index register points at the glyph for the low nibble
    /// of Vx.
    pub open spec fn set_reg_i_font(self, x: u8) -> CpuState {
        CpuState { index: (FONT_ADDR + GLYPH_SIZE * (self.reg(x) % 16)) as u16, ..self }
    }

    /// `LD B, Vx`: the hundreds, tens and ones of Vx go to memory at the
    /// index register. Three bytes that do not fit in memory are a fault.
    pub open spec fn store_bcd(self, x: u8) -> Result<CpuState, Fault> {
        if self.index + 3 > RAM_SIZE {
            Err(Fault::MemoryBoundsViolation)
        } else {
            let vx = self.reg(x);
            let i = self.index as int;
            Ok(
                CpuState {
                    memory: self.memory.update(i, vx / 100).update(i + 1, (vx / 10) % 10).update(
                        i + 2,
                        vx % 10,
                    ),
                    ..self
                },
            )
        }
    }

    /// `LD [I], Vx`: V0 to Vx go to memory at the index register. Bytes that
    /// do not fit in memory are a fault.
    pub open spec fn store_regs(self, x: u8) -> Result<CpuState, Fault> {
        if self.index + x + 1 > RAM_SIZE {
            Err(Fault::MemoryBoundsViolation)
        } else {
            Ok(
                CpuState {
                    memory: Seq::new(
                        RAM_SIZE as nat,
                        |addr: int|
                            if self.index <= addr <= self.index + x {
                                self.registers[addr - self.index]
                            } else {
                                self.memory[addr]
                            },
                    ),
                    ..self
                },
            )
        }
    }

    /// `LD Vx, [I]`: V0 to Vx come from memory at the index register. Bytes
    /// beyond the end of memory are a fault.
    pub open spec fn load_regs(self, x: u8) -> Result<CpuState, Fault> {
        if self.index + x + 1 > RAM_SIZE {
            Err(Fault::MemoryBoundsViolation)
        } else {
            Ok(
                CpuState {
                    registers: Seq::new(
                        REGISTER_COUNT as nat,
                        |r: int|
                            if r <= x {
                                self.memory[self.index + r]
                            } else {
                                self.registers[r]
                            },
                    ),
                    ..self
                },
            )
        }
    }

    /// A word of class 0: `CLS`, `RET`, or `SYS`, which does nothing.
    pub open spec fn execute_0xxx(self, op: OpCode) -> Result<CpuState, Fault> {
        if op.raw == 0x00E0 {
            Ok(self.clear_display())
        } else if op.raw == 0x00EE {
            Ok(self.ret())
        } else {
            Ok(self)
        }
    }

    /// A word whose operand is an address.
    pub open spec fn execute_0nnn(self, op: OpCode) -> Result<CpuState, Fault> {
        if op.class == 0x1 {
            Ok(self.jump(op.addr))
        } else if op.class == 0x2 {
            self.call(op.addr)
        } else if op.class == 0xA {
            Ok(self.set_reg_i(op.addr))
        } else if op.class == 0xB {
            Ok(self.jump_by_offset(op.addr))
        } else {
            Err(Fault::UnknownOpcode)
        }
    }

    /// A word whose operands are a register and a byte.
    pub open spec fn execute_xkk(self, op: OpCode, random_byte: u8) -> Result<CpuState, Fault> {
        let x = op.reg_x;
        if op.class == 0x3 {
            Ok(self.skip_if(self.reg(x) == op.byte))
        } else if op.class == 0x4 {
            Ok(self.skip_if(self.reg(x) != op.byte))
        } else if op.class == 0x6 {
            Ok(self.with_reg(x, op.byte))
        } else if op.class == 0x7 {
            Ok(self.add_reg_byte(x, op.byte))
        } else if op.class == 0xC {
            Ok(self.rnd(x, op.byte, random_byte))
        } else {
            Err(Fault::UnknownOpcode)
        }
    }

    /// A word of class 8: an operation on two registers, picked by the low
    /// nibble.
    pub open spec fn execute_8xy(self, op: OpCode) -> Result<CpuState, Fault> {
        let x = op.reg_x;
        let y = op.reg_y;
        if op.nibble == 0x0 {
            Ok(self.with_reg(x, self.reg(y)))
        } else if op.nibble == 0x1 {
            Ok(self.with_reg(x, self.reg(x) | self.reg(y)))
        } else if op.nibble == 0x2 {
            Ok(self.with_reg(x, self.reg(x) & self.reg(y)))
        } else if op.nibble == 0x3 {
            Ok(self.with_reg(x, self.reg(x) ^ self.reg(y)))
        } else if op.nibble == 0x4 {
            Ok(self.add_regs(x, y))
        } else if op.nibble == 0x5 {
            Ok(self.sub_regs(x, y))
        } else if op.nibble == 0x6 {
            Ok(self.shift_right(x))
        } else if op.nibble == 0x7 {
            Ok(self.subn_regs(x, y))
        } else if op.nibble == 0xE {
            Ok(self.shift_left(x))
        } else {
            Err(Fault::UnknownOpcode)
        }
    }

    /// A word whose operands are two registers.
    pub open spec fn execute_xy(self, op: OpCode) -> Result<CpuState, Fault> {
        let x = op.reg_x;
        let y = op.reg_y;
        if op.class == 0x5 {
            if op.nibble == 0x0 {
                Ok(self.skip_if(self.reg(x) == self.reg(y)))
            } else {
                Err(Fault::UnknownOpcode)
            }
        } else if op.class == 0x8 {
            self.execute_8xy(op)
        } else if op.class == 0x9 {
            if op.nibble == 0x0 {
                Ok(self.skip_if(self.reg(x) != self.reg(y)))
            } else {
                Err(Fault::UnknownOpcode)
            }
        } else if op.class == 0xD {
            self.draw_sprite(x, y, op.nibble)
        } else {
            Err(Fault::UnknownOpcode)
        }
    }

    /// A word of class E: a skip on the key whose number is in Vx.
    pub open spec fn execute_ex(self, op: OpCode) -> Result<CpuState, Fault> {
        let key = self.reg(op.reg_x);
        if op.byte == 0x9E {
            Ok(self.skip_if(self.key_down(key)))
        } else if op.byte == 0xA1 {
            Ok(self.skip_if(!self.key_down(key)))
        } else {
            Err(Fault::UnknownOpcode)
        }
    }

    /// A word of class F: timers, keys, the index register and memory,
    /// picked by the low byte.
    pub open spec fn execute_fx(self, op: OpCode) -> Result<CpuState, Fault> {
        let x = op.reg_x;
        if op.byte == 0x07 {
            Ok(self.with_reg(x, self.delay))
        } else if op.byte == 0x0A {
            Ok(self.wait_key(x))
        } else if op.byte == 0x15 {
            Ok(self.set_delay(x))
        } else if op.byte == 0x18 {
            Ok(self.set_sound(x))
        } else if op.byte == 0x1E {
            Ok(self.add_reg_i(x))
        } else if op.byte == 0x29 {
            Ok(self.set_reg_i_font(x))
        } else if op.byte == 0x33 {
            self.store_bcd(x)
        } else if op.byte == 0x55 {
            self.store_regs(x)
        } else if op.byte == 0x65 {
            self.load_regs(x)
        } else {
            Err(Fault::UnknownOpcode)
        }
    }

    /// What the instruction `op` does to a state whose program counter is
    /// already past it: the next state, or the fault that stops it.
    /// `random_byte` is the byte that `RND` draws; nothing else reads it.
    pub open spec fn execute(self, op: OpCode, random_byte: u8) -> Result<CpuState, Fault> {
        if op.class == 0x0 {
            self.execute_0xxx(op)
        } else if op.class == 0x1 || op.class == 0x2 || op.class == 0xA || op.class == 0xB {
            self.execute_0nnn(op)
        } else if op.class == 0x3 || op.class == 0x4 || op.class == 0x6 || op.class == 0x7
            || op.class == 0xC {
            self.execute_xkk(op, random_byte)
        } else if op.class == 0x5 || op.class == 0x8 || op.class == 0x9 || op.class == 0xD {
            self.execute_xy(op)
        } else if op.class == 0xE {
            self.execute_ex(op)
        } else if op.class == 0xF {
            self.execute_fx(op)
        } else {
            Err(Fault::UnknownOpcode)
        }
    }

    /// Whether the program counter has left the memory, so that no
    /// instruction can be fetched.
    pub open spec fn halted(self) -> bool {
        self.pc + 2 > RAM_SIZE
    }

    /// The instruction word at the program counter.
    pub open spec fn fetch(self) -> u16 {
        word(self.memory[self.pc as int], self.memory[self.pc + 1])
    }

    /// One step. A halted machine stays as it is. Otherwise the word at the
    /// program counter is fetched, the program counter moves past it, and
    /// the instruction is executed. An instruction that faults leaves the
    /// state as it was before the step.
    pub open spec fn step(self, random_byte: u8) -> (CpuState, Result<Status, CpuError>) {
        if self.halted() {
            (self, Ok(Status::Halt))
        } else {
            let raw = self.fetch();
            let advanced = self.with_pc((self.pc + 2) as u16);
            match advanced.execute(OpCode::decoded(raw), random_byte) {
                Ok(next) => (next, Ok(Status::Continue)),
                Err(kind) => (self, Err(CpuError { kind, addr: self.pc, raw })),
            }
        }
    }

    /// The first `count` steps, the step numbered `i` drawing
    /// `random_bytes[i]`: the state reached, and how the last step ended.
    /// Steps are taken while they end in `Continue`; the first halt or
    /// fault is where the run stays.
    pub open spec fn run(self, random_bytes: Seq<u8>, count: nat) -> (
        CpuState,
        Result<Status, CpuError>,
    )
        decreases count,
    {
        if count == 0 {
            (self, Ok(Status::Continue))
        } else {
            let (state, result) = self.run(random_bytes, (count - 1) as nat);
            if result == Ok::<Status, CpuError>(Status::Continue) {
                state.step(random_bytes[count - 1])
            } else {
                (state, result)
            }
        }
    }
}

/// A run reads only as many random bytes as it takes steps: two sequences
/// that agree on the first `count` bytes give the same run of `count`
/// steps.
pub proof fn lemma_run_reads_prefix(state: CpuState, first: Seq<u8>, second: Seq<u8>, count: nat)
    requires
        forall|i: int| 0 <= i < count ==> first[i] == second[i],
    ensures
        state.run(first, count) == state.run(second, count),
    decreases count,
{
    if count > 0 {
        lemma_run_reads_prefix(state, first, second, (count - 1) as nat);
    }
}

/// A run that has halted or faulted stays where it is, however many more
/// steps are asked for.
pub proof fn lemma_run_stays(state: CpuState, random_bytes: Seq<u8>, count: nat, more: nat)
    requires
        count <= more,
        state.run(random_bytes, count).1 != Ok::<Status, CpuError>(Status::Continue),
    ensures
        state.run(random_bytes, more) == state.run(random_bytes, count),
    decreases more,
{
    if count < more {
        lemma_run_stays(state, random_bytes, count, (more - 1) as nat);
    }
}

/// Only `RND` reads the random byte: a step that is halted, or whose
/// instruction is of another class, is the same for every random byte.
pub proof fn lemma_step_reads_random_byte_for_rnd_only(state: CpuState, first: u8, second: u8)
    requires
        state.halted() || OpCode::decoded(state.fetch()).class != 0xC,
    ensures
        state.step(first) == state.step(second),
{
}

/// Every step, and so every run, keeps a well-formed state well-formed.
pub proof fn lemma_step_keeps_wf(state: CpuState, random_byte: u8)
    requires
        state.wf(),
    ensures
        state.step(random_byte).0.wf(),
{
    if !state.halted() {
        let raw = state.fetch();
        lemma_decoded(raw);
    }
}

/// What a step leaves alone. No instruction touches the keys. The timers
/// change only by `LD DT, Vx` and `LD ST, Vx`: the time that instructions
/// take does not run them down. The display changes only by `CLS` and
/// `DRW`, the memory only by `LD B, Vx` and `LD [I], Vx`, the index register
/// only by `LD I, addr`, `ADD I, Vx` and `LD F, Vx`, the stack only by
/// `CALL` and `RET`, and the note of a wait for a key only by `LD Vx, K`.
pub proof fn lemma_step_leaves_alone(state: CpuState, random_byte: u8)
    requires
        state.wf(),
        !state.halted(),
    ensures
        ({
            let op = OpCode::decoded(state.fetch());
            let next = state.step(random_byte).0;
            &&& next.keys == state.keys
            &&& !(op.class == 0xF && op.byte == 0x15) ==> next.delay == state.delay
            &&& !(op.class == 0xF && op.byte == 0x18) ==> next.sound == state.sound
            &&& !(op.raw == 0x00E0 || op.class == 0xD) ==> next.display == state.display
            &&& !(op.class == 0xF && (op.byte == 0x33 || op.byte == 0x55)) ==> next.memory
                == state.memory
            &&& !(op.class == 0xA || (op.class == 0xF && (op.byte == 0x1E || op.byte == 0x29)))
                ==> next.index == state.index
            &&& !(op.class == 0x2 || op.raw == 0x00EE) ==> next.stack == state.stack
            &&& !(op.class == 0xF && op.byte == 0x0A) ==> next.armed == state.armed
        }),
{
    lemma_decoded(state.fetch());
}

/// Where a step leaves the program counter. `JP`, `CALL`, `RET` with a
/// return address and `JP V0` set it; `LD Vx, K` keeps it while it waits; a
/// skip moves it by two or by four; every other instruction moves it by
/// two.
pub proof fn lemma_step_program_counter(state: CpuState, random_byte: u8)
    requires
        state.wf(),
        !state.halted(),
        state.step(random_byte).1 is Ok,
    ensures
        ({
            let op = OpCode::decoded(state.fetch());
            let next = state.step(random_byte).0;
            if op.class == 0x1 || op.class == 0x2 {
                next.pc == op.addr
            } else if op.class == 0xB {
                next.pc == op.addr + state.reg(0)
            } else if op.raw == 0x00EE && state.stack.len() > 0 {
                next.pc == state.stack.last()
            } else if op.class == 0xF && op.byte == 0x0A {
                next.pc == if state.armed && first_key_down(state.keys, 0) < KEY_COUNT {
                    state.pc + 2
                } else {
                    state.pc as int
                }
            } else if op.class == 0x3 || op.class == 0x4 || op.class == 0x5 || op.class == 0x9
                || op.class == 0xE {
                next.pc == state.pc + 2 || next.pc == state.pc + 4
            } else {
                next.pc == state.pc + 2
            }
        }),
{
    lemma_decoded(state.fetch());
}

/// Executing a word gives the fault `UnknownOpcode` if and only if the word
/// names no instruction, whatever the state and the random byte.
pub proof fn lemma_unknown_opcode(state: CpuState, op: OpCode, random_byte: u8)
    ensures
        state.execute(op, random_byte) == Err::<CpuState, Fault>(Fault::UnknownOpcode)
            <==> !op.recognized(),
{
}

/// `CALL` and then `RET` lead back: a call that finds room on the stack,
/// followed by a return, gives the state as it was before the call, with
/// the program counter where the call left it, just behind the `CALL`.
pub proof fn lemma_call_then_ret(state: CpuState, addr: u16)
    requires
        state.stack.len() < STACK_SIZE,
    ensures
        state.call(addr) is Ok,
        state.call(addr)->Ok_0.pc == addr,
        state.call(addr)->Ok_0.ret() == state,
{
    let called = state.call(addr)->Ok_0;
    assert(called.stack.drop_last() =~= state.stack);
}

/// The same for two whole steps: when the word at the program counter is
/// a `CALL` with room on the stack, and the word at its target is `RET`,
/// two steps change nothing but the program counter, which then points at
/// the instruction that follows the `CALL`.
pub proof fn lemma_call_ret_steps(state: CpuState, first: u8, second: u8)
    requires
        state.wf(),
        !state.halted(),
        OpCode::decoded(state.fetch()).class == 0x2,
        state.stack.len() < STACK_SIZE,
        !state.with_pc(OpCode::decoded(state.fetch()).addr).halted(),
        state.with_pc(OpCode::decoded(state.fetch()).addr).fetch() == 0x00EE,
    ensures
        state.step(first).1 == Ok::<Status, CpuError>(Status::Continue),
        state.step(first).0.step(second) == (
            state.with_pc((state.pc + 2) as u16),
            Ok::<Status, CpuError>(Status::Continue),
        ),
{
    let op = OpCode::decoded(state.fetch());
    let advanced = state.with_pc((state.pc + 2) as u16);
    lemma_call_then_ret(advanced, op.addr);
    let called = state.step(first).0;
    assert(called == advanced.call(op.addr)->Ok_0);
    assert(called.memory == state.memory);
    assert(called.fetch() == 0x00EE);
    lemma_decoded(0x00EE);
    let returned = called.with_pc((called.pc + 2) as u16).ret();
    assert(returned.stack =~= state.stack);
}

/// The same sprite drawn twice at the same place: when neither coordinate
/// register is VF, which the first `DRW` overwrites, the second `DRW`
/// gives the display back as it was before the first, and sets VF to 1 if
/// and only if the first one lit a pixel.
pub proof fn lemma_draw_sprite_twice(state: CpuState, x: u8, y: u8, height: u8)
    requires
        state.wf(),
        x < 0xF,
        y < 0xF,
        state.index + height <= RAM_SIZE,
    ensures
        state.draw_sprite(x, y, height) is Ok,
        state.draw_sprite(x, y, height)->Ok_0.draw_sprite(x, y, height) is Ok,
        state.draw_sprite(x, y, height)->Ok_0.draw_sprite(x, y, height)->Ok_0.display
            == state.display,
        state.draw_sprite(x, y, height)->Ok_0.draw_sprite(x, y, height)->Ok_0.reg(0xF) == (
        if lights(
            state.display,
            state.sprite(height),
            (state.reg(x) % 64) as int,
            (state.reg(y) % 32) as int,
        ) {
            1u8
        } else {
            0u8
        }),
{
    let x0 = (state.reg(x) % 64) as int;
    let y0 = (state.reg(y) % 32) as int;
    lemma_draw_twice(state.display, state.sprite(height), x0, y0);
}

} // verus!
