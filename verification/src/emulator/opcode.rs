//! CHIP-8 opcodes: the fields of a 16-bit instruction word and its mnemonic.

use crate::emulator::disasm::Decodable;
use crate::emulator::text::{decimal, hex, push_decimal, push_hex};
use vstd::prelude::*;

verus! {

/// A decoded CHIP-8 instruction word.
///
/// Every field is cut out of `raw` by masking and shifting. No word is
/// invalid at this level: whether it names an instruction is decided where
/// it is rendered or executed.
#[derive(Clone, Copy, Debug)]
pub struct OpCode {
    /// The instruction word itself.
    pub raw: u16,
    /// Bits 15-12: the instruction class.
    pub class: u8,
    /// Bits 11-0: an address.
    pub addr: u16,
    /// Bits 11-8: the first register operand, Vx.
    pub reg_x: u8,
    /// Bits 7-4: the second register operand, Vy.
    pub reg_y: u8,
    /// Bits 7-0: an immediate byte.
    pub byte: u8,
    /// Bits 3-0: an immediate nibble.
    pub nibble: u8,
}

/// The text of register `reg`: the letter V and the register's number.
pub open spec fn register_name(reg: u8) -> Seq<char> {
    "V"@ + decimal(reg as nat)
}

/// `name`, then an address in three hexadecimal digits.
pub open spec fn with_addr(name: Seq<char>, addr: u16) -> Seq<char> {
    name + hex(addr as nat, 3)
}

/// `name`, a register, a comma, and a byte in two hexadecimal digits.
pub open spec fn with_reg_byte(name: Seq<char>, reg: u8, byte: u8) -> Seq<char> {
    name + register_name(reg) + ", "@ + hex(byte as nat, 2)
}

/// `name`, a register, a separator, a second register, and a closing text.
pub open spec fn with_regs(
    name: Seq<char>,
    reg_x: u8,
    separator: Seq<char>,
    reg_y: u8,
    closing: Seq<char>,
) -> Seq<char> {
    name + register_name(reg_x) + separator + register_name(reg_y) + closing
}

/// `name`, a register, and a closing text.
pub open spec fn with_reg(name: Seq<char>, reg: u8, closing: Seq<char>) -> Seq<char> {
    name + register_name(reg) + closing
}

/// Appends the text of register `reg` to `out`.
fn push_register(out: &mut String, reg: u8)
    ensures
        final(out)@ == old(out)@ + register_name(reg),
{
    out.append("V");
    push_decimal(out, reg as usize);
    assert(out@ =~= old(out)@ + register_name(reg));
}

/// Renders `with_addr(name, addr)`.
fn render_addr(name: &str, addr: u16) -> (text: String)
    ensures
        text@ == with_addr(name@, addr),
{
    let mut text = String::from_str(name);
    push_hex(&mut text, addr as usize, 3);
    text
}

/// Renders `with_reg_byte(name, reg, byte)`.
fn render_reg_byte(name: &str, reg: u8, byte: u8) -> (text: String)
    ensures
        text@ == with_reg_byte(name@, reg, byte),
{
    let mut text = String::from_str(name);
    push_register(&mut text, reg);
    text.append(", ");
    push_hex(&mut text, byte as usize, 2);
    text
}

/// Renders `with_regs(name, reg_x, separator, reg_y, closing)`.
fn render_regs(name: &str, reg_x: u8, separator: &str, reg_y: u8, closing: &str) -> (text: String)
    ensures
        text@ == with_regs(name@, reg_x, separator@, reg_y, closing@),
{
    let mut text = String::from_str(name);
    push_register(&mut text, reg_x);
    text.append(separator);
    push_register(&mut text, reg_y);
    text.append(closing);
    text
}

/// Renders `with_reg(name, reg, closing)`.
fn render_reg(name: &str, reg: u8, closing: &str) -> (text: String)
    ensures
        text@ == with_reg(name@, reg, closing@),
{
    let mut text = String::from_str(name);
    push_register(&mut text, reg);
    text.append(closing);
    text
}

impl OpCode {
    /// The fields of the instruction word `raw`.
    pub open spec fn decoded(raw: u16) -> OpCode {
        OpCode {
            raw,
            class: ((raw & 0xF000) >> 12) as u8,
            addr: raw & 0x0FFF,
            reg_x: ((raw & 0x0F00) >> 8) as u8,
            reg_y: ((raw & 0x00F0) >> 4) as u8,
            byte: (raw & 0x00FF) as u8,
            nibble: (raw & 0x000F) as u8,
        }
    }

    /// Whether the fields are those of the instruction word.
    pub open spec fn wf(&self) -> bool {
        *self == Self::decoded(self.raw)
    }

    /// Decodes an instruction word.
    pub fn new(raw: u16) -> (opcode: OpCode)
        ensures
            opcode == Self::decoded(raw),
            opcode.raw == raw,
            opcode.class == raw >> 12,
            opcode.addr == raw & 0x0FFF,
            opcode.reg_x == (raw >> 8) & 0xF,
            opcode.reg_y == (raw >> 4) & 0xF,
            opcode.byte == raw & 0xFF,
            opcode.nibble == raw & 0xF,
    {
        let addr = raw & 0x0FFF;
        let class = ((raw & 0xF000) >> 12) as u8;
        let reg_x = ((raw & 0x0F00) >> 8) as u8;
        let reg_y = ((raw & 0x00F0) >> 4) as u8;
        let byte = (raw & 0x00FF) as u8;
        let nibble = (raw & 0x000F) as u8;
        proof {
            lemma_decoded(raw);
        }
        Self { raw, addr, class, reg_x, reg_y, byte, nibble }
    }

    /// The class of the word: its bits 15-12, as a number from 0 to 15. For
    /// a word that was decoded this is the field `class`.
    #[inline(always)]
    pub fn class(&self) -> (class: u16)
        ensures
            class == self.raw >> 12,
            class == Self::decoded(self.raw).class,
            class <= 0xF,
    {
        proof {
            lemma_decoded(self.raw);
        }
        self.raw >> 12
    }

    /// The address bits: the low twelve bits of the word. For a word that
    /// was decoded this is the field `addr`.
    #[inline(always)]
    pub fn addr(&self) -> (addr: u16)
        ensures
            addr == self.raw & 0x0FFF,
            addr == Self::decoded(self.raw).addr,
    {
        self.raw & 0x0FFF
    }

    /// The text for a word that names no instruction: `UNKNOWN: ` and the
    /// word in four hexadecimal digits.
    pub open spec fn unknown_text(&self) -> Seq<char> {
        "UNKNOWN: "@ + hex(self.raw as nat, 4)
    }

    /// The mnemonic of a word of class 0: `CLS`, `RET`, or `SYS` with the
    /// address.
    pub open spec fn mnemonic_0xxx(&self) -> Seq<char> {
        if self.raw == 0x00E0 {
            "CLS"@
        } else if self.raw == 0x00EE {
            "RET"@
        } else {
            with_addr("SYS "@, self.addr)
        }
    }

    /// The mnemonic of a word whose operand is an address.
    pub open spec fn mnemonic_nnn(&self) -> Seq<char> {
        if self.class == 0x1 {
            with_addr("JP "@, self.addr)
        } else if self.class == 0x2 {
            with_addr("CALL "@, self.addr)
        } else if self.class == 0xA {
            with_addr("LD I, "@, self.addr)
        } else if self.class == 0xB {
            with_addr("JP V0, "@, self.addr)
        } else {
            self.unknown_text()
        }
    }

    /// The mnemonic of a word whose operands are a register and a byte.
    pub open spec fn mnemonic_xkk(&self) -> Seq<char> {
        if self.class == 0x3 {
            with_reg_byte("SE "@, self.reg_x, self.byte)
        } else if self.class == 0x4 {
            with_reg_byte("SNE "@, self.reg_x, self.byte)
        } else if self.class == 0x6 {
            with_reg_byte("LD "@, self.reg_x, self.byte)
        } else if self.class == 0x7 {
            with_reg_byte("ADD "@, self.reg_x, self.byte)
        } else if self.class == 0xC {
            with_reg_byte("RND "@, self.reg_x, self.byte)
        } else {
            self.unknown_text()
        }
    }

    /// The mnemonic of a word of class 8: the operations on two registers,
    /// told apart by the low nibble.
    pub open spec fn mnemonic_8xy(&self) -> Seq<char> {
        let x = self.reg_x;
        let y = self.reg_y;
        if self.nibble == 0x0 {
            with_regs("LD "@, x, ", "@, y, ""@)
        } else if self.nibble == 0x1 {
            with_regs("OR "@, x, ", "@, y, ""@)
        } else if self.nibble == 0x2 {
            with_regs("AND "@, x, ", "@, y, ""@)
        } else if self.nibble == 0x3 {
            with_regs("XOR "@, x, ", "@, y, ""@)
        } else if self.nibble == 0x4 {
            with_regs("ADD "@, x, ", "@, y, ""@)
        } else if self.nibble == 0x5 {
            with_regs("SUB "@, x, ", "@, y, ""@)
        } else if self.nibble == 0x6 {
            with_regs("SHR "@, x, " {, "@, y, "}"@)
        } else if self.nibble == 0x7 {
            with_regs("SUBN "@, x, ", "@, y, ""@)
        } else if self.nibble == 0xE {
            with_regs("SHL "@, x, " {, "@, y, "}"@)
        } else {
            self.unknown_text()
        }
    }

    /// The mnemonic of a word whose operands are two registers.
    pub open spec fn mnemonic_xy(&self) -> Seq<char> {
        if self.class == 0x5 {
            if self.nibble == 0x0 {
                with_regs("SE "@, self.reg_x, ", "@, self.reg_y, ""@)
            } else {
                self.unknown_text()
            }
        } else if self.class == 0x8 {
            self.mnemonic_8xy()
        } else if self.class == 0x9 {
            if self.nibble == 0x0 {
                with_regs("SNE "@, self.reg_x, ", "@, self.reg_y, ""@)
            } else {
                self.unknown_text()
            }
        } else if self.class == 0xD {
            with_regs("DRW "@, self.reg_x, ", "@, self.reg_y, ", "@) + hex(self.nibble as nat, 2)
        } else {
            self.unknown_text()
        }
    }

    /// The mnemonic of a word of class E: the two key tests.
    pub open spec fn mnemonic_ex(&self) -> Seq<char> {
        if self.byte == 0x9E {
            with_reg("SKP "@, self.reg_x, ""@)
        } else if self.byte == 0xA1 {
            with_reg("SKNP "@, self.reg_x, ""@)
        } else {
            self.unknown_text()
        }
    }

    /// The mnemonic of a word of class F: timers, keys, the index register
    /// and memory, told apart by the low byte.
    pub open spec fn mnemonic_fx(&self) -> Seq<char> {
        let x = self.reg_x;
        if self.byte == 0x07 {
            with_reg("LD "@, x, ", DT"@)
        } else if self.byte == 0x0A {
            with_reg("LD "@, x, ", K"@)
        } else if self.byte == 0x15 {
            with_reg("LD DT, "@, x, ""@)
        } else if self.byte == 0x18 {
            with_reg("LD ST, "@, x, ""@)
        } else if self.byte == 0x1E {
            with_reg("ADD I, "@, x, ""@)
        } else if self.byte == 0x29 {
            with_reg("LD F, "@, x, ""@)
        } else if self.byte == 0x33 {
            with_reg("LD B, "@, x, ""@)
        } else if self.byte == 0x55 {
            with_reg("LD [I], "@, x, ""@)
        } else if self.byte == 0x65 {
            with_reg("LD "@, x, ", [I]"@)
        } else {
            self.unknown_text()
        }
    }

    /// Renders `unknown_text`.
    #[inline(always)]
    pub fn unknown(&self) -> (text: String)
        ensures
            text@ == self.unknown_text(),
    {
        let mut text = String::from_str("UNKNOWN: ");
        push_hex(&mut text, self.raw as usize, 4);
        text
    }

    /// Renders `mnemonic_0xxx`.
    fn decode_0xxx(&self) -> (text: String)
        ensures
            text@ == self.mnemonic_0xxx(),
    {
        let addr = self.addr;

        match self.raw {
            0x00E0 => String::from_str("CLS"),
            0x00EE => String::from_str("RET"),
            _ => render_addr("SYS ", addr),
        }
    }

    /// Renders `mnemonic_nnn`.
    fn decode_nnn(&self) -> (text: String)
        ensures
            text@ == self.mnemonic_nnn(),
    {
        let addr = self.addr;

        match self.class {
            0x1 => render_addr("JP ", addr),
            0x2 => render_addr("CALL ", addr),
            0xA => render_addr("LD I, ", addr),
            0xB => render_addr("JP V0, ", addr),
            _ => self.unknown(),
        }
    }

    /// Renders `mnemonic_xkk`.
    fn decode_xkk(&self) -> (text: String)
        ensures
            text@ == self.mnemonic_xkk(),
    {
        let reg_x = self.reg_x;
        let byte = self.byte;

        match self.class {
            0x3 => render_reg_byte("SE ", reg_x, byte),
            0x4 => render_reg_byte("SNE ", reg_x, byte),
            0x6 => render_reg_byte("LD ", reg_x, byte),
            0x7 => render_reg_byte("ADD ", reg_x, byte),
            0xC => render_reg_byte("RND ", reg_x, byte),
            _ => self.unknown(),
        }
    }

    /// Renders `mnemonic_xy`.
    fn decode_xy(&self) -> (text: String)
        ensures
            text@ == self.mnemonic_xy(),
    {
        let reg_x = self.reg_x;
        let reg_y = self.reg_y;
        let nibble = self.nibble;

        match self.class {
            0x5 => match nibble {
                0x0 => render_regs("SE ", reg_x, ", ", reg_y, ""),
                _ => self.unknown(),
            },
            0x8 => match nibble {
                0x0 => render_regs("LD ", reg_x, ", ", reg_y, ""),
                0x1 => render_regs("OR ", reg_x, ", ", reg_y, ""),
                0x2 => render_regs("AND ", reg_x, ", ", reg_y, ""),
                0x3 => render_regs("XOR ", reg_x, ", ", reg_y, ""),
                0x4 => render_regs("ADD ", reg_x, ", ", reg_y, ""),
                0x5 => render_regs("SUB ", reg_x, ", ", reg_y, ""),
                0x6 => render_regs("SHR ", reg_x, " {, ", reg_y, "}"),
                0x7 => render_regs("SUBN ", reg_x, ", ", reg_y, ""),
                0xE => render_regs("SHL ", reg_x, " {, ", reg_y, "}"),
                _ => self.unknown(),
            },
            0x9 => match nibble {
                0x0 => render_regs("SNE ", reg_x, ", ", reg_y, ""),
                _ => self.unknown(),
            },
            0xD => {
                let mut text = render_regs("DRW ", reg_x, ", ", reg_y, ", ");
                push_hex(&mut text, nibble as usize, 2);
                text
            },
            _ => self.unknown(),
        }
    }

    /// Renders `mnemonic_ex`.
    fn decode_ex(&self) -> (text: String)
        ensures
            text@ == self.mnemonic_ex(),
    {
        let reg_x = self.reg_x;

        match self.byte {
            0x9E => render_reg("SKP ", reg_x, ""),
            0xA1 => render_reg("SKNP ", reg_x, ""),
            _ => self.unknown(),
        }
    }

    /// Renders `mnemonic_fx`.
    fn decode_fx(&self) -> (text: String)
        ensures
            text@ == self.mnemonic_fx(),
    {
        let reg_x = self.reg_x;

        match self.byte {
            0x07 => render_reg("LD ", reg_x, ", DT"),
            0x0A => render_reg("LD ", reg_x, ", K"),
            0x15 => render_reg("LD DT, ", reg_x, ""),
            0x18 => render_reg("LD ST, ", reg_x, ""),
            0x1E => render_reg("ADD I, ", reg_x, ""),
            0x29 => render_reg("LD F, ", reg_x, ""),
            0x33 => render_reg("LD B, ", reg_x, ""),
            0x55 => render_reg("LD [I], ", reg_x, ""),
            0x65 => render_reg("LD ", reg_x, ", [I]"),
            _ => self.unknown(),
        }
    }
}

impl Decodable for OpCode {
    /// The mnemonic of the word: the class picks the family, and within the
    /// family the low nibble or the low byte picks the instruction. A word
    /// that names no instruction reads `UNKNOWN: ` and the word.
    open spec fn mnemonic(&self) -> Seq<char> {
        if self.class == 0x0 {
            self.mnemonic_0xxx()
        } else if self.class == 0x1 || self.class == 0x2 || self.class == 0xA || self.class == 0xB {
            self.mnemonic_nnn()
        } else if self.class == 0x3 || self.class == 0x4 || self.class == 0x6 || self.class == 0x7
            || self.class == 0xC {
            self.mnemonic_xkk()
        } else if self.class == 0x5 || self.class == 0x8 || self.class == 0x9 || self.class == 0xD {
            self.mnemonic_xy()
        } else if self.class == 0xE {
            self.mnemonic_ex()
        } else if self.class == 0xF {
            self.mnemonic_fx()
        } else {
            self.unknown_text()
        }
    }

    fn decode(&self) -> (text: String) {
        match self.class {
            0x0 => self.decode_0xxx(),
            0x1 => self.decode_nnn(),
            0x2 => self.decode_nnn(),
            0x3 => self.decode_xkk(),
            0x4 => self.decode_xkk(),
            0x5 => self.decode_xy(),
            0x6 => self.decode_xkk(),
            0x7 => self.decode_xkk(),
            0x8 => self.decode_xy(),
            0x9 => self.decode_xy(),
            0xA => self.decode_nnn(),
            0xB => self.decode_nnn(),
            0xC => self.decode_xkk(),
            0xD => self.decode_xy(),
            0xE => self.decode_ex(),
            0xF => self.decode_fx(),
            _ => self.unknown(),
        }
    }
}

/// Whether `text` is the mnemonic of a word that names no instruction: it
/// begins with `UNKNOWN`.
pub open spec fn is_unknown(text: Seq<char>) -> bool {
    "UNKNOWN"@.is_prefix_of(text)
}

impl OpCode {
    /// Whether the word names an instruction.
    pub open spec fn recognized(&self) -> bool {
        if self.class == 0x5 || self.class == 0x9 {
            self.nibble == 0x0
        } else if self.class == 0x8 {
            self.nibble <= 0x7 || self.nibble == 0xE
        } else if self.class == 0xE {
            self.byte == 0x9E || self.byte == 0xA1
        } else if self.class == 0xF {
            self.byte == 0x07 || self.byte == 0x0A || self.byte == 0x15 || self.byte == 0x18
                || self.byte == 0x1E || self.byte == 0x29 || self.byte == 0x33 || self.byte == 0x55
                || self.byte == 0x65
        } else {
            self.class <= 0xF
        }
    }

    /// The mnemonic of a word begins with `UNKNOWN` if and only if the word
    /// names no instruction.
    pub proof fn lemma_unknown_mnemonic(&self)
        ensures
            is_unknown(self.mnemonic()) <==> !self.recognized(),
    {
        reveal_strlit("UNKNOWN");
        reveal_strlit("UNKNOWN: ");
        reveal_strlit("CLS");
        reveal_strlit("RET");
        reveal_strlit("SYS ");
        reveal_strlit("JP ");
        reveal_strlit("CALL ");
        reveal_strlit("LD I, ");
        reveal_strlit("JP V0, ");
        reveal_strlit("SE ");
        reveal_strlit("SNE ");
        reveal_strlit("LD ");
        reveal_strlit("ADD ");
        reveal_strlit("RND ");
        reveal_strlit("OR ");
        reveal_strlit("AND ");
        reveal_strlit("XOR ");
        reveal_strlit("SUB ");
        reveal_strlit("SHR ");
        reveal_strlit("SUBN ");
        reveal_strlit("SHL ");
        reveal_strlit("DRW ");
        reveal_strlit("SKP ");
        reveal_strlit("SKNP ");
        reveal_strlit("LD DT, ");
        reveal_strlit("LD ST, ");
        reveal_strlit("ADD I, ");
        reveal_strlit("LD F, ");
        reveal_strlit("LD B, ");
        reveal_strlit("LD [I], ");
        let text = self.mnemonic();
        if self.recognized() {
            assert(text.len() > 0 && text[0] != 'U');
            if text.len() >= 7 {
                assert(text.subrange(0, 7)[0] == text[0]);
                assert("UNKNOWN"@[0] == 'U');
            }
        } else {
            assert(text == self.unknown_text());
            assert(text.subrange(0, 7) =~= "UNKNOWN"@);
        }
    }
}

/// What masking and shifting give for each field of `raw`: the bounds of the
/// fields, and the same fields by division and remainder.
pub proof fn lemma_decoded(raw: u16)
    ensures
        (raw & 0xF000) >> 12 == raw >> 12,
        (raw & 0x0F00) >> 8 == (raw >> 8) & 0xF,
        (raw & 0x00F0) >> 4 == (raw >> 4) & 0xF,
        raw >> 12 == raw / 4096,
        raw & 0x0FFF == raw % 4096,
        (raw >> 8) & 0xF == (raw / 256) % 16,
        (raw >> 4) & 0xF == (raw / 16) % 16,
        raw & 0xFF == raw % 256,
        raw & 0xF == raw % 16,
        OpCode::decoded(raw).class == raw / 4096,
        OpCode::decoded(raw).addr == raw % 4096,
        OpCode::decoded(raw).reg_x == (raw / 256) % 16,
        OpCode::decoded(raw).reg_y == (raw / 16) % 16,
        OpCode::decoded(raw).byte == raw % 256,
        OpCode::decoded(raw).nibble == raw % 16,
{
    assert((raw & 0xF000) >> 12 == raw >> 12) by (bit_vector);
    assert((raw & 0x0F00) >> 8 == (raw >> 8) & 0xF) by (bit_vector);
    assert((raw & 0x00F0) >> 4 == (raw >> 4) & 0xF) by (bit_vector);
    assert(raw >> 12 == raw / 4096) by (bit_vector);
    assert(raw & 0x0FFF == raw % 4096) by (bit_vector);
    assert((raw >> 8) & 0xF == (raw / 256) % 16) by (bit_vector);
    assert((raw >> 4) & 0xF == (raw / 16) % 16) by (bit_vector);
    assert(raw & 0xFF == raw % 256) by (bit_vector);
    assert(raw & 0xF == raw % 16) by (bit_vector);
}

} // verus!
