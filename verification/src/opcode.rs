//! The decoder: a total, pure mapping from a 16-bit opcode word to a decoded
//! instruction. Every opcode that matches no defined pattern decodes to
//! `Instr::Unknown`, so decoding never fails.

use vstd::prelude::*;

verus! {

/// A decoded CHIP-8 instruction, one variant per defined opcode pattern plus
/// `Unknown` for everything else. Register indices carried by a variant are
/// always below 16.
#[derive(Clone, Copy, Debug, PartialEq, Eq, Structural)]
pub enum Instr {
    /// 00E0: clear the display.
    Cls,
    /// 00EE: return from a subroutine.
    Ret,
    /// 0nnn: machine-code routine; ignored by modern interpreters.
    Sys(u16),
    /// 1nnn: jump to nnn.
    Jp(u16),
    /// 2nnn: call the subroutine at nnn.
    Call(u16),
    /// 3xkk: skip the next instruction if Vx == kk.
    SeImm(u8, u8),
    /// 4xkk: skip the next instruction if Vx != kk.
    SneImm(u8, u8),
    /// 5xy0: skip the next instruction if Vx == Vy.
    SeReg(u8, u8),
    /// 9xy0: skip the next instruction if Vx != Vy.
    SneReg(u8, u8),
    /// 6xkk: Vx := kk.
    LdImm(u8, u8),
    /// 7xkk: Vx := (Vx + kk) mod 256; VF untouched.
    AddImm(u8, u8),
    /// 8xy0: Vx := Vy.
    LdReg(u8, u8),
    /// 8xy1: Vx := Vx | Vy.
    Or(u8, u8),
    /// 8xy2: Vx := Vx & Vy.
    And(u8, u8),
    /// 8xy3: Vx := Vx ^ Vy.
    Xor(u8, u8),
    /// 8xy4: Vx := (Vx + Vy) mod 256; VF := carry.
    Add(u8, u8),
    /// 8xy5: Vx := (Vx - Vy) mod 256; VF := not borrow.
    Sub(u8, u8),
    /// 8xy6: VF := Vx & 1; Vx := Vx >> 1.
    Shr(u8, u8),
    /// 8xy7: Vx := (Vy - Vx) mod 256; VF := not borrow.
    Subn(u8, u8),
    /// 8xyE: VF := top bit of Vx; Vx := (Vx << 1) mod 256.
    Shl(u8, u8),
    /// Annn: I := nnn.
    LdI(u16),
    /// Bnnn: jump to nnn + V0.
    JpV0(u16),
    /// Cxkk: Vx := random byte & kk.
    Rnd(u8, u8),
    /// Dxyn: draw an n-byte sprite from I at (Vx, Vy); VF := collision.
    Drw(u8, u8, u8),
    /// Ex9E: skip the next instruction if key Vx is pressed.
    Skp(u8),
    /// ExA1: skip the next instruction if key Vx is not pressed.
    Sknp(u8),
    /// Fx07: Vx := delay timer.
    LdVxDt(u8),
    /// Fx0A: suspend until a key is pressed and released; Vx := that key.
    LdKey(u8),
    /// Fx15: delay timer := Vx.
    LdDtVx(u8),
    /// Fx18: sound timer := Vx.
    LdStVx(u8),
    /// Fx1E: I := (I + Vx) mod 2^16.
    AddI(u8),
    /// Fx29: I := address of the font glyph for Vx & 0xF.
    LdFont(u8),
    /// Fx33: memory at I, I+1, I+2 := decimal digits of Vx.
    LdBcd(u8),
    /// Fx55: memory at I..=I+x := V0..=Vx.
    StRegs(u8),
    /// Fx65: V0..=Vx := memory at I..=I+x.
    LdRegs(u8),
    /// Any opcode that matches no pattern above.
    Unknown(u16),
}

/// The x nibble of an opcode: bits 8..12.
pub open spec fn op_x(op: u16) -> u8 {
    ((op / 0x100) % 0x10) as u8
}

/// The y nibble of an opcode: bits 4..8.
pub open spec fn op_y(op: u16) -> u8 {
    ((op / 0x10) % 0x10) as u8
}

/// The low nibble of an opcode.
pub open spec fn op_n(op: u16) -> u8 {
    (op % 0x10) as u8
}

/// The low byte of an opcode.
pub open spec fn op_kk(op: u16) -> u8 {
    (op % 0x100) as u8
}

/// The low 12 bits of an opcode.
pub open spec fn op_nnn(op: u16) -> u16 {
    (op % 0x1000) as u16
}

/// What an opcode decodes to. First match wins; patterns follow the CHIP-8
/// instruction set.
pub open spec fn decode_spec(op: u16) -> Instr {
    let t = op / 0x1000;
    if op == 0x00E0 {
        Instr::Cls
    } else if op == 0x00EE {
        Instr::Ret
    } else if t == 0x0 {
        Instr::Sys(op_nnn(op))
    } else if t == 0x1 {
        Instr::Jp(op_nnn(op))
    } else if t == 0x2 {
        Instr::Call(op_nnn(op))
    } else if t == 0x3 {
        Instr::SeImm(op_x(op), op_kk(op))
    } else if t == 0x4 {
        Instr::SneImm(op_x(op), op_kk(op))
    } else if t == 0x5 {
        if op % 0x10 == 0 {
            Instr::SeReg(op_x(op), op_y(op))
        } else {
            Instr::Unknown(op)
        }
    } else if t == 0x6 {
        Instr::LdImm(op_x(op), op_kk(op))
    } else if t == 0x7 {
        Instr::AddImm(op_x(op), op_kk(op))
    } else if t == 0x8 {
        let n = op % 0x10;
        if n == 0x0 {
            Instr::LdReg(op_x(op), op_y(op))
        } else if n == 0x1 {
            Instr::Or(op_x(op), op_y(op))
        } else if n == 0x2 {
            Instr::And(op_x(op), op_y(op))
        } else if n == 0x3 {
            Instr::Xor(op_x(op), op_y(op))
        } else if n == 0x4 {
            Instr::Add(op_x(op), op_y(op))
        } else if n == 0x5 {
            Instr::Sub(op_x(op), op_y(op))
        } else if n == 0x6 {
            Instr::Shr(op_x(op), op_y(op))
        } else if n == 0x7 {
            Instr::Subn(op_x(op), op_y(op))
        } else if n == 0xE {
            Instr::Shl(op_x(op), op_y(op))
        } else {
            Instr::Unknown(op)
        }
    } else if t == 0x9 {
        if op % 0x10 == 0 {
            Instr::SneReg(op_x(op), op_y(op))
        } else {
            Instr::Unknown(op)
        }
    } else if t == 0xA {
        Instr::LdI(op_nnn(op))
    } else if t == 0xB {
        Instr::JpV0(op_nnn(op))
    } else if t == 0xC {
        Instr::Rnd(op_x(op), op_kk(op))
    } else if t == 0xD {
        Instr::Drw(op_x(op), op_y(op), op_n(op))
    } else if t == 0xE {
        let kk = op % 0x100;
        if kk == 0x9E {
            Instr::Skp(op_x(op))
        } else if kk == 0xA1 {
            Instr::Sknp(op_x(op))
        } else {
            Instr::Unknown(op)
        }
    } else {
        let kk = op % 0x100;
        if kk == 0x07 {
            Instr::LdVxDt(op_x(op))
        } else if kk == 0x0A {
            Instr::LdKey(op_x(op))
        } else if kk == 0x15 {
            Instr::LdDtVx(op_x(op))
        } else if kk == 0x18 {
            Instr::LdStVx(op_x(op))
        } else if kk == 0x1E {
            Instr::AddI(op_x(op))
        } else if kk == 0x29 {
            Instr::LdFont(op_x(op))
        } else if kk == 0x33 {
            Instr::LdBcd(op_x(op))
        } else if kk == 0x55 {
            Instr::StRegs(op_x(op))
        } else if kk == 0x65 {
            Instr::LdRegs(op_x(op))
        } else {
            Instr::Unknown(op)
        }
    }
}

/// Register indices and the sprite height carried by an instruction are
/// nibbles, so they stay below 16.
pub open spec fn instr_wf(inst: Instr) -> bool {
    match inst {
        Instr::SeImm(x, _) => x < 16,
        Instr::SneImm(x, _) => x < 16,
        Instr::SeReg(x, y) => x < 16 && y < 16,
        Instr::SneReg(x, y) => x < 16 && y < 16,
        Instr::LdImm(x, _) => x < 16,
        Instr::AddImm(x, _) => x < 16,
        Instr::LdReg(x, y) => x < 16 && y < 16,
        Instr::Or(x, y) => x < 16 && y < 16,
        Instr::And(x, y) => x < 16 && y < 16,
        Instr::Xor(x, y) => x < 16 && y < 16,
        Instr::Add(x, y) => x < 16 && y < 16,
        Instr::Sub(x, y) => x < 16 && y < 16,
        Instr::Shr(x, y) => x < 16 && y < 16,
        Instr::Subn(x, y) => x < 16 && y < 16,
        Instr::Shl(x, y) => x < 16 && y < 16,
        Instr::Rnd(x, _) => x < 16,
        Instr::Drw(x, y, n) => x < 16 && y < 16 && n < 16,
        Instr::Skp(x) => x < 16,
        Instr::Sknp(x) => x < 16,
        Instr::LdVxDt(x) => x < 16,
        Instr::LdKey(x) => x < 16,
        Instr::LdDtVx(x) => x < 16,
        Instr::LdStVx(x) => x < 16,
        Instr::AddI(x) => x < 16,
        Instr::LdFont(x) => x < 16,
        Instr::LdBcd(x) => x < 16,
        Instr::StRegs(x) => x < 16,
        Instr::LdRegs(x) => x < 16,
        Instr::Jp(nnn) => nnn < 0x1000,
        Instr::Call(nnn) => nnn < 0x1000,
        Instr::JpV0(nnn) => nnn < 0x1000,
        Instr::LdI(nnn) => nnn < 0x1000,
        Instr::Sys(nnn) => nnn < 0x1000,
        Instr::Cls => true,
        Instr::Ret => true,
        Instr::Unknown(_) => true,
    }
}

/// Every decoded instruction is well formed.
pub proof fn lemma_decode_wf(op: u16)
    ensures
        instr_wf(decode_spec(op)),
{
}

/// Decode a 16-bit opcode. Total: every word maps to a defined variant or to
/// `Unknown`.
pub fn decode(op: u16) -> (inst: Instr)
    ensures
        inst == decode_spec(op),
{
    let t = op / 0x1000;
    let x = ((op / 0x100) % 0x10) as u8;
    let y = ((op / 0x10) % 0x10) as u8;
    let n = (op % 0x10) as u8;
    let kk = (op % 0x100) as u8;
    let nnn = op % 0x1000;
    if op == 0x00E0 {
        Instr::Cls
    } else if op == 0x00EE {
        Instr::Ret
    } else if t == 0x0 {
        Instr::Sys(nnn)
    } else if t == 0x1 {
        Instr::Jp(nnn)
    } else if t == 0x2 {
        Instr::Call(nnn)
    } else if t == 0x3 {
        Instr::SeImm(x, kk)
    } else if t == 0x4 {
        Instr::SneImm(x, kk)
    } else if t == 0x5 {
        if op % 0x10 == 0 {
            Instr::SeReg(x, y)
        } else {
            Instr::Unknown(op)
        }
    } else if t == 0x6 {
        Instr::LdImm(x, kk)
    } else if t == 0x7 {
        Instr::AddImm(x, kk)
    } else if t == 0x8 {
        if n == 0x0 {
            Instr::LdReg(x, y)
        } else if n == 0x1 {
            Instr::Or(x, y)
        } else if n == 0x2 {
            Instr::And(x, y)
        } else if n == 0x3 {
            Instr::Xor(x, y)
        } else if n == 0x4 {
            Instr::Add(x, y)
        } else if n == 0x5 {
            Instr::Sub(x, y)
        } else if n == 0x6 {
            Instr::Shr(x, y)
        } else if n == 0x7 {
            Instr::Subn(x, y)
        } else if n == 0xE {
            Instr::Shl(x, y)
        } else {
            Instr::Unknown(op)
        }
    } else if t == 0x9 {
        if op % 0x10 == 0 {
            Instr::SneReg(x, y)
        } else {
            Instr::Unknown(op)
        }
    } else if t == 0xA {
        Instr::LdI(nnn)
    } else if t == 0xB {
        Instr::JpV0(nnn)
    } else if t == 0xC {
        Instr::Rnd(x, kk)
    } else if t == 0xD {
        Instr::Drw(x, y, n)
    } else if t == 0xE {
        if kk == 0x9E {
            Instr::Skp(x)
        } else if kk == 0xA1 {
            Instr::Sknp(x)
        } else {
            Instr::Unknown(op)
        }
    } else {
        if kk == 0x07 {
            Instr::LdVxDt(x)
        } else if kk == 0x0A {
            Instr::LdKey(x)
        } else if kk == 0x15 {
            Instr::LdDtVx(x)
        } else if kk == 0x18 {
            Instr::LdStVx(x)
        } else if kk == 0x1E {
            Instr::AddI(x)
        } else if kk == 0x29 {
            Instr::LdFont(x)
        } else if kk == 0x33 {
            Instr::LdBcd(x)
        } else if kk == 0x55 {
            Instr::StRegs(x)
        } else if kk == 0x65 {
            Instr::LdRegs(x)
        } else {
            Instr::Unknown(op)
        }
    }
}

} // verus!
