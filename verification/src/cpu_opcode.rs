//! One handler per instruction. Each takes the machine state and the
//! instruction's decoded fields, and its contract says it performs exactly
//! the transition [`exec_op`] gives for that instruction. The program
//! counter is taken to point just past the instruction (the fetch step in
//! [`crate::cpu_core::CpuCore::tick`] advances it), so handlers add only
//! skip offsets or overwrite it with jump targets.

use vstd::prelude::*;

use crate::cpu::Cpu;
use crate::cpu::WaitKey;
use crate::cpu::copy_bools;
use crate::cpu_core::CpuCore;
use crate::ext::random_u8;
use crate::model::CpuV;
use crate::model::col_weight;
use crate::model::drw_cell_idx;
use crate::model::drw_coll_upto;
use crate::model::drw_vram_upto;
use crate::model::exec_op;
use crate::model::lemma_drw_coll_step;
use crate::model::lemma_drw_vram_step;
use crate::model::lemma_row_col;
use crate::model::lemma_row_col_base;
use crate::model::load_upto;
use crate::model::pc_back2;
use crate::model::pc_plus2;
use crate::model::sprite_row;
use crate::model::store_upto;
use crate::opcode::Instr;

verus! {

/// The place value of sprite column c: 2^(7 - c).
fn col_weight_of(c: usize) -> (w: u8)
    requires
        c < 8,
    ensures
        w == col_weight(c as int),
        w > 0,
{
    if c == 0 {
        128
    } else if c == 1 {
        64
    } else if c == 2 {
        32
    } else if c == 3 {
        16
    } else if c == 4 {
        8
    } else if c == 5 {
        4
    } else if c == 6 {
        2
    } else {
        1
    }
}

/// Move the program counter past the next two-byte instruction.
fn advance_pc(cpu: &mut Cpu)
    requires
        old(cpu).wf(),
    ensures
        final(cpu).wf(),
        final(cpu)@ == (CpuV { pc: pc_plus2(old(cpu)@.pc), ..old(cpu)@ }),
{
    let p: u32 = cpu.pc as u32 + 2;
    cpu.pc = (p % 0x10000) as u16;
    proof {
        assert(cpu@ =~= (CpuV { pc: pc_plus2(old(cpu)@.pc), ..old(cpu)@ }));
    }
}

/// Halt on a fatal error; the state stays observable.
fn halt(cpu: &mut Cpu)
    requires
        old(cpu).wf(),
    ensures
        final(cpu).wf(),
        final(cpu)@ == crate::model::halted(old(cpu)@),
{
    cpu.running = false;
    cpu.panicked = true;
    proof {
        assert(cpu@ =~= crate::model::halted(old(cpu)@));
    }
}

impl CpuCore {
    /// 0nnn, SYS: a machine-code routine on the original hardware; ignored
    /// by modern interpreters, so a no-op here.
    pub fn op_0nnn(&self, cpu: &mut Cpu, nnn: u16)
        requires
            old(cpu).wf(),
        ensures
            final(cpu).wf(),
            final(cpu)@ == exec_op(old(cpu)@, Instr::Sys(nnn), 0u8),
    {
    }

    /// 00E0, CLS: clear the display and raise the draw flag.
    pub fn op_00e0(&self, cpu: &mut Cpu)
        requires
            old(cpu).wf(),
        ensures
            final(cpu).wf(),
            final(cpu)@ == exec_op(old(cpu)@, Instr::Cls, 0u8),
    {
        cpu.vram = vec![false; 2048];
        cpu.draw_flag = true;
        proof {
            assert(cpu@ =~= exec_op(old(cpu)@, Instr::Cls, 0u8));
        }
    }

    /// 00EE, RET: pop the return address. Popping an empty stack is a fatal
    /// stack underflow.
    pub fn op_00ee(&self, cpu: &mut Cpu)
        requires
            old(cpu).wf(),
        ensures
            final(cpu).wf(),
            final(cpu)@ == exec_op(old(cpu)@, Instr::Ret, 0u8),
    {
        if cpu.sp == 0 {
            halt(cpu);
        } else {
            cpu.sp = cpu.sp - 1;
            cpu.pc = cpu.stack[cpu.sp as usize];
        }
        proof {
            assert(cpu@ =~= exec_op(old(cpu)@, Instr::Ret, 0u8));
        }
    }

    /// 1nnn, JP: jump to nnn.
    pub fn op_1nnn(&self, cpu: &mut Cpu, nnn: u16)
        requires
            old(cpu).wf(),
        ensures
            final(cpu).wf(),
            final(cpu)@ == exec_op(old(cpu)@, Instr::Jp(nnn), 0u8),
    {
        cpu.pc = nnn;
        proof {
            assert(cpu@ =~= exec_op(old(cpu)@, Instr::Jp(nnn), 0u8));
        }
    }

    /// 2nnn, CALL: push the address of the next instruction and jump to
    /// nnn. A seventeenth nested call is a fatal stack overflow.
    pub fn op_2nnn(&self, cpu: &mut Cpu, nnn: u16)
        requires
            old(cpu).wf(),
        ensures
            final(cpu).wf(),
            final(cpu)@ == exec_op(old(cpu)@, Instr::Call(nnn), 0u8),
    {
        if cpu.sp >= 16 {
            halt(cpu);
        } else {
            cpu.stack[cpu.sp as usize] = cpu.pc;
            cpu.sp = cpu.sp + 1;
            cpu.pc = nnn;
        }
        proof {
            assert(cpu@ =~= exec_op(old(cpu)@, Instr::Call(nnn), 0u8));
        }
    }

    /// 3xkk, SE: skip the next instruction if Vx == kk.
    pub fn op_3xkk(&self, cpu: &mut Cpu, x: u8, kk: u8)
        requires
            old(cpu).wf(),
            x < 16,
        ensures
            final(cpu).wf(),
            final(cpu)@ == exec_op(old(cpu)@, Instr::SeImm(x, kk), 0u8),
    {
        if cpu.v[x as usize] == kk {
            advance_pc(cpu);
        }
        proof {
            assert(cpu@ =~= exec_op(old(cpu)@, Instr::SeImm(x, kk), 0u8));
        }
    }

    /// 4xkk, SNE: skip the next instruction if Vx != kk.
    pub fn op_4xkk(&self, cpu: &mut Cpu, x: u8, kk: u8)
        requires
            old(cpu).wf(),
            x < 16,
        ensures
            final(cpu).wf(),
            final(cpu)@ == exec_op(old(cpu)@, Instr::SneImm(x, kk), 0u8),
    {
        if cpu.v[x as usize] != kk {
            advance_pc(cpu);
        }
        proof {
            assert(cpu@ =~= exec_op(old(cpu)@, Instr::SneImm(x, kk), 0u8));
        }
    }

    /// 5xy0, SE: skip the next instruction if Vx == Vy.
    pub fn op_5xy0(&self, cpu: &mut Cpu, x: u8, y: u8)
        requires
            old(cpu).wf(),
            x < 16,
            y < 16,
        ensures
            final(cpu).wf(),
            final(cpu)@ == exec_op(old(cpu)@, Instr::SeReg(x, y), 0u8),
    {
        if cpu.v[x as usize] == cpu.v[y as usize] {
            advance_pc(cpu);
        }
        proof {
            assert(cpu@ =~= exec_op(old(cpu)@, Instr::SeReg(x, y), 0u8));
        }
    }

    /// 9xy0, SNE: skip the next instruction if Vx != Vy.
    pub fn op_9xy0(&self, cpu: &mut Cpu, x: u8, y: u8)
        requires
            old(cpu).wf(),
            x < 16,
            y < 16,
        ensures
            final(cpu).wf(),
            final(cpu)@ == exec_op(old(cpu)@, Instr::SneReg(x, y), 0u8),
    {
        if cpu.v[x as usize] != cpu.v[y as usize] {
            advance_pc(cpu);
        }
        proof {
            assert(cpu@ =~= exec_op(old(cpu)@, Instr::SneReg(x, y), 0u8));
        }
    }

    /// 6xkk, LD: Vx := kk.
    pub fn op_6xkk(&self, cpu: &mut Cpu, x: u8, kk: u8)
        requires
            old(cpu).wf(),
            x < 16,
        ensures
            final(cpu).wf(),
            final(cpu)@ == exec_op(old(cpu)@, Instr::LdImm(x, kk), 0u8),
    {
        cpu.v[x as usize] = kk;
        proof {
            assert(cpu@ =~= exec_op(old(cpu)@, Instr::LdImm(x, kk), 0u8));
        }
    }

    /// 7xkk, ADD: Vx := (Vx + kk) mod 256; the flag register is untouched.
    pub fn op_7xkk(&self, cpu: &mut Cpu, x: u8, kk: u8)
        requires
            old(cpu).wf(),
            x < 16,
        ensures
            final(cpu).wf(),
            final(cpu)@ == exec_op(old(cpu)@, Instr::AddImm(x, kk), 0u8),
    {
        let sum: u16 = cpu.v[x as usize] as u16 + kk as u16;
        cpu.v[x as usize] = (sum % 256) as u8;
        proof {
            assert(cpu@ =~= exec_op(old(cpu)@, Instr::AddImm(x, kk), 0u8));
        }
    }

    /// 8xy0, LD: Vx := Vy.
    pub fn op_8xy0(&self, cpu: &mut Cpu, x: u8, y: u8)
        requires
            old(cpu).wf(),
            x < 16,
            y < 16,
        ensures
            final(cpu).wf(),
            final(cpu)@ == exec_op(old(cpu)@, Instr::LdReg(x, y), 0u8),
    {
        let vy = cpu.v[y as usize];
        cpu.v[x as usize] = vy;
        proof {
            assert(cpu@ =~= exec_op(old(cpu)@, Instr::LdReg(x, y), 0u8));
        }
    }

    /// 8xy1, OR: Vx := Vx | Vy.
    pub fn op_8xy1(&self, cpu: &mut Cpu, x: u8, y: u8)
        requires
            old(cpu).wf(),
            x < 16,
            y < 16,
        ensures
            final(cpu).wf(),
            final(cpu)@ == exec_op(old(cpu)@, Instr::Or(x, y), 0u8),
    {
        let r = cpu.v[x as usize] | cpu.v[y as usize];
        cpu.v[x as usize] = r;
        proof {
            assert(cpu@ =~= exec_op(old(cpu)@, Instr::Or(x, y), 0u8));
        }
    }

    /// 8xy2, AND: Vx := Vx & Vy.
    pub fn op_8xy2(&self, cpu: &mut Cpu, x: u8, y: u8)
        requires
            old(cpu).wf(),
            x < 16,
            y < 16,
        ensures
            final(cpu).wf(),
            final(cpu)@ == exec_op(old(cpu)@, Instr::And(x, y), 0u8),
    {
        let r = cpu.v[x as usize] & cpu.v[y as usize];
        cpu.v[x as usize] = r;
        proof {
            assert(cpu@ =~= exec_op(old(cpu)@, Instr::And(x, y), 0u8));
        }
    }

    /// 8xy3, XOR: Vx := Vx ^ Vy.
    pub fn op_8xy3(&self, cpu: &mut Cpu, x: u8, y: u8)
        requires
            old(cpu).wf(),
            x < 16,
            y < 16,
        ensures
            final(cpu).wf(),
            final(cpu)@ == exec_op(old(cpu)@, Instr::Xor(x, y), 0u8),
    {
        let r = cpu.v[x as usize] ^ cpu.v[y as usize];
        cpu.v[x as usize] = r;
        proof {
            assert(cpu@ =~= exec_op(old(cpu)@, Instr::Xor(x, y), 0u8));
        }
    }

    /// 8xy4, ADD: Vx := (Vx + Vy) mod 256, then VF := 1 exactly when the
    /// sum overflowed a byte. VF is written last, so it wins when x is 0xF.
    pub fn op_8xy4(&self, cpu: &mut Cpu, x: u8, y: u8)
        requires
            old(cpu).wf(),
            x < 16,
            y < 16,
        ensures
            final(cpu).wf(),
            final(cpu)@ == exec_op(old(cpu)@, Instr::Add(x, y), 0u8),
    {
        let sum: u16 = cpu.v[x as usize] as u16 + cpu.v[y as usize] as u16;
        cpu.v[x as usize] = (sum % 256) as u8;
        cpu.v[15] = if sum > 255 {
            1
        } else {
            0
        };
        proof {
            assert(cpu@ =~= exec_op(old(cpu)@, Instr::Add(x, y), 0u8));
        }
    }

    /// 8xy5, SUB: Vx := (Vx - Vy) mod 256, then VF := 1 exactly when no
    /// borrow occurred (Vx >= Vy). VF is written last.
    pub fn op_8xy5(&self, cpu: &mut Cpu, x: u8, y: u8)
        requires
            old(cpu).wf(),
            x < 16,
            y < 16,
        ensures
            final(cpu).wf(),
            final(cpu)@ == exec_op(old(cpu)@, Instr::Sub(x, y), 0u8),
    {
        let a = cpu.v[x as usize];
        let b = cpu.v[y as usize];
        let diff: u8 = if a >= b {
            a - b
        } else {
            (a as u16 + 256 - b as u16) as u8
        };
        cpu.v[x as usize] = diff;
        cpu.v[15] = if a >= b {
            1
        } else {
            0
        };
        proof {
            assert(cpu@ =~= exec_op(old(cpu)@, Instr::Sub(x, y), 0u8));
        }
    }

    /// 8xy7, SUBN: Vx := (Vy - Vx) mod 256, then VF := 1 exactly when no
    /// borrow occurred (Vy >= Vx). VF is written last.
    pub fn op_8xy7(&self, cpu: &mut Cpu, x: u8, y: u8)
        requires
            old(cpu).wf(),
            x < 16,
            y < 16,
        ensures
            final(cpu).wf(),
            final(cpu)@ == exec_op(old(cpu)@, Instr::Subn(x, y), 0u8),
    {
        let a = cpu.v[x as usize];
        let b = cpu.v[y as usize];
        let diff: u8 = if b >= a {
            b - a
        } else {
            (b as u16 + 256 - a as u16) as u8
        };
        cpu.v[x as usize] = diff;
        cpu.v[15] = if b >= a {
            1
        } else {
            0
        };
        proof {
            assert(cpu@ =~= exec_op(old(cpu)@, Instr::Subn(x, y), 0u8));
        }
    }

    /// 8xy6, SHR: Vx := Vx >> 1, then VF := the bit shifted out (the old
    /// least significant bit). VF is written last.
    pub fn op_8xy6(&self, cpu: &mut Cpu, x: u8, y: u8)
        requires
            old(cpu).wf(),
            x < 16,
            y < 16,
        ensures
            final(cpu).wf(),
            final(cpu)@ == exec_op(old(cpu)@, Instr::Shr(x, y), 0u8),
    {
        let vx = cpu.v[x as usize];
        cpu.v[x as usize] = vx / 2;
        cpu.v[15] = vx % 2;
        proof {
            assert(cpu@ =~= exec_op(old(cpu)@, Instr::Shr(x, y), 0u8));
        }
    }

    /// 8xyE, SHL: Vx := (Vx << 1) mod 256, then VF := the bit shifted out
    /// (the old most significant bit). VF is written last.
    pub fn op_8xye(&self, cpu: &mut Cpu, x: u8, y: u8)
        requires
            old(cpu).wf(),
            x < 16,
            y < 16,
        ensures
            final(cpu).wf(),
            final(cpu)@ == exec_op(old(cpu)@, Instr::Shl(x, y), 0u8),
    {
        let vx = cpu.v[x as usize];
        cpu.v[x as usize] = ((vx as u16 * 2) % 256) as u8;
        cpu.v[15] = vx / 128;
        proof {
            assert(cpu@ =~= exec_op(old(cpu)@, Instr::Shl(x, y), 0u8));
        }
    }

    /// Annn, LD I: I := nnn.
    pub fn op_annn(&self, cpu: &mut Cpu, nnn: u16)
        requires
            old(cpu).wf(),
        ensures
            final(cpu).wf(),
            final(cpu)@ == exec_op(old(cpu)@, Instr::LdI(nnn), 0u8),
    {
        cpu.i = nnn;
        proof {
            assert(cpu@ =~= exec_op(old(cpu)@, Instr::LdI(nnn), 0u8));
        }
    }

    /// Bnnn, JP V0: jump to nnn + V0.
    pub fn op_bnnn(&self, cpu: &mut Cpu, nnn: u16)
        requires
            old(cpu).wf(),
        ensures
            final(cpu).wf(),
            final(cpu)@ == exec_op(old(cpu)@, Instr::JpV0(nnn), 0u8),
    {
        let p: u32 = nnn as u32 + cpu.v[0] as u32;
        cpu.pc = (p % 0x10000) as u16;
        proof {
            assert(cpu@ =~= exec_op(old(cpu)@, Instr::JpV0(nnn), 0u8));
        }
    }

    /// Cxkk, RND: Vx := a fresh random byte masked with kk. The drawn byte
    /// is unconstrained, so the contract holds for some byte.
    pub fn op_cxkk(&self, cpu: &mut Cpu, x: u8, kk: u8)
        requires
            old(cpu).wf(),
            x < 16,
        ensures
            final(cpu).wf(),
            exists|r: u8| final(cpu)@ == exec_op(old(cpu)@, Instr::Rnd(x, kk), r),
    {
        let r = random_u8();
        cpu.v[x as usize] = r & kk;
        proof {
            assert(cpu@ =~= exec_op(old(cpu)@, Instr::Rnd(x, kk), r));
            assert(exists|rb: u8| cpu@ == exec_op(old(cpu)@, Instr::Rnd(x, kk), rb));
        }
    }

    /// Dxyn, DRW: XOR an n-byte sprite read from I onto the frame buffer at
    /// (Vx mod 64, Vy mod 32). Only the start coordinates wrap; sprite
    /// pixels past the right or bottom edge are clipped. VF is set exactly
    /// when a sprite pixel erased a lit cell, and is written last.
    pub fn op_dxyn(&self, cpu: &mut Cpu, x: u8, y: u8, n: u8)
        requires
            old(cpu).wf(),
            x < 16,
            y < 16,
            n < 16,
        ensures
            final(cpu).wf(),
            final(cpu)@ == exec_op(old(cpu)@, Instr::Drw(x, y, n), 0u8),
    {
        let sx: usize = (cpu.v[x as usize] % 64) as usize;
        let sy: usize = (cpu.v[y as usize] % 32) as usize;
        let mut coll = false;
        let mut j: usize = 0;
        while j < n as usize
            invariant
                old(cpu).wf(),
                x < 16,
                y < 16,
                n < 16,
                sx == old(cpu)@.v[x as int] % 64,
                sy == old(cpu)@.v[y as int] % 32,
                j <= n,
                cpu.wf(),
                cpu@ == (CpuV {
                    vram: drw_vram_upto(old(cpu)@, sx as int, sy as int, n as int, 8 * j),
                    ..old(cpu)@
                }),
                coll == drw_coll_upto(old(cpu)@, sx as int, sy as int, n as int, 8 * j),
            decreases n as usize - j,
        {
            let row = cpu.mem[(cpu.i as usize + j) % 4096];
            assert(row == sprite_row(old(cpu)@, j as int));
            let mut c: usize = 0;
            while c < 8
                invariant
                    old(cpu).wf(),
                    x < 16,
                    y < 16,
                    n < 16,
                    sx == old(cpu)@.v[x as int] % 64,
                    sy == old(cpu)@.v[y as int] % 32,
                    j < n,
                    c <= 8,
                    row == sprite_row(old(cpu)@, j as int),
                    cpu.wf(),
                    cpu@ == (CpuV {
                        vram: drw_vram_upto(
                            old(cpu)@,
                            sx as int,
                            sy as int,
                            n as int,
                            8 * j + c,
                        ),
                        ..old(cpu)@
                    }),
                    coll == drw_coll_upto(old(cpu)@, sx as int, sy as int, n as int, 8 * j + c),
                decreases 8 - c,
            {
                let ghost p: int = 8 * j + c;
                proof {
                    assert(p / 8 == j && p % 8 == c) by {
                        lemma_row_col_base(j as int, c as int);
                    }
                }
                let rr = sy + j;
                let cc = sx + c;
                let weight = col_weight_of(c);
                let bit = (row / weight) % 2 == 1;
                if rr < 32 && cc < 64 {
                    let idx = rr * 64 + cc;
                    proof {
                        lemma_row_col(rr as int, cc as int);
                        assert(idx == drw_cell_idx(sx as int, sy as int, p));
                        assert(cpu@.vram[idx as int] == old(cpu)@.vram[idx as int]);
                    }
                    if bit {
                        let cur = cpu.vram[idx];
                        if cur {
                            coll = true;
                        }
                        cpu.vram[idx] = !cur;
                    }
                }
                proof {
                    lemma_drw_vram_step(old(cpu)@, sx as int, sy as int, n as int, p);
                    lemma_drw_coll_step(old(cpu)@, sx as int, sy as int, n as int, p);
                    assert(cpu@.vram =~= drw_vram_upto(
                        old(cpu)@,
                        sx as int,
                        sy as int,
                        n as int,
                        p + 1,
                    ));
                    assert(cpu@ =~= (CpuV {
                        vram: drw_vram_upto(old(cpu)@, sx as int, sy as int, n as int, p + 1),
                        ..old(cpu)@
                    }));
                }
                c += 1;
            }
            j += 1;
        }
        cpu.v[15] = if coll {
            1
        } else {
            0
        };
        cpu.draw_flag = true;
        proof {
            assert(cpu@ =~= exec_op(old(cpu)@, Instr::Drw(x, y, n), 0u8));
        }
    }

    /// Ex9E, SKP: skip the next instruction if the key numbered by the low
    /// nibble of Vx is down.
    pub fn op_ex9e(&self, cpu: &mut Cpu, x: u8)
        requires
            old(cpu).wf(),
            x < 16,
        ensures
            final(cpu).wf(),
            final(cpu)@ == exec_op(old(cpu)@, Instr::Skp(x), 0u8),
    {
        let key = (cpu.v[x as usize] % 16) as usize;
        if cpu.keypad[key] {
            advance_pc(cpu);
        }
        proof {
            assert(cpu@ =~= exec_op(old(cpu)@, Instr::Skp(x), 0u8));
        }
    }

    /// ExA1, SKNP: skip the next instruction if that key is up.
    pub fn op_exa1(&self, cpu: &mut Cpu, x: u8)
        requires
            old(cpu).wf(),
            x < 16,
        ensures
            final(cpu).wf(),
            final(cpu)@ == exec_op(old(cpu)@, Instr::Sknp(x), 0u8),
    {
        let key = (cpu.v[x as usize] % 16) as usize;
        if !cpu.keypad[key] {
            advance_pc(cpu);
        }
        proof {
            assert(cpu@ =~= exec_op(old(cpu)@, Instr::Sknp(x), 0u8));
        }
    }

    /// Fx07, LD Vx DT: Vx := delay timer.
    pub fn op_fx07(&self, cpu: &mut Cpu, x: u8)
        requires
            old(cpu).wf(),
            x < 16,
        ensures
            final(cpu).wf(),
            final(cpu)@ == exec_op(old(cpu)@, Instr::LdVxDt(x), 0u8),
    {
        let dt = cpu.delay_timer;
        cpu.v[x as usize] = dt;
        proof {
            assert(cpu@ =~= exec_op(old(cpu)@, Instr::LdVxDt(x), 0u8));
        }
    }

    /// Fx0A, LD Vx K: suspend on a keypad wait. The keypad is snapshotted
    /// and the program counter moves back onto this instruction, so the
    /// machine keeps re-entering the wait until a key seen down during it is
    /// released.
    pub fn op_fx0a(&self, cpu: &mut Cpu, x: u8)
        requires
            old(cpu).wf(),
            x < 16,
        ensures
            final(cpu).wf(),
            final(cpu)@ == exec_op(old(cpu)@, Instr::LdKey(x), 0u8),
    {
        let seen = copy_bools(&cpu.keypad);
        cpu.wait_for_key = Some(WaitKey { reg: x, seen });
        let p: u32 = cpu.pc as u32 + 0xFFFE;
        cpu.pc = (p % 0x10000) as u16;
        proof {
            assert(cpu@.pc == pc_back2(old(cpu)@.pc));
            assert(cpu@ =~= exec_op(old(cpu)@, Instr::LdKey(x), 0u8));
        }
    }

    /// Fx15, LD DT: delay timer := Vx.
    pub fn op_fx15(&self, cpu: &mut Cpu, x: u8)
        requires
            old(cpu).wf(),
            x < 16,
        ensures
            final(cpu).wf(),
            final(cpu)@ == exec_op(old(cpu)@, Instr::LdDtVx(x), 0u8),
    {
        cpu.delay_timer = cpu.v[x as usize];
        proof {
            assert(cpu@ =~= exec_op(old(cpu)@, Instr::LdDtVx(x), 0u8));
        }
    }

    /// Fx18, LD ST: sound timer := Vx.
    pub fn op_fx18(&self, cpu: &mut Cpu, x: u8)
        requires
            old(cpu).wf(),
            x < 16,
        ensures
            final(cpu).wf(),
            final(cpu)@ == exec_op(old(cpu)@, Instr::LdStVx(x), 0u8),
    {
        cpu.sound_timer = cpu.v[x as usize];
        proof {
            assert(cpu@ =~= exec_op(old(cpu)@, Instr::LdStVx(x), 0u8));
        }
    }

    /// Fx1E, ADD I: I := (I + Vx) mod 2^16. VF is untouched.
    pub fn op_fx1e(&self, cpu: &mut Cpu, x: u8)
        requires
            old(cpu).wf(),
            x < 16,
        ensures
            final(cpu).wf(),
            final(cpu)@ == exec_op(old(cpu)@, Instr::AddI(x), 0u8),
    {
        let p: u32 = cpu.i as u32 + cpu.v[x as usize] as u32;
        cpu.i = (p % 0x10000) as u16;
        proof {
            assert(cpu@ =~= exec_op(old(cpu)@, Instr::AddI(x), 0u8));
        }
    }

    /// Fx29, LD F: I := the font address of the glyph for the low nibble of
    /// Vx; each glyph is five bytes from the bottom of memory.
    pub fn op_fx29(&self, cpu: &mut Cpu, x: u8)
        requires
            old(cpu).wf(),
            x < 16,
        ensures
            final(cpu).wf(),
            final(cpu)@ == exec_op(old(cpu)@, Instr::LdFont(x), 0u8),
    {
        let glyph = cpu.v[x as usize] % 16;
        cpu.i = 5 * glyph as u16;
        proof {
            assert(cpu@ =~= exec_op(old(cpu)@, Instr::LdFont(x), 0u8));
        }
    }

    /// Fx33, LD B: the three decimal digits of Vx land at I, I+1, I+2, most
    /// significant first, addresses taken within the 4 KiB space.
    pub fn op_fx33(&self, cpu: &mut Cpu, x: u8)
        requires
            old(cpu).wf(),
            x < 16,
        ensures
            final(cpu).wf(),
            final(cpu)@ == exec_op(old(cpu)@, Instr::LdBcd(x), 0u8),
    {
        let vx = cpu.v[x as usize];
        let a0 = (cpu.i as usize) % 4096;
        let a1 = (cpu.i as usize + 1) % 4096;
        let a2 = (cpu.i as usize + 2) % 4096;
        cpu.mem[a0] = vx / 100;
        cpu.mem[a1] = (vx / 10) % 10;
        cpu.mem[a2] = vx % 10;
        proof {
            assert(cpu@ =~= exec_op(old(cpu)@, Instr::LdBcd(x), 0u8));
        }
    }

    /// Fx55, LD [I]: V0 through Vx land at I, I+1, ..., addresses taken
    /// within the 4 KiB space. I itself is untouched.
    pub fn op_fx55(&self, cpu: &mut Cpu, x: u8)
        requires
            old(cpu).wf(),
            x < 16,
        ensures
            final(cpu).wf(),
            final(cpu)@ == exec_op(old(cpu)@, Instr::StRegs(x), 0u8),
    {
        let mut k: usize = 0;
        while k < x as usize + 1
            invariant
                old(cpu).wf(),
                x < 16,
                k <= x as usize + 1,
                cpu.wf(),
                cpu@ == (CpuV { mem: store_upto(old(cpu)@, k as int), ..old(cpu)@ }),
            decreases x as usize + 1 - k,
        {
            let addr = (cpu.i as usize + k) % 4096;
            cpu.mem[addr] = cpu.v[k];
            proof {
                assert(cpu@ =~= (CpuV { mem: store_upto(old(cpu)@, k + 1), ..old(cpu)@ }));
            }
            k += 1;
        }
        proof {
            assert(cpu@ =~= exec_op(old(cpu)@, Instr::StRegs(x), 0u8));
        }
    }

    /// Fx65, LD Vx [I]: V0 through Vx are read from I, I+1, ..., addresses
    /// taken within the 4 KiB space. I itself is untouched.
    pub fn op_fx65(&self, cpu: &mut Cpu, x: u8)
        requires
            old(cpu).wf(),
            x < 16,
        ensures
            final(cpu).wf(),
            final(cpu)@ == exec_op(old(cpu)@, Instr::LdRegs(x), 0u8),
    {
        let mut k: usize = 0;
        while k < x as usize + 1
            invariant
                old(cpu).wf(),
                x < 16,
                k <= x as usize + 1,
                cpu.wf(),
                cpu@ == (CpuV { v: load_upto(old(cpu)@, k as int), ..old(cpu)@ }),
            decreases x as usize + 1 - k,
        {
            let addr = (cpu.i as usize + k) % 4096;
            let b = cpu.mem[addr];
            cpu.v[k] = b;
            proof {
                assert(cpu@ =~= (CpuV { v: load_upto(old(cpu)@, k + 1), ..old(cpu)@ }));
            }
            k += 1;
        }
        proof {
            assert(cpu@ =~= exec_op(old(cpu)@, Instr::LdRegs(x), 0u8));
        }
    }
}

} // verus!
