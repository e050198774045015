//! The stateless interpreter: fetch, decode, execute and the per-tick timer
//! step, threading an owned [`Cpu`] record through each transition. One call
//! to [`CpuCore::tick`] performs exactly one [`crate::model::step_spec`]
//! transition.

use vstd::prelude::*;

use crate::cpu::Cpu;
use crate::cpu::WaitKey;
use crate::cpu::copy_bools;
use crate::model::CpuV;
use crate::model::dec_timers;
use crate::model::exec_op;
use crate::model::fetch_spec;
use crate::model::find_released;
use crate::model::load_rom_spec;
use crate::model::pc_plus2;
use crate::model::step_spec;
use crate::model::wait_tick;
use crate::opcode::Instr;
use crate::opcode::decode;
use crate::opcode::decode_spec;
use crate::opcode::instr_wf;
use crate::opcode::lemma_decode_wf;
use crate::opcode::op_x;
use crate::opcode::op_y;

verus! {

/// The errors the core surfaces to its caller.
#[derive(Clone, Copy, Debug, PartialEq, Eq, Structural)]
pub enum EmuError {
    /// A ROM longer than the program area of memory.
    RomTooLarge,
}

/// The stateless executor. All machine state lives in the [`Cpu`] record a
/// caller passes in.
pub struct CpuCore {}

/// Decrement both timers, each while above zero: the 60 Hz timer step every
/// tick performs once.
fn tick_timers(cpu: &mut Cpu)
    requires
        old(cpu).wf(),
    ensures
        final(cpu).wf(),
        final(cpu)@ == dec_timers(old(cpu)@),
{
    if cpu.delay_timer > 0 {
        cpu.delay_timer = cpu.delay_timer - 1;
    }
    if cpu.sound_timer > 0 {
        cpu.sound_timer = cpu.sound_timer - 1;
    }
    proof {
        assert(cpu@ =~= dec_timers(old(cpu)@));
    }
}

impl CpuCore {
    pub fn new() -> (core: CpuCore) {
        CpuCore {  }
    }

    /// The register indices named by the middle nibbles of an opcode.
    pub fn regs_xy(opcode: u16) -> (r: (usize, usize))
        ensures
            r.0 == op_x(opcode) as usize,
            r.1 == op_y(opcode) as usize,
            r.0 < 16,
            r.1 < 16,
    {
        let x = ((opcode / 0x100) % 0x10) as usize;
        let y = ((opcode / 0x10) % 0x10) as usize;
        (x, y)
    }

    /// The two bytes at the program counter, big endian.
    pub fn fetch_opcode(&self, cpu: &Cpu) -> (op: u16)
        requires
            cpu.wf(),
            cpu@.pc < 0xFFF,
        ensures
            op == fetch_spec(cpu@),
    {
        let hi = cpu.mem[cpu.pc as usize];
        let lo = cpu.mem[cpu.pc as usize + 1];
        hi as u16 * 256 + lo as u16
    }

    /// Apply one decoded instruction: the dispatch over the instruction
    /// variants. The program counter is taken to point just past the
    /// instruction. Executing `Unknown` is recoverable: the state is left
    /// alone and the machine continues.
    pub fn execute(&self, cpu: &mut Cpu, inst: Instr)
        requires
            old(cpu).wf(),
            instr_wf(inst),
        ensures
            final(cpu).wf(),
            exists|r: u8| final(cpu)@ == exec_op(old(cpu)@, inst, r),
    {
        match inst {
            Instr::Cls => self.op_00e0(cpu),
            Instr::Ret => self.op_00ee(cpu),
            Instr::Sys(nnn) => self.op_0nnn(cpu, nnn),
            Instr::Jp(nnn) => self.op_1nnn(cpu, nnn),
            Instr::Call(nnn) => self.op_2nnn(cpu, nnn),
            Instr::SeImm(x, kk) => self.op_3xkk(cpu, x, kk),
            Instr::SneImm(x, kk) => self.op_4xkk(cpu, x, kk),
            Instr::SeReg(x, y) => self.op_5xy0(cpu, x, y),
            Instr::SneReg(x, y) => self.op_9xy0(cpu, x, y),
            Instr::LdImm(x, kk) => self.op_6xkk(cpu, x, kk),
            Instr::AddImm(x, kk) => self.op_7xkk(cpu, x, kk),
            Instr::LdReg(x, y) => self.op_8xy0(cpu, x, y),
            Instr::Or(x, y) => self.op_8xy1(cpu, x, y),
            Instr::And(x, y) => self.op_8xy2(cpu, x, y),
            Instr::Xor(x, y) => self.op_8xy3(cpu, x, y),
            Instr::Add(x, y) => self.op_8xy4(cpu, x, y),
            Instr::Sub(x, y) => self.op_8xy5(cpu, x, y),
            Instr::Shr(x, y) => self.op_8xy6(cpu, x, y),
            Instr::Subn(x, y) => self.op_8xy7(cpu, x, y),
            Instr::Shl(x, y) => self.op_8xye(cpu, x, y),
            Instr::LdI(nnn) => self.op_annn(cpu, nnn),
            Instr::JpV0(nnn) => self.op_bnnn(cpu, nnn),
            Instr::Rnd(x, kk) => self.op_cxkk(cpu, x, kk),
            Instr::Drw(x, y, n) => self.op_dxyn(cpu, x, y, n),
            Instr::Skp(x) => self.op_ex9e(cpu, x),
            Instr::Sknp(x) => self.op_exa1(cpu, x),
            Instr::LdVxDt(x) => self.op_fx07(cpu, x),
            Instr::LdKey(x) => self.op_fx0a(cpu, x),
            Instr::LdDtVx(x) => self.op_fx15(cpu, x),
            Instr::LdStVx(x) => self.op_fx18(cpu, x),
            Instr::AddI(x) => self.op_fx1e(cpu, x),
            Instr::LdFont(x) => self.op_fx29(cpu, x),
            Instr::LdBcd(x) => self.op_fx33(cpu, x),
            Instr::StRegs(x) => self.op_fx55(cpu, x),
            Instr::LdRegs(x) => self.op_fx65(cpu, x),
            Instr::Unknown(_) => {
                proof {
                    assert(cpu@ =~= exec_op(old(cpu)@, inst, 0u8));
                }
            },
        }
    }

    /// Decode an opcode word and apply it: decode plus execute, with no
    /// program-counter advance of its own.
    pub fn decode_opcode(&self, cpu: &mut Cpu, opcode: u16)
        requires
            old(cpu).wf(),
        ensures
            final(cpu).wf(),
            exists|r: u8| final(cpu)@ == exec_op(old(cpu)@, decode_spec(opcode), r),
    {
        let inst = decode(opcode);
        proof {
            lemma_decode_wf(opcode);
        }
        self.execute(cpu, inst);
    }

    /// Resolve a pending Fx0A wait for one tick: fill the register and move
    /// on when a key seen down during the wait has been released, otherwise
    /// keep waiting and remember every key currently down.
    fn resolve_key_wait(&self, cpu: &mut Cpu)
        requires
            old(cpu).wf(),
            old(cpu)@.wait_for_key is Some,
        ensures
            final(cpu).wf(),
            final(cpu)@ == wait_tick(old(cpu)@, old(cpu)@.wait_for_key->Some_0),
    {
        let (reg, seen) = match &cpu.wait_for_key {
            Some(w) => (w.reg, copy_bools(&w.seen)),
            None => unreached(),
        };
        let mut k: usize = 0;
        while k < 16 && !(seen[k] && !cpu.keypad[k])
            invariant
                cpu == old(cpu),
                cpu.wf(),
                seen@ == old(cpu)@.wait_for_key->Some_0.seen,
                seen@.len() == 16,
                k <= 16,
                find_released(seen@, cpu@.keypad, 0) == find_released(
                    seen@,
                    cpu@.keypad,
                    k as int,
                ),
            decreases 16 - k,
        {
            k += 1;
        }
        proof {
            assert(find_released(seen@, cpu@.keypad, 0) == (if k < 16 { k as int } else { 16 }));
        }
        if k < 16 {
            cpu.v[reg as usize] = k as u8;
            cpu.wait_for_key = None;
            let p: u32 = cpu.pc as u32 + 2;
            cpu.pc = (p % 0x10000) as u16;
        } else {
            let mut merged: Vec<bool> = Vec::new();
            let mut t: usize = 0;
            while t < 16
                invariant
                    cpu.wf(),
                    seen@.len() == 16,
                    t <= 16,
                    merged@.len() == t,
                    forall|q: int| 0 <= q < t ==> merged@[q] == (seen@[q] || cpu@.keypad[q]),
                decreases 16 - t,
            {
                let b = seen[t] || cpu.keypad[t];
                merged.push(b);
                t += 1;
            }
            cpu.wait_for_key = Some(WaitKey { reg, seen: merged });
            proof {
                assert(cpu@.wait_for_key->Some_0.seen =~= Seq::new(
                    16,
                    |q: int| old(cpu)@.wait_for_key->Some_0.seen[q] || old(cpu)@.keypad[q],
                ));
            }
        }
        proof {
            assert(cpu@ =~= wait_tick(old(cpu)@, old(cpu)@.wait_for_key->Some_0));
        }
    }

    /// One tick: nothing when the machine is halted; the Fx0A resolution
    /// plus the timer step while a key wait is pending; otherwise fetch
    /// (fatal when the program counter has left the addressable range),
    /// advance past the instruction, step the timers, and execute.
    pub fn tick(&self, cpu: &mut Cpu)
        requires
            old(cpu).wf(),
        ensures
            final(cpu).wf(),
            exists|r: u8| final(cpu)@ == step_spec(old(cpu)@, r),
    {
        if !cpu.running {
            proof {
                assert(cpu@ == step_spec(old(cpu)@, 0u8));
            }
            return ;
        }
        if cpu.wait_for_key.is_some() {
            tick_timers(cpu);
            self.resolve_key_wait(cpu);
            proof {
                assert(cpu@ == step_spec(old(cpu)@, 0u8));
            }
            return ;
        }
        if cpu.pc >= 0xFFF {
            cpu.running = false;
            cpu.panicked = true;
            proof {
                assert(cpu@ =~= step_spec(old(cpu)@, 0u8));
            }
            return ;
        }
        let op = self.fetch_opcode(cpu);
        let p: u32 = cpu.pc as u32 + 2;
        cpu.pc = (p % 0x10000) as u16;
        tick_timers(cpu);
        let ghost s1 = cpu@;
        proof {
            assert(s1 =~= dec_timers(CpuV { pc: pc_plus2(old(cpu)@.pc), ..old(cpu)@ }));
        }
        self.decode_opcode(cpu, op);
        proof {
            let r = choose|r: u8| cpu@ == exec_op(s1, decode_spec(op), r);
            assert(cpu@ == step_spec(old(cpu)@, r));
        }
    }

    /// Copy a ROM into memory at the program start. A ROM longer than the
    /// program area is rejected and the machine is left untouched.
    pub fn load_rom(&self, cpu: &mut Cpu, rom: &Vec<u8>) -> (result: Result<(), EmuError>)
        requires
            old(cpu).wf(),
        ensures
            final(cpu).wf(),
            result == (if rom@.len() <= 0xE00 {
                Result::<(), EmuError>::Ok(())
            } else {
                Result::<(), EmuError>::Err(EmuError::RomTooLarge)
            }),
            result is Ok ==> final(cpu)@ == (CpuV {
                mem: load_rom_spec(old(cpu)@.mem, rom@),
                ..old(cpu)@
            }),
            result is Err ==> final(cpu)@ == old(cpu)@,
    {
        if rom.len() > 0xE00 {
            return Err(EmuError::RomTooLarge);
        }
        let mut k: usize = 0;
        while k < rom.len()
            invariant
                old(cpu).wf(),
                rom@.len() <= 0xE00,
                k <= rom@.len(),
                cpu.wf(),
                cpu@.mem.len() == 4096,
                forall|a: int| 0x200 <= a < 0x200 + k ==> cpu@.mem[a] == rom@[a - 0x200],
                forall|a: int|
                    0 <= a < 4096 && !(0x200 <= a < 0x200 + k) ==> cpu@.mem[a] == old(
                        cpu,
                    )@.mem[a],
                cpu@ == (CpuV { mem: cpu@.mem, ..old(cpu)@ }),
            decreases rom@.len() - k,
        {
            let b = rom[k];
            cpu.mem[0x200 + k] = b;
            k += 1;
        }
        proof {
            assert(cpu@.mem =~= load_rom_spec(old(cpu)@.mem, rom@));
            assert(cpu@ =~= (CpuV { mem: load_rom_spec(old(cpu)@.mem, rom@), ..old(cpu)@ }));
        }
        Ok(())
    }
}

} // verus!
