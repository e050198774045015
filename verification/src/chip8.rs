//! The emulator driver's decision core: one owned machine plus the
//! stateless interpreter. The host loop around it only paces the clock,
//! hands frames to a renderer and feeds key events in.

use vstd::prelude::*;

use crate::cpu::Cpu;
use crate::cpu_core::CpuCore;
use crate::model::CpuV;
use crate::model::exec_op;
use crate::model::step_spec;
use crate::opcode::decode_spec;

verus! {

/// The machine and its interpreter, stepped together.
pub struct Chip8 {
    pub cpu: Cpu,
    pub core: CpuCore,
}

impl Chip8 {
    /// Take ownership of a machine state.
    pub fn new(cpu: Cpu) -> (chip: Chip8)
        ensures
            chip.cpu@ == cpu@,
    {
        Chip8 { cpu, core: CpuCore::new() }
    }

    /// One driver iteration: a tick, then the frame decision. When the tick
    /// left the draw flag raised, the new frame is handed out and the flag
    /// cleared; otherwise nothing is published.
    pub fn step(&mut self) -> (frame: Option<Vec<bool>>)
        requires
            old(self).cpu.wf(),
        ensures
            final(self).cpu.wf(),
            frame is Some ==> exists|r: u8|
                {
                    &&& #[trigger] step_spec(old(self).cpu@, r).draw_flag
                    &&& frame->Some_0@ == step_spec(old(self).cpu@, r).vram
                    &&& final(self).cpu@ == (CpuV {
                        draw_flag: false,
                        ..step_spec(old(self).cpu@, r)
                    })
                },
            frame is None ==> exists|r: u8|
                {
                    &&& !(#[trigger] step_spec(old(self).cpu@, r).draw_flag)
                    &&& final(self).cpu@ == step_spec(old(self).cpu@, r)
                },
    {
        self.core.tick(&mut self.cpu);
        proof {
            let r = choose|r: u8| self.cpu@ == step_spec(old(self).cpu@, r);
            assert(self.cpu@ == step_spec(old(self).cpu@, r));
        }
        let ghost r = choose|r: u8| self.cpu@ == step_spec(old(self).cpu@, r);
        if self.cpu.draw_flag() {
            let f = self.cpu.frame_snapshot();
            self.cpu.clear_draw_flag();
            proof {
                assert(step_spec(old(self).cpu@, r).draw_flag);
                assert(self.cpu@ == (CpuV { draw_flag: false, ..step_spec(old(self).cpu@, r) }));
            }
            Some(f)
        } else {
            None
        }
    }

    /// Decode an opcode word and apply it to the owned machine, with no
    /// program-counter advance of its own.
    pub fn decode_op(&mut self, opcode: u16)
        requires
            old(self).cpu.wf(),
        ensures
            final(self).cpu.wf(),
            exists|r: u8| final(self).cpu@ == exec_op(old(self).cpu@, decode_spec(opcode), r),
    {
        self.core.decode_opcode(&mut self.cpu, opcode);
    }

    /// Whether the machine is still running.
    pub fn running(&self) -> (r: bool)
        ensures
            r == self.cpu@.running,
    {
        self.cpu.running()
    }
}

} // verus!
