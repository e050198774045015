//! The machine state: memory, registers, stack, timers, keypad and frame
//! buffer, as one owned record with no behaviour beyond construction, reset
//! and field access.

use vstd::prelude::*;

use crate::model::CpuV;
use crate::model::WaitV;
use crate::model::font_spec;
use crate::model::init_spec;
use crate::model::reset_mem_spec;
use crate::model::wf_v;

verus! {

/// Size of the address space in bytes.
pub const MEMORY_SIZE: usize = 4096;

/// Where a loaded program begins.
pub const START_ADDRESS: usize = 0x200;

/// Where the built-in hex font begins.
pub const FONT_ADDR: u16 = 0x00;

/// Bytes per font glyph.
pub const FONT_SIZE: u16 = 5;

/// Largest program a ROM may hold: the bytes from 0x200 to the end of
/// memory.
pub const ROM_CAPACITY: usize = 0xE00;

/// A pending Fx0A wait: the register to fill and which keys have been seen
/// down since the wait began.
pub struct WaitKey {
    pub reg: u8,
    pub seen: Vec<bool>,
}

/// The machine state. Fields are public: the state record has no invariant
/// beyond its fixed sizes, captured by [`Cpu::wf`].
pub struct Cpu {
    /// 4096 bytes; the font lives at the bottom, programs at 0x200.
    pub mem: Vec<u8>,
    /// The sixteen data registers V0 through VF.
    pub v: Vec<u8>,
    /// The index register.
    pub i: u16,
    /// The program counter.
    pub pc: u16,
    /// The stack pointer: the next free slot.
    pub sp: u8,
    /// Sixteen return-address slots.
    pub stack: Vec<u16>,
    pub delay_timer: u8,
    pub sound_timer: u8,
    /// Whether each of the sixteen keys is currently down.
    pub keypad: Vec<bool>,
    /// The 64x32 frame buffer, row major.
    pub vram: Vec<bool>,
    /// Raised by CLS and DRW; cleared by the driver once a frame is out.
    pub draw_flag: bool,
    /// Cleared on external quit or a fatal error.
    pub running: bool,
    /// Whether a fatal error halted the machine.
    pub panicked: bool,
    /// Present exactly while an Fx0A wait is suspended.
    pub wait_for_key: Option<WaitKey>,
}

impl View for Cpu {
    type V = CpuV;

    open spec fn view(&self) -> CpuV {
        CpuV {
            mem: self.mem@,
            v: self.v@,
            i: self.i,
            pc: self.pc,
            sp: self.sp,
            stack: self.stack@,
            delay_timer: self.delay_timer,
            sound_timer: self.sound_timer,
            keypad: self.keypad@,
            vram: self.vram@,
            draw_flag: self.draw_flag,
            running: self.running,
            panicked: self.panicked,
            wait_for_key: match self.wait_for_key {
                Some(w) => Some(WaitV { reg: w.reg, seen: w.seen@ }),
                None => None,
            },
        }
    }
}

/// An element-for-element copy of a vector of booleans.
pub fn copy_bools(src: &Vec<bool>) -> (r: Vec<bool>)
    ensures
        r@ == src@,
{
    let mut r: Vec<bool> = Vec::new();
    let mut k: usize = 0;
    while k < src.len()
        invariant
            k <= src.len(),
            r@ == src@.take(k as int),
        decreases src.len() - k,
    {
        r.push(src[k]);
        proof {
            assert(r@ =~= src@.take(k + 1));
        }
        k += 1;
    }
    proof {
        assert(r@ =~= src@);
    }
    r
}

/// The 80 font bytes as a vector.
pub fn font() -> (f: Vec<u8>)
    ensures
        f@ == font_spec(),
{
    let mut f: Vec<u8> = Vec::new();
    f.push(0xF0); f.push(0x90); f.push(0x90); f.push(0x90); f.push(0xF0);
    f.push(0x20); f.push(0x60); f.push(0x20); f.push(0x20); f.push(0x70);
    f.push(0xF0); f.push(0x10); f.push(0xF0); f.push(0x80); f.push(0xF0);
    f.push(0xF0); f.push(0x10); f.push(0xF0); f.push(0x10); f.push(0xF0);
    f.push(0x90); f.push(0x90); f.push(0xF0); f.push(0x10); f.push(0x10);
    f.push(0xF0); f.push(0x80); f.push(0xF0); f.push(0x10); f.push(0xF0);
    f.push(0xF0); f.push(0x80); f.push(0xF0); f.push(0x90); f.push(0xF0);
    f.push(0xF0); f.push(0x10); f.push(0x20); f.push(0x40); f.push(0x40);
    f.push(0xF0); f.push(0x90); f.push(0xF0); f.push(0x90); f.push(0xF0);
    f.push(0xF0); f.push(0x90); f.push(0xF0); f.push(0x10); f.push(0xF0);
    f.push(0xF0); f.push(0x90); f.push(0xF0); f.push(0x90); f.push(0x90);
    f.push(0xE0); f.push(0x90); f.push(0xE0); f.push(0x90); f.push(0xE0);
    f.push(0xF0); f.push(0x80); f.push(0x80); f.push(0x80); f.push(0xF0);
    f.push(0xE0); f.push(0x90); f.push(0x90); f.push(0x90); f.push(0xE0);
    f.push(0xF0); f.push(0x80); f.push(0xF0); f.push(0x80); f.push(0xF0);
    f.push(0xF0); f.push(0x80); f.push(0xF0); f.push(0x80); f.push(0x80);
    proof {
        assert(f@ =~= font_spec());
    }
    f
}

impl Cpu {
    /// The fixed sizes of the machine, and a stack pointer within range.
    pub open spec fn wf(&self) -> bool {
        wf_v(self@)
    }

    /// Construct a machine with zeroed registers, stack, timers, keypad and
    /// frame buffer, the font loaded, the program counter at 0x200, and the
    /// draw flag raised so the initial cleared frame is published once.
    pub fn new() -> (cpu: Cpu)
        ensures
            cpu.wf(),
            cpu@ == init_spec(),
    {
        let mut cpu = Cpu {
            mem: vec![0u8; 4096],
            v: vec![0u8; 16],
            i: 0,
            pc: 0x200,
            sp: 0,
            stack: vec![0u16; 16],
            delay_timer: 0,
            sound_timer: 0,
            keypad: vec![false; 16],
            vram: vec![false; 2048],
            draw_flag: true,
            running: true,
            panicked: false,
            wait_for_key: None,
        };
        cpu.reset_memory();
        proof {
            assert(cpu@ =~= init_spec());
        }
        cpu
    }

    /// Write the font into the bottom of memory and zero the reserved bytes
    /// up to the program area; program memory is left alone.
    pub fn reset_memory(&mut self)
        requires
            old(self).wf(),
        ensures
            final(self).wf(),
            final(self)@ == (CpuV { mem: reset_mem_spec(old(self)@.mem), ..old(self)@ }),
    {
        let f = font();
        let mut k: usize = 0;
        while k < 80
            invariant
                self.wf(),
                k <= 80,
                f@ == font_spec(),
                self.i == old(self).i,
                self.pc == old(self).pc,
                self.sp == old(self).sp,
                self.v@ == old(self)@.v,
                self.stack@ == old(self)@.stack,
                self.delay_timer == old(self).delay_timer,
                self.sound_timer == old(self).sound_timer,
                self.keypad@ == old(self)@.keypad,
                self.vram@ == old(self)@.vram,
                self.draw_flag == old(self).draw_flag,
                self.running == old(self).running,
                self.panicked == old(self).panicked,
                self@.wait_for_key == old(self)@.wait_for_key,
                self.mem@.len() == 4096,
                forall|a: int| 0 <= a < k ==> self.mem@[a] == font_spec()[a],
                forall|a: int| k <= a < 4096 ==> self.mem@[a] == old(self)@.mem[a],
            decreases 80 - k,
        {
            self.mem[k] = f[k];
            k += 1;
        }
        while k < 512
            invariant
                self.wf(),
                80 <= k <= 512,
                self.i == old(self).i,
                self.pc == old(self).pc,
                self.sp == old(self).sp,
                self.v@ == old(self)@.v,
                self.stack@ == old(self)@.stack,
                self.delay_timer == old(self).delay_timer,
                self.sound_timer == old(self).sound_timer,
                self.keypad@ == old(self)@.keypad,
                self.vram@ == old(self)@.vram,
                self.draw_flag == old(self).draw_flag,
                self.running == old(self).running,
                self.panicked == old(self).panicked,
                self@.wait_for_key == old(self)@.wait_for_key,
                self.mem@.len() == 4096,
                forall|a: int| 0 <= a < 80 ==> self.mem@[a] == font_spec()[a],
                forall|a: int| 80 <= a < k ==> self.mem@[a] == 0u8,
                forall|a: int| k <= a < 4096 ==> self.mem@[a] == old(self)@.mem[a],
            decreases 512 - k,
        {
            self.mem[k] = 0;
            k += 1;
        }
        proof {
            assert(self@ =~= (CpuV { mem: reset_mem_spec(old(self)@.mem), ..old(self)@ }));
        }
    }

    /// Record a keypad transition from the input source.
    pub fn set_key(&mut self, index: u8, pressed: bool)
        requires
            old(self).wf(),
            index < 16,
        ensures
            final(self).wf(),
            final(self)@ == (CpuV {
                keypad: old(self)@.keypad.update(index as int, pressed),
                ..old(self)@
            }),
    {
        self.keypad[index as usize] = pressed;
        proof {
            assert(self@ =~= (CpuV {
                keypad: old(self)@.keypad.update(index as int, pressed),
                ..old(self)@
            }));
        }
    }

    /// The current frame buffer.
    pub fn frame(&self) -> (r: &Vec<bool>)
        ensures
            r@ == self@.vram,
    {
        &self.vram
    }

    /// A copy of the current frame buffer, for publishing to a renderer.
    pub fn frame_snapshot(&self) -> (r: Vec<bool>)
        ensures
            r@ == self@.vram,
    {
        copy_bools(&self.vram)
    }

    /// Whether the frame buffer has changed since the driver last published
    /// it.
    pub fn draw_flag(&self) -> (r: bool)
        ensures
            r == self@.draw_flag,
    {
        self.draw_flag
    }

    /// Acknowledge a published frame.
    pub fn clear_draw_flag(&mut self)
        requires
            old(self).wf(),
        ensures
            final(self).wf(),
            final(self)@ == (CpuV { draw_flag: false, ..old(self)@ }),
    {
        self.draw_flag = false;
        proof {
            assert(self@ =~= (CpuV { draw_flag: false, ..old(self)@ }));
        }
    }

    /// Whether the machine is still running.
    pub fn running(&self) -> (r: bool)
        ensures
            r == self@.running,
    {
        self.running
    }

    /// Ask the machine to stop at the next tick boundary.
    pub fn stop(&mut self)
        requires
            old(self).wf(),
        ensures
            final(self).wf(),
            final(self)@ == (CpuV { running: false, ..old(self)@ }),
    {
        self.running = false;
        proof {
            assert(self@ =~= (CpuV { running: false, ..old(self)@ }));
        }
    }
}

} // verus!
