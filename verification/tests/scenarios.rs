use oxide8::chip8::Chip8;
use oxide8::cpu::Cpu;
use oxide8::cpu_core::CpuCore;
use oxide8::cpu_core::EmuError;
use oxide8::clock::Clock;
use oxide8::clock::INTERVAL_US;
use oxide8::clock::pacing_wait_us;
use oxide8::opcode::Instr;
use oxide8::opcode::decode;

fn machine_with(rom: Vec<u8>) -> (Cpu, CpuCore) {
    let mut cpu = Cpu::new();
    let core = CpuCore::new();
    core.load_rom(&mut cpu, &rom).unwrap();
    (cpu, core)
}

#[test]
fn jump_then_skip() {
    // JP 0x204; V3 := 5; SE V3, 5 skips the next instruction; LD I, 0x123.
    let (mut cpu, core) = machine_with(vec![
        0x12, 0x04, 0x00, 0x00, 0x63, 0x05, 0x33, 0x05, 0x00, 0x00, 0xA1, 0x23,
    ]);
    core.tick(&mut cpu);
    assert_eq!(cpu.pc, 0x204);
    core.tick(&mut cpu);
    assert_eq!(cpu.v[3], 5);
    core.tick(&mut cpu);
    assert_eq!(cpu.pc, 0x20A);
    core.tick(&mut cpu);
    assert_eq!(cpu.i, 0x123);
}

#[test]
fn call_and_return() {
    let (mut cpu, core) = machine_with(vec![0x22, 0x06, 0x00, 0x00, 0x00, 0x00, 0x00, 0xEE]);
    core.tick(&mut cpu);
    assert_eq!(cpu.stack[0], 0x202);
    assert_eq!(cpu.sp, 1);
    assert_eq!(cpu.pc, 0x206);
    core.tick(&mut cpu);
    assert_eq!(cpu.sp, 0);
    assert_eq!(cpu.pc, 0x202);
}

#[test]
fn add_with_carry() {
    let mut cpu = Cpu::new();
    let core = CpuCore::new();
    cpu.v[5] = 0xFF;
    cpu.v[6] = 0x04;
    core.decode_opcode(&mut cpu, 0x8564);
    assert_eq!(cpu.v[5], 0x03);
    assert_eq!(cpu.v[0xF], 1);
}

#[test]
fn subtract_without_borrow() {
    let mut cpu = Cpu::new();
    let core = CpuCore::new();
    cpu.v[5] = 0x14;
    cpu.v[6] = 0x5F;
    core.decode_opcode(&mut cpu, 0x8565);
    assert_eq!(cpu.v[5], 0xB5);
    assert_eq!(cpu.v[0xF], 0);
}

#[test]
fn drw_basic() {
    let mut cpu = Cpu::new();
    let core = CpuCore::new();
    cpu.i = 0x300;
    cpu.mem[0x300] = 0b1000_0001;
    cpu.v[0] = 0;
    cpu.v[1] = 0;
    core.decode_opcode(&mut cpu, 0xD011);
    assert!(cpu.vram[0]);
    assert!(cpu.vram[7]);
    for c in 1..7 {
        assert!(!cpu.vram[c]);
    }
    for c in 8..64 {
        assert!(!cpu.vram[c]);
    }
    assert_eq!(cpu.v[0xF], 0);
    assert!(cpu.draw_flag);
}

#[test]
fn drw_collision() {
    let mut cpu = Cpu::new();
    let core = CpuCore::new();
    cpu.vram[5 * 64 + 10] = true;
    cpu.i = 0x300;
    cpu.mem[0x300] = 0x80;
    cpu.v[0] = 10;
    cpu.v[1] = 5;
    core.decode_opcode(&mut cpu, 0xD011);
    assert!(!cpu.vram[5 * 64 + 10]);
    assert_eq!(cpu.v[0xF], 1);
}

#[test]
fn drw_clips_at_edges() {
    let mut cpu = Cpu::new();
    let core = CpuCore::new();
    cpu.i = 0x300;
    cpu.mem[0x300] = 0xFF;
    cpu.mem[0x301] = 0xFF;
    cpu.v[0] = 60;
    cpu.v[1] = 31;
    core.decode_opcode(&mut cpu, 0xD012);
    // the four rightmost cells of the last row light up
    for c in 60..64 {
        assert!(cpu.vram[31 * 64 + c]);
    }
    // nothing wraps to the left edge or to the top rows
    for c in 0..4 {
        assert!(!cpu.vram[31 * 64 + c]);
        assert!(!cpu.vram[c]);
    }
    assert_eq!(cpu.v[0xF], 0);
}

#[test]
fn drw_wraps_start_coordinates() {
    let mut cpu = Cpu::new();
    let core = CpuCore::new();
    cpu.i = 0x300;
    cpu.mem[0x300] = 0x80;
    cpu.v[0] = 64 + 4;
    cpu.v[1] = 32 + 2;
    core.decode_opcode(&mut cpu, 0xD011);
    assert!(cpu.vram[2 * 64 + 4]);
}

#[test]
fn decode_defined_variants() {
    assert_eq!(decode(0x00E0), Instr::Cls);
    assert_eq!(decode(0x00EE), Instr::Ret);
    assert_eq!(decode(0x0234), Instr::Sys(0x234));
    assert_eq!(decode(0x1234), Instr::Jp(0x234));
    assert_eq!(decode(0x2345), Instr::Call(0x345));
    assert_eq!(decode(0x3405), Instr::SeImm(4, 5));
    assert_eq!(decode(0x44FF), Instr::SneImm(4, 0xFF));
    assert_eq!(decode(0x5420), Instr::SeReg(4, 2));
    assert_eq!(decode(0x9420), Instr::SneReg(4, 2));
    assert_eq!(decode(0x6483), Instr::LdImm(4, 0x83));
    assert_eq!(decode(0x7483), Instr::AddImm(4, 0x83));
    assert_eq!(decode(0x8340), Instr::LdReg(3, 4));
    assert_eq!(decode(0x8341), Instr::Or(3, 4));
    assert_eq!(decode(0x8342), Instr::And(3, 4));
    assert_eq!(decode(0x8343), Instr::Xor(3, 4));
    assert_eq!(decode(0x8344), Instr::Add(3, 4));
    assert_eq!(decode(0x8345), Instr::Sub(3, 4));
    assert_eq!(decode(0x8346), Instr::Shr(3, 4));
    assert_eq!(decode(0x8347), Instr::Subn(3, 4));
    assert_eq!(decode(0x834E), Instr::Shl(3, 4));
    assert_eq!(decode(0xA123), Instr::LdI(0x123));
    assert_eq!(decode(0xB123), Instr::JpV0(0x123));
    assert_eq!(decode(0xC2FF), Instr::Rnd(2, 0xFF));
    assert_eq!(decode(0xD234), Instr::Drw(2, 3, 4));
    assert_eq!(decode(0xE29E), Instr::Skp(2));
    assert_eq!(decode(0xE2A1), Instr::Sknp(2));
    assert_eq!(decode(0xF207), Instr::LdVxDt(2));
    assert_eq!(decode(0xF20A), Instr::LdKey(2));
    assert_eq!(decode(0xF215), Instr::LdDtVx(2));
    assert_eq!(decode(0xF218), Instr::LdStVx(2));
    assert_eq!(decode(0xF21E), Instr::AddI(2));
    assert_eq!(decode(0xF229), Instr::LdFont(2));
    assert_eq!(decode(0xF233), Instr::LdBcd(2));
    assert_eq!(decode(0xF255), Instr::StRegs(2));
    assert_eq!(decode(0xF265), Instr::LdRegs(2));
}

#[test]
fn decode_unknown_variants() {
    assert_eq!(decode(0x5421), Instr::Unknown(0x5421));
    assert_eq!(decode(0x9423), Instr::Unknown(0x9423));
    assert_eq!(decode(0x8348), Instr::Unknown(0x8348));
    assert_eq!(decode(0x834F), Instr::Unknown(0x834F));
    assert_eq!(decode(0xE2FF), Instr::Unknown(0xE2FF));
    assert_eq!(decode(0xE200), Instr::Unknown(0xE200));
    assert_eq!(decode(0xF2FF), Instr::Unknown(0xF2FF));
    assert_eq!(decode(0xF200), Instr::Unknown(0xF200));
}

#[test]
fn rom_too_large_is_rejected() {
    let mut cpu = Cpu::new();
    let core = CpuCore::new();
    let rom = vec![0xAB; 0xE01];
    assert_eq!(core.load_rom(&mut cpu, &rom), Err(EmuError::RomTooLarge));
    assert_eq!(cpu.mem[0x200], 0);
    assert_eq!(cpu.pc, 0x200);

    let rom = vec![0xAB; 0xE00];
    assert_eq!(core.load_rom(&mut cpu, &rom), Ok(()));
    assert_eq!(cpu.mem[0x200], 0xAB);
    assert_eq!(cpu.mem[0xFFF], 0xAB);
}

#[test]
fn load_rom_places_bytes_at_program_start() {
    let (cpu, _core) = machine_with(vec![1, 2, 3]);
    assert_eq!(cpu.mem[0x200], 1);
    assert_eq!(cpu.mem[0x201], 2);
    assert_eq!(cpu.mem[0x202], 3);
    assert_eq!(cpu.mem[0x203], 0);
}

#[test]
fn stack_overflow_halts() {
    let mut cpu = Cpu::new();
    let core = CpuCore::new();
    cpu.sp = 16;
    core.decode_opcode(&mut cpu, 0x2300);
    assert!(!cpu.running);
    assert!(cpu.panicked);
}

#[test]
fn stack_underflow_halts() {
    let mut cpu = Cpu::new();
    let core = CpuCore::new();
    core.decode_opcode(&mut cpu, 0x00EE);
    assert!(!cpu.running);
    assert!(cpu.panicked);
}

#[test]
fn pc_out_of_range_halts() {
    let mut cpu = Cpu::new();
    let core = CpuCore::new();
    cpu.pc = 0xFFF;
    core.tick(&mut cpu);
    assert!(!cpu.running);
    assert!(cpu.panicked);
    // a halted machine no longer ticks
    let frozen_pc = cpu.pc;
    core.tick(&mut cpu);
    assert_eq!(cpu.pc, frozen_pc);
}

#[test]
fn unknown_opcode_is_recoverable() {
    let (mut cpu, core) = machine_with(vec![0x80, 0x0F]);
    core.tick(&mut cpu);
    assert_eq!(cpu.pc, 0x202);
    assert!(cpu.running);
    assert!(!cpu.panicked);
    assert!(cpu.v.iter().all(|&r| r == 0));
}

#[test]
fn timers_decrement_once_per_tick() {
    let (mut cpu, core) = machine_with(vec![0x00, 0x00, 0x00, 0x00]);
    cpu.delay_timer = 3;
    cpu.sound_timer = 1;
    core.tick(&mut cpu);
    assert_eq!(cpu.delay_timer, 2);
    assert_eq!(cpu.sound_timer, 0);
    core.tick(&mut cpu);
    assert_eq!(cpu.delay_timer, 1);
    assert_eq!(cpu.sound_timer, 0);
}

#[test]
fn key_wait_resolves_on_press_then_release() {
    let (mut cpu, core) = machine_with(vec![0xF3, 0x0A]);
    cpu.delay_timer = 10;
    core.tick(&mut cpu);
    assert!(cpu.wait_for_key.is_some());
    assert_eq!(cpu.pc, 0x200);
    assert_eq!(cpu.delay_timer, 9);

    // a key goes down after the wait began: not yet a resolution
    cpu.set_key(7, true);
    core.tick(&mut cpu);
    assert!(cpu.wait_for_key.is_some());
    assert_eq!(cpu.pc, 0x200);
    assert_eq!(cpu.delay_timer, 8);

    // its release resolves the wait
    cpu.set_key(7, false);
    core.tick(&mut cpu);
    assert!(cpu.wait_for_key.is_none());
    assert_eq!(cpu.v[3], 7);
    assert_eq!(cpu.pc, 0x202);
    assert_eq!(cpu.delay_timer, 7);
}

#[test]
fn key_wait_sees_key_down_at_suspension() {
    let (mut cpu, core) = machine_with(vec![0xF3, 0x0A]);
    cpu.set_key(2, true);
    core.tick(&mut cpu);
    assert!(cpu.wait_for_key.is_some());
    cpu.set_key(2, false);
    core.tick(&mut cpu);
    assert_eq!(cpu.v[3], 2);
    assert_eq!(cpu.pc, 0x202);
}

#[test]
fn shifts_report_shifted_out_bit() {
    let mut cpu = Cpu::new();
    let core = CpuCore::new();
    cpu.v[5] = 0xEE;
    core.decode_opcode(&mut cpu, 0x8566);
    assert_eq!(cpu.v[5], 0x77);
    assert_eq!(cpu.v[0xF], 0);

    cpu.v[5] = 0x81;
    core.decode_opcode(&mut cpu, 0x8566);
    assert_eq!(cpu.v[5], 0x40);
    assert_eq!(cpu.v[0xF], 1);

    cpu.v[5] = 0x81;
    core.decode_opcode(&mut cpu, 0x856E);
    assert_eq!(cpu.v[5], 0x02);
    assert_eq!(cpu.v[0xF], 1);

    cpu.v[5] = 0x77;
    core.decode_opcode(&mut cpu, 0x856E);
    assert_eq!(cpu.v[5], 0xEE);
    assert_eq!(cpu.v[0xF], 0);
}

#[test]
fn bcd_boundaries() {
    let mut cpu = Cpu::new();
    let core = CpuCore::new();
    cpu.i = 0x300;
    cpu.v[1] = 255;
    core.decode_opcode(&mut cpu, 0xF133);
    assert_eq!(cpu.mem[0x300], 2);
    assert_eq!(cpu.mem[0x301], 5);
    assert_eq!(cpu.mem[0x302], 5);

    cpu.v[1] = 0;
    core.decode_opcode(&mut cpu, 0xF133);
    assert_eq!(cpu.mem[0x300], 0);
    assert_eq!(cpu.mem[0x301], 0);
    assert_eq!(cpu.mem[0x302], 0);
}

#[test]
fn add_i_wraps_at_sixteen_bits() {
    let mut cpu = Cpu::new();
    let core = CpuCore::new();
    cpu.i = 0xFFFF;
    cpu.v[2] = 2;
    core.decode_opcode(&mut cpu, 0xF21E);
    assert_eq!(cpu.i, 1);
}

#[test]
fn chip8_step_publishes_then_goes_quiet() {
    let mut chip = Chip8::new(Cpu::new());
    assert!(chip.running());
    // the initial cleared frame goes out exactly once
    let frame = chip.step();
    assert!(frame.is_some());
    let frame = frame.unwrap();
    assert_eq!(frame.len(), 2048);
    assert!(frame.iter().all(|&p| !p));
    assert!(!chip.cpu.draw_flag);
    // plain instructions publish nothing
    assert!(chip.step().is_none());
    chip.cpu.stop();
    assert!(!chip.running());
}

#[test]
fn frame_untouched_by_other_ops() {
    let mut cpu = Cpu::new();
    let core = CpuCore::new();
    cpu.vram[100] = true;
    cpu.vram[2000] = true;
    let before = cpu.vram.clone();
    cpu.v[5] = 7;
    cpu.v[6] = 9;
    for op in [0x8564u16, 0x8565, 0x6483, 0x7411, 0xA123, 0x1234, 0xF433, 0xF655, 0xF265] {
        core.decode_opcode(&mut cpu, op);
        assert_eq!(cpu.vram, before);
    }
    core.decode_opcode(&mut cpu, 0x00E0);
    assert_ne!(cpu.vram, before);
}

#[test]
fn store_load_registers_round_trip() {
    let mut cpu = Cpu::new();
    let core = CpuCore::new();
    cpu.i = 0x400;
    for k in 0..5 {
        cpu.v[k] = 0x30 + k as u8;
    }
    core.decode_opcode(&mut cpu, 0xF455);
    for k in 0..5 {
        cpu.v[k] = 0xFF;
    }
    core.decode_opcode(&mut cpu, 0xF465);
    for k in 0..5 {
        assert_eq!(cpu.v[k], 0x30 + k as u8);
    }
}

#[test]
fn clock_pacing_rule() {
    assert_eq!(INTERVAL_US, 16_666);
    assert_eq!(pacing_wait_us(0), 16_666);
    assert_eq!(pacing_wait_us(16_000), 666);
    assert_eq!(pacing_wait_us(16_665), 1);
    assert_eq!(pacing_wait_us(16_666), 0);
    assert_eq!(pacing_wait_us(100_000), 0);
}

#[test]
fn clock_owes_at_most_one_period() {
    let mut clock = Clock::new();
    clock.start();
    assert!(clock.remaining_us() <= INTERVAL_US);
}
