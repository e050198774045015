use oxide8::cpu::Cpu;
use oxide8::cpu::FONT_ADDR;
use oxide8::cpu_core::CpuCore;

#[test]
fn cpu_opcode_decode_op_test_00e0() {
    let mut cpu = Cpu::new();
    let core = CpuCore::new();
    core.decode_opcode(&mut cpu, 0x00e0);
    cpu.vram.iter().for_each(|item| {
        assert_eq!(*item, false);
    });
    assert_eq!(cpu.draw_flag, true);
}

#[test]
fn cpu_opcode_decode_op_test_op_3xkk_x_equals_kk() {
    let mut cpu = Cpu::new();
    let core = CpuCore::new();
    cpu.pc = 0x300;
    cpu.v[4] = 0x05;
    core.decode_opcode(&mut cpu, 0x3405);
    assert_eq!(cpu.pc, 0x302);
}

#[test]
fn cpu_opcode_decode_op_test_op_3xkk_x_not_equals_kk() {
    let mut cpu = Cpu::new();
    let core = CpuCore::new();
    cpu.pc = 0x300;
    cpu.v[4] = 0x05;
    core.decode_opcode(&mut cpu, 0x3403);
    assert_eq!(cpu.pc, 0x300);
}

#[test]
fn cpu_opcode_decode_op_test_op_4xkk_x_equals_kk() {
    let mut cpu = Cpu::new();
    let core = CpuCore::new();
    cpu.pc = 0x300;
    cpu.v[4] = 0x05;
    core.decode_opcode(&mut cpu, 0x4405);
    assert_eq!(cpu.pc, 0x300);
}

#[test]
fn cpu_opcode_decode_op_test_op_4xkk_x_not_equals_kk() {
    let mut cpu = Cpu::new();
    let core = CpuCore::new();
    cpu.pc = 0x300;
    cpu.v[4] = 0x05;
    core.decode_opcode(&mut cpu, 0x4403);
    assert_eq!(cpu.pc, 0x302);
}

#[test]
fn cpu_opcode_decode_op_test_op_5xy0_vx_equals_vy() {
    let mut cpu = Cpu::new();
    let core = CpuCore::new();
    cpu.pc = 0x300;
    cpu.v[4] = 0x05;
    cpu.v[0] = 0x05;
    core.decode_opcode(&mut cpu, 0x5400);
    assert_eq!(cpu.pc, 0x302);
}

#[test]
fn cpu_opcode_decode_op_test_op_5xy0_vx_not_equals_vy() {
    let mut cpu = Cpu::new();
    let core = CpuCore::new();
    cpu.pc = 0x300;
    cpu.v[4] = 0x05;
    cpu.v[0] = 0x03;
    core.decode_opcode(&mut cpu, 0x5400);
    assert_eq!(cpu.pc, 0x300);
}

#[test]
fn cpu_opcode_decode_op_test_op_6xkk() {
    let mut cpu = Cpu::new();
    let core = CpuCore::new();
    cpu.v[4] = 0x05;
    core.decode_opcode(&mut cpu, 0x6483);
    assert_eq!(cpu.v[4], 0x83);
}

#[test]
fn cpu_opcode_decode_op_test_op_7xkk() {
    let mut cpu = Cpu::new();
    let core = CpuCore::new();
    cpu.v[4] = 0x05;
    core.decode_opcode(&mut cpu, 0x7483);
    assert_eq!(cpu.v[4], 0x88);
}

#[test]
fn cpu_opcode_decode_op_test_op_9xy0_vx_equals_vy() {
    let mut cpu = Cpu::new();
    let core = CpuCore::new();
    cpu.pc = 0x300;
    cpu.v[4] = 0x05;
    cpu.v[0] = 0x05;
    core.decode_opcode(&mut cpu, 0x9400);
    assert_eq!(cpu.pc, 0x300);
}

#[test]
fn cpu_opcode_decode_op_test_op_9xy0_vx_not_equals_vy() {
    let mut cpu = Cpu::new();
    let core = CpuCore::new();
    cpu.pc = 0x300;
    cpu.v[4] = 0x05;
    cpu.v[0] = 0x03;
    core.decode_opcode(&mut cpu, 0x9400);
    assert_eq!(cpu.pc, 0x302);
}

#[test]
fn cpu_opcode_regs_xy_extracts_indices() {
    let (x, y) = CpuCore::regs_xy(0x8AB1);
    assert_eq!(x, 0xA);
    assert_eq!(y, 0xB);
}

#[test]
fn cpu_opcode_decode_op_test_8xy0() {
    let mut cpu = Cpu::new();
    let core = CpuCore::new();
    cpu.v[3] = 0x08;
    cpu.v[4] = 0x10;
    core.decode_opcode(&mut cpu, 0x8340);
    assert_eq!(cpu.v[3], 0x10);
    assert_eq!(cpu.v[4], 0x10);
}

#[test]
fn cpu_opcode_decode_op_test_8xy1() {
    let mut cpu = Cpu::new();
    let core = CpuCore::new();
    cpu.v[2] = 0x40;
    cpu.v[3] = 0xA8;
    core.decode_opcode(&mut cpu, 0x8231);
    assert_eq!(cpu.v[2], 0xE8);
}

#[test]
fn cpu_opcode_decode_op_test_8xy2() {
    let mut cpu = Cpu::new();
    let core = CpuCore::new();
    cpu.v[2] = 0xE8;
    cpu.v[3] = 0x44;
    core.decode_opcode(&mut cpu, 0x8232);
    assert_eq!(cpu.v[2], 0x40);
}

#[test]
fn cpu_opcode_decode_op_test_8xy3() {
    let mut cpu = Cpu::new();
    let core = CpuCore::new();
    cpu.v[5] = 0xE8;
    cpu.v[6] = 0x56;
    core.decode_opcode(&mut cpu, 0x8563);
    assert_eq!(cpu.v[5], 0xBE);
}

#[test]
fn cpu_opcode_decode_op_test_8xy4_no_carry() {
    let mut cpu = Cpu::new();
    let core = CpuCore::new();
    cpu.v[5] = 0x08;
    cpu.v[6] = 0x56;
    core.decode_opcode(&mut cpu, 0x8564);
    assert_eq!(cpu.v[5], 0x5E);
    assert_eq!(cpu.v[15], 0x0);
}

#[test]
fn cpu_opcode_decode_op_test_8xy4_with_carry() {
    let mut cpu = Cpu::new();
    let core = CpuCore::new();
    cpu.v[5] = 0xFF;
    cpu.v[6] = 0x04;
    core.decode_opcode(&mut cpu, 0x8564);
    assert_eq!(cpu.v[5], 0x03);
    assert_eq!(cpu.v[15], 0x1);
}

#[test]
fn cpu_opcode_decode_op_test_8xy5_with_carry() {
    let mut cpu = Cpu::new();
    let core = CpuCore::new();
    cpu.v[5] = 0x5F;
    cpu.v[6] = 0x14;
    core.decode_opcode(&mut cpu, 0x8565);
    assert_eq!(cpu.v[5], 0x4B);
    assert_eq!(cpu.v[15], 0x1);
}

#[test]
fn cpu_opcode_decode_op_test_8xy5_no_carry() {
    let mut cpu = Cpu::new();
    let core = CpuCore::new();
    cpu.v[5] = 0x14;
    cpu.v[6] = 0x5F;
    core.decode_opcode(&mut cpu, 0x8565);
    assert_eq!(cpu.v[5], 0xB5);
    assert_eq!(cpu.v[15], 0x0);
}

#[test]
fn cpu_opcode_decode_op_test_8xy7_with_carry() {
    let mut cpu = Cpu::new();
    let core = CpuCore::new();
    cpu.v[5] = 0x14;
    cpu.v[6] = 0x5F;
    core.decode_opcode(&mut cpu, 0x8567);
    assert_eq!(cpu.v[5], 0x4B);
    assert_eq!(cpu.v[15], 0x1);
}

#[test]
fn cpu_opcode_decode_op_test_8xy7_no_carry() {
    let mut cpu = Cpu::new();
    let core = CpuCore::new();
    cpu.v[5] = 0x14;
    cpu.v[6] = 0x5F;
    core.decode_opcode(&mut cpu, 0x8567);
    assert_eq!(cpu.v[5], 0x4B);
    assert_eq!(cpu.v[15], 1);
}

#[test]
fn cpu_opcode_decode_op_test_annn() {
    let mut cpu = Cpu::new();
    let core = CpuCore::new();
    cpu.i = 0x444;
    core.decode_opcode(&mut cpu, 0xA555);
    assert_eq!(cpu.i, 0x555);
}

#[test]
fn cpu_opcode_decode_op_test_bnnn() {
    let mut cpu = Cpu::new();
    let core = CpuCore::new();
    cpu.pc = 0x400;
    cpu.v[0] = 0x10;
    core.decode_opcode(&mut cpu, 0xB500);
    assert_eq!(cpu.pc, 0x510);
}

#[test]
fn cpu_opcode_decode_op_test_cxkk_and_0() {
    let mut cpu = Cpu::new();
    let core = CpuCore::new();
    cpu.v[5] = 0x77;
    for _ in 0..5 {
        core.decode_opcode(&mut cpu, 0xC500);
        assert_eq!(cpu.v[5], 0x00);
    }
}

#[test]
fn cpu_opcode_decode_op_test_cxkk_rnd() {
    let mut cpu = Cpu::new();
    let core = CpuCore::new();
    cpu.v[5] = 0x77;
    let mut res: Vec<u8> = Vec::new();
    for _ in 0..9 {
        core.decode_opcode(&mut cpu, 0xC5FF);
        res.push(cpu.v[5]);
    }
    assert!(!res.iter().all(|x| *x == res[0]));
}

#[test]
fn cpu_opcode_decode_op_test_dxyn() {
    let mut cpu = Cpu::new();
    let core = CpuCore::new();
    cpu.i = 0x400;
    cpu.mem[0x400] = 0x01;
    cpu.mem[0x401] = 0x02;
    cpu.mem[0x402] = 0x04;
    cpu.mem[0x403] = 0x08;
    cpu.v[2] = 0x20;
    cpu.v[3] = 0x10;
    core.decode_opcode(&mut cpu, 0xD234);
}

#[test]
fn cpu_opcode_decode_op_test_ex9e() {
    let mut cpu = Cpu::new();
    let core = CpuCore::new();
    cpu.pc = 0x300;
    cpu.v[0] = 0x0F;
    cpu.keypad[0x0F] = true;
    core.decode_opcode(&mut cpu, 0xE09E);
    assert_eq!(cpu.pc, 0x302);
}

#[test]
fn cpu_opcode_decode_op_test_exa1() {
    let mut cpu = Cpu::new();
    let core = CpuCore::new();
    cpu.pc = 0x300;
    cpu.v[0] = 0x0F;
    cpu.keypad[0x0F] = true;
    core.decode_opcode(&mut cpu, 0xE0A1);
    assert_eq!(cpu.pc, 0x300);
}

#[test]
fn cpu_opcode_decode_op_test_fx0a() {
    let mut cpu = Cpu::new();
    let core = CpuCore::new();
    cpu.pc = 0x300;
    core.decode_opcode(&mut cpu, 0xF50A);
    assert!(cpu.wait_for_key.is_some());
    assert_eq!(cpu.wait_for_key.as_ref().unwrap().reg, 5);
}

#[test]
fn cpu_opcode_decode_op_test_fx07() {
    let mut cpu = Cpu::new();
    let core = CpuCore::new();
    cpu.delay_timer = 123u8;
    core.decode_opcode(&mut cpu, 0xFA07);
    assert_eq!(cpu.v[0xA], cpu.delay_timer);
}

#[test]
fn cpu_opcode_decode_op_test_fx15() {
    let mut cpu = Cpu::new();
    let core = CpuCore::new();
    cpu.v[0xB] = 34u8;
    core.decode_opcode(&mut cpu, 0xFB15);
    assert_eq!(cpu.delay_timer, cpu.v[0xB]);
}

#[test]
fn cpu_opcode_decode_op_test_fx18() {
    let mut cpu = Cpu::new();
    let core = CpuCore::new();
    cpu.sound_timer = 13u8;
    core.decode_opcode(&mut cpu, 0xF218);
    assert_eq!(cpu.v[0x2], cpu.sound_timer);
}

#[test]
fn cpu_opcode_decode_op_test_fx1e() {
    let mut cpu = Cpu::new();
    let core = CpuCore::new();
    cpu.i = 0x402;
    cpu.v[0x3] = 0x2A;
    core.decode_opcode(&mut cpu, 0xF31E);
    assert_eq!(cpu.i, 0x42C);
}

#[test]
fn cpu_opcode_decode_op_test_fx29() {
    let mut cpu = Cpu::new();
    let core = CpuCore::new();
    cpu.i = 0x888;
    cpu.v[0x1] = 0x3;
    core.decode_opcode(&mut cpu, 0xF129);
    assert_eq!(cpu.i, FONT_ADDR + 15);
}

#[test]
fn cpu_opcode_decode_op_test_fx33() {
    let mut cpu = Cpu::new();
    let core = CpuCore::new();
    cpu.v[0x4] = 238;
    cpu.i = 0x330;
    core.decode_opcode(&mut cpu, 0xF433);
    assert_eq!(cpu.mem[0x330], 2);
    assert_eq!(cpu.mem[0x331], 3);
    assert_eq!(cpu.mem[0x332], 8);

    cpu.v[0x4] = 3;
    cpu.i = 0x330;
    core.decode_opcode(&mut cpu, 0xF433);
    assert_eq!(cpu.mem[0x330], 0);
    assert_eq!(cpu.mem[0x331], 0);
    assert_eq!(cpu.mem[0x332], 3);
}

#[test]
fn decode_op_test_fx55() {
    let mut cpu = Cpu::new();
    let core = CpuCore::new();
    cpu.i = 0x502;
    for idx in 0..7 {
        cpu.v[idx] = 0x10u8 + idx as u8;
    }
    core.decode_opcode(&mut cpu, 0xF655);
    for idx in 0..7 {
        assert_eq!(cpu.v[idx], cpu.mem[0x502 + idx]);
    }
    assert_eq!(cpu.v[7], 0x0);
}

#[test]
fn decode_op_test_fx65() {
    let mut cpu = Cpu::new();
    let core = CpuCore::new();
    cpu.i = 0x602;
    for idx in 0..9 {
        cpu.v[idx] = 0x20u8 + idx as u8;
    }
    core.decode_opcode(&mut cpu, 0xF865);
    for idx in 0..9 {
        assert_eq!(cpu.mem[0x602 + idx], cpu.v[idx]);
    }
    assert_eq!(cpu.v[8], 0x0);
}
