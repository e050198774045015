//! The mathematical model of the machine: an abstract state record over
//! sequences, and the state transition each instruction performs. Contracts
//! throughout the crate are stated against these functions.

use vstd::prelude::*;

use crate::opcode::Instr;
use crate::opcode::decode_spec;

verus! {

/// Abstract keypad wait record: the register an Fx0A instruction will fill,
/// and which keys have been seen down since the wait began.
#[verifier::ext_equal]
pub ghost struct WaitV {
    pub reg: u8,
    pub seen: Seq<bool>,
}

/// The abstract machine state.
#[verifier::ext_equal]
pub ghost struct CpuV {
    pub mem: Seq<u8>,
    pub v: Seq<u8>,
    pub i: u16,
    pub pc: u16,
    pub sp: u8,
    pub stack: Seq<u16>,
    pub delay_timer: u8,
    pub sound_timer: u8,
    pub keypad: Seq<bool>,
    pub vram: Seq<bool>,
    pub draw_flag: bool,
    pub running: bool,
    pub panicked: bool,
    pub wait_for_key: Option<WaitV>,
}

/// Well-formedness of an abstract state: the fixed sizes of the machine and
/// a stack pointer that points at a free slot or just past the last one.
pub open spec fn wf_v(s: CpuV) -> bool {
    &&& s.mem.len() == 4096
    &&& s.v.len() == 16
    &&& s.stack.len() == 16
    &&& s.keypad.len() == 16
    &&& s.vram.len() == 2048
    &&& s.sp <= 16
    &&& match s.wait_for_key {
        Some(w) => w.reg < 16 && w.seen.len() == 16,
        None => true,
    }
}

/// The 80-byte hex font: five bytes per glyph for 0x0 through 0xF.
pub open spec fn font_spec() -> Seq<u8> {
    seq![
        0xF0u8, 0x90, 0x90, 0x90, 0xF0,
        0x20, 0x60, 0x20, 0x20, 0x70,
        0xF0, 0x10, 0xF0, 0x80, 0xF0,
        0xF0, 0x10, 0xF0, 0x10, 0xF0,
        0x90, 0x90, 0xF0, 0x10, 0x10,
        0xF0, 0x80, 0xF0, 0x10, 0xF0,
        0xF0, 0x80, 0xF0, 0x90, 0xF0,
        0xF0, 0x10, 0x20, 0x40, 0x40,
        0xF0, 0x90, 0xF0, 0x90, 0xF0,
        0xF0, 0x90, 0xF0, 0x10, 0xF0,
        0xF0, 0x90, 0xF0, 0x90, 0x90,
        0xE0, 0x90, 0xE0, 0x90, 0xE0,
        0xF0, 0x80, 0x80, 0x80, 0xF0,
        0xE0, 0x90, 0x90, 0x90, 0xE0,
        0xF0, 0x80, 0xF0, 0x80, 0xF0,
        0xF0, 0x80, 0xF0, 0x80, 0x80,
    ]
}

/// Memory after a reset: the font in the first 80 bytes, zeroes up to the
/// program area, and `rest` untouched from 0x200 on.
pub open spec fn reset_mem_spec(rest: Seq<u8>) -> Seq<u8> {
    Seq::new(4096, |a: int| if a < 80 {
        font_spec()[a]
    } else if a < 0x200 {
        0u8
    } else {
        rest[a]
    })
}

/// The state a freshly constructed machine is in.
pub open spec fn init_spec() -> CpuV {
    CpuV {
        mem: reset_mem_spec(Seq::new(4096, |a: int| 0u8)),
        v: Seq::new(16, |k: int| 0u8),
        i: 0,
        pc: 0x200,
        sp: 0,
        stack: Seq::new(16, |k: int| 0u16),
        delay_timer: 0,
        sound_timer: 0,
        keypad: Seq::new(16, |k: int| false),
        vram: Seq::new(2048, |k: int| false),
        draw_flag: true,
        running: true,
        panicked: false,
        wait_for_key: None,
    }
}

/// A program counter moved forward by two bytes, wrapping at 16 bits.
pub open spec fn pc_plus2(pc: u16) -> u16 {
    ((pc + 2) % 0x10000) as u16
}

/// A program counter moved back by two bytes, wrapping at 16 bits.
pub open spec fn pc_back2(pc: u16) -> u16 {
    ((pc + 0xFFFE) % 0x10000) as u16
}

/// A fatal error: the machine halts but its state stays observable.
pub open spec fn halted(s: CpuV) -> CpuV {
    CpuV { running: false, panicked: true, ..s }
}

/// One 60 Hz step of the two timers: each decrements while above zero.
pub open spec fn dec_timers(s: CpuV) -> CpuV {
    CpuV {
        delay_timer: if s.delay_timer > 0 { (s.delay_timer - 1) as u8 } else { 0u8 },
        sound_timer: if s.sound_timer > 0 { (s.sound_timer - 1) as u8 } else { 0u8 },
        ..s
    }
}

/// Skip the next two-byte instruction when the predicate held.
pub open spec fn skip_if(s: CpuV, cond: bool) -> CpuV {
    if cond {
        CpuV { pc: pc_plus2(s.pc), ..s }
    } else {
        s
    }
}

/// 8-bit difference a - b, modulo 256.
pub open spec fn sub_mod(a: int, b: int) -> int {
    if a >= b {
        a - b
    } else {
        a - b + 256
    }
}

/// Two registers written in order: Vx first, VF last, so that VF wins when
/// x is 0xF.
pub open spec fn set_vx_then_vf(s: CpuV, x: u8, vx: u8, vf: u8) -> CpuV {
    CpuV { v: s.v.update(x as int, vx).update(15, vf), ..s }
}

/// 2^(7 - c): the place value of sprite column c within a sprite byte.
pub open spec fn col_weight(c: int) -> u8 {
    if c <= 0 {
        128u8
    } else if c == 1 {
        64u8
    } else if c == 2 {
        32u8
    } else if c == 3 {
        16u8
    } else if c == 4 {
        8u8
    } else if c == 5 {
        4u8
    } else if c == 6 {
        2u8
    } else {
        1u8
    }
}

/// Whether sprite column c (0 is the leftmost pixel) of a sprite byte is on.
pub open spec fn sprite_bit(b: u8, c: int) -> bool {
    (b / col_weight(c)) % 2 == 1
}

/// The sprite byte for row j of a draw: memory at I + j, addressed within
/// the 4 KiB space.
pub open spec fn sprite_row(s: CpuV, j: int) -> u8 {
    s.mem[(s.i + j) % 4096]
}

/// Whether frame-buffer cell idx is covered by a sprite drawn at (sx, sy)
/// with n rows. Cells past the right or bottom edge do not exist, so sprite
/// pixels falling there are clipped rather than wrapped.
pub open spec fn drw_hit(sx: int, sy: int, n: int, idx: int) -> bool {
    let r = idx / 64;
    let c = idx % 64;
    sy <= r < sy + n && sx <= c < sx + 8
}

/// The order in which a draw walks its sprite pixels: row-major over the
/// sprite, 8 columns per row.
pub open spec fn drw_pos(sx: int, sy: int, idx: int) -> int {
    (idx / 64 - sy) * 8 + (idx % 64 - sx)
}

/// The frame buffer after the first p sprite pixels of a draw have been
/// XORed in.
pub open spec fn drw_vram_upto(s: CpuV, sx: int, sy: int, n: int, p: int) -> Seq<bool> {
    Seq::new(2048, |idx: int| {
        if drw_hit(sx, sy, n, idx) && drw_pos(sx, sy, idx) < p {
            s.vram[idx] != sprite_bit(sprite_row(s, idx / 64 - sy), idx % 64 - sx)
        } else {
            s.vram[idx]
        }
    })
}

/// Whether any of the first p sprite pixels lands on a cell that is already
/// on: the draw's collision condition.
pub open spec fn drw_coll_upto(s: CpuV, sx: int, sy: int, n: int, p: int) -> bool {
    exists|idx: int|
        0 <= idx < 2048 && #[trigger] drw_hit(sx, sy, n, idx) && drw_pos(sx, sy, idx) < p
            && s.vram[idx] && sprite_bit(sprite_row(s, idx / 64 - sy), idx % 64 - sx)
}

/// The state after Dxyn: the sprite XORed into the frame buffer with the
/// start coordinates wrapped, overflow clipped, VF set exactly when a sprite
/// pixel erased a lit cell, and the draw flag raised.
pub open spec fn drw_post(s: CpuV, x: u8, y: u8, n: u8) -> CpuV {
    let sx = s.v[x as int] % 64;
    let sy = s.v[y as int] % 32;
    CpuV {
        vram: drw_vram_upto(s, sx as int, sy as int, n as int, 8 * n),
        v: s.v.update(15, if drw_coll_upto(s, sx as int, sy as int, n as int, 8 * n) {
            1u8
        } else {
            0u8
        }),
        draw_flag: true,
        ..s
    }
}

/// Memory after the first k registers have been stored at I, I+1, ...,
/// addresses taken within the 4 KiB space.
pub open spec fn store_upto(s: CpuV, k: int) -> Seq<u8>
    decreases k,
{
    if k <= 0 {
        s.mem
    } else {
        store_upto(s, k - 1).update((s.i + (k - 1)) % 4096, s.v[k - 1])
    }
}

/// Registers after the first k of them have been loaded from I, I+1, ....
pub open spec fn load_upto(s: CpuV, k: int) -> Seq<u8>
    decreases k,
{
    if k <= 0 {
        s.v
    } else {
        load_upto(s, k - 1).update(k - 1, s.mem[(s.i + (k - 1)) % 4096])
    }
}

/// The three decimal digits of a byte, most significant first.
pub open spec fn bcd_hundreds(b: u8) -> u8 {
    (b / 100) as u8
}

pub open spec fn bcd_tens(b: u8) -> u8 {
    ((b / 10) % 10) as u8
}

pub open spec fn bcd_ones(b: u8) -> u8 {
    (b % 10) as u8
}

/// The state after Fx33: the digits of Vx written at I, I+1, I+2, addresses
/// taken within the 4 KiB space.
pub open spec fn bcd_post(s: CpuV, x: u8) -> CpuV {
    let vx = s.v[x as int];
    CpuV {
        mem: s.mem.update(s.i as int % 4096, bcd_hundreds(vx)).update(
            (s.i + 1) % 4096,
            bcd_tens(vx),
        ).update((s.i + 2) % 4096, bcd_ones(vx)),
        ..s
    }
}

/// The frame-buffer index the p-th sprite pixel of a draw lands on, when it
/// lands on the screen at all.
pub open spec fn drw_cell_idx(sx: int, sy: int, p: int) -> int {
    (sy + p / 8) * 64 + (sx + p % 8)
}

/// Whether the p-th sprite pixel lands on the screen (not clipped) and XORs
/// a set sprite bit onto a cell that is already lit: a collision at p.
pub open spec fn drw_cell_coll(s: CpuV, sx: int, sy: int, p: int) -> bool {
    &&& sy + p / 8 < 32
    &&& sx + p % 8 < 64
    &&& s.vram[drw_cell_idx(sx, sy, p)]
    &&& sprite_bit(sprite_row(s, p / 8), p % 8)
}

/// A row-major frame-buffer index splits into its row and column.
pub proof fn lemma_row_col(r: int, c: int)
    by (nonlinear_arith)
    requires
        0 <= r,
        0 <= c < 64,
    ensures
        (r * 64 + c) / 64 == r,
        (r * 64 + c) % 64 == c,
{
}

/// A sprite-pixel position splits into its sprite row and column.
pub proof fn lemma_row_col_base(j: int, c: int)
    by (nonlinear_arith)
    requires
        0 <= j,
        0 <= c < 8,
    ensures
        (8 * j + c) / 8 == j,
        (8 * j + c) % 8 == c,
{
}

/// A cell index equals 64 times its row plus its column.
pub proof fn lemma_idx_recompose(idx: int)
    requires
        0 <= idx,
    ensures
        idx == 64 * (idx / 64) + idx % 64,
        0 <= idx % 64 < 64,
{
    vstd::arithmetic::div_mod::lemma_fundamental_div_mod(idx, 64);
}

/// Only one sprite pixel of a draw can land on a given cell, so walking the
/// sprite one pixel further either leaves the partial frame buffer alone
/// (pixel clipped, or sprite bit clear) or flips exactly the cell the pixel
/// lands on.
pub proof fn lemma_drw_vram_step(s: CpuV, sx: int, sy: int, n: int, p: int)
    requires
        wf_v(s),
        0 <= sx < 64,
        0 <= sy < 32,
        0 <= p,
        p / 8 < n,
    ensures
        sy + p / 8 < 32 && sx + p % 8 < 64 && sprite_bit(sprite_row(s, p / 8), p % 8)
            ==> drw_vram_upto(s, sx, sy, n, p + 1) =~= drw_vram_upto(s, sx, sy, n, p).update(
                drw_cell_idx(sx, sy, p),
                !s.vram[drw_cell_idx(sx, sy, p)],
            ),
        !(sy + p / 8 < 32 && sx + p % 8 < 64 && sprite_bit(sprite_row(s, p / 8), p % 8))
            ==> drw_vram_upto(s, sx, sy, n, p + 1) =~= drw_vram_upto(s, sx, sy, n, p),
{
    let j = p / 8;
    let c = p % 8;
    assert(0 <= c < 8 && 8 * j + c == p) by {
        vstd::arithmetic::div_mod::lemma_fundamental_div_mod(p, 8);
    }
    let tgt = drw_cell_idx(sx, sy, p);
    if sy + j < 32 && sx + c < 64 {
        lemma_row_col(sy + j, sx + c);
        assert(drw_hit(sx, sy, n, tgt));
        assert(drw_pos(sx, sy, tgt) == p);
    }
    assert forall|idx: int| 0 <= idx < 2048 && drw_hit(sx, sy, n, idx) implies (drw_pos(
        sx,
        sy,
        idx,
    ) == p) == (idx == tgt && sy + j < 32 && sx + c < 64) by {
        lemma_idx_recompose(idx);
        let r2 = idx / 64;
        let c2 = idx % 64;
        if drw_pos(sx, sy, idx) == p {
            assert((r2 - sy) * 8 + (c2 - sx) == 8 * j + c);
            assert(0 <= c2 - sx < 8);
            assert(r2 - sy == j && c2 - sx == c);
            assert(idx == tgt);
        }
    }
}

/// Walking the sprite one pixel further sees a collision exactly when one
/// was already seen or the new pixel collides.
pub proof fn lemma_drw_coll_step(s: CpuV, sx: int, sy: int, n: int, p: int)
    requires
        wf_v(s),
        0 <= sx < 64,
        0 <= sy < 32,
        0 <= p,
        p / 8 < n,
    ensures
        drw_coll_upto(s, sx, sy, n, p + 1) == (drw_coll_upto(s, sx, sy, n, p) || drw_cell_coll(
            s,
            sx,
            sy,
            p,
        )),
{
    let j = p / 8;
    let c = p % 8;
    assert(0 <= c < 8 && 8 * j + c == p) by {
        vstd::arithmetic::div_mod::lemma_fundamental_div_mod(p, 8);
    }
    let tgt = drw_cell_idx(sx, sy, p);
    if drw_coll_upto(s, sx, sy, n, p) {
        let w = choose|idx: int|
            0 <= idx < 2048 && #[trigger] drw_hit(sx, sy, n, idx) && drw_pos(sx, sy, idx) < p
                && s.vram[idx] && sprite_bit(sprite_row(s, idx / 64 - sy), idx % 64 - sx);
        assert(0 <= w < 2048 && drw_hit(sx, sy, n, w) && drw_pos(sx, sy, w) < p + 1
            && s.vram[w] && sprite_bit(sprite_row(s, w / 64 - sy), w % 64 - sx));
    }
    if drw_cell_coll(s, sx, sy, p) {
        lemma_row_col(sy + j, sx + c);
        assert(0 <= tgt < 2048 && drw_hit(sx, sy, n, tgt) && drw_pos(sx, sy, tgt) < p + 1
            && s.vram[tgt] && sprite_bit(sprite_row(s, tgt / 64 - sy), tgt % 64 - sx));
    }
    if drw_coll_upto(s, sx, sy, n, p + 1) {
        let w = choose|idx: int|
            0 <= idx < 2048 && #[trigger] drw_hit(sx, sy, n, idx) && drw_pos(sx, sy, idx) < p + 1
                && s.vram[idx] && sprite_bit(sprite_row(s, idx / 64 - sy), idx % 64 - sx);
        if drw_pos(sx, sy, w) < p {
            assert(drw_coll_upto(s, sx, sy, n, p));
        } else {
            lemma_idx_recompose(w);
            let r2 = w / 64;
            let c2 = w % 64;
            assert((r2 - sy) * 8 + (c2 - sx) == 8 * j + c);
            assert(0 <= c2 - sx < 8);
            assert(r2 - sy == j && c2 - sx == c);
            assert(w == tgt);
            assert(drw_cell_coll(s, sx, sy, p));
        }
    }
}

/// The transition a single decoded instruction makes. The program counter is
/// taken to point just past the instruction already (the fetch step advances
/// it), so most instructions leave it alone, skips move it two further, and
/// jumps overwrite it. `rnd` is the byte the random source produced, used
/// only by Cxkk.
pub open spec fn exec_op(s: CpuV, inst: Instr, rnd: u8) -> CpuV {
    match inst {
        Instr::Cls => CpuV {
            vram: Seq::new(2048, |k: int| false),
            draw_flag: true,
            ..s
        },
        Instr::Ret => if s.sp == 0 {
            halted(s)
        } else {
            CpuV { sp: (s.sp - 1) as u8, pc: s.stack[s.sp - 1], ..s }
        },
        Instr::Sys(_) => s,
        Instr::Jp(nnn) => CpuV { pc: nnn, ..s },
        Instr::Call(nnn) => if s.sp >= 16 {
            halted(s)
        } else {
            CpuV {
                stack: s.stack.update(s.sp as int, s.pc),
                sp: (s.sp + 1) as u8,
                pc: nnn,
                ..s
            }
        },
        Instr::SeImm(x, kk) => skip_if(s, s.v[x as int] == kk),
        Instr::SneImm(x, kk) => skip_if(s, s.v[x as int] != kk),
        Instr::SeReg(x, y) => skip_if(s, s.v[x as int] == s.v[y as int]),
        Instr::SneReg(x, y) => skip_if(s, s.v[x as int] != s.v[y as int]),
        Instr::LdImm(x, kk) => CpuV { v: s.v.update(x as int, kk), ..s },
        Instr::AddImm(x, kk) => CpuV {
            v: s.v.update(x as int, ((s.v[x as int] + kk) % 256) as u8),
            ..s
        },
        Instr::LdReg(x, y) => CpuV { v: s.v.update(x as int, s.v[y as int]), ..s },
        Instr::Or(x, y) => CpuV {
            v: s.v.update(x as int, s.v[x as int] | s.v[y as int]),
            ..s
        },
        Instr::And(x, y) => CpuV {
            v: s.v.update(x as int, s.v[x as int] & s.v[y as int]),
            ..s
        },
        Instr::Xor(x, y) => CpuV {
            v: s.v.update(x as int, s.v[x as int] ^ s.v[y as int]),
            ..s
        },
        Instr::Add(x, y) => set_vx_then_vf(
            s,
            x,
            ((s.v[x as int] + s.v[y as int]) % 256) as u8,
            if s.v[x as int] + s.v[y as int] > 255 { 1u8 } else { 0u8 },
        ),
        Instr::Sub(x, y) => set_vx_then_vf(
            s,
            x,
            sub_mod(s.v[x as int] as int, s.v[y as int] as int) as u8,
            if s.v[x as int] >= s.v[y as int] { 1u8 } else { 0u8 },
        ),
        Instr::Shr(x, _y) => set_vx_then_vf(
            s,
            x,
            (s.v[x as int] / 2) as u8,
            (s.v[x as int] % 2) as u8,
        ),
        Instr::Subn(x, y) => set_vx_then_vf(
            s,
            x,
            sub_mod(s.v[y as int] as int, s.v[x as int] as int) as u8,
            if s.v[y as int] >= s.v[x as int] { 1u8 } else { 0u8 },
        ),
        Instr::Shl(x, _y) => set_vx_then_vf(
            s,
            x,
            ((s.v[x as int] * 2) % 256) as u8,
            (s.v[x as int] / 128) as u8,
        ),
        Instr::LdI(nnn) => CpuV { i: nnn, ..s },
        Instr::JpV0(nnn) => CpuV { pc: ((nnn + s.v[0]) % 0x10000) as u16, ..s },
        Instr::Rnd(x, kk) => CpuV { v: s.v.update(x as int, rnd & kk), ..s },
        Instr::Drw(x, y, n) => drw_post(s, x, y, n),
        Instr::Skp(x) => skip_if(s, s.keypad[s.v[x as int] as int % 16]),
        Instr::Sknp(x) => skip_if(s, !s.keypad[s.v[x as int] as int % 16]),
        Instr::LdVxDt(x) => CpuV { v: s.v.update(x as int, s.delay_timer), ..s },
        Instr::LdKey(x) => CpuV {
            wait_for_key: Some(WaitV { reg: x, seen: s.keypad }),
            pc: pc_back2(s.pc),
            ..s
        },
        Instr::LdDtVx(x) => CpuV { delay_timer: s.v[x as int], ..s },
        Instr::LdStVx(x) => CpuV { sound_timer: s.v[x as int], ..s },
        Instr::AddI(x) => CpuV { i: ((s.i + s.v[x as int]) % 0x10000) as u16, ..s },
        Instr::LdFont(x) => CpuV { i: (5 * (s.v[x as int] % 16)) as u16, ..s },
        Instr::LdBcd(x) => bcd_post(s, x),
        Instr::StRegs(x) => CpuV { mem: store_upto(s, x + 1), ..s },
        Instr::LdRegs(x) => CpuV { v: load_upto(s, x + 1), ..s },
        Instr::Unknown(_) => s,
    }
}

/// Memory after a ROM is copied in at the program start.
pub open spec fn load_rom_spec(mem: Seq<u8>, rom: Seq<u8>) -> Seq<u8> {
    Seq::new(4096, |a: int| if 0x200 <= a < 0x200 + rom.len() {
        rom[a - 0x200]
    } else {
        mem[a]
    })
}

/// The opcode fetched at the program counter: two bytes, big endian.
pub open spec fn fetch_spec(s: CpuV) -> u16 {
    (s.mem[s.pc as int] * 256 + s.mem[s.pc + 1]) as u16
}

/// The lowest key that has been seen down during the wait and is now up, or
/// 16 when there is none.
pub open spec fn find_released(seen: Seq<bool>, keypad: Seq<bool>, k: int) -> int
    decreases 16 - k,
{
    if k >= 16 {
        16
    } else if seen[k] && !keypad[k] {
        k
    } else {
        find_released(seen, keypad, k + 1)
    }
}

/// One tick while an Fx0A wait is pending: if a key seen down has been
/// released, its index lands in the register, the wait ends and the program
/// counter finally moves past the instruction; otherwise the wait goes on,
/// remembering every key seen down meanwhile.
pub open spec fn wait_tick(s: CpuV, w: WaitV) -> CpuV {
    let k = find_released(w.seen, s.keypad, 0);
    if k < 16 {
        CpuV {
            v: s.v.update(w.reg as int, k as u8),
            wait_for_key: None,
            pc: pc_plus2(s.pc),
            ..s
        }
    } else {
        CpuV {
            wait_for_key: Some(
                WaitV {
                    reg: w.reg,
                    seen: Seq::new(16, |t: int| w.seen[t] || s.keypad[t]),
                },
            ),
            ..s
        }
    }
}

/// One full tick of the interpreter: nothing when halted; the wait
/// resolution plus a timer step while an Fx0A wait is pending; otherwise a
/// fetch (fatal when the program counter has left the addressable range), a
/// timer step, and the fetched instruction's transition with the program
/// counter already moved past it.
pub open spec fn step_spec(s: CpuV, rnd: u8) -> CpuV {
    if !s.running {
        s
    } else {
        match s.wait_for_key {
            Some(w) => wait_tick(dec_timers(s), w),
            None => if s.pc >= 0xFFF {
                halted(s)
            } else {
                let op = fetch_spec(s);
                let s1 = dec_timers(CpuV { pc: pc_plus2(s.pc), ..s });
                exec_op(s1, decode_spec(op), rnd)
            },
        }
    }
}

} // verus!
