//! The behavioural guarantees of the interpreter, each proved against the
//! transition functions in [`crate::model`]: decoder totality, the
//! program-counter discipline, frame-buffer isolation, the arithmetic
//! flags, drawing, binary-coded decimal, and the register-file round trip.

use vstd::prelude::*;

use crate::model::CpuV;
use crate::model::bcd_hundreds;
use crate::model::dec_timers;
use crate::model::bcd_ones;
use crate::model::bcd_tens;
use crate::model::drw_hit;
use crate::model::drw_pos;
use crate::model::exec_op;
use crate::model::fetch_spec;
use crate::model::load_upto;
use crate::model::pc_plus2;
use crate::model::sprite_bit;
use crate::model::sprite_row;
use crate::model::step_spec;
use crate::model::store_upto;
use crate::model::wf_v;
use crate::opcode::Instr;
use crate::opcode::decode_spec;
use crate::opcode::instr_wf;

verus! {

/// Decoding is total: every 16-bit word maps to a well-formed defined
/// instruction, or to `Unknown` carrying the word itself.
pub proof fn lemma_decode_total(op: u16)
    ensures
        decode_spec(op) is Unknown ==> decode_spec(op) == Instr::Unknown(op),
        !(decode_spec(op) is Unknown) ==> instr_wf(decode_spec(op)),
{
}

/// A tick that fetches a defined instruction moves the program counter to
/// the next instruction, past a skipped one, or to the instruction's
/// explicit target; an Fx0A wait holds it in place, and a fatal call-stack
/// fault halts the machine with the counter past the faulting instruction.
pub proof fn lemma_pc_discipline(s: CpuV, rnd: u8)
    requires
        wf_v(s),
        s.running,
        s.wait_for_key is None,
        s.pc < 0xFFF,
        !(decode_spec(fetch_spec(s)) is Unknown),
    ensures
        ({
            let t = step_spec(s, rnd);
            let inst = decode_spec(fetch_spec(s));
            ||| t.pc == pc_plus2(s.pc)
            ||| t.pc == pc_plus2(pc_plus2(s.pc))
            ||| (inst matches Instr::Jp(nnn) && t.pc == nnn)
            ||| (inst matches Instr::Call(nnn) && (t.pc == nnn || (!t.running && t.pc
                == pc_plus2(s.pc))))
            ||| (inst matches Instr::JpV0(nnn) && t.pc == (nnn + s.v[0]) % 0x10000)
            ||| (inst is Ret && (t.pc == s.stack[s.sp - 1] || (!t.running && t.pc == pc_plus2(
                s.pc,
            ))))
            ||| (inst is LdKey && t.pc == s.pc)
        }),
{
    let t = step_spec(s, rnd);
    let inst = decode_spec(fetch_spec(s));
    assert(s.pc + 2 < 0x10000);
    if inst is LdKey {
        assert(t.pc == s.pc) by {
            assert(pc_plus2(s.pc) == s.pc + 2);
            assert(t.pc == ((s.pc + 2 + 0xFFFE) % 0x10000) as u16);
        }
    }
}

/// While an Fx0A wait is pending, a tick holds the program counter on the
/// waiting instruction, or moves it just past it on resolution; the timers
/// still step, and the frame buffer stays as it was.
pub proof fn lemma_wait_tick_pc(s: CpuV, rnd: u8)
    requires
        wf_v(s),
        s.running,
        s.wait_for_key is Some,
    ensures
        step_spec(s, rnd).pc == s.pc || step_spec(s, rnd).pc == pc_plus2(s.pc),
        step_spec(s, rnd).delay_timer == dec_timers(s).delay_timer,
        step_spec(s, rnd).sound_timer == dec_timers(s).sound_timer,
        step_spec(s, rnd).vram == s.vram,
{
}

/// At tick granularity: a tick whose fetched instruction is neither CLS nor
/// DRW leaves the frame buffer unchanged.
pub proof fn lemma_tick_vram_untouched(s: CpuV, rnd: u8)
    requires
        wf_v(s),
        s.running,
        s.wait_for_key is None,
        s.pc < 0xFFF,
        !(decode_spec(fetch_spec(s)) is Cls),
        !(decode_spec(fetch_spec(s)) is Drw),
    ensures
        step_spec(s, rnd).vram == s.vram,
{
    let s1 = dec_timers(CpuV { pc: pc_plus2(s.pc), ..s });
    crate::opcode::lemma_decode_wf(fetch_spec(s));
    assert(wf_v(s1));
    lemma_vram_untouched(s1, decode_spec(fetch_spec(s)), rnd);
}

/// Only CLS and DRW touch the frame buffer: any other instruction leaves
/// every cell as it was.
pub proof fn lemma_vram_untouched(s: CpuV, inst: Instr, rnd: u8)
    requires
        wf_v(s),
        instr_wf(inst),
        !(inst is Cls),
        !(inst is Drw),
    ensures
        exec_op(s, inst, rnd).vram == s.vram,
{
    match inst {
        Instr::StRegs(x) => {
            assert(exec_op(s, inst, rnd).vram == s.vram);
        },
        Instr::LdRegs(x) => {
            assert(exec_op(s, inst, rnd).vram == s.vram);
        },
        _ => {},
    }
}

/// 8xy4 adds modulo 256 and reports the carry in VF: the flag is 1 exactly
/// when the true sum runs past 255. When x is 0xF the flag write wins, so
/// the sum clause asks x to name another register.
pub proof fn lemma_add_carry(s: CpuV, x: u8, y: u8, rnd: u8)
    requires
        wf_v(s),
        x < 15,
        y < 16,
    ensures
        exec_op(s, Instr::Add(x, y), rnd).v[x as int] == (s.v[x as int] + s.v[y as int]) % 256,
        exec_op(s, Instr::Add(x, y), rnd).v[15] == (if s.v[x as int] + s.v[y as int] > 255 {
            1u8
        } else {
            0u8
        }),
{
}

/// 8xy5 and 8xy7 report the missing borrow in VF: SUB sets VF to 1 exactly
/// when Vx >= Vy, and SUBN symmetrically when Vy >= Vx, whatever registers
/// are named.
pub proof fn lemma_sub_borrow_flags(s: CpuV, x: u8, y: u8, rnd: u8)
    requires
        wf_v(s),
        x < 16,
        y < 16,
    ensures
        exec_op(s, Instr::Sub(x, y), rnd).v[15] == (if s.v[x as int] >= s.v[y as int] {
            1u8
        } else {
            0u8
        }),
        exec_op(s, Instr::Subn(x, y), rnd).v[15] == (if s.v[y as int] >= s.v[x as int] {
            1u8
        } else {
            0u8
        }),
{
}

/// The shifts report the bit they shifted out in VF: the old low bit for
/// SHR, the old high bit for SHL, whatever registers are named.
pub proof fn lemma_shift_flags(s: CpuV, x: u8, y: u8, rnd: u8)
    requires
        wf_v(s),
        x < 16,
        y < 16,
    ensures
        exec_op(s, Instr::Shr(x, y), rnd).v[15] == s.v[x as int] % 2,
        exec_op(s, Instr::Shl(x, y), rnd).v[15] == s.v[x as int] / 128,
{
}

/// Dxyn raises VF exactly when some sprite pixel lands on a cell that was
/// already lit, and clips: every cell the sprite does not cover, including
/// everything past the right and bottom edges, keeps its value.
pub proof fn lemma_drw_collision_and_clip(s: CpuV, x: u8, y: u8, n: u8, rnd: u8)
    requires
        wf_v(s),
        x < 16,
        y < 16,
        n < 16,
    ensures
        ({
            let t = exec_op(s, Instr::Drw(x, y, n), rnd);
            let sx = s.v[x as int] % 64;
            let sy = s.v[y as int] % 32;
            &&& (t.v[15] == 1u8 <==> exists|idx: int|
                0 <= idx < 2048 && #[trigger] drw_hit(sx as int, sy as int, n as int, idx)
                    && drw_pos(sx as int, sy as int, idx) < 8 * n && s.vram[idx] && sprite_bit(
                    sprite_row(s, idx / 64 - sy),
                    idx % 64 - sx,
                ))
            &&& (t.v[15] == 1u8 || t.v[15] == 0u8)
            &&& forall|idx: int|
                0 <= idx < 2048 && !drw_hit(sx as int, sy as int, n as int, idx)
                    ==> t.vram[idx] == s.vram[idx]
        }),
{
}

/// Fx33 writes the three decimal digits of Vx at I, I+1 and I+2, hundreds
/// first, each between 0 and 9, and together they recompose Vx. Stated for
/// an index register whose window stays inside memory; at the very top of
/// the address space the writes wrap instead.
pub proof fn lemma_bcd_digits(s: CpuV, x: u8, rnd: u8)
    requires
        wf_v(s),
        x < 16,
        s.i + 2 < 4096,
    ensures
        ({
            let t = exec_op(s, Instr::LdBcd(x), rnd);
            let vx = s.v[x as int];
            &&& t.mem[s.i as int] == bcd_hundreds(vx)
            &&& t.mem[s.i + 1] == bcd_tens(vx)
            &&& t.mem[s.i + 2] == bcd_ones(vx)
            &&& t.mem[s.i as int] <= 9
            &&& t.mem[s.i + 1] <= 9
            &&& t.mem[s.i + 2] <= 9
            &&& vx == 100 * t.mem[s.i as int] + 10 * t.mem[s.i + 1] + t.mem[s.i + 2]
        }),
{
    let vx = s.v[x as int];
    assert(vx / 100 <= 9);
    assert(vx == 100 * (vx / 100) + 10 * ((vx / 10) % 10) + vx % 10) by {
        vstd::arithmetic::div_mod::lemma_fundamental_div_mod(vx as int, 10);
        vstd::arithmetic::div_mod::lemma_fundamental_div_mod(vx as int / 10, 10);
        assert(vx / 10 / 10 == vx / 100) by (nonlinear_arith);
    }
}

/// Two addresses I + j and I + k with distinct small offsets stay distinct
/// after wrapping into the 4 KiB space.
pub proof fn lemma_addr_distinct(i: int, j: int, k: int)
    requires
        0 <= i,
        0 <= k < j < 4096,
    ensures
        (i + j) % 4096 != (i + k) % 4096,
{
    vstd::arithmetic::div_mod::lemma_fundamental_div_mod(i + j, 4096);
    vstd::arithmetic::div_mod::lemma_fundamental_div_mod(i + k, 4096);
    let d1 = (i + j) / 4096;
    let d2 = (i + k) / 4096;
    if (i + j) % 4096 == (i + k) % 4096 {
        assert(j - k == 4096 * (d1 - d2));
        assert(false);
    }
}

/// The store chain only rewrites memory cells, so memory keeps its size.
pub proof fn lemma_store_upto_len(s: CpuV, m: int)
    requires
        wf_v(s),
        0 <= m <= 16,
    ensures
        store_upto(s, m).len() == 4096,
    decreases m,
{
    if m > 0 {
        lemma_store_upto_len(s, m - 1);
    }
}

/// The load chain only rewrites registers, so the register file keeps its
/// size.
pub proof fn lemma_load_upto_len(s: CpuV, m: int)
    requires
        wf_v(s),
        0 <= m <= 16,
    ensures
        load_upto(s, m).len() == 16,
    decreases m,
{
    if m > 0 {
        lemma_load_upto_len(s, m - 1);
    }
}

/// Fx55 lands register k at address I + k: what the store chain holds at
/// each of its addresses.
pub proof fn lemma_store_upto_at(s: CpuV, m: int, k: int)
    requires
        wf_v(s),
        0 <= k < m <= 16,
    ensures
        store_upto(s, m)[(s.i + k) % 4096] == s.v[k],
    decreases m,
{
    lemma_store_upto_len(s, m - 1);
    if m == k + 1 {
    } else {
        lemma_store_upto_at(s, m - 1, k);
        lemma_addr_distinct(s.i as int, m - 1, k);
    }
}

/// Fx65 fills register k from address I + k and leaves the registers past
/// x alone: what the load chain holds at each index.
pub proof fn lemma_load_upto_at(s: CpuV, m: int, k: int)
    requires
        wf_v(s),
        0 <= m <= 16,
        0 <= k < 16,
    ensures
        k < m ==> load_upto(s, m)[k] == s.mem[(s.i + k) % 4096],
        k >= m ==> load_upto(s, m)[k] == s.v[k],
    decreases m,
{
    if m > 0 {
        lemma_load_upto_len(s, m - 1);
        lemma_load_upto_at(s, m - 1, k);
    }
}

/// The register-file round trip: storing V0 through Vx at I and loading
/// them back leaves every one of those registers exactly as it was.
#[verifier::rlimit(50)]
pub proof fn lemma_store_load_roundtrip(s: CpuV, x: u8, rnd: u8)
    requires
        wf_v(s),
        x < 16,
    ensures
        forall|k: int|
            0 <= k <= x ==> exec_op(exec_op(s, Instr::StRegs(x), rnd), Instr::LdRegs(x), rnd).v[k]
                == s.v[k],
{
    let t = exec_op(s, Instr::StRegs(x), rnd);
    let u = exec_op(t, Instr::LdRegs(x), rnd);
    assert(t.mem == store_upto(s, x + 1));
    assert(t.i == s.i && t.v == s.v);
    lemma_store_upto_len(s, x + 1);
    assert(wf_v(t));
    assert(u.v == load_upto(t, x + 1));
    assert forall|k: int| 0 <= k <= x implies u.v[k] == s.v[k] by {
        lemma_load_upto_at(t, x + 1, k);
        assert(u.v[k] == t.mem[(s.i + k) % 4096]);
        lemma_store_upto_at(s, x + 1, k);
    }
}

} // verus!
