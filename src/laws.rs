//! Properties of the instruction set, proved from the model in `isa`.
use crate::flags::{bit, even_parity, flags_byte};
use crate::isa::{condition, dst_field, pair_field, src_field};
use crate::state::{add16, add8, high, low, word, CpuState};
use vstd::prelude::*;

verus! {

/// Length in bytes of the instruction that opcode `op` begins, by the 8080
/// opcode table: three for those with an address or a 16-bit immediate, two
/// for those with an 8-bit immediate or a port, one for the rest.
pub open spec fn instr_len(op: u8) -> int {
    if op == 0x01 || op == 0x11 || op == 0x21 || op == 0x31 || op == 0x22 || op == 0x2a || op
        == 0x32 || op == 0x3a || (op >= 0xc0 && (op % 8 == 2 || op % 8 == 4)) || op == 0xc3 || op
        == 0xcb || op == 0xcd || op == 0xdd || op == 0xed || op == 0xfd {
        3
    } else if (op < 0x40 && op % 8 == 6) || (op >= 0xc0 && op % 8 == 6) || op == 0xd3 || op
        == 0xdb {
        2
    } else {
        1
    }
}

/// Opcodes that may set PC to a computed address: jumps, calls, returns,
/// restarts and PCHL.
pub open spec fn is_transfer(op: u8) -> bool {
    op >= 0xc0 && (op % 8 == 0 || op % 8 == 2 || op % 8 == 4 || op % 8 == 7 || op == 0xc3 || op
        == 0xcb || op == 0xc9 || op == 0xd9 || op == 0xe9 || op == 0xcd || op == 0xdd || op == 0xed
        || op == 0xfd)
}

/// Conditional jumps, calls and returns.
pub open spec fn is_conditional(op: u8) -> bool {
    op >= 0xc0 && (op % 8 == 0 || op % 8 == 2 || op % 8 == 4)
}

/// Every instruction but a control transfer moves PC past itself, so PC never
/// stays where it was; HLT too leaves PC one past itself. A conditional
/// transfer whose condition fails also moves PC past itself.
pub proof fn lemma_pc_advances(s: CpuState)
    requires
        s.wf(),
    ensures
        !is_transfer(s.opcode()) ==> s.step().pc == add16(s.pc, instr_len(s.opcode())),
        !is_transfer(s.opcode()) ==> s.step().pc != s.pc,
        is_conditional(s.opcode()) && !condition(s.flags, dst_field(s.opcode())) ==> s.step().pc
            == add16(s.pc, instr_len(s.opcode())),
{
    let op = s.opcode();
    let t = s.skip(1);
    assert(add16(t.pc, 1) == add16(s.pc, 2));
    assert(add16(t.pc, 2) == add16(s.pc, 3));
    if op < 64 {
        lemma_pc_advances_low(t, op);
    } else if op >= 192 {
        lemma_pc_advances_high(t, op);
    }
}

proof fn lemma_pc_advances_low(t: CpuState, op: u8)
    requires
        op < 64,
    ensures
        t.execute(op).pc == add16(t.pc, instr_len(op) - 1),
{
    assert(src_field(op) == op % 8);
    assert(dst_field(op) == (op / 8) % 8);
    assert(add16(t.pc, 0) == t.pc);
}

proof fn lemma_pc_advances_high(t: CpuState, op: u8)
    requires
        op >= 192,
    ensures
        !is_transfer(op) ==> t.execute(op).pc == add16(t.pc, instr_len(op) - 1),
        is_conditional(op) && !condition(t.flags, dst_field(op)) ==> t.execute(op).pc == add16(
            t.pc,
            instr_len(op) - 1,
        ),
{
    assert(src_field(op) == op % 8);
    assert(dst_field(op) == (op / 8) % 8);
    assert(add16(t.pc, 0) == t.pc);
}

/// ADI b from A = a with CY clear: A becomes (a + b) mod 256, CY tells
/// whether a + b passed 255, and Z, S and P follow the new A.
pub proof fn lemma_adi(s: CpuState, b: u8)
    requires
        s.wf(),
        s.opcode() == 0xc6,
        s.read(add16(s.pc, 1)) == b,
        !s.flags.carry,
    ensures
        s.step().a == (s.a + b) % 256,
        s.step().flags.carry == (s.a + b > 255),
        s.step().flags.zero == (s.step().a == 0),
        s.step().flags.sign == (s.step().a / 128 == 1),
        s.step().flags.parity == even_parity(s.step().a),
{
}

/// CMP r leaves A as it is and sets the flags that SUB r sets on the same
/// inputs: `t` differs from `s` only in holding SUB r where `s` holds CMP r,
/// and r reads the same in both.
pub proof fn lemma_cmp_flags_are_sub_flags(s: CpuState, t: CpuState, r: u8)
    requires
        s.wf(),
        r < 8,
        s.opcode() == 0xb8 + r,
        t == s.write(s.pc, (0x90 + r) as u8),
        t.reg(r) == s.reg(r),
    ensures
        s.step().a == s.a,
        s.step().flags == t.step().flags,
{
    let x = s.reg(r);
    assert(dst_field((0xb8 + r) as u8) == 7 && src_field((0xb8 + r) as u8) == r);
    assert(dst_field((0x90 + r) as u8) == 2 && src_field((0x90 + r) as u8) == r);
    assert(t.opcode() == 0x90 + r);
    assert(s.skip(1).reg(r) == x);
    assert(t.skip(1).reg(r) == x);
    assert(s.step() == s.skip(1).alu(7, x));
    assert(t.step() == t.skip(1).alu(2, x));
}

/// PUSH rp followed by POP rp gives back the pair (BC, DE or HL) and SP.
pub proof fn lemma_push_pop_pair(s: CpuState, rp: u8)
    requires
        s.wf(),
        rp < 3,
    ensures
        s.execute((0xc5 + 16 * rp) as u8).execute((0xc1 + 16 * rp) as u8).pair(rp) == s.pair(rp),
        s.execute((0xc5 + 16 * rp) as u8).execute((0xc1 + 16 * rp) as u8).sp == s.sp,
{
    let push_op = (0xc5 + 16 * rp) as u8;
    let pop_op = (0xc1 + 16 * rp) as u8;
    assert(src_field(push_op) == 5 && dst_field(push_op) == 2 * rp && pair_field(push_op) == rp);
    assert(src_field(pop_op) == 1 && dst_field(pop_op) == 2 * rp && pair_field(pop_op) == rp);
    let v = s.pair(rp);
    let u = s.push(v);
    assert(s.execute(push_op) == u);
    lemma_push_then_top(s, v);
    assert(u.execute(pop_op) == u.pop().set_pair(rp, v));
    assert(word(high(v), low(v)) == v);
}

/// A pushed word is on top of the stack, and popping it gives back SP.
pub proof fn lemma_push_then_top(s: CpuState, v: u16)
    requires
        s.wf(),
    ensures
        s.push(v).top() == v,
        s.push(v).pop().sp == s.sp,
        s.push(v).wf(),
{
    let u = s.push(v);
    assert(add16(u.sp, 1) == add16(s.sp, -1));
    assert(add16(u.sp, 2) == s.sp);
    assert(add16(s.sp, -1) != add16(s.sp, -2));
    assert(u.read(u.sp) == low(v));
    assert(u.read(add16(u.sp, 1)) == high(v));
    assert(word(high(v), low(v)) == v);
}

/// PUSH PSW followed by POP PSW gives back A, the five flags and SP; the
/// byte pushed below A is the flag byte, laid out `S Z 0 AC 0 P 1 CY`.
pub proof fn lemma_push_pop_psw(s: CpuState)
    requires
        s.wf(),
    ensures
        s.execute(0xf5).execute(0xf1).a == s.a,
        s.execute(0xf5).execute(0xf1).flags == s.flags,
        s.execute(0xf5).execute(0xf1).sp == s.sp,
        s.execute(0xf5).read(add16(s.sp, -1)) == s.a,
        s.execute(0xf5).read(add16(s.sp, -2)) == flags_byte(s.flags),
        flags_byte(s.flags) % 2 == bit(s.flags.carry),
        (flags_byte(s.flags) / 2) % 2 == 1,
        (flags_byte(s.flags) / 4) % 2 == bit(s.flags.parity),
        (flags_byte(s.flags) / 8) % 2 == 0,
        (flags_byte(s.flags) / 16) % 2 == bit(s.flags.aux_carry),
        (flags_byte(s.flags) / 32) % 2 == 0,
        (flags_byte(s.flags) / 64) % 2 == bit(s.flags.zero),
        flags_byte(s.flags) / 128 == bit(s.flags.sign),
{
}

/// XCHG undoes itself.
pub proof fn lemma_xchg_twice(s: CpuState)
    requires
        s.wf(),
    ensures
        s.execute(0xeb).execute(0xeb) == s,
{
}

/// XTHL undoes itself.
pub proof fn lemma_xthl_twice(s: CpuState)
    requires
        s.wf(),
    ensures
        s.execute(0xe3).execute(0xe3) == s,
{
    assert(s.execute(0xe3).execute(0xe3).memory =~= s.memory);
}

/// STC twice leaves CY set; CMC twice leaves CY as it was.
pub proof fn lemma_stc_cmc_twice(s: CpuState)
    requires
        s.wf(),
    ensures
        s.execute(0x37).execute(0x37).flags.carry,
        s.execute(0x3f).execute(0x3f).flags.carry == s.flags.carry,
{
}

/// INR r followed by DCR r gives back the register, and CY stays through both.
pub proof fn lemma_inr_dcr(s: CpuState, r: u8)
    requires
        s.wf(),
        r < 8,
    ensures
        s.execute((0x04 + 8 * r) as u8).execute((0x05 + 8 * r) as u8).reg(r) == s.reg(r),
        s.execute((0x04 + 8 * r) as u8).execute((0x05 + 8 * r) as u8).flags.carry
            == s.flags.carry,
{
    let inr_op = (0x04 + 8 * r) as u8;
    let dcr_op = (0x05 + 8 * r) as u8;
    assert(src_field(inr_op) == 4 && dst_field(inr_op) == r);
    assert(src_field(dcr_op) == 5 && dst_field(dcr_op) == r);
    let u = s.inr(r);
    assert(s.execute(inr_op) == u);
    assert(u.execute(dcr_op) == u.dcr(r));
    assert(r == 6 ==> u.hl() == s.hl());
    assert(u.reg(r) == add8(s.reg(r), 1));
    assert(add8(add8(s.reg(r), 1), -1) == s.reg(r));
}

} // verus!
