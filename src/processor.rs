//! The executable interpreter. Each operation is proved to act on the state as
//! the model in `isa` says.
use crate::flags::{bit_count, even_parity, result_flags, ConditionBits};
use crate::isa::{
    alu_add, alu_sub, condition, dst_field, pair_field, run, run_faults, src_field,
    UnimplementedOpcode,
};
use crate::state::{add16, high, load_image, low, reset_state, word, CpuState, MEMORY_SIZE};
use vstd::prelude::*;

verus! {

/// Registers, flags, latches and the 64 KiB memory of an 8080.
///
/// No I/O port is attached: IN and OUT skip their port byte and change
/// nothing else. DAA is executed as NOP.
#[derive(Debug)]
pub struct Processor {
    pub a: u8,
    pub b: u8,
    pub c: u8,
    pub d: u8,
    pub e: u8,
    pub h: u8,
    pub l: u8,
    pub sp: u16,
    pub pc: u16,
    pub conditions: ConditionBits,
    pub halt: bool,
    pub interrupt_enabled: bool,
    pub memory: Vec<u8>,
}

impl View for Processor {
    type V = CpuState;

    open spec fn view(&self) -> CpuState {
        CpuState {
            a: self.a,
            b: self.b,
            c: self.c,
            d: self.d,
            e: self.e,
            h: self.h,
            l: self.l,
            sp: self.sp,
            pc: self.pc,
            flags: self.conditions,
            halt: self.halt,
            interrupt_enabled: self.interrupt_enabled,
            memory: self.memory@,
        }
    }
}

/// A processor at power-on: all registers, flags and latches clear, memory zero.
pub fn make_processor() -> (p: Processor)
    ensures
        p.wf(),
        p@ == reset_state(),
{
    let memory: Vec<u8> = vec![0u8; MEMORY_SIZE];
    let p = Processor {
        a: 0,
        b: 0,
        c: 0,
        d: 0,
        e: 0,
        h: 0,
        l: 0,
        sp: 0,
        pc: 0,
        conditions: ConditionBits {
            carry: false,
            aux_carry: false,
            sign: false,
            zero: false,
            parity: false,
        },
        halt: false,
        interrupt_enabled: false,
        memory,
    };
    assert(p@.memory =~= reset_state().memory);
    p
}

proof fn lemma_bytes(val: u16)
    by (bit_vector)
    ensures
        (val >> 8) as u8 == val / 256,
        (val & 0xff) as u8 == val % 256,
{
}

proof fn lemma_word(hi: u8, lo: u8)
    by (bit_vector)
    ensures
        ((hi as u16) << 8) | (lo as u16) == hi * 256 + lo,
{
}

impl Processor {
    /// Memory covers the whole 16-bit address space.
    pub open spec fn wf(&self) -> bool {
        self@.wf()
    }

    fn split_bytes(val: u16) -> (r: (u8, u8))
        ensures
            r == (high(val), low(val)),
    {
        proof {
            lemma_bytes(val);
        }
        let high_byte: u8 = (val >> 8) as u8;
        let low_byte: u8 = (val & 0xff) as u8;
        (high_byte, low_byte)
    }

    fn merge_bytes(high_byte: u8, low_byte: u8) -> (r: u16)
        ensures
            r == word(high_byte, low_byte),
    {
        proof {
            lemma_word(high_byte, low_byte);
        }
        ((high_byte as u16) << 8) | low_byte as u16
    }

    fn get_mem_addr(&self) -> (r: u16)
        ensures
            r == self@.hl(),
    {
        Self::merge_bytes(self.h, self.l)
    }

    fn read_mem(&self, addr: u16) -> (r: u8)
        requires
            self.wf(),
        ensures
            r == self@.read(addr),
    {
        self.memory[addr as usize]
    }

    fn write_mem(&mut self, addr: u16, v: u8)
        requires
            old(self).wf(),
        ensures
            final(self).wf(),
            final(self)@ == old(self)@.write(addr, v),
    {
        self.memory[addr as usize] = v;
    }

    fn get_register(&self, reg: u8) -> (r: u8)
        requires
            self.wf(),
        ensures
            r == self@.reg(reg),
    {
        match reg {
            0 => self.b,
            1 => self.c,
            2 => self.d,
            3 => self.e,
            4 => self.h,
            5 => self.l,
            6 => self.read_mem(self.get_mem_addr()),
            _ => self.a,
        }
    }

    fn set_register(&mut self, reg: u8, value: u8)
        requires
            old(self).wf(),
        ensures
            final(self).wf(),
            final(self)@ == old(self)@.set_reg(reg, value),
    {
        match reg {
            0 => self.b = value,
            1 => self.c = value,
            2 => self.d = value,
            3 => self.e = value,
            4 => self.h = value,
            5 => self.l = value,
            6 => {
                let addr = self.get_mem_addr();
                self.write_mem(addr, value);
            },
            _ => self.a = value,
        }
    }

    fn get_register_pair_value(&self, reg_pair: u8) -> (r: u16)
        ensures
            r == self@.pair(reg_pair),
    {
        match reg_pair {
            0 => Self::merge_bytes(self.b, self.c),
            1 => Self::merge_bytes(self.d, self.e),
            2 => Self::merge_bytes(self.h, self.l),
            _ => self.sp,
        }
    }

    fn set_register_pair(&mut self, reg_pair: u8, val: u16)
        requires
            old(self).wf(),
        ensures
            final(self).wf(),
            final(self)@ == old(self)@.set_pair(reg_pair, val),
    {
        let (high_byte, low_byte) = Self::split_bytes(val);
        match reg_pair {
            0 => {
                self.b = high_byte;
                self.c = low_byte;
            },
            1 => {
                self.d = high_byte;
                self.e = low_byte;
            },
            2 => {
                self.h = high_byte;
                self.l = low_byte;
            },
            _ => self.sp = val,
        }
    }

    /// The byte at PC; PC moves past it.
    fn get_byte(&mut self) -> (r: u8)
        requires
            old(self).wf(),
        ensures
            final(self).wf(),
            final(self)@ == old(self)@.skip(1),
            r == old(self)@.imm8(),
    {
        let r = self.read_mem(self.pc);
        self.pc = self.pc.wrapping_add(1);
        r
    }

    /// The little-endian word at PC; PC moves past it.
    fn get_two_bytes(&mut self) -> (r: u16)
        requires
            old(self).wf(),
        ensures
            final(self).wf(),
            final(self)@ == old(self)@.skip(2),
            r == old(self)@.imm16(),
    {
        let low_byte = self.get_byte();
        let high_byte = self.get_byte();
        Self::merge_bytes(high_byte, low_byte)
    }

    fn push_to_stack(&mut self, byte: u8)
        requires
            old(self).wf(),
        ensures
            final(self).wf(),
            final(self)@ == (CpuState { sp: add16(old(self).sp, -1), ..old(self)@.write(add16(old(self).sp, -1), byte) }),
    {
        self.sp = self.sp.wrapping_sub(1);
        self.write_mem(self.sp, byte);
    }

    fn push_addr_to_stack(&mut self, addr: u16)
        requires
            old(self).wf(),
        ensures
            final(self).wf(),
            final(self)@ == old(self)@.push(addr),
    {
        let (high_byte, low_byte) = Self::split_bytes(addr);
        self.push_to_stack(high_byte);
        self.push_to_stack(low_byte);
    }

    fn pop_from_stack(&mut self) -> (r: u8)
        requires
            old(self).wf(),
        ensures
            final(self).wf(),
            final(self)@ == (CpuState { sp: add16(old(self).sp, 1), ..old(self)@ }),
            r == old(self)@.read(old(self).sp),
    {
        let r = self.read_mem(self.sp);
        self.sp = self.sp.wrapping_add(1);
        r
    }

    fn pop_addr_from_stack(&mut self) -> (r: u16)
        requires
            old(self).wf(),
        ensures
            final(self).wf(),
            final(self)@ == old(self)@.pop(),
            r == old(self)@.top(),
    {
        let low_byte = self.pop_from_stack();
        let high_byte = self.pop_from_stack();
        Self::merge_bytes(high_byte, low_byte)
    }
}


proof fn lemma_bit_count_bound(v: nat)
    ensures
        bit_count(v) <= v,
    decreases v,
{
    if v != 0 {
        lemma_bit_count_bound(v / 2);
    }
}

proof fn lemma_shift_one(n: u8)
    by (bit_vector)
    ensures
        n & 1 == n % 2,
        n >> 1 == n / 2,
{
}

proof fn lemma_result_bits(v: u8)
    by (bit_vector)
    ensures
        ((v & 0x80) != 0) == (v >= 128),
        v & 0xf == v % 16,
{
}

/// The fields of an opcode, as shifts and masks and as octal digits.
proof fn lemma_opcode_fields(op: u8)
    by (bit_vector)
    ensures
        op >> 6 == op / 64,
        op & 0b111 == op % 8,
        (op >> 3) & 0b111 == (op / 8) % 8,
        (op >> 4) & 0b11 == (op / 16) % 4,
        (op / 16) % 4 == ((op / 8) % 8) / 2,
{
}

proof fn lemma_rlc(a: u8)
    by (bit_vector)
    ensures
        (a << 1) | (a >> 7) == (a * 2) % 256 + a / 128,
{
}

proof fn lemma_rrc(a: u8)
    by (bit_vector)
    ensures
        (a >> 1) | (a << 7) == a / 2 + (a % 2) * 128,
{
}

proof fn lemma_ral(a: u8, c: u8)
    by (bit_vector)
    requires
        c <= 1,
    ensures
        (a << 1) | c == (a * 2) % 256 + c,
{
}

proof fn lemma_rar(a: u8, c: u8)
    by (bit_vector)
    requires
        c <= 1,
    ensures
        (a >> 1) | (c << 7) == a / 2 + c * 128,
{
}

proof fn lemma_end_bits(a: u8)
    by (bit_vector)
    ensures
        a >> 7 == a / 128,
        a & 1 == a % 2,
{
}

impl Processor {
    /// Even parity of `num`: whether it has an even number of set bits.
    fn parity(num: u8) -> (r: bool)
        ensures
            r == even_parity(num),
    {
        let mut hamming_weight: u16 = 0;
        let mut n: u8 = num;
        while n != 0
            invariant
                hamming_weight + bit_count(n as nat) == bit_count(num as nat),
            decreases n,
        {
            proof {
                lemma_shift_one(n);
                lemma_bit_count_bound(num as nat);
            }
            hamming_weight = hamming_weight + (n & 1) as u16;
            n = n >> 1;
        }
        hamming_weight % 2 == 0
    }

    /// The flags for result `v` with the given carries.
    fn zsp_flags(v: u8, carry: bool, aux_carry: bool) -> (f: ConditionBits)
        ensures
            f == result_flags(v, carry, aux_carry),
    {
        proof {
            lemma_result_bits(v);
        }
        ConditionBits {
            carry,
            aux_carry,
            sign: (v & 0x80) != 0,
            zero: v == 0,
            parity: Self::parity(v),
        }
    }

    /// A plus `operand` plus the carry in; A and all flags take the result.
    fn add_to_acc(&mut self, operand: u8, carry_in: bool)
        requires
            old(self).wf(),
        ensures
            final(self).wf(),
            final(self)@ == old(self)@.acc_result(alu_add(old(self).a, operand, carry_in)),
    {
        let cin: u8 = if carry_in { 1 } else { 0 };
        let answer: u16 = (self.a as u16) + (operand as u16) + (cin as u16);
        proof {
            lemma_bytes(answer);
            lemma_result_bits(self.a);
            lemma_result_bits(operand);
        }
        let aux = (self.a & 0xf) + (operand & 0xf) + cin > 0xf;
        let result = (answer & 0xff) as u8;
        self.conditions = Self::zsp_flags(result, answer > 0xff, aux);
        self.a = result;
    }

    /// `minuend - subtrahend - borrow` on eight bits; the flags take the
    /// result, which is returned.
    fn subtract_acc(&mut self, minuend: u8, subtrahend: u8, borrow: bool) -> (r: u8)
        requires
            old(self).wf(),
        ensures
            final(self).wf(),
            r == alu_sub(minuend, subtrahend, borrow).0,
            final(self)@ == old(self)@.with_flags(alu_sub(minuend, subtrahend, borrow).1),
    {
        let bin: u8 = if borrow { 1 } else { 0 };
        // widened by 0x100 so that the difference cannot go below zero
        let difference: u16 = ((minuend as u16) + 0x100) - ((subtrahend as u16) + (bin as u16));
        proof {
            lemma_bytes(difference);
            lemma_result_bits(minuend);
            lemma_result_bits(subtrahend);
        }
        let ret_diff = (difference & 0xff) as u8;
        let carry = (subtrahend as u16) + (bin as u16) > minuend as u16;
        let aux = (minuend & 0xf) as u16 >= ((subtrahend & 0xf) as u16) + (bin as u16);
        self.conditions = Self::zsp_flags(ret_diff, carry, aux);
        ret_diff
    }

    /// A takes `value`; CY and AC clear, Z, S and P follow `value`.
    fn logical_op(&mut self, value: u8)
        requires
            old(self).wf(),
        ensures
            final(self).wf(),
            final(self)@ == old(self)@.acc_result((value, result_flags(value, false, false))),
    {
        self.a = value;
        self.conditions = Self::zsp_flags(value, false, false);
    }
}


impl Processor {
    /// LXI: pair `rp` takes the word at PC.
    fn lxi(&mut self, opcode: u8)
        requires
            old(self).wf(),
        ensures
            final(self).wf(),
            final(self)@ == old(self)@.skip(2).set_pair(pair_field(opcode), old(self)@.imm16()),
    {
        proof {
            lemma_opcode_fields(opcode);
        }
        let reg_pair = (opcode >> 4) & 0b11;
        let val: u16 = self.get_two_bytes();
        self.set_register_pair(reg_pair, val);
    }

    /// SHLD: L and H go to the address at PC and the one after it.
    fn shld(&mut self)
        requires
            old(self).wf(),
        ensures
            final(self).wf(),
            final(self)@ == old(self)@.skip(2).write(old(self)@.imm16(), old(self).l).write(
                add16(old(self)@.imm16(), 1),
                old(self).h,
            ),
    {
        let addr = self.get_two_bytes();
        self.write_mem(addr, self.l);
        self.write_mem(addr.wrapping_add(1), self.h);
    }

    /// LHLD: L and H come from the address at PC and the one after it.
    fn lhld(&mut self)
        requires
            old(self).wf(),
        ensures
            final(self).wf(),
            final(self)@ == (CpuState {
                l: old(self)@.read(old(self)@.imm16()),
                h: old(self)@.read(add16(old(self)@.imm16(), 1)),
                ..old(self)@.skip(2)
            }),
    {
        let addr = self.get_two_bytes();
        self.l = self.read_mem(addr);
        self.h = self.read_mem(addr.wrapping_add(1));
    }

    /// STA: A goes to the address at PC.
    fn sta(&mut self)
        requires
            old(self).wf(),
        ensures
            final(self).wf(),
            final(self)@ == old(self)@.skip(2).write(old(self)@.imm16(), old(self).a),
    {
        let addr = self.get_two_bytes();
        self.write_mem(addr, self.a);
    }

    /// LDA: A comes from the address at PC.
    fn lda(&mut self)
        requires
            old(self).wf(),
        ensures
            final(self).wf(),
            final(self)@ == (CpuState { a: old(self)@.read(old(self)@.imm16()), ..old(self)@.skip(2) }),
    {
        let addr = self.get_two_bytes();
        self.a = self.read_mem(addr);
    }

    /// STAX: A goes to the address in BC or DE.
    fn stax(&mut self, opcode: u8)
        requires
            old(self).wf(),
        ensures
            final(self).wf(),
            final(self)@ == old(self)@.write(old(self)@.pair(pair_field(opcode)), old(self).a),
    {
        proof {
            lemma_opcode_fields(opcode);
        }
        let reg_pair = (opcode >> 4) & 0b11;
        let addr = self.get_register_pair_value(reg_pair);
        self.write_mem(addr, self.a);
    }

    /// LDAX: A comes from the address in BC or DE.
    fn ldax(&mut self, opcode: u8)
        requires
            old(self).wf(),
        ensures
            final(self).wf(),
            final(self)@ == (CpuState { a: old(self)@.read(old(self)@.pair(pair_field(opcode))), ..old(self)@ }),
    {
        proof {
            lemma_opcode_fields(opcode);
        }
        let reg_pair = (opcode >> 4) & 0b11;
        let addr = self.get_register_pair_value(reg_pair);
        self.a = self.read_mem(addr);
    }

    /// MVI: register `r` takes the byte at PC.
    fn mvi(&mut self, opcode: u8)
        requires
            old(self).wf(),
        ensures
            final(self).wf(),
            final(self)@ == old(self)@.skip(1).set_reg(dst_field(opcode), old(self)@.imm8()),
    {
        proof {
            lemma_opcode_fields(opcode);
        }
        let reg = (opcode >> 3) & 0b111;
        let byte = self.get_byte();
        self.set_register(reg, byte);
    }

    /// MOV: the destination register takes the source register.
    fn mov(&mut self, opcode: u8)
        requires
            old(self).wf(),
        ensures
            final(self).wf(),
            final(self)@ == old(self)@.set_reg(dst_field(opcode), old(self)@.reg(src_field(opcode))),
    {
        proof {
            lemma_opcode_fields(opcode);
        }
        let reg_1: u8 = (opcode >> 3) & 0b111;
        let reg_2: u8 = opcode & 0b111;
        let val = self.get_register(reg_2);
        self.set_register(reg_1, val);
    }

    fn halt(&mut self)
        requires
            old(self).wf(),
        ensures
            final(self).wf(),
            final(self)@ == (CpuState { halt: true, ..old(self)@ }),
    {
        self.halt = true;
    }

    /// INR: register plus one; Z, S, P and AC follow, CY stays.
    fn inr(&mut self, opcode: u8)
        requires
            old(self).wf(),
        ensures
            final(self).wf(),
            final(self)@ == old(self)@.inr(dst_field(opcode)),
    {
        proof {
            lemma_opcode_fields(opcode);
        }
        let reg_code: u8 = (opcode >> 3) & 0b111;
        let cur_val = self.get_register(reg_code);
        proof {
            lemma_result_bits(cur_val);
        }
        let new_val = cur_val.wrapping_add(1);
        self.set_register(reg_code, new_val);
        let aux = (cur_val & 0xf) == 0xf;
        self.conditions = Self::zsp_flags(new_val, self.conditions.carry, aux);
    }

    /// DCR: register minus one; Z, S, P and AC follow, CY stays.
    fn dcr(&mut self, opcode: u8)
        requires
            old(self).wf(),
        ensures
            final(self).wf(),
            final(self)@ == old(self)@.dcr(dst_field(opcode)),
    {
        proof {
            lemma_opcode_fields(opcode);
        }
        let reg_code: u8 = (opcode >> 3) & 0b111;
        let cur_val = self.get_register(reg_code);
        proof {
            lemma_result_bits(cur_val);
        }
        let new_val = cur_val.wrapping_sub(1);
        self.set_register(reg_code, new_val);
        let aux = (cur_val & 0xf) != 0;
        self.conditions = Self::zsp_flags(new_val, self.conditions.carry, aux);
    }

    /// INX: pair plus one; no flag changes.
    fn inx(&mut self, opcode: u8)
        requires
            old(self).wf(),
        ensures
            final(self).wf(),
            final(self)@ == old(self)@.set_pair(pair_field(opcode), add16(old(self)@.pair(pair_field(opcode)), 1)),
    {
        proof {
            lemma_opcode_fields(opcode);
        }
        let reg_pair = (opcode >> 4) & 0b11;
        let pair_val = self.get_register_pair_value(reg_pair).wrapping_add(1);
        self.set_register_pair(reg_pair, pair_val);
    }

    /// DCX: pair minus one; no flag changes.
    fn dcx(&mut self, opcode: u8)
        requires
            old(self).wf(),
        ensures
            final(self).wf(),
            final(self)@ == old(self)@.set_pair(pair_field(opcode), add16(old(self)@.pair(pair_field(opcode)), -1)),
    {
        proof {
            lemma_opcode_fields(opcode);
        }
        let reg_pair = (opcode >> 4) & 0b11;
        let pair_val = self.get_register_pair_value(reg_pair).wrapping_sub(1);
        self.set_register_pair(reg_pair, pair_val);
    }

    /// DAD: HL plus a pair; CY takes the carry out of bit 15.
    fn dad(&mut self, opcode: u8)
        requires
            old(self).wf(),
        ensures
            final(self).wf(),
            final(self)@ == old(self)@.dad(pair_field(opcode)),
    {
        proof {
            lemma_opcode_fields(opcode);
        }
        let reg_pair: u32 = self.get_register_pair_value((opcode >> 4) & 0b11) as u32;
        let hl_val: u32 = self.get_register_pair_value(2) as u32;
        let sum: u32 = reg_pair + hl_val;
        self.conditions.carry = sum > 0xffff;
        self.set_register_pair(2, (sum % 0x10000) as u16);
    }

    /// The register named by bits 2..0.
    fn source_operand(&self, opcode: u8) -> (r: u8)
        requires
            self.wf(),
        ensures
            r == self@.reg(src_field(opcode)),
    {
        proof {
            lemma_opcode_fields(opcode);
        }
        self.get_register(opcode & 0b111)
    }

    fn add(&mut self, opcode: u8)
        requires
            old(self).wf(),
        ensures
            final(self).wf(),
            final(self)@ == old(self)@.alu(0, old(self)@.reg(src_field(opcode))),
    {
        let operand = self.source_operand(opcode);
        self.add_to_acc(operand, false);
    }

    fn adc(&mut self, opcode: u8)
        requires
            old(self).wf(),
        ensures
            final(self).wf(),
            final(self)@ == old(self)@.alu(1, old(self)@.reg(src_field(opcode))),
    {
        let operand = self.source_operand(opcode);
        self.add_to_acc(operand, self.conditions.carry);
    }

    fn sub(&mut self, opcode: u8)
        requires
            old(self).wf(),
        ensures
            final(self).wf(),
            final(self)@ == old(self)@.alu(2, old(self)@.reg(src_field(opcode))),
    {
        let operand = self.source_operand(opcode);
        self.a = self.subtract_acc(self.a, operand, false);
    }

    fn sbb(&mut self, opcode: u8)
        requires
            old(self).wf(),
        ensures
            final(self).wf(),
            final(self)@ == old(self)@.alu(3, old(self)@.reg(src_field(opcode))),
    {
        let operand = self.source_operand(opcode);
        self.a = self.subtract_acc(self.a, operand, self.conditions.carry);
    }

    fn ana(&mut self, opcode: u8)
        requires
            old(self).wf(),
        ensures
            final(self).wf(),
            final(self)@ == old(self)@.alu(4, old(self)@.reg(src_field(opcode))),
    {
        let right = self.source_operand(opcode);
        self.logical_op(self.a & right);
    }

    fn xra(&mut self, opcode: u8)
        requires
            old(self).wf(),
        ensures
            final(self).wf(),
            final(self)@ == old(self)@.alu(5, old(self)@.reg(src_field(opcode))),
    {
        let right = self.source_operand(opcode);
        self.logical_op(self.a ^ right);
    }

    fn ora(&mut self, opcode: u8)
        requires
            old(self).wf(),
        ensures
            final(self).wf(),
            final(self)@ == old(self)@.alu(6, old(self)@.reg(src_field(opcode))),
    {
        let right = self.source_operand(opcode);
        self.logical_op(self.a | right);
    }

    /// CMP: the flags of SUB; A stays.
    fn cmp(&mut self, opcode: u8)
        requires
            old(self).wf(),
        ensures
            final(self).wf(),
            final(self)@ == old(self)@.alu(7, old(self)@.reg(src_field(opcode))),
    {
        let operand = self.source_operand(opcode);
        self.subtract_acc(self.a, operand, false);
    }

    fn adi(&mut self)
        requires
            old(self).wf(),
        ensures
            final(self).wf(),
            final(self)@ == old(self)@.skip(1).alu(0, old(self)@.imm8()),
    {
        let immediate = self.get_byte();
        self.add_to_acc(immediate, false);
    }

    fn aci(&mut self)
        requires
            old(self).wf(),
        ensures
            final(self).wf(),
            final(self)@ == old(self)@.skip(1).alu(1, old(self)@.imm8()),
    {
        let imm = self.get_byte();
        self.add_to_acc(imm, self.conditions.carry);
    }

    fn sui(&mut self)
        requires
            old(self).wf(),
        ensures
            final(self).wf(),
            final(self)@ == old(self)@.skip(1).alu(2, old(self)@.imm8()),
    {
        let subtrahend = self.get_byte();
        self.a = self.subtract_acc(self.a, subtrahend, false);
    }

    fn sbi(&mut self)
        requires
            old(self).wf(),
        ensures
            final(self).wf(),
            final(self)@ == old(self)@.skip(1).alu(3, old(self)@.imm8()),
    {
        let subtrahend = self.get_byte();
        self.a = self.subtract_acc(self.a, subtrahend, self.conditions.carry);
    }

    fn ani(&mut self)
        requires
            old(self).wf(),
        ensures
            final(self).wf(),
            final(self)@ == old(self)@.skip(1).alu(4, old(self)@.imm8()),
    {
        let right = self.get_byte();
        self.logical_op(self.a & right);
    }

    fn xri(&mut self)
        requires
            old(self).wf(),
        ensures
            final(self).wf(),
            final(self)@ == old(self)@.skip(1).alu(5, old(self)@.imm8()),
    {
        let right = self.get_byte();
        self.logical_op(self.a ^ right);
    }

    fn ori(&mut self)
        requires
            old(self).wf(),
        ensures
            final(self).wf(),
            final(self)@ == old(self)@.skip(1).alu(6, old(self)@.imm8()),
    {
        let right = self.get_byte();
        self.logical_op(self.a | right);
    }

    fn cpi(&mut self)
        requires
            old(self).wf(),
        ensures
            final(self).wf(),
            final(self)@ == old(self)@.skip(1).alu(7, old(self)@.imm8()),
    {
        let subtrahend = self.get_byte();
        self.subtract_acc(self.a, subtrahend, false);
    }
}


impl Processor {
    /// RLC, RRC, RAL or RAR, by bits 5..3.
    fn rotate_acc(&mut self, opcode: u8)
        requires
            old(self).wf(),
        ensures
            final(self).wf(),
            final(self)@ == old(self)@.rotate(dst_field(opcode)),
    {
        proof {
            lemma_opcode_fields(opcode);
            lemma_end_bits(self.a);
            lemma_rlc(self.a);
            lemma_rrc(self.a);
        }
        let high_bit: u8 = self.a >> 7;
        let low_bit: u8 = self.a & 1;
        let carry: u8 = if self.conditions.carry { 1 } else { 0 };
        proof {
            lemma_ral(self.a, carry);
            lemma_rar(self.a, carry);
        }
        let acc: u8 = self.a;
        let instr: u8 = (opcode >> 3) & 0b111;
        match instr {
            0 => {
                self.a = (acc << 1) | high_bit;
                self.conditions.carry = high_bit == 1;
            },
            1 => {
                self.a = (acc >> 1) | (acc << 7);
                self.conditions.carry = low_bit == 1;
            },
            2 => {
                self.a = (acc << 1) | carry;
                self.conditions.carry = high_bit == 1;
            },
            _ => {
                self.a = (acc >> 1) | (carry << 7);
                self.conditions.carry = low_bit == 1;
            },
        }
    }

    /// Whether the condition in bits 5..3 holds.
    fn match_conds(&self, opcode: u8) -> (r: bool)
        ensures
            r == condition(self.conditions, dst_field(opcode)),
    {
        proof {
            lemma_opcode_fields(opcode);
        }
        let condition = (opcode >> 3) & 0b111;
        match condition {
            0 => !self.conditions.zero,
            1 => self.conditions.zero,
            2 => !self.conditions.carry,
            3 => self.conditions.carry,
            4 => !self.conditions.parity,
            5 => self.conditions.parity,
            6 => !self.conditions.sign,
            _ => self.conditions.sign,
        }
    }

    /// XCHG: DE and HL trade places.
    fn xchg(&mut self)
        requires
            old(self).wf(),
        ensures
            final(self).wf(),
            final(self)@ == (CpuState {
                d: old(self).h,
                e: old(self).l,
                h: old(self).d,
                l: old(self).e,
                ..old(self)@
            }),
    {
        let de = self.get_register_pair_value(1);
        let hl = self.get_register_pair_value(2);
        proof {
            lemma_bytes(de);
            lemma_bytes(hl);
        }
        self.set_register_pair(1, hl);
        self.set_register_pair(2, de);
    }

    /// XTHL: HL and the word on top of the stack trade places.
    fn xthl(&mut self)
        requires
            old(self).wf(),
        ensures
            final(self).wf(),
            final(self)@ == old(self)@.xthl(),
    {
        let hl: u16 = self.get_register_pair_value(2);
        let mem: u16 = self.pop_addr_from_stack();
        self.set_register_pair(2, mem);
        self.push_addr_to_stack(hl);
        assert(self@.memory =~= old(self)@.xthl().memory);
    }

    /// PCHL: PC takes HL.
    fn pchl(&mut self)
        requires
            old(self).wf(),
        ensures
            final(self).wf(),
            final(self)@ == old(self)@.with_pc(old(self)@.hl()),
    {
        self.pc = self.get_mem_addr();
    }

    /// JMP: PC takes the word at PC.
    fn jmp(&mut self)
        requires
            old(self).wf(),
        ensures
            final(self).wf(),
            final(self)@ == old(self)@.with_pc(old(self)@.imm16()),
    {
        self.pc = self.get_two_bytes();
    }

    /// CALL: pushes the address after the operand, then jumps to the operand.
    fn call(&mut self)
        requires
            old(self).wf(),
        ensures
            final(self).wf(),
            final(self)@ == old(self)@.call(),
    {
        let target = self.get_two_bytes();
        self.push_addr_to_stack(self.pc);
        self.pc = target;
    }

    /// RET: PC takes the word popped from the stack.
    fn ret(&mut self)
        requires
            old(self).wf(),
        ensures
            final(self).wf(),
            final(self)@ == old(self)@.ret(),
    {
        self.pc = self.pop_addr_from_stack();
    }

    /// RST: pushes PC, then jumps to eight times bits 5..3.
    fn rst(&mut self, opcode: u8)
        requires
            old(self).wf(),
        ensures
            final(self).wf(),
            final(self)@ == old(self)@.push(old(self).pc).with_pc((dst_field(opcode) * 8) as u16),
    {
        proof {
            lemma_opcode_fields(opcode);
        }
        self.push_addr_to_stack(self.pc);
        self.pc = (((opcode >> 3) & 0b111) as u16) * 8;
    }

    /// POP: a pair, or A and the flags for pair code 3.
    fn pop(&mut self, opcode: u8)
        requires
            old(self).wf(),
        ensures
            final(self).wf(),
            final(self)@ == old(self)@.pop_pair(pair_field(opcode)),
    {
        proof {
            lemma_opcode_fields(opcode);
        }
        let reg_pair: u8 = (opcode >> 4) & 0b11;
        let val = self.pop_addr_from_stack();
        let (high_byte, low_byte) = Self::split_bytes(val);
        if reg_pair < 3 {
            self.set_register_pair(reg_pair, val);
        } else {
            self.a = high_byte;
            self.conditions.set_flags(low_byte);
        }
    }

    /// PUSH: a pair, or A and the flag byte for pair code 3.
    fn push(&mut self, opcode: u8)
        requires
            old(self).wf(),
        ensures
            final(self).wf(),
            final(self)@ == old(self)@.push_pair(pair_field(opcode)),
    {
        proof {
            lemma_opcode_fields(opcode);
        }
        let reg_pair: u8 = (opcode >> 4) & 0b11;
        if reg_pair < 3 {
            let val = self.get_register_pair_value(reg_pair);
            self.push_addr_to_stack(val);
        } else {
            let flags: u8 = self.conditions.convert_to_flags();
            let val = Self::merge_bytes(self.a, flags);
            self.push_addr_to_stack(val);
        }
    }
}


impl Processor {
    /// Opcodes 0x00-0x3f, PC already past the opcode.
    fn execute_low(&mut self, opcode: u8)
        requires
            old(self).wf(),
            opcode < 64,
        ensures
            final(self).wf(),
            final(self)@ == old(self)@.execute_low(opcode),
    {
        proof {
            lemma_opcode_fields(opcode);
        }
        let mid: u8 = (opcode >> 3) & 0b111;
        match opcode & 0b111 {
            // NOP; 0x08, 0x10, ..., 0x38 have no meaning and do nothing
            0 => {},
            1 => if mid % 2 == 0 {
                self.lxi(opcode)
            } else {
                self.dad(opcode)
            },
            2 => match mid {
                0 | 2 => self.stax(opcode),
                1 | 3 => self.ldax(opcode),
                4 => self.shld(),
                5 => self.lhld(),
                6 => self.sta(),
                _ => self.lda(),
            },
            3 => if mid % 2 == 0 {
                self.inx(opcode)
            } else {
                self.dcx(opcode)
            },
            4 => self.inr(opcode),
            5 => self.dcr(opcode),
            6 => self.mvi(opcode),
            _ => match mid {
                0 | 1 | 2 | 3 => self.rotate_acc(opcode),
                // DAA is left as NOP
                4 => {},
                // CMA
                5 => self.a = !self.a,
                // STC
                6 => self.conditions.carry = true,
                // CMC
                _ => self.conditions.carry = !self.conditions.carry,
            },
        }
    }

    /// Opcodes 0xc0-0xff, PC already past the opcode.
    fn execute_high(&mut self, opcode: u8)
        requires
            old(self).wf(),
            opcode >= 192,
        ensures
            final(self).wf(),
            final(self)@ == old(self)@.execute_high(opcode),
    {
        proof {
            lemma_opcode_fields(opcode);
        }
        let mid: u8 = (opcode >> 3) & 0b111;
        match opcode & 0b111 {
            // conditional RET
            0 => if self.match_conds(opcode) {
                self.ret()
            },
            1 => match mid {
                0 | 2 | 4 | 6 => self.pop(opcode),
                // RET and its alias
                1 | 3 => self.ret(),
                5 => self.pchl(),
                // SPHL
                _ => self.sp = self.get_mem_addr(),
            },
            // conditional JMP; the operand is consumed either way
            2 => if self.match_conds(opcode) {
                self.jmp()
            } else {
                self.get_two_bytes();
            },
            3 => match mid {
                // JMP and its alias
                0 | 1 => self.jmp(),
                // OUT and IN: no port is attached, the port byte is skipped
                2 | 3 => {
                    self.get_byte();
                },
                4 => self.xthl(),
                5 => self.xchg(),
                // DI
                6 => self.interrupt_enabled = false,
                // EI
                _ => self.interrupt_enabled = true,
            },
            // conditional CALL; the operand is consumed either way
            4 => if self.match_conds(opcode) {
                self.call()
            } else {
                self.get_two_bytes();
            },
            5 => if mid % 2 == 0 {
                self.push(opcode)
            } else {
                // CALL and its aliases
                self.call()
            },
            6 => match mid {
                0 => self.adi(),
                1 => self.aci(),
                2 => self.sui(),
                3 => self.sbi(),
                4 => self.ani(),
                5 => self.xri(),
                6 => self.ori(),
                _ => self.cpi(),
            },
            _ => self.rst(opcode),
        }
    }

    /// Fetches and executes one instruction. An opcode without meaning does
    /// nothing beyond moving PC past it, and is reported.
    pub fn run_one_command(&mut self) -> (r: Option<UnimplementedOpcode>)
        requires
            old(self).wf(),
        ensures
            final(self).wf(),
            final(self)@ == old(self)@.step(),
            r == old(self)@.fault(),
    {
        let pc = self.pc;
        let opcode: u8 = self.get_byte();
        proof {
            lemma_opcode_fields(opcode);
        }
        let mid: u8 = (opcode >> 3) & 0b111;
        let group: u8 = opcode >> 6;
        if group == 0 {
            self.execute_low(opcode);
        } else if group == 1 {
            if opcode == 0x76 {
                self.halt();
            } else {
                self.mov(opcode);
            }
        } else if group == 2 {
            match mid {
                0 => self.add(opcode),
                1 => self.adc(opcode),
                2 => self.sub(opcode),
                3 => self.sbb(opcode),
                4 => self.ana(opcode),
                5 => self.xra(opcode),
                6 => self.ora(opcode),
                _ => self.cmp(opcode),
            }
        } else {
            self.execute_high(opcode);
        }
        if group == 0 && opcode & 0b111 == 0 && opcode != 0 {
            Some(UnimplementedOpcode { opcode, pc })
        } else {
            None
        }
    }

    /// Copies `image` into memory from address 0; the rest stays.
    pub fn load(&mut self, image: &[u8])
        requires
            old(self).wf(),
            image@.len() <= MEMORY_SIZE,
        ensures
            final(self).wf(),
            final(self)@ == load_image(old(self)@, image@),
    {
        let mut i: usize = 0;
        while i < image.len()
            invariant
                self.wf(),
                i <= image@.len() <= MEMORY_SIZE,
                self@ == (CpuState { memory: self@.memory, ..old(self)@ }),
                forall|j: int|
                    0 <= j < MEMORY_SIZE ==> #[trigger] self@.memory[j] == if j < i {
                        image@[j]
                    } else {
                        old(self)@.memory[j]
                    },
            decreases image@.len() - i,
        {
            self.memory[i] = image[i];
            i = i + 1;
        }
        assert(self@.memory =~= load_image(old(self)@, image@).memory);
    }

    /// Executes instructions until HLT, or until `max_steps` have run; returns
    /// the opcodes without meaning that were met, in order.
    pub fn run(&mut self, max_steps: u64) -> (faults: Vec<UnimplementedOpcode>)
        requires
            old(self).wf(),
        ensures
            final(self).wf(),
            final(self)@ == run(old(self)@, max_steps as nat),
            faults@ == run_faults(old(self)@, max_steps as nat),
    {
        let mut faults: Vec<UnimplementedOpcode> = Vec::new();
        let mut steps: u64 = 0;
        while steps < max_steps && !self.halt
            invariant
                self.wf(),
                steps <= max_steps,
                run(old(self)@, max_steps as nat) == run(self@, (max_steps - steps) as nat),
                run_faults(old(self)@, max_steps as nat) == faults@ + run_faults(
                    self@,
                    (max_steps - steps) as nat,
                ),
            decreases max_steps - steps,
        {
            let ghost before = self@;
            let ghost before_faults = faults@;
            let fault = self.run_one_command();
            match fault {
                Some(f) => faults.push(f),
                None => {},
            }
            steps = steps + 1;
            proof {
                let k = (max_steps - steps) as nat;
                assert(run(before, k + 1) == run(self@, k));
                assert(run_faults(before, k + 1) == match before.fault() {
                    Some(f) => seq![f].add(run_faults(self@, k)),
                    None => run_faults(self@, k),
                });
                match before.fault() {
                    Some(f) => {
                        assert(faults@ == before_faults.push(f));
                        assert(before_faults + seq![f].add(run_faults(self@, k)) =~= faults@
                            + run_faults(self@, k));
                    },
                    None => {},
                }
            }
        }
        assert(faults@ + run_faults(self@, (max_steps - steps) as nat) =~= faults@);
        faults
    }

    /// Loads `image` from address 0 and runs it until HLT, or until
    /// `max_steps` instructions have run; returns the opcodes without meaning
    /// that were met, in order.
    pub fn run_program(&mut self, image: &[u8], max_steps: u64) -> (faults: Vec<UnimplementedOpcode>)
        requires
            old(self).wf(),
            image@.len() <= MEMORY_SIZE,
        ensures
            final(self).wf(),
            final(self)@ == run(load_image(old(self)@, image@), max_steps as nat),
            faults@ == run_faults(load_image(old(self)@, image@), max_steps as nat),
    {
        self.load(image);
        self.run(max_steps)
    }
}

} // verus!
