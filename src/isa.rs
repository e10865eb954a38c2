//! What each 8080 instruction does to the state.
//!
//! An opcode is read in octal fields: bits 7..6 select a group, bits 5..3 a
//! destination register, condition or operation, bits 2..0 a source register
//! or a sub-group; bits 5..4 name a register pair.
use crate::flags::{bit, flags_byte, flags_of_byte, result_flags, ConditionBits};
use crate::state::{add16, add8, high, low, word, CpuState};
use vstd::prelude::*;

verus! {

/// The opcode at `pc` has no meaning on the 8080.
#[derive(Clone, Copy, Debug, PartialEq, Eq, Structural)]
pub struct UnimplementedOpcode {
    pub opcode: u8,
    /// Address of the opcode.
    pub pc: u16,
}

/// Bits 5..3: a destination register, a condition or an operation.
pub open spec fn dst_field(op: u8) -> u8 {
    ((op / 8) % 8) as u8
}

/// Bits 2..0: a source register or a sub-group.
pub open spec fn src_field(op: u8) -> u8 {
    (op % 8) as u8
}

/// Bits 5..4: a register pair.
pub open spec fn pair_field(op: u8) -> u8 {
    ((op / 16) % 4) as u8
}

/// Whether the opcode has a meaning: all but 0x08, 0x10, ..., 0x38.
pub open spec fn is_defined(op: u8) -> bool {
    !(op < 64 && op % 8 == 0 && op != 0)
}

/// Condition by 3-bit code: NZ Z NC C PO PE P M.
pub open spec fn condition(f: ConditionBits, ccc: u8) -> bool {
    match ccc {
        0 => !f.zero,
        1 => f.zero,
        2 => !f.carry,
        3 => f.carry,
        4 => !f.parity,
        5 => f.parity,
        6 => !f.sign,
        _ => f.sign,
    }
}

/// `a + b + cin` on eight bits, with the flags it sets.
pub open spec fn alu_add(a: u8, b: u8, cin: bool) -> (u8, ConditionBits) {
    let sum = a + b + bit(cin);
    let v = (sum % 256) as u8;
    (v, result_flags(v, sum > 255, a % 16 + b % 16 + bit(cin) > 15))
}

/// `a - b - bin` on eight bits, with the flags it sets; carry is the borrow.
pub open spec fn alu_sub(a: u8, b: u8, bin: bool) -> (u8, ConditionBits) {
    let v = ((a + 256 - b - bit(bin)) % 256) as u8;
    (v, result_flags(v, a < b + bit(bin), a % 16 >= b % 16 + bit(bin)))
}

impl CpuState {
    /// A takes `v`, with flags `f`.
    pub open spec fn acc_result(self, r: (u8, ConditionBits)) -> CpuState {
        CpuState { a: r.0, flags: r.1, ..self }
    }

    /// The arithmetic or logical operation by 3-bit code (ADD ADC SUB SBB ANA
    /// XRA ORA CMP) on A and `x`.
    pub open spec fn alu(self, code: u8, x: u8) -> CpuState {
        let a = self.a;
        let cy = self.flags.carry;
        match code {
            0 => self.acc_result(alu_add(a, x, false)),
            1 => self.acc_result(alu_add(a, x, cy)),
            2 => self.acc_result(alu_sub(a, x, false)),
            3 => self.acc_result(alu_sub(a, x, cy)),
            4 => self.acc_result((a & x, result_flags(a & x, false, false))),
            5 => self.acc_result((a ^ x, result_flags(a ^ x, false, false))),
            6 => self.acc_result((a | x, result_flags(a | x, false, false))),
            _ => self.with_flags(alu_sub(a, x, false).1),
        }
    }

    /// INR: register `r` plus one; CY kept.
    pub open spec fn inr(self, r: u8) -> CpuState {
        let v = self.reg(r);
        let n = add8(v, 1);
        self.set_reg(r, n).with_flags(result_flags(n, self.flags.carry, v % 16 == 15))
    }

    /// DCR: register `r` minus one; CY kept.
    pub open spec fn dcr(self, r: u8) -> CpuState {
        let v = self.reg(r);
        let n = add8(v, -1);
        self.set_reg(r, n).with_flags(result_flags(n, self.flags.carry, v % 16 != 0))
    }

    /// DAD: HL plus pair `rp`; only CY changes among the flags.
    pub open spec fn dad(self, rp: u8) -> CpuState {
        let sum = self.hl() + self.pair(rp);
        self.set_pair(2, (sum % 0x10000) as u16).with_flags(
            ConditionBits { carry: sum > 0xffff, ..self.flags },
        )
    }

    /// The rotate by 2-bit code: RLC RRC RAL RAR.
    pub open spec fn rotate(self, code: u8) -> CpuState {
        let a = self.a;
        let f = self.flags;
        match code {
            0 => CpuState {
                a: ((a * 2) % 256 + a / 128) as u8,
                flags: ConditionBits { carry: a >= 128, ..f },
                ..self
            },
            1 => CpuState {
                a: (a / 2 + (a % 2) * 128) as u8,
                flags: ConditionBits { carry: a % 2 == 1, ..f },
                ..self
            },
            2 => CpuState {
                a: ((a * 2) % 256 + bit(f.carry)) as u8,
                flags: ConditionBits { carry: a >= 128, ..f },
                ..self
            },
            _ => CpuState {
                a: (a / 2 + bit(f.carry) * 128) as u8,
                flags: ConditionBits { carry: a % 2 == 1, ..f },
                ..self
            },
        }
    }

    /// PUSH by 2-bit code; code 3 pushes A and the flag byte.
    pub open spec fn push_pair(self, rp: u8) -> CpuState {
        if rp < 3 {
            self.push(self.pair(rp))
        } else {
            self.push(word(self.a, flags_byte(self.flags)))
        }
    }

    /// POP by 2-bit code; code 3 pops A and the flags.
    pub open spec fn pop_pair(self, rp: u8) -> CpuState {
        let v = self.top();
        if rp < 3 {
            self.pop().set_pair(rp, v)
        } else {
            CpuState { a: high(v), flags: flags_of_byte(low(v)), ..self.pop() }
        }
    }

    /// Transfer to the word at PC, leaving the return address on the stack.
    pub open spec fn call(self) -> CpuState {
        let target = self.imm16();
        let s = self.skip(2);
        s.push(s.pc).with_pc(target)
    }

    /// Transfer to the address on top of the stack.
    pub open spec fn ret(self) -> CpuState {
        self.pop().with_pc(self.top())
    }

    /// XTHL: swap L with the byte at SP and H with the byte at SP+1.
    pub open spec fn xthl(self) -> CpuState {
        let s = self.write(self.sp, self.l).write(add16(self.sp, 1), self.h);
        CpuState { h: self.read(add16(self.sp, 1)), l: self.read(self.sp), ..s }
    }

    /// Opcodes 0x00-0x3f.
    pub open spec fn execute_low(self, op: u8) -> CpuState {
        let r = dst_field(op);
        let rp = pair_field(op);
        match src_field(op) {
            // NOP, and the opcodes without meaning
            0 => self,
            1 => if r % 2 == 0 {
                // LXI
                self.skip(2).set_pair(rp, self.imm16())
            } else {
                self.dad(rp)
            },
            2 => match r {
                // STAX B, LDAX B, STAX D, LDAX D
                0 => self.write(self.pair(0), self.a),
                1 => CpuState { a: self.read(self.pair(0)), ..self },
                2 => self.write(self.pair(1), self.a),
                3 => CpuState { a: self.read(self.pair(1)), ..self },
                // SHLD
                4 => self.skip(2).write(self.imm16(), self.l).write(add16(self.imm16(), 1), self.h),
                // LHLD
                5 => CpuState {
                    l: self.read(self.imm16()),
                    h: self.read(add16(self.imm16(), 1)),
                    ..self.skip(2)
                },
                // STA
                6 => self.skip(2).write(self.imm16(), self.a),
                // LDA
                _ => CpuState { a: self.read(self.imm16()), ..self.skip(2) },
            },
            3 => if r % 2 == 0 {
                // INX
                self.set_pair(rp, add16(self.pair(rp), 1))
            } else {
                // DCX
                self.set_pair(rp, add16(self.pair(rp), -1))
            },
            4 => self.inr(r),
            5 => self.dcr(r),
            // MVI
            6 => self.skip(1).set_reg(r, self.imm8()),
            _ => match r {
                0 | 1 | 2 | 3 => self.rotate(r),
                // DAA is left as NOP
                4 => self,
                // CMA
                5 => CpuState { a: !self.a, ..self },
                // STC
                6 => self.with_flags(ConditionBits { carry: true, ..self.flags }),
                // CMC
                _ => self.with_flags(ConditionBits { carry: !self.flags.carry, ..self.flags }),
            },
        }
    }

    /// Opcodes 0xc0-0xff.
    pub open spec fn execute_high(self, op: u8) -> CpuState {
        let r = dst_field(op);
        let rp = pair_field(op);
        let taken = condition(self.flags, r);
        match src_field(op) {
            // conditional RET
            0 => if taken {
                self.ret()
            } else {
                self
            },
            1 => match r {
                0 | 2 | 4 | 6 => self.pop_pair(rp),
                // RET and its alias
                1 | 3 => self.ret(),
                // PCHL
                5 => self.with_pc(self.hl()),
                // SPHL
                _ => CpuState { sp: self.hl(), ..self },
            },
            // conditional JMP
            2 => if taken {
                self.with_pc(self.imm16())
            } else {
                self.skip(2)
            },
            3 => match r {
                // JMP and its alias
                0 | 1 => self.with_pc(self.imm16()),
                // OUT and IN: no port is attached, the port byte is skipped
                2 | 3 => self.skip(1),
                4 => self.xthl(),
                // XCHG
                5 => CpuState { d: self.h, e: self.l, h: self.d, l: self.e, ..self },
                // DI
                6 => CpuState { interrupt_enabled: false, ..self },
                // EI
                _ => CpuState { interrupt_enabled: true, ..self },
            },
            // conditional CALL
            4 => if taken {
                self.call()
            } else {
                self.skip(2)
            },
            5 => if r % 2 == 0 {
                self.push_pair(rp)
            } else {
                // CALL and its aliases
                self.call()
            },
            // ADI ACI SUI SBI ANI XRI ORI CPI
            6 => self.skip(1).alu(r, self.imm8()),
            // RST
            _ => self.push(self.pc).with_pc((r * 8) as u16),
        }
    }

    /// What opcode `op` does, PC already past it.
    pub open spec fn execute(self, op: u8) -> CpuState {
        if op < 64 {
            self.execute_low(op)
        } else if op < 128 {
            if op == 0x76 {
                // HLT
                CpuState { halt: true, ..self }
            } else {
                // MOV
                self.set_reg(dst_field(op), self.reg(src_field(op)))
            }
        } else if op < 192 {
            self.alu(dst_field(op), self.reg(src_field(op)))
        } else {
            self.execute_high(op)
        }
    }

    /// The opcode at PC.
    pub open spec fn opcode(self) -> u8 {
        self.read(self.pc)
    }

    /// One fetch and execute.
    pub open spec fn step(self) -> CpuState {
        self.skip(1).execute(self.opcode())
    }

    /// The diagnostic of one step: an opcode without meaning.
    pub open spec fn fault(self) -> Option<UnimplementedOpcode> {
        if is_defined(self.opcode()) {
            None
        } else {
            Some(UnimplementedOpcode { opcode: self.opcode(), pc: self.pc })
        }
    }
}

/// Up to `n` steps from `s`, stopping early at a halt.
pub open spec fn run(s: CpuState, n: nat) -> CpuState
    decreases n,
{
    if n == 0 || s.halt {
        s
    } else {
        run(s.step(), (n - 1) as nat)
    }
}

/// The diagnostics of those steps, in order.
pub open spec fn run_faults(s: CpuState, n: nat) -> Seq<UnimplementedOpcode>
    decreases n,
{
    if n == 0 || s.halt {
        Seq::empty()
    } else {
        match s.fault() {
            Some(f) => seq![f].add(run_faults(s.step(), (n - 1) as nat)),
            None => run_faults(s.step(), (n - 1) as nat),
        }
    }
}

} // verus!
