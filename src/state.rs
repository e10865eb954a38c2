//! The architectural state of the 8080 as a mathematical value, with the
//! register, register-pair, memory and stack accessors that instructions use.
use crate::flags::ConditionBits;
use vstd::prelude::*;

verus! {

/// Size of the address space in bytes.
pub const MEMORY_SIZE: usize = 0x10000;

/// The value of the 16-bit word with bytes `hi` and `lo`.
pub open spec fn word(hi: u8, lo: u8) -> u16 {
    (hi * 256 + lo) as u16
}

/// High byte of a 16-bit value.
pub open spec fn high(v: u16) -> u8 {
    (v / 256) as u8
}

/// Low byte of a 16-bit value.
pub open spec fn low(v: u16) -> u8 {
    (v % 256) as u8
}

/// `x + k`, wrapped to 16 bits.
pub open spec fn add16(x: u16, k: int) -> u16 {
    ((x + k) % 0x10000) as u16
}

/// `x + k`, wrapped to 8 bits.
pub open spec fn add8(x: u8, k: int) -> u8 {
    ((x + k) % 256) as u8
}

/// Registers, flags, latches and memory of the processor.
pub struct CpuState {
    pub a: u8,
    pub b: u8,
    pub c: u8,
    pub d: u8,
    pub e: u8,
    pub h: u8,
    pub l: u8,
    pub sp: u16,
    pub pc: u16,
    pub flags: ConditionBits,
    pub halt: bool,
    pub interrupt_enabled: bool,
    pub memory: Seq<u8>,
}

impl CpuState {
    /// Memory covers the whole 16-bit address space.
    pub open spec fn wf(self) -> bool {
        self.memory.len() == MEMORY_SIZE
    }

    pub open spec fn read(self, addr: u16) -> u8 {
        self.memory[addr as int]
    }

    pub open spec fn write(self, addr: u16, v: u8) -> CpuState {
        CpuState { memory: self.memory.update(addr as int, v), ..self }
    }

    /// The address in H and L, where register code 6 (M) points.
    pub open spec fn hl(self) -> u16 {
        word(self.h, self.l)
    }

    /// Register by 3-bit code: B C D E H L M A.
    pub open spec fn reg(self, r: u8) -> u8 {
        match r {
            0 => self.b,
            1 => self.c,
            2 => self.d,
            3 => self.e,
            4 => self.h,
            5 => self.l,
            6 => self.read(self.hl()),
            _ => self.a,
        }
    }

    pub open spec fn set_reg(self, r: u8, v: u8) -> CpuState {
        match r {
            0 => CpuState { b: v, ..self },
            1 => CpuState { c: v, ..self },
            2 => CpuState { d: v, ..self },
            3 => CpuState { e: v, ..self },
            4 => CpuState { h: v, ..self },
            5 => CpuState { l: v, ..self },
            6 => self.write(self.hl(), v),
            _ => CpuState { a: v, ..self },
        }
    }

    /// Register pair by 2-bit code: BC DE HL SP.
    pub open spec fn pair(self, rp: u8) -> u16 {
        match rp {
            0 => word(self.b, self.c),
            1 => word(self.d, self.e),
            2 => word(self.h, self.l),
            _ => self.sp,
        }
    }

    pub open spec fn set_pair(self, rp: u8, v: u16) -> CpuState {
        match rp {
            0 => CpuState { b: high(v), c: low(v), ..self },
            1 => CpuState { d: high(v), e: low(v), ..self },
            2 => CpuState { h: high(v), l: low(v), ..self },
            _ => CpuState { sp: v, ..self },
        }
    }

    pub open spec fn with_flags(self, f: ConditionBits) -> CpuState {
        CpuState { flags: f, ..self }
    }

    pub open spec fn with_pc(self, pc: u16) -> CpuState {
        CpuState { pc, ..self }
    }

    /// Moves PC past `k` bytes.
    pub open spec fn skip(self, k: int) -> CpuState {
        self.with_pc(add16(self.pc, k))
    }

    /// The byte at PC.
    pub open spec fn imm8(self) -> u8 {
        self.read(self.pc)
    }

    /// The little-endian word at PC.
    pub open spec fn imm16(self) -> u16 {
        word(self.read(add16(self.pc, 1)), self.read(self.pc))
    }

    /// Pushes a word: high byte at SP-1, low byte at SP-2, then SP decreases by 2.
    pub open spec fn push(self, v: u16) -> CpuState {
        let s = self.write(add16(self.sp, -1), high(v)).write(add16(self.sp, -2), low(v));
        CpuState { sp: add16(self.sp, -2), ..s }
    }

    /// The word on top of the stack: low byte at SP, high byte at SP+1.
    pub open spec fn top(self) -> u16 {
        word(self.read(add16(self.sp, 1)), self.read(self.sp))
    }

    /// Drops the word on top of the stack.
    pub open spec fn pop(self) -> CpuState {
        CpuState { sp: add16(self.sp, 2), ..self }
    }
}

/// The state at power-on: every register, flag and latch clear, memory zero.
pub open spec fn reset_state() -> CpuState {
    CpuState {
        a: 0,
        b: 0,
        c: 0,
        d: 0,
        e: 0,
        h: 0,
        l: 0,
        sp: 0,
        pc: 0,
        flags: ConditionBits {
            carry: false,
            aux_carry: false,
            sign: false,
            zero: false,
            parity: false,
        },
        halt: false,
        interrupt_enabled: false,
        memory: Seq::new(MEMORY_SIZE as nat, |i: int| 0u8),
    }
}

/// `s` with `image` copied into memory from address 0.
pub open spec fn load_image(s: CpuState, image: Seq<u8>) -> CpuState {
    CpuState {
        memory: Seq::new(
            s.memory.len(),
            |i: int|
                if i < image.len() {
                    image[i]
                } else {
                    s.memory[i]
                },
        ),
        ..s
    }
}

} // verus!
