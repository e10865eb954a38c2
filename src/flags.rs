//! Condition flags and their packing into the PSW byte.
use vstd::prelude::*;

verus! {

/// The five condition flags of the 8080.
#[derive(Clone, Copy, Debug, PartialEq, Eq, Structural)]
pub struct ConditionBits {
    /// Carry out of (or borrow into) the highest bit.
    pub carry: bool,
    /// Carry out of bit 3.
    pub aux_carry: bool,
    /// Bit 7 of the last result.
    pub sign: bool,
    /// The last result was zero.
    pub zero: bool,
    /// The last result has an even number of set bits.
    pub parity: bool,
}

/// Number of set bits of `v`.
pub open spec fn bit_count(v: nat) -> nat
    decreases v,
{
    if v == 0 {
        0
    } else {
        v % 2 + bit_count(v / 2)
    }
}

/// Even parity: the number of set bits of `v` is even.
pub open spec fn even_parity(v: u8) -> bool {
    bit_count(v as nat) % 2 == 0
}

/// 1 for a set flag, 0 for a clear one.
pub open spec fn bit(b: bool) -> nat {
    if b {
        1
    } else {
        0
    }
}

/// The flags after an operation whose result is `v`: Z, S and P follow `v`,
/// the two carries are given.
pub open spec fn result_flags(v: u8, carry: bool, aux_carry: bool) -> ConditionBits {
    ConditionBits { carry, aux_carry, sign: v >= 128, zero: v == 0, parity: even_parity(v) }
}

/// The flag byte of the PSW, `S Z 0 AC 0 P 1 CY` from bit 7 down to bit 0.
pub open spec fn flags_byte(f: ConditionBits) -> u8 {
    (128 * bit(f.sign) + 64 * bit(f.zero) + 16 * bit(f.aux_carry) + 4 * bit(f.parity) + 2 + bit(
        f.carry,
    )) as u8
}

/// The flags that a PSW byte holds: bits 0, 2, 4, 6 and 7.
pub open spec fn flags_of_byte(b: u8) -> ConditionBits {
    ConditionBits {
        carry: b % 2 == 1,
        parity: (b / 4) % 2 == 1,
        aux_carry: (b / 16) % 2 == 1,
        zero: (b / 64) % 2 == 1,
        sign: b / 128 == 1,
    }
}

proof fn lemma_flag_masks(b: u8)
    by (bit_vector)
    ensures
        ((b & 0b1) != 0) == (b % 2 == 1),
        ((b & 0b100) != 0) == ((b / 4) % 2 == 1),
        ((b & 0b10000) != 0) == ((b / 16) % 2 == 1),
        ((b & 0b1000000) != 0) == ((b / 64) % 2 == 1),
        ((b & 0b10000000) != 0) == (b / 128 == 1),
{
}

impl ConditionBits {
    /// Loads the flags from a PSW byte.
    pub fn set_flags(&mut self, byte: u8)
        ensures
            *final(self) == flags_of_byte(byte),
    {
        proof {
            lemma_flag_masks(byte);
        }
        self.carry = (byte & 0b1) != 0;
        self.parity = (byte & 0b100) != 0;
        self.aux_carry = (byte & 0b10000) != 0;
        self.zero = (byte & 0b1000000) != 0;
        self.sign = (byte & 0b10000000) != 0;
    }

    /// Packs the flags into a PSW byte; the flags stay as they are.
    pub fn convert_to_flags(&mut self) -> (r: u8)
        ensures
            *final(self) == *old(self),
            r == flags_byte(*old(self)),
    {
        let cy: u8 = if self.carry { 1 } else { 0 };
        let p: u8 = if self.parity { 1 } else { 0 };
        let ac: u8 = if self.aux_carry { 1 } else { 0 };
        let z: u8 = if self.zero { 1 } else { 0 };
        let s: u8 = if self.sign { 1 } else { 0 };
        let ret: u8 = (s << 7) | (z << 6) | (ac << 4) | (p << 2) | 0b10 | cy;
        assert(ret == 128 * s + 64 * z + 16 * ac + 4 * p + 2 + cy) by (bit_vector)
            requires
                ret == (s << 7) | (z << 6) | (ac << 4) | (p << 2) | 0b10 | cy,
                s <= 1,
                z <= 1,
                ac <= 1,
                p <= 1,
                cy <= 1,
        ;
        ret
    }
}

} // verus!
