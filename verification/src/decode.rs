use vstd::prelude::*;

verus! {

//argument masks
pub const MASK_R3_R3: u16 = 0b0000_0000_0011_1111;
pub const MASK_R3_R3_R3: u16 = 0b0000_0001_1111_1111;
pub const MASK_N1_R4_RN3: u16 = 0b0000_0000_1111_1111;
pub const MASK_R3_IMM8: u16 = 0b0000_0111_1111_1111;
pub const MASK_NOP: u16 = 0b0000_0000_1111_1111;
pub const MASK_IMM5_R3_R3: u16 = 0b0000_0111_1111_1111;
pub const MASK_C4_IMM8: u16 = 0b0000_1111_1111_1111;
pub const MASK_R4_Q3: u16 = 0b0000_0000_0111_1111;
pub const MASK_X1_RL8: u16 = 0b0000_0001_1111_1111;

pub const MASK32_X1_IMM10_X1_X1_IMM11: u32 = 0b0000_0111_1111_1111_0010_1111_1111_1111;

/// This specifies a register beyond r0-r7.
/// It is not strictly necessary to be organized like this, but used to
/// prevent programmer errors.
pub struct LongRegister {
    pub register: usize,
}

/// The Thumb-2 prefix pattern: the top five bits are `11101`, `11110` or
/// `11111`, so a second halfword belongs to this instruction.
pub open spec fn spec_is_32bit_opcode(opcode: u16) -> bool {
    opcode & 0b1110_0000_0000_0000 == 0b1110_0000_0000_0000 && opcode & 0b0001_1000_0000_0000 != 0
}

pub fn is_32bit_opcode(opcode: u16) -> (r: bool)
    ensures
        r == spec_is_32bit_opcode(opcode),
{
    if (opcode & 0b1110_0000_0000_0000) != 0b1110_0000_0000_0000 {
        return false;
    }
    opcode & 0b0001_1000_0000_0000 != 0
}

/// Bounds of every operand field, so decoded register numbers index the
/// register file and immediates stay in range.
pub proof fn lemma_field_bounds(op: u16)
    by (bit_vector)
    ensures
        op & 0b111 < 8,
        (op >> 3) & 0b111 < 8,
        (op >> 6) & 0b111 < 8,
        (op >> 8) & 0b111 < 8,
        (op >> 3) & 0b1111 < 16,
        ((op >> 7) & 1) * 8 + (op & 0b111) < 16,
        op & 0xFF < 256,
        (op >> 6) & 0b1_1111 < 32,
        (op >> 8) & 0b1111 < 16,
{
}

/// Two 3-bit register fields: `(Rm, Rdn)` from bits 5..3 and 2..0
pub fn decode_r3_r3(opcode: u16) -> (r: (usize, usize))
    ensures
        r.0 == ((opcode >> 3) & 0b111) as usize,
        r.1 == (opcode & 0b111) as usize,
        r.0 < 8,
        r.1 < 8,
{
    proof {
        lemma_field_bounds(opcode);
    }
    (((opcode >> 3) & 0b111) as usize, (opcode & 0b111) as usize)
}

/// A 3-bit register field and an 8-bit immediate: `(Rt, imm8)`
pub fn decode_r3_imm8(opcode: u16) -> (r: (usize, u8))
    ensures
        r.0 == ((opcode >> 8) & 0b111) as usize,
        r.1 == (opcode & 0xFF) as u8,
        r.0 < 8,
{
    proof {
        lemma_field_bounds(opcode);
    }
    (((opcode >> 8) & 0b111) as usize, (opcode & 0xFF) as u8)
}

/// Three 3-bit fields: `(Rm, Rn, Rd)` from bits 8..6, 5..3 and 2..0.  The
/// first slot doubles as a 3-bit immediate in the immediate forms.
pub fn decode_r3_r3_r3(opcode: u16) -> (r: (usize, usize, usize))
    ensures
        r.0 == ((opcode >> 6) & 0b111) as usize,
        r.1 == ((opcode >> 3) & 0b111) as usize,
        r.2 == (opcode & 0b111) as usize,
        r.0 < 8,
        r.1 < 8,
        r.2 < 8,
{
    proof {
        lemma_field_bounds(opcode);
    }
    (((opcode >> 6) & 0b111) as usize, ((opcode >> 3) & 0b111) as usize, (opcode
        & 0b111) as usize)
}

/// The high-register form: an N bit, a 4-bit register and a 3-bit register.
/// `(Rm, Rdn)` where `Rm` is bits 6..3 and `Rdn` is `N:bits 2..0`, reaching
/// the full 16-register space.
pub fn decode_n1_r4_rn3(opcode: u16) -> (r: (LongRegister, LongRegister))
    ensures
        r.0.register == ((opcode >> 3) & 0b1111) as usize,
        r.1.register == (((opcode >> 7) & 1) * 8 + (opcode & 0b111)) as usize,
        r.0.register < 16,
        r.1.register < 16,
{
    proof {
        lemma_field_bounds(opcode);
    }
    let n = (opcode >> 7) & 1;
    let r4 = (opcode >> 3) & 0b1111;
    let r3 = opcode & 0b111;
    let rn3 = n * 8 + r3;
    (LongRegister { register: r4 as usize }, LongRegister { register: rn3 as usize })
}

/// A 5-bit immediate and two 3-bit registers: `(imm5, Rm, Rd)`
pub fn decode_imm5_r3_r3(opcode: u16) -> (r: (u32, usize, usize))
    ensures
        r.0 == ((opcode >> 6) & 0b1_1111) as u32,
        r.1 == ((opcode >> 3) & 0b111) as usize,
        r.2 == (opcode & 0b111) as usize,
        r.0 < 32,
        r.1 < 8,
        r.2 < 8,
{
    proof {
        lemma_field_bounds(opcode);
    }
    (((opcode >> 6) & 0b1_1111) as u32, ((opcode >> 3) & 0b111) as usize, (opcode
        & 0b111) as usize)
}

/// A 4-bit condition and an 8-bit immediate: `(cond, imm8)`
pub fn decode_c4_imm8(opcode: u16) -> (r: (u32, u32))
    ensures
        r.0 == ((opcode >> 8) & 0b1111) as u32,
        r.1 == (opcode & 0xFF) as u32,
        r.0 < 16,
        r.1 < 256,
{
    proof {
        lemma_field_bounds(opcode);
    }
    (((opcode >> 8) & 0b1111) as u32, (opcode & 0xFF) as u32)
}

/// One flag bit and an 8-bit register list: `(extra, list)`
pub fn decode_x1_rl8(opcode: u16) -> (r: (bool, u8))
    ensures
        r.0 == (opcode & 0b0000_0001_0000_0000 != 0),
        r.1 == (opcode & 0xFF) as u8,
{
    ((opcode & 0b0000_0001_0000_0000) > 0, (opcode & 0b0000_0000_1111_1111) as u8)
}

/// A single 4-bit register field in bits 6..3, for BX and BLX
pub fn decode_r4_q3(opcode: u16) -> (r: LongRegister)
    ensures
        r.register == ((opcode >> 3) & 0b1111) as usize,
        r.register < 16,
{
    proof {
        lemma_field_bounds(opcode);
    }
    LongRegister { register: ((opcode >> 3) & 0b1111) as usize }
}

/// The operand fields of the 32-bit BL encoding:
/// `(S, imm10, J1, J2, imm11)`
pub fn decode32_x1_imm10_x1_x1_imm11(opcode: u32) -> (r: (bool, u32, bool, bool, u32))
    ensures
        r.0 == (opcode & 0b0000_0100_0000_0000_0000_0000_0000_0000 != 0),
        r.1 == (opcode >> 16) & 0b11_1111_1111,
        r.2 == (opcode & 0b0000_0000_0000_0000_0010_0000_0000_0000 != 0),
        r.3 == (opcode & 0b0000_0000_0000_0000_0000_1000_0000_0000 != 0),
        r.4 == opcode & 0b111_1111_1111,
        r.1 < 1024,
        r.4 < 2048,
{
    proof {
        assert((opcode >> 16) & 0b11_1111_1111 < 1024) by (bit_vector);
        assert(opcode & 0b111_1111_1111 < 2048) by (bit_vector);
    }
    (
        (opcode & 0b0000_0100_0000_0000_0000_0000_0000_0000) > 0,
        ((opcode >> 16) & 0b11_1111_1111),
        ((opcode & 0b0000_0000_0000_0000_0010_0000_0000_0000) > 0),
        ((opcode & 0b0000_0000_0000_0000_0000_1000_0000_0000) > 0),
        (opcode & 0b0000_0000_0000_0000_0000_0111_1111_1111),
    )
}

} // verus!
