use vstd::prelude::*;

use crate::decode::{decode_c4_imm8, decode_imm5_r3_r3, decode_n1_r4_rn3, decode_r3_imm8, decode_r3_r3, decode_r3_r3_r3, decode_r4_q3, decode_x1_rl8, decode32_x1_imm10_x1_x1_imm11, is_32bit_opcode, spec_is_32bit_opcode, LongRegister};
use crate::bitmanip::{sign_extend32, spec_sign_extend32, BitManipulation, IntAlign};
use crate::memory::{bytes_of_u16, bytes_of_u32, mem_wf, read_bytes, read_check, stored, word16_of, word32_of, write_check, MemorySystem, SegView};
use crate::NarmError;

verus! {

/// Ghost state of the whole machine: the eight low registers, the seven
/// long registers r8-r14, the three program-counter values, the four
/// condition flags, the gas counter and the memory segments.
pub ghost struct VmView {
    pub sreg: Seq<u32>,
    pub lreg: Seq<u32>,
    pub pc: u32,
    pub virtual_pc: u32,
    pub last_pc: u32,
    pub n: bool,
    pub z: bool,
    pub c: bool,
    pub v: bool,
    pub gas: u64,
    pub mem: Seq<SegView>,
}

/// The machine is well formed: the register files have their fixed sizes,
/// the stack pointer keeps its low two bits clear, and the memory segments
/// do not overlap.
pub open spec fn vm_inv(s: VmView) -> bool {
    &&& s.sreg.len() == 8
    &&& s.lreg.len() == 7
    &&& s.lreg[5] % 4 == 0
    &&& mem_wf(s.mem)
}

/// The value with the low two bits cleared
pub open spec fn align4_of(v: u32) -> u32 {
    v & 0xFFFF_FFFCu32
}

/// `x` reduced into the 32-bit range
pub open spec fn u32_mod(x: int) -> u32 {
    (x % 0x1_0000_0000) as u32
}

/// The register slot `i` (0-14) of the file, ignoring the r15 special case
pub open spec fn reg_of(s: VmView, i: int) -> u32
    recommends
        0 <= i < 15,
{
    if i < 8 {
        s.sreg[i]
    } else {
        s.lreg[i - 8]
    }
}

/// What a read of register `i` returns: r15 reads give the virtual program
/// counter, every other slot its stored value.
pub open spec fn spec_get_reg(s: VmView, i: int) -> u32
    recommends
        0 <= i < 16,
{
    if i == 15 {
        s.virtual_pc
    } else {
        reg_of(s, i)
    }
}

/// The machine after a write of `v` to register `i`: writes to r15 redirect
/// to `pc` and discard the low bit (the Thumb-mode flag a branch target
/// carries), writes to r13 are 4-aligned, all other slots take the raw
/// value.
pub open spec fn spec_set_reg(s: VmView, i: int, v: u32) -> VmView
    recommends
        0 <= i < 16,
{
    if i == 15 {
        VmView { pc: v & 0xFFFF_FFFEu32, ..s }
    } else if i == 13 {
        VmView { lreg: s.lreg.update(5, align4_of(v)), ..s }
    } else if i < 8 {
        VmView { sreg: s.sreg.update(i, v), ..s }
    } else {
        VmView { lreg: s.lreg.update(i - 8, v), ..s }
    }
}

/// Bit 31 of a word: the sign bit of the two's-complement reading
pub open spec fn bit31(x: u32) -> bool {
    x & 0x8000_0000u32 != 0
}

/// The two's-complement value a word stands for
pub open spec fn as_signed(x: u32) -> int {
    if x >= 0x8000_0000 {
        x - 0x1_0000_0000
    } else {
        x as int
    }
}

/// The carry-in as an integer summand
pub open spec fn carry_in_of(cin: bool) -> int {
    if cin {
        1
    } else {
        0
    }
}

/// What the adder returns: `operand1 + operand2 + carry_in`, with wrap
pub open spec fn add_result(a: u32, b: u32, cin: bool) -> u32 {
    u32_mod(a + b + carry_in_of(cin))
}

/// The C flag of a flag-setting add: the unsigned overflow of the full
/// three-way sum
pub open spec fn add_carry(a: u32, b: u32, cin: bool) -> bool {
    a + b + carry_in_of(cin) >= 0x1_0000_0000
}

/// The V flag of a flag-setting add: the signed overflow of the full
/// three-way sum, both operands read as two's-complement values
pub open spec fn add_overflow(a: u32, b: u32, cin: bool) -> bool {
    let s = as_signed(a) + as_signed(b) + carry_in_of(cin);
    s > 0x7FFF_FFFF || s < -0x8000_0000
}

/// The machine with N/Z/C/V set as a flag-setting add of `a`, `b` and the
/// carry-in would leave them
pub open spec fn with_add_flags(s: VmView, a: u32, b: u32, cin: bool) -> VmView {
    VmView {
        n: bit31(add_result(a, b, cin)),
        z: add_result(a, b, cin) == 0,
        c: add_carry(a, b, cin),
        v: add_overflow(a, b, cin),
        ..s
    }
}

/// The machine with N and Z set from `result`, C and V untouched
pub open spec fn with_nz(s: VmView, result: u32) -> VmView {
    VmView { n: bit31(result), z: result == 0, ..s }
}


/// Each single-bit field of a register list is zero or one.
pub proof fn lemma_bit_one_bounds(list: u8)
    by (bit_vector)
    ensures
        list & 1 <= 1,
        (list >> 1) & 1 <= 1,
        (list >> 2) & 1 <= 1,
        (list >> 3) & 1 <= 1,
        (list >> 4) & 1 <= 1,
        (list >> 5) & 1 <= 1,
        (list >> 6) & 1 <= 1,
        (list >> 7) & 1 <= 1,
{
}

/// Masked values stay within their mask.
pub proof fn lemma_mask_bounds(x: u32)
    by (bit_vector)
    ensures
        x & 0xFF < 0x100,
        x & 0xFFFF < 0x10000,
{
}

/// The sign bit test and the numeric comparison agree.
pub proof fn lemma_bit31_is_ge(x: u32)
    by (bit_vector)
    ensures
        (x & 0x8000_0000u32 != 0) == (x >= 0x8000_0000u32),
{
}

/// Bitwise complement is subtraction from the all-ones word.
pub proof fn lemma_not_is_sub(x: u32)
    by (bit_vector)
    ensures
        !x == 0xFFFF_FFFFu32 - x,
{
}

/// A flag-setting subtraction `a - b` is performed as
/// `op_add(a, !b, true, true)`.  The C flag is then exactly the not-borrow
/// condition: it is set if and only if the unsigned `a >= b`.
pub proof fn lemma_sub_carry_is_not_borrow(a: u32, b: u32)
    ensures
        add_result(a, !b, true) == u32_mod(a - b),
        add_carry(a, !b, true) == (a >= b),
{
    lemma_not_is_sub(b);
}

/// The V flag of a flag-setting subtraction `a - b` is exactly the
/// signed-overflow condition: the mathematical difference of the operands'
/// two's-complement values falls outside the 32-bit signed range.
pub proof fn lemma_sub_overflow_is_signed(a: u32, b: u32)
    ensures
        add_overflow(a, !b, true) == (as_signed(a) - as_signed(b) > 0x7FFF_FFFF || as_signed(a)
            - as_signed(b) < -0x8000_0000),
{
    lemma_not_is_sub(b);
}

/// The result of a flag-setting arithmetic operation drives N and Z: N
/// holds exactly when bit 31 of the result is set -- equivalently, when the
/// result reads negative in two's complement -- and Z exactly when the
/// result is zero.
pub proof fn lemma_result_flags(s: VmView, a: u32, b: u32, cin: bool)
    ensures
        with_add_flags(s, a, b, cin).n == bit31(add_result(a, b, cin)),
        with_add_flags(s, a, b, cin).n == (as_signed(add_result(a, b, cin)) < 0),
        with_add_flags(s, a, b, cin).z == (add_result(a, b, cin) == 0),
{
    lemma_bit31_is_ge(add_result(a, b, cin));
}

/// The same N and Z discipline holds of the logic and shift instructions,
/// which set the flags from their result directly.
pub proof fn lemma_nz_flags(s: VmView, result: u32)
    ensures
        with_nz(s, result).n == bit31(result),
        with_nz(s, result).n == (as_signed(result) < 0),
        with_nz(s, result).z == (result == 0),
{
    lemma_bit31_is_ge(result);
}


/// Logical shift left by `a` (0-255): the shifted value and the C flag,
/// which is the last bit shifted out, or the carry-in when `a` is zero
pub open spec fn lsl_shift(v: u32, a: u32, cin: bool) -> (u32, bool) {
    if a == 0 {
        (v, cin)
    } else if a < 32 {
        ((v << a), v & (1u32 << (32 - a)) != 0)
    } else if a == 32 {
        (0u32, v & 1 != 0)
    } else {
        (0u32, false)
    }
}

/// Logical shift right by `a` (0-255), with the out-shifted bit as C
pub open spec fn lsr_shift(v: u32, a: u32, cin: bool) -> (u32, bool) {
    if a == 0 {
        (v, cin)
    } else if a < 32 {
        ((v >> a), v & (1u32 << (a - 1)) != 0)
    } else if a == 32 {
        (0u32, bit31(v))
    } else {
        (0u32, false)
    }
}

/// Arithmetic shift right by `a` (1-31): the vacated bits copy the sign bit
pub open spec fn asr_val(v: u32, a: u32) -> u32 {
    if bit31(v) {
        (v >> a) | (0xFFFF_FFFFu32 << (32 - a))
    } else {
        v >> a
    }
}

/// Arithmetic shift right by `a` (0-255), with the out-shifted bit as C;
/// shifts of 32 or more fill the word with the sign bit
pub open spec fn asr_shift(v: u32, a: u32, cin: bool) -> (u32, bool) {
    if a == 0 {
        (v, cin)
    } else if a < 32 {
        (asr_val(v, a), v & (1u32 << (a - 1)) != 0)
    } else {
        ((if bit31(v) {
            0xFFFF_FFFFu32
        } else {
            0u32
        }), bit31(v))
    }
}

/// Rotate right by `a % 32`; C becomes bit 31 of the result
pub open spec fn ror_val(v: u32, a: u32) -> u32 {
    let sh = a % 32;
    if sh == 0 {
        v
    } else {
        (v >> sh) | (v << (32 - sh))
    }
}

/// Byte reversal: `0x11223344` becomes `0x44332211`
pub open spec fn rev_of(v: u32) -> u32 {
    ((v & 0xFF) << 24) | ((v & 0xFF00) << 8) | ((v & 0xFF0000) >> 8) | ((v & 0xFF000000) >> 24)
}

/// Byte reversal in each halfword: `0x11223344` becomes `0x22114433`
pub open spec fn rev16_of(v: u32) -> u32 {
    ((v & 0xFF) << 8) | ((v & 0xFF00) >> 8) | ((v & 0xFF0000) << 8) | ((v & 0xFF000000) >> 8)
}

/// The low halfword byte-reversed, then sign-extended:
/// `0x1122AAFF` becomes `0xFFFFFFAA`
pub open spec fn revsh_of(v: u32) -> u32 {
    let hi = if v & 0xFF >= 0x80 {
        (((v & 0xFF) << 8) | 0xFFFF_0000u32)
    } else {
        ((v & 0xFF) << 8)
    };
    hi | ((v & 0xFF00) >> 8)
}

/// The low byte sign-extended to 32 bits
pub open spec fn sxtb_of(v: u32) -> u32 {
    if v & 0xFF >= 0x80 {
        ((v & 0xFF) + 0xFFFF_FF00) as u32
    } else {
        v & 0xFF
    }
}

/// The low halfword sign-extended to 32 bits
pub open spec fn sxth_of(v: u32) -> u32 {
    if v & 0xFFFF >= 0x8000 {
        ((v & 0xFFFF) + 0xFFFF_0000) as u32
    } else {
        v & 0xFFFF
    }
}

/// A loaded byte sign-extended to 32 bits
pub open spec fn sext8_32(b: u8) -> u32 {
    if b >= 0x80 {
        (b + 0xFFFF_FF00) as u32
    } else {
        b as u32
    }
}

/// A loaded halfword sign-extended to 32 bits
pub open spec fn sext16_32(h: u16) -> u32 {
    if h >= 0x8000 {
        (h + 0xFFFF_0000) as u32
    } else {
        h as u32
    }
}

/// Reversing the bytes of a word twice gives the word back.
pub proof fn lemma_rev_involution(x: u32)
    by (bit_vector)
    ensures
        rev_of(rev_of(x)) == x,
{
}

/// Reversing the bytes within each halfword twice gives the word back.
pub proof fn lemma_rev16_involution(x: u32)
    by (bit_vector)
    ensures
        rev16_of(rev16_of(x)) == x,
{
}

/// The number of set bits in a register list
pub open spec fn popcount8(list: u8) -> u32 {
    ((list & 1) + ((list >> 1) & 1) + ((list >> 2) & 1) + ((list >> 3) & 1) + ((list >> 4) & 1) + (
    (list >> 5) & 1) + ((list >> 6) & 1) + ((list >> 7) & 1)) as u32
}

/// One ascending pass of a multiple-register load: registers `i`..7 whose
/// bits are set in `list` are loaded from consecutive words starting at
/// `addr`.  Returns the machine so far, the next address, and the error that
/// stopped the pass, if any.
pub open spec fn load_seq(s: VmView, addr: u32, list: u8, i: u8) -> (VmView, u32, Option<NarmError>)
    decreases 8 - i,
{
    if i >= 8 {
        (s, addr, Option::<NarmError>::None)
    } else if list & (1u8 << i) != 0 {
        match read_check(s.mem, addr, 4) {
            Option::Some(e) => (s, addr, Option::Some(e)),
            Option::None => load_seq(
                VmView {
                    sreg: s.sreg.update(i as int, word32_of(read_bytes(s.mem, addr, 4))),
                    ..s
                },
                u32_mod(addr + 4),
                list,
                (i + 1) as u8,
            ),
        }
    } else {
        load_seq(s, addr, list, (i + 1) as u8)
    }
}

/// One ascending pass of a multiple-register store: registers `i`..7 whose
/// bits are set in `list` are stored to consecutive words starting at
/// `addr`.
pub open spec fn store_seq(s: VmView, addr: u32, list: u8, i: u8) -> (
    VmView,
    u32,
    Option<NarmError>,
)
    decreases 8 - i,
{
    if i >= 8 {
        (s, addr, Option::<NarmError>::None)
    } else if list & (1u8 << i) != 0 {
        match write_check(s.mem, addr, 4) {
            Option::Some(e) => (s, addr, Option::Some(e)),
            Option::None => store_seq(
                VmView { mem: stored(s.mem, addr, bytes_of_u32(s.sreg[i as int])), ..s },
                u32_mod(addr + 4),
                list,
                (i + 1) as u8,
            ),
        }
    } else {
        store_seq(s, addr, list, (i + 1) as u8)
    }
}


/// The two-register family claims the opcode
pub open spec fn r3r3_matches(op: u16) -> bool {
    let v = op & 0xFFC0u16;
    ||| v == 0x4140
    ||| v == 0x4000
    ||| v == 0x4100
    ||| v == 0x4380
    ||| v == 0x42C0
    ||| v == 0x4280
    ||| v == 0x4040
    ||| v == 0x4080
    ||| v == 0x40C0
    ||| v == 0x4600
    ||| v == 0x0000
    ||| v == 0x4340
    ||| v == 0x43C0
    ||| v == 0x4300
    ||| v == 0xBA00
    ||| v == 0xBA40
    ||| v == 0xBAC0
    ||| v == 0x41C0
    ||| v == 0x4240
    ||| v == 0x4180
    ||| v == 0xB240
    ||| v == 0xB200
    ||| v == 0x4200
    ||| v == 0xB2C0
    ||| v == 0xB280
}

/// What a two-register instruction does: `Rm` is bits 5..3, `Rdn` bits
/// 2..0.  Flag-setting arithmetic goes through the adder; shifts set C to
/// the last bit shifted out; pure logic sets N and Z only.
pub open spec fn r3r3_post(s: VmView, post: VmView, op: u16, r: Result<u32, NarmError>) -> bool {
    let v = op & 0xFFC0u16;
    let reg1 = ((op >> 3) & 7) as int;
    let reg2 = (op & 7) as int;
    let valuem = s.sreg[reg1];
    let valuen = s.sreg[reg2];
    &&& r == Result::<u32, NarmError>::Ok(0u32)
    &&& if v == 0x4140 {
        // ADC reg T1
        post == (VmView {
            sreg: s.sreg.update(reg2, add_result(valuem, valuen, s.c)),
            ..with_add_flags(s, valuem, valuen, s.c)
        })
    } else if v == 0x4000 {
        // AND reg T1
        post == with_nz(VmView { sreg: s.sreg.update(reg2, valuen & valuem), ..s }, valuen & valuem)
    } else if v == 0x4100 {
        // ASR reg T1
        let res = asr_shift(valuen, valuem & 0xFF, s.c);
        post == (VmView { sreg: s.sreg.update(reg2, res.0), c: res.1, ..with_nz(s, res.0) })
    } else if v == 0x4380 {
        // BIC T1
        post == with_nz(VmView { sreg: s.sreg.update(reg2, valuen & !valuem), ..s }, valuen & !valuem)
    } else if v == 0x42C0 {
        // CMN T1
        post == with_add_flags(s, valuen, valuem, false)
    } else if v == 0x4280 {
        // CMP reg T1
        post == with_add_flags(s, valuen, !valuem, true)
    } else if v == 0x4040 {
        // EOR reg T1
        post == with_nz(VmView { sreg: s.sreg.update(reg2, valuen ^ valuem), ..s }, valuen ^ valuem)
    } else if v == 0x4080 {
        // LSL reg T1
        let res = lsl_shift(valuen, valuem & 0xFF, s.c);
        post == (VmView { sreg: s.sreg.update(reg2, res.0), c: res.1, ..with_nz(s, res.0) })
    } else if v == 0x40C0 {
        // LSR reg T1
        let res = lsr_shift(valuen, valuem & 0xFF, s.c);
        post == (VmView { sreg: s.sreg.update(reg2, res.0), c: res.1, ..with_nz(s, res.0) })
    } else if v == 0x4600 {
        // MOV reg T1, low registers, no flags
        post == (VmView { sreg: s.sreg.update(reg2, valuem), ..s })
    } else if v == 0x0000 {
        // MOVS reg T2
        post == with_nz(VmView { sreg: s.sreg.update(reg2, valuem), ..s }, valuem)
    } else if v == 0x4340 {
        // MUL T1: the low 32 bits of the product
        let res = u32_mod(valuen * valuem);
        post == with_nz(VmView { sreg: s.sreg.update(reg2, res), ..s }, res)
    } else if v == 0x43C0 {
        // MVN T1
        post == with_nz(VmView { sreg: s.sreg.update(reg2, !valuem), ..s }, !valuem)
    } else if v == 0x4300 {
        // ORR reg T1
        post == with_nz(VmView { sreg: s.sreg.update(reg2, valuen | valuem), ..s }, valuen | valuem)
    } else if v == 0xBA00 {
        // REV T1
        post == (VmView { sreg: s.sreg.update(reg2, rev_of(valuem)), ..s })
    } else if v == 0xBA40 {
        // REV16 T1
        post == (VmView { sreg: s.sreg.update(reg2, rev16_of(valuem)), ..s })
    } else if v == 0xBAC0 {
        // REVSH T1
        post == (VmView { sreg: s.sreg.update(reg2, revsh_of(valuem)), ..s })
    } else if v == 0x41C0 {
        // ROR reg T1; C takes bit 31 of the result
        let res = ror_val(valuen, valuem);
        post == (VmView { sreg: s.sreg.update(reg2, res), c: bit31(res), ..with_nz(s, res) })
    } else if v == 0x4240 {
        // RSB imm T1 (the immediate is always zero in ARMv6-M)
        post == (VmView {
            sreg: s.sreg.update(reg2, add_result(!valuem, 0, true)),
            ..with_add_flags(s, !valuem, 0, true)
        })
    } else if v == 0x4180 {
        // SBC T1
        post == (VmView {
            sreg: s.sreg.update(reg2, add_result(valuen, !valuem, s.c)),
            ..with_add_flags(s, valuen, !valuem, s.c)
        })
    } else if v == 0xB240 {
        // SXTB T1
        post == (VmView { sreg: s.sreg.update(reg2, sxtb_of(valuem)), ..s })
    } else if v == 0xB200 {
        // SXTH T1
        post == (VmView { sreg: s.sreg.update(reg2, sxth_of(valuem)), ..s })
    } else if v == 0x4200 {
        // TST reg T1: the result is not written back
        post == with_nz(s, valuen & valuem)
    } else if v == 0xB2C0 {
        // UXTB T1
        post == (VmView { sreg: s.sreg.update(reg2, valuem & 0xFF), ..s })
    } else if v == 0xB280 {
        // UXTH T1
        post == (VmView { sreg: s.sreg.update(reg2, valuem & 0xFFFF), ..s })
    } else {
        false
    }
}


/// A word load at `addr` into low register `rd`: on success the register
/// takes the little-endian word, on failure the machine is unchanged and
/// the read's error is returned.
pub open spec fn load_word_post(s: VmView, post: VmView, addr: u32, rd: int, r: Result<
    u32,
    NarmError,
>) -> bool {
    match read_check(s.mem, addr, 4) {
        Option::Some(e) => post == s && r == Result::<u32, NarmError>::Err(e),
        Option::None => post == (VmView {
            sreg: s.sreg.update(rd, word32_of(read_bytes(s.mem, addr, 4))),
            ..s
        }) && r == Result::<u32, NarmError>::Ok(0u32),
    }
}

/// A byte load at `addr` into low register `rd`, zero- or sign-extended
pub open spec fn load_byte_post(s: VmView, post: VmView, addr: u32, rd: int, signed: bool, r: Result<
    u32,
    NarmError,
>) -> bool {
    match read_check(s.mem, addr, 1) {
        Option::Some(e) => post == s && r == Result::<u32, NarmError>::Err(e),
        Option::None => {
            let b = read_bytes(s.mem, addr, 1)[0];
            let value = if signed {
                sext8_32(b)
            } else {
                b as u32
            };
            post == (VmView { sreg: s.sreg.update(rd, value), ..s }) && r == Result::<
                u32,
                NarmError,
            >::Ok(0u32)
        },
    }
}

/// A halfword load at `addr` into low register `rd`, zero- or sign-extended
pub open spec fn load_half_post(s: VmView, post: VmView, addr: u32, rd: int, signed: bool, r: Result<
    u32,
    NarmError,
>) -> bool {
    match read_check(s.mem, addr, 2) {
        Option::Some(e) => post == s && r == Result::<u32, NarmError>::Err(e),
        Option::None => {
            let h = word16_of(read_bytes(s.mem, addr, 2));
            let value = if signed {
                sext16_32(h)
            } else {
                h as u32
            };
            post == (VmView { sreg: s.sreg.update(rd, value), ..s }) && r == Result::<
                u32,
                NarmError,
            >::Ok(0u32)
        },
    }
}

/// A store of `bytes` at `addr`: on success only the memory changes, on
/// failure nothing does and the write's error is returned.
pub open spec fn store_post(s: VmView, post: VmView, addr: u32, bytes: Seq<u8>, r: Result<
    u32,
    NarmError,
>) -> bool {
    match write_check(s.mem, addr, bytes.len()) {
        Option::Some(e) => post == s && r == Result::<u32, NarmError>::Err(e),
        Option::None => post == (VmView { mem: stored(s.mem, addr, bytes), ..s }) && r == Result::<
            u32,
            NarmError,
        >::Ok(0u32),
    }
}

/// The three-register family claims the opcode
pub open spec fn r3r3r3_matches(op: u16) -> bool {
    let v = op & 0xFE00u16;
    ||| v == 0x1800
    ||| v == 0x5800
    ||| v == 0x5C00
    ||| v == 0x5A00
    ||| v == 0x5600
    ||| v == 0x5E00
    ||| v == 0x5000
    ||| v == 0x5400
    ||| v == 0x5200
    ||| v == 0x1A00
    ||| v == 0x1E00
    ||| v == 0x1C00
}

/// What a three-register instruction does: adds and subtracts through the
/// adder (the first field doubling as a 3-bit immediate in the immediate
/// forms), and the register-offset loads and stores at `Rn + Rm` with
/// wrapping address arithmetic.
pub open spec fn r3r3r3_post(s: VmView, post: VmView, op: u16, r: Result<u32, NarmError>) -> bool {
    let v = op & 0xFE00u16;
    let reg1 = ((op >> 6) & 7) as int;
    let reg2 = ((op >> 3) & 7) as int;
    let reg3 = (op & 7) as int;
    let valuem = s.sreg[reg1];
    let valuen = s.sreg[reg2];
    let addr = u32_mod(valuen + valuem);
    if v == 0x1800 {
        // ADDS reg T1
        post == (VmView {
            sreg: s.sreg.update(reg3, add_result(valuen, valuem, false)),
            ..with_add_flags(s, valuen, valuem, false)
        }) && r == Result::<u32, NarmError>::Ok(0u32)
    } else if v == 0x5800 {
        // LDR reg T1
        load_word_post(s, post, addr, reg3, r)
    } else if v == 0x5C00 {
        // LDRB reg T1
        load_byte_post(s, post, addr, reg3, false, r)
    } else if v == 0x5A00 {
        // LDRH reg T1
        load_half_post(s, post, addr, reg3, false, r)
    } else if v == 0x5600 {
        // LDRSB reg T1
        load_byte_post(s, post, addr, reg3, true, r)
    } else if v == 0x5E00 {
        // LDRSH reg T1
        load_half_post(s, post, addr, reg3, true, r)
    } else if v == 0x5000 {
        // STR reg T1
        store_post(s, post, addr, bytes_of_u32(s.sreg[reg3]), r)
    } else if v == 0x5400 {
        // STRB reg T1
        store_post(s, post, addr, seq![(s.sreg[reg3] & 0xFF) as u8], r)
    } else if v == 0x5200 {
        // STRH reg T1
        store_post(s, post, addr, bytes_of_u16((s.sreg[reg3] & 0xFFFF) as u16), r)
    } else if v == 0x1A00 {
        // SUBS reg T1
        post == (VmView {
            sreg: s.sreg.update(reg3, add_result(valuen, !valuem, true)),
            ..with_add_flags(s, valuen, !valuem, true)
        }) && r == Result::<u32, NarmError>::Ok(0u32)
    } else if v == 0x1E00 {
        // SUBS imm T1: the first field is imm3
        let imm3 = valuem_imm3(op);
        post == (VmView {
            sreg: s.sreg.update(reg3, add_result(valuen, !imm3, true)),
            ..with_add_flags(s, valuen, !imm3, true)
        }) && r == Result::<u32, NarmError>::Ok(0u32)
    } else if v == 0x1C00 {
        // ADDS imm T1
        let imm3 = valuem_imm3(op);
        post == (VmView {
            sreg: s.sreg.update(reg3, add_result(valuen, imm3, false)),
            ..with_add_flags(s, valuen, imm3, false)
        }) && r == Result::<u32, NarmError>::Ok(0u32)
    } else {
        false
    }
}

/// The first operand field read as a 3-bit immediate
pub open spec fn valuem_imm3(op: u16) -> u32 {
    ((op >> 6) & 7) as u32
}

/// The high-register family claims the opcode
pub open spec fn n1r4_matches(op: u16) -> bool {
    let v = op & 0xFF00u16;
    v == 0x4500 || v == 0x4400 || v == 0x4600
}

/// What a high-register instruction does.  CMP and ADD treat r15 operands
/// as architecturally unpredictable: CMP forces such an operand to zero, and
/// ADD with both operands r15 returns with nothing modified.  None of these
/// forms set flags except CMP.
pub open spec fn n1r4_post(s: VmView, post: VmView, op: u16, r: Result<u32, NarmError>) -> bool {
    let v = op & 0xFF00u16;
    let reg1 = ((op >> 3) & 0xF) as int;
    let reg2 = (((op >> 7) & 1) * 8 + (op & 7)) as int;
    &&& r == Result::<u32, NarmError>::Ok(0u32)
    &&& if v == 0x4500 {
        // CMP reg T2
        let rm = if reg1 == 15 {
            0u32
        } else {
            spec_get_reg(s, reg1)
        };
        let rn = if reg2 == 15 {
            0u32
        } else {
            spec_get_reg(s, reg2)
        };
        post == with_add_flags(s, rn, !rm, true)
    } else if v == 0x4400 {
        // ADD reg T2, with the SP sub-forms
        if reg1 == 13 {
            //ADD <Rdm>, SP, <Rdm>
            post == spec_set_reg(s, reg2, add_result(spec_get_reg(s, 13), spec_get_reg(s, reg2), false))
        } else if reg2 == 13 {
            //ADD SP, <Rm>
            post == spec_set_reg(s, 13, add_result(spec_get_reg(s, 13), spec_get_reg(s, reg1), false))
        } else if reg1 == 15 && reg2 == 15 {
            post == s
        } else {
            post == spec_set_reg(s, reg2, add_result(spec_get_reg(s, reg2), spec_get_reg(s, reg1), false))
        }
    } else if v == 0x4600 {
        // MOV reg T1
        post == spec_set_reg(s, reg2, spec_get_reg(s, reg1))
    } else {
        false
    }
}

/// The shift-immediate / offset-immediate family claims the opcode.  The
/// shift-left pattern with a zero immediate is the MOVS register encoding,
/// which the two-register family takes first.
pub open spec fn imm5_matches(op: u16) -> bool {
    let v = op & 0xF800u16;
    ||| v == 0x1000
    ||| v == 0x6800
    ||| v == 0x7800
    ||| v == 0x8800
    ||| (v == 0x0000 && (op >> 6) & 0x1F != 0)
    ||| v == 0x0800
    ||| v == 0x6000
    ||| v == 0x7000
    ||| v == 0x8000
}

/// What a shift-immediate or offset-immediate instruction does.  A zero
/// shift immediate means a shift by 32 for LSR and ASR; load and store
/// offsets are scaled by the access width.
pub open spec fn imm5_post(s: VmView, post: VmView, op: u16, r: Result<u32, NarmError>) -> bool {
    let v = op & 0xF800u16;
    let imm = ((op >> 6) & 0x1F) as u32;
    let reg1 = ((op >> 3) & 7) as int;
    let reg2 = (op & 7) as int;
    if v == 0x1000 {
        // ASR imm T1
        let a = if imm == 0 {
            32u32
        } else {
            imm
        };
        let res = asr_shift(s.sreg[reg1], a, s.c);
        post == (VmView { sreg: s.sreg.update(reg2, res.0), c: res.1, ..with_nz(s, res.0) }) && r
            == Result::<u32, NarmError>::Ok(0u32)
    } else if v == 0x6800 {
        // LDR imm T1
        load_word_post(s, post, u32_mod(s.sreg[reg1] + 4 * imm), reg2, r)
    } else if v == 0x7800 {
        // LDRB imm T1
        load_byte_post(s, post, u32_mod(s.sreg[reg1] + imm), reg2, false, r)
    } else if v == 0x8800 {
        // LDRH imm T1
        load_half_post(s, post, u32_mod(s.sreg[reg1] + 2 * imm), reg2, false, r)
    } else if v == 0x0000 {
        // LSL imm T1 (imm5 is nonzero here: a zero immediate decodes as
        // MOVS reg T2 in the two-register family)
        let res = lsl_shift(s.sreg[reg1], imm, s.c);
        post == (VmView { sreg: s.sreg.update(reg2, res.0), c: res.1, ..with_nz(s, res.0) }) && r
            == Result::<u32, NarmError>::Ok(0u32)
    } else if v == 0x0800 {
        // LSR imm T1
        let a = if imm == 0 {
            32u32
        } else {
            imm
        };
        let res = lsr_shift(s.sreg[reg1], a, s.c);
        post == (VmView { sreg: s.sreg.update(reg2, res.0), c: res.1, ..with_nz(s, res.0) }) && r
            == Result::<u32, NarmError>::Ok(0u32)
    } else if v == 0x6000 {
        // STR imm T1
        store_post(s, post, u32_mod(s.sreg[reg1] + 4 * imm), bytes_of_u32(s.sreg[reg2]), r)
    } else if v == 0x7000 {
        // STRB imm T1
        store_post(s, post, u32_mod(s.sreg[reg1] + imm), seq![(s.sreg[reg2] & 0xFF) as u8], r)
    } else if v == 0x8000 {
        // STRH imm T1
        store_post(
            s,
            post,
            u32_mod(s.sreg[reg1] + 2 * imm),
            bytes_of_u16((s.sreg[reg2] & 0xFFFF) as u16),
            r,
        )
    } else {
        false
    }
}


/// The conditional-branch/SVC family claims the opcode.  The UDF pattern
/// (condition code 14) is taken earlier by the hint dispatch.
pub open spec fn c4imm8_matches(op: u16) -> bool {
    op & 0xF000u16 == 0xD000
}

/// What a conditional branch or SVC does: condition code 15 returns the
/// 8-bit immediate as a service-call number; otherwise the sign-extended,
/// doubled offset is added to the virtual program counter exactly when the
/// predicate over the flags passes.
pub open spec fn c4imm8_post(s: VmView, post: VmView, op: u16, r: Result<u32, NarmError>) -> bool {
    let cond = ((op >> 8) & 0xF) as u32;
    let imm = (op & 0xFF) as u32;
    if cond == 0xF {
        post == s && r == Result::<u32, NarmError>::Ok(imm)
    } else {
        let target = u32_mod(s.virtual_pc + 2 * spec_sign_extend32(imm, 8));
        &&& r == Result::<u32, NarmError>::Ok(0u32)
        &&& post == (if spec_condition_passes(cond, s.n, s.z, s.c, s.v) {
            VmView { pc: target, ..s }
        } else {
            s
        })
    }
}

/// The SP-adjust family claims the opcode
pub open spec fn spadj_matches(op: u16) -> bool {
    op & 0xFF00u16 == 0xB000
}

/// ADD SP, SP, #imm7 and SUB SP, SP, #imm7: the stack pointer moves by four
/// times the immediate, flags untouched
pub open spec fn spadj_post(s: VmView, post: VmView, op: u16, r: Result<u32, NarmError>) -> bool {
    let imm = (op & 0x7F) as u32;
    let target = if op & 0x80u16 != 0 {
        u32_mod(s.lreg[5] - 4 * imm)
    } else {
        u32_mod(s.lreg[5] + 4 * imm)
    };
    post == spec_set_reg(s, 13, target) && r == Result::<u32, NarmError>::Ok(0u32)
}

/// The register-branch family claims the opcode
pub open spec fn r4q3_matches(op: u16) -> bool {
    let v = op & 0xFF80u16;
    v == 0x4700 || v == 0x4780
}

/// BX and BLX: the branch target is the register value, routed through the
/// r15 write rule; BLX first saves `virtual_pc - 2` with the Thumb bit set
/// into the link register.
pub open spec fn r4q3_post(s: VmView, post: VmView, op: u16, r: Result<u32, NarmError>) -> bool {
    let reg = ((op >> 3) & 0xF) as int;
    let value = spec_get_reg(s, reg);
    &&& r == Result::<u32, NarmError>::Ok(0u32)
    &&& if op & 0xFF80u16 == 0x4700 {
        post == spec_set_reg(s, 15, value)
    } else {
        let lr = u32_mod(s.virtual_pc - 2) | 1;
        post == spec_set_reg(spec_set_reg(s, 14, lr), 15, value)
    }
}


/// The register-plus-8-bit-immediate family claims the opcode
pub open spec fn r3imm8_matches(op: u16) -> bool {
    let v = op & 0xF800u16;
    ||| v == 0x4800
    ||| v == 0x9800
    ||| v == 0x2000
    ||| v == 0x3000
    ||| v == 0xA800
    ||| v == 0xA000
    ||| v == 0x2800
    ||| v == 0x9000
    ||| v == 0x3800
    ||| v == 0xC800
    ||| v == 0xC000
    ||| v == 0xE000
}

/// What a register-plus-immediate instruction does: PC- and SP-relative
/// loads and stores scale the immediate by four, ADR works from the aligned
/// virtual program counter, LDM and STM transfer ascending register lists
/// with base write-back, and B adds a sign-extended, doubled 11-bit
/// displacement to the virtual program counter.
pub open spec fn r3imm8_post(s: VmView, post: VmView, op: u16, r: Result<u32, NarmError>) -> bool {
    let v = op & 0xF800u16;
    let reg = ((op >> 8) & 7) as int;
    let imm = (op & 0xFF) as u32;
    let list = (op & 0xFF) as u8;
    if v == 0x4800 {
        // LDR lit T1: the base is the word-aligned virtual program counter
        load_word_post(s, post, u32_mod(align4_of(s.virtual_pc) + 4 * imm), reg, r)
    } else if v == 0x9800 {
        // LDR imm T2 (SP-relative)
        load_word_post(s, post, u32_mod(s.lreg[5] + 4 * imm), reg, r)
    } else if v == 0x2000 {
        // MOV imm T1
        post == with_nz(VmView { sreg: s.sreg.update(reg, imm), ..s }, imm) && r == Result::<
            u32,
            NarmError,
        >::Ok(0u32)
    } else if v == 0x3000 {
        // ADDS imm T2
        post == (VmView {
            sreg: s.sreg.update(reg, add_result(s.sreg[reg], imm, false)),
            ..with_add_flags(s, s.sreg[reg], imm, false)
        }) && r == Result::<u32, NarmError>::Ok(0u32)
    } else if v == 0xA800 {
        // ADD sp+imm T1, no flags
        post == (VmView {
            sreg: s.sreg.update(reg, add_result(s.lreg[5], (4 * imm) as u32, false)),
            ..s
        }) && r == Result::<u32, NarmError>::Ok(0u32)
    } else if v == 0xA000 {
        // ADR T1
        post == (VmView {
            sreg: s.sreg.update(reg, u32_mod(align4_of(s.virtual_pc) + 4 * imm)),
            ..s
        }) && r == Result::<u32, NarmError>::Ok(0u32)
    } else if v == 0x2800 {
        // CMP imm T1: flags only
        post == with_add_flags(s, s.sreg[reg], !imm, true) && r == Result::<u32, NarmError>::Ok(
            0u32,
        )
    } else if v == 0x9000 {
        // STR imm T2 (SP-relative)
        store_post(s, post, u32_mod(s.lreg[5] + 4 * imm), bytes_of_u32(s.sreg[reg]), r)
    } else if v == 0x3800 {
        // SUBS imm T2
        post == (VmView {
            sreg: s.sreg.update(reg, add_result(s.sreg[reg], !imm, true)),
            ..with_add_flags(s, s.sreg[reg], !imm, true)
        }) && r == Result::<u32, NarmError>::Ok(0u32)
    } else if v == 0xC800 {
        // LDM T1: base write-back unless the base register is in the list
        let f = load_seq(s, s.sreg[reg], list, 0);
        match f.2 {
            Option::Some(e) => post == f.0 && r == Result::<u32, NarmError>::Err(e),
            Option::None => {
                let wback = list & (1u8 << reg) == 0;
                post == (if wback {
                    VmView { sreg: f.0.sreg.update(reg, f.1), ..f.0 }
                } else {
                    f.0
                }) && r == Result::<u32, NarmError>::Ok(0u32)
            },
        }
    } else if v == 0xC000 {
        // STM T1: the base always takes the final address
        let f = store_seq(s, s.sreg[reg], list, 0);
        match f.2 {
            Option::Some(e) => post == f.0 && r == Result::<u32, NarmError>::Err(e),
            Option::None => post == (VmView { sreg: f.0.sreg.update(reg, f.1), ..f.0 }) && r
                == Result::<u32, NarmError>::Ok(0u32),
        }
    } else if v == 0xE000 {
        // B T2
        let field = (op & 0x7FF) as u32;
        let target = u32_mod(s.virtual_pc + spec_sign_extend32((2 * field) as u32, 12));
        post == (VmView { pc: target, ..s }) && r == Result::<u32, NarmError>::Ok(0u32)
    } else {
        false
    }
}

/// The stack-multiple family claims the opcode
pub open spec fn x1rl8_matches(op: u16) -> bool {
    let v = op & 0xFE00u16;
    v == 0xBC00 || v == 0xB400
}

/// PUSH and POP.  PUSH pre-decrements SP by four bytes per transferred
/// register (the link register included when its flag is set) and stores
/// the list ascending; POP loads ascending from SP, reloads PC through the
/// r15 write rule when its flag is set, and moves SP past what was read.
pub open spec fn x1rl8_post(s: VmView, post: VmView, op: u16, r: Result<u32, NarmError>) -> bool {
    let extra = op & 0x100u16 != 0;
    let list = (op & 0xFF) as u8;
    if op & 0xFE00u16 == 0xBC00 {
        // POP T1
        let f = load_seq(s, s.lreg[5], list, 0);
        match f.2 {
            Option::Some(e) => post == f.0 && r == Result::<u32, NarmError>::Err(e),
            Option::None => {
                if extra {
                    match read_check(f.0.mem, f.1, 4) {
                        Option::Some(e) => post == f.0 && r == Result::<u32, NarmError>::Err(e),
                        Option::None => post == spec_set_reg(
                            spec_set_reg(f.0, 15, word32_of(read_bytes(f.0.mem, f.1, 4))),
                            13,
                            u32_mod(f.1 + 4),
                        ) && r == Result::<u32, NarmError>::Ok(0u32),
                    }
                } else {
                    post == spec_set_reg(f.0, 13, f.1) && r == Result::<u32, NarmError>::Ok(0u32)
                }
            },
        }
    } else {
        // PUSH T1
        let start = u32_mod(
            s.lreg[5] - 4 * (popcount8(list) + (if extra {
                1int
            } else {
                0int
            })),
        );
        let f = store_seq(s, start, list, 0);
        match f.2 {
            Option::Some(e) => post == f.0 && r == Result::<u32, NarmError>::Err(e),
            Option::None => {
                if extra {
                    match write_check(f.0.mem, f.1, 4) {
                        Option::Some(e) => post == f.0 && r == Result::<u32, NarmError>::Err(e),
                        Option::None => post == spec_set_reg(
                            VmView { mem: stored(f.0.mem, f.1, bytes_of_u32(s.lreg[6])), ..f.0 },
                            13,
                            start,
                        ) && r == Result::<u32, NarmError>::Ok(0u32),
                    }
                } else {
                    post == spec_set_reg(f.0, 13, start) && r == Result::<u32, NarmError>::Ok(0u32)
                }
            },
        }
    }
}


/// A load pass only changes the low registers.
pub proof fn lemma_load_seq_frame(s: VmView, addr: u32, list: u8, i: u8)
    requires
        s.sreg.len() == 8,
    ensures
        ({
            let f = load_seq(s, addr, list, i);
            f.0.lreg == s.lreg && f.0.pc == s.pc && f.0.virtual_pc == s.virtual_pc && f.0.last_pc
                == s.last_pc && f.0.n == s.n && f.0.z == s.z && f.0.c == s.c && f.0.v == s.v
                && f.0.gas == s.gas && f.0.mem == s.mem && f.0.sreg.len() == 8
        }),
    decreases 8 - i,
{
    if i < 8 {
        if list & (1u8 << i) != 0 {
            match read_check(s.mem, addr, 4) {
                Option::Some(e) => {},
                Option::None => {
                    lemma_load_seq_frame(
                        VmView {
                            sreg: s.sreg.update(i as int, word32_of(read_bytes(s.mem, addr, 4))),
                            ..s
                        },
                        u32_mod(addr + 4),
                        list,
                        (i + 1) as u8,
                    );
                },
            }
        } else {
            lemma_load_seq_frame(s, addr, list, (i + 1) as u8);
        }
    }
}

/// A store pass only changes the memory.
pub proof fn lemma_store_seq_frame(s: VmView, addr: u32, list: u8, i: u8)
    ensures
        ({
            let f = store_seq(s, addr, list, i);
            f.0.lreg == s.lreg && f.0.pc == s.pc && f.0.virtual_pc == s.virtual_pc && f.0.last_pc
                == s.last_pc && f.0.n == s.n && f.0.z == s.z && f.0.c == s.c && f.0.v == s.v
                && f.0.gas == s.gas && f.0.sreg == s.sreg
        }),
    decreases 8 - i,
{
    if i < 8 {
        if list & (1u8 << i) != 0 {
            match write_check(s.mem, addr, 4) {
                Option::Some(e) => {},
                Option::None => {
                    lemma_store_seq_frame(
                        VmView { mem: stored(s.mem, addr, bytes_of_u32(s.sreg[i as int])), ..s },
                        u32_mod(addr + 4),
                        list,
                        (i + 1) as u8,
                    );
                },
            }
        } else {
            lemma_store_seq_frame(s, addr, list, (i + 1) as u8);
        }
    }
}


/// The packed 25-bit BL displacement before sign extension:
/// `S : I1 : I2 : imm10 : imm11 : '0'`
pub open spec fn bl_value(sbit: bool, i1: bool, i2: bool, imm10: u32, imm11: u32) -> u32 {
    (if sbit {
        1u32 << 24
    } else {
        0u32
    }) | (if i1 {
        1u32 << 23
    } else {
        0u32
    }) | (if i2 {
        1u32 << 22
    } else {
        0u32
    }) | (imm10 << 12) | (imm11 << 1)
}

/// What BL does: the sign-extended 25-bit displacement is added to the
/// virtual program counter, and the link register takes the virtual program
/// counter with the Thumb bit set.
pub open spec fn bl_post(s: VmView, post: VmView, full: u32, r: Result<u32, NarmError>) -> bool {
    let sbit = full & 0x0400_0000u32 != 0;
    let imm10 = (full >> 16) & 0x3FF;
    let j1 = full & 0x2000u32 != 0;
    let j2 = full & 0x800u32 != 0;
    let imm11 = full & 0x7FF;
    let i1 = j1 == sbit;
    let i2 = j2 == sbit;
    let imm32 = spec_sign_extend32(bl_value(sbit, i1, i2, imm10, imm11), 25);
    &&& r == Result::<u32, NarmError>::Ok(0u32)
    &&& post == (VmView {
        pc: u32_mod(s.virtual_pc + imm32),
        lreg: s.lreg.update(6, s.virtual_pc | 1),
        ..s
    })
}

/// The ordered 16-bit dispatch chain: the NOP/hint and UDF patterns, then
/// the encoding families in their documented precedence, and finally the
/// invalid-opcode error.
pub open spec fn step16_post(s: VmView, post: VmView, op: u16, r: Result<u32, NarmError>) -> bool {
    if op & 0xFF00u16 == 0xBF00 {
        post == s && r == Result::<u32, NarmError>::Ok(0u32)
    } else if op & 0xFF00u16 == 0xDE00 {
        post == s && r == Result::<u32, NarmError>::Err(NarmError::InvalidOpcode(0xDE00u16))
    } else if r3imm8_matches(op) {
        r3imm8_post(s, post, op, r)
    } else if spadj_matches(op) {
        spadj_post(s, post, op, r)
    } else if r3r3_matches(op) {
        r3r3_post(s, post, op, r)
    } else if r3r3r3_matches(op) {
        r3r3r3_post(s, post, op, r)
    } else if n1r4_matches(op) {
        n1r4_post(s, post, op, r)
    } else if imm5_matches(op) {
        imm5_post(s, post, op, r)
    } else if c4imm8_matches(op) {
        c4imm8_post(s, post, op, r)
    } else if x1rl8_matches(op) {
        x1rl8_post(s, post, op, r)
    } else if r4q3_matches(op) {
        r4q3_post(s, post, op, r)
    } else {
        post == s && r == Result::<u32, NarmError>::Err(NarmError::InvalidOpcode(op))
    }
}

/// One whole cycle: the virtual program counter (the instruction's address
/// plus four) and the last program counter are set first,
/// the halfword at `pc` is fetched and `pc` advanced by 2; a Thumb-2 prefix
/// fetches a second halfword (advancing `pc` again) and runs BL or fails
/// with the 32-bit invalid-opcode error; otherwise the 16-bit dispatch
/// chain runs.  A fetch failure leaves everything but the program-counter
/// bookkeeping untouched and returns the fetch's error.
#[verifier::opaque]
pub open spec fn cycle_post(pre: VmView, post: VmView, r: Result<u32, NarmError>) -> bool {
    let vpc = u32_mod(pre.pc + 4);
    let s0 = VmView { virtual_pc: vpc, last_pc: pre.pc, ..pre };
    match read_check(pre.mem, pre.pc, 2) {
        Option::Some(e) => post == s0 && r == Result::<u32, NarmError>::Err(e),
        Option::None => {
            let op = word16_of(read_bytes(pre.mem, pre.pc, 2));
            let s1 = VmView { pc: u32_mod(pre.pc + 2), ..s0 };
            if spec_is_32bit_opcode(op) {
                match read_check(s1.mem, s1.pc, 2) {
                    Option::Some(e) => post == s1 && r == Result::<u32, NarmError>::Err(e),
                    Option::None => {
                        let full = ((op as u32) * 0x10000 + word16_of(
                            read_bytes(s1.mem, s1.pc, 2),
                        )) as u32;
                        let s2 = VmView { pc: u32_mod(s1.pc + 2), ..s1 };
                        if full & 0xF800_D000u32 == 0xF000_D000u32 {
                            bl_post(s2, post, full, r)
                        } else {
                            post == s2 && r == Result::<u32, NarmError>::Err(
                                NarmError::InvalidOpcode32(full & 0xF800_D000u32),
                            )
                        }
                    },
                }
            } else {
                step16_post(s1, post, op, r)
            }
        },
    }
}


/// A write to r13 always stores a value whose low two bits are zero, so the
/// stack pointer keeps its alignment.
pub proof fn lemma_sp_write_aligned(s: VmView, v: u32)
    requires
        s.lreg.len() == 7,
    ensures
        spec_set_reg(s, 13, v).lreg[5] % 4 == 0,
{
    crate::bitmanip::lemma_align4_is_round_down(v);
}

/// Executing the NOP/hint pattern changes nothing but the program-counter
/// bookkeeping: every register, every flag, the gas counter and the memory
/// are untouched, and `pc` advances by exactly one halfword.
pub proof fn lemma_nop_preserves_state(pre: VmView, post: VmView, r: Result<u32, NarmError>)
    requires
        cycle_post(pre, post, r),
        read_check(pre.mem, pre.pc, 2) is None,
        word16_of(read_bytes(pre.mem, pre.pc, 2)) & 0xFF00u16 == 0xBF00,
    ensures
        post.sreg == pre.sreg,
        post.lreg == pre.lreg,
        post.n == pre.n && post.z == pre.z && post.c == pre.c && post.v == pre.v,
        post.mem == pre.mem,
        post.gas == pre.gas,
        post.pc == u32_mod(pre.pc + 2),
        r == Result::<u32, NarmError>::Ok(0u32),
{
    reveal(cycle_post);
    let op = word16_of(read_bytes(pre.mem, pre.pc, 2));
    assert(!spec_is_32bit_opcode(op)) by (bit_vector)
        requires
            op & 0xFF00u16 == 0xBF00,
    ;
}


/// Reduction into the 32-bit range preserves halfword alignment.
proof fn lemma_u32_mod_even(x: int)
    requires
        x % 2 == 0,
    ensures
        u32_mod(x) % 2 == 0,
{
    vstd::arithmetic::div_mod::lemma_mod_mod(x, 2, 0x8000_0000);
    assert(2 * 0x8000_0000 == 0x1_0000_0000);
}

/// Clearing the low bit makes a value halfword-aligned.
proof fn lemma_clear_bit0_even(v: u32)
    by (bit_vector)
    ensures
        (v & 0xFFFF_FFFEu32) % 2 == 0,
{
}

/// The value written by the r15 rule is always halfword-aligned, and a
/// register write leaves `pc` untouched unless it targets r15.
proof fn lemma_set_reg_pc(s: VmView, i: int, v: u32)
    requires
        s.pc % 2 == 0,
        0 <= i < 16,
    ensures
        spec_set_reg(s, i, v).pc % 2 == 0,
{
    if i == 15 {
        lemma_clear_bit0_even(v);
    }
}

/// The packed BL displacement has a zero low bit.
proof fn lemma_bl_value_even(sbit: bool, i1: bool, i2: bool, imm10: u32, imm11: u32)
    by (bit_vector)
    ensures
        bl_value(sbit, i1, i2, imm10, imm11) % 2 == 0,
{
}

/// A sign-extended even payload is even (for the displacement widths the
/// branch instructions use).
proof fn lemma_sign_extend_even(data: u32, size: u32)
    requires
        0 < size <= 32,
        data % 2 == 0,
    ensures
        spec_sign_extend32(data, size) % 2 == 0,
{
    vstd::arithmetic::power2::lemma2_to64();
    if size == 1 {
        assert(vstd::arithmetic::power2::pow2(1) == 2);
    } else {
        let p = vstd::arithmetic::power2::pow2(size as nat) as int;
        let h = vstd::arithmetic::power2::pow2((size - 1) as nat) as int;
        assert(p == 2 * vstd::arithmetic::power2::pow2((size - 1) as nat)) by {
            vstd::arithmetic::power2::lemma_pow2_unfold(size as nat);
        }
        vstd::arithmetic::div_mod::lemma_mod_mod(data as int, 2, h);
        assert((data as int % p) % 2 == data as int % 2);
    }
}

/// The program counter never comes to rest between instruction boundaries:
/// starting from a halfword-aligned `pc`, the plain two- or four-byte
/// advance and every branch rule all leave `pc` halfword-aligned, on
/// success and on failure alike.  (Which of those applies is pinned
/// exactly, case by case, by `cycle_post`.)
pub proof fn lemma_pc_stays_aligned(pre: VmView, post: VmView, r: Result<u32, NarmError>)
    requires
        vm_inv(pre),
        pre.pc % 2 == 0,
        cycle_post(pre, post, r),
    ensures
        post.pc % 2 == 0,
{
    reveal(cycle_post);
    let vpc = u32_mod(pre.pc + 4);
    let s0 = VmView { virtual_pc: vpc, last_pc: pre.pc, ..pre };
    lemma_u32_mod_even(pre.pc + 4);
    lemma_u32_mod_even(pre.pc + 2);
    if read_check(pre.mem, pre.pc, 2) is None {
        let op = word16_of(read_bytes(pre.mem, pre.pc, 2));
        let s1 = VmView { pc: u32_mod(pre.pc + 2), ..s0 };
        lemma_u32_mod_even(s1.pc + 2);
        if spec_is_32bit_opcode(op) {
            if read_check(s1.mem, s1.pc, 2) is None {
                let full = ((op as u32) * 0x10000 + word16_of(read_bytes(s1.mem, s1.pc, 2))) as u32;
                let s2 = VmView { pc: u32_mod(s1.pc + 2), ..s1 };
                if full & 0xF800_D000u32 == 0xF000_D000u32 {
                    let sbit = full & 0x0400_0000u32 != 0;
                    let imm10 = (full >> 16) & 0x3FF;
                    let j1 = full & 0x2000u32 != 0;
                    let j2 = full & 0x800u32 != 0;
                    let imm11 = full & 0x7FF;
                    let i1 = j1 == sbit;
                    let i2 = j2 == sbit;
                    lemma_bl_value_even(sbit, i1, i2, imm10, imm11);
                    lemma_sign_extend_even(bl_value(sbit, i1, i2, imm10, imm11), 25);
                    lemma_u32_mod_even(
                        vpc + spec_sign_extend32(bl_value(sbit, i1, i2, imm10, imm11), 25),
                    );
                }
            }
        } else {
            lemma_step16_pc_aligned(s1, post, op, r);
        }
    }
}

/// A two-register instruction never writes the program counter.
proof fn lemma_r3r3_pc(s: VmView, post: VmView, op: u16, r: Result<u32, NarmError>)
    requires
        r3r3_matches(op),
        r3r3_post(s, post, op, r),
    ensures
        post.pc == s.pc,
{
}

/// A three-register instruction never writes the program counter.
proof fn lemma_r3r3r3_pc(s: VmView, post: VmView, op: u16, r: Result<u32, NarmError>)
    requires
        r3r3r3_matches(op),
        r3r3r3_post(s, post, op, r),
    ensures
        post.pc == s.pc,
{
}

/// A shift- or offset-immediate instruction never writes the program
/// counter.
proof fn lemma_imm5_pc(s: VmView, post: VmView, op: u16, r: Result<u32, NarmError>)
    requires
        imm5_matches(op),
        imm5_post(s, post, op, r),
    ensures
        post.pc == s.pc,
{
}

/// A register-plus-immediate instruction keeps the program counter
/// halfword-aligned: only the unconditional branch writes it, with an even
/// displacement from the even virtual program counter.
proof fn lemma_r3imm8_pc(s: VmView, post: VmView, op: u16, r: Result<u32, NarmError>)
    requires
        vm_inv(s),
        s.pc % 2 == 0,
        s.virtual_pc % 2 == 0,
        r3imm8_matches(op),
        r3imm8_post(s, post, op, r),
    ensures
        post.pc % 2 == 0,
{
    let v = op & 0xF800u16;
    if v == 0xC800 || v == 0xC000 {
        let reg = ((op >> 8) & 7) as int;
        let list = (op & 0xFF) as u8;
        lemma_load_seq_frame(s, s.sreg[reg], list, 0);
        lemma_store_seq_frame(s, s.sreg[reg], list, 0);
    } else if v == 0xE000 {
        let field = (op & 0x7FF) as u32;
        lemma_sign_extend_even((2 * field) as u32, 12);
        lemma_u32_mod_even(s.virtual_pc + spec_sign_extend32((2 * field) as u32, 12));
    }
}

/// A high-register instruction keeps the program counter halfword-aligned:
/// a write to r15 goes through the bit-clearing redirect.
proof fn lemma_n1r4_pc(s: VmView, post: VmView, op: u16, r: Result<u32, NarmError>)
    requires
        s.pc % 2 == 0,
        n1r4_matches(op),
        n1r4_post(s, post, op, r),
    ensures
        post.pc % 2 == 0,
{
    let reg1h = ((op >> 3) & 0xF) as int;
    let reg2h = (((op >> 7) & 1) * 8 + (op & 7)) as int;
    crate::decode::lemma_field_bounds(op);
    lemma_set_reg_pc(s, 13, add_result(spec_get_reg(s, 13), spec_get_reg(s, reg1h), false));
    lemma_set_reg_pc(s, reg2h, add_result(spec_get_reg(s, 13), spec_get_reg(s, reg2h), false));
    lemma_set_reg_pc(s, reg2h, add_result(spec_get_reg(s, reg2h), spec_get_reg(s, reg1h), false));
    lemma_set_reg_pc(s, reg2h, spec_get_reg(s, reg1h));
}

/// A conditional branch keeps the program counter halfword-aligned: the
/// displacement added to the even virtual program counter is doubled.
proof fn lemma_c4imm8_pc(s: VmView, post: VmView, op: u16, r: Result<u32, NarmError>)
    requires
        s.pc % 2 == 0,
        s.virtual_pc % 2 == 0,
        c4imm8_matches(op),
        c4imm8_post(s, post, op, r),
    ensures
        post.pc % 2 == 0,
{
    let imm = (op & 0xFF) as u32;
    lemma_u32_mod_even(s.virtual_pc + 2 * spec_sign_extend32(imm, 8));
}

/// PUSH and POP keep the program counter halfword-aligned: only the
/// PC-popping form writes it, through the bit-clearing r15 redirect.
proof fn lemma_x1rl8_pc(s: VmView, post: VmView, op: u16, r: Result<u32, NarmError>)
    requires
        vm_inv(s),
        s.pc % 2 == 0,
        x1rl8_matches(op),
        x1rl8_post(s, post, op, r),
    ensures
        post.pc % 2 == 0,
{
    let extra = op & 0x100u16 != 0;
    let list = (op & 0xFF) as u8;
    lemma_load_seq_frame(s, s.lreg[5], list, 0);
    let f = load_seq(s, s.lreg[5], list, 0);
    if op & 0xFE00u16 == 0xBC00 && f.2 is None {
        if extra && read_check(f.0.mem, f.1, 4) is None {
            lemma_set_reg_pc(f.0, 15, word32_of(read_bytes(f.0.mem, f.1, 4)));
            lemma_set_reg_pc(
                spec_set_reg(f.0, 15, word32_of(read_bytes(f.0.mem, f.1, 4))),
                13,
                u32_mod(f.1 + 4),
            );
        } else {
            lemma_set_reg_pc(f.0, 13, f.1);
        }
    }
    let start = u32_mod(
        s.lreg[5] - 4 * (popcount8(list) + (if extra {
            1int
        } else {
            0int
        })),
    );
    lemma_store_seq_frame(s, start, list, 0);
}

/// BX and BLX keep the program counter halfword-aligned through the
/// bit-clearing r15 redirect.
proof fn lemma_r4q3_pc(s: VmView, post: VmView, op: u16, r: Result<u32, NarmError>)
    requires
        s.pc % 2 == 0,
        r4q3_matches(op),
        r4q3_post(s, post, op, r),
    ensures
        post.pc % 2 == 0,
{
    let reg = ((op >> 3) & 0xF) as int;
    let value = spec_get_reg(s, reg);
    lemma_set_reg_pc(s, 15, value);
    let lr = u32_mod(s.virtual_pc - 2) | 1;
    lemma_set_reg_pc(spec_set_reg(s, 14, lr), 15, value);
}

/// The 16-bit dispatch keeps a halfword-aligned program counter aligned.
#[verifier::rlimit(60)]
proof fn lemma_step16_pc_aligned(s: VmView, post: VmView, op: u16, r: Result<u32, NarmError>)
    requires
        vm_inv(s),
        s.pc % 2 == 0,
        s.virtual_pc % 2 == 0,
        step16_post(s, post, op, r),
    ensures
        post.pc % 2 == 0,
{
    if op & 0xFF00u16 == 0xBF00 || op & 0xFF00u16 == 0xDE00 {
    } else if r3imm8_matches(op) {
        lemma_r3imm8_pc(s, post, op, r);
    } else if spadj_matches(op) {
    } else if r3r3_matches(op) {
        lemma_r3r3_pc(s, post, op, r);
    } else if r3r3r3_matches(op) {
        lemma_r3r3r3_pc(s, post, op, r);
    } else if n1r4_matches(op) {
        lemma_n1r4_pc(s, post, op, r);
    } else if imm5_matches(op) {
        lemma_imm5_pc(s, post, op, r);
    } else if c4imm8_matches(op) {
        lemma_c4imm8_pc(s, post, op, r);
    } else if x1rl8_matches(op) {
        lemma_x1rl8_pc(s, post, op, r);
    } else if r4q3_matches(op) {
        lemma_r4q3_pc(s, post, op, r);
    }
}


/// A whole run: with no gas the machine stops with `OutOfGas`; otherwise
/// one unit of gas is consumed, one cycle runs, and the run ends right
/// there on an error or a nonzero service-call number, or continues from
/// the cycle's outcome.
pub open spec fn execute_post(pre: VmView, post: VmView, r: Result<u32, NarmError>) -> bool
    decreases pre.gas,
{
    if pre.gas == 0 {
        post == pre && r == Result::<u32, NarmError>::Err(NarmError::OutOfGas)
    } else {
        let pre1 = VmView { gas: (pre.gas - 1) as u64, ..pre };
        exists|mid: VmView, c: Result<u32, NarmError>|
            {
                &&& #[trigger] cycle_post(pre1, mid, c)
                &&& mid.gas == pre1.gas
                &&& match c {
                    Result::Ok(code) => if code > 0 {
                        post == mid && r == Result::<u32, NarmError>::Ok(code)
                    } else {
                        execute_post(mid, post, r)
                    },
                    Result::Err(e) => post == mid && r == Result::<u32, NarmError>::Err(e),
                }
            }
    }
}

/// The four condition flags packed into bits 31..28 of a status word
pub open spec fn spec_cpsr_word(n: bool, z: bool, c: bool, v: bool) -> u32 {
    ((if n {
        0x8000_0000u32
    } else {
        0u32
    }) + (if z {
        0x4000_0000u32
    } else {
        0u32
    }) + (if c {
        0x2000_0000u32
    } else {
        0u32
    }) + (if v {
        0x1000_0000u32
    } else {
        0u32
    })) as u32
}


/// The predicate table for conditional branches: EQ, NE, CS, CC, MI, PL,
/// VS, VC, HI, LS, GE, LT, GT, LE, and AL (always) for code 14.
pub open spec fn spec_condition_passes(cond: u32, n: bool, z: bool, c: bool, v: bool) -> bool {
    if cond == 0 {
        z
    } else if cond == 1 {
        !z
    } else if cond == 2 {
        c
    } else if cond == 3 {
        !c
    } else if cond == 4 {
        n
    } else if cond == 5 {
        !n
    } else if cond == 6 {
        v
    } else if cond == 7 {
        !v
    } else if cond == 8 {
        c && !z
    } else if cond == 9 {
        !c || z
    } else if cond == 10 {
        n == v
    } else if cond == 11 {
        n != v
    } else if cond == 12 {
        !z && (n == v)
    } else if cond == 13 {
        z || (n != v)
    } else if cond == 14 {
        true
    } else {
        false
    }
}

/// The N (negative), Z (zero), C (carry) and V (signed overflow) flags
pub struct CPSR {
    pub n: bool,
    pub z: bool,
    pub c: bool,
    pub v: bool,
}

impl Default for CPSR {
    fn default() -> (r: Self)
        ensures
            !r.n && !r.z && !r.c && !r.v,
    {
        CPSR { n: false, z: false, c: false, v: false }
    }
}

impl CPSR {
    pub fn get_cpsr(&self) -> (r: u32)
        ensures
            r == spec_cpsr_word(self.n, self.z, self.c, self.v),
    {
        (if self.n {
            0x8000_0000u32
        } else {
            0u32
        }) + (if self.z {
            0x4000_0000u32
        } else {
            0u32
        }) + (if self.c {
            0x2000_0000u32
        } else {
            0u32
        }) + (if self.v {
            0x1000_0000u32
        } else {
            0u32
        })
    }

    pub fn set_cpsr(&mut self, value: u32)
        ensures
            final (self).n == (value & 0x8000_0000u32 != 0),
            final (self).z == (value & 0x4000_0000u32 != 0),
            final (self).c == (value & 0x2000_0000u32 != 0),
            final (self).v == (value & 0x1000_0000u32 != 0),
    {
        self.n = value & 0x8000_0000u32 > 0;
        self.z = value & 0x4000_0000u32 > 0;
        self.c = value & 0x2000_0000u32 > 0;
        self.v = value & 0x1000_0000u32 > 0;
    }
}

/// The ARMv6-M virtual machine: register file, condition flags, program
/// counters, gas counter, and the memory it executes from.
///
/// The program-counter model follows the architecture reference: a read of
/// r15 yields the current instruction's address plus four (`virtual_pc`),
/// ADR and PC-relative loads word-align that value before use, and a write
/// to r15 discards only the low bit (the Thumb-mode flag), so branches can
/// land on any halfword boundary.  Writes to r13 clear the low two bits.
pub struct NarmVM {
    /// "short registers". General registers r0-r7.
    sreg: Vec<u32>,
    /// General registers r8-r14 (r15 is PC).  Note r13 has special logic
    /// around it for keeping the bottom 2 bits cleared.
    long_registers: Vec<u32>,
    /// Program counter.  In ARMv6-M it has enough special cases that reading
    /// and writing it is done with care and custom logic.
    pc: u32,
    /// "Virtual" program counter: the value of PC which is used for all
    /// opcode purposes (ie, four ahead of the current instruction's address)
    virtual_pc: u32,
    /// "Last" program counter: points at the instruction which was just
    /// executed.  Used for error tracking purposes.
    last_pc: u32,
    /// CPSR register, which contains the 4 logic flags
    pub cpsr: CPSR,
    /// Gas counter; `OutOfGas` is reserved for a future charging policy
    pub gas_remaining: u64,
    pub memory: MemorySystem,
}

impl View for NarmVM {
    type V = VmView;

    closed spec fn view(&self) -> VmView {
        VmView {
            sreg: self.sreg@,
            lreg: self.long_registers@,
            pc: self.pc,
            virtual_pc: self.virtual_pc,
            last_pc: self.last_pc,
            n: self.cpsr.n,
            z: self.cpsr.z,
            c: self.cpsr.c,
            v: self.cpsr.v,
            gas: self.gas_remaining,
            mem: self.memory@,
        }
    }
}

impl Default for NarmVM {
    fn default() -> (r: Self)
        ensures
            r.inv(),
            r@ == (VmView {
                sreg: Seq::new(8, |i: int| 0u32),
                lreg: Seq::new(7, |i: int| 0u32),
                pc: 0,
                virtual_pc: 0,
                last_pc: 0,
                n: false,
                z: false,
                c: false,
                v: false,
                gas: 0,
                mem: Seq::<SegView>::empty(),
            }),
    {
        let mut sreg: Vec<u32> = Vec::new();
        let mut i: usize = 0;
        while i < 8
            invariant
                i <= 8,
                sreg@ =~= Seq::new(i as nat, |j: int| 0u32),
            decreases 8 - i,
        {
            sreg.push(0);
            i = i + 1;
        }
        let mut long_registers: Vec<u32> = Vec::new();
        let mut k: usize = 0;
        while k < 7
            invariant
                k <= 7,
                long_registers@ =~= Seq::new(k as nat, |j: int| 0u32),
            decreases 7 - k,
        {
            long_registers.push(0);
            k = k + 1;
        }
        let r = NarmVM {
            sreg,
            long_registers,
            pc: 0,
            virtual_pc: 0,
            last_pc: 0,
            cpsr: CPSR::default(),
            gas_remaining: 0,
            memory: MemorySystem::default(),
        };
        proof {
            assert(r@ =~~= VmView {
                sreg: Seq::new(8, |i: int| 0u32),
                lreg: Seq::new(7, |i: int| 0u32),
                pc: 0,
                virtual_pc: 0,
                last_pc: 0,
                n: false,
                z: false,
                c: false,
                v: false,
                gas: 0,
                mem: Seq::<SegView>::empty(),
            });
        }
        r
    }
}

impl NarmVM {
    /// The machine is well formed (see `vm_inv`)
    pub open spec fn inv(&self) -> bool {
        vm_inv(self@)
    }


    /// All add, subtract, compare and reverse-subtract instructions funnel
    /// through this primitive.  It computes the full three-way sum
    /// `operand1 + operand2 + carry_in` once, with wrap, and when
    /// `set_flags` holds it sets N to bit 31 of the result, Z to the result
    /// being zero, C to the unsigned overflow of the sum and V to its
    /// signed overflow.
    fn op_add(&mut self, operand1: u32, operand2: u32, carry_in: bool, set_flags: bool) -> (r: u32)
        ensures
            r == add_result(operand1, operand2, carry_in),
            final (self)@ == (if set_flags {
                with_add_flags(old(self)@, operand1, operand2, carry_in)
            } else {
                old(self)@
            }),
            set_flags ==> final (self)@.n == bit31(r) && final (self)@.z == (r == 0),
    {
        let c01: u64 = if carry_in {
            1u64
        } else {
            0u64
        };
        let sum: u64 = operand1 as u64 + operand2 as u64 + c01;
        let result: u32 = (sum % 0x1_0000_0000) as u32;
        if set_flags {
            let os1: i64 = if operand1 >= 0x8000_0000 {
                operand1 as i64 - 0x1_0000_0000i64
            } else {
                operand1 as i64
            };
            let os2: i64 = if operand2 >= 0x8000_0000 {
                operand2 as i64 - 0x1_0000_0000i64
            } else {
                operand2 as i64
            };
            let ss: i64 = os1 + os2 + c01 as i64;
            self.cpsr.v = ss > 0x7FFF_FFFFi64 || ss < -0x8000_0000i64;
            self.cpsr.c = sum >= 0x1_0000_0000;
            proof {
                lemma_bit31_is_ge(result);
            }
            self.cpsr.n = result >= 0x8000_0000;
            self.cpsr.z = result == 0;
        }
        result
    }

    /// Set N and Z from `result`, leaving C and V untouched: N holds
    /// exactly when bit 31 of the result is set, Z exactly when the result
    /// is zero
    fn set_result_flags(&mut self, result: u32)
        ensures
            final (self)@ == with_nz(old(self)@, result),
            final (self)@.n == bit31(result),
            final (self)@.z == (result == 0),
    {
        proof {
            lemma_bit31_is_ge(result);
        }
        self.cpsr.n = result >= 0x8000_0000;
        self.cpsr.z = result == 0;
    }

    /// The branch predicate for a 4-bit condition code, over the current
    /// flags
    fn condition_passes(&self, condition: u32) -> (r: bool)
        ensures
            r == spec_condition_passes(condition, self@.n, self@.z, self@.c, self@.v),
    {
        let c = self.cpsr.c;
        let n = self.cpsr.n;
        let v = self.cpsr.v;
        let z = self.cpsr.z;
        match condition {
            0b0000u32 => z,
            0b0001u32 => !z,
            0b0010u32 => c,
            0b0011u32 => !c,
            0b0100u32 => n,
            0b0101u32 => !n,
            0b0110u32 => v,
            0b0111u32 => !v,
            0b1000u32 => c && !z,
            0b1001u32 => !c || z,
            0b1010u32 => n == v,
            0b1011u32 => n != v,
            0b1100u32 => !z && (n == v),
            0b1101u32 => z || (n != v),
            0b1110u32 => true,  //undefined in ARMv6-M? Means ALWAYS otherwise
            0b1111u32 => false,  //means SVC, shouldn't be done here
            _ => false,  //should never happen
        }
    }


    /// `a + b` with 32-bit wrap
    fn add_wrap(a: u32, b: u32) -> (r: u32)
        ensures
            r == u32_mod(a + b),
    {
        (((a as u64) + (b as u64)) % 0x1_0000_0000) as u32
    }

    /// `a - b` with 32-bit wrap
    fn sub_wrap(a: u32, b: u32) -> (r: u32)
        ensures
            r == u32_mod(a - b),
    {
        ((((a as u64) + 0x1_0000_0000) - (b as u64)) % 0x1_0000_0000) as u32
    }


    /// The two-register instructions (ADC, AND, shifts, MOV, MUL, the REV
    /// family, TST, the extends, ...)
    fn exec_r3_r3(&mut self, opcode: u16) -> (r: Option<Result<u32, NarmError>>)
        requires
            old(self).inv(),
        ensures
            final (self).inv(),
            final (self)@.gas == old(self)@.gas,
            match r {
                Option::Some(res) => r3r3_matches(opcode) && r3r3_post(
                    old(self)@,
                    final (self)@,
                    opcode,
                    res,
                ),
                Option::None => !r3r3_matches(opcode) && final (self)@ == old(self)@,
            },
    {
        let op = opcode & 0xFFC0;
        let (reg1, reg2) = decode_r3_r3(opcode);
        let valuen = self.sreg[reg2];
        let valuem = self.sreg[reg1];

        match op {
            //ADC reg T1 flags
            0x4140u16 => {
                let result = self.op_add(valuem, valuen, self.cpsr.c, true);
                self.sreg.set(reg2, result);
                Option::Some(Result::Ok(0))
            },
            //AND reg T1 flags
            0x4000u16 => {
                let result = valuen & valuem;
                self.sreg.set(reg2, result);
                self.set_result_flags(result);
                Option::Some(Result::Ok(0))
            },
            //ASRS reg T1 flags
            0x4100u16 => {
                let a = valuem & 0xFF;
                let neg = valuen >= 0x8000_0000;
                proof {
                    lemma_bit31_is_ge(valuen);
                }
                let (result, carry) = if a == 0 {
                    (valuen, self.cpsr.c)
                } else if a < 32 {
                    let filled = if neg {
                        (valuen >> a) | (0xFFFF_FFFFu32 << (32 - a))
                    } else {
                        valuen >> a
                    };
                    (filled, valuen & (1u32 << (a - 1)) != 0)
                } else {
                    (if neg {
                        0xFFFF_FFFFu32
                    } else {
                        0u32
                    }, neg)
                };
                self.sreg.set(reg2, result);
                self.set_result_flags(result);
                self.cpsr.c = carry;
                Option::Some(Result::Ok(0))
            },
            //BICS T1 flags
            0x4380u16 => {
                let result = valuen & !valuem;
                self.sreg.set(reg2, result);
                self.set_result_flags(result);
                Option::Some(Result::Ok(0))
            },
            //CMN T1 flags
            0x42C0u16 => {
                let _result = self.op_add(valuen, valuem, false, true);
                Option::Some(Result::Ok(0))
            },
            //CMP reg T1
            0x4280u16 => {
                let _result = self.op_add(valuen, !valuem, true, true);
                Option::Some(Result::Ok(0))
            },
            //EORS reg T1 flags
            0x4040u16 => {
                let result = valuen ^ valuem;
                self.sreg.set(reg2, result);
                self.set_result_flags(result);
                Option::Some(Result::Ok(0))
            },
            //LSL reg T1 flags
            0x4080u16 => {
                let a = valuem & 0xFF;
                let (result, carry) = if a == 0 {
                    (valuen, self.cpsr.c)
                } else if a < 32 {
                    ((valuen << a), valuen & (1u32 << (32 - a)) != 0)
                } else if a == 32 {
                    (0u32, valuen & 1 != 0)
                } else {
                    (0u32, false)
                };
                self.sreg.set(reg2, result);
                self.set_result_flags(result);
                self.cpsr.c = carry;
                Option::Some(Result::Ok(0))
            },
            //LSR reg T1 flags
            0x40C0u16 => {
                let a = valuem & 0xFF;
                proof {
                    lemma_bit31_is_ge(valuen);
                }
                let (result, carry) = if a == 0 {
                    (valuen, self.cpsr.c)
                } else if a < 32 {
                    ((valuen >> a), valuen & (1u32 << (a - 1)) != 0)
                } else if a == 32 {
                    (0u32, valuen >= 0x8000_0000)
                } else {
                    (0u32, false)
                };
                self.sreg.set(reg2, result);
                self.set_result_flags(result);
                self.cpsr.c = carry;
                Option::Some(Result::Ok(0))
            },
            //MOV reg T1 noflags (this arm only reaches r0-r7)
            0x4600u16 => {
                self.sreg.set(reg2, valuem);
                Option::Some(Result::Ok(0))
            },
            //MOVS reg T2 flags
            0x0000u16 => {
                //NOTE: this shares the same identifying "mask" as LSL imm T1.
                self.sreg.set(reg2, valuem);
                self.set_result_flags(valuem);
                Option::Some(Result::Ok(0))
            },
            //MUL T1 flags
            0x4340u16 => {
                proof {
                    assert((valuen as u64) * (valuem as u64) <= 0xFFFF_FFFFu64 * 0xFFFF_FFFFu64)
                        by (nonlinear_arith)
                        requires
                            valuen as u64 <= 0xFFFF_FFFFu64 && valuem as u64 <= 0xFFFF_FFFFu64,
                    ;
                }
                let result = (((valuen as u64) * (valuem as u64)) % 0x1_0000_0000) as u32;
                self.sreg.set(reg2, result);
                self.set_result_flags(result);
                Option::Some(Result::Ok(0))
            },
            //MVNS T1 flags
            0x43C0u16 => {
                self.sreg.set(reg2, !valuem);
                self.set_result_flags(!valuem);
                Option::Some(Result::Ok(0))
            },
            //ORRS reg T1 flags
            0x4300u16 => {
                let result = valuen | valuem;
                self.sreg.set(reg2, result);
                self.set_result_flags(result);
                Option::Some(Result::Ok(0))
            },
            //REV T1
            0xBA00u16 => {
                //Operation is to turn 0x11223344 into 0x44332211
                let result = ((valuem & 0xFF) << 24) | ((valuem & 0xFF00) << 8) | ((valuem
                    & 0xFF0000) >> 8) | ((valuem & 0xFF000000) >> 24);
                self.sreg.set(reg2, result);
                Option::Some(Result::Ok(0))
            },
            //REV16 T1
            0xBA40u16 => {
                //operation is to turn 0x11223344 into 0x22114433
                let result = ((valuem & 0xFF) << 8) | ((valuem & 0xFF00) >> 8) | ((valuem
                    & 0xFF0000) << 8) | ((valuem & 0xFF000000) >> 8);
                self.sreg.set(reg2, result);
                Option::Some(Result::Ok(0))
            },
            //REVSH T1
            0xBAC0u16 => {
                //Byte-Reverse Signed Halfword: reverse the bytes of the low
                //halfword and sign extend the result to 32 bits
                let hi = if valuem & 0xFF >= 0x80 {
                    ((valuem & 0xFF) << 8) | 0xFFFF_0000u32
                } else {
                    (valuem & 0xFF) << 8
                };
                let result = hi | ((valuem & 0xFF00) >> 8);
                self.sreg.set(reg2, result);
                Option::Some(Result::Ok(0))
            },
            //ROR reg T1 flags
            0x41C0u16 => {
                let shift = valuem % 32;
                let result = if shift == 0 {
                    valuen
                } else {
                    (valuen >> shift) | (valuen << (32 - shift))
                };
                self.sreg.set(reg2, result);
                //carry behavior is under-documented; bit 31 of the result
                //is used, matching some vendor documentation
                proof {
                    lemma_bit31_is_ge(result);
                }
                self.cpsr.c = result >= 0x8000_0000;
                self.set_result_flags(result);
                Option::Some(Result::Ok(0))
            },
            //RSB imm T1 flags (note: imm is forced to 0 for ARMv6-M)
            0x4240u16 => {
                let result = self.op_add(!valuem, 0, true, true);
                self.sreg.set(reg2, result);
                Option::Some(Result::Ok(0))
            },
            //SBCS T1 flags
            0x4180u16 => {
                let result = self.op_add(valuen, !valuem, self.cpsr.c, true);
                self.sreg.set(reg2, result);
                Option::Some(Result::Ok(0))
            },
            //SXTB T1
            0xB240u16 => {
                proof {
                    lemma_mask_bounds(valuem);
                }
                let low = valuem & 0xFF;
                let result = if low >= 0x80 {
                    low + 0xFFFF_FF00
                } else {
                    low
                };
                self.sreg.set(reg2, result);
                Option::Some(Result::Ok(0))
            },
            //SXTH T1
            0xB200u16 => {
                proof {
                    lemma_mask_bounds(valuem);
                }
                let low = valuem & 0xFFFF;
                let result = if low >= 0x8000 {
                    low + 0xFFFF_0000
                } else {
                    low
                };
                self.sreg.set(reg2, result);
                Option::Some(Result::Ok(0))
            },
            //TST reg T1 flags
            0x4200u16 => {
                let result = valuen & valuem;
                //result is not written back
                self.set_result_flags(result);
                Option::Some(Result::Ok(0))
            },
            //UXTB T1
            0xB2C0u16 => {
                self.sreg.set(reg2, valuem & 0xFF);
                Option::Some(Result::Ok(0))
            },
            //UXTH T1
            0xB280u16 => {
                self.sreg.set(reg2, valuem & 0xFFFF);
                Option::Some(Result::Ok(0))
            },
            _ => Option::None,
        }
    }


    /// The three-register instructions: ADDS/SUBS with register or 3-bit
    /// immediate, and the register-offset loads and stores
    fn exec_r3_r3_r3(&mut self, opcode: u16) -> (r: Option<Result<u32, NarmError>>)
        requires
            old(self).inv(),
        ensures
            final (self).inv(),
            final (self)@.gas == old(self)@.gas,
            match r {
                Option::Some(res) => r3r3r3_matches(opcode) && r3r3r3_post(
                    old(self)@,
                    final (self)@,
                    opcode,
                    res,
                ),
                Option::None => !r3r3r3_matches(opcode) && final (self)@ == old(self)@,
            },
    {
        let op = opcode & 0xFE00;
        let (reg1, reg2, reg3) = decode_r3_r3_r3(opcode);
        let valuem = self.sreg[reg1];
        let valuen = self.sreg[reg2];
        let address = Self::add_wrap(valuen, valuem);
        //reg3 is almost always the destination register
        match op {
            //ADDS reg T1 flags
            0x1800u16 => {
                let result = self.op_add(valuen, valuem, false, true);
                self.sreg.set(reg3, result);
                Option::Some(Result::Ok(0))
            },
            //LDR reg T1
            0x5800u16 => {
                match self.memory.get_u32(address) {
                    Result::Ok(value) => {
                        self.sreg.set(reg3, value);
                        Option::Some(Result::Ok(0))
                    },
                    Result::Err(e) => Option::Some(Result::Err(e)),
                }
            },
            //LDRB reg T1
            0x5C00u16 => {
                match self.memory.get_u8(address) {
                    Result::Ok(value) => {
                        self.sreg.set(reg3, value as u32);
                        Option::Some(Result::Ok(0))
                    },
                    Result::Err(e) => Option::Some(Result::Err(e)),
                }
            },
            //LDRH reg T1
            0x5A00u16 => {
                match self.memory.get_u16(address) {
                    Result::Ok(value) => {
                        self.sreg.set(reg3, value as u32);
                        Option::Some(Result::Ok(0))
                    },
                    Result::Err(e) => Option::Some(Result::Err(e)),
                }
            },
            //LDRSB reg T1
            0x5600u16 => {
                match self.memory.get_u8(address) {
                    Result::Ok(value) => {
                        let extended = if value >= 0x80 {
                            value as u32 + 0xFFFF_FF00
                        } else {
                            value as u32
                        };
                        self.sreg.set(reg3, extended);
                        Option::Some(Result::Ok(0))
                    },
                    Result::Err(e) => Option::Some(Result::Err(e)),
                }
            },
            //LDRSH reg T1
            0x5E00u16 => {
                match self.memory.get_u16(address) {
                    Result::Ok(value) => {
                        let extended = if value >= 0x8000 {
                            value as u32 + 0xFFFF_0000
                        } else {
                            value as u32
                        };
                        self.sreg.set(reg3, extended);
                        Option::Some(Result::Ok(0))
                    },
                    Result::Err(e) => Option::Some(Result::Err(e)),
                }
            },
            //STR reg T1
            0x5000u16 => {
                match self.memory.set_u32(address, self.sreg[reg3]) {
                    Result::Ok(()) => Option::Some(Result::Ok(0)),
                    Result::Err(e) => Option::Some(Result::Err(e)),
                }
            },
            //STRB reg T1
            0x5400u16 => {
                proof {
                    lemma_mask_bounds(self@.sreg[reg3 as int]);
                }
                match self.memory.set_u8(address, (self.sreg[reg3] & 0xFF) as u8) {
                    Result::Ok(()) => Option::Some(Result::Ok(0)),
                    Result::Err(e) => Option::Some(Result::Err(e)),
                }
            },
            //STRH reg T1
            0x5200u16 => {
                proof {
                    lemma_mask_bounds(self@.sreg[reg3 as int]);
                }
                match self.memory.set_u16(address, (self.sreg[reg3] & 0xFFFF) as u16) {
                    Result::Ok(()) => Option::Some(Result::Ok(0)),
                    Result::Err(e) => Option::Some(Result::Err(e)),
                }
            },
            //SUBS reg T1 flags
            0x1A00u16 => {
                let result = self.op_add(valuen, !valuem, true, true);
                self.sreg.set(reg3, result);
                Option::Some(Result::Ok(0))
            },
            //SUBS imm T1 flags
            0x1E00u16 => {
                let imm3 = reg1 as u32;
                let result = self.op_add(valuen, !imm3, true, true);
                self.sreg.set(reg3, result);
                Option::Some(Result::Ok(0))
            },
            //ADD imm T1 flags
            0x1C00u16 => {
                let imm3 = reg1 as u32;
                let result = self.op_add(valuen, imm3, false, true);
                self.sreg.set(reg3, result);
                Option::Some(Result::Ok(0))
            },
            _ => Option::None,
        }
    }

    /// The high-register CMP, ADD and MOV forms
    fn exec_n1_r4_rn3(&mut self, opcode: u16) -> (r: Option<Result<u32, NarmError>>)
        requires
            old(self).inv(),
        ensures
            final (self).inv(),
            final (self)@.gas == old(self)@.gas,
            match r {
                Option::Some(res) => n1r4_matches(opcode) && n1r4_post(
                    old(self)@,
                    final (self)@,
                    opcode,
                    res,
                ),
                Option::None => !n1r4_matches(opcode) && final (self)@ == old(self)@,
            },
    {
        let op = opcode & 0xFF00;
        let (reg1, reg2) = decode_n1_r4_rn3(opcode);
        match op {
            //CMP reg T2
            0x4500u16 => {
                //Either register being PC (r15) is considered unpredictable
                //by the ARM architecture.  To prevent weirdness with later
                //upgrades, such an operand is forced to 0.
                let rm = if reg1.register == 15 {
                    0
                } else {
                    self.get_reg(&reg1)
                };
                let rn = if reg2.register == 15 {
                    0
                } else {
                    self.get_reg(&reg2)
                };
                self.op_add(rn, !rm, true, true);
                Option::Some(Result::Ok(0))
            },
            //ADD reg T2 noflags, with the SP sub-forms
            0x4400u16 => {
                //note! the order of testing reg1 vs reg2 against r13 is critical
                if reg1.register == 13 {
                    //ADD <Rdm>, SP, <Rdm>
                    let rm = self.get_reg(&reg2);
                    let sp = self.get_reg(&reg1);
                    let result = self.op_add(sp, rm, false, false);
                    self.set_reg(&reg2, result);
                } else if reg2.register == 13 {
                    //ADD SP, <Rm>
                    let rm = self.get_reg(&reg1);
                    let sp = self.get_reg(&reg2);
                    let result = self.op_add(sp, rm, false, false);
                    self.set_reg(&reg2, result);
                } else {
                    if reg1.register == 15 && reg2.register == 15 {
                        //listed as UNPREDICTABLE, so just exit here
                        return Option::Some(Result::Ok(0));
                    }
                    let rm = self.get_reg(&reg1);
                    let rn = self.get_reg(&reg2);
                    let result = self.op_add(rn, rm, false, false);
                    self.set_reg(&reg2, result);
                }
                Option::Some(Result::Ok(0))
            },
            //MOV reg T1 noflags
            0x4600u16 => {
                let value = self.get_reg(&reg1);
                self.set_reg(&reg2, value);
                Option::Some(Result::Ok(0))
            },
            _ => Option::None,
        }
    }

    /// The shift-immediate and offset-immediate loads, stores and shifts
    fn exec_imm5_r3_r3(&mut self, opcode: u16) -> (r: Option<Result<u32, NarmError>>)
        requires
            old(self).inv(),
        ensures
            final (self).inv(),
            final (self)@.gas == old(self)@.gas,
            match r {
                Option::Some(res) => imm5_matches(opcode) && imm5_post(
                    old(self)@,
                    final (self)@,
                    opcode,
                    res,
                ),
                Option::None => !imm5_matches(opcode) && final (self)@ == old(self)@,
            },
    {
        let op = opcode & 0xF800;
        let (imm, reg1, reg2) = decode_imm5_r3_r3(opcode);
        let value = self.sreg[reg1];
        match op {
            //ASR imm T1 flags
            0x1000u16 => {
                //shift_n = if imm5 == '00000' then 32 else UInt(imm5)
                let a = if imm == 0 {
                    32
                } else {
                    imm
                };
                let neg = value >= 0x8000_0000;
                proof {
                    lemma_bit31_is_ge(value);
                }
                let (result, carry) = if a < 32 {
                    let filled = if neg {
                        (value >> a) | (0xFFFF_FFFFu32 << (32 - a))
                    } else {
                        value >> a
                    };
                    (filled, value & (1u32 << (a - 1)) != 0)
                } else {
                    (if neg {
                        0xFFFF_FFFFu32
                    } else {
                        0u32
                    }, neg)
                };
                self.sreg.set(reg2, result);
                self.set_result_flags(result);
                self.cpsr.c = carry;
                Option::Some(Result::Ok(0))
            },
            //LDR imm T1
            0x6800u16 => {
                let address = Self::add_wrap(value, imm * 4);
                match self.memory.get_u32(address) {
                    Result::Ok(loaded) => {
                        self.sreg.set(reg2, loaded);
                        Option::Some(Result::Ok(0))
                    },
                    Result::Err(e) => Option::Some(Result::Err(e)),
                }
            },
            //LDRB imm T1
            0x7800u16 => {
                let address = Self::add_wrap(value, imm);
                match self.memory.get_u8(address) {
                    Result::Ok(loaded) => {
                        self.sreg.set(reg2, loaded as u32);
                        Option::Some(Result::Ok(0))
                    },
                    Result::Err(e) => Option::Some(Result::Err(e)),
                }
            },
            //LDRH imm T1
            0x8800u16 => {
                let address = Self::add_wrap(value, imm * 2);
                match self.memory.get_u16(address) {
                    Result::Ok(loaded) => {
                        self.sreg.set(reg2, loaded as u32);
                        Option::Some(Result::Ok(0))
                    },
                    Result::Err(e) => Option::Some(Result::Err(e)),
                }
            },
            //LSL imm T1 flags
            0x0000u16 => {
                //this shares its identifying mask with MOV reg T2: a zero
                //immediate is that move and is decoded by the two-register
                //family, which runs first
                if imm != 0 {
                    let (result, carry) = ((value << imm), value & (1u32 << (32 - imm)) != 0);
                    self.sreg.set(reg2, result);
                    self.set_result_flags(result);
                    self.cpsr.c = carry;
                    Option::Some(Result::Ok(0))
                } else {
                    Option::None
                }
            },
            //LSR imm T1 flags
            0x0800u16 => {
                let a = if imm == 0 {
                    32
                } else {
                    imm
                };
                proof {
                    lemma_bit31_is_ge(value);
                }
                let (result, carry) = if a < 32 {
                    ((value >> a), value & (1u32 << (a - 1)) != 0)
                } else {
                    (0u32, value >= 0x8000_0000)
                };
                self.sreg.set(reg2, result);
                self.set_result_flags(result);
                self.cpsr.c = carry;
                Option::Some(Result::Ok(0))
            },
            //STR imm T1
            0x6000u16 => {
                let address = Self::add_wrap(value, imm * 4);
                match self.memory.set_u32(address, self.sreg[reg2]) {
                    Result::Ok(()) => Option::Some(Result::Ok(0)),
                    Result::Err(e) => Option::Some(Result::Err(e)),
                }
            },
            //STRB imm T1
            0x7000u16 => {
                let address = Self::add_wrap(value, imm);
                proof {
                    lemma_mask_bounds(self@.sreg[reg2 as int]);
                }
                match self.memory.set_u8(address, (self.sreg[reg2] & 0xFF) as u8) {
                    Result::Ok(()) => Option::Some(Result::Ok(0)),
                    Result::Err(e) => Option::Some(Result::Err(e)),
                }
            },
            //STRH imm T1
            0x8000u16 => {
                let address = Self::add_wrap(value, imm * 2);
                proof {
                    lemma_mask_bounds(self@.sreg[reg2 as int]);
                }
                match self.memory.set_u16(address, (self.sreg[reg2] & 0xFFFF) as u16) {
                    Result::Ok(()) => Option::Some(Result::Ok(0)),
                    Result::Err(e) => Option::Some(Result::Err(e)),
                }
            },
            _ => Option::None,
        }
    }


    /// `base + off` with 32-bit wrap, for signed branch displacements
    fn add_off_wrap(base: u32, off: i64) -> (r: u32)
        requires
            -0xFFFF_FFFFi64 <= off <= 0xFFFF_FFFFi64,
        ensures
            r == u32_mod(base + off),
    {
        let t: i64 = base as i64 + off;
        let n: i64 = if t < 0 {
            t + 0x1_0000_0000i64
        } else if t >= 0x1_0000_0000i64 {
            t - 0x1_0000_0000i64
        } else {
            t
        };
        n as u32
    }

    /// Conditional branches and the supervisor call
    fn exec_c4_imm8(&mut self, opcode: u16) -> (r: Option<Result<u32, NarmError>>)
        requires
            old(self).inv(),
        ensures
            final (self).inv(),
            final (self)@.gas == old(self)@.gas,
            match r {
                Option::Some(res) => c4imm8_matches(opcode) && c4imm8_post(
                    old(self)@,
                    final (self)@,
                    opcode,
                    res,
                ),
                Option::None => !c4imm8_matches(opcode) && final (self)@ == old(self)@,
            },
    {
        if opcode & 0xF000 != 0xD000 {
            return Option::None;
        }
        let (cond, imm) = decode_c4_imm8(opcode);
        if cond == 0b1111 {
            //SVC opcode, so just exit with the specified code
            return Option::Some(Result::Ok(imm));
        }
        if self.condition_passes(cond) {
            let label = sign_extend32(imm, 8);
            proof {
                vstd::arithmetic::power2::lemma2_to64();
            }
            self.pc = Self::add_off_wrap(self.virtual_pc, 2 * (label as i64));
        }
        Option::Some(Result::Ok(0))
    }

    /// ADD SP, SP, #imm7 and SUB SP, SP, #imm7
    fn exec_sp_adjust(&mut self, opcode: u16) -> (r: Option<Result<u32, NarmError>>)
        requires
            old(self).inv(),
        ensures
            final (self).inv(),
            final (self)@.gas == old(self)@.gas,
            match r {
                Option::Some(res) => spadj_matches(opcode) && spadj_post(
                    old(self)@,
                    final (self)@,
                    opcode,
                    res,
                ),
                Option::None => !spadj_matches(opcode) && final (self)@ == old(self)@,
            },
    {
        if opcode & 0xFF00 != 0xB000 {
            return Option::None;
        }
        let imm = (opcode & 0x7F) as u32;
        let sp = self.get_sp();
        if opcode & 0x80 != 0 {
            //SUB SP-imm T1
            let target = Self::sub_wrap(sp, imm * 4);
            self.set_sp(target);
        } else {
            //ADD SP+imm T2
            let target = Self::add_wrap(sp, imm * 4);
            self.set_sp(target);
        }
        Option::Some(Result::Ok(0))
    }

    /// BX and BLX
    fn exec_r4_q3(&mut self, opcode: u16) -> (r: Option<Result<u32, NarmError>>)
        requires
            old(self).inv(),
        ensures
            final (self).inv(),
            final (self)@.gas == old(self)@.gas,
            match r {
                Option::Some(res) => r4q3_matches(opcode) && r4q3_post(
                    old(self)@,
                    final (self)@,
                    opcode,
                    res,
                ),
                Option::None => !r4q3_matches(opcode) && final (self)@ == old(self)@,
            },
    {
        let op = opcode & 0xFF80;
        let reg = decode_r4_q3(opcode);
        let value = self.get_reg(&reg);
        match op {
            //BX T1
            0x4700u16 => {
                let pc_reg = LongRegister { register: 15 };
                self.set_reg(&pc_reg, value);
                Option::Some(Result::Ok(0))
            },
            //BLX T1
            0x4780u16 => {
                let lr = LongRegister { register: 14 };
                self.set_reg(&lr, Self::sub_wrap(self.virtual_pc, 2) | 1);
                let pc_reg = LongRegister { register: 15 };
                self.set_reg(&pc_reg, value);
                Option::Some(Result::Ok(0))
            },
            _ => Option::None,
        }
    }


    /// Load consecutive words starting at `start` into the low registers
    /// whose bits are set in `list`, ascending.  Returns the address after
    /// the last transfer and the error that stopped the pass, if any; on an
    /// error the registers already loaded keep their new values.
    fn exec_load_seq(&mut self, start: u32, list: u8) -> (r: (u32, Option<NarmError>))
        requires
            old(self).inv(),
        ensures
            final (self).inv(),
            final (self)@.gas == old(self)@.gas,
            ({
                let f = load_seq(old(self)@, start, list, 0);
                final (self)@ == f.0 && r.0 == f.1 && r.1 == f.2
            }),
    {
        let mut address = start;
        let mut i: u8 = 0;
        while i < 8
            invariant
                self.inv(),
                self@.gas == old(self)@.gas,
                i <= 8,
                load_seq(self@, address, list, i) == load_seq(old(self)@, start, list, 0),
            decreases 8 - i,
        {
            if list.get_bit(i) {
                match self.memory.get_u32(address) {
                    Result::Ok(value) => {
                        self.sreg.set(i as usize, value);
                        address = Self::add_wrap(address, 4);
                    },
                    Result::Err(e) => {
                        return (address, Option::Some(e));
                    },
                }
            }
            i = i + 1;
        }
        (address, Option::None)
    }

    /// Store the low registers whose bits are set in `list` to consecutive
    /// words starting at `start`, ascending.  Returns the address after the
    /// last transfer and the error that stopped the pass, if any; on an
    /// error the words already stored keep their new values.
    fn exec_store_seq(&mut self, start: u32, list: u8) -> (r: (u32, Option<NarmError>))
        requires
            old(self).inv(),
        ensures
            final (self).inv(),
            final (self)@.gas == old(self)@.gas,
            ({
                let f = store_seq(old(self)@, start, list, 0);
                final (self)@ == f.0 && r.0 == f.1 && r.1 == f.2
            }),
    {
        let mut address = start;
        let mut i: u8 = 0;
        while i < 8
            invariant
                self.inv(),
                self@.gas == old(self)@.gas,
                i <= 8,
                store_seq(self@, address, list, i) == store_seq(old(self)@, start, list, 0),
            decreases 8 - i,
        {
            if list.get_bit(i) {
                match self.memory.set_u32(address, self.sreg[i as usize]) {
                    Result::Ok(()) => {
                        address = Self::add_wrap(address, 4);
                    },
                    Result::Err(e) => {
                        return (address, Option::Some(e));
                    },
                }
            }
            i = i + 1;
        }
        (address, Option::None)
    }


    /// The register-plus-8-bit-immediate instructions: PC/SP-relative loads
    /// and stores, MOV/ADD/SUB/CMP with an 8-bit immediate, ADR, LDM, STM
    /// and the unconditional branch
    fn exec_r3_imm8(&mut self, opcode: u16) -> (r: Option<Result<u32, NarmError>>)
        requires
            old(self).inv(),
        ensures
            final (self).inv(),
            final (self)@.gas == old(self)@.gas,
            match r {
                Option::Some(res) => r3imm8_matches(opcode) && r3imm8_post(
                    old(self)@,
                    final (self)@,
                    opcode,
                    res,
                ),
                Option::None => !r3imm8_matches(opcode) && final (self)@ == old(self)@,
            },
    {
        let op = opcode & 0xF800;
        proof {
            crate::decode::lemma_field_bounds(opcode);
        }
        let (reg, imm8) = decode_r3_imm8(opcode);
        let imm = imm8 as u32;
        match op {
            //LDR lit T1
            0x4800u16 => {
                let address = Self::add_wrap(self.virtual_pc.align4(), imm * 4);
                match self.memory.get_u32(address) {
                    Result::Ok(value) => {
                        self.sreg.set(reg, value);
                        Option::Some(Result::Ok(0))
                    },
                    Result::Err(e) => Option::Some(Result::Err(e)),
                }
            },
            //LDR imm T2
            0x9800u16 => {
                let address = Self::add_wrap(self.get_sp(), imm * 4);
                match self.memory.get_u32(address) {
                    Result::Ok(value) => {
                        self.sreg.set(reg, value);
                        Option::Some(Result::Ok(0))
                    },
                    Result::Err(e) => Option::Some(Result::Err(e)),
                }
            },
            //MOV imm T1 flags
            0x2000u16 => {
                self.sreg.set(reg, imm);
                //C and V flags unchanged
                self.set_result_flags(imm);
                Option::Some(Result::Ok(0))
            },
            //ADDS imm T2 flags
            0x3000u16 => {
                let result = self.op_add(self.sreg[reg], imm, false, true);
                self.sreg.set(reg, result);
                Option::Some(Result::Ok(0))
            },
            //ADD sp+imm T1 noflags
            0xA800u16 => {
                let result = self.op_add(self.get_sp(), imm * 4, false, false);
                self.sreg.set(reg, result);
                Option::Some(Result::Ok(0))
            },
            //ADR T1
            0xA000u16 => {
                let value = Self::add_wrap(self.virtual_pc.align4(), imm * 4);
                self.sreg.set(reg, value);
                Option::Some(Result::Ok(0))
            },
            //CMP imm T1
            0x2800u16 => {
                self.op_add(self.sreg[reg], !imm, true, true);  //result is unused
                Option::Some(Result::Ok(0))
            },
            //STR imm T2
            0x9000u16 => {
                let address = Self::add_wrap(self.get_sp(), imm * 4);
                match self.memory.set_u32(address, self.sreg[reg]) {
                    Result::Ok(()) => Option::Some(Result::Ok(0)),
                    Result::Err(e) => Option::Some(Result::Err(e)),
                }
            },
            //SUBS imm T2 flags
            0x3800u16 => {
                let result = self.op_add(self.sreg[reg], !imm, true, true);
                self.sreg.set(reg, result);
                Option::Some(Result::Ok(0))
            },
            //LDM T1
            0xC800u16 => {
                let reglist = imm8;  //imm is actually a reg list here
                let base = self.sreg[reg];
                let wback = !reglist.get_bit(reg as u8);
                let (address, err) = self.exec_load_seq(base, reglist);
                match err {
                    Option::Some(e) => Option::Some(Result::Err(e)),
                    Option::None => {
                        if wback {
                            self.sreg.set(reg, address);
                        }
                        Option::Some(Result::Ok(0))
                    },
                }
            },
            //STM T1
            0xC000u16 => {
                let reglist = imm8;  //imm is actually a reg list here
                let base = self.sreg[reg];
                let (address, err) = self.exec_store_seq(base, reglist);
                match err {
                    Option::Some(e) => Option::Some(Result::Err(e)),
                    Option::None => {
                        self.sreg.set(reg, address);
                        Option::Some(Result::Ok(0))
                    },
                }
            },
            //B T2
            0xE000u16 => {
                let field = (opcode & 0x7FF) as u32;
                let label = sign_extend32(field * 2, 12);
                proof {
                    vstd::arithmetic::power2::lemma2_to64();
                }
                self.pc = Self::add_off_wrap(self.virtual_pc, label as i64);
                Option::Some(Result::Ok(0))
            },
            _ => Option::None,
        }
    }

    /// PUSH and POP
    fn exec_x1_rl8(&mut self, opcode: u16) -> (r: Option<Result<u32, NarmError>>)
        requires
            old(self).inv(),
        ensures
            final (self).inv(),
            final (self)@.gas == old(self)@.gas,
            match r {
                Option::Some(res) => x1rl8_matches(opcode) && x1rl8_post(
                    old(self)@,
                    final (self)@,
                    opcode,
                    res,
                ),
                Option::None => !x1rl8_matches(opcode) && final (self)@ == old(self)@,
            },
    {
        let op = opcode & 0xFE00;
        let (extra, reglist) = decode_x1_rl8(opcode);
        match op {
            //POP T1 (the flag selects whether PC is popped too)
            0xBC00u16 => {
                let sp = self.get_sp();
                let (address, err) = self.exec_load_seq(sp, reglist);
                match err {
                    Option::Some(e) => Option::Some(Result::Err(e)),
                    Option::None => {
                        if extra {
                            //pop PC
                            match self.memory.get_u32(address) {
                                Result::Ok(value) => {
                                    let pc_reg = LongRegister { register: 15 };
                                    self.set_reg(&pc_reg, value);
                                    let after = Self::add_wrap(address, 4);
                                    self.set_sp(after);
                                    Option::Some(Result::Ok(0))
                                },
                                Result::Err(e) => Option::Some(Result::Err(e)),
                            }
                        } else {
                            self.set_sp(address);
                            Option::Some(Result::Ok(0))
                        }
                    },
                }
            },
            //PUSH T1 (the flag selects whether LR is pushed too)
            0xB400u16 => {
                proof {
                    lemma_bit_one_bounds(reglist);
                }
                let count: u32 = ((reglist & 1) as u32) + (((reglist >> 1) & 1) as u32) + (((
                reglist >> 2) & 1) as u32) + (((reglist >> 3) & 1) as u32) + (((reglist >> 4)
                    & 1) as u32) + (((reglist >> 5) & 1) as u32) + (((reglist >> 6) & 1) as u32) + (
                ((reglist >> 7) & 1) as u32);
                let total = if extra {
                    count + 1
                } else {
                    count
                };
                let start = Self::sub_wrap(self.get_sp(), 4 * total);
                proof {
                    lemma_store_seq_frame(self@, start, reglist, 0);
                }
                let (address, err) = self.exec_store_seq(start, reglist);
                match err {
                    Option::Some(e) => Option::Some(Result::Err(e)),
                    Option::None => {
                        if extra {
                            //push LR
                            let lr = self.long_registers[6];
                            match self.memory.set_u32(address, lr) {
                                Result::Ok(()) => {
                                    self.set_sp(start);
                                    Option::Some(Result::Ok(0))
                                },
                                Result::Err(e) => Option::Some(Result::Err(e)),
                            }
                        } else {
                            self.set_sp(start);
                            Option::Some(Result::Ok(0))
                        }
                    },
                }
            },
            _ => Option::None,
        }
    }


    /// Run exactly one instruction (see `cycle_post`).  Returns `Ok(0)` for
    /// a normal instruction, `Ok(n)` with the 8-bit immediate for an SVC,
    /// and an error for fetch failures, memory violations and invalid
    /// opcodes.
    pub fn cycle(&mut self) -> (r: Result<u32, NarmError>)
        requires
            old(self).inv(),
        ensures
            final (self).inv(),
            final (self)@.gas == old(self)@.gas,
            cycle_post(old(self)@, final (self)@, r),
    {
        proof {
            reveal(cycle_post);
        }
        self.virtual_pc = Self::add_wrap(self.pc, 4);
        self.last_pc = self.pc;
        let opcode = match self.memory.get_u16(self.pc) {
            Result::Ok(v) => v,
            Result::Err(e) => {
                return Result::Err(e);
            },
        };
        self.pc = Self::add_wrap(self.pc, 2);

        if is_32bit_opcode(opcode) {
            let hw2 = match self.memory.get_u16(self.pc) {
                Result::Ok(v) => v,
                Result::Err(e) => {
                    return Result::Err(e);
                },
            };
            self.pc = Self::add_wrap(self.pc, 2);
            let opcode32 = (opcode as u32) * 0x10000 + hw2 as u32;
            //BL T1 is the only 32-bit instruction implemented.  J is split
            //into J1 and J2; the whole displacement is
            //S:I1:I2:imm10:imm11:'0', sign extended, where
            //I1 = NOT(J1 EOR S) and I2 = NOT(J2 EOR S).
            if opcode32 & 0xF800_D000u32 == 0xF000_D000u32 {
                let (sbit, imm10, j1, j2, imm11) = decode32_x1_imm10_x1_x1_imm11(opcode32);
                let i1 = j1 == sbit;
                let i2 = j2 == sbit;
                let value = (if sbit {
                    1u32 << 24
                } else {
                    0u32
                }) | (if i1 {
                    1u32 << 23
                } else {
                    0u32
                }) | (if i2 {
                    1u32 << 22
                } else {
                    0u32
                }) | (imm10 << 12) | (imm11 << 1);
                let imm32 = sign_extend32(value, 25);
                let lr = LongRegister { register: 14 };
                self.set_reg(&lr, self.virtual_pc | 1);
                proof {
                    vstd::arithmetic::power2::lemma2_to64();
                }
                let target = Self::add_off_wrap(self.virtual_pc, imm32 as i64);
                self.set_pc(target);
                return Result::Ok(0);
            } else {
                //later support MSR/MRS?
                return Result::Err(NarmError::InvalidOpcode32(opcode32 & 0xF800_D000u32));
            }
        }
        self.step16(opcode)
    }

    /// The ordered 16-bit dispatch: try each encoding form and take the
    /// first that matches (see `step16_post`)
    fn step16(&mut self, opcode: u16) -> (r: Result<u32, NarmError>)
        requires
            old(self).inv(),
        ensures
            final (self).inv(),
            final (self)@.gas == old(self)@.gas,
            step16_post(old(self)@, final (self)@, opcode, r),
    {
        //NOP / HINT catch-all, and the always-faulting UDF pattern
        let hint = opcode & 0xFF00;
        if hint == 0xBF00 {
            return Result::Ok(0);
        }
        if hint == 0xDE00 {
            return Result::Err(NarmError::InvalidOpcode(hint));
        }
        if let Option::Some(res) = self.exec_r3_imm8(opcode) {
            return res;
        }
        if let Option::Some(res) = self.exec_sp_adjust(opcode) {
            return res;
        }
        if let Option::Some(res) = self.exec_r3_r3(opcode) {
            return res;
        }
        if let Option::Some(res) = self.exec_r3_r3_r3(opcode) {
            return res;
        }
        if let Option::Some(res) = self.exec_n1_r4_rn3(opcode) {
            return res;
        }
        if let Option::Some(res) = self.exec_imm5_r3_r3(opcode) {
            return res;
        }
        if let Option::Some(res) = self.exec_c4_imm8(opcode) {
            return res;
        }
        if let Option::Some(res) = self.exec_x1_rl8(opcode) {
            return res;
        }
        if let Option::Some(res) = self.exec_r4_q3(opcode) {
            return res;
        }
        Result::Err(NarmError::InvalidOpcode(opcode))
    }

    /// Run cycles until an SVC or an error (see `execute_post`).  Each cycle
    /// consumes one unit of gas, so a zero budget surfaces `OutOfGas`; the
    /// gas counter is monotonically non-increasing.  (Note there is no
    /// equivalent to the x86 `hlt` in ARM: only a service call or a fault
    /// stops the machine.)
    #[verifier::rlimit(100)]
    pub fn execute(&mut self) -> (r: Result<u32, NarmError>)
        requires
            old(self).inv(),
        ensures
            final (self).inv(),
            final (self)@.gas <= old(self)@.gas,
            execute_post(old(self)@, final (self)@, r),
            match r {
                Result::Ok(code) => code > 0,
                Result::Err(_) => true,
            },
    {
        loop
            invariant
                self.inv(),
                self@.gas <= old(self)@.gas,
                forall|post: VmView, r2: Result<u32, NarmError>|
                    execute_post(self@, post, r2) ==> execute_post(old(self)@, post, r2),
            decreases self.gas_remaining,
        {
            let ghost top = self@;
            if self.gas_remaining == 0 {
                proof {
                    assert(execute_post(top, top, Result::<u32, NarmError>::Err(
                        NarmError::OutOfGas,
                    )));
                }
                return Result::Err(NarmError::OutOfGas);
            }
            self.gas_remaining = self.gas_remaining - 1;
            let ghost pre1 = self@;
            let c = self.cycle();
            let ghost mid = self@;
            match c {
                Result::Ok(code) => {
                    if code > 0 {
                        proof {
                            assert(execute_post(top, mid, Result::<u32, NarmError>::Ok(code)));
                        }
                        return Result::Ok(code);
                    }
                    proof {
                        assert forall|post: VmView, r2: Result<u32, NarmError>|
                            execute_post(mid, post, r2) implies execute_post(top, post, r2) by {
                            assert(cycle_post(pre1, mid, Result::<u32, NarmError>::Ok(0u32)));
                        }
                    }
                },
                Result::Err(e) => {
                    proof {
                        assert(execute_post(top, mid, Result::<u32, NarmError>::Err(e)));
                    }
                    return Result::Err(e);
                },
            }
        }
    }

    /// This reads the address of the instruction which was just executed,
    /// kept for error reporting and ADR-style computations.
    pub fn get_last_pc(&self) -> (r: u32)
        ensures
            r == self@.last_pc,
    {
        self.last_pc
    }

    /// Set the program counter to exactly `value`
    pub fn set_pc(&mut self, value: u32)
        ensures
            final (self)@ == (VmView { pc: value, ..old(self)@ }),
    {
        self.pc = value;
    }

    /// Set the program counter from a Thumb-style address whose low bit
    /// carries the (discarded) Thumb-mode flag
    pub fn set_thumb_pc_address(&mut self, address: u32)
        ensures
            final (self)@ == (VmView { pc: address & 0xFFFF_FFFEu32, ..old(self)@ }),
    {
        self.pc = address & 0xFFFF_FFFEu32;
    }

    /// The current program counter, for diagnostics
    pub fn get_pc_address(&self) -> (r: u32)
        ensures
            r == self@.pc,
    {
        self.pc
    }

    /// The stack pointer (r13)
    pub fn get_sp(&self) -> (r: u32)
        requires
            self.inv(),
        ensures
            r == self@.lreg[5],
            r % 4 == 0,
    {
        self.long_registers[5]
    }

    /// Write the stack pointer (r13); the stored value is 4-aligned
    pub fn set_sp(&mut self, value: u32)
        requires
            old(self).inv(),
        ensures
            final (self).inv(),
            final (self)@ == spec_set_reg(old(self)@, 13, value),
    {
        let r = LongRegister { register: 13 };
        self.set_reg(&r, value);
    }

    /// Write any register 0-15.  Writes to r13 are 4-aligned; writes to r15
    /// redirect to `pc` with the low Thumb-mode bit discarded.
    pub fn set_reg(&mut self, reg: &LongRegister, value: u32)
        requires
            old(self).inv(),
            reg.register < 16,
        ensures
            final (self).inv(),
            final (self)@ == spec_set_reg(old(self)@, reg.register as int, value),
    {
        proof {
            crate::bitmanip::lemma_align4_is_round_down(value);
        }
        let mut final_value = value;
        let reg = reg.register;
        if reg == 13 {
            final_value = value & 0xFFFF_FFFCu32;  //special handling of r13/SP
        } else if reg == 15 {
            //special handling for r15/PC
            self.pc = value & 0xFFFF_FFFEu32;
            return ;
        }
        if reg < 8 {
            self.sreg.set(reg, final_value);
        } else {
            self.long_registers.set(reg - 8, final_value);
        }
    }

    /// Read any register 0-15.  Reads of r15 return the virtual program
    /// counter.
    pub fn get_reg(&self, reg: &LongRegister) -> (r: u32)
        requires
            self.inv(),
            reg.register < 16,
        ensures
            r == spec_get_reg(self@, reg.register as int),
    {
        let reg = reg.register;
        if reg == 15 {
            //special handling for r15/PC
            return self.virtual_pc;
        }
        if reg < 8 {
            self.sreg[reg]
        } else {
            self.long_registers[reg - 8]
        }
    }

    /// Read the raw register file from outside the core: slots 0-14 give the
    /// stored value, 15 gives `pc`, anything larger reads as zero.
    pub fn external_get_reg(&self, reg: usize) -> (r: u32)
        requires
            self.inv(),
        ensures
            reg < 15 ==> r == reg_of(self@, reg as int),
            reg == 15 ==> r == self@.pc,
            reg > 15 ==> r == 0,
    {
        if reg < 8 {
            return self.sreg[reg];
        }
        if reg < 15 {
            return self.long_registers[reg - 8];
        }
        if reg == 15 {
            return self.pc;
        }
        0
    }

    /// Write the register file from outside the core, with the same r13 and
    /// r15 rules as `set_reg`; indices above 15 are ignored.
    pub fn external_set_reg(&mut self, reg: usize, value: u32)
        requires
            old(self).inv(),
        ensures
            final (self).inv(),
            reg < 16 ==> final (self)@ == spec_set_reg(old(self)@, reg as int, value),
            reg > 15 ==> final (self)@ == old(self)@,
    {
        if reg < 16 {
            let r = LongRegister { register: reg };
            self.set_reg(&r, value);
        }
    }

    /// Helper function to simplify copying a set of data into VM memory
    pub fn copy_into_memory(&mut self, address: u32, data: &[u8]) -> (r: Result<(), NarmError>)
        requires
            old(self).inv(),
        ensures
            final (self).inv(),
            match write_check(old(self)@.mem, address, data@.len()) {
                Option::Some(e) => r == Result::<(), NarmError>::Err(e) && final (self)@ == old(
                    self,
                )@,
                Option::None => r == Result::<(), NarmError>::Ok(()) && final (self)@ == (VmView {
                    mem: stored(old(self)@.mem, address, data@),
                    ..old(self)@
                }),
            },
    {
        match self.memory.set_sized_memory(address, data) {
            Result::Ok(()) => Result::Ok(()),
            Result::Err(e) => Result::Err(e),
        }
    }

    /// Helper function to simplify copying a set of data out of VM memory
    pub fn copy_from_memory(&self, address: u32, size: u32) -> (r: Result<Vec<u8>, NarmError>)
        requires
            self.inv(),
        ensures
            match read_check(self@.mem, address, size as nat) {
                Option::Some(e) => r == Result::<Vec<u8>, NarmError>::Err(e),
                Option::None => r is Ok && r->Ok_0@ == read_bytes(self@.mem, address, size as nat),
            },
    {
        self.memory.get_sized_memory(address, size)
    }
}


} // verus!
