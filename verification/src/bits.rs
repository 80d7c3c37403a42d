//! Bit-level views of a 32-bit instruction word: field extraction, immediate
//! reconstruction with sign extension, and the signed reading of a register
//! value.

use vstd::prelude::*;

verus! {

/// The signed (two's-complement) reading of a 32-bit value.
pub open spec fn sgn(x: u32) -> int {
    if x < 0x8000_0000 {
        x as int
    } else {
        x as int - 0x1_0000_0000
    }
}

/// Addition modulo 2^32, the wrap-around addition of the ISA.
pub open spec fn wrap_add(a: u32, b: u32) -> u32 {
    if a + b > u32::MAX {
        (a + b - 0x1_0000_0000) as u32
    } else {
        (a + b) as u32
    }
}

/// Subtraction modulo 2^32.
pub open spec fn wrap_sub(a: u32, b: u32) -> u32 {
    if a - b < 0 {
        (a - b + 0x1_0000_0000) as u32
    } else {
        (a - b) as u32
    }
}

/// `opcode`: bits 6..0 of the word.
pub open spec fn opcode_of(w: u32) -> u32 {
    w & 0x7f
}

/// `rd`: bits 11..7, the destination register index.
pub open spec fn rd_of(w: u32) -> u32 {
    (w >> 7) & 0x1f
}

/// `funct3`: bits 14..12.
pub open spec fn funct3_of(w: u32) -> u32 {
    (w >> 12) & 0x7
}

/// `rs1`: bits 19..15, the first source register index.
pub open spec fn rs1_of(w: u32) -> u32 {
    (w >> 15) & 0x1f
}

/// `rs2`: bits 24..20, the second source register index.
pub open spec fn rs2_of(w: u32) -> u32 {
    (w >> 20) & 0x1f
}

/// `funct7`: bits 31..25.
pub open spec fn funct7_of(w: u32) -> u32 {
    w >> 25
}

/// Extend a value whose top meaningful bit is selected by `sign_mask` to a
/// full two's-complement 32-bit value by filling the bits of `fill_mask`.
pub open spec fn sign_ext(v: u32, sign_mask: u32, fill_mask: u32) -> u32 {
    if v & sign_mask != 0 {
        v | fill_mask
    } else {
        v
    }
}

/// I-format immediate: bits 31..20, sign-extended from bit 11.
pub open spec fn imm_i_of(w: u32) -> u32 {
    sign_ext(w >> 20, 0x800, 0xffff_f000)
}

/// S-format immediate: bits 31..25 over bits 11..7, sign-extended from bit 11.
pub open spec fn imm_s_of(w: u32) -> u32 {
    sign_ext(((w >> 25) << 5) | ((w >> 7) & 0x1f), 0x800, 0xffff_f000)
}

/// B-format immediate: bit 31, bit 7, bits 30..25, bits 11..8, then a zero
/// bit; sign-extended from bit 12.
pub open spec fn imm_b_of(w: u32) -> u32 {
    sign_ext(
        ((w >> 31) << 12) | (((w >> 7) & 1) << 11) | (((w >> 25) & 0x3f) << 5) | (((w >> 8)
            & 0xf) << 1),
        0x1000,
        0xffff_e000,
    )
}

/// U-format immediate: bits 31..12 in place, low 12 bits zero.
pub open spec fn imm_u_of(w: u32) -> u32 {
    w & 0xffff_f000
}

/// J-format immediate: bit 31, bits 19..12, bit 20, bits 30..21, then a zero
/// bit; sign-extended from bit 20.
pub open spec fn imm_j_of(w: u32) -> u32 {
    sign_ext(
        ((w >> 31) << 20) | (((w >> 12) & 0xff) << 12) | (((w >> 20) & 1) << 11) | (((w >> 21)
            & 0x3ff) << 1),
        0x10_0000,
        0xffe0_0000,
    )
}

/// Arithmetic (sign-filling) right shift of a 32-bit value; for a negative
/// value the complement identity fills the vacated bits with ones.
pub open spec fn sra32(x: u32, sh: u32) -> u32 {
    if x & 0x8000_0000 != 0 {
        !((!x) >> sh)
    } else {
        x >> sh
    }
}

/// The instruction fields are bounded by the width of their bit ranges; in
/// particular every register index is below 32.
pub proof fn lemma_field_bounds(w: u32)
    by (bit_vector)
    ensures
        opcode_of(w) < 0x80,
        rd_of(w) < 32,
        funct3_of(w) < 8,
        rs1_of(w) < 32,
        rs2_of(w) < 32,
        funct7_of(w) < 0x80,
{
}

/// A value masked to its low five bits is a legal shift amount.
pub proof fn lemma_mask5(x: u32)
    by (bit_vector)
    ensures
        x & 0x1f < 32,
{
}

/// Arithmetic right shift agrees with the right shift of the value read as a
/// signed 32-bit integer.
pub proof fn lemma_sra32_signed(x: u32, sh: u32)
    by (bit_vector)
    requires
        sh < 32,
    ensures
        sra32(x, sh) == ((x as i32) >> sh) as u32,
{
}

/// Assemble an I-format instruction from its fields; the immediate is given
/// as a two's-complement 32-bit value whose low 12 bits are kept.
pub open spec fn encode_i(opcode: u32, rd: u32, funct3: u32, rs1: u32, imm: u32) -> u32 {
    (opcode & 0x7f) | ((rd & 0x1f) << 7) | ((funct3 & 0x7) << 12) | ((rs1 & 0x1f) << 15) | ((imm
        & 0xfff) << 20)
}

/// Assemble an S-format instruction; immediate bits 11..5 go to bits 31..25
/// and bits 4..0 to bits 11..7.
pub open spec fn encode_s(opcode: u32, funct3: u32, rs1: u32, rs2: u32, imm: u32) -> u32 {
    (opcode & 0x7f) | ((imm & 0x1f) << 7) | ((funct3 & 0x7) << 12) | ((rs1 & 0x1f) << 15) | ((rs2
        & 0x1f) << 20) | (((imm >> 5) & 0x7f) << 25)
}

/// Assemble a B-format instruction from an even 13-bit branch offset.
pub open spec fn encode_b(opcode: u32, funct3: u32, rs1: u32, rs2: u32, imm: u32) -> u32 {
    (opcode & 0x7f) | (((imm >> 11) & 1) << 7) | (((imm >> 1) & 0xf) << 8) | ((funct3 & 0x7)
        << 12) | ((rs1 & 0x1f) << 15) | ((rs2 & 0x1f) << 20) | (((imm >> 5) & 0x3f) << 25) | (((imm
        >> 12) & 1) << 31)
}

/// Assemble a U-format instruction from an immediate whose low 12 bits are
/// zero.
pub open spec fn encode_u(opcode: u32, rd: u32, imm: u32) -> u32 {
    (opcode & 0x7f) | ((rd & 0x1f) << 7) | (imm & 0xffff_f000)
}

/// Assemble a J-format instruction from an even 21-bit jump offset.
pub open spec fn encode_j(opcode: u32, rd: u32, imm: u32) -> u32 {
    (opcode & 0x7f) | ((rd & 0x1f) << 7) | (((imm >> 12) & 0xff) << 12) | (((imm >> 11) & 1)
        << 20) | (((imm >> 1) & 0x3ff) << 21) | (((imm >> 20) & 1) << 31)
}

/// The two's-complement range test `imm < half || imm >= 2^32 - half` holds
/// exactly of the values whose signed reading lies in `[-half, half)`.
pub proof fn lemma_signed_range(imm: u32, half: u32)
    requires
        0 < half <= 0x8000_0000,
    ensures
        (imm < half || imm >= 0x1_0000_0000int - half) <==> (-(half as int) <= sgn(imm)
            < half as int),
{
}

/// Encoding a signed 12-bit offset in the I format and decoding it recovers
/// the same value, and every field is recovered exactly.
pub proof fn lemma_encode_i_round_trip(opcode: u32, rd: u32, funct3: u32, rs1: u32, imm: u32)
    by (bit_vector)
    requires
        opcode < 0x80,
        rd < 32,
        funct3 < 8,
        rs1 < 32,
        imm < 0x800 || imm >= 0xffff_f800,
    ensures
        opcode_of(encode_i(opcode, rd, funct3, rs1, imm)) == opcode,
        rd_of(encode_i(opcode, rd, funct3, rs1, imm)) == rd,
        funct3_of(encode_i(opcode, rd, funct3, rs1, imm)) == funct3,
        rs1_of(encode_i(opcode, rd, funct3, rs1, imm)) == rs1,
        imm_i_of(encode_i(opcode, rd, funct3, rs1, imm)) == imm,
{
}

/// Encoding a signed 12-bit offset in the S format and decoding it recovers
/// the same value, and every field is recovered exactly.
pub proof fn lemma_encode_s_round_trip(opcode: u32, funct3: u32, rs1: u32, rs2: u32, imm: u32)
    by (bit_vector)
    requires
        opcode < 0x80,
        funct3 < 8,
        rs1 < 32,
        rs2 < 32,
        imm < 0x800 || imm >= 0xffff_f800,
    ensures
        opcode_of(encode_s(opcode, funct3, rs1, rs2, imm)) == opcode,
        funct3_of(encode_s(opcode, funct3, rs1, rs2, imm)) == funct3,
        rs1_of(encode_s(opcode, funct3, rs1, rs2, imm)) == rs1,
        rs2_of(encode_s(opcode, funct3, rs1, rs2, imm)) == rs2,
        imm_s_of(encode_s(opcode, funct3, rs1, rs2, imm)) == imm,
{
}

/// Encoding an even signed 13-bit offset in the B format and decoding it
/// recovers the same value, and every field is recovered exactly.
pub proof fn lemma_encode_b_round_trip(opcode: u32, funct3: u32, rs1: u32, rs2: u32, imm: u32)
    by (bit_vector)
    requires
        opcode < 0x80,
        funct3 < 8,
        rs1 < 32,
        rs2 < 32,
        imm & 1 == 0,
        imm < 0x1000 || imm >= 0xffff_f000,
    ensures
        opcode_of(encode_b(opcode, funct3, rs1, rs2, imm)) == opcode,
        funct3_of(encode_b(opcode, funct3, rs1, rs2, imm)) == funct3,
        rs1_of(encode_b(opcode, funct3, rs1, rs2, imm)) == rs1,
        rs2_of(encode_b(opcode, funct3, rs1, rs2, imm)) == rs2,
        imm_b_of(encode_b(opcode, funct3, rs1, rs2, imm)) == imm,
{
}

/// Encoding an upper immediate in the U format and decoding it recovers the
/// same value, and every field is recovered exactly.
pub proof fn lemma_encode_u_round_trip(opcode: u32, rd: u32, imm: u32)
    by (bit_vector)
    requires
        opcode < 0x80,
        rd < 32,
        imm & 0xfff == 0,
    ensures
        opcode_of(encode_u(opcode, rd, imm)) == opcode,
        rd_of(encode_u(opcode, rd, imm)) == rd,
        imm_u_of(encode_u(opcode, rd, imm)) == imm,
{
}

/// Encoding an even signed 21-bit offset in the J format and decoding it
/// recovers the same value, and every field is recovered exactly.
pub proof fn lemma_encode_j_round_trip(opcode: u32, rd: u32, imm: u32)
    by (bit_vector)
    requires
        opcode < 0x80,
        rd < 32,
        imm & 1 == 0,
        imm < 0x10_0000 || imm >= 0xfff0_0000,
    ensures
        opcode_of(encode_j(opcode, rd, imm)) == opcode,
        rd_of(encode_j(opcode, rd, imm)) == rd,
        imm_j_of(encode_j(opcode, rd, imm)) == imm,
{
}

/// Extract the opcode field.
pub fn opcode(w: u32) -> (r: u32)
    ensures
        r == opcode_of(w),
{
    w & 0x7f
}

/// Extract the destination register field.
pub fn rd(w: u32) -> (r: u32)
    ensures
        r == rd_of(w),
        r < 32,
{
    proof {
        lemma_field_bounds(w);
    }
    (w >> 7) & 0x1f
}

/// Extract the `funct3` field.
pub fn funct3(w: u32) -> (r: u32)
    ensures
        r == funct3_of(w),
        r < 8,
{
    proof {
        lemma_field_bounds(w);
    }
    (w >> 12) & 0x7
}

/// Extract the first source register field.
pub fn rs1(w: u32) -> (r: u32)
    ensures
        r == rs1_of(w),
        r < 32,
{
    proof {
        lemma_field_bounds(w);
    }
    (w >> 15) & 0x1f
}

/// Extract the second source register field.
pub fn rs2(w: u32) -> (r: u32)
    ensures
        r == rs2_of(w),
        r < 32,
{
    proof {
        lemma_field_bounds(w);
    }
    (w >> 20) & 0x1f
}

/// Extract the `funct7` field.
pub fn funct7(w: u32) -> (r: u32)
    ensures
        r == funct7_of(w),
{
    w >> 25
}

/// Reconstruct the I-format immediate.
pub fn imm_i(w: u32) -> (r: u32)
    ensures
        r == imm_i_of(w),
{
    let v = w >> 20;
    if v & 0x800 != 0 {
        v | 0xffff_f000
    } else {
        v
    }
}

/// Reconstruct the S-format immediate.
pub fn imm_s(w: u32) -> (r: u32)
    ensures
        r == imm_s_of(w),
{
    let v = ((w >> 25) << 5) | ((w >> 7) & 0x1f);
    if v & 0x800 != 0 {
        v | 0xffff_f000
    } else {
        v
    }
}

/// Reconstruct the B-format immediate.
pub fn imm_b(w: u32) -> (r: u32)
    ensures
        r == imm_b_of(w),
{
    let v = ((w >> 31) << 12) | (((w >> 7) & 1) << 11) | (((w >> 25) & 0x3f) << 5) | (((w >> 8)
        & 0xf) << 1);
    if v & 0x1000 != 0 {
        v | 0xffff_e000
    } else {
        v
    }
}

/// Reconstruct the U-format immediate.
pub fn imm_u(w: u32) -> (r: u32)
    ensures
        r == imm_u_of(w),
{
    w & 0xffff_f000
}

/// Reconstruct the J-format immediate.
pub fn imm_j(w: u32) -> (r: u32)
    ensures
        r == imm_j_of(w),
{
    let v = ((w >> 31) << 20) | (((w >> 12) & 0xff) << 12) | (((w >> 20) & 1) << 11) | (((w >> 21)
        & 0x3ff) << 1);
    if v & 0x10_0000 != 0 {
        v | 0xffe0_0000
    } else {
        v
    }
}

/// Wrap-around addition.
pub fn wadd(a: u32, b: u32) -> (r: u32)
    ensures
        r == wrap_add(a, b),
{
    a.wrapping_add(b)
}

/// Wrap-around subtraction.
pub fn wsub(a: u32, b: u32) -> (r: u32)
    ensures
        r == wrap_sub(a, b),
{
    a.wrapping_sub(b)
}

/// Compare two 32-bit values as signed integers.
pub fn signed_lt(a: u32, b: u32) -> (r: bool)
    ensures
        r == (sgn(a) < sgn(b)),
{
    let a_neg = a >= 0x8000_0000;
    let b_neg = b >= 0x8000_0000;
    if a_neg != b_neg {
        a_neg
    } else {
        a < b
    }
}

/// Arithmetic right shift.
pub fn sra(x: u32, sh: u32) -> (r: u32)
    requires
        sh < 32,
    ensures
        r == sra32(x, sh),
{
    if x & 0x8000_0000 != 0 {
        !((!x) >> sh)
    } else {
        x >> sh
    }
}

} // verus!
