//! The instruction decoder: classifies a 32-bit word by opcode, funct3 and
//! funct7, reads the pre-update architectural state, and produces the
//! instruction's effect — at most one register write, at most one memory
//! write, the next program counter, and the termination flag.
//!
//! `decode_spec` is the specification of the RV32I subset this emulator
//! implements; `instruction_decoder` is proved to return exactly what it
//! says, and to fail exactly where it is undefined.

use vstd::prelude::*;

use crate::bits::{
    funct3, funct3_of, funct7, funct7_of, imm_b, imm_b_of, imm_i, imm_i_of, imm_j, imm_j_of,
    imm_s, imm_s_of, imm_u, imm_u_of, lemma_field_bounds, lemma_mask5, opcode, opcode_of, rd,
    rd_of, rs1, rs1_of, rs2, rs2_of, sgn, sign_ext, signed_lt, sra, sra32, wadd, wrap_add,
    wrap_sub, wsub,
};
use crate::ram::ram_load;
use crate::register::reg_read;
use crate::vproc::{ProcView, Vproc};

verus! {

/// A pending write of `value` to register `rd`.
#[derive(Clone, Copy, Debug, PartialEq, Eq, Structural)]
pub struct RegWrite {
    pub rd: u32,
    pub value: u32,
}

/// A pending write of `value` to the memory cell bound to byte address
/// `addr`.
#[derive(Clone, Copy, Debug, PartialEq, Eq, Structural)]
pub struct MemWrite {
    pub addr: u32,
    pub value: u32,
}

/// The architectural changes produced by one instruction: a sparse register
/// write, a sparse memory write, the next program counter, and whether the
/// termination sentinel was recognized.
#[derive(Clone, Copy, Debug)]
pub struct Effect {
    pub reg_write: Option<RegWrite>,
    pub mem_write: Option<MemWrite>,
    pub next_pc: u32,
    pub halt: bool,
}

impl Effect {
    /// A register write stays inside the register bank.
    pub open spec fn wf(&self) -> bool {
        match self.reg_write {
            Some(rw) => rw.rd < 32,
            None => true,
        }
    }
}

/// A decode failure, carrying the program counter and the raw word.
#[derive(Clone, Copy, Debug, PartialEq, Eq, Structural)]
pub struct DecodeError {
    pub pc: u32,
    pub word: u32,
}

/// The register values after an effect's register write is merged.
pub open spec fn regs_after(regs: Seq<u32>, e: Effect) -> Seq<u32> {
    match e.reg_write {
        Some(rw) => regs.update(rw.rd as int, rw.value),
        None => regs,
    }
}

/// The register dirty markers after an effect's register write is merged.
pub open spec fn regs_dirty_after(dirty: Seq<bool>, e: Effect) -> Seq<bool> {
    match e.reg_write {
        Some(rw) => dirty.update(rw.rd as int, true),
        None => dirty,
    }
}

/// What the decoder reads from register `i`: zero for `x0`.
pub open spec fn reg(s: ProcView, i: u32) -> u32 {
    reg_read(s.regs, i as int)
}

/// An effect that writes one register and falls through to the next
/// instruction.
pub open spec fn eff_reg(rd: u32, value: u32, pc: u32) -> Effect {
    Effect {
        reg_write: Some(RegWrite { rd, value }),
        mem_write: None,
        next_pc: wrap_add(pc, 4),
        halt: false,
    }
}

/// An effect that writes one memory cell and falls through.
pub open spec fn eff_mem(addr: u32, value: u32, pc: u32) -> Effect {
    Effect {
        reg_write: None,
        mem_write: Some(MemWrite { addr, value }),
        next_pc: wrap_add(pc, 4),
        halt: false,
    }
}

/// An effect that only moves the program counter.
pub open spec fn eff_pc(next_pc: u32) -> Effect {
    Effect { reg_write: None, mem_write: None, next_pc, halt: false }
}

/// LOAD (opcode 0000011): `rd` receives the memory word bound to
/// `regs[rs1] + imm`, narrowed and sign- or zero-extended by funct3.
pub open spec fn load_spec(w: u32, s: ProcView) -> Option<Effect> {
    let addr = wrap_add(reg(s, rs1_of(w)), imm_i_of(w));
    let word = ram_load(s.ram, addr);
    let f3 = funct3_of(w);
    if f3 == 0 {
        Some(eff_reg(rd_of(w), sign_ext(word & 0xff, 0x80, 0xffff_ff00), s.pc))
    } else if f3 == 1 {
        Some(eff_reg(rd_of(w), sign_ext(word & 0xffff, 0x8000, 0xffff_0000), s.pc))
    } else if f3 == 2 {
        Some(eff_reg(rd_of(w), word, s.pc))
    } else if f3 == 4 {
        Some(eff_reg(rd_of(w), word & 0xff, s.pc))
    } else if f3 == 5 {
        Some(eff_reg(rd_of(w), word & 0xffff, s.pc))
    } else {
        None
    }
}

/// STORE (opcode 0100011): the low byte, halfword or word of `regs[rs2]` is
/// stored at `regs[rs1] + imm`.
pub open spec fn store_spec(w: u32, s: ProcView) -> Option<Effect> {
    let addr = wrap_add(reg(s, rs1_of(w)), imm_s_of(w));
    let val = reg(s, rs2_of(w));
    let f3 = funct3_of(w);
    if f3 == 0 {
        Some(eff_mem(addr, val & 0xff, s.pc))
    } else if f3 == 1 {
        Some(eff_mem(addr, val & 0xffff, s.pc))
    } else if f3 == 2 {
        Some(eff_mem(addr, val, s.pc))
    } else {
        None
    }
}

/// OP-IMM (opcode 0010011): register-immediate arithmetic, logic, compares
/// and shifts.
pub open spec fn op_imm_spec(w: u32, s: ProcView) -> Option<Effect> {
    let a = reg(s, rs1_of(w));
    let imm = imm_i_of(w);
    let f3 = funct3_of(w);
    let rd = rd_of(w);
    if f3 == 0 {
        Some(eff_reg(rd, wrap_add(a, imm), s.pc))
    } else if f3 == 2 {
        Some(eff_reg(rd, if sgn(a) < sgn(imm) { 1u32 } else { 0u32 }, s.pc))
    } else if f3 == 3 {
        Some(eff_reg(rd, if a < imm { 1u32 } else { 0u32 }, s.pc))
    } else if f3 == 4 {
        Some(eff_reg(rd, a ^ imm, s.pc))
    } else if f3 == 6 {
        Some(eff_reg(rd, a | imm, s.pc))
    } else if f3 == 7 {
        Some(eff_reg(rd, a & imm, s.pc))
    } else if f3 == 1 {
        if funct7_of(w) == 0 {
            Some(eff_reg(rd, a << rs2_of(w), s.pc))
        } else {
            None
        }
    } else if funct7_of(w) == 0 {
        Some(eff_reg(rd, a >> rs2_of(w), s.pc))
    } else if funct7_of(w) == 0x20 {
        Some(eff_reg(rd, sra32(a, rs2_of(w)), s.pc))
    } else {
        None
    }
}

/// OP (opcode 0110011): register-register arithmetic, logic, compares and
/// shifts; shifts use the low five bits of `regs[rs2]`.
pub open spec fn op_spec(w: u32, s: ProcView) -> Option<Effect> {
    let a = reg(s, rs1_of(w));
    let b = reg(s, rs2_of(w));
    let f3 = funct3_of(w);
    let f7 = funct7_of(w);
    let rd = rd_of(w);
    if f3 == 0 && f7 == 0 {
        Some(eff_reg(rd, wrap_add(a, b), s.pc))
    } else if f3 == 0 && f7 == 0x20 {
        Some(eff_reg(rd, wrap_sub(a, b), s.pc))
    } else if f3 == 1 && f7 == 0 {
        Some(eff_reg(rd, a << (b & 0x1f), s.pc))
    } else if f3 == 2 && f7 == 0 {
        Some(eff_reg(rd, if sgn(a) < sgn(b) { 1u32 } else { 0u32 }, s.pc))
    } else if f3 == 3 && f7 == 0 {
        Some(eff_reg(rd, if a < b { 1u32 } else { 0u32 }, s.pc))
    } else if f3 == 4 && f7 == 0 {
        Some(eff_reg(rd, a ^ b, s.pc))
    } else if f3 == 5 && f7 == 0 {
        Some(eff_reg(rd, a >> (b & 0x1f), s.pc))
    } else if f3 == 5 && f7 == 0x20 {
        Some(eff_reg(rd, sra32(a, b & 0x1f), s.pc))
    } else if f3 == 6 && f7 == 0 {
        Some(eff_reg(rd, a | b, s.pc))
    } else if f3 == 7 && f7 == 0 {
        Some(eff_reg(rd, a & b, s.pc))
    } else {
        None
    }
}

/// BRANCH (opcode 1100011): compare `regs[rs1]` against `regs[rs2]`; when
/// taken the program counter moves by the B-format immediate, else by 4.
pub open spec fn branch_spec(w: u32, s: ProcView) -> Option<Effect> {
    let a = reg(s, rs1_of(w));
    let b = reg(s, rs2_of(w));
    let f3 = funct3_of(w);
    if f3 == 2 || f3 == 3 {
        None
    } else {
        let taken = if f3 == 0 {
            a == b
        } else if f3 == 1 {
            a != b
        } else if f3 == 4 {
            sgn(a) < sgn(b)
        } else if f3 == 5 {
            sgn(a) >= sgn(b)
        } else if f3 == 6 {
            a < b
        } else {
            a >= b
        };
        Some(eff_pc(if taken {
            wrap_add(s.pc, imm_b_of(w))
        } else {
            wrap_add(s.pc, 4)
        }))
    }
}

/// JALR (opcode 1100111): link `pc + 4` into `rd` and jump to
/// `(regs[rs1] + imm) & !1`. The tuple `(rd=0, rs1=1, imm=0)` is the
/// termination sentinel.
pub open spec fn jalr_spec(w: u32, s: ProcView) -> Effect {
    Effect {
        reg_write: Some(RegWrite { rd: rd_of(w), value: wrap_add(s.pc, 4) }),
        mem_write: None,
        next_pc: wrap_add(reg(s, rs1_of(w)), imm_i_of(w)) & 0xffff_fffe,
        halt: rd_of(w) == 0 && rs1_of(w) == 1 && imm_i_of(w) == 0,
    }
}

/// The effect of one instruction word on the given architectural state, or
/// `None` where the word is not a recognized RV32I instruction.
pub open spec fn decode_spec(w: u32, s: ProcView) -> Option<Effect> {
    let op = opcode_of(w);
    if op == 0x03 {
        load_spec(w, s)
    } else if op == 0x23 {
        store_spec(w, s)
    } else if op == 0x13 {
        op_imm_spec(w, s)
    } else if op == 0x33 {
        op_spec(w, s)
    } else if op == 0x37 {
        // LUI: the U-format immediate already carries its low 12 zero bits.
        Some(eff_reg(rd_of(w), imm_u_of(w), s.pc))
    } else if op == 0x17 {
        // AUIPC
        Some(eff_reg(rd_of(w), wrap_add(s.pc, imm_u_of(w)), s.pc))
    } else if op == 0x6f {
        // JAL
        Some(
            Effect {
                reg_write: Some(RegWrite { rd: rd_of(w), value: wrap_add(s.pc, 4) }),
                mem_write: None,
                next_pc: wrap_add(s.pc, imm_j_of(w)),
                halt: false,
            },
        )
    } else if op == 0x67 {
        if funct3_of(w) == 0 {
            Some(jalr_spec(w, s))
        } else {
            None
        }
    } else if op == 0x63 {
        branch_spec(w, s)
    } else if op == 0x0f {
        // FENCE: a no-op for a single sequential hart.
        Some(eff_pc(wrap_add(s.pc, 4)))
    } else if op == 0x73 {
        // SYSTEM: ECALL and EBREAK are no-ops for unprivileged emulation.
        if funct3_of(w) == 0 {
            Some(eff_pc(wrap_add(s.pc, 4)))
        } else {
            None
        }
    } else {
        None
    }
}

/// Decoding reads only the pre-update architectural state — the register
/// values, the memory and the program counter; dirty markers, `misa` and the
/// privilege mode play no part. Writes of one instruction are therefore
/// observable by the next instruction and no earlier.
pub proof fn lemma_decode_reads_pre_state(w: u32, s1: ProcView, s2: ProcView)
    requires
        s1.regs == s2.regs,
        s1.ram == s2.ram,
        s1.pc == s2.pc,
    ensures
        decode_spec(w, s1) == decode_spec(w, s2),
{
}

/// Build a register-writing, falling-through effect.
fn make_reg_effect(rd: u32, value: u32, pc: u32) -> (r: Effect)
    ensures
        r == eff_reg(rd, value, pc),
{
    Effect {
        reg_write: Some(RegWrite { rd, value }),
        mem_write: None,
        next_pc: wadd(pc, 4),
        halt: false,
    }
}

/// Build a memory-writing, falling-through effect.
fn make_mem_effect(addr: u32, value: u32, pc: u32) -> (r: Effect)
    ensures
        r == eff_mem(addr, value, pc),
{
    Effect {
        reg_write: None,
        mem_write: Some(MemWrite { addr, value }),
        next_pc: wadd(pc, 4),
        halt: false,
    }
}

/// Build an effect that only moves the program counter.
fn make_pc_effect(next_pc: u32) -> (r: Effect)
    ensures
        r == eff_pc(next_pc),
{
    Effect { reg_write: None, mem_write: None, next_pc, halt: false }
}

/// Decode and execute a LOAD instruction.
fn decode_load(w: u32, proc: &Vproc) -> (r: Option<Effect>)
    requires
        proc.wf(),
    ensures
        r == load_spec(w, proc@),
        r matches Some(e) ==> e.wf(),
{
    proof {
        lemma_field_bounds(w);
    }
    let base = proc.reg_file().read(rs1(w) as usize);
    let addr = wadd(base, imm_i(w));
    let word = proc.memory().read_from_addr(addr);
    let f3 = funct3(w);
    let pc = proc.pc();
    if f3 == 0 {
        let b = word & 0xff;
        let v = if b & 0x80 != 0 {
            b | 0xffff_ff00
        } else {
            b
        };
        Some(make_reg_effect(rd(w), v, pc))
    } else if f3 == 1 {
        let h = word & 0xffff;
        let v = if h & 0x8000 != 0 {
            h | 0xffff_0000
        } else {
            h
        };
        Some(make_reg_effect(rd(w), v, pc))
    } else if f3 == 2 {
        Some(make_reg_effect(rd(w), word, pc))
    } else if f3 == 4 {
        Some(make_reg_effect(rd(w), word & 0xff, pc))
    } else if f3 == 5 {
        Some(make_reg_effect(rd(w), word & 0xffff, pc))
    } else {
        None
    }
}

/// Decode and execute a STORE instruction.
fn decode_store(w: u32, proc: &Vproc) -> (r: Option<Effect>)
    requires
        proc.wf(),
    ensures
        r == store_spec(w, proc@),
        r matches Some(e) ==> e.wf(),
{
    proof {
        lemma_field_bounds(w);
    }
    let base = proc.reg_file().read(rs1(w) as usize);
    let addr = wadd(base, imm_s(w));
    let val = proc.reg_file().read(rs2(w) as usize);
    let f3 = funct3(w);
    let pc = proc.pc();
    if f3 == 0 {
        Some(make_mem_effect(addr, val & 0xff, pc))
    } else if f3 == 1 {
        Some(make_mem_effect(addr, val & 0xffff, pc))
    } else if f3 == 2 {
        Some(make_mem_effect(addr, val, pc))
    } else {
        None
    }
}

/// Decode and execute an OP-IMM instruction.
fn decode_op_imm(w: u32, proc: &Vproc) -> (r: Option<Effect>)
    requires
        proc.wf(),
    ensures
        r == op_imm_spec(w, proc@),
        r matches Some(e) ==> e.wf(),
{
    proof {
        lemma_field_bounds(w);
    }
    let a = proc.reg_file().read(rs1(w) as usize);
    let imm = imm_i(w);
    let f3 = funct3(w);
    let rdv = rd(w);
    let pc = proc.pc();
    if f3 == 0 {
        Some(make_reg_effect(rdv, wadd(a, imm), pc))
    } else if f3 == 2 {
        let v: u32 = if signed_lt(a, imm) {
            1
        } else {
            0
        };
        Some(make_reg_effect(rdv, v, pc))
    } else if f3 == 3 {
        let v: u32 = if a < imm {
            1
        } else {
            0
        };
        Some(make_reg_effect(rdv, v, pc))
    } else if f3 == 4 {
        Some(make_reg_effect(rdv, a ^ imm, pc))
    } else if f3 == 6 {
        Some(make_reg_effect(rdv, a | imm, pc))
    } else if f3 == 7 {
        Some(make_reg_effect(rdv, a & imm, pc))
    } else if f3 == 1 {
        if funct7(w) == 0 {
            Some(make_reg_effect(rdv, a << rs2(w), pc))
        } else {
            None
        }
    } else if funct7(w) == 0 {
        Some(make_reg_effect(rdv, a >> rs2(w), pc))
    } else if funct7(w) == 0x20 {
        Some(make_reg_effect(rdv, sra(a, rs2(w)), pc))
    } else {
        None
    }
}

/// Decode and execute an OP instruction.
fn decode_op(w: u32, proc: &Vproc) -> (r: Option<Effect>)
    requires
        proc.wf(),
    ensures
        r == op_spec(w, proc@),
        r matches Some(e) ==> e.wf(),
{
    proof {
        lemma_field_bounds(w);
    }
    let a = proc.reg_file().read(rs1(w) as usize);
    let b = proc.reg_file().read(rs2(w) as usize);
    let f3 = funct3(w);
    let f7 = funct7(w);
    let rdv = rd(w);
    let pc = proc.pc();
    proof {
        lemma_mask5(b);
    }
    if f3 == 0 && f7 == 0 {
        Some(make_reg_effect(rdv, wadd(a, b), pc))
    } else if f3 == 0 && f7 == 0x20 {
        Some(make_reg_effect(rdv, wsub(a, b), pc))
    } else if f3 == 1 && f7 == 0 {
        Some(make_reg_effect(rdv, a << (b & 0x1f), pc))
    } else if f3 == 2 && f7 == 0 {
        let v: u32 = if signed_lt(a, b) {
            1
        } else {
            0
        };
        Some(make_reg_effect(rdv, v, pc))
    } else if f3 == 3 && f7 == 0 {
        let v: u32 = if a < b {
            1
        } else {
            0
        };
        Some(make_reg_effect(rdv, v, pc))
    } else if f3 == 4 && f7 == 0 {
        Some(make_reg_effect(rdv, a ^ b, pc))
    } else if f3 == 5 && f7 == 0 {
        Some(make_reg_effect(rdv, a >> (b & 0x1f), pc))
    } else if f3 == 5 && f7 == 0x20 {
        Some(make_reg_effect(rdv, sra(a, b & 0x1f), pc))
    } else if f3 == 6 && f7 == 0 {
        Some(make_reg_effect(rdv, a | b, pc))
    } else if f3 == 7 && f7 == 0 {
        Some(make_reg_effect(rdv, a & b, pc))
    } else {
        None
    }
}

/// Decode and execute a BRANCH instruction.
fn decode_branch(w: u32, proc: &Vproc) -> (r: Option<Effect>)
    requires
        proc.wf(),
    ensures
        r == branch_spec(w, proc@),
        r matches Some(e) ==> e.wf(),
{
    proof {
        lemma_field_bounds(w);
    }
    let a = proc.reg_file().read(rs1(w) as usize);
    let b = proc.reg_file().read(rs2(w) as usize);
    let f3 = funct3(w);
    let pc = proc.pc();
    if f3 == 2 || f3 == 3 {
        None
    } else {
        let taken = if f3 == 0 {
            a == b
        } else if f3 == 1 {
            a != b
        } else if f3 == 4 {
            signed_lt(a, b)
        } else if f3 == 5 {
            !signed_lt(a, b)
        } else if f3 == 6 {
            a < b
        } else {
            a >= b
        };
        let next = if taken {
            wadd(pc, imm_b(w))
        } else {
            wadd(pc, 4)
        };
        Some(make_pc_effect(next))
    }
}

/// Turn an optional effect into a decode result, carrying `err` on `None`.
fn effect_or_err(r: Option<Effect>, err: DecodeError) -> (res: Result<Effect, DecodeError>)
    ensures
        match res {
            Ok(e) => r == Some(e),
            Err(e2) => r is None && e2 == err,
        },
{
    match r {
        Some(e) => Ok(e),
        None => Err(err),
    }
}

/// Decode an instruction word against the current architectural state and
/// produce its effect; fails, carrying the program counter and the raw word,
/// exactly on the words `decode_spec` does not recognize.
pub fn instruction_decoder(instr: u32, proc: &Vproc) -> (r: Result<Effect, DecodeError>)
    requires
        proc.wf(),
    ensures
        match r {
            Ok(e) => decode_spec(instr, proc@) == Some(e) && e.wf(),
            Err(err) => {
                &&& decode_spec(instr, proc@) is None
                &&& err == (DecodeError { pc: proc@.pc, word: instr })
            },
        },
{
    proof {
        lemma_field_bounds(instr);
    }
    let op = opcode(instr);
    let pc = proc.pc();
    let err = DecodeError { pc, word: instr };
    if op == 0x03 {
        effect_or_err(decode_load(instr, proc), err)
    } else if op == 0x23 {
        effect_or_err(decode_store(instr, proc), err)
    } else if op == 0x13 {
        effect_or_err(decode_op_imm(instr, proc), err)
    } else if op == 0x33 {
        effect_or_err(decode_op(instr, proc), err)
    } else if op == 0x37 {
        Ok(make_reg_effect(rd(instr), imm_u(instr), pc))
    } else if op == 0x17 {
        Ok(make_reg_effect(rd(instr), wadd(pc, imm_u(instr)), pc))
    } else if op == 0x6f {
        Ok(
            Effect {
                reg_write: Some(RegWrite { rd: rd(instr), value: wadd(pc, 4) }),
                mem_write: None,
                next_pc: wadd(pc, imm_j(instr)),
                halt: false,
            },
        )
    } else if op == 0x67 {
        if funct3(instr) == 0 {
            let base = proc.reg_file().read(rs1(instr) as usize);
            let target = wadd(base, imm_i(instr)) & 0xffff_fffe;
            let halt = rd(instr) == 0 && rs1(instr) == 1 && imm_i(instr) == 0;
            Ok(
                Effect {
                    reg_write: Some(RegWrite { rd: rd(instr), value: wadd(pc, 4) }),
                    mem_write: None,
                    next_pc: target,
                    halt,
                },
            )
        } else {
            Err(err)
        }
    } else if op == 0x63 {
        effect_or_err(decode_branch(instr, proc), err)
    } else if op == 0x0f {
        Ok(make_pc_effect(wadd(pc, 4)))
    } else if op == 0x73 {
        if funct3(instr) == 0 {
            Ok(make_pc_effect(wadd(pc, 4)))
        } else {
            Err(err)
        }
    } else {
        Err(err)
    }
}

} // verus!
