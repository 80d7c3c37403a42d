//! The decode/execute stage: fetch the word at `PC / 4`, decode it against
//! the live state, merge the effect, and advance, until the termination
//! sentinel, a clean cell, an error, or the cycle bound.
//!
//! `run_spec` is the mathematical run of the machine; `stage2` is proved to
//! leave the processor in exactly the state `run_spec` reaches and to report
//! exactly its result.

use vstd::prelude::*;

use crate::bits::{opcode_of, funct3_of, imm_i_of, rd_of, rs1_of, wrap_add, lemma_field_bounds};
use crate::decoder::{
    decode_spec, instruction_decoder, reg, regs_after, regs_dirty_after, Effect,
};
use crate::ram::ram_store;
use crate::register::reg_read;
use crate::vproc::{ProcView, Vproc};

verus! {

/// Why a run stopped successfully.
#[derive(Clone, Copy, Debug, PartialEq, Eq, Structural)]
pub enum StopReason {
    /// The JALR termination sentinel `(rd=0, rs1=1, imm=0)` was executed.
    Sentinel,
    /// The program counter reached a cell that holds no loaded instruction.
    ProgramEnd,
}

/// A successful run: why it stopped and how many instructions it executed.
#[derive(Clone, Copy, Debug, PartialEq, Eq, Structural)]
pub struct RunOutcome {
    pub reason: StopReason,
    pub cycles: u32,
}

/// A failed run.
#[derive(Clone, Copy, Debug, PartialEq, Eq, Structural)]
pub enum ExecError {
    /// The fetched word is not a recognized instruction.
    Decode { pc: u32, word: u32 },
    /// The cycle bound was reached with an instruction still pending.
    Watchdog { cycles: u32 },
    /// A store found every memory cell dirty and none bound to its address.
    MemoryFull { pc: u32 },
    /// An instruction targeted a program counter that is not a multiple of 4.
    MisalignedPc { pc: u32, target: u32 },
}

/// The state and result a run ends with.
pub struct RunEnd {
    pub state: ProcView,
    pub result: Result<RunOutcome, ExecError>,
}

/// The state after an effect is merged: registers, memory and program
/// counter updated; `None` when the memory write finds no cell.
pub open spec fn apply_effect(s: ProcView, e: Effect) -> Option<ProcView> {
    let ram1 = match e.mem_write {
        Some(mw) => ram_store(s.ram, mw.addr, mw.value),
        None => Some(s.ram),
    };
    match ram1 {
        None => None,
        Some(rm) => Some(
            ProcView {
                regs: regs_after(s.regs, e),
                regs_dirty: regs_dirty_after(s.regs_dirty, e),
                ram: rm,
                pc: e.next_pc,
                misa: s.misa,
                mode: s.mode,
            },
        ),
    }
}

/// Run the machine from state `s` with `cycles` instructions already
/// executed, until it stops or `max_cycles` instructions have run.
pub open spec fn run_spec(s: ProcView, cycles: u32, max_cycles: u32) -> RunEnd
    decreases max_cycles - cycles,
{
    let idx = s.pc / 4;
    if !(idx < s.ram.dirty.len() && s.ram.dirty[idx as int]) {
        RunEnd {
            state: s,
            result: Ok(RunOutcome { reason: StopReason::ProgramEnd, cycles }),
        }
    } else if cycles >= max_cycles {
        RunEnd { state: s, result: Err(ExecError::Watchdog { cycles }) }
    } else {
        let w = s.ram.vals[idx as int];
        match decode_spec(w, s) {
            None => RunEnd { state: s, result: Err(ExecError::Decode { pc: s.pc, word: w }) },
            Some(e) => if e.halt {
                RunEnd {
                    state: s,
                    result: Ok(
                        RunOutcome { reason: StopReason::Sentinel, cycles: (cycles + 1) as u32 },
                    ),
                }
            } else if e.next_pc % 4 != 0 {
                RunEnd {
                    state: s,
                    result: Err(ExecError::MisalignedPc { pc: s.pc, target: e.next_pc }),
                }
            } else {
                match apply_effect(s, e) {
                    None => RunEnd {
                        state: s,
                        result: Err(ExecError::MemoryFull { pc: s.pc }),
                    },
                    Some(s2) => run_spec(s2, (cycles + 1) as u32, max_cycles),
                }
            },
        }
    }
}

/// The program counter is a multiple of 4 at every instruction boundary: a
/// run started on an aligned program counter ends on one.
pub proof fn lemma_run_aligned(s: ProcView, cycles: u32, max_cycles: u32)
    requires
        s.pc % 4 == 0,
    ensures
        run_spec(s, cycles, max_cycles).state.pc % 4 == 0,
    decreases max_cycles - cycles,
{
    let idx = s.pc / 4;
    if idx < s.ram.dirty.len() && s.ram.dirty[idx as int] && cycles < max_cycles {
        let w = s.ram.vals[idx as int];
        match decode_spec(w, s) {
            None => {},
            Some(e) => {
                if !e.halt && e.next_pc % 4 == 0 {
                    match apply_effect(s, e) {
                        None => {},
                        Some(s2) => {
                            lemma_run_aligned(s2, (cycles + 1) as u32, max_cycles);
                        },
                    }
                }
            },
        }
    }
}

/// ADDI with `imm = 0` and `rs1 = rd` is the identity: every register reads
/// as before, the memory is untouched, and the program counter moves by 4.
pub proof fn lemma_addi_identity(s: ProcView, w: u32)
    requires
        s.regs.len() == 32,
        opcode_of(w) == 0x13,
        funct3_of(w) == 0,
        rs1_of(w) == rd_of(w),
        imm_i_of(w) == 0,
    ensures
        decode_spec(w, s) is Some,
        apply_effect(s, decode_spec(w, s)->0) is Some,
        forall|i: int|
            0 <= i < 32 ==> reg_read(#[trigger] (apply_effect(s, decode_spec(w, s)->0)->0).regs, i)
                == reg_read(s.regs, i),
        (apply_effect(s, decode_spec(w, s)->0)->0).ram == s.ram,
        (apply_effect(s, decode_spec(w, s)->0)->0).pc == wrap_add(s.pc, 4),
{
    lemma_field_bounds(w);
    let e = decode_spec(w, s)->0;
    let rd = rd_of(w);
    assert(wrap_add(reg(s, rd), 0) == reg(s, rd));
    let after = apply_effect(s, e)->0;
    assert forall|i: int| 0 <= i < 32 implies reg_read(#[trigger] after.regs, i) == reg_read(
        s.regs,
        i,
    ) by {
        if rd == 0 {
            assert(reg(s, rd) == 0);
        } else {
            assert(reg(s, rd) == s.regs[rd as int]);
        }
    }
}

/// Drive the fetch/decode/execute loop until the machine stops or
/// `max_cycles` instructions have run. The processor is left in exactly the
/// state `run_spec` reaches, and the result is exactly its verdict; an
/// aligned program counter stays aligned.
pub fn stage2(proc: &mut Vproc, max_cycles: u32) -> (r: Result<RunOutcome, ExecError>)
    requires
        old(proc).wf(),
    ensures
        final(proc).wf(),
        final(proc)@ == run_spec(old(proc)@, 0, max_cycles).state,
        r == run_spec(old(proc)@, 0, max_cycles).result,
        old(proc)@.pc % 4 == 0 ==> final(proc)@.pc % 4 == 0,
{
    let mut cycles: u32 = 0;
    loop
        invariant
            proc.wf(),
            cycles <= max_cycles,
            run_spec(proc@, cycles, max_cycles) == run_spec(old(proc)@, 0, max_cycles),
            old(proc)@.pc % 4 == 0 ==> proc@.pc % 4 == 0,
        decreases max_cycles - cycles,
    {
        let ghost s_pre = proc@;
        let pcv = proc.pc();
        let idx = (pcv / 4) as usize;
        let cap = proc.memory().capacity();
        if idx >= cap {
            return Ok(RunOutcome { reason: StopReason::ProgramEnd, cycles });
        }
        if !proc.memory().is_dirty(idx) {
            return Ok(RunOutcome { reason: StopReason::ProgramEnd, cycles });
        }
        if cycles >= max_cycles {
            return Err(ExecError::Watchdog { cycles });
        }
        let word = proc.memory().read(idx);
        match instruction_decoder(word, proc) {
            Err(e) => {
                return Err(ExecError::Decode { pc: e.pc, word: e.word });
            },
            Ok(e) => {
                if e.halt {
                    return Ok(
                        RunOutcome { reason: StopReason::Sentinel, cycles: cycles + 1 },
                    );
                }
                if e.next_pc % 4 != 0 {
                    return Err(ExecError::MisalignedPc { pc: pcv, target: e.next_pc });
                }
                match proc.update_ram(&e) {
                    Err(_) => {
                        return Err(ExecError::MemoryFull { pc: pcv });
                    },
                    Ok(()) => {},
                }
                proc.update_regs(&e);
                proc.set_pc(e.next_pc);
                proof {
                    assert(proc@ == apply_effect(s_pre, e)->0);
                    assert(run_spec(s_pre, cycles, max_cycles) == run_spec(
                        proc@,
                        (cycles + 1) as u32,
                        max_cycles,
                    ));
                }
                cycles = cycles + 1;
            },
        }
    }
}

} // verus!
