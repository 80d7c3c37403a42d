//! The virtual processor: a register file, a memory, a program counter, a
//! `misa` descriptor and a privilege mode, together with the merge operations
//! that apply a decoded effect to the live state.

use vstd::prelude::*;
use vstd::string::StringExecFns;

use crate::bits::wrap_add;
use crate::decoder::{regs_after, regs_dirty_after, Effect};
use crate::ram::{ram_store, MemError, RamView, RAM};
use crate::register::Register;
use crate::REG_SIZE;

verus! {

/// Privilege modes; informational only in this revision.
#[derive(Clone, Copy, Debug, PartialEq, Eq, Structural)]
pub enum Mode {
    User,
    Supervisor,
    Machine,
}

/// Spec-level view of the whole architectural state.
pub struct ProcView {
    pub regs: Seq<u32>,
    pub regs_dirty: Seq<bool>,
    pub ram: RamView,
    pub pc: u32,
    pub misa: u32,
    pub mode: Mode,
}

/// The letter contributed by one extension bit of `misa`.
pub open spec fn letter_if(m: u32, bit: u32, c: char) -> Seq<char> {
    if (m >> bit) & 1 == 1 {
        seq![c]
    } else {
        Seq::empty()
    }
}

/// The extension letters implied by a `misa` value, in canonical
/// A-B-C-D-E-F-I-M-P order.
pub open spec fn misa_letters(m: u32) -> Seq<char> {
    letter_if(m, 0, 'A') + letter_if(m, 1, 'B') + letter_if(m, 2, 'C') + letter_if(m, 3, 'D')
        + letter_if(m, 4, 'E') + letter_if(m, 5, 'F') + letter_if(m, 8, 'I') + letter_if(
        m,
        12,
        'M',
    ) + letter_if(m, 15, 'P')
}

/// The virtual processor.
pub struct Vproc {
    regs: Register,
    misa: u32,
    pc: u32,
    mode: Mode,
    ram_module: RAM,
}

impl View for Vproc {
    type V = ProcView;

    closed spec fn view(&self) -> ProcView {
        ProcView {
            regs: self.regs@.vals,
            regs_dirty: self.regs@.dirty,
            ram: self.ram_module@,
            pc: self.pc,
            misa: self.misa,
            mode: self.mode,
        }
    }
}

impl Vproc {
    /// The register file and the memory are well-formed.
    pub open spec fn wf(&self) -> bool {
        &&& self@.regs.len() == REG_SIZE
        &&& self@.regs_dirty.len() == REG_SIZE
        &&& self@.ram.addrs.len() == self@.ram.vals.len()
        &&& self@.ram.dirty.len() == self@.ram.vals.len()
    }

    /// Assemble a processor from its parts.
    pub fn new(regs: Register, misa: u32, pc: u32, mode: Mode, ram_module: RAM) -> (r: Vproc)
        requires
            regs.wf(),
            ram_module.wf(),
        ensures
            r.wf(),
            r@.regs == regs@.vals,
            r@.regs_dirty == regs@.dirty,
            r@.ram == ram_module@,
            r@.pc == pc,
            r@.misa == misa,
            r@.mode == mode,
    {
        Vproc { regs, misa, pc, mode, ram_module }
    }

    /// The program counter.
    pub fn pc(&self) -> (r: u32)
        ensures
            r == self@.pc,
    {
        self.pc
    }

    /// The `misa` descriptor.
    pub fn misa(&self) -> (r: u32)
        ensures
            r == self@.misa,
    {
        self.misa
    }

    /// The privilege mode.
    pub fn mode(&self) -> (r: Mode)
        ensures
            r == self@.mode,
    {
        self.mode
    }

    /// The register file.
    pub fn reg_file(&self) -> (r: &Register)
        requires
            self.wf(),
        ensures
            r.wf(),
            r@.vals == self@.regs,
            r@.dirty == self@.regs_dirty,
    {
        &self.regs
    }

    /// The memory.
    pub fn memory(&self) -> (r: &RAM)
        requires
            self.wf(),
        ensures
            r.wf(),
            r@ == self@.ram,
    {
        &self.ram_module
    }

    /// Reset the processor: program counter to 0, registers and memory values
    /// cleared.
    pub fn reset(&mut self)
        requires
            old(self).wf(),
        ensures
            final(self).wf(),
            final(self)@.pc == 0,
            final(self)@.regs == Seq::new(REG_SIZE as nat, |i: int| 0u32),
            final(self)@.regs_dirty == Seq::new(REG_SIZE as nat, |i: int| false),
            final(self)@.ram.addrs == old(self)@.ram.addrs,
            final(self)@.ram.vals == Seq::new(old(self)@.ram.vals.len(), |i: int| 0u32),
            final(self)@.ram.dirty == Seq::new(old(self)@.ram.vals.len(), |i: int| false),
            final(self)@.misa == old(self)@.misa,
            final(self)@.mode == old(self)@.mode,
    {
        self.pc = 0;
        self.regs.reset();
        self.ram_module.reset();
    }

    /// Advance the program counter by `value`, wrapping at 2^32.
    pub fn pc_incr(&mut self, value: u32)
        requires
            old(self).wf(),
        ensures
            final(self).wf(),
            final(self)@ == (ProcView { pc: wrap_add(old(self)@.pc, value), ..old(self)@ }),
    {
        self.pc = self.pc.wrapping_add(value);
    }

    /// Set the program counter.
    pub fn set_pc(&mut self, value: u32)
        requires
            old(self).wf(),
        ensures
            final(self).wf(),
            final(self)@ == (ProcView { pc: value, ..old(self)@ }),
    {
        self.pc = value;
    }

    /// Merge the register write of an effect into the live register file.
    pub fn update_regs(&mut self, e: &Effect)
        requires
            old(self).wf(),
            e.wf(),
        ensures
            final(self).wf(),
            final(self)@ == (ProcView {
                regs: regs_after(old(self)@.regs, *e),
                regs_dirty: regs_dirty_after(old(self)@.regs_dirty, *e),
                ..old(self)@
            }),
    {
        match &e.reg_write {
            Some(rw) => {
                self.regs.write(rw.rd as usize, rw.value);
            },
            None => {},
        }
    }

    /// Merge the memory write of an effect into the live memory; fails when
    /// the memory is full.
    pub fn update_ram(&mut self, e: &Effect) -> (r: Result<(), MemError>)
        requires
            old(self).wf(),
        ensures
            final(self).wf(),
            match e.mem_write {
                Some(mw) => match ram_store(old(self)@.ram, mw.addr, mw.value) {
                    Some(w) => r is Ok && final(self)@ == (ProcView { ram: w, ..old(self)@ }),
                    None => r is Err && final(self)@ == old(self)@,
                },
                None => r is Ok && final(self)@ == old(self)@,
            },
    {
        match &e.mem_write {
            Some(mw) => self.ram_module.write_to_addr(mw.addr, mw.value),
            None => Ok(()),
        }
    }

    /// Append the letter of one extension bit of `m` to `s`.
    fn push_letter(s: &mut String, m: u32, bit: u32, letter: &str)
        requires
            bit < 32,
            letter@.len() == 1,
        ensures
            final(s)@ == old(s)@ + letter_if(m, bit, letter@[0]),
    {
        if (m >> bit) & 1 == 1 {
            s.append(letter);
            proof {
                assert(letter@ =~= letter_if(m, bit, letter@[0]));
            }
        } else {
            proof {
                assert(old(s)@ + letter_if(m, bit, letter@[0]) =~= old(s)@);
            }
        }
    }

    /// The extension letters of the `misa` descriptor, in canonical order.
    pub fn misa_slice(&self) -> (r: String)
        ensures
            r@ == misa_letters(self@.misa),
    {
        let m = self.misa;
        let mut s = String::new();
        proof {
            reveal_strlit("A");
            reveal_strlit("B");
            reveal_strlit("C");
            reveal_strlit("D");
            reveal_strlit("E");
            reveal_strlit("F");
            reveal_strlit("I");
            reveal_strlit("M");
            reveal_strlit("P");
            assert(s@ =~= Seq::<char>::empty());
        }
        Self::push_letter(&mut s, m, 0, "A");
        proof {
            assert(Seq::<char>::empty() + letter_if(m, 0, 'A') =~= letter_if(m, 0, 'A'));
        }
        Self::push_letter(&mut s, m, 1, "B");
        Self::push_letter(&mut s, m, 2, "C");
        Self::push_letter(&mut s, m, 3, "D");
        Self::push_letter(&mut s, m, 4, "E");
        Self::push_letter(&mut s, m, 5, "F");
        Self::push_letter(&mut s, m, 8, "I");
        Self::push_letter(&mut s, m, 12, "M");
        Self::push_letter(&mut s, m, 15, "P");
        s
    }
}

} // verus!
