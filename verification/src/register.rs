//! The architectural register file: 32 word-sized slots with per-slot dirty
//! markers. Register `x0` is hard-wired to zero on every read, whatever was
//! stored in its slot.

use vstd::prelude::*;

use crate::REG_SIZE;

verus! {

/// Spec-level view of the register file: the stored slot values and the dirty
/// markers, both of length 32.
pub struct RegisterView {
    pub vals: Seq<u32>,
    pub dirty: Seq<bool>,
}

/// What a read of slot `i` yields: zero for `x0`, the stored value otherwise.
pub open spec fn reg_read(vals: Seq<u32>, i: int) -> u32 {
    if i == 0 {
        0
    } else {
        vals[i]
    }
}

/// A write then a read of the same slot `i != 0` yields the written value.
pub proof fn lemma_write_then_read(vals: Seq<u32>, i: int, v: u32)
    requires
        0 < i < vals.len(),
    ensures
        reg_read(vals.update(i, v), i) == v,
{
}

/// A write to one slot does not disturb a read of another.
pub proof fn lemma_write_other_slot(vals: Seq<u32>, i: int, j: int, v: u32)
    requires
        0 <= i < vals.len(),
        0 <= j < vals.len(),
        i != j,
    ensures
        reg_read(vals.update(i, v), j) == reg_read(vals, j),
{
}

/// A read of slot 0 yields zero whatever the stored values are.
pub proof fn lemma_read_zero_register(vals: Seq<u32>)
    ensures
        reg_read(vals, 0) == 0,
{
}

/// The register file.
pub struct Register {
    regs: Vec<u32>,
    dirty_bit: Vec<bool>,
}

impl View for Register {
    type V = RegisterView;

    closed spec fn view(&self) -> RegisterView {
        RegisterView { vals: self.regs@, dirty: self.dirty_bit@ }
    }
}

impl Register {
    /// The slot and marker banks both hold exactly 32 entries.
    pub open spec fn wf(&self) -> bool {
        &&& self@.vals.len() == REG_SIZE
        &&& self@.dirty.len() == REG_SIZE
    }

    /// A fresh register file: every slot zero, every marker clear.
    pub fn new() -> (r: Register)
        ensures
            r.wf(),
            r@.vals == Seq::new(REG_SIZE as nat, |i: int| 0u32),
            r@.dirty == Seq::new(REG_SIZE as nat, |i: int| false),
    {
        let mut regs: Vec<u32> = Vec::new();
        let mut dirty_bit: Vec<bool> = Vec::new();
        let mut i: usize = 0;
        while i < REG_SIZE
            invariant
                i <= REG_SIZE,
                regs@ =~= Seq::new(i as nat, |j: int| 0u32),
                dirty_bit@ =~= Seq::new(i as nat, |j: int| false),
            decreases REG_SIZE - i,
        {
            regs.push(0);
            dirty_bit.push(false);
            i = i + 1;
        }
        proof {
            assert(regs@ =~= Seq::new(REG_SIZE as nat, |i: int| 0u32));
            assert(dirty_bit@ =~= Seq::new(REG_SIZE as nat, |i: int| false));
        }
        Register { regs, dirty_bit }
    }

    /// Read slot `index`; a read of slot 0 yields 0 regardless of prior
    /// writes.
    pub fn read(&self, index: usize) -> (r: u32)
        requires
            self.wf(),
            index < REG_SIZE,
        ensures
            r == reg_read(self@.vals, index as int),
    {
        if index == 0 {
            0
        } else {
            self.regs[index]
        }
    }

    /// Whether slot `index` has been written since the last reset.
    pub fn is_dirty(&self, index: usize) -> (r: bool)
        requires
            self.wf(),
            index < REG_SIZE,
        ensures
            r == self@.dirty[index as int],
    {
        self.dirty_bit[index]
    }

    /// Write `data` to slot `index` and mark the slot dirty.
    pub fn write(&mut self, index: usize, data: u32)
        requires
            old(self).wf(),
            index < REG_SIZE,
        ensures
            final(self).wf(),
            final(self)@.vals == old(self)@.vals.update(index as int, data),
            final(self)@.dirty == old(self)@.dirty.update(index as int, true),
    {
        self.regs.set(index, data);
        self.dirty_bit.set(index, true);
    }

    /// Clear every slot and every dirty marker.
    pub fn reset(&mut self)
        requires
            old(self).wf(),
        ensures
            final(self).wf(),
            final(self)@.vals == Seq::new(REG_SIZE as nat, |i: int| 0u32),
            final(self)@.dirty == Seq::new(REG_SIZE as nat, |i: int| false),
    {
        let mut i: usize = 0;
        while i < REG_SIZE
            invariant
                i <= REG_SIZE,
                self.wf(),
                forall|j: int| 0 <= j < i ==> self@.vals[j] == 0u32 && self@.dirty[j] == false,
            decreases REG_SIZE - i,
        {
            self.regs.set(i, 0);
            self.dirty_bit.set(i, false);
            i = i + 1;
        }
        proof {
            assert(self@.vals =~= Seq::new(REG_SIZE as nat, |i: int| 0u32));
            assert(self@.dirty =~= Seq::new(REG_SIZE as nat, |i: int| false));
        }
    }
}

/// Startup self-test of the register file: every writable slot returns what
/// was written, slot 0 reads as zero, and the bank is left reset.
pub fn register_tests(reg_size: usize, rut: &mut Register)
    requires
        old(rut).wf(),
        reg_size == REG_SIZE,
    ensures
        final(rut).wf(),
        final(rut)@.vals == Seq::new(REG_SIZE as nat, |i: int| 0u32),
        final(rut)@.dirty == Seq::new(REG_SIZE as nat, |i: int| false),
{
    rut.write(0, 1);
    let x0 = rut.read(0);
    assert(x0 == 0);
    let mut i: usize = 1;
    while i < reg_size
        invariant
            1 <= i <= REG_SIZE,
            reg_size == REG_SIZE,
            rut.wf(),
        decreases reg_size - i,
    {
        rut.write(i, 1);
        let r = rut.read(i);
        assert(r == 1);
        i = i + 1;
    }
    rut.reset();
}

} // verus!
