//! Word-addressable memory: a bank of cells, each carrying a byte address, a
//! 32-bit value and a dirty marker. Cells are reachable both by index and by
//! the address stored in them. A write to an address updates the cell already
//! bound to that address if one exists, and otherwise allocates the
//! lowest-indexed clean cell; a read from an address yields the value of the
//! first cell bound to it, or 0 when none is.

use vstd::prelude::*;

use crate::RAM_SIZE;

verus! {

/// Spec-level view of the memory: the per-cell addresses, values and dirty
/// markers, all of the same length.
pub struct RamView {
    pub addrs: Seq<u32>,
    pub vals: Seq<u32>,
    pub dirty: Seq<bool>,
}

/// The three per-cell banks have the same length.
pub open spec fn ram_wf(v: RamView) -> bool {
    &&& v.addrs.len() == v.vals.len()
    &&& v.dirty.len() == v.vals.len()
}

/// The first cell at or after `i` that is dirty and bound to `addr`.
pub open spec fn match_from(v: RamView, addr: u32, i: int) -> Option<int>
    decreases v.vals.len() - i,
{
    if i < 0 || i >= v.vals.len() {
        None
    } else if v.dirty[i] && v.addrs[i] == addr {
        Some(i)
    } else {
        match_from(v, addr, i + 1)
    }
}

/// The cell bound to `addr`, if any.
pub open spec fn cell_of(v: RamView, addr: u32) -> Option<int> {
    match_from(v, addr, 0)
}

/// The first clean cell at or after `i`, if any.
pub open spec fn free_from(v: RamView, i: int) -> Option<int>
    decreases v.vals.len() - i,
{
    if i < 0 || i >= v.vals.len() {
        None
    } else if !v.dirty[i] {
        Some(i)
    } else {
        free_from(v, i + 1)
    }
}

/// What a read from `addr` yields: the value of the cell bound to it, or 0
/// when no cell is.
pub open spec fn ram_load(v: RamView, addr: u32) -> u32 {
    match cell_of(v, addr) {
        Some(i) => v.vals[i],
        None => 0,
    }
}

/// What a write of `val` to `addr` produces: the bound cell updated in place,
/// or the first clean cell allocated, or `None` when the memory is full.
pub open spec fn ram_store(v: RamView, addr: u32, val: u32) -> Option<RamView> {
    match cell_of(v, addr) {
        Some(i) => Some(RamView { addrs: v.addrs, vals: v.vals.update(i, val), dirty: v.dirty }),
        None => match free_from(v, 0) {
            Some(j) => Some(
                RamView {
                    addrs: v.addrs.update(j, addr),
                    vals: v.vals.update(j, val),
                    dirty: v.dirty.update(j, true),
                },
            ),
            None => None,
        },
    }
}

/// If no cell in `[0, i)` matches `addr`, the search may start at `i`.
proof fn lemma_match_skip(v: RamView, addr: u32, i: int)
    requires
        0 <= i <= v.vals.len(),
        ram_wf(v),
        forall|j: int| 0 <= j < i ==> !(v.dirty[j] && v.addrs[j] == addr),
    ensures
        cell_of(v, addr) == match_from(v, addr, i),
    decreases i,
{
    if i > 0 {
        lemma_match_skip_step(v, addr, i - 1);
        lemma_match_skip(v, addr, i - 1);
    }
}

/// One step of the search: a non-matching cell at `i` is skipped.
proof fn lemma_match_skip_step(v: RamView, addr: u32, i: int)
    requires
        0 <= i < v.vals.len(),
        ram_wf(v),
        !(v.dirty[i] && v.addrs[i] == addr),
    ensures
        match_from(v, addr, i) == match_from(v, addr, i + 1),
{
}

/// If no cell in `[0, i)` is clean, the search for a free cell may start at
/// `i`.
proof fn lemma_free_skip(v: RamView, i: int)
    requires
        0 <= i <= v.vals.len(),
        ram_wf(v),
        forall|j: int| 0 <= j < i ==> v.dirty[j],
    ensures
        free_from(v, 0) == free_from(v, i),
    decreases i,
{
    if i > 0 {
        lemma_free_skip(v, i - 1);
    }
}

/// The matching cell, when there is one, is dirty, bound to `addr`, and the
/// first such cell.
pub proof fn lemma_match_from_props(v: RamView, addr: u32, i: int)
    requires
        ram_wf(v),
        0 <= i,
    ensures
        match match_from(v, addr, i) {
            Some(k) => {
                &&& i <= k < v.vals.len()
                &&& v.dirty[k] && v.addrs[k] == addr
                &&& forall|j: int| i <= j < k ==> !(v.dirty[j] && v.addrs[j] == addr)
            },
            None => forall|j: int| i <= j < v.vals.len() ==> !(v.dirty[j] && v.addrs[j] == addr),
        },
    decreases v.vals.len() - i,
{
    if i < v.vals.len() && !(v.dirty[i] && v.addrs[i] == addr) {
        lemma_match_from_props(v, addr, i + 1);
    }
}

/// The free cell, when there is one, is clean and the first clean cell.
pub proof fn lemma_free_from_props(v: RamView, i: int)
    requires
        ram_wf(v),
        0 <= i,
    ensures
        match free_from(v, i) {
            Some(k) => {
                &&& i <= k < v.vals.len()
                &&& !v.dirty[k]
                &&& forall|j: int| i <= j < k ==> v.dirty[j]
            },
            None => forall|j: int| i <= j < v.vals.len() ==> v.dirty[j],
        },
    decreases v.vals.len() - i,
{
    if i < v.vals.len() && v.dirty[i] {
        lemma_free_from_props(v, i + 1);
    }
}

/// A store to an address followed by a load from the same address yields the
/// stored value.
pub proof fn lemma_store_then_load(v: RamView, addr: u32, val: u32)
    requires
        ram_wf(v),
        ram_store(v, addr, val) is Some,
    ensures
        ram_load(ram_store(v, addr, val)->0, addr) == val,
{
    let w = ram_store(v, addr, val)->0;
    lemma_match_from_props(v, addr, 0);
    match cell_of(v, addr) {
        Some(i) => {
            assert(forall|j: int| 0 <= j < i ==> !(w.dirty[j] && w.addrs[j] == addr));
            lemma_match_skip(w, addr, i);
        },
        None => {
            lemma_free_from_props(v, 0);
            let j = free_from(v, 0)->0;
            assert(forall|k: int| 0 <= k < j ==> !(w.dirty[k] && w.addrs[k] == addr));
            lemma_match_skip(w, addr, j);
        },
    }
}

/// A store to one address does not disturb a load from another.
pub proof fn lemma_store_preserves_other(v: RamView, addr: u32, other: u32, val: u32)
    requires
        ram_wf(v),
        addr != other,
        ram_store(v, addr, val) is Some,
    ensures
        ram_load(ram_store(v, addr, val)->0, other) == ram_load(v, other),
{
    let w = ram_store(v, addr, val)->0;
    lemma_match_from_props(v, addr, 0);
    if cell_of(v, addr) is None {
        lemma_free_from_props(v, 0);
    }
    assert(ram_wf(w));
    assert(forall|j: int|
        0 <= j < v.vals.len() ==> ((v.dirty[j] && v.addrs[j] == other) <==> (w.dirty[j]
            && w.addrs[j] == other)));
    assert(forall|j: int|
        0 <= j < v.vals.len() && v.dirty[j] && v.addrs[j] == other ==> v.vals[j] == w.vals[j]);
    lemma_match_same_cells(v, w, other, 0);
}

/// Two views whose cells match `addr` identically have the same search
/// result, and the values at the found cell agree.
proof fn lemma_match_same_cells(v: RamView, w: RamView, addr: u32, i: int)
    requires
        ram_wf(v),
        ram_wf(w),
        v.vals.len() == w.vals.len(),
        0 <= i,
        forall|j: int|
            0 <= j < v.vals.len() ==> ((v.dirty[j] && v.addrs[j] == addr) <==> (w.dirty[j]
                && w.addrs[j] == addr)),
        forall|j: int| 0 <= j < v.vals.len() && v.dirty[j] && v.addrs[j] == addr ==> v.vals[j] == w.vals[j],
    ensures
        match_from(v, addr, i) == match_from(w, addr, i),
        match match_from(v, addr, i) {
            Some(k) => v.vals[k] == w.vals[k],
            None => true,
        },
    decreases v.vals.len() - i,
{
    if 0 <= i < v.vals.len() {
        if v.dirty[i] && v.addrs[i] == addr {
        } else {
            lemma_match_same_cells(v, w, addr, i + 1);
        }
    }
}

/// The memory bank.
pub struct RAM {
    address: Vec<u32>,
    ram_module: Vec<u32>,
    dirty_bit: Vec<bool>,
}

impl View for RAM {
    type V = RamView;

    closed spec fn view(&self) -> RamView {
        RamView { addrs: self.address@, vals: self.ram_module@, dirty: self.dirty_bit@ }
    }
}

impl RAM {
    /// The three banks have the same length.
    pub open spec fn wf(&self) -> bool {
        ram_wf(self@)
    }

    /// A fresh memory of `RAM_SIZE` cells: addresses and values zero, markers
    /// clear.
    pub fn new() -> (r: RAM)
        ensures
            r.wf(),
            r@.vals.len() == RAM_SIZE,
            r@.addrs == Seq::new(RAM_SIZE as nat, |i: int| 0u32),
            r@.vals == Seq::new(RAM_SIZE as nat, |i: int| 0u32),
            r@.dirty == Seq::new(RAM_SIZE as nat, |i: int| false),
    {
        let mut address: Vec<u32> = Vec::new();
        let mut ram_module: Vec<u32> = Vec::new();
        let mut dirty_bit: Vec<bool> = Vec::new();
        let mut i: usize = 0;
        while i < RAM_SIZE
            invariant
                i <= RAM_SIZE,
                address@ =~= Seq::new(i as nat, |j: int| 0u32),
                ram_module@ =~= Seq::new(i as nat, |j: int| 0u32),
                dirty_bit@ =~= Seq::new(i as nat, |j: int| false),
            decreases RAM_SIZE - i,
        {
            address.push(0);
            ram_module.push(0);
            dirty_bit.push(false);
            i = i + 1;
        }
        proof {
            assert(address@ =~= Seq::new(RAM_SIZE as nat, |i: int| 0u32));
            assert(ram_module@ =~= Seq::new(RAM_SIZE as nat, |i: int| 0u32));
            assert(dirty_bit@ =~= Seq::new(RAM_SIZE as nat, |i: int| false));
        }
        RAM { address, ram_module, dirty_bit }
    }

    /// Number of cells.
    pub fn capacity(&self) -> (r: usize)
        requires
            self.wf(),
        ensures
            r == self@.vals.len(),
    {
        self.ram_module.len()
    }

    /// Read the value of the cell at `index`.
    pub fn read(&self, index: usize) -> (r: u32)
        requires
            self.wf(),
            index < self@.vals.len(),
        ensures
            r == self@.vals[index as int],
    {
        self.ram_module[index]
    }

    /// The address bound to the cell at `index`.
    pub fn addr_at(&self, index: usize) -> (r: u32)
        requires
            self.wf(),
            index < self@.vals.len(),
        ensures
            r == self@.addrs[index as int],
    {
        self.address[index]
    }

    /// Whether the cell at `index` has been written since the last reset.
    pub fn is_dirty(&self, index: usize) -> (r: bool)
        requires
            self.wf(),
            index < self@.vals.len(),
        ensures
            r == self@.dirty[index as int],
    {
        self.dirty_bit[index]
    }

    /// Write `data` to the cell at `index` and mark it dirty; the bound
    /// address is unchanged.
    pub fn write(&mut self, index: usize, data: u32)
        requires
            old(self).wf(),
            index < old(self)@.vals.len(),
        ensures
            final(self).wf(),
            final(self)@.addrs == old(self)@.addrs,
            final(self)@.vals == old(self)@.vals.update(index as int, data),
            final(self)@.dirty == old(self)@.dirty.update(index as int, true),
    {
        self.ram_module.set(index, data);
        self.dirty_bit.set(index, true);
    }

    /// Bind the cell at `index` to `addr` and write `data` to it; this is the
    /// loader's deposit into a known cell.
    pub fn write_with_addr(&mut self, index: usize, addr: u32, data: u32)
        requires
            old(self).wf(),
            index < old(self)@.vals.len(),
        ensures
            final(self).wf(),
            final(self)@.addrs == old(self)@.addrs.update(index as int, addr),
            final(self)@.vals == old(self)@.vals.update(index as int, data),
            final(self)@.dirty == old(self)@.dirty.update(index as int, true),
    {
        self.address.set(index, addr);
        self.ram_module.set(index, data);
        self.dirty_bit.set(index, true);
    }

    /// Read the value bound to `addr`, or 0 when no cell is bound to it.
    pub fn read_from_addr(&self, addr: u32) -> (r: u32)
        requires
            self.wf(),
        ensures
            r == ram_load(self@, addr),
    {
        let n = self.ram_module.len();
        let mut i: usize = 0;
        while i < n
            invariant
                self.wf(),
                n == self@.vals.len(),
                i <= n,
                forall|j: int| 0 <= j < i ==> !(self@.dirty[j] && self@.addrs[j] == addr),
            decreases n - i,
        {
            if self.dirty_bit[i] && self.address[i] == addr {
                proof {
                    lemma_match_skip(self@, addr, i as int);
                }
                return self.ram_module[i];
            }
            i = i + 1;
        }
        proof {
            lemma_match_skip(self@, addr, n as int);
        }
        0
    }

    /// Write `data` to the cell bound to `addr`, allocating the
    /// lowest-indexed clean cell when none is bound; fails when every cell is
    /// dirty and none is bound to `addr`.
    pub fn write_to_addr(&mut self, addr: u32, data: u32) -> (r: Result<(), MemError>)
        requires
            old(self).wf(),
        ensures
            final(self).wf(),
            match ram_store(old(self)@, addr, data) {
                Some(w) => r is Ok && final(self)@ == w,
                None => r is Err && final(self)@ == old(self)@,
            },
    {
        let n = self.ram_module.len();
        let mut i: usize = 0;
        while i < n
            invariant
                self.wf(),
                self@ == old(self)@,
                n == self@.vals.len(),
                i <= n,
                forall|j: int| 0 <= j < i ==> !(self@.dirty[j] && self@.addrs[j] == addr),
            decreases n - i,
        {
            if self.dirty_bit[i] && self.address[i] == addr {
                proof {
                    lemma_match_skip(self@, addr, i as int);
                }
                self.ram_module.set(i, data);
                return Ok(());
            }
            i = i + 1;
        }
        proof {
            lemma_match_skip(self@, addr, n as int);
        }
        let mut j: usize = 0;
        while j < n
            invariant
                self.wf(),
                self@ == old(self)@,
                cell_of(self@, addr) is None,
                n == self@.vals.len(),
                j <= n,
                forall|k: int| 0 <= k < j ==> self@.dirty[k],
            decreases n - j,
        {
            if !self.dirty_bit[j] {
                proof {
                    lemma_free_skip(self@, j as int);
                }
                self.address.set(j, addr);
                self.ram_module.set(j, data);
                self.dirty_bit.set(j, true);
                return Ok(());
            }
            j = j + 1;
        }
        proof {
            lemma_free_skip(self@, n as int);
        }
        Err(MemError::Full)
    }

    /// Clear every value and every dirty marker; bound addresses are kept.
    pub fn reset(&mut self)
        requires
            old(self).wf(),
        ensures
            final(self).wf(),
            final(self)@.addrs == old(self)@.addrs,
            final(self)@.vals == Seq::new(old(self)@.vals.len(), |i: int| 0u32),
            final(self)@.dirty == Seq::new(old(self)@.vals.len(), |i: int| false),
    {
        let n = self.ram_module.len();
        let mut i: usize = 0;
        while i < n
            invariant
                self.wf(),
                n == self@.vals.len(),
                i <= n,
                self@.addrs == old(self)@.addrs,
                forall|j: int| 0 <= j < i ==> self@.vals[j] == 0u32 && self@.dirty[j] == false,
            decreases n - i,
        {
            self.ram_module.set(i, 0);
            self.dirty_bit.set(i, false);
            i = i + 1;
        }
        proof {
            assert(self@.vals =~= Seq::new(old(self)@.vals.len(), |i: int| 0u32));
            assert(self@.dirty =~= Seq::new(old(self)@.vals.len(), |i: int| false));
        }
    }
}

/// Failure of a write to an address: every cell is dirty and none is bound to
/// the requested address.
#[derive(Clone, Copy, Debug, PartialEq, Eq, Structural)]
pub enum MemError {
    Full,
}

/// Startup self-test of the memory: every cell returns what was written by
/// index, and the bank is left reset.
pub fn ram_tests(ram_size: usize, rut: &mut RAM)
    requires
        old(rut).wf(),
        ram_size == old(rut)@.vals.len(),
    ensures
        final(rut).wf(),
        final(rut)@.addrs == old(rut)@.addrs,
        final(rut)@.vals == Seq::new(old(rut)@.vals.len(), |i: int| 0u32),
        final(rut)@.dirty == Seq::new(old(rut)@.vals.len(), |i: int| false),
{
    let mut i: usize = 0;
    while i < ram_size
        invariant
            i <= ram_size,
            rut.wf(),
            ram_size == rut@.vals.len(),
            rut@.addrs == old(rut)@.addrs,
        decreases ram_size - i,
    {
        rut.write(i, 1);
        let r = rut.read(i);
        assert(r == 1);
        i = i + 1;
    }
    rut.reset();
}

} // verus!
