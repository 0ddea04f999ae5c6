//! The allocator: a slab of reference-counted buffers addressed by index.
use vstd::prelude::*;

use crate::cell::{integer_reading, Cell};
use crate::error::KrkErr;

verus! {

/// What a buffer holds.
pub enum BufferModel {
    Empty,
    Cells(Seq<Cell>),
    Data(Seq<Cell>),
    Bytes(Seq<u8>),
}

/// What an allocation holds: its reference count and its buffer.
pub struct AllocModel {
    pub ref_count: int,
    pub buffer: BufferModel,
}

/// What the allocator holds: its slots and the indices free for reuse.
pub struct AllocsModel {
    pub slots: Seq<AllocModel>,
    pub free: Seq<usize>,
}

/// A freed slot.
pub open spec fn empty_alloc() -> AllocModel {
    AllocModel { ref_count: 0, buffer: BufferModel::Empty }
}

/// A new cell buffer of `size` zeros, held once.
pub open spec fn fresh_data(size: nat) -> AllocModel {
    AllocModel { ref_count: 1, buffer: BufferModel::Data(Seq::new(size, |i: int| Cell::Integer(0))) }
}

/// A new byte buffer of `size` zeros, held once.
pub open spec fn fresh_bytes(size: nat) -> AllocModel {
    AllocModel { ref_count: 1, buffer: BufferModel::Bytes(Seq::new(size, |i: int| 0u8)) }
}

impl AllocsModel {
    /// Every free index names an empty slot, and none is listed twice.
    pub open spec fn wf(self) -> bool {
        &&& forall|k: int|
            0 <= k < self.free.len() ==> #[trigger] self.free[k] < self.slots.len()
                && self.slots[self.free[k] as int].buffer is Empty
        &&& forall|j: int, k: int|
            0 <= j < k < self.free.len() ==> #[trigger] self.free[j] != #[trigger] self.free[k]
    }

    /// The index that the next allocation takes: the last freed one, else a new one.
    pub open spec fn next_index(self) -> int {
        if self.free.len() > 0 {
            self.free.last() as int
        } else {
            self.slots.len() as int
        }
    }

    /// The allocator after placing `a` at `next_index`.
    pub open spec fn after_alloc(self, a: AllocModel) -> AllocsModel {
        if self.free.len() > 0 {
            AllocsModel { slots: self.slots.update(self.free.last() as int, a), free: self.free.drop_last() }
        } else {
            AllocsModel { slots: self.slots.push(a), free: self.free }
        }
    }

    /// The allocator after freeing slot `i`.
    pub open spec fn after_release(self, i: usize) -> AllocsModel {
        AllocsModel { slots: self.slots.update(i as int, empty_alloc()), free: self.free.push(i) }
    }

    /// Slot `i` holds a live buffer.
    pub open spec fn is_live(self, i: int) -> bool {
        0 <= i < self.slots.len() && !(self.slots[i].buffer is Empty)
    }

    /// Placing a live allocation keeps the allocator well formed.
    pub proof fn lemma_alloc_wf(self, a: AllocModel)
        requires
            self.wf(),
            !(a.buffer is Empty),
        ensures
            self.after_alloc(a).wf(),
            0 <= self.next_index() < self.after_alloc(a).slots.len(),
            self.after_alloc(a).slots[self.next_index()] == a,
    {
        let n = self.after_alloc(a);
        if self.free.len() > 0 {
            let last = self.free.len() - 1;
            assert forall|k: int| 0 <= k < n.free.len() implies #[trigger] n.free[k] < n.slots.len()
                && n.slots[n.free[k] as int].buffer is Empty by {
                assert(n.free[k] == self.free[k]);
                assert(self.free[k] != self.free[last]);
            }
            assert forall|j: int, k: int| 0 <= j < k < n.free.len() implies #[trigger] n.free[j]
                != #[trigger] n.free[k] by {
                assert(n.free[j] == self.free[j]);
                assert(n.free[k] == self.free[k]);
            }
        }
    }

    /// Freeing a live slot keeps the allocator well formed.
    pub proof fn lemma_release_wf(self, i: usize)
        requires
            self.wf(),
            self.is_live(i as int),
        ensures
            self.after_release(i).wf(),
    {
        let n = self.after_release(i);
        assert forall|k: int| 0 <= k < n.free.len() implies #[trigger] n.free[k] < n.slots.len()
            && n.slots[n.free[k] as int].buffer is Empty by {
            if k < self.free.len() {
                assert(n.free[k] == self.free[k]);
            }
        }
        assert forall|j: int, k: int| 0 <= j < k < n.free.len() implies #[trigger] n.free[j]
            != #[trigger] n.free[k] by {
            assert(n.free[j] == self.free[j]);
            if k < self.free.len() {
                assert(n.free[k] == self.free[k]);
            }
        }
    }
}

/// What a fetch from `offset` in slot `index` gives.
pub open spec fn fetch_result(m: AllocsModel, index: usize, offset: usize) -> Result<Cell, KrkErr> {
    if index >= m.slots.len() {
        Err(KrkErr::BufferNotFound)
    } else {
        match m.slots[index as int].buffer {
            BufferModel::Data(b) => if offset < b.len() {
                Ok(b[offset as int])
            } else {
                Err(KrkErr::IndexOutOfBounds)
            },
            BufferModel::Bytes(b) => if offset < b.len() {
                Ok(Cell::Integer(b[offset as int] as i64))
            } else {
                Err(KrkErr::IndexOutOfBounds)
            },
            _ => Err(KrkErr::WrongBuffer),
        }
    }
}

/// What a store of `cell` at `offset` in slot `index` reports. Both kinds of
/// buffer take numbers; a byte takes the number's integer reading, cut to
/// its low eight bits.
pub open spec fn store_result(m: AllocsModel, index: usize, offset: usize, cell: Cell) -> Result<(), KrkErr> {
    if index >= m.slots.len() {
        Err(KrkErr::BufferNotFound)
    } else {
        match m.slots[index as int].buffer {
            BufferModel::Data(b) => if offset >= b.len() {
                Err(KrkErr::IndexOutOfBounds)
            } else if cell is Integer || cell is Float {
                Ok(())
            } else {
                Err(KrkErr::WrongType)
            },
            BufferModel::Bytes(b) => if offset >= b.len() {
                Err(KrkErr::IndexOutOfBounds)
            } else if cell is Integer || cell is Float {
                Ok(())
            } else {
                Err(KrkErr::WrongType)
            },
            _ => Err(KrkErr::WrongBuffer),
        }
    }
}

/// The allocator after a successful store.
pub open spec fn after_store(m: AllocsModel, index: usize, offset: usize, cell: Cell) -> AllocsModel {
    let a = m.slots[index as int];
    let buffer = match a.buffer {
        BufferModel::Data(b) => BufferModel::Data(b.update(offset as int, cell)),
        BufferModel::Bytes(b) => BufferModel::Bytes(b.update(offset as int, #[verifier::truncate] (integer_reading(cell) as u8))),
        other => other,
    };
    AllocsModel { slots: m.slots.update(index as int, AllocModel { ref_count: a.ref_count, buffer }), ..m }
}

/// A buffer owned by the allocator.
#[derive(Debug)]
pub enum AllocBuffer {
    Empty,
    /// Reserved for strongly typed cell buffers; not supported yet.
    CellBuffer(Vec<Cell>),
    DataBuffer(Vec<Cell>),
    ByteBuffer(Vec<u8>),
}

impl View for AllocBuffer {
    type V = BufferModel;

    open spec fn view(&self) -> BufferModel {
        match self {
            AllocBuffer::Empty => BufferModel::Empty,
            AllocBuffer::CellBuffer(v) => BufferModel::Cells(v@),
            AllocBuffer::DataBuffer(v) => BufferModel::Data(v@),
            AllocBuffer::ByteBuffer(v) => BufferModel::Bytes(v@),
        }
    }
}

/// One allocation: a reference count and a buffer.
#[derive(Debug)]
pub struct Alloc {
    ref_count: usize,
    buffer: AllocBuffer,
}

impl View for Alloc {
    type V = AllocModel;

    closed spec fn view(&self) -> AllocModel {
        AllocModel { ref_count: self.ref_count as int, buffer: self.buffer@ }
    }
}

fn zero_cells(size: usize) -> (r: Vec<Cell>)
    ensures
        r@ == Seq::new(size as nat, |i: int| Cell::Integer(0)),
{
    let mut v: Vec<Cell> = Vec::new();
    let mut i: usize = 0;
    while i < size
        invariant
            i <= size,
            v@ == Seq::new(i as nat, |j: int| Cell::Integer(0)),
        decreases size - i,
    {
        v.push(Cell::Integer(0));
        i += 1;
        assert(v@ =~= Seq::new(i as nat, |j: int| Cell::Integer(0)));
    }
    v
}

fn zero_bytes(size: usize) -> (r: Vec<u8>)
    ensures
        r@ == Seq::new(size as nat, |i: int| 0u8),
{
    let mut v: Vec<u8> = Vec::new();
    let mut i: usize = 0;
    while i < size
        invariant
            i <= size,
            v@ == Seq::new(i as nat, |j: int| 0u8),
        decreases size - i,
    {
        v.push(0u8);
        i += 1;
        assert(v@ =~= Seq::new(i as nat, |j: int| 0u8));
    }
    v
}

impl Alloc {
    /// A freed slot.
    pub fn new_empty() -> (r: Self)
        ensures
            r@ == empty_alloc(),
    {
        Self { ref_count: 0, buffer: AllocBuffer::Empty }
    }

    /// A cell buffer of `size` zeros, held once.
    pub fn new_alloc(size: usize) -> (r: Self)
        ensures
            r@ == fresh_data(size as nat),
    {
        Self { ref_count: 1, buffer: AllocBuffer::DataBuffer(zero_cells(size)) }
    }

    /// A byte buffer of `size` zeros, held once.
    pub fn new_balloc(size: usize) -> (r: Self)
        ensures
            r@ == fresh_bytes(size as nat),
    {
        Self { ref_count: 1, buffer: AllocBuffer::ByteBuffer(zero_bytes(size)) }
    }

    /// The number of holders.
    pub fn ref_count(&self) -> (r: usize)
        ensures
            r == self@.ref_count,
    {
        self.ref_count
    }

    /// The buffer.
    pub fn buffer(&self) -> (r: &AllocBuffer)
        ensures
            r@ == self@.buffer,
    {
        &self.buffer
    }
}

/// The allocator: slots of allocations and a list of free slots.
#[derive(Debug)]
pub struct Allocs {
    allocs: Vec<Alloc>,
    free: Vec<usize>,
}

impl View for Allocs {
    type V = AllocsModel;

    closed spec fn view(&self) -> AllocsModel {
        AllocsModel { slots: self.allocs@.map_values(|a: Alloc| a@), free: self.free@ }
    }
}

impl Allocs {
    /// An allocator with no slot.
    pub fn new() -> (r: Self)
        ensures
            r@.slots.len() == 0,
            r@.free.len() == 0,
            r@.wf(),
    {
        let r = Self { allocs: Vec::new(), free: Vec::new() };
        assert(r@.slots =~= Seq::<AllocModel>::empty());
        r
    }

    /// The allocation in slot `index`, if the slot exists.
    pub fn alloc_at(&self, index: usize) -> (r: Option<&Alloc>)
        ensures
            index < self@.slots.len() ==> r is Some && r->0@ == self@.slots[index as int],
            index >= self@.slots.len() ==> r is None,
    {
        if index < self.allocs.len() {
            Some(&self.allocs[index])
        } else {
            None
        }
    }

    fn place(&mut self, a: Alloc) -> (r: usize)
        requires
            old(self)@.wf(),
            !(a@.buffer is Empty),
        ensures
            r == old(self)@.next_index(),
            final(self)@ == old(self)@.after_alloc(a@),
            final(self)@.wf(),
    {
        proof {
            old(self)@.lemma_alloc_wf(a@);
        }
        let ghost av = a@;
        if let Some(alloc_index) = self.free.pop() {
            self.allocs[alloc_index] = a;
            assert(self@.slots =~= old(self)@.slots.update(alloc_index as int, av));
            alloc_index
        } else {
            self.allocs.push(a);
            assert(self@.slots =~= old(self)@.slots.push(av));
            self.allocs.len() - 1
        }
    }

    /// Allocates a cell buffer of `size` zeros with a reference count of one,
    /// reusing the last freed slot if there is one.
    pub fn allocate(&mut self, size: usize) -> (r: usize)
        requires
            old(self)@.wf(),
        ensures
            r == old(self)@.next_index(),
            final(self)@ == old(self)@.after_alloc(fresh_data(size as nat)),
            final(self)@.wf(),
    {
        self.place(Alloc::new_alloc(size))
    }

    /// Allocates a byte buffer of `size` zeros with a reference count of one,
    /// reusing the last freed slot if there is one.
    pub fn balloc(&mut self, size: usize) -> (r: usize)
        requires
            old(self)@.wf(),
        ensures
            r == old(self)@.next_index(),
            final(self)@ == old(self)@.after_alloc(fresh_bytes(size as nat)),
            final(self)@.wf(),
    {
        self.place(Alloc::new_balloc(size))
    }

    /// Takes one more reference to a live buffer; false, with nothing changed,
    /// for a missing or freed slot, or a count already at its maximum.
    pub fn acquire(&mut self, alloc_index: usize) -> (r: bool)
        requires
            old(self)@.wf(),
        ensures
            r == (old(self)@.is_live(alloc_index as int) && old(self)@.slots[alloc_index as int].ref_count
                < usize::MAX),
            r ==> final(self)@ == (AllocsModel {
                slots: old(self)@.slots.update(
                    alloc_index as int,
                    AllocModel {
                        ref_count: old(self)@.slots[alloc_index as int].ref_count + 1,
                        ..old(self)@.slots[alloc_index as int]
                    },
                ),
                ..old(self)@
            }),
            !r ==> final(self)@ == old(self)@,
            final(self)@.wf(),
    {
        if alloc_index < self.allocs.len() {
            let live = match self.allocs[alloc_index].buffer {
                AllocBuffer::Empty => false,
                _ => true,
            };
            if live && self.allocs[alloc_index].ref_count < usize::MAX {
                let a = &mut self.allocs[alloc_index];
                a.ref_count = a.ref_count + 1;
                assert(self@.slots =~= old(self)@.slots.update(
                    alloc_index as int,
                    AllocModel {
                        ref_count: old(self)@.slots[alloc_index as int].ref_count + 1,
                        ..old(self)@.slots[alloc_index as int]
                    },
                ));
                return true;
            }
        }
        false
    }

    /// Frees a buffer that has exactly one holder: the slot becomes empty and
    /// its index free for reuse. A missing or freed slot gives
    /// `BufferNotFound`, a count other than one `CouldNotFree`, and a cell
    /// buffer, which is not supported, `WrongBuffer`; each leaves all as it was.
    pub fn release(&mut self, alloc_index: usize) -> (r: Result<(), KrkErr>)
        requires
            old(self)@.wf(),
        ensures
            !old(self)@.is_live(alloc_index as int) ==> r == Err::<(), KrkErr>(KrkErr::BufferNotFound),
            old(self)@.is_live(alloc_index as int) && old(self)@.slots[alloc_index as int].buffer is Cells
                ==> r == Err::<(), KrkErr>(KrkErr::WrongBuffer),
            old(self)@.is_live(alloc_index as int) && !(old(self)@.slots[alloc_index as int].buffer is Cells)
                && old(self)@.slots[alloc_index as int].ref_count != 1 ==> r == Err::<(), KrkErr>(
                KrkErr::CouldNotFree,
            ),
            r is Ok <==> old(self)@.is_live(alloc_index as int) && !(old(
                self,
            )@.slots[alloc_index as int].buffer is Cells) && old(self)@.slots[alloc_index as int].ref_count
                == 1,
            r is Ok ==> final(self)@ == old(self)@.after_release(alloc_index),
            r is Err ==> final(self)@ == old(self)@,
            final(self)@.wf(),
    {
        if alloc_index >= self.allocs.len() {
            return Err(KrkErr::BufferNotFound);
        }
        match self.allocs[alloc_index].buffer {
            AllocBuffer::Empty => Err(KrkErr::BufferNotFound),
            AllocBuffer::CellBuffer(_) => Err(KrkErr::WrongBuffer),
            _ => {
                if self.allocs[alloc_index].ref_count == 1 {
                    proof {
                        old(self)@.lemma_release_wf(alloc_index);
                    }
                    self.allocs[alloc_index] = Alloc::new_empty();
                    self.free.push(alloc_index);
                    assert(self@.slots =~= old(self)@.slots.update(alloc_index as int, empty_alloc()));
                    Ok(())
                } else {
                    Err(KrkErr::CouldNotFree)
                }
            },
        }
    }

    /// Reads the cell at `offset` of slot `index`; a byte reads as an integer.
    pub fn fetch(&self, index: usize, offset: usize) -> (r: Result<Cell, KrkErr>)
        ensures
            r == fetch_result(self@, index, offset),
    {
        if index >= self.allocs.len() {
            return Err(KrkErr::BufferNotFound);
        }
        match &self.allocs[index].buffer {
            AllocBuffer::DataBuffer(buf) => {
                if offset < buf.len() {
                    Ok(buf[offset])
                } else {
                    Err(KrkErr::IndexOutOfBounds)
                }
            },
            AllocBuffer::ByteBuffer(buf) => {
                if offset < buf.len() {
                    Ok(Cell::Integer(buf[offset] as i64))
                } else {
                    Err(KrkErr::IndexOutOfBounds)
                }
            },
            _ => Err(KrkErr::WrongBuffer),
        }
    }

    /// Writes `cell` at `offset` of slot `index`, bounds first, then kind.
    pub fn store(&mut self, index: usize, offset: usize, cell: Cell) -> (r: Result<(), KrkErr>)
        requires
            old(self)@.wf(),
        ensures
            r == store_result(old(self)@, index, offset, cell),
            r is Ok ==> final(self)@ == after_store(old(self)@, index, offset, cell),
            r is Err ==> final(self)@ == old(self)@,
            final(self)@.wf(),
    {
        if index >= self.allocs.len() {
            return Err(KrkErr::BufferNotFound);
        }
        let r = match &mut self.allocs[index].buffer {
            AllocBuffer::DataBuffer(buf) => {
                if offset >= buf.len() {
                    Err(KrkErr::IndexOutOfBounds)
                } else if cell.is_number() {
                    buf[offset] = cell;
                    Ok(())
                } else {
                    Err(KrkErr::WrongType)
                }
            },
            AllocBuffer::ByteBuffer(buf) => {
                if offset >= buf.len() {
                    Err(KrkErr::IndexOutOfBounds)
                } else if cell.is_number() {
                    buf[offset] = #[verifier::truncate] (cell.as_integer() as u8);
                    Ok(())
                } else {
                    Err(KrkErr::WrongType)
                }
            },
            _ => Err(KrkErr::WrongBuffer),
        };
        if r.is_ok() {
            assert(self@.slots =~= after_store(old(self)@, index, offset, cell).slots);
        } else {
            assert(self@.slots =~= old(self)@.slots);
        }
        r
    }
}

} // verus!