//! The data stack with its nested frames, the auxiliary stack and the return stack.
use vstd::prelude::*;

use crate::cell::Cell;

verus! {

/// What a data stack holds: its cells, the base of the current frame and
/// the bases of the enclosing frames.
pub struct StackModel {
    pub cells: Seq<Cell>,
    pub base: int,
    pub saved: Seq<usize>,
}

impl StackModel {
    /// The base lies within the cells, and every saved base at or below the
    /// ones saved after it and the current one.
    pub open spec fn wf(self) -> bool {
        &&& 0 <= self.base <= self.cells.len()
        &&& self.base <= usize::MAX
        &&& forall|i: int, j: int|
            0 <= i <= j < self.saved.len() ==> #[trigger] self.saved[i] <= #[trigger] self.saved[j]
        &&& forall|i: int| 0 <= i < self.saved.len() ==> #[trigger] self.saved[i] <= self.base
    }

    /// The number of cells in the current frame.
    pub open spec fn size(self) -> int {
        self.cells.len() - self.base
    }

    /// The cells of the current frame, bottom first.
    pub open spec fn frame(self) -> Seq<Cell> {
        self.cells.subrange(self.base, self.cells.len() as int)
    }

    pub open spec fn push(self, c: Cell) -> StackModel {
        StackModel { cells: self.cells.push(c), ..self }
    }

    /// The stack after pushing each of `cs` in turn.
    pub open spec fn push_all(self, cs: Seq<Cell>) -> StackModel {
        StackModel { cells: self.cells + cs, ..self }
    }

    /// The stack without its top cell.
    pub open spec fn drop_top(self) -> StackModel {
        StackModel { cells: self.cells.drop_last(), ..self }
    }

    /// A frame opened: the base is saved and moves to the top.
    pub open spec fn start(self) -> StackModel {
        StackModel { cells: self.cells, base: self.cells.len() as int, saved: self.saved.push(self.base as usize) }
    }

    /// The current frame closed: the last saved base comes back.
    pub open spec fn end(self) -> StackModel {
        StackModel { cells: self.cells, base: self.saved.last() as int, saved: self.saved.drop_last() }
    }

    /// Opening a frame keeps the stack well formed.
    pub proof fn lemma_start_wf(self)
        requires
            self.wf(),
            self.cells.len() <= usize::MAX,
        ensures
            self.start().wf(),
    {
        let n = self.start();
        assert forall|i: int, j: int| 0 <= i <= j < n.saved.len() implies #[trigger] n.saved[i]
            <= #[trigger] n.saved[j] by {
            if j < self.saved.len() {
                assert(n.saved[i] == self.saved[i]);
                assert(n.saved[j] == self.saved[j]);
            } else {
                assert(n.saved[j] == self.base as usize);
                if i < self.saved.len() {
                    assert(n.saved[i] == self.saved[i]);
                }
            }
        }
        assert forall|i: int| 0 <= i < n.saved.len() implies #[trigger] n.saved[i] <= n.base by {
            if i < self.saved.len() {
                assert(n.saved[i] == self.saved[i]);
            }
        }
    }

    /// The current frame emptied.
    pub open spec fn flushed(self) -> StackModel {
        StackModel { cells: self.cells.subrange(0, self.base), ..self }
    }
}

/// The data stack: one growable sequence of cells, read through the window of
/// the current frame.
#[derive(Debug)]
pub struct Stack {
    stack: Vec<Cell>,
    base: usize,
    nested: Vec<usize>,
}

impl View for Stack {
    type V = StackModel;

    closed spec fn view(&self) -> StackModel {
        StackModel { cells: self.stack@, base: self.base as int, saved: self.nested@ }
    }
}

impl Stack {
    /// An empty stack with no frame open.
    pub fn new() -> (r: Self)
        ensures
            r@.cells.len() == 0,
            r@.base == 0,
            r@.saved.len() == 0,
            r@.wf(),
    {
        Self { stack: Vec::new(), base: 0, nested: Vec::new() }
    }

    /// Opens a frame whose base is the current top.
    pub fn start_stack(&mut self)
        requires
            old(self)@.wf(),
        ensures
            final(self)@ == old(self)@.start(),
            final(self)@.wf(),
    {
        self.nested.push(self.base);
        self.base = self.stack.len();
        assert(self@ =~= old(self)@.start());
        proof {
            old(self)@.lemma_start_wf();
        }
    }

    /// Closes the current frame and returns the base it restores; `None`
    /// when no frame is open.
    pub fn end_stack(&mut self) -> (r: Option<usize>)
        requires
            old(self)@.wf(),
        ensures
            old(self)@.saved.len() == 0 ==> r is None && final(self)@ == old(self)@,
            old(self)@.saved.len() > 0 ==> r == Some(old(self)@.saved.last()) && final(self)@
                == old(self)@.end(),
            final(self)@.wf(),
    {
        if let Some(base) = self.nested.pop() {
            self.base = base;
            Some(base)
        } else {
            None
        }
    }

    /// Pushes a cell on top.
    pub fn push(&mut self, cell: Cell)
        requires
            old(self)@.wf(),
        ensures
            final(self)@ == old(self)@.push(cell),
            final(self)@.wf(),
    {
        self.stack.push(cell);
        assert(self@ =~= old(self)@.push(cell));
    }

    /// Pops the top cell of the current frame; `None` when the frame is empty.
    pub fn pop(&mut self) -> (r: Option<Cell>)
        requires
            old(self)@.wf(),
        ensures
            old(self)@.size() > 0 ==> r == Some(old(self)@.cells.last()) && final(self)@ == old(
                self,
            )@.drop_top(),
            old(self)@.size() == 0 ==> r is None && final(self)@ == old(self)@,
            final(self)@.wf(),
    {
        if self.stack.len() > self.base {
            let r = self.stack.pop();
            assert(self@ =~= old(self)@.drop_top());
            r
        } else {
            None
        }
    }

    /// All the cells, bottom first, across every frame.
    pub fn cells(&self) -> (r: &Vec<Cell>)
        ensures
            r@ == self@.cells,
    {
        &self.stack
    }

    /// The number of cells in the current frame.
    pub fn size(&self) -> (r: usize)
        requires
            self@.wf(),
        ensures
            r == self@.size(),
    {
        self.stack.len() - self.base
    }
}

/// Auxiliary stack: parks cells out of the data stack's reach.
pub struct AuxStack(Vec<Cell>);

impl View for AuxStack {
    type V = Seq<Cell>;

    closed spec fn view(&self) -> Seq<Cell> {
        self.0@
    }
}

impl AuxStack {
    /// An empty stack.
    pub fn new() -> (r: Self)
        ensures
            r@.len() == 0,
    {
        Self(Vec::new())
    }

    /// Pushes a cell.
    pub fn push(&mut self, cell: Cell)
        ensures
            final(self)@ == old(self)@.push(cell),
    {
        self.0.push(cell);
    }

    /// Pops the top cell; `None` when empty.
    pub fn pop(&mut self) -> (r: Option<Cell>)
        ensures
            old(self)@.len() > 0 ==> r == Some(old(self)@.last()) && final(self)@ == old(
                self,
            )@.drop_last(),
            old(self)@.len() == 0 ==> r is None && final(self)@ == old(self)@,
    {
        self.0.pop()
    }
}

/// Cell execution pointer: a defined word and the index of its next code cell.
#[derive(Clone, Copy)]
pub struct CEP {
    pub word_index: usize,
    pub cell_index: u8,
}

impl CEP {
    pub open spec fn word(self) -> usize {
        self.word_index
    }

    pub open spec fn cursor(self) -> u8 {
        self.cell_index
    }

    /// A pointer to the first cell of the word at `word_index`.
    pub fn new(word_index: usize) -> (r: Self)
        ensures
            r.word() == word_index,
            r.cursor() == 0,
    {
        Self { word_index, cell_index: 0 }
    }

    /// The index of the word it runs.
    pub fn word_index(&self) -> (r: usize)
        ensures
            r == self.word(),
    {
        self.word_index
    }

    /// The index of the next cell.
    pub fn cell_index(&self) -> (r: u8)
        ensures
            r == self.cursor(),
    {
        self.cell_index
    }

    /// Moves past the current cell.
    pub fn advance(&mut self)
        requires
            old(self).cursor() < u8::MAX,
        ensures
            final(self).word() == old(self).word(),
            final(self).cursor() == old(self).cursor() + 1,
    {
        self.cell_index = self.cell_index + 1;
    }
}

/// Return stack: the pointers of the suspended callers.
pub struct ReturnStack(Vec<CEP>);

impl View for ReturnStack {
    type V = Seq<CEP>;

    closed spec fn view(&self) -> Seq<CEP> {
        self.0@
    }
}

impl ReturnStack {
    /// An empty stack.
    pub fn new() -> (r: Self)
        ensures
            r@.len() == 0,
    {
        Self(Vec::new())
    }

    /// Pushes a pointer.
    pub fn push(&mut self, cep: CEP)
        ensures
            final(self)@ == old(self)@.push(cep),
    {
        self.0.push(cep);
    }

    /// Pops the top pointer; `None` when empty.
    pub fn pop(&mut self) -> (r: Option<CEP>)
        ensures
            old(self)@.len() > 0 ==> r == Some(old(self)@.last()) && final(self)@ == old(
                self,
            )@.drop_last(),
            old(self)@.len() == 0 ==> r is None && final(self)@ == old(self)@,
    {
        self.0.pop()
    }
}

} // verus!
