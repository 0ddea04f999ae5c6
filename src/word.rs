//! Words, the entries of the dictionary, and the store that holds them.
use vstd::prelude::*;

use crate::cell::Cell;
use crate::dictionary::{dictionary_entries, Dictionary};
use crate::name::WordName;
use crate::stack::CEP;

verus! {

/// Capacity of a definition, in cells.
pub const DEFINITION_SIZE: usize = 32;

/// The cells of a definition: code from the front, data from the back.
pub type WordDefinition = [Cell; DEFINITION_SIZE];

/// What a definition holds: its cells and the lengths of its two regions.
pub struct DefinitionModel {
    pub cells: Seq<Cell>,
    pub code_len: int,
    pub data_len: int,
}

impl DefinitionModel {
    /// The two regions fit in the array together.
    pub open spec fn wf(self) -> bool {
        &&& self.cells.len() == DEFINITION_SIZE
        &&& 0 <= self.code_len
        &&& 0 <= self.data_len
        &&& self.code_len + self.data_len <= DEFINITION_SIZE
    }

    /// Room is left for one more cell of either region.
    pub open spec fn has_room(self) -> bool {
        self.code_len + self.data_len < DEFINITION_SIZE
    }

    /// The code region, in order.
    pub open spec fn code(self) -> Seq<Cell> {
        self.cells.subrange(0, self.code_len)
    }

    /// The index in the array of data cell `offset`.
    pub open spec fn data_slot(offset: int) -> int {
        DEFINITION_SIZE - 1 - offset
    }

    /// The definition after appending `cell` to the code region.
    pub open spec fn with_code(self, cell: Cell) -> DefinitionModel {
        DefinitionModel { cells: self.cells.update(self.code_len, cell), code_len: self.code_len + 1, ..self }
    }

    /// The definition after appending `cell` to the data region.
    pub open spec fn with_data(self, cell: Cell) -> DefinitionModel {
        DefinitionModel {
            cells: self.cells.update(Self::data_slot(self.data_len), cell),
            data_len: self.data_len + 1,
            ..self
        }
    }

    /// One compile call: a data cell when the flag is set, else a code cell.
    /// `None` when it is rejected.
    pub open spec fn compile(self, step: (bool, Cell)) -> Option<DefinitionModel> {
        if !self.has_room() {
            None
        } else if step.0 {
            Some(self.with_data(step.1))
        } else {
            Some(self.with_code(step.1))
        }
    }

    /// The compile calls of `steps` in order, while each is accepted.
    pub open spec fn compile_all(self, steps: Seq<(bool, Cell)>) -> Option<DefinitionModel>
        decreases steps.len(),
    {
        if steps.len() == 0 {
            Some(self)
        } else {
            match self.compile(steps[0]) {
                Some(d) => d.compile_all(steps.drop_first()),
                None => None,
            }
        }
    }
}

/// A fixed-capacity definition: code grows from index 0 upward, constant
/// data from the last index downward.
#[derive(Debug)]
pub struct DefinedWord {
    code_len: u8,
    data_len: u8,
    definition: WordDefinition,
}

impl View for DefinedWord {
    type V = DefinitionModel;

    closed spec fn view(&self) -> DefinitionModel {
        DefinitionModel { cells: self.definition@, code_len: self.code_len as int, data_len: self.data_len as int }
    }
}

impl DefinedWord {
    /// An empty definition.
    pub fn new() -> (r: Self)
        ensures
            r@.wf(),
            r@.code_len == 0,
            r@.data_len == 0,
            r@.cells == Seq::new(DEFINITION_SIZE as nat, |i: int| Cell::Empty),
    {
        let r = Self { code_len: 0, data_len: 0, definition: [Cell::Empty; DEFINITION_SIZE] };
        assert(r@.cells =~= Seq::new(DEFINITION_SIZE as nat, |i: int| Cell::Empty));
        r
    }

    /// The length of the code region.
    pub fn code_len(&self) -> (r: u8)
        ensures
            r == self@.code_len,
    {
        self.code_len
    }

    /// The length of the data region.
    pub fn data_len(&self) -> (r: u8)
        ensures
            r == self@.data_len,
    {
        self.data_len
    }

    /// The whole cell array.
    pub fn definition(&self) -> (r: &WordDefinition)
        ensures
            r@ == self@.cells,
    {
        &self.definition
    }

    /// Appends a cell to the code region; false, with nothing changed, when
    /// the definition is full.
    pub fn compile_code(&mut self, cell: Cell) -> (r: bool)
        requires
            old(self)@.wf(),
        ensures
            r == old(self)@.has_room(),
            r ==> final(self)@ == old(self)@.with_code(cell),
            !r ==> final(self)@ == old(self)@,
            final(self)@.wf(),
    {
        if (self.code_len as usize) + (self.data_len as usize) < DEFINITION_SIZE {
            self.definition[self.code_len as usize] = cell;
            self.code_len = self.code_len + 1;
            assert(self@.cells =~= old(self)@.with_code(cell).cells);
            true
        } else {
            false
        }
    }

    /// Appends a cell to the data region; false, with nothing changed, when
    /// the definition is full.
    pub fn compile_data(&mut self, cell: Cell) -> (r: bool)
        requires
            old(self)@.wf(),
        ensures
            r == old(self)@.has_room(),
            r ==> final(self)@ == old(self)@.with_data(cell),
            !r ==> final(self)@ == old(self)@,
            final(self)@.wf(),
    {
        if (self.code_len as usize) + (self.data_len as usize) < DEFINITION_SIZE {
            self.definition[DEFINITION_SIZE - 1 - self.data_len as usize] = cell;
            self.data_len = self.data_len + 1;
            assert(self@.cells =~= old(self)@.with_data(cell).cells);
            true
        } else {
            false
        }
    }

    /// Data cell `offset`, if the data region has it.
    pub fn data_at(&self, offset: usize) -> (r: Option<Cell>)
        requires
            self@.wf(),
        ensures
            offset < self@.data_len ==> r == Some(self@.cells[DefinitionModel::data_slot(offset as int)]),
            offset >= self@.data_len ==> r is None,
    {
        if offset < self.data_len as usize {
            Some(self.definition[DEFINITION_SIZE - 1 - offset])
        } else {
            None
        }
    }

    /// Overwrites data cell `offset`, which the data region must have.
    pub fn set_data(&mut self, offset: usize, cell: Cell)
        requires
            old(self)@.wf(),
            offset < old(self)@.data_len,
        ensures
            final(self)@ == (DefinitionModel {
                cells: old(self)@.cells.update(DefinitionModel::data_slot(offset as int), cell),
                ..old(self)@
            }),
            final(self)@.wf(),
    {
        self.definition[DEFINITION_SIZE - 1 - offset] = cell;
        assert(self@.cells =~= old(self)@.cells.update(DefinitionModel::data_slot(offset as int), cell));
    }
}

/// The primitive operations a word can run: the bootstrap set, and host
/// functions, known by the number the host gave them.
#[derive(Clone, Copy, Debug, PartialEq, Eq, Structural)]
pub enum Primitive {
    Plus,
    Minus,
    Star,
    Slash,
    Percent,
    Smaller,
    Equal,
    And,
    Or,
    Not,
    OpenCurly,
    CloseCurly,
    OpenParenth,
    CloseParenth,
    Flush,
    Size,
    ToAux,
    FromAux,
    Store,
    Fetch,
    Offset,
    Allocate,
    Host(usize),
}

/// A word that runs a primitive operation.
#[derive(Clone, Copy, Debug)]
pub struct PrimitiveWord {
    pub function: Primitive,
}

impl PrimitiveWord {
    pub fn new(function: Primitive) -> (r: Self)
        ensures
            r.function == function,
    {
        Self { function }
    }
}

/// A word that forwards to another; reserved, it runs nothing yet.
#[derive(Clone, Copy, Debug)]
pub struct LinkWord {
    pub index: usize,
}

/// A namespace: a dictionary from names to word indices.
pub struct LexiconWord {
    imp: Dictionary,
}

impl LexiconWord {
    /// The names it maps, and to which word indices.
    pub closed spec fn entries(&self) -> Map<WordName, usize> {
        dictionary_entries(self.imp)
    }

    /// An empty lexicon.
    pub fn new() -> (r: Self)
        ensures
            r.entries().dom() == Set::<WordName>::empty(),
    {
        Self { imp: Dictionary::new() }
    }

    /// Maps `name` to `index`, replacing what it mapped to before.
    pub fn add_word(&mut self, name: WordName, index: usize)
        ensures
            final(self).entries() == old(self).entries().insert(name, index),
    {
        self.imp.insert(name, index);
    }

    /// The index that `name` maps to, if any.
    pub fn find_word(&self, name: &WordName) -> (r: Option<usize>)
        ensures
            r == (if self.entries().contains_key(*name) {
                Some(self.entries()[*name])
            } else {
                None
            }),
    {
        self.imp.get(name)
    }
}

/// The kinds of word.
pub enum WordFlavor {
    Defined(DefinedWord),
    Primitive(PrimitiveWord),
    Lexicon(LexiconWord),
    Link(LinkWord),
}

/// A dictionary entry. An immediate word runs even while a definition is
/// being compiled.
pub struct Word {
    pub name_len: u8,
    pub name: WordName,
    pub ref_count: usize,
    pub immediate: bool,
    pub flavor: WordFlavor,
}

impl Word {
    /// A word with one reference.
    pub fn new(name: WordName, name_len: u8, immediate: bool, flavor: WordFlavor) -> (r: Self)
        ensures
            r.name == name,
            r.name_len == name_len,
            r.ref_count == 1,
            r.immediate == immediate,
            r.flavor == flavor,
    {
        Self { name_len, name, ref_count: 1, immediate, flavor }
    }

    /// The definition of a defined word.
    pub fn as_defined(&mut self) -> (r: &mut DefinedWord)
        requires
            old(self).flavor is Defined,
        ensures
            *r == old(self).flavor->Defined_0,
            *final(self) == (Word { flavor: WordFlavor::Defined(*final(r)), ..*old(self) }),
    {
        match &mut self.flavor {
            WordFlavor::Defined(word) => word,
            _ => unreached(),
        }
    }
}

/// The store of words, addressed by index; append-only.
pub struct Words {
    words: Vec<Word>,
}

impl View for Words {
    type V = Seq<Word>;

    closed spec fn view(&self) -> Seq<Word> {
        self.words@
    }
}

/// Word `index` exists and is a definition.
pub open spec fn is_defined_at(ws: Seq<Word>, index: int) -> bool {
    0 <= index < ws.len() && ws[index].flavor is Defined
}

/// Word `index` exists and is a lexicon.
pub open spec fn is_lexicon_at(ws: Seq<Word>, index: int) -> bool {
    0 <= index < ws.len() && ws[index].flavor is Lexicon
}

/// The entries of lexicon `index`.
pub open spec fn lexicon_entries(ws: Seq<Word>, index: int) -> Map<WordName, usize> {
    ws[index].flavor->Lexicon_0.entries()
}

/// Every definition in the store is well formed.
pub open spec fn words_wf(ws: Seq<Word>) -> bool {
    forall|i: int| is_defined_at(ws, i) ==> (#[trigger] ws[i]).flavor->Defined_0@.wf()
}

/// `after` is `before` with only word `index` changed, and that one only in
/// its reference count.
pub open spec fn only_count_changed(before: Seq<Word>, after: Seq<Word>, index: int, count: int) -> bool {
    &&& after.len() == before.len()
    &&& forall|j: int| 0 <= j < before.len() && j != index ==> after[j] == before[j]
    &&& after[index] == (Word { ref_count: count as usize, ..before[index] })
}

/// `after` is `before` with data cell `offset` of definition `index` set
/// to `cell`, and nothing else changed.
pub open spec fn data_written(before: Seq<Word>, after: Seq<Word>, index: int, offset: int, cell: Cell) -> bool {
    let d = before[index].flavor->Defined_0@;
    &&& after.len() == before.len()
    &&& forall|j: int| 0 <= j < before.len() && j != index ==> after[j] == before[j]
    &&& is_defined_at(after, index)
    &&& after[index].flavor->Defined_0@ == (DefinitionModel {
        cells: d.cells.update(DefinitionModel::data_slot(offset), cell),
        ..d
    })
    &&& after[index].name == before[index].name
    &&& after[index].name_len == before[index].name_len
    &&& after[index].ref_count == before[index].ref_count
    &&& after[index].immediate == before[index].immediate
}

impl Words {
    /// An empty store.
    pub fn new() -> (r: Self)
        ensures
            r@.len() == 0,
    {
        Self { words: Vec::new() }
    }

    /// The number of words.
    pub fn len(&self) -> (r: usize)
        ensures
            r == self@.len(),
    {
        self.words.len()
    }

    /// Appends a word and returns its index.
    pub fn add_word(&mut self, word: Word) -> (r: usize)
        ensures
            r == old(self)@.len(),
            final(self)@ == old(self)@.push(word),
    {
        self.words.push(word);
        self.words.len() - 1
    }

    /// The word at `index`, if there is one.
    pub fn word_at(&self, index: usize) -> (r: Option<&Word>)
        ensures
            index < self@.len() ==> r is Some && *r->0 == self@[index as int],
            index >= self@.len() ==> r is None,
    {
        if index < self.words.len() {
            Some(&self.words[index])
        } else {
            None
        }
    }

    /// Whether word `index` exists and is a lexicon.
    pub fn is_lexicon(&self, index: usize) -> (r: bool)
        ensures
            r == is_lexicon_at(self@, index as int),
    {
        index < self.words.len() && match self.words[index].flavor {
            WordFlavor::Lexicon(_) => true,
            _ => false,
        }
    }

    /// The definition of word `index`, if it exists and is a definition.
    pub fn defined_at(&self, index: usize) -> (r: Option<&DefinedWord>)
        ensures
            is_defined_at(self@, index as int) ==> r is Some && *r->0 == self@[index as int].flavor->Defined_0,
            !is_defined_at(self@, index as int) ==> r is None,
    {
        if index < self.words.len() {
            match &self.words[index].flavor {
                WordFlavor::Defined(d) => Some(d),
                _ => None,
            }
        } else {
            None
        }
    }

    /// The lexicon at `index`, which must be one.
    pub fn lexicon_at(&self, index: usize) -> (r: &LexiconWord)
        requires
            is_lexicon_at(self@, index as int),
        ensures
            *r == self@[index as int].flavor->Lexicon_0,
    {
        match &self.words[index].flavor {
            WordFlavor::Lexicon(lex) => lex,
            _ => unreached(),
        }
    }

    /// Maps `name` to `word_index` in the lexicon at `lexicon`, which must be one.
    pub fn add_to_lexicon(&mut self, lexicon: usize, name: WordName, word_index: usize)
        requires
            is_lexicon_at(old(self)@, lexicon as int),
        ensures
            final(self)@.len() == old(self)@.len(),
            forall|j: int| 0 <= j < old(self)@.len() && j != lexicon ==> final(self)@[j] == old(self)@[j],
            is_lexicon_at(final(self)@, lexicon as int),
            lexicon_entries(final(self)@, lexicon as int) == lexicon_entries(old(self)@, lexicon as int).insert(
                name,
                word_index,
            ),
            final(self)@[lexicon as int].name == old(self)@[lexicon as int].name,
            final(self)@[lexicon as int].name_len == old(self)@[lexicon as int].name_len,
            final(self)@[lexicon as int].ref_count == old(self)@[lexicon as int].ref_count,
            final(self)@[lexicon as int].immediate == old(self)@[lexicon as int].immediate,
    {
        let w = &mut self.words[lexicon];
        match &mut w.flavor {
            WordFlavor::Lexicon(lex) => lex.add_word(name, word_index),
            _ => {},
        }
    }

    /// Counts one more reference to word `index`; a count at its maximum stays.
    pub fn acquire(&mut self, index: usize)
        requires
            index < old(self)@.len(),
        ensures
            only_count_changed(
                old(self)@,
                final(self)@,
                index as int,
                if old(self)@[index as int].ref_count < usize::MAX {
                    old(self)@[index as int].ref_count + 1
                } else {
                    old(self)@[index as int].ref_count as int
                },
            ),
    {
        let w = &mut self.words[index];
        if w.ref_count < usize::MAX {
            w.ref_count = w.ref_count + 1;
        }
    }

    /// Overwrites data cell `offset` of the definition at `index`, which must
    /// be one with that cell.
    pub fn set_data(&mut self, index: usize, offset: usize, cell: Cell)
        requires
            is_defined_at(old(self)@, index as int),
            words_wf(old(self)@),
            offset < old(self)@[index as int].flavor->Defined_0@.data_len,
        ensures
            data_written(old(self)@, final(self)@, index as int, offset as int, cell),
            words_wf(final(self)@),
    {
        assert(old(self)@[index as int].flavor->Defined_0@.wf());
        let w = &mut self.words[index];
        match &mut w.flavor {
            WordFlavor::Defined(d) => d.set_data(offset, cell),
            _ => {},
        }
    }
}

impl CEP {
    /// The next code cell of the definition it runs, moving past it; `None`
    /// once the code region is exhausted.
    pub fn next_cell(&mut self, words: &Words) -> (r: Option<Cell>)
        requires
            is_defined_at(words@, old(self).word() as int),
            words_wf(words@),
        ensures
            final(self).word() == old(self).word(),
            old(self).cursor() < words@[old(self).word() as int].flavor->Defined_0@.code_len ==> r == Some(
                words@[old(self).word() as int].flavor->Defined_0@.cells[old(self).cursor() as int],
            ) && final(self).cursor() == old(self).cursor() + 1,
            old(self).cursor() >= words@[old(self).word() as int].flavor->Defined_0@.code_len ==> r is None
                && *final(self) == *old(self),
    {
        let index = self.word_index();
        let word = &words.words[index];
        assert(words@[index as int] == *word);
        match &word.flavor {
            WordFlavor::Defined(defined) => {
                assert(defined@.wf());
                let cursor = self.cell_index();
                if cursor < defined.code_len() {
                    let cell = defined.definition()[cursor as usize];
                    self.advance();
                    Some(cell)
                } else {
                    None
                }
            },
            _ => unreached(),
        }
    }
}

} // verus!
