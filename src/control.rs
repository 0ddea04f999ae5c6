//! Primitives of compilation, frames and the auxiliary stack.
use vstd::prelude::*;

use crate::cell::{Cell, KrkInt};
use crate::error::KrkErr;
use crate::interp::{Builder, InterpModel, Interpreter, Mode, Step};
use crate::memory::AllocsModel;
use crate::name::name_buffer;
use crate::primitives::with_stack;
use crate::stack::StackModel;
use crate::tib::{after_token, next_token};
use crate::word::{
    is_lexicon_at, lexicon_entries, DefinedWord, DefinitionModel, Word, WordFlavor, DEFINITION_SIZE,
};

verus! {

/// A definition with nothing compiled.
pub open spec fn empty_definition() -> DefinitionModel {
    DefinitionModel { cells: Seq::new(DEFINITION_SIZE as nat, |i: int| Cell::Empty), code_len: 0, data_len: 0 }
}

/// `{`: reads the next token as the name of a new definition and starts
/// compiling it; `EmptyTib` when the input is exhausted.
pub open spec fn open_curly_post(m: InterpModel, m2: InterpModel, r: Result<Step, KrkErr>) -> bool {
    let tok = next_token(m.source, m.position);
    let pos = after_token(m.source, m.position);
    if tok.len() == 0 {
        r == Err::<Step, KrkErr>(KrkErr::EmptyTib) && m2 == InterpModel { position: pos, ..m }
    } else {
        &&& r == Ok::<Step, KrkErr>(Step::Ran)
        &&& m2 == InterpModel { position: pos, compiling: m2.compiling, ..m }
        &&& m2.compiling is Some
        &&& m2.compiling->0.name@ == name_buffer(tok)
        &&& m2.compiling->0.name_len == tok.len()
        &&& m2.compiling->0.def == empty_definition()
    }
}

/// `}`: stores the definition under construction as a new word, registers
/// it under its name in the lexicon in use and returns to executing;
/// `NotCompiling` when nothing is being compiled, `WrongType` when the
/// lexicon in use is not a lexicon.
pub open spec fn close_curly_post(m: InterpModel, m2: InterpModel, r: Result<Step, KrkErr>) -> bool {
    match m.compiling {
        None => r == Err::<Step, KrkErr>(KrkErr::NotCompiling) && m2 == m,
        Some(b) => if !is_lexicon_at(m.words, m.lex_in_use as int) {
            r == Err::<Step, KrkErr>(KrkErr::WrongType) && m2 == m
        } else {
            let w = m.words.len() as int;
            &&& r == Ok::<Step, KrkErr>(Step::Ran)
            &&& m2 == InterpModel { words: m2.words, compiling: None, ..m }
            &&& m2.words.len() == w + 1
            &&& forall|j: int| 0 <= j < w && j != m.lex_in_use ==> m2.words[j] == m.words[j]
            &&& m2.words[w].name == b.name
            &&& m2.words[w].name_len == b.name_len
            &&& m2.words[w].ref_count == 1
            &&& !m2.words[w].immediate
            &&& m2.words[w].flavor is Defined
            &&& m2.words[w].flavor->Defined_0@ == b.def
            &&& is_lexicon_at(m2.words, m.lex_in_use as int)
            &&& lexicon_entries(m2.words, m.lex_in_use as int) == lexicon_entries(m.words, m.lex_in_use as int).insert(
                b.name,
                w as usize,
            )
            &&& m2.words[m.lex_in_use as int].name == m.words[m.lex_in_use as int].name
        },
    }
}

/// `)`: closes the current frame; `LevelStackUnderun` when none is open.
pub open spec fn close_parenth_post(m: InterpModel, m2: InterpModel, r: Result<Step, KrkErr>) -> bool {
    if m.stack.saved.len() == 0 {
        r == Err::<Step, KrkErr>(KrkErr::LevelStackUnderun) && m2 == m
    } else {
        r == Ok::<Step, KrkErr>(Step::Ran) && m2 == with_stack(m, m.stack.end())
    }
}

/// The allocator after a release of the buffer that `c` refers to, if `c`
/// is an allocation reference and that release succeeds.
pub open spec fn release_ref(a: AllocsModel, c: Cell) -> AllocsModel {
    match c {
        Cell::AllocRef(i, _) => if a.is_live(i as int) && !(a.slots[i as int].buffer is Cells)
            && a.slots[i as int].ref_count == 1 {
            a.after_release(i)
        } else {
            a
        },
        _ => a,
    }
}

/// The allocator after releasing the references among `cells`, last first.
pub open spec fn release_refs(a: AllocsModel, cells: Seq<Cell>) -> AllocsModel
    decreases cells.len(),
{
    if cells.len() == 0 {
        a
    } else {
        release_ref(release_refs(a, cells.drop_first()), cells[0])
    }
}

/// `flush`: empties the current frame, releasing each allocation reference
/// that it drops.
pub open spec fn flush_post(m: InterpModel, m2: InterpModel, r: Result<Step, KrkErr>) -> bool {
    &&& r == Ok::<Step, KrkErr>(Step::Ran)
    &&& m2 == InterpModel { stack: m.stack.flushed(), allocs: release_refs(m.allocs, m.stack.frame()), ..m }
}

/// The size of the current frame as an integer, at most the largest one.
pub open spec fn size_value(s: StackModel) -> i64 {
    if s.size() <= i64::MAX {
        s.size() as i64
    } else {
        i64::MAX
    }
}

/// `size`: pushes the size of the current frame.
pub open spec fn size_post(m: InterpModel, m2: InterpModel, r: Result<Step, KrkErr>) -> bool {
    r == Ok::<Step, KrkErr>(Step::Ran) && m2 == with_stack(m, m.stack.push(Cell::Integer(size_value(m.stack))))
}

/// `->aux`: moves the top cell to the auxiliary stack.
pub open spec fn to_aux_post(m: InterpModel, m2: InterpModel, r: Result<Step, KrkErr>) -> bool {
    if m.stack.size() == 0 {
        r == Err::<Step, KrkErr>(KrkErr::StackUnderun) && m2 == m
    } else {
        r == Ok::<Step, KrkErr>(Step::Ran) && m2 == InterpModel {
            stack: m.stack.drop_top(),
            aux: m.aux.push(m.stack.cells.last()),
            ..m
        }
    }
}

/// `aux->`: moves the top of the auxiliary stack back to the data stack.
pub open spec fn from_aux_post(m: InterpModel, m2: InterpModel, r: Result<Step, KrkErr>) -> bool {
    if m.aux.len() == 0 {
        r == Err::<Step, KrkErr>(KrkErr::AuxStackUnderun) && m2 == m
    } else {
        r == Ok::<Step, KrkErr>(Step::Ran) && m2 == InterpModel {
            stack: m.stack.push(m.aux.last()),
            aux: m.aux.drop_last(),
            ..m
        }
    }
}

/// `{`
pub fn open_curly(context: &mut Interpreter) -> (r: Result<Step, KrkErr>)
    requires
        old(context).wf(),
    ensures
        open_curly_post(old(context)@, final(context)@, r),
        final(context).wf(),
{
    let (word_name, name_len) = context.tib.next_word();
    if name_len == 0 {
        return Err(KrkErr::EmptyTib);
    }
    context.mode = Mode::Compiling(Builder { name: word_name, name_len, definition: DefinedWord::new() });
    assert(empty_definition().cells =~= Seq::new(DEFINITION_SIZE as nat, |i: int| Cell::Empty));
    Ok(Step::Ran)
}

/// `}`; immediate.
pub fn close_curly(context: &mut Interpreter) -> (r: Result<Step, KrkErr>)
    requires
        old(context).wf(),
    ensures
        close_curly_post(old(context)@, final(context)@, r),
        final(context).wf(),
{
    if let Mode::Executing = context.mode {
        return Err(KrkErr::NotCompiling);
    }
    let lex_in_use = context.lex_in_use;
    if !context.words.is_lexicon(lex_in_use) {
        return Err(KrkErr::WrongType);
    }
    let mut mode = Mode::Executing;
    std::mem::swap(&mut mode, &mut context.mode);
    match mode {
        Mode::Compiling(b) => {
            let ghost bm = b.definition@;
            let word_name = b.name;
            let word_index = context.words.add_word(
                Word::new(word_name, b.name_len, false, WordFlavor::Defined(b.definition)),
            );
            context.words.add_to_lexicon(lex_in_use, word_name, word_index);
            proof {
                let ws = context@.words;
                assert forall|i: int| crate::word::is_defined_at(ws, i) implies (
                #[trigger] ws[i]).flavor->Defined_0@.wf() by {
                    if i < old(context)@.words.len() {
                        assert(crate::word::is_defined_at(old(context)@.words, i));
                    }
                }
            }
            Ok(Step::Ran)
        },
        Mode::Executing => Err(KrkErr::NotCompiling),
    }
}

/// `(`: opens a frame.
pub fn open_parenth(context: &mut Interpreter) -> (r: Result<Step, KrkErr>)
    requires
        old(context).wf(),
    ensures
        r == Ok::<Step, KrkErr>(Step::Ran),
        final(context)@ == with_stack(old(context)@, old(context)@.stack.start()),
        final(context).wf(),
{
    context.stack.start_stack();
    Ok(Step::Ran)
}

/// `)`
pub fn close_parenth(context: &mut Interpreter) -> (r: Result<Step, KrkErr>)
    requires
        old(context).wf(),
    ensures
        close_parenth_post(old(context)@, final(context)@, r),
        final(context).wf(),
{
    if let Some(_) = context.stack.end_stack() {
        Ok(Step::Ran)
    } else {
        Err(KrkErr::LevelStackUnderun)
    }
}

/// `flush`
pub fn flush(context: &mut Interpreter) -> (r: Result<Step, KrkErr>)
    requires
        old(context).wf(),
    ensures
        flush_post(old(context)@, final(context)@, r),
        final(context).wf(),
{
    let ghost m = context@;
    let ghost frame = m.stack.frame();
    let ghost base = m.stack.base;
    assert(m.stack.cells.subrange(0, m.stack.cells.len() as int) =~= m.stack.cells);
    assert(frame.subrange(frame.len() as int, frame.len() as int) =~= Seq::<Cell>::empty());
    loop
        invariant
            context.wf(),
            base <= context@.stack.cells.len() <= m.stack.cells.len(),
            context@.stack == (StackModel {
                cells: m.stack.cells.subrange(0, context@.stack.cells.len() as int),
                ..m.stack
            }),
            context@.allocs == release_refs(
                m.allocs,
                frame.subrange(context@.stack.cells.len() - base, frame.len() as int),
            ),
            context@ == (InterpModel { stack: context@.stack, allocs: context@.allocs, ..m }),
            m.stack.wf(),
            frame == m.stack.frame(),
            base == m.stack.base,
        ensures
            context.wf(),
            context@.stack.cells.len() == base,
            context@.stack == (StackModel { cells: m.stack.cells.subrange(0, base), ..m.stack }),
            context@.allocs == release_refs(m.allocs, frame),
            context@ == (InterpModel { stack: context@.stack, allocs: context@.allocs, ..m }),
        decreases context@.stack.cells.len(),
    {
        let ghost k = context@.stack.cells.len();
        match context.stack.pop() {
            Some(dat) => {
                assert(dat == frame[k - 1 - base]);
                if let Cell::AllocRef(index, _) = dat {
                    let _ = context.allocs.release(index);
                }
                assert(frame.subrange(k - 1 - base, frame.len() as int).drop_first() =~= frame.subrange(
                    k - base,
                    frame.len() as int,
                ));
                assert(context@.stack.cells =~= m.stack.cells.subrange(0, k - 1));
            },
            None => {
                assert(frame.subrange(0, frame.len() as int) =~= frame);
                assert(m.stack.cells.subrange(0, base) =~= context@.stack.cells);
                break;
            },
        }
    }
    assert(context@.stack == m.stack.flushed());
    assert(context@.allocs == release_refs(m.allocs, m.stack.frame()));
    Ok(Step::Ran)
}

/// `size`
pub fn size(context: &mut Interpreter) -> (r: Result<Step, KrkErr>)
    requires
        old(context).wf(),
    ensures
        size_post(old(context)@, final(context)@, r),
        final(context).wf(),
{
    let n = context.stack.size();
    let v: KrkInt = if n as u64 <= i64::MAX as u64 {
        n as KrkInt
    } else {
        i64::MAX
    };
    context.stack.push(Cell::Integer(v));
    Ok(Step::Ran)
}

/// `->aux`
pub fn to_aux(context: &mut Interpreter) -> (r: Result<Step, KrkErr>)
    requires
        old(context).wf(),
    ensures
        to_aux_post(old(context)@, final(context)@, r),
        final(context).wf(),
{
    if let Some(cell) = context.stack.pop() {
        context.aux.push(cell);
        Ok(Step::Ran)
    } else {
        Err(KrkErr::StackUnderun)
    }
}

/// `aux->`
pub fn from_aux(context: &mut Interpreter) -> (r: Result<Step, KrkErr>)
    requires
        old(context).wf(),
    ensures
        from_aux_post(old(context)@, final(context)@, r),
        final(context).wf(),
{
    if let Some(cell) = context.aux.pop() {
        context.stack.push(cell);
        Ok(Step::Ran)
    } else {
        Err(KrkErr::AuxStackUnderun)
    }
}

} // verus!
