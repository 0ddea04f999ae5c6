//! Memory-access primitives: store, fetch, reference arithmetic and allocation.
use vstd::prelude::*;

use crate::cell::Cell;
use crate::control::release_ref;
use crate::error::KrkErr;
use crate::interp::{InterpModel, Interpreter, Step};
use crate::memory::{after_store, fetch_result, fresh_data, store_result};
use crate::primitives::{second, top, two_popped, with_stack};
use crate::word::{data_written, DefinitionModel};

verus! {

/// `!` through a word reference: writes a number into data cell `off` of
/// definition `w`, releasing the allocation reference it held, if any.
pub open spec fn word_store_post(
    m: InterpModel,
    popped: InterpModel,
    w: usize,
    off: usize,
    dat: Cell,
    m2: InterpModel,
    r: Result<Step, KrkErr>,
) -> bool {
    if w >= m.words.len() {
        r == Err::<Step, KrkErr>(KrkErr::WordNotFound) && m2 == popped
    } else if !(m.words[w as int].flavor is Defined) {
        r == Err::<Step, KrkErr>(KrkErr::WrongType) && m2 == popped
    } else if off >= m.words[w as int].flavor->Defined_0@.data_len {
        r == Err::<Step, KrkErr>(KrkErr::IndexOutOfBounds) && m2 == popped
    } else if !(dat is Integer || dat is Float) {
        r == Err::<Step, KrkErr>(KrkErr::WrongType) && m2 == popped
    } else {
        let old_cell = m.words[w as int].flavor->Defined_0@.cells[DefinitionModel::data_slot(off as int)];
        &&& r == Ok::<Step, KrkErr>(Step::Ran)
        &&& m2 == InterpModel { words: m2.words, allocs: release_ref(m.allocs, old_cell), ..popped }
        &&& data_written(m.words, m2.words, w as int, off as int, dat)
    }
}

/// `!`: pops a reference, then a value (both, before any check), and
/// writes the value where the reference points.
pub open spec fn store_post(m: InterpModel, m2: InterpModel, r: Result<Step, KrkErr>) -> bool {
    let s = m.stack;
    let popped = with_stack(m, two_popped(s));
    if s.size() < 2 {
        r == Err::<Step, KrkErr>(KrkErr::StackUnderun) && m2 == popped
    } else {
        match top(s) {
            Cell::AllocRef(i, off) => {
                let res = store_result(m.allocs, i, off, second(s));
                match res {
                    Ok(_) => r == Ok::<Step, KrkErr>(Step::Ran) && m2 == InterpModel {
                        allocs: after_store(m.allocs, i, off, second(s)),
                        ..popped
                    },
                    Err(e) => r == Err::<Step, KrkErr>(e) && m2 == popped,
                }
            },
            Cell::WordRef(w, off) => word_store_post(m, popped, w, off, second(s), m2, r),
            _ => r == Err::<Step, KrkErr>(KrkErr::WrongType) && m2 == popped,
        }
    }
}

/// `@`: pops a reference and pushes the cell it points to: a cell or byte
/// of an allocation, or a data cell of a definition.
pub open spec fn fetch_post(m: InterpModel, m2: InterpModel, r: Result<Step, KrkErr>) -> bool {
    let s = m.stack;
    let p = s.drop_top();
    if s.size() == 0 {
        r == Err::<Step, KrkErr>(KrkErr::StackUnderun) && m2 == m
    } else {
        match top(s) {
            Cell::AllocRef(i, off) => match fetch_result(m.allocs, i, off) {
                Ok(c) => r == Ok::<Step, KrkErr>(Step::Ran) && m2 == with_stack(m, p.push(c)),
                Err(e) => r == Err::<Step, KrkErr>(e) && m2 == with_stack(m, p),
            },
            Cell::WordRef(w, off) => if w >= m.words.len() {
                r == Err::<Step, KrkErr>(KrkErr::WordNotFound) && m2 == with_stack(m, p)
            } else if !(m.words[w as int].flavor is Defined) {
                r == Err::<Step, KrkErr>(KrkErr::WrongType) && m2 == with_stack(m, p)
            } else if off >= m.words[w as int].flavor->Defined_0@.data_len {
                r == Err::<Step, KrkErr>(KrkErr::IndexOutOfBounds) && m2 == with_stack(m, p)
            } else {
                r == Ok::<Step, KrkErr>(Step::Ran) && m2 == with_stack(
                    m,
                    p.push(m.words[w as int].flavor->Defined_0@.cells[DefinitionModel::data_slot(off as int)]),
                )
            },
            _ => r == Err::<Step, KrkErr>(KrkErr::WrongType) && m2 == with_stack(m, p),
        }
    }
}

/// `offset`: pops a reference, then an integer (both, before any check),
/// and pushes the reference moved by that integer; the new offset must be
/// a valid index.
pub open spec fn offset_post(m: InterpModel, m2: InterpModel, r: Result<Step, KrkErr>) -> bool {
    let s = m.stack;
    let p = two_popped(s);
    if s.size() < 2 {
        r == Err::<Step, KrkErr>(KrkErr::StackUnderun) && m2 == with_stack(m, p)
    } else {
        match (second(s), top(s)) {
            (Cell::Integer(n), Cell::AllocRef(i, cur)) => if 0 <= cur + n <= usize::MAX {
                r == Ok::<Step, KrkErr>(Step::Ran) && m2 == with_stack(m, p.push(Cell::AllocRef(i, (cur + n) as usize)))
            } else {
                r == Err::<Step, KrkErr>(KrkErr::IndexOutOfBounds) && m2 == with_stack(m, p)
            },
            (Cell::Integer(n), Cell::WordRef(i, cur)) => if 0 <= cur + n <= usize::MAX {
                r == Ok::<Step, KrkErr>(Step::Ran) && m2 == with_stack(m, p.push(Cell::WordRef(i, (cur + n) as usize)))
            } else {
                r == Err::<Step, KrkErr>(KrkErr::IndexOutOfBounds) && m2 == with_stack(m, p)
            },
            _ => r == Err::<Step, KrkErr>(KrkErr::WrongType) && m2 == with_stack(m, p),
        }
    }
}

/// `alloc`: pops a positive size and pushes a reference to a new cell buffer
/// of that many zeros.
pub open spec fn alloc_post(m: InterpModel, m2: InterpModel, r: Result<Step, KrkErr>) -> bool {
    let s = m.stack;
    let p = s.drop_top();
    if s.size() == 0 {
        r == Err::<Step, KrkErr>(KrkErr::StackUnderun) && m2 == m
    } else {
        match top(s) {
            Cell::Integer(n) => if 0 < n <= usize::MAX {
                &&& r == Ok::<Step, KrkErr>(Step::Ran)
                &&& m2 == InterpModel {
                    stack: p.push(Cell::AllocRef(m.allocs.next_index() as usize, 0)),
                    allocs: m.allocs.after_alloc(fresh_data(n as nat)),
                    ..m
                }
            } else {
                r == Err::<Step, KrkErr>(KrkErr::WrongSize) && m2 == with_stack(m, p)
            },
            _ => r == Err::<Step, KrkErr>(KrkErr::WrongType) && m2 == with_stack(m, p),
        }
    }
}

/// Writes `dat` into data cell `off` of definition `w`.
fn store_into_word(context: &mut Interpreter, w: usize, off: usize, dat: Cell) -> (r: Result<Step, KrkErr>)
    requires
        old(context).wf(),
    ensures
        word_store_post(old(context)@, old(context)@, w, off, dat, final(context)@, r),
        final(context).wf(),
{
    let old_cell = match context.words.defined_at(w) {
        None => {
            return if w < context.words.len() {
                Err(KrkErr::WrongType)
            } else {
                Err(KrkErr::WordNotFound)
            };
        },
        Some(defined) => {
            assert(defined@.wf());
            match defined.data_at(off) {
                None => {
                    return Err(KrkErr::IndexOutOfBounds);
                },
                Some(c) => c,
            }
        },
    };
    if !dat.is_number() {
        return Err(KrkErr::WrongType);
    }
    if let Cell::AllocRef(index, _) = old_cell {
        let _ = context.allocs.release(index);
    }
    context.words.set_data(w, off, dat);
    Ok(Step::Ran)
}

/// `!`
pub fn mem_exlam(context: &mut Interpreter) -> (r: Result<Step, KrkErr>)
    requires
        old(context).wf(),
    ensures
        store_post(old(context)@, final(context)@, r),
        final(context).wf(),
{
    let ref_cell = context.stack.pop();
    let dat_cell = context.stack.pop();
    proof {
        let s = old(context)@.stack;
        if s.size() >= 2 {
            assert(s.drop_top().cells.last() == second(s));
        }
    }
    if let (Some(ref_cell), Some(dat_cell)) = (ref_cell, dat_cell) {
        match ref_cell {
            Cell::AllocRef(alloc_ref, offset) => match context.allocs.store(alloc_ref, offset, dat_cell) {
                Ok(()) => Ok(Step::Ran),
                Err(e) => Err(e),
            },
            Cell::WordRef(word_ref, offset) => store_into_word(context, word_ref, offset, dat_cell),
            _ => Err(KrkErr::WrongType),
        }
    } else {
        Err(KrkErr::StackUnderun)
    }
}

/// `@`
pub fn mem_at(context: &mut Interpreter) -> (r: Result<Step, KrkErr>)
    requires
        old(context).wf(),
    ensures
        fetch_post(old(context)@, final(context)@, r),
        final(context).wf(),
{
    if let Some(ref_cell) = context.stack.pop() {
        match ref_cell {
            Cell::AllocRef(alloc_ref, offset) => match context.allocs.fetch(alloc_ref, offset) {
                Ok(c) => {
                    context.stack.push(c);
                    Ok(Step::Ran)
                },
                Err(e) => Err(e),
            },
            Cell::WordRef(word_ref, offset) => {
                match context.words.defined_at(word_ref) {
                    None => if word_ref < context.words.len() {
                        Err(KrkErr::WrongType)
                    } else {
                        Err(KrkErr::WordNotFound)
                    },
                    Some(defined) => {
                        assert(defined@.wf());
                        match defined.data_at(offset) {
                            None => Err(KrkErr::IndexOutOfBounds),
                            Some(c) => {
                                context.stack.push(c);
                                Ok(Step::Ran)
                            },
                        }
                    },
                }
            },
            _ => Err(KrkErr::WrongType),
        }
    } else {
        Err(KrkErr::StackUnderun)
    }
}

/// `cur + n` when it is a valid index.
fn moved_offset(cur: usize, n: i64) -> (r: Option<usize>)
    ensures
        r == (if 0 <= cur + n <= usize::MAX {
            Some((cur + n) as usize)
        } else {
            None
        }),
{
    let v: i128 = cur as i128 + n as i128;
    if 0 <= v && v <= usize::MAX as i128 {
        Some(v as usize)
    } else {
        None
    }
}

/// `offset`
pub fn mem_offset(context: &mut Interpreter) -> (r: Result<Step, KrkErr>)
    requires
        old(context).wf(),
    ensures
        offset_post(old(context)@, final(context)@, r),
        final(context).wf(),
{
    let ref_cell = context.stack.pop();
    let offset_cell = context.stack.pop();
    proof {
        let s = old(context)@.stack;
        if s.size() >= 2 {
            assert(s.drop_top().cells.last() == second(s));
        }
    }
    if let (Some(ref_cell), Some(offset_cell)) = (ref_cell, offset_cell) {
        if let Cell::Integer(offset) = offset_cell {
            match ref_cell {
                Cell::AllocRef(alloc_ref, current_offset) => match moved_offset(current_offset, offset) {
                    Some(o) => {
                        context.stack.push(Cell::AllocRef(alloc_ref, o));
                        Ok(Step::Ran)
                    },
                    None => Err(KrkErr::IndexOutOfBounds),
                },
                Cell::WordRef(word_ref, current_offset) => match moved_offset(current_offset, offset) {
                    Some(o) => {
                        context.stack.push(Cell::WordRef(word_ref, o));
                        Ok(Step::Ran)
                    },
                    None => Err(KrkErr::IndexOutOfBounds),
                },
                _ => Err(KrkErr::WrongType),
            }
        } else {
            Err(KrkErr::WrongType)
        }
    } else {
        Err(KrkErr::StackUnderun)
    }
}

/// `alloc`
pub fn mem_alloc(context: &mut Interpreter) -> (r: Result<Step, KrkErr>)
    requires
        old(context).wf(),
    ensures
        alloc_post(old(context)@, final(context)@, r),
        final(context).wf(),
{
    if let Some(size_cell) = context.stack.pop() {
        if let Cell::Integer(size) = size_cell {
            if size > 0 && size as u64 <= usize::MAX as u64 {
                let alloc_ref = context.allocs.allocate(size as usize);
                context.stack.push(Cell::AllocRef(alloc_ref, 0));
                Ok(Step::Ran)
            } else {
                Err(KrkErr::WrongSize)
            }
        } else {
            Err(KrkErr::WrongType)
        }
    } else {
        Err(KrkErr::StackUnderun)
    }
}

} // verus!
