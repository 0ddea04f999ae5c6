//! Laws that relate the operations of the library to one another.
use vstd::prelude::*;

use crate::cell::{literal_of, Cell};
use crate::control::close_parenth_post;
use crate::error::KrkErr;
use crate::interp::{ArithOp, InterpModel, Step};
use crate::primitives::{arith_post, two_popped, with_stack};
use crate::control::flush_post;
use crate::name::name_buffer;
use crate::step::{name_array, step_post, token_post};
use crate::tib::{after_token, lemma_next_token_short, next_token};
use vstd::array::{spec_array_fill_for_copy_type, spec_array_update};
use crate::memory::{fresh_data, AllocsModel};
use crate::name::WordName;
use crate::stack::StackModel;
use crate::word::{DefinitionModel, LexiconWord, DEFINITION_SIZE};

verus! {

/// Registering two words under one name in the same lexicon leaves the name
/// mapped to the later one only.
pub proof fn lemma_lexicon_last_write_wins(
    l0: LexiconWord,
    l1: LexiconWord,
    l2: LexiconWord,
    name: WordName,
    first: usize,
    second: usize,
)
    requires
        l1.entries() == l0.entries().insert(name, first),
        l2.entries() == l1.entries().insert(name, second),
    ensures
        l2.entries().contains_key(name),
        l2.entries()[name] == second,
        l2.entries().dom() == l0.entries().dom().insert(name),
{
    assert(l2.entries().dom() =~= l0.entries().dom().insert(name));
}

/// A token that is no number and resolves to nothing fails with
/// `WordNotFound` and leaves the interpreter, its stack included, as it was.
pub proof fn lemma_unknown_name_changes_nothing(
    name: WordName,
    len: u8,
    m: InterpModel,
    m2: InterpModel,
    r: Result<Step, KrkErr>,
)
    requires
        token_post(name, len, m, m2, r),
        literal_of(name@.subrange(0, len as int)) is None,
        m.resolve(name) is None,
    ensures
        r == Err::<Step, KrkErr>(KrkErr::WordNotFound),
        m2 == m,
        m2.stack == m.stack,
{
}

/// An arithmetic primitive on a frame of fewer than two cells fails with
/// `StackUnderun`, after popping what there was.
pub proof fn lemma_arith_underflow(op: ArithOp, m: InterpModel, m2: InterpModel, r: Result<Step, KrkErr>)
    requires
        m.stack.size() < 2,
        arith_post(op, m, m2, r),
    ensures
        r == Err::<Step, KrkErr>(KrkErr::StackUnderun),
        m2 == with_stack(m, two_popped(m.stack)),
        m.stack.size() == 0 ==> m2 == m,
{
}

/// Inside a frame opened by `start_stack`, `size` counts exactly the cells
/// pushed since it opened.
pub proof fn lemma_frame_counts_pushes(s: StackModel, pushed: Seq<Cell>)
    requires
        s.wf(),
    ensures
        s.start().push_all(pushed).size() == pushed.len(),
        s.start().push_all(pushed).frame() == pushed,
{
    assert(s.start().push_all(pushed).frame() =~= pushed);
}

/// Closing a frame gives back the base and the saved bases from before it
/// opened, whatever was pushed inside it.
pub proof fn lemma_frames_balance(s: StackModel, pushed: Seq<Cell>)
    requires
        s.wf(),
    ensures
        s.start().push_all(pushed).end().base == s.base,
        s.start().push_all(pushed).end().saved == s.saved,
        s.start().push_all(pushed).end().cells == s.cells + pushed,
{
    assert(s.start().push_all(pushed).end().saved =~= s.saved);
}

/// A frame that was opened, filled with any cells and flushed holds
/// nothing, and closing it gives back the stack from before it opened.
pub proof fn lemma_flushed_frame_closes_clean(
    m: InterpModel,
    inside: InterpModel,
    flushed: InterpModel,
    closed: InterpModel,
    pushed: Seq<Cell>,
    r1: Result<Step, KrkErr>,
    r2: Result<Step, KrkErr>,
)
    requires
        m.stack.wf(),
        inside.stack == m.stack.start().push_all(pushed),
        flush_post(inside, flushed, r1),
        close_parenth_post(flushed, closed, r2),
    ensures
        r1 == Ok::<Step, KrkErr>(Step::Ran),
        flushed.stack.size() == 0,
        r2 == Ok::<Step, KrkErr>(Step::Ran),
        closed.stack == m.stack,
{
    let s = m.stack;
    assert((s.cells + pushed).subrange(0, s.cells.len() as int) =~= s.cells);
    assert(s.saved.push(s.base as usize).drop_last() =~= s.saved);
}

/// At the top level, a token that is no number and that no lexicon
/// resolves stops the step with `WordNotFound`; only the reading position
/// moves, and the stack stays exactly as it was.
pub proof fn lemma_unknown_name_at_top_level(m: InterpModel, m2: InterpModel, r: Result<Step, KrkErr>)
    requires
        m.wf(),
        step_post(m, m2, r),
        m.pending is None,
        m.cep is None,
        m.executing(),
        next_token(m.source, m.position).len() > 0,
        literal_of(next_token(m.source, m.position)) is None,
        m.resolve(name_array(next_token(m.source, m.position))) is None,
    ensures
        r == Err::<Step, KrkErr>(KrkErr::WordNotFound),
        m2 == (InterpModel { position: after_token(m.source, m.position), ..m }),
        m2.stack == m.stack,
{
    let tok = next_token(m.source, m.position);
    lemma_next_token_short(m.source, m.position);
    lemma_name_array_exists(tok);
    assert(name_array(tok)@.subrange(0, tok.len() as int) =~= tok);
}

/// Closing a frame when none is open is the frame-underflow error, and
/// changes nothing.
pub proof fn lemma_unmatched_close_fails(m: InterpModel, m2: InterpModel, r: Result<Step, KrkErr>)
    requires
        m.stack.saved.len() == 0,
        close_parenth_post(m, m2, r),
    ensures
        r == Err::<Step, KrkErr>(KrkErr::LevelStackUnderun),
        m2 == m,
{
}

/// Compile calls that fit in the room left are all accepted, and fill the
/// definition by exactly their number.
pub proof fn lemma_compile_within_capacity(d: DefinitionModel, steps: Seq<(bool, Cell)>)
    requires
        d.wf(),
        d.code_len + d.data_len + steps.len() <= DEFINITION_SIZE,
    ensures
        d.compile_all(steps) is Some,
        d.compile_all(steps)->0.wf(),
        d.compile_all(steps)->0.code_len + d.compile_all(steps)->0.data_len == d.code_len + d.data_len
            + steps.len(),
    decreases steps.len(),
{
    if steps.len() > 0 {
        let next = d.compile(steps[0])->0;
        lemma_compile_within_capacity(next, steps.drop_first());
    }
}

/// Once code and data fill the definition, a further compile call of either
/// kind is rejected.
pub proof fn lemma_full_definition_rejects(d: DefinitionModel, step: (bool, Cell))
    requires
        d.wf(),
        d.code_len + d.data_len == DEFINITION_SIZE,
    ensures
        d.compile(step) is None,
{
}

/// The array whose first `i` bytes are those of `s`, the rest zero.
pub open spec fn array_prefix(s: Seq<u8>, i: nat) -> WordName
    decreases i,
{
    if i == 0 {
        spec_array_fill_for_copy_type::<u8, 32>(0u8)
    } else {
        spec_array_update(array_prefix(s, (i - 1) as nat), i - 1, s[i - 1])
    }
}

proof fn lemma_array_prefix(s: Seq<u8>, i: nat)
    requires
        s.len() == 32,
        i <= 32,
    ensures
        forall|j: int| 0 <= j < i ==> (#[trigger] array_prefix(s, i)@[j]) == s[j],
    decreases i,
{
    broadcast use vstd::array::group_array_axioms;

    if i > 0 {
        lemma_array_prefix(s, (i - 1) as nat);
        assert forall|j: int| 0 <= j < i implies (#[trigger] array_prefix(s, i)@[j]) == s[j] by {
            if j < i - 1 {
                assert(array_prefix(s, (i - 1) as nat)@[j] == s[j]);
            }
        }
    }
}

/// A word name with the bytes of every token exists.
pub proof fn lemma_name_array_exists(tok: Seq<u8>)
    ensures
        name_array(tok)@ == name_buffer(tok),
{
    broadcast use vstd::array::group_array_axioms;

    let s = name_buffer(tok);
    lemma_array_prefix(s, 32);
    let a = array_prefix(s, 32);
    assert(a@ =~= s);
}

/// An allocation can be released at once, which frees its index; the next
/// allocation takes that same index, with a reference count of one.
pub proof fn lemma_allocation_reuse(m: AllocsModel, n: nat, k: nat)
    requires
        m.wf(),
        m.slots.len() < usize::MAX,
    ensures
        ({
            let i = m.next_index();
            let m1 = m.after_alloc(fresh_data(n));
            let m2 = m1.after_release(i as usize);
            &&& m1.is_live(i)
            &&& m1.slots[i].ref_count == 1
            &&& !(m1.slots[i].buffer is Cells)
            &&& m2.wf()
            &&& m2.next_index() == i
            &&& m2.after_alloc(fresh_data(k)).slots[i] == fresh_data(k)
            &&& m2.after_alloc(fresh_data(k)).slots[i].ref_count == 1
        }),
{
    let i = m.next_index();
    m.lemma_alloc_wf(fresh_data(n));
    let m1 = m.after_alloc(fresh_data(n));
    m1.lemma_release_wf(i as usize);
    let m2 = m1.after_release(i as usize);
    m2.lemma_alloc_wf(fresh_data(k));
}

} // verus!
