//! Stepping: one unit of work per call, either one cell of the running
//! definition or one token of the input, and the host's answers to float
//! requests.
use vstd::prelude::*;

use crate::access::{alloc_post, fetch_post, mem_alloc, mem_at, mem_exlam, mem_offset, offset_post, store_post};
use crate::cell::{literal_of, Cell, Literal};
use crate::control::{
    close_curly, close_curly_post, close_parenth, close_parenth_post, flush, flush_post, from_aux,
    from_aux_post, open_curly, open_curly_post, open_parenth, size, size_post, to_aux, to_aux_post,
};
use crate::error::KrkErr;
use crate::interp::{
    empty_cell_error, link_error, new_empty_cell_error, new_link_error, new_pending_error, new_reply_error,
    pending_error, reply_error, ArithOp, BuilderModel, CompareOp, FloatReply, FloatRequest, InterpModel,
    Interpreter, Mode, Step,
};
use crate::name::{name_buffer, WordName, NAME_SIZE};
use crate::primitives::{
    and, arith_post, bit_post, compare_post, equal, flag, minus, not, not_post, or, percent, plus, slash,
    smaller, star, with_stack, BitOp,
};
use crate::stack::CEP;
use crate::tib::{after_token, next_token};
use crate::word::{is_defined_at, only_count_changed, Primitive, WordFlavor};

verus! {

broadcast use vstd::array::group_array_axioms;

/// What running primitive `p` does.
pub open spec fn primitive_post(p: Primitive, m: InterpModel, m2: InterpModel, r: Result<Step, KrkErr>) -> bool {
    match p {
        Primitive::Plus => arith_post(ArithOp::Add, m, m2, r),
        Primitive::Minus => arith_post(ArithOp::Sub, m, m2, r),
        Primitive::Star => arith_post(ArithOp::Mul, m, m2, r),
        Primitive::Slash => arith_post(ArithOp::Div, m, m2, r),
        Primitive::Percent => arith_post(ArithOp::Rem, m, m2, r),
        Primitive::Smaller => compare_post(CompareOp::Less, m, m2, r),
        Primitive::Equal => compare_post(CompareOp::Equal, m, m2, r),
        Primitive::And => bit_post(BitOp::And, m, m2, r),
        Primitive::Or => bit_post(BitOp::Or, m, m2, r),
        Primitive::Not => not_post(m, m2, r),
        Primitive::OpenCurly => open_curly_post(m, m2, r),
        Primitive::CloseCurly => close_curly_post(m, m2, r),
        Primitive::OpenParenth => r == Ok::<Step, KrkErr>(Step::Ran) && m2 == with_stack(m, m.stack.start()),
        Primitive::CloseParenth => close_parenth_post(m, m2, r),
        Primitive::Flush => flush_post(m, m2, r),
        Primitive::Size => size_post(m, m2, r),
        Primitive::ToAux => to_aux_post(m, m2, r),
        Primitive::FromAux => from_aux_post(m, m2, r),
        Primitive::Store => store_post(m, m2, r),
        Primitive::Fetch => fetch_post(m, m2, r),
        Primitive::Offset => offset_post(m, m2, r),
        Primitive::Allocate => alloc_post(m, m2, r),
        Primitive::Host(id) => r == Ok::<Step, KrkErr>(Step::Host(id)) && m2 == m,
    }
}

/// What running word `i` from the top level does: a definition starts,
/// a primitive runs, a lexicon pushes a reference to itself.
pub open spec fn exec_word_post(i: usize, m: InterpModel, m2: InterpModel, r: Result<Step, KrkErr>) -> bool {
    if i >= m.words.len() {
        r == Err::<Step, KrkErr>(KrkErr::WordNotFound) && m2 == m
    } else {
        match m.words[i as int].flavor {
            WordFlavor::Defined(_) => r == Ok::<Step, KrkErr>(Step::Ran) && m2 == InterpModel {
                cep: Some(CEP { word_index: i, cell_index: 0 }),
                ..m
            },
            WordFlavor::Primitive(p) => primitive_post(p.function, m, m2, r),
            WordFlavor::Lexicon(_) => r == Ok::<Step, KrkErr>(Step::Ran) && m2 == with_stack(
                m,
                m.stack.push(Cell::WordRef(i, 0)),
            ),
            WordFlavor::Link(_) => r == Err::<Step, KrkErr>(link_error()) && m2 == m,
        }
    }
}

/// What running `cell` of a definition does, once the pointer has moved
/// past it: a value is pushed; a reference to a definition calls it, saving
/// the pointer; a primitive runs; a lexicon reference is pushed.
pub open spec fn cell_post(cell: Cell, m: InterpModel, m2: InterpModel, r: Result<Step, KrkErr>) -> bool {
    match cell {
        Cell::Empty => r == Err::<Step, KrkErr>(empty_cell_error()) && m2 == m,
        Cell::WordRef(w, _) => if w >= m.words.len() {
            r == Err::<Step, KrkErr>(KrkErr::WordNotFound) && m2 == m
        } else {
            match m.words[w as int].flavor {
                WordFlavor::Defined(_) => r == Ok::<Step, KrkErr>(Step::Ran) && m2 == InterpModel {
                    ret: m.ret.push(m.cep->0),
                    cep: Some(CEP { word_index: w, cell_index: 0 }),
                    ..m
                },
                WordFlavor::Primitive(p) => primitive_post(p.function, m, m2, r),
                WordFlavor::Lexicon(_) => r == Ok::<Step, KrkErr>(Step::Ran) && m2 == with_stack(
                    m,
                    m.stack.push(cell),
                ),
                WordFlavor::Link(_) => r == Err::<Step, KrkErr>(link_error()) && m2 == m,
            }
        },
        _ => r == Ok::<Step, KrkErr>(Step::Ran) && m2 == with_stack(m, m.stack.push(cell)),
    }
}

/// The word name whose bytes are `name_buffer(tok)`.
pub open spec fn name_array(tok: Seq<u8>) -> WordName {
    choose|a: WordName| a@ == name_buffer(tok)
}

/// Appending `cell` to the code of the definition under construction;
/// `IndexOutOfBounds` when it is full.
pub open spec fn compile_post(cell: Cell, m: InterpModel, m2: InterpModel, r: Result<(), KrkErr>) -> bool {
    let b = m.compiling->0;
    if b.def.has_room() {
        r is Ok && m2 == InterpModel {
            compiling: Some(BuilderModel { def: b.def.with_code(cell), ..b }),
            ..m
        }
    } else {
        r == Err::<(), KrkErr>(KrkErr::IndexOutOfBounds) && m2 == m
    }
}

/// The same, as a step.
pub open spec fn compile_step_post(cell: Cell, m: InterpModel, m2: InterpModel, r: Result<Step, KrkErr>) -> bool {
    let b = m.compiling->0;
    if b.def.has_room() {
        r == Ok::<Step, KrkErr>(Step::Ran) && m2 == InterpModel {
            compiling: Some(BuilderModel { def: b.def.with_code(cell), ..b }),
            ..m
        }
    } else {
        r == Err::<Step, KrkErr>(KrkErr::IndexOutOfBounds) && m2 == m
    }
}

/// What a token does, once read: a number is pushed or compiled (a float
/// after the host reads it); a name is resolved, then run, or compiled as a
/// reference when compiling and the word is not immediate.
pub open spec fn token_post(name: WordName, len: u8, m: InterpModel, m2: InterpModel, r: Result<Step, KrkErr>) -> bool {
    let tok = name@.subrange(0, len as int);
    match literal_of(tok) {
        Some(Literal::Integer(n)) => if m.executing() {
            r == Ok::<Step, KrkErr>(Step::Ran) && m2 == with_stack(m, m.stack.push(Cell::Integer(n)))
        } else {
            compile_step_post(Cell::Integer(n), m, m2, r)
        },
        Some(Literal::Float) => r == Ok::<Step, KrkErr>(Step::Float(FloatRequest::Literal(name, len)))
            && m2 == InterpModel { pending: Some(FloatRequest::Literal(name, len)), ..m },
        None => match m.resolve(name) {
            None => r == Err::<Step, KrkErr>(KrkErr::WordNotFound) && m2 == m,
            Some(i) => if m.executing() || (i < m.words.len() && m.words[i as int].immediate) {
                exec_word_post(i, m, m2, r)
            } else if i >= m.words.len() {
                r == Err::<Step, KrkErr>(KrkErr::WordNotFound) && m2 == m
            } else {
                let b = m.compiling->0;
                if b.def.has_room() {
                    &&& r == Ok::<Step, KrkErr>(Step::Ran)
                    &&& m2 == InterpModel {
                        compiling: Some(BuilderModel { def: b.def.with_code(Cell::WordRef(i, 0)), ..b }),
                        words: m2.words,
                        ..m
                    }
                    &&& only_count_changed(
                        m.words,
                        m2.words,
                        i as int,
                        if m.words[i as int].ref_count < usize::MAX {
                            m.words[i as int].ref_count + 1
                        } else {
                            m.words[i as int].ref_count as int
                        },
                    )
                } else {
                    r == Err::<Step, KrkErr>(KrkErr::IndexOutOfBounds) && m2 == m
                }
            },
        },
    }
}

/// What one step does. While a float request waits, nothing. Else, if a
/// definition runs, its next cell runs; when its code is exhausted the
/// caller resumes from the return stack, or, with none, a token is read.
/// With no definition running, the next token is read: at the end of the
/// input the step reports `Finished`.
pub open spec fn step_post(m: InterpModel, m2: InterpModel, r: Result<Step, KrkErr>) -> bool {
    if m.pending is Some {
        r == Err::<Step, KrkErr>(pending_error()) && m2 == m
    } else if m.cep is Some && !is_defined_at(m.words, m.cep->0.word_index as int) {
        r == Err::<Step, KrkErr>(KrkErr::WordNotFound) && m2 == m
    } else if m.cep is Some && m.cep->0.cell_index < m.words[m.cep->0.word_index as int].flavor->Defined_0@.code_len {
        let c = m.cep->0;
        let cell = m.words[c.word_index as int].flavor->Defined_0@.cells[c.cell_index as int];
        cell_post(
            cell,
            InterpModel { cep: Some(CEP { cell_index: (c.cell_index + 1) as u8, ..c }), ..m },
            m2,
            r,
        )
    } else if m.cep is Some && m.ret.len() > 0 {
        r == Ok::<Step, KrkErr>(Step::Ran) && m2 == InterpModel { cep: Some(m.ret.last()), ret: m.ret.drop_last(), ..m }
    } else {
        let tok = next_token(m.source, m.position);
        let m1 = InterpModel { position: after_token(m.source, m.position), cep: None, ..m };
        if tok.len() == 0 {
            r == Ok::<Step, KrkErr>(Step::Finished) && m2 == m1
        } else {
            token_post(name_array(tok), tok.len() as u8, m1, m2, r)
        }
    }
}

/// What an answer to the waiting float request does: the value is pushed,
/// or compiled when the request was a literal read while compiling; a
/// comparison pushes its flag. With no request waiting, or an answer of the
/// wrong kind, nothing changes.
pub open spec fn resume_post(reply: FloatReply, m: InterpModel, m2: InterpModel, r: Result<(), KrkErr>) -> bool {
    let m1 = InterpModel { pending: None, ..m };
    match (m.pending, reply) {
        (Some(FloatRequest::Literal(_, _)), FloatReply::Value(bits)) => if m.executing() {
            r is Ok && m2 == with_stack(m1, m.stack.push(Cell::Float(bits)))
        } else {
            compile_post(Cell::Float(bits), m1, m2, r)
        },
        (Some(FloatRequest::Arith(_, _, _)), FloatReply::Value(bits)) => r is Ok && m2 == with_stack(
            m1,
            m.stack.push(Cell::Float(bits)),
        ),
        (Some(FloatRequest::Compare(_, _, _)), FloatReply::Truth(t)) => r is Ok && m2 == with_stack(
            m1,
            m.stack.push(Cell::Integer(flag(t))),
        ),
        _ => r == Err::<(), KrkErr>(reply_error()) && m2 == m,
    }
}

impl Interpreter {
    /// Runs primitive `p`.
    pub fn run_primitive(&mut self, p: Primitive) -> (r: Result<Step, KrkErr>)
        requires
            old(self).wf(),
        ensures
            primitive_post(p, old(self)@, final(self)@, r),
            final(self).wf(),
    {
        match p {
            Primitive::Plus => plus(self),
            Primitive::Minus => minus(self),
            Primitive::Star => star(self),
            Primitive::Slash => slash(self),
            Primitive::Percent => percent(self),
            Primitive::Smaller => smaller(self),
            Primitive::Equal => equal(self),
            Primitive::And => and(self),
            Primitive::Or => or(self),
            Primitive::Not => not(self),
            Primitive::OpenCurly => open_curly(self),
            Primitive::CloseCurly => close_curly(self),
            Primitive::OpenParenth => open_parenth(self),
            Primitive::CloseParenth => close_parenth(self),
            Primitive::Flush => flush(self),
            Primitive::Size => size(self),
            Primitive::ToAux => to_aux(self),
            Primitive::FromAux => from_aux(self),
            Primitive::Store => mem_exlam(self),
            Primitive::Fetch => mem_at(self),
            Primitive::Offset => mem_offset(self),
            Primitive::Allocate => mem_alloc(self),
            Primitive::Host(id) => Ok(Step::Host(id)),
        }
    }

    /// Runs word `word_index` from the top level.
    fn exec_word(&mut self, word_index: usize) -> (r: Result<Step, KrkErr>)
        requires
            old(self).wf(),
        ensures
            exec_word_post(word_index, old(self)@, final(self)@, r),
            final(self).wf(),
    {
        let function = match self.words.word_at(word_index) {
            None => {
                return Err(KrkErr::WordNotFound);
            },
            Some(word) => match &word.flavor {
                WordFlavor::Defined(_) => {
                    self.current_cep = Some(CEP::new(word_index));
                    return Ok(Step::Ran);
                },
                WordFlavor::Primitive(primitive) => primitive.function,
                WordFlavor::Lexicon(_) => {
                    self.stack.push(Cell::WordRef(word_index, 0));
                    return Ok(Step::Ran);
                },
                WordFlavor::Link(_) => {
                    return Err(new_link_error());
                },
            },
        };
        self.run_primitive(function)
    }

    /// Runs one cell of the running definition; the pointer has already
    /// moved past it.
    fn exec_cell(&mut self, cell: Cell) -> (r: Result<Step, KrkErr>)
        requires
            old(self).wf(),
            old(self)@.cep is Some,
        ensures
            cell_post(cell, old(self)@, final(self)@, r),
            final(self).wf(),
    {
        match cell {
            Cell::Empty => Err(new_empty_cell_error()),
            Cell::WordRef(w_index, _) => {
                let function = match self.words.word_at(w_index) {
                    None => {
                        return Err(KrkErr::WordNotFound);
                    },
                    Some(word) => match &word.flavor {
                        WordFlavor::Defined(_) => {
                            if let Some(cep) = self.current_cep {
                                self.ret.push(cep);
                            }
                            self.current_cep = Some(CEP::new(w_index));
                            return Ok(Step::Ran);
                        },
                        WordFlavor::Primitive(p) => p.function,
                        WordFlavor::Lexicon(_) => {
                            self.stack.push(cell);
                            return Ok(Step::Ran);
                        },
                        WordFlavor::Link(_) => {
                            return Err(new_link_error());
                        },
                    },
                };
                self.run_primitive(function)
            },
            _ => {
                self.stack.push(cell);
                Ok(Step::Ran)
            },
        }
    }

    /// Resolves `name` in the lexicon in use, then in the root lexicon.
    fn find(&self, name: &WordName) -> (r: Option<usize>)
        ensures
            r == self@.resolve(*name),
    {
        let own = if self.words.is_lexicon(self.lex_in_use) {
            self.words.lexicon_at(self.lex_in_use).find_word(name)
        } else {
            None
        };
        if own.is_some() {
            own
        } else if self.lex_in_use != self.root_lex && self.words.is_lexicon(self.root_lex) {
            self.words.lexicon_at(self.root_lex).find_word(name)
        } else {
            None
        }
    }

    /// Acts on a token while executing.
    fn run_in_exec_mode(&mut self, word_name: WordName, name_len: u8) -> (r: Result<Step, KrkErr>)
        requires
            old(self).wf(),
            old(self)@.executing(),
            old(self)@.pending is None,
            name_len <= NAME_SIZE,
        ensures
            token_post(word_name, name_len, old(self)@, final(self)@, r),
            final(self).wf(),
    {
        match Cell::number(word_name, name_len) {
            Some(Literal::Integer(n)) => {
                self.stack.push(Cell::Integer(n));
                Ok(Step::Ran)
            },
            Some(Literal::Float) => {
                let request = FloatRequest::Literal(word_name, name_len);
                self.pending = Some(request);
                Ok(Step::Float(request))
            },
            None => match self.find(&word_name) {
                Some(word_index) => self.exec_word(word_index),
                None => Err(KrkErr::WordNotFound),
            },
        }
    }

    /// Acts on a token while compiling.
    fn run_in_compile_mode(&mut self, word_name: WordName, name_len: u8) -> (r: Result<Step, KrkErr>)
        requires
            old(self).wf(),
            !old(self)@.executing(),
            old(self)@.pending is None,
            name_len <= NAME_SIZE,
        ensures
            token_post(word_name, name_len, old(self)@, final(self)@, r),
            final(self).wf(),
    {
        match Cell::number(word_name, name_len) {
            Some(Literal::Integer(n)) => match self.compile(Cell::Integer(n)) {
                Ok(()) => Ok(Step::Ran),
                Err(e) => Err(e),
            },
            Some(Literal::Float) => {
                let request = FloatRequest::Literal(word_name, name_len);
                self.pending = Some(request);
                Ok(Step::Float(request))
            },
            None => match self.find(&word_name) {
                None => Err(KrkErr::WordNotFound),
                Some(word_index) => {
                    let immediate = match self.words.word_at(word_index) {
                        None => {
                            return Err(KrkErr::WordNotFound);
                        },
                        Some(word) => word.immediate,
                    };
                    if immediate {
                        self.exec_word(word_index)
                    } else {
                        match self.compile(Cell::WordRef(word_index, 0)) {
                            Ok(()) => {
                                self.words.acquire(word_index);
                                proof {
                                    let ws = self@.words;
                                    assert forall|i: int| is_defined_at(ws, i) implies (
                                    #[trigger] ws[i]).flavor->Defined_0@.wf() by {
                                        assert(is_defined_at(old(self)@.words, i));
                                        assert(ws[i].flavor == old(self)@.words[i].flavor);
                                    }
                                }
                                Ok(Step::Ran)
                            },
                            Err(e) => Err(e),
                        }
                    }
                },
            },
        }
    }

    /// Does one unit of work: one cell of the running definition, or else
    /// one token of the input.
    pub fn run_step(&mut self) -> (r: Result<Step, KrkErr>)
        requires
            old(self).wf(),
        ensures
            step_post(old(self)@, final(self)@, r),
            final(self).wf(),
    {
        if self.pending.is_some() {
            return Err(new_pending_error());
        }
        if let Some(mut cep) = self.current_cep {
            if self.words.defined_at(cep.word_index).is_none() {
                return Err(KrkErr::WordNotFound);
            }
            match cep.next_cell(&self.words) {
                Some(next_cell) => {
                    self.current_cep = Some(cep);
                    return self.exec_cell(next_cell);
                },
                None => {
                    if let Some(caller) = self.ret.pop() {
                        self.current_cep = Some(caller);
                        return Ok(Step::Ran);
                    }
                    self.current_cep = None;
                },
            }
        }
        let ghost m1 = self@;
        let (word_name, name_len) = self.tib.next_word();
        if name_len == 0 {
            return Ok(Step::Finished);
        }
        proof {
            let tok = next_token(m1.source, m1.position);
            assert(word_name@.subrange(0, name_len as int) =~= tok);
            assert(name_array(tok)@ == name_buffer(tok));
            assert(name_array(tok) =~= word_name);
        }
        match self.mode {
            Mode::Executing => self.run_in_exec_mode(word_name, name_len),
            Mode::Compiling(_) => self.run_in_compile_mode(word_name, name_len),
        }
    }

    /// Answers the waiting float request.
    pub fn resume_float(&mut self, reply: FloatReply) -> (r: Result<(), KrkErr>)
        requires
            old(self).wf(),
        ensures
            resume_post(reply, old(self)@, final(self)@, r),
            final(self).wf(),
    {
        match (self.pending, reply) {
            (Some(FloatRequest::Literal(_, _)), FloatReply::Value(bits)) => {
                self.pending = None;
                if let Mode::Executing = self.mode {
                    self.stack.push(Cell::Float(bits));
                    Ok(())
                } else {
                    self.compile(Cell::Float(bits))
                }
            },
            (Some(FloatRequest::Arith(_, _, _)), FloatReply::Value(bits)) => {
                self.pending = None;
                self.stack.push(Cell::Float(bits));
                Ok(())
            },
            (Some(FloatRequest::Compare(_, _, _)), FloatReply::Truth(t)) => {
                self.pending = None;
                self.stack.push(Cell::Integer(if t { -1 } else { 0 }));
                Ok(())
            },
            _ => Err(new_reply_error()),
        }
    }

    /// Appends `cell` to the code of the definition under construction.
    fn compile(&mut self, cell: Cell) -> (r: Result<(), KrkErr>)
        requires
            old(self).wf(),
            !old(self)@.executing(),
        ensures
            compile_post(cell, old(self)@, final(self)@, r),
            final(self).wf(),
    {
        let done = match &mut self.mode {
            Mode::Compiling(b) => b.definition.compile_code(cell),
            Mode::Executing => false,
        };
        if done {
            Ok(())
        } else {
            Err(KrkErr::IndexOutOfBounds)
        }
    }
}

} // verus!
